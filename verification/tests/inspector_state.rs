use nif_viewer::files::{FSState, HashmapFS};
use nif_viewer::keys::{KeyBindings, KeyCode};
use nif_viewer::nif::NifObject;
use nif_viewer::recent::RecentFileSource;
use nif_viewer::state::{property_text, ArchiveState, InspectorState, TopPanelState, UIState};
use nif_viewer::view::{ShadingMode, ViewState};

fn objects() -> Vec<NifObject> {
    vec![
        NifObject { key: 1, type_label: "NiNode".to_string(), fields: String::new(), links: vec![2] },
        NifObject { key: 2, type_label: "NiTriShape".to_string(), fields: String::new(), links: vec![] },
    ]
}

fn ui_state() -> UIState {
    UIState {
        archive: ArchiveState {
            show_zip_popup: false,
            zip_url_input: String::new(),
            recent_source: RecentFileSource::Url,
            selected_file: None,
            file_search_query: String::new(),
            pending_file: None,
            nif_load_error: None,
        },
        inspector: InspectorState::new(),
        top_panel: TopPanelState {
            show_nif_popup: false,
            show_resources: false,
            show_keybindings: false,
            capturing_frame_mesh_key: false,
            capturing_mouse_binding: None,
            show_resource_permission_prompt: false,
            resource_paths: Vec::new(),
            selected_resource: None,
        },
        key_bindings: KeyBindings::default(),
        view: ViewState::default(),
    }
}

#[test]
fn showing_a_stream_resets_the_selection() {
    let mut inspector = InspectorState::new();
    inspector.selected_node = Some(4);
    inspector.triangle_count = 12;
    inspector.show_stream(&objects(), &vec![1]);
    assert_eq!(inspector.nif_objects.len(), 2);
    assert_eq!(inspector.nif_objects[0].children, vec![1]);
    assert_eq!(inspector.nif_roots, vec![0]);
    assert_eq!(inspector.selected_node, None);
    assert_eq!(inspector.triangle_count, 0);
}

#[test]
fn picking_selects_a_node() {
    let mut inspector = InspectorState::new();
    inspector.select_node(Some(3));
    assert_eq!(inspector.selected_node, Some(3));
    inspector.select_node(None);
    assert_eq!(inspector.selected_node, Some(3));
}

#[test]
fn node_labels_show_position_and_type() {
    let mut inspector = InspectorState::new();
    inspector.show_stream(&objects(), &vec![1]);
    assert_eq!(inspector.node_label(1), Some("1: NiTriShape".to_string()));
    assert_eq!(inspector.node_label(2), None);
}

#[test]
fn property_values_are_cut_to_fifty_characters() {
    assert_eq!(property_text("short"), "short");
    let long: String = "x".repeat(60);
    assert_eq!(property_text(&long), "x".repeat(50));
    let wide: String = "é".repeat(51);
    assert_eq!(property_text(&wide), "é".repeat(50));
}

#[test]
fn the_frame_shortcut_waits_for_captures() {
    let mut state = ui_state();
    assert!(state.frame_requested(&vec![KeyCode::KeyA, KeyCode::KeyF]));
    assert!(!state.frame_requested(&vec![KeyCode::KeyA]));
    state.top_panel.capturing_frame_mesh_key = true;
    assert!(!state.frame_requested(&vec![KeyCode::KeyF]));
}

#[test]
fn view_options_come_from_the_view_state() {
    let mut state = ui_state();
    state.view.shading_mode = ShadingMode::Lit;
    let options = state.view_options();
    assert_eq!(options.shading_mode, ShadingMode::Lit);
    assert_eq!(options.wireframe, false);
}

#[test]
fn a_nif_read_rebases_the_archive() {
    let mut files = FSState::new();
    files.file_system = Some(HashmapFS::new_from_vec(
        String::new(),
        vec![("mods\\a\\meshes\\tree.nif".to_string(), b"nif".to_vec())],
    ));
    assert_eq!(files.read_nif("mods\\a\\meshes\\tree.nif"), Some(b"nif".to_vec()));
    assert!(files.file_system.as_ref().unwrap().read("tree.nif", false).is_none());
    assert_eq!(files.read_nif("mods\\a\\meshes\\rock.nif"), None);
    assert_eq!(FSState::new().read_nif("x.nif"), None);
}
