use nif_viewer::files::{rebuild_resources, FSState, HashmapFS};
use nif_viewer::shared::SharedBytes;
use nif_viewer::keys::{KeyBindings, KeyCode, MouseButton};
use nif_viewer::recent::RecentFileSource;
use nif_viewer::state::{
    begin_upload, finish_archive_load, finish_upload, is_nif_file, open_failure, ArchiveLoadStatus,
    ArchiveState, MouseBinding, TopPanelState, UploadStatus,
};

fn archive_state() -> ArchiveState {
    ArchiveState {
        show_zip_popup: false,
        zip_url_input: "old.zip".to_string(),
        recent_source: RecentFileSource::Disk,
        selected_file: Some("meshes\\old.nif".to_string()),
        file_search_query: String::new(),
        pending_file: None,
        nif_load_error: None,
    }
}

fn panel(paths: &[&str], selected: Option<usize>) -> TopPanelState {
    TopPanelState {
        show_nif_popup: false,
        show_resources: true,
        show_keybindings: false,
        capturing_frame_mesh_key: false,
        capturing_mouse_binding: None,
        show_resource_permission_prompt: false,
        resource_paths: paths.iter().map(|p| p.to_string()).collect(),
        selected_resource: selected,
    }
}

fn upload() -> UploadStatus {
    UploadStatus { phase: Some("Uploading...".to_string()), error: None, success: None, download_url: None }
}

#[test]
fn nif_names_match_in_any_case() {
    assert!(is_nif_file("meshes\\tree.nif"));
    assert!(is_nif_file("TREE.NiF"));
    assert!(!is_nif_file("tree.nif.bak"));
    assert!(!is_nif_file("nif"));
    assert!(!is_nif_file(""));
}

#[test]
fn the_nif_error_is_shown_first() {
    let mut state = archive_state();
    let archive = Some("archive".to_string());
    let upload = Some("upload".to_string());
    assert_eq!(state.current_error(&archive, &upload), Some("archive".to_string()));
    assert_eq!(state.current_error(&None, &upload), Some("upload".to_string()));
    assert_eq!(state.current_error(&None, &None), None);
    state.nif_load_error = Some("nif".to_string());
    assert_eq!(state.current_error(&archive, &upload), Some("nif".to_string()));
}

#[test]
fn dismissing_clears_every_error() {
    let mut state = archive_state();
    state.nif_load_error = Some("nif".to_string());
    let mut load = ArchiveLoadStatus { phase: Some("p".to_string()), error: Some("a".to_string()) };
    let mut up = upload();
    up.error = Some("u".to_string());
    state.dismiss_errors(&mut load, &mut up);
    assert_eq!(state.nif_load_error, None);
    assert_eq!(load.error, None);
    assert_eq!(up.error, None);
    assert_eq!(load.phase, Some("p".to_string()));
}

#[test]
fn picked_files_become_selected_and_pending() {
    let mut state = archive_state();
    let opened = state.apply_picked(
        Some("meshes\\new.nif".to_string()),
        Some("new.zip".to_string()),
        Some(RecentFileSource::Url),
    );
    assert!(opened);
    assert_eq!(state.zip_url_input, "new.zip");
    assert_eq!(state.recent_source, RecentFileSource::Url);
    assert_eq!(state.selected_file, Some("meshes\\new.nif".to_string()));
    assert_eq!(state.pending_file, Some("meshes\\new.nif".to_string()));
    assert!(!state.apply_picked(None, None, None));
    assert_eq!(state.zip_url_input, "new.zip");
}

#[test]
fn a_pending_nif_is_taken_once_the_archive_holds_it() {
    let mut state = archive_state();
    state.pending_file = Some("meshes\\tree.nif".to_string());
    let names = vec!["meshes\\rock.nif".to_string()];
    assert_eq!(state.take_pending_nif(&names), None);
    assert_eq!(state.pending_file, Some("meshes\\tree.nif".to_string()));
    let names = vec!["meshes\\rock.nif".to_string(), "meshes\\tree.nif".to_string()];
    assert_eq!(state.take_pending_nif(&names), Some("meshes\\tree.nif".to_string()));
    assert_eq!(state.pending_file, None);
    assert_eq!(state.selected_file, Some("meshes\\tree.nif".to_string()));
    state.pending_file = Some("textures\\bark.dds".to_string());
    let names = vec!["textures\\bark.dds".to_string()];
    assert_eq!(state.take_pending_nif(&names), None);
}

#[test]
fn a_url_load_normalizes_the_pending_file() {
    let mut state = archive_state();
    let mut status = ArchiveLoadStatus { phase: None, error: Some("old".to_string()) };
    let mut fsstate = FSState::new();
    fsstate.file_system = Some(HashmapFS::new(String::new(), vec![("a.nif".to_string(), SharedBytes::from_slice(b"a"))]));
    rebuild_resources(&mut fsstate, &["/data/one".to_string()]);
    state.begin_url_load(
        &mut status,
        &mut fsstate,
        "https://example.com/a.zip".to_string(),
        Some("Meshes/Tree.NIF".to_string()),
    );
    assert!(fsstate.file_system.is_none());
    assert_eq!(fsstate.resource_file_systems.len(), 1);
    assert_eq!(state.zip_url_input, "https://example.com/a.zip");
    assert_eq!(state.recent_source, RecentFileSource::Url);
    assert_eq!(state.selected_file, None);
    assert_eq!(state.pending_file, Some("meshes\\tree.nif".to_string()));
    assert_eq!(status.phase, Some("Preparing download...".to_string()));
    assert_eq!(status.error, None);
}

#[test]
fn a_local_load_keeps_the_pending_file() {
    let mut state = archive_state();
    state.pending_file = Some("meshes\\a.nif".to_string());
    let mut status = ArchiveLoadStatus { phase: None, error: Some("old".to_string()) };
    state.begin_local_load(&mut status, "/tmp/a.zip".to_string());
    assert_eq!(state.zip_url_input, "/tmp/a.zip");
    assert_eq!(state.selected_file, None);
    assert_eq!(state.pending_file, Some("meshes\\a.nif".to_string()));
    assert_eq!(status.phase, Some("Opening archive...".to_string()));
    assert_eq!(status.error, None);
}

#[test]
fn finishing_a_load_clears_the_phase() {
    let mut status = ArchiveLoadStatus { phase: Some("Opening archive...".to_string()), error: None };
    finish_archive_load(&mut status, Ok(()));
    assert_eq!(status.phase, None);
    assert_eq!(status.error, None);
    status.phase = Some("again".to_string());
    finish_archive_load(&mut status, Err(open_failure("/tmp/a.zip", "Unzip Error: bad")));
    assert_eq!(status.phase, None);
    assert_eq!(status.error, Some("Could not open /tmp/a.zip: Unzip Error: bad".to_string()));
}

#[test]
fn uploads_report_their_outcome() {
    let mut up = upload();
    up.error = Some("old".to_string());
    up.success = Some("old".to_string());
    begin_upload(&mut up);
    assert_eq!(up.phase, Some("Preparing upload...".to_string()));
    assert_eq!(up.error, None);
    assert_eq!(up.success, None);
    finish_upload(&mut up, Ok("https://example.com/u.zip".to_string()));
    assert_eq!(up.success, Some("Upload complete. Opening archive...".to_string()));
    assert_eq!(up.download_url, Some("https://example.com/u.zip".to_string()));
    let mut failed = upload();
    finish_upload(&mut failed, Err("refused".to_string()));
    assert_eq!(failed.phase, None);
    assert_eq!(failed.error, Some("refused".to_string()));
}

#[test]
fn resources_are_added_selected_and_removed() {
    let mut panel = panel(&["a"], None);
    panel.add_resource("b".to_string());
    assert_eq!(panel.resource_paths, vec!["a".to_string(), "b".to_string()]);
    assert_eq!(panel.selected_resource, Some(1));
    assert!(panel.remove_selected_resource());
    assert_eq!(panel.resource_paths, vec!["a".to_string()]);
    assert_eq!(panel.selected_resource, Some(0));
    assert!(panel.remove_selected_resource());
    assert!(panel.resource_paths.is_empty());
    assert_eq!(panel.selected_resource, None);
    assert!(!panel.remove_selected_resource());
}

#[test]
fn removing_the_first_resource_selects_the_next() {
    let mut panel = panel(&["a", "b", "c"], Some(0));
    assert!(panel.remove_selected_resource());
    assert_eq!(panel.resource_paths, vec!["b".to_string(), "c".to_string()]);
    assert_eq!(panel.selected_resource, Some(0));
}

#[test]
fn resources_move_within_the_search_order() {
    let mut panel = panel(&["a", "b", "c"], Some(1));
    assert!(panel.move_selected_resource_up());
    assert_eq!(panel.resource_paths, vec!["b".to_string(), "a".to_string(), "c".to_string()]);
    assert_eq!(panel.selected_resource, Some(0));
    assert!(!panel.move_selected_resource_up());
    assert!(panel.move_selected_resource_down());
    assert_eq!(panel.resource_paths, vec!["a".to_string(), "b".to_string(), "c".to_string()]);
    assert_eq!(panel.selected_resource, Some(1));
    assert!(panel.move_selected_resource_down());
    assert!(!panel.move_selected_resource_down());
    assert_eq!(panel.resource_paths, vec!["a".to_string(), "c".to_string(), "b".to_string()]);
    assert_eq!(panel.selected_resource, Some(2));
}

#[test]
fn moving_up_then_down_restores_the_order() {
    let mut panel = panel(&["a", "b", "c", "d"], Some(2));
    assert!(panel.move_selected_resource_up());
    assert!(panel.move_selected_resource_down());
    assert_eq!(
        panel.resource_paths,
        vec!["a".to_string(), "b".to_string(), "c".to_string(), "d".to_string()]
    );
    assert_eq!(panel.selected_resource, Some(2));
}

#[test]
fn resource_names_are_synced() {
    let mut panel = panel(&["a"], None);
    assert!(!panel.sync_resource_names(vec!["a".to_string()]));
    assert!(panel.sync_resource_names(vec!["a".to_string(), "b".to_string()]));
    assert_eq!(panel.resource_paths, vec!["a".to_string(), "b".to_string()]);
}

#[test]
fn captures_rebind_keys_and_buttons() {
    let mut panel = panel(&[], None);
    let mut bindings = KeyBindings::default();
    assert!(!panel.apply_key_capture(&mut bindings, Some(KeyCode::KeyG)));
    panel.capturing_frame_mesh_key = true;
    assert!(!panel.apply_key_capture(&mut bindings, None));
    assert!(panel.apply_key_capture(&mut bindings, Some(KeyCode::KeyG)));
    assert_eq!(bindings.frame_mesh, KeyCode::KeyG);
    assert!(!panel.capturing_frame_mesh_key);

    panel.capturing_mouse_binding = Some(MouseBinding::Zoom);
    assert!(!panel.apply_mouse_capture(&mut bindings, None, Some(MouseButton::Middle)));
    assert!(panel.apply_mouse_capture(&mut bindings, Some(MouseBinding::Zoom), Some(MouseButton::Middle)));
    assert_eq!(bindings.zoom, Some(MouseButton::Middle));
    assert_eq!(panel.capturing_mouse_binding, None);

    panel.capturing_mouse_binding = Some(MouseBinding::Pan);
    assert!(panel.apply_mouse_capture(&mut bindings, Some(MouseBinding::Pan), Some(MouseButton::Other(9))));
    assert_eq!(bindings.pan, MouseButton::Other(9));

    panel.capturing_frame_mesh_key = true;
    panel.reset_bindings(&mut bindings);
    assert_eq!(bindings.frame_mesh, KeyCode::KeyF);
    assert_eq!(bindings.orbit, MouseButton::Left);
    assert_eq!(bindings.pan, MouseButton::Right);
    assert_eq!(bindings.zoom, None);
    assert!(!panel.capturing_frame_mesh_key);
}

#[test]
fn closing_the_bindings_window_ends_captures() {
    let mut panel = panel(&[], None);
    panel.capturing_frame_mesh_key = true;
    panel.capturing_mouse_binding = Some(MouseBinding::Orbit);
    panel.set_keybindings_open(true);
    assert!(panel.show_keybindings);
    assert!(panel.capturing_frame_mesh_key);
    panel.set_keybindings_open(false);
    assert!(!panel.show_keybindings);
    assert!(!panel.capturing_frame_mesh_key);
    assert_eq!(panel.capturing_mouse_binding, None);
}

#[test]
fn reloading_queues_the_shown_file() {
    let mut state = archive_state();
    state.reload_selected();
    assert_eq!(state.pending_file, Some("meshes\\old.nif".to_string()));
}

#[test]
fn resource_labels_count_from_one() {
    assert_eq!(nif_viewer::state::resource_label(0, "/data/textures"), "1 - /data/textures");
    assert_eq!(nif_viewer::state::resource_label(9, "x"), "10 - x");
}

#[test]
fn binding_buttons_show_prompts_and_names() {
    let mut panel = panel(&[], None);
    let bindings = KeyBindings::default();
    assert_eq!(panel.frame_key_label(&bindings), Some("KeyF".to_string()));
    panel.start_key_capture();
    assert_eq!(panel.frame_key_label(&bindings), Some("Press a key...".to_string()));
    let unnamed = KeyBindings { frame_mesh: KeyCode::Unnamed, ..KeyBindings::default() };
    panel.capturing_frame_mesh_key = false;
    assert_eq!(panel.frame_key_label(&unnamed), None);

    assert_eq!(panel.mouse_binding_label(Some(MouseButton::Left), MouseBinding::Orbit), "Left");
    assert_eq!(panel.mouse_binding_label(Some(MouseButton::Other(12)), MouseBinding::Pan), "Other(12)");
    assert_eq!(panel.mouse_binding_label(None, MouseBinding::Zoom), "Scroll wheel");
    panel.start_mouse_capture(MouseBinding::Zoom);
    assert_eq!(panel.mouse_binding_label(None, MouseBinding::Zoom), "Click a mouse button...");
    assert_eq!(panel.mouse_binding_label(Some(MouseButton::Right), MouseBinding::Pan), "Right");
}
