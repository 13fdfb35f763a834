use nif_viewer::view::{
    alpha_test_code, blend_mode_for, cull_mode_for, material_flags_for, mesh_variant_for, visibility_for,
    wireframe_highlight, wireframe_visibility, AlphaTestFunction, BlendMode, CullFace, DisplayMode, DrawMode,
    LoadedNifWireframe, MaterialFlags, MeshVariant, ShadingMode, ViewOptions, ViewState, Visibility,
};

fn options(shading_mode: ShadingMode, vertex_colors: DisplayMode, collision: DisplayMode, wireframe: bool) -> ViewOptions {
    ViewOptions::from_state(&ViewState { shading_mode, vertex_colors, collision, wireframe })
}

#[test]
fn defaults_are_unlit_with_vertex_colors() {
    assert_eq!(ShadingMode::default(), ShadingMode::Unlit);
    let state = ViewState::default();
    assert_eq!(state.shading_mode, ShadingMode::Unlit);
    assert_eq!(state.vertex_colors, DisplayMode::On);
    assert_eq!(state.collision, DisplayMode::Off);
    assert!(!state.wireframe);
}

#[test]
fn labels_name_the_modes() {
    assert_eq!(ShadingMode::Lit.label(), "Lit");
    assert_eq!(ShadingMode::Unlit.label(), "Unlit");
    assert_eq!(ShadingMode::Normals.label(), "Normals");
    let labels: Vec<&str> = DisplayMode::ALL.iter().map(|mode| mode.label()).collect();
    assert_eq!(labels, vec!["Off", "On", "Only"]);
}

#[test]
fn view_options_copy_the_state() {
    let view = options(ShadingMode::Lit, DisplayMode::Only, DisplayMode::On, true);
    assert_eq!(view.shading_mode, ShadingMode::Lit);
    assert_eq!(view.vertex_colors, DisplayMode::Only);
    assert_eq!(view.collision, DisplayMode::On);
    assert!(view.wireframe);
}

#[test]
fn mesh_variant_follows_shading_and_colors() {
    assert_eq!(mesh_variant_for(options(ShadingMode::Normals, DisplayMode::Off, DisplayMode::Off, false)), MeshVariant::Normal);
    assert_eq!(mesh_variant_for(options(ShadingMode::Lit, DisplayMode::On, DisplayMode::Off, false)), MeshVariant::VertexColor);
    assert_eq!(mesh_variant_for(options(ShadingMode::Unlit, DisplayMode::Only, DisplayMode::Off, false)), MeshVariant::VertexColor);
    assert_eq!(mesh_variant_for(options(ShadingMode::Lit, DisplayMode::Off, DisplayMode::Off, false)), MeshVariant::Uncolored);
}

#[test]
fn material_flags_follow_the_options() {
    assert_eq!(
        material_flags_for(options(ShadingMode::Lit, DisplayMode::Off, DisplayMode::Off, false)),
        MaterialFlags { use_texture: true, use_vertex_colors: false, unlit: false }
    );
    assert_eq!(
        material_flags_for(options(ShadingMode::Normals, DisplayMode::Off, DisplayMode::Off, false)),
        MaterialFlags { use_texture: false, use_vertex_colors: true, unlit: true }
    );
    assert_eq!(
        material_flags_for(options(ShadingMode::Lit, DisplayMode::Only, DisplayMode::Off, false)),
        MaterialFlags { use_texture: false, use_vertex_colors: true, unlit: true }
    );
    assert_eq!(
        material_flags_for(options(ShadingMode::Unlit, DisplayMode::On, DisplayMode::Off, false)),
        MaterialFlags { use_texture: true, use_vertex_colors: true, unlit: true }
    );
}

#[test]
fn collision_display_hides_one_kind() {
    assert_eq!(visibility_for(DisplayMode::Off, true), Visibility::Hidden);
    assert_eq!(visibility_for(DisplayMode::Off, false), Visibility::Inherited);
    assert_eq!(visibility_for(DisplayMode::Only, false), Visibility::Hidden);
    assert_eq!(visibility_for(DisplayMode::Only, true), Visibility::Inherited);
    assert_eq!(visibility_for(DisplayMode::On, true), Visibility::Inherited);
    assert_eq!(visibility_for(DisplayMode::On, false), Visibility::Inherited);
}

#[test]
fn wireframes_show_only_when_enabled() {
    let collision = LoadedNifWireframe { is_collision: true, nif_node_index: 3 };
    let regular = LoadedNifWireframe { is_collision: false, nif_node_index: 4 };
    let off = options(ShadingMode::Lit, DisplayMode::On, DisplayMode::On, false);
    assert_eq!(wireframe_visibility(off, &regular), Visibility::Hidden);
    let on = options(ShadingMode::Lit, DisplayMode::On, DisplayMode::Off, true);
    assert_eq!(wireframe_visibility(on, &regular), Visibility::Inherited);
    assert_eq!(wireframe_visibility(on, &collision), Visibility::Hidden);
}

#[test]
fn the_selected_wireframe_is_highlighted() {
    let overlay = LoadedNifWireframe { is_collision: false, nif_node_index: 7 };
    let selected = wireframe_highlight(&overlay, Some(7), false);
    assert!(selected.highlighted);
    assert_eq!(selected.visibility, Visibility::Visible);
    let other = wireframe_highlight(&overlay, Some(2), false);
    assert!(!other.highlighted);
    assert_eq!(other.visibility, Visibility::Hidden);
    let shown = wireframe_highlight(&overlay, None, true);
    assert!(!shown.highlighted);
    assert_eq!(shown.visibility, Visibility::Visible);
}

#[test]
fn alpha_codes_number_the_comparisons() {
    assert_eq!(alpha_test_code(AlphaTestFunction::Always), 0);
    assert_eq!(alpha_test_code(AlphaTestFunction::Less), 1);
    assert_eq!(alpha_test_code(AlphaTestFunction::Equal), 2);
    assert_eq!(alpha_test_code(AlphaTestFunction::LessEqual), 3);
    assert_eq!(alpha_test_code(AlphaTestFunction::Greater), 4);
    assert_eq!(alpha_test_code(AlphaTestFunction::NotEqual), 5);
    assert_eq!(alpha_test_code(AlphaTestFunction::GreaterEqual), 6);
    assert_eq!(alpha_test_code(AlphaTestFunction::Never), 7);
}

#[test]
fn culling_follows_the_stencil_mode() {
    assert_eq!(cull_mode_for(None), Some(CullFace::Back));
    assert_eq!(cull_mode_for(Some(DrawMode::Application)), Some(CullFace::Back));
    assert_eq!(cull_mode_for(Some(DrawMode::CounterClockwise)), Some(CullFace::Back));
    assert_eq!(cull_mode_for(Some(DrawMode::Clockwise)), Some(CullFace::Front));
    assert_eq!(cull_mode_for(Some(DrawMode::Both)), None);
}

#[test]
fn alpha_testing_wins_over_blending() {
    assert_eq!(blend_mode_for(false, false), BlendMode::Opaque);
    assert_eq!(blend_mode_for(true, false), BlendMode::Blend);
    assert_eq!(blend_mode_for(false, true), BlendMode::Mask);
    assert_eq!(blend_mode_for(true, true), BlendMode::Mask);
}
