use nif_viewer::keys::{
    key_code_from_name, key_code_name, mouse_button_from_name, mouse_button_name, KeyBindings,
    KeyBindingsConfig, KeyCode, MouseButton,
};

#[test]
fn key_names_are_the_variant_names() {
    assert_eq!(key_code_name(KeyCode::KeyA), Some("KeyA"));
    assert_eq!(key_code_name(KeyCode::NumpadSubtract), Some("NumpadSubtract"));
    assert_eq!(key_code_name(KeyCode::F24), Some("F24"));
    assert_eq!(key_code_name(KeyCode::Unnamed), None);
    assert_eq!(key_code_from_name("F2"), Some(KeyCode::F2));
    assert_eq!(key_code_from_name("F20"), Some(KeyCode::F20));
    assert_eq!(key_code_from_name("Backquote"), Some(KeyCode::Backquote));
    assert_eq!(key_code_from_name("keya"), None);
    assert_eq!(key_code_from_name("Lang1"), None);
    assert_eq!(key_code_from_name(""), None);
}

#[test]
fn mouse_button_names_round_trip() {
    assert_eq!(mouse_button_name(MouseButton::Left), "Left");
    assert_eq!(mouse_button_name(MouseButton::Forward), "Forward");
    assert_eq!(mouse_button_name(MouseButton::Other(0)), "Other:0");
    assert_eq!(mouse_button_name(MouseButton::Other(65535)), "Other:65535");
    assert_eq!(mouse_button_from_name("Middle"), Some(MouseButton::Middle));
    assert_eq!(mouse_button_from_name("Other:12"), Some(MouseButton::Other(12)));
    assert_eq!(mouse_button_from_name("Other:+7"), Some(MouseButton::Other(7)));
    assert_eq!(mouse_button_from_name("Other:007"), Some(MouseButton::Other(7)));
    assert_eq!(mouse_button_from_name("Other:65536"), None);
    assert_eq!(mouse_button_from_name("Other:"), None);
    assert_eq!(mouse_button_from_name("Other:+"), None);
    assert_eq!(mouse_button_from_name("Other:-1"), None);
    assert_eq!(mouse_button_from_name("Other:1a"), None);
    assert_eq!(mouse_button_from_name("left"), None);
    for n in [0u16, 1, 9, 10, 99, 100, 4242, 65535] {
        let name = mouse_button_name(MouseButton::Other(n));
        assert_eq!(mouse_button_from_name(&name), Some(MouseButton::Other(n)));
    }
}

#[test]
fn default_bindings() {
    let bindings = KeyBindings::default();
    assert_eq!(bindings.frame_mesh, KeyCode::KeyF);
    assert_eq!(bindings.orbit, MouseButton::Left);
    assert_eq!(bindings.pan, MouseButton::Right);
    assert_eq!(bindings.zoom, None);
}

#[test]
fn bindings_survive_storing_and_loading() {
    let bindings = KeyBindings {
        frame_mesh: KeyCode::Space,
        orbit: MouseButton::Middle,
        pan: MouseButton::Other(4),
        zoom: Some(MouseButton::Back),
    };
    let config = bindings.to_config().expect("space has a name");
    assert_eq!(config.frame_mesh, "Space");
    assert_eq!(config.pan, "Other:4");
    assert_eq!(config.zoom.as_deref(), Some("Back"));
    assert_eq!(KeyBindings::from_config(config), Some(bindings));

    let unnamed = KeyBindings { frame_mesh: KeyCode::Unnamed, ..KeyBindings::default() };
    assert!(unnamed.to_config().is_none());

    let broken = KeyBindingsConfig {
        frame_mesh: "KeyQ".to_string(),
        orbit: "Left".to_string(),
        pan: "Right".to_string(),
        zoom: Some("Wheel".to_string()),
    };
    assert_eq!(KeyBindings::from_config(broken), None);
    let no_zoom = KeyBindingsConfig {
        frame_mesh: "KeyQ".to_string(),
        orbit: "Left".to_string(),
        pan: "Right".to_string(),
        zoom: None,
    };
    assert_eq!(
        KeyBindings::from_config(no_zoom),
        Some(KeyBindings {
            frame_mesh: KeyCode::KeyQ,
            orbit: MouseButton::Left,
            pan: MouseButton::Right,
            zoom: None
        })
    );
}
