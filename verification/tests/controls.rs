use orbital_viewer::controls::{camera_move, key_command, rotating_after, CameraMove, Key, KeyCommand, KeyStates, MouseButtonKind};

#[test]
fn movement_keys() {
    assert_eq!(camera_move(Key::W, true), CameraMove::Forward);
    assert_eq!(camera_move(Key::S, true), CameraMove::Backward);
    assert_eq!(camera_move(Key::A, true), CameraMove::Left);
    assert_eq!(camera_move(Key::D, true), CameraMove::Right);
    assert_eq!(camera_move(Key::Space, true), CameraMove::Up);
    assert_eq!(camera_move(Key::C, true), CameraMove::Down);
    assert_eq!(camera_move(Key::Escape, true), CameraMove::Stay);
    assert_eq!(camera_move(Key::W, false), CameraMove::Stay);
}

#[test]
fn command_keys() {
    assert_eq!(key_command(Key::Escape, true), KeyCommand::Exit);
    assert_eq!(key_command(Key::Numpad5, true), KeyCommand::DebugLog);
    assert_eq!(key_command(Key::Numpad6, true), KeyCommand::Compute);
    assert_eq!(key_command(Key::W, true), KeyCommand::Nothing);
    assert_eq!(key_command(Key::Escape, false), KeyCommand::Nothing);
}

#[test]
fn key_states_read_back_what_was_recorded() {
    let mut keys = KeyStates::new();
    assert_eq!(keys.state(Key::ShiftLeft), None);
    assert!(!keys.scroll_adjusts_scale());
    keys.record(Key::ShiftLeft, true);
    assert_eq!(keys.state(Key::ShiftLeft), Some(true));
    assert_eq!(keys.state(Key::W), None);
    assert!(keys.scroll_adjusts_scale());
    let r = keys.respond_to_key(Key::ShiftLeft, false);
    assert_eq!(r.camera, CameraMove::Stay);
    assert_eq!(r.command, KeyCommand::Nothing);
    assert_eq!(keys.state(Key::ShiftLeft), Some(false));
    assert!(!keys.scroll_adjusts_scale());
    let r = keys.respond_to_key(Key::W, true);
    assert_eq!(r.camera, CameraMove::Forward);
    assert_eq!(keys.state(Key::W), Some(true));
    assert_eq!(keys.state(Key::ShiftLeft), Some(false));
}

#[test]
fn left_button_drives_rotation() {
    assert!(rotating_after(MouseButtonKind::Left, true, false));
    assert!(!rotating_after(MouseButtonKind::Left, false, true));
    assert!(rotating_after(MouseButtonKind::Other, false, true));
    assert!(!rotating_after(MouseButtonKind::Other, true, false));
}
