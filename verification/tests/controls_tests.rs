use longinus::controls::{keyboard_direction, next_control_mode, ControlMode};

#[test]
fn control_mode_follows_the_only_device_used() {
    assert_eq!(next_control_mode(true, false, ControlMode::GamePad), ControlMode::Keyboard);
    assert_eq!(next_control_mode(false, true, ControlMode::Keyboard), ControlMode::GamePad);
    assert_eq!(next_control_mode(true, true, ControlMode::GamePad), ControlMode::GamePad);
    assert_eq!(next_control_mode(false, false, ControlMode::Keyboard), ControlMode::Keyboard);
}

#[test]
fn keyboard_directions_cancel_out() {
    assert_eq!(keyboard_direction(true, false, true, false), (-1, 1));
    assert_eq!(keyboard_direction(false, true, false, true), (1, -1));
    assert_eq!(keyboard_direction(true, true, true, true), (0, 0));
    assert_eq!(keyboard_direction(false, false, false, false), (0, 0));
}
