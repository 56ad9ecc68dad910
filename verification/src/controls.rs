use vstd::prelude::*;

verus! {

/// The device the player is using.
#[derive(Clone, Copy, Debug, PartialEq, Eq, Structural)]
pub enum ControlMode {
    GamePad,
    Keyboard,
}

/// The device in use after a frame: the one that alone gave input in this
/// frame, or the same as before when both or neither did.
pub fn next_control_mode(keyboard_input: bool, gamepad_input: bool, current: ControlMode) -> (mode: ControlMode)
    ensures
        keyboard_input && !gamepad_input ==> mode == ControlMode::Keyboard,
        gamepad_input && !keyboard_input ==> mode == ControlMode::GamePad,
        keyboard_input == gamepad_input ==> mode == current,
{
    if keyboard_input && !gamepad_input {
        ControlMode::Keyboard
    } else if gamepad_input && !keyboard_input {
        ControlMode::GamePad
    } else {
        current
    }
}

/// The direction the movement keys point in: left and right, and up and
/// down, each cancelling the other (x to the right, y upwards).
pub fn keyboard_direction(left: bool, right: bool, up: bool, down: bool) -> (direction: (i32, i32))
    ensures
        direction.0 == (if right { 1int } else { 0int }) - (if left { 1int } else { 0int }),
        direction.1 == (if up { 1int } else { 0int }) - (if down { 1int } else { 0int }),
{
    let x: i32 = (if left { -1 } else { 0 }) + (if right { 1 } else { 0 });
    let y: i32 = (if up { 1 } else { 0 }) + (if down { -1 } else { 0 });
    (x, y)
}

} // verus!
