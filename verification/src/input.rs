use vstd::prelude::*;

use crate::InputState;

verus! {

/// The key is down now and was up in the previous frame.
pub fn key_just_pressed(current: &InputState, last: &InputState, key: u8) -> (r: bool)
    ensures
        r == (current.key_down@[key as int] && !last.key_down@[key as int]),
{
    current.key_down[key as usize] && !last.key_down[key as usize]
}

/// The key is up now and was down in the previous frame.
pub fn key_just_released(current: &InputState, last: &InputState, key: u8) -> (r: bool)
    ensures
        r == (!current.key_down@[key as int] && last.key_down@[key as int]),
{
    !current.key_down[key as usize] && last.key_down[key as usize]
}

/// The mouse button is down now and was up in the previous frame.
pub fn mouse_just_pressed(current: &InputState, last: &InputState, key: u8) -> (r: bool)
    requires
        key < 3,
    ensures
        r == (current.mouse_down@[key as int] && !last.mouse_down@[key as int]),
{
    current.mouse_down[key as usize] && !last.mouse_down[key as usize]
}

/// The mouse button is up now and was down in the previous frame.
pub fn mouse_just_released(current: &InputState, last: &InputState, key: u8) -> (r: bool)
    requires
        key < 3,
    ensures
        r == (!current.mouse_down@[key as int] && last.mouse_down@[key as int]),
{
    !current.mouse_down[key as usize] && last.mouse_down[key as usize]
}

/// A key is never both just pressed and just released.
pub proof fn lemma_press_release_exclusive(current: InputState, last: InputState, key: u8)
    ensures
        !((current.key_down@[key as int] && !last.key_down@[key as int]) && (
        !current.key_down@[key as int] && last.key_down@[key as int])),
{
}

} // verus!
