//! Game logic of a small top-down shooter: maps and their generation, path
//! finding, a software canvas with image sources and filters, input state,
//! weapons, power-ups and level population rules.
use vstd::prelude::*;

pub mod common;
pub mod enemy;
pub mod filter;
pub mod gfx;
pub mod handler;
pub mod hud;
pub mod input;
pub mod level;
pub mod map;
pub mod pathfinding;
pub mod powerup;
pub mod projectile;
pub mod random;
pub mod refcell;
pub mod weapon;

use crate::common::ScreenPosition;

verus! {

/// Canvas width in pixels.
pub const WIDTH: usize = 360;

/// Canvas height in pixels.
pub const HEIGHT: usize = 400;

/// Number of keyboard keys tracked.
pub const KEY_COUNT: usize = 256;

/// Number of mouse buttons tracked.
pub const MOUSE_BUTTONS: usize = 3;

/// Contains the current state of the input peripherals.
#[derive(Clone)]
pub struct InputState {
    pub key_down: [bool; 256],
    pub mouse_down: [bool; 3],
    pub mouse_pos: ScreenPosition,
}

} // verus!
