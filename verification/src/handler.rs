use vstd::prelude::*;

use crate::{HEIGHT, InputState, WIDTH};

verus! {

/// `v` limited to `0..=max`.
pub open spec fn clamp(v: int, max: int) -> int {
    if v < 0 {
        0
    } else if v > max {
        max
    } else {
        v
    }
}

/// Mouse moved by `(dx, dy)`; the pointer stays on the screen.
pub fn mm(state: &mut InputState, dx: isize, dy: isize)
    requires
        isize::MIN <= old(state).mouse_pos.0 + dx <= isize::MAX,
        isize::MIN <= old(state).mouse_pos.1 + dy <= isize::MAX,
    ensures
        final(state).mouse_pos.0 == clamp(old(state).mouse_pos.0 + dx, WIDTH - 1),
        final(state).mouse_pos.1 == clamp(old(state).mouse_pos.1 + dy, HEIGHT - 1),
        final(state).key_down == old(state).key_down,
        final(state).mouse_down == old(state).mouse_down,
{
    state.mouse_pos.0 += dx;
    if state.mouse_pos.0 < 0 {
        state.mouse_pos.0 = 0;
    } else if state.mouse_pos.0 >= WIDTH as isize {
        state.mouse_pos.0 = WIDTH as isize - 1;
    }
    state.mouse_pos.1 += dy;
    if state.mouse_pos.1 < 0 {
        state.mouse_pos.1 = 0;
    } else if state.mouse_pos.1 >= HEIGHT as isize {
        state.mouse_pos.1 = HEIGHT as isize - 1;
    }
}

/// Mouse button `btn` pressed; other numbers are ignored.
pub fn md(state: &mut InputState, btn: i32)
    ensures
        final(state).mouse_down@ == if 0 <= btn < 3 {
            old(state).mouse_down@.update(btn as int, true)
        } else {
            old(state).mouse_down@
        },
        final(state).key_down == old(state).key_down,
        final(state).mouse_pos == old(state).mouse_pos,
{
    if btn >= 0 && btn < 3 {
        state.mouse_down.set(btn as usize, true);
    }
}

/// Mouse button `btn` released; other numbers are ignored.
pub fn mu(state: &mut InputState, btn: i32)
    ensures
        final(state).mouse_down@ == if 0 <= btn < 3 {
            old(state).mouse_down@.update(btn as int, false)
        } else {
            old(state).mouse_down@
        },
        final(state).key_down == old(state).key_down,
        final(state).mouse_pos == old(state).mouse_pos,
{
    if btn >= 0 && btn < 3 {
        state.mouse_down.set(btn as usize, false);
    }
}

/// Key `key` pressed; other numbers are ignored.
pub fn kd(state: &mut InputState, key: i32)
    ensures
        final(state).key_down@ == if 0 <= key < 256 {
            old(state).key_down@.update(key as int, true)
        } else {
            old(state).key_down@
        },
        final(state).mouse_down == old(state).mouse_down,
        final(state).mouse_pos == old(state).mouse_pos,
{
    if key >= 0 && key < 256 {
        state.key_down.set(key as usize, true);
    }
}

/// Key `key` released; other numbers are ignored.
pub fn ku(state: &mut InputState, key: i32)
    ensures
        final(state).key_down@ == if 0 <= key < 256 {
            old(state).key_down@.update(key as int, false)
        } else {
            old(state).key_down@
        },
        final(state).mouse_down == old(state).mouse_down,
        final(state).mouse_pos == old(state).mouse_pos,
{
    if key >= 0 && key < 256 {
        state.key_down.set(key as usize, false);
    }
}

/// A pointer that lands on the screen stays where it landed; off the screen it
/// stops at the nearest edge.
pub proof fn lemma_clamp_keeps_on_screen_moves(v: int, max: int)
    requires
        max >= 0,
    ensures
        0 <= v <= max ==> clamp(v, max) == v,
        v < 0 ==> clamp(v, max) == 0,
        v > max ==> clamp(v, max) == max,
{
}

/// After a mouse move the pointer is on the screen, wherever it was before.
pub proof fn lemma_mouse_stays_on_screen(x: int, y: int)
    ensures
        0 <= clamp(x, WIDTH - 1) < WIDTH,
        0 <= clamp(y, HEIGHT - 1) < HEIGHT,
{
}

} // verus!
