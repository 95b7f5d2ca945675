use roguelike::common::ScreenPosition;
use roguelike::handler::{kd, ku, md, mm, mu};
use roguelike::input::{key_just_pressed, key_just_released, mouse_just_pressed, mouse_just_released};
use roguelike::{InputState, HEIGHT, WIDTH};

fn released() -> InputState {
    InputState { key_down: [false; 256], mouse_down: [false; 3], mouse_pos: ScreenPosition(0, 0) }
}

#[test]
fn mouse_move_adds_offset() {
    let mut s = released();
    mm(&mut s, 10, 20);
    assert_eq!(s.mouse_pos, ScreenPosition(10, 20));
    mm(&mut s, -4, 5);
    assert_eq!(s.mouse_pos, ScreenPosition(6, 25));
}

#[test]
fn mouse_move_is_clamped_to_screen() {
    let mut s = released();
    mm(&mut s, -5, -7);
    assert_eq!(s.mouse_pos, ScreenPosition(0, 0));
    mm(&mut s, 10_000, 10_000);
    assert_eq!(s.mouse_pos, ScreenPosition(WIDTH as isize - 1, HEIGHT as isize - 1));
    mm(&mut s, 1, 1);
    assert_eq!(s.mouse_pos, ScreenPosition(359, 399));
}

#[test]
fn key_down_and_up_set_flags() {
    let mut s = released();
    kd(&mut s, 65);
    assert!(s.key_down[65]);
    ku(&mut s, 65);
    assert!(!s.key_down[65]);
    kd(&mut s, 255);
    assert!(s.key_down[255]);
}

#[test]
fn out_of_range_keys_are_ignored() {
    let mut s = released();
    kd(&mut s, 256);
    kd(&mut s, -1);
    md(&mut s, 3);
    md(&mut s, -2);
    assert!(s.key_down.iter().all(|k| !k));
    assert!(s.mouse_down.iter().all(|b| !b));
}

#[test]
fn mouse_buttons_set_flags() {
    let mut s = released();
    md(&mut s, 0);
    md(&mut s, 2);
    assert_eq!(s.mouse_down, [true, false, true]);
    mu(&mut s, 0);
    assert_eq!(s.mouse_down, [false, false, true]);
}

#[test]
fn just_pressed_and_released_compare_frames() {
    let last = released();
    let mut now = last.clone();
    kd(&mut now, 0x52);
    md(&mut now, 0);
    assert!(key_just_pressed(&now, &last, 0x52));
    assert!(!key_just_released(&now, &last, 0x52));
    assert!(mouse_just_pressed(&now, &last, 0));
    assert!(!mouse_just_pressed(&now, &last, 1));
    // In the next frame the key is still down: no longer "just" pressed.
    assert!(!key_just_pressed(&now, &now, 0x52));
    let mut later = now.clone();
    ku(&mut later, 0x52);
    mu(&mut later, 0);
    assert!(key_just_released(&later, &now, 0x52));
    assert!(mouse_just_released(&later, &now, 0));
    assert!(!key_just_pressed(&later, &now, 0x52));
}
