use roguelike::common::ScreenPosition;
use roguelike::hud::{ammo_icons, health_icons};
use roguelike::HEIGHT;

#[test]
fn ammo_row_marks_loaded_rounds() {
    let row = ammo_icons(5, 2);
    let h = HEIGHT as isize - 30;
    assert_eq!(
        row,
        vec![
            (ScreenPosition(10, h), true),
            (ScreenPosition(18, h), true),
            (ScreenPosition(26, h), false),
            (ScreenPosition(34, h), false),
            (ScreenPosition(42, h), false),
        ]
    );
    assert!(ammo_icons(0, 3).is_empty());
}

#[test]
fn health_rows_hold_up_to_twenty_hearts() {
    assert!(health_icons(0).is_empty());
    assert!(health_icons(-3).is_empty());
    let three = health_icons(3);
    let h = HEIGHT as isize - 50;
    assert_eq!(three, vec![ScreenPosition(10, h), ScreenPosition(18, h), ScreenPosition(26, h)]);
    let twelve = health_icons(12);
    assert_eq!(twelve.len(), 12);
    assert_eq!(twelve[9], ScreenPosition(82, h));
    assert_eq!(twelve[10], ScreenPosition(10, h + 8));
    assert_eq!(twelve[11], ScreenPosition(18, h + 8));
    assert_eq!(health_icons(25).len(), 20);
}
