use vstd::prelude::*;

use crate::HEIGHT;
use crate::common::ScreenPosition;

verus! {

/// Where the ammunition row shows icon `k`: left to right along the bottom.
pub open spec fn ammo_icon_at(k: int) -> ScreenPosition {
    ScreenPosition((10 + 8 * k) as isize, (HEIGHT - 30) as isize)
}

/// Where the health rows show heart `k`: ten per row, two rows.
pub open spec fn heart_at(k: int) -> ScreenPosition {
    ScreenPosition((10 + 8 * (k % 10)) as isize, (HEIGHT - 50 + 8 * (k / 10)) as isize)
}

/// The number of hearts shown for `hp` health points: at most two rows of ten.
pub open spec fn hearts_shown(hp: int) -> int {
    if hp < 0 {
        0
    } else if hp > 20 {
        20
    } else {
        hp
    }
}

/// The icons' layout: the first icon of each row is 10 pixels from the left,
/// neighbours in a row are 8 pixels apart, the second row of hearts is 8 pixels
/// below the first, and the ammunition row is 20 pixels below the first heart
/// row. A player with 0 to 20 health points sees one heart per point, never
/// more than 20 and never a negative number.
pub proof fn lemma_hud_layout(k: int, hp: int)
    requires
        0 <= k,
        10 + 8 * (k + 1) <= isize::MAX,
    ensures
        ammo_icon_at(0) == ScreenPosition(10, (HEIGHT - 30) as isize),
        ammo_icon_at(k + 1).0 == ammo_icon_at(k).0 + 8 && ammo_icon_at(k + 1).1 == ammo_icon_at(k).1,
        heart_at(0) == ScreenPosition(10, (HEIGHT - 50) as isize),
        k < 9 ==> heart_at(k + 1).0 == heart_at(k).0 + 8 && heart_at(k + 1).1 == heart_at(k).1,
        k < 10 ==> heart_at(k + 10).0 == heart_at(k).0 && heart_at(k + 10).1 == heart_at(k).1 + 8,
        ammo_icon_at(k).1 == heart_at(0).1 + 20,
        0 <= hp <= 20 ==> hearts_shown(hp) == hp,
        0 <= hearts_shown(hp) <= 20,
        hp > 20 ==> hearts_shown(hp) == 20,
{
    assert((k + 10) % 10 == k % 10 && (k + 10) / 10 == k / 10 + 1);
    assert(k < 9 ==> (k + 1) % 10 == k % 10 + 1 && (k + 1) / 10 == k / 10);
}

/// The ammunition row of a weapon with a clip of `clip` rounds, `ammo` of them
/// loaded: one icon per round of the clip, full for the loaded ones.
pub fn ammo_icons(clip: usize, ammo: usize) -> (r: Vec<(ScreenPosition, bool)>)
    requires
        10 + 8 * clip <= isize::MAX,
    ensures
        r@.len() == clip,
        forall|k: int| 0 <= k < clip ==> #[trigger] r@[k] == (ammo_icon_at(k), k < ammo),
{
    let mut r: Vec<(ScreenPosition, bool)> = Vec::new();
    let mut x: usize = 0;
    while x < clip
        invariant
            x <= clip,
            10 + 8 * clip <= isize::MAX,
            r@.len() == x,
            forall|k: int| 0 <= k < x ==> #[trigger] r@[k] == (ammo_icon_at(k), k < ammo),
        decreases clip - x,
    {
        let ammo_draw_pos = ScreenPosition(10 + 8 * x as isize, HEIGHT as isize - 30);
        r.push((ammo_draw_pos, x < ammo));
        x += 1;
    }
    r
}

/// The hearts for `hp` health points, row by row, left to right.
pub fn health_icons(hp: isize) -> (r: Vec<ScreenPosition>)
    ensures
        r@.len() == hearts_shown(hp as int),
        forall|k: int| 0 <= k < r@.len() ==> #[trigger] r@[k] == heart_at(k),
{
    let mut r: Vec<ScreenPosition> = Vec::new();
    let mut y: isize = 0;
    while y <= 1
        invariant
            0 <= y <= 2,
            r@.len() == hearts_shown(if hp < 10 * y { hp as int } else { 10 * y }),
            forall|k: int| 0 <= k < r@.len() ==> #[trigger] r@[k] == heart_at(k),
        decreases 2 - y,
    {
        let mut x: isize = 0;
        while x < 10
            invariant
                0 <= y <= 1,
                0 <= x <= 10,
                hp > y * 10 + x - 1 || x == 0,
                r@.len() == hearts_shown(if hp < 10 * y { hp as int } else { 10 * y }) + x,
                x > 0 ==> hp >= 10 * y,
                forall|k: int| 0 <= k < r@.len() ==> #[trigger] r@[k] == heart_at(k),
            ensures
                r@.len() == hearts_shown(if hp < 10 * (y + 1) { hp as int } else { 10 * (y + 1) }),
                forall|k: int| 0 <= k < r@.len() ==> #[trigger] r@[k] == heart_at(k),
            decreases 10 - x,
        {
            if hp <= y * 10 + x {
                break;
            }
            let k = y * 10 + x;
            assert(k % 10 == x && k / 10 == y);
            r.push(ScreenPosition(10 + x * 8, HEIGHT as isize - 50 + y * 8));
            x += 1;
        }
        y += 1;
    }
    r
}

} // verus!
