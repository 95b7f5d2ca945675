use vstd::prelude::*;

use crate::common::MapPosition;
use crate::random::{Random, lcg_output, lcg_step, rand_between};

verus! {

/// Number of tiles in each direction.
pub const MAP_SIZE: usize = 30;

/// Width of a tile in pixels.
pub const TILE_WIDTH: isize = 16;

/// Height of a tile in pixels.
pub const TILE_HEIGHT: isize = 16;

/// Number of tiles in a map.
pub const MAP_TILES: usize = 900;

/// A single map tile. Each tile remembers where it stands in the map.
#[derive(Copy, Clone, PartialEq, Eq, Structural, Debug)]
pub enum MapTile {
    Wall(MapPosition),
    Floor(MapPosition),
    Door(MapPosition),
    UnlockedDoor(MapPosition),
    Void,
}

impl MapTile {
    /// Walls, doors and the void block movement; floors and unlocked doors do not.
    pub open spec fn solid(self) -> bool {
        match self {
            MapTile::Door(_) | MapTile::Wall(_) | MapTile::Void => true,
            MapTile::Floor(_) | MapTile::UnlockedDoor(_) => false,
        }
    }

    pub fn is_solid(&self) -> (r: bool)
        ensures
            r == self.solid(),
    {
        match &self {
            MapTile::Door(_) | MapTile::Wall(_) | MapTile::Void => true,
            MapTile::Floor(_) | MapTile::UnlockedDoor(_) => false,
        }
    }

    /// The tile with any locked door opened.
    pub open spec fn unlocked(self) -> MapTile {
        match self {
            MapTile::Door(p) => MapTile::UnlockedDoor(p),
            _ => self,
        }
    }
}

/// Whether a position lies inside the map.
pub open spec fn in_bounds(p: MapPosition) -> bool {
    0 <= p.0 < MAP_SIZE && 0 <= p.1 < MAP_SIZE
}

/// Index of a position in the row-major tile list.
pub open spec fn tile_index(p: MapPosition) -> int {
    p.0 + p.1 * MAP_SIZE
}

/// Whether a position is on the outermost ring of the map.
pub open spec fn on_border(p: MapPosition) -> bool {
    in_bounds(p) && (p.0 == 0 || p.1 == 0 || p.0 == MAP_SIZE - 1 || p.1 == MAP_SIZE - 1)
}

/// The tile at `(x, y)` of a row-major tile list.
pub open spec fn cell(tiles: Seq<Option<MapTile>>, x: int, y: int) -> Option<MapTile> {
    tiles[x + y * MAP_SIZE]
}

/// Whether the cell `(x, y)` holds a tile that can be walked on.
pub open spec fn free_cell(tiles: Seq<Option<MapTile>>, x: int, y: int) -> bool {
    match cell(tiles, x, y) {
        Some(t) => !t.solid(),
        None => false,
    }
}

/// 1 for a free cell, 0 otherwise.
pub open spec fn free_count(tiles: Seq<Option<MapTile>>, x: int, y: int) -> int {
    if free_cell(tiles, x, y) {
        1
    } else {
        0
    }
}

/// Number of free cells among the four direct neighbours of `(x, y)`.
pub open spec fn free_neighbors(tiles: Seq<Option<MapTile>>, x: int, y: int) -> int {
    free_count(tiles, x - 1, y) + free_count(tiles, x + 1, y) + free_count(tiles, x, y - 1)
        + free_count(tiles, x, y + 1)
}

/// Every free cell of the inner area (coordinates `2..MAP_SIZE - 2`) has at
/// least three free neighbours: the map has no dead-end corridors of width one there.
pub open spec fn roomy(tiles: Seq<Option<MapTile>>) -> bool {
    forall|x: int, y: int|
        2 <= x < MAP_SIZE - 2 && 2 <= y < MAP_SIZE - 2 ==> #[trigger] roomy_at(tiles, x, y)
}

/// A free cell at `(x, y)` has at least three free neighbours.
pub open spec fn roomy_at(tiles: Seq<Option<MapTile>>, x: int, y: int) -> bool {
    free_cell(tiles, x, y) ==> free_neighbors(tiles, x, y) >= 3
}

/// Each present tile carries its own coordinates.
pub open spec fn tile_at_own_position(t: Option<MapTile>, x: int, y: int) -> bool {
    match t {
        Some(MapTile::Wall(p)) | Some(MapTile::Floor(p)) | Some(MapTile::Door(p)) | Some(
            MapTile::UnlockedDoor(p),
        ) => p.0 == x && p.1 == y,
        _ => true,
    }
}

/// Whether the tile is a locked door.
pub open spec fn is_door(t: Option<MapTile>) -> bool {
    t matches Some(MapTile::Door(_))
}

/// Whether the tile is a wall or a floor.
pub open spec fn is_wall_or_floor(t: Option<MapTile>) -> bool {
    t matches Some(MapTile::Wall(_)) || t matches Some(MapTile::Floor(_))
}

/// Whether the tile is a wall.
pub open spec fn is_wall(t: Option<MapTile>) -> bool {
    t matches Some(MapTile::Wall(_))
}

/// The tile a fresh map starts with at `(x, y)`, before random walls are drawn.
pub open spec fn base_tile(x: int, y: int) -> Option<MapTile> {
    let p = MapPosition(x as isize, y as isize);
    if x == 0 || y == 0 || x == MAP_SIZE - 1 || y == MAP_SIZE - 1 {
        Some(MapTile::Wall(p))
    } else if x == 1 && y == 1 {
        Some(MapTile::Door(p))
    } else {
        Some(MapTile::Floor(p))
    }
}

/// Every tile is present and carries its coordinates, the outer ring is wall,
/// the exit door stands at `(1, 1)`, and every other tile is wall or floor.
pub open spec fn layout_shape(tiles: Seq<Option<MapTile>>) -> bool {
    &&& tiles.len() == MAP_TILES
    &&& forall|x: int, y: int|
        0 <= x < MAP_SIZE && 0 <= y < MAP_SIZE ==> {
            let t = #[trigger] cell(tiles, x, y);
            &&& t is Some
            &&& tile_at_own_position(t, x, y)
            &&& (x == 0 || y == 0 || x == MAP_SIZE - 1 || y == MAP_SIZE - 1) ==> is_wall(t)
            &&& (x == 1 && y == 1) ==> is_door(t)
            &&& !(x == 1 && y == 1) ==> is_wall_or_floor(t)
        }
}

/// The shape of a freshly generated map: `layout_shape`, and the inner area is roomy.
pub open spec fn generated_layout(tiles: Seq<Option<MapTile>>) -> bool {
    layout_shape(tiles) && roomy(tiles)
}

/// A wall tile at `(x, y)`.
pub open spec fn wall_at(x: int, y: int) -> Option<MapTile> {
    Some(MapTile::Wall(MapPosition(x as isize, y as isize)))
}

/// Whether `(x, y)` lies on the segment of the tiles `s.0 <= x <= s.1`, `s.2 <= y <= s.3`.
pub open spec fn on_segment(s: (int, int, int, int), x: int, y: int) -> bool {
    s.0 <= x <= s.1 && s.2 <= y <= s.3
}

/// A wall segment as the generator draws them: horizontal or vertical, 4 to 24
/// tiles long, and at least three tiles away from the border.
pub open spec fn drawable_segment(s: (int, int, int, int)) -> bool {
    &&& s.0 == s.1 || s.2 == s.3
    &&& 3 <= s.0 <= s.1 <= MAP_SIZE - 4
    &&& 3 <= s.2 <= s.3 <= MAP_SIZE - 4
    &&& 3 <= (s.1 - s.0) + (s.3 - s.2) <= 23
}

/// Whether `(x, y)` lies on one of the segments.
pub open spec fn walled(segs: Seq<(int, int, int, int)>, x: int, y: int) -> bool {
    exists|k: int| 0 <= k < segs.len() && #[trigger] on_segment(segs[k], x, y)
}

/// The tiles are the fresh map's, but with walls on the segments.
pub open spec fn walled_layout(tiles: Seq<Option<MapTile>>, segs: Seq<(int, int, int, int)>) -> bool {
    &&& tiles.len() == MAP_TILES
    &&& forall|x: int, y: int|
        0 <= x < MAP_SIZE && 0 <= y < MAP_SIZE ==> #[trigger] cell(tiles, x, y) == if walled(
            segs,
            x,
            y,
        ) {
            wall_at(x, y)
        } else {
            base_tile(x, y)
        }
}

/// `after` is `before` with walls drawn on the segment `s`.
#[verifier::opaque]
spec fn segment_drawn(
    before: Seq<Option<MapTile>>,
    after: Seq<Option<MapTile>>,
    s: (int, int, int, int),
) -> bool {
    &&& after.len() == before.len()
    &&& forall|x: int, y: int|
        0 <= x < MAP_SIZE && 0 <= y < MAP_SIZE ==> #[trigger] cell(after, x, y) == if on_segment(
            s,
            x,
            y,
        ) {
            wall_at(x, y)
        } else {
            cell(before, x, y)
        }
}

/// A tile that a new wall segment may not cross: a wall or a door.
pub open spec fn blocks_segment(t: Option<MapTile>) -> bool {
    ||| t matches Some(MapTile::Wall(_))
    ||| t matches Some(MapTile::Door(_))
    ||| t matches Some(MapTile::UnlockedDoor(_))
}

/// No tile of the segment `s` holds a wall or a door.
pub open spec fn segment_clear(tiles: Seq<Option<MapTile>>, s: (int, int, int, int)) -> bool {
    forall|x: int, y: int| #[trigger] on_segment(s, x, y) ==> !blocks_segment(cell(tiles, x, y))
}

/// The generator state after `n` draws from state `s`.
pub open spec fn lcg_steps(s: u32, n: nat) -> u32
    decreases n,
{
    if n == 0 {
        s
    } else {
        lcg_step(lcg_steps(s, (n - 1) as nat))
    }
}

/// The wall segment that a generator in state `s` draws next. Four draws give
/// its length minus one (3 to 23), its start (from 3), its position across
/// (3 to 23) and whether it runs horizontally (even) or vertically (odd).
pub open spec fn next_segment(s: u32) -> (int, int, int, int) {
    let len = 3 + (lcg_output(lcg_steps(s, 1)) as int) % 21;
    let start = 3 + (lcg_output(lcg_steps(s, 2)) as int) % (24 - len);
    let across = 3 + (lcg_output(lcg_steps(s, 3)) as int) % 21;
    if lcg_output(lcg_steps(s, 4)) % 2 == 0 {
        (start, start + len, across, across)
    } else {
        (across, across, start, start + len)
    }
}

/// The shape of the segment a generator in state `s` draws next: it runs
/// vertically (one column) when the fourth draw is odd and horizontally (one
/// row) when it is even; it spans `3 + first draw % 21` steps along its
/// direction from a start of at least 3, and lies `3 + third draw % 21` across.
pub proof fn lemma_next_segment_shape(s: u32)
    ensures
        lcg_output(lcg_steps(s, 4)) % 2 == 1 ==> next_segment(s).0 == next_segment(s).1
            && next_segment(s).3 - next_segment(s).2 == 3 + (lcg_output(lcg_steps(s, 1)) as int) % 21
            && next_segment(s).0 == 3 + (lcg_output(lcg_steps(s, 3)) as int) % 21
            && next_segment(s).2 >= 3,
        lcg_output(lcg_steps(s, 4)) % 2 == 0 ==> next_segment(s).2 == next_segment(s).3
            && next_segment(s).1 - next_segment(s).0 == 3 + (lcg_output(lcg_steps(s, 1)) as int) % 21
            && next_segment(s).2 == 3 + (lcg_output(lcg_steps(s, 3)) as int) % 21
            && next_segment(s).0 >= 3,
        drawable_segment(next_segment(s)),
{
}

/// The tiles with walls drawn on the segment `s`.
pub open spec fn with_segment(tiles: Seq<Option<MapTile>>, s: (int, int, int, int)) -> Seq<
    Option<MapTile>,
> {
    Seq::new(
        tiles.len(),
        |i: int|
            if on_segment(s, i % (MAP_SIZE as int), i / (MAP_SIZE as int)) {
                wall_at(i % (MAP_SIZE as int), i / (MAP_SIZE as int))
            } else {
                tiles[i]
            },
    )
}

/// The segment fits: it crosses no wall or door, and afterwards every free cell
/// of the inner area still has at least three free neighbours.
pub open spec fn segment_fits(tiles: Seq<Option<MapTile>>, s: (int, int, int, int)) -> bool {
    segment_clear(tiles, s) && roomy(with_segment(tiles, s))
}

/// Placing one wall with `tries` attempts left, from generator state `state`:
/// each attempt draws the next segment and keeps it if it fits. Gives the tiles
/// and the generator state afterwards.
pub open spec fn place_wall(tiles: Seq<Option<MapTile>>, state: u32, tries: nat) -> (
    Seq<Option<MapTile>>,
    u32,
)
    decreases tries,
{
    if tries == 0 {
        (tiles, state)
    } else if segment_fits(tiles, next_segment(state)) {
        (with_segment(tiles, next_segment(state)), lcg_steps(state, 4))
    } else {
        place_wall(tiles, lcg_steps(state, 4), (tries - 1) as nat)
    }
}

/// Placing `n` walls one after another, each with `u32::MAX` attempts.
pub open spec fn place_walls(tiles: Seq<Option<MapTile>>, state: u32, n: nat) -> (
    Seq<Option<MapTile>>,
    u32,
)
    decreases n,
{
    if n == 0 {
        (tiles, state)
    } else {
        let first = place_wall(tiles, state, u32::MAX as nat);
        place_walls(first.0, first.1, (n - 1) as nat)
    }
}

/// The tiles of a fresh map, before walls are drawn.
pub open spec fn base_layout() -> Seq<Option<MapTile>> {
    Seq::new(MAP_TILES as nat, |i: int| base_tile(i % (MAP_SIZE as int), i / (MAP_SIZE as int)))
}

/// The map and generator state that map generation from state `s` yields: the
/// first draw gives the number of walls (3 to 5), then the walls are placed.
pub open spec fn generation(s: u32) -> (Seq<Option<MapTile>>, u32) {
    place_walls(base_layout(), lcg_step(s), (lcg_output(lcg_step(s)) % 3 + 3) as nat)
}

/// Positions and indices of the row-major tile list correspond.
proof fn lemma_index_cell(i: int, x: int, y: int)
    requires
        0 <= x < MAP_SIZE,
        0 <= y < MAP_SIZE,
        i == x + y * MAP_SIZE,
    ensures
        i % (MAP_SIZE as int) == x,
        i / (MAP_SIZE as int) == y,
        0 <= i < MAP_TILES,
{
}

proof fn lemma_cell_of_index(i: int)
    requires
        0 <= i < MAP_TILES,
    ensures
        0 <= i % (MAP_SIZE as int) < MAP_SIZE,
        0 <= i / (MAP_SIZE as int) < MAP_SIZE,
        i == i % (MAP_SIZE as int) + (i / (MAP_SIZE as int)) * MAP_SIZE,
{
}

/// Two tile lists with the same cells are equal.
proof fn lemma_same_cells(a: Seq<Option<MapTile>>, b: Seq<Option<MapTile>>)
    requires
        a.len() == MAP_TILES,
        b.len() == MAP_TILES,
        forall|x: int, y: int|
            0 <= x < MAP_SIZE && 0 <= y < MAP_SIZE ==> #[trigger] cell(a, x, y) == cell(b, x, y),
    ensures
        a == b,
{
    assert forall|i: int| 0 <= i < MAP_TILES implies a[i] == b[i] by {
        lemma_cell_of_index(i);
        assert(cell(a, i % (MAP_SIZE as int), i / (MAP_SIZE as int)) == cell(
            b,
            i % (MAP_SIZE as int),
            i / (MAP_SIZE as int),
        ));
    }
    assert(a =~= b);
}

/// `with_segment` draws the segment, and it is the only way to draw it.
proof fn lemma_with_segment(tiles: Seq<Option<MapTile>>, s: (int, int, int, int))
    requires
        tiles.len() == MAP_TILES,
    ensures
        segment_drawn(tiles, with_segment(tiles, s), s),
        forall|t: Seq<Option<MapTile>>| #[trigger] segment_drawn(tiles, t, s) ==> t == with_segment(tiles, s),
{
    reveal(segment_drawn);
    let w = with_segment(tiles, s);
    assert forall|x: int, y: int| 0 <= x < MAP_SIZE && 0 <= y < MAP_SIZE implies #[trigger] cell(w, x, y)
        == if on_segment(s, x, y) {
        wall_at(x, y)
    } else {
        cell(tiles, x, y)
    } by {
        lemma_index_cell(x + y * MAP_SIZE, x, y);
    }
    assert forall|t: Seq<Option<MapTile>>| #[trigger] segment_drawn(tiles, t, s) implies t == w by {
        assert forall|x: int, y: int| 0 <= x < MAP_SIZE && 0 <= y < MAP_SIZE implies #[trigger] cell(t, x, y)
            == cell(w, x, y) by {}
        lemma_same_cells(t, w);
    }
}

/// Drawing one more segment onto a walled layout gives the layout of all the segments.
proof fn lemma_draw_segment(
    before: Seq<Option<MapTile>>,
    after: Seq<Option<MapTile>>,
    segs: Seq<(int, int, int, int)>,
    s: (int, int, int, int),
)
    requires
        walled_layout(before, segs),
        segment_drawn(before, after, s),
    ensures
        walled_layout(after, segs.push(s)),
{
    reveal(segment_drawn);
    let all = segs.push(s);
    assert forall|x: int, y: int| 0 <= x < MAP_SIZE && 0 <= y < MAP_SIZE implies #[trigger] cell(
        after,
        x,
        y,
    ) == if walled(all, x, y) {
        wall_at(x, y)
    } else {
        base_tile(x, y)
    } by {
        assert(cell(before, x, y) == if walled(segs, x, y) {
            wall_at(x, y)
        } else {
            base_tile(x, y)
        });
        if on_segment(s, x, y) {
            assert(on_segment(all[segs.len() as int], x, y));
        } else if walled(segs, x, y) {
            let k = choose|k: int| 0 <= k < segs.len() && #[trigger] on_segment(segs[k], x, y);
            assert(on_segment(all[k], x, y));
        } else {
            assert forall|k: int| 0 <= k < all.len() implies !#[trigger] on_segment(all[k], x, y) by {
                if k < segs.len() {
                    assert(all[k] == segs[k]);
                }
            }
        }
    }
}

/// The game map: a square grid of tiles.
pub struct TileMap {
    tiles: Vec<Option<MapTile>>,
}

/// Whether `(x, y)` (both below `MAP_SIZE`) holds a walkable tile.
fn cell_is_free(tiles: &Vec<Option<MapTile>>, x: usize, y: usize) -> (r: bool)
    requires
        tiles@.len() == MAP_TILES,
        x < MAP_SIZE,
        y < MAP_SIZE,
    ensures
        r == free_cell(tiles@, x as int, y as int),
{
    match tiles[x + y * MAP_SIZE] {
        Some(t) => !t.is_solid(),
        None => false,
    }
}

/// Draws walls on the tiles `x1..=x2` x `y1..=y2`; refuses (`false`) when one of
/// them already holds a wall or a door, leaving the tiles partly drawn: then
/// only tiles of the segment have changed, each into a wall.
fn draw_segment(star: &mut Vec<Option<MapTile>>, x1: usize, x2: usize, y1: usize, y2: usize) -> (ok:
    bool)
    requires
        layout_shape(old(star)@),
        3 <= x1 <= x2 <= MAP_SIZE - 4,
        3 <= y1 <= y2 <= MAP_SIZE - 4,
    ensures
        layout_shape(final(star)@),
        final(star)@.len() == old(star)@.len(),
        ok == segment_clear(old(star)@, (x1 as int, x2 as int, y1 as int, y2 as int)),
        ok ==> segment_drawn(old(star)@, final(star)@, (x1 as int, x2 as int, y1 as int, y2 as int)),
        forall|x: int, y: int|
            0 <= x < MAP_SIZE && 0 <= y < MAP_SIZE ==> #[trigger] cell(final(star)@, x, y) == cell(
                old(star)@,
                x,
                y,
            ) || (on_segment((x1 as int, x2 as int, y1 as int, y2 as int), x, y) && cell(
                final(star)@,
                x,
                y,
            ) == wall_at(x, y)),
{
    let ghost tiles = star@;
    reveal(segment_drawn);
    // Looks like making a square but this really is just a line.
    let mut x = x1;
    while x <= x2
        invariant
            3 <= x1 <= x2 <= MAP_SIZE - 4,
            3 <= y1 <= y2 <= MAP_SIZE - 4,
            x1 <= x <= x2 + 1,
            layout_shape(star@),
            tiles.len() == MAP_TILES,
            tiles == old(star)@,
            star@.len() == MAP_TILES,
            forall|xx: int, yy: int|
                x1 <= xx < x && y1 <= yy <= y2 ==> !blocks_segment(#[trigger] cell(tiles, xx, yy)),
            forall|xx: int, yy: int|
                0 <= xx < MAP_SIZE && 0 <= yy < MAP_SIZE ==> #[trigger] cell(star@, xx, yy) == if x1
                    <= xx < x && y1 <= yy <= y2 {
                    wall_at(xx, yy)
                } else {
                    cell(tiles, xx, yy)
                },
        decreases x2 + 1 - x,
    {
        let mut y = y1;
        while y <= y2
            invariant
                3 <= x1 <= x <= x2 <= MAP_SIZE - 4,
                3 <= y1 <= y2 <= MAP_SIZE - 4,
                y1 <= y <= y2 + 1,
                layout_shape(star@),
                tiles.len() == MAP_TILES,
                tiles == old(star)@,
                star@.len() == MAP_TILES,
                forall|xx: int, yy: int|
                    ((x1 <= xx < x && y1 <= yy <= y2) || (xx == x && y1 <= yy < y)) ==> !blocks_segment(
                        #[trigger] cell(tiles, xx, yy),
                    ),
                forall|xx: int, yy: int|
                    0 <= xx < MAP_SIZE && 0 <= yy < MAP_SIZE ==> #[trigger] cell(star@, xx, yy) == if (
                    x1 <= xx < x && y1 <= yy <= y2) || (xx == x && y1 <= yy < y) {
                        wall_at(xx, yy)
                    } else {
                        cell(tiles, xx, yy)
                    },
            decreases y2 + 1 - y,
        {
            let idx = x + y * MAP_SIZE;
            // Make sure that we do not override any other wall / door thingies.
            assert(star@[idx as int] == cell(star@, x as int, y as int));
            assert(cell(star@, x as int, y as int) == cell(tiles, x as int, y as int));
            match star[idx] {
                Some(MapTile::Wall(_)) | Some(MapTile::Door(_)) | Some(MapTile::UnlockedDoor(_)) => {
                    assert(on_segment((x1 as int, x2 as int, y1 as int, y2 as int), x as int, y as int));
                    return false;
                },
                _ => {},
            }
            let ghost before = star@;
            star.set(idx, Some(MapTile::Wall(MapPosition(x as isize, y as isize))));
            assert forall|xx: int, yy: int| 0 <= xx < MAP_SIZE && 0 <= yy < MAP_SIZE implies {
                let t = #[trigger] cell(star@, xx, yy);
                &&& t is Some
                &&& tile_at_own_position(t, xx, yy)
                &&& (xx == 0 || yy == 0 || xx == MAP_SIZE - 1 || yy == MAP_SIZE - 1) ==> is_wall(t)
                &&& (xx == 1 && yy == 1) ==> is_door(t)
                &&& !(xx == 1 && yy == 1) ==> is_wall_or_floor(t)
            } by {
                if xx + yy * MAP_SIZE != idx {
                    assert(cell(star@, xx, yy) == cell(before, xx, yy));
                } else {
                    assert(xx == x && yy == y);
                }
            }
            assert forall|xx: int, yy: int| 0 <= xx < MAP_SIZE && 0 <= yy < MAP_SIZE implies #[trigger] cell(
                star@,
                xx,
                yy,
            ) == if (x1 <= xx < x && y1 <= yy <= y2) || (xx == x && y1 <= yy < y + 1) {
                wall_at(xx, yy)
            } else {
                cell(tiles, xx, yy)
            } by {
                if xx + yy * MAP_SIZE != idx {
                    assert(cell(star@, xx, yy) == cell(before, xx, yy));
                } else {
                    assert(xx == x && yy == y);
                }
            }
            y += 1;
        }
        x += 1;
    }
    true
}

/// One attempt to draw a random straight wall segment into `tiles`: the segment
/// is the generator's next one (`r.1`, four draws). The attempt fails (`None`)
/// when the segment would cross a wall or a door, or when it would leave a free
/// cell of the inner area with fewer than three free neighbours.
fn try_add_wall(tiles: &Vec<Option<MapTile>>, rng: &mut Random) -> (r: (
    Option<Vec<Option<MapTile>>>,
    Ghost<(int, int, int, int)>,
))
    requires
        generated_layout(tiles@),
    ensures
        r.1@ == next_segment(old(rng).0),
        lcg_output(lcg_steps(old(rng).0, 4)) % 2 == 1 ==> r.1@.0 == r.1@.1 && r.1@.2 < r.1@.3,
        lcg_output(lcg_steps(old(rng).0, 4)) % 2 == 0 ==> r.1@.2 == r.1@.3 && r.1@.0 < r.1@.1,
        final(rng).0 == lcg_steps(old(rng).0, 4),
        drawable_segment(r.1@),
        r.0 is Some <==> segment_fits(tiles@, r.1@),
        r.0 matches Some(t) ==> t@ == with_segment(tiles@, r.1@) && generated_layout(t@)
            && segment_drawn(tiles@, t@, r.1@),
{
    let ghost s0 = rng.0;
    // -6 so that we always have 2 blocks free (1 for the wall, 2 free, both sides).
    let wall_length = rand_between(rng, 3, MAP_SIZE as u32 - 6);

    // Generate start and stop for the line. (x or y coord, decided later).
    let p1 = rand_between(rng, 3, MAP_SIZE as u32 - wall_length - 3);
    let p2 = p1 + wall_length;

    // Generate last part, y or x coord.
    let p3 = rand_between(rng, 3, MAP_SIZE as u32 - 6);

    // Decide whether line is horizontal or vertical.
    let (x1, x2, y1, y2) = if rng.next() % 2 == 0 {
        (p1 as usize, p2 as usize, p3 as usize, p3 as usize)
    } else {
        (p3 as usize, p3 as usize, p1 as usize, p2 as usize)
    };
    let ghost seg = (x1 as int, x2 as int, y1 as int, y2 as int);
    assert(drawable_segment(seg));
    proof {
        reveal_with_fuel(lcg_steps, 5);
        assert(seg == next_segment(s0));
    }

    // Work on a copy so that the current map stays as it is when the attempt fails.
    let mut star: Vec<Option<MapTile>> = Vec::new();
    let mut k: usize = 0;
    while k < MAP_TILES
        invariant
            k <= MAP_TILES,
            tiles@.len() == MAP_TILES,
            star@ == tiles@.subrange(0, k as int),
        decreases MAP_TILES - k,
    {
        star.push(tiles[k]);
        k += 1;
    }
    assert(star@ == tiles@);

    if !draw_segment(&mut star, x1, x2, y1, y2) {
        return (None, Ghost(seg));
    }
    proof {
        lemma_with_segment(tiles@, seg);
    }
    assert(star@ == with_segment(tiles@, seg));
    // Make sure that we didn't create rooms of width=1 or height=1.
    if is_roomy(&star) {
        (Some(star), Ghost(seg))
    } else {
        (None, Ghost(seg))
    }
}

/// Checks that every free cell of the inner area has at least three free neighbours.
fn is_roomy(star: &Vec<Option<MapTile>>) -> (r: bool)
    requires
        star@.len() == MAP_TILES,
    ensures
        r == roomy(star@),
{
    let mut x: usize = 2;
    while x < MAP_SIZE - 2
        invariant
            2 <= x <= MAP_SIZE - 2,
            star@.len() == MAP_TILES,
            forall|xx: int, yy: int|
                2 <= xx < x && 2 <= yy < MAP_SIZE - 2 ==> #[trigger] roomy_at(star@, xx, yy),
        decreases MAP_SIZE - 2 - x,
    {
        let mut y: usize = 2;
        while y < MAP_SIZE - 2
            invariant
                2 <= x < MAP_SIZE - 2,
                2 <= y <= MAP_SIZE - 2,
                star@.len() == MAP_TILES,
                forall|xx: int, yy: int|
                    2 <= xx < x && 2 <= yy < MAP_SIZE - 2 ==> #[trigger] roomy_at(star@, xx, yy),
                forall|yy: int| 2 <= yy < y ==> #[trigger] roomy_at(star@, x as int, yy),
            decreases MAP_SIZE - 2 - y,
        {
            // Skip this one if it is solid (or, which cannot happen, missing).
            if cell_is_free(star, x, y) {
                // Count the amount of free neighbors each field has.
                let mut num_free_neighbors: usize = 0;
                if cell_is_free(star, x - 1, y) {
                    num_free_neighbors += 1;
                }
                if cell_is_free(star, x + 1, y) {
                    num_free_neighbors += 1;
                }
                if cell_is_free(star, x, y - 1) {
                    num_free_neighbors += 1;
                }
                if cell_is_free(star, x, y + 1) {
                    num_free_neighbors += 1;
                }
                assert(num_free_neighbors == free_neighbors(star@, x as int, y as int));
                if num_free_neighbors < 3 {
                    assert(!roomy_at(star@, x as int, y as int));
                    return false;
                }
            }
            y += 1;
        }
        x += 1;
    }
    true
}

impl TileMap {
    /// The tiles in row-major order (`x + y * MAP_SIZE`).
    pub closed spec fn tiles(&self) -> Seq<Option<MapTile>> {
        self.tiles@
    }

    /// A map always holds `MAP_SIZE * MAP_SIZE` tile slots.
    pub open spec fn wf(&self) -> bool {
        self.tiles().len() == MAP_TILES
    }

    /// The tile at a position; `None` outside the map.
    pub open spec fn tile_at(&self, p: MapPosition) -> Option<MapTile> {
        if in_bounds(p) {
            self.tiles()[tile_index(p)]
        } else {
            None
        }
    }

    /// Whether the position holds a solid tile.
    pub open spec fn solid_at(&self, p: MapPosition) -> bool {
        match self.tile_at(p) {
            Some(t) => t.solid(),
            None => false,
        }
    }

    /// The outer ring of the map is wall all around.
    pub open spec fn enclosed(&self) -> bool {
        forall|p: MapPosition| #[trigger] on_border(p) ==> is_wall(self.tile_at(p))
    }

    /// Generates a new map: walls around the border, the exit door in the top
    /// left corner, and three to five random straight wall segments inside
    /// (a segment that does not fit in `u32::MAX` tries is left out). The map
    /// and the generator's new state are those that `generation` gives.
    pub fn new(rng: &mut Random) -> (m: Self)
        ensures
            m.tiles() == generation(old(rng).0).0,
            final(rng).0 == generation(old(rng).0).1,
            m.wf(),
            generated_layout(m.tiles()),
            m.enclosed(),
            exists|segs: Seq<(int, int, int, int)>|
                #![trigger walled_layout(m.tiles(), segs)]
                segs.len() <= 5 && (forall|k: int| 0 <= k < segs.len() ==> drawable_segment(#[trigger] segs[k]))
                    && walled_layout(m.tiles(), segs),
    {
        let mut tiles: Vec<Option<MapTile>> = Vec::new();
        let mut y: usize = 0;
        while y < MAP_SIZE
            invariant
                y <= MAP_SIZE,
                tiles@.len() == y * MAP_SIZE,
                forall|xx: int, yy: int|
                    0 <= xx < MAP_SIZE && 0 <= yy < y ==> #[trigger] cell(tiles@, xx, yy)
                        == (if xx == 1 && yy == 1 {
                        Some(MapTile::Floor(MapPosition(1, 1)))
                    } else {
                        base_tile(xx, yy)
                    }),
            decreases MAP_SIZE - y,
        {
            let mut x: usize = 0;
            while x < MAP_SIZE
                invariant
                    y < MAP_SIZE,
                    x <= MAP_SIZE,
                    tiles@.len() == y * MAP_SIZE + x,
                    forall|xx: int, yy: int|
                        0 <= xx < MAP_SIZE && 0 <= yy < y ==> #[trigger] cell(tiles@, xx, yy)
                            == (if xx == 1 && yy == 1 {
                            Some(MapTile::Floor(MapPosition(1, 1)))
                        } else {
                            base_tile(xx, yy)
                        }),
                    forall|xx: int|
                        0 <= xx < x ==> #[trigger] cell(tiles@, xx, y as int) == (if xx == 1 && y
                            == 1 {
                            Some(MapTile::Floor(MapPosition(1, 1)))
                        } else {
                            base_tile(xx, y as int)
                        }),
                decreases MAP_SIZE - x,
            {
                let p = MapPosition(x as isize, y as isize);
                let ghost before = tiles@;
                if x == 0 || y == 0 || x == MAP_SIZE - 1 || y == MAP_SIZE - 1 {
                    tiles.push(Some(MapTile::Wall(p)));
                } else {
                    tiles.push(Some(MapTile::Floor(p)));
                }
                assert forall|xx: int, yy: int|
                    0 <= xx < MAP_SIZE && 0 <= yy < y implies #[trigger] cell(tiles@, xx, yy)
                        == (if xx == 1 && yy == 1 {
                        Some(MapTile::Floor(MapPosition(1, 1)))
                    } else {
                        base_tile(xx, yy)
                    }) by {
                    assert(cell(tiles@, xx, yy) == cell(before, xx, yy));
                }
                assert forall|xx: int|
                    0 <= xx < x + 1 implies #[trigger] cell(tiles@, xx, y as int) == (if xx == 1 && y
                        == 1 {
                        Some(MapTile::Floor(MapPosition(1, 1)))
                    } else {
                        base_tile(xx, y as int)
                    }) by {
                    if xx < x {
                        assert(cell(tiles@, xx, y as int) == cell(before, xx, y as int));
                    }
                }
                x += 1;
            }
            y += 1;
        }

        // Exit will always be in the top left.
        let ghost before = tiles@;
        tiles.set(1 + 1 * MAP_SIZE, Some(MapTile::Door(MapPosition(1, 1))));
        assert forall|xx: int, yy: int|
            0 <= xx < MAP_SIZE && 0 <= yy < MAP_SIZE implies #[trigger] cell(tiles@, xx, yy)
            == base_tile(xx, yy) by {
            assert(cell(before, xx, yy) == (if xx == 1 && yy == 1 {
                Some(MapTile::Floor(MapPosition(1, 1)))
            } else {
                base_tile(xx, yy)
            }));
            if xx + yy * MAP_SIZE == 1 + 1 * MAP_SIZE {
                assert(xx == 1 && yy == 1);
            }
        }
        assert forall|xx: int, yy: int|
            2 <= xx < MAP_SIZE - 2 && 2 <= yy < MAP_SIZE - 2 implies #[trigger] roomy_at(
            tiles@,
            xx,
            yy,
        ) by {
            assert(cell(tiles@, xx - 1, yy) == base_tile(xx - 1, yy));
            assert(cell(tiles@, xx + 1, yy) == base_tile(xx + 1, yy));
            assert(cell(tiles@, xx, yy - 1) == base_tile(xx, yy - 1));
            assert(cell(tiles@, xx, yy + 1) == base_tile(xx, yy + 1));
        }

        proof {
            assert forall|xx: int, yy: int| 0 <= xx < MAP_SIZE && 0 <= yy < MAP_SIZE implies #[trigger] cell(
                tiles@,
                xx,
                yy,
            ) == cell(base_layout(), xx, yy) by {
                lemma_index_cell(xx + yy * MAP_SIZE, xx, yy);
            }
            lemma_same_cells(tiles@, base_layout());
        }
        let ghost s0 = rng.0;
        let ghost mut segs: Seq<(int, int, int, int)> = Seq::empty();
        assert(walled_layout(tiles@, segs)) by {
            assert forall|xx: int, yy: int| 0 <= xx < MAP_SIZE && 0 <= yy < MAP_SIZE implies !walled(
                segs,
                xx,
                yy,
            ) by {}
        }

        // Draw some random walls.
        let n_walls = rng.next() % 3 + 3;
        assert(generation(s0) == place_walls(tiles@, rng.0, n_walls as nat));
        let mut i: u32 = 0;
        while i < n_walls
            invariant
                n_walls <= 5,
                i <= n_walls,
                place_walls(tiles@, rng.0, (n_walls - i) as nat) == generation(s0),
                generated_layout(tiles@),
                segs.len() <= i,
                forall|k: int| 0 <= k < segs.len() ==> drawable_segment(#[trigger] segs[k]),
                walled_layout(tiles@, segs),
            decreases n_walls - i,
        {
            // Retry until a segment fits.
            let ghost goal = place_wall(tiles@, rng.0, u32::MAX as nat);
            assert(place_walls(tiles@, rng.0, (n_walls - i) as nat) == place_walls(
                goal.0,
                goal.1,
                (n_walls - i - 1) as nat,
            ));
            let mut attempts_left: u32 = u32::MAX;
            let mut placed = false;
            while !placed && attempts_left > 0
                invariant
                    i < n_walls,
                    placed ==> tiles@ == goal.0 && rng.0 == goal.1,
                    !placed ==> place_wall(tiles@, rng.0, attempts_left as nat) == goal,
                    generated_layout(tiles@),
                    segs.len() <= i + if placed {
                        1int
                    } else {
                        0
                    },
                    forall|k: int| 0 <= k < segs.len() ==> drawable_segment(#[trigger] segs[k]),
                    walled_layout(tiles@, segs),
                decreases attempts_left,
            {
                let ghost r0 = rng.0;
                let ghost a0 = attempts_left as nat;
                attempts_left -= 1;
                let (attempt, Ghost(seg)) = try_add_wall(&tiles, rng);
                assert(place_wall(tiles@, r0, a0) == if segment_fits(tiles@, seg) {
                    (with_segment(tiles@, seg), rng.0)
                } else {
                    place_wall(tiles@, rng.0, attempts_left as nat)
                });
                match attempt {
                    Some(t) => {
                        proof {
                            lemma_draw_segment(tiles@, t@, segs, seg);
                            segs = segs.push(seg);
                        }
                        tiles = t;
                        placed = true;
                    },
                    None => {},
                }
            }
            assert(tiles@ == goal.0 && rng.0 == goal.1);
            i += 1;
        }
        let m = TileMap { tiles };
        assert forall|p: MapPosition| #[trigger] on_border(p) implies is_wall(m.tile_at(p)) by {
            assert(cell(m.tiles@, p.0 as int, p.1 as int) == m.tile_at(p));
        }
        assert(walled_layout(m.tiles(), segs));
        m
    }
}

/// After opening the doors no locked door is left, walls stay walls, and an
/// enclosed map stays enclosed.
pub proof fn lemma_unlocked_map(before: TileMap, after: TileMap)
    requires
        before.wf(),
        after.tiles() == before.tiles().map_values(
            |t: Option<MapTile>|
                match t {
                    Some(tile) => Some(tile.unlocked()),
                    None => None,
                },
        ),
    ensures
        after.wf(),
        forall|p: MapPosition| !is_door(#[trigger] after.tile_at(p)),
        forall|p: MapPosition| is_wall(#[trigger] before.tile_at(p)) ==> is_wall(after.tile_at(p)),
        before.enclosed() ==> after.enclosed(),
{
    assert forall|p: MapPosition| !is_door(#[trigger] after.tile_at(p)) by {
        if in_bounds(p) {
            assert(after.tiles()[tile_index(p)] == match before.tiles()[tile_index(p)] {
                Some(tile) => Some(tile.unlocked()),
                None => None,
            });
        }
    }
    assert forall|p: MapPosition| is_wall(#[trigger] before.tile_at(p)) implies is_wall(after.tile_at(p)) by {
        if in_bounds(p) {
            assert(after.tiles()[tile_index(p)] == match before.tiles()[tile_index(p)] {
                Some(tile) => Some(tile.unlocked()),
                None => None,
            });
        }
    }
}

impl TileMap {
    /// Opens every locked door of the map; nothing else changes.
    pub fn unlock_doors(&mut self)
        requires
            old(self).wf(),
        ensures
            final(self).wf(),
            final(self).tiles() == old(self).tiles().map_values(
                |t: Option<MapTile>|
                    match t {
                        Some(tile) => Some(tile.unlocked()),
                        None => None,
                    },
            ),
    {
        let ghost start = self.tiles@;
        let mut i: usize = 0;
        while i < MAP_TILES
            invariant
                i <= MAP_TILES,
                start.len() == MAP_TILES,
                self.tiles@.len() == MAP_TILES,
                forall|j: int|
                    0 <= j < i ==> #[trigger] self.tiles@[j] == (match start[j] {
                        Some(tile) => Some(tile.unlocked()),
                        None => None,
                    }),
                forall|j: int| i <= j < MAP_TILES ==> #[trigger] self.tiles@[j] == start[j],
            decreases MAP_TILES - i,
        {
            match self.tiles[i] {
                Some(MapTile::Door(pos)) => {
                    self.tiles.set(i, Some(MapTile::UnlockedDoor(pos)));
                },
                _ => {},
            }
            i += 1;
        }
        assert(self.tiles@ =~= start.map_values(
            |t: Option<MapTile>|
                match t {
                    Some(tile) => Some(tile.unlocked()),
                    None => None,
                },
        ));
    }

    /// Number of tiles per row.
    pub fn width(&self) -> (r: usize)
        ensures
            r == MAP_SIZE,
    {
        MAP_SIZE
    }

    /// Number of tiles per column.
    pub fn height(&self) -> (r: usize)
        ensures
            r == MAP_SIZE,
    {
        MAP_SIZE
    }

    /// The tile at `pos`, if `pos` lies inside the map and holds one.
    pub fn get_tile_at(&self, pos: &MapPosition) -> (r: Option<&MapTile>)
        requires
            self.wf(),
        ensures
            match r {
                Some(t) => self.tile_at(*pos) == Some(*t),
                None => self.tile_at(*pos) is None,
            },
    {
        if 0 <= pos.0 && 0 <= pos.1 && (pos.0 as usize) < self.width() && (pos.1 as usize)
            < self.height() {
            match &self.tiles[pos.0 as usize + (pos.1 as usize) * self.width()] {
                Some(obj) => Some(obj),
                None => None,
            }
        } else {
            None
        }
    }

    /// Mutable access to the tile at `pos`, if `pos` lies inside the map and holds one.
    pub fn get_tile_at_mut(&mut self, pos: &MapPosition) -> (r: Option<&mut MapTile>)
        requires
            old(self).wf(),
        ensures
            match r {
                Some(t) => {
                    &&& old(self).tile_at(*pos) == Some(*t)
                    &&& final(self).tiles() == old(self).tiles().update(
                        tile_index(*pos),
                        Some(*final(t)),
                    )
                },
                None => {
                    &&& old(self).tile_at(*pos) is None
                    &&& final(self).tiles() == old(self).tiles()
                },
            },
    {
        if 0 <= pos.0 && 0 <= pos.1 && (pos.0 as usize) < MAP_SIZE && (pos.1 as usize) < MAP_SIZE {
            let i = pos.0 as usize + (pos.1 as usize) * MAP_SIZE;
            match self.tiles[i] {
                Some(_) => {
                    let slot: &mut Option<MapTile> = &mut self.tiles[i];
                    match slot {
                        Some(obj) => Some(obj),
                        None => None,
                    }
                },
                None => None,
            }
        } else {
            None
        }
    }

    /// Whether the tile at `pos` blocks movement; positions outside the map do not.
    pub fn is_solid(&self, pos: &MapPosition) -> (r: bool)
        requires
            self.wf(),
        ensures
            r == self.solid_at(*pos),
    {
        match self.get_tile_at(pos) {
            Some(tile) => tile.is_solid(),
            _ => false,
        }
    }
}

} // verus!
