use vstd::prelude::*;

use crate::common::{MapPosition, plus};
use crate::map::{MAP_SIZE, MAP_TILES, TileMap, in_bounds, on_border, tile_index};

verus! {

/// Marks a tile that has not been reached yet.
const UNREACHED: usize = 0xFFFFFFFF;

/// How many breadth-first rounds the search runs before it gives up: targets
/// more than this many steps away are not found.
pub const MAX_ROUNDS: usize = 400;

struct Node {
    distance: usize,
    last: Option<MapPosition>,
}

/// Whether the position lies inside the map but not on its outer ring.
pub open spec fn interior(p: MapPosition) -> bool {
    1 <= p.0 < MAP_SIZE - 1 && 1 <= p.1 < MAP_SIZE - 1
}

/// Whether two positions are direct (four-way) neighbours.
pub open spec fn adjacent(a: MapPosition, b: MapPosition) -> bool {
    ||| a.0 == b.0 && (a.1 - b.1 == 1 || b.1 - a.1 == 1)
    ||| a.1 == b.1 && (a.0 - b.0 == 1 || b.0 - a.0 == 1)
}

/// `path` leads from `to` (first element) back to `from` (last element) in steps
/// between direct neighbours; every tile on it but `from` lies in the map and
/// can be walked on, and no tile occurs twice.
pub open spec fn is_walkable_path(
    path: Seq<MapPosition>,
    from: MapPosition,
    to: MapPosition,
    map: TileMap,
) -> bool {
    &&& path.len() >= 2
    &&& path[0] == to
    &&& path[path.len() - 1] == from
    &&& in_bounds(from)
    &&& forall|k: int|
        0 <= k < path.len() - 1 ==> {
            &&& adjacent(#[trigger] path[k], path[k + 1])
            &&& in_bounds(path[k])
            &&& !map.solid_at(path[k])
        }
    &&& forall|j: int, k: int| 0 <= j < k < path.len() ==> path[j] != path[k]
}

/// A step from `q` onto its neighbour `p`, which lies in the map and can be walked on.
spec fn open_step(map: TileMap, q: MapPosition, p: MapPosition) -> bool {
    adjacent(q, p) && in_bounds(p) && !map.solid_at(p)
}

/// `s` leads from its first tile back to `from` in open steps (tiles may repeat).
spec fn back_walk(s: Seq<MapPosition>, from: MapPosition, map: TileMap) -> bool {
    &&& s.len() >= 1
    &&& s[s.len() - 1] == from
    &&& forall|k: int| 0 <= k < s.len() - 1 ==> #[trigger] open_step(map, s[k + 1], s[k])
}

spec fn neighbour_offsets() -> Seq<MapPosition> {
    seq![MapPosition(0, 1), MapPosition(0, -1isize), MapPosition(1, 0), MapPosition(-1isize, 0)]
}

spec fn node_at(paths: Seq<Node>, p: MapPosition) -> Node {
    paths[tile_index(p)]
}

/// The search has given the tile a distance.
spec fn reached(paths: Seq<Node>, p: MapPosition) -> bool {
    node_at(paths, p).distance != UNREACHED
}

spec fn dist(paths: Seq<Node>, p: MapPosition) -> int {
    node_at(paths, p).distance as int
}

/// The bookkeeping of the search at one tile: its parent is interior, one step
/// closer to the start and adjacent; only the start and unreached tiles lack a parent.
spec fn good_node(paths: Seq<Node>, from: MapPosition, map: TileMap, p: MapPosition) -> bool {
    let n = node_at(paths, p);
    &&& (n.last matches Some(q) ==> {
        &&& interior(q)
        &&& interior(p)
        &&& adjacent(p, q)
        &&& !map.solid_at(p)
        &&& node_at(paths, q).distance + 1 == n.distance
        &&& n.distance <= MAX_ROUNDS + 1
    })
    &&& (n.last is None && p != from ==> n.distance == UNREACHED)
}

/// The bookkeeping of the search holds at every tile, and the start is at distance 0.
spec fn search_inv(paths: Seq<Node>, from: MapPosition, map: TileMap) -> bool {
    &&& paths.len() == MAP_TILES
    &&& node_at(paths, from).distance == 0
    &&& node_at(paths, from).last is None
    &&& forall|p: MapPosition| in_bounds(p) ==> #[trigger] good_node(paths, from, map, p)
}

/// Every open neighbour of a reached tile closer than `k` is reached, at most
/// one step farther.
spec fn closed_below(paths: Seq<Node>, map: TileMap, k: int) -> bool {
    forall|q: MapPosition, p: MapPosition|
        in_bounds(q) && reached(paths, q) && dist(paths, q) < k && #[trigger] open_step(map, q, p)
            ==> reached(paths, p) && dist(paths, p) <= dist(paths, q) + 1
}

/// The open neighbours of the first `j` listed tiles are reached, at most `bound` away.
spec fn processed(paths: Seq<Node>, map: TileMap, list: Seq<MapPosition>, j: int, bound: int) -> bool {
    forall|jj: int, p: MapPosition|
        0 <= jj < j && #[trigger] open_step(map, list[jj], p) ==> reached(paths, p) && dist(paths, p)
            <= bound
}

/// At the start of round `round`: the list holds exactly the tiles at distance
/// `round`, no tile is farther, and the tiles closer than `round` are closed.
spec fn round_start(
    paths: Seq<Node>,
    list: Seq<MapPosition>,
    from: MapPosition,
    map: TileMap,
    round: int,
) -> bool {
    &&& search_inv(paths, from, map)
    &&& forall|jj: int|
        0 <= jj < list.len() ==> interior(#[trigger] list[jj]) && dist(paths, list[jj]) == round
    &&& forall|p: MapPosition| in_bounds(p) && #[trigger] reached(paths, p) ==> dist(paths, p) <= round
    &&& forall|p: MapPosition|
        in_bounds(p) && #[trigger] reached(paths, p) && dist(paths, p) == round ==> list.contains(p)
    &&& closed_below(paths, map, round)
}

/// During round `round`, after the first `j` listed tiles: the tiles found in
/// this round (at distance `round + 1`) are exactly those in `newlist`.
spec fn in_round(
    paths: Seq<Node>,
    list: Seq<MapPosition>,
    newlist: Seq<MapPosition>,
    from: MapPosition,
    map: TileMap,
    round: int,
    j: int,
) -> bool {
    &&& search_inv(paths, from, map)
    &&& forall|jj: int|
        0 <= jj < list.len() ==> interior(#[trigger] list[jj]) && dist(paths, list[jj]) == round
    &&& forall|jj: int|
        0 <= jj < newlist.len() ==> interior(#[trigger] newlist[jj]) && dist(paths, newlist[jj])
            == round + 1
    &&& forall|p: MapPosition| in_bounds(p) && #[trigger] reached(paths, p) ==> dist(paths, p) <= round + 1
    &&& forall|p: MapPosition|
        in_bounds(p) && #[trigger] reached(paths, p) && dist(paths, p) == round ==> list.contains(p)
    &&& forall|p: MapPosition|
        in_bounds(p) && #[trigger] reached(paths, p) && dist(paths, p) == round + 1
            ==> newlist.contains(p)
    &&& closed_below(paths, map, round)
    &&& processed(paths, map, list, j, round + 1)
}

proof fn lemma_tile_index_injective(p: MapPosition, q: MapPosition)
    requires
        in_bounds(p),
        in_bounds(q),
        tile_index(p) == tile_index(q),
    ensures
        p == q,
{
}

/// A tile that a walk of `n` steps leads to from the start is reached, at most
/// `n` away, once every tile closer than `n` is closed.
proof fn lemma_walk_reached(
    paths: Seq<Node>,
    from: MapPosition,
    map: TileMap,
    k: int,
    s: Seq<MapPosition>,
)
    requires
        search_inv(paths, from, map),
        interior(from),
        closed_below(paths, map, k),
        back_walk(s, from, map),
        s.len() - 1 <= k,
    ensures
        in_bounds(s[0]),
        reached(paths, s[0]),
        dist(paths, s[0]) <= s.len() - 1,
    decreases s.len(),
{
    if s.len() > 1 {
        let t = s.subrange(1, s.len() as int);
        assert forall|i: int| 0 <= i < t.len() - 1 implies #[trigger] open_step(map, t[i + 1], t[i]) by {
            assert(t[i + 1] == s[i + 2]);
            assert(t[i] == s[i + 1]);
            assert(open_step(map, s[(i + 1) + 1], s[i + 1]));
        }
        lemma_walk_reached(paths, from, map, k, t);
        assert(t[0] == s[1]);
        assert(open_step(map, s[0int + 1], s[0]));
    }
}

/// A walkable path is a walk back to the start.
proof fn lemma_path_is_walk(path: Seq<MapPosition>, from: MapPosition, to: MapPosition, map: TileMap)
    requires
        is_walkable_path(path, from, to, map),
    ensures
        back_walk(path, from, map),
{
    assert forall|k: int| 0 <= k < path.len() - 1 implies #[trigger] open_step(map, path[k + 1], path[k]) by {
        assert(adjacent(path[k], path[k + 1]));
    }
}

/// The four neighbours of a tile are the tile moved by the four offsets.
proof fn lemma_neighbour_is_offset(q: MapPosition, p: MapPosition)
    requires
        interior(q),
        adjacent(q, p),
    ensures
        p == plus(q, neighbour_offsets()[0]) || p == plus(q, neighbour_offsets()[1]) || p == plus(
            q,
            neighbour_offsets()[2],
        ) || p == plus(q, neighbour_offsets()[3]),
{
}

/// Discovering the unreached tile `nb` from `node` (distance `round`) keeps the
/// round's bookkeeping, once `nb` is added to `newlist`.
proof fn lemma_discover(
    before: Seq<Node>,
    after: Seq<Node>,
    list: Seq<MapPosition>,
    newlist: Seq<MapPosition>,
    from: MapPosition,
    map: TileMap,
    round: int,
    j: int,
    node: MapPosition,
    nb: MapPosition,
)
    requires
        in_round(before, list, newlist, from, map, round, j),
        interior(from),
        0 <= round < MAX_ROUNDS,
        interior(node),
        dist(before, node) == round,
        open_step(map, node, nb),
        interior(nb),
        !reached(before, nb),
        after.len() == MAP_TILES,
        forall|p: MapPosition|
            in_bounds(p) ==> #[trigger] node_at(after, p) == (if p == nb {
                Node { distance: (round + 1) as usize, last: Some(node) }
            } else {
                node_at(before, p)
            }),
    ensures
        in_round(after, list, newlist.push(nb), from, map, round, j),
        forall|p: MapPosition|
            in_bounds(p) && #[trigger] reached(before, p) ==> reached(after, p) && dist(after, p)
                == dist(before, p),
        reached(after, nb),
        dist(after, nb) == round + 1,
{
    let nl = newlist.push(nb);
    assert(in_bounds(from));
    assert(nb != from);
    assert(node_at(after, node) == node_at(before, node));
    assert forall|p: MapPosition| in_bounds(p) implies #[trigger] good_node(after, from, map, p) by {
        assert(good_node(before, from, map, p));
        let n0 = node_at(before, p);
        if let Some(q) = n0.last {
            assert(in_bounds(q));
            assert(q != nb);
        }
    }
    assert forall|jj: int| 0 <= jj < list.len() implies interior(#[trigger] list[jj]) && dist(after, list[jj])
        == round by {
        assert(interior(list[jj]) && dist(before, list[jj]) == round);
    }
    assert forall|jj: int| 0 <= jj < nl.len() implies interior(#[trigger] nl[jj]) && dist(after, nl[jj])
        == round + 1 by {
        if jj < newlist.len() {
            assert(nl[jj] == newlist[jj]);
            assert(interior(newlist[jj]) && dist(before, newlist[jj]) == round + 1);
        }
    }
    assert forall|p: MapPosition| in_bounds(p) && #[trigger] reached(after, p) && dist(after, p) == round
        + 1 implies nl.contains(p) by {
        if p == nb {
            assert(nl[newlist.len() as int] == nb);
        } else {
            assert(reached(before, p));
            assert(newlist.contains(p));
            let jj = choose|jj: int| 0 <= jj < newlist.len() && newlist[jj] == p;
            assert(nl[jj] == p);
        }
    }
    assert forall|p: MapPosition| in_bounds(p) && #[trigger] reached(after, p) && dist(after, p) == round
        implies list.contains(p) by {
        assert(reached(before, p));
    }
    assert forall|p: MapPosition| in_bounds(p) && #[trigger] reached(after, p) implies dist(after, p)
        <= round + 1 by {
        if p != nb {
            assert(reached(before, p));
        }
    }
    assert forall|q: MapPosition, p: MapPosition|
        in_bounds(q) && reached(after, q) && dist(after, q) < round && #[trigger] open_step(map, q, p)
            implies reached(after, p) && dist(after, p) <= dist(after, q) + 1 by {
        assert(q != nb);
        assert(reached(before, q));
        assert(reached(before, p));
        assert(p != nb);
    }
    assert forall|jj: int, p: MapPosition|
        0 <= jj < j && #[trigger] open_step(map, list[jj], p) implies reached(after, p) && dist(after, p)
            <= round + 1 by {
        if p != nb {
            assert(reached(before, p));
        }
    }
    assert forall|p: MapPosition| in_bounds(p) && #[trigger] reached(before, p) implies reached(after, p)
        && dist(after, p) == dist(before, p) by {
        assert(p != nb);
    }
}

/// Once all four neighbours of the listed tile `j` are handled, the first
/// `j + 1` listed tiles are processed.
proof fn lemma_node_done(
    paths: Seq<Node>,
    list: Seq<MapPosition>,
    newlist: Seq<MapPosition>,
    from: MapPosition,
    map: TileMap,
    round: int,
    j: int,
)
    requires
        in_round(paths, list, newlist, from, map, round, j),
        0 <= j < list.len(),
        forall|oo: int|
            0 <= oo < 4 && #[trigger] open_step(map, list[j], plus(list[j], neighbour_offsets()[oo]))
                ==> reached(paths, plus(list[j], neighbour_offsets()[oo])) && dist(
                paths,
                plus(list[j], neighbour_offsets()[oo]),
            ) <= round + 1,
    ensures
        in_round(paths, list, newlist, from, map, round, j + 1),
{
    let node = list[j];
    assert(interior(node));
    assert forall|jj: int, p: MapPosition|
        0 <= jj < j + 1 && #[trigger] open_step(map, list[jj], p) implies reached(paths, p) && dist(
            paths,
            p,
        ) <= round + 1 by {
        if jj == j {
            lemma_neighbour_is_offset(node, p);
            if p == plus(node, neighbour_offsets()[0]) {
                assert(open_step(map, node, plus(node, neighbour_offsets()[0])));
            } else if p == plus(node, neighbour_offsets()[1]) {
                assert(open_step(map, node, plus(node, neighbour_offsets()[1])));
            } else if p == plus(node, neighbour_offsets()[2]) {
                assert(open_step(map, node, plus(node, neighbour_offsets()[2])));
            } else {
                assert(open_step(map, node, plus(node, neighbour_offsets()[3])));
            }
        }
    }
}

/// A target found in round `round` is `dist` away, and no walkable path to it
/// is shorter than that.
proof fn lemma_found_is_shortest(
    paths: Seq<Node>,
    list: Seq<MapPosition>,
    newlist: Seq<MapPosition>,
    from: MapPosition,
    to: MapPosition,
    map: TileMap,
    round: int,
    j: int,
)
    requires
        in_round(paths, list, newlist, from, map, round, j),
        interior(from),
        in_bounds(to),
        node_at(paths, to).last is Some,
    ensures
        dist(paths, to) <= round + 1,
        forall|other: Seq<MapPosition>| #[trigger]
            is_walkable_path(other, from, to, map) ==> dist(paths, to) + 1 <= other.len(),
{
    assert(good_node(paths, from, map, to));
    assert(reached(paths, to));
    assert(dist(paths, to) <= round + 1);
    assert forall|other: Seq<MapPosition>| #[trigger] is_walkable_path(other, from, to, map) implies dist(
        paths,
        to,
    ) + 1 <= other.len() by {
        if other.len() < dist(paths, to) + 1 {
            lemma_path_is_walk(other, from, to, map);
            lemma_walk_reached(paths, from, map, round, other);
        }
    }
}

/// After the last listed tile, the next round starts with the tiles found in this one.
proof fn lemma_round_done(
    paths: Seq<Node>,
    list: Seq<MapPosition>,
    newlist: Seq<MapPosition>,
    from: MapPosition,
    map: TileMap,
    round: int,
)
    requires
        in_round(paths, list, newlist, from, map, round, list.len() as int),
    ensures
        round_start(paths, newlist, from, map, round + 1),
{
    assert forall|q: MapPosition, p: MapPosition|
        in_bounds(q) && reached(paths, q) && dist(paths, q) < round + 1 && #[trigger] open_step(map, q, p)
            implies reached(paths, p) && dist(paths, p) <= dist(paths, q) + 1 by {
        if dist(paths, q) == round {
            assert(list.contains(q));
            let jj = choose|jj: int| 0 <= jj < list.len() && list[jj] == q;
            assert(open_step(map, list[jj], p));
        }
    }
}

/// Follows the predecessor links from `to` back to `from`.
fn trace_back(paths: &Vec<Node>, from: &MapPosition, to: &MapPosition, map: &TileMap) -> (path: Vec<
    MapPosition,
>)
    requires
        search_inv(paths@, *from, *map),
        interior(*from),
        in_bounds(*to),
        node_at(paths@, *to).last is Some,
    ensures
        is_walkable_path(path@, *from, *to, *map),
        path@.len() == dist(paths@, *to) + 1,
{
    let mut path: Vec<MapPosition> = Vec::new();
    let mut current_pos = *to;
    // Distances of the tiles on the path so far.
    let ghost mut ds: Seq<int> = Seq::empty();
    loop
        invariant
            search_inv(paths@, *from, *map),
            interior(*from),
            in_bounds(*to),
            in_bounds(current_pos),
            node_at(paths@, *to).last is Some,
            ds.len() == path@.len(),
            dist(paths@, current_pos) + path@.len() == dist(paths@, *to),
            path@.len() == 0 ==> current_pos == *to,
            path@.len() > 0 ==> path@[0] == *to,
            path@.len() > 0 ==> node_at(paths@, path@[path@.len() - 1]).last == Some(current_pos),
            path@.len() > 0 ==> node_at(paths@, current_pos).distance < ds[ds.len() - 1],
            path@.len() > 0 ==> ds[ds.len() - 1] <= MAX_ROUNDS + 1,
            forall|kk: int|
                0 <= kk < path@.len() ==> {
                    &&& in_bounds(#[trigger] path@[kk])
                    &&& ds[kk] == node_at(paths@, path@[kk]).distance
                    &&& node_at(paths@, path@[kk]).last is Some
                },
            forall|kk: int|
                0 <= kk < path@.len() - 1 ==> node_at(paths@, #[trigger] path@[kk]).last == Some(
                    path@[kk + 1],
                ),
            forall|a: int, b: int| 0 <= a < b < ds.len() ==> #[trigger] ds[a] > #[trigger] ds[b],
        ensures
            node_at(paths@, current_pos).last is None,
            in_bounds(current_pos),
            path@.len() > 0,
            node_at(paths@, current_pos).distance < ds[ds.len() - 1],
            ds[ds.len() - 1] <= MAX_ROUNDS + 1,
        decreases node_at(paths@, current_pos).distance,
    {
        let cur_idx = current_pos.0 as usize + current_pos.1 as usize * MAP_SIZE;
        assert(paths@[cur_idx as int] == node_at(paths@, current_pos));
        assert(good_node(paths@, *from, *map, current_pos));
        match paths[cur_idx].last {
            Some(next) => {
                proof {
                    ds = ds.push(node_at(paths@, current_pos).distance as int);
                }
                path.push(MapPosition(current_pos.0 as isize, current_pos.1 as isize));
                current_pos = next;
            },
            None => {
                assert(path@.len() > 0);
                break;
            },
        }
    }
    // Only the start has no predecessor among the reached tiles.
    assert(good_node(paths@, *from, *map, current_pos));
    assert(current_pos == *from);
    let ghost inner = path@;
    path.push(*from);
    proof {
        let s = path@;
        assert forall|kk: int| 0 <= kk < s.len() - 1 implies {
            &&& adjacent(#[trigger] s[kk], s[kk + 1])
            &&& in_bounds(s[kk])
            &&& !map.solid_at(s[kk])
        } by {
            assert(s[kk] == inner[kk]);
            assert(good_node(paths@, *from, *map, inner[kk]));
            if kk < s.len() - 2 {
                assert(node_at(paths@, inner[kk]).last == Some(inner[kk + 1]));
            }
        }
        assert forall|a: int, b: int| 0 <= a < b < s.len() implies s[a] != s[b] by {
            if b < s.len() - 1 {
                assert(ds[a] > ds[b]);
            } else {
                assert(ds[a] >= ds[ds.len() - 1]);
            }
        }
    }
    path
}

/// Walking a path backwards is a path too, when its start can be walked on: so
/// the shortest path from `a` to `b` is as long as the one from `b` to `a`.
pub proof fn lemma_reversed_path(path: Seq<MapPosition>, from: MapPosition, to: MapPosition, map: TileMap)
    requires
        is_walkable_path(path, from, to, map),
        !map.solid_at(from),
    ensures
        is_walkable_path(path.reverse(), to, from, map),
{
    let r = path.reverse();
    let n = path.len() as int;
    assert(in_bounds(path[0]));
    assert forall|k: int| 0 <= k < r.len() - 1 implies {
        &&& adjacent(#[trigger] r[k], r[k + 1])
        &&& in_bounds(r[k])
        &&& !map.solid_at(r[k])
    } by {
        assert(r[k] == path[n - 1 - k]);
        assert(r[k + 1] == path[n - 1 - (k + 1)]);
        assert(adjacent(path[n - 1 - (k + 1)], path[(n - 1 - (k + 1)) + 1]));
        if k > 0 {
            assert(in_bounds(path[n - 1 - k]));
        }
    }
    assert forall|a: int, b: int| 0 <= a < b < r.len() implies r[a] != r[b] by {
        assert(r[a] == path[n - 1 - a]);
        assert(r[b] == path[n - 1 - b]);
    }
}

/// Breadth-first search for a path between two map positions. On success the
/// path starts at `to` and ends at `from`, and no walkable path between them is
/// shorter; a target at most `MAX_ROUNDS` steps away is always found.
pub fn find_path(from: &MapPosition, to: &MapPosition, map: &TileMap) -> (r: Option<
    Vec<MapPosition>,
>)
    requires
        map.wf(),
        map.enclosed(),
        !on_border(*from),
    ensures
        !(in_bounds(*from) && in_bounds(*to)) ==> r is None,
        *from == *to ==> r is None,
        r matches Some(path) ==> is_walkable_path(path@, *from, *to, *map),
        r matches Some(path) ==> path@.len() <= MAX_ROUNDS + 1,
        r matches Some(path) ==> forall|other: Seq<MapPosition>|
            #[trigger] is_walkable_path(other, *from, *to, *map) ==> path@.len() <= other.len(),
        (exists|other: Seq<MapPosition>|
            #[trigger] is_walkable_path(other, *from, *to, *map) && other.len() <= MAX_ROUNDS + 1)
            ==> r is Some,
{
    if from.0 < 0 || from.1 < 0 || to.0 < 0 || to.1 < 0 || from.0 as usize >= map.width()
        || from.1 as usize >= map.height() || to.0 as usize >= map.width() || to.1 as usize
        >= map.height() {
        return None;
    }
    assert(interior(*from));

    let mut list: Vec<MapPosition> = Vec::new();
    let mut paths: Vec<Node> = Vec::new();

    let mut k: usize = 0;
    while k < MAP_TILES
        invariant
            k <= MAP_TILES,
            paths@.len() == k,
            forall|i: int| 0 <= i < k ==> #[trigger] paths@[i].distance == UNREACHED && paths@[i].last is None,
        decreases MAP_TILES - k,
    {
        paths.push(Node { distance: UNREACHED, last: None });
        k += 1;
    }
    // paths[x + y * width]
    let from_idx = from.0 as usize + from.1 as usize * MAP_SIZE;
    let to_idx = to.0 as usize + to.1 as usize * MAP_SIZE;
    let ghost fresh = paths@;
    paths.set(from_idx, Node { distance: 0, last: None });
    list.push(*from);

    proof {
        assert forall|p: MapPosition| in_bounds(p) implies node_at(paths@, p) == (if p == *from {
            Node { distance: 0, last: None }
        } else {
            fresh[tile_index(p)]
        }) by {
            if tile_index(p) == from_idx {
                lemma_tile_index_injective(p, *from);
            }
        }
        assert forall|p: MapPosition| in_bounds(p) implies #[trigger] good_node(paths@, *from, *map, p) by {
            if p != *from {
                assert(fresh[tile_index(p)].distance == UNREACHED);
            }
        }
        assert forall|p: MapPosition| in_bounds(p) && #[trigger] reached(paths@, p) && dist(paths@, p)
            == 0 implies list@.contains(p) by {
            assert(p == *from);
            assert(list@[0] == *from);
        }
        assert(round_start(paths@, list@, *from, *map, 0));
        assert(fresh[tile_index(*to)].distance == UNREACHED);
        assert(node_at(paths@, *to).last is None);
    }

    let offsets: [MapPosition; 4] = [
        MapPosition(0, 1),
        MapPosition(0, -1),
        MapPosition(1, 0),
        MapPosition(-1, 0),
    ];
    assert(offsets@ == neighbour_offsets());

    // Timeout :)
    let mut round: usize = 0;
    while round < MAX_ROUNDS
        invariant
            round <= MAX_ROUNDS,
            interior(*from),
            in_bounds(*to),
            from_idx == tile_index(*from),
            to_idx == tile_index(*to),
            map.wf(),
            map.enclosed(),
            round_start(paths@, list@, *from, *map, round as int),
            node_at(paths@, *to).last is None,
            offsets@ == neighbour_offsets(),
        decreases MAX_ROUNDS - round,
    {
        let mut newlist: Vec<MapPosition> = Vec::new();
        let mut j: usize = 0;
        while j < list.len()
            invariant
                round < MAX_ROUNDS,
                j <= list@.len(),
                interior(*from),
                in_bounds(*to),
                from_idx == tile_index(*from),
                to_idx == tile_index(*to),
                map.wf(),
                map.enclosed(),
                in_round(paths@, list@, newlist@, *from, *map, round as int, j as int),
                node_at(paths@, *to).last is None,
                offsets@ == neighbour_offsets(),
            decreases list@.len() - j,
        {
            let node = list[j];
            assert(interior(node));
            let mut o: usize = 0;
            while o < 4
                invariant
                    round < MAX_ROUNDS,
                    j < list@.len(),
                    node == list@[j as int],
                    interior(node),
                    dist(paths@, node) == round,
                    o <= 4,
                    interior(*from),
                    in_bounds(*to),
                    from_idx == tile_index(*from),
                    to_idx == tile_index(*to),
                    map.wf(),
                    map.enclosed(),
                    in_round(paths@, list@, newlist@, *from, *map, round as int, j as int),
                    forall|oo: int|
                        0 <= oo < o && #[trigger] open_step(*map, node, plus(node, neighbour_offsets()[oo]))
                            ==> reached(paths@, plus(node, neighbour_offsets()[oo])) && dist(
                            paths@,
                            plus(node, neighbour_offsets()[oo]),
                        ) <= round + 1,
                    offsets@ == neighbour_offsets(),
                decreases 4 - o,
            {
                let offset = offsets[o];
                let neighbour = node.add(&offset);
                assert(adjacent(node, neighbour));
                // Checking for wall.
                if !map.is_solid(&neighbour) {
                    assert(in_bounds(neighbour));
                    assert(!on_border(neighbour)) by {
                        if on_border(neighbour) {
                            assert(crate::map::is_wall(map.tile_at(neighbour)));
                        }
                    }
                    assert(open_step(*map, node, neighbour));
                    let neighbour_coords = neighbour.0 as usize + neighbour.1 as usize * MAP_SIZE;
                    let own_coords = node.0 as usize + node.1 as usize * MAP_SIZE;
                    assert(paths@[own_coords as int] == node_at(paths@, node));
                    assert(paths@[neighbour_coords as int] == node_at(paths@, neighbour));

                    if paths[own_coords].distance + 1 < paths[neighbour_coords].distance {
                        // Update cost & previous element.
                        let ghost before = paths@;
                        let d = paths[own_coords].distance + 1;
                        paths.set(neighbour_coords, Node { distance: d, last: Some(node) });
                        proof {
                            assert forall|p: MapPosition| in_bounds(p) implies
                                #[trigger] node_at(paths@, p) == (if p == neighbour {
                                    Node { distance: (round + 1) as usize, last: Some(node) }
                                } else {
                                    node_at(before, p)
                                }) by {
                                if tile_index(p) == neighbour_coords {
                                    lemma_tile_index_injective(p, neighbour);
                                }
                            }
                            lemma_discover(
                                before,
                                paths@,
                                list@,
                                newlist@,
                                *from,
                                *map,
                                round as int,
                                j as int,
                                node,
                                neighbour,
                            );
                        }
                        newlist.push(neighbour);
                    }
                    assert(reached(paths@, neighbour) && dist(paths@, neighbour) <= round + 1);
                }
                o += 1;
            }
            proof {
                lemma_node_done(paths@, list@, newlist@, *from, *map, round as int, j as int);
            }

            if paths[to_idx].last.is_some() {
                assert(paths@[to_idx as int] == node_at(paths@, *to));
                assert(*to != *from);
                let path = trace_back(&paths, from, to, map);
                proof {
                    lemma_found_is_shortest(
                        paths@,
                        list@,
                        newlist@,
                        *from,
                        *to,
                        *map,
                        round as int,
                        j as int + 1,
                    );
                }
                return Some(path);
            }
            j += 1;
        }
        proof {
            lemma_round_done(paths@, list@, newlist@, *from, *map, round as int);
        }
        list = newlist;
        round += 1;
    }
    proof {
        assert forall|other: Seq<MapPosition>| #[trigger] is_walkable_path(other, *from, *to, *map)
            implies other.len() > MAX_ROUNDS + 1 by {
            if other.len() <= MAX_ROUNDS + 1 {
                lemma_path_is_walk(other, *from, *to, *map);
                lemma_walk_reached(paths@, *from, *map, MAX_ROUNDS as int, other);
                assert(other[0] != other[other.len() - 1]);
                assert(good_node(paths@, *from, *map, *to));
            }
        }
    }
    None
}

} // verus!
