use roguelike::common::MapPosition;
use roguelike::map::{MapTile, TileMap, MAP_SIZE};
use roguelike::pathfinding::find_path;
use roguelike::random::Random;

fn free(map: &TileMap, x: isize, y: isize) -> bool {
    match map.get_tile_at(&MapPosition(x, y)) {
        Some(t) => !t.is_solid(),
        None => false,
    }
}

#[test]
fn generated_map_has_walls_around() {
    let map = TileMap::new(&mut Random::new());
    assert_eq!(map.width(), MAP_SIZE);
    assert_eq!(map.height(), MAP_SIZE);
    let n = MAP_SIZE as isize;
    for i in 0..n {
        for p in [MapPosition(i, 0), MapPosition(0, i), MapPosition(i, n - 1), MapPosition(n - 1, i)] {
            assert_eq!(map.get_tile_at(&p), Some(&MapTile::Wall(p)));
        }
    }
}

#[test]
fn generated_map_has_exit_door_top_left() {
    let map = TileMap::new(&mut Random::new());
    assert_eq!(map.get_tile_at(&MapPosition(1, 1)), Some(&MapTile::Door(MapPosition(1, 1))));
    assert!(map.is_solid(&MapPosition(1, 1)));
}

#[test]
fn generated_map_tiles_know_their_position_and_kind() {
    let map = TileMap::new(&mut Random::new());
    let n = MAP_SIZE as isize;
    let mut inner_walls = 0;
    for y in 0..n {
        for x in 0..n {
            let p = MapPosition(x, y);
            match map.get_tile_at(&p) {
                Some(MapTile::Wall(q)) => {
                    assert_eq!(*q, p);
                    if x > 0 && y > 0 && x < n - 1 && y < n - 1 {
                        inner_walls += 1;
                    }
                }
                Some(MapTile::Floor(q)) => assert_eq!(*q, p),
                Some(MapTile::Door(q)) => assert_eq!(*q, p),
                other => panic!("unexpected tile {:?}", other),
            }
        }
    }
    // Three to five segments of at least four tiles each.
    assert!(inner_walls >= 12);
}

#[test]
fn generated_map_is_roomy() {
    for seed in [666u32, 1, 42, 123_456_789] {
        let map = TileMap::new(&mut Random(seed));
        for x in 2..(MAP_SIZE as isize - 2) {
            for y in 2..(MAP_SIZE as isize - 2) {
                if free(&map, x, y) {
                    let n = [(x - 1, y), (x + 1, y), (x, y - 1), (x, y + 1)]
                        .iter()
                        .filter(|(a, b)| free(&map, *a, *b))
                        .count();
                    assert!(n >= 3, "seed {} cell {} {}", seed, x, y);
                }
            }
        }
    }
}

#[test]
fn tiles_outside_the_map_are_absent_and_not_solid() {
    let map = TileMap::new(&mut Random::new());
    for p in [MapPosition(-1, 0), MapPosition(0, -1), MapPosition(30, 3), MapPosition(3, 30)] {
        assert_eq!(map.get_tile_at(&p), None);
        assert!(!map.is_solid(&p));
    }
}

#[test]
fn unlock_doors_opens_the_exit() {
    let mut map = TileMap::new(&mut Random::new());
    let before: Vec<Option<MapTile>> =
        (0..900).map(|i| map.get_tile_at(&MapPosition(i % 30, i / 30)).copied()).collect();
    map.unlock_doors();
    assert_eq!(map.get_tile_at(&MapPosition(1, 1)), Some(&MapTile::UnlockedDoor(MapPosition(1, 1))));
    assert!(!map.is_solid(&MapPosition(1, 1)));
    for i in 0..900isize {
        if i != 31 {
            assert_eq!(map.get_tile_at(&MapPosition(i % 30, i / 30)).copied(), before[i as usize]);
        }
    }
}

#[test]
fn tile_solidity() {
    let p = MapPosition(3, 4);
    assert!(MapTile::Wall(p).is_solid());
    assert!(MapTile::Door(p).is_solid());
    assert!(MapTile::Void.is_solid());
    assert!(!MapTile::Floor(p).is_solid());
    assert!(!MapTile::UnlockedDoor(p).is_solid());
}

#[test]
fn get_tile_at_mut_changes_that_tile() {
    let mut map = TileMap::new(&mut Random::new());
    let p = MapPosition(5, 0);
    if let Some(t) = map.get_tile_at_mut(&p) {
        *t = MapTile::Floor(p);
    }
    assert_eq!(map.get_tile_at(&p), Some(&MapTile::Floor(p)));
    assert!(map.get_tile_at_mut(&MapPosition(30, 0)).is_none());
}

#[test]
fn map_position_add_and_sub() {
    let a = MapPosition(3, -2);
    let b = MapPosition(-5, 7);
    assert_eq!(a.add(&b), MapPosition(-2, 5));
    assert_eq!(a.sub(&b), MapPosition(8, -9));
    assert_eq!(a.add(&b).sub(&b), a);
}

fn check_path(path: &[MapPosition], from: MapPosition, to: MapPosition, map: &TileMap) {
    assert!(path.len() >= 2);
    assert_eq!(path[0], to);
    assert_eq!(*path.last().unwrap(), from);
    for k in 0..path.len() - 1 {
        let (a, b) = (path[k], path[k + 1]);
        assert_eq!((a.0 - b.0).abs() + (a.1 - b.1).abs(), 1);
        assert!(free(map, a.0, a.1));
    }
    for i in 0..path.len() {
        for j in i + 1..path.len() {
            assert_ne!(path[i], path[j]);
        }
    }
}

#[test]
fn find_path_between_neighbours() {
    let map = TileMap::new(&mut Random::new());
    let mut done = false;
    'outer: for y in 1..29 {
        for x in 1..28 {
            if free(&map, x, y) && free(&map, x + 1, y) {
                let from = MapPosition(x, y);
                let to = MapPosition(x + 1, y);
                let path = find_path(&from, &to, &map).unwrap();
                assert_eq!(path, vec![to, from]);
                done = true;
                break 'outer;
            }
        }
    }
    assert!(done);
}

#[test]
fn find_path_across_the_map() {
    let map = TileMap::new(&mut Random::new());
    let from = (1..29)
        .flat_map(|y| (1..29).map(move |x| MapPosition(x, y)))
        .find(|p| free(&map, p.0, p.1))
        .unwrap();
    let to = (1..29)
        .rev()
        .flat_map(|y| (1..29).rev().map(move |x| MapPosition(x, y)))
        .find(|p| free(&map, p.0, p.1))
        .unwrap();
    let path = find_path(&from, &to, &map).expect("the free area is connected");
    check_path(&path, from, to, &map);
    // Breadth-first: no path is shorter than the Manhattan distance.
    assert!(path.len() as isize - 1 >= (from.0 - to.0).abs() + (from.1 - to.1).abs());
}

#[test]
fn find_path_to_itself_is_none() {
    let map = TileMap::new(&mut Random::new());
    let p = MapPosition(2, 2);
    assert!(find_path(&p, &p, &map).is_none());
}

#[test]
fn find_path_outside_is_none() {
    let map = TileMap::new(&mut Random::new());
    assert!(find_path(&MapPosition(-1, 3), &MapPosition(2, 2), &map).is_none());
    assert!(find_path(&MapPosition(2, 2), &MapPosition(2, 30), &map).is_none());
    assert!(find_path(&MapPosition(40, 40), &MapPosition(2, 2), &map).is_none());
}

#[test]
fn find_path_into_a_wall_is_none() {
    let map = TileMap::new(&mut Random::new());
    // The border can never be reached.
    assert!(find_path(&MapPosition(2, 2), &MapPosition(0, 5), &map).is_none());
}

/// Number of steps from `from` to every tile, by a plain breadth-first search.
fn step_counts(map: &TileMap, from: MapPosition) -> Vec<Option<usize>> {
    let n = MAP_SIZE as isize;
    let mut steps = vec![None; MAP_SIZE * MAP_SIZE];
    steps[(from.0 + from.1 * n) as usize] = Some(0);
    let mut queue = std::collections::VecDeque::new();
    queue.push_back(from);
    while let Some(p) = queue.pop_front() {
        let d = steps[(p.0 + p.1 * n) as usize].unwrap();
        for (dx, dy) in [(0, 1), (0, -1), (1, 0), (-1, 0)] {
            let q = MapPosition(p.0 + dx, p.1 + dy);
            if free(map, q.0, q.1) && steps[(q.0 + q.1 * n) as usize].is_none() {
                steps[(q.0 + q.1 * n) as usize] = Some(d + 1);
                queue.push_back(q);
            }
        }
    }
    steps
}

#[test]
fn find_path_is_shortest_and_complete() {
    for seed in [666u32, 1, 2024] {
        let map = TileMap::new(&mut Random(seed));
        let from = MapPosition(3, 4);
        if !free(&map, from.0, from.1) {
            continue;
        }
        let steps = step_counts(&map, from);
        for y in 0..MAP_SIZE as isize {
            for x in 0..MAP_SIZE as isize {
                let to = MapPosition(x, y);
                let found = find_path(&from, &to, &map);
                match steps[(x + y * MAP_SIZE as isize) as usize] {
                    Some(d) if d > 0 => {
                        let path = found.expect("reachable tiles are found");
                        check_path(&path, from, to, &map);
                        assert_eq!(path.len(), d + 1);
                    }
                    _ => assert!(found.is_none()),
                }
            }
        }
    }
}

#[test]
fn generated_map_inner_walls_keep_off_the_border() {
    for seed in [666u32, 7, 99, 31337] {
        let map = TileMap::new(&mut Random(seed));
        let n = MAP_SIZE as isize;
        for y in 1..n - 1 {
            for x in 1..n - 1 {
                let p = MapPosition(x, y);
                match map.get_tile_at(&p) {
                    Some(MapTile::Wall(_)) => {
                        // Segments stay at least three tiles away from the border.
                        assert!((3..=n - 4).contains(&x) && (3..=n - 4).contains(&y));
                        // A wall tile has a wall neighbour along its segment.
                        let along = [(x - 1, y), (x + 1, y), (x, y - 1), (x, y + 1)]
                            .iter()
                            .any(|(a, b)| matches!(map.get_tile_at(&MapPosition(*a, *b)), Some(MapTile::Wall(_))));
                        assert!(along);
                    }
                    Some(MapTile::Door(_)) => assert_eq!(p, MapPosition(1, 1)),
                    Some(MapTile::Floor(_)) => {}
                    other => panic!("unexpected tile {:?}", other),
                }
            }
        }
    }
}

#[test]
fn find_path_is_as_long_both_ways() {
    let map = TileMap::new(&mut Random(5));
    let free_tiles: Vec<MapPosition> = (1..29)
        .flat_map(|y| (1..29).map(move |x| MapPosition(x, y)))
        .filter(|p| free(&map, p.0, p.1))
        .step_by(37)
        .collect();
    for a in &free_tiles {
        for b in &free_tiles {
            let there = find_path(a, b, &map).map(|p| p.len());
            let back = find_path(b, a, &map).map(|p| p.len());
            assert_eq!(there, back);
        }
    }
}

#[test]
fn map_generation_draws_from_the_generator() {
    let mut rng = Random::new();
    let _map = TileMap::new(&mut rng);
    // One draw for the number of walls, then four draws per attempt.
    let mut probe = Random::new();
    probe.next();
    let mut attempts = 0;
    while probe.0 != rng.0 {
        for _ in 0..4 {
            probe.next();
        }
        attempts += 1;
        assert!(attempts < 100_000, "generator state not reached");
    }
    // 501757899 % 3 == 0: three walls, each needing at least one attempt.
    assert!(attempts >= 3);

    // The same state gives the same map.
    let a = TileMap::new(&mut Random(77));
    let b = TileMap::new(&mut Random(77));
    for y in 0..MAP_SIZE as isize {
        for x in 0..MAP_SIZE as isize {
            let p = MapPosition(x, y);
            assert_eq!(a.get_tile_at(&p), b.get_tile_at(&p));
        }
    }
}
