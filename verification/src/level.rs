use vstd::prelude::*;

use crate::random::{Random, lcg_output, lcg_step};

verus! {

/// How many enemies of each kind a level starts with.
#[derive(Copy, Clone, PartialEq, Eq, Structural, Debug)]
pub struct Population {
    pub bosses: u32,
    pub bombs: u32,
    pub towers: u32,
    pub stupid: u32,
}

/// Bosses appear every fifth level, one more each time.
pub open spec fn boss_count(level: u32) -> int {
    if level % 5 == 0 && level != 0 {
        (level / 5) as int
    } else {
        0
    }
}

/// Bosses come only on every fifth level: none on a level whose number is not
/// a multiple of five (nor on level 0), and `level / 5` of them on levels 5, 10,
/// 15, ...; so each fifth level brings one boss more than the one before.
pub proof fn lemma_bosses_every_fifth_level(level: u32)
    ensures
        level % 5 != 0 ==> boss_count(level) == 0,
        level % 5 == 0 ==> boss_count(level) == level / 5,
        level < 5 ==> boss_count(level) == 0,
        level % 5 == 0 && level as int + 5 <= u32::MAX ==> boss_count((level + 5) as u32) == boss_count(
            level,
        ) + 1,
        boss_count(level) <= level / 5,
{
}

/// Number of structures placed on each level.
pub const N_STRUCTURES: usize = 10;

/// The enemies of level `level`. The first boss level (5) has no towers and no bombs.
pub fn population(level: u32) -> (p: Population)
    requires
        level < u32::MAX,
    ensures
        p.bosses == boss_count(level),
        level % 5 != 0 ==> p.bosses == 0,
        level % 5 == 0 ==> p.bosses == level / 5,
        p.towers == if level != 5 {
            level / 3
        } else {
            0
        },
        p.bombs == if level != 5 {
            level / 2
        } else {
            0
        },
        p.stupid == (level + 1) / 2,
{
    // Boss enemies only at level 5, 10 etc
    let n_bosses = if level % 5 == 0 && level != 0 {
        level / 5
    } else {
        0
    };

    // No towers at the first boss lvl plz.
    let n_towers = if level != 5 {
        level / 3
    } else {
        0
    };
    let n_bombs = if level != 5 {
        level / 2
    } else {
        0
    };
    let n_stupid = (level + 1) / 2;
    Population { bosses: n_bosses, bombs: n_bombs, towers: n_towers, stupid: n_stupid }
}

/// Decides whether the next structure of level `level` is a chest (else a
/// barrel). Below level 5 every structure is a chest and no random number is
/// drawn; later one in `(level - 3) / 2` is.
pub fn next_structure_is_chest(level: u32, rng: &mut Random) -> (r: bool)
    ensures
        level < 5 ==> r && final(rng).0 == old(rng).0,
        level >= 5 ==> final(rng).0 == lcg_step(old(rng).0) && r == (lcg_output(final(rng).0) % ((
        level - 3) / 2) as u32 == 0),
{
    level < 5 || rng.next() % ((level - 3) / 2) == 0
}

} // verus!
