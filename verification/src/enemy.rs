use vstd::prelude::*;

use crate::random::{Random, lcg_output, lcg_step};

verus! {

/// What an enemy is busy with.
#[derive(Copy, Clone, PartialEq, Eq, Structural, Debug)]
pub enum Status {
    Shooting,
    Walking,
    Idle,
}

/// The next status of a shooting enemy (boss or plain enemy) that sees the
/// player, for a random draw `r`.
pub open spec fn shooter_choice(current: Status, r: u32) -> Status {
    match current {
        Status::Idle => if r % 10 > 2 {
            Status::Shooting
        } else if r % 10 > 5 {
            Status::Idle
        } else {
            Status::Walking
        },
        Status::Shooting | Status::Walking => if r % 10 < 4 {
            Status::Walking
        } else if r % 10 < 8 {
            Status::Shooting
        } else {
            Status::Idle
        },
    }
}

/// Decides what a shooting enemy does next. One that cannot see the player
/// walks towards it (and draws no random number); one that sees it picks at random.
pub fn next_shooter_status(current: Status, player_visible: bool, rng: &mut Random) -> (r: Status)
    ensures
        !player_visible ==> r == Status::Walking && final(rng).0 == old(rng).0,
        player_visible ==> final(rng).0 == lcg_step(old(rng).0) && r == shooter_choice(
            current,
            lcg_output(final(rng).0),
        ),
        player_visible && current != Status::Idle ==> r == if lcg_output(final(rng).0) % 10 < 4 {
            Status::Walking
        } else if lcg_output(final(rng).0) % 10 < 8 {
            Status::Shooting
        } else {
            Status::Idle
        },
        player_visible && current == Status::Idle ==> r == if lcg_output(final(rng).0) % 10 >= 3 {
            Status::Shooting
        } else {
            Status::Walking
        },
{
    if !player_visible {
        Status::Walking
    } else {
        let randome_number = rng.next();
        match current {
            Status::Idle => {
                if randome_number % 10 > 2 {
                    Status::Shooting
                } else if randome_number % 10 > 5 {
                    Status::Idle
                } else {
                    Status::Walking
                }
            },
            Status::Shooting => {
                if randome_number % 10 < 4 {
                    Status::Walking
                } else if randome_number % 10 < 8 {
                    Status::Shooting
                } else {
                    Status::Idle
                }
            },
            Status::Walking => {
                if randome_number % 10 < 4 {
                    Status::Walking
                } else if randome_number % 10 < 8 {
                    Status::Shooting
                } else {
                    Status::Idle
                }
            },
        }
    }
}

/// Decides whether a plain enemy of level `level` carries a rocket launcher:
/// the chance is `(level / 2) * 20` in 101 (certain from level 10 on).
pub fn armed_with_rocketlauncher(level: u32, rng: &mut Random) -> (r: bool)
    ensures
        final(rng).0 == lcg_step(old(rng).0),
        r == (lcg_output(final(rng).0) % 101 <= (level / 2) * 20),
{
    let chance: u64 = (level / 2) as u64 * 20;
    (rng.next() % 101) as u64 <= chance
}

/// A tower shoots while it sees the player and idles otherwise.
pub fn next_tower_status(player_visible: bool) -> (r: Status)
    ensures
        r == if player_visible {
            Status::Shooting
        } else {
            Status::Idle
        },
{
    if player_visible {
        Status::Shooting
    } else {
        Status::Idle
    }
}

/// A running bomb runs at the player while it sees it and idles otherwise.
pub fn next_bomb_status(player_visible: bool) -> (r: Status)
    ensures
        r == if player_visible {
            Status::Walking
        } else {
            Status::Idle
        },
{
    if player_visible {
        Status::Walking
    } else {
        Status::Idle
    }
}

/// Milliseconds a boss waits before deciding again.
pub fn boss_delay(status: Status) -> (r: u32)
    ensures
        r == match status {
            Status::Idle => 500u32,
            Status::Shooting => 500u32,
            Status::Walking => 1000u32,
        },
{
    match status {
        Status::Idle => 500,
        Status::Shooting => 500,
        Status::Walking => 1000,
    }
}

/// Milliseconds a plain enemy, a tower or a running bomb waits before deciding again.
pub fn enemy_delay(status: Status) -> (r: u32)
    ensures
        r == match status {
            Status::Idle => 500u32,
            Status::Shooting => 1000u32,
            Status::Walking => 1000u32,
        },
{
    match status {
        Status::Idle => 500,
        Status::Shooting => 1000,
        Status::Walking => 1000,
    }
}

/// What a shooter that sees the player does for a draw `r`. A walking or
/// shooting one walks on a last digit (of `r % 10`) of 0 to 3, shoots on 4 to 7
/// and idles on 8 or 9; an idle one shoots on 3 to 9 and walks on 0 to 2.
/// Every status can follow a walking or shooting one.
pub proof fn lemma_shooter_choice(current: Status, r: u32)
    ensures
        current != Status::Idle && r % 10 < 4 ==> shooter_choice(current, r) == Status::Walking,
        current != Status::Idle && 4 <= r % 10 < 8 ==> shooter_choice(current, r) == Status::Shooting,
        current != Status::Idle && r % 10 >= 8 ==> shooter_choice(current, r) == Status::Idle,
        current == Status::Idle && r % 10 >= 3 ==> shooter_choice(current, r) == Status::Shooting,
        current == Status::Idle && r % 10 < 3 ==> shooter_choice(current, r) == Status::Walking,
        current != Status::Idle ==> shooter_choice(current, 0) == Status::Walking && shooter_choice(
            current,
            4,
        ) == Status::Shooting && shooter_choice(current, 8) == Status::Idle,
{
}

/// An idle shooter never stays idle: it starts shooting (seven draws in ten)
/// or walking.
pub proof fn lemma_idle_shooter_moves_on(r: u32)
    ensures
        shooter_choice(Status::Idle, r) != Status::Idle,
        shooter_choice(Status::Idle, r) == Status::Shooting <==> r % 10 >= 3,
{
}

} // verus!
