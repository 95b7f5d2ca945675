use vstd::prelude::*;

use crate::random::{Random, lcg_output, lcg_step, rand_between};
use crate::weapon::Weapon;

verus! {

/// Most health points that health power-ups lead to.
pub const MAX_HP_FROM_POWERUPS: isize = 20;

/// What a power-up gives.
#[derive(Copy, Clone, PartialEq, Eq, Structural, Debug)]
pub enum PowerupType {
    Health,
    PistolClip,
    RocketClip,
}

/// The power-up kind for a draw `n` in `0..=10`: seven in ten are health,
/// two pistol clips, one a rocket clip.
pub open spec fn kind_for(n: u32) -> PowerupType {
    if n <= 6 {
        PowerupType::Health
    } else if n <= 8 {
        PowerupType::PistolClip
    } else {
        PowerupType::RocketClip
    }
}

/// The kinds of power-up per draw in `0..10`: health for 0 to 6 (seven in ten),
/// a pistol clip for 7 and 8 (two in ten), a rocket clip for 9 (one in ten);
/// every kind is handed out for some draw.
pub proof fn lemma_powerup_kinds(n: u32)
    ensures
        n % 10 <= 6 ==> kind_for(n % 10) == PowerupType::Health,
        7 <= n % 10 <= 8 ==> kind_for(n % 10) == PowerupType::PistolClip,
        n % 10 == 9 ==> kind_for(n % 10) == PowerupType::RocketClip,
        kind_for(0) == PowerupType::Health,
        kind_for(7) == PowerupType::PistolClip,
        kind_for(9) == PowerupType::RocketClip,
{
}

/// A power-up lying at some position.
pub struct Powerup<P> {
    pub position: P,
    pub poweruptype: PowerupType,
}

/// The kind of power-up that a generator in state `s` hands out next.
pub open spec fn next_kind(s: u32) -> PowerupType {
    kind_for(lcg_output(lcg_step(s)) % 10)
}

/// Drops a random power-up at `position` with a chance of `prob` in 101
/// (`prob >= 100` always drops).
pub fn maybe_drop_powerup<P>(position: P, prob: u32, rng: &mut Random, powerups: &mut Vec<Powerup<P>>)
    ensures
        ({
            let roll = lcg_output(lcg_step(old(rng).0));
            if roll % 101 <= prob {
                &&& final(powerups)@.len() == old(powerups)@.len() + 1
                &&& final(powerups)@.subrange(0, old(powerups)@.len() as int) == old(powerups)@
                &&& final(powerups)@.last().position == position
                &&& final(powerups)@.last().poweruptype == next_kind(lcg_step(old(rng).0))
                &&& final(rng).0 == lcg_step(lcg_step(old(rng).0))
            } else {
                &&& final(powerups)@ == old(powerups)@
                &&& final(rng).0 == lcg_step(old(rng).0)
            }
        }),
{
    if rng.next() % 101 <= prob {
        let p = Powerup::new_random(position, rng);
        powerups.push(p);
        assert(powerups@.subrange(0, old(powerups)@.len() as int) =~= old(powerups)@);
    }
}

impl<P> Powerup<P> {
    /// A power-up of a random kind at `position`.
    pub fn new_random(position: P, rng: &mut Random) -> (r: Self)
        ensures
            r.position == position,
            r.poweruptype == next_kind(old(rng).0),
            lcg_output(final(rng).0) % 10 <= 6 ==> r.poweruptype == PowerupType::Health,
            7 <= lcg_output(final(rng).0) % 10 <= 8 ==> r.poweruptype == PowerupType::PistolClip,
            lcg_output(final(rng).0) % 10 == 9 ==> r.poweruptype == PowerupType::RocketClip,
            final(rng).0 == lcg_step(old(rng).0),
    {
        let n = rand_between(rng, 0, 10);
        let poweruptype = if n <= 6 {
            PowerupType::Health
        } else if n <= 8 {
            PowerupType::PistolClip
        } else {
            PowerupType::RocketClip
        };
        Self { position, poweruptype }
    }

    /// Applies the power-up to a player with `hp` health points whose first
    /// weapon takes pistol clips and whose second takes rocket clips.
    pub fn on_pickup<A: Weapon, B: Weapon>(&self, hp: &mut isize, first: &mut A, second: &mut B)
        requires
            old(first).wf(),
            old(second).wf(),
        ensures
            final(first).wf(),
            final(second).wf(),
            *final(hp) == if self.poweruptype == PowerupType::Health && *old(hp) < MAX_HP_FROM_POWERUPS {
                *old(hp) + 1
            } else {
                *old(hp) as int
            },
            self.poweruptype == PowerupType::PistolClip ==> final(first).clip() == if old(first).clip()
                < old(first).clip_cap() {
                old(first).clip() + 1
            } else {
                old(first).clip() as int
            } && final(first).ammo() == if old(first).clip() < old(first).clip_cap() {
                old(first).ammo()
            } else {
                old(first).clip()
            } && final(first).clip_cap() == old(first).clip_cap() && final(first).reserve() == old(
                first,
            ).reserve(),
            self.poweruptype != PowerupType::PistolClip ==> *final(first) == *old(first),
            self.poweruptype == PowerupType::RocketClip ==> final(second).clip() == if old(second).clip()
                < old(second).clip_cap() {
                old(second).clip() + 1
            } else {
                old(second).clip() as int
            } && final(second).ammo() == if old(second).clip() < old(second).clip_cap() {
                old(second).ammo()
            } else {
                old(second).clip()
            } && final(second).clip_cap() == old(second).clip_cap() && final(second).reserve()
                == old(second).reserve(),
            self.poweruptype != PowerupType::RocketClip ==> *final(second) == *old(second),
    {
        match self.poweruptype {
            PowerupType::Health => {
                if *hp < MAX_HP_FROM_POWERUPS {
                    *hp += 1;
                }
            },
            PowerupType::PistolClip => {
                first.on_powerup_pickup();
            },
            PowerupType::RocketClip => {
                second.on_powerup_pickup();
            },
        }
    }
}

} // verus!
