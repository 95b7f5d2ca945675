use vstd::prelude::*;

use crate::weapon::Weapon;

verus! {

/// Largest clip a rocket launcher gets from power-ups.
pub const LAUNCHER_CLIP_CAP: usize = 5;

/// The rocket launcher: one rocket per clip to start with, five rockets in all.
pub struct Rocketlauncher {
    current_ammo: usize,
    max_clip: usize,
}

impl Rocketlauncher {
    /// A loaded launcher with a clip of one.
    pub fn new() -> (r: Self)
        ensures
            r.wf(),
            r.ammo() == 1,
            r.clip() == 1,
    {
        Self { current_ammo: 1, max_clip: 1 }
    }

    /// A new launcher that has then taken `pickups` power-ups: the clip grows to
    /// the cap, and the pickups after that fill it.
    pub fn with_powerups(pickups: u32) -> (r: Self)
        ensures
            r.wf(),
            r.clip() == if pickups < 4 {
                pickups + 1
            } else {
                LAUNCHER_CLIP_CAP as int
            },
            r.ammo() == if pickups > 4 {
                LAUNCHER_CLIP_CAP as int
            } else {
                1
            },
    {
        let mut launcher = Self::new();
        let mut i: u32 = 0;
        while i < pickups
            invariant
                i <= pickups,
                launcher.wf(),
                launcher.clip() == if i < 4 {
                    i + 1
                } else {
                    LAUNCHER_CLIP_CAP as int
                },
                launcher.ammo() == if i > 4 {
                    LAUNCHER_CLIP_CAP as int
                } else {
                    1
                },
            decreases pickups - i,
        {
            launcher.on_powerup_pickup();
            i += 1;
        }
        launcher
    }
}

impl Weapon for Rocketlauncher {
    closed spec fn ammo(&self) -> usize {
        self.current_ammo
    }

    closed spec fn clip(&self) -> usize {
        self.max_clip
    }

    open spec fn clip_cap(&self) -> usize {
        LAUNCHER_CLIP_CAP
    }

    open spec fn reserve(&self) -> usize {
        5
    }

    open spec fn wf(&self) -> bool {
        self.ammo() <= self.clip() <= self.clip_cap()
    }

    fn shoot(&mut self) -> (r: Result<(), ()>) {
        if self.current_ammo > 0 {
            self.current_ammo -= 1;
            Ok(())
        } else {
            Err(())
        }
    }

    /// Marks the weapon as reloaded.
    fn reload(&mut self) {
        if self.total_ammo() > self.max_clip_ammo() {
            self.current_ammo = self.max_clip_ammo();
        } else {
            self.current_ammo = self.total_ammo();
        }
    }

    /// Max ammo this weapon can have (in it's clip).
    fn max_clip_ammo(&self) -> (r: usize) {
        self.max_clip
    }

    fn ammo_in_clip(&self) -> (r: usize) {
        self.current_ammo
    }

    fn total_ammo(&self) -> (r: usize) {
        5
    }

    fn on_powerup_pickup(&mut self) {
        if self.max_clip < LAUNCHER_CLIP_CAP {
            self.max_clip += 1;
        } else {
            self.current_ammo = self.max_clip;
        }
    }
}

} // verus!
