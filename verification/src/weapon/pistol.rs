use vstd::prelude::*;

use crate::weapon::Weapon;

verus! {

/// Largest clip a pistol gets from power-ups.
pub const PISTOL_CLIP_CAP: usize = 14;

/// The pistol: a clip of five that power-ups grow, and endless ammunition.
pub struct Pistol {
    current_ammo: usize,
    max_clip: usize,
}

impl Pistol {
    /// A loaded pistol with a clip of five.
    pub fn new() -> (r: Self)
        ensures
            r.wf(),
            r.ammo() == 5,
            r.clip() == 5,
    {
        Self { current_ammo: 5, max_clip: 5 }
    }
}

impl Weapon for Pistol {
    closed spec fn ammo(&self) -> usize {
        self.current_ammo
    }

    closed spec fn clip(&self) -> usize {
        self.max_clip
    }

    open spec fn clip_cap(&self) -> usize {
        PISTOL_CLIP_CAP
    }

    // Pistol has always ammo.
    open spec fn reserve(&self) -> usize {
        9001
    }

    open spec fn wf(&self) -> bool {
        self.ammo() <= self.clip() <= self.clip_cap()
    }

    fn shoot(&mut self) -> (r: Result<(), ()>) {
        if self.current_ammo > 0 {
            self.current_ammo -= 1;
            Ok(())
        } else {
            Err(())
        }
    }

    /// Marks the weapon as reloaded.
    fn reload(&mut self) {
        self.current_ammo = self.max_clip_ammo();
    }

    /// Max ammo this weapon can have (in it's clip).
    fn max_clip_ammo(&self) -> (r: usize) {
        self.max_clip
    }

    fn ammo_in_clip(&self) -> (r: usize) {
        self.current_ammo
    }

    // Pistol has always ammo.
    fn total_ammo(&self) -> (r: usize) {
        9001
    }

    fn on_powerup_pickup(&mut self) {
        if self.max_clip < PISTOL_CLIP_CAP {
            self.max_clip += 1;
        } else {
            self.current_ammo = self.max_clip;
        }
    }
}

} // verus!
