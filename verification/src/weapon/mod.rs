use vstd::prelude::*;

pub mod pistol;
pub mod rocketlauncher;

pub use self::pistol::Pistol;
pub use self::rocketlauncher::Rocketlauncher;

verus! {

/// The ammunition bookkeeping of a weapon: rounds in the clip, the size of the
/// clip, the largest size that power-ups can grow it to, and the total ammunition.
pub trait Weapon {
    /// Rounds in the clip.
    spec fn ammo(&self) -> usize;

    /// Size of the clip.
    spec fn clip(&self) -> usize;

    /// Largest clip size that power-ups lead to.
    spec fn clip_cap(&self) -> usize;

    /// Total ammunition (outside of the clip).
    spec fn reserve(&self) -> usize;

    /// The clip never holds more than it can, and never grows beyond the cap.
    spec fn wf(&self) -> bool;

    /// Fires one round, if the clip holds one.
    fn shoot(&mut self) -> (r: Result<(), ()>)
        requires
            old(self).wf(),
        ensures
            final(self).wf(),
            r is Ok <==> old(self).ammo() > 0,
            final(self).ammo() == if old(self).ammo() > 0 {
                (old(self).ammo() - 1) as usize
            } else {
                old(self).ammo()
            },
            final(self).clip() == old(self).clip(),
            final(self).clip_cap() == old(self).clip_cap(),
            final(self).reserve() == old(self).reserve(),
    ;

    /// Marks the weapon as reloaded: the clip holds as much as it can, within
    /// the total ammunition.
    fn reload(&mut self)
        requires
            old(self).wf(),
        ensures
            final(self).wf(),
            final(self).ammo() == if old(self).reserve() > old(self).clip() {
                old(self).clip()
            } else {
                old(self).reserve()
            },
            final(self).clip() == old(self).clip(),
            final(self).clip_cap() == old(self).clip_cap(),
            final(self).reserve() == old(self).reserve(),
    ;

    /// Max ammo this weapon can have (in it's clip).
    fn max_clip_ammo(&self) -> (r: usize)
        ensures
            r == self.clip(),
    ;

    /// Current ammo in the clip.
    fn ammo_in_clip(&self) -> (r: usize)
        ensures
            r == self.ammo(),
    ;

    /// Total ammo (outside of clip).
    fn total_ammo(&self) -> (r: usize)
        ensures
            r == self.reserve(),
    ;

    /// A power-up grows the clip by one up to its cap; once the cap is reached,
    /// it fills the clip instead.
    fn on_powerup_pickup(&mut self)
        requires
            old(self).wf(),
        ensures
            final(self).wf(),
            old(self).clip() < old(self).clip_cap() ==> final(self).clip() == old(self).clip() + 1
                && final(self).ammo() == old(self).ammo(),
            old(self).clip() >= old(self).clip_cap() ==> final(self).clip() == old(self).clip()
                && final(self).ammo() == old(self).clip(),
            final(self).clip_cap() == old(self).clip_cap(),
            final(self).reserve() == old(self).reserve(),
    ;
}

/// After a shot with weapon `selected` (0 the first, 1 the second) of a shooter
/// that carries two: when the clip ran empty, that weapon is reloaded and the
/// shooter switches to the other one. Gives the weapon to use next.
pub fn after_shot<A: Weapon, B: Weapon>(selected: usize, first: &mut A, second: &mut B) -> (next: usize)
    requires
        selected < 2,
        old(first).wf(),
        old(second).wf(),
    ensures
        final(first).wf(),
        final(second).wf(),
        next == if (selected == 0 && old(first).ammo() == 0) || (selected == 1 && old(second).ammo()
            == 0) {
            1 - selected
        } else {
            selected as int
        },
        selected == 0 && old(first).ammo() == 0 ==> final(first).ammo() == if old(first).reserve()
            > old(first).clip() {
            old(first).clip()
        } else {
            old(first).reserve()
        } && final(first).clip() == old(first).clip() && final(first).clip_cap() == old(
            first,
        ).clip_cap() && final(first).reserve() == old(first).reserve(),
        !(selected == 0 && old(first).ammo() == 0) ==> *final(first) == *old(first),
        selected == 1 && old(second).ammo() == 0 ==> final(second).ammo() == if old(second).reserve()
            > old(second).clip() {
            old(second).clip()
        } else {
            old(second).reserve()
        } && final(second).clip() == old(second).clip() && final(second).clip_cap() == old(
            second,
        ).clip_cap() && final(second).reserve() == old(second).reserve(),
        !(selected == 1 && old(second).ammo() == 0) ==> *final(second) == *old(second),
{
    if selected == 0 {
        if first.ammo_in_clip() == 0 {
            first.reload();
            return 1;
        }
    } else {
        if second.ammo_in_clip() == 0 {
            second.reload();
            return 0;
        }
    }
    selected
}

} // verus!
