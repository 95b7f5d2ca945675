use vstd::prelude::*;

verus! {

/// Multiplier of the linear congruential generator.
pub const LCG_MULTIPLIER: u32 = 1103515245;

/// Increment of the linear congruential generator.
pub const LCG_INCREMENT: u32 = 12345;

/// The state that follows `state` in the generator's sequence.
pub open spec fn lcg_step(state: u32) -> u32 {
    ((state as int * LCG_MULTIPLIER as int + LCG_INCREMENT as int) % 0x1_0000_0000) as u32
}

/// The value handed out for a given (already advanced) state: its low 31 bits.
pub open spec fn lcg_output(state: u32) -> u32 {
    (state as int % 0x8000_0000) as u32
}

/// A small linear congruential pseudo random number generator.
pub struct Random(pub u32);

impl Random {
    /// The generator the game starts with.
    pub fn new() -> (r: Self)
        ensures
            r.0 == 666,
    {
        Random(666)
    }

    /// Advances the generator and returns a number in `0..2^31`.
    pub fn next(&mut self) -> (r: u32)
        ensures
            final(self).0 == lcg_step(old(self).0),
            r == lcg_output(final(self).0),
            r < 0x8000_0000,
    {
        let s = self.0.wrapping_mul(LCG_MULTIPLIER).wrapping_add(LCG_INCREMENT);
        proof {
            let x = old(self).0 as int;
            let m = (x * LCG_MULTIPLIER as int) % 0x1_0000_0000;
            vstd::arithmetic::div_mod::lemma_add_mod_noop(
                x * LCG_MULTIPLIER as int, LCG_INCREMENT as int, 0x1_0000_0000);
            vstd::arithmetic::div_mod::lemma_mod_twice(LCG_INCREMENT as int, 0x1_0000_0000);
            assert(s == lcg_step(old(self).0));
        }
        self.0 = s;
        let r = s & 0x7FFF_FFFF;
        assert(r == lcg_output(s)) by (bit_vector)
            requires r == s & 0x7FFF_FFFF;
        r
    }
}

/// Draws a number in `a..b` from the generator.
pub fn rand_between(rng: &mut Random, a: u32, b: u32) -> (r: u32)
    requires
        a < b,
    ensures
        final(rng).0 == lcg_step(old(rng).0),
        r == a + lcg_output(final(rng).0) % ((b - a) as u32),
        a <= r < b,
{
    let n = rng.next();
    a + n % (b - a)
}

} // verus!
