//! A small seeded generator, so that every draw can be replayed.

use vstd::prelude::*;

verus! {

/// Multiplier of the generator.
pub const RNG_MULTIPLIER: u64 = 6364136223846793005;

/// Increment of the generator.
pub const RNG_INCREMENT: u64 = 1442695040888963407;

/// The state that follows `state`.
pub open spec fn rng_step(state: u64) -> u64 {
    ((state * RNG_MULTIPLIER + RNG_INCREMENT) % 0x1_0000_0000_0000_0000) as u64
}

/// The number drawn when the generator leaves `state`: the upper half of the
/// state that follows.
pub open spec fn rng_draw(state: u64) -> u32 {
    (rng_step(state) / 0x1_0000_0000) as u32
}

/// A linear congruential generator.
#[derive(Clone, Copy, Debug, PartialEq, Eq, Structural)]
pub struct Rng {
    pub state: u64,
}

impl Rng {
    /// A generator that starts from `seed`.
    pub fn new(seed: u64) -> (rng: Rng)
        ensures
            rng.state == seed,
    {
        Rng { state: seed }
    }

    /// Draws the next number.
    pub fn next(&mut self) -> (drawn: u32)
        ensures
            drawn == rng_draw(old(self).state),
            final(self).state == rng_step(old(self).state),
    {
        let wide: u128 = self.state as u128 * RNG_MULTIPLIER as u128;
        assert(self.state * RNG_MULTIPLIER <= 0xffff_ffff_ffff_ffff * 0xffff_ffff_ffff_ffff)
            by (nonlinear_arith)
            requires
                0 <= self.state <= 0xffff_ffff_ffff_ffff,
                0 <= RNG_MULTIPLIER <= 0xffff_ffff_ffff_ffff,
        ;
        let next: u64 = ((wide + RNG_INCREMENT as u128) % 0x1_0000_0000_0000_0000) as u64;
        self.state = next;
        (next / 0x1_0000_0000) as u32
    }
}

} // verus!
