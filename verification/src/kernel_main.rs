//! The pseudo-random number generator that the system seeds once when it
//! starts.

use vstd::arithmetic::div_mod::lemma_add_mod_noop;
use vstd::prelude::*;

verus! {

/// Seed of a generator that was never seeded.
pub const INITIAL_SEED: u64 = 12345;

/// Multiplier of the generator.
pub const LCG_MULTIPLIER: u64 = 6364136223846793005;

/// Increment of the generator.
pub const LCG_INCREMENT: u64 = 1442695040888963407;

/// The state that follows `seed`: `seed * multiplier + increment`, reduced
/// to 64 bits.
pub open spec fn lcg_next(seed: u64) -> u64 {
    ((seed * LCG_MULTIPLIER + LCG_INCREMENT) % 0x1_0000_0000_0000_0000) as u64
}

/// A linear congruential generator over 64 bits.
#[derive(Debug, Clone, Copy, PartialEq, Eq, Structural)]
pub struct Rng {
    /// The current state.
    pub seed: u64,
}

impl Rng {
    /// A generator in its fixed initial state.
    pub fn new() -> (rng: Rng)
        ensures
            rng.seed == INITIAL_SEED,
    {
        Rng { seed: INITIAL_SEED }
    }
}

/// Seeds the generator with a reading of the processor's cycle counter.
pub fn seed_rng(rng: &mut Rng, counter: u64)
    ensures
        final(rng).seed == counter,
{
    rng.seed = counter;
}

/// Advances the generator by one step and returns its new state.
pub fn next_rand(rng: &mut Rng) -> (value: u64)
    ensures
        value == lcg_next(old(rng).seed),
        final(rng).seed == value,
{
    let product: u64 = rng.seed.wrapping_mul(LCG_MULTIPLIER);
    let value: u64 = product.wrapping_add(LCG_INCREMENT);
    proof {
        let m: int = 0x1_0000_0000_0000_0000;
        let full: int = rng.seed * LCG_MULTIPLIER;
        assert(product == full % m);
        assert(value == (product + LCG_INCREMENT) % m);
        lemma_add_mod_noop(full, LCG_INCREMENT as int, m);
        assert(LCG_INCREMENT as int % m == LCG_INCREMENT);
    }
    rng.seed = value;
    value
}

} // verus!
