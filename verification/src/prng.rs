//! A linear-congruential generator with the constants of Numerical Recipes.
//!
//! It is cheap and reproducible, which is all that exploration asks for, and
//! predictable to anyone who sees one of its seeds.

use vstd::prelude::*;
use crate::state::Contract;

verus! {

/// Multiplier of the linear-congruential generator.
pub const LCG_MULTIPLIER: u32 = 1664525;

/// Increment of the linear-congruential generator.
pub const LCG_INCREMENT: u32 = 1013904223;

/// Draws are reduced to `0..DRAW_RANGE`, so that they compare with a percentage.
pub const DRAW_RANGE: u32 = 100;

/// The seed that follows `seed`: `seed * A + C` modulo 2^32.
pub open spec fn next_seed(seed: u32) -> u32 {
    ((seed * LCG_MULTIPLIER + LCG_INCREMENT) % 0x1_0000_0000) as u32
}

/// The value drawn from `seed`: the following seed modulo 100.
pub open spec fn draw(seed: u32) -> u32 {
    next_seed(seed) % DRAW_RANGE
}

impl Contract {
    /// One step of the generator, as `(value, new_seed)`.
    ///
    /// The generator keeps no state of its own: a caller that wants a stream
    /// passes each returned seed to the next call. It is not fit for any use
    /// that needs unpredictability.
    pub fn pseudo_random(seed: u32) -> (out: (u32, u32))
        ensures
            out.1 == next_seed(seed),
            out.0 == draw(seed),
            out.0 < DRAW_RANGE,
    {
        assert(seed * LCG_MULTIPLIER <= 0xffff_ffff * 1664525) by (nonlinear_arith)
            requires
                0 <= seed <= 0xffff_ffff,
                LCG_MULTIPLIER == 1664525,
        ;
        let wide: u64 = seed as u64 * LCG_MULTIPLIER as u64 + LCG_INCREMENT as u64;
        let new_seed: u32 = (wide % 0x1_0000_0000) as u32;
        let random: u32 = new_seed % DRAW_RANGE;
        (random, new_seed)
    }
}

} // verus!
