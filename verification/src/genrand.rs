use vstd::prelude::*;

verus! {

use core::ops::Range;
use crate::noise::Randomizer;

#[verifier::external_type_specification]
#[verifier::external_body]
pub struct ExMcg128Xsl64(rand_pcg::Mcg128Xsl64);

/// Relies on rand_pcg's `SeedableRng::from_seed` for `Pcg64Mcg`: it builds
/// the generator's state from the 16-byte seed and returns.
#[verifier::external_body]
fn pcg_from_seed(seed: [u8; 16]) -> rand_pcg::Pcg64Mcg {
    <rand_pcg::Pcg64Mcg as rand::SeedableRng>::from_seed(seed)
}

/// Relies on rand's `Rng::gen_range` over a `Range<i32>`: it panics on an
/// empty range and otherwise returns a value drawn uniformly from
/// `[start, end)`.
#[verifier::external_body]
fn pcg_gen_range(rng: &mut rand_pcg::Pcg64Mcg, range: Range<i32>) -> (r: i32)
    requires
        range.start < range.end,
    ensures
        range.start <= r < range.end,
{
    rand::Rng::gen_range(rng, range)
}

/// The production randomizer: a seeded permuted-congruential generator. The
/// fixed seeding is deliberate, so that generated noise files are
/// reproducible; nothing is promised about the values it draws beyond their
/// range.
pub struct GenuineRandomizer(pub rand_pcg::Pcg64Mcg);

impl GenuineRandomizer {
    /// Build the generator from a seed, for reproducible noise streams.
    pub fn from_seed(seed: [u8; 16]) -> Self {
        GenuineRandomizer(pcg_from_seed(seed))
    }
}

impl Randomizer for GenuineRandomizer {
    open spec fn deterministic(&self) -> bool {
        false
    }

    open spec fn next_from(&self, lo: int, hi: int) -> int {
        // Never relied on: `deterministic` is false, so no contract speaks
        // of this value.
        lo
    }

    fn gen_range(&mut self, range: Range<i32>) -> (r: i32) {
        pcg_gen_range(&mut self.0, range)
    }
}

} // verus!
