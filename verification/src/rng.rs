//! The seeded random source, backed by `rand`'s `StdRng`. It is consulted
//! only when an agent is created, to pick the initial heading.

use vstd::prelude::*;

verus! {

#[verifier::external_type_specification]
#[verifier::external_body]
pub struct ExStdRng(rand::rngs::StdRng);

/// Relies on `rand::SeedableRng::from_seed` for `StdRng`: builds the
/// deterministic generator from a 32-byte seed.
#[verifier::external_body]
fn stdrng_from_seed(seed: [u8; 32]) -> rand::rngs::StdRng {
    <rand::rngs::StdRng as rand::SeedableRng>::from_seed(seed)
}

/// Relies on `rand::Rng::gen_range` on a half-open integer range: the
/// sample lies in `[lo, hi)`; the call panics only on an empty range,
/// which the precondition excludes.
#[verifier::external_body]
fn gen_range_i64(rng: &mut rand::rngs::StdRng, lo: i64, hi: i64) -> (r: i64)
    requires
        lo < hi,
    ensures
        lo <= r < hi,
{
    rand::Rng::gen_range(rng, lo..hi)
}

/// A seeded deterministic generator of uniform values in a range.
pub struct RandomGenerator {
    rng: rand::rngs::StdRng,
}

impl RandomGenerator {
    /// A generator from a fixed 32-byte seed.
    pub fn new(seed: [u8; 32]) -> RandomGenerator {
        RandomGenerator { rng: stdrng_from_seed(seed) }
    }

    /// A uniform value in `[lo, hi)`.
    pub fn random_in(&mut self, lo: i64, hi: i64) -> (r: i64)
        requires
            lo < hi,
        ensures
            lo <= r < hi,
    {
        gen_range_i64(&mut self.rng, lo, hi)
    }
}

} // verus!
