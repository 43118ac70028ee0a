//! Trusted randomness primitives, and a verified shuffle built on them.
//! Only the raw draws are trusted; everything that uses them states what
//! holds of every outcome.

use rand::rngs::StdRng;
use vstd::prelude::*;

verus! {

#[verifier::external_type_specification]
#[verifier::external_body]
pub struct ExStdRng(StdRng);

/// Relies on `rand::SeedableRng::seed_from_u64`: a generator in a
/// reproducible state. Nothing is assumed of the numbers it yields.
#[verifier::external_body]
pub fn rng_from_seed(seed: u64) -> StdRng {
    rand::SeedableRng::seed_from_u64(seed)
}

/// Relies on `rand::SeedableRng::from_entropy`: a freshly seeded
/// generator. Nothing is assumed of the numbers it yields.
#[verifier::external_body]
pub fn rng_from_entropy() -> StdRng {
    rand::SeedableRng::from_entropy()
}

/// Relies on `rand::Rng::gen_range` over `0..n`: some index below `n`.
/// Which index comes out is not assumed.
#[verifier::external_body]
pub fn rand_below(rng: &mut StdRng, n: usize) -> (r: usize)
    requires
        n > 0,
    ensures
        r < n,
{
    rand::Rng::gen_range(rng, 0..n)
}

}
