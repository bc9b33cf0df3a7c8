//! The engine's source of random bytes, a seeded generator of the `rand`
//! crate.
use vstd::prelude::*;
use rand::rngs::StdRng;
use rand::{Rng, SeedableRng};

verus! {

#[verifier::external_type_specification]
#[verifier::external_body]
pub struct ExStdRng(StdRng);

/// Relies on rand's `SeedableRng::seed_from_u64` for `StdRng`: a generator
/// whose bytes follow from the seed.
#[verifier::external_body]
pub(crate) fn seeded(seed: u64) -> (r: StdRng) {
    StdRng::seed_from_u64(seed)
}

/// Relies on rand's `Rng::gen_range` over `0..=255`: some byte, with nothing
/// known of which.
#[verifier::external_body]
pub(crate) fn random_byte(rng: &mut StdRng) -> (r: u8) {
    rng.gen_range(0..=255u8)
}

} // verus!
