//! The seeded pseudorandom generator the composer draws from.
//!
//! All randomness in a run comes from one xoshiro256** generator, seeded
//! from the configuration, so a run is reproducible from seed and settings.

use vstd::prelude::*;
use rand::Rng;

verus! {

/// The xoshiro256** generator of the `rand_xoshiro` crate.
#[verifier::external_type_specification]
#[verifier::external_body]
pub struct ExXoshiro256StarStar(rand_xoshiro::Xoshiro256StarStar);

/// Relies on `rand::Rng::gen` at `bool`: draws one unbiased coin from the
/// generator's stream.  Nothing is promised of the outcome; callers must
/// hold for either answer.
#[verifier::external_body]
pub fn coin_flip(rng: &mut rand_xoshiro::Xoshiro256StarStar) -> bool {
    rng.gen()
}

} // verus!
