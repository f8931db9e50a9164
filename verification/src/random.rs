//! Random draws, taken from the `rand` crate.
//!
//! What a draw gives is open; the contracts say what holds of every outcome.

use rand::RngExt;
use vstd::prelude::*;

verus! {

/// The generator of the `rand` crate that `rand::rng()` hands out. Nothing is
/// known of what is inside.
#[verifier::external_type_specification]
#[verifier::external_body]
pub struct ExThreadRng(rand::rngs::ThreadRng);

/// `rand::RngExt::random_range` on the range `0..=hi` of a `u64`. Claimed of
/// every outcome: it lies in the range. The range is never empty, which is the
/// only input on which the call panics. (The generator itself panics where the
/// system's source of randomness fails while it is seeded anew.)
#[verifier::external_body]
pub(crate) fn random_up_to(rng: &mut rand::rngs::ThreadRng, hi: u64) -> (r: u64)
    ensures
        r <= hi,
{
    rng.random_range(0..=hi)
}

/// `rand::RngExt::random_ratio`: true with the probability
/// `numerator / denominator`. Claimed of every outcome: it is false where the
/// probability is zero and true where it is one. The call panics on a ratio
/// above one and on a denominator of zero; both are left out.
#[verifier::external_body]
pub(crate) fn random_ratio(
    rng: &mut rand::rngs::ThreadRng,
    numerator: u32,
    denominator: u32,
) -> (r: bool)
    requires
        0 < denominator,
        numerator <= denominator,
    ensures
        numerator == 0 ==> !r,
        numerator == denominator ==> r,
{
    rng.random_ratio(numerator, denominator)
}

} // verus!
