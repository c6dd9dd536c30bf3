//! Randomness drawn from `rand`'s standard generator.

use rand::rngs::StdRng;
use rand::{Rng, SeedableRng};
use vstd::prelude::*;

verus! {

/// The declaration that lets verified code hold a `rand::rngs::StdRng`.
#[verifier::external_type_specification]
#[verifier::external_body]
pub struct ExStdRng(StdRng);

/// Calls `StdRng::from_entropy`: a generator seeded from the operating
/// system's randomness. Nothing is claimed of its state. (`from_entropy`
/// panics when the operating system cannot supply randomness; no input of
/// this function can rule that out.)
#[verifier::external_body]
pub(crate) fn std_rng_from_entropy() -> (rng: StdRng) {
    StdRng::from_entropy()
}

/// Calls `Rng::gen_range(0..bound)`. Claims only that the draw is below
/// `bound`; `gen_range` panics on an empty range, which `requires` rules
/// out.
#[verifier::external_body]
pub(crate) fn gen_index_below(rng: &mut StdRng, bound: usize) -> (r: usize)
    requires
        bound > 0,
    ensures
        r < bound,
{
    rng.gen_range(0..bound)
}

/// Calls `Rng::gen::<u64>`. Any value may come back.
#[verifier::external_body]
pub(crate) fn gen_u64(rng: &mut StdRng) -> (r: u64) {
    rng.gen::<u64>()
}

/// Calls `Rng::fill` on a 32-byte array. Any bytes may come back.
#[verifier::external_body]
pub(crate) fn fill_bytes32(rng: &mut StdRng) -> (r: [u8; 32]) {
    let mut token = [0u8; 32];
    rng.fill(&mut token);
    token
}

} // verus!
