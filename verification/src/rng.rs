//! Trusted access to the process's thread-local random number generator.
//! Nothing is assumed about the drawn values beyond their range, so every
//! caller is verified for every outcome.

use vstd::prelude::*;

verus! {

#[verifier::external_type_specification]
#[verifier::external_body]
pub struct ExThreadRng(rand::rngs::ThreadRng);

/// Relies on `rand::thread_rng`: it hands out the thread-local generator.
/// Nothing is assumed of the values it will yield.
#[verifier::external_body]
pub(crate) fn fresh_rng() -> rand::rngs::ThreadRng {
    rand::thread_rng()
}

/// Relies on `Rng::gen_range`: on the non-empty range `0..n` it returns a
/// value drawn from inside that range.
#[verifier::external_body]
pub(crate) fn rand_below(rng: &mut rand::rngs::ThreadRng, n: usize) -> (r: usize)
    requires
        1 <= n,
    ensures
        r < n,
{
    rand::Rng::gen_range(rng, 0..n)
}

} // verus!
