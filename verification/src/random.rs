//! Draws from the thread-local random number generator.

use vstd::prelude::*;
use rand::rngs::ThreadRng;

verus! {

/// The handle of the thread-local generator of `rand`. Nothing is known of
/// what it holds.
#[verifier::external_type_specification]
#[verifier::external_body]
pub struct ExThreadRng(rand::rngs::ThreadRng);

/// `rand::thread_rng` hands out the handle of the thread-local generator.
/// Nothing is claimed of it.
pub assume_specification[ rand::thread_rng ]() -> (r: ThreadRng);

/// Calls `rand::random::<u32>()`: a draw from the thread-local generator.
/// Nothing is claimed of the number that comes back.
#[verifier::external_body]
pub(crate) fn random_seed() -> (r: u32) {
    rand::random::<u32>()
}

/// Calls `rand::Rng::gen_range` on `rng` with the inclusive range
/// `low..=high`. The range must not be empty, or the call panics; the
/// number drawn lies in the range.
#[verifier::external_body]
pub(crate) fn random_between(rng: &mut ThreadRng, low: i64, high: i64) -> (r: i64)
    requires
        low <= high,
    ensures
        low <= r <= high,
{
    rand::Rng::gen_range(rng, low..=high)
}

} // verus!
