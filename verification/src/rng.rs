//! The one place this crate draws randomness from the `rand` crate.

use vstd::prelude::*;

verus! {

/// Relies on `rand::thread_rng` and `rand::Rng::gen_range`: sampling the
/// non-empty range `0..n` yields a value in `[0, n)`; `gen_range` panics
/// only on an empty range, which the precondition rules out. Nothing is
/// claimed about which index comes back.
#[verifier::external_body]
pub(crate) fn random_index(n: usize) -> (r: usize)
    requires
        0 < n,
    ensures
        r < n,
{
    rand::Rng::gen_range(&mut rand::thread_rng(), 0..n)
}

} // verus!
