//! The single source of randomness the core draws from.

use vstd::prelude::*;

verus! {

/// Relies on rand::random_range: a sample drawn from the half-open range with
/// the thread-local generator. Nothing beyond membership in the range holds of
/// the outcome; it panics only on an empty range, which the precondition
/// rules out.
#[verifier::external_body]
pub(crate) fn random_in(lo: i64, hi: i64) -> (r: i64)
    requires
        lo < hi,
    ensures
        lo <= r < hi,
{
    rand::random_range(lo..hi)
}

} // verus!
