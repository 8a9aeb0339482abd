//! The renderer's only source of randomness.

use vstd::prelude::*;

verus! {

/// Relies on rand's `Rng::random_range`: a sample drawn from the integer
/// range `lo..hi` lies in that range, and the call panics only when the
/// range is empty, which the precondition rules out.  Nothing further is
/// assumed of the draw.
#[verifier::external_body]
pub(crate) fn rand_fixed_range(lo: i64, hi: i64) -> (r: i64)
    requires
        lo < hi,
    ensures
        lo <= r < hi,
{
    rand::Rng::random_range(&mut rand::rng(), lo..hi)
}

} // verus!
