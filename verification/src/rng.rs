//! The one source of randomness the simulation uses.
use rand::Rng;
use vstd::prelude::*;

verus! {

/// Relies on `rand::Rng::random_range` over `lo..hi`: the sample lies in
/// the half-open range, and the range is non-empty so the call does not
/// panic. Nothing more is assumed of it: any value in the range may come
/// back, and two calls may differ.
#[verifier::external_body]
pub(crate) fn random_in_range(lo: i64, hi: i64) -> (r: i64)
    requires
        lo < hi,
    ensures
        lo <= r < hi,
{
    rand::rng().random_range(lo..hi)
}

} // verus!
