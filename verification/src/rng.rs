//! The one source of randomness: scattered formations and accuracy rolls
//! draw from it. Nothing is assumed of a draw beyond its bounds.

use vstd::prelude::*;
use rand::Rng;

verus! {

/// Relies on `rand::Rng::gen_range` over the inclusive range `lo..=hi`:
/// the sampled value lies within the bounds. `gen_range` panics on an
/// empty range, which the precondition rules out.
#[verifier::external_body]
pub(crate) fn rand_i32_between(lo: i32, hi: i32) -> (r: i32)
    requires
        lo <= hi,
    ensures
        lo <= r <= hi,
{
    rand::thread_rng().gen_range(lo..=hi)
}

} // verus!
