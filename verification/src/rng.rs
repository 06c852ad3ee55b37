//! Randomness for symmetry breaking, behind a trusted boundary.

use vstd::prelude::*;

verus! {

/// Relies on rand::Rng::gen_range over an inclusive integer range:
/// it panics only on an empty range and returns a value inside the range.
/// Nothing more is assumed of the draw.
#[verifier::external_body]
pub(crate) fn random_in_range(lo: i64, hi: i64) -> (r: i64)
    requires
        lo <= hi,
    ensures
        lo <= r <= hi,
{
    rand::Rng::gen_range(&mut rand::thread_rng(), lo..=hi)
}

} // verus!
