//! Source of random control samples.

use vstd::prelude::*;

verus! {

/// Relies on `rand::random_range` over an inclusive `i64` range: it draws a
/// value of that range uniformly from the thread-local generator, and panics
/// only when the range is empty. Nothing more than membership in the range
/// is stated, since the draw is random.
#[verifier::external_body]
pub(crate) fn sample_uniform(lo: i64, hi: i64) -> (r: i64)
    requires
        lo <= hi,
    ensures
        lo <= r <= hi,
{
    rand::random_range(lo..=hi)
}

} // verus!
