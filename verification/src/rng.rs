//! The source of ambient randomness for shuffles and draws.

use vstd::prelude::*;
use rand::Rng;

verus! {

/// Relies on rand's `Rng::gen_range`, called on a `thread_rng`: for a
/// non-empty half-open range `lo..hi` it returns a value sampled from
/// inside the range, and panics only on an empty range, which the
/// precondition rules out. Nothing more is assumed of the outcome.
#[verifier::external_body]
pub(crate) fn rand_index(lo: usize, hi: usize) -> (r: usize)
    requires
        lo < hi,
    ensures
        lo <= r < hi,
{
    rand::thread_rng().gen_range(lo..hi)
}

} // verus!
