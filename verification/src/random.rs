//! Random timeouts and choices, drawn with `rand`.
use vstd::prelude::*;
use rand::Rng;

verus! {

/// Calls `rand::Rng::gen_range` on the thread's generator: a number drawn
/// from `low .. high`. `rand` documents that it panics unless `low < high`.
#[verifier::external_body]
pub(crate) fn random_in_range(low: u64, high: u64) -> (r: u64)
    requires
        low < high,
    ensures
        low <= r < high,
{
    rand::thread_rng().gen_range(low, high)
}

} // verus!
