//! Randomness, supplied by the `rand` crate behind trusted wrappers. Each
//! contract states only what holds of every outcome of a draw; nothing is
//! assumed about which value comes back.

use vstd::prelude::*;
use rand::Rng;
use rand::distributions::Distribution;

verus! {

/// Relies on `rand::Rng::gen_range` with an exclusive range, which returns
/// a value of the given non-empty range and panics only on an empty one.
#[verifier::external_body]
pub(crate) fn gen_range_i64(lo: i64, hi: i64) -> (r: i64)
    requires
        lo < hi,
    ensures
        lo <= r < hi,
{
    rand::thread_rng().gen_range(lo..hi)
}

/// Relies on `rand::distributions::WeightedIndex::new` (fails only on an
/// empty list, a negative weight, or a zero total) and
/// `Distribution::sample` for `WeightedIndex`, which picks an index with
/// probability proportional to its weight; an index whose weight is zero is
/// never returned.
#[verifier::external_body]
pub(crate) fn sample_weighted4(w0: u32, w1: u32, w2: u32, w3: u32) -> (i: usize)
    requires
        w0 + w1 + w2 + w3 > 0,
        w0 <= 1000 && w1 <= 1000 && w2 <= 1000 && w3 <= 1000,
    ensures
        i < 4,
        i == 0 ==> w0 > 0,
        i == 1 ==> w1 > 0,
        i == 2 ==> w2 > 0,
        i == 3 ==> w3 > 0,
{
    let dist = rand::distributions::WeightedIndex::new([w0, w1, w2, w3]).unwrap();
    dist.sample(&mut rand::thread_rng())
}

} // verus!
