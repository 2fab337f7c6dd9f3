//! Mean absolute deviation of each window from a given average.
//!
//! The measure is the mean absolute deviation, not a variance: the distance
//! of each bar of a window from the window's average is taken field by field,
//! without squaring, the distances are summed, and the sum is divided by the
//! window length. Sums wrap and quotients round toward zero, as everywhere in
//! the arithmetic of bars.

use crate::averages::shifts;
use crate::ohlc::OHLC;
use vstd::prelude::*;

verus! {

/// The field-wise sum of the distances of `bars` from `center`, each field
/// wrapping at the bounds of `i64`.
pub open spec fn total_distance(bars: Seq<OHLC>, center: OHLC) -> OHLC
    decreases bars.len(),
{
    if bars.len() == 0 {
        OHLC::zero()
    } else {
        total_distance(bars.drop_last(), center).plus(bars.last().distance(center))
    }
}

/// The mean absolute deviation from `center` of the `length` bars of `bars`
/// that begin at `start`.
pub open spec fn spread_at(bars: Seq<OHLC>, center: OHLC, start: int, length: int) -> OHLC {
    total_distance(bars.subrange(start, start + length), center).over(length)
}

/// For each average in `means`, the mean absolute deviation of its window of
/// `length` bars: the `k`-th window begins at bar `k`.
pub open spec fn mean_deviations(bars: Seq<OHLC>, means: Seq<OHLC>, length: int) -> Seq<OHLC> {
    Seq::new(means.len(), |k: int| spread_at(bars, means[k], k, length))
}

/// The mean absolute deviations of the windows of `length` bars from the
/// averages given for them, one for each window.
pub fn mean_deviation(bars: &Vec<OHLC>, means: &Vec<OHLC>, length: usize) -> (spread: Vec<OHLC>)
    requires
        length > 0,
        means.len() == shifts(bars@.len(), length as int),
    ensures
        spread@ == mean_deviations(bars@, means@, length as int),
{
    let mut spread: Vec<OHLC> = Vec::new();
    let mut k: usize = 0;
    while k < means.len()
        invariant
            length > 0,
            means.len() == shifts(bars@.len(), length as int),
            k <= means.len(),
            spread.len() == k,
            forall|i: int|
                0 <= i < k ==> #[trigger] spread[i] == spread_at(bars@, means[i], i, length as int),
        decreases means.len() - k,
    {
        let center = means[k];
        let mut sum = OHLC::new_zero();
        let mut j: usize = 0;
        assert(bars@.subrange(k as int, k as int) =~= Seq::<OHLC>::empty());
        while j < length
            invariant
                0 < length <= bars.len(),
                k + length <= bars.len(),
                j <= length,
                sum == total_distance(bars@.subrange(k as int, k + j), center),
            decreases length - j,
        {
            proof {
                let wider = bars@.subrange(k as int, k + j + 1);
                assert(wider.drop_last() =~= bars@.subrange(k as int, k + j));
                assert(wider.last() == bars[k + j]);
            }
            sum = sum + bars[k + j].abs_diff(center);
            j = j + 1;
        }
        spread.push(sum / length);
        k = k + 1;
    }
    assert(spread@ =~= mean_deviations(bars@, means@, length as int));
    spread
}

} // verus!
