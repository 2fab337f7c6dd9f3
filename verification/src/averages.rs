//! Sums and moving averages over a sequence of bars.
//!
//! An average is stated as the sum of its window divided by the window
//! length. It is computed from running sums: one pass over the bars gives the
//! sum of every prefix, and the sum of a window is the difference of two of
//! them (`lemma_prefix_difference`), whatever wrapped on the way.

use crate::ohlc::{quot, Field, OHLC};
use vstd::prelude::*;

verus! {

/// The field-wise sum of `bars`, each field wrapping at the bounds of `i64`.
pub open spec fn total(bars: Seq<OHLC>) -> OHLC
    decreases bars.len(),
{
    if bars.len() == 0 {
        OHLC::zero()
    } else {
        total(bars.drop_last()).plus(bars.last())
    }
}

/// The number of windows of `length` bars among `n` bars.
pub open spec fn shifts(n: nat, length: int) -> nat {
    if 0 < length <= n {
        (n - length + 1) as nat
    } else {
        0
    }
}

/// The average of the `length` bars of `bars` that begin at `start`.
pub open spec fn mean_at(bars: Seq<OHLC>, start: int, length: int) -> OHLC {
    total(bars.subrange(start, start + length)).over(length)
}

/// The averages of all windows of `length` bars, earliest window first. There
/// are none where `bars` is shorter than `length`.
pub open spec fn moving_means(bars: Seq<OHLC>, length: int) -> Seq<OHLC> {
    Seq::new(shifts(bars.len(), length), |start: int| mean_at(bars, start, length))
}

/// `sums` holds the running sums of `bars`: `sums[i]` is the sum of the first
/// `i` bars.
pub open spec fn is_prefix_sums(sums: Seq<OHLC>, bars: Seq<OHLC>) -> bool {
    &&& sums.len() == bars.len() + 1
    &&& forall|i: int| 0 <= i <= bars.len() ==> #[trigger] sums[i] == total(bars.take(i))
}

/// The sum of a window is the difference of two running sums.
pub proof fn lemma_prefix_difference(bars: Seq<OHLC>, start: int, length: int)
    requires
        0 <= start,
        0 <= length,
        start + length <= bars.len(),
    ensures
        total(bars.take(start + length)).minus(total(bars.take(start))) == total(
            bars.subrange(start, start + length),
        ),
    decreases length,
{
    if length == 0 {
        assert(bars.subrange(start, start) =~= Seq::<OHLC>::empty());
    } else {
        lemma_prefix_difference(bars, start, length - 1);
        let end = start + length;
        assert(bars.take(end).drop_last() =~= bars.take(end - 1));
        assert(bars.subrange(start, end).drop_last() =~= bars.subrange(start, end - 1));
        assert(bars.take(end).last() == bars[end - 1]);
        assert(bars.subrange(start, end).last() == bars[end - 1]);
    }
}

/// The sum of one field over `bars`, as a whole number without bounds.
pub open spec fn exact_sum(bars: Seq<OHLC>, which: Field) -> int
    decreases bars.len(),
{
    if bars.len() == 0 {
        0
    } else {
        exact_sum(bars.drop_last(), which) + bars.last().field(which)
    }
}

/// Each field of `total(bars)` differs from the exact sum of that field by a
/// multiple `wraps` of 2^64.
pub proof fn lemma_total_congruent(bars: Seq<OHLC>, which: Field) -> (wraps: int)
    ensures
        total(bars).field(which) == exact_sum(bars, which) + wraps * 0x1_0000_0000_0000_0000,
    decreases bars.len(),
{
    if bars.len() == 0 {
        0
    } else {
        let before = lemma_total_congruent(bars.drop_last(), which);
        let sum = total(bars.drop_last()).field(which) + bars.last().field(which);
        if sum > i64::MAX {
            before - 1
        } else if sum < i64::MIN {
            before + 1
        } else {
            before
        }
    }
}

/// Where the exact sum of a field fits in `i64`, `total` has that sum, even
/// where a sum on the way to it did not fit.
pub proof fn lemma_total_exact(bars: Seq<OHLC>, which: Field)
    requires
        i64::MIN <= exact_sum(bars, which) <= i64::MAX,
    ensures
        total(bars).field(which) == exact_sum(bars, which),
{
    let wraps = lemma_total_congruent(bars, which);
    assert(wraps == 0) by (nonlinear_arith)
        requires
            i64::MIN <= exact_sum(bars, which) <= i64::MAX,
            i64::MIN <= exact_sum(bars, which) + wraps * 0x1_0000_0000_0000_0000 <= i64::MAX,
    ;
}

/// Where the exact sum of a field over a window fits in `i64`, the average
/// of the window has that sum divided by the window length, rounded toward
/// zero.
pub proof fn lemma_mean_exact(bars: Seq<OHLC>, start: int, length: int, which: Field)
    requires
        0 <= start,
        0 < length,
        start + length <= bars.len(),
        i64::MIN <= exact_sum(bars.subrange(start, start + length), which) <= i64::MAX,
    ensures
        mean_at(bars, start, length).field(which) == quot(
            exact_sum(bars.subrange(start, start + length), which),
            length,
        ),
{
    let window = bars.subrange(start, start + length);
    lemma_total_exact(window, which);
    lemma_quot_bounds(total(window).field(which) as int, length);
}

/// A quotient by a positive number is no further from zero than the dividend.
pub proof fn lemma_quot_bounds(a: int, n: int)
    requires
        n > 0,
    ensures
        a >= 0 ==> 0 <= quot(a, n) <= a,
        a <= 0 ==> a <= quot(a, n) <= 0,
{
    if a >= 0 {
        assert(0 <= a / n <= a) by (nonlinear_arith)
            requires
                a >= 0,
                n > 0,
        ;
    } else {
        assert(0 <= (-a) / n <= -a) by (nonlinear_arith)
            requires
                a < 0,
                n > 0,
        ;
    }
}

/// Result length: over `n` bars there are `n - length + 1` averages of
/// windows of `length` bars, and the `i`-th is the average of the bars from
/// the `i`-th on.
pub proof fn lemma_means_len(bars: Seq<OHLC>, length: int)
    requires
        0 < length <= bars.len(),
    ensures
        moving_means(bars, length).len() == bars.len() - length + 1,
        forall|i: int|
            0 <= i <= bars.len() - length ==> #[trigger] moving_means(bars, length)[i] == mean_at(
                bars,
                i,
                length,
            ),
{
}

/// The averages over windows of one bar are the bars themselves.
pub proof fn lemma_means_of_one(bars: Seq<OHLC>)
    ensures
        moving_means(bars, 1) == bars,
{
    assert forall|i: int| 0 <= i < bars.len() implies #[trigger] mean_at(bars, i, 1)
        == bars[i] by {
        let window = bars.subrange(i, i + 1);
        assert(window.drop_last() =~= Seq::<OHLC>::empty());
        assert(window.last() == bars[i]);
        assert(total(window.drop_last()) == OHLC::zero());
        assert(total(window) == bars[i]);
    }
    assert(moving_means(bars, 1) =~= bars);
}

/// The averages over windows of two bars are the halved sums of neighbours.
pub proof fn lemma_means_of_two(bars: Seq<OHLC>, i: int)
    requires
        0 <= i,
        i + 1 < bars.len(),
    ensures
        moving_means(bars, 2)[i] == bars[i].plus(bars[i + 1]).over(2),
{
    let window = bars.subrange(i, i + 2);
    let head = window.drop_last();
    assert(head.drop_last() =~= Seq::<OHLC>::empty());
    assert(head.last() == bars[i]);
    assert(window.last() == bars[i + 1]);
    assert(total(head.drop_last()) == OHLC::zero());
    assert(total(head) == bars[i]);
}

/// Where a field of the `i`-th bar is `step * i` for every bar, twice the
/// exact sum of that field over a window is
/// `step * length * (2 * start + length - 1)`: the window's average of the
/// field is `step` times the average of the indices in the window.
pub proof fn lemma_index_bars_sum(
    bars: Seq<OHLC>,
    start: int,
    length: int,
    which: Field,
    step: int,
)
    requires
        0 <= start,
        0 <= length,
        start + length <= bars.len(),
        forall|i: int| 0 <= i < bars.len() ==> (#[trigger] bars[i]).field(which) == step * i,
    ensures
        2 * exact_sum(bars.subrange(start, start + length), which) == step * length * (2 * start
            + length - 1),
    decreases length,
{
    let window = bars.subrange(start, start + length);
    if length == 0 {
        assert(step * 0 * (2 * start + 0 - 1) == 0) by (nonlinear_arith);
    } else {
        lemma_index_bars_sum(bars, start, length - 1, which, step);
        let shorter = bars.subrange(start, start + length - 1);
        assert(window.drop_last() =~= shorter);
        assert(window.last() == bars[start + length - 1]);
        let before = exact_sum(shorter, which);
        assert(2 * (before + step * (start + length - 1)) == step * length * (2 * start + length
            - 1)) by (nonlinear_arith)
            requires
                2 * before == step * (length - 1) * (2 * start + (length - 1) - 1),
        ;
    }
}

/// The running sums of `bars`, from the empty sum to the sum of them all.
pub fn prefix_sums(bars: &Vec<OHLC>) -> (sums: Vec<OHLC>)
    ensures
        is_prefix_sums(sums@, bars@),
{
    let mut sums: Vec<OHLC> = Vec::new();
    let mut running = OHLC::new_zero();
    sums.push(running);
    assert(bars@.take(0) =~= Seq::<OHLC>::empty());
    let mut i: usize = 0;
    while i < bars.len()
        invariant
            i <= bars.len(),
            sums.len() == i + 1,
            running == total(bars@.take(i as int)),
            forall|k: int| 0 <= k <= i ==> #[trigger] sums[k] == total(bars@.take(k)),
        decreases bars.len() - i,
    {
        proof {
            assert(bars@.take(i + 1).drop_last() =~= bars@.take(i as int));
            assert(bars@.take(i + 1).last() == bars[i as int]);
        }
        running = running + bars[i];
        sums.push(running);
        i = i + 1;
    }
    sums
}

/// The moving averages of `bars` over windows of `length` bars, computed from
/// the running sums of `bars`.
pub fn moving_average(bars: &Vec<OHLC>, sums: &Vec<OHLC>, length: usize) -> (means: Vec<OHLC>)
    requires
        length > 0,
        is_prefix_sums(sums@, bars@),
    ensures
        means@ == moving_means(bars@, length as int),
{
    let mut means: Vec<OHLC> = Vec::new();
    let n = bars.len();
    if length > n {
        assert(means@ =~= moving_means(bars@, length as int));
        return means;
    }
    let count: usize = n - length + 1;
    let mut start: usize = 0;
    while start < count
        invariant
            0 < length <= n,
            n == bars.len(),
            count == n - length + 1,
            start <= count,
            is_prefix_sums(sums@, bars@),
            means.len() == start,
            forall|k: int| 0 <= k < start ==> #[trigger] means[k] == mean_at(bars@, k, length as int),
        decreases count - start,
    {
        proof {
            lemma_prefix_difference(bars@, start as int, length as int);
        }
        let mean = (sums[start + length] - sums[start]) / length;
        means.push(mean);
        start = start + 1;
    }
    assert(means@ =~= moving_means(bars@, length as int));
    means
}

} // verus!
