//! What the queries answer, stated over the bars held.

use crate::averages::{moving_means, shifts};
use crate::deviation::mean_deviations;
use crate::error::StatsError;
use crate::ohlc::OHLC;
use std::collections::HashMap;
use vstd::prelude::*;

verus! {

/// The first of `windows` that exceeds `capacity`, if any does.
pub open spec fn first_too_large(windows: Seq<usize>, capacity: usize) -> Option<usize>
    decreases windows.len(),
{
    if windows.len() == 0 {
        None
    } else if windows[0] > capacity {
        Some(windows[0])
    } else {
        first_too_large(windows.drop_first(), capacity)
    }
}

/// What a request for the moving averages of `bars` over each length in
/// `windows` returns from a window of capacity `capacity`: a refusal naming
/// the first length beyond the capacity, or else one sequence of averages
/// for each length asked for.
pub open spec fn means_of(bars: Seq<OHLC>, capacity: usize, windows: Seq<usize>) -> Result<
    Map<usize, Seq<OHLC>>,
    StatsError,
> {
    match first_too_large(windows, capacity) {
        Some(window) => Err(StatsError::WindowTooLarge { window, universe_window: capacity }),
        None => Ok(
            Map::new(
                |length: usize| windows.contains(length),
                |length: usize| moving_means(bars, length as int),
            ),
        ),
    }
}

/// The sequences that a table of vectors holds, by key.
pub open spec fn series(table: Map<usize, Vec<OHLC>>) -> Map<usize, Seq<OHLC>> {
    Map::new(|length: usize| table.contains_key(length), |length: usize| table[length]@)
}

/// What is wrong with a sequence of `found` averages given for windows of
/// `length` bars, where `n` bars are held by a window of capacity `capacity`:
/// the length is beyond the capacity, or the number of averages is not the
/// number of such windows among the bars.
pub open spec fn fault(n: nat, capacity: usize, length: usize, found: nat) -> Option<StatsError> {
    if length > capacity {
        Some(StatsError::WindowTooLarge { window: length, universe_window: capacity })
    } else if found != shifts(n, length as int) {
        Some(
            StatsError::LengthMismatch {
                window: length,
                expected: shifts(n, length as int) as usize,
                found: found as usize,
            },
        )
    } else {
        None
    }
}

/// For each window length in `means`, the mean absolute deviations of the
/// windows of `bars` from the averages given for that length.
pub open spec fn deviations_of(bars: Seq<OHLC>, means: Map<usize, Seq<OHLC>>) -> Map<
    usize,
    Seq<OHLC>,
> {
    Map::new(
        |length: usize| means.contains_key(length),
        |length: usize| mean_deviations(bars, means[length], length as int),
    )
}

/// What a query returned, with each vector taken as the sequence it holds.
pub open spec fn outcome(res: Result<HashMap<usize, Vec<OHLC>>, StatsError>) -> Result<
    Map<usize, Seq<OHLC>>,
    StatsError,
> {
    match res {
        Ok(table) => Ok(series(table@)),
        Err(e) => Err(e),
    }
}

/// `first_too_large` finds nothing exactly where every length is within the
/// capacity, and otherwise names a length beyond it with none before it.
pub proof fn lemma_first_too_large(windows: Seq<usize>, capacity: usize)
    ensures
        first_too_large(windows, capacity) is None <==> forall|i: int|
            0 <= i < windows.len() ==> windows[i] <= capacity,
        first_too_large(windows, capacity) matches Some(window) ==> exists|i: int|
            0 <= i < windows.len() && windows[i] == window && window > capacity && forall|j: int|
                0 <= j < i ==> windows[j] <= capacity,
    decreases windows.len(),
{
    if windows.len() == 0 {
    } else if windows[0] > capacity {
        assert(windows[0] == windows[0] && forall|j: int| 0 <= j < 0 ==> windows[j] <= capacity);
    } else {
        let rest = windows.drop_first();
        lemma_first_too_large(rest, capacity);
        if first_too_large(rest, capacity) is None {
            assert forall|i: int| 0 <= i < windows.len() implies windows[i] <= capacity by {
                if i > 0 {
                    assert(rest[i - 1] == windows[i]);
                }
            }
        } else {
            let window = first_too_large(rest, capacity)->Some_0;
            let i = choose|i: int|
                0 <= i < rest.len() && rest[i] == window && window > capacity && forall|j: int|
                    0 <= j < i ==> rest[j] <= capacity;
            assert(windows[i + 1] == window);
            assert forall|j: int| 0 <= j < i + 1 implies windows[j] <= capacity by {
                if j > 0 {
                    assert(rest[j - 1] == windows[j]);
                }
            }
        }
    }
}

/// Rejection: a request with a length beyond the capacity is refused, whatever
/// bars are held and however few; a request without one is answered.
pub proof fn lemma_too_large_refused(bars: Seq<OHLC>, capacity: usize, windows: Seq<usize>)
    ensures
        means_of(bars, capacity, windows) is Err <==> exists|i: int|
            0 <= i < windows.len() && windows[i] > capacity,
{
    lemma_first_too_large(windows, capacity);
}

/// Reading is repeatable: two answers to the same request for averages, made
/// while the same bars are held at the same capacity, are equal.
pub proof fn lemma_means_repeatable(
    bars: Seq<OHLC>,
    capacity: usize,
    windows: Seq<usize>,
    first_answer: Result<HashMap<usize, Vec<OHLC>>, StatsError>,
    second_answer: Result<HashMap<usize, Vec<OHLC>>, StatsError>,
)
    requires
        outcome(first_answer) == means_of(bars, capacity, windows),
        outcome(second_answer) == means_of(bars, capacity, windows),
    ensures
        outcome(first_answer) == outcome(second_answer),
{
}

/// The averages that are given for a length within the capacity are accepted
/// as the averages of that length, as long as the same bars are held.
pub proof fn lemma_means_fit(bars: Seq<OHLC>, capacity: usize, length: usize)
    requires
        0 < length <= capacity,
    ensures
        fault(bars.len(), capacity, length, moving_means(bars, length as int).len()) is None,
{
}

} // verus!
