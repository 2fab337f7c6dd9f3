//! The window as a sequence of bars in time order, and what an update does to it.

use crate::ohlc::OHLC;
use crate::store::{ascending, put};
use vstd::prelude::*;

verus! {

/// The timestamps of `bars` strictly increase.
pub open spec fn ascending_times(bars: Seq<OHLC>) -> bool {
    forall|i: int, j: int| 0 <= i < j < bars.len() ==> bars[i].time < bars[j].time
}

/// `bars` with `unit` put at its timestamp: a bar of the same timestamp is
/// overwritten; otherwise `unit` is inserted before the first later bar.
/// Meant for `bars` in time order.
pub open spec fn place(bars: Seq<OHLC>, unit: OHLC) -> Seq<OHLC>
    decreases bars.len(),
{
    if bars.len() == 0 {
        seq![unit]
    } else if bars.last().time < unit.time {
        bars.push(unit)
    } else if bars.last().time == unit.time {
        bars.drop_last().push(unit)
    } else {
        place(bars.drop_last(), unit).push(bars.last())
    }
}

/// Some bar of `bars` carries the timestamp `time`.
pub open spec fn has_time(bars: Seq<OHLC>, time: i64) -> bool {
    exists|i: int| 0 <= i < bars.len() && bars[i].time == time
}

/// The bar that an update with `unit` pushes out of a window `bars` of
/// capacity `capacity`: the oldest bar of a full window, or `unit` itself where
/// the window can hold nothing.
pub open spec fn evicted_by(bars: Seq<OHLC>, capacity: nat, unit: OHLC) -> Option<OHLC> {
    if bars.len() != capacity {
        None
    } else if capacity == 0 {
        Some(unit)
    } else {
        Some(bars[0])
    }
}

/// The window after an update with `unit`: a full window first loses its
/// oldest bar, then `unit` is placed; a window of capacity 0 stays empty.
pub open spec fn window_after(bars: Seq<OHLC>, capacity: nat, unit: OHLC) -> Seq<OHLC> {
    if bars.len() != capacity {
        place(bars, unit)
    } else if capacity == 0 {
        bars
    } else {
        place(bars.drop_first(), unit)
    }
}

/// Each bar of `bars` paired with its timestamp.
pub open spec fn keyed(bars: Seq<OHLC>) -> Seq<(i64, OHLC)> {
    Seq::new(bars.len(), |i: int| (bars[i].time, bars[i]))
}

/// Every bar of `place(bars, unit)` is `unit` or a bar of `bars` with another
/// timestamp, `unit` is among them, and time order is kept.
pub proof fn lemma_place_ascending(bars: Seq<OHLC>, unit: OHLC)
    requires
        ascending_times(bars),
    ensures
        ascending_times(place(bars, unit)),
        forall|i: int|
            0 <= i < place(bars, unit).len() ==> #[trigger] place(bars, unit)[i] == unit || (
            place(bars, unit)[i].time != unit.time && bars.contains(place(bars, unit)[i])),
        place(bars, unit).contains(unit),
        forall|j: int|
            0 <= j < bars.len() && #[trigger] bars[j].time != unit.time ==> place(
                bars,
                unit,
            ).contains(bars[j]),
    decreases bars.len(),
{
    let placed = place(bars, unit);
    if bars.len() == 0 {
        assert(placed[0] == unit);
    } else if bars.last().time < unit.time {
        assert(placed[bars.len() as int] == unit);
        assert forall|i: int| 0 <= i < placed.len() implies #[trigger] placed[i] == unit || (
        placed[i].time != unit.time && bars.contains(placed[i])) by {
            if i < bars.len() {
                assert(placed[i] == bars[i]);
            }
        }
        assert forall|j: int| 0 <= j < bars.len() && #[trigger] bars[j].time
            != unit.time implies placed.contains(bars[j]) by {
            assert(placed[j] == bars[j]);
        }
    } else if bars.last().time == unit.time {
        let n = bars.len() as int;
        assert(placed[n - 1] == unit);
        assert forall|i: int| 0 <= i < placed.len() implies #[trigger] placed[i] == unit || (
        placed[i].time != unit.time && bars.contains(placed[i])) by {
            if i < n - 1 {
                assert(placed[i] == bars[i]);
            }
        }
        assert forall|j: int| 0 <= j < bars.len() && #[trigger] bars[j].time
            != unit.time implies placed.contains(bars[j]) by {
            assert(placed[j] == bars[j]);
        }
    } else {
        let rest = bars.drop_last();
        let inner = place(rest, unit);
        lemma_place_ascending(rest, unit);
        assert forall|i: int| 0 <= i < inner.len() implies (#[trigger] inner[i]).time
            < bars.last().time by {
            if inner[i] != unit {
                let j = choose|j: int| 0 <= j < rest.len() && rest[j] == inner[i];
                assert(rest[j] == bars[j]);
            }
        }
        assert forall|i: int| 0 <= i < placed.len() implies #[trigger] placed[i] == unit || (
        placed[i].time != unit.time && bars.contains(placed[i])) by {
            if i < inner.len() {
                assert(placed[i] == inner[i]);
                if inner[i] != unit {
                    let j = choose|j: int| 0 <= j < rest.len() && rest[j] == inner[i];
                    assert(bars[j] == inner[i]);
                }
            } else {
                assert(placed[i] == bars[bars.len() - 1]);
            }
        }
        let at = choose|i: int| 0 <= i < inner.len() && inner[i] == unit;
        assert(placed[at] == unit);
        assert forall|j: int| 0 <= j < bars.len() && #[trigger] bars[j].time
            != unit.time implies placed.contains(bars[j]) by {
            if j < rest.len() {
                assert(rest[j] == bars[j]);
                let i = choose|i: int| 0 <= i < inner.len() && inner[i] == rest[j];
                assert(placed[i] == bars[j]);
            } else {
                assert(placed[inner.len() as int] == bars[j]);
            }
        }
    }
}

/// Placing a bar adds one bar, or none where its timestamp was there already.
pub proof fn lemma_place_len(bars: Seq<OHLC>, unit: OHLC)
    requires
        ascending_times(bars),
    ensures
        place(bars, unit).len() == if has_time(bars, unit.time) {
            bars.len()
        } else {
            bars.len() + 1
        },
    decreases bars.len(),
{
    if bars.len() == 0 {
    } else if bars.last().time < unit.time {
        assert forall|i: int| 0 <= i < bars.len() implies bars[i].time != unit.time by {}
    } else if bars.last().time == unit.time {
        assert(bars[bars.len() - 1].time == unit.time);
    } else {
        let rest = bars.drop_last();
        lemma_place_len(rest, unit);
        if has_time(bars, unit.time) {
            let i = choose|i: int| 0 <= i < bars.len() && bars[i].time == unit.time;
            assert(rest[i].time == unit.time);
        }
        if has_time(rest, unit.time) {
            let i = choose|i: int| 0 <= i < rest.len() && rest[i].time == unit.time;
            assert(bars[i].time == unit.time);
        }
    }
}

/// Placing among the keyed bars is placing among the bars.
pub proof fn lemma_put_keyed(bars: Seq<OHLC>, unit: OHLC)
    ensures
        put(keyed(bars), unit.time, unit) == keyed(place(bars, unit)),
        ascending(keyed(bars)) == ascending_times(bars),
    decreases bars.len(),
{
    let s = keyed(bars);
    if bars.len() == 0 {
        assert(put(s, unit.time, unit) =~= keyed(place(bars, unit)));
    } else if bars.last().time < unit.time {
        assert(put(s, unit.time, unit) =~= keyed(place(bars, unit)));
    } else if bars.last().time == unit.time {
        assert(put(s, unit.time, unit) =~= keyed(place(bars, unit)));
    } else {
        let rest = bars.drop_last();
        lemma_put_keyed(rest, unit);
        assert(s.drop_last() =~= keyed(rest));
        assert(put(s, unit.time, unit) =~= keyed(place(bars, unit)));
    }
    if ascending_times(bars) {
        assert(ascending(s));
    }
    if ascending(s) {
        assert forall|i: int, j: int| 0 <= i < j < bars.len() implies bars[i].time
            < bars[j].time by {
            assert(s[i].0 < s[j].0);
        }
    }
}

/// The window after the updates `units`, taken in one after the other.
pub open spec fn replay(bars: Seq<OHLC>, capacity: nat, units: Seq<OHLC>) -> Seq<OHLC>
    decreases units.len(),
{
    if units.len() == 0 {
        bars
    } else {
        window_after(replay(bars, capacity, units.drop_last()), capacity, units.last())
    }
}

/// One update keeps a window in time order and within its capacity.
pub proof fn lemma_update_keeps_window(bars: Seq<OHLC>, capacity: nat, unit: OHLC)
    requires
        ascending_times(bars),
        bars.len() <= capacity,
    ensures
        ascending_times(window_after(bars, capacity, unit)),
        window_after(bars, capacity, unit).len() <= capacity,
{
    if bars.len() != capacity {
        lemma_place_ascending(bars, unit);
        lemma_place_len(bars, unit);
    } else if capacity > 0 {
        let rest = bars.drop_first();
        assert forall|i: int, j: int| 0 <= i < j < rest.len() implies rest[i].time
            < rest[j].time by {
            assert(rest[i] == bars[i + 1] && rest[j] == bars[j + 1]);
        }
        lemma_place_ascending(rest, unit);
        lemma_place_len(rest, unit);
    }
}

/// Capacity invariant: whatever updates a window takes in, after each of
/// them it is in time order and holds no more bars than its capacity.
pub proof fn lemma_capacity_invariant(bars: Seq<OHLC>, capacity: nat, units: Seq<OHLC>)
    requires
        ascending_times(bars),
        bars.len() <= capacity,
    ensures
        ascending_times(replay(bars, capacity, units)),
        replay(bars, capacity, units).len() <= capacity,
    decreases units.len(),
{
    if units.len() > 0 {
        lemma_capacity_invariant(bars, capacity, units.drop_last());
        lemma_update_keeps_window(
            replay(bars, capacity, units.drop_last()),
            capacity,
            units.last(),
        );
    }
}

/// Eviction: a window below its capacity evicts nothing. A full window of
/// capacity above 0 evicts the one bar with the smallest timestamp it held
/// just before, and the rest of its bars stay but for one that the new bar
/// overwrites.
pub proof fn lemma_eviction(bars: Seq<OHLC>, capacity: nat, unit: OHLC)
    requires
        ascending_times(bars),
        bars.len() <= capacity,
    ensures
        bars.len() < capacity ==> evicted_by(bars, capacity, unit) is None,
        bars.len() == capacity && capacity > 0 ==> {
            &&& evicted_by(bars, capacity, unit) == Some(bars[0])
            &&& forall|i: int| 0 < i < bars.len() ==> bars[0].time < #[trigger] bars[i].time
            &&& forall|i: int|
                0 < i < bars.len() && #[trigger] bars[i].time != unit.time ==> window_after(
                    bars,
                    capacity,
                    unit,
                ).contains(bars[i])
            &&& bars[0].time != unit.time ==> !window_after(bars, capacity, unit).contains(bars[0])
            &&& window_after(bars, capacity, unit).contains(unit)
        },
{
    if bars.len() == capacity && capacity > 0 {
        let rest = bars.drop_first();
        let after = window_after(bars, capacity, unit);
        assert forall|i: int, j: int| 0 <= i < j < rest.len() implies rest[i].time
            < rest[j].time by {
            assert(rest[i] == bars[i + 1] && rest[j] == bars[j + 1]);
        }
        lemma_place_ascending(rest, unit);
        assert forall|i: int| 0 < i < bars.len() && #[trigger] bars[i].time
            != unit.time implies after.contains(bars[i]) by {
            assert(rest[i - 1] == bars[i]);
        }
        if bars[0].time != unit.time && after.contains(bars[0]) {
            let at = choose|at: int| 0 <= at < after.len() && after[at] == bars[0];
            assert(rest.contains(after[at]));
            let j = choose|j: int| 0 <= j < rest.len() && rest[j] == bars[0];
            assert(rest[j] == bars[j + 1]);
        }
    }
}

/// Below its capacity a window takes a bar of a timestamp it holds without
/// growing and without evicting: the bar of that timestamp is overwritten and
/// the others stay.
pub proof fn lemma_same_timestamp_overwrites(bars: Seq<OHLC>, capacity: nat, unit: OHLC)
    requires
        ascending_times(bars),
        bars.len() < capacity,
        has_time(bars, unit.time),
    ensures
        evicted_by(bars, capacity, unit) is None,
        window_after(bars, capacity, unit).len() == bars.len(),
        window_after(bars, capacity, unit).contains(unit),
        forall|i: int|
            0 <= i < bars.len() && #[trigger] bars[i].time != unit.time ==> window_after(
                bars,
                capacity,
                unit,
            ).contains(bars[i]),
{
    lemma_place_ascending(bars, unit);
    lemma_place_len(bars, unit);
}

/// Chronological delivery: a bar later than every bar held goes to the end
/// of the window.
pub proof fn lemma_place_newest(bars: Seq<OHLC>, unit: OHLC)
    requires
        forall|i: int| 0 <= i < bars.len() ==> bars[i].time < unit.time,
    ensures
        place(bars, unit) == bars.push(unit),
{
    if bars.len() > 0 {
        assert(bars.last() == bars[bars.len() - 1]);
    }
}

/// Capacity 0: the window stays empty and every update hands its bar back.
pub proof fn lemma_zero_capacity(unit: OHLC)
    ensures
        evicted_by(Seq::<OHLC>::empty(), 0, unit) == Some(unit),
        window_after(Seq::<OHLC>::empty(), 0, unit) == Seq::<OHLC>::empty(),
{
}

/// Capacity 1: the first update evicts nothing; the second evicts the bar
/// that the first brought, whatever the timestamps.
pub proof fn lemma_single_capacity(first: OHLC, second: OHLC)
    ensures
        evicted_by(Seq::<OHLC>::empty(), 1, first) is None,
        window_after(Seq::<OHLC>::empty(), 1, first) == seq![first],
        evicted_by(seq![first], 1, second) == Some(first),
        window_after(seq![first], 1, second) == seq![second],
{
    assert(seq![first].drop_first() =~= Seq::<OHLC>::empty());
    assert(seq![first][0] == first);
}

} // verus!
