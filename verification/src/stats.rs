//! The sliding-window engine.

use crate::averages::{is_prefix_sums, moving_average, moving_means, prefix_sums, shifts};
use crate::deviation::{mean_deviation, mean_deviations};
use crate::error::StatsError;
use crate::ohlc::OHLC;
use crate::query::{
    deviations_of, fault, first_too_large, lemma_first_too_large, means_of, outcome, series,
};
use crate::store::{entries, tree_len, tree_new, tree_pop_first, tree_put, tree_values, values_of};
use crate::window::{
    ascending_times, evicted_by, keyed, lemma_place_ascending, lemma_place_len, lemma_put_keyed,
    place, window_after,
};
use rbtree::RBTree;
use std::collections::HashMap;
use vstd::prelude::*;
use vstd::std_specs::hash::spec_hash_map_iter;
use vstd::std_specs::iter::IteratorSpec;

verus! {

/// A window of the most recent bars, at most `capacity` of them, in time order.
///
/// The view `self@` is the sequence of bars held, oldest first. `update`
/// takes the window by `&mut` and the queries take it by `&`, so a window has
/// one writer or any number of readers at a time; a host that shares it
/// between tasks keeps it behind a reader/writer lock.
pub struct MovingStatistics {
    universe_window: usize,
    universe: RBTree<i64, OHLC>,
}

impl View for MovingStatistics {
    type V = Seq<OHLC>;

    /// The bars held, oldest first.
    closed spec fn view(&self) -> Seq<OHLC> {
        values_of(entries(self.universe))
    }
}

impl MovingStatistics {
    /// The most bars the window may hold.
    pub closed spec fn spec_capacity(&self) -> usize {
        self.universe_window
    }

    /// The store holds each bar under its own timestamp, in strictly
    /// increasing time order, and no more bars than the capacity.
    pub closed spec fn wf(&self) -> bool {
        &&& entries(self.universe) == keyed(self@)
        &&& ascending_times(self@)
        &&& self@.len() <= self.universe_window
    }

    /// What every well-formed window satisfies.
    pub proof fn lemma_wf(&self)
        requires
            self.wf(),
        ensures
            ascending_times(self@),
            self@.len() <= self.capacity(),
    {
    }

    /// An empty window of the given capacity.
    pub fn new(universe_window: usize) -> (stats: MovingStatistics)
        ensures
            stats.wf(),
            stats@ == Seq::<OHLC>::empty(),
            stats.capacity() == universe_window,
    {
        let stats = MovingStatistics { universe_window, universe: tree_new() };
        assert(stats@ =~= Seq::<OHLC>::empty());
        assert(entries(stats.universe) =~= keyed(stats@));
        stats
    }

    /// The capacity the window was made with.
    #[verifier::when_used_as_spec(spec_capacity)]
    pub fn capacity(&self) -> (capacity: usize)
        ensures
            capacity == self.spec_capacity(),
    {
        self.universe_window
    }

    /// The number of bars held.
    pub fn len(&self) -> (n: usize)
        ensures
            n == self@.len(),
    {
        tree_len(&self.universe)
    }

    /// The bars held, oldest first.
    pub fn snapshot(&self) -> (bars: Vec<OHLC>)
        ensures
            bars@ == self@,
    {
        tree_values(&self.universe)
    }

    /// Takes in `unit`. A window that is full first gives up its oldest bar,
    /// which is returned, whatever the timestamp of `unit`; a window below its
    /// capacity gives up nothing. Then `unit` is stored under its timestamp,
    /// where it overwrites a bar of the same timestamp. A window of capacity 0
    /// stores nothing and returns `unit` itself.
    pub fn update(&mut self, unit: OHLC) -> (evicted: Option<OHLC>)
        requires
            old(self).wf(),
        ensures
            final(self).wf(),
            final(self).capacity() == old(self).capacity(),
            evicted == evicted_by(old(self)@, old(self).capacity() as nat, unit),
            final(self)@ == window_after(old(self)@, old(self).capacity() as nat, unit),
            final(self)@.len() <= final(self).capacity(),
            old(self)@.len() < old(self).capacity() ==> evicted is None,
            old(self)@.len() == old(self).capacity() && old(self).capacity() > 0 ==> evicted
                == Some(old(self)@[0]) && forall|i: int|
                0 <= i < old(self)@.len() ==> old(self)@[0].time <= #[trigger] old(self)@[i].time,
            old(self).capacity() == 0 ==> evicted == Some(unit) && final(self)@.len() == 0,
    {
        let mut popped: Option<OHLC> = None;
        if tree_len(&self.universe) == self.universe_window {
            match tree_pop_first(&mut self.universe) {
                Some(pair) => {
                    popped = Some(pair.1);
                },
                None => {
                    return Some(unit);
                },
            }
        }
        let ghost kept = self@;
        proof {
            assert(kept =~= if old(self)@.len() == old(self).universe_window {
                old(self)@.drop_first()
            } else {
                old(self)@
            });
            assert(entries(self.universe) =~= keyed(kept));
            lemma_put_keyed(kept, unit);
            lemma_place_ascending(kept, unit);
            lemma_place_len(kept, unit);
        }
        tree_put(&mut self.universe, unit.time, unit);
        proof {
            assert(self@ =~= place(kept, unit));
        }
        popped
    }

    /// The moving averages of the bars held, for each window length asked
    /// for. A length beyond the capacity is refused, however few bars are
    /// held; a length beyond the number of bars held gives no averages.
    pub fn means(&self, windows: Vec<usize>) -> (res: Result<HashMap<usize, Vec<OHLC>>, StatsError>)
        requires
            self.wf(),
            forall|i: int| 0 <= i < windows.len() ==> windows[i] > 0,
        ensures
            outcome(res) == means_of(self@, self.capacity(), windows@),
            res is Err <==> exists|i: int|
                0 <= i < windows.len() && windows[i] > self.capacity(),
            res matches Ok(table) ==> forall|length: usize|
                table@.contains_key(length) <==> windows@.contains(length),
            res matches Ok(table) ==> forall|length: usize| #[trigger]
                table@.contains_key(length) ==> table@[length]@ == moving_means(
                    self@,
                    length as int,
                ) && table@[length]@.len() == shifts(self@.len(), length as int),
    {
        broadcast use vstd::std_specs::hash::group_hash_axioms;

        proof {
            lemma_first_too_large(windows@, self.universe_window);
            assert(windows@.skip(0) =~= windows@);
        }
        let mut i: usize = 0;
        while i < windows.len()
            invariant
                i <= windows.len(),
                first_too_large(windows@, self.universe_window) == first_too_large(
                    windows@.skip(i as int),
                    self.universe_window,
                ),
            decreases windows.len() - i,
        {
            if windows[i] > self.universe_window {
                return Err(
                    StatsError::WindowTooLarge {
                        window: windows[i],
                        universe_window: self.universe_window,
                    },
                );
            }
            assert(windows@.skip(i as int).drop_first() =~= windows@.skip(i + 1));
            i = i + 1;
        }
        let bars = self.snapshot();
        let sums = prefix_sums(&bars);
        let mut table: HashMap<usize, Vec<OHLC>> = HashMap::new();
        let mut j: usize = 0;
        while j < windows.len()
            invariant
                j <= windows.len(),
                bars@ == self@,
                is_prefix_sums(sums@, bars@),
                forall|i: int| 0 <= i < windows.len() ==> windows[i] > 0,
                forall|length: usize|
                    table@.contains_key(length) <==> windows@.take(j as int).contains(length),
                forall|length: usize|
                    table@.contains_key(length) ==> (#[trigger] table@[length])@ == moving_means(
                        bars@,
                        length as int,
                    ),
            decreases windows.len() - j,
        {
            let length = windows[j];
            let average = moving_average(&bars, &sums, length);
            proof {
                let before = windows@.take(j as int);
                let after = windows@.take(j + 1);
                assert(after =~= before.push(length));
                assert forall|l: usize| after.contains(l) <==> (before.contains(l) || l
                    == length) by {
                    if before.contains(l) {
                        let k = choose|k: int| 0 <= k < before.len() && before[k] == l;
                        assert(after[k] == l);
                    }
                    if l == length {
                        assert(after[j as int] == l);
                    }
                }
            }
            table.insert(length, average);
            j = j + 1;
        }
        proof {
            assert(windows@.take(j as int) =~= windows@);
            assert(first_too_large(windows@, self.universe_window) is None);
            assert(series(table@) =~= Map::new(
                |length: usize| windows@.contains(length),
                |length: usize| moving_means(self@, length as int),
            ));
        }
        Ok(table)
    }

    /// The mean absolute deviations of the bars held from the averages in
    /// `means`, for each window length in it: for each average, the distances
    /// of the bars of its window from it, summed and divided by the window
    /// length. Refused where a length is beyond the capacity or a sequence of
    /// averages has not one average for each window of its length.
    pub fn deviations(&self, means: &HashMap<usize, Vec<OHLC>>) -> (res: Result<
        HashMap<usize, Vec<OHLC>>,
        StatsError,
    >)
        requires
            self.wf(),
            forall|length: usize| means@.contains_key(length) ==> length > 0,
        ensures
            res is Ok <==> forall|length: usize| #[trigger]
                means@.contains_key(length) ==> fault(
                    self@.len(),
                    self.capacity(),
                    length,
                    means@[length]@.len(),
                ) is None,
            res matches Ok(table) ==> series(table@) == deviations_of(self@, series(means@)),
            res matches Err(e) ==> exists|length: usize| #[trigger]
                means@.contains_key(length) && fault(
                    self@.len(),
                    self.capacity(),
                    length,
                    means@[length]@.len(),
                ) == Some(e),
    {
        broadcast use vstd::std_specs::hash::group_hash_axioms;

        let bars = self.snapshot();
        let n = bars.len();
        let ghost listed = spec_hash_map_iter(means).remaining();
        for entry in it: means.iter()
            invariant
                n == self@.len(),
                it.seq() == listed,
                listed == spec_hash_map_iter(means).remaining(),
                forall|length: usize| means@.contains_key(length) ==> length > 0,
                forall|i: int|
                    0 <= i < it.index() ==> fault(
                        n as nat,
                        self.universe_window,
                        *(#[trigger] listed[i]).0,
                        listed[i].1@.len(),
                    ) is None,
        {
            let (length, values) = entry;
            proof {
                assert(entry == listed[it.index()]);
                assert(means@.contains_key(*length) && means@[*length] == *values);
            }
            if *length > self.universe_window {
                return Err(
                    StatsError::WindowTooLarge {
                        window: *length,
                        universe_window: self.universe_window,
                    },
                );
            }
            let expected: usize = if *length <= n {
                n - *length + 1
            } else {
                0
            };
            if values.len() != expected {
                return Err(
                    StatsError::LengthMismatch {
                        window: *length,
                        expected,
                        found: values.len(),
                    },
                );
            }
        }
        proof {
            assert forall|length: usize| #[trigger] means@.contains_key(length) implies fault(
                self@.len(),
                self.universe_window,
                length,
                means@[length]@.len(),
            ) is None by {
                assert(listed.contains((&length, &means@[length])));
                let i = choose|i: int|
                    0 <= i < listed.len() && listed[i] == (&length, &means@[length]);
                assert(*listed[i].0 == length);
            }
        }
        let mut table: HashMap<usize, Vec<OHLC>> = HashMap::new();
        for entry in it: means.iter()
            invariant
                bars@ == self@,
                it.seq() == listed,
                listed == spec_hash_map_iter(means).remaining(),
                forall|length: usize| means@.contains_key(length) ==> length > 0,
                forall|length: usize| #[trigger]
                    means@.contains_key(length) ==> fault(
                        self@.len(),
                        self.universe_window,
                        length,
                        means@[length]@.len(),
                    ) is None,
                forall|length: usize|
                    table@.contains_key(length) <==> exists|i: int|
                        0 <= i < it.index() && *(#[trigger] listed[i]).0 == length,
                forall|length: usize|
                    table@.contains_key(length) ==> (#[trigger] table@[length])@
                        == mean_deviations(bars@, means@[length]@, length as int),
        {
            let (length, values) = entry;
            proof {
                assert(entry == listed[it.index()]);
                assert(means@.contains_key(*length) && means@[*length] == *values);
            }
            let spread = mean_deviation(&bars, values, *length);
            table.insert(*length, spread);
        }
        proof {
            assert forall|length: usize| means@.contains_key(length) implies table@.contains_key(
                length,
            ) by {
                assert(listed.contains((&length, &means@[length])));
                let i = choose|i: int|
                    0 <= i < listed.len() && listed[i] == (&length, &means@[length]);
                assert(*listed[i].0 == length);
            }
            assert(series(table@) =~= deviations_of(self@, series(means@)));
        }
        Ok(table)
    }
}

} // verus!
