//! A store of live measurements: the latest one, and a bounded history of
//! chart points, oldest first.
//!
//! The store is generic in the measured value; the application keeps
//! real-valued measurements in it.
use vstd::prelude::*;
use std::collections::VecDeque;

verus! {

/// One measurement and when it was taken (milliseconds).
#[derive(Debug, Clone, Copy, PartialEq)]
pub struct MeasurementSnapshot<V> {
    pub timestamp_ms: i64,
    pub value: V,
}

/// A point of the live chart.
#[derive(Debug, Clone, Copy, PartialEq)]
pub struct ChartPoint<V> {
    pub x: i64,
    pub y: V,
}

/// The chart point of a measurement.
pub open spec fn point_of<V>(s: MeasurementSnapshot<V>) -> ChartPoint<V> {
    ChartPoint { x: s.timestamp_ms, y: s.value }
}

/// The last `max` items of `s` (all of them when there are fewer).
pub open spec fn last_window<T>(s: Seq<T>, max: nat) -> Seq<T> {
    if s.len() > max {
        s.skip(s.len() - max)
    } else {
        s
    }
}

/// The chart points of a sequence of measurements.
pub open spec fn points_of<V>(s: Seq<MeasurementSnapshot<V>>) -> Seq<ChartPoint<V>> {
    s.map_values(|m: MeasurementSnapshot<V>| point_of(m))
}

/// Latest measurement and bounded history.
pub struct TelemetryStore<V> {
    latest: Option<MeasurementSnapshot<V>>,
    history: VecDeque<ChartPoint<V>>,
    max_points: usize,
}

impl<V: Copy> TelemetryStore<V> {
    /// The most recent measurement, if any.
    pub closed spec fn latest_view(self) -> Option<MeasurementSnapshot<V>> {
        self.latest
    }

    /// The chart history, oldest first.
    pub closed spec fn history_view(self) -> Seq<ChartPoint<V>> {
        self.history@
    }

    /// How many points the history keeps.
    pub closed spec fn capacity(self) -> nat {
        self.max_points as nat
    }

    /// An empty store keeping at most `max_points` points.
    pub fn new(max_points: usize) -> (r: Self)
        ensures
            r.latest_view() is None,
            r.history_view() == Seq::<ChartPoint<V>>::empty(),
            r.capacity() == max_points,
    {
        TelemetryStore { latest: None, history: VecDeque::new(), max_points }
    }

    /// Records a measurement: it becomes the latest, and its point is
    /// appended to the history, from which the oldest points are dropped
    /// until at most `capacity` remain.
    pub fn push(&mut self, snapshot: MeasurementSnapshot<V>)
        ensures
            final(self).latest_view() == Some(snapshot),
            final(self).history_view() == last_window(
                old(self).history_view().push(point_of(snapshot)),
                old(self).capacity(),
            ),
            final(self).capacity() == old(self).capacity(),
    {
        self.latest = Some(snapshot);
        self.history.push_back(ChartPoint { x: snapshot.timestamp_ms, y: snapshot.value });
        let ghost all = self.history@;
        while self.history.len() > self.max_points
            invariant
                self.max_points == old(self).max_points,
                self.latest == Some(snapshot),
                all == old(self).history@.push(point_of(snapshot)),
                self.history@.len() >= self.max_points ==> self.history@ == all.skip(
                    all.len() - self.history@.len(),
                ),
                self.history@.len() < self.max_points ==> self.history@ == all,
                self.history@.len() <= all.len(),
            decreases self.history@.len(),
        {
            self.history.pop_front();
            assert(self.history@ =~= all.skip(all.len() - self.history@.len()));
        }
        proof {
            if all.len() > self.max_points {
                assert(self.history@.len() == self.max_points);
            } else {
                if self.history@.len() == self.max_points {
                    assert(all.skip(0) =~= all);
                }
            }
        }
    }

    /// The most recent measurement, if any.
    pub fn latest(&self) -> (r: Option<MeasurementSnapshot<V>>)
        ensures
            r == self.latest_view(),
    {
        self.latest
    }

    /// The chart history, oldest first.
    pub fn history(&self) -> (r: Vec<ChartPoint<V>>)
        ensures
            r@ == self.history_view(),
    {
        let mut out: Vec<ChartPoint<V>> = Vec::new();
        let mut i: usize = 0;
        while i < self.history.len()
            invariant
                i <= self.history@.len(),
                out@ == self.history@.take(i as int),
            decreases self.history@.len() - i,
        {
            out.push(self.history[i]);
            i = i + 1;
            assert(out@ =~= self.history@.take(i as int));
        }
        assert(self.history@.take(self.history@.len() as int) =~= self.history@);
        out
    }
}

/// Windowing commutes with appending: the last `max` of (the last `max`
/// of `s`, then `p`) are the last `max` of `s` then `p`.
pub proof fn lemma_window_push<T>(s: Seq<T>, p: T, max: nat)
    ensures
        last_window(last_window(s, max).push(p), max) == last_window(s.push(p), max),
{
    let w = last_window(s, max);
    if s.len() > max {
        assert(w.push(p) =~= s.push(p).skip(s.len() - max));
        assert(last_window(w.push(p), max) =~= last_window(s.push(p), max));
    } else {
        assert(w == s);
    }
}

/// The history that `push` builds from a fresh store, one measurement
/// of `ms` after the other.
pub open spec fn history_after<V>(ms: Seq<MeasurementSnapshot<V>>, max: nat) -> Seq<ChartPoint<V>>
    decreases ms.len(),
{
    if ms.len() == 0 {
        seq![]
    } else {
        last_window(history_after(ms.drop_last(), max).push(point_of(ms.last())), max)
    }
}

/// After any sequence of measurements pushed onto a fresh store, the
/// history holds exactly the points of the last `max` of them, oldest
/// first, and so never more than `max` points.
pub proof fn lemma_history_is_recent_window<V>(ms: Seq<MeasurementSnapshot<V>>, max: nat)
    ensures
        history_after(ms, max) == last_window(points_of(ms), max),
        history_after(ms, max).len() <= max,
    decreases ms.len(),
{
    if ms.len() == 0 {
        assert(points_of(ms) =~= Seq::<ChartPoint<V>>::empty());
    } else {
        lemma_history_is_recent_window(ms.drop_last(), max);
        assert(points_of(ms) =~= points_of(ms.drop_last()).push(point_of(ms.last())));
        lemma_window_push(points_of(ms.drop_last()), point_of(ms.last()), max);
    }
}

} // verus!
