//! Interval measurements and the bounded buffer that holds the latest of them.

use crate::measurements::tcp_stats::{no_stats, TcpStats};
use crate::number::BitRate;
use crate::time::Duration;
use std::collections::VecDeque;
use vstd::prelude::*;

verus! {

/// The most intervals that are kept: a day of them at one a second.
pub const MAX_INTERVALS: usize = 86400;

/// Interval measurement in simplified format.
///
/// Contains basic statistics for a single reporting interval. Used for standard (non-JSON) output
/// and progress callbacks.
#[derive(Debug, Clone, Copy, PartialEq, Eq, Structural)]
pub struct IntervalStats {
    /// Start of the interval, counted from the start of the test
    pub start: Duration,
    /// End of the interval, counted from the start of the test
    pub end: Duration,
    /// Bytes transferred in the interval
    pub bytes: u64,
    /// Throughput of the interval
    pub bits_per_second: BitRate,
    /// Packets of the interval, or the greatest number when packets are not counted
    pub packets: u64,
}

/// Bounded interval buffer that prevents unbounded memory growth: when it is full, the oldest
/// interval makes room for the newest. With each interval it keeps the TCP statistics of that time.
#[derive(Debug)]
pub struct CircularIntervalBuffer {
    intervals: VecDeque<IntervalStats>,
    tcp: VecDeque<TcpStats>,
    limit: usize,
}

/// A buffer stands for its intervals, oldest first.
impl View for CircularIntervalBuffer {
    type V = Seq<IntervalStats>;

    closed spec fn view(&self) -> Seq<IntervalStats> {
        self.intervals@
    }
}

/// The last `limit` items of a sequence, or all of them when there are fewer.
pub open spec fn latest<T>(items: Seq<T>, limit: nat) -> Seq<T> {
    if items.len() <= limit {
        items
    } else {
        items.skip(items.len() - limit)
    }
}

impl CircularIntervalBuffer {
    /// The most intervals that this buffer keeps.
    pub closed spec fn limit(&self) -> nat {
        self.limit as nat
    }

    /// The TCP statistics that go with the intervals, oldest first.
    pub closed spec fn tcp(&self) -> Seq<TcpStats> {
        self.tcp@
    }

    /// A buffer keeps at least one interval, and never more than its limit. Each has its TCP
    /// statistics.
    pub open spec fn wf(&self) -> bool {
        &&& 0 < self.limit()
        &&& self@.len() <= self.limit()
        &&& self.tcp().len() == self@.len()
    }

    /// An empty buffer for as many intervals as are ever kept.
    pub fn new() -> (r: Self)
        ensures
            r.wf(),
            r@ == Seq::<IntervalStats>::empty(),
            r.limit() == MAX_INTERVALS,
    {
        Self::bounded(MAX_INTERVALS)
    }

    /// An empty buffer with room for some intervals from the start. It grows as needed.
    pub fn with_capacity(capacity: usize) -> (r: Self)
        ensures
            r.wf(),
            r@ == Seq::<IntervalStats>::empty(),
            r.limit() == MAX_INTERVALS,
    {
        let room: usize = if capacity < MAX_INTERVALS {
            capacity
        } else {
            MAX_INTERVALS
        };
        CircularIntervalBuffer {
            intervals: VecDeque::with_capacity(room),
            tcp: VecDeque::with_capacity(room),
            limit: MAX_INTERVALS,
        }
    }

    /// An empty buffer that keeps at most `limit` intervals.
    pub fn bounded(limit: usize) -> (r: Self)
        requires
            limit > 0,
        ensures
            r.wf(),
            r@ == Seq::<IntervalStats>::empty(),
            r.limit() == limit,
    {
        CircularIntervalBuffer { intervals: VecDeque::new(), tcp: VecDeque::new(), limit }
    }

    /// Adds an interval without TCP statistics. A full buffer drops its oldest interval.
    pub fn push_back(&mut self, item: IntervalStats)
        requires
            old(self).wf(),
        ensures
            final(self).wf(),
            final(self).limit() == old(self).limit(),
            final(self)@ == latest(old(self)@.push(item), old(self).limit()),
            final(self).tcp() == latest(old(self).tcp().push(no_stats()), old(self).limit()),
    {
        self.push_with(item, TcpStats::default());
    }

    /// Adds an interval with the TCP statistics of that time. A full buffer drops its oldest
    /// interval.
    pub fn push_with(&mut self, item: IntervalStats, stats: TcpStats)
        requires
            old(self).wf(),
        ensures
            final(self).wf(),
            final(self).limit() == old(self).limit(),
            final(self)@ == latest(old(self)@.push(item), old(self).limit()),
            final(self).tcp() == latest(old(self).tcp().push(stats), old(self).limit()),
    {
        let ghost before = self.intervals@;
        let ghost tcp_before = self.tcp@;
        if self.intervals.len() >= self.limit {
            self.intervals.pop_front();
            self.tcp.pop_front();
            assert(self.intervals@ =~= before.skip(1));
            assert(self.tcp@ =~= tcp_before.skip(1));
        }
        self.intervals.push_back(item);
        self.tcp.push_back(stats);
        assert(self.intervals@ =~= latest(before.push(item), self.limit as nat));
        assert(self.tcp@ =~= latest(tcp_before.push(stats), self.limit as nat));
    }

    /// The number of intervals in the buffer.
    pub fn len(&self) -> (r: usize)
        ensures
            r == self@.len(),
    {
        self.intervals.len()
    }

    /// True when the buffer holds no interval.
    pub fn is_empty(&self) -> (r: bool)
        ensures
            r == (self@.len() == 0),
    {
        self.intervals.len() == 0
    }

    /// The interval at a place, counted from the oldest.
    pub fn get(&self, at: usize) -> (r: Option<IntervalStats>)
        ensures
            r == if at < self@.len() {
                Some(self@[at as int])
            } else {
                None
            },
    {
        if at < self.intervals.len() {
            Some(self.intervals[at])
        } else {
            None
        }
    }

    /// All intervals, oldest first.
    pub fn iter(&self) -> (r: Vec<IntervalStats>)
        ensures
            r@ == self@,
    {
        let mut r: Vec<IntervalStats> = Vec::with_capacity(self.intervals.len());
        let mut i: usize = 0;
        while i < self.intervals.len()
            invariant
                i <= self.intervals@.len(),
                r@ == self.intervals@.take(i as int),
            decreases self.intervals@.len() - i,
        {
            r.push(self.intervals[i]);
            i = i + 1;
            assert(r@ =~= self.intervals@.take(i as int));
        }
        assert(r@ =~= self.intervals@);
        r
    }

    /// The TCP statistics that go with an interval, by its place counted from the oldest.
    pub fn tcp_at(&self, at: usize) -> (r: Option<TcpStats>)
        ensures
            r == if at < self.tcp().len() {
                Some(self.tcp()[at as int])
            } else {
                None
            },
    {
        if at < self.tcp.len() {
            Some(self.tcp[at])
        } else {
            None
        }
    }
}

impl Clone for CircularIntervalBuffer {
    fn clone(&self) -> (r: Self)
        ensures
            r@ == self@,
            r.tcp() == self.tcp(),
            r.limit() == self.limit(),
    {
        let mut intervals: VecDeque<IntervalStats> = VecDeque::with_capacity(self.intervals.len());
        let mut i: usize = 0;
        while i < self.intervals.len()
            invariant
                i <= self.intervals@.len(),
                intervals@ == self.intervals@.take(i as int),
            decreases self.intervals@.len() - i,
        {
            intervals.push_back(self.intervals[i]);
            i = i + 1;
            assert(intervals@ =~= self.intervals@.take(i as int));
        }
        assert(intervals@ =~= self.intervals@);
        let mut tcp: VecDeque<TcpStats> = VecDeque::with_capacity(self.tcp.len());
        let mut j: usize = 0;
        while j < self.tcp.len()
            invariant
                j <= self.tcp@.len(),
                tcp@ == self.tcp@.take(j as int),
            decreases self.tcp@.len() - j,
        {
            tcp.push_back(self.tcp[j]);
            j = j + 1;
            assert(tcp@ =~= self.tcp@.take(j as int));
        }
        assert(tcp@ =~= self.tcp@);
        CircularIntervalBuffer { intervals, tcp, limit: self.limit }
    }
}

/// What a buffer holds after all of `items` were added to it one by one.
pub open spec fn after_pushes(
    held: Seq<IntervalStats>,
    items: Seq<IntervalStats>,
    limit: nat,
) -> Seq<IntervalStats>
    decreases items.len(),
{
    if items.len() == 0 {
        held
    } else {
        latest(after_pushes(held, items.drop_last(), limit).push(items.last()), limit)
    }
}

/// Law: after any number of additions a buffer holds exactly the latest intervals, as many as
/// its limit allows, in the order in which they came.
pub proof fn law_keeps_latest(items: Seq<IntervalStats>, limit: nat)
    requires
        limit > 0,
    ensures
        after_pushes(Seq::empty(), items, limit) == latest(items, limit),
    decreases items.len(),
{
    if items.len() > 0 {
        law_keeps_latest(items.drop_last(), limit);
        let held = latest(items.drop_last(), limit);
        assert(latest(held.push(items.last()), limit) =~= latest(items, limit));
    } else {
        assert(latest(items, limit) =~= Seq::empty());
    }
}

/// Law: what is kept of a sequence is its end: as many items as there may be, and counted from the
/// end each is the one at the same place of the sequence. So the newest item is always kept, and
/// only the oldest ones are dropped.
pub proof fn law_the_end_is_kept<T>(items: Seq<T>, limit: nat, from_end: int)
    requires
        limit > 0,
    ensures
        latest(items, limit).len() == if items.len() < limit {
            items.len()
        } else {
            limit
        },
        1 <= from_end <= items.len() && from_end <= limit ==> latest(items, limit)[latest(
            items,
            limit,
        ).len() - from_end] == items[items.len() - from_end],
{
}

} // verus!
