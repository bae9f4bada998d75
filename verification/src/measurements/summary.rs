//! The measurements of a whole test.

use crate::measurements::intervals::{latest, CircularIntervalBuffer, IntervalStats, MAX_INTERVALS};
use crate::measurements::streams::StreamStats;
use crate::measurements::tcp_stats::no_stats;
use crate::number::{rate_of, Binary64, BitRate};
use crate::time::Duration;
use vstd::prelude::*;

verus! {

/// The most streams that room is made for ahead of time.
pub const MAX_STREAMS_AHEAD: usize = 1024;

/// Performance test measurements and statistics.
///
/// This structure holds all collected statistics from a network performance test,
/// including per-stream data, interval statistics, aggregate totals, and UDP-specific
/// metrics like packet loss and jitter.
///
/// # UDP metrics
///
/// For UDP tests, additional metrics are tracked:
/// - `total_packets`: Number of packets sent or expected based on sequence numbers
/// - `lost_packets`: Number of packets lost (receiver-side measurement)
/// - `out_of_order_packets`: Packets received out of sequence
/// - `jitter_ms`: Network jitter in milliseconds
#[derive(Debug)]
pub struct Measurements {
    /// Statistics of the single streams
    pub streams: Vec<StreamStats>,
    /// The latest intervals
    pub intervals: CircularIntervalBuffer,
    /// Bytes sent on all streams
    pub total_bytes_sent: u64,
    /// Bytes received on all streams
    pub total_bytes_received: u64,
    /// Duration of the test
    pub total_duration: Duration,
    /// Packets sent or expected
    pub total_packets: u64,
    /// Packets lost
    pub lost_packets: u64,
    /// Packets received out of sequence
    pub out_of_order_packets: u64,
    /// Jitter in milliseconds
    pub jitter_ms: Binary64,
    /// When the test began
    pub start_time: Option<std::time::Instant>,
}

impl Measurements {
    /// True when nothing is recorded.
    pub open spec fn is_blank(&self) -> bool {
        &&& self.streams@.len() == 0
        &&& self.intervals@.len() == 0
        &&& self.intervals.wf()
        &&& self.intervals.limit() == MAX_INTERVALS
        &&& self.total_bytes_sent == 0
        &&& self.total_bytes_received == 0
        &&& self.total_duration@ == 0
        &&& self.total_packets == 0
        &&& self.lost_packets == 0
        &&& self.out_of_order_packets == 0
        &&& self.jitter_ms.bits == 0
        &&& self.start_time is None
    }

    /// True when two measurements differ at most in their intervals and streams.
    pub open spec fn same_totals(&self, other: &Measurements) -> bool {
        &&& self.total_bytes_sent == other.total_bytes_sent
        &&& self.total_bytes_received == other.total_bytes_received
        &&& self.total_duration == other.total_duration
        &&& self.total_packets == other.total_packets
        &&& self.lost_packets == other.lost_packets
        &&& self.out_of_order_packets == other.out_of_order_packets
        &&& self.jitter_ms == other.jitter_ms
        &&& self.start_time == other.start_time
    }

    /// Creates a new empty measurements collection.
    pub fn new() -> (r: Self)
        ensures
            r.is_blank(),
    {
        Measurements {
            streams: Vec::new(),
            intervals: CircularIntervalBuffer::new(),
            total_bytes_sent: 0,
            total_bytes_received: 0,
            total_duration: Duration::zero(),
            total_packets: 0,
            lost_packets: 0,
            out_of_order_packets: 0,
            jitter_ms: Binary64::zero(),
            start_time: None,
        }
    }

    /// Creates a new measurements collection with pre-allocated capacity.
    ///
    /// Pre-allocating capacity reduces memory allocations during test execution.
    /// Use this when you know the expected number of streams and intervals.
    pub fn with_capacity(expected_streams: usize, expected_intervals: usize) -> (r: Self)
        ensures
            r.is_blank(),
    {
        let room: usize = if expected_streams < MAX_STREAMS_AHEAD {
            expected_streams
        } else {
            MAX_STREAMS_AHEAD
        };
        Measurements {
            streams: Vec::with_capacity(room),
            intervals: CircularIntervalBuffer::with_capacity(expected_intervals),
            total_bytes_sent: 0,
            total_bytes_received: 0,
            total_duration: Duration::zero(),
            total_packets: 0,
            lost_packets: 0,
            out_of_order_packets: 0,
            jitter_ms: Binary64::zero(),
            start_time: None,
        }
    }

    /// The average throughput, based on both bytes sent and received, so that it accounts for
    /// both normal and reverse mode tests. It is zero when the duration is zero.
    pub fn total_bits_per_second(&self) -> (r: BitRate)
        requires
            self.total_duration@ > 0 ==> self.total_bytes_sent + self.total_bytes_received
                <= u64::MAX,
        ensures
            r == rate_of(
                (self.total_bytes_sent + self.total_bytes_received) as u64,
                self.total_duration,
            ),
    {
        if self.total_duration.is_zero() {
            BitRate::of(0, self.total_duration)
        } else {
            BitRate::of(self.total_bytes_sent + self.total_bytes_received, self.total_duration)
        }
    }

    /// Adds the statistics of a stream, and its bytes to the totals.
    pub fn add_stream(&mut self, stats: StreamStats)
        requires
            old(self).total_bytes_sent + stats.bytes_sent <= u64::MAX,
            old(self).total_bytes_received + stats.bytes_received <= u64::MAX,
        ensures
            final(self).streams@ == old(self).streams@.push(stats),
            final(self).intervals == old(self).intervals,
            final(self).same_totals(
                &(Measurements {
                    total_bytes_sent: (old(self).total_bytes_sent + stats.bytes_sent) as u64,
                    total_bytes_received: (old(self).total_bytes_received
                        + stats.bytes_received) as u64,
                    ..*old(self)
                }),
            ),
    {
        self.total_bytes_sent = self.total_bytes_sent + stats.bytes_sent;
        self.total_bytes_received = self.total_bytes_received + stats.bytes_received;
        self.streams.push(stats);
    }

    /// Adds an interval; the oldest one makes room when there are too many.
    pub fn add_interval(&mut self, interval: IntervalStats)
        requires
            old(self).intervals.wf(),
        ensures
            final(self).intervals.wf(),
            final(self).intervals.limit() == old(self).intervals.limit(),
            final(self).intervals@ == latest(
                old(self).intervals@.push(interval),
                old(self).intervals.limit(),
            ),
            final(self).intervals.tcp() == latest(
                old(self).intervals.tcp().push(no_stats()),
                old(self).intervals.limit(),
            ),
            final(self).streams == old(self).streams,
            final(self).same_totals(old(self)),
    {
        self.intervals.push_back(interval);
    }

    /// Sets the duration of the test and of all its streams.
    pub fn set_duration(&mut self, duration: Duration)
        ensures
            final(self).streams@ == old(self).streams@.map_values(
                |s: StreamStats| StreamStats { duration, ..s },
            ),
            final(self).intervals == old(self).intervals,
            final(self).same_totals(&(Measurements { total_duration: duration, ..*old(self) })),
    {
        self.total_duration = duration;
        let ghost before = self.streams@;
        let ghost with_duration = |s: StreamStats| StreamStats { duration, ..s };
        let mut i: usize = 0;
        while i < self.streams.len()
            invariant
                i <= self.streams@.len(),
                self.streams@.len() == before.len(),
                before == old(self).streams@,
                with_duration == (|s: StreamStats| StreamStats { duration, ..s }),
                forall|j: int| 0 <= j < i ==> self.streams@[j] == with_duration(before[j]),
                forall|j: int| i <= j < before.len() ==> self.streams@[j] == before[j],
                self.intervals == old(self).intervals,
                self.same_totals(&(Measurements { total_duration: duration, ..*old(self) })),
            decreases self.streams@.len() - i,
        {
            let mut stream: StreamStats = self.streams[i];
            stream.duration = duration;
            self.streams.set(i, stream);
            i = i + 1;
        }
        assert(self.streams@ =~= before.map_values(with_duration));
    }

    /// Sets the moment at which the test began.
    pub fn set_start_time(&mut self, time: std::time::Instant)
        ensures
            *final(self) == (Measurements { start_time: Some(time), ..*old(self) }),
    {
        self.start_time = Some(time);
    }

    /// The lost packets and the expected ones, as they were recorded.
    pub fn calculate_udp_loss(&self) -> (r: (u64, u64))
        ensures
            r == (self.lost_packets, self.total_packets),
    {
        (self.lost_packets, self.total_packets)
    }
}

impl Default for Measurements {
    fn default() -> (r: Self)
        ensures
            r.is_blank(),
    {
        Self::new()
    }
}

impl Clone for Measurements {
    fn clone(&self) -> (r: Self)
        ensures
            r.streams@ == self.streams@,
            r.intervals@ == self.intervals@,
            r.intervals.tcp() == self.intervals.tcp(),
            r.intervals.limit() == self.intervals.limit(),
            r.same_totals(self),
    {
        let mut streams: Vec<StreamStats> = Vec::with_capacity(self.streams.len());
        let mut i: usize = 0;
        while i < self.streams.len()
            invariant
                i <= self.streams@.len(),
                streams@ == self.streams@.take(i as int),
            decreases self.streams@.len() - i,
        {
            streams.push(self.streams[i]);
            i = i + 1;
            assert(streams@ =~= self.streams@.take(i as int));
        }
        assert(streams@ =~= self.streams@);
        Measurements {
            streams,
            intervals: self.intervals.clone(),
            total_bytes_sent: self.total_bytes_sent,
            total_bytes_received: self.total_bytes_received,
            total_duration: self.total_duration,
            total_packets: self.total_packets,
            lost_packets: self.lost_packets,
            out_of_order_packets: self.out_of_order_packets,
            jitter_ms: self.jitter_ms,
            start_time: self.start_time,
        }
    }
}

} // verus!
