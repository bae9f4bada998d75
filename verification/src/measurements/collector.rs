//! The collector that a running test records into.

use crate::measurements::intervals::{latest, IntervalStats};
use crate::measurements::streams::{
    counters_of, credit, distinct_streams, is_place, law_records_reach_their_stream, lemma_credit,
    lemma_place, lemma_place_exists, place, stats_for, sum_packets, sum_received, sum_sent,
    PerStreamMeasurements, StreamStats,
};
use crate::measurements::summary::{Measurements, MAX_STREAMS_AHEAD};
use crate::measurements::tcp_figures::{figures_after, no_figures, TcpFigures};
use crate::measurements::tcp_stats::{no_stats, TcpStats};
use crate::measurements::udp::{
    delay_change, loss, no_packets, observed, UdpPacketState,
};
use crate::number::Binary64;
use crate::time::Duration;
use vstd::prelude::*;

verus! {

/// Collector of a running test.
///
/// It counts bytes and packets, for each stream and in total, tracks UDP packets for jitter and
/// loss, and takes up the TCP statistics of the socket. The totals in `inner` follow the running counters only when they are synced; snapshots
/// and reports have the running counters.
#[derive(Debug)]
pub struct MeasurementsCollector {
    /// The measurements as of the last sync
    pub inner: Measurements,
    /// UDP packet tracking
    pub udp_state: UdpPacketState,
    /// Running counters of each stream, in the order in which the streams were met
    pub per_stream: Vec<PerStreamMeasurements>,
    /// Running count of bytes sent
    pub bytes_sent: u64,
    /// Running count of bytes received
    pub bytes_received: u64,
    /// Running count of packets
    pub packets: u64,
    /// What the TCP statistics of the socket show so far
    pub tcp: TcpFigures,
}

/// What recording traffic on a stream does: the stream's counters and the totals grow alike, and
/// nothing else changes.
pub open spec fn traffic_recorded(
    before: MeasurementsCollector,
    after: MeasurementsCollector,
    stream_id: usize,
    sent: u64,
    received: u64,
    packets: u64,
) -> bool {
    &&& after.bytes_sent == before.bytes_sent.wrapping_add(sent)
    &&& after.bytes_received == before.bytes_received.wrapping_add(received)
    &&& after.packets == before.packets.wrapping_add(packets)
    &&& after.per_stream@ == credit(before.per_stream@, stream_id, sent, received, packets)
    &&& after.inner == before.inner
    &&& after.udp_state == before.udp_state
    &&& after.tcp == before.tcp
}

/// What recording an interval does: it joins the latest ones, with the TCP statistics that go with
/// it, and nothing else changes.
pub open spec fn interval_recorded(
    before: MeasurementsCollector,
    after: MeasurementsCollector,
    interval: IntervalStats,
    stats: TcpStats,
) -> bool {
    &&& after.inner.intervals@ == latest(
        before.inner.intervals@.push(interval),
        before.inner.intervals.limit(),
    )
    &&& after.inner.intervals.tcp() == latest(
        before.inner.intervals.tcp().push(stats),
        before.inner.intervals.limit(),
    )
    &&& after.inner.intervals.limit() == before.inner.intervals.limit()
    &&& after.inner.streams == before.inner.streams
    &&& after.inner.same_totals(&before.inner)
    &&& after.same_counters(&before)
}

/// What recording a received packet does: it enters the UDP tracking, and the count of packets
/// out of order follows.
pub open spec fn packet_recorded(
    before: MeasurementsCollector,
    after: MeasurementsCollector,
    sequence: u64,
    sent_us: u64,
    received_us: u64,
) -> bool {
    let state = observed(before.udp_state@, sequence, sent_us, received_us);
    &&& after.udp_state@ == state
    &&& after.inner == (Measurements {
        out_of_order_packets: state.out_of_order,
        ..before.inner
    })
    &&& after.per_stream == before.per_stream
    &&& after.bytes_sent == before.bytes_sent
    &&& after.bytes_received == before.bytes_received
    &&& after.packets == before.packets
    &&& after.tcp == before.tcp
}

impl MeasurementsCollector {
    /// What holds of every collector: each stream has one set of counters, the counters of the
    /// streams sum up to the totals (both wrap around alike), and the UDP tracking and the TCP
    /// figures are sound.
    pub open spec fn wf(&self) -> bool {
        &&& distinct_streams(self.per_stream@)
        &&& sum_sent(self.per_stream@) % 0x1_0000_0000_0000_0000 == self.bytes_sent
        &&& sum_received(self.per_stream@) % 0x1_0000_0000_0000_0000 == self.bytes_received
        &&& sum_packets(self.per_stream@) % 0x1_0000_0000_0000_0000 == self.packets
        &&& self.udp_state.wf()
        &&& self.inner.out_of_order_packets == self.udp_state.out_of_order
        &&& self.inner.intervals.wf()
        &&& self.tcp.wf()
    }

    /// True when nothing is recorded.
    pub open spec fn is_blank(&self) -> bool {
        &&& self.inner.is_blank()
        &&& self.udp_state@ == no_packets()
        &&& self.per_stream@.len() == 0
        &&& self.bytes_sent == 0
        &&& self.bytes_received == 0
        &&& self.packets == 0
        &&& self.tcp == no_figures()
    }

    /// Creates a new measurements collector with no recorded data.
    pub fn new() -> (r: Self)
        ensures
            r.wf(),
            r.is_blank(),
    {
        MeasurementsCollector {
            inner: Measurements::new(),
            udp_state: UdpPacketState::default(),
            per_stream: Vec::new(),
            bytes_sent: 0,
            bytes_received: 0,
            packets: 0,
            tcp: TcpFigures::new(),
        }
    }

    /// Creates a new measurements collector with pre-allocated capacity.
    pub fn with_capacity(expected_streams: usize, expected_intervals: usize) -> (r: Self)
        ensures
            r.wf(),
            r.is_blank(),
    {
        let room: usize = if expected_streams < MAX_STREAMS_AHEAD {
            expected_streams
        } else {
            MAX_STREAMS_AHEAD
        };
        MeasurementsCollector {
            inner: Measurements::with_capacity(expected_streams, expected_intervals),
            udp_state: UdpPacketState::default(),
            per_stream: Vec::with_capacity(room),
            bytes_sent: 0,
            bytes_received: 0,
            packets: 0,
            tcp: TcpFigures::new(),
        }
    }

    /// The place of a stream's counters, or the number of streams when it has none.
    fn find_stream(&self, stream_id: usize) -> (at: usize)
        ensures
            at == place(self.per_stream@, stream_id),
            is_place(self.per_stream@, stream_id, at as int),
    {
        let mut at: usize = 0;
        while at < self.per_stream.len() && self.per_stream[at].stream_id != stream_id
            invariant
                at <= self.per_stream@.len(),
                forall|j: int| 0 <= j < at ==> self.per_stream@[j].stream_id != stream_id,
            decreases self.per_stream@.len() - at,
        {
            at = at + 1;
        }
        proof {
            lemma_place(self.per_stream@, stream_id, at as int);
        }
        at
    }

    /// Gets or creates the counters of a stream, and returns their place.
    pub fn get_or_create_stream(&mut self, stream_id: usize) -> (at: usize)
        requires
            old(self).wf(),
        ensures
            final(self).wf(),
            final(self).inner == old(self).inner,
            final(self).udp_state == old(self).udp_state,
            final(self).bytes_sent == old(self).bytes_sent,
            final(self).bytes_received == old(self).bytes_received,
            final(self).packets == old(self).packets,
            final(self).tcp == old(self).tcp,
            at == place(old(self).per_stream@, stream_id),
            at < old(self).per_stream@.len() ==> final(self).per_stream@ == old(self).per_stream@,
            at == old(self).per_stream@.len() ==> final(self).per_stream@ == credit(
                old(self).per_stream@,
                stream_id,
                0,
                0,
                0,
            ),
            is_place(final(self).per_stream@, stream_id, at as int),
            at < final(self).per_stream@.len(),
    {
        let at: usize = self.find_stream(stream_id);
        if at == self.per_stream.len() {
            proof {
                lemma_credit(self.per_stream@, stream_id, 0, 0, 0);
            }
            self.per_stream.push(PerStreamMeasurements::new(stream_id));
        }
        at
    }

    /// Adds to the counters of a stream, but not to the totals.
    fn credit_stream(&mut self, stream_id: usize, sent: u64, received: u64, packets: u64)
        ensures
            final(self).per_stream@ == credit(
                old(self).per_stream@,
                stream_id,
                sent,
                received,
                packets,
            ),
            final(self).inner == old(self).inner,
            final(self).udp_state == old(self).udp_state,
            final(self).bytes_sent == old(self).bytes_sent,
            final(self).bytes_received == old(self).bytes_received,
            final(self).packets == old(self).packets,
            final(self).tcp == old(self).tcp,
    {
        let at: usize = self.find_stream(stream_id);
        let mut counters: PerStreamMeasurements = if at < self.per_stream.len() {
            self.per_stream[at]
        } else {
            PerStreamMeasurements::new(stream_id)
        };
        counters.credit(sent, received, packets);
        if at < self.per_stream.len() {
            self.per_stream.set(at, counters);
        } else {
            self.per_stream.push(counters);
        }
    }

    /// Records bytes sent on a stream, in its own count and in the total.
    pub fn record_bytes_sent(&mut self, stream_id: usize, bytes: u64)
        requires
            old(self).wf(),
        ensures
            final(self).wf(),
            traffic_recorded(*old(self), *final(self), stream_id, bytes, 0, 0),
    {
        proof {
            lemma_credit(self.per_stream@, stream_id, bytes, 0, 0);
        }
        self.bytes_sent = self.bytes_sent.wrapping_add(bytes);
        self.credit_stream(stream_id, bytes, 0, 0);
    }

    /// Records bytes received on a stream, in its own count and in the total.
    pub fn record_bytes_received(&mut self, stream_id: usize, bytes: u64)
        requires
            old(self).wf(),
        ensures
            final(self).wf(),
            traffic_recorded(*old(self), *final(self), stream_id, 0, bytes, 0),
    {
        proof {
            lemma_credit(self.per_stream@, stream_id, 0, bytes, 0);
        }
        self.bytes_received = self.bytes_received.wrapping_add(bytes);
        self.credit_stream(stream_id, 0, bytes, 0);
    }

    /// Adds an interval measurement without TCP statistics.
    pub fn add_interval(&mut self, interval: IntervalStats)
        requires
            old(self).wf(),
        ensures
            final(self).wf(),
            interval_recorded(*old(self), *final(self), interval, no_stats()),
    {
        self.inner.add_interval(interval);
    }

    /// Adds an interval measurement with the TCP statistics of that time.
    pub fn add_tcp_interval(&mut self, interval: IntervalStats, stats: TcpStats)
        requires
            old(self).wf(),
        ensures
            final(self).wf(),
            interval_recorded(*old(self), *final(self), interval, stats),
    {
        self.inner.intervals.push_with(interval, stats);
    }

    /// Takes a reading of the socket's TCP statistics into account.
    pub fn record_tcp_stats(&mut self, stats: &TcpStats)
        requires
            old(self).wf(),
        ensures
            final(self).wf(),
            *final(self) == (MeasurementsCollector {
                tcp: figures_after(old(self).tcp, *stats),
                ..*old(self)
            }),
    {
        self.tcp.observe(stats);
    }

    /// True when two collectors differ at most in `inner`.
    pub open spec fn same_counters(&self, other: &MeasurementsCollector) -> bool {
        &&& self.udp_state == other.udp_state
        &&& self.per_stream == other.per_stream
        &&& self.bytes_sent == other.bytes_sent
        &&& self.bytes_received == other.bytes_received
        &&& self.packets == other.packets
        &&& self.tcp == other.tcp
    }

    /// Records that a UDP packet was sent.
    pub fn record_udp_packet(&mut self, stream_id: usize)
        requires
            old(self).wf(),
        ensures
            final(self).wf(),
            traffic_recorded(*old(self), *final(self), stream_id, 0, 0, 1),
    {
        proof {
            lemma_credit(self.per_stream@, stream_id, 0, 0, 1);
        }
        self.packets = self.packets.wrapping_add(1);
        self.credit_stream(stream_id, 0, 0, 1);
    }

    /// Records that some UDP packets were sent, with their bytes.
    pub fn record_udp_sent(&mut self, stream_id: usize, bytes: u64, packets: u64)
        requires
            old(self).wf(),
        ensures
            final(self).wf(),
            traffic_recorded(*old(self), *final(self), stream_id, bytes, 0, packets),
    {
        proof {
            lemma_credit(self.per_stream@, stream_id, bytes, 0, packets);
        }
        self.bytes_sent = self.bytes_sent.wrapping_add(bytes);
        self.packets = self.packets.wrapping_add(packets);
        self.credit_stream(stream_id, bytes, 0, packets);
    }

    /// Brings the totals in `inner` up to the running counters.
    ///
    /// This should be called periodically, for example during interval reporting.
    pub fn sync_atomic_counters(&mut self)
        requires
            old(self).wf(),
        ensures
            final(self).wf(),
            final(self).inner == (Measurements {
                total_bytes_sent: old(self).bytes_sent,
                total_bytes_received: old(self).bytes_received,
                total_packets: old(self).packets,
                ..old(self).inner
            }),
            final(self).same_counters(old(self)),
    {
        self.inner.total_bytes_sent = self.bytes_sent;
        self.inner.total_bytes_received = self.bytes_received;
        self.inner.total_packets = self.packets;
    }

    /// Records a received UDP packet with sequence number and timestamps.
    ///
    /// Tracks packet loss and out-of-order delivery. Returns how much the packet's transit time
    /// differs from that of the packet before it, in microseconds: the jitter estimate moves by a
    /// sixteenth of the way towards each such number.
    pub fn record_udp_packet_received(
        &mut self,
        sequence: u64,
        send_timestamp_us: u64,
        recv_timestamp_us: u64,
    ) -> (change: Option<u64>)
        requires
            old(self).wf(),
            sequence != u64::MAX ==> old(self).udp_state.received_count < u64::MAX,
        ensures
            final(self).wf(),
            packet_recorded(
                *old(self),
                *final(self),
                sequence,
                send_timestamp_us,
                recv_timestamp_us,
            ),
            change == delay_change(
                old(self).udp_state@,
                sequence,
                send_timestamp_us,
                recv_timestamp_us,
            ),
    {
        let change: Option<u64> = self.udp_state.observe(
            sequence,
            send_timestamp_us,
            recv_timestamp_us,
        );
        self.inner.out_of_order_packets = self.udp_state.out_of_order;
        change
    }

    /// Stores a jitter estimate, in microseconds for the next step and in milliseconds for the
    /// measurements.
    pub fn set_jitter(&mut self, estimate_us: Binary64, jitter_ms: Binary64)
        requires
            old(self).wf(),
        ensures
            final(self).wf(),
            final(self).udp_state == (UdpPacketState {
                jitter_us: estimate_us,
                ..old(self).udp_state
            }),
            final(self).inner == (Measurements { jitter_ms, ..old(self).inner }),
            final(self).per_stream == old(self).per_stream,
            final(self).bytes_sent == old(self).bytes_sent,
            final(self).bytes_received == old(self).bytes_received,
            final(self).packets == old(self).packets,
            final(self).tcp == old(self).tcp,
    {
        self.udp_state.jitter_us = estimate_us;
        self.inner.jitter_ms = jitter_ms;
    }

    /// Calculates UDP packet loss based on sequence numbers.
    ///
    /// Returns the packets that were not received and those that should have been.
    pub fn calculate_udp_loss(&self) -> (r: (u64, u64))
        requires
            self.wf(),
        ensures
            r == loss(self.udp_state@),
    {
        self.udp_state.loss()
    }

    /// Records UDP packet loss count.
    pub fn record_udp_loss(&mut self, lost: u64)
        requires
            old(self).wf(),
            old(self).inner.lost_packets + lost <= u64::MAX,
        ensures
            final(self).wf(),
            final(self).inner == (Measurements {
                lost_packets: (old(self).inner.lost_packets + lost) as u64,
                ..old(self).inner
            }),
            final(self).same_counters(old(self)),
    {
        self.inner.lost_packets = self.inner.lost_packets + lost;
    }

    /// Updates the jitter measurement: the first value is taken as it is, a later one enters
    /// through the moving average `smoothed`.
    pub fn update_jitter(&mut self, jitter: Binary64, smoothed: Binary64)
        requires
            old(self).wf(),
        ensures
            final(self).wf(),
            final(self).inner == (Measurements {
                jitter_ms: if old(self).inner.jitter_ms.is_zero_spec() {
                    jitter
                } else {
                    smoothed
                },
                ..old(self).inner
            }),
            final(self).same_counters(old(self)),
    {
        self.inner.jitter_ms = if self.inner.jitter_ms.is_zero() {
            jitter
        } else {
            smoothed
        };
    }

    /// Sets the total test duration.
    pub fn set_duration(&mut self, duration: Duration)
        requires
            old(self).wf(),
        ensures
            final(self).wf(),
            final(self).inner.streams@ == old(self).inner.streams@.map_values(
                |s: StreamStats| StreamStats { duration, ..s },
            ),
            final(self).inner.intervals == old(self).inner.intervals,
            final(self).inner.same_totals(
                &(Measurements { total_duration: duration, ..old(self).inner }),
            ),
            final(self).same_counters(old(self)),
    {
        self.inner.set_duration(duration);
    }

    /// Sets the test start time.
    pub fn set_start_time(&mut self, time: std::time::Instant)
        requires
            old(self).wf(),
        ensures
            final(self).wf(),
            final(self).inner == (Measurements { start_time: Some(time), ..old(self).inner }),
            final(self).same_counters(old(self)),
    {
        self.inner.set_start_time(time);
    }

    /// Returns a snapshot of the current measurements.
    ///
    /// The snapshot has the running counters of the test and of its streams. Once bytes were
    /// received, its packet counts are those of the UDP loss calculation.
    pub fn get(&self) -> (r: Measurements)
        requires
            self.wf(),
        ensures
            r.streams@ == self.per_stream@.map_values(
                |c: PerStreamMeasurements| stats_for(c, self.inner.total_duration),
            ),
            r.intervals@ == self.inner.intervals@,
            r.intervals.tcp() == self.inner.intervals.tcp(),
            r.intervals.limit() == self.inner.intervals.limit(),
            r.total_bytes_sent == self.bytes_sent,
            r.total_bytes_received == self.bytes_received,
            r.total_duration == self.inner.total_duration,
            r.total_packets == if self.bytes_received > 0 {
                loss(self.udp_state@).1
            } else {
                self.packets
            },
            r.lost_packets == if self.bytes_received > 0 {
                loss(self.udp_state@).0
            } else {
                self.inner.lost_packets
            },
            r.out_of_order_packets == self.inner.out_of_order_packets,
            r.jitter_ms == self.inner.jitter_ms,
            r.start_time == self.inner.start_time,
    {
        let mut m: Measurements = self.inner.clone();
        m.total_bytes_sent = self.bytes_sent;
        m.total_bytes_received = self.bytes_received;
        m.total_packets = self.packets;
        let ghost to_stats = |c: PerStreamMeasurements| stats_for(c, self.inner.total_duration);
        let mut streams: Vec<StreamStats> = Vec::with_capacity(self.per_stream.len());
        let mut i: usize = 0;
        while i < self.per_stream.len()
            invariant
                i <= self.per_stream@.len(),
                m.total_duration == self.inner.total_duration,
                to_stats == (|c: PerStreamMeasurements| stats_for(c, self.inner.total_duration)),
                streams@ == self.per_stream@.take(i as int).map_values(to_stats),
            decreases self.per_stream@.len() - i,
        {
            streams.push(self.per_stream[i].to_stream_stats(m.total_duration));
            i = i + 1;
            assert(streams@ =~= self.per_stream@.take(i as int).map_values(to_stats));
        }
        assert(self.per_stream@.take(i as int) =~= self.per_stream@);
        m.streams = streams;
        if m.total_bytes_received > 0 {
            let (lost, expected) = self.calculate_udp_loss();
            m.lost_packets = lost;
            m.total_packets = expected;
        }
        m
    }

    /// Gets statistics for a specific stream, or `None` when nothing was recorded on it.
    pub fn get_stream_stats(&self, stream_id: usize) -> (r: Option<StreamStats>)
        ensures
            r == if place(self.per_stream@, stream_id) < self.per_stream@.len() {
                Some(
                    stats_for(
                        self.per_stream@[place(self.per_stream@, stream_id)],
                        self.inner.total_duration,
                    ),
                )
            } else {
                None
            },
            r is Some <==> exists|i: int|
                0 <= i < self.per_stream@.len() && (#[trigger] self.per_stream@[i]).stream_id
                    == stream_id,
    {
        let at: usize = self.find_stream(stream_id);
        if at < self.per_stream.len() {
            assert(self.per_stream@[at as int].stream_id == stream_id);
            Some(self.per_stream[at].to_stream_stats(self.inner.total_duration))
        } else {
            None
        }
    }
}

impl Default for MeasurementsCollector {
    fn default() -> (r: Self)
        ensures
            r.wf(),
            r.is_blank(),
    {
        Self::new()
    }
}

/// Law: the totals are the sums over the streams, exactly as long as those sums fit the counters.
pub proof fn law_totals_are_sums(c: MeasurementsCollector)
    requires
        c.wf(),
    ensures
        sum_sent(c.per_stream@) <= u64::MAX ==> c.bytes_sent == sum_sent(c.per_stream@),
        sum_received(c.per_stream@) <= u64::MAX ==> c.bytes_received == sum_received(c.per_stream@),
        sum_packets(c.per_stream@) <= u64::MAX ==> c.packets == sum_packets(c.per_stream@),
{
}

/// Law: an interval that is recorded is the newest one that is held, with its TCP statistics beside
/// it. The ones before it keep their order, and only the oldest makes room when there is none.
pub proof fn law_interval_is_recorded(
    before: MeasurementsCollector,
    after: MeasurementsCollector,
    interval: IntervalStats,
    stats: TcpStats,
)
    requires
        before.wf(),
        interval_recorded(before, after, interval, stats),
    ensures
        ({
            let old_ones = before.inner.intervals@;
            let new_ones = after.inner.intervals@;
            &&& new_ones.len() > 0 && new_ones.last() == interval
            &&& after.inner.intervals.tcp().len() == new_ones.len()
            &&& after.inner.intervals.tcp().last() == stats
            &&& old_ones.len() < before.inner.intervals.limit() ==> new_ones.drop_last() == old_ones
            &&& old_ones.len() == before.inner.intervals.limit() ==> new_ones.drop_last()
                == old_ones.drop_first()
        }),
        after.bytes_sent == before.bytes_sent && after.bytes_received == before.bytes_received,
        after.packets == before.packets && after.per_stream == before.per_stream,
        after.inner.total_duration == before.inner.total_duration,
        after.inner.jitter_ms == before.inner.jitter_ms,
        after.inner.lost_packets == before.inner.lost_packets,
{
    let old_ones = before.inner.intervals@;
    let new_ones = after.inner.intervals@;
    if old_ones.len() < before.inner.intervals.limit() {
        assert(new_ones.drop_last() =~= old_ones);
    } else {
        assert(new_ones.drop_last() =~= old_ones.drop_first());
    }
}

/// Law: recorded traffic is added to the totals and to its stream alone, as long as the counters can
/// hold it, and changes nothing else.
pub proof fn law_traffic_is_recorded(
    before: MeasurementsCollector,
    after: MeasurementsCollector,
    stream_id: usize,
    sent: u64,
    received: u64,
    packets: u64,
    other: usize,
)
    requires
        traffic_recorded(before, after, stream_id, sent, received, packets),
        before.bytes_sent + sent <= u64::MAX,
        before.bytes_received + received <= u64::MAX,
        before.packets + packets <= u64::MAX,
        counters_of(before.per_stream@, stream_id).bytes_sent + sent <= u64::MAX,
        counters_of(before.per_stream@, stream_id).bytes_received + received <= u64::MAX,
        counters_of(before.per_stream@, stream_id).packets + packets <= u64::MAX,
    ensures
        after.bytes_sent - before.bytes_sent == sent,
        after.bytes_received - before.bytes_received == received,
        after.packets - before.packets == packets,
        ({
            let was = counters_of(before.per_stream@, stream_id);
            let is = counters_of(after.per_stream@, stream_id);
            &&& is.bytes_sent - was.bytes_sent == sent
            &&& is.bytes_received - was.bytes_received == received
            &&& is.packets - was.packets == packets
        }),
        other != stream_id ==> counters_of(after.per_stream@, other) == counters_of(
            before.per_stream@,
            other,
        ),
        after.udp_state == before.udp_state && after.inner == before.inner,
{
    law_records_reach_their_stream(before.per_stream@, stream_id, sent, received, packets);
    let s = before.per_stream@;
    let t = after.per_stream@;
    if other != stream_id {
        lemma_place_exists(s, stream_id);
        lemma_place_exists(s, other);
        let at = place(s, other);
        if at < s.len() {
            assert(is_place(t, other, at));
            lemma_place(t, other, at);
        } else {
            assert(is_place(t, other, t.len() as int));
            lemma_place(t, other, t.len() as int);
        }
    }
}

/// Law: a received packet has no other effect than on what is tracked of packets, and the count of
/// packets out of order that is reported follows it.
pub proof fn law_packet_is_recorded(
    before: MeasurementsCollector,
    after: MeasurementsCollector,
    sequence: u64,
    sent_us: u64,
    received_us: u64,
)
    requires
        packet_recorded(before, after, sequence, sent_us, received_us),
        before.udp_state.out_of_order < u64::MAX,
    ensures
        after.inner.out_of_order_packets == after.udp_state.out_of_order,
        sequence != u64::MAX ==> {
            &&& after.udp_state.last_sequence == Some(sequence)
            &&& after.udp_state.seen@.contains(sequence as int)
            &&& after.udp_state.last_arrival_us == Some(received_us)
            &&& after.udp_state.last_send_timestamp_us == Some(sent_us)
            &&& after.udp_state.out_of_order - before.udp_state.out_of_order == (
            if before.udp_state.last_sequence is Some && sequence
                < before.udp_state.last_sequence->0 {
                1int
            } else {
                0
            })
        },
        forall|n: int|
            n != sequence ==> (#[trigger] after.udp_state.seen@.contains(n)
                <==> before.udp_state.seen@.contains(n)),
        after.bytes_sent == before.bytes_sent && after.bytes_received == before.bytes_received,
        after.packets == before.packets && after.per_stream == before.per_stream,
        after.inner.total_duration == before.inner.total_duration,
        after.inner.intervals == before.inner.intervals,
{
    assert(after.udp_state@ == observed(before.udp_state@, sequence, sent_us, received_us));
    assert(after.udp_state@.out_of_order == after.udp_state.out_of_order);
    assert(after.udp_state@.seen == after.udp_state.seen@);
    assert(after.udp_state@.last_sequence == after.udp_state.last_sequence);
    assert(after.udp_state@.last_arrival_us == after.udp_state.last_arrival_us);
    assert(after.udp_state@.last_send_timestamp_us == after.udp_state.last_send_timestamp_us);
}

} // verus!
