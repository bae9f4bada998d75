//! The loop of a transfer: when it ends, what it counts and what it reports.
//!
//! The loop itself waits on sockets and clocks. It asks here what to do next, and hands in what
//! was transferred and how much time has passed.

use crate::measurements::collector::{
    interval_recorded, packet_recorded, traffic_recorded, MeasurementsCollector,
};
use crate::measurements::intervals::IntervalStats;
use crate::measurements::tcp_figures::figures_with;
use crate::measurements::tcp_stats::{no_stats, optional, TcpStats, TCP_SND_CWND_PRESENT};
use crate::measurements::udp::{delay_change, loss};
use crate::number::{share_of, Binary64, BitRate, Percent};
use crate::time::Duration;
use crate::udp_packet::{parse_packet, parsed_header};
use vstd::prelude::*;

verus! {

/// What is reported of an interval.
#[derive(Debug, Clone, Copy, PartialEq, Eq)]
pub struct IntervalReport {
    /// Stream identifier
    pub stream_id: usize,
    /// Start of the interval, counted from the start of the test
    pub interval_start: Duration,
    /// End of the interval, counted from the start of the test
    pub interval_end: Duration,
    /// Bytes transferred
    pub bytes: u64,
    /// Throughput
    pub bits_per_second: BitRate,
    /// Packets, where they are counted
    pub packets: Option<u64>,
    /// Jitter in milliseconds, where it is measured
    pub jitter_ms: Option<Binary64>,
    /// Packets lost so far, where they are counted
    pub lost_packets: Option<u64>,
    /// Share of the packets lost so far, where they are counted
    pub lost_percent: Option<Percent>,
    /// Segments sent again in the interval, if there were any
    pub retransmits: Option<u64>,
    /// Congestion window in kilobytes, where it is known
    pub cwnd: Option<u64>,
}

/// What a transfer loop does next.
#[derive(Debug, Clone, Copy, PartialEq, Eq, Structural)]
pub enum Step {
    /// Transfer some data
    Transfer,
    /// Stop: the user cancelled the test
    Cancelled,
    /// Stop: the test is over
    TimeUp,
}

/// What came of a wait for data.
#[derive(Debug, Clone, Copy, PartialEq, Eq, Structural)]
pub enum Arrived {
    /// Some bytes, or none when the other side closed the connection
    Bytes(u64),
    /// Nothing in time
    Timeout,
    /// An error
    Failed,
}

/// What a loop does with what came of a wait.
#[derive(Debug, Clone, Copy, PartialEq, Eq, Structural)]
pub enum Reaction {
    /// Take the bytes into account
    Take(u64),
    /// Wait again
    Again,
    /// Stop
    Stop,
}

/// What a report of a UDP interval says besides bytes and packets.
#[derive(Debug, Clone, Copy, PartialEq, Eq, Structural)]
pub enum UdpReport {
    /// Jitter and loss as they stand
    Full,
    /// Nothing: a sender measures neither
    SentOnly,
    /// Jitter and loss as far as there is any
    Present,
}

/// Who receives UDP packets.
#[derive(Debug, Clone, Copy, PartialEq, Eq, Structural)]
pub enum UdpReceiver {
    /// A client, which counts every packet
    Client,
    /// A server, which leaves foreign packets out and never waits beyond the end of the test
    Server,
}

/// The state of a transfer loop.
#[derive(Debug, Clone, Copy, PartialEq, Eq, Structural)]
pub struct TransferLoop {
    /// How long the transfer takes
    pub limit: Duration,
    /// How often it is reported
    pub period: Duration,
    /// Bytes since the last report
    pub interval_bytes: u64,
    /// Packets since the last report
    pub interval_packets: u64,
    /// Segments sent again up to the last report
    pub last_retransmits: u64,
}

/// Where an interval starts that ends `elapsed` after the start of the test.
pub open spec fn start_of(elapsed: Duration, length: Duration) -> Duration {
    if elapsed@ > length@ {
        Duration { nanos: (elapsed@ - length@) as u128 }
    } else {
        Duration { nanos: 0 }
    }
}

/// The measurement of an interval.
pub open spec fn interval_of(
    elapsed: Duration,
    length: Duration,
    bytes: u64,
    packets: u64,
) -> IntervalStats {
    IntervalStats {
        start: start_of(elapsed, length),
        end: elapsed,
        bytes,
        bits_per_second: BitRate { bytes, over: length },
        packets,
    }
}

/// A report of an interval that says nothing but its bytes.
pub open spec fn plain_report(
    stream_id: usize,
    elapsed: Duration,
    length: Duration,
    bytes: u64,
) -> IntervalReport {
    IntervalReport {
        stream_id,
        interval_start: start_of(elapsed, length),
        interval_end: elapsed,
        bytes,
        bits_per_second: BitRate { bytes, over: length },
        packets: None,
        jitter_ms: None,
        lost_packets: None,
        lost_percent: None,
        retransmits: None,
        cwnd: None,
    }
}

/// A count, unless it is zero.
pub open spec fn unless_zero(n: u64) -> Option<u64> {
    if n > 0 {
        Some(n)
    } else {
        None
    }
}

/// The segments sent again up to now, by the statistics of the socket if there are any.
pub open spec fn retransmits_of(stats: Option<TcpStats>) -> u64 {
    match stats {
        Some(s) => s.retransmits,
        None => 0,
    }
}

/// The congestion window in kilobytes, if the statistics of the socket tell it.
pub open spec fn window_of(stats: Option<TcpStats>) -> Option<u64> {
    match stats {
        Some(s) => match optional(s.flags, TCP_SND_CWND_PRESENT, s.snd_cwnd) {
            Some(bytes) => Some((bytes / 1024) as u64),
            None => None,
        },
        None => None,
    }
}

/// The TCP statistics of an interval: those of the socket at its end, with the segments sent again
/// in that interval alone.
pub open spec fn stats_of_interval(stats: Option<TcpStats>, last_retransmits: u64) -> TcpStats {
    match stats {
        Some(s) => TcpStats {
            retransmits: s.retransmits.saturating_sub(last_retransmits),
            ..s
        },
        None => no_stats(),
    }
}

/// The lost packets that a snapshot of the collector shows.
pub open spec fn shown_lost(c: MeasurementsCollector) -> u64 {
    if c.bytes_received > 0 {
        loss(c.udp_state@).0
    } else {
        c.inner.lost_packets
    }
}

/// The packets that a snapshot of the collector shows.
pub open spec fn shown_packets(c: MeasurementsCollector) -> u64 {
    if c.bytes_received > 0 {
        loss(c.udp_state@).1
    } else {
        c.packets
    }
}

/// A report of a UDP interval.
pub open spec fn udp_report(
    report: IntervalReport,
    c: MeasurementsCollector,
    packets: u64,
    kind: UdpReport,
) -> IntervalReport {
    match kind {
        UdpReport::Full => IntervalReport {
            packets: Some(packets),
            jitter_ms: Some(c.inner.jitter_ms),
            lost_packets: Some(loss(c.udp_state@).0),
            lost_percent: Some(share_of(loss(c.udp_state@).0, loss(c.udp_state@).1)),
            ..report
        },
        UdpReport::SentOnly => IntervalReport { packets: Some(packets), ..report },
        UdpReport::Present => IntervalReport {
            packets: Some(packets),
            jitter_ms: if c.inner.jitter_ms.is_positive_spec() {
                Some(c.inner.jitter_ms)
            } else {
                None
            },
            lost_packets: unless_zero(shown_lost(c)),
            lost_percent: if shown_packets(c) > 0 && shown_lost(c) > 0 {
                Some(share_of(shown_lost(c), shown_packets(c)))
            } else {
                None
            },
            ..report
        },
    }
}

/// How long a loop waits for data before it looks at the clock again: a tenth of a second.
pub fn poll_time() -> (r: Duration)
    ensures
        r@ == 100_000_000,
{
    Duration::from_millis(100)
}

/// How long a loop waits for data that must not wait beyond the end of the test.
pub fn remaining_poll_time(limit: Duration, elapsed: Duration) -> (r: Duration)
    ensures
        r@ == if elapsed@ >= limit@ {
            0
        } else if limit@ - elapsed@ < 100_000_000 {
            limit@ - elapsed@
        } else {
            100_000_000
        },
        elapsed@ <= limit@ ==> elapsed@ + r@ <= limit@,
        elapsed@ < limit@ ==> r@ > 0,
{
    limit.saturating_sub(&elapsed).min_with(&Duration::from_millis(100))
}

impl UdpReceiver {
    /// How long it waits for a packet, `elapsed` after the start.
    pub fn wait(&self, limit: Duration, elapsed: Duration) -> (r: Duration)
        ensures
            *self == UdpReceiver::Client ==> r@ == 100_000_000,
            *self == UdpReceiver::Server ==> r@ == if elapsed@ >= limit@ {
                0
            } else if limit@ - elapsed@ < 100_000_000 {
                limit@ - elapsed@
            } else {
                100_000_000
            },
    {
        match self {
            UdpReceiver::Client => poll_time(),
            UdpReceiver::Server => remaining_poll_time(limit, elapsed),
        }
    }

    /// True when it counts packets that are not of this tool.
    pub fn counts_foreign(&self) -> (r: bool)
        ensures
            r == (*self == UdpReceiver::Client),
    {
        match self {
            UdpReceiver::Client => true,
            UdpReceiver::Server => false,
        }
    }

    /// What its reports say.
    pub fn report_kind(&self) -> (r: UdpReport)
        ensures
            r == match *self {
                UdpReceiver::Client => UdpReport::Full,
                UdpReceiver::Server => UdpReport::Present,
            },
    {
        match self {
            UdpReceiver::Client => UdpReport::Full,
            UdpReceiver::Server => UdpReport::Present,
        }
    }
}

/// The payload of a packet that fills a buffer together with its header, or a kilobyte when the
/// buffer is too small for that.
pub fn payload_size(buffer_size: usize) -> (r: usize)
    ensures
        r == if buffer_size > 20 {
            buffer_size - 20
        } else {
            1024
        },
        r > 0,
        buffer_size > 20 ==> r + 20 == buffer_size,
{
    if buffer_size > 20 {
        buffer_size - 20
    } else {
        1024
    }
}

impl TransferLoop {
    /// The state at the start of a transfer.
    pub fn new(limit: Duration, period: Duration) -> (r: Self)
        ensures
            r == (TransferLoop {
                limit,
                period,
                interval_bytes: 0,
                interval_packets: 0,
                last_retransmits: 0,
            }),
    {
        TransferLoop { limit, period, interval_bytes: 0, interval_packets: 0, last_retransmits: 0 }
    }

    /// What to do `elapsed` after the start.
    pub fn next_step(&self, elapsed: Duration, cancelled: bool) -> (r: Step)
        ensures
            r == if elapsed@ >= self.limit@ {
                Step::TimeUp
            } else if cancelled {
                Step::Cancelled
            } else {
                Step::Transfer
            },
            r == Step::Transfer <==> elapsed@ < self.limit@ && !cancelled,
    {
        if !elapsed.shorter_than(&self.limit) {
            Step::TimeUp
        } else if cancelled {
            Step::Cancelled
        } else {
            Step::Transfer
        }
    }

    /// What to do with what came of a wait for data on a TCP connection.
    pub fn on_arrival(&self, arrived: Arrived) -> (r: Reaction)
        ensures
            r == match arrived {
                Arrived::Bytes(n) => if n == 0 {
                    Reaction::Stop
                } else {
                    Reaction::Take(n)
                },
                Arrived::Timeout => Reaction::Again,
                Arrived::Failed => Reaction::Stop,
            },
    {
        match arrived {
            Arrived::Bytes(n) => if n == 0 {
                Reaction::Stop
            } else {
                Reaction::Take(n)
            },
            Arrived::Timeout => Reaction::Again,
            Arrived::Failed => Reaction::Stop,
        }
    }

    /// What to do with what came of a wait for a datagram. An empty datagram counts like any
    /// other.
    pub fn on_datagram(&self, arrived: Arrived) -> (r: Reaction)
        ensures
            r == match arrived {
                Arrived::Bytes(n) => Reaction::Take(n),
                Arrived::Timeout => Reaction::Again,
                Arrived::Failed => Reaction::Stop,
            },
    {
        match arrived {
            Arrived::Bytes(n) => Reaction::Take(n),
            Arrived::Timeout => Reaction::Again,
            Arrived::Failed => Reaction::Stop,
        }
    }

    /// The state with some bytes and packets more.
    pub open spec fn with_traffic(self, bytes: u64, packets: u64) -> TransferLoop {
        TransferLoop {
            interval_bytes: (self.interval_bytes + bytes) as u64,
            interval_packets: (self.interval_packets + packets) as u64,
            ..self
        }
    }

    /// True when some bytes and packets more can still be counted.
    pub open spec fn has_room(self, bytes: u64, packets: u64) -> bool {
        &&& self.interval_bytes + bytes <= u64::MAX
        &&& self.interval_packets + packets <= u64::MAX
    }

    /// True when some bytes and packets more can still be counted.
    pub fn can_count(&self, bytes: u64, packets: u64) -> (r: bool)
        ensures
            r == self.has_room(bytes, packets),
    {
        bytes <= u64::MAX - self.interval_bytes && packets <= u64::MAX - self.interval_packets
    }

    /// True when a report is due, `since_last` after the last one.
    pub fn report_due(&self, since_last: Duration) -> (r: bool)
        ensures
            r == (since_last@ >= self.period@),
    {
        !since_last.shorter_than(&self.period)
    }

    /// Counts bytes that were sent on a TCP connection.
    pub fn tcp_sent(&mut self, c: &mut MeasurementsCollector, stream_id: usize, bytes: u64)
        requires
            old(c).wf(),
            old(self).has_room(bytes, 0),
        ensures
            final(c).wf(),
            traffic_recorded(*old(c), *final(c), stream_id, bytes, 0, 0),
            *final(self) == old(self).with_traffic(bytes, 0),
    {
        c.record_bytes_sent(stream_id, bytes);
        self.interval_bytes = self.interval_bytes + bytes;
    }

    /// Counts bytes that were received on a TCP connection.
    pub fn tcp_received(&mut self, c: &mut MeasurementsCollector, stream_id: usize, bytes: u64)
        requires
            old(c).wf(),
            old(self).has_room(bytes, 0),
        ensures
            final(c).wf(),
            traffic_recorded(*old(c), *final(c), stream_id, 0, bytes, 0),
            *final(self) == old(self).with_traffic(bytes, 0),
    {
        c.record_bytes_received(stream_id, bytes);
        self.interval_bytes = self.interval_bytes + bytes;
    }

    /// Counts UDP packets that were sent.
    pub fn udp_sent(
        &mut self,
        c: &mut MeasurementsCollector,
        stream_id: usize,
        bytes: u64,
        packets: u64,
    )
        requires
            old(c).wf(),
            old(self).has_room(bytes, packets),
        ensures
            final(c).wf(),
            traffic_recorded(*old(c), *final(c), stream_id, bytes, 0, packets),
            *final(self) == old(self).with_traffic(bytes, packets),
    {
        c.record_udp_sent(stream_id, bytes, packets);
        self.interval_bytes = self.interval_bytes + bytes;
        self.interval_packets = self.interval_packets + packets;
    }

    /// Counts a UDP packet that was received at a given time. A packet of this tool enters the
    /// loss and jitter tracking; any other one only counts when `count_foreign` says so. Returns
    /// the change of delay that the jitter estimate takes up.
    pub fn udp_received(
        &mut self,
        c: &mut MeasurementsCollector,
        stream_id: usize,
        packet: &[u8],
        received_us: u64,
        count_foreign: bool,
    ) -> (change: Option<u64>)
        requires
            old(c).wf(),
            old(c).udp_state.received_count < u64::MAX,
            packet@.len() <= u64::MAX,
            old(self).has_room(packet@.len() as u64, 1),
        ensures
            final(c).wf(),
            match parsed_header(packet@) {
                Some(header) => {
                    &&& change == delay_change(
                        old(c).udp_state@,
                        header.sequence as u64,
                        header.timestamp_us,
                        received_us,
                    )
                    &&& exists|mid: MeasurementsCollector|
                        #![trigger packet_recorded(*old(c), mid, header.sequence as u64,
                            header.timestamp_us, received_us)]
                        packet_recorded(
                            *old(c),
                            mid,
                            header.sequence as u64,
                            header.timestamp_us,
                            received_us,
                        ) && traffic_recorded(
                            mid,
                            *final(c),
                            stream_id,
                            0,
                            packet@.len() as u64,
                            0,
                        )
                    &&& *final(self) == old(self).with_traffic(packet@.len() as u64, 1)
                },
                None => {
                    &&& change is None
                    &&& count_foreign ==> traffic_recorded(
                        *old(c),
                        *final(c),
                        stream_id,
                        0,
                        packet@.len() as u64,
                        0,
                    ) && *final(self) == old(self).with_traffic(packet@.len() as u64, 1)
                    &&& !count_foreign ==> *final(c) == *old(c) && *final(self) == *old(self)
                },
            },
    {
        let bytes: u64 = packet.len() as u64;
        let (change, counts): (Option<u64>, bool) = match parse_packet(packet) {
            Some((header, _)) => (
                c.record_udp_packet_received(
                    header.sequence as u64,
                    header.timestamp_us,
                    received_us,
                ),
                true,
            ),
            None => (None, count_foreign),
        };
        if counts {
            c.record_bytes_received(stream_id, bytes);
            self.interval_bytes = self.interval_bytes + bytes;
            self.interval_packets = self.interval_packets + 1;
        }
        change
    }

    /// Closes an interval of a TCP transfer: records it, with what the socket tells of it, and says
    /// what to report. A sender also reports its congestion window.
    pub fn close_tcp_interval(
        &mut self,
        c: &mut MeasurementsCollector,
        stream_id: usize,
        elapsed: Duration,
        length: Duration,
        stats: Option<TcpStats>,
        sending: bool,
    ) -> (report: IntervalReport)
        requires
            old(c).wf(),
        ensures
            final(c).wf(),
            interval_recorded(
                (MeasurementsCollector { tcp: figures_with(old(c).tcp, stats), ..*old(c) }),
                *final(c),
                interval_of(elapsed, length, old(self).interval_bytes, u64::MAX),
                stats_of_interval(stats, old(self).last_retransmits),
            ),
            report == (IntervalReport {
                retransmits: unless_zero(
                    retransmits_of(stats).saturating_sub(old(self).last_retransmits),
                ),
                cwnd: if sending {
                    window_of(stats)
                } else {
                    None
                },
                ..plain_report(stream_id, elapsed, length, old(self).interval_bytes)
            }),
            *final(self) == (TransferLoop {
                interval_bytes: 0,
                last_retransmits: retransmits_of(stats),
                ..*old(self)
            }),
            report.bytes == old(self).interval_bytes,
            report.bits_per_second.bytes == old(self).interval_bytes,
            report.bits_per_second.over == length,
            report.interval_end == elapsed,
            length@ <= elapsed@ ==> report.interval_end@ - report.interval_start@ == length@,
            final(c).inner.intervals@.len() > 0,
            final(c).inner.intervals@.last().bytes == report.bytes,
            final(c).inner.intervals@.last().bits_per_second == report.bits_per_second,
            final(c).inner.intervals@.last().start == report.interval_start,
            final(c).inner.intervals@.last().end == report.interval_end,
    {
        let start: Duration = elapsed.saturating_sub(&length);
        let bytes: u64 = self.interval_bytes;
        let rate = BitRate { bytes, over: length };
        let (current, window): (u64, Option<u64>) = match stats {
            Some(s) => (
                s.retransmits,
                match s.snd_cwnd_opt() {
                    Some(cwnd) => Some(cwnd / 1024),
                    None => None,
                },
            ),
            None => (0, None),
        };
        let again: u64 = current.saturating_sub(self.last_retransmits);
        self.last_retransmits = current;
        let kept: TcpStats = match stats {
            Some(s) => {
                c.record_tcp_stats(&s);
                TcpStats { retransmits: again, ..s }
            },
            None => TcpStats::default(),
        };
        c.add_tcp_interval(
            IntervalStats {
                start,
                end: elapsed,
                bytes,
                bits_per_second: rate,
                packets: u64::MAX,
            },
            kept,
        );
        self.interval_bytes = 0;
        IntervalReport {
            stream_id,
            interval_start: start,
            interval_end: elapsed,
            bytes,
            bits_per_second: rate,
            packets: None,
            jitter_ms: None,
            lost_packets: None,
            lost_percent: None,
            retransmits: if again > 0 {
                Some(again)
            } else {
                None
            },
            cwnd: if sending {
                window
            } else {
                None
            },
        }
    }

    /// Closes an interval of a UDP transfer: records it and says what to report.
    pub fn close_udp_interval(
        &mut self,
        c: &mut MeasurementsCollector,
        stream_id: usize,
        elapsed: Duration,
        length: Duration,
        kind: UdpReport,
    ) -> (report: IntervalReport)
        requires
            old(c).wf(),
        ensures
            final(c).wf(),
            interval_recorded(
                *old(c),
                *final(c),
                interval_of(
                    elapsed,
                    length,
                    old(self).interval_bytes,
                    old(self).interval_packets,
                ),
                no_stats(),
            ),
            report == udp_report(
                plain_report(stream_id, elapsed, length, old(self).interval_bytes),
                *old(c),
                old(self).interval_packets,
                kind,
            ),
            *final(self) == (TransferLoop {
                interval_bytes: 0,
                interval_packets: 0,
                ..*old(self)
            }),
            report.bytes == old(self).interval_bytes,
            report.packets == Some(old(self).interval_packets),
            report.bits_per_second.bytes == old(self).interval_bytes,
            report.bits_per_second.over == length,
            report.interval_end == elapsed,
            length@ <= elapsed@ ==> report.interval_end@ - report.interval_start@ == length@,
            final(c).inner.intervals@.len() > 0,
            final(c).inner.intervals@.last().bytes == report.bytes,
            final(c).inner.intervals@.last().packets == old(self).interval_packets,
            final(c).inner.intervals@.last().bits_per_second == report.bits_per_second,
            final(c).inner.intervals@.last().start == report.interval_start,
            final(c).inner.intervals@.last().end == report.interval_end,
    {
        let start: Duration = elapsed.saturating_sub(&length);
        let bytes: u64 = self.interval_bytes;
        let packets: u64 = self.interval_packets;
        let rate = BitRate { bytes, over: length };
        let mut report = IntervalReport {
            stream_id,
            interval_start: start,
            interval_end: elapsed,
            bytes,
            bits_per_second: rate,
            packets: Some(packets),
            jitter_ms: None,
            lost_packets: None,
            lost_percent: None,
            retransmits: None,
            cwnd: None,
        };
        let (lost, expected) = c.calculate_udp_loss();
        match kind {
            UdpReport::Full => {
                report.jitter_ms = Some(c.inner.jitter_ms);
                report.lost_packets = Some(lost);
                report.lost_percent = Some(Percent::of(lost, expected));
            },
            UdpReport::SentOnly => {},
            UdpReport::Present => {
                let (lost, total): (u64, u64) = if c.bytes_received > 0 {
                    (lost, expected)
                } else {
                    (c.inner.lost_packets, c.packets)
                };
                if c.inner.jitter_ms.is_positive() {
                    report.jitter_ms = Some(c.inner.jitter_ms);
                }
                if lost > 0 {
                    report.lost_packets = Some(lost);
                }
                if total > 0 && lost > 0 {
                    report.lost_percent = Some(Percent::of(lost, total));
                }
            },
        }
        c.add_interval(
            IntervalStats { start, end: elapsed, bytes, bits_per_second: rate, packets },
        );
        self.interval_bytes = 0;
        self.interval_packets = 0;
        report
    }
}

/// What happens in a transfer.
pub enum Event {
    /// Something was transferred
    Moved {
        /// Bytes
        bytes: u64,
        /// Packets
        packets: u64,
    },
    /// An interval was closed
    Closed {
        /// When, counted from the start of the test
        elapsed: Duration,
        /// How long the interval was
        length: Duration,
        /// True for UDP, where packets are counted
        udp: bool,
    },
}

/// The state of a loop and the intervals it has recorded after a run of events.
pub open spec fn history(start: TransferLoop, events: Seq<Event>) -> (
    TransferLoop,
    Seq<IntervalStats>,
)
    decreases events.len(),
{
    if events.len() == 0 {
        (start, Seq::empty())
    } else {
        let (state, closed) = history(start, events.drop_last());
        match events.last() {
            Event::Moved { bytes, packets } => (state.with_traffic(bytes, packets), closed),
            Event::Closed { elapsed, length, udp } => if udp {
                (
                    TransferLoop { interval_bytes: 0, interval_packets: 0, ..state },
                    closed.push(
                        interval_of(elapsed, length, state.interval_bytes, state.interval_packets),
                    ),
                )
            } else {
                (
                    TransferLoop { interval_bytes: 0, ..state },
                    closed.push(interval_of(elapsed, length, state.interval_bytes, u64::MAX)),
                )
            },
        }
    }
}

/// The bytes of a run of events.
pub open spec fn moved(events: Seq<Event>) -> nat
    decreases events.len(),
{
    if events.len() == 0 {
        0
    } else {
        moved(events.drop_last()) + match events.last() {
            Event::Moved { bytes, .. } => bytes as nat,
            Event::Closed { .. } => 0,
        }
    }
}

/// The packets of a run of events.
pub open spec fn moved_packets(events: Seq<Event>) -> nat
    decreases events.len(),
{
    if events.len() == 0 {
        0
    } else {
        moved_packets(events.drop_last()) + match events.last() {
            Event::Moved { packets, .. } => packets as nat,
            Event::Closed { .. } => 0,
        }
    }
}

/// The packets of some intervals together. An interval whose packets are not counted has none.
pub open spec fn packets_in(s: Seq<IntervalStats>) -> nat
    decreases s.len(),
{
    if s.len() == 0 {
        0
    } else {
        packets_in(s.drop_last()) + if s.last().packets == u64::MAX {
            0
        } else {
            s.last().packets as nat
        }
    }
}

/// The bytes of some intervals together.
pub open spec fn sum_bytes(s: Seq<IntervalStats>) -> nat
    decreases s.len(),
{
    if s.len() == 0 {
        0
    } else {
        sum_bytes(s.drop_last()) + s.last().bytes as nat
    }
}

/// Law: every byte and every packet of a transfer shows up in exactly one interval. The recorded
/// intervals and the open one hold together just what was transferred, however transfers and
/// reports alternate, as long as the counters can hold it.
pub proof fn law_intervals_account_for_all(start: TransferLoop, events: Seq<Event>)
    requires
        start.interval_bytes == 0,
        start.interval_packets == 0,
    ensures
        moved(events) <= u64::MAX ==> sum_bytes(history(start, events).1) + history(
            start,
            events,
        ).0.interval_bytes == moved(events),
        moved_packets(events) < u64::MAX ==> packets_in(history(start, events).1) + history(
            start,
            events,
        ).0.interval_packets == moved_packets(events),
    decreases events.len(),
{
    if events.len() > 0 {
        law_intervals_account_for_all(start, events.drop_last());
        let (state, closed) = history(start, events.drop_last());
        let after = history(start, events).1;
        match events.last() {
            Event::Moved { .. } => {},
            Event::Closed { .. } => {
                assert(after.drop_last() =~= closed);
            },
        }
    }
}

/// Law: no interval ends before it starts, and one that is not longer than the whole test is as
/// long as it was measured.
pub proof fn law_interval_bounds(elapsed: Duration, length: Duration)
    ensures
        start_of(elapsed, length)@ <= elapsed@,
        length@ <= elapsed@ ==> elapsed@ - start_of(elapsed, length)@ == length@,
{
}

/// Law: what is reported of an interval is what is recorded of it: its bytes, where it starts and
/// ends, and a throughput that is those bytes over the measured length of that interval, whatever
/// the time since the start of the test. When the interval is not longer than the test, that length
/// is the time from its start to its end.
pub proof fn law_report_is_of_its_interval(
    stream_id: usize,
    elapsed: Duration,
    length: Duration,
    bytes: u64,
    packets: u64,
    c: MeasurementsCollector,
    kind: UdpReport,
)
    ensures
        ({
            let tcp = plain_report(stream_id, elapsed, length, bytes);
            let udp = udp_report(tcp, c, packets, kind);
            let recorded = interval_of(elapsed, length, bytes, packets);
            &&& tcp.bits_per_second.bytes == bytes && tcp.bits_per_second.over == length
            &&& udp.bits_per_second.bytes == bytes && udp.bits_per_second.over == length
            &&& recorded.bits_per_second.bytes == bytes && recorded.bits_per_second.over == length
            &&& tcp.bytes == bytes && udp.bytes == bytes && recorded.bytes == bytes
            &&& udp.packets == Some(packets) && recorded.packets == packets
            &&& tcp.packets is None
            &&& tcp.stream_id == stream_id && udp.stream_id == stream_id
            &&& tcp.interval_end == elapsed && udp.interval_end == elapsed
            &&& recorded.end == elapsed
            &&& tcp.interval_start == recorded.start && udp.interval_start == recorded.start
            &&& length@ <= elapsed@ ==> tcp.interval_end@ - tcp.interval_start@
                == tcp.bits_per_second.over@
            &&& length@ > elapsed@ ==> tcp.interval_start@ == 0
        }),
{
}

/// Law: a report of a UDP interval says of loss and jitter what is known by then. A full report has
/// the lost packets and their share of the expected ones, and the jitter, also when there are none;
/// a sender's report has none of them; any other report has them only where they are above zero.
pub proof fn law_udp_report_tells_loss(
    report: IntervalReport,
    c: MeasurementsCollector,
    packets: u64,
)
    requires
        report.jitter_ms is None,
        report.lost_packets is None,
        report.lost_percent is None,
    ensures
        ({
            let full = udp_report(report, c, packets, UdpReport::Full);
            let (lost, expected) = loss(c.udp_state@);
            &&& full.lost_packets == Some(lost)
            &&& full.jitter_ms == Some(c.inner.jitter_ms)
            &&& full.lost_percent is Some
            &&& expected > 0 ==> full.lost_percent->0.part == lost && full.lost_percent->0.whole
                == expected
            &&& expected == 0 ==> full.lost_percent->0.part == 0
        }),
        ({
            let sent = udp_report(report, c, packets, UdpReport::SentOnly);
            sent.lost_packets is None && sent.lost_percent is None && sent.jitter_ms is None
        }),
        ({
            let present = udp_report(report, c, packets, UdpReport::Present);
            let (lost, expected) = loss(c.udp_state@);
            &&& c.bytes_received > 0 ==> {
                &&& present.lost_packets == if lost > 0 {
                    Some(lost)
                } else {
                    None
                }
                &&& lost > 0 && expected > 0 ==> present.lost_percent is Some
                    && present.lost_percent->0.part == lost && present.lost_percent->0.whole
                    == expected
                &&& lost == 0 ==> present.lost_percent is None
            }
            &&& c.bytes_received == 0 ==> {
                &&& present.lost_packets is Some <==> c.inner.lost_packets > 0
                &&& present.lost_packets matches Some(n) ==> n == c.inner.lost_packets
                &&& present.lost_percent is Some <==> c.inner.lost_packets > 0 && c.packets > 0
                &&& present.lost_percent matches Some(share) ==> share.part == c.inner.lost_packets
                    && share.whole == c.packets
            }
            &&& present.jitter_ms is Some <==> 0 < c.inner.jitter_ms.bits <= 0x7ff0_0000_0000_0000
            &&& present.jitter_ms matches Some(j) ==> j == c.inner.jitter_ms
        }),
{
}

/// Law: the packets that are shown of a test that received bytes are all those that were sent up to
/// the highest number that came, and those that are shown as lost are the ones of them that did not
/// come. A test that received none shows the packets it sent.
pub proof fn law_shown_packets(c: MeasurementsCollector)
    requires
        c.wf(),
    ensures
        c.bytes_received > 0 ==> (match c.udp_state.max_sequence {
            Some(max) => shown_packets(c) == max + 1 && shown_lost(c) + c.udp_state.seen@.len()
                == max + 1,
            None => shown_packets(c) == 0 && shown_lost(c) == 0,
        }),
        c.bytes_received == 0 ==> shown_packets(c) == c.packets && shown_lost(c)
            == c.inner.lost_packets,
{
    match c.udp_state.max_sequence {
        Some(max) => {
            crate::measurements::udp::lemma_not_in(c.udp_state.seen@, max as int);
        },
        None => {},
    }
}

/// Law: the segments sent again in an interval are those by which the socket's count has grown since
/// the interval before, and none are told when it has not grown. The window is told in whole
/// kilobytes. All else that is kept of the socket with an interval is as the socket told it.
pub proof fn law_socket_of_interval(stats: TcpStats, last_retransmits: u64)
    ensures
        ({
            let kept = stats_of_interval(Some(stats), last_retransmits);
            &&& stats.retransmits >= last_retransmits ==> kept.retransmits + last_retransmits
                == stats.retransmits
            &&& stats.retransmits < last_retransmits ==> kept.retransmits == 0
            &&& kept.snd_cwnd == stats.snd_cwnd && kept.rtt == stats.rtt
            &&& kept.rttvar == stats.rttvar && kept.pmtu == stats.pmtu && kept.flags == stats.flags
        }),
        window_of(Some(stats)) matches Some(k) ==> k * 1024 <= stats.snd_cwnd < (k + 1) * 1024,
        window_of(Some(stats)) is Some <==> stats.flags & 1 != 0,
        retransmits_of(Some(stats)) == stats.retransmits,
        retransmits_of(None) == 0,
        window_of(None) is None,
        stats_of_interval(None, last_retransmits).retransmits == 0,
        stats_of_interval(None, last_retransmits).flags == 0,
        forall|n: u64| #[trigger] unless_zero(n) is Some <==> n > 0,
        forall|n: u64| #[trigger] unless_zero(n) matches Some(m) ==> m == n,
{
}

/// Law: traffic is added to what an interval has, bytes to bytes and packets to packets, and leaves
/// all else of a loop as it is.
pub proof fn law_traffic_adds_up(l: TransferLoop, bytes: u64, packets: u64)
    requires
        l.interval_bytes + bytes <= u64::MAX,
        l.interval_packets + packets <= u64::MAX,
    ensures
        ({
            let after = l.with_traffic(bytes, packets);
            &&& after.interval_bytes - l.interval_bytes == bytes
            &&& after.interval_packets - l.interval_packets == packets
            &&& after.limit == l.limit && after.period == l.period
            &&& after.last_retransmits == l.last_retransmits
        }),
        l.has_room(bytes, packets),
{
}

} // verus!
