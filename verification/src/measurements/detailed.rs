//! Detailed test results in the layout of iperf3's JSON output.

use crate::measurements::collector::MeasurementsCollector;
use crate::measurements::intervals::IntervalStats;
use crate::measurements::summary::Measurements;
use crate::measurements::tcp_figures::{mean_of, no_figures, TcpFigures};
use crate::measurements::tcp_stats::TcpStats;
use crate::measurements::udp::loss;
use crate::number::{rate_of, share_of, Binary64, BitRate, Percent};
use crate::system::{
    law_names_are_joined, platform_name, platform_text, present_moment, program_version,
    random_cookie, rfc2822_text, version_text, SystemInfo,
};
use crate::text::{numeral, to_hex};
use crate::time::Duration;
use vstd::prelude::*;
use vstd::string::*;

verus! {

/// Connection information for a test stream.
///
/// Contains details about the local and remote endpoints of a TCP connection.
/// This information is collected at test start and included in detailed results.
#[derive(Debug)]
pub struct ConnectionInfo {
    /// File descriptor of the socket, where there is one
    pub socket_fd: Option<i32>,
    /// Local address
    pub local_host: String,
    /// Local port
    pub local_port: u16,
    /// Remote address
    pub remote_host: String,
    /// Remote port
    pub remote_port: u16,
}

impl Clone for ConnectionInfo {
    fn clone(&self) -> (r: Self)
        ensures
            r == *self,
    {
        ConnectionInfo {
            socket_fd: self.socket_fd,
            local_host: self.local_host.clone(),
            local_port: self.local_port,
            remote_host: self.remote_host.clone(),
            remote_port: self.remote_port,
        }
    }
}

/// Test configuration parameters at test start.
///
/// Records the test parameters that were negotiated between client and server.
#[derive(Debug)]
pub struct TestConfig {
    /// Name of the protocol
    pub protocol: String,
    /// Number of parallel streams
    pub num_streams: usize,
    /// Buffer size in bytes
    pub blksize: usize,
    /// Seconds at the start that are left out
    pub omit: u64,
    /// Duration in seconds
    pub duration: u64,
    /// True when the server sends
    pub reverse: bool,
}

impl Clone for TestConfig {
    fn clone(&self) -> (r: Self)
        ensures
            r == *self,
    {
        TestConfig {
            protocol: self.protocol.clone(),
            num_streams: self.num_streams,
            blksize: self.blksize,
            omit: self.omit,
            duration: self.duration,
            reverse: self.reverse,
        }
    }
}

/// Enhanced interval statistics with TCP-specific information.
#[derive(Debug, Clone, Copy, PartialEq, Eq)]
pub struct DetailedIntervalStats {
    /// File descriptor of the socket, where there is one
    pub socket: Option<i32>,
    /// Start of the interval
    pub start: Duration,
    /// End of the interval
    pub end: Duration,
    /// Length of the interval
    pub seconds: Duration,
    /// Bytes transferred
    pub bytes: u64,
    /// Throughput
    pub bits_per_second: BitRate,
    /// TCP statistics at its end, with the segments sent again in it
    pub tcp_stats: TcpStats,
    /// Packets, where they are counted
    pub packets: Option<u64>,
    /// True when the interval is left out of the totals
    pub omitted: bool,
    /// Set in every interval
    pub sender: bool,
}

/// UDP-specific interval statistics for detailed reporting.
#[derive(Debug, Clone, Copy, PartialEq, Eq)]
pub struct UdpIntervalStats {
    /// File descriptor of the socket, where there is one
    pub socket: Option<i32>,
    /// Start of the interval
    pub start: Duration,
    /// End of the interval
    pub end: Duration,
    /// Length of the interval
    pub seconds: Duration,
    /// Bytes transferred
    pub bytes: u64,
    /// Throughput
    pub bits_per_second: BitRate,
    /// Packets
    pub packets: u64,
    /// True when the interval is left out of the totals
    pub omitted: bool,
    /// Set in every interval
    pub sender: bool,
}

/// Stream summary statistics for TCP test completion.
///
/// It has cumulative values (bytes, segments sent again) and statistical ones (round-trip times,
/// congestion window) as far as the socket of this host tells them.
#[derive(Debug, Clone, Copy, PartialEq, Eq)]
pub struct StreamSummary {
    /// File descriptor of the socket, where there is one
    pub socket: Option<i32>,
    /// Start of the test
    pub start: Duration,
    /// End of the test
    pub end: Duration,
    /// Length of the test
    pub seconds: Duration,
    /// Bytes transferred
    pub bytes: u64,
    /// Throughput
    pub bits_per_second: BitRate,
    /// Segments sent again
    pub retransmits: u64,
    /// Largest congestion window, if it is known
    pub max_snd_cwnd: Option<u64>,
    /// Longest round-trip time, if it is known
    pub max_rtt: Option<u64>,
    /// Shortest round-trip time, if it is known
    pub min_rtt: Option<u64>,
    /// Mean round-trip time, if it is known
    pub mean_rtt: Option<u64>,
    /// Set on both sides of a TCP stream
    pub sender: bool,
}

/// UDP stream summary statistics for test completion.
#[derive(Debug, Clone, Copy, PartialEq, Eq)]
pub struct UdpStreamSummary {
    /// File descriptor of the socket, where there is one
    pub socket: Option<i32>,
    /// Start of the test
    pub start: Duration,
    /// End of the test
    pub end: Duration,
    /// Length of the test
    pub seconds: Duration,
    /// Bytes transferred
    pub bytes: u64,
    /// Throughput
    pub bits_per_second: BitRate,
    /// Jitter in milliseconds
    pub jitter_ms: Binary64,
    /// Packets lost
    pub lost_packets: u64,
    /// Packets expected
    pub packets: u64,
    /// Share of the packets that were lost
    pub lost_percent: Percent,
    /// Packets out of order, if there were any
    pub out_of_order: Option<u64>,
    /// True when more was sent than received
    pub sender: bool,
}

/// Aggregate UDP statistics across all streams.
#[derive(Debug, Clone, Copy, PartialEq, Eq)]
pub struct UdpSum {
    /// Start of the test
    pub start: Duration,
    /// End of the test
    pub end: Duration,
    /// Length of the test
    pub seconds: Duration,
    /// Bytes transferred
    pub bytes: u64,
    /// Throughput
    pub bits_per_second: BitRate,
    /// Jitter in milliseconds
    pub jitter_ms: Binary64,
    /// Packets lost
    pub lost_packets: u64,
    /// Packets expected
    pub packets: u64,
    /// Share of the packets that were lost
    pub lost_percent: Percent,
    /// True when more was sent than received
    pub sender: bool,
}

/// CPU utilization statistics for performance analysis.
///
/// Values are percentages (0-100 per core, can exceed 100 on multi-core systems).
#[derive(Debug, Clone, Copy, PartialEq, Eq, Structural)]
pub struct CpuUtilization {
    /// This host, all
    pub host_total: Binary64,
    /// This host, user code
    pub host_user: Binary64,
    /// This host, system code
    pub host_system: Binary64,
    /// Remote host, all
    pub remote_total: Binary64,
    /// Remote host, user code
    pub remote_user: Binary64,
    /// Remote host, system code
    pub remote_system: Binary64,
}

/// Complete test results.
#[derive(Debug)]
pub struct DetailedTestResults {
    /// The test at its start
    pub start: TestStartInfo,
    /// The intervals of the test
    pub intervals: Vec<IntervalData>,
    /// The test at its end
    pub end: TestEndInfo,
}

/// Test start information including all configuration and connection details.
#[derive(Debug)]
pub struct TestStartInfo {
    /// The connections
    pub connected: Vec<ConnectionInfo>,
    /// The program and its version
    pub version: String,
    /// The host
    pub system_info: String,
    /// When the test was reported
    pub timestamp: TimestampInfo,
    /// The server
    pub connecting_to: ConnectingTo,
    /// A random mark of the test
    pub cookie: String,
    /// Default segment size of TCP
    pub tcp_mss_default: Option<u32>,
    /// Requested socket buffer size
    pub sock_bufsize: u32,
    /// Send buffer size
    pub sndbuf_actual: u32,
    /// Receive buffer size
    pub rcvbuf_actual: u32,
    /// The parameters of the test
    pub test_start: TestConfig,
}

/// Timestamp information for test events.
#[derive(Debug)]
pub struct TimestampInfo {
    /// For people
    pub time: String,
    /// Seconds since the UNIX epoch
    pub timesecs: i64,
}

/// Server connection target information.
#[derive(Debug)]
pub struct ConnectingTo {
    /// Address of the server
    pub host: String,
    /// Port of the server
    pub port: u16,
}

/// Interval measurement data, protocol-specific.
#[allow(inconsistent_fields)]
#[derive(Debug)]
pub enum IntervalData {
    /// An interval of a TCP test
    Tcp {
        /// The streams
        streams: Vec<DetailedIntervalStats>,
        /// All streams together
        sum: DetailedIntervalStats,
    },
    /// An interval of a UDP test
    Udp {
        /// The streams
        streams: Vec<UdpIntervalStats>,
        /// All streams together
        sum: UdpIntervalStats,
    },
}

/// Test completion information, protocol-specific.
#[allow(inconsistent_fields)]
#[derive(Debug)]
pub enum TestEndInfo {
    /// The end of a TCP test
    Tcp {
        /// The streams
        streams: Vec<EndStreamInfo>,
        /// What was sent
        sum_sent: Box<StreamSummary>,
        /// What was received
        sum_received: Box<StreamSummary>,
        /// CPU usage, if it is known
        cpu_utilization_percent: Option<CpuUtilization>,
        /// Congestion control of the sender, if it is known
        sender_tcp_congestion: Option<String>,
        /// Congestion control of the receiver, if it is known
        receiver_tcp_congestion: Option<String>,
    },
    /// The end of a UDP test
    Udp {
        /// The streams
        streams: Vec<UdpEndStreamInfo>,
        /// All streams together
        sum: UdpSum,
        /// CPU usage, if it is known
        cpu_utilization_percent: Option<CpuUtilization>,
    },
}

/// Per-stream final statistics for TCP.
#[derive(Debug, Clone, Copy, PartialEq, Eq)]
pub struct EndStreamInfo {
    /// The sending side
    pub sender: StreamSummary,
    /// The receiving side
    pub receiver: StreamSummary,
}

/// Per-stream final statistics for UDP.
#[derive(Debug, Clone, Copy, PartialEq, Eq)]
pub struct UdpEndStreamInfo {
    /// The stream
    pub udp: UdpStreamSummary,
}

/// True for the name of UDP in any mixture of upper and lower case.
pub open spec fn names_udp(s: Seq<char>) -> bool {
    &&& s.len() == 3
    &&& (s[0] == 'U' || s[0] == 'u')
    &&& (s[1] == 'D' || s[1] == 'd')
    &&& (s[2] == 'P' || s[2] == 'p')
}

/// True for the name of UDP in any mixture of upper and lower case.
pub fn is_udp_name(s: &str) -> (r: bool)
    ensures
        r == names_udp(s@),
{
    if s.unicode_len() != 3 {
        return false;
    }
    let a: char = s.get_char(0);
    let b: char = s.get_char(1);
    let c: char = s.get_char(2);
    (a == 'U' || a == 'u') && (b == 'D' || b == 'd') && (c == 'P' || c == 'p')
}

/// The socket of a connection, if there is one.
pub open spec fn socket_of(connection: Option<ConnectionInfo>) -> Option<i32> {
    match connection {
        Some(c) => c.socket_fd,
        None => None,
    }
}

/// The bytes of a test in both directions.
pub open spec fn both_ways(m: Measurements) -> int {
    m.total_bytes_sent + m.total_bytes_received
}

/// True when the measurements can be reported: no interval ends before it starts, and the sums
/// that the report shows fit 64 bits.
pub open spec fn reportable(m: Measurements, udp: bool) -> bool {
    &&& forall|i: int|
        0 <= i < m.intervals@.len() ==> (#[trigger] m.intervals@[i]).start@
            <= m.intervals@[i].end@
    &&& udp || m.total_duration@ > 0 ==> both_ways(m) <= u64::MAX
}

/// A TCP interval in the report, with the TCP statistics of that time.
pub open spec fn tcp_interval(
    i: IntervalStats,
    stats: TcpStats,
    socket: Option<i32>,
) -> DetailedIntervalStats {
    DetailedIntervalStats {
        socket,
        start: i.start,
        end: i.end,
        seconds: Duration { nanos: (i.end@ - i.start@) as u128 },
        bytes: i.bytes,
        bits_per_second: i.bits_per_second,
        tcp_stats: stats,
        packets: None,
        omitted: false,
        sender: true,
    }
}

/// A UDP interval in the report. Packets that were not counted are shown as none.
pub open spec fn udp_interval(i: IntervalStats, socket: Option<i32>) -> UdpIntervalStats {
    UdpIntervalStats {
        socket,
        start: i.start,
        end: i.end,
        seconds: Duration { nanos: (i.end@ - i.start@) as u128 },
        bytes: i.bytes,
        bits_per_second: i.bits_per_second,
        packets: if i.packets == u64::MAX {
            0
        } else {
            i.packets
        },
        omitted: false,
        sender: true,
    }
}

/// The interval part of a TCP report: one stream, which is also the sum.
pub open spec fn tcp_intervals_shown(
    shown: Seq<IntervalData>,
    intervals: Seq<IntervalStats>,
    stats: Seq<TcpStats>,
    socket: Option<i32>,
) -> bool {
    &&& shown.len() == intervals.len()
    &&& forall|i: int|
        0 <= i < shown.len() ==> ((#[trigger] shown[i]) matches IntervalData::Tcp { streams, sum }
            && streams@ == seq![tcp_interval(intervals[i], stats[i], socket)] && sum
            == tcp_interval(intervals[i], stats[i], socket))
}

/// The interval part of a UDP report: one stream, which is also the sum.
pub open spec fn udp_intervals_shown(
    shown: Seq<IntervalData>,
    intervals: Seq<IntervalStats>,
    socket: Option<i32>,
) -> bool {
    &&& shown.len() == intervals.len()
    &&& forall|i: int|
        0 <= i < shown.len() ==> ((#[trigger] shown[i]) matches IntervalData::Udp { streams, sum }
            && streams@ == seq![udp_interval(intervals[i], socket)] && sum == udp_interval(
            intervals[i],
            socket,
        ))
}

/// The TCP figures of one side of a test, as far as this host knows them: its socket tells its own.
/// It is the sender, unless the test runs in reverse.
pub open spec fn figures_of_side(f: TcpFigures, reverse: bool, of_sender: bool) -> TcpFigures {
    if of_sender != reverse {
        f
    } else {
        no_figures()
    }
}

/// The summary of one side of a TCP test.
pub open spec fn tcp_side(
    socket: Option<i32>,
    duration: Duration,
    bytes: u64,
    rate: BitRate,
    f: TcpFigures,
) -> StreamSummary {
    StreamSummary {
        socket,
        start: Duration { nanos: 0 },
        end: duration,
        seconds: duration,
        bytes,
        bits_per_second: rate,
        retransmits: f.retransmits,
        max_snd_cwnd: f.max_snd_cwnd,
        max_rtt: f.max_rtt,
        min_rtt: f.min_rtt,
        mean_rtt: mean_of(f),
        sender: true,
    }
}

/// The sending side of a TCP test.
pub open spec fn tcp_sent(
    m: Measurements,
    f: TcpFigures,
    reverse: bool,
    socket: Option<i32>,
) -> StreamSummary {
    tcp_side(
        socket,
        m.total_duration,
        m.total_bytes_sent,
        rate_of(both_ways(m) as u64, m.total_duration),
        figures_of_side(f, reverse, true),
    )
}

/// The receiving side of a TCP test.
pub open spec fn tcp_received(
    m: Measurements,
    f: TcpFigures,
    reverse: bool,
    socket: Option<i32>,
) -> StreamSummary {
    tcp_side(
        socket,
        m.total_duration,
        m.total_bytes_received,
        rate_of(m.total_bytes_received, m.total_duration),
        figures_of_side(f, reverse, false),
    )
}

/// The end part of a TCP report.
pub open spec fn tcp_end_shown(
    end: TestEndInfo,
    m: Measurements,
    f: TcpFigures,
    reverse: bool,
    socket: Option<i32>,
) -> bool {
    end matches TestEndInfo::Tcp {
        streams,
        sum_sent,
        sum_received,
        cpu_utilization_percent,
        sender_tcp_congestion,
        receiver_tcp_congestion,
    } && {
        &&& streams@ == seq![
            EndStreamInfo {
                sender: tcp_sent(m, f, reverse, socket),
                receiver: tcp_received(m, f, reverse, socket),
            },
        ]
        &&& *sum_sent == tcp_sent(m, f, reverse, socket)
        &&& *sum_received == tcp_received(m, f, reverse, socket)
        &&& cpu_utilization_percent is None
        &&& sender_tcp_congestion matches Some(name) && name@ == "cubic"@
        &&& receiver_tcp_congestion matches Some(name) && name@ == "cubic"@
    }
}

/// The stream of a UDP test.
pub open spec fn udp_stream(
    m: Measurements,
    lost: u64,
    expected: u64,
    socket: Option<i32>,
) -> UdpStreamSummary {
    UdpStreamSummary {
        socket,
        start: Duration { nanos: 0 },
        end: m.total_duration,
        seconds: m.total_duration,
        bytes: both_ways(m) as u64,
        bits_per_second: rate_of(both_ways(m) as u64, m.total_duration),
        jitter_ms: m.jitter_ms,
        lost_packets: lost,
        packets: expected,
        lost_percent: share_of(lost, expected),
        out_of_order: if m.out_of_order_packets > 0 {
            Some(m.out_of_order_packets)
        } else {
            None
        },
        sender: m.total_bytes_sent > m.total_bytes_received,
    }
}

/// The totals of a UDP test.
pub open spec fn udp_total(m: Measurements, lost: u64, expected: u64) -> UdpSum {
    UdpSum {
        start: Duration { nanos: 0 },
        end: m.total_duration,
        seconds: m.total_duration,
        bytes: both_ways(m) as u64,
        bits_per_second: rate_of(both_ways(m) as u64, m.total_duration),
        jitter_ms: m.jitter_ms,
        lost_packets: lost,
        packets: expected,
        lost_percent: share_of(lost, expected),
        sender: m.total_bytes_sent > m.total_bytes_received,
    }
}

/// The end part of a UDP report.
pub open spec fn udp_end_shown(
    end: TestEndInfo,
    m: Measurements,
    lost: u64,
    expected: u64,
    socket: Option<i32>,
) -> bool {
    end matches TestEndInfo::Udp { streams, sum, cpu_utilization_percent } && {
        &&& streams@ == seq![UdpEndStreamInfo { udp: udp_stream(m, lost, expected, socket) }]
        &&& sum == udp_total(m, lost, expected)
        &&& cpu_utilization_percent is None
    }
}

/// The start part of a report. What is known of the host stands in for `platform`, `time` and
/// `timesecs`.
pub open spec fn start_shown(
    start: TestStartInfo,
    connection: Option<ConnectionInfo>,
    system: Option<SystemInfo>,
    config: TestConfig,
    platform: Seq<char>,
    time: Seq<char>,
    timesecs: i64,
    cookie: u128,
) -> bool {
    let udp = names_udp(config.protocol@);
    &&& start.connected@ == match connection {
        Some(c) => seq![c],
        None => Seq::empty(),
    }
    &&& start.version@ == version_text()
    &&& start.system_info@ == match system {
        Some(s) => s.system_info@,
        None => platform,
    }
    &&& start.timestamp.time@ == match system {
        Some(s) => s.timestamp_str@,
        None => time,
    }
    &&& start.timestamp.timesecs == match system {
        Some(s) => s.timestamp,
        None => timesecs,
    }
    &&& start.connecting_to.host@ == match connection {
        Some(c) => c.remote_host@,
        None => Seq::empty(),
    }
    &&& start.connecting_to.port == match connection {
        Some(c) => c.remote_port,
        None => 5201,
    }
    &&& start.cookie@ == numeral(cookie as nat, 16)
    &&& start.tcp_mss_default == if udp {
        None
    } else {
        Some(1448u32)
    }
    &&& start.sock_bufsize == 0
    &&& start.sndbuf_actual == if udp {
        212992u32
    } else {
        16384
    }
    &&& start.rcvbuf_actual == if udp {
        212992u32
    } else {
        131072
    }
    &&& start.test_start == config
}

/// The measurements of a collector with the totals of the whole test, up to the present.
pub open spec fn up_to_date(c: MeasurementsCollector) -> Measurements {
    Measurements {
        total_bytes_sent: c.bytes_sent,
        total_bytes_received: c.bytes_received,
        ..c.inner
    }
}

/// The whole report of a collector.
pub open spec fn results_shown(
    results: DetailedTestResults,
    c: MeasurementsCollector,
    connection: Option<ConnectionInfo>,
    system: Option<SystemInfo>,
    config: TestConfig,
    platform: Seq<char>,
    time: Seq<char>,
    timesecs: i64,
    cookie: u128,
) -> bool {
    let socket = socket_of(connection);
    &&& start_shown(
        results.start,
        connection,
        system,
        config,
        platform,
        time,
        timesecs,
        cookie,
    )
    &&& if names_udp(config.protocol@) {
        &&& udp_intervals_shown(results.intervals@, c.inner.intervals@, socket)
        &&& udp_end_shown(
            results.end,
            up_to_date(c),
            loss(c.udp_state@).0,
            loss(c.udp_state@).1,
            socket,
        )
    } else {
        &&& tcp_intervals_shown(
            results.intervals@,
            c.inner.intervals@,
            c.inner.intervals.tcp(),
            socket,
        )
        &&& tcp_end_shown(results.end, up_to_date(c), c.tcp, config.reverse, socket)
    }
}

/// True when the measurements can be reported.
pub fn can_report(m: &Measurements, udp: bool) -> (r: bool)
    ensures
        r == reportable(*m, udp),
{
    if udp || !m.total_duration.is_zero() {
        match m.total_bytes_sent.checked_add(m.total_bytes_received) {
            Some(_) => {},
            None => {
                return false;
            },
        }
    }
    let intervals: Vec<IntervalStats> = m.intervals.iter();
    let mut i: usize = 0;
    while i < intervals.len()
        invariant
            i <= intervals@.len(),
            intervals@ == m.intervals@,
            udp || m.total_duration@ > 0 ==> both_ways(*m) <= u64::MAX,
            forall|j: int|
                0 <= j < i ==> (#[trigger] m.intervals@[j]).start@ <= m.intervals@[j].end@,
        decreases intervals@.len() - i,
    {
        if intervals[i].end.shorter_than(&intervals[i].start) {
            assert(m.intervals@[i as int].start@ > m.intervals@[i as int].end@);
            return false;
        }
        i = i + 1;
    }
    true
}

impl MeasurementsCollector {
    /// True when the test can be reported.
    pub fn can_report(&self, udp: bool) -> (r: bool)
        requires
            self.wf(),
        ensures
            r == reportable(up_to_date(*self), udp),
    {
        let m: Measurements = self.get();
        assert(m.intervals@ == up_to_date(*self).intervals@);
        can_report(&m, udp)
    }
}

fn socket_fd(connection: &Option<ConnectionInfo>) -> (r: Option<i32>)
    ensures
        r == socket_of(*connection),
{
    match connection {
        Some(c) => c.socket_fd,
        None => None,
    }
}

/// The interval part of a TCP report.
pub fn build_tcp_intervals(m: &Measurements, connection_info: &Option<ConnectionInfo>) -> (r: Vec<
    IntervalData,
>)
    requires
        m.intervals.wf(),
        forall|i: int|
            0 <= i < m.intervals@.len() ==> (#[trigger] m.intervals@[i]).start@
                <= m.intervals@[i].end@,
    ensures
        tcp_intervals_shown(
            r@,
            m.intervals@,
            m.intervals.tcp(),
            socket_of(*connection_info),
        ),
{
    let intervals: Vec<IntervalStats> = m.intervals.iter();
    let socket: Option<i32> = socket_fd(connection_info);
    let mut shown: Vec<IntervalData> = Vec::with_capacity(intervals.len());
    let mut i: usize = 0;
    while i < intervals.len()
        invariant
            i <= intervals@.len(),
            intervals@ == m.intervals@,
            m.intervals.wf(),
            socket == socket_of(*connection_info),
            forall|j: int|
                0 <= j < m.intervals@.len() ==> (#[trigger] m.intervals@[j]).start@
                    <= m.intervals@[j].end@,
            tcp_intervals_shown(
                shown@,
                m.intervals@.take(i as int),
                m.intervals.tcp(),
                socket,
            ),
        decreases intervals@.len() - i,
    {
        let interval: IntervalStats = intervals[i];
        assert(m.intervals@[i as int].start@ <= m.intervals@[i as int].end@);
        let tcp_stats: TcpStats = match m.intervals.tcp_at(i) {
            Some(stats) => stats,
            None => TcpStats::default(),
        };
        let stat = DetailedIntervalStats {
            socket,
            start: interval.start,
            end: interval.end,
            seconds: interval.end.saturating_sub(&interval.start),
            bytes: interval.bytes,
            bits_per_second: interval.bits_per_second,
            tcp_stats,
            packets: None,
            omitted: false,
            sender: true,
        };
        assert(stat == tcp_interval(interval, m.intervals.tcp()[i as int], socket));
        let mut streams: Vec<DetailedIntervalStats> = Vec::new();
        streams.push(stat);
        assert(streams@ =~= seq![stat]);
        shown.push(IntervalData::Tcp { streams, sum: stat });
        i = i + 1;
    }
    assert(m.intervals@.take(i as int) =~= m.intervals@);
    shown
}

/// The interval part of a UDP report.
pub fn build_udp_intervals(m: &Measurements, connection_info: &Option<ConnectionInfo>) -> (r: Vec<
    IntervalData,
>)
    requires
        forall|i: int|
            0 <= i < m.intervals@.len() ==> (#[trigger] m.intervals@[i]).start@
                <= m.intervals@[i].end@,
    ensures
        udp_intervals_shown(r@, m.intervals@, socket_of(*connection_info)),
{
    let intervals: Vec<IntervalStats> = m.intervals.iter();
    let socket: Option<i32> = socket_fd(connection_info);
    let mut shown: Vec<IntervalData> = Vec::with_capacity(intervals.len());
    let mut i: usize = 0;
    while i < intervals.len()
        invariant
            i <= intervals@.len(),
            intervals@ == m.intervals@,
            socket == socket_of(*connection_info),
            forall|j: int|
                0 <= j < m.intervals@.len() ==> (#[trigger] m.intervals@[j]).start@
                    <= m.intervals@[j].end@,
            udp_intervals_shown(shown@, m.intervals@.take(i as int), socket),
        decreases intervals@.len() - i,
    {
        let interval: IntervalStats = intervals[i];
        assert(m.intervals@[i as int].start@ <= m.intervals@[i as int].end@);
        let packets: u64 = if interval.packets == u64::MAX {
            0
        } else {
            interval.packets
        };
        let stat = UdpIntervalStats {
            socket,
            start: interval.start,
            end: interval.end,
            seconds: interval.end.saturating_sub(&interval.start),
            bytes: interval.bytes,
            bits_per_second: interval.bits_per_second,
            packets,
            omitted: false,
            sender: true,
        };
        assert(stat == udp_interval(interval, socket));
        let mut streams: Vec<UdpIntervalStats> = Vec::new();
        streams.push(stat);
        assert(streams@ =~= seq![udp_interval(interval, socket)]);
        shown.push(IntervalData::Udp { streams, sum: stat });
        i = i + 1;
    }
    assert(m.intervals@.take(i as int) =~= m.intervals@);
    shown
}

/// The TCP figures of one side of a test, as far as this host knows them.
pub fn side_figures(f: &TcpFigures, reverse: bool, of_sender: bool) -> (r: TcpFigures)
    ensures
        r == figures_of_side(*f, reverse, of_sender),
        f.wf() ==> r.wf(),
{
    if of_sender != reverse {
        *f
    } else {
        TcpFigures::new()
    }
}

fn build_tcp_side(
    socket: Option<i32>,
    duration: Duration,
    bytes: u64,
    rate: BitRate,
    f: TcpFigures,
) -> (r: StreamSummary)
    requires
        f.wf(),
    ensures
        r == tcp_side(socket, duration, bytes, rate, f),
{
    StreamSummary {
        socket,
        start: Duration::zero(),
        end: duration,
        seconds: duration,
        bytes,
        bits_per_second: rate,
        retransmits: f.retransmits,
        max_snd_cwnd: f.max_snd_cwnd,
        max_rtt: f.max_rtt,
        min_rtt: f.min_rtt,
        mean_rtt: f.mean_rtt(),
        sender: true,
    }
}

/// The end part of a TCP report, with the TCP figures of this host.
pub fn build_tcp_end_info(
    m: &Measurements,
    f: &TcpFigures,
    reverse: bool,
    connection_info: &Option<ConnectionInfo>,
) -> (r: TestEndInfo)
    requires
        m.total_duration@ > 0 ==> both_ways(*m) <= u64::MAX,
        f.wf(),
    ensures
        tcp_end_shown(r, *m, *f, reverse, socket_of(*connection_info)),
{
    let socket: Option<i32> = socket_fd(connection_info);
    let sender: StreamSummary = build_tcp_side(
        socket,
        m.total_duration,
        m.total_bytes_sent,
        m.total_bits_per_second(),
        side_figures(f, reverse, true),
    );
    let receiver: StreamSummary = build_tcp_side(
        socket,
        m.total_duration,
        m.total_bytes_received,
        BitRate::of(m.total_bytes_received, m.total_duration),
        side_figures(f, reverse, false),
    );
    let mut streams: Vec<EndStreamInfo> = Vec::new();
    streams.push(EndStreamInfo { sender, receiver });
    assert(streams@ =~= seq![
        EndStreamInfo {
            sender: tcp_sent(*m, *f, reverse, socket_of(*connection_info)),
            receiver: tcp_received(*m, *f, reverse, socket_of(*connection_info)),
        },
    ]);
    TestEndInfo::Tcp {
        streams,
        sum_sent: Box::new(sender),
        sum_received: Box::new(receiver),
        cpu_utilization_percent: None,
        sender_tcp_congestion: Some(String::from_str("cubic")),
        receiver_tcp_congestion: Some(String::from_str("cubic")),
    }
}

/// The end part of a UDP report, with the lost and the expected packets.
pub fn build_udp_end_info(
    m: &Measurements,
    lost_packets: u64,
    expected_packets: u64,
    connection_info: &Option<ConnectionInfo>,
) -> (r: TestEndInfo)
    requires
        both_ways(*m) <= u64::MAX,
    ensures
        udp_end_shown(r, *m, lost_packets, expected_packets, socket_of(*connection_info)),
{
    let bytes: u64 = m.total_bytes_sent + m.total_bytes_received;
    let rate: BitRate = BitRate::of(bytes, m.total_duration);
    let lost_percent: Percent = Percent::of(lost_packets, expected_packets);
    let udp = UdpStreamSummary {
        socket: socket_fd(connection_info),
        start: Duration::zero(),
        end: m.total_duration,
        seconds: m.total_duration,
        bytes,
        bits_per_second: rate,
        jitter_ms: m.jitter_ms,
        lost_packets,
        packets: expected_packets,
        lost_percent,
        out_of_order: if m.out_of_order_packets > 0 {
            Some(m.out_of_order_packets)
        } else {
            None
        },
        sender: m.total_bytes_sent > m.total_bytes_received,
    };
    let sum = UdpSum {
        start: Duration::zero(),
        end: m.total_duration,
        seconds: m.total_duration,
        bytes,
        bits_per_second: rate,
        jitter_ms: m.jitter_ms,
        lost_packets,
        packets: expected_packets,
        lost_percent,
        sender: m.total_bytes_sent > m.total_bytes_received,
    };
    let mut streams: Vec<UdpEndStreamInfo> = Vec::new();
    streams.push(UdpEndStreamInfo { udp });
    assert(streams@ =~= seq![
        UdpEndStreamInfo {
            udp: udp_stream(*m, lost_packets, expected_packets, socket_of(*connection_info)),
        },
    ]);
    TestEndInfo::Udp { streams, sum, cpu_utilization_percent: None }
}

/// The start part of a report.
pub fn build_start_info(
    connection_info: &Option<ConnectionInfo>,
    system_info: &Option<SystemInfo>,
    test_config: &TestConfig,
    platform: String,
    time: String,
    timesecs: i64,
    cookie: u128,
) -> (r: TestStartInfo)
    ensures
        start_shown(
            r,
            *connection_info,
            *system_info,
            *test_config,
            platform@,
            time@,
            timesecs,
            cookie,
        ),
{
    let udp: bool = is_udp_name(test_config.protocol.as_str());
    let mut connected: Vec<ConnectionInfo> = Vec::new();
    let (host, port): (String, u16) = match connection_info {
        Some(c) => {
            connected.push(c.clone());
            (c.remote_host.clone(), c.remote_port)
        },
        None => (String::new(), 5201),
    };
    assert(connected@ =~= match *connection_info {
        Some(c) => seq![c],
        None => Seq::empty(),
    });
    let (host_text, time_text, seconds): (String, String, i64) = match system_info {
        Some(s) => (s.system_info.clone(), s.timestamp_str.clone(), s.timestamp),
        None => (platform, time, timesecs),
    };
    TestStartInfo {
        connected,
        version: program_version(),
        system_info: host_text,
        timestamp: TimestampInfo { time: time_text, timesecs: seconds },
        connecting_to: ConnectingTo { host, port },
        cookie: to_hex(cookie),
        tcp_mss_default: if udp {
            None
        } else {
            Some(1448)
        },
        sock_bufsize: 0,
        sndbuf_actual: if udp {
            212992
        } else {
            16384
        },
        rcvbuf_actual: if udp {
            212992
        } else {
            131072
        },
        test_start: test_config.clone(),
    }
}

impl MeasurementsCollector {
    /// The report of the test, with a given platform name, time and random mark.
    pub fn detailed_results_at(
        &self,
        connection_info: Option<ConnectionInfo>,
        system_info: Option<SystemInfo>,
        test_config: TestConfig,
        platform: String,
        time: String,
        timesecs: i64,
        cookie: u128,
    ) -> (r: DetailedTestResults)
        requires
            self.wf(),
            reportable(up_to_date(*self), names_udp(test_config.protocol@)),
        ensures
            results_shown(
                r,
                *self,
                connection_info,
                system_info,
                test_config,
                platform@,
                time@,
                timesecs,
                cookie,
            ),
    {
        let udp: bool = is_udp_name(test_config.protocol.as_str());
        let m: Measurements = self.get();
        assert(m.intervals@ == up_to_date(*self).intervals@);
        let start: TestStartInfo = build_start_info(
            &connection_info,
            &system_info,
            &test_config,
            platform,
            time,
            timesecs,
            cookie,
        );
        if udp {
            let (lost, expected) = self.calculate_udp_loss();
            DetailedTestResults {
                start,
                intervals: build_udp_intervals(&m, &connection_info),
                end: build_udp_end_info(&m, lost, expected, &connection_info),
            }
        } else {
            DetailedTestResults {
                start,
                intervals: build_tcp_intervals(&m, &connection_info),
                end: build_tcp_end_info(&m, &self.tcp, test_config.reverse, &connection_info),
            }
        }
    }

    /// Get detailed test results in iperf3 format.
    ///
    /// The report has the totals of the whole test up to the present. It carries a random mark, and
    /// the present time where nothing is known of the host.
    pub fn get_detailed_results(
        &self,
        connection_info: Option<ConnectionInfo>,
        system_info: Option<SystemInfo>,
        test_config: TestConfig,
        os: &str,
        arch: &str,
    ) -> (r: DetailedTestResults)
        requires
            self.wf(),
            reportable(up_to_date(*self), names_udp(test_config.protocol@)),
        ensures
            exists|timesecs: i64, cookie: u128|
                results_shown(
                    r,
                    *self,
                    connection_info,
                    system_info,
                    test_config,
                    platform_text(os@, arch@),
                    rfc2822_text(timesecs as int),
                    timesecs,
                    cookie,
                ),
    {
        let (timesecs, time): (i64, String) = present_moment();
        self.detailed_results_at(
            connection_info,
            system_info,
            test_config,
            platform_name(os, arch),
            time,
            timesecs,
            random_cookie(),
        )
    }
}

/// Law: the end part of a UDP report is about the whole test. Its one stream and its sum both have
/// the bytes of both directions together and the time from the start of the test to its end, a
/// throughput that is these bytes over this time, and the lost packets among the expected ones.
pub proof fn law_udp_end_is_of_the_whole_test(
    results: DetailedTestResults,
    c: MeasurementsCollector,
    connection: Option<ConnectionInfo>,
    system: Option<SystemInfo>,
    config: TestConfig,
    platform: Seq<char>,
    time: Seq<char>,
    timesecs: i64,
    cookie: u128,
)
    requires
        results_shown(
            results,
            c,
            connection,
            system,
            config,
            platform,
            time,
            timesecs,
            cookie,
        ),
        names_udp(config.protocol@),
        c.bytes_sent + c.bytes_received <= u64::MAX,
    ensures
        results.end matches TestEndInfo::Udp { streams, sum, .. } && {
            let udp = streams@[0].udp;
            let (lost, expected) = loss(c.udp_state@);
            &&& streams@.len() == 1
            &&& udp.bytes == c.bytes_sent + c.bytes_received
            &&& sum.bytes == c.bytes_sent + c.bytes_received
            &&& udp.start@ == 0 && sum.start@ == 0
            &&& udp.end == c.inner.total_duration && udp.seconds == c.inner.total_duration
            &&& sum.end == c.inner.total_duration && sum.seconds == c.inner.total_duration
            &&& c.inner.total_duration@ > 0 ==> {
                &&& udp.bits_per_second.bytes == udp.bytes
                &&& udp.bits_per_second.over == udp.seconds
                &&& sum.bits_per_second.bytes == sum.bytes
                &&& sum.bits_per_second.over == sum.seconds
            }
            &&& c.inner.total_duration@ == 0 ==> udp.bits_per_second.bytes == 0
                && sum.bits_per_second.bytes == 0
            &&& udp.lost_packets == lost && sum.lost_packets == lost
            &&& udp.packets == expected && sum.packets == expected
            &&& expected > 0 ==> {
                &&& udp.lost_percent.part == lost && udp.lost_percent.whole == expected
                &&& sum.lost_percent.part == lost && sum.lost_percent.whole == expected
            }
            &&& expected == 0 ==> udp.lost_percent.part == 0 && sum.lost_percent.part == 0
            &&& udp.jitter_ms == c.inner.jitter_ms && sum.jitter_ms == c.inner.jitter_ms
            &&& udp.out_of_order is Some <==> c.inner.out_of_order_packets > 0
            &&& udp.out_of_order matches Some(n) ==> n == c.inner.out_of_order_packets
            &&& udp.sender == (c.bytes_sent > c.bytes_received)
            &&& sum.sender == (c.bytes_sent > c.bytes_received)
            &&& udp.socket == (match connection {
                Some(k) => k.socket_fd,
                None => None,
            })
        },
{
}

/// Law: the end part of a TCP report is about the whole test. What was sent and what was received
/// stand on their own sides, over the time from the start of the test to its end. The sender's
/// throughput is that of both directions together, the receiver's that of what was received. The
/// one stream is also the sum.
pub proof fn law_tcp_end_is_of_the_whole_test(
    results: DetailedTestResults,
    c: MeasurementsCollector,
    connection: Option<ConnectionInfo>,
    system: Option<SystemInfo>,
    config: TestConfig,
    platform: Seq<char>,
    time: Seq<char>,
    timesecs: i64,
    cookie: u128,
)
    requires
        results_shown(
            results,
            c,
            connection,
            system,
            config,
            platform,
            time,
            timesecs,
            cookie,
        ),
        !names_udp(config.protocol@),
        c.bytes_sent + c.bytes_received <= u64::MAX,
    ensures
        results.end matches TestEndInfo::Tcp { streams, sum_sent, sum_received, .. } && {
            &&& streams@.len() == 1
            &&& streams@[0].sender == *sum_sent && streams@[0].receiver == *sum_received
            &&& sum_sent.bytes == c.bytes_sent
            &&& sum_received.bytes == c.bytes_received
            &&& sum_sent.start@ == 0 && sum_received.start@ == 0
            &&& sum_sent.end == c.inner.total_duration && sum_sent.seconds
                == c.inner.total_duration
            &&& sum_received.end == c.inner.total_duration && sum_received.seconds
                == c.inner.total_duration
            &&& c.inner.total_duration@ > 0 ==> {
                &&& sum_sent.bits_per_second.bytes == c.bytes_sent + c.bytes_received
                &&& sum_sent.bits_per_second.over == sum_sent.seconds
                &&& sum_received.bits_per_second.bytes == sum_received.bytes
                &&& sum_received.bits_per_second.over == sum_received.seconds
            }
            &&& c.inner.total_duration@ == 0 ==> sum_sent.bits_per_second.bytes == 0
                && sum_received.bits_per_second.bytes == 0
            &&& sum_sent.socket == sum_received.socket
            &&& sum_sent.socket == (match connection {
                Some(k) => k.socket_fd,
                None => None,
            })
            &&& sum_sent.sender && sum_received.sender
        },
{
}

/// Law: the TCP figures of this host's socket stand on the side that this host is, the sender's
/// unless the test runs in reverse, and the other side has none.
pub proof fn law_figures_stand_on_their_side(
    results: DetailedTestResults,
    c: MeasurementsCollector,
    connection: Option<ConnectionInfo>,
    system: Option<SystemInfo>,
    config: TestConfig,
    platform: Seq<char>,
    time: Seq<char>,
    timesecs: i64,
    cookie: u128,
)
    requires
        results_shown(
            results,
            c,
            connection,
            system,
            config,
            platform,
            time,
            timesecs,
            cookie,
        ),
        !names_udp(config.protocol@),
        c.wf(),
    ensures
        results.end matches TestEndInfo::Tcp { sum_sent, sum_received, .. } && {
            let own = if config.reverse {
                *sum_received
            } else {
                *sum_sent
            };
            let other = if config.reverse {
                *sum_sent
            } else {
                *sum_received
            };
            &&& own.retransmits == c.tcp.retransmits
            &&& own.max_snd_cwnd == c.tcp.max_snd_cwnd
            &&& own.max_rtt == c.tcp.max_rtt && own.min_rtt == c.tcp.min_rtt
            &&& own.mean_rtt is Some <==> c.tcp.rtt_count > 0
            &&& own.mean_rtt matches Some(mean) ==> mean * c.tcp.rtt_count <= c.tcp.rtt_sum < (mean
                + 1) * c.tcp.rtt_count
            &&& other.retransmits == 0 && other.max_snd_cwnd is None
            &&& other.max_rtt is None && other.min_rtt is None && other.mean_rtt is None
        },
{
    let sum = c.tcp.rtt_sum as int;
    let count = c.tcp.rtt_count as int;
    if count > 0 {
        let mean = sum / count;
        assert(mean <= u64::MAX) by (nonlinear_arith)
            requires
                count > 0,
                sum <= count * u64::MAX,
                mean == sum / count,
        ;
        assert(mean * count <= sum < (mean + 1) * count) by (nonlinear_arith)
            requires
                count > 0,
                mean == sum / count,
        ;
    }
}

/// Law: a report has one entry for each interval that was recorded, in their order, and each entry
/// is about its interval: its start and its end, the time between them, its bytes and its
/// throughput. Entries of UDP have the packets, where they were counted; entries of TCP have what
/// the socket told. The one stream is also the sum.
pub proof fn law_intervals_are_reported(
    results: DetailedTestResults,
    c: MeasurementsCollector,
    connection: Option<ConnectionInfo>,
    system: Option<SystemInfo>,
    config: TestConfig,
    platform: Seq<char>,
    time: Seq<char>,
    timesecs: i64,
    cookie: u128,
    i: int,
)
    requires
        results_shown(
            results,
            c,
            connection,
            system,
            config,
            platform,
            time,
            timesecs,
            cookie,
        ),
        reportable(up_to_date(c), names_udp(config.protocol@)),
        0 <= i < c.inner.intervals@.len(),
    ensures
        results.intervals@.len() == c.inner.intervals@.len(),
        ({
            let recorded = c.inner.intervals@[i];
            if names_udp(config.protocol@) {
                results.intervals@[i] matches IntervalData::Udp { streams, sum } && {
                    &&& streams@.len() == 1 && streams@[0] == sum
                    &&& sum.start == recorded.start && sum.end == recorded.end
                    &&& sum.seconds@ == recorded.end@ - recorded.start@
                    &&& sum.bytes == recorded.bytes
                    &&& sum.bits_per_second == recorded.bits_per_second
                    &&& recorded.packets != u64::MAX ==> sum.packets == recorded.packets
                    &&& recorded.packets == u64::MAX ==> sum.packets == 0
                    &&& !sum.omitted && sum.sender
                    &&& sum.socket == (match connection {
                        Some(k) => k.socket_fd,
                        None => None,
                    })
                }
            } else {
                results.intervals@[i] matches IntervalData::Tcp { streams, sum } && {
                    &&& streams@.len() == 1 && streams@[0] == sum
                    &&& sum.start == recorded.start && sum.end == recorded.end
                    &&& sum.seconds@ == recorded.end@ - recorded.start@
                    &&& sum.bytes == recorded.bytes
                    &&& sum.bits_per_second == recorded.bits_per_second
                    &&& sum.tcp_stats == c.inner.intervals.tcp()[i]
                    &&& sum.packets is None && !sum.omitted && sum.sender
                    &&& sum.socket == (match connection {
                        Some(k) => k.socket_fd,
                        None => None,
                    })
                }
            }
        }),
{
    assert(up_to_date(c).intervals@[i].start@ <= up_to_date(c).intervals@[i].end@);
}

/// Law: the start part of a report tells who took part: the connection and its other end, the
/// parameters of the test as they were given, and the host and the time as they are known of the
/// system, or else as they are given.
pub proof fn law_start_tells_the_test(
    results: DetailedTestResults,
    c: MeasurementsCollector,
    connection: Option<ConnectionInfo>,
    system: Option<SystemInfo>,
    config: TestConfig,
    platform: Seq<char>,
    time: Seq<char>,
    timesecs: i64,
    cookie: u128,
)
    requires
        results_shown(
            results,
            c,
            connection,
            system,
            config,
            platform,
            time,
            timesecs,
            cookie,
        ),
    ensures
        results.start.test_start == config,
        connection matches Some(k) ==> {
            &&& results.start.connected@.len() == 1 && results.start.connected@[0] == k
            &&& results.start.connecting_to.host@ == k.remote_host@
            &&& results.start.connecting_to.port == k.remote_port
        },
        connection is None ==> {
            &&& results.start.connected@.len() == 0
            &&& results.start.connecting_to.host@.len() == 0
        },
        system matches Some(s) ==> {
            &&& results.start.system_info@ == s.system_info@
            &&& results.start.timestamp.time@ == s.timestamp_str@
            &&& results.start.timestamp.timesecs == s.timestamp
        },
        system is None ==> {
            &&& results.start.system_info@ == platform
            &&& results.start.timestamp.time@ == time
            &&& results.start.timestamp.timesecs == timesecs
        },
        results.start.cookie@ == numeral(cookie as nat, 16),
        results.start.tcp_mss_default is None <==> names_udp(config.protocol@),
        results.start.tcp_mss_default matches Some(mss) ==> mss == 1448,
        connection is None ==> results.start.connecting_to.port == 5201,
        results.start.version@.take(7) == "rperf3 "@,
        results.start.version@.skip(7) == crate::VERSION@,
        results.start.sock_bufsize == 0,
        names_udp(config.protocol@) ==> results.start.sndbuf_actual == 212992
            && results.start.rcvbuf_actual == 212992,
        !names_udp(config.protocol@) ==> results.start.sndbuf_actual == 16384
            && results.start.rcvbuf_actual == 131072,
{
    law_names_are_joined(platform, time);
}

/// A letter in lower case.
pub open spec fn lower(c: char) -> char {
    if 'A' <= c <= 'Z' {
        (c as u32 + 32) as char
    } else {
        c
    }
}

/// Law: a name is that of UDP just when it reads "udp" in lower case.
pub proof fn law_udp_in_any_case(s: Seq<char>)
    ensures
        names_udp(s) <==> s.map_values(|c: char| lower(c)) == "udp"@,
{
    reveal_strlit("udp");
    let l = s.map_values(|c: char| lower(c));
    if names_udp(s) {
        assert(l =~= "udp"@);
    }
    if l == "udp"@ {
        assert(l.len() == 3);
        assert(l[0] == 'u' && l[1] == 'd' && l[2] == 'p');
        assert(lower(s[0]) == 'u' && lower(s[1]) == 'd' && lower(s[2]) == 'p');
    }
}

/// Law: a test can be reported when none of its intervals ends before it starts and the bytes of both
/// directions can be counted together; a TCP test that took no time needs no such sum.
pub proof fn law_when_a_test_can_be_reported(m: Measurements, udp: bool)
    requires
        forall|i: int|
            0 <= i < m.intervals@.len() ==> (#[trigger] m.intervals@[i]).start@
                <= m.intervals@[i].end@,
    ensures
        m.total_bytes_sent + m.total_bytes_received <= u64::MAX ==> reportable(m, udp),
        !udp && m.total_duration@ == 0 ==> reportable(m, udp),
        udp && m.total_bytes_sent + m.total_bytes_received > u64::MAX ==> !reportable(m, udp),
{
}

} // verus!
