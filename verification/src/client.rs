//! The client's decisions: what it says to the server, what it does for each kind of test and
//! what it shows at the end.

use crate::config::{protocol_name, Config, OneWayMode, Protocol};
use crate::error::Error;
use crate::measurements::collector::MeasurementsCollector;
use crate::measurements::detailed::TestConfig;
use crate::measurements::one_way::{OneWayRecvStats, OneWaySendStats};
use crate::measurements::summary::Measurements;
use crate::measurements::udp::loss;
use crate::number::{
    byte_unit_of, rate_of, rate_unit_of, share_of, Binary64, BitRate, ByteUnit, Percent, RateUnit,
};
use crate::protocol::{Message, PROTOCOL_VERSION};
use crate::text::{append_decimal, decimal};
use crate::time::{whole_secs, Duration};
use crate::transfer::{shown_packets, IntervalReport};
use vstd::prelude::*;
use vstd::string::*;

verus! {

/// Progress event types reported during test execution.
#[allow(inconsistent_fields)]
#[derive(Debug)]
pub enum ProgressEvent {
    /// Test is starting
    TestStarted,
    /// Interval update with statistics
    IntervalUpdate {
        /// Start of the interval, counted from the start of the test
        interval_start: Duration,
        /// End of the interval, counted from the start of the test
        interval_end: Duration,
        /// Bytes transferred in the interval
        bytes: u64,
        /// Throughput of the interval
        bits_per_second: BitRate,
        /// Packets of the interval, where they are counted
        packets: Option<u64>,
        /// Jitter in milliseconds, where it is measured
        jitter_ms: Option<Binary64>,
        /// Packets lost so far, where they are counted
        lost_packets: Option<u64>,
        /// Share of the packets lost so far, where they are counted
        lost_percent: Option<Percent>,
        /// Segments sent again in the interval, if there were any
        retransmits: Option<u64>,
    },
    /// Test completed with final measurements
    TestCompleted {
        /// Bytes transferred in both directions
        total_bytes: u64,
        /// Duration of the test
        duration: Duration,
        /// Throughput of the test
        bits_per_second: BitRate,
        /// Packets, for UDP
        total_packets: Option<u64>,
        /// Jitter in milliseconds, for UDP
        jitter_ms: Option<Binary64>,
        /// Packets lost, for UDP
        lost_packets: Option<u64>,
        /// Share of the packets that were lost, for UDP
        lost_percent: Option<Percent>,
        /// Packets out of order, for UDP
        out_of_order: Option<u64>,
    },
    /// Error occurred
    Error(String),
}

impl IntervalReport {
    /// The event for a report.
    pub fn to_event(&self) -> (r: ProgressEvent)
        ensures
            r == (ProgressEvent::IntervalUpdate {
                interval_start: self.interval_start,
                interval_end: self.interval_end,
                bytes: self.bytes,
                bits_per_second: self.bits_per_second,
                packets: self.packets,
                jitter_ms: self.jitter_ms,
                lost_packets: self.lost_packets,
                lost_percent: self.lost_percent,
                retransmits: self.retransmits,
            }),
    {
        ProgressEvent::IntervalUpdate {
            interval_start: self.interval_start,
            interval_end: self.interval_end,
            bytes: self.bytes,
            bits_per_second: self.bits_per_second,
            packets: self.packets,
            jitter_ms: self.jitter_ms,
            lost_packets: self.lost_packets,
            lost_percent: self.lost_percent,
            retransmits: self.retransmits,
        }
    }
}

/// Checks that a configuration is fit for a client: it has to name a server.
pub fn check_config(config: &Config) -> (r: Result<(), Error>)
    ensures
        match r {
            Ok(()) => config.server_addr is Some,
            Err(e) => config.server_addr is None && (e matches Error::Config(text) && text@
                == "Server address is required for client mode"@),
        },
{
    if config.server_addr.is_none() {
        Err(Error::Config(String::from_str("Server address is required for client mode")))
    } else {
        Ok(())
    }
}

/// The address that a client connects to: host and port with a colon between them.
pub fn server_address(config: &Config) -> (r: Result<String, Error>)
    ensures
        match config.server_addr {
            Some(host) => r matches Ok(text) && text@ == host@ + ":"@ + decimal(
                config.port as nat,
            ),
            None => r matches Err(Error::Config(text)) && text@ == "Server address not set"@,
        },
{
    match &config.server_addr {
        Some(host) => {
            let mut text: String = host.clone();
            text.append(":");
            append_decimal(&mut text, config.port as u64);
            Ok(text)
        },
        None => Err(Error::Config(String::from_str("Server address not set"))),
    }
}

/// The name of a one-way mode on the wire.
pub open spec fn one_way_name(mode: OneWayMode) -> Option<Seq<char>> {
    match mode {
        OneWayMode::Send => Some("send"@),
        OneWayMode::Receive => Some("receive"@),
        OneWayMode::Off => None,
    }
}

/// True when a message sets up the test of a configuration. The expected packet rate only goes
/// with a one-way test.
pub open spec fn sets_up(msg: Message, config: Config) -> bool {
    msg matches Message::Setup {
        version,
        protocol,
        duration,
        bandwidth,
        buffer_size,
        parallel,
        reverse,
        one_way,
        expected_pps,
    } && {
        &&& version == PROTOCOL_VERSION
        &&& protocol@ == protocol_name(config.protocol)
        &&& duration == whole_secs(config.duration)
        &&& bandwidth == config.bandwidth
        &&& buffer_size == config.buffer_size
        &&& parallel == config.parallel
        &&& reverse == config.reverse
        &&& match one_way {
            Some(name) => one_way_name(config.one_way) == Some(name@),
            None => one_way_name(config.one_way) is None,
        }
        &&& expected_pps == if config.one_way == OneWayMode::Off {
            None
        } else {
            config.expected_pps
        }
    }
}

/// The message that sets up the test of a configuration.
pub fn setup_message(config: &Config) -> (r: Message)
    ensures
        sets_up(r, *config),
{
    let protocol: String = String::from_str(config.protocol.as_str());
    let (one_way, expected_pps): (Option<String>, Option<u64>) = match config.one_way {
        OneWayMode::Send => (Some(String::from_str("send")), config.expected_pps),
        OneWayMode::Receive => (Some(String::from_str("receive")), config.expected_pps),
        OneWayMode::Off => (None, None),
    };
    if one_way.is_some() {
        Message::setup_with_one_way(
            protocol,
            config.duration,
            config.bandwidth,
            config.buffer_size,
            config.parallel,
            config.reverse,
            one_way,
            expected_pps,
        )
    } else {
        Message::setup(
            protocol,
            config.duration,
            config.bandwidth,
            config.buffer_size,
            config.parallel,
            config.reverse,
        )
    }
}

/// Takes the server's answer to the setup: the port and the session of the test, or why there is
/// none.
pub fn read_setup_ack(msg: Message) -> (r: Result<(u16, String), Error>)
    ensures
        match msg {
            Message::SetupAck { port, cookie } => r == Ok::<(u16, String), Error>((port, cookie)),
            Message::Error { message } => r matches Err(Error::Protocol(text)) && text@
                == "Server error: "@ + message@,
            _ => r matches Err(Error::Protocol(text)) && text@ == "Expected SetupAck message"@,
        },
{
    match msg {
        Message::SetupAck { port, cookie } => Ok((port, cookie)),
        Message::Error { message } => {
            let mut text: String = String::from_str("Server error: ");
            text.append(message.as_str());
            Err(Error::Protocol(text))
        },
        _ => Err(Error::Protocol(String::from_str("Expected SetupAck message"))),
    }
}

/// Takes the server's start signal.
pub fn read_start(msg: Message) -> (r: Result<u64, Error>)
    ensures
        match msg {
            Message::Start { timestamp } => r == Ok::<u64, Error>(timestamp),
            _ => r matches Err(Error::Protocol(text)) && text@ == "Expected Start message"@,
        },
{
    match msg {
        Message::Start { timestamp } => Ok(timestamp),
        _ => Err(Error::Protocol(String::from_str("Expected Start message"))),
    }
}

/// What a client does in a UDP test.
#[derive(Debug, Clone, Copy, PartialEq, Eq, Structural)]
pub enum UdpPlan {
    /// Send one way on one stream
    OneWaySend,
    /// Send one way on so many streams
    OneWaySendParallel(usize),
    /// Receive one way
    OneWayReceive,
    /// Tell the server the port, then receive
    Receive,
    /// Send
    Send,
}

/// What a client does in the UDP test of a configuration.
pub open spec fn plan_for(config: Config) -> UdpPlan {
    match config.one_way {
        OneWayMode::Send => if config.parallel <= 1 {
            UdpPlan::OneWaySend
        } else {
            UdpPlan::OneWaySendParallel(config.parallel)
        },
        OneWayMode::Receive => UdpPlan::OneWayReceive,
        OneWayMode::Off => if config.reverse {
            UdpPlan::Receive
        } else {
            UdpPlan::Send
        },
    }
}

/// What a client does in a UDP test. One-way modes come before the reverse mode.
pub fn udp_plan(config: &Config) -> (r: UdpPlan)
    ensures
        r == plan_for(*config),
        r == match config.one_way {
            OneWayMode::Send => if config.parallel <= 1 {
                UdpPlan::OneWaySend
            } else {
                UdpPlan::OneWaySendParallel(config.parallel)
            },
            OneWayMode::Receive => UdpPlan::OneWayReceive,
            OneWayMode::Off => if config.reverse {
                UdpPlan::Receive
            } else {
                UdpPlan::Send
            },
        },
{
    match config.one_way {
        OneWayMode::Send => if config.parallel <= 1 {
            UdpPlan::OneWaySend
        } else {
            UdpPlan::OneWaySendParallel(config.parallel)
        },
        OneWayMode::Receive => UdpPlan::OneWayReceive,
        OneWayMode::Off => if config.reverse {
            UdpPlan::Receive
        } else {
            UdpPlan::Send
        },
    }
}

/// The parameters of a test for its report.
pub fn test_config(config: &Config) -> (r: TestConfig)
    ensures
        r.protocol@ == protocol_name(config.protocol),
        r.num_streams == config.parallel,
        r.blksize == config.buffer_size,
        r.omit == 0,
        r.duration == whole_secs(config.duration),
        r.reverse == config.reverse,
{
    TestConfig {
        protocol: String::from_str(config.protocol.as_str()),
        num_streams: config.parallel,
        blksize: config.buffer_size,
        omit: 0,
        duration: config.duration.as_secs(),
        reverse: config.reverse,
    }
}

/// The buffer size for a requested length: a UDP test that asks for the default of TCP gets
/// packets of 1500 bytes.
pub fn buffer_size_for(udp: bool, length: usize) -> (r: usize)
    ensures
        r == if udp && length == 131072 {
            1500
        } else {
            length
        },
{
    if udp && length == 131072 {
        1500
    } else {
        length
    }
}

/// True when the bytes of both directions together can be counted.
pub fn can_total(c: &MeasurementsCollector) -> (r: bool)
    ensures
        r == (c.bytes_sent + c.bytes_received <= u64::MAX),
{
    c.bytes_sent <= u64::MAX - c.bytes_received
}

/// The event at the end of a TCP test.
pub fn tcp_completed(c: &MeasurementsCollector) -> (r: ProgressEvent)
    requires
        c.wf(),
        c.bytes_sent + c.bytes_received <= u64::MAX,
    ensures
        r == (ProgressEvent::TestCompleted {
            total_bytes: (c.bytes_sent + c.bytes_received) as u64,
            duration: c.inner.total_duration,
            bits_per_second: rate_of(
                (c.bytes_sent + c.bytes_received) as u64,
                c.inner.total_duration,
            ),
            total_packets: None,
            jitter_ms: None,
            lost_packets: None,
            lost_percent: None,
            out_of_order: None,
        }),
        r matches ProgressEvent::TestCompleted { total_bytes, duration, bits_per_second, .. } && {
            &&& total_bytes == c.bytes_sent + c.bytes_received
            &&& duration == c.inner.total_duration
            &&& duration@ > 0 ==> bits_per_second.bytes == total_bytes && bits_per_second.over
                == duration
            &&& duration@ == 0 ==> bits_per_second.bytes == 0
        },
{
    let m: Measurements = c.get();
    ProgressEvent::TestCompleted {
        total_bytes: m.total_bytes_sent + m.total_bytes_received,
        duration: m.total_duration,
        bits_per_second: m.total_bits_per_second(),
        total_packets: None,
        jitter_ms: None,
        lost_packets: None,
        lost_percent: None,
        out_of_order: None,
    }
}

/// The event at the end of a UDP test.
pub fn udp_completed(c: &MeasurementsCollector) -> (r: ProgressEvent)
    requires
        c.wf(),
        c.bytes_sent + c.bytes_received <= u64::MAX,
    ensures
        r == (ProgressEvent::TestCompleted {
            total_bytes: (c.bytes_sent + c.bytes_received) as u64,
            duration: c.inner.total_duration,
            bits_per_second: rate_of(
                (c.bytes_sent + c.bytes_received) as u64,
                c.inner.total_duration,
            ),
            total_packets: Some(shown_packets(*c)),
            jitter_ms: Some(c.inner.jitter_ms),
            lost_packets: Some(loss(c.udp_state@).0),
            lost_percent: Some(share_of(loss(c.udp_state@).0, loss(c.udp_state@).1)),
            out_of_order: Some(c.inner.out_of_order_packets),
        }),
        r matches ProgressEvent::TestCompleted { total_bytes, duration, bits_per_second, .. } && {
            &&& total_bytes == c.bytes_sent + c.bytes_received
            &&& duration == c.inner.total_duration
            &&& duration@ > 0 ==> bits_per_second.bytes == total_bytes && bits_per_second.over
                == duration
            &&& duration@ == 0 ==> bits_per_second.bytes == 0
        },
{
    let m: Measurements = c.get();
    let (lost, expected) = c.calculate_udp_loss();
    ProgressEvent::TestCompleted {
        total_bytes: m.total_bytes_sent + m.total_bytes_received,
        duration: m.total_duration,
        bits_per_second: m.total_bits_per_second(),
        total_packets: Some(m.total_packets),
        jitter_ms: Some(m.jitter_ms),
        lost_packets: Some(lost),
        lost_percent: Some(Percent::of(lost, expected)),
        out_of_order: Some(m.out_of_order_packets),
    }
}

/// The event at the end of a one-way test that the client sent. A sender measures neither loss nor
/// jitter.
pub fn one_way_sent(stats: &OneWaySendStats) -> (r: ProgressEvent)
    ensures
        r == (ProgressEvent::TestCompleted {
            total_bytes: stats.bytes_sent,
            duration: stats.duration,
            bits_per_second: rate_of(stats.bytes_sent, stats.duration),
            total_packets: Some(stats.packets_sent),
            jitter_ms: None,
            lost_packets: None,
            lost_percent: None,
            out_of_order: None,
        }),
        r matches ProgressEvent::TestCompleted { total_bytes, duration, bits_per_second, .. } && {
            &&& total_bytes == stats.bytes_sent
            &&& duration == stats.duration
            &&& duration@ > 0 ==> bits_per_second.bytes == total_bytes && bits_per_second.over
                == duration
            &&& duration@ == 0 ==> bits_per_second.bytes == 0
        },
{
    ProgressEvent::TestCompleted {
        total_bytes: stats.bytes_sent,
        duration: stats.duration,
        bits_per_second: BitRate::of(stats.bytes_sent, stats.duration),
        total_packets: Some(stats.packets_sent),
        jitter_ms: None,
        lost_packets: None,
        lost_percent: None,
        out_of_order: None,
    }
}

/// The event at the end of a one-way test that the client received. The lost share is known where
/// an expected packet rate is.
pub fn one_way_received(stats: &OneWayRecvStats) -> (r: ProgressEvent)
    ensures
        r == (ProgressEvent::TestCompleted {
            total_bytes: stats.bytes_received,
            duration: stats.duration,
            bits_per_second: rate_of(stats.bytes_received, stats.duration),
            total_packets: Some(stats.packets_received),
            jitter_ms: Some(stats.jitter_ms),
            lost_packets: match stats.packet_loss {
                Some(share) => Some(share.part),
                None => None,
            },
            lost_percent: stats.packet_loss,
            out_of_order: Some(stats.out_of_order),
        }),
        r matches ProgressEvent::TestCompleted { total_bytes, duration, bits_per_second, .. } && {
            &&& total_bytes == stats.bytes_received
            &&& duration == stats.duration
            &&& duration@ > 0 ==> bits_per_second.bytes == total_bytes && bits_per_second.over
                == duration
            &&& duration@ == 0 ==> bits_per_second.bytes == 0
        },
{
    ProgressEvent::TestCompleted {
        total_bytes: stats.bytes_received,
        duration: stats.duration,
        bits_per_second: BitRate::of(stats.bytes_received, stats.duration),
        total_packets: Some(stats.packets_received),
        jitter_ms: Some(stats.jitter_ms),
        lost_packets: match stats.packet_loss {
            Some(share) => Some(share.part),
            None => None,
        },
        lost_percent: stats.packet_loss,
        out_of_order: Some(stats.out_of_order),
    }
}

/// The line between the intervals and the summary of a test.
pub const RULE: &'static str = "- - - - - - - - - - - - - - - - - - - - - - - - -";

/// The header over the summary of a TCP test, and over the intervals of one that receives.
pub const TCP_HEADER: &'static str = "[ ID] Interval           Transfer        Bitrate            Retr";

/// The header over the intervals of a TCP test that sends.
pub const TCP_SEND_HEADER: &'static str =
    "[ ID] Interval           Transfer        Bitrate            Retr  Cwnd";

/// The header over the intervals of a UDP test.
pub const UDP_HEADER: &'static str =
    "[ ID] Interval           Transfer        Bitrate            Total Datagrams";

/// The header over the summary of a UDP test.
pub const UDP_SUMMARY_HEADER: &'static str =
    "[ ID] Interval           Transfer        Bitrate            Jitter    Lost/Total Datagrams";

/// The header over the intervals of a TCP test.
pub fn tcp_interval_header(reverse: bool) -> (r: &'static str)
    ensures
        r == if reverse {
            TCP_HEADER
        } else {
            TCP_SEND_HEADER
        },
{
    if reverse {
        TCP_HEADER
    } else {
        TCP_SEND_HEADER
    }
}

/// What the summary says of one direction of a test.
#[derive(Debug, Clone, Copy, PartialEq, Eq, Structural)]
pub struct Volume {
    /// Bytes transferred
    pub bytes: u64,
    /// The unit that they are shown in
    pub unit: ByteUnit,
    /// Throughput
    pub rate: BitRate,
    /// The unit that it is shown in
    pub rate_unit: RateUnit,
}

/// What the summary of a UDP test says of one direction.
#[derive(Debug, Clone, Copy, PartialEq, Eq, Structural)]
pub struct UdpLine {
    /// The traffic
    pub volume: Volume,
    /// Jitter in milliseconds; a sender measures none
    pub jitter_ms: Binary64,
    /// Packets lost
    pub lost: u64,
    /// Packets expected
    pub expected: u64,
    /// Share of the packets that were lost
    pub lost_percent: Percent,
}

/// The summary of a test.
#[allow(inconsistent_fields)]
#[derive(Debug, Clone, Copy, PartialEq, Eq)]
pub enum Summary {
    /// Of a TCP test: what was sent, and what was received if anything was
    Tcp {
        /// The sender's line
        sender: Volume,
        /// Segments that the sender sent again, as far as they are known
        retransmits: u64,
        /// The receiver's line
        receiver: Option<Volume>,
    },
    /// Of a UDP test: what was sent and what was received, as far as anything was
    Udp {
        /// The sender's line
        sender: Option<UdpLine>,
        /// The receiver's line
        receiver: Option<UdpLine>,
    },
}

/// The traffic of one direction.
pub open spec fn volume_of(bytes: u64, over: Duration, least: ByteUnit) -> Volume {
    Volume {
        bytes,
        unit: byte_unit_of(bytes, least),
        rate: BitRate { bytes, over },
        rate_unit: rate_unit_of(BitRate { bytes, over }),
    }
}

fn volume(bytes: u64, over: Duration, least: ByteUnit) -> (r: Volume)
    ensures
        r == volume_of(bytes, over, least),
{
    let rate = BitRate { bytes, over };
    Volume { bytes, unit: ByteUnit::of(bytes, least), rate, rate_unit: RateUnit::of(&rate) }
}

/// The lost and the expected packets of a summary: a test that received nothing lost nothing.
pub open spec fn summary_loss(m: Measurements) -> (u64, u64) {
    if m.total_bytes_received > 0 {
        (m.lost_packets, m.total_packets)
    } else {
        (0, m.total_packets)
    }
}

/// One direction of a UDP test, if there was any traffic.
pub open spec fn udp_line_of(m: Measurements, bytes: u64, jitter_ms: Binary64) -> Option<UdpLine> {
    if bytes > 0 {
        let (lost, expected) = summary_loss(m);
        Some(
            UdpLine {
                volume: volume_of(bytes, m.total_duration, ByteUnit::Kilo),
                jitter_ms,
                lost,
                expected,
                lost_percent: share_of(lost, expected),
            },
        )
    } else {
        None
    }
}

/// The summary of a test whose sender sent so many segments again. A test with packets is a UDP
/// test.
pub open spec fn summary_of(m: Measurements, retransmits: u64) -> Summary {
    if m.total_packets == 0 {
        Summary::Tcp {
            sender: volume_of(m.total_bytes_sent, m.total_duration, ByteUnit::Mega),
            retransmits,
            receiver: if m.total_bytes_received > 0 {
                Some(volume_of(m.total_bytes_received, m.total_duration, ByteUnit::Mega))
            } else {
                None
            },
        }
    } else {
        Summary::Udp {
            sender: udp_line_of(m, m.total_bytes_sent, Binary64 { bits: 0 }),
            receiver: udp_line_of(m, m.total_bytes_received, m.jitter_ms),
        }
    }
}

fn udp_line(m: &Measurements, bytes: u64, jitter_ms: Binary64) -> (r: Option<UdpLine>)
    ensures
        r == udp_line_of(*m, bytes, jitter_ms),
{
    if bytes == 0 {
        return None;
    }
    let (lost, expected): (u64, u64) = if m.total_bytes_received > 0 {
        m.calculate_udp_loss()
    } else {
        (0, m.total_packets)
    };
    Some(
        UdpLine {
            volume: volume(bytes, m.total_duration, ByteUnit::Kilo),
            jitter_ms,
            lost,
            expected,
            lost_percent: Percent::of(lost, expected),
        },
    )
}

/// The summary of a test whose sender sent so many segments again.
pub fn summarize(m: &Measurements, retransmits: u64) -> (r: Summary)
    ensures
        r == summary_of(*m, retransmits),
{
    if m.total_packets == 0 {
        Summary::Tcp {
            sender: volume(m.total_bytes_sent, m.total_duration, ByteUnit::Mega),
            retransmits,
            receiver: if m.total_bytes_received > 0 {
                Some(volume(m.total_bytes_received, m.total_duration, ByteUnit::Mega))
            } else {
                None
            },
        }
    } else {
        Summary::Udp {
            sender: udp_line(m, m.total_bytes_sent, Binary64::zero()),
            receiver: udp_line(m, m.total_bytes_received, m.jitter_ms),
        }
    }
}

/// True when a line of a summary shows some bytes over some time: these bytes, a throughput that is
/// the bytes over that time, and units that fit both.
pub open spec fn shows(v: Volume, bytes: u64, over: Duration, with_kilo: bool) -> bool {
    &&& v.bytes == bytes
    &&& v.rate.bytes == bytes
    &&& v.rate.over == over
    &&& over@ > 0 ==> (v.rate_unit == RateUnit::Giga <==> 8 * bytes >= over@)
    &&& over@ == 0 ==> (v.rate_unit == RateUnit::Giga <==> bytes > 0)
    &&& v.unit == ByteUnit::Giga <==> bytes >= 1_000_000_000
    &&& v.unit == ByteUnit::Kilo <==> with_kilo && bytes < 1_000_000
}

/// Law: each line of a summary shows the bytes of its direction over the whole duration of the test.
/// A TCP test has a line for what it sent and one for what it received, if anything; a UDP test has
/// lines for what there was. A test with packets is a UDP test.
pub proof fn law_summary_shows_the_whole_test(m: Measurements, retransmits: u64)
    ensures
        summary_of(m, retransmits) is Tcp <==> m.total_packets == 0,
        summary_of(m, retransmits) matches Summary::Tcp { sender, retransmits: again, receiver }
            ==> {
            &&& again == retransmits
            &&& shows(sender, m.total_bytes_sent, m.total_duration, false)
            &&& receiver is Some <==> m.total_bytes_received > 0
            &&& receiver matches Some(line) ==> shows(
                line,
                m.total_bytes_received,
                m.total_duration,
                false,
            )
        },
        summary_of(m, retransmits) matches Summary::Udp { sender, receiver } ==> {
            &&& sender is Some <==> m.total_bytes_sent > 0
            &&& receiver is Some <==> m.total_bytes_received > 0
            &&& sender matches Some(line) ==> shows(
                line.volume,
                m.total_bytes_sent,
                m.total_duration,
                true,
            )
            &&& receiver matches Some(line) ==> shows(
                line.volume,
                m.total_bytes_received,
                m.total_duration,
                true,
            )
        },
{
}

/// Law: the lines of a UDP summary tell the loss of the test: of all its packets those that were
/// lost, if anything was received, and else none, each with its share. Only the receiver's line has
/// the jitter.
pub proof fn law_summary_tells_loss(m: Measurements, retransmits: u64)
    ensures
        summary_of(m, retransmits) matches Summary::Udp { sender, receiver } ==> {
            &&& receiver matches Some(line) ==> {
                &&& line.lost == m.lost_packets && line.expected == m.total_packets
                &&& line.lost_percent.part == m.lost_packets
                &&& line.lost_percent.whole == m.total_packets
                &&& line.jitter_ms == m.jitter_ms
            }
            &&& sender matches Some(line) ==> {
                &&& line.expected == m.total_packets
                &&& line.lost_percent.whole == m.total_packets
                &&& m.total_bytes_received > 0 ==> line.lost == m.lost_packets
                &&& m.total_bytes_received == 0 ==> line.lost == 0
                &&& line.lost_percent.part == line.lost
                &&& line.jitter_ms.bits == 0
            }
        },
{
}

/// Law: a setup tells the server the configuration as it stands, in whole seconds, and how many
/// packets to expect only for a test in one direction.
pub proof fn law_setup_tells_the_configuration(msg: Message, config: Config)
    requires
        sets_up(msg, config),
    ensures
        msg matches Message::Setup {
            version,
            protocol,
            duration,
            bandwidth,
            buffer_size,
            parallel,
            reverse,
            one_way,
            expected_pps,
        } && {
            &&& version == 1
            &&& config.protocol == Protocol::Tcp ==> protocol@ == "Tcp"@
            &&& config.protocol == Protocol::Udp ==> protocol@ == "Udp"@
            &&& duration * 1_000_000_000 <= config.duration@
            &&& duration < u64::MAX ==> config.duration@ < (duration + 1) * 1_000_000_000
            &&& bandwidth == config.bandwidth && buffer_size == config.buffer_size
            &&& parallel == config.parallel && reverse == config.reverse
            &&& one_way is None <==> config.one_way == OneWayMode::Off
            &&& one_way matches Some(name) ==> {
                &&& config.one_way == OneWayMode::Send ==> name@ == "send"@
                &&& config.one_way == OneWayMode::Receive ==> name@ == "receive"@
            }
            &&& config.one_way == OneWayMode::Off ==> expected_pps is None
            &&& config.one_way != OneWayMode::Off ==> expected_pps == config.expected_pps
        },
{
    crate::time::law_whole_seconds_fit(config.duration);
}

} // verus!
