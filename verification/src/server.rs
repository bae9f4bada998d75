//! The server's decisions: what it makes of a client's setup, what it does for each kind of test
//! and what it answers.

use crate::config::{Config, OneWayMode, Protocol};
use crate::error::Error;
use crate::measurements::streams::StreamStats;
use crate::measurements::summary::Measurements;
use crate::number::Binary64;
use crate::protocol::Message;
use crate::text::{append_decimal, decimal};
use crate::time::{whole_secs, Duration, NANOS_PER_SEC};
use vstd::prelude::*;
use vstd::string::*;

verus! {

/// The test that a client asked for.
#[derive(Debug)]
pub enum TestPlan {
    /// A TCP test
    Tcp {
        /// How long it takes
        duration: Duration,
        /// True when the server sends
        reverse: bool,
        /// Target bandwidth in bits per second
        bandwidth: Option<u64>,
    },
    /// A UDP test, with the configuration of the server adapted to it
    Udp(Config),
}

/// The one-way mode that a name on the wire stands for. Any other name stands for none.
pub open spec fn one_way_mode(name: Option<Seq<char>>) -> OneWayMode {
    if name == Some("send"@) {
        OneWayMode::Send
    } else if name == Some("receive"@) {
        OneWayMode::Receive
    } else {
        OneWayMode::Off
    }
}

/// True for the names of UDP that a setup message may have.
pub open spec fn asks_for_udp(name: Seq<char>) -> bool {
    name == "Udp"@ || name == "UDP"@ || name == "udp"@
}

/// The view of an optional text.
pub open spec fn text_view(text: Option<String>) -> Option<Seq<char>> {
    match text {
        Some(t) => Some(t@),
        None => None,
    }
}

/// A duration of whole seconds.
pub open spec fn seconds(n: u64) -> Duration {
    Duration { nanos: (n * NANOS_PER_SEC) as u128 }
}

/// The test that a setup message asks for. Any protocol that is not UDP is TCP.
pub open spec fn plan_of(msg: Message, config: Config) -> Option<TestPlan> {
    match msg {
        Message::Setup {
            version,
            protocol,
            duration,
            bandwidth,
            buffer_size,
            parallel,
            reverse,
            one_way,
            expected_pps,
        } => Some(
            if asks_for_udp(protocol@) {
                TestPlan::Udp(
                    Config {
                        duration: seconds(duration),
                        reverse,
                        bandwidth,
                        buffer_size,
                        one_way: one_way_mode(text_view(one_way)),
                        expected_pps,
                        ..config
                    },
                )
            } else {
                TestPlan::Tcp { duration: seconds(duration), reverse, bandwidth }
            },
        ),
        _ => None,
    }
}

fn read_one_way(name: &Option<String>) -> (r: OneWayMode)
    ensures
        r == one_way_mode(text_view(*name)),
{
    match name {
        Some(text) => {
            proof {
                reveal_strlit("send");
                reveal_strlit("receive");
            }
            if *text == String::from_str("send") {
                OneWayMode::Send
            } else if *text == String::from_str("receive") {
                OneWayMode::Receive
            } else {
                OneWayMode::Off
            }
        },
        None => OneWayMode::Off,
    }
}

fn is_udp(name: &String) -> (r: bool)
    ensures
        r == asks_for_udp(name@),
{
    *name == String::from_str("Udp") || *name == String::from_str("UDP") || *name
        == String::from_str("udp")
}

/// Takes a client's setup message: the test that it asks for. Any other message is an error.
pub fn accept_setup(msg: Message, config: &Config) -> (r: Result<TestPlan, Error>)
    ensures
        match plan_of(msg, *config) {
            Some(plan) => r == Ok::<TestPlan, Error>(plan),
            None => r matches Err(Error::Protocol(text)) && text@ == "Expected Setup message"@,
        },
{
    match msg {
        Message::Setup {
            version: _,
            protocol,
            duration,
            bandwidth,
            buffer_size,
            parallel: _,
            reverse,
            one_way,
            expected_pps,
        } => {
            if is_udp(&protocol) {
                let mut adapted: Config = config.clone();
                adapted.duration = Duration::from_secs(duration);
                adapted.reverse = reverse;
                adapted.bandwidth = bandwidth;
                adapted.buffer_size = buffer_size;
                adapted.one_way = read_one_way(&one_way);
                adapted.expected_pps = expected_pps;
                Ok(TestPlan::Udp(adapted))
            } else {
                Ok(TestPlan::Tcp { duration: Duration::from_secs(duration), reverse, bandwidth })
            }
        },
        _ => Err(Error::Protocol(String::from_str("Expected Setup message"))),
    }
}

/// What a server does in a UDP test.
#[derive(Debug, Clone, Copy, PartialEq, Eq, Structural)]
pub enum UdpRole {
    /// Receive one way, with so many workers
    OneWayReceive(usize),
    /// Send
    Send,
    /// Receive
    Receive,
}

/// What a server does in the UDP test of a configuration.
pub open spec fn role_for(config: Config) -> UdpRole {
    match config.one_way {
        OneWayMode::Send => UdpRole::OneWayReceive(config.recv_workers),
        OneWayMode::Receive => UdpRole::Send,
        OneWayMode::Off => if config.reverse {
            UdpRole::Send
        } else {
            UdpRole::Receive
        },
    }
}

/// What a server does in a UDP test. It sends in a one-way test that the client receives, and in
/// reverse mode.
pub fn udp_role(config: &Config) -> (r: UdpRole)
    ensures
        r == role_for(*config),
        r == match config.one_way {
            OneWayMode::Send => UdpRole::OneWayReceive(config.recv_workers),
            OneWayMode::Receive => UdpRole::Send,
            OneWayMode::Off => if config.reverse {
                UdpRole::Send
            } else {
                UdpRole::Receive
            },
        },
{
    match config.one_way {
        OneWayMode::Send => UdpRole::OneWayReceive(config.recv_workers),
        OneWayMode::Receive => UdpRole::Send,
        OneWayMode::Off => if config.reverse {
            UdpRole::Send
        } else {
            UdpRole::Receive
        },
    }
}

/// True when a one-way test is received by several workers.
pub fn uses_workers(recv_workers: usize) -> (r: bool)
    ensures
        r == (recv_workers > 1),
{
    recv_workers > 1
}

/// The address that a server listens on: an address and a port with a colon between them. Without
/// an address it listens on all interfaces.
pub fn listen_address(bind_addr: Option<String>, port: u16) -> (r: String)
    ensures
        r@ == (match bind_addr {
            Some(addr) => addr@,
            None => "0.0.0.0"@,
        }) + ":"@ + decimal(port as nat),
{
    let mut text: String = match bind_addr {
        Some(addr) => addr,
        None => String::from_str("0.0.0.0"),
    };
    text.append(":");
    append_decimal(&mut text, port as u64);
    text
}

/// The socket buffer size of UDP sockets: the requested one, or 32 megabytes.
pub fn udp_buffer_size(requested: usize) -> (r: usize)
    ensures
        r == if requested == 0 {
            33554432
        } else {
            requested
        },
{
    if requested == 0 {
        32 * 1024 * 1024
    } else {
        requested
    }
}

/// The note on parallel streams in a summary line.
pub fn stream_note(parallel: usize) -> (r: String)
    ensures
        r@ == if parallel > 1 {
            " ("@ + decimal(parallel as nat) + " streams)"@
        } else {
            Seq::empty()
        },
{
    if parallel > 1 {
        let mut text: String = String::from_str(" (");
        append_decimal(&mut text, parallel as u64);
        text.append(" streams)");
        text
    } else {
        String::new()
    }
}

/// The message with the results of a TCP test, if there was any traffic: the bytes of the first
/// stream, and the duration and the throughput of the test in floating-point form.
pub fn result_message(m: &Measurements, duration: Binary64, bits_per_second: Binary64) -> (r:
    Option<Message>)
    ensures
        r == if m.streams@.len() > 0 {
            Some(
                Message::Result {
                    stream_id: 0,
                    bytes_sent: m.streams@[0].bytes_sent,
                    bytes_received: m.streams@[0].bytes_received,
                    duration,
                    bits_per_second,
                    retransmits: None,
                    packets_sent: None,
                    packets_received: None,
                    packet_loss: None,
                    jitter_ms: None,
                    out_of_order: None,
                },
            )
        } else {
            None
        },
{
    if m.streams.len() > 0 {
        let first: StreamStats = m.streams[0];
        Some(
            Message::result(
                0,
                first.bytes_sent,
                first.bytes_received,
                duration,
                bits_per_second,
                None,
            ),
        )
    } else {
        None
    }
}

/// Law: a server understands what a client sets up. A UDP test has the client's parameters, and
/// what else belongs to a configuration is the server's own; a TCP test has the client's duration,
/// direction and bandwidth. Only the whole seconds of the duration are told, so it is exactly the
/// client's when that is of whole seconds that 64 bits can count.
pub proof fn law_setup_understood(msg: Message, client: Config, server: Config)
    requires
        crate::client::sets_up(msg, client),
    ensures
        client.protocol == Protocol::Udp ==> plan_of(msg, server) == Some(
            TestPlan::Udp(
                Config {
                    duration: seconds(whole_secs(client.duration)),
                    reverse: client.reverse,
                    bandwidth: client.bandwidth,
                    buffer_size: client.buffer_size,
                    one_way: client.one_way,
                    expected_pps: if client.one_way == OneWayMode::Off {
                        None
                    } else {
                        client.expected_pps
                    },
                    ..server
                },
            ),
        ),
        client.protocol == Protocol::Tcp ==> plan_of(msg, server) == Some(
            TestPlan::Tcp {
                duration: seconds(whole_secs(client.duration)),
                reverse: client.reverse,
                bandwidth: client.bandwidth,
            },
        ),
        client.duration@ % NANOS_PER_SEC as nat == 0 && client.duration@ / NANOS_PER_SEC as nat
            <= u64::MAX ==> seconds(whole_secs(client.duration)) == client.duration,
{
    reveal_strlit("Udp");
    reveal_strlit("UDP");
    reveal_strlit("udp");
    reveal_strlit("Tcp");
    assert("Tcp"@[0] == 'T' && "Udp"@[0] == 'U' && "UDP"@[0] == 'U' && "udp"@[0] == 'u');
    reveal_strlit("send");
    reveal_strlit("receive");
    assert("send"@.len() != "receive"@.len());
}

/// Law: the names that ask for a UDP test are names of UDP in upper or lower case or both, among them
/// the one that clients use; the name that clients use for TCP is not.
pub proof fn law_names_of_protocols(name: Seq<char>)
    ensures
        asks_for_udp(name) ==> crate::measurements::detailed::names_udp(name),
        asks_for_udp(crate::config::protocol_name(Protocol::Udp)),
        !asks_for_udp(crate::config::protocol_name(Protocol::Tcp)),
        asks_for_udp("UDP"@),
        asks_for_udp("udp"@),
{
    reveal_strlit("Udp");
    reveal_strlit("UDP");
    reveal_strlit("udp");
    reveal_strlit("Tcp");
    assert("Tcp"@[0] == 'T' && "Udp"@[0] == 'U' && "UDP"@[0] == 'U' && "udp"@[0] == 'u');
}

/// Law: a setup of a UDP test is understood as it was said, in seconds of a thousand million
/// nanoseconds, and changes nothing else of the server's configuration.
pub proof fn law_plan_says_what_was_asked(msg: Message, config: Config)
    ensures
        plan_of(msg, config) is Some <==> msg is Setup,
        msg matches Message::Setup {
            protocol,
            duration,
            bandwidth,
            buffer_size,
            reverse,
            one_way,
            expected_pps,
            ..
        } ==> match plan_of(msg, config) {
            Some(TestPlan::Udp(plan)) => {
                &&& asks_for_udp(protocol@)
                &&& plan.duration@ == duration * 1_000_000_000
                &&& plan.bandwidth == bandwidth && plan.buffer_size == buffer_size
                &&& plan.reverse == reverse && plan.expected_pps == expected_pps
                &&& plan.port == config.port && plan.parallel == config.parallel
                &&& plan.recv_workers == config.recv_workers && plan.socket_buf
                    == config.socket_buf
                &&& plan.json == config.json && plan.interval == config.interval
                &&& plan.one_way == OneWayMode::Send <==> one_way is Some && one_way->0@ == "send"@
                &&& plan.one_way == OneWayMode::Receive <==> one_way is Some && one_way->0@
                    == "receive"@
            },
            Some(TestPlan::Tcp { duration: d, reverse: r, bandwidth: b }) => {
                &&& !asks_for_udp(protocol@)
                &&& d@ == duration * 1_000_000_000 && r == reverse && b == bandwidth
            },
            None => false,
        },
{
    reveal_strlit("send");
    reveal_strlit("receive");
    assert("send"@.len() != "receive"@.len());
}

/// Law: in every UDP test one side sends and the other one receives: the server that understood a
/// client's setup sends just when the client receives, and it receives one way just when the client
/// sends one way. Only a client in reverse mode, or one that receives one way, receives.
pub proof fn law_one_sends_one_receives(msg: Message, client: Config, server: Config)
    requires
        crate::client::sets_up(msg, client),
        client.protocol == Protocol::Udp,
    ensures
        plan_of(msg, server) matches Some(TestPlan::Udp(plan)) && {
            let own = crate::client::plan_for(client);
            &&& role_for(plan) is Send <==> own is Receive || own is OneWayReceive
            &&& role_for(plan) is OneWayReceive <==> own is OneWaySend || own is OneWaySendParallel
            &&& role_for(plan) is Receive <==> own is Send
            &&& own is Receive || own is OneWayReceive <==> client.one_way == OneWayMode::Receive
                || (client.one_way == OneWayMode::Off && client.reverse)
            &&& own is OneWaySendParallel <==> client.one_way == OneWayMode::Send && client.parallel
                > 1
            &&& own matches crate::client::UdpPlan::OneWaySendParallel(n) ==> n == client.parallel
        },
{
    law_setup_understood(msg, client, server);
}

} // verus!
