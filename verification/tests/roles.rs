//! The decisions of client and server.

use rperf3::client::{
    buffer_size_for, can_total, check_config, one_way_received, one_way_sent, read_setup_ack,
    read_start, server_address, setup_message, summarize, tcp_completed, tcp_interval_header,
    test_config, udp_completed, udp_plan, ProgressEvent, Summary, UdpPlan, TCP_HEADER,
    TCP_SEND_HEADER,
};
use rperf3::config::{Config, OneWayMode, Protocol};
use rperf3::error::Error;
use rperf3::measurements::{
    Measurements, MeasurementsCollector, OneWayRecvStats, OneWaySendStats, ServerOneWayStats,
};
use rperf3::number::{Binary64, BitRate, ByteUnit, Percent, RateUnit};
use rperf3::protocol::Message;
use rperf3::server::{
    accept_setup, listen_address, result_message, stream_note, udp_buffer_size, udp_role,
    uses_workers, TestPlan, UdpRole,
};
use rperf3::session::{
    closing_messages, one_way_closing_messages, opening_messages, udp_closing_messages,
    udp_loss_share, ClientEvent, ClientSession, Phase, SessionError,
};
use rperf3::time::Duration;
use rperf3::transfer::TransferLoop;

fn client() -> Config {
    Config::client("10.0.0.9".to_string(), 5201)
}

#[test]
fn clients_need_a_server() {
    assert!(check_config(&client()).is_ok());
    let err = check_config(&Config::server(1)).unwrap_err();
    assert!(matches!(err, Error::Config(_)));
    assert_eq!(err.text(), "Server address is required for client mode");
    assert_eq!(server_address(&client()).unwrap(), "10.0.0.9:5201");
    assert_eq!(server_address(&Config::new()).unwrap_err().text(), "Server address not set");
}

#[test]
fn setup_carries_the_configuration() {
    let config = client()
        .with_protocol(Protocol::Udp)
        .with_duration(Duration::from_millis(7500))
        .with_bandwidth(1_000_000)
        .with_buffer_size(1400)
        .with_parallel(3)
        .with_reverse(true)
        .with_expected_pps(50);
    match setup_message(&config) {
        Message::Setup {
            version,
            protocol,
            duration,
            bandwidth,
            buffer_size,
            parallel,
            reverse,
            one_way,
            expected_pps,
        } => {
            assert_eq!(version, 1);
            assert_eq!(protocol, "Udp");
            assert_eq!(duration, 7);
            assert_eq!(bandwidth, Some(1_000_000));
            assert_eq!((buffer_size, parallel, reverse), (1400, 3, true));
            // The packet rate only goes with a one-way test
            assert_eq!((one_way, expected_pps), (None, None));
        }
        _ => panic!("Expected Setup message"),
    }
    match setup_message(&config.with_one_way_receive()) {
        Message::Setup { one_way, expected_pps, .. } => {
            assert_eq!((one_way, expected_pps), (Some("receive".to_string()), Some(50)));
        }
        _ => panic!("Expected Setup message"),
    }
}

#[test]
fn server_understands_the_setup() {
    let server = Config::server(6000).with_recv_workers(4);
    let config = client().with_duration(Duration::from_secs(3)).with_bandwidth(8);
    match accept_setup(setup_message(&config), &server).unwrap() {
        TestPlan::Tcp { duration, reverse, bandwidth } => {
            assert_eq!(duration, Duration::from_secs(3));
            assert!(!reverse);
            assert_eq!(bandwidth, Some(8));
        }
        TestPlan::Udp(_) => panic!("Expected a TCP test"),
    }
    let config = config
        .with_protocol(Protocol::Udp)
        .with_one_way_send()
        .with_expected_pps(9)
        .with_buffer_size(99);
    match accept_setup(setup_message(&config), &server).unwrap() {
        TestPlan::Udp(adapted) => {
            assert_eq!(adapted.port, 6000);
            assert_eq!(adapted.duration, Duration::from_secs(3));
            assert_eq!(adapted.one_way, OneWayMode::Send);
            assert_eq!(adapted.expected_pps, Some(9));
            assert_eq!(adapted.buffer_size, 99);
            assert_eq!(adapted.recv_workers, 4);
            assert_eq!(adapted.parallel, 1);
            assert_eq!(udp_role(&adapted), UdpRole::OneWayReceive(4));
        }
        TestPlan::Tcp { .. } => panic!("Expected a UDP test"),
    }
    let err = accept_setup(Message::done(), &server).unwrap_err();
    assert!(matches!(err, Error::Protocol(_)));
    assert_eq!(err.text(), "Expected Setup message");
}

fn setup(protocol: &str, one_way: Option<&str>) -> Message {
    Message::setup_with_one_way(
        protocol.to_string(),
        Duration::from_secs(1),
        None,
        1500,
        1,
        false,
        one_way.map(|s| s.to_string()),
        None,
    )
}

#[test]
fn names_of_protocols_and_modes() {
    let server = Config::server(1);
    for name in ["UDP", "Udp", "udp"] {
        assert!(matches!(accept_setup(setup(name, None), &server), Ok(TestPlan::Udp(_))));
    }
    assert!(matches!(accept_setup(setup("TCP", None), &server), Ok(TestPlan::Tcp { .. })));
    for name in ["Tcp", "tcp", "uDp", "UDp", "", "UDPX"] {
        assert!(matches!(accept_setup(setup(name, None), &server), Ok(TestPlan::Tcp { .. })));
    }
    for (name, mode) in [
        (Some("send"), OneWayMode::Send),
        (Some("receive"), OneWayMode::Receive),
        (Some("Send"), OneWayMode::Off),
        (None, OneWayMode::Off),
    ] {
        match accept_setup(setup("Udp", name), &server).unwrap() {
            TestPlan::Udp(config) => assert_eq!(config.one_way, mode),
            TestPlan::Tcp { .. } => panic!("Expected a UDP test"),
        }
    }
}

#[test]
fn plans_of_both_sides() {
    let base = client();
    assert_eq!(udp_plan(&base), UdpPlan::Send);
    assert_eq!(udp_role(&base), UdpRole::Receive);
    let reverse = client().with_reverse(true);
    assert_eq!(udp_plan(&reverse), UdpPlan::Receive);
    assert_eq!(udp_role(&reverse), UdpRole::Send);
    let receive = client().with_one_way_receive();
    assert_eq!(udp_plan(&receive), UdpPlan::OneWayReceive);
    assert_eq!(udp_role(&receive), UdpRole::Send);
    assert_eq!(udp_plan(&client().with_one_way_send().with_parallel(0)), UdpPlan::OneWaySend);
    let many = client().with_one_way_send().with_parallel(8).with_reverse(true);
    assert_eq!(udp_plan(&many), UdpPlan::OneWaySendParallel(8));
    assert!(uses_workers(2));
    assert!(!uses_workers(1));
    assert_eq!(buffer_size_for(true, 131072), 1500);
    assert_eq!(buffer_size_for(false, 131072), 131072);
    assert_eq!(buffer_size_for(true, 9000), 9000);
}

#[test]
fn server_texts() {
    assert_eq!(listen_address(None, 5201), "0.0.0.0:5201");
    assert_eq!(listen_address(Some("::1".to_string()), 0), "::1:0");
    assert_eq!(stream_note(12), " (12 streams)");
    assert_eq!(stream_note(1), "");
    assert_eq!(udp_buffer_size(0), 33_554_432);
    assert_eq!(udp_buffer_size(5), 5);
    assert_eq!(tcp_interval_header(true), TCP_HEADER);
    assert_eq!(tcp_interval_header(false), TCP_SEND_HEADER);
}

#[test]
fn answers_to_the_client() {
    let (port, cookie) = read_setup_ack(Message::setup_ack(7, "c".to_string())).unwrap();
    assert_eq!((port, cookie.as_str()), (7, "c"));
    let err = read_setup_ack(Message::error("busy".to_string())).unwrap_err();
    assert_eq!(err.text(), "Server error: busy");
    let err = read_setup_ack(Message::start(1)).unwrap_err();
    assert_eq!(err.text(), "Expected SetupAck message");
    assert_eq!(read_start(Message::start(99)).unwrap(), 99);
    assert_eq!(read_start(Message::done()).unwrap_err().text(), "Expected Start message");
}

#[test]
fn a_whole_session() {
    let (ack, start) = opening_messages(5201, "1.2.3.4:5".to_string(), 1_700_000_000);
    let mut c = MeasurementsCollector::new();
    let mut l = TransferLoop::new(Duration::from_secs(1), Duration::from_secs(1));
    l.tcp_received(&mut c, 0, 1000);
    c.set_duration(Duration::from_secs(1));
    let zero = Binary64::zero();
    let (result, done) = closing_messages(&c.get(), zero, zero);
    let mut session = ClientSession::new();
    assert!(session.wants_message());
    assert_eq!(session.on_event(ClientEvent::Received(ack)).unwrap(), Phase::AwaitStart);
    assert_eq!(session.on_event(ClientEvent::Received(start)).unwrap(), Phase::Transfer);
    assert!(!session.wants_message());
    assert_eq!(session.on_event(ClientEvent::TransferEnded).unwrap(), Phase::AwaitResult);
    assert_eq!(
        session.on_event(ClientEvent::Received(result.unwrap())).unwrap(),
        Phase::AwaitDone
    );
    assert_eq!(session.on_event(ClientEvent::Received(done)).unwrap(), Phase::Finished);
    assert!(matches!(
        session.on_event(ClientEvent::Unreadable),
        Err(SessionError::OutOfTurn)
    ));
}

#[test]
fn interval_messages_do_not_end_a_session() {
    let zero = Binary64::zero();
    let interval = || ClientEvent::Received(Message::interval(5, zero, zero, 10, zero));
    let mut session = ClientSession::new();
    assert!(matches!(session.on_event(interval()), Err(SessionError::Refused(_))));
    session.phase = Phase::Transfer;
    assert_eq!(session.on_event(interval()).unwrap(), Phase::Transfer);
    assert!(matches!(
        session.on_event(ClientEvent::Received(Message::done())),
        Err(SessionError::OutOfTurn)
    ));
    assert_eq!(session.on_event(ClientEvent::TransferEnded).unwrap(), Phase::AwaitResult);
    for _ in 0..3 {
        assert_eq!(session.on_event(interval()).unwrap(), Phase::AwaitResult);
    }
    let result = Message::result(0, 1, 2, zero, zero, None);
    assert_eq!(session.on_event(ClientEvent::Received(result)).unwrap(), Phase::AwaitDone);
    let done = ClientEvent::Received(Message::done());
    assert_eq!(session.on_event(done).unwrap(), Phase::Finished);
}

#[test]
fn sessions_that_break() {
    let mut session = ClientSession::new();
    assert!(matches!(session.on_event(ClientEvent::Unreadable), Err(SessionError::Unreadable)));
    match session.on_event(ClientEvent::Received(Message::error("no".to_string()))) {
        Err(SessionError::Refused(e)) => assert_eq!(e.text(), "Server error: no"),
        _ => panic!("Expected a refusal"),
    }
    assert_eq!(session.phase, Phase::AwaitAck);
    assert!(matches!(
        session.on_event(ClientEvent::TransferEnded),
        Err(SessionError::OutOfTurn)
    ));
    session.phase = Phase::AwaitResult;
    assert_eq!(session.on_event(ClientEvent::Unreadable).unwrap(), Phase::AwaitDone);
    assert_eq!(session.on_event(ClientEvent::Unreadable).unwrap(), Phase::Finished);
}

#[test]
fn results_of_the_first_stream() {
    let mut c = MeasurementsCollector::new();
    let one = Binary64::from_bits(1.0f64.to_bits());
    assert!(result_message(&c.get(), one, one).is_none());
    c.record_bytes_sent(3, 30);
    c.record_bytes_sent(4, 40);
    match result_message(&c.get(), one, Binary64::zero()) {
        Some(Message::Result { stream_id, bytes_sent, bytes_received, duration, .. }) => {
            assert_eq!((stream_id, bytes_sent, bytes_received), (0, 30, 0));
            assert_eq!(duration, one);
        }
        _ => panic!("Expected Result message"),
    }
}

#[test]
fn completion_events() {
    let mut c = MeasurementsCollector::new();
    c.record_bytes_sent(5, 600);
    c.record_bytes_received(5, 400);
    c.record_udp_packet_received(3, 10, 20);
    c.set_duration(Duration::from_secs(2));
    assert!(can_total(&c));
    match tcp_completed(&c) {
        ProgressEvent::TestCompleted { total_bytes, duration, bits_per_second, total_packets, .. } => {
            assert_eq!((total_bytes, duration), (1000, Duration::from_secs(2)));
            assert_eq!(bits_per_second, BitRate { bytes: 1000, over: Duration::from_secs(2) });
            assert_eq!(total_packets, None);
        }
        _ => panic!("Expected TestCompleted"),
    }
    match udp_completed(&c) {
        ProgressEvent::TestCompleted {
            total_packets,
            lost_packets,
            lost_percent,
            out_of_order,
            ..
        } => {
            assert_eq!((total_packets, lost_packets), (Some(4), Some(3)));
            assert_eq!(lost_percent, Some(Percent { part: 3, whole: 4 }));
            assert_eq!(out_of_order, Some(0));
        }
        _ => panic!("Expected TestCompleted"),
    }
    c.bytes_sent = u64::MAX;
    assert!(!can_total(&c));
}

#[test]
fn report_becomes_an_event() {
    let mut c = MeasurementsCollector::new();
    let mut l = TransferLoop::new(Duration::from_secs(9), Duration::from_secs(1));
    l.tcp_sent(&mut c, 5, 80);
    let second = Duration::from_secs(1);
    let report = l.close_tcp_interval(&mut c, 5, second, second, None, true);
    match report.to_event() {
        ProgressEvent::IntervalUpdate { interval_start, interval_end, bytes, packets, .. } => {
            assert_eq!((interval_start, interval_end), (Duration::zero(), second));
            assert_eq!((bytes, packets), (80, None));
        }
        _ => panic!("Expected IntervalUpdate"),
    }
}

#[test]
fn summary_of_a_tcp_test() {
    let mut m = Measurements::new();
    m.total_bytes_sent = 999_999_999;
    m.total_duration = Duration::from_secs(1);
    match summarize(&m, 17) {
        Summary::Tcp { sender, retransmits, receiver } => {
            assert_eq!(retransmits, 17);
            assert_eq!(sender.unit, ByteUnit::Mega);
            assert_eq!(sender.rate_unit, RateUnit::Giga);
            assert_eq!(receiver, None);
        }
        Summary::Udp { .. } => panic!("Expected a TCP summary"),
    }
    m.total_bytes_received = 1_000_000_000;
    m.total_duration = Duration::from_secs(10);
    match summarize(&m, 0) {
        Summary::Tcp { sender, receiver, .. } => {
            assert_eq!(sender.rate_unit, RateUnit::Mega);
            let receiver = receiver.unwrap();
            assert_eq!((receiver.bytes, receiver.unit), (1_000_000_000, ByteUnit::Giga));
            assert_eq!(receiver.rate, BitRate { bytes: 1_000_000_000, over: m.total_duration });
        }
        Summary::Udp { .. } => panic!("Expected a TCP summary"),
    }
}

#[test]
fn summary_of_a_udp_test() {
    let mut m = Measurements::new();
    m.total_packets = 10;
    m.lost_packets = 2;
    m.total_bytes_sent = 5000;
    m.total_duration = Duration::from_secs(1);
    m.jitter_ms = Binary64::from_bits(0.25f64.to_bits());
    match summarize(&m, 0) {
        Summary::Udp { sender, receiver } => {
            let sender = sender.unwrap();
            assert_eq!(sender.volume.unit, ByteUnit::Kilo);
            assert_eq!((sender.lost, sender.expected), (0, 10));
            assert_eq!(sender.jitter_ms, Binary64::zero());
            assert_eq!(receiver, None);
        }
        Summary::Tcp { .. } => panic!("Expected a UDP summary"),
    }
    m.total_bytes_received = 2_000_000;
    m.total_bytes_sent = 0;
    match summarize(&m, 0) {
        Summary::Udp { sender, receiver } => {
            assert_eq!(sender, None);
            let receiver = receiver.unwrap();
            assert_eq!(receiver.volume.unit, ByteUnit::Mega);
            assert_eq!((receiver.lost, receiver.expected), (2, 10));
            assert_eq!(receiver.lost_percent, Percent { part: 2, whole: 10 });
            assert_eq!(receiver.jitter_ms, m.jitter_ms);
        }
        Summary::Tcp { .. } => panic!("Expected a UDP summary"),
    }
}

#[test]
fn units() {
    let second = Duration::from_secs(1);
    assert_eq!(RateUnit::of(&BitRate { bytes: 125_000_000, over: second }), RateUnit::Giga);
    assert_eq!(RateUnit::of(&BitRate { bytes: 124_999_999, over: second }), RateUnit::Mega);
    assert_eq!(RateUnit::of(&BitRate { bytes: 0, over: second }), RateUnit::Mega);
    assert_eq!(RateUnit::of(&BitRate { bytes: 1, over: Duration::zero() }), RateUnit::Giga);
    assert_eq!(RateUnit::of(&BitRate { bytes: 0, over: Duration::zero() }), RateUnit::Mega);
    assert_eq!((RateUnit::Mega.name(), RateUnit::Giga.name()), ("Mbits/sec", "Gbits/sec"));
    assert_eq!((RateUnit::Mega.scale(), RateUnit::Giga.scale()), (1_000_000, 1_000_000_000));
    assert_eq!(ByteUnit::of(999_999, ByteUnit::Kilo), ByteUnit::Kilo);
    assert_eq!(ByteUnit::of(999_999, ByteUnit::Mega), ByteUnit::Mega);
    assert_eq!(ByteUnit::Kilo.name(), "KBytes");
    assert_eq!(ByteUnit::Giga.scale(), 1_000_000_000);
}

#[test]
fn report_parameters() {
    let config = client().with_parallel(2).with_reverse(true).with_duration(Duration::from_millis(1999));
    let t = test_config(&config);
    assert_eq!(t.protocol, "Tcp");
    assert_eq!((t.num_streams, t.blksize, t.omit, t.duration), (2, 131072, 0, 1));
    assert!(t.reverse);
}

#[test]
fn a_udp_test_is_closed_with_its_results() {
    let mut c = MeasurementsCollector::new();
    c.record_bytes_received(0, 300);
    for sequence in [0, 1, 1, 3] {
        c.record_udp_packet_received(sequence, 0, 0);
    }
    let two = Binary64::from_bits(2.0f64.to_bits());
    c.set_jitter(Binary64::zero(), two);
    assert_eq!(udp_loss_share(&c), Percent { part: 1, whole: 4 });
    let (result, done) = udp_closing_messages(&c, two, Binary64::zero(), two);
    match &result {
        Message::Result {
            stream_id,
            bytes_sent,
            bytes_received,
            packets_sent,
            packets_received,
            packet_loss,
            jitter_ms,
            out_of_order,
            ..
        } => {
            assert_eq!((*stream_id, *bytes_sent, *bytes_received), (0, 0, 300));
            assert_eq!((*packets_sent, *packets_received), (Some(0), Some(4)));
            assert_eq!((*packet_loss, *jitter_ms, *out_of_order), (Some(two), Some(two), Some(0)));
        }
        _ => panic!("Expected Result message"),
    }
    let mut session = ClientSession::new();
    session.phase = Phase::Transfer;
    assert_eq!(session.on_event(ClientEvent::TransferEnded).unwrap(), Phase::AwaitResult);
    assert_eq!(session.on_event(ClientEvent::Received(result)).unwrap(), Phase::AwaitDone);
    assert_eq!(session.on_event(ClientEvent::Received(done)).unwrap(), Phase::Finished);
}

#[test]
fn a_one_way_test_is_closed_with_its_results() {
    let one = Binary64::from_bits(1.0f64.to_bits());
    let stats = ServerOneWayStats {
        bytes_received: 80,
        packets_received: 10,
        out_of_order: 2,
        ..ServerOneWayStats::default()
    };
    let (result, done) = one_way_closing_messages(&stats, one, one, Binary64::zero());
    assert!(matches!(done, Message::Done));
    match result {
        Message::Result { bytes_sent, bytes_received, packets_received, out_of_order, .. } => {
            assert_eq!((bytes_sent, bytes_received), (0, 80));
            assert_eq!((packets_received, out_of_order), (Some(10), Some(2)));
        }
        _ => panic!("Expected Result message"),
    }
}

#[test]
fn one_way_tests_end_with_an_event() {
    let second = Duration::from_secs(1);
    let sent = OneWaySendStats { bytes_sent: 500, packets_sent: 5, duration: second };
    match one_way_sent(&sent) {
        ProgressEvent::TestCompleted { total_bytes, total_packets, lost_packets, .. } => {
            assert_eq!((total_bytes, total_packets, lost_packets), (500, Some(5), None));
        }
        _ => panic!("Expected the end of a test"),
    }
    let received = OneWayRecvStats {
        bytes_received: 400,
        packets_received: 4,
        out_of_order: 1,
        packet_loss: Some(Percent { part: 1, whole: 5 }),
        jitter_ms: Binary64::zero(),
        duration: second,
    };
    match one_way_received(&received) {
        ProgressEvent::TestCompleted { bits_per_second, lost_packets, out_of_order, .. } => {
            assert_eq!(bits_per_second, BitRate { bytes: 400, over: second });
            assert_eq!((lost_packets, out_of_order), (Some(1), Some(1)));
        }
        _ => panic!("Expected the end of a test"),
    }
}
