//! Detailed results, the host and texts.

use rperf3::measurements::detailed::{can_report, is_udp_name};
use rperf3::measurements::{
    get_system_info, ConnectionInfo, IntervalData, IntervalStats, MeasurementsCollector,
    SystemInfo, TcpFigures, TcpInfo, TcpStats, TestConfig, TestEndInfo,
};
use rperf3::number::{BitRate, Percent};
use rperf3::system::{moment_of, platform_name, program_version, system_info_from};
use rperf3::text::{chars_of, parse_u64, text_of, to_decimal, to_hex, trim_bounds};
use rperf3::time::Duration;
use rperf3::transfer::TransferLoop;
use rperf3::VERSION;

fn config(protocol: &str) -> TestConfig {
    TestConfig {
        protocol: protocol.to_string(),
        num_streams: 1,
        blksize: 1500,
        omit: 0,
        duration: 10,
        reverse: false,
    }
}

fn connection() -> ConnectionInfo {
    ConnectionInfo {
        socket_fd: Some(9),
        local_host: "127.0.0.1".to_string(),
        local_port: 4000,
        remote_host: "10.1.2.3".to_string(),
        remote_port: 5300,
    }
}

fn collector() -> MeasurementsCollector {
    let mut c = MeasurementsCollector::new();
    c.record_bytes_sent(5, 600);
    c.record_bytes_received(5, 400);
    c.add_interval(IntervalStats {
        start: Duration::from_millis(500),
        end: Duration::from_millis(1500),
        bytes: 1000,
        bits_per_second: BitRate { bytes: 1000, over: Duration::from_secs(1) },
        packets: u64::MAX,
    });
    c.record_udp_packet_received(0, 1, 2);
    c.record_udp_packet_received(3, 1, 2);
    c.record_udp_packet_received(2, 1, 2);
    c.set_duration(Duration::from_secs(2));
    c.sync_atomic_counters();
    c
}

#[test]
fn tcp_report() {
    let r = collector().detailed_results_at(
        Some(connection()),
        None,
        config("Tcp"),
        "linux x86_64".to_string(),
        "now".to_string(),
        77,
        0xabc0,
    );
    assert_eq!(r.start.connected.len(), 1);
    assert_eq!(r.start.connected[0].remote_host, "10.1.2.3");
    assert_eq!(r.start.version, "rperf3 0.6.2");
    assert_eq!(r.start.system_info, "linux x86_64");
    assert_eq!((r.start.timestamp.time.as_str(), r.start.timestamp.timesecs), ("now", 77));
    assert_eq!((r.start.connecting_to.host.as_str(), r.start.connecting_to.port), ("10.1.2.3", 5300));
    assert_eq!(r.start.cookie, "abc0");
    assert_eq!(r.start.tcp_mss_default, Some(1448));
    assert_eq!(
        (r.start.sock_bufsize, r.start.sndbuf_actual, r.start.rcvbuf_actual),
        (0, 16384, 131072)
    );
    assert_eq!(r.start.test_start.blksize, 1500);
    assert_eq!(r.intervals.len(), 1);
    match &r.intervals[0] {
        IntervalData::Tcp { streams, sum } => {
            assert_eq!(streams.len(), 1);
            assert_eq!(streams[0], *sum);
            assert_eq!(sum.socket, Some(9));
            assert_eq!(sum.seconds, Duration::from_secs(1));
            assert_eq!((sum.bytes, sum.packets), (1000, None));
            assert_eq!(sum.tcp_stats, TcpStats::default());
            assert!(sum.sender && !sum.omitted);
        }
        IntervalData::Udp { .. } => panic!("Expected a TCP interval"),
    }
    match r.end {
        TestEndInfo::Tcp {
            streams,
            sum_sent,
            sum_received,
            cpu_utilization_percent,
            sender_tcp_congestion,
            ..
        } => {
            let two = Duration::from_secs(2);
            assert_eq!(streams.len(), 1);
            assert_eq!(streams[0].sender, *sum_sent);
            assert_eq!(streams[0].receiver, *sum_received);
            assert_eq!(sum_sent.bytes, 600);
            assert_eq!(sum_sent.bits_per_second, BitRate { bytes: 1000, over: two });
            assert_eq!(sum_received.bytes, 400);
            assert_eq!(sum_received.bits_per_second, BitRate { bytes: 400, over: two });
            assert_eq!((sum_sent.start, sum_sent.end), (Duration::zero(), two));
            assert!(cpu_utilization_percent.is_none());
            assert_eq!(sender_tcp_congestion, Some("cubic".to_string()));
        }
        TestEndInfo::Udp { .. } => panic!("Expected a TCP end"),
    }
}

fn reading(retransmits: u32, segments: u32, rtt: u32) -> Option<TcpStats> {
    Some(TcpStats::from_tcp_info(Some(TcpInfo {
        total_retrans: retransmits,
        snd_cwnd: segments,
        snd_mss: 1000,
        rtt,
        rttvar: 4,
        pmtu: 1500,
    })))
}

#[test]
fn tcp_report_has_the_figures_of_the_socket() {
    let mut c = MeasurementsCollector::new();
    let mut l = TransferLoop::new(Duration::from_secs(9), Duration::from_secs(1));
    let second = Duration::from_secs(1);
    for (n, stats) in [reading(2, 10, 300), reading(2, 40, 100), reading(9, 20, 201)]
        .into_iter()
        .enumerate()
    {
        l.tcp_sent(&mut c, 5, 100);
        l.close_tcp_interval(&mut c, 5, Duration::from_secs(n as u64 + 1), second, stats, true);
    }
    // The socket once more at the end
    c.record_tcp_stats(&reading(11, 5, 400).unwrap());
    let r = c.get_detailed_results(None, None, config("Tcp"), "a", "b");
    let again: Vec<u64> = r
        .intervals
        .iter()
        .map(|i| match i {
            IntervalData::Tcp { streams, sum } => {
                assert_eq!(streams[0], *sum);
                assert_eq!(sum.tcp_stats.rttvar_opt(), Some(4));
                sum.tcp_stats.retransmits
            }
            IntervalData::Udp { .. } => panic!("Expected a TCP interval"),
        })
        .collect();
    assert_eq!(again, vec![2, 0, 7]);
    let TestEndInfo::Tcp { streams, sum_sent, sum_received, .. } = r.end else {
        panic!("Expected a TCP end");
    };
    assert_eq!(streams[0].sender, *sum_sent);
    assert_eq!((sum_sent.retransmits, sum_sent.max_snd_cwnd), (11, Some(40_000)));
    assert_eq!((sum_sent.min_rtt, sum_sent.max_rtt), (Some(100), Some(400)));
    assert_eq!(sum_sent.mean_rtt, Some(250)); // 1001 / 4
    // Nothing is known of the other side
    assert_eq!((sum_received.retransmits, sum_received.mean_rtt), (0, None));
    let mut reverse = config("Tcp");
    reverse.reverse = true;
    let r = c.get_detailed_results(None, None, reverse, "a", "b");
    let TestEndInfo::Tcp { sum_sent, sum_received, .. } = r.end else {
        panic!("Expected a TCP end");
    };
    assert_eq!((sum_sent.retransmits, sum_sent.max_snd_cwnd), (0, None));
    assert_eq!((sum_received.max_rtt, sum_received.min_rtt), (Some(400), Some(100)));
}

#[test]
fn figures_without_readings() {
    let mut f = TcpFigures::new();
    assert_eq!((f.retransmits, f.max_snd_cwnd, f.mean_rtt()), (0, None, None));
    f.observe(&TcpStats { retransmits: 6, rtt: 77, snd_cwnd: 88, ..TcpStats::default() });
    // Values without their flags do not count
    assert_eq!((f.retransmits, f.max_snd_cwnd, f.max_rtt, f.mean_rtt()), (6, None, None, None));
    f.observe(&TcpStats::default());
    assert_eq!(f.retransmits, 6);
}

#[test]
fn udp_report() {
    let system = SystemInfo {
        version: "v".to_string(),
        system_info: "host".to_string(),
        timestamp: 5,
        timestamp_str: "five".to_string(),
    };
    let r = collector().detailed_results_at(
        None,
        Some(system),
        config("uDp"),
        "ignored".to_string(),
        "ignored".to_string(),
        0,
        0,
    );
    assert!(r.start.connected.is_empty());
    assert_eq!(r.start.system_info, "host");
    assert_eq!((r.start.timestamp.time.as_str(), r.start.timestamp.timesecs), ("five", 5));
    assert_eq!((r.start.connecting_to.host.as_str(), r.start.connecting_to.port), ("", 5201));
    assert_eq!(r.start.cookie, "0");
    assert_eq!(r.start.tcp_mss_default, None);
    assert_eq!((r.start.sndbuf_actual, r.start.rcvbuf_actual), (212992, 212992));
    match &r.intervals[0] {
        IntervalData::Udp { streams, sum } => {
            assert_eq!(streams[0], *sum);
            assert_eq!(sum.packets, 0); // not counted
            assert_eq!(sum.socket, None);
        }
        IntervalData::Tcp { .. } => panic!("Expected a UDP interval"),
    }
    match r.end {
        TestEndInfo::Udp { streams, sum, .. } => {
            let udp = streams[0].udp;
            assert_eq!(udp.bytes, 1000);
            assert_eq!((udp.lost_packets, udp.packets), (1, 4));
            assert_eq!(udp.lost_percent, Percent { part: 1, whole: 4 });
            assert_eq!(udp.out_of_order, Some(1));
            assert!(udp.sender);
            assert_eq!((sum.lost_packets, sum.packets, sum.sender), (1, 4, true));
            assert_eq!(sum.bits_per_second, udp.bits_per_second);
        }
        TestEndInfo::Tcp { .. } => panic!("Expected a UDP end"),
    }
}

#[test]
fn report_of_the_present_host() {
    let r = collector().get_detailed_results(None, None, config("Tcp"), "linux", "x86_64");
    assert_eq!(r.start.system_info, "linux x86_64");
    // The time in the form of RFC 2822
    assert!(r.start.timestamp.time.contains("+0000"));
    assert!(r.start.timestamp.timesecs > 1_600_000_000);
    assert!(!r.start.cookie.is_empty() && r.start.cookie.len() <= 32);
    assert!(r.start.cookie.chars().all(|c| c.is_ascii_hexdigit() && !c.is_ascii_uppercase()));
    let other = collector().get_detailed_results(None, None, config("Tcp"), "linux", "x86_64");
    assert_ne!(r.start.cookie, other.start.cookie);
}

#[test]
fn totals_of_the_whole_test_are_reported() {
    let mut c = MeasurementsCollector::new();
    c.record_bytes_sent(0, 1024);
    assert!(c.can_report(false));
    let r = c.get_detailed_results(None, None, config("Tcp"), "a", "b");
    match r.end {
        TestEndInfo::Tcp { sum_sent, sum_received, .. } => {
            assert_eq!((sum_sent.bytes, sum_received.bytes), (1024, 0));
        }
        TestEndInfo::Udp { .. } => panic!("Expected a TCP end"),
    }
    c.record_bytes_received(3, 76);
    let r = c.get_detailed_results(None, None, config("UDP"), "a", "b");
    match r.end {
        TestEndInfo::Udp { sum, .. } => assert_eq!(sum.bytes, 1100),
        TestEndInfo::Tcp { .. } => panic!("Expected a UDP end"),
    }
    c.record_bytes_sent(0, u64::MAX - 2000);
    assert!(c.can_report(true));
    c.record_bytes_sent(0, 901);
    assert!(!c.can_report(true));
}

#[test]
fn what_can_be_reported() {
    let mut c = collector();
    assert!(can_report(&c.inner, true));
    c.inner.total_bytes_sent = u64::MAX;
    assert!(!can_report(&c.inner, true));
    assert!(!can_report(&c.inner, false));
    c.inner.total_duration = Duration::zero();
    assert!(can_report(&c.inner, false));
    c.add_interval(IntervalStats {
        start: Duration::from_secs(2),
        end: Duration::from_secs(1),
        bytes: 0,
        bits_per_second: BitRate::of(0, Duration::zero()),
        packets: 0,
    });
    assert!(!can_report(&c.inner, false));
}

#[test]
fn udp_by_name() {
    for name in ["UDP", "udp", "Udp", "uDP"] {
        assert!(is_udp_name(name));
    }
    for name in ["", "TCP", "UDPX", "UD", "\u{fffd}DP"] {
        assert!(!is_udp_name(name));
    }
}

#[test]
fn host_information() {
    assert_eq!(VERSION, "0.6.2");
    assert_eq!(program_version(), "rperf3 0.6.2");
    assert_eq!(platform_name("linux", "arm"), "linux arm");
    let known = system_info_from("os", "arch", Some("box".to_string()), 3, "t".to_string());
    assert_eq!(known.system_info, "os arch box");
    assert_eq!((known.timestamp, known.timestamp_str.as_str()), (3, "t"));
    let unknown = system_info_from("os", "arch", None, 3, "t".to_string());
    assert_eq!(unknown.system_info, "os arch unknown");
    let here = get_system_info("linux", "x86_64");
    assert!(here.system_info.starts_with("linux x86_64 "));
    assert!(here.system_info.len() > "linux x86_64 ".len());
    assert_eq!(here.version, "rperf3 0.6.2");
    assert!(here.timestamp > 1_600_000_000);
    assert!(here.timestamp_str.ends_with("+0000"));
    assert_eq!(moment_of(Some(here.timestamp as u128 * 1_000_000)).1, here.timestamp_str);
    let copy = here.clone();
    assert_eq!(copy.system_info, here.system_info);
    assert_eq!(connection().clone().local_port, 4000);
}

#[test]
fn moments_in_words() {
    let words = |reading| {
        let (seconds, text) = moment_of(reading);
        (seconds, text)
    };
    assert_eq!(
        words(Some(1_431_648_000_999_999)),
        (1_431_648_000, "Fri, 15 May 2015 00:00:00 +0000".to_string())
    );
    let epoch = (0, "Thu, 1 Jan 1970 00:00:00 +0000".to_string());
    assert_eq!(words(Some(0)), epoch);
    assert_eq!(words(None), epoch);
    let last = (253_402_300_799, "Fri, 31 Dec 9999 23:59:59 +0000".to_string());
    assert_eq!(words(Some(253_402_300_799_000_000)), last);
    assert_eq!(words(Some(u128::MAX)), last);
}

#[test]
fn numbers_in_text() {
    for n in [0u64, 7, 10, 99, 100, 5201, u64::MAX] {
        assert_eq!(to_decimal(n), format!("{}", n));
        let chars = chars_of(&to_decimal(n));
        assert_eq!(parse_u64(&chars, 0, chars.len()), Some(n));
    }
    for n in [0u128, 9, 10, 15, 16, 255, u64::MAX as u128, u128::MAX] {
        assert_eq!(to_hex(n), format!("{:x}", n));
    }
    let chars = chars_of("\u{a0} x\u{3000}y \n");
    let (from, to) = trim_bounds(&chars);
    assert_eq!(text_of(&chars, from, to), "\u{a0} x\u{3000}y \n".trim());
    let blank = chars_of(" \t ");
    let (from, to) = trim_bounds(&blank);
    assert_eq!(from, to);
}
