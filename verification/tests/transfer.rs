//! Transfer loops, pacing and the UDP sender.

use rperf3::batch_socket::UdpSendBatch;
use rperf3::measurements::{IntervalStats, MeasurementsCollector, TcpInfo, TcpStats};
use rperf3::net::{IpAddr, SocketAddr};
use rperf3::number::{Binary64, BitRate, Percent};
use rperf3::pacing::{Pace, Pacer};
use rperf3::time::Duration;
use rperf3::transfer::{
    payload_size, poll_time, remaining_poll_time, Arrived, Reaction, Step, TransferLoop,
    UdpReceiver, UdpReport,
};
use rperf3::udp_packet::{packet_at, parse_packet};
use rperf3::udp_sender::UdpSender;

fn ms(n: u64) -> Duration {
    Duration::from_millis(n)
}

#[test]
fn a_loop_ends_in_time_or_when_cancelled() {
    let l = TransferLoop::new(ms(1000), ms(100));
    assert_eq!(l.next_step(ms(0), false), Step::Transfer);
    assert_eq!(l.next_step(ms(999), false), Step::Transfer);
    assert_eq!(l.next_step(ms(1000), false), Step::TimeUp);
    assert_eq!(l.next_step(ms(1000), true), Step::TimeUp);
    assert_eq!(l.next_step(ms(5), true), Step::Cancelled);
    assert!(!l.report_due(ms(99)));
    assert!(l.report_due(ms(100)));
}

#[test]
fn reactions_to_arrivals() {
    let l = TransferLoop::new(ms(1000), ms(100));
    assert_eq!(l.on_arrival(Arrived::Bytes(5)), Reaction::Take(5));
    assert_eq!(l.on_arrival(Arrived::Bytes(0)), Reaction::Stop);
    assert_eq!(l.on_arrival(Arrived::Timeout), Reaction::Again);
    assert_eq!(l.on_arrival(Arrived::Failed), Reaction::Stop);
    assert_eq!(l.on_datagram(Arrived::Bytes(0)), Reaction::Take(0));
    assert_eq!(l.on_datagram(Arrived::Timeout), Reaction::Again);
    assert_eq!(l.on_datagram(Arrived::Failed), Reaction::Stop);
    assert_eq!(poll_time(), ms(100));
    assert_eq!(remaining_poll_time(ms(1000), ms(950)), ms(50));
    assert_eq!(remaining_poll_time(ms(1000), ms(100)), ms(100));
    assert_eq!(remaining_poll_time(ms(1000), ms(1001)), ms(0));
    let (client, server) = (UdpReceiver::Client, UdpReceiver::Server);
    assert_eq!((client.wait(ms(1000), ms(950)), server.wait(ms(1000), ms(950))), (ms(100), ms(50)));
    assert!(client.counts_foreign() && !server.counts_foreign());
    assert_eq!((client.report_kind(), server.report_kind()), (UdpReport::Full, UdpReport::Present));
}

#[test]
fn payloads_fill_the_buffer() {
    assert_eq!(payload_size(1500), 1480);
    assert_eq!(payload_size(21), 1);
    assert_eq!(payload_size(20), 1024);
    assert_eq!(payload_size(0), 1024);
}

fn stats(retransmits: u32) -> Option<TcpStats> {
    Some(TcpStats::from_tcp_info(Some(TcpInfo {
        total_retrans: retransmits,
        snd_cwnd: 10,
        snd_mss: 1448,
        rtt: 1,
        rttvar: 1,
        pmtu: 1500,
    })))
}

#[test]
fn tcp_intervals() {
    let mut c = MeasurementsCollector::new();
    let mut l = TransferLoop::new(ms(10_000), ms(1000));
    l.tcp_sent(&mut c, 5, 700);
    l.tcp_sent(&mut c, 5, 300);
    let report = l.close_tcp_interval(&mut c, 5, ms(1000), ms(1000), stats(3), true);
    assert_eq!(report.stream_id, 5);
    assert_eq!((report.interval_start, report.interval_end), (ms(0), ms(1000)));
    assert_eq!(report.bytes, 1000);
    assert_eq!(report.bits_per_second, BitRate { bytes: 1000, over: ms(1000) });
    assert_eq!(report.retransmits, Some(3));
    assert_eq!(report.cwnd, Some(14)); // 14480 / 1024
    assert_eq!((report.packets, report.jitter_ms, report.lost_packets), (None, None, None));
    l.tcp_received(&mut c, 5, 50);
    let report = l.close_tcp_interval(&mut c, 5, ms(2100), ms(1100), stats(3), false);
    assert_eq!((report.interval_start, report.interval_end), (ms(1000), ms(2100)));
    assert_eq!(report.bytes, 50);
    assert_eq!((report.retransmits, report.cwnd), (None, None));
    let report = l.close_tcp_interval(&mut c, 5, ms(3000), ms(900), None, true);
    assert_eq!((report.bytes, report.retransmits, report.cwnd), (0, None, None));
    assert_eq!(l.last_retransmits, 0);
    assert_eq!((c.bytes_sent, c.bytes_received), (1000, 50));
    let kept = c.inner.intervals.iter();
    assert_eq!(
        kept[1],
        IntervalStats {
            start: ms(1000),
            end: ms(2100),
            bytes: 50,
            bits_per_second: BitRate { bytes: 50, over: ms(1100) },
            packets: u64::MAX,
        }
    );
    let all: u64 = kept.iter().map(|i| i.bytes).sum();
    assert_eq!(all + l.interval_bytes, c.bytes_sent + c.bytes_received);
    // What the socket told goes with the intervals
    let told = |at: usize| c.inner.intervals.tcp_at(at);
    assert_eq!(told(0), stats(3));
    assert_eq!(told(1), Some(TcpStats { retransmits: 0, ..stats(3).unwrap() }));
    assert_eq!(told(2), Some(TcpStats::default()));
    assert_eq!(told(3), None);
    assert_eq!(c.tcp.retransmits, 3);
}

#[test]
fn packets_are_in_one_interval_each() {
    let mut c = MeasurementsCollector::new();
    let mut l = TransferLoop::new(ms(10_000), ms(1000));
    for (bytes, packets) in [(100, 1), (200, 2), (0, 0), (500, 5)] {
        l.udp_sent(&mut c, 0, bytes, packets);
        l.close_udp_interval(&mut c, 0, ms(1000), ms(1000), UdpReport::SentOnly);
    }
    l.udp_sent(&mut c, 0, 70, 7);
    let recorded: u64 = c.inner.intervals.iter().iter().map(|i| i.packets).sum();
    assert_eq!((recorded, l.interval_packets, c.packets), (8, 7, 15));
}

#[test]
fn udp_intervals_of_a_sender() {
    let mut c = MeasurementsCollector::new();
    let mut l = TransferLoop::new(ms(10_000), ms(1000));
    assert!(l.can_count(u64::MAX, u64::MAX));
    l.udp_sent(&mut c, 0, 3000, 2);
    assert!(!l.can_count(u64::MAX, 0));
    let report = l.close_udp_interval(&mut c, 5, ms(1500), ms(2000), UdpReport::SentOnly);
    assert_eq!(report.interval_start, ms(0));
    assert_eq!((report.bytes, report.packets), (3000, Some(2)));
    assert_eq!((report.jitter_ms, report.lost_packets, report.lost_percent), (None, None, None));
    let report = l.close_udp_interval(&mut c, 5, ms(2500), ms(1000), UdpReport::Full);
    assert_eq!((report.bytes, report.packets), (0, Some(0)));
    assert_eq!(report.jitter_ms, Some(Binary64::zero()));
    assert_eq!(report.lost_packets, Some(0));
    assert_eq!(report.lost_percent, Some(Percent { part: 0, whole: 1 }));
    assert_eq!(c.packets, 2);
}

#[test]
fn udp_intervals_of_a_receiver() {
    let mut c = MeasurementsCollector::new();
    let mut l = TransferLoop::new(ms(10_000), ms(1000));
    assert_eq!(l.udp_received(&mut c, 0, &packet_at(0, 0, 100, 30), 150, false), None);
    let change = l.udp_received(&mut c, 0, &packet_at(0, 3, 200, 30), 290, false);
    assert_eq!(change, Some(40));
    // A foreign packet
    assert_eq!(l.udp_received(&mut c, 0, &[1, 2, 3], 300, false), None);
    assert_eq!((l.interval_bytes, l.interval_packets), (100, 2));
    assert_eq!(l.udp_received(&mut c, 0, &[1, 2, 3], 300, true), None);
    assert_eq!((l.interval_bytes, l.interval_packets), (103, 3));
    assert_eq!(c.bytes_received, 103);
    assert_eq!(c.calculate_udp_loss(), (2, 4));
    let report = l.close_udp_interval(&mut c, 5, ms(1000), ms(1000), UdpReport::Present);
    assert_eq!(report.jitter_ms, None);
    assert_eq!(report.lost_packets, Some(2));
    assert_eq!(report.lost_percent, Some(Percent { part: 2, whole: 4 }));
    let jitter = Binary64::from_bits(0.5f64.to_bits());
    c.set_jitter(Binary64::from_bits(500.0f64.to_bits()), jitter);
    let report = l.close_udp_interval(&mut c, 5, ms(2000), ms(1000), UdpReport::Present);
    assert_eq!(report.jitter_ms, Some(jitter));
    let mut nothing = MeasurementsCollector::new();
    let report = l.close_udp_interval(&mut nothing, 5, ms(2000), ms(1000), UdpReport::Present);
    assert_eq!((report.lost_packets, report.lost_percent), (None, None));
}

#[test]
fn pauses_keep_the_target() {
    let mut free = Pacer::new(None);
    assert_eq!(free.consume(1_000_000, ms(50)), Pace::Go);
    // A million bytes a second
    let mut p = Pacer::new(Some(8_000_000));
    assert_eq!(p.target, Some(1_000_000));
    assert_eq!(p.consume(5000, Duration::from_nanos(999_999)), Pace::Go);
    assert_eq!(p.sent, 5000);
    // 6000 bytes in 2 ms, where 2000 are allowed: 4 ms too early
    assert_eq!(p.consume(1000, ms(2)), Pace::Wait(ms(4)));
    assert_eq!(p.sent, 0);
    assert_eq!(p.consume(1000, ms(1)), Pace::Looked);
    // A tenth of a millisecond is let pass
    assert_eq!(p.consume(1100, ms(1)), Pace::Looked);
    assert_eq!(p.consume(1101, ms(1)), Pace::Wait(Duration::from_nanos(101_000)));
    let mut zero = Pacer::new(Some(7));
    assert_eq!(zero.consume(10, Duration::zero()), Pace::Go);
}

#[test]
fn sender_numbers_its_packets() {
    let mut sender = UdpSender::new(100);
    let first = sender.next_packet();
    let second = sender.next_packet();
    assert_eq!(first.len(), 120);
    assert_eq!(parse_packet(&first).unwrap().0.sequence, 0);
    assert_eq!(parse_packet(&second).unwrap().0.sequence, 1);
    assert_eq!(parse_packet(&second).unwrap().0.stream_id, 0);
    sender.sequence = (1 << 32) + 5;
    assert_eq!(parse_packet(&sender.next_packet()).unwrap().0.sequence, 5);
}

#[test]
fn sender_fills_batches() {
    let remote = SocketAddr { ip: IpAddr::V4([127, 0, 0, 1]), port: 5201 };
    let start = std::time::Instant::now();
    let mut sender = UdpSender::new(10);
    let mut batch = UdpSendBatch::new();
    assert_eq!(sender.fill(&mut batch, 16, remote, &start, Duration::from_secs(3600)), None);
    assert_eq!(batch.len(), 16);
    assert_eq!(sender.sequence, 16);
    assert_eq!(parse_packet(&batch.packets[15]).unwrap().0.sequence, 15);
    assert_eq!(batch.addresses[15], remote);
    batch.remove_sent(10);
    assert_eq!(sender.fill(&mut batch, 1000, remote, &start, Duration::from_secs(3600)), None);
    assert_eq!(batch.len(), 64);
    assert_eq!(parse_packet(&batch.packets[0]).unwrap().0.sequence, 10);
    assert_eq!(parse_packet(&batch.packets[63]).unwrap().0.sequence, 73);
    batch.clear();
    // No time left
    assert!(sender.fill(&mut batch, 64, remote, &start, Duration::zero()).is_some());
    assert!(batch.is_empty());
}

#[test]
fn sender_adds_while_time_lasts() {
    let remote = SocketAddr { ip: IpAddr::V4([10, 0, 0, 1]), port: 9 };
    let mut sender = UdpSender::new(4);
    let mut batch = UdpSendBatch::new();
    assert!(sender.add_next(&mut batch, 2, remote, ms(0), ms(10)));
    assert!(!sender.add_next(&mut batch, 2, remote, ms(10), ms(10)));
    assert_eq!((batch.len(), sender.sequence), (1, 1));
    assert!(sender.add_next(&mut batch, 2, remote, ms(9), ms(10)));
    // As many as there should be
    assert!(!sender.add_next(&mut batch, 2, remote, ms(9), ms(10)));
    assert_eq!(parse_packet(&batch.packets[1]).unwrap().0.sequence, 1);
    assert_eq!(batch.addresses, vec![remote, remote]);
    sender.sequence = 0x1_0000_0007;
    assert!(sender.add_next(&mut batch, 64, remote, ms(0), ms(10)));
    assert_eq!(parse_packet(&batch.packets[2]).unwrap().0.sequence, 7);
    while !batch.is_full() {
        assert!(sender.add_next(&mut batch, 1000, remote, ms(0), ms(10)));
    }
    assert!(!sender.add_next(&mut batch, 1000, remote, ms(0), ms(10)));
}
