//! One-way tests.

use rperf3::measurements::{OneWayRecvStats, OneWaySendStats, ServerOneWayStats};
use rperf3::net::IpAddr;
use rperf3::number::{Binary64, BitRate, Percent};
use rperf3::one_way::{
    add_stats, can_plan, marks, packet_loss, polled_rate, shared_rate, shared_stats,
    read_sequence, still_sending, stream_bandwidth, stream_plan, target_octets, wait_time, Additions, ClientReceiver,
    OneWayReceiver, OneWaySender, PortReceiver, RateLine, Seen, StreamState,
};
use rperf3::time::Duration;
use rperf3::udp_packet::packet_at;
use rperf3::workers::{Worker, WorkerTotals};

fn packet(seq: u32, stream: u32, len: usize) -> Vec<u8> {
    let mut buffer = vec![0xee; len];
    OneWaySender::new(seq, stream).stamp(&mut buffer);
    buffer
}

#[test]
fn packets_carry_sequence_and_stream() {
    let mut sender = OneWaySender::new(0x01020304, 9);
    let mut buffer = vec![0xaa; 12];
    sender.stamp(&mut buffer);
    assert_eq!(buffer, vec![1, 2, 3, 4, 0, 0, 0, 9, 0xaa, 0xaa, 0xaa, 0xaa]);
    assert_eq!(sender.seq, 0x01020305);
    assert_eq!(marks(&buffer), Some((0x01020304, 9)));
    assert_eq!(marks(&buffer[..7]), None);
}

#[test]
fn batches_have_consecutive_numbers() {
    let mut sender = OneWaySender::new(u32::MAX - 1, 2);
    let mut packets = vec![vec![0u8; 8]; 4];
    sender.stamp_batch(&mut packets);
    let seqs: Vec<u32> = packets.iter().map(|p| marks(p).unwrap().0).collect();
    assert_eq!(seqs, vec![u32::MAX - 1, u32::MAX, 0, 1]);
    assert_eq!(sender.seq, 2);
}

#[test]
fn sender_counts_answers() {
    let mut sender = OneWaySender::new(0, 0);
    sender.on_sent(100);
    assert!(sender.on_batch_sent(64, false, 1000));
    assert!(sender.on_batch_sent(0, false, 1000));
    assert!(sender.on_batch_sent(-1, true, 1000));
    assert!(!sender.on_batch_sent(-1, false, 1000));
    assert!(sender.on_packet_sent(50, false));
    assert!(sender.on_packet_sent(0, false));
    assert!(sender.on_packet_sent(-1, true));
    assert!(!sender.on_packet_sent(-1, false));
    let stats = sender.stats(Duration::from_secs(3));
    assert_eq!(
        stats,
        OneWaySendStats {
            bytes_sent: 64_150,
            packets_sent: 66,
            duration: Duration::from_secs(3)
        }
    );
    let total = add_stats(add_stats(OneWaySendStats::default(), &stats), &stats);
    assert_eq!((total.bytes_sent, total.packets_sent), (128_300, 132));
    assert!(still_sending(Duration::from_millis(999), Duration::from_secs(1)));
    assert!(!still_sending(Duration::from_secs(1), Duration::from_secs(1)));
    // Beyond what 64 bits of nanoseconds hold
    let ages = Duration::from_secs(20_000_000_000);
    assert!(still_sending(Duration::from_secs(1), ages));
    assert!(still_sending(Duration::from_secs(19_999_999_999), ages));
    assert!(!still_sending(ages, Duration::from_secs(10)));
}

#[test]
fn streams_share_the_bandwidth() {
    assert_eq!(stream_bandwidth(None, 4, 1), None);
    assert_eq!(stream_bandwidth(Some(2_000_000_000), 4, 3), Some(500_000_000));
    let shares: Vec<u64> = (0..3).map(|i| stream_bandwidth(Some(11), 3, i).unwrap()).collect();
    assert_eq!(shares, vec![4, 4, 3]);
    assert_eq!(stream_bandwidth(Some(u64::MAX), 1, 0), Some(u64::MAX));
}

#[test]
fn clients_read_the_number_in_the_header() {
    assert_eq!(read_sequence(&packet_at(7, 1234, 99, 30)), Some(1234));
    assert_eq!(read_sequence(&packet(5, 6, 40)), Some(5));
    assert_eq!(read_sequence(&[0, 0, 1, 0]), Some(256));
    assert_eq!(read_sequence(&[0, 0, 1]), None);
    let mut r = ClientReceiver::new();
    for seq in [5u32, 4, 6, 9, 8] {
        r.on_packet(&packet_at(0, seq, 0, 0));
    }
    assert_eq!((r.out_of_order, r.last_seq), (2, 8));
    assert_eq!((r.packets_received, r.bytes_received), (5, 100));
}

#[test]
fn parallel_streams_are_kept_apart() {
    let first = stream_plan(0);
    assert_eq!((first.seq_offset, first.local_port, first.stream_id), (0, 0, 0));
    let third = stream_plan(3);
    assert_eq!((third.seq_offset, third.local_port, third.stream_id), (30_000_000, 5204, 3));
    assert_eq!(stream_plan(430).seq_offset, (4_300_000_000u64 - (1u64 << 32)) as u32);
    assert!(can_plan(60334));
    assert!(!can_plan(60335));
    let mut starts: Vec<u32> = (0..=428).map(|i| stream_plan(i).seq_offset).collect();
    starts.sort();
    for pair in starts.windows(2) {
        assert!(pair[1] - pair[0] >= 10_000_000);
    }
}

#[test]
fn sender_targets() {
    assert_eq!(target_octets(&IpAddr::V4([1, 2, 3, 4])), [1, 2, 3, 4]);
    let six = IpAddr::V6([0, 1, 2, 3, 4, 5, 6, 7, 8, 9, 10, 11, 12, 13, 14, 15]);
    assert_eq!(target_octets(&six), [12, 13, 14, 15]);
}

#[test]
fn sequence_numbers_of_a_stream() {
    let mut state = StreamState::new(10);
    assert_eq!(state.observe(10), Seen::InOrder);
    assert_eq!(state.observe(14), Seen::Gap(3));
    assert_eq!(state.observe(12), Seen::Late);
    assert_eq!(state.observe(15), Seen::InOrder);
    assert_eq!(state.expected_seq, 16);
    let mut state = StreamState::new(u32::MAX);
    assert_eq!(state.observe(u32::MAX), Seen::InOrder);
    assert_eq!(state.observe(0), Seen::InOrder);
}

#[test]
fn server_tells_streams_apart() {
    let mut r = OneWayReceiver::new();
    // Stream 1 starts at 100 and loses 101; stream 2 starts at 7
    for p in [packet(100, 1, 20), packet(7, 2, 20), packet(102, 1, 20), packet(8, 2, 20)] {
        assert!(r.can_count(p.len()));
        r.on_packet(&p);
    }
    r.on_packet(&packet(101, 1, 20));
    r.on_packet(&[1, 2, 3]);
    assert_eq!(r.packets_received, 6);
    assert_eq!(r.bytes_received, 103);
    assert_eq!(r.packets_lost, 1);
    assert_eq!(r.out_of_order, 1);
    assert_eq!(r.states[&1].expected_seq, 103);
    assert_eq!(r.states[&2].expected_seq, 9);
    assert!(!r.line_due(Duration::from_millis(999)));
    assert!(r.line_due(Duration::from_secs(1)));
    let line = r.line(Duration::from_secs(1));
    assert_eq!(
        line,
        RateLine {
            rate: BitRate { bytes: 103, over: Duration::from_secs(1) },
            packets: 6,
            bytes: 103,
            lost: 1,
            loss: Percent { part: 1, whole: 7 },
        }
    );
    assert_eq!(r.interval_bytes, 0);
    let stats = r.finish(Duration::from_secs(2));
    assert_eq!(
        stats,
        ServerOneWayStats {
            bytes_received: 103,
            packets_received: 6,
            out_of_order: 1,
            packets_lost: 1,
            packet_loss: Some(Percent { part: 1, whole: 7 }),
            duration: Duration::from_secs(2),
        }
    );
    assert_eq!(OneWayReceiver::new().finish(Duration::zero()), ServerOneWayStats::default());
    let mut full = OneWayReceiver::new();
    full.bytes_received = u64::MAX;
    assert!(!full.can_count(1));
}

#[test]
fn a_port_starts_at_zero() {
    let mut r = PortReceiver::new();
    let first = r.on_packet(&packet(2, 5, 16));
    assert_eq!(first, Additions { bytes: 16, packets: 1, out_of_order: 0, lost: 2 });
    let late = r.on_packet(&packet(1, 6, 8));
    assert_eq!(late, Additions { bytes: 8, packets: 1, out_of_order: 1, lost: 0 });
    let next = r.on_packet(&packet(3, 5, 8));
    assert_eq!((next.lost, next.out_of_order), (0, 0));
    let short = r.on_packet(&[0; 4]);
    assert_eq!(short, Additions { bytes: 4, packets: 1, out_of_order: 0, lost: 0 });
    let stats = shared_stats(36, 4, 1, 2, Duration::from_secs(1));
    assert_eq!(stats.packet_loss, Some(Percent { part: 2, whole: 6 }));
    assert_eq!(packet_loss(0, 0), None);
}

#[test]
fn workers_give_their_counts_away() {
    let mut w = Worker::new();
    w.on_packet(&packet(5, 1, 30));
    w.on_packet(&packet(9, 1, 30));
    w.on_packet(&[7; 3]);
    assert!(!w.flush_due(Duration::from_millis(199)));
    assert!(w.flush_due(Duration::from_millis(200)));
    let given = w.flush();
    assert_eq!((given.bytes, given.packets, given.late), (63, 3, 0));
    assert_eq!((w.share.bytes, w.share.packets, w.share.streams.len()), (0, 0, 0));
    let mut totals = WorkerTotals::new();
    assert!(totals.can_absorb(&given));
    totals.absorb(&given);
    totals.absorb(&w.flush());
    // 6, 7 and 8 are missing so far
    assert_eq!(totals.lost(), 3);
    w.on_packet(&packet(7, 1, 30));
    totals.absorb(&w.flush());
    assert_eq!((totals.bytes, totals.packets, totals.lost()), (93, 4, 2));
    assert_eq!(totals.streams[0].stream_id, 1);
    assert_eq!(totals.streams[0].seen.len(), 3);
    totals.bytes = u64::MAX;
    assert!(totals.can_absorb(&w.flush()));
    w.on_packet(&[1]);
    assert!(!totals.can_absorb(&w.share));
    let second = Duration::from_secs(1);
    assert_eq!(shared_rate(10, 30, Duration::from_millis(899)), None);
    assert_eq!(shared_rate(10, 30, second), Some(BitRate { bytes: 20, over: second }));
    assert_eq!(shared_rate(u64::MAX, 4, second), Some(BitRate { bytes: 5, over: second }));
    assert_eq!(polled_rate(10, 30, second), Some(BitRate { bytes: 20, over: second }));
    assert_eq!(polled_rate(30, 10, second), None);
    assert_eq!(polled_rate(10, 30, Duration::zero()), None);
    assert_eq!(wait_time(second, Duration::from_millis(100)), Duration::from_millis(100));
    assert_eq!(wait_time(Duration::zero(), second), Duration::zero());
}

#[test]
fn client_side_of_a_one_way_test() {
    let mut r = ClientReceiver::new();
    for seq in [0u32, 2, 1, 3] {
        r.on_packet(&packet(seq, 0, 10));
    }
    r.on_packet(&[1, 2]);
    assert_eq!(r.out_of_order, 1);
    assert_eq!(r.last_seq, 3);
    assert_eq!((r.bytes_received, r.packets_received), (42, 5));
    let two = Duration::from_millis(2900);
    assert_eq!(r.packet_loss(None, two), None);
    assert_eq!(r.packet_loss(Some(10), two), Some(Percent { part: 15, whole: 20 }));
    assert_eq!(r.packet_loss(Some(2), two), Some(Percent { part: 0, whole: 1 }));
    assert_eq!(r.packet_loss(Some(0), two), Some(Percent { part: 0, whole: 1 }));
    let jitter = Binary64::from_bits(1.5f64.to_bits());
    let stats = r.finish(Some(10), two, jitter, Duration::from_secs(3));
    assert_eq!(
        stats,
        OneWayRecvStats {
            bytes_received: 42,
            packets_received: 5,
            out_of_order: 1,
            packet_loss: Some(Percent { part: 15, whole: 20 }),
            jitter_ms: jitter,
            duration: Duration::from_secs(3),
        }
    );
    assert_eq!(OneWayRecvStats::default().packet_loss, None);
}

#[test]
fn mixed_streams_count_as_if_alone() {
    let one = [packet(5, 1, 8), packet(8, 1, 8), packet(6, 1, 8), packet(9, 1, 8)];
    let two = [packet(1000, 2, 8), packet(1001, 2, 8), packet(1004, 2, 8)];
    let mut mixed = OneWayReceiver::new();
    for i in 0..4 {
        mixed.on_packet(&one[i]);
        if i < 3 {
            mixed.on_packet(&two[i]);
        }
    }
    let mut first = OneWayReceiver::new();
    for p in &one {
        first.on_packet(p);
    }
    let mut second = OneWayReceiver::new();
    for p in &two {
        second.on_packet(p);
    }
    assert_eq!((first.packets_lost, first.out_of_order), (2, 1));
    assert_eq!((second.packets_lost, second.out_of_order), (2, 0));
    assert_eq!((mixed.packets_lost, mixed.out_of_order), (4, 1));
    assert_eq!(mixed.states[&1], first.states[&1]);
    assert_eq!(mixed.states[&2], second.states[&2]);
    assert_eq!(first.states[&1].expected_seq, 10);
    assert_eq!(second.states[&2].expected_seq, 1005);
}

/// Spreads packets over some workers in turn and puts together what they know.
fn spread(packets: &[Vec<u8>], workers: usize) -> WorkerTotals {
    let mut all: Vec<Worker> = (0..workers).map(|_| Worker::new()).collect();
    let mut totals = WorkerTotals::new();
    for (i, p) in packets.iter().enumerate() {
        let w = &mut all[i % workers];
        w.on_packet(p);
        if i % 3 == 2 {
            totals.absorb(&w.flush());
        }
    }
    for w in &mut all {
        totals.absorb(&w.flush());
    }
    totals
}

#[test]
fn workers_find_the_loss_of_one_receiver() {
    let packets = [
        packet(0, 0, 8),
        packet(7, 1, 8),
        packet(1, 0, 8),
        packet(4, 0, 8),
        packet(8, 1, 8),
    ];
    let mut one = OneWayReceiver::new();
    for p in &packets {
        one.on_packet(p);
    }
    let alone = one.finish(Duration::from_secs(1));
    assert_eq!((alone.packets_received, alone.packets_lost), (5, 2));
    assert_eq!(alone.packet_loss, Some(Percent { part: 2, whole: 7 }));
    for workers in 1..6 {
        assert_eq!(spread(&packets, workers).stats(Duration::from_secs(1)), alone);
    }
}

#[test]
fn order_and_repeats_do_not_change_what_workers_miss() {
    let mut packets: Vec<Vec<u8>> = Vec::new();
    for seq in [9, 3, 5, 5, 4, 12, 3] {
        packets.push(packet(seq, 2, 8));
    }
    // 6, 7, 8, 10 and 11 never came
    for workers in 1..5 {
        let totals = spread(&packets, workers);
        assert_eq!((totals.packets, totals.lost()), (7, 5));
    }
    // A single worker sees all that came late: 3, 5, 5, 4 and 3 again
    assert_eq!(spread(&packets, 1).out_of_order, 5);
}

#[test]
fn a_stream_that_starts_over_is_whole() {
    let mut packets: Vec<Vec<u8>> = Vec::new();
    let mut sender = OneWaySender::new(u32::MAX - 4, 3);
    for _ in 0..10 {
        let mut buffer = vec![0; 8];
        sender.stamp(&mut buffer);
        packets.push(buffer);
    }
    for workers in 1..4 {
        assert_eq!(spread(&packets, workers).lost(), 0);
    }
    packets.remove(6);
    assert_eq!(spread(&packets, 2).lost(), 1);
    assert_eq!(WorkerTotals::new().lost(), 0);
}
