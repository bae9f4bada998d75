//! Counters, intervals and statistics.

use rperf3::measurements::option_u64_max;
use rperf3::measurements::tcp_stats::{
    TCP_PMTU_PRESENT, TCP_RTTVAR_PRESENT, TCP_RTT_PRESENT, TCP_SND_CWND_PRESENT,
};
use rperf3::measurements::{
    CircularIntervalBuffer, IntervalStats, Measurements, MeasurementsCollector, StreamStats,
    TcpInfo, TcpStats, TcpStatsDto, UdpPacketState, UdpStats, MAX_INTERVALS,
};
use rperf3::number::{Binary64, BitRate, Percent};
use rperf3::time::Duration;
use serde_json::Value;
use std::sync::{Arc, Mutex};

fn seconds(d: Duration) -> f64 {
    d.as_nanos() as f64 / 1e9
}

fn bits_per_second(rate: BitRate) -> f64 {
    rate.bytes as f64 * 8.0 / seconds(rate.over)
}

fn percent(share: Percent) -> f64 {
    share.part as f64 / share.whole as f64 * 100.0
}

fn number(x: Binary64) -> f64 {
    f64::from_bits(x.to_bits())
}

fn second(n: u64) -> Duration {
    Duration::from_secs(n)
}

fn interval(from: u64, bytes: u64, over: u64, packets: u64) -> IntervalStats {
    IntervalStats {
        start: second(from),
        end: second(from + 1),
        bytes,
        bits_per_second: BitRate { bytes, over: second(over) },
        packets,
    }
}

/// A received packet and the jitter filter on its change of delay.
fn receive(c: &mut MeasurementsCollector, sequence: u64, sent: u64, received: u64) {
    if let Some(change) = c.record_udp_packet_received(sequence, sent, received) {
        let before = number(c.udp_state.jitter_us);
        let after = before + (change as f64 - before) / 16.0;
        c.set_jitter(
            Binary64::from_bits(after.to_bits()),
            Binary64::from_bits((after / 1000.0).to_bits()),
        );
    }
}

// ============================================================
// CircularIntervalBuffer
// ============================================================

#[test]
fn test_circular_buffer_push_within_capacity() {
    let mut buffer = CircularIntervalBuffer::new();

    for i in 0..10u64 {
        let item = interval(i, i * 1000, 1, i);
        assert_eq!(bits_per_second(item.bits_per_second), (i as f64) * 8000.0);
        buffer.push_back(item);
    }

    assert_eq!(buffer.len(), 10);
}

#[test]
fn test_circular_buffer_eviction() {
    let mut buffer = CircularIntervalBuffer::bounded(100);

    // Push more than the limit
    for i in 0..150u64 {
        let item = interval(i, i, 8, 0);
        assert_eq!(bits_per_second(item.bits_per_second), i as f64);
        buffer.push_back(item);
    }

    // Should have evicted the oldest 50 entries
    assert_eq!(buffer.len(), 100);

    // First element should be from iteration 50
    let items = buffer.iter();
    let first = items.first().unwrap();
    assert_eq!(first.bytes, 50);
    assert_eq!(buffer.get(99).unwrap().bytes, 149);
    assert_eq!(buffer.get(100), None);
}

#[test]
fn test_circular_buffer_with_capacity() {
    let buffer = CircularIntervalBuffer::with_capacity(50);
    assert_eq!(buffer.len(), 0);
    assert!(CircularIntervalBuffer::with_capacity(usize::MAX).is_empty());
}

#[test]
fn buffer_keeps_a_day_of_intervals() {
    assert_eq!(MAX_INTERVALS, 86400);
    let mut buffer = CircularIntervalBuffer::new();
    for i in 0..86402u64 {
        buffer.push_back(interval(i, i, 1, 0));
    }
    assert_eq!(buffer.len(), 86400);
    assert_eq!(buffer.get(0).unwrap().bytes, 2);
    let copy = buffer.clone();
    assert_eq!(copy.iter(), buffer.iter());
}

fn interval_to_json(i: &IntervalStats) -> Value {
    let mut map = serde_json::Map::new();
    map.insert("start".to_string(), Value::from(i.start.as_nanos() as u64));
    map.insert("end".to_string(), Value::from(i.end.as_nanos() as u64));
    map.insert("bytes".to_string(), Value::from(i.bytes));
    map.insert("bits_per_second".to_string(), Value::from(bits_per_second(i.bits_per_second)));
    map.insert("packets".to_string(), Value::from(option_u64_max::serialize(&i.packets)));
    Value::Object(map)
}

fn interval_from_json(v: &Value) -> IntervalStats {
    let start = Duration::from_nanos(v["start"].as_u64().unwrap() as u128);
    let end = Duration::from_nanos(v["end"].as_u64().unwrap() as u128);
    let bytes = v["bytes"].as_u64().unwrap();
    IntervalStats {
        start,
        end,
        bytes,
        bits_per_second: BitRate::of(bytes, end.saturating_sub(&start)),
        packets: option_u64_max::deserialize(v["packets"].as_u64()),
    }
}

#[test]
fn test_circular_buffer_serialization() {
    let mut buffer = CircularIntervalBuffer::new();
    let item = interval(0, 1024, 1, 10);
    assert_eq!(bits_per_second(item.bits_per_second), 8192.0);
    buffer.push_back(item);

    let values: Vec<Value> = buffer.iter().iter().map(interval_to_json).collect();
    let json = serde_json::to_string(&Value::Array(values)).unwrap();
    let parsed: Value = serde_json::from_str(&json).unwrap();
    let mut deserialized = CircularIntervalBuffer::new();
    for v in parsed.as_array().unwrap() {
        deserialized.push_back(interval_from_json(v));
    }

    assert_eq!(deserialized.len(), 1);
    assert_eq!(deserialized.get(0), Some(item));
}

#[test]
fn counter_words_round_trip() {
    assert_eq!(option_u64_max::serialize(&u64::MAX), None);
    assert_eq!(option_u64_max::serialize(&7), Some(7));
    assert_eq!(option_u64_max::deserialize(None), u64::MAX);
    assert_eq!(option_u64_max::deserialize(Some(0)), 0);
    for value in [0, 1, u64::MAX - 1, u64::MAX] {
        assert_eq!(option_u64_max::deserialize(option_u64_max::serialize(&value)), value);
    }
}

// ============================================================
// TcpStats
// ============================================================

#[test]
fn test_tcp_stats_optional_fields() {
    let mut stats = TcpStats::default();

    // Initially, all optional fields should be None
    assert_eq!(stats.snd_cwnd_opt(), None);
    assert_eq!(stats.rtt_opt(), None);
    assert_eq!(stats.rttvar_opt(), None);
    assert_eq!(stats.pmtu_opt(), None);

    // Set flags and values
    stats.flags = TCP_SND_CWND_PRESENT | TCP_RTT_PRESENT;
    stats.snd_cwnd = 65536;
    stats.rtt = 1000;

    assert_eq!(stats.snd_cwnd_opt(), Some(65536));
    assert_eq!(stats.rtt_opt(), Some(1000));
    assert_eq!(stats.rttvar_opt(), None);
    assert_eq!(stats.pmtu_opt(), None);
}

fn dto_to_json(dto: &TcpStatsDto) -> String {
    let mut map = serde_json::Map::new();
    map.insert("retransmits".to_string(), Value::from(dto.retransmits));
    map.insert("snd_cwnd".to_string(), Value::from(dto.snd_cwnd));
    map.insert("rtt".to_string(), Value::from(dto.rtt));
    map.insert("rttvar".to_string(), Value::from(dto.rttvar));
    map.insert("pmtu".to_string(), Value::from(dto.pmtu));
    serde_json::to_string(&Value::Object(map)).unwrap()
}

fn dto_from_json(json: &str) -> TcpStatsDto {
    let v: Value = serde_json::from_str(json).unwrap();
    TcpStatsDto {
        retransmits: v["retransmits"].as_u64().unwrap_or(0),
        snd_cwnd: v["snd_cwnd"].as_u64(),
        rtt: v["rtt"].as_u64(),
        rttvar: v["rttvar"].as_u64(),
        pmtu: v["pmtu"].as_u64(),
    }
}

#[test]
fn test_tcp_stats_serialization() {
    let stats = TcpStats {
        flags: TCP_SND_CWND_PRESENT | TCP_PMTU_PRESENT,
        retransmits: 5,
        snd_cwnd: 32768,
        pmtu: 1500,
        ..Default::default()
    };

    let json = dto_to_json(&stats.serialize());
    let deserialized = TcpStats::from(dto_from_json(&json));

    assert_eq!(deserialized.retransmits, 5);
    assert_eq!(deserialized.snd_cwnd_opt(), Some(32768));
    assert_eq!(deserialized.pmtu_opt(), Some(1500));
    assert_eq!(deserialized.rtt_opt(), None);
}

#[test]
fn test_tcp_stats_from_dto() {
    let json = r#"{
            "retransmits": 10,
            "snd_cwnd": 32768,
            "rtt": 1000,
            "rttvar": null,
            "pmtu": null
        }"#;

    let stats = TcpStats::from(dto_from_json(json));
    assert_eq!(stats.retransmits, 10);
    assert_eq!(stats.snd_cwnd_opt(), Some(32768));
    assert_eq!(stats.rtt_opt(), Some(1000));
    assert_eq!(stats.rttvar_opt(), None);
    assert_eq!(stats.pmtu_opt(), None);
}

#[test]
fn tcp_stats_written_form_round_trips() {
    for mask in 0..16u8 {
        let dto = TcpStatsDto {
            retransmits: 3,
            snd_cwnd: if mask & 1 != 0 { Some(10) } else { None },
            rtt: if mask & 2 != 0 { Some(0) } else { None },
            rttvar: if mask & 4 != 0 { Some(30) } else { None },
            pmtu: if mask & 8 != 0 { Some(40) } else { None },
        };
        let stats = TcpStats::from(dto);
        assert_eq!(stats.flags, mask);
        assert_eq!(stats.serialize(), dto);
        // What is stored without its flag is not written
        let stored =
            TcpStats { retransmits: 7, snd_cwnd: 1, rtt: 2, rttvar: 3, pmtu: 4, flags: mask };
        let back = TcpStats::from(stored.serialize());
        assert_eq!(back.serialize(), stored.serialize());
        assert_eq!((back.retransmits, back.rtt_opt()), (7, stored.rtt_opt()));
    }
}

#[test]
fn tcp_stats_flags_and_kernel_report() {
    let mut stats = TcpStats::default();
    assert!(!stats.has_flag(TCP_RTTVAR_PRESENT));
    stats.set_flag(TCP_RTTVAR_PRESENT);
    stats.rttvar = 9;
    assert!(stats.has_flag(TCP_RTTVAR_PRESENT));
    assert_eq!(stats.rttvar_opt(), Some(9));
    assert_eq!(stats.pmtu_opt(), None);

    let stats = TcpStats::from_tcp_info(Some(TcpInfo {
        total_retrans: 7,
        snd_cwnd: 4_000_000_000,
        snd_mss: 1448,
        rtt: 250,
        rttvar: 12,
        pmtu: 1500,
    }));
    assert_eq!(stats.retransmits, 7);
    assert_eq!(stats.snd_cwnd_opt(), Some(5_792_000_000_000));
    assert_eq!(stats.rtt_opt(), Some(250));
    assert_eq!(stats.rttvar_opt(), Some(12));
    assert_eq!(stats.pmtu_opt(), Some(1500));
    assert_eq!(TcpStats::from_tcp_info(None), TcpStats::default());
}

// ============================================================
// Measurements
// ============================================================

#[test]
fn test_measurements_new() {
    let m = Measurements::new();
    assert_eq!(m.total_bytes_sent, 0);
    assert_eq!(m.total_bytes_received, 0);
    assert_eq!(m.total_duration, Duration::from_secs(0));
    assert_eq!(m.streams.len(), 0);
}

#[test]
fn test_measurements_total_bits_per_second() {
    let mut m = Measurements::new();
    m.total_bytes_sent = 100_000_000; // 100 MB
    m.total_bytes_received = 0;
    m.set_duration(Duration::from_secs(10));

    assert_eq!(bits_per_second(m.total_bits_per_second()), 80_000_000.0); // 80 Mbps
}

#[test]
fn test_measurements_total_bits_per_second_bidirectional() {
    let mut m = Measurements::new();
    m.total_bytes_sent = 100_000_000;
    m.total_bytes_received = 50_000_000;
    m.set_duration(Duration::from_secs(10));

    // Total should include both directions
    assert_eq!(bits_per_second(m.total_bits_per_second()), 120_000_000.0);
}

#[test]
fn test_measurements_zero_duration() {
    let mut m = Measurements::new();
    m.total_bytes_sent = 100_000_000;

    // Should return 0.0 when duration is zero
    assert_eq!(bits_per_second(m.total_bits_per_second()), 0.0);
}

#[test]
fn test_measurements_add_stream() {
    let mut m = Measurements::new();

    m.add_stream(StreamStats {
        stream_id: 0,
        bytes_sent: 1000,
        bytes_received: 500,
        duration: Duration::from_secs(1),
        retransmits: Some(5),
    });

    assert_eq!(m.total_bytes_sent, 1000);
    assert_eq!(m.total_bytes_received, 500);
    assert_eq!(m.streams.len(), 1);
}

#[test]
fn test_measurements_set_duration_updates_streams() {
    let mut m = Measurements::new();

    m.add_stream(StreamStats {
        stream_id: 0,
        bytes_sent: 1000,
        bytes_received: 0,
        duration: Duration::from_secs(1),
        retransmits: None,
    });

    m.set_duration(Duration::from_secs(10));

    assert_eq!(m.total_duration, Duration::from_secs(10));
    assert_eq!(m.streams[0].duration, Duration::from_secs(10));
}

#[test]
fn test_measurements_calculate_udp_loss_zero() {
    let m = Measurements::new();
    let (lost, expected) = m.calculate_udp_loss();
    assert_eq!(lost, 0);
    assert_eq!(expected, 0);
}

#[test]
fn measurements_example_from_both_directions() {
    let mut m = Measurements::with_capacity(4, 10);
    m.total_bytes_sent = 100_000_000;
    m.total_bytes_received = 25_000_000;
    m.set_duration(Duration::from_secs(10));
    assert_eq!(bits_per_second(m.total_bits_per_second()), 100_000_000.0);
    m.lost_packets = 3;
    m.total_packets = 12;
    assert_eq!(m.calculate_udp_loss(), (3, 12));
    m.add_interval(interval(0, 5, 1, 1));
    m.set_start_time(std::time::Instant::now());
    let copy = m.clone();
    assert_eq!(copy.total_bytes_sent, 100_000_000);
    assert_eq!(copy.intervals.len(), 1);
    assert!(copy.start_time.is_some());
}

#[test]
fn stream_stats_rate() {
    let mut s = StreamStats::new(4);
    assert_eq!(s.stream_id, 4);
    assert_eq!((s.bytes_sent, s.bytes_received, s.retransmits), (0, 0, None));
    s.bytes_sent = 300;
    s.bytes_received = 200;
    assert_eq!(bits_per_second(s.bits_per_second()), 0.0);
    s.duration = Duration::from_millis(500);
    assert_eq!(bits_per_second(s.bits_per_second()), 8000.0);
}

// ============================================================
// MeasurementsCollector
// ============================================================

#[test]
fn test_collector_new() {
    let collector = MeasurementsCollector::new();
    let m = collector.get();
    assert_eq!(m.total_bytes_sent, 0);
    assert_eq!(m.total_bytes_received, 0);
}

#[test]
fn test_collector_record_bytes_sent() {
    let mut collector = MeasurementsCollector::new();
    collector.record_bytes_sent(0, 1024);
    collector.record_bytes_sent(0, 2048);

    let m = collector.get();
    assert_eq!(m.total_bytes_sent, 3072);
}

#[test]
fn test_collector_record_bytes_received() {
    let mut collector = MeasurementsCollector::new();
    collector.record_bytes_received(0, 512);
    collector.record_bytes_received(0, 1024);

    let m = collector.get();
    assert_eq!(m.total_bytes_received, 1536);
}

#[test]
fn test_collector_multiple_streams() {
    let mut collector = MeasurementsCollector::new();
    collector.record_bytes_sent(0, 1000);
    collector.record_bytes_sent(1, 2000);
    collector.record_bytes_sent(2, 3000);

    let m = collector.get();
    assert_eq!(m.total_bytes_sent, 6000);
    assert_eq!(m.streams.len(), 3);
}

#[test]
fn test_collector_udp_packet_counting() {
    let mut collector = MeasurementsCollector::new();

    for _ in 0..100 {
        collector.record_udp_packet(0);
    }

    collector.sync_atomic_counters();
    let m = collector.get();
    assert_eq!(m.total_packets, 100);
}

#[test]
fn test_collector_udp_loss_calculation() {
    let mut collector = MeasurementsCollector::new();

    // Simulate receiving packets with sequence numbers: 0, 1, 2, 4, 5 (missing 3)
    let sequences = vec![0, 1, 2, 4, 5];
    let timestamp_us = 1000000;

    for seq in sequences {
        collector.record_udp_packet_received(
            seq,
            timestamp_us + seq * 1000,
            timestamp_us + seq * 1000 + 100,
        );
    }

    let (lost, expected) = collector.calculate_udp_loss();
    assert_eq!(expected, 6); // max_seq + 1 = 5 + 1
    assert_eq!(lost, 1); // expected - received = 6 - 5
}

#[test]
fn test_collector_udp_out_of_order() {
    let mut collector = MeasurementsCollector::new();

    // Receive packets: 0, 2, 1 (1 is out-of-order)
    let sequences = vec![0, 2, 1];
    let timestamp_us = 1000000;

    for seq in sequences {
        collector.record_udp_packet_received(
            seq,
            timestamp_us + seq * 1000,
            timestamp_us + seq * 1000 + 100,
        );
    }

    let m = collector.get();
    assert_eq!(m.out_of_order_packets, 1);
}

#[test]
fn test_collector_jitter_calculation() {
    let mut collector = MeasurementsCollector::new();

    // Simulate packets with varying transit times
    let base_time = 1000000;
    receive(&mut collector, 0, base_time, base_time + 100);
    receive(&mut collector, 1, base_time + 1000, base_time + 1200); // +100us jitter
    receive(&mut collector, 2, base_time + 2000, base_time + 2150); // +50us jitter

    let m = collector.get();
    // Jitter should be non-zero due to varying transit times
    assert!(number(m.jitter_ms) > 0.0);
    assert!(m.jitter_ms.is_positive());
    // 100/16, then a sixteenth of the way to 50
    assert_eq!(number(m.jitter_ms), (6.25 + (50.0 - 6.25) / 16.0) / 1000.0);
}

#[test]
fn test_collector_sync_atomic_counters() {
    let mut collector = MeasurementsCollector::new();
    collector.record_bytes_sent(0, 1024);
    collector.record_bytes_received(0, 512);

    // Before sync
    {
        let m = &collector.inner;
        assert_eq!(m.total_bytes_sent, 0); // Not synced yet
    }

    // After sync
    collector.sync_atomic_counters();
    {
        let m = &collector.inner;
        assert_eq!(m.total_bytes_sent, 1024);
        assert_eq!(m.total_bytes_received, 512);
    }
}

#[test]
fn test_collector_with_capacity() {
    let collector = MeasurementsCollector::with_capacity(4, 30);
    let m = collector.get();
    assert_eq!(m.streams.len(), 0);
}

#[test]
fn test_collector_set_duration() {
    let mut collector = MeasurementsCollector::new();
    collector.set_duration(Duration::from_secs(10));

    let m = collector.get();
    assert_eq!(m.total_duration, Duration::from_secs(10));
}

#[test]
fn test_collector_add_interval() {
    let mut collector = MeasurementsCollector::new();

    let item = interval(0, 1024, 1, 10);
    assert_eq!(bits_per_second(item.bits_per_second), 8192.0);
    collector.add_interval(item);

    let m = collector.get();
    assert_eq!(m.intervals.len(), 1);
}

#[test]
fn test_udp_stats_default() {
    let stats = UdpStats::default();
    assert_eq!(number(stats.jitter_ms), 0.0);
    assert_eq!(stats.lost_packets, 0);
    assert_eq!(stats.packets, 0);
    assert_eq!(percent(stats.lost_percent), 0.0);
    assert_eq!(stats.out_of_order, u64::MAX);
}

#[test]
fn test_collector_ignore_initialization_packets() {
    let mut collector = MeasurementsCollector::new();

    // Sequence u64::MAX should be ignored
    collector.record_udp_packet_received(u64::MAX, 1000, 1100);

    let (lost, expected) = collector.calculate_udp_loss();
    assert_eq!(expected, 0);
    assert_eq!(lost, 0);
}

#[test]
fn test_collector_concurrent_updates() {
    let runtime = tokio::runtime::Builder::new_multi_thread().worker_threads(4).build().unwrap();
    let collector = Arc::new(Mutex::new(MeasurementsCollector::new()));
    let mut handles = vec![];

    // Spawn 10 tasks on several threads, each recording 100 bytes
    for stream_id in 0..10 {
        let c = Arc::clone(&collector);
        let handle = runtime.spawn(async move {
            for _ in 0..100 {
                c.lock().unwrap().record_bytes_sent(stream_id, 1);
            }
        });
        handles.push(handle);
    }

    for handle in handles {
        runtime.block_on(handle).unwrap();
    }

    let m = collector.lock().unwrap().get();
    // 10 streams * 100 bytes = 1000 total
    assert_eq!(m.total_bytes_sent, 1000);
}

#[test]
fn collector_stream_statistics() {
    let mut collector = MeasurementsCollector::default();
    assert_eq!(collector.get_stream_stats(5), None);
    assert_eq!(collector.get_or_create_stream(5), 0);
    assert_eq!(collector.get_stream_stats(5).unwrap().bytes_sent, 0);
    collector.record_bytes_sent(7, 70);
    collector.record_bytes_received(5, 50);
    collector.record_udp_sent(7, 30, 2);
    collector.set_duration(Duration::from_secs(2));
    assert_eq!(collector.get_or_create_stream(7), 1);
    let five = collector.get_stream_stats(5).unwrap();
    assert_eq!((five.stream_id, five.bytes_sent, five.bytes_received), (5, 0, 50));
    assert_eq!(five.duration, Duration::from_secs(2));
    let seven = collector.get_stream_stats(7).unwrap();
    assert_eq!((seven.bytes_sent, seven.bytes_received, seven.retransmits), (100, 0, None));
    assert_eq!(collector.packets, 2);
    assert_eq!(collector.per_stream[1].packets, 2);
    assert_eq!(collector.bytes_sent, 100);
}

#[test]
fn collector_counters_wrap_around() {
    let mut collector = MeasurementsCollector::new();
    collector.record_bytes_sent(0, u64::MAX);
    collector.record_bytes_sent(1, 3);
    assert_eq!(collector.get().total_bytes_sent, 2);
    collector.record_bytes_sent(0, 5);
    assert_eq!(collector.get_stream_stats(0).unwrap().bytes_sent, 4);
    assert_eq!(collector.get().total_bytes_sent, 7);
}

#[test]
fn collector_snapshot_takes_loss_once_bytes_came() {
    let mut collector = MeasurementsCollector::new();
    collector.record_udp_loss(4);
    collector.record_udp_packet(0);
    collector.record_udp_packet_received(9, 10, 20);
    let m = collector.get();
    assert_eq!((m.lost_packets, m.total_packets), (4, 1));
    collector.record_bytes_received(0, 1);
    let m = collector.get();
    assert_eq!((m.lost_packets, m.total_packets), (9, 10));
}

#[test]
fn duplicates_do_not_hide_loss() {
    let mut state = UdpPacketState::default();
    assert_eq!(state.loss(), (0, 0));
    for _ in 0..5 {
        state.observe(1, 0, 0);
    }
    assert_eq!(state.loss(), (1, 2));
    assert_eq!(state.out_of_order, 0);
    assert_eq!(state.received_count, 5);
    let mut c = MeasurementsCollector::new();
    for sequence in [0, 0, 2, u64::MAX] {
        c.record_udp_packet_received(sequence, 0, 0);
    }
    assert_eq!(c.calculate_udp_loss(), (1, 3));
    // Any order, and the missing one at last
    for sequence in [7, 2, 4, 3, 7, 5] {
        c.record_udp_packet_received(sequence, 0, 0);
    }
    assert_eq!(c.calculate_udp_loss(), (2, 8));
    c.record_udp_packet_received(1, 0, 0);
    c.record_udp_packet_received(6, 0, 0);
    assert_eq!(c.calculate_udp_loss(), (0, 8));
    c.record_udp_packet_received(u64::MAX - 1, 0, 0);
    assert_eq!(c.calculate_udp_loss(), (u64::MAX - 9, u64::MAX));
}

#[test]
fn delay_changes() {
    let mut state = UdpPacketState::default();
    assert_eq!(state.observe(0, 100, 150), None);
    assert_eq!(state.observe(1, 200, 230), Some(20));
    assert_eq!(state.observe(2, 300, 340), Some(10));
    // A packet that arrives before it was sent took no time
    assert_eq!(state.observe(3, 400, 390), Some(40));
    assert_eq!(state.observe(u64::MAX, 0, 0), None);
    assert_eq!(state.last_sequence, Some(3));
}

#[test]
fn moving_average_of_jitter() {
    let mut collector = MeasurementsCollector::new();
    let first = Binary64::from_bits(2.0f64.to_bits());
    let smoothed = Binary64::from_bits((2.0f64 * 0.875 + 4.0 * 0.125).to_bits());
    collector.update_jitter(first, Binary64::zero());
    assert_eq!(collector.inner.jitter_ms, first);
    collector.update_jitter(Binary64::from_bits(4.0f64.to_bits()), smoothed);
    assert_eq!(number(collector.inner.jitter_ms), 2.25);
    collector.inner.jitter_ms = Binary64::from_bits((-0.0f64).to_bits());
    assert!(collector.inner.jitter_ms.is_zero());
    collector.update_jitter(first, smoothed);
    assert_eq!(collector.inner.jitter_ms, first);
    assert!(!Binary64::from_bits(f64::NAN.to_bits()).is_positive());
    assert!(!Binary64::from_bits((-1.0f64).to_bits()).is_positive());
    assert!(Binary64::from_bits(f64::INFINITY.to_bits()).is_positive());
    assert_eq!(Binary64::default(), Binary64::zero());
}

#[test]
fn start_time_is_kept() {
    let mut collector = MeasurementsCollector::new();
    let now = std::time::Instant::now();
    collector.set_start_time(now);
    assert_eq!(collector.get().start_time, Some(now));
    let m = Measurements::default();
    assert!(m.start_time.is_none());
}

#[test]
fn shares_and_rates_of_nothing() {
    assert_eq!(percent(Percent::of(1, 4)), 25.0);
    assert_eq!(percent(Percent::of(1, 0)), 0.0);
    assert_eq!(bits_per_second(BitRate::of(125, Duration::from_secs(1))), 1000.0);
    assert_eq!(bits_per_second(BitRate::of(125, Duration::zero())), 0.0);
}

#[test]
fn records_commute() {
    let mut a = MeasurementsCollector::new();
    a.record_bytes_sent(1, 10);
    a.record_bytes_received(2, u64::MAX);
    a.record_udp_sent(1, 5, 3);
    let mut b = MeasurementsCollector::new();
    b.record_udp_sent(1, 5, 3);
    b.record_bytes_received(2, u64::MAX);
    b.record_bytes_sent(1, 10);
    let mut c = MeasurementsCollector::new();
    c.record_bytes_received(2, u64::MAX);
    c.record_udp_sent(1, 5, 3);
    c.record_bytes_sent(1, 10);
    for x in [&b, &c] {
        assert_eq!(x.get_stream_stats(1), a.get_stream_stats(1));
        assert_eq!(x.get_stream_stats(2), a.get_stream_stats(2));
        assert_eq!((x.bytes_sent, x.bytes_received, x.packets), (15, u64::MAX, 3));
    }
}
