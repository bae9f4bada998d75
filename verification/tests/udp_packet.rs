//! UDP packet format.

use rperf3::clock::{stamp_of, unix_micros, whole_micros};
use rperf3::udp_packet::{
    create_packet, create_packet_fast, packet_at, parse_packet, TimestampCache, UdpPacketHeader,
    RPERF3_UDP_MAGIC,
};
use std::time::{SystemTime, UNIX_EPOCH};

fn now_us() -> u64 {
    SystemTime::now().duration_since(UNIX_EPOCH).unwrap().as_micros() as u64
}

#[test]
fn test_header_serialization() {
    let header = UdpPacketHeader::new(0, 42, 1234567890);
    let bytes = header.to_bytes();
    let parsed = UdpPacketHeader::from_bytes(&bytes).expect("Failed to parse header");

    assert_eq!(parsed.magic, RPERF3_UDP_MAGIC);
    assert_eq!(parsed.sequence, 42);
    assert_eq!(parsed.timestamp_us, 1234567890);
}

#[test]
fn test_invalid_magic() {
    let mut bytes = [0u8; UdpPacketHeader::SIZE];
    bytes[0..4].copy_from_slice(&0x12345678u32.to_be_bytes());
    assert!(UdpPacketHeader::from_bytes(&bytes).is_none());
}

#[test]
fn test_packet_creation() {
    let packet = create_packet(0, 100, 1024);
    assert_eq!(packet.len(), UdpPacketHeader::SIZE + 1024);

    let (header, payload) = parse_packet(&packet).expect("Failed to parse packet");
    assert_eq!(header.sequence, 100);
    assert_eq!(payload.len(), 1024);
}

#[test]
fn test_short_packet() {
    let short_packet = vec![0u8; 10];
    assert!(parse_packet(&short_packet).is_none());
}

#[test]
fn test_packet_creation_fast() {
    let mut cache = TimestampCache::new();
    let packet = create_packet_fast(&mut cache, 0, 200, 1024);
    assert_eq!(packet.len(), UdpPacketHeader::SIZE + 1024);

    let (header, payload) = parse_packet(&packet).expect("Failed to parse packet");
    assert_eq!(header.sequence, 200);
    assert_eq!(payload.len(), 1024);

    // Timestamp should be reasonable (within last 10 seconds)
    let now = now_us();
    let diff = now.saturating_sub(header.timestamp_us);
    assert!(diff < 10_000_000, "Timestamp too far in past"); // < 10 seconds
}

#[test]
fn test_timestamp_cache_consistency() {
    // Multiple rapid calls should return similar timestamps
    let mut cache = TimestampCache::new();
    let packet1 = create_packet_fast(&mut cache, 0, 1, 100);
    let packet2 = create_packet_fast(&mut cache, 0, 2, 100);

    let (header1, _) = parse_packet(&packet1).unwrap();
    let (header2, _) = parse_packet(&packet2).unwrap();

    let diff = header2.timestamp_us.saturating_sub(header1.timestamp_us);
    assert!(diff < 10_000, "Timestamps differ by more than 10ms"); // Should be very close in normal conditions
}

#[test]
fn header_bytes_are_big_endian() {
    let bytes = UdpPacketHeader::new(0x01020304, 0x05060708, 0x090a0b0c0d0e0f10).to_bytes();
    assert_eq!(
        bytes,
        [
            0x52, 0x50, 0x46, 0x33, 1, 2, 3, 4, 5, 6, 7, 8, 9, 10, 11, 12, 13, 14, 15, 16
        ]
    );
    let parsed = UdpPacketHeader::from_bytes(&bytes).unwrap();
    assert_eq!(parsed, UdpPacketHeader::new(0x01020304, 0x05060708, 0x090a0b0c0d0e0f10));
}

#[test]
fn stream_and_sequence_form_one_number() {
    let single = UdpPacketHeader::new(0, 77, 0).to_bytes();
    let mut word = [0u8; 8];
    word.copy_from_slice(&single[4..12]);
    assert_eq!(u64::from_be_bytes(word), 77);
    let third = UdpPacketHeader::new(3, 77, 0).to_bytes();
    word.copy_from_slice(&third[4..12]);
    assert_eq!(u64::from_be_bytes(word), (3u64 << 32) + 77);
}

#[test]
fn packet_payload_is_zero() {
    let packet = packet_at(1, 123, 456, 512);
    let (header, payload) = parse_packet(&packet).unwrap();
    assert_eq!(header.stream_id, 1);
    assert_eq!(header.sequence, 123);
    assert_eq!(header.timestamp_us, 456);
    assert_eq!(payload.len(), 512);
    assert!(payload.iter().all(|b| *b == 0));
    assert_eq!(packet_at(0, 0, 0, 0).len(), 20);
    assert!(parse_packet(&packet[..19]).is_none());
    assert!(parse_packet(&packet[..20]).is_some());
}

#[test]
fn current_time_comes_from_the_wall_clock() {
    let before = now_us();
    let header = UdpPacketHeader::with_current_time(9, 10);
    let after = now_us();
    assert_eq!(header.stream_id, 9);
    assert_eq!(header.sequence, 10);
    assert!(before <= header.timestamp_us && header.timestamp_us <= after);
}

#[test]
fn timestamp_cache_decisions() {
    let mut cache = TimestampCache::new();
    assert_eq!(cache.update_interval_us, 1000);
    assert!(!cache.is_stale(999));
    assert!(cache.is_stale(1000));
    cache.refresh(5_000, std::time::Instant::now());
    assert_eq!(cache.cached_timestamp_us, 5_000);
    assert_eq!(cache.estimate(17), 5_017);
    cache.update_interval_us = 0;
    let now = now_us();
    let read = cache.get_timestamp();
    assert!(read >= now);
    assert_eq!(cache.cached_timestamp_us, read);
}

#[test]
fn clock_readings_become_stamps() {
    assert_eq!(stamp_of(None), 0);
    assert_eq!(stamp_of(Some(1_700_000_000_000_000)), 1_700_000_000_000_000);
    assert_eq!(stamp_of(Some((1u128 << 64) + 5)), 5);
    assert_eq!(whole_micros(0), 0);
    assert_eq!(whole_micros(1_999), 1);
    assert_eq!(whole_micros((1u128 << 64) * 1000 + 7_500), 7);
    // A moment of this century
    assert!(unix_micros() > 1_000_000_000_000_000);
}

#[test]
fn cache_takes_readings_only_when_stale() {
    let moment = std::time::Instant::now();
    let mut cache = TimestampCache {
        cached_timestamp_us: 5_000,
        last_update: moment,
        update_interval_us: 1000,
    };
    let later = moment + std::time::Duration::from_millis(5);
    assert_eq!(cache.timestamp_at(999, 77_000, later), 5_999);
    assert_eq!((cache.cached_timestamp_us, cache.last_update), (5_000, moment));
    assert_eq!(cache.timestamp_at(1000, 77_000, later), 77_000);
    assert_eq!((cache.cached_timestamp_us, cache.last_update), (77_000, later));
    assert_eq!(cache.update_interval_us, 1000);
}

#[test]
fn fast_packets_carry_the_cached_time() {
    let mut cache = TimestampCache {
        cached_timestamp_us: 40,
        last_update: std::time::Instant::now(),
        update_interval_us: u64::MAX,
    };
    let packet = create_packet_fast(&mut cache, 0, 1, 4);
    let stamp = parse_packet(&packet).unwrap().0.timestamp_us;
    // Far from the time of day, and not before the cached reading
    assert!(stamp >= 40 && stamp < 60_000_000);
    assert_eq!(cache.cached_timestamp_us, 40);
}
