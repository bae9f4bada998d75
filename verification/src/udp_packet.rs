//! UDP packet format with sequence numbers and timestamps for loss and jitter measurement.
//!
//! # Packet format
//!
//! ```text
//! | Magic (4 bytes) | StreamID (4 bytes) | Sequence (4 bytes) | Timestamp (8 bytes) | Payload |
//! ```
//!
//! - **Magic**: 0x52504633 ("RPF3" in ASCII) identifies the packets of this tool
//! - **StreamID**: the parallel stream that the packet belongs to (0 = single stream)
//! - **Sequence**: the number of the packet within its stream
//! - **Timestamp**: send time in microseconds since the UNIX epoch
//! - **Payload**: zero-filled data for throughput testing
//!
//! All numbers are big-endian. The stream identifier and the sequence number together form one
//! 64-bit number, so that the packets of different streams never share one; for the single
//! stream 0 that number is the sequence number itself.

use crate::bytes::{be32, be32_at, be64, be64_at, u32_from_be, u32_to_be, u64_from_be};
use crate::clock::{micros_since, unix_micros};
use vstd::prelude::*;

verus! {

/// Magic marker to identify the packets of this tool ("RPF3" in ASCII).
pub const RPERF3_UDP_MAGIC: u32 = 0x52504633;

/// UDP packet header with sequence number and timing information.
///
/// The header is prepended to the payload to enable packet loss and jitter measurement.
#[derive(Debug, Clone, Copy, PartialEq, Eq, Structural)]
pub struct UdpPacketHeader {
    /// Magic marker to identify the packets of this tool
    pub magic: u32,
    /// Stream identifier (0 = single stream, 1-255 = parallel stream index)
    pub stream_id: u32,
    /// Packet sequence number within this stream
    pub sequence: u32,
    /// Send timestamp in microseconds since the UNIX epoch
    pub timestamp_us: u64,
}

/// The bytes of a header on the wire.
pub open spec fn header_bytes(h: UdpPacketHeader) -> Seq<u8> {
    be32(h.magic) + be32(h.stream_id) + be32(h.sequence) + be64(h.timestamp_us)
}

/// The header that the first twenty bytes of `s` spell, if they hold the magic marker.
pub open spec fn parsed_header(s: Seq<u8>) -> Option<UdpPacketHeader> {
    if s.len() < 20 || be32_at(s, 0) != RPERF3_UDP_MAGIC {
        None
    } else {
        Some(
            UdpPacketHeader {
                magic: RPERF3_UDP_MAGIC,
                stream_id: be32_at(s, 4),
                sequence: be32_at(s, 8),
                timestamp_us: be64_at(s, 12),
            },
        )
    }
}

/// The bytes of a whole packet with a zero-filled payload.
pub open spec fn packet_bytes(
    stream_id: u32,
    sequence: u32,
    timestamp_us: u64,
    payload_size: nat,
) -> Seq<u8> {
    header_bytes(
        UdpPacketHeader { magic: RPERF3_UDP_MAGIC, stream_id, sequence, timestamp_us },
    ) + Seq::new(payload_size, |i: int| 0u8)
}

impl UdpPacketHeader {
    /// Size of the header in bytes: magic, stream identifier, sequence and timestamp.
    pub const SIZE: usize = 20;

    /// Creates a new UDP packet header.
    pub fn new(stream_id: u32, sequence: u32, timestamp_us: u64) -> (h: Self)
        ensures
            h.magic == RPERF3_UDP_MAGIC,
            h.stream_id == stream_id,
            h.sequence == sequence,
            h.timestamp_us == timestamp_us,
    {
        UdpPacketHeader { magic: RPERF3_UDP_MAGIC, stream_id, sequence, timestamp_us }
    }

    /// Creates a header with the current time of the wall clock as its timestamp.
    pub fn with_current_time(stream_id: u32, sequence: u32) -> (h: Self)
        ensures
            h.magic == RPERF3_UDP_MAGIC,
            h.stream_id == stream_id,
            h.sequence == sequence,
    {
        Self::new(stream_id, sequence, unix_micros())
    }

    /// Serializes the header to bytes (big-endian).
    pub fn to_bytes(&self) -> (r: [u8; 20])
        ensures
            r@ == header_bytes(*self),
    {
        let m: [u8; 4] = u32_to_be(self.magic);
        let s: [u8; 4] = u32_to_be(self.stream_id);
        let q: [u8; 4] = u32_to_be(self.sequence);
        let h: [u8; 4] = u32_to_be((self.timestamp_us / 0x1_0000_0000) as u32);
        let l: [u8; 4] = u32_to_be((self.timestamp_us % 0x1_0000_0000) as u32);
        let r: [u8; 20] = [
            m[0], m[1], m[2], m[3],
            s[0], s[1], s[2], s[3],
            q[0], q[1], q[2], q[3],
            h[0], h[1], h[2], h[3],
            l[0], l[1], l[2], l[3],
        ];
        assert(r@ =~= header_bytes(*self));
        r
    }

    /// Deserializes a header from bytes: `None` when there are fewer than twenty of them or the
    /// magic marker does not match.
    pub fn from_bytes(bytes: &[u8]) -> (r: Option<Self>)
        ensures
            r == parsed_header(bytes@),
    {
        if bytes.len() < Self::SIZE {
            return None;
        }
        let magic: u32 = u32_from_be(bytes, 0);
        if magic != RPERF3_UDP_MAGIC {
            return None;
        }
        let stream_id: u32 = u32_from_be(bytes, 4);
        let sequence: u32 = u32_from_be(bytes, 8);
        let timestamp_us: u64 = u64_from_be(bytes, 12);
        Some(UdpPacketHeader { magic, stream_id, sequence, timestamp_us })
    }
}

/// Creates a UDP packet with a given timestamp and a zero-filled payload.
pub fn packet_at(stream_id: u32, sequence: u32, timestamp_us: u64, payload_size: usize) -> (r: Vec<
    u8,
>)
    requires
        payload_size + 20 <= isize::MAX,
    ensures
        r@ == packet_bytes(stream_id, sequence, timestamp_us, payload_size as nat),
{
    let header = UdpPacketHeader::new(stream_id, sequence, timestamp_us);
    let mut packet: Vec<u8> = Vec::with_capacity(UdpPacketHeader::SIZE + payload_size);
    let bytes: [u8; 20] = header.to_bytes();
    packet.extend_from_slice(&bytes);
    assert(packet@ =~= header_bytes(header));
    packet.resize(UdpPacketHeader::SIZE + payload_size, 0);
    assert(packet@ =~= packet_bytes(stream_id, sequence, timestamp_us, payload_size as nat));
    packet
}

/// Creates a UDP packet with the current time of the wall clock and a zero-filled payload.
pub fn create_packet(stream_id: u32, sequence: u32, payload_size: usize) -> (r: Vec<u8>)
    requires
        payload_size + 20 <= isize::MAX,
    ensures
        exists|timestamp_us: u64|
            r@ == #[trigger] packet_bytes(
                stream_id,
                sequence,
                timestamp_us,
                payload_size as nat,
            ),
{
    packet_at(stream_id, sequence, unix_micros(), payload_size)
}

/// Cache for the timestamp, to avoid a reading of the wall clock for each packet.
#[derive(Debug)]
pub struct TimestampCache {
    /// Cached timestamp in microseconds
    pub cached_timestamp_us: u64,
    /// Instant when the cache was last updated
    pub last_update: std::time::Instant,
    /// How often to update the cache (in microseconds)
    pub update_interval_us: u64,
}

impl TimestampCache {
    /// A cache that holds the current time and is refreshed every millisecond.
    pub fn new() -> (r: Self)
        ensures
            r.update_interval_us == 1000,
    {
        TimestampCache {
            cached_timestamp_us: unix_micros(),
            last_update: std::time::Instant::now(),
            update_interval_us: 1000,
        }
    }

    /// True when the cache is too old to be used, `elapsed_us` after its last update.
    pub fn is_stale(&self, elapsed_us: u64) -> (r: bool)
        ensures
            r == (elapsed_us >= self.update_interval_us),
    {
        elapsed_us >= self.update_interval_us
    }

    /// The time that a fresh cache shows `elapsed_us` after its last update.
    pub fn estimate(&self, elapsed_us: u64) -> (r: u64)
        ensures
            r == self.cached_timestamp_us.wrapping_add(elapsed_us),
    {
        self.cached_timestamp_us.wrapping_add(elapsed_us)
    }

    /// Puts a new reading of the clocks into the cache.
    pub fn refresh(&mut self, timestamp_us: u64, moment: std::time::Instant)
        ensures
            final(self).cached_timestamp_us == timestamp_us,
            final(self).last_update == moment,
            final(self).update_interval_us == old(self).update_interval_us,
    {
        self.cached_timestamp_us = timestamp_us;
        self.last_update = moment;
    }

    /// The timestamp `elapsed_us` after the last update, when clocks show `now_us` and `moment`.
    ///
    /// A stale cache takes the new reading; a fresh one is left as it is, and its reading advanced
    /// by the time since the last update.
    pub fn timestamp_at(
        &mut self,
        elapsed_us: u64,
        now_us: u64,
        moment: std::time::Instant,
    ) -> (r: u64)
        ensures
            taken_at(*old(self), *final(self), elapsed_us, now_us, moment, r),
            final(self).update_interval_us == old(self).update_interval_us,
            elapsed_us < old(self).update_interval_us ==> *final(self) == *old(self) && r
                == old(self).cached_timestamp_us.wrapping_add(elapsed_us),
            elapsed_us >= old(self).update_interval_us ==> r == now_us && final(
                self).cached_timestamp_us == now_us && final(self).last_update == moment,
    {
        if self.is_stale(elapsed_us) {
            self.refresh(now_us, moment);
            now_us
        } else {
            self.estimate(elapsed_us)
        }
    }

    /// Gets the current timestamp, using the cache if it is fresh enough.
    ///
    /// The wall clock is only read for a stale cache. What comes of the readings is what
    /// `timestamp_at` makes of them.
    pub fn get_timestamp(&mut self) -> (r: u64)
        ensures
            stamps(*old(self), *final(self), r),
            final(self).update_interval_us == old(self).update_interval_us,
            old(self).update_interval_us == 0 ==> r == final(self).cached_timestamp_us,
    {
        let elapsed_us: u64 = micros_since(&self.last_update);
        let (now_us, moment): (u64, std::time::Instant) = if self.is_stale(elapsed_us) {
            (unix_micros(), std::time::Instant::now())
        } else {
            (self.cached_timestamp_us, self.last_update)
        };
        self.timestamp_at(elapsed_us, now_us, moment)
    }
}

/// What a cache gives for readings of the clocks, and what becomes of it.
pub open spec fn taken_at(
    before: TimestampCache,
    after: TimestampCache,
    elapsed_us: u64,
    now_us: u64,
    moment: std::time::Instant,
    timestamp_us: u64,
) -> bool {
    if elapsed_us < before.update_interval_us {
        &&& after == before
        &&& timestamp_us == before.cached_timestamp_us.wrapping_add(elapsed_us)
    } else {
        &&& after == (TimestampCache {
            cached_timestamp_us: now_us,
            last_update: moment,
            ..before
        })
        &&& timestamp_us == now_us
    }
}

/// True for a timestamp that a cache can give while it goes from one state to another: its reading
/// advanced by less than its interval, or the new reading that it then holds.
pub open spec fn stamps(before: TimestampCache, after: TimestampCache, timestamp_us: u64) -> bool {
    exists|elapsed_us: u64, now_us: u64, moment: std::time::Instant|
        #[trigger] taken_at(before, after, elapsed_us, now_us, moment, timestamp_us)
}

/// True for a packet that carries a timestamp of a cache.
pub open spec fn is_stamped(
    packet: Seq<u8>,
    stream_id: u32,
    sequence: u32,
    payload_size: nat,
    before: TimestampCache,
    after: TimestampCache,
) -> bool {
    exists|timestamp_us: u64|
        packet == #[trigger] packet_bytes(stream_id, sequence, timestamp_us, payload_size)
            && stamps(before, after, timestamp_us)
}

/// Creates a UDP packet with a cached timestamp and a zero-filled payload.
///
/// The timestamp is read from the wall clock about once in a millisecond, which is enough for
/// jitter measurement and spares a reading for each packet.
pub fn create_packet_fast(
    cache: &mut TimestampCache,
    stream_id: u32,
    sequence: u32,
    payload_size: usize,
) -> (r: Vec<u8>)
    requires
        payload_size + 20 <= isize::MAX,
    ensures
        is_stamped(
            r@,
            stream_id,
            sequence,
            payload_size as nat,
            *old(cache),
            *final(cache),
        ),
        final(cache).update_interval_us == old(cache).update_interval_us,
{
    let timestamp_us: u64 = cache.get_timestamp();
    packet_at(stream_id, sequence, timestamp_us, payload_size)
}

/// Law: a timestamp that is taken while the cache is fresh lies less than the cache's interval
/// after the reading it holds, up to a whole turn of the counter; otherwise it is the reading that
/// the cache holds afterwards.
pub proof fn law_cached_timestamp(
    before: TimestampCache,
    after: TimestampCache,
    timestamp_us: u64,
)
    requires
        stamps(before, after, timestamp_us),
    ensures
        after.update_interval_us == before.update_interval_us,
        timestamp_us == after.cached_timestamp_us || (after == before && (timestamp_us
            - before.cached_timestamp_us) % 0x1_0000_0000_0000_0000 < before.update_interval_us),
{
}

/// Parses a UDP packet into header and payload: `None` when it has no valid header.
pub fn parse_packet(packet: &[u8]) -> (r: Option<(UdpPacketHeader, &[u8])>)
    ensures
        match r {
            Some((header, payload)) => parsed_header(packet@) == Some(header) && payload@
                == packet@.skip(20),
            None => parsed_header(packet@) is None,
        },
{
    match UdpPacketHeader::from_bytes(packet) {
        None => None,
        Some(header) => {
            let (_, payload) = packet.split_at(UdpPacketHeader::SIZE);
            assert(payload@ =~= packet@.skip(20));
            Some((header, payload))
        },
    }
}

proof fn lemma_header_fields(h: UdpPacketHeader, rest: Seq<u8>)
    ensures
        (header_bytes(h) + rest).len() == 20 + rest.len(),
        be32_at(header_bytes(h) + rest, 0) == h.magic,
        be32_at(header_bytes(h) + rest, 4) == h.stream_id,
        be32_at(header_bytes(h) + rest, 8) == h.sequence,
        be64_at(header_bytes(h) + rest, 12) == h.timestamp_us,
{
    let s = header_bytes(h) + rest;
    assert(s.subrange(0, 4) =~= be32(h.magic));
    assert(s.subrange(4, 8) =~= be32(h.stream_id));
    assert(s.subrange(8, 12) =~= be32(h.sequence));
    assert(s.subrange(12, 20) =~= be64(h.timestamp_us));
    crate::bytes::lemma_be32_round_trip(h.magic, s, 0);
    crate::bytes::lemma_be32_round_trip(h.stream_id, s, 4);
    crate::bytes::lemma_be32_round_trip(h.sequence, s, 8);
    crate::bytes::lemma_be64_round_trip(h.timestamp_us, s, 12);
}

/// Law: a header with the magic marker that is written to bytes and read back is unchanged,
/// whatever follows it in the buffer.
pub proof fn law_header_round_trip(h: UdpPacketHeader, rest: Seq<u8>)
    requires
        h.magic == RPERF3_UDP_MAGIC,
    ensures
        parsed_header(header_bytes(h) + rest) == Some(h),
{
    lemma_header_fields(h, rest);
}

/// Law: a header that was read from a buffer, written again, gives the bytes it was read from.
pub proof fn law_header_read_write(s: Seq<u8>)
    requires
        parsed_header(s) is Some,
    ensures
        header_bytes(parsed_header(s)->0) == s.take(20),
{
    let h = parsed_header(s)->0;
    crate::bytes::lemma_be32_read_write(s, 0);
    crate::bytes::lemma_be32_read_write(s, 4);
    crate::bytes::lemma_be32_read_write(s, 8);
    crate::bytes::lemma_be32_read_write(s, 12);
    crate::bytes::lemma_be32_read_write(s, 16);
    let high = be32_at(s, 12);
    let low = be32_at(s, 16);
    assert((h.timestamp_us / 0x1_0000_0000) as u32 == high);
    assert((h.timestamp_us % 0x1_0000_0000) as u32 == low);
    assert(header_bytes(h) =~= s.take(20));
}

/// Law: a packet is its header of twenty bytes and as many payload bytes as were asked for, and
/// parsing it gives back its stream, its sequence number, its timestamp and its payload.
pub proof fn law_packet_round_trip(
    stream_id: u32,
    sequence: u32,
    timestamp_us: u64,
    payload_size: nat,
)
    ensures
        packet_bytes(stream_id, sequence, timestamp_us, payload_size).len() == 20 + payload_size,
        parsed_header(packet_bytes(stream_id, sequence, timestamp_us, payload_size)) == Some(
            UdpPacketHeader { magic: RPERF3_UDP_MAGIC, stream_id, sequence, timestamp_us },
        ),
        packet_bytes(stream_id, sequence, timestamp_us, payload_size).skip(20) == Seq::new(
            payload_size,
            |i: int| 0u8,
        ),
{
    let h = UdpPacketHeader { magic: RPERF3_UDP_MAGIC, stream_id, sequence, timestamp_us };
    let rest = Seq::new(payload_size, |i: int| 0u8);
    lemma_header_fields(h, rest);
    assert((header_bytes(h) + rest).skip(20) =~= rest);
}

/// Law: the eight bytes after the magic marker spell one number made of the stream identifier
/// and the sequence number. For the single stream 0 it is the sequence number.
pub proof fn law_wide_sequence(h: UdpPacketHeader)
    ensures
        be64_at(header_bytes(h), 4) == h.stream_id * 0x1_0000_0000 + h.sequence,
        h.stream_id == 0 ==> be64_at(header_bytes(h), 4) == h.sequence,
{
    lemma_header_fields(h, Seq::empty());
    assert(header_bytes(h) + Seq::<u8>::empty() =~= header_bytes(h));
}

/// Law: packets of different streams never share that number, nor do two packets of one stream
/// with different sequence numbers.
pub proof fn law_wide_sequence_distinct(a: UdpPacketHeader, b: UdpPacketHeader)
    requires
        a.stream_id != b.stream_id || a.sequence != b.sequence,
    ensures
        be64_at(header_bytes(a), 4) != be64_at(header_bytes(b), 4),
{
    law_wide_sequence(a);
    law_wide_sequence(b);
}

/// Law: a packet starts with the letters "RPF3". Its stream, its sequence number and its timestamp
/// follow in this order, with four, four and eight bytes, most significant first, and then zeros.
pub proof fn law_packet_layout(
    stream_id: u32,
    sequence: u32,
    timestamp_us: u64,
    payload_size: nat,
    i: int,
)
    ensures
        ({
            let p = packet_bytes(stream_id, sequence, timestamp_us, payload_size);
            &&& p.len() == 20 + payload_size
            &&& p[0] == 'R' as u8 && p[1] == 'P' as u8 && p[2] == 'F' as u8 && p[3] == '3' as u8
            &&& ((p[4] * 256 + p[5]) * 256 + p[6]) * 256 + p[7] == stream_id
            &&& ((p[8] * 256 + p[9]) * 256 + p[10]) * 256 + p[11] == sequence
            &&& (((((((p[12] * 256 + p[13]) * 256 + p[14]) * 256 + p[15]) * 256 + p[16]) * 256
                + p[17]) * 256 + p[18]) * 256 + p[19]) == timestamp_us
            &&& 20 <= i < p.len() ==> p[i] == 0
        }),
{
    let p = packet_bytes(stream_id, sequence, timestamp_us, payload_size);
    crate::bytes::law_most_significant_first(stream_id, timestamp_us);
    crate::bytes::law_most_significant_first(sequence, timestamp_us);
    let t = be64(timestamp_us);
    assert(p[12] == t[0] && p[13] == t[1] && p[14] == t[2] && p[15] == t[3]);
    assert(p[16] == t[4] && p[17] == t[5] && p[18] == t[6] && p[19] == t[7]);
    let s = be32(stream_id);
    assert(p[4] == s[0] && p[5] == s[1] && p[6] == s[2] && p[7] == s[3]);
    let q = be32(sequence);
    assert(p[8] == q[0] && p[9] == q[1] && p[10] == q[2] && p[11] == q[3]);
    let m = be32(RPERF3_UDP_MAGIC);
    assert(p[0] == m[0] && p[1] == m[1] && p[2] == m[2] && p[3] == m[3]);
    assert(m[0] == 0x52 && m[1] == 0x50 && m[2] == 0x46 && m[3] == 0x33);
}

/// Law: a packet is one of this tool just when it is long enough for a header and starts with the
/// letters "RPF3", whatever else it holds.
pub proof fn law_own_packets_are_known(s: Seq<u8>)
    ensures
        parsed_header(s) is Some <==> s.len() >= 20 && s[0] == 0x52 && s[1] == 0x50 && s[2] == 0x46
            && s[3] == 0x33,
{
}

/// Law: while the last reading of the clock is fresh, a timestamp is that reading moved on by the time
/// that has passed since, and the reading is kept; otherwise it is a new reading, which is kept in
/// place of the old one.
pub proof fn law_timestamp_moves_on(
    before: TimestampCache,
    after: TimestampCache,
    elapsed_us: u64,
    now_us: u64,
    moment: std::time::Instant,
    timestamp_us: u64,
)
    requires
        taken_at(before, after, elapsed_us, now_us, moment, timestamp_us),
    ensures
        elapsed_us < before.update_interval_us && before.cached_timestamp_us + elapsed_us
            <= u64::MAX ==> timestamp_us - before.cached_timestamp_us == elapsed_us && after
            == before,
        elapsed_us >= before.update_interval_us ==> {
            &&& timestamp_us == now_us
            &&& after.cached_timestamp_us == now_us
            &&& after.last_update == moment
        },
        after.update_interval_us == before.update_interval_us,
{
}

} // verus!
