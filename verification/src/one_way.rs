//! One-way UDP tests: one side only sends, the other only receives.
//!
//! Every packet starts with its sequence number and its stream, four bytes each, most significant
//! first. The receiver finds lost and late packets from the sequence numbers of each stream.

use crate::bytes::{be32, be32_at, u32_from_be, u32_to_be};
use crate::measurements::one_way::{OneWayRecvStats, OneWaySendStats, ServerOneWayStats};
use crate::measurements::udp::{falls, lemma_falls_push};
use crate::net::IpAddr;
use crate::number::{share_of, Binary64, BitRate, Percent};
use crate::time::{whole_secs, Duration};
use crate::udp_packet::{packet_bytes, parsed_header, UdpPacketHeader};
use std::collections::HashMap;
use vstd::prelude::*;

verus! {

broadcast use vstd::std_specs::hash::group_hash_axioms;

/// The packets that are sent in one go.
pub const SEND_BATCH: usize = 64;

/// The distance between the first sequence numbers of neighbouring streams.
pub const STREAM_SPACING: u64 = 10_000_000;

/// A packet with its sequence number and stream written into its first eight bytes.
pub open spec fn stamped(packet: Seq<u8>, seq: u32, stream_id: u32) -> Seq<u8> {
    be32(seq) + be32(stream_id) + packet.skip(8)
}

/// The state of a one-way sender.
#[derive(Debug, Clone, Copy, PartialEq, Eq, Structural)]
pub struct OneWaySender {
    /// The next sequence number
    pub seq: u32,
    /// The stream
    pub stream_id: u32,
    /// Bytes sent
    pub bytes_sent: u64,
    /// Packets sent
    pub packets_sent: u64,
}

impl OneWaySender {
    /// A sender of a stream whose sequence numbers start at `seq_offset`.
    pub fn new(seq_offset: u32, stream_id: u32) -> (r: Self)
        ensures
            r == (OneWaySender { seq: seq_offset, stream_id, bytes_sent: 0, packets_sent: 0 }),
    {
        OneWaySender { seq: seq_offset, stream_id, bytes_sent: 0, packets_sent: 0 }
    }

    /// Writes the next sequence number and the stream into a packet.
    pub fn stamp(&mut self, packet: &mut Vec<u8>)
        requires
            old(packet)@.len() >= 8,
        ensures
            final(packet)@ == stamped(old(packet)@, old(self).seq, old(self).stream_id),
            *final(self) == (OneWaySender { seq: old(self).seq.wrapping_add(1), ..*old(self) }),
    {
        let s: [u8; 4] = u32_to_be(self.seq);
        let t: [u8; 4] = u32_to_be(self.stream_id);
        packet.set(0, s[0]);
        packet.set(1, s[1]);
        packet.set(2, s[2]);
        packet.set(3, s[3]);
        packet.set(4, t[0]);
        packet.set(5, t[1]);
        packet.set(6, t[2]);
        packet.set(7, t[3]);
        assert(packet@ =~= stamped(old(packet)@, self.seq, self.stream_id));
        self.seq = self.seq.wrapping_add(1);
    }

    /// Writes consecutive sequence numbers and the stream into the packets of a batch.
    pub fn stamp_batch(&mut self, packets: &mut Vec<Vec<u8>>)
        requires
            forall|i: int| 0 <= i < old(packets)@.len() ==> (#[trigger] old(packets)@[i])@.len()
                >= 8,
            old(packets)@.len() <= SEND_BATCH,
        ensures
            final(packets)@.len() == old(packets)@.len(),
            forall|i: int|
                0 <= i < old(packets)@.len() ==> (#[trigger] final(packets)@[i])@ == stamped(
                    old(packets)@[i]@,
                    old(self).seq.wrapping_add(i as u32),
                    old(self).stream_id,
                ),
            *final(self) == (OneWaySender {
                seq: old(self).seq.wrapping_add(old(packets)@.len() as u32),
                ..*old(self)
            }),
    {
        let mut i: usize = 0;
        while i < packets.len()
            invariant
                i <= packets@.len(),
                packets@.len() == old(packets)@.len(),
                packets@.len() <= SEND_BATCH,
                forall|j: int|
                    0 <= j < old(packets)@.len() ==> (#[trigger] old(packets)@[j])@.len() >= 8,
                forall|j: int|
                    0 <= j < i ==> (#[trigger] packets@[j])@ == stamped(
                        old(packets)@[j]@,
                        old(self).seq.wrapping_add(j as u32),
                        old(self).stream_id,
                    ),
                forall|j: int|
                    i <= j < packets@.len() ==> #[trigger] packets@[j] == old(packets)@[j],
                *self == (OneWaySender { seq: old(self).seq.wrapping_add(i as u32), ..*old(self) }),
            decreases packets@.len() - i,
        {
            assert(packets@[i as int] == old(packets)@[i as int]);
            assert(old(packets)@[i as int]@.len() >= 8);
            let mut packet: Vec<u8> = Vec::new();
            std::mem::swap(&mut packet, &mut packets[i]);
            self.stamp(&mut packet);
            std::mem::swap(&mut packet, &mut packets[i]);
            i = i + 1;
        }
    }

    /// Counts a packet that was sent.
    pub fn on_sent(&mut self, bytes: u64)
        requires
            old(self).bytes_sent + bytes <= u64::MAX,
            old(self).packets_sent < u64::MAX,
        ensures
            *final(self) == (OneWaySender {
                bytes_sent: (old(self).bytes_sent + bytes) as u64,
                packets_sent: (old(self).packets_sent + 1) as u64,
                ..*old(self)
            }),
    {
        self.bytes_sent = self.bytes_sent + bytes;
        self.packets_sent = self.packets_sent + 1;
    }

    /// Takes the answer of a call that sends a batch of packets of one size: their number, none,
    /// or a negative number on error. Returns whether the sender goes on: an error that only
    /// means "try again" does not stop it.
    pub fn on_batch_sent(&mut self, ret: i32, would_block: bool, packet_size: usize) -> (go_on:
        bool)
        requires
            ret > 0 ==> old(self).packets_sent + ret <= u64::MAX && old(self).bytes_sent + ret
                * packet_size <= u64::MAX,
        ensures
            go_on == (ret >= 0 || would_block),
            *final(self) == if ret > 0 {
                OneWaySender {
                    bytes_sent: (old(self).bytes_sent + ret * packet_size) as u64,
                    packets_sent: (old(self).packets_sent + ret) as u64,
                    ..*old(self)
                }
            } else {
                *old(self)
            },
    {
        if ret > 0 {
            assert(0 <= ret * packet_size) by (nonlinear_arith)
                requires
                    ret > 0,
                    packet_size >= 0,
            ;
            self.packets_sent = self.packets_sent + ret as u64;
            self.bytes_sent = self.bytes_sent + (ret as u64) * (packet_size as u64);
            true
        } else {
            ret == 0 || would_block
        }
    }

    /// Takes the answer of a call that sends one packet: its bytes, none, or a negative number on
    /// error. Returns whether the rest of the batch is sent.
    pub fn on_packet_sent(&mut self, ret: i64, would_block: bool) -> (go_on: bool)
        requires
            ret > 0 ==> old(self).packets_sent < u64::MAX && old(self).bytes_sent + ret
                <= u64::MAX,
        ensures
            go_on == (ret >= 0 || would_block),
            *final(self) == if ret > 0 {
                OneWaySender {
                    bytes_sent: (old(self).bytes_sent + ret) as u64,
                    packets_sent: (old(self).packets_sent + 1) as u64,
                    ..*old(self)
                }
            } else {
                *old(self)
            },
    {
        if ret > 0 {
            self.packets_sent = self.packets_sent + 1;
            self.bytes_sent = self.bytes_sent + ret as u64;
            true
        } else {
            ret == 0 || would_block
        }
    }

    /// The statistics of the sender.
    pub fn stats(&self, duration: Duration) -> (r: OneWaySendStats)
        ensures
            r == (OneWaySendStats {
                bytes_sent: self.bytes_sent,
                packets_sent: self.packets_sent,
                duration,
            }),
    {
        OneWaySendStats {
            bytes_sent: self.bytes_sent,
            packets_sent: self.packets_sent,
            duration,
        }
    }
}

/// True while a sender goes on.
pub fn still_sending(elapsed: Duration, duration: Duration) -> (r: bool)
    ensures
        r == (elapsed@ < duration@),
{
    elapsed.shorter_than(&duration)
}

/// The IPv4 address that a sender connects to. Of an IPv6 address it is the last four bytes.
pub fn target_octets(ip: &IpAddr) -> (r: [u8; 4])
    ensures
        r@ == match ip {
            IpAddr::V4(octets) => octets@,
            IpAddr::V6(octets) => octets@.skip(12),
        },
{
    match ip {
        IpAddr::V4(octets) => *octets,
        IpAddr::V6(octets) => {
            let r: [u8; 4] = [octets[12], octets[13], octets[14], octets[15]];
            assert(r@ =~= octets@.skip(12));
            r
        },
    }
}

/// What a parallel stream starts with.
#[derive(Debug, Clone, Copy, PartialEq, Eq, Structural)]
pub struct StreamPlan {
    /// First sequence number
    pub seq_offset: u32,
    /// Local port; zero lets the system choose
    pub local_port: u16,
    /// Stream
    pub stream_id: u32,
}

/// The first sequence number of a stream.
pub open spec fn first_seq(index: nat) -> nat {
    (index * STREAM_SPACING as nat) % 0x1_0000_0000
}

/// The identifier of a stream in its packets.
pub open spec fn wire_id(index: nat) -> nat {
    index % 0x1_0000_0000
}

/// What the parallel stream with a given index starts with.
pub fn stream_plan(index: usize) -> (r: StreamPlan)
    requires
        index * STREAM_SPACING <= u64::MAX,
        index == 0 || 5201 + index % 0x1_0000 <= u16::MAX,
    ensures
        r.seq_offset == first_seq(index as nat),
        r.local_port == if index == 0 {
            0
        } else {
            5201 + index % 0x1_0000
        },
        r.stream_id == wire_id(index as nat),
{
    let offset: u64 = index as u64 * STREAM_SPACING;
    StreamPlan {
        seq_offset: (offset % 0x1_0000_0000) as u32,
        local_port: if index == 0 {
            0
        } else {
            5201 + (index % 0x1_0000) as u16
        },
        stream_id: (index as u64 % 0x1_0000_0000) as u32,
    }
}

/// True when a parallel stream with a given index can be planned.
pub fn can_plan(index: usize) -> (r: bool)
    ensures
        r == (index * STREAM_SPACING <= u64::MAX && (index == 0 || 5201 + index % 0x1_0000
            <= u16::MAX)),
{
    assert(index * STREAM_SPACING <= u64::MAX * STREAM_SPACING) by (nonlinear_arith)
        requires
            index <= u64::MAX,
    ;
    index as u128 * STREAM_SPACING as u128 <= u64::MAX as u128 && (index == 0 || 5201 + index
        % 0x1_0000 <= u16::MAX as usize)
}

/// The share that a parallel stream has of a bandwidth. What cannot be divided goes to the first
/// streams.
pub open spec fn bandwidth_share(bandwidth: u64, streams: nat, index: nat) -> nat {
    bandwidth as nat / streams + if index < bandwidth as nat % streams {
        1nat
    } else {
        0
    }
}

/// The bandwidth limit of a parallel stream: its share of the limit of the test.
pub fn stream_bandwidth(bandwidth: Option<u64>, streams: usize, index: usize) -> (r: Option<u64>)
    requires
        index < streams,
    ensures
        match bandwidth {
            Some(bits) => r matches Some(share) && share == bandwidth_share(
                bits,
                streams as nat,
                index as nat,
            ),
            None => r is None,
        },
{
    match bandwidth {
        Some(bits) => {
            let n: u64 = streams as u64;
            let share: u64 = bits / n;
            if (index as u64) < bits % n {
                assert(share < u64::MAX) by (nonlinear_arith)
                    requires
                        share == bits / n,
                        bits % n > 0,
                        n > 0,
                        bits <= u64::MAX,
                ;
                Some(share + 1)
            } else {
                Some(share)
            }
        },
        None => None,
    }
}

/// The shares of the first `count` streams together.
pub open spec fn shares_together(bandwidth: u64, streams: nat, count: nat) -> nat
    decreases count,
{
    if count == 0 {
        0
    } else {
        shares_together(bandwidth, streams, (count - 1) as nat) + bandwidth_share(
            bandwidth,
            streams,
            (count - 1) as nat,
        )
    }
}

proof fn lemma_shares(bandwidth: u64, streams: nat, count: nat)
    requires
        0 < streams,
        count <= streams,
    ensures
        shares_together(bandwidth, streams, count) == count * (bandwidth as nat / streams) + if count
            < bandwidth as nat % streams {
            count
        } else {
            bandwidth as nat % streams
        },
    decreases count,
{
    if count > 0 {
        lemma_shares(bandwidth, streams, (count - 1) as nat);
        let each = bandwidth as nat / streams;
        assert(count * each == (count - 1) * each + each) by (nonlinear_arith);
    } else {
        assert(0 * (bandwidth as nat / streams) == 0);
    }
}

/// Law: parallel streams share the whole bandwidth of a test, no more and no less, and no two
/// shares differ by more than one bit per second.
pub proof fn law_bandwidth_is_shared(bandwidth: u64, streams: nat, a: nat, b: nat)
    requires
        0 < streams,
        a < streams,
        b < streams,
    ensures
        shares_together(bandwidth, streams, streams) == bandwidth,
        bandwidth_share(bandwidth, streams, a) <= bandwidth_share(bandwidth, streams, b) + 1,
{
    lemma_shares(bandwidth, streams, streams);
    vstd::arithmetic::div_mod::lemma_fundamental_div_mod(bandwidth as int, streams as int);
    vstd::arithmetic::div_mod::lemma_mod_bound(bandwidth as int, streams as int);
}

/// Adds the statistics of a stream to the totals of all streams.
pub fn add_stats(total: OneWaySendStats, stream: &OneWaySendStats) -> (r: OneWaySendStats)
    requires
        total.bytes_sent + stream.bytes_sent <= u64::MAX,
        total.packets_sent + stream.packets_sent <= u64::MAX,
    ensures
        r == (OneWaySendStats {
            bytes_sent: (total.bytes_sent + stream.bytes_sent) as u64,
            packets_sent: (total.packets_sent + stream.packets_sent) as u64,
            ..total
        }),
{
    OneWaySendStats {
        bytes_sent: total.bytes_sent + stream.bytes_sent,
        packets_sent: total.packets_sent + stream.packets_sent,
        duration: total.duration,
    }
}

/// What a sequence number says about the packets before it.
#[derive(Debug, Clone, Copy, PartialEq, Eq, Structural)]
pub enum Seen {
    /// It is the expected one
    InOrder,
    /// So many packets before it are missing
    Gap(u32),
    /// It comes late
    Late,
}

/// Per-stream state for tracking sequence numbers.
#[derive(Debug, Clone, Copy, PartialEq, Eq, Structural)]
pub struct StreamState {
    /// The sequence number that comes next
    pub expected_seq: u32,
}

/// What a sequence number says when another one is expected.
pub open spec fn seen(expected: u32, seq: u32) -> Seen {
    if seq > expected {
        Seen::Gap((seq - expected) as u32)
    } else if seq < expected {
        Seen::Late
    } else {
        Seen::InOrder
    }
}

/// The sequence number that comes next. A late packet does not change it.
pub open spec fn next_expected(expected: u32, seq: u32) -> u32 {
    if seq < expected {
        expected
    } else {
        seq.wrapping_add(1)
    }
}

/// The packets that a sequence number shows to be lost.
pub open spec fn gap_of(expected: u32, seq: u32) -> u64 {
    if seq > expected {
        (seq - expected) as u64
    } else {
        0
    }
}

/// One for a late packet, else none.
pub open spec fn late_of(expected: u32, seq: u32) -> u64 {
    if seq < expected {
        1
    } else {
        0
    }
}

impl StreamState {
    /// The state of a stream whose next sequence number is `initial_seq`.
    pub fn new(initial_seq: u32) -> (r: Self)
        ensures
            r.expected_seq == initial_seq,
    {
        StreamState { expected_seq: initial_seq }
    }

    /// Takes a sequence number into account.
    pub fn observe(&mut self, seq: u32) -> (r: Seen)
        ensures
            r == seen(old(self).expected_seq, seq),
            final(self).expected_seq == next_expected(old(self).expected_seq, seq),
    {
        if seq > self.expected_seq {
            let gap: u32 = seq - self.expected_seq;
            self.expected_seq = seq.wrapping_add(1);
            Seen::Gap(gap)
        } else if seq < self.expected_seq {
            Seen::Late
        } else {
            self.expected_seq = self.expected_seq.wrapping_add(1);
            Seen::InOrder
        }
    }
}

/// The sequence number of a packet and its stream, if it is long enough to have them.
pub open spec fn marks_of(packet: Seq<u8>) -> Option<(u32, u32)> {
    if packet.len() >= 8 {
        Some((be32_at(packet, 0), be32_at(packet, 4)))
    } else {
        None
    }
}

/// The sequence number of a packet and its stream, if it is long enough to have them.
pub fn marks(packet: &[u8]) -> (r: Option<(u32, u32)>)
    ensures
        r == marks_of(packet@),
{
    if packet.len() >= 8 {
        Some((u32_from_be(packet, 0), u32_from_be(packet, 4)))
    } else {
        None
    }
}

/// The expected sequence number of a stream. The first packet of a stream is the expected one.
pub open spec fn expected_in(states: Map<u32, StreamState>, stream_id: u32, seq: u32) -> u32 {
    if states.dom().contains(stream_id) {
        states[stream_id].expected_seq
    } else {
        seq
    }
}

/// The states of all streams after a packet of one of them.
pub open spec fn states_after(
    states: Map<u32, StreamState>,
    stream_id: u32,
    seq: u32,
) -> Map<u32, StreamState> {
    states.insert(
        stream_id,
        StreamState { expected_seq: next_expected(expected_in(states, stream_id, seq), seq) },
    )
}

/// Takes a sequence number of a stream into account.
pub fn observe_in(states: &mut HashMap<u32, StreamState>, stream_id: u32, seq: u32) -> (r: Seen)
    ensures
        final(states)@ == states_after(old(states)@, stream_id, seq),
        r == seen(expected_in(old(states)@, stream_id, seq), seq),
{
    let mut state: StreamState = match states.get(&stream_id) {
        Some(state) => *state,
        None => StreamState::new(seq),
    };
    let r: Seen = state.observe(seq);
    states.insert(stream_id, state);
    r
}

/// A line about the last second of a test.
#[derive(Debug, Clone, Copy, PartialEq, Eq, Structural)]
pub struct RateLine {
    /// Throughput since the last line
    pub rate: BitRate,
    /// Packets received so far
    pub packets: u64,
    /// Bytes received so far
    pub bytes: u64,
    /// Packets lost so far
    pub lost: u64,
    /// Share of the packets lost so far
    pub loss: Percent,
}

/// The state of a server that receives all streams on one socket.
#[derive(Debug)]
pub struct OneWayReceiver {
    /// Bytes received
    pub bytes_received: u64,
    /// Packets received
    pub packets_received: u64,
    /// Packets that came late
    pub out_of_order: u64,
    /// Packets lost
    pub packets_lost: u64,
    /// Bytes since the last line
    pub interval_bytes: u64,
    /// The streams
    pub states: HashMap<u32, StreamState>,
}

/// The share of lost packets among all packets that are known of, if there are any.
pub open spec fn loss_share(received: u64, lost: u64) -> Option<Percent> {
    if received + lost > 0 {
        Some(Percent { part: lost, whole: (received + lost) as u64 })
    } else {
        None
    }
}

/// The share of lost packets among all packets that are known of, if there are any.
pub fn packet_loss(received: u64, lost: u64) -> (r: Option<Percent>)
    requires
        received + lost <= u64::MAX,
    ensures
        r == loss_share(received, lost),
{
    if received + lost > 0 {
        Some(Percent::of(lost, received + lost))
    } else {
        None
    }
}

impl OneWayReceiver {
    /// The state before any packet.
    pub fn new() -> (r: Self)
        ensures
            r.bytes_received == 0,
            r.packets_received == 0,
            r.out_of_order == 0,
            r.packets_lost == 0,
            r.interval_bytes == 0,
            r.states@ == Map::<u32, StreamState>::empty(),
    {
        OneWayReceiver {
            bytes_received: 0,
            packets_received: 0,
            out_of_order: 0,
            packets_lost: 0,
            interval_bytes: 0,
            states: HashMap::new(),
        }
    }

    /// True when a packet more can still be counted.
    pub open spec fn has_room(&self, bytes: nat) -> bool {
        &&& self.bytes_received + bytes <= u64::MAX
        &&& self.interval_bytes + bytes <= u64::MAX
        &&& self.packets_received < u64::MAX
        &&& self.out_of_order < u64::MAX
        &&& self.packets_lost + u32::MAX <= u64::MAX
    }

    /// True when a packet more can still be counted.
    pub fn can_count(&self, bytes: usize) -> (r: bool)
        ensures
            r == self.has_room(bytes as nat),
    {
        bytes as u64 <= u64::MAX - self.bytes_received && bytes as u64 <= u64::MAX
            - self.interval_bytes && self.packets_received < u64::MAX && self.out_of_order
            < u64::MAX && self.packets_lost <= u64::MAX - u32::MAX as u64
    }

    /// Takes a packet into account.
    pub fn on_packet(&mut self, packet: &[u8])
        requires
            old(self).has_room(packet@.len()),
        ensures
            final(self).bytes_received == old(self).bytes_received + packet@.len(),
            final(self).interval_bytes == old(self).interval_bytes + packet@.len(),
            final(self).packets_received == old(self).packets_received + 1,
            match marks_of(packet@) {
                Some((seq, stream_id)) => {
                    let expected = expected_in(old(self).states@, stream_id, seq);
                    &&& final(self).packets_lost == old(self).packets_lost + gap_of(expected, seq)
                    &&& final(self).out_of_order == old(self).out_of_order + late_of(
                        expected,
                        seq,
                    )
                    &&& final(self).states@ == states_after(old(self).states@, stream_id, seq)
                },
                None => {
                    &&& final(self).packets_lost == old(self).packets_lost
                    &&& final(self).out_of_order == old(self).out_of_order
                    &&& final(self).states == old(self).states
                },
            },
    {
        let bytes: u64 = packet.len() as u64;
        self.bytes_received = self.bytes_received + bytes;
        self.interval_bytes = self.interval_bytes + bytes;
        self.packets_received = self.packets_received + 1;
        match marks(packet) {
            Some((seq, stream_id)) => match observe_in(&mut self.states, stream_id, seq) {
                Seen::InOrder => {},
                Seen::Gap(gap) => {
                    self.packets_lost = self.packets_lost + gap as u64;
                },
                Seen::Late => {
                    self.out_of_order = self.out_of_order + 1;
                },
            },
            None => {},
        }
    }

    /// True when a line is due, `since_last` after the last one.
    pub fn line_due(&self, since_last: Duration) -> (r: bool)
        ensures
            r == (since_last@ >= 1_000_000_000),
    {
        !since_last.shorter_than(&Duration::from_secs(1))
    }

    /// A line about the time since the last one, which starts anew.
    pub fn line(&mut self, elapsed: Duration) -> (r: RateLine)
        requires
            old(self).packets_received + old(self).packets_lost <= u64::MAX,
        ensures
            r == (RateLine {
                rate: BitRate { bytes: old(self).interval_bytes, over: elapsed },
                packets: old(self).packets_received,
                bytes: old(self).bytes_received,
                lost: old(self).packets_lost,
                loss: share_of(
                    old(self).packets_lost,
                    (old(self).packets_received + old(self).packets_lost) as u64,
                ),
            }),
            *final(self) == (OneWayReceiver { interval_bytes: 0, ..*old(self) }),
    {
        let r = RateLine {
            rate: BitRate { bytes: self.interval_bytes, over: elapsed },
            packets: self.packets_received,
            bytes: self.bytes_received,
            lost: self.packets_lost,
            loss: Percent::of(self.packets_lost, self.packets_received + self.packets_lost),
        };
        self.interval_bytes = 0;
        r
    }

    /// The statistics of the test.
    pub fn finish(&self, duration: Duration) -> (r: ServerOneWayStats)
        requires
            self.packets_received + self.packets_lost <= u64::MAX,
        ensures
            r == (ServerOneWayStats {
                bytes_received: self.bytes_received,
                packets_received: self.packets_received,
                out_of_order: self.out_of_order,
                packets_lost: self.packets_lost,
                packet_loss: loss_share(self.packets_received, self.packets_lost),
                duration,
            }),
    {
        ServerOneWayStats {
            bytes_received: self.bytes_received,
            packets_received: self.packets_received,
            out_of_order: self.out_of_order,
            packets_lost: self.packets_lost,
            packet_loss: packet_loss(self.packets_received, self.packets_lost),
            duration,
        }
    }
}

/// What one packet adds to counters that several receivers share.
#[derive(Debug, Clone, Copy, PartialEq, Eq, Structural)]
pub struct Additions {
    /// Bytes
    pub bytes: u64,
    /// Packets
    pub packets: u64,
    /// Packets that came late
    pub out_of_order: u64,
    /// Packets lost
    pub lost: u64,
}

/// The state of a receiver that has a port of its own. Its sequence numbers start at zero, and it
/// does not tell streams apart.
#[derive(Debug, Clone, Copy, PartialEq, Eq, Structural)]
pub struct PortReceiver {
    /// The sequence numbers
    pub state: StreamState,
}

impl PortReceiver {
    /// The state before any packet.
    pub fn new() -> (r: Self)
        ensures
            r.state.expected_seq == 0,
    {
        PortReceiver { state: StreamState::new(0) }
    }

    /// Takes a packet into account and says what it adds to the shared counters.
    pub fn on_packet(&mut self, packet: &[u8]) -> (r: Additions)
        requires
            packet@.len() <= u64::MAX,
        ensures
            match marks_of(packet@) {
                Some((seq, _)) => {
                    &&& r == (Additions {
                        bytes: packet@.len() as u64,
                        packets: 1,
                        out_of_order: late_of(old(self).state.expected_seq, seq),
                        lost: gap_of(old(self).state.expected_seq, seq),
                    })
                    &&& final(self).state.expected_seq == next_expected(
                        old(self).state.expected_seq,
                        seq,
                    )
                },
                None => {
                    &&& r == (Additions {
                        bytes: packet@.len() as u64,
                        packets: 1,
                        out_of_order: 0,
                        lost: 0,
                    })
                    &&& *final(self) == *old(self)
                },
            },
    {
        let mut r = Additions {
            bytes: packet.len() as u64,
            packets: 1,
            out_of_order: 0,
            lost: 0,
        };
        match marks(packet) {
            Some((seq, _)) => match self.state.observe(seq) {
                Seen::InOrder => {},
                Seen::Gap(gap) => {
                    r.lost = gap as u64;
                },
                Seen::Late => {
                    r.out_of_order = 1;
                },
            },
            None => {},
        }
        r
    }
}

/// The statistics of several receivers from their shared counters.
pub fn shared_stats(
    bytes: u64,
    packets: u64,
    out_of_order: u64,
    lost: u64,
    duration: Duration,
) -> (r: ServerOneWayStats)
    requires
        packets + lost <= u64::MAX,
    ensures
        r == (ServerOneWayStats {
            bytes_received: bytes,
            packets_received: packets,
            out_of_order,
            packets_lost: lost,
            packet_loss: loss_share(packets, lost),
            duration,
        }),
{
    ServerOneWayStats {
        bytes_received: bytes,
        packets_received: packets,
        out_of_order,
        packets_lost: lost,
        packet_loss: packet_loss(packets, lost),
        duration,
    }
}

/// The throughput since the last line about shared counters, when a line is due: after nine
/// tenths of a second. The counter may have wrapped around.
pub fn shared_rate(previous: u64, current: u64, since_last: Duration) -> (r: Option<BitRate>)
    ensures
        r == if since_last@ >= 900_000_000 {
            Some(BitRate { bytes: current.wrapping_sub(previous), over: since_last })
        } else {
            None
        },
{
    if since_last.shorter_than(&Duration::from_millis(900)) {
        None
    } else {
        Some(BitRate { bytes: current.wrapping_sub(previous), over: since_last })
    }
}

/// The throughput that a line about shared counters shows when lines come with every look at
/// them: none while nothing new has come.
pub fn polled_rate(previous: u64, current: u64, elapsed: Duration) -> (r: Option<BitRate>)
    ensures
        r == if elapsed@ > 0 && current > previous {
            Some(BitRate { bytes: (current - previous) as u64, over: elapsed })
        } else {
            None
        },
{
    let bytes: u64 = current.saturating_sub(previous);
    if !elapsed.is_zero() && bytes > 0 {
        Some(BitRate { bytes, over: elapsed })
    } else {
        None
    }
}

/// How long a receiver waits at most before it looks at the clock again.
pub fn wait_time(remaining: Duration, most: Duration) -> (r: Duration)
    ensures
        r@ == if remaining@ < most@ {
            remaining@
        } else {
            most@
        },
{
    remaining.min_with(&most)
}

/// The state of a client that receives a one-way test.
#[derive(Debug, Clone, Copy, PartialEq, Eq, Structural)]
pub struct ClientReceiver {
    /// Bytes received
    pub bytes_received: u64,
    /// Packets received
    pub packets_received: u64,
    /// Packets out of order
    pub out_of_order: u64,
    /// The last sequence number, zero at first
    pub last_seq: u32,
}

/// The packet loss against an expected rate: none when more packets came than expected, or when
/// none are expected.
pub open spec fn expected_loss(expected: nat, received: u64) -> Percent {
    if received <= expected && expected > 0 {
        Percent { part: (expected - received) as u64, whole: expected as u64 }
    } else {
        Percent { part: 0, whole: 1 }
    }
}

/// The sequence number of a packet that a client receives one way: the one in its header, or its
/// first four bytes where it has no header. A packet that is too short for either has none.
pub open spec fn sequence_of(packet: Seq<u8>) -> Option<u32> {
    match parsed_header(packet) {
        Some(header) => Some(header.sequence),
        None => if packet.len() >= 4 {
            Some(be32_at(packet, 0))
        } else {
            None
        },
    }
}

/// The sequence number of a packet that a client receives one way.
pub fn read_sequence(packet: &[u8]) -> (r: Option<u32>)
    ensures
        r == sequence_of(packet@),
{
    match UdpPacketHeader::from_bytes(packet) {
        Some(header) => Some(header.sequence),
        None => if packet.len() >= 4 {
            Some(u32_from_be(packet, 0))
        } else {
            None
        },
    }
}

impl ClientReceiver {
    /// The state before any packet.
    pub fn new() -> (r: Self)
        ensures
            r == (ClientReceiver {
                bytes_received: 0,
                packets_received: 0,
                out_of_order: 0,
                last_seq: 0,
            }),
    {
        ClientReceiver { bytes_received: 0, packets_received: 0, out_of_order: 0, last_seq: 0 }
    }

    /// Takes a packet into account. It is out of order when the one before it had a greater
    /// sequence number.
    pub fn on_packet(&mut self, packet: &[u8])
        requires
            old(self).bytes_received + packet@.len() <= u64::MAX,
            old(self).packets_received < u64::MAX,
            old(self).out_of_order < u64::MAX,
        ensures
            final(self).bytes_received == old(self).bytes_received + packet@.len(),
            final(self).packets_received == old(self).packets_received + 1,
            match sequence_of(packet@) {
                Some(seq) => {
                    &&& final(self).last_seq == seq
                    &&& final(self).out_of_order == old(self).out_of_order + late_of(
                        old(self).last_seq,
                        seq,
                    )
                },
                None => {
                    &&& final(self).last_seq == old(self).last_seq
                    &&& final(self).out_of_order == old(self).out_of_order
                },
            },
    {
        self.bytes_received = self.bytes_received + packet.len() as u64;
        self.packets_received = self.packets_received + 1;
        match read_sequence(packet) {
            Some(seq) => {
                if self.last_seq > 0 && seq < self.last_seq {
                    self.out_of_order = self.out_of_order + 1;
                }
                self.last_seq = seq;
            },
            None => {},
        }
    }

    /// The packet loss against an expected rate of packets per second, where there is one.
    pub fn packet_loss(&self, expected_pps: Option<u64>, duration: Duration) -> (r: Option<Percent>)
        requires
            expected_pps matches Some(pps) ==> pps * whole_secs(duration) <= u64::MAX,
        ensures
            r == match expected_pps {
                Some(pps) => Some(
                    expected_loss((pps * whole_secs(duration)) as nat, self.packets_received),
                ),
                None => None,
            },
    {
        match expected_pps {
            Some(pps) => {
                let expected: u64 = pps * duration.as_secs();
                if self.packets_received > expected {
                    Some(Percent::of(0, 1))
                } else if expected > 0 {
                    Some(Percent::of(expected - self.packets_received, expected))
                } else {
                    Some(Percent::of(0, 1))
                }
            },
            None => None,
        }
    }

    /// The statistics of the test, with the jitter that was measured.
    pub fn finish(
        &self,
        expected_pps: Option<u64>,
        duration: Duration,
        jitter_ms: Binary64,
        elapsed: Duration,
    ) -> (r: OneWayRecvStats)
        requires
            expected_pps matches Some(pps) ==> pps * whole_secs(duration) <= u64::MAX,
        ensures
            r == (OneWayRecvStats {
                bytes_received: self.bytes_received,
                packets_received: self.packets_received,
                out_of_order: self.out_of_order,
                packet_loss: match expected_pps {
                    Some(pps) => Some(
                        expected_loss((pps * whole_secs(duration)) as nat, self.packets_received),
                    ),
                    None => None,
                },
                jitter_ms,
                duration: elapsed,
            }),
    {
        OneWayRecvStats {
            bytes_received: self.bytes_received,
            packets_received: self.packets_received,
            out_of_order: self.out_of_order,
            packet_loss: self.packet_loss(expected_pps, duration),
            jitter_ms,
            duration: elapsed,
        }
    }
}

/// Law: a receiver reads from a packet the sequence number and the stream that the sender wrote
/// into it, and the rest of the packet is as it was.
pub proof fn law_stamp_round_trip(packet: Seq<u8>, seq: u32, stream_id: u32)
    requires
        packet.len() >= 8,
    ensures
        marks_of(stamped(packet, seq, stream_id)) == Some((seq, stream_id)),
        stamped(packet, seq, stream_id).len() == packet.len(),
        stamped(packet, seq, stream_id).skip(8) == packet.skip(8),
{
    let s = stamped(packet, seq, stream_id);
    assert(s.subrange(0, 4) =~= be32(seq));
    assert(s.subrange(4, 8) =~= be32(stream_id));
    crate::bytes::lemma_be32_round_trip(seq, s, 0);
    crate::bytes::lemma_be32_round_trip(stream_id, s, 4);
    assert(s.skip(8) =~= packet.skip(8));
}

/// Law: a client that receives one way reads from a packet with a header the sequence number that
/// the sender gave it, so that packets are out of order for it just when their numbers are.
pub proof fn law_client_reads_number(
    stream_id: u32,
    sequence: u32,
    timestamp_us: u64,
    payload_size: nat,
)
    ensures
        sequence_of(packet_bytes(stream_id, sequence, timestamp_us, payload_size)) == Some(
            sequence,
        ),
{
    crate::udp_packet::law_packet_round_trip(stream_id, sequence, timestamp_us, payload_size);
}

/// The expected sequence number of a stream, its lost packets and its late ones, after a run of
/// sequence numbers.
pub open spec fn followed(start: u32, seqs: Seq<u32>) -> (u32, nat, nat)
    decreases seqs.len(),
{
    if seqs.len() == 0 {
        (start, 0, 0)
    } else {
        let (expected, lost, late) = followed(start, seqs.drop_last());
        let seq = seqs.last();
        (
            next_expected(expected, seq),
            lost + gap_of(expected, seq) as nat,
            late + late_of(expected, seq) as nat,
        )
    }
}

/// Law: packets that come in the order in which they were sent, none missing, show no loss and no
/// reordering, even where the sequence numbers start over at zero.
pub proof fn law_in_order_is_lossless(start: u32, seqs: Seq<u32>)
    requires
        forall|i: int|
            0 <= i < seqs.len() ==> #[trigger] seqs[i] == (start + i) % 0x1_0000_0000,
    ensures
        followed(start, seqs).0 == (start + seqs.len()) % 0x1_0000_0000,
        followed(start, seqs).1 == 0,
        followed(start, seqs).2 == 0,
    decreases seqs.len(),
{
    if seqs.len() > 0 {
        let rest = seqs.drop_last();
        assert forall|i: int| 0 <= i < rest.len() implies #[trigger] rest[i] == (start + i)
            % 0x1_0000_0000 by {
            assert(rest[i] == seqs[i]);
        }
        law_in_order_is_lossless(start, rest);
        assert(seqs.last() == seqs[seqs.len() - 1]);
    }
}

/// Law: as long as no sequence number is the greatest one, every number from the first expected
/// one up to the next expected one is accounted for: it was received in its turn or counted as
/// lost when a later one came. So the lost packets are those numbers less the packets that did
/// not come late, and the next expected number follows the highest one received.
pub proof fn law_every_number_accounted(start: u32, seqs: Seq<u32>)
    requires
        forall|i: int| 0 <= i < seqs.len() ==> #[trigger] seqs[i] < u32::MAX,
    ensures
        ({
            let (expected, lost, late) = followed(start, seqs);
            &&& late <= seqs.len()
            &&& start <= expected
            &&& expected - start == lost + (seqs.len() - late)
            &&& forall|i: int| 0 <= i < seqs.len() ==> #[trigger] seqs[i] < expected
            &&& expected > start ==> seqs.contains((expected - 1) as u32)
        }),
    decreases seqs.len(),
{
    if seqs.len() > 0 {
        let rest = seqs.drop_last();
        assert forall|i: int| 0 <= i < rest.len() implies #[trigger] rest[i] < u32::MAX by {
            assert(rest[i] == seqs[i]);
        }
        law_every_number_accounted(start, rest);
        let (before, _, _) = followed(start, rest);
        let (expected, _, _) = followed(start, seqs);
        let seq = seqs.last();
        assert(seqs[seqs.len() - 1] == seq);
        assert forall|i: int| 0 <= i < seqs.len() implies #[trigger] seqs[i] < expected by {
            if i < rest.len() {
                assert(rest[i] == seqs[i]);
            }
        }
        if seq < before {
            if expected > start {
                let k = choose|k: int| 0 <= k < rest.len() && rest[k] == (expected - 1) as u32;
                assert(seqs[k] == rest[k]);
            }
        } else {
            assert(seqs[seqs.len() - 1] == (expected - 1) as u32);
        }
    }
}

/// What a receiver knows of the streams after a run of packets, given by their sequence numbers and
/// streams, and how many packets it counts as lost and as late.
pub open spec fn tallied(marks: Seq<(u32, u32)>) -> (Map<u32, StreamState>, nat, nat)
    decreases marks.len(),
{
    if marks.len() == 0 {
        (Map::empty(), 0, 0)
    } else {
        let (states, lost, late) = tallied(marks.drop_last());
        let (seq, stream_id) = marks.last();
        let expected = expected_in(states, stream_id, seq);
        (
            states_after(states, stream_id, seq),
            lost + gap_of(expected, seq) as nat,
            late + late_of(expected, seq) as nat,
        )
    }
}

/// The sequence numbers of one stream in a run of packets, in their order.
pub open spec fn of_stream(marks: Seq<(u32, u32)>, stream_id: u32) -> Seq<u32>
    decreases marks.len(),
{
    if marks.len() == 0 {
        Seq::empty()
    } else if marks.last().1 == stream_id {
        of_stream(marks.drop_last(), stream_id).push(marks.last().0)
    } else {
        of_stream(marks.drop_last(), stream_id)
    }
}

/// A run of packets without those of one stream.
pub open spec fn without_stream(marks: Seq<(u32, u32)>, stream_id: u32) -> Seq<(u32, u32)>
    decreases marks.len(),
{
    if marks.len() == 0 {
        Seq::empty()
    } else if marks.last().1 == stream_id {
        without_stream(marks.drop_last(), stream_id)
    } else {
        without_stream(marks.drop_last(), stream_id).push(marks.last())
    }
}

/// What following a whole stream gives. Its first packet is the expected one.
pub open spec fn followed_stream(seqs: Seq<u32>) -> (u32, nat, nat) {
    if seqs.len() == 0 {
        (0, 0, 0)
    } else {
        followed(seqs[0], seqs)
    }
}

/// Law: the streams on one socket are tracked independently, however their packets are mixed. What
/// is expected of a stream next depends on its own packets alone; of any other stream the same is
/// known as if this one had sent nothing; and the packets counted as lost and as late are those of
/// this stream by itself and those of the others by themselves.
pub proof fn law_streams_tracked_apart(marks: Seq<(u32, u32)>, stream_id: u32)
    ensures
        ({
            let (states, lost, late) = tallied(marks);
            let (expected, own_lost, own_late) = followed_stream(of_stream(marks, stream_id));
            let (others, other_lost, other_late) = tallied(without_stream(marks, stream_id));
            &&& states.dom().contains(stream_id) <==> of_stream(marks, stream_id).len() > 0
            &&& states.dom().contains(stream_id) ==> states[stream_id].expected_seq == expected
            &&& others == states.remove(stream_id)
            &&& lost == own_lost + other_lost
            &&& late == own_late + other_late
        }),
    decreases marks.len(),
{
    if marks.len() > 0 {
        let rest = marks.drop_last();
        law_streams_tracked_apart(rest, stream_id);
        let (seq, id) = marks.last();
        let before = tallied(rest).0;
        let own = of_stream(rest, stream_id);
        if id == stream_id {
            let all = own.push(seq);
            assert(all.drop_last() =~= own);
            assert(followed(all[0], own) == if own.len() == 0 {
                (seq, 0, 0)
            } else {
                followed_stream(own)
            });
            assert(before.remove(stream_id) =~= tallied(marks).0.remove(stream_id));
        } else {
            let kept = without_stream(rest, stream_id);
            assert(kept.push(marks.last()).drop_last() =~= kept);
            assert(expected_in(before.remove(stream_id), id, seq) == expected_in(before, id, seq));
            assert(states_after(before, id, seq).remove(stream_id) =~= states_after(
                before.remove(stream_id),
                id,
                seq,
            ));
        }
    } else {
        assert(Map::<u32, StreamState>::empty() =~= Map::empty().remove(stream_id));
    }
}

/// Law: of a stream on a socket that many share, as long as its sequence numbers stay below the
/// greatest one, the lost packets are those between its first and its highest number that did not
/// come in their turn.
pub proof fn law_stream_loss(marks: Seq<(u32, u32)>, stream_id: u32)
    requires
        of_stream(marks, stream_id).len() > 0,
        forall|i: int|
            0 <= i < of_stream(marks, stream_id).len() ==> #[trigger] of_stream(
                marks,
                stream_id,
            )[i] < u32::MAX,
    ensures
        ({
            let seqs = of_stream(marks, stream_id);
            let (expected, lost, late) = followed_stream(seqs);
            &&& tallied(marks).0[stream_id].expected_seq == expected
            &&& seqs.contains((expected - 1) as u32)
            &&& forall|i: int| 0 <= i < seqs.len() ==> #[trigger] seqs[i] < expected
            &&& lost + (seqs.len() - late) == expected - seqs[0]
        }),
{
    law_streams_tracked_apart(marks, stream_id);
    let seqs = of_stream(marks, stream_id);
    law_every_number_accounted(seqs[0], seqs);
    assert(seqs[0] < followed_stream(seqs).0);
}

/// Law: the sequence numbers of parallel streams do not conflict: while no stream sends more than
/// ten million packets, no number of one of the first 429 streams is one of another.
pub proof fn law_streams_do_not_conflict(a: nat, b: nat, i: nat, j: nat)
    requires
        a < b <= 428,
        i < STREAM_SPACING,
        j < STREAM_SPACING,
    ensures
        (first_seq(a) + i) % 0x1_0000_0000 != (first_seq(b) + j) % 0x1_0000_0000,
{
    assert(a * STREAM_SPACING + STREAM_SPACING <= b * STREAM_SPACING) by (nonlinear_arith)
        requires
            a < b,
    ;
    assert(b * STREAM_SPACING <= 428 * STREAM_SPACING) by (nonlinear_arith)
        requires
            b <= 428,
    ;
}

/// Law: no two of the first four thousand million streams share an identifier.
pub proof fn law_wire_ids_unique(a: nat, b: nat)
    requires
        a < b < 0x1_0000_0000,
    ensures
        wire_id(a) != wire_id(b),
{
}

// The odd part of the spacing is 78125; its inverse modulo 2^25 is 9258661
#[verifier::spinoff_prover]
proof fn lemma_spacing_is_odd(d: int, turns: int)
    requires
        d * 78125 == turns * 0x200_0000,
    ensures
        d == 0x200_0000 * (turns * 9258661 - d * 21557),
{
    assert((d * 78125) * 9258661 == (turns * 0x200_0000) * 9258661);
}

#[verifier::spinoff_prover]
proof fn lemma_same_start(x: int, y: int)
    requires
        x % 0x1_0000_0000 == y % 0x1_0000_0000,
    ensures
        y - x == (y / 0x1_0000_0000 - x / 0x1_0000_0000) * 0x1_0000_0000,
{
}

/// Law: no two of the first 33 million streams start with the same sequence number.
#[verifier::spinoff_prover]
pub proof fn law_first_numbers_distinct(a: nat, b: nat)
    requires
        a < b < 0x200_0000,
    ensures
        first_seq(a) != first_seq(b),
{
    let x = a * STREAM_SPACING as int;
    let y = b * STREAM_SPACING as int;
    if x % 0x1_0000_0000 == y % 0x1_0000_0000 {
        lemma_same_start(x, y);
        let turns = y / 0x1_0000_0000 - x / 0x1_0000_0000;
        let d = b - a;
        assert(d * 78125 == turns * 0x200_0000);
        lemma_spacing_is_odd(d, turns);
        let k = turns * 9258661 - d * 21557;
        assert(k <= 0 || k >= 1);
    }
}

proof fn lemma_late_places(start: u32, seqs: Seq<u32>)
    requires
        forall|i: int| 0 <= i < seqs.len() ==> #[trigger] seqs[i] < u32::MAX,
    ensures
        late_places(start, seqs).finite(),
        followed(start, seqs).2 == late_places(start, seqs).len(),
    decreases seqs.len(),
{
    if seqs.len() == 0 {
        assert(late_places(start, seqs) =~= Set::empty());
    } else {
        let rest = seqs.drop_last();
        let n = rest.len() as int;
        assert forall|i: int| 0 <= i < rest.len() implies #[trigger] rest[i] < u32::MAX by {
            assert(rest[i] == seqs[i]);
        }
        lemma_late_places(start, rest);
        law_every_number_accounted(start, rest);
        let expected = followed(start, rest).0;
        let seq = seqs[n];
        assert forall|i: int| 0 <= i < n implies late_places(start, seqs).contains(i)
            == late_places(start, rest).contains(i) by {
            assert(rest[i] == seqs[i]);
            if late_places(start, seqs).contains(i) && seqs[i] >= start {
                let j = choose|j: int| 0 <= j < i && #[trigger] seqs[j] >= seqs[i];
                assert(rest[j] == seqs[j]);
            }
            if late_places(start, rest).contains(i) && rest[i] >= start {
                let j = choose|j: int| 0 <= j < i && #[trigger] rest[j] >= rest[i];
                assert(seqs[j] == rest[j]);
            }
        }
        assert(!late_places(start, rest).contains(n));
        if seq < expected {
            if seq >= start {
                let j = choose|j: int| 0 <= j < rest.len() && rest[j] == (expected - 1) as u32;
                assert(seqs[j] == rest[j]);
                assert(seqs[j] >= seqs[n]);
            }
            assert(late_places(start, seqs).contains(n));
            assert(late_places(start, seqs) =~= late_places(start, rest).insert(n));
        } else {
            assert(!late_places(start, seqs).contains(n)) by {
                if late_places(start, seqs).contains(n) {
                    let j = choose|j: int| 0 <= j < n && #[trigger] seqs[j] >= seqs[n];
                    assert(rest[j] == seqs[j]);
                }
            }
            assert(late_places(start, seqs) =~= late_places(start, rest));
        }
    }
}

/// The places in a run of sequence numbers at which a packet comes late: its number is less than
/// the first expected one, or a number at least as great came before it.
pub open spec fn late_places(start: u32, seqs: Seq<u32>) -> Set<int> {
    Set::new(
        |i: int|
            0 <= i < seqs.len() && (seqs[i] < start || exists|j: int|
                0 <= j < i && #[trigger] seqs[j] >= seqs[i]),
    )
}

/// Law: as long as no sequence number is the greatest one, the late packets of a stream are those
/// whose number was already passed when they came, and the lost ones are the numbers from the first
/// expected one up to the highest one received, less the packets that were not late.
pub proof fn law_late_and_lost_of_run(start: u32, seqs: Seq<u32>)
    requires
        forall|i: int| 0 <= i < seqs.len() ==> #[trigger] seqs[i] < u32::MAX,
    ensures
        ({
            let late = Set::new(
                |i: int|
                    0 <= i < seqs.len() && (seqs[i] < start || exists|j: int|
                        0 <= j < i && #[trigger] seqs[j] >= seqs[i]),
            );
            &&& late.finite()
            &&& followed(start, seqs).2 == late.len()
            &&& forall|max: u32|
                #![trigger seqs.contains(max)]
                seqs.contains(max) && start <= max && (forall|i: int|
                    0 <= i < seqs.len() ==> #[trigger] seqs[i] <= max) ==> followed(start, seqs).1
                    == max + 1 - start - (seqs.len() - late.len())
        }),
{
    lemma_late_places(start, seqs);
    law_every_number_accounted(start, seqs);
    assert forall|max: u32|
        #![trigger seqs.contains(max)]
        seqs.contains(max) && start <= max && (forall|i: int|
            0 <= i < seqs.len() ==> #[trigger] seqs[i] <= max) implies followed(start, seqs).1
        == max + 1 - start - (seqs.len() - late_places(start, seqs).len()) by {
        let expected = followed(start, seqs).0;
        let k = choose|k: int| 0 <= k < seqs.len() && seqs[k] == max;
        assert(seqs[k] < expected);
        let h = choose|h: int| 0 <= h < seqs.len() && seqs[h] == (expected - 1) as u32;
        assert(seqs[h] <= max);
    }
}

/// The last sequence number and the packets out of order that a client has after a run of packets,
/// by their numbers.
pub open spec fn client_followed(seqs: Seq<u32>) -> (u32, nat)
    decreases seqs.len(),
{
    if seqs.len() == 0 {
        (0, 0)
    } else {
        let (last, late) = client_followed(seqs.drop_last());
        (seqs.last(), late + late_of(last, seqs.last()) as nat)
    }
}

/// Law: the packets that are out of order for a client are those whose sequence number is less than
/// that of the packet directly before them.
pub proof fn law_client_counts_falls(seqs: Seq<u32>)
    ensures
        ({
            let late = Set::new(|i: int| 0 < i < seqs.len() && seqs[i] < seqs[i - 1]);
            &&& late.finite()
            &&& client_followed(seqs).1 == late.len()
            &&& seqs.len() > 0 ==> client_followed(seqs).0 == seqs.last()
        }),
    decreases seqs.len(),
{
    let run = Seq::new(seqs.len(), |i: int| seqs[i] as int);
    let late = Set::new(|i: int| 0 < i < seqs.len() && seqs[i] < seqs[i - 1]);
    assert(late =~= falls(run));
    lemma_falls_push(run, 0);
    if seqs.len() == 0 {
        assert(late =~= Set::empty());
    } else {
        let rest = seqs.drop_last();
        let before = Seq::new(rest.len(), |i: int| rest[i] as int);
        law_client_counts_falls(rest);
        assert(Set::new(|i: int| 0 < i < rest.len() && rest[i] < rest[i - 1]) =~= falls(before));
        assert(run =~= before.push(seqs.last() as int));
        lemma_falls_push(before, seqs.last() as int);
    }
}

/// Law: a client reads the number of a packet without a header from the place where a one-way sender
/// stamps it, unless that number is the mark of a header.
pub proof fn law_client_reads_stamp(packet: Seq<u8>, seq: u32, stream_id: u32)
    requires
        packet.len() >= 8,
        seq != crate::udp_packet::RPERF3_UDP_MAGIC,
    ensures
        sequence_of(stamped(packet, seq, stream_id)) == Some(seq),
{
    law_stamp_round_trip(packet, seq, stream_id);
}

/// Law: the share of lost packets is that of the lost ones among all that are known of, lost and
/// received together, and there is one just when any are known of.
pub proof fn law_loss_among_known(received: u64, lost: u64)
    requires
        received + lost <= u64::MAX,
    ensures
        loss_share(received, lost) is Some <==> received > 0 || lost > 0,
        loss_share(received, lost) matches Some(share) ==> share.part == lost && share.whole - lost
            == received,
{
}

/// Law: against an expected number of packets the lost ones are those that were expected and did not
/// come. None are lost when more came than were expected.
pub proof fn law_loss_against_expected(expected: nat, received: u64)
    requires
        expected <= u64::MAX,
    ensures
        ({
            let share = expected_loss(expected, received);
            &&& share.whole > 0
            &&& received < expected ==> share.part + received == expected && share.whole
                == expected
            &&& received >= expected ==> share.part == 0
        }),
{
}

/// Law: a sequence number shows a gap just when it is beyond the expected one, with as many packets
/// as lie between, and a late packet just when it is before it. Then the next one follows the
/// highest number so far.
pub proof fn law_what_a_number_shows(expected: u32, seq: u32)
    ensures
        seen(expected, seq) is InOrder <==> seq == expected,
        seen(expected, seq) is Late <==> seq < expected,
        seen(expected, seq) matches Seen::Gap(n) ==> expected + n == seq && n > 0,
        gap_of(expected, seq) == if seq > expected {
            seq - expected
        } else {
            0
        },
        late_of(expected, seq) == (if seen(expected, seq) is Late {
            1int
        } else {
            0
        }),
        gap_of(expected, seq) > 0 <==> seen(expected, seq) is Gap,
        seq < expected ==> next_expected(expected, seq) == expected,
        expected <= seq < u32::MAX ==> next_expected(expected, seq) == seq + 1,
        next_expected(expected, u32::MAX) == 0,
{
}

/// Law: parallel streams start as far apart as the spacing says, each after the one before it, until
/// the numbers start over.
pub proof fn law_streams_start_in_order(index: nat)
    requires
        (index + 1) * 10_000_000 < 0x1_0000_0000,
    ensures
        first_seq(0) == 0,
        first_seq(index + 1) - first_seq(index) == 10_000_000,
        wire_id(index) == index,
{
}

/// Law: a packet is read as it is laid out: four bytes of sequence number and then four of the stream,
/// most significant first, and a packet that is too short for them has none.
pub proof fn law_marks_layout(packet: Seq<u8>)
    ensures
        marks_of(packet) is Some <==> packet.len() >= 8,
        marks_of(packet) matches Some((seq, stream_id)) ==> {
            &&& seq == ((packet[0] * 256 + packet[1]) * 256 + packet[2]) * 256 + packet[3]
            &&& stream_id == ((packet[4] * 256 + packet[5]) * 256 + packet[6]) * 256 + packet[7]
        },
        sequence_of(packet) is Some <==> packet.len() >= 4,
        sequence_of(packet) matches Some(seq) ==> {
            let own = packet.len() >= 20 && packet[0] == 0x52 && packet[1] == 0x50 && packet[2]
                == 0x46 && packet[3] == 0x33;
            let at = if own {
                8int
            } else {
                0
            };
            seq == ((packet[at] * 256 + packet[at + 1]) * 256 + packet[at + 2]) * 256 + packet[at
                + 3]
        },
{
    if packet.len() >= 20 {
        crate::udp_packet::law_own_packets_are_known(packet);
    }
}

/// Law: of streams that share a bandwidth, an earlier one never has less than a later one.
pub proof fn law_earlier_streams_first(bandwidth: u64, streams: nat, a: nat, b: nat)
    requires
        a <= b < streams,
    ensures
        bandwidth_share(bandwidth, streams, a) >= bandwidth_share(bandwidth, streams, b),
{
}

} // verus!
