//! The sending side of a UDP test: packets with consecutive sequence numbers.

use crate::batch_socket::{UdpSendBatch, MAX_BATCH_SIZE};
use crate::clock::time_since;
use crate::net::SocketAddr;
use crate::time::Duration;
use crate::udp_packet::{
    create_packet_fast, is_stamped, law_cached_timestamp, law_packet_round_trip, packet_bytes,
    parsed_header, stamps, TimestampCache,
};
use vstd::prelude::*;

verus! {

/// A source of packets of one size.
#[derive(Debug)]
pub struct UdpSender {
    /// The sequence number of the next packet; packets carry its low 32 bits
    pub sequence: u64,
    /// Bytes after the header of each packet
    pub payload_size: usize,
    /// The clock of the packets
    pub cache: TimestampCache,
}

/// True for the packet of the single stream with some sequence number, stamped by a cache.
pub open spec fn is_packet(
    packet: Seq<u8>,
    sequence: nat,
    payload_size: usize,
    before: TimestampCache,
    after: TimestampCache,
) -> bool {
    is_stamped(
        packet,
        0,
        (sequence % 0x1_0000_0000) as u32,
        payload_size as nat,
        before,
        after,
    )
}

/// True when some packets are those that a sender makes one after the other, with its cache going
/// through the given states.
pub open spec fn are_packets(
    packets: Seq<Vec<u8>>,
    sender: UdpSender,
    caches: Seq<TimestampCache>,
) -> bool {
    &&& caches.len() == packets.len() + 1
    &&& caches[0] == sender.cache
    &&& forall|i: int|
        0 <= i < packets.len() ==> is_packet(
            (#[trigger] packets[i])@,
            (sender.sequence + i) as nat,
            sender.payload_size,
            caches[i],
            caches[i + 1],
        )
}

impl UdpSender {
    /// A source of packets that start at zero, with a clock that is read every millisecond.
    pub fn new(payload_size: usize) -> (r: Self)
        ensures
            r.sequence == 0,
            r.payload_size == payload_size,
            r.cache.update_interval_us == 1000,
    {
        UdpSender { sequence: 0, payload_size, cache: TimestampCache::new() }
    }

    /// The next packet.
    pub fn next_packet(&mut self) -> (r: Vec<u8>)
        requires
            old(self).sequence < u64::MAX,
            old(self).payload_size + 20 <= isize::MAX,
        ensures
            is_packet(
                r@,
                old(self).sequence as nat,
                old(self).payload_size,
                old(self).cache,
                final(self).cache,
            ),
            final(self).sequence == old(self).sequence + 1,
            final(self).payload_size == old(self).payload_size,
            final(self).cache.update_interval_us == old(self).cache.update_interval_us,
    {
        let low: u32 = (self.sequence % 0x1_0000_0000) as u32;
        self.sequence = self.sequence + 1;
        create_packet_fast(&mut self.cache, 0, low, self.payload_size)
    }

    /// Adds the next packet to a batch, unless the batch is full or has as many packets as it
    /// should, or the test is over, `elapsed` after its start. Returns whether a packet was added.
    pub fn add_next(
        &mut self,
        batch: &mut UdpSendBatch,
        target: usize,
        remote: SocketAddr,
        elapsed: Duration,
        duration: Duration,
    ) -> (added: bool)
        requires
            old(batch).wf(),
            old(batch).packets@.len() < MAX_BATCH_SIZE ==> old(self).sequence < u64::MAX,
            old(self).payload_size + 20 <= isize::MAX,
        ensures
            final(batch).wf(),
            final(self).payload_size == old(self).payload_size,
            final(self).cache.update_interval_us == old(self).cache.update_interval_us,
            added == (old(batch).packets@.len() < MAX_BATCH_SIZE && old(batch).packets@.len()
                < target && elapsed@ < duration@),
            !added ==> *final(batch) == *old(batch) && *final(self) == *old(self),
            added ==> {
                let at = old(batch).packets@.len() as int;
                &&& final(self).sequence == old(self).sequence + 1
                &&& final(batch).packets@ == old(batch).packets@.push(final(batch).packets@[at])
                &&& final(batch).addresses@ == old(batch).addresses@.push(remote)
                &&& is_packet(
                    final(batch).packets@[at]@,
                    old(self).sequence as nat,
                    old(self).payload_size,
                    old(self).cache,
                    final(self).cache,
                )
            },
    {
        if batch.is_full() || batch.len() >= target || !elapsed.shorter_than(&duration) {
            return false;
        }
        let packet: Vec<u8> = self.next_packet();
        batch.add(packet, remote);
        true
    }

    /// Fills a batch up to a number of packets, or until the test is over. When that is depends on
    /// the clock; each single step is that of `add_next`.
    ///
    /// Returns `None` when the batch has all the packets that it should have or can hold. When it
    /// stops short of that, it returns the reading of the clock for which it did: so much time
    /// since the start that the test is over.
    pub fn fill(
        &mut self,
        batch: &mut UdpSendBatch,
        target: usize,
        remote: SocketAddr,
        start: &std::time::Instant,
        duration: Duration,
    ) -> (over: Option<Duration>)
        requires
            old(batch).wf(),
            old(self).sequence + MAX_BATCH_SIZE <= u64::MAX,
            old(self).payload_size + 20 <= isize::MAX,
        ensures
            final(batch).wf(),
            final(self).payload_size == old(self).payload_size,
            final(self).cache.update_interval_us == old(self).cache.update_interval_us,
            match over {
                Some(elapsed) => final(batch).packets@.len() < target && final(batch).packets@.len()
                    < MAX_BATCH_SIZE && elapsed@ >= duration@,
                None => final(batch).packets@.len() >= target || final(batch).packets@.len()
                    == MAX_BATCH_SIZE,
            },
            old(batch).packets@.len() <= final(batch).packets@.len(),
            final(batch).packets@.len() <= target || final(batch).packets@ == old(batch).packets@,
            duration@ == 0 ==> final(batch).packets@ == old(batch).packets@,
            final(self).sequence - old(self).sequence == final(batch).packets@.len()
                - old(batch).packets@.len(),
            final(batch).packets@.take(old(batch).packets@.len() as int) == old(batch).packets@,
            final(batch).addresses@.take(old(batch).packets@.len() as int)
                == old(batch).addresses@,
            forall|i: int|
                old(batch).packets@.len() <= i < final(batch).packets@.len()
                    ==> #[trigger] final(batch).addresses@[i] == remote,
            exists|caches: Seq<TimestampCache>|
                #[trigger] are_packets(
                    final(batch).packets@.skip(old(batch).packets@.len() as int),
                    *old(self),
                    caches,
                ) && caches.last() == final(self).cache,
    {
        let ghost held = batch.packets@.len() as int;
        let ghost mut caches: Seq<TimestampCache> = seq![self.cache];
        assert(batch.packets@.take(held) =~= batch.packets@);
        assert(batch.addresses@.take(held) =~= batch.addresses@);
        while !batch.is_full() && batch.len() < target
            invariant
                batch.wf(),
                old(batch).wf(),
                held == old(batch).packets@.len(),
                old(self).sequence + MAX_BATCH_SIZE <= u64::MAX,
                old(self).payload_size + 20 <= isize::MAX,
                self.payload_size == old(self).payload_size,
                self.cache.update_interval_us == old(self).cache.update_interval_us,
                held <= batch.packets@.len(),
                batch.packets@.len() <= target || batch.packets@ == old(batch).packets@,
                duration@ == 0 ==> batch.packets@ == old(batch).packets@,
                self.sequence - old(self).sequence == batch.packets@.len() - held,
                batch.packets@.take(held) == old(batch).packets@,
                batch.addresses@.take(held) == old(batch).addresses@,
                forall|i: int|
                    held <= i < batch.packets@.len() ==> #[trigger] batch.addresses@[i] == remote,
                are_packets(batch.packets@.skip(held), *old(self), caches),
                caches.last() == self.cache,
            decreases MAX_BATCH_SIZE - batch.packets@.len(),
        {
            let ghost before = *batch;
            let elapsed: Duration = time_since(start);
            if !self.add_next(batch, target, remote, elapsed, duration) {
                return Some(elapsed);
            }
            proof {
                let made = before.packets@.skip(held);
                let more = batch.packets@.skip(held);
                let further = caches.push(self.cache);
                assert(batch.packets@.take(held) =~= before.packets@.take(held));
                assert(batch.addresses@.take(held) =~= before.addresses@.take(held));
                assert(more =~= made.push(batch.packets@[before.packets@.len() as int]));
                assert forall|i: int| 0 <= i < more.len() implies is_packet(
                    (#[trigger] more[i])@,
                    (old(self).sequence + i) as nat,
                    old(self).payload_size,
                    further[i],
                    further[i + 1],
                ) by {
                    if i < made.len() {
                        assert(more[i] == made[i]);
                    }
                }
                caches = further;
            }
        }
        None
    }
}

/// Law: a receiver reads from a packet of a sender its place in the stream, counted from zero in 32
/// bits, and the packet is as long as the header and the payload. So no two packets of a sender
/// that are less than four thousand million apart have the same number.
pub proof fn law_sender_numbers_packets(
    packet: Seq<u8>,
    sequence: nat,
    payload_size: usize,
    before: TimestampCache,
    after: TimestampCache,
)
    requires
        is_packet(packet, sequence, payload_size, before, after),
    ensures
        packet.len() == 20 + payload_size,
        parsed_header(packet) matches Some(h) && h.sequence == sequence % 0x1_0000_0000
            && h.stream_id == 0 && (h.timestamp_us == after.cached_timestamp_us || (
        h.timestamp_us - before.cached_timestamp_us) % 0x1_0000_0000_0000_0000
            < before.update_interval_us),
{
    let number = (sequence % 0x1_0000_0000) as u32;
    let stamp = choose|t: u64|
        packet == #[trigger] packet_bytes(0, number, t, payload_size as nat) && stamps(
            before,
            after,
            t,
        );
    law_packet_round_trip(0, number, stamp, payload_size as nat);
    law_cached_timestamp(before, after, stamp);
}

} // verus!
