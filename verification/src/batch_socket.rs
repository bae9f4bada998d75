//! Batches of UDP packets for socket calls that take many at once.
//!
//! A batch of packets is handed to the kernel in one call; on systems without such calls its
//! packets go one by one. The calls themselves are made elsewhere: here is what is put together
//! for them and what becomes of their answers.

use crate::net::{from_raw, spells, AddrError, IpAddr, RawAddr, SocketAddr, AF_INET, AF_INET6};
use vstd::prelude::*;

verus! {

/// Maximum number of messages to batch in a single operation.
///
/// This value balances throughput gains against latency. Too high and we introduce unnecessary
/// latency, too low and we don't get the full benefit of batching.
pub const MAX_BATCH_SIZE: usize = 64;

/// Room for a packet of the largest size.
pub const MAX_PACKET_SIZE: usize = 65536;

/// A batch of UDP packets ready to send.
#[derive(Debug)]
pub struct UdpSendBatch {
    /// The packets to send
    pub packets: Vec<Vec<u8>>,
    /// Target addresses for each packet
    pub addresses: Vec<SocketAddr>,
}

/// The answer of the kernel to an attempt to send a batch.
#[derive(Debug)]
pub enum SendReply {
    /// Nothing could be sent without waiting
    WouldBlock,
    /// The attempt failed
    Failed,
    /// The first packets of the batch were sent, with so many bytes each
    Sent(Vec<u32>),
}

/// An attempt to send failed.
#[derive(Debug, Clone, Copy, PartialEq, Eq, Structural)]
pub struct SendFailed;

/// The sum of some lengths.
pub open spec fn sum_lens(lens: Seq<u32>) -> nat
    decreases lens.len(),
{
    if lens.len() == 0 {
        0
    } else {
        sum_lens(lens.drop_last()) + lens.last() as nat
    }
}

proof fn lemma_sum_grows(lens: Seq<u32>, i: int)
    requires
        0 <= i <= lens.len(),
    ensures
        sum_lens(lens.take(i)) <= sum_lens(lens),
    decreases lens.len(),
{
    if i == lens.len() {
        assert(lens.take(i) =~= lens);
    } else {
        assert(lens.drop_last().take(i) =~= lens.take(i));
        lemma_sum_grows(lens.drop_last(), i);
    }
}

impl UdpSendBatch {
    /// Each packet has its address, and there are no more than fit a batch.
    pub open spec fn wf(&self) -> bool {
        &&& self.packets@.len() == self.addresses@.len()
        &&& self.packets@.len() <= MAX_BATCH_SIZE
    }

    /// Creates a new empty batch.
    pub fn new() -> (r: Self)
        ensures
            r.wf(),
            r.packets@.len() == 0,
    {
        UdpSendBatch {
            packets: Vec::with_capacity(MAX_BATCH_SIZE),
            addresses: Vec::with_capacity(MAX_BATCH_SIZE),
        }
    }

    /// Creates a new empty batch with room for some packets from the start.
    pub fn with_capacity(capacity: usize) -> (r: Self)
        ensures
            r.wf(),
            r.packets@.len() == 0,
    {
        let room: usize = if capacity < MAX_BATCH_SIZE {
            capacity
        } else {
            MAX_BATCH_SIZE
        };
        UdpSendBatch { packets: Vec::with_capacity(room), addresses: Vec::with_capacity(room) }
    }

    /// Adds a packet to the batch.
    ///
    /// Returns `true` if the packet was added, `false` if the batch is full.
    pub fn add(&mut self, packet: Vec<u8>, addr: SocketAddr) -> (r: bool)
        requires
            old(self).wf(),
        ensures
            final(self).wf(),
            r == (old(self).packets@.len() < MAX_BATCH_SIZE),
            r ==> {
                &&& final(self).packets@ == old(self).packets@.push(packet)
                &&& final(self).addresses@ == old(self).addresses@.push(addr)
            },
            !r ==> *final(self) == *old(self),
    {
        if self.packets.len() >= MAX_BATCH_SIZE {
            return false;
        }
        self.packets.push(packet);
        self.addresses.push(addr);
        true
    }

    /// Returns the number of packets in the batch.
    pub fn len(&self) -> (r: usize)
        ensures
            r == self.packets@.len(),
    {
        self.packets.len()
    }

    /// Returns `true` if the batch is empty.
    pub fn is_empty(&self) -> (r: bool)
        ensures
            r == (self.packets@.len() == 0),
    {
        self.packets.len() == 0
    }

    /// Returns `true` if the batch is full.
    pub fn is_full(&self) -> (r: bool)
        ensures
            r == (self.packets@.len() >= MAX_BATCH_SIZE),
    {
        self.packets.len() >= MAX_BATCH_SIZE
    }

    /// Clears the batch, removing all packets.
    pub fn clear(&mut self)
        ensures
            final(self).wf(),
            final(self).packets@.len() == 0,
    {
        self.packets.clear();
        self.addresses.clear();
    }

    /// Removes the first packets of the batch. The others stay in their order.
    pub fn remove_sent(&mut self, count: usize)
        requires
            old(self).wf(),
            count <= old(self).packets@.len(),
        ensures
            final(self).wf(),
            final(self).packets@ == old(self).packets@.skip(count as int),
            final(self).addresses@ == old(self).addresses@.skip(count as int),
    {
        let packets: Vec<Vec<u8>> = self.packets.split_off(count);
        let addresses: Vec<SocketAddr> = self.addresses.split_off(count);
        assert(packets@ =~= old(self).packets@.skip(count as int));
        assert(addresses@ =~= old(self).addresses@.skip(count as int));
        self.packets = packets;
        self.addresses = addresses;
    }

    /// Takes the answer to an attempt to send the batch: what was sent leaves it.
    ///
    /// Returns the number of bytes sent and the number of packets successfully sent.
    pub fn on_reply(&mut self, reply: SendReply) -> (r: Result<(usize, usize), SendFailed>)
        requires
            old(self).wf(),
            reply matches SendReply::Sent(lens) ==> lens@.len() <= old(self).packets@.len()
                && sum_lens(lens@) <= usize::MAX,
        ensures
            final(self).wf(),
            match reply {
                SendReply::WouldBlock => r == Ok::<(usize, usize), SendFailed>((0, 0))
                    && *final(self) == *old(self),
                SendReply::Failed => r is Err && *final(self) == *old(self),
                SendReply::Sent(lens) => {
                    &&& r == Ok::<(usize, usize), SendFailed>(
                        (sum_lens(lens@) as usize, lens@.len() as usize),
                    )
                    &&& final(self).packets@ == old(self).packets@.skip(lens@.len() as int)
                    &&& final(self).addresses@ == old(self).addresses@.skip(lens@.len() as int)
                },
            },
    {
        match reply {
            SendReply::WouldBlock => Ok((0, 0)),
            SendReply::Failed => Err(SendFailed),
            SendReply::Sent(lens) => {
                let mut total: usize = 0;
                let mut i: usize = 0;
                while i < lens.len()
                    invariant
                        i <= lens@.len(),
                        total == sum_lens(lens@.take(i as int)),
                        sum_lens(lens@) <= usize::MAX,
                    decreases lens@.len() - i,
                {
                    assert(lens@.take(i + 1).drop_last() =~= lens@.take(i as int));
                    proof {
                        lemma_sum_grows(lens@, i + 1);
                    }
                    total = total + lens[i] as usize;
                    i = i + 1;
                }
                assert(lens@.take(i as int) =~= lens@);
                self.remove_sent(i);
                Ok((total, i))
            },
        }
    }
}

impl Default for UdpSendBatch {
    fn default() -> (r: Self)
        ensures
            r.wf(),
            r.packets@.len() == 0,
    {
        Self::new()
    }
}

/// The batch size for a bandwidth target: small batches keep a low rate exact, and without a
/// target batches are as large as they can be.
pub open spec fn batch_size_for(bandwidth: Option<u64>, payload_size: usize) -> int {
    match bandwidth {
        None => 64,
        Some(bits) => {
            let per_second = (bits / 8) / payload_size as u64;
            if per_second < 1000 {
                16
            } else if per_second < 10000 {
                32
            } else {
                64
            }
        },
    }
}

/// The number of packets to send at once.
pub fn adaptive_batch_size(bandwidth: Option<u64>, payload_size: usize) -> (r: usize)
    requires
        payload_size > 0,
    ensures
        r == batch_size_for(bandwidth, payload_size),
        0 < r <= MAX_BATCH_SIZE,
{
    match bandwidth {
        None => MAX_BATCH_SIZE,
        Some(bits) => {
            let per_second: u64 = (bits / 8) / payload_size as u64;
            if per_second < 1000 {
                if MAX_BATCH_SIZE / 4 > 4 {
                    MAX_BATCH_SIZE / 4
                } else {
                    4
                }
            } else if per_second < 10000 {
                MAX_BATCH_SIZE / 2
            } else {
                MAX_BATCH_SIZE
            }
        },
    }
}

/// A batch of UDP packets received.
#[derive(Debug)]
pub struct UdpRecvBatch {
    /// The received packets
    pub packets: Vec<Vec<u8>>,
    /// Source addresses for each packet
    pub addresses: Vec<SocketAddr>,
    /// Number of valid packets in the batch
    pub count: usize,
}

/// What came of an attempt to receive without waiting.
#[derive(Debug, Clone, Copy, PartialEq, Eq, Structural)]
pub enum TryReply {
    /// So many packets
    Got(usize),
    /// Nothing without waiting
    WouldBlock,
    /// The attempt failed
    Failed,
}

/// What to do after an attempt to receive.
#[derive(Debug, Clone, Copy, PartialEq, Eq, Structural)]
pub enum RecvNext {
    /// The batch is there
    Done(usize),
    /// Wait until there is something to read, then try once more
    Wait,
    /// Give up
    Fail,
}

/// What to do after the first attempt to receive.
pub fn after_first_try(reply: TryReply) -> (r: RecvNext)
    ensures
        r == match reply {
            TryReply::Got(n) => if n > 0 {
                RecvNext::Done(n)
            } else {
                RecvNext::Wait
            },
            TryReply::WouldBlock => RecvNext::Wait,
            TryReply::Failed => RecvNext::Fail,
        },
{
    match reply {
        TryReply::Got(n) => if n > 0 {
            RecvNext::Done(n)
        } else {
            RecvNext::Wait
        },
        TryReply::WouldBlock => RecvNext::Wait,
        TryReply::Failed => RecvNext::Fail,
    }
}

/// What to do after the second attempt to receive, which is the last one.
pub fn after_second_try(reply: TryReply) -> (r: RecvNext)
    ensures
        r == match reply {
            TryReply::Got(n) => RecvNext::Done(n),
            TryReply::WouldBlock => RecvNext::Fail,
            TryReply::Failed => RecvNext::Fail,
        },
{
    match reply {
        TryReply::Got(n) => RecvNext::Done(n),
        TryReply::WouldBlock => RecvNext::Fail,
        TryReply::Failed => RecvNext::Fail,
    }
}

/// The first bytes of a packet, or all of them when there are fewer.
pub open spec fn cut(packet: Seq<u8>, len: nat) -> Seq<u8> {
    if len < packet.len() {
        packet.take(len as int)
    } else {
        packet
    }
}

/// A buffer of full size that starts with the given bytes, and is zero where they end.
pub open spec fn filled_up(bytes: Seq<u8>) -> Seq<u8> {
    Seq::new(
        MAX_PACKET_SIZE as nat,
        |j: int|
            if j < bytes.len() {
                bytes[j]
            } else {
                0
            },
    )
}

/// True when the first `n` buffers of a batch were cut to the packets read into them, with the
/// addresses that these came from, and the other buffers are as they were.
pub open spec fn stored(
    before: UdpRecvBatch,
    after: UdpRecvBatch,
    lens: Seq<u32>,
    from: Seq<RawAddr>,
    n: int,
) -> bool {
    &&& forall|j: int|
        0 <= j < n ==> (#[trigger] after.packets@[j])@ == cut(
            before.packets@[j]@,
            lens[j] as nat,
        ) && spells(from[j].family, from[j].data@, after.addresses@[j])
    &&& forall|j: int|
        n <= j < MAX_BATCH_SIZE ==> #[trigger] after.packets@[j] == before.packets@[j]
            && after.addresses@[j] == before.addresses@[j]
}

proof fn lemma_stored(
    first: UdpRecvBatch,
    before: UdpRecvBatch,
    after: UdpRecvBatch,
    lens: Seq<u32>,
    from: Seq<RawAddr>,
    n: int,
)
    requires
        0 <= n < MAX_BATCH_SIZE,
        before.wf(),
        after.wf(),
        stored(first, before, lens, from, n),
        forall|j: int|
            0 <= j < MAX_BATCH_SIZE && j != n ==> #[trigger] after.packets@[j]
                == before.packets@[j],
        after.packets@[n]@ == cut(before.packets@[n]@, lens[n] as nat),
        after.addresses@ == before.addresses@.update(n, after.addresses@[n]),
        spells(from[n].family, from[n].data@, after.addresses@[n]),
    ensures
        stored(first, after, lens, from, n + 1),
{
    assert(before.packets@[n] == first.packets@[n]);
    assert forall|j: int| 0 <= j < n + 1 implies (#[trigger] after.packets@[j])@ == cut(
        first.packets@[j]@,
        lens[j] as nat,
    ) && spells(from[j].family, from[j].data@, after.addresses@[j]) by {
        if j < n {
            assert(after.packets@[j] == before.packets@[j]);
        }
    }
    assert forall|j: int| n + 1 <= j < MAX_BATCH_SIZE implies #[trigger] after.packets@[j]
        == first.packets@[j] && after.addresses@[j] == first.addresses@[j] by {
        assert(after.packets@[j] == before.packets@[j]);
    }
}

/// True for an address that can be read.
pub open spec fn readable(addr: RawAddr) -> bool {
    addr.family == AF_INET || addr.family == AF_INET6
}

impl UdpRecvBatch {
    /// There is room for a whole batch, and no more of it is valid than there is.
    pub open spec fn wf(&self) -> bool {
        &&& self.packets@.len() == MAX_BATCH_SIZE
        &&& self.addresses@.len() == MAX_BATCH_SIZE
        &&& self.count <= MAX_BATCH_SIZE
    }

    /// Creates a new empty batch with pre-allocated buffers.
    pub fn new() -> (r: Self)
        ensures
            r.wf(),
            r.count == 0,
            forall|i: int|
                0 <= i < MAX_BATCH_SIZE ==> (#[trigger] r.packets@[i])@ == Seq::new(
                    MAX_PACKET_SIZE as nat,
                    |j: int| 0u8,
                ),
            forall|i: int|
                0 <= i < MAX_BATCH_SIZE ==> (#[trigger] r.addresses@[i]) == (SocketAddr {
                    ip: IpAddr::V4([0, 0, 0, 0]),
                    port: 0,
                }),
    {
        let mut packets: Vec<Vec<u8>> = Vec::with_capacity(MAX_BATCH_SIZE);
        let mut addresses: Vec<SocketAddr> = Vec::with_capacity(MAX_BATCH_SIZE);
        let nowhere = SocketAddr { ip: IpAddr::V4([0, 0, 0, 0]), port: 0 };
        while packets.len() < MAX_BATCH_SIZE
            invariant
                packets@.len() <= MAX_BATCH_SIZE,
                addresses@.len() == packets@.len(),
                nowhere == (SocketAddr { ip: IpAddr::V4([0, 0, 0, 0]), port: 0 }),
                forall|i: int|
                    0 <= i < packets@.len() ==> (#[trigger] packets@[i])@ == Seq::new(
                        MAX_PACKET_SIZE as nat,
                        |j: int| 0u8,
                    ),
                forall|i: int| 0 <= i < addresses@.len() ==> (#[trigger] addresses@[i]) == nowhere,
            decreases MAX_BATCH_SIZE - packets@.len(),
        {
            let mut buffer: Vec<u8> = Vec::new();
            buffer.resize(MAX_PACKET_SIZE, 0);
            assert(buffer@ =~= Seq::new(MAX_PACKET_SIZE as nat, |j: int| 0u8));
            packets.push(buffer);
            addresses.push(nowhere);
        }
        UdpRecvBatch { packets, addresses, count: 0 }
    }

    /// Gives every buffer its full size again, filled up with zeros.
    pub fn prepare(&mut self)
        requires
            old(self).wf(),
        ensures
            final(self).wf(),
            final(self).addresses == old(self).addresses,
            final(self).count == old(self).count,
            forall|i: int|
                0 <= i < MAX_BATCH_SIZE ==> (#[trigger] final(self).packets@[i])@ == filled_up(
                    old(self).packets@[i]@,
                ),
    {
        let mut i: usize = 0;
        while i < self.packets.len()
            invariant
                i <= self.packets@.len(),
                self.packets@.len() == MAX_BATCH_SIZE,
                self.addresses == old(self).addresses,
                self.count == old(self).count,
                old(self).packets@.len() == MAX_BATCH_SIZE,
                forall|j: int|
                    0 <= j < i ==> (#[trigger] self.packets@[j])@ == filled_up(
                        old(self).packets@[j]@,
                    ),
                forall|j: int|
                    i <= j < MAX_BATCH_SIZE ==> #[trigger] self.packets@[j]
                        == old(self).packets@[j],
            decreases self.packets@.len() - i,
        {
            let mut buffer: Vec<u8> = Vec::new();
            assert(self.packets@[i as int] == old(self).packets@[i as int]);
            std::mem::swap(&mut buffer, &mut self.packets[i]);
            let ghost held = buffer@;
            buffer.resize(MAX_PACKET_SIZE, 0);
            assert(buffer@ =~= filled_up(held)) by {
                assert forall|j: int| 0 <= j < buffer@.len() implies buffer@[j] == filled_up(
                    held,
                )[j] by {
                    if j < held.len() && held.len() < MAX_PACKET_SIZE {
                        assert(buffer@.subrange(0, held.len() as int)[j] == held[j]);
                    }
                }
            }
            std::mem::swap(&mut buffer, &mut self.packets[i]);
            i = i + 1;
        }
    }

    /// Empties the batch and gives every buffer its full size again, filled up with zeros.
    pub fn restart(&mut self)
        requires
            old(self).wf(),
        ensures
            final(self).wf(),
            final(self).addresses == old(self).addresses,
            final(self).count == 0,
            forall|i: int|
                0 <= i < MAX_BATCH_SIZE ==> (#[trigger] final(self).packets@[i])@ == filled_up(
                    old(self).packets@[i]@,
                ),
    {
        self.prepare();
        self.count = 0;
    }

    /// Cuts a buffer to the packet that was read into it and notes where it came from.
    fn store(&mut self, at: usize, len: usize, addr: SocketAddr)
        requires
            old(self).wf(),
            at < MAX_BATCH_SIZE,
        ensures
            final(self).wf(),
            final(self).count == old(self).count,
            final(self).addresses@ == old(self).addresses@.update(at as int, addr),
            final(self).packets@.len() == old(self).packets@.len(),
            final(self).packets@[at as int]@ == cut(old(self).packets@[at as int]@, len as nat),
            forall|j: int|
                0 <= j < MAX_BATCH_SIZE && j != at ==> #[trigger] final(self).packets@[j]
                    == old(self).packets@[j],
    {
        let mut buffer: Vec<u8> = Vec::new();
        std::mem::swap(&mut buffer, &mut self.packets[at]);
        buffer.truncate(len);
        std::mem::swap(&mut buffer, &mut self.packets[at]);
        self.addresses.set(at, addr);
    }

    /// Adds a packet that was read into the next free buffer.
    pub fn accept(&mut self, len: usize, addr: SocketAddr)
        requires
            old(self).wf(),
            old(self).count < MAX_BATCH_SIZE,
        ensures
            final(self).wf(),
            final(self).count == old(self).count + 1,
            final(self).addresses@ == old(self).addresses@.update(old(self).count as int, addr),
            final(self).packets@[old(self).count as int]@ == cut(
                old(self).packets@[old(self).count as int]@,
                len as nat,
            ),
            forall|j: int|
                0 <= j < MAX_BATCH_SIZE && j != old(self).count ==> #[trigger] final(
                    self).packets@[j] == old(self).packets@[j],
    {
        let at: usize = self.count;
        self.store(at, len, addr);
        self.count = at + 1;
    }

    /// Takes a whole batch that was read into the buffers, with the length and the raw source
    /// address of each packet.
    ///
    /// Returns the number of packets. Fails at the first packet from an address that is neither
    /// IPv4 nor IPv6; the number of valid packets is then what it was.
    pub fn accept_all(&mut self, lens: &Vec<u32>, from: &Vec<RawAddr>) -> (r: Result<
        usize,
        AddrError,
    >)
        requires
            old(self).wf(),
            lens@.len() == from@.len(),
            lens@.len() <= MAX_BATCH_SIZE,
            forall|i: int| 0 <= i < from@.len() ==> (#[trigger] from@[i]).data@.len() >= 26,
        ensures
            final(self).wf(),
            match r {
                Ok(count) => {
                    &&& count == lens@.len()
                    &&& final(self).count == count
                    &&& forall|j: int| 0 <= j < count ==> readable(#[trigger] from@[j])
                    &&& stored(*old(self), *final(self), lens@, from@, count as int)
                },
                Err(_) => {
                    &&& final(self).count == old(self).count
                    &&& exists|n: int|
                        {
                            &&& 0 <= n < from@.len()
                            &&& !readable(#[trigger] from@[n])
                            &&& forall|j: int| 0 <= j < n ==> readable(#[trigger] from@[j])
                            &&& stored(*old(self), *final(self), lens@, from@, n)
                        }
                },
            },
    {
        let mut i: usize = 0;
        while i < lens.len()
            invariant
                i <= lens@.len(),
                lens@.len() == from@.len(),
                lens@.len() <= MAX_BATCH_SIZE,
                forall|j: int| 0 <= j < from@.len() ==> (#[trigger] from@[j]).data@.len() >= 26,
                old(self).wf(),
                self.wf(),
                self.count == old(self).count,
                forall|j: int| 0 <= j < i ==> readable(#[trigger] from@[j]),
                stored(*old(self), *self, lens@, from@, i as int),
            decreases lens@.len() - i,
        {
            assert(from@[i as int].data@.len() >= 26);
            let ghost before = *self;
            match from_raw(from[i].family, from[i].data.as_slice()) {
                Ok(addr) => {
                    assert(self.packets@[i as int] == old(self).packets@[i as int]);
                    self.store(i, lens[i] as usize, addr);
                    proof {
                        lemma_stored(*old(self), before, *self, lens@, from@, i as int);
                    }
                },
                Err(e) => {
                    assert(!readable(from@[i as int]));
                    return Err(e);
                },
            }
            i = i + 1;
        }
        self.count = i;
        Ok(i)
    }

    /// Returns the number of packets in the batch.
    pub fn len(&self) -> (r: usize)
        ensures
            r == self.count,
    {
        self.count
    }

    /// Returns `true` if the batch is empty.
    pub fn is_empty(&self) -> (r: bool)
        ensures
            r == (self.count == 0),
    {
        self.count == 0
    }

    /// Gets a reference to a packet and its source address by index.
    pub fn get(&self, index: usize) -> (r: Option<(&[u8], SocketAddr)>)
        requires
            self.wf(),
        ensures
            match r {
                Some((packet, addr)) => index < self.count && packet@
                    == self.packets@[index as int]@ && addr == self.addresses@[index as int],
                None => index >= self.count,
            },
    {
        if index < self.count {
            Some((self.packets[index].as_slice(), self.addresses[index]))
        } else {
            None
        }
    }

    /// Returns the packets and their source addresses.
    pub fn iter(&self) -> (r: Vec<(&[u8], SocketAddr)>)
        requires
            self.wf(),
        ensures
            r@.len() == self.count,
            forall|i: int|
                0 <= i < self.count ==> (#[trigger] r@[i]).0@ == self.packets@[i]@ && r@[i].1
                    == self.addresses@[i],
    {
        let mut r: Vec<(&[u8], SocketAddr)> = Vec::with_capacity(self.count);
        let mut i: usize = 0;
        while i < self.count
            invariant
                i <= self.count,
                self.wf(),
                r@.len() == i,
                forall|j: int|
                    0 <= j < i ==> (#[trigger] r@[j]).0@ == self.packets@[j]@ && r@[j].1
                        == self.addresses@[j],
            decreases self.count - i,
        {
            r.push((self.packets[i].as_slice(), self.addresses[i]));
            i = i + 1;
        }
        r
    }
}

impl Default for UdpRecvBatch {
    fn default() -> (r: Self)
        ensures
            r.wf(),
            r.count == 0,
            forall|i: int|
                0 <= i < MAX_BATCH_SIZE ==> (#[trigger] r.packets@[i])@ == Seq::new(
                    MAX_PACKET_SIZE as nat,
                    |j: int| 0u8,
                ),
            forall|i: int|
                0 <= i < MAX_BATCH_SIZE ==> (#[trigger] r.addresses@[i]) == (SocketAddr {
                    ip: IpAddr::V4([0, 0, 0, 0]),
                    port: 0,
                }),
    {
        Self::new()
    }
}

/// The answer of a queued send call that takes many buffers: how many packets went out.
///
/// The call says how many bytes it sent. Packets are of one size, so that gives their number. An
/// error that only means "try again" counts as none sent, any other one as failure.
pub open spec fn queued_send_result(
    ret: i32,
    bytes_sent: u32,
    packet_len: u32,
    os_error: Option<i32>,
) -> i32 {
    if ret == 0 {
        (bytes_sent / packet_len) as i32
    } else if ret == -1 {
        if os_error == Some(10035i32) {
            0i32
        } else {
            -1i32
        }
    } else {
        ret
    }
}

/// How many packets a queued send call sent, or -1 on error.
pub fn queued_send_outcome(
    ret: i32,
    bytes_sent: u32,
    packet_len: u32,
    os_error: Option<i32>,
) -> (r: i32)
    requires
        ret == 0 ==> packet_len > 0,
    ensures
        r == queued_send_result(ret, bytes_sent, packet_len, os_error),
{
    if ret == 0 {
        (bytes_sent / packet_len) as i32
    } else if ret == -1 {
        let code: i32 = match os_error {
            Some(code) => code,
            None => 0,
        };
        if code == 10035 {
            0
        } else {
            -1
        }
    } else {
        ret
    }
}

/// Law: a batch that is filled and then sent in parts gives out its packets in the order in which
/// they were added, each exactly once: what was removed first and what is left make up the whole.
pub proof fn law_batch_order(packets: Seq<Seq<u8>>, sent: int, more: int)
    requires
        0 <= sent,
        0 <= more,
        sent + more <= packets.len(),
    ensures
        packets.skip(sent).skip(more) == packets.skip(sent + more),
        packets.take(sent) + packets.skip(sent) == packets,
{
    assert(packets.skip(sent).skip(more) =~= packets.skip(sent + more));
    assert(packets.take(sent) + packets.skip(sent) =~= packets);
}

/// Law: batches follow the rate of the packets that a target asks for, with eight bits to a byte: a
/// quarter of a batch below a thousand packets a second, half of one below ten thousand, and else a
/// whole one. So a higher target never has smaller batches.
pub proof fn law_batches_follow_the_rate(bits: u64, more: u64, payload_size: usize)
    requires
        payload_size > 0,
        bits <= more,
    ensures
        bits < 8 * 1000 * payload_size <==> batch_size_for(Some(bits), payload_size) == 16,
        8 * 1000 * payload_size <= bits < 8 * 10_000 * payload_size <==> batch_size_for(
            Some(bits),
            payload_size,
        ) == 32,
        bits >= 8 * 10_000 * payload_size <==> batch_size_for(Some(bits), payload_size) == 64,
        batch_size_for(Some(bits), payload_size) <= batch_size_for(Some(more), payload_size),
        batch_size_for(None, payload_size) == 64,
{
    lemma_packets_per_second(bits, payload_size, 1000);
    lemma_packets_per_second(bits, payload_size, 10_000);
    lemma_packets_per_second(more, payload_size, 1000);
    lemma_packets_per_second(more, payload_size, 10_000);
}

proof fn lemma_packets_per_second(bits: u64, payload_size: usize, rate: int)
    requires
        payload_size > 0,
        rate > 0,
    ensures
        ((bits / 8) / (payload_size as u64) < rate) <==> (bits < 8 * rate * payload_size),
{
    let bytes = (bits / 8) as int;
    let p = payload_size as int;
    assert(bytes / p < rate <==> bytes < rate * p) by (nonlinear_arith)
        requires
            p > 0,
            rate > 0,
            bytes >= 0,
    ;
    assert(8 * rate * p == 8 * (rate * p)) by (nonlinear_arith);
    assert(rate * payload_size == rate * p);
}

/// Law: the bytes of a batch are those of its packets added up: what was sent in two parts counts as
/// much as the parts together, and a single packet counts its own length.
pub proof fn law_bytes_add_up(a: Seq<u32>, b: Seq<u32>, len: u32)
    ensures
        sum_lens(Seq::empty()) == 0,
        sum_lens(seq![len]) == len,
        sum_lens(a + b) == sum_lens(a) + sum_lens(b),
    decreases b.len(),
{
    assert(seq![len].drop_last() =~= Seq::empty());
    if b.len() == 0 {
        assert(a + b =~= a);
    } else {
        law_bytes_add_up(a, b.drop_last(), len);
        assert((a + b).drop_last() =~= a + b.drop_last());
        assert((a + b).last() == b.last());
    }
}

/// Law: a packet that was read into a buffer is the first bytes of the buffer, as many as were read,
/// and a buffer that is made ready has its full size, keeps what it had and is zero beyond it.
pub proof fn law_buffers(buffer: Seq<u8>, len: nat, i: int)
    ensures
        len <= buffer.len() ==> cut(buffer, len).len() == len,
        len > buffer.len() ==> cut(buffer, len) == buffer,
        0 <= i < cut(buffer, len).len() ==> cut(buffer, len)[i] == buffer[i],
        filled_up(buffer).len() == 65536,
        0 <= i < buffer.len() && i < 65536 ==> filled_up(buffer)[i] == buffer[i],
        buffer.len() <= i < 65536 ==> filled_up(buffer)[i] == 0,
{
}

/// Law: the packets of a queued send are all those whose bytes went out as a whole. A failed call
/// that only has to be tried again sent none, and any other failure is told as such.
pub proof fn law_queued_packets(ret: i32, bytes_sent: u32, packet_len: u32, os_error: Option<i32>)
    requires
        packet_len > 0,
        bytes_sent <= i32::MAX,
    ensures
        ({
            let n = queued_send_result(ret, bytes_sent, packet_len, os_error) as int;
            &&& ret == 0 ==> n * packet_len <= bytes_sent < (n + 1) * packet_len
            &&& ret == -1 && os_error == Some(10035i32) ==> n == 0
            &&& ret == -1 && os_error != Some(10035i32) ==> n == -1
            &&& ret != 0 && ret != -1 ==> n == ret
        }),
{
    let b = bytes_sent as int;
    let p = packet_len as int;
    let n = b / p;
    assert(n * p <= b < (n + 1) * p && 0 <= n <= b) by (nonlinear_arith)
        requires
            p > 0,
            b >= 0,
            n == b / p,
    ;
}

/// Law: a sender's address can be read when it is one of IPv4 or IPv6.
pub proof fn law_readable_families(addr: RawAddr)
    ensures
        readable(addr) <==> addr.family == 2 || addr.family == 10,
{
}

} // verus!
