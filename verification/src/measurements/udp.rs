//! UDP packet tracking: loss, reordering and the changes of delay that jitter is made of.

use crate::number::{Binary64, Percent};
use crate::sequence_set::SequenceSet;
use vstd::prelude::*;
use vstd::set_lib::{lemma_int_range, lemma_len_subset, lemma_set_disjoint_lens, set_int_range};

verus! {

/// UDP-specific statistics for a measurement interval.
///
/// Contains UDP protocol information including packet loss and jitter measurements. Packet loss
/// is determined by tracking sequence number gaps in received packets.
#[derive(Debug, Clone, Copy, PartialEq, Eq, Structural)]
pub struct UdpStats {
    /// Jitter in milliseconds
    pub jitter_ms: Binary64,
    /// Packets that were lost
    pub lost_packets: u64,
    /// Packets that were expected
    pub packets: u64,
    /// Share of the packets that were lost
    pub lost_percent: Percent,
    /// Packets out of order, or the greatest number when they are not counted
    pub out_of_order: u64,
}

impl Default for UdpStats {
    fn default() -> (r: Self)
        ensures
            r == (UdpStats {
                jitter_ms: Binary64 { bits: 0 },
                lost_packets: 0,
                packets: 0,
                lost_percent: Percent { part: 0, whole: 1 },
                out_of_order: u64::MAX,
            }),
    {
        UdpStats {
            jitter_ms: Binary64::zero(),
            lost_packets: 0,
            packets: 0,
            lost_percent: Percent::of(0, 0),
            out_of_order: u64::MAX,
        }
    }
}

/// UDP packet tracking state.
#[derive(Debug)]
pub struct UdpPacketState {
    /// Last received sequence number
    pub last_sequence: Option<u64>,
    /// Highest sequence number seen (`None` if no packets received yet)
    pub max_sequence: Option<u64>,
    /// Count of received packets, repeated ones included
    pub received_count: u64,
    /// The sequence numbers that were received
    pub seen: SequenceSet,
    /// Last packet arrival time in microseconds
    pub last_arrival_us: Option<u64>,
    /// Last packet send timestamp in microseconds
    pub last_send_timestamp_us: Option<u64>,
    /// Current jitter estimate in microseconds
    pub jitter_us: Binary64,
    /// Count of out-of-order packets
    pub out_of_order: u64,
}

/// What a tracking state knows, with the received numbers as a set.
#[verifier::ext_equal]
pub struct UdpTracking {
    /// Last received sequence number
    pub last_sequence: Option<u64>,
    /// Highest sequence number seen
    pub max_sequence: Option<u64>,
    /// Count of received packets, repeated ones included
    pub received_count: u64,
    /// The sequence numbers that were received
    pub seen: Set<int>,
    /// Last packet arrival time in microseconds
    pub last_arrival_us: Option<u64>,
    /// Last packet send timestamp in microseconds
    pub last_send_timestamp_us: Option<u64>,
    /// Current jitter estimate in microseconds
    pub jitter_us: Binary64,
    /// Count of out-of-order packets
    pub out_of_order: u64,
}

impl View for UdpPacketState {
    type V = UdpTracking;

    open spec fn view(&self) -> UdpTracking {
        UdpTracking {
            last_sequence: self.last_sequence,
            max_sequence: self.max_sequence,
            received_count: self.received_count,
            seen: self.seen@,
            last_arrival_us: self.last_arrival_us,
            last_send_timestamp_us: self.last_send_timestamp_us,
            jitter_us: self.jitter_us,
            out_of_order: self.out_of_order,
        }
    }
}

/// What is known before any packet.
pub open spec fn no_packets() -> UdpTracking {
    UdpTracking {
        last_sequence: None,
        max_sequence: None,
        received_count: 0,
        seen: Set::empty(),
        last_arrival_us: None,
        last_send_timestamp_us: None,
        jitter_us: Binary64 { bits: 0 },
        out_of_order: 0,
    }
}

/// The time that a packet took, or zero when the clocks say that it arrived before it left.
pub open spec fn transit(sent_us: u64, received_us: u64) -> u64 {
    received_us.saturating_sub(sent_us)
}

/// The distance of two numbers.
pub open spec fn distance(a: u64, b: u64) -> u64 {
    if a >= b {
        (a - b) as u64
    } else {
        (b - a) as u64
    }
}

/// True for a packet that comes after one with a greater sequence number.
pub open spec fn comes_late(state: UdpTracking, sequence: u64) -> bool {
    state.last_sequence matches Some(last) && sequence < last
}

/// What is known after one packet more. The greatest sequence number marks an initialization
/// packet, which is ignored.
pub open spec fn observed(
    state: UdpTracking,
    sequence: u64,
    sent_us: u64,
    received_us: u64,
) -> UdpTracking {
    if sequence == u64::MAX {
        state
    } else {
        UdpTracking {
            last_sequence: Some(sequence),
            max_sequence: match state.max_sequence {
                Some(max) if sequence <= max => Some(max),
                _ => Some(sequence),
            },
            received_count: (state.received_count + 1) as u64,
            seen: state.seen.insert(sequence as int),
            last_arrival_us: Some(received_us),
            last_send_timestamp_us: Some(sent_us),
            jitter_us: state.jitter_us,
            out_of_order: if comes_late(state, sequence) {
                (state.out_of_order + 1) as u64
            } else {
                state.out_of_order
            },
        }
    }
}

/// How much the transit time of a packet differs from that of the packet before it. There is no
/// such number for the first packet nor for an initialization packet.
pub open spec fn delay_change(
    state: UdpTracking,
    sequence: u64,
    sent_us: u64,
    received_us: u64,
) -> Option<u64> {
    if sequence == u64::MAX {
        None
    } else {
        match (state.last_arrival_us, state.last_send_timestamp_us) {
            (Some(last_arrival), Some(last_send)) => Some(
                distance(transit(sent_us, received_us), transit(last_send, last_arrival)),
            ),
            _ => None,
        }
    }
}

/// The numbers from zero to the highest one that do not belong to a set.
pub open spec fn not_in(seen: Set<int>, max: int) -> Set<int> {
    Set::new(|n: int| 0 <= n <= max && !seen.contains(n))
}

/// The lost packets and the expected ones. Sequence numbers start at zero, so as many are expected
/// as the highest one and one more; lost are those of them that never came.
pub open spec fn loss(state: UdpTracking) -> (u64, u64) {
    match state.max_sequence {
        None => (0, 0),
        Some(max) => (not_in(state.seen, max as int).len() as u64, (max + 1) as u64),
    }
}

/// The highest sequence number of a tracking state is the greatest of those that it has seen.
pub open spec fn max_is_highest(state: UdpTracking) -> bool {
    match state.max_sequence {
        None => state.seen == Set::<int>::empty(),
        Some(max) => {
            &&& max != u64::MAX
            &&& state.seen.contains(max as int)
            &&& forall|n: int| #[trigger] state.seen.contains(n) ==> 0 <= n <= max
        },
    }
}

/// As many of the expected numbers never came as are not among those that did.
pub proof fn lemma_not_in(seen: Set<int>, max: int)
    requires
        seen.finite(),
        max >= 0,
        forall|n: int| #[trigger] seen.contains(n) ==> 0 <= n <= max,
    ensures
        not_in(seen, max).finite(),
        not_in(seen, max).len() + seen.len() == max + 1,
{
    let full = set_int_range(0, max + 1);
    lemma_int_range(0, max + 1);
    let gone = not_in(seen, max);
    assert(gone.subset_of(full));
    lemma_len_subset(gone, full);
    assert(seen + gone =~= full);
    assert(seen.disjoint(gone));
    lemma_set_disjoint_lens(seen, gone);
}

impl UdpPacketState {
    /// What holds of every state: the highest number is the greatest of those received, there is
    /// one once a packet came, and no more packets came late than came at all.
    pub open spec fn wf(&self) -> bool {
        &&& self.seen.wf()
        &&& max_is_highest(self@)
        &&& self.max_sequence is None <==> self.received_count == 0
        &&& self.out_of_order <= self.received_count
        &&& self.last_sequence is Some <==> self.received_count > 0
        &&& self.last_arrival_us is Some <==> self.received_count > 0
        &&& self.last_send_timestamp_us is Some <==> self.received_count > 0
        &&& self.last_sequence matches Some(last) ==> self.max_sequence matches Some(max) && last
            <= max
    }

    /// Takes a packet into account and returns how much its transit time differs from that of the
    /// packet before it.
    pub fn observe(&mut self, sequence: u64, sent_us: u64, received_us: u64) -> (change: Option<
        u64,
    >)
        requires
            old(self).wf(),
            sequence != u64::MAX ==> old(self).received_count < u64::MAX,
        ensures
            final(self).wf(),
            final(self)@ == observed(old(self)@, sequence, sent_us, received_us),
            sequence == u64::MAX ==> *final(self) == *old(self),
            change == delay_change(old(self)@, sequence, sent_us, received_us),
    {
        if sequence == u64::MAX {
            return None;
        }
        self.received_count = self.received_count + 1;
        self.seen.insert(sequence);
        match self.max_sequence {
            None => {
                self.max_sequence = Some(sequence);
            },
            Some(max) => {
                if sequence > max {
                    self.max_sequence = Some(sequence);
                }
            },
        }
        match self.last_sequence {
            Some(last) => {
                if sequence < last {
                    self.out_of_order = self.out_of_order + 1;
                }
            },
            None => {},
        }
        let change: Option<u64> = match (self.last_arrival_us, self.last_send_timestamp_us) {
            (Some(last_arrival), Some(last_send)) => {
                let current: u64 = received_us.saturating_sub(sent_us);
                let previous: u64 = last_arrival.saturating_sub(last_send);
                if current >= previous {
                    Some(current - previous)
                } else {
                    Some(previous - current)
                }
            },
            _ => None,
        };
        self.last_sequence = Some(sequence);
        self.last_arrival_us = Some(received_us);
        self.last_send_timestamp_us = Some(sent_us);
        change
    }

    /// The lost packets and the expected ones.
    pub fn loss(&self) -> (r: (u64, u64))
        requires
            self.wf(),
        ensures
            r == loss(self@),
    {
        match self.max_sequence {
            None => (0, 0),
            Some(max) => {
                proof {
                    lemma_not_in(self.seen@, max as int);
                }
                let expected: u64 = max + 1;
                (expected - self.seen.len(), expected)
            },
        }
    }
}

impl Default for UdpPacketState {
    fn default() -> (r: Self)
        ensures
            r@ == no_packets(),
            r.wf(),
    {
        UdpPacketState {
            last_sequence: None,
            max_sequence: None,
            received_count: 0,
            seen: SequenceSet::new(),
            last_arrival_us: None,
            last_send_timestamp_us: None,
            jitter_us: Binary64::zero(),
            out_of_order: 0,
        }
    }
}

/// A packet that arrived: its sequence number, when it was sent and when it was received.
pub struct Arrival {
    /// Sequence number
    pub sequence: u64,
    /// Send time in microseconds
    pub sent_us: u64,
    /// Receive time in microseconds
    pub received_us: u64,
}

/// What is known after a run of packets.
pub open spec fn after_packets(packets: Seq<Arrival>) -> UdpTracking
    decreases packets.len(),
{
    if packets.len() == 0 {
        no_packets()
    } else {
        let p = packets.last();
        observed(after_packets(packets.drop_last()), p.sequence, p.sent_us, p.received_us)
    }
}

/// The sequence numbers that came in a run of packets, but for the mark of initialization packets.
pub open spec fn numbers(packets: Seq<Arrival>) -> Set<int> {
    Set::new(
        |n: int|
            n != u64::MAX && exists|i: int|
                0 <= i < packets.len() && (#[trigger] packets[i]).sequence == n,
    )
}

/// What a run of packets leaves behind.
proof fn lemma_after_packets(packets: Seq<Arrival>)
    ensures
        after_packets(packets).seen == numbers(packets),
        after_packets(packets).seen.finite(),
        max_is_highest(after_packets(packets)),
    decreases packets.len(),
{
    if packets.len() == 0 {
        assert(numbers(packets) =~= Set::empty());
    } else {
        let rest = packets.drop_last();
        let p = packets.last();
        lemma_after_packets(rest);
        assert forall|n: int| numbers(packets).contains(n) == after_packets(packets).seen.contains(
            n,
        ) by {
            if numbers(packets).contains(n) {
                let i = choose|i: int| 0 <= i < packets.len() && (
                #[trigger] packets[i]).sequence == n;
                if i < rest.len() {
                    assert(rest[i].sequence == n);
                }
            }
            if numbers(rest).contains(n) {
                let i = choose|i: int| 0 <= i < rest.len() && (#[trigger] rest[i]).sequence == n;
                assert(packets[i].sequence == n);
            }
            if n == p.sequence {
                assert(packets[packets.len() - 1].sequence == n);
            }
        }
        assert(numbers(packets) =~= after_packets(packets).seen);
    }
}

/// Law: whatever packets came, in any order and any number of times each, the expected packets are
/// the numbers from zero to the highest one that came, and the lost packets are exactly those of
/// them that never came. Without packets there are neither. Initialization packets do not count.
pub proof fn law_loss_counts_missing(packets: Seq<Arrival>)
    ensures
        numbers(packets) == Set::<int>::empty() ==> loss(after_packets(packets)) == (0u64, 0u64),
        numbers(packets) != Set::<int>::empty() ==> {
            let max = after_packets(packets).max_sequence->0 as int;
            &&& after_packets(packets).max_sequence is Some
            &&& numbers(packets).contains(max)
            &&& forall|n: int| #[trigger] numbers(packets).contains(n) ==> 0 <= n <= max
            &&& not_in(numbers(packets), max).finite()
            &&& loss(after_packets(packets)).0 == not_in(numbers(packets), max).len()
            &&& loss(after_packets(packets)).1 == max + 1
            &&& loss(after_packets(packets)).0 + numbers(packets).len() == max + 1
        },
{
    lemma_after_packets(packets);
    match after_packets(packets).max_sequence {
        None => {},
        Some(max) => {
            lemma_not_in(numbers(packets), max as int);
        },
    }
}

/// Law: the loss does not depend on the order in which the packets came, nor on how often each of
/// them came.
pub proof fn law_loss_ignores_order(a: Seq<Arrival>, b: Seq<Arrival>)
    requires
        numbers(a) == numbers(b),
    ensures
        loss(after_packets(a)) == loss(after_packets(b)),
{
    lemma_after_packets(a);
    lemma_after_packets(b);
    match (after_packets(a).max_sequence, after_packets(b).max_sequence) {
        (Some(m), Some(n)) => {
            assert(numbers(a).contains(m as int) && numbers(b).contains(n as int));
        },
        _ => {},
    }
}

/// Law: initialization packets change nothing, however often they come.
pub proof fn law_initialization_ignored(state: UdpTracking, sent_us: u64, received_us: u64)
    ensures
        observed(state, u64::MAX, sent_us, received_us) == state,
        delay_change(state, u64::MAX, sent_us, received_us) is None,
{
}

/// The places in a run of numbers at which a number is less than the one directly before it.
pub open spec fn falls(run: Seq<int>) -> Set<int> {
    Set::new(|i: int| 0 < i < run.len() && run[i] < run[i - 1])
}

/// A number more makes a place more just when it is less than the last one.
pub proof fn lemma_falls_push(run: Seq<int>, n: int)
    ensures
        falls(run).finite(),
        falls(run).len() <= run.len(),
        falls(run.push(n)).finite(),
        falls(run.push(n)).len() == falls(run).len() + if run.len() > 0 && n < run.last() {
            1nat
        } else {
            0
        },
{
    let all = set_int_range(0, run.len() as int);
    lemma_int_range(0, run.len() as int);
    assert(falls(run).subset_of(all));
    lemma_len_subset(falls(run), all);
    let more = run.push(n);
    if run.len() > 0 && n < run.last() {
        assert(falls(more) =~= falls(run).insert(run.len() as int));
    } else {
        assert(falls(more) =~= falls(run));
    }
}

/// The packets of a run without the initialization packets.
pub open spec fn counted_packets(packets: Seq<Arrival>) -> Seq<Arrival> {
    packets.filter(|p: Arrival| p.sequence != u64::MAX)
}

proof fn lemma_real_last(packets: Seq<Arrival>)
    requires
        packets.len() > 0,
    ensures
        counted_packets(packets) == if packets.last().sequence != u64::MAX {
            counted_packets(packets.drop_last()).push(packets.last())
        } else {
            counted_packets(packets.drop_last())
        },
        counted_packets(packets).len() <= packets.len(),
{
    reveal(Seq::filter);
    packets.lemma_filter_len(|p: Arrival| p.sequence != u64::MAX);
}

proof fn lemma_run(packets: Seq<Arrival>)
    requires
        packets.len() <= u64::MAX,
    ensures
        ({
            let counted = counted_packets(packets);
            let run = Seq::new(counted.len(), |i: int| counted[i].sequence as int);
            let state = after_packets(packets);
            &&& counted.len() <= packets.len()
            &&& falls(run).finite()
            &&& falls(run).len() <= counted.len()
            &&& state.out_of_order == falls(run).len()
            &&& state.received_count == counted.len()
            &&& counted.len() == 0 ==> state == no_packets()
            &&& counted.len() > 0 ==> {
                &&& state.last_sequence == Some(counted.last().sequence)
                &&& state.last_arrival_us == Some(counted.last().received_us)
                &&& state.last_send_timestamp_us == Some(counted.last().sent_us)
            }
        }),
    decreases packets.len(),
{
    let counted = counted_packets(packets);
    let run = Seq::new(counted.len(), |i: int| counted[i].sequence as int);
    if packets.len() == 0 {
        reveal(Seq::filter);
        lemma_falls_push(run, 0);
        assert(falls(run) =~= Set::empty());
    } else {
        let rest = packets.drop_last();
        lemma_run(rest);
        lemma_real_last(packets);
        let before = counted_packets(rest);
        let run_before = Seq::new(before.len(), |i: int| before[i].sequence as int);
        let p = packets.last();
        if p.sequence != u64::MAX {
            assert(run =~= run_before.push(p.sequence as int));
            lemma_falls_push(run_before, p.sequence as int);
            lemma_falls_push(run, 0);
        }
    }
}

/// Law: whatever packets came, the count of packets out of order is the number of packets whose
/// sequence number is less than that of the packet directly before them, and the count of received
/// packets is the number of packets. Initialization packets are left out of both.
pub proof fn law_out_of_order_counts_falls(packets: Seq<Arrival>)
    requires
        packets.len() <= u64::MAX,
    ensures
        ({
            let counted = packets.filter(|p: Arrival| p.sequence != u64::MAX);
            let late = Set::new(
                |i: int| 0 < i < counted.len() && counted[i].sequence < counted[i - 1].sequence,
            );
            &&& late.finite()
            &&& after_packets(packets).out_of_order == late.len()
            &&& after_packets(packets).received_count == counted.len()
        }),
{
    lemma_run(packets);
    let counted = counted_packets(packets);
    let run = Seq::new(counted.len(), |i: int| counted[i].sequence as int);
    assert(falls(run) =~= Set::new(
        |i: int| 0 < i < counted.len() && counted[i].sequence < counted[i - 1].sequence,
    ));
}

/// Law: a packet changes the delay by the difference of two transit times, its own and that of the
/// packet directly before it, whichever is greater. A transit time is the time from the sending to
/// the receipt, or nothing where the clocks show none. So a shift between the two clocks does not
/// matter as long as every packet arrives after it left. The first packet changes nothing, nor do
/// initialization packets.
pub proof fn law_delay_change_of_run(packets: Seq<Arrival>, p: Arrival)
    requires
        packets.len() <= u64::MAX,
    ensures
        ({
            let counted = packets.filter(|q: Arrival| q.sequence != u64::MAX);
            let change = delay_change(
                after_packets(packets),
                p.sequence,
                p.sent_us,
                p.received_us,
            );
            &&& change is None <==> counted.len() == 0 || p.sequence == u64::MAX
            &&& change matches Some(d) ==> {
                let q = counted.last();
                let own = if p.received_us > p.sent_us {
                    p.received_us - p.sent_us
                } else {
                    0
                };
                let other = if q.received_us > q.sent_us {
                    q.received_us - q.sent_us
                } else {
                    0
                };
                &&& own >= other ==> d == own - other
                &&& own < other ==> d == other - own
            }
        }),
{
    lemma_run(packets);
}

} // verus!
