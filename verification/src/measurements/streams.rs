//! Counters of the single streams of a test.

use crate::number::{rate_of, BitRate};
use crate::time::Duration;
use vstd::prelude::*;

verus! {

/// Statistics for a single stream (simplified format).
#[derive(Debug, Clone, Copy, PartialEq, Eq)]
pub struct StreamStats {
    /// The stream's identifier
    pub stream_id: usize,
    /// Bytes sent on the stream
    pub bytes_sent: u64,
    /// Bytes received on the stream
    pub bytes_received: u64,
    /// Duration of the test
    pub duration: Duration,
    /// Segments sent again, if they are known
    pub retransmits: Option<u64>,
}

impl StreamStats {
    /// Statistics of a stream on which nothing has happened yet.
    pub fn new(stream_id: usize) -> (r: Self)
        ensures
            r == (StreamStats {
                stream_id,
                bytes_sent: 0,
                bytes_received: 0,
                duration: Duration { nanos: 0 },
                retransmits: None,
            }),
    {
        StreamStats {
            stream_id,
            bytes_sent: 0,
            bytes_received: 0,
            duration: Duration::zero(),
            retransmits: None,
        }
    }

    /// The throughput of the stream in both directions together; zero when it took no time.
    pub fn bits_per_second(&self) -> (r: BitRate)
        requires
            self.duration@ > 0 ==> self.bytes_sent + self.bytes_received <= u64::MAX,
        ensures
            r == rate_of((self.bytes_sent + self.bytes_received) as u64, self.duration),
    {
        if self.duration.is_zero() {
            BitRate::of(0, self.duration)
        } else {
            BitRate::of(self.bytes_sent + self.bytes_received, self.duration)
        }
    }
}

/// Running counters of a single stream. They wrap around like the machine's own counters.
#[derive(Debug, Clone, Copy, PartialEq, Eq, Structural)]
pub struct PerStreamMeasurements {
    /// The stream's identifier
    pub stream_id: usize,
    /// Bytes sent on the stream
    pub bytes_sent: u64,
    /// Bytes received on the stream
    pub bytes_received: u64,
    /// Packets of the stream
    pub packets: u64,
}

/// The counters of a stream on which nothing has happened yet.
pub open spec fn fresh_stream(stream_id: usize) -> PerStreamMeasurements {
    PerStreamMeasurements { stream_id, bytes_sent: 0, bytes_received: 0, packets: 0 }
}

/// The statistics that a stream's counters give for a test of some duration.
pub open spec fn stats_for(counters: PerStreamMeasurements, duration: Duration) -> StreamStats {
    StreamStats {
        stream_id: counters.stream_id,
        bytes_sent: counters.bytes_sent,
        bytes_received: counters.bytes_received,
        duration,
        retransmits: None,
    }
}

impl PerStreamMeasurements {
    /// The counters of a stream on which nothing has happened yet.
    pub fn new(stream_id: usize) -> (r: Self)
        ensures
            r == fresh_stream(stream_id),
    {
        PerStreamMeasurements { stream_id, bytes_sent: 0, bytes_received: 0, packets: 0 }
    }

    /// The statistics of the stream for a test of some duration.
    pub fn to_stream_stats(&self, duration: Duration) -> (r: StreamStats)
        ensures
            r == stats_for(*self, duration),
    {
        StreamStats {
            stream_id: self.stream_id,
            bytes_sent: self.bytes_sent,
            bytes_received: self.bytes_received,
            duration,
            retransmits: None,
        }
    }

    /// Adds to the counters.
    pub fn credit(&mut self, sent: u64, received: u64, packets: u64)
        ensures
            *final(self) == plus(*old(self), sent, received, packets),
    {
        self.bytes_sent = self.bytes_sent.wrapping_add(sent);
        self.bytes_received = self.bytes_received.wrapping_add(received);
        self.packets = self.packets.wrapping_add(packets);
    }
}

/// A stream's counters with some bytes and packets more.
pub open spec fn plus(
    counters: PerStreamMeasurements,
    sent: u64,
    received: u64,
    packets: u64,
) -> PerStreamMeasurements {
    PerStreamMeasurements {
        stream_id: counters.stream_id,
        bytes_sent: counters.bytes_sent.wrapping_add(sent),
        bytes_received: counters.bytes_received.wrapping_add(received),
        packets: counters.packets.wrapping_add(packets),
    }
}

/// `at` is the place of the first counters of a stream, or the end when there are none.
pub open spec fn is_place(s: Seq<PerStreamMeasurements>, stream_id: usize, at: int) -> bool {
    &&& 0 <= at <= s.len()
    &&& forall|j: int| 0 <= j < at ==> s[j].stream_id != stream_id
    &&& at < s.len() ==> s[at].stream_id == stream_id
}

/// The place of the first counters of a stream, or the end when there are none.
pub open spec fn place(s: Seq<PerStreamMeasurements>, stream_id: usize) -> int {
    choose|at: int| is_place(s, stream_id, at)
}

/// All streams' counters after some bytes and packets more on one of them. A stream that is met
/// for the first time comes after the others.
pub open spec fn credit(
    s: Seq<PerStreamMeasurements>,
    stream_id: usize,
    sent: u64,
    received: u64,
    packets: u64,
) -> Seq<PerStreamMeasurements> {
    let at = place(s, stream_id);
    if at < s.len() {
        s.update(at, plus(s[at], sent, received, packets))
    } else {
        s.push(plus(fresh_stream(stream_id), sent, received, packets))
    }
}

/// No two counters belong to one stream.
pub open spec fn distinct_streams(s: Seq<PerStreamMeasurements>) -> bool {
    forall|i: int, j: int| 0 <= i < j < s.len() ==> s[i].stream_id != s[j].stream_id
}

/// The bytes sent on all streams together.
pub open spec fn sum_sent(s: Seq<PerStreamMeasurements>) -> nat
    decreases s.len(),
{
    if s.len() == 0 {
        0
    } else {
        sum_sent(s.drop_last()) + s.last().bytes_sent as nat
    }
}

/// The bytes received on all streams together.
pub open spec fn sum_received(s: Seq<PerStreamMeasurements>) -> nat
    decreases s.len(),
{
    if s.len() == 0 {
        0
    } else {
        sum_received(s.drop_last()) + s.last().bytes_received as nat
    }
}

/// The packets of all streams together.
pub open spec fn sum_packets(s: Seq<PerStreamMeasurements>) -> nat
    decreases s.len(),
{
    if s.len() == 0 {
        0
    } else {
        sum_packets(s.drop_last()) + s.last().packets as nat
    }
}

/// There is only one place of a stream.
pub proof fn lemma_place(s: Seq<PerStreamMeasurements>, stream_id: usize, at: int)
    requires
        is_place(s, stream_id, at),
    ensures
        place(s, stream_id) == at,
{
    let p = place(s, stream_id);
    assert(is_place(s, stream_id, p));
    if p < at {
        assert(s[p].stream_id != stream_id);
    }
    if at < p {
        assert(s[at].stream_id != stream_id);
    }
}

/// Every stream has a place.
pub proof fn lemma_place_exists(s: Seq<PerStreamMeasurements>, stream_id: usize)
    ensures
        is_place(s, stream_id, place(s, stream_id)),
    decreases s.len(),
{
    if s.len() == 0 {
        assert(is_place(s, stream_id, 0));
    } else {
        let t = s.drop_last();
        lemma_place_exists(t, stream_id);
        let p = place(t, stream_id);
        assert(forall|j: int| 0 <= j < t.len() ==> t[j] == #[trigger] s[j]);
        if p < t.len() {
            assert(is_place(s, stream_id, p));
        } else if s.last().stream_id == stream_id {
            assert(is_place(s, stream_id, s.len() - 1));
        } else {
            assert(is_place(s, stream_id, s.len() as int));
        }
    }
}

proof fn lemma_sums_update(s: Seq<PerStreamMeasurements>, at: int, c: PerStreamMeasurements)
    requires
        0 <= at < s.len(),
    ensures
        sum_sent(s.update(at, c)) == sum_sent(s) - s[at].bytes_sent + c.bytes_sent,
        sum_received(s.update(at, c)) == sum_received(s) - s[at].bytes_received + c.bytes_received,
        sum_packets(s.update(at, c)) == sum_packets(s) - s[at].packets + c.packets,
    decreases s.len(),
{
    let u = s.update(at, c);
    if at == s.len() - 1 {
        assert(u.drop_last() =~= s.drop_last());
    } else {
        assert(u.drop_last() =~= s.drop_last().update(at, c));
        lemma_sums_update(s.drop_last(), at, c);
    }
}

/// Adding to one stream's counters adds as much to the sums over all streams, up to whole turns
/// of the counters, and keeps the streams distinct.
pub proof fn lemma_credit(
    s: Seq<PerStreamMeasurements>,
    stream_id: usize,
    sent: u64,
    received: u64,
    packets: u64,
)
    requires
        distinct_streams(s),
    ensures
        distinct_streams(credit(s, stream_id, sent, received, packets)),
        sum_sent(credit(s, stream_id, sent, received, packets)) % 0x1_0000_0000_0000_0000 == (
        sum_sent(s) + sent) % 0x1_0000_0000_0000_0000,
        sum_received(credit(s, stream_id, sent, received, packets)) % 0x1_0000_0000_0000_0000 == (
        sum_received(s) + received) % 0x1_0000_0000_0000_0000,
        sum_packets(credit(s, stream_id, sent, received, packets)) % 0x1_0000_0000_0000_0000 == (
        sum_packets(s) + packets) % 0x1_0000_0000_0000_0000,
{
    lemma_place_exists(s, stream_id);
    let at = place(s, stream_id);
    let t = credit(s, stream_id, sent, received, packets);
    if at < s.len() {
        lemma_sums_update(s, at, plus(s[at], sent, received, packets));
        assert forall|i: int, j: int| 0 <= i < j < t.len() implies t[i].stream_id
            != t[j].stream_id by {
            assert(t[i].stream_id == s[i].stream_id && t[j].stream_id == s[j].stream_id);
        }
    } else {
        assert(t.drop_last() =~= s);
        assert forall|i: int, j: int| 0 <= i < j < t.len() implies t[i].stream_id
            != t[j].stream_id by {
            assert(t[i] == s[i]);
            if j < s.len() {
                assert(t[j] == s[j]);
            }
        }
    }
}

/// Law: traffic on one stream leaves the counters of every other stream as they are, and the
/// streams keep their places.
pub proof fn law_streams_independent(
    s: Seq<PerStreamMeasurements>,
    stream_id: usize,
    sent: u64,
    received: u64,
    packets: u64,
    at: int,
)
    requires
        0 <= at < s.len(),
        s[at].stream_id != stream_id,
    ensures
        credit(s, stream_id, sent, received, packets).len() >= s.len(),
        credit(s, stream_id, sent, received, packets)[at] == s[at],
{
    lemma_place_exists(s, stream_id);
}

/// Law: traffic that is recorded in two steps on one stream leaves the same counters as if it were
/// recorded in one.
pub proof fn law_credits_join(
    s: Seq<PerStreamMeasurements>,
    stream_id: usize,
    sent: (u64, u64),
    received: (u64, u64),
    packets: (u64, u64),
)
    ensures
        credit(
            credit(s, stream_id, sent.0, received.0, packets.0),
            stream_id,
            sent.1,
            received.1,
            packets.1,
        ) == credit(
            s,
            stream_id,
            sent.0.wrapping_add(sent.1),
            received.0.wrapping_add(received.1),
            packets.0.wrapping_add(packets.1),
        ),
{
    lemma_place_exists(s, stream_id);
    let at = place(s, stream_id);
    let t = credit(s, stream_id, sent.0, received.0, packets.0);
    assert(forall|j: int| 0 <= j < at ==> #[trigger] t[j] == s[j]);
    assert(is_place(t, stream_id, at));
    lemma_place(t, stream_id, at);
    assert(credit(t, stream_id, sent.1, received.1, packets.1) =~= credit(
        s,
        stream_id,
        sent.0.wrapping_add(sent.1),
        received.0.wrapping_add(received.1),
        packets.0.wrapping_add(packets.1),
    ));
}

/// The counters of a stream, which are blank when nothing was recorded on it.
pub open spec fn counters_of(
    s: Seq<PerStreamMeasurements>,
    stream_id: usize,
) -> PerStreamMeasurements {
    if place(s, stream_id) < s.len() {
        s[place(s, stream_id)]
    } else {
        fresh_stream(stream_id)
    }
}

/// Traffic on a stream adds to that stream's counters and to no others.
pub proof fn lemma_counters_after(
    s: Seq<PerStreamMeasurements>,
    stream_id: usize,
    sent: u64,
    received: u64,
    packets: u64,
    other: usize,
)
    ensures
        counters_of(credit(s, stream_id, sent, received, packets), other) == if other
            == stream_id {
            plus(counters_of(s, stream_id), sent, received, packets)
        } else {
            counters_of(s, other)
        },
{
    lemma_place_exists(s, stream_id);
    lemma_place_exists(s, other);
    let t = credit(s, stream_id, sent, received, packets);
    let at = place(s, stream_id);
    let p = place(s, other);
    assert(forall|j: int|
        0 <= j < s.len() ==> (#[trigger] t[j]).stream_id == s[j].stream_id);
    if other == stream_id {
        assert(is_place(t, other, at));
        lemma_place(t, other, at);
    } else if p < s.len() {
        assert(is_place(t, other, p));
        lemma_place(t, other, p);
    } else {
        assert(is_place(t, other, t.len() as int));
        lemma_place(t, other, t.len() as int);
    }
}

/// Law: nothing gets lost or mixed up when several tasks record traffic in turns: in whatever
/// order two records are made, on one stream or on two, every stream's counters are the same.
pub proof fn law_records_commute(
    s: Seq<PerStreamMeasurements>,
    a: usize,
    on_a: (u64, u64, u64),
    b: usize,
    on_b: (u64, u64, u64),
    stream_id: usize,
)
    ensures
        counters_of(
            credit(credit(s, a, on_a.0, on_a.1, on_a.2), b, on_b.0, on_b.1, on_b.2),
            stream_id,
        ) == counters_of(
            credit(credit(s, b, on_b.0, on_b.1, on_b.2), a, on_a.0, on_a.1, on_a.2),
            stream_id,
        ),
{
    let first_a = credit(s, a, on_a.0, on_a.1, on_a.2);
    let first_b = credit(s, b, on_b.0, on_b.1, on_b.2);
    lemma_counters_after(first_a, b, on_b.0, on_b.1, on_b.2, stream_id);
    lemma_counters_after(first_b, a, on_a.0, on_a.1, on_a.2, stream_id);
    lemma_counters_after(s, a, on_a.0, on_a.1, on_a.2, stream_id);
    lemma_counters_after(s, b, on_b.0, on_b.1, on_b.2, stream_id);
}

/// Law: traffic on a stream is added to its counters, bytes sent to bytes sent and so on, as long as
/// they can hold it, and the statistics of a stream show its counters and the duration of the test.
pub proof fn law_traffic_is_counted(
    c: PerStreamMeasurements,
    sent: u64,
    received: u64,
    packets: u64,
    duration: Duration,
)
    requires
        c.bytes_sent + sent <= u64::MAX,
        c.bytes_received + received <= u64::MAX,
        c.packets + packets <= u64::MAX,
    ensures
        ({
            let after = plus(c, sent, received, packets);
            let stats = stats_for(after, duration);
            &&& after.bytes_sent - c.bytes_sent == sent
            &&& after.bytes_received - c.bytes_received == received
            &&& after.packets - c.packets == packets
            &&& stats.stream_id == c.stream_id && stats.duration == duration
            &&& stats.bytes_sent - c.bytes_sent == sent
            &&& stats.bytes_received - c.bytes_received == received
        }),
{
}

/// Law: what is recorded on a stream reaches the counters of that stream, new or known, and a stream
/// of which nothing was recorded stands at zero.
pub proof fn law_records_reach_their_stream(
    s: Seq<PerStreamMeasurements>,
    stream_id: usize,
    sent: u64,
    received: u64,
    packets: u64,
)
    requires
        counters_of(s, stream_id).bytes_sent + sent <= u64::MAX,
        counters_of(s, stream_id).bytes_received + received <= u64::MAX,
        counters_of(s, stream_id).packets + packets <= u64::MAX,
    ensures
        ({
            let before = counters_of(s, stream_id);
            let after = counters_of(credit(s, stream_id, sent, received, packets), stream_id);
            &&& after.stream_id == stream_id
            &&& after.bytes_sent - before.bytes_sent == sent
            &&& after.bytes_received - before.bytes_received == received
            &&& after.packets - before.packets == packets
        }),
        (forall|i: int| 0 <= i < s.len() ==> (#[trigger] s[i]).stream_id != stream_id) ==> {
            let before = counters_of(s, stream_id);
            before.bytes_sent == 0 && before.bytes_received == 0 && before.packets == 0
        },
{
    lemma_place_exists(s, stream_id);
    let at = place(s, stream_id);
    let t = credit(s, stream_id, sent, received, packets);
    assert(is_place(t, stream_id, at));
    lemma_place(t, stream_id, at);
}

} // verus!
