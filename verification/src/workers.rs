//! A one-way test that several workers receive from one socket.
//!
//! The packets of a stream may go to different workers, so no worker can tell alone which of them
//! are missing. Each notes which numbers of each stream it got, and a few times a second these go
//! to the totals of all workers, which know what was received of every stream.

use crate::measurements::one_way::ServerOneWayStats;
use crate::one_way::{
    expected_in, followed, followed_stream, late_of, law_every_number_accounted,
    law_streams_tracked_apart, loss_share, marks, marks_of, observe_in, of_stream, packet_loss,
    states_after, tallied, without_stream, Seen, StreamState,
};
use crate::sequence_set::{
    arc, is_gap, is_longest_gap, lemma_arc_len, lemma_gap_room, lemma_longest_gap,
    lemma_missing_bounds, missing_on_circle, SequenceSet, CIRCLE,
};
use crate::time::Duration;
use std::collections::HashMap;
use vstd::prelude::*;
use vstd::set_lib::{lemma_int_range, lemma_len_subset, set_int_range};

verus! {

broadcast use vstd::std_specs::hash::group_hash_axioms;

/// The sequence numbers of a stream that were received.
#[derive(Debug, PartialEq, Eq)]
pub struct StreamNumbers {
    /// The stream
    pub stream_id: u32,
    /// The numbers
    pub seen: SequenceSet,
}

/// The numbers of a stream that were received.
pub open spec fn seen_in(streams: Seq<StreamNumbers>, stream_id: u32) -> Set<int> {
    Set::new(
        |n: int|
            exists|i: int|
                0 <= i < streams.len() && (#[trigger] streams[i]).stream_id == stream_id
                    && streams[i].seen@.contains(n),
    )
}

/// What holds of all lists of streams: no stream is there twice, and numbers have 32 bits.
pub open spec fn sound_streams(streams: Seq<StreamNumbers>) -> bool {
    &&& forall|i: int| 0 <= i < streams.len() ==> (#[trigger] streams[i]).seen.wf()
    &&& forall|i: int, n: int|
        0 <= i < streams.len() && #[trigger] streams[i].seen@.contains(n) ==> n <= u32::MAX
    &&& forall|i: int, j: int|
        0 <= i < j < streams.len() ==> (#[trigger] streams[i]).stream_id != (
        #[trigger] streams[j]).stream_id
}

/// The packets that are missing of all streams together. Of each stream they are the numbers that
/// were not received, but for the longest stretch of them: that is the part of the circle of
/// numbers that the stream did not use.
pub open spec fn lost_in(streams: Seq<StreamNumbers>) -> nat
    decreases streams.len(),
{
    if streams.len() == 0 {
        0
    } else {
        lost_in(streams.drop_last()) + missing_on_circle(streams.last().seen@) as nat
    }
}

proof fn lemma_seen_at(streams: Seq<StreamNumbers>, at: int)
    requires
        sound_streams(streams),
        0 <= at < streams.len(),
    ensures
        seen_in(streams, streams[at].stream_id) == streams[at].seen@,
{
    assert forall|n: int| seen_in(streams, streams[at].stream_id).contains(n)
        == streams[at].seen@.contains(n) by {
        if seen_in(streams, streams[at].stream_id).contains(n) {
            let i = choose|i: int| 0 <= i < streams.len() && (#[trigger] streams[i]).stream_id
                == streams[at].stream_id && streams[i].seen@.contains(n);
            assert(i == at);
        }
    }
    assert(seen_in(streams, streams[at].stream_id) =~= streams[at].seen@);
}

/// A change of one stream's numbers leaves those of the others as they are.
proof fn lemma_seen_update(before: Seq<StreamNumbers>, after: Seq<StreamNumbers>, at: int)
    requires
        0 <= at < before.len(),
        after.len() == before.len(),
        after[at].stream_id == before[at].stream_id,
        forall|i: int| 0 <= i < before.len() && i != at ==> #[trigger] after[i] == before[i],
    ensures
        forall|id: u32|
            id != before[at].stream_id ==> #[trigger] seen_in(after, id) == seen_in(before, id),
{
    assert forall|id: u32| id != before[at].stream_id implies #[trigger] seen_in(after, id)
        == seen_in(before, id) by {
        assert forall|n: int| seen_in(after, id).contains(n) == seen_in(before, id).contains(n) by {
            if seen_in(after, id).contains(n) {
                let i = choose|i: int| 0 <= i < after.len() && (#[trigger] after[i]).stream_id
                    == id && after[i].seen@.contains(n);
                assert(before[i].stream_id == id && before[i].seen@.contains(n));
            }
            if seen_in(before, id).contains(n) {
                let i = choose|i: int| 0 <= i < before.len() && (#[trigger] before[i]).stream_id
                    == id && before[i].seen@.contains(n);
                assert(after[i].stream_id == id && after[i].seen@.contains(n));
            }
        }
        assert(seen_in(after, id) =~= seen_in(before, id));
    }
}

/// The place of a stream in a list, where it is put if it is not there.
fn slot(streams: &mut Vec<StreamNumbers>, stream_id: u32) -> (at: usize)
    requires
        sound_streams(old(streams)@),
    ensures
        sound_streams(final(streams)@),
        at < final(streams)@.len(),
        final(streams)@[at as int].stream_id == stream_id,
        forall|id: u32| #[trigger] seen_in(final(streams)@, id) == seen_in(old(streams)@, id),
{
    let mut at: usize = 0;
    while at < streams.len() && streams[at].stream_id != stream_id
        invariant
            at <= streams@.len(),
            streams@ == old(streams)@,
            forall|j: int| 0 <= j < at ==> (#[trigger] streams@[j]).stream_id != stream_id,
        decreases streams@.len() - at,
    {
        at = at + 1;
    }
    if at == streams.len() {
        let ghost before = streams@;
        streams.push(StreamNumbers { stream_id, seen: SequenceSet::new() });
        proof {
            assert forall|id: u32| #[trigger] seen_in(streams@, id) == seen_in(before, id) by {
                assert forall|n: int| seen_in(streams@, id).contains(n) == seen_in(
                    before,
                    id,
                ).contains(n) by {
                    if seen_in(streams@, id).contains(n) {
                        let i = choose|i: int| 0 <= i < streams@.len() && (
                        #[trigger] streams@[i]).stream_id == id && streams@[i].seen@.contains(n);
                        assert(before[i].stream_id == id && before[i].seen@.contains(n));
                    }
                    if seen_in(before, id).contains(n) {
                        let i = choose|i: int| 0 <= i < before.len() && (
                        #[trigger] before[i]).stream_id == id && before[i].seen@.contains(n);
                        assert(streams@[i].stream_id == id && streams@[i].seen@.contains(n));
                    }
                }
                assert(seen_in(streams@, id) =~= seen_in(before, id));
            }
        }
    }
    at
}

/// Notes a number of a stream.
fn note(streams: &mut Vec<StreamNumbers>, stream_id: u32, seq: u32)
    requires
        sound_streams(old(streams)@),
    ensures
        sound_streams(final(streams)@),
        forall|id: u32| #[trigger]
            seen_in(final(streams)@, id) == if id == stream_id {
                seen_in(old(streams)@, id).insert(seq as int)
            } else {
                seen_in(old(streams)@, id)
            },
{
    let at: usize = slot(streams, stream_id);
    let ghost opened = streams@;
    let mut entry = StreamNumbers { stream_id, seen: SequenceSet::new() };
    std::mem::swap(&mut entry, &mut streams[at]);
    assert(entry == opened[at as int]);
    entry.seen.insert(seq as u64);
    std::mem::swap(&mut entry, &mut streams[at]);
    proof {
        lemma_seen_at(opened, at as int);
        assert forall|i: int, j: int| 0 <= i < j < streams@.len() implies (
        #[trigger] streams@[i]).stream_id != (#[trigger] streams@[j]).stream_id by {
            assert(opened[i].stream_id != opened[j].stream_id);
        }
        assert(sound_streams(streams@));
        lemma_seen_at(streams@, at as int);
        lemma_seen_update(opened, streams@, at as int);
    }
}

/// Adds the numbers of all streams of another list.
fn join(streams: &mut Vec<StreamNumbers>, other: &Vec<StreamNumbers>)
    requires
        sound_streams(old(streams)@),
        sound_streams(other@),
    ensures
        sound_streams(final(streams)@),
        forall|id: u32| #[trigger]
            seen_in(final(streams)@, id) == seen_in(old(streams)@, id) + seen_in(other@, id),
{
    let mut j: usize = 0;
    proof {
        assert forall|id: u32| #[trigger] seen_in(streams@, id) == seen_in(old(streams)@, id)
            + seen_in(other@.take(0), id) by {
            assert(seen_in(streams@, id) =~= seen_in(old(streams)@, id) + seen_in(
                other@.take(0),
                id,
            ));
        }
    }
    while j < other.len()
        invariant
            j <= other@.len(),
            sound_streams(streams@),
            sound_streams(other@),
            forall|id: u32| #[trigger]
                seen_in(streams@, id) == seen_in(old(streams)@, id) + seen_in(
                    other@.take(j as int),
                    id,
                ),
        decreases other@.len() - j,
    {
        let ghost before = streams@;
        let id: u32 = other[j].stream_id;
        let at: usize = slot(streams, id);
        let ghost opened = streams@;
        let mut entry = StreamNumbers { stream_id: id, seen: SequenceSet::new() };
        std::mem::swap(&mut entry, &mut streams[at]);
        assert(entry == opened[at as int]);
        entry.seen.merge(&other[j].seen);
        std::mem::swap(&mut entry, &mut streams[at]);
        proof {
            assert(other@[j as int].seen.wf());
            lemma_seen_at(opened, at as int);
            assert forall|i: int, k: int| 0 <= i < k < streams@.len() implies (
            #[trigger] streams@[i]).stream_id != (#[trigger] streams@[k]).stream_id by {
                assert(opened[i].stream_id != opened[k].stream_id);
            }
            assert forall|i: int, n: int|
                0 <= i < streams@.len() && #[trigger] streams@[i].seen@.contains(n) implies n
                <= u32::MAX by {
                if i == at && !opened[i].seen@.contains(n) {
                    assert(other@[j as int].seen@.contains(n));
                } else {
                    assert(opened[i].seen@.contains(n));
                }
            }
            assert(sound_streams(streams@));
            lemma_seen_at(streams@, at as int);
            lemma_seen_update(opened, streams@, at as int);
            lemma_seen_last(other@.take(j + 1));
            assert(other@.take(j + 1).drop_last() =~= other@.take(j as int));
            assert forall|x: u32| #[trigger] seen_in(streams@, x) == seen_in(old(streams)@, x)
                + seen_in(other@.take(j + 1), x) by {
                assert(seen_in(before, x) == seen_in(old(streams)@, x) + seen_in(
                    other@.take(j as int),
                    x,
                ));
                assert(seen_in(opened, x) == seen_in(before, x));
                assert(seen_in(streams@, x) =~= seen_in(old(streams)@, x) + seen_in(
                    other@.take(j + 1),
                    x,
                ));
            }
        }
        j = j + 1;
    }
    assert(other@.take(j as int) =~= other@);
}

/// The last stream of a list adds its own numbers to what the others have.
proof fn lemma_seen_last(streams: Seq<StreamNumbers>)
    requires
        streams.len() > 0,
    ensures
        forall|id: u32| #[trigger]
            seen_in(streams, id) == if id == streams.last().stream_id {
                seen_in(streams.drop_last(), id) + streams.last().seen@
            } else {
                seen_in(streams.drop_last(), id)
            },
{
    let rest = streams.drop_last();
    assert forall|id: u32| #[trigger] seen_in(streams, id) == if id == streams.last().stream_id {
        seen_in(rest, id) + streams.last().seen@
    } else {
        seen_in(rest, id)
    } by {
        let right = if id == streams.last().stream_id {
            seen_in(rest, id) + streams.last().seen@
        } else {
            seen_in(rest, id)
        };
        assert forall|n: int| seen_in(streams, id).contains(n) == right.contains(n) by {
            if seen_in(streams, id).contains(n) {
                let i = choose|i: int| 0 <= i < streams.len() && (#[trigger] streams[i]).stream_id
                    == id && streams[i].seen@.contains(n);
                if i < rest.len() {
                    assert(rest[i].stream_id == id && rest[i].seen@.contains(n));
                }
            }
            if seen_in(rest, id).contains(n) {
                let i = choose|i: int| 0 <= i < rest.len() && (#[trigger] rest[i]).stream_id == id
                    && rest[i].seen@.contains(n);
                assert(streams[i].stream_id == id && streams[i].seen@.contains(n));
            }
            if id == streams.last().stream_id && streams.last().seen@.contains(n) {
                assert(streams[streams.len() - 1].stream_id == id);
            }
        }
        assert(seen_in(streams, id) =~= right);
    }
}

/// There are no more streams than identifiers, and so few packets missing that 64 bits count them.
proof fn lemma_lost_bound(streams: Seq<StreamNumbers>)
    requires
        sound_streams(streams),
    ensures
        streams.len() <= 0x1_0000_0000,
        lost_in(streams) <= streams.len() * 0xffff_ffff,
        lost_in(streams) <= u64::MAX,
    decreases streams.len(),
{
    let ids = streams.map_values(|s: StreamNumbers| s.stream_id as int);
    assert(ids.no_duplicates()) by {
        assert forall|i: int, j: int| 0 <= i < ids.len() && 0 <= j < ids.len() && i != j implies
            ids[i] != ids[j] by {
            if i < j {
                assert(streams[i].stream_id != streams[j].stream_id);
            } else {
                assert(streams[j].stream_id != streams[i].stream_id);
            }
        }
    }
    ids.unique_seq_to_set();
    let all = set_int_range(0, 0x1_0000_0000);
    lemma_int_range(0, 0x1_0000_0000);
    assert(ids.to_set().subset_of(all));
    lemma_len_subset(ids.to_set(), all);
    if streams.len() > 0 {
        let rest = streams.drop_last();
        lemma_rest_sound(streams);
        lemma_lost_bound(rest);
        let last = streams[streams.len() - 1].seen;
        assert(last.wf());
        assert forall|n: int| #[trigger] last@.contains(n) implies 0 <= n < CIRCLE by {
            assert(streams[streams.len() - 1].seen@.contains(n));
        }
        lemma_missing_bounds(last@);
    }
    assert(streams.len() * 0xffff_ffff <= 0x1_0000_0000 * 0xffff_ffff);
}

proof fn lemma_rest_sound(streams: Seq<StreamNumbers>)
    requires
        sound_streams(streams),
        streams.len() > 0,
    ensures
        sound_streams(streams.drop_last()),
{
    let rest = streams.drop_last();
    assert forall|i: int| 0 <= i < rest.len() implies (#[trigger] rest[i]).seen.wf() by {
        assert(rest[i] == streams[i]);
    }
    assert forall|i: int, n: int|
        0 <= i < rest.len() && #[trigger] rest[i].seen@.contains(n) implies n <= u32::MAX by {
        assert(streams[i].seen@.contains(n));
    }
    assert forall|i: int, j: int| 0 <= i < j < rest.len() implies (#[trigger] rest[i]).stream_id
        != (#[trigger] rest[j]).stream_id by {
        assert(streams[i].stream_id != streams[j].stream_id);
    }
}

/// What a worker has received since it last gave its counts away.
#[derive(Debug)]
pub struct Share {
    /// Bytes
    pub bytes: u64,
    /// Packets
    pub packets: u64,
    /// Packets that came late
    pub late: u64,
    /// The numbers of the streams
    pub streams: Vec<StreamNumbers>,
}

impl Share {
    /// No more packets are late than came, and the list of streams is sound.
    pub open spec fn wf(&self) -> bool {
        &&& sound_streams(self.streams@)
        &&& self.late <= self.packets
    }

    /// True when nothing was received.
    pub open spec fn is_blank(&self) -> bool {
        &&& self.bytes == 0
        &&& self.packets == 0
        &&& self.late == 0
        &&& self.streams@.len() == 0
    }

    /// Nothing yet.
    pub fn new() -> (r: Self)
        ensures
            r.wf(),
            r.is_blank(),
    {
        Share { bytes: 0, packets: 0, late: 0, streams: Vec::new() }
    }
}

/// The state of one of several workers that read one socket. It counts for itself, and gives its
/// counts to the totals a few times a second.
#[derive(Debug)]
pub struct Worker {
    /// What came since the counts were last given away
    pub share: Share,
    /// What comes next in each stream, by the packets that this worker got
    pub states: HashMap<u32, StreamState>,
}

impl Worker {
    /// The state before any packet.
    pub fn new() -> (r: Self)
        ensures
            r.share.wf(),
            r.share.is_blank(),
            r.states@ == Map::<u32, StreamState>::empty(),
    {
        Worker { share: Share::new(), states: HashMap::new() }
    }

    /// Takes a packet into account. One worker gets packets in the order in which they arrived, so
    /// it counts as late what comes after a higher number of the stream. What it has not got may
    /// have gone to another worker.
    pub fn on_packet(&mut self, packet: &[u8])
        requires
            old(self).share.wf(),
            old(self).share.bytes + packet@.len() <= u64::MAX,
            old(self).share.packets < u64::MAX,
        ensures
            final(self).share.wf(),
            final(self).share.bytes == old(self).share.bytes + packet@.len(),
            final(self).share.packets == old(self).share.packets + 1,
            match marks_of(packet@) {
                Some((seq, stream_id)) => {
                    &&& forall|id: u32| #[trigger]
                        seen_in(final(self).share.streams@, id) == if id == stream_id {
                            seen_in(old(self).share.streams@, id).insert(seq as int)
                        } else {
                            seen_in(old(self).share.streams@, id)
                        }
                    &&& final(self).share.late == old(self).share.late + late_of(
                        expected_in(old(self).states@, stream_id, seq),
                        seq,
                    )
                    &&& final(self).states@ == states_after(old(self).states@, stream_id, seq)
                },
                None => {
                    &&& final(self).share.streams == old(self).share.streams
                    &&& final(self).share.late == old(self).share.late
                    &&& final(self).states == old(self).states
                },
            },
    {
        self.share.bytes = self.share.bytes + packet.len() as u64;
        self.share.packets = self.share.packets + 1;
        match marks(packet) {
            Some((seq, stream_id)) => {
                note(&mut self.share.streams, stream_id, seq);
                match observe_in(&mut self.states, stream_id, seq) {
                    Seen::Late => {
                        self.share.late = self.share.late + 1;
                    },
                    _ => {},
                }
            },
            None => {},
        }
    }

    /// True when the counts are given away, `since_last` after the last time.
    pub fn flush_due(&self, since_last: Duration) -> (r: bool)
        ensures
            r == (since_last@ >= 200_000_000),
    {
        !since_last.shorter_than(&Duration::from_millis(200))
    }

    /// Gives the counts away, which start anew.
    pub fn flush(&mut self) -> (r: Share)
        ensures
            r == old(self).share,
            final(self).share.wf(),
            final(self).share.is_blank(),
            final(self).states == old(self).states,
    {
        let mut r = Share::new();
        std::mem::swap(&mut self.share, &mut r);
        r
    }
}

/// What all workers together have received.
#[derive(Debug)]
pub struct WorkerTotals {
    /// Bytes received
    pub bytes: u64,
    /// Packets received
    pub packets: u64,
    /// Packets that came late, as far as a worker noticed
    pub out_of_order: u64,
    /// The numbers of the streams
    pub streams: Vec<StreamNumbers>,
}

impl WorkerTotals {
    /// The list of streams is sound.
    pub open spec fn wf(&self) -> bool {
        sound_streams(self.streams@)
    }

    /// True when what a worker gives away can still be counted.
    pub open spec fn has_room(&self, share: &Share) -> bool {
        &&& self.bytes + share.bytes <= u64::MAX
        &&& self.packets + share.packets <= u64::MAX
        &&& self.out_of_order + share.late <= u64::MAX
    }

    /// The totals before any packet.
    pub fn new() -> (r: Self)
        ensures
            r.wf(),
            r.bytes == 0,
            r.packets == 0,
            r.out_of_order == 0,
            r.streams@.len() == 0,
    {
        WorkerTotals { bytes: 0, packets: 0, out_of_order: 0, streams: Vec::new() }
    }

    /// True when what a worker gives away can still be counted.
    pub fn can_absorb(&self, share: &Share) -> (r: bool)
        ensures
            r == self.has_room(share),
    {
        share.bytes <= u64::MAX - self.bytes && share.packets <= u64::MAX
            - self.packets && share.late <= u64::MAX - self.out_of_order
    }

    /// Adds what a worker gives away.
    pub fn absorb(&mut self, share: &Share)
        requires
            old(self).wf(),
            share.wf(),
            old(self).has_room(share),
        ensures
            final(self).wf(),
            final(self).bytes == old(self).bytes + share.bytes,
            final(self).packets == old(self).packets + share.packets,
            final(self).out_of_order == old(self).out_of_order + share.late,
            forall|id: u32| #[trigger]
                seen_in(final(self).streams@, id) == seen_in(old(self).streams@, id) + seen_in(
                    share.streams@,
                    id,
                ),
    {
        self.bytes = self.bytes + share.bytes;
        self.packets = self.packets + share.packets;
        self.out_of_order = self.out_of_order + share.late;
        join(&mut self.streams, &share.streams);
    }

    /// The packets that are missing of all streams together.
    pub fn lost(&self) -> (r: u64)
        requires
            self.wf(),
        ensures
            r == lost_in(self.streams@),
    {
        let mut lost: u64 = 0;
        let mut i: usize = 0;
        while i < self.streams.len()
            invariant
                self.wf(),
                i <= self.streams@.len(),
                lost == lost_in(self.streams@.take(i as int)),
            decreases self.streams@.len() - i,
        {
            proof {
                let more = self.streams@.take(i + 1);
                assert(more.drop_last() =~= self.streams@.take(i as int));
                assert(more.last() == self.streams@[i as int]);
                lemma_take_sound(self.streams@, i + 1);
                lemma_lost_bound(more);
                assert(self.streams@[i as int].seen.wf());
                assert forall|n: int| #[trigger] self.streams@[i as int].seen@.contains(
                    n,
                ) implies n < CIRCLE by {}
            }
            lost = lost + self.streams[i].seen.missing();
            i = i + 1;
        }
        assert(self.streams@.take(i as int) =~= self.streams@);
        lost
    }

    /// The statistics of the test.
    pub fn stats(&self, duration: Duration) -> (r: ServerOneWayStats)
        requires
            self.wf(),
            self.packets + lost_in(self.streams@) <= u64::MAX,
        ensures
            r == (ServerOneWayStats {
                bytes_received: self.bytes,
                packets_received: self.packets,
                out_of_order: self.out_of_order,
                packets_lost: lost_in(self.streams@) as u64,
                packet_loss: loss_share(self.packets, lost_in(self.streams@) as u64),
                duration,
            }),
    {
        let lost: u64 = self.lost();
        ServerOneWayStats {
            bytes_received: self.bytes,
            packets_received: self.packets,
            out_of_order: self.out_of_order,
            packets_lost: lost,
            packet_loss: packet_loss(self.packets, lost),
            duration,
        }
    }
}

proof fn lemma_take_sound(streams: Seq<StreamNumbers>, n: int)
    requires
        sound_streams(streams),
        0 <= n <= streams.len(),
    ensures
        sound_streams(streams.take(n)),
    decreases streams.len() - n,
{
    if n == streams.len() {
        assert(streams.take(n) =~= streams);
    } else {
        lemma_take_sound(streams, n + 1);
        lemma_rest_sound(streams.take(n + 1));
        assert(streams.take(n + 1).drop_last() =~= streams.take(n));
    }
}

/// Some sequence numbers as a set.
pub open spec fn number_set(seqs: Seq<u32>) -> Set<int> {
    Set::new(|n: int| exists|i: int| 0 <= i < seqs.len() && #[trigger] seqs[i] == n)
}

/// Numbers of which none comes late go up.
proof fn lemma_going_up(start: u32, seqs: Seq<u32>)
    requires
        forall|i: int| 0 <= i < seqs.len() ==> #[trigger] seqs[i] < u32::MAX,
        followed(start, seqs).2 == 0,
    ensures
        forall|i: int| 0 <= i < seqs.len() ==> start <= #[trigger] seqs[i],
        forall|i: int, j: int|
            0 <= i < j < seqs.len() ==> #[trigger] seqs[i] < #[trigger] seqs[j],
    decreases seqs.len(),
{
    if seqs.len() > 0 {
        let rest = seqs.drop_last();
        assert forall|i: int| 0 <= i < rest.len() implies #[trigger] rest[i] < u32::MAX by {
            assert(rest[i] == seqs[i]);
        }
        lemma_going_up(start, rest);
        law_every_number_accounted(start, rest);
        assert forall|i: int| 0 <= i < seqs.len() implies start <= #[trigger] seqs[i] by {
            if i < rest.len() {
                assert(rest[i] == seqs[i]);
            }
        }
        assert forall|i: int, j: int| 0 <= i < j < seqs.len() implies #[trigger] seqs[i]
            < #[trigger] seqs[j] by {
            assert(rest[i] == seqs[i]);
            if j < rest.len() {
                assert(rest[j] == seqs[j]);
            }
        }
    }
}

/// True when a set has none of the `len` numbers from `from` on.
pub open spec fn misses(s: Set<int>, from: int, len: int) -> bool {
    forall|n: int| from <= n < from + len ==> !(#[trigger] s.contains(n))
}

/// True when no stretch of missing numbers within a stream is longer than the stretch of numbers
/// that the stream does not use.
pub open spec fn uses_less(seqs: Seq<u32>) -> bool {
    seqs.len() > 0 ==> forall|from: int, len: int| #[trigger]
        misses(number_set(seqs), from, len) && seqs.first() <= from && from + len <= seqs.last()
            ==> len <= CIRCLE - (seqs.last() - seqs.first() + 1)
}

/// Of a stream whose packets come in order, a receiver counts the numbers that are missing.
proof fn lemma_stream_missing(seqs: Seq<u32>)
    requires
        forall|i: int| 0 <= i < seqs.len() ==> #[trigger] seqs[i] < u32::MAX,
        followed_stream(seqs).2 == 0,
        uses_less(seqs),
    ensures
        missing_on_circle(number_set(seqs)) == followed_stream(seqs).1,
{
    let set = number_set(seqs);
    let c = CIRCLE as int;
    if seqs.len() == 0 {
        assert(set =~= Set::empty());
    } else {
        let start = seqs[0];
        let (expected, lost, late) = followed(start, seqs);
        lemma_going_up(start, seqs);
        law_every_number_accounted(start, seqs);
        lemma_number_count(seqs);
        let high = seqs.last();
        assert(high == seqs[seqs.len() - 1]);
        assert(expected == high + 1) by {
            assert(seqs[0] < expected);
            let i = choose|i: int| 0 <= i < seqs.len() && seqs[i] == (expected - 1) as u32;
            if i < seqs.len() - 1 {
                assert(seqs[i] < seqs[seqs.len() - 1]);
            }
        }
        assert(set.contains(start as int)) by {
            assert(seqs[0] == start as int);
        }
        assert(set.contains(high as int)) by {
            assert(seqs[seqs.len() - 1] == high as int);
        }
        assert forall|n: int| #[trigger] set.contains(n) implies start <= n <= high by {
            let i = choose|i: int| 0 <= i < seqs.len() && #[trigger] seqs[i] == n;
            assert(start <= seqs[i] < expected);
        }
        let beyond = c - (high - start + 1);
        assert(is_gap(set, expected as int, beyond)) by {
            assert forall|n: int| #[trigger] set.contains(n) implies !arc(
                expected as int,
                beyond,
            ).contains(n) by {
                assert((n - expected) % c == n - expected + c);
            }
        }
        assert forall|from: int, len: int| is_gap(set, from, len) implies len <= beyond by {
            if len > beyond {
                if set.contains(from) {
                    assert((from - from) % c == 0);
                    assert(arc(from, len).contains(from));
                } else if from < start {
                    assert((start - from) % c == start - from);
                    assert(arc(from, len).contains(start as int));
                } else if from > high {
                    assert((start - from) % c == start - from + c);
                    assert(arc(from, len).contains(start as int));
                } else {
                    assert((high - from) % c == high - from);
                    assert(!arc(from, len).contains(high as int));
                    assert forall|n: int| from <= n < from + len implies !(
                    #[trigger] set.contains(n)) by {
                        assert((n - from) % c == n - from);
                        if set.contains(n) {
                            assert(arc(from, len).contains(n));
                        }
                    }
                    assert(misses(set, from, len));
                }
            }
        }
        assert(is_longest_gap(set, beyond));
        lemma_longest_gap(set, beyond);
    }
}

/// Numbers that go up are as many as there are packets.
proof fn lemma_number_count(seqs: Seq<u32>)
    requires
        forall|i: int, j: int|
            0 <= i < j < seqs.len() ==> #[trigger] seqs[i] < #[trigger] seqs[j],
    ensures
        number_set(seqs).finite(),
        number_set(seqs).len() == seqs.len(),
{
    let set = number_set(seqs);
    let ints = seqs.map_values(|s: u32| s as int);
    assert(ints.no_duplicates()) by {
        assert forall|i: int, j: int| 0 <= i < ints.len() && 0 <= j < ints.len() && i != j implies
            ints[i] != ints[j] by {
            if i < j {
                assert(seqs[i] < seqs[j]);
            } else {
                assert(seqs[j] < seqs[i]);
            }
        }
    }
    ints.unique_seq_to_set();
    assert forall|n: int| ints.to_set().contains(n) == set.contains(n) by {
        if set.contains(n) {
            let i = choose|i: int| 0 <= i < seqs.len() && #[trigger] seqs[i] == n;
            assert(ints[i] == n);
        }
        if ints.to_set().contains(n) {
            let i = choose|i: int| 0 <= i < ints.len() && ints[i] == n;
            assert(seqs[i] == n);
        }
    }
    assert(ints.to_set() =~= set);
}

/// What is left of a run of packets without one stream.
proof fn lemma_without(marks: Seq<(u32, u32)>, stream_id: u32)
    ensures
        of_stream(without_stream(marks, stream_id), stream_id) == Seq::<u32>::empty(),
        forall|id: u32|
            id != stream_id ==> #[trigger] of_stream(without_stream(marks, stream_id), id)
                == of_stream(marks, id),
        (forall|i: int| 0 <= i < marks.len() ==> (#[trigger] marks[i]).0 < u32::MAX) ==> (forall|
            i: int,
        |
            0 <= i < without_stream(marks, stream_id).len() ==> (#[trigger] without_stream(
                marks,
                stream_id,
            )[i]).0 < u32::MAX),
    decreases marks.len(),
{
    if marks.len() > 0 {
        let rest = marks.drop_last();
        lemma_without(rest, stream_id);
        let kept = without_stream(rest, stream_id);
        assert(kept.push(marks.last()).drop_last() =~= kept);
        assert forall|id: u32| id != stream_id implies #[trigger] of_stream(
            without_stream(marks, stream_id),
            id,
        ) == of_stream(marks, id) by {
            assert(of_stream(kept, id) == of_stream(rest, id));
        }
        if forall|i: int| 0 <= i < marks.len() ==> (#[trigger] marks[i]).0 < u32::MAX {
            assert forall|i: int| 0 <= i < rest.len() implies (#[trigger] rest[i]).0 < u32::MAX by {
                assert(rest[i] == marks[i]);
            }
            assert(marks[marks.len() - 1].0 < u32::MAX);
        }
    }
}

proof fn lemma_below(marks: Seq<(u32, u32)>, stream_id: u32)
    requires
        forall|i: int| 0 <= i < marks.len() ==> (#[trigger] marks[i]).0 < u32::MAX,
    ensures
        forall|i: int|
            0 <= i < of_stream(marks, stream_id).len() ==> #[trigger] of_stream(
                marks,
                stream_id,
            )[i] < u32::MAX,
    decreases marks.len(),
{
    if marks.len() > 0 {
        let rest = marks.drop_last();
        assert forall|i: int| 0 <= i < rest.len() implies (#[trigger] rest[i]).0 < u32::MAX by {
            assert(rest[i] == marks[i]);
        }
        lemma_below(rest, stream_id);
        let before = of_stream(rest, stream_id);
        let seqs = of_stream(marks, stream_id);
        assert forall|i: int| 0 <= i < seqs.len() implies #[trigger] seqs[i] < u32::MAX by {
            if i < before.len() {
                assert(seqs[i] == before[i]);
            } else {
                assert(marks[marks.len() - 1].0 < u32::MAX);
            }
        }
    }
}

/// Law: several workers find the loss that one receiver finds. However the packets are spread over
/// the workers, in whatever order they come and however often each of them, the workers together
/// count as lost what one receiver counts that gets packets with the same numbers in the order in
/// which they were sent, none twice: one to which none comes late. As in the accounting of a single
/// stream, the sequence numbers stay below the greatest one; and no stream misses more numbers in a
/// row than it leaves unused.
pub proof fn law_workers_find_loss(streams: Seq<StreamNumbers>, marks: Seq<(u32, u32)>)
    requires
        sound_streams(streams),
        forall|id: u32| #[trigger] seen_in(streams, id) == number_set(of_stream(marks, id)),
        tallied(marks).2 == 0,
        forall|i: int| 0 <= i < marks.len() ==> (#[trigger] marks[i]).0 < u32::MAX,
        forall|id: u32| uses_less(#[trigger] of_stream(marks, id)),
    ensures
        lost_in(streams) == tallied(marks).1,
    decreases streams.len(),
{
    if streams.len() == 0 {
        if marks.len() > 0 {
            let (seq, id) = marks.last();
            let seqs = of_stream(marks, id);
            assert(seqs[seqs.len() - 1] == seq as int);
            assert(number_set(seqs).contains(seq as int));
            assert(seen_in(streams, id).contains(seq as int));
        }
    } else {
        let rest = streams.drop_last();
        let last = streams.last();
        let id = last.stream_id;
        let others = without_stream(marks, id);
        lemma_rest_sound(streams);
        lemma_seen_last(streams);
        lemma_seen_at(streams, streams.len() - 1);
        lemma_without(marks, id);
        lemma_below(marks, id);
        law_streams_tracked_apart(marks, id);
        assert forall|x: u32| #[trigger] seen_in(rest, x) == number_set(of_stream(others, x)) by {
            if x == id {
                assert(seen_in(rest, x) =~= Set::empty()) by {
                    assert forall|n: int| !seen_in(rest, x).contains(n) by {
                        if seen_in(rest, x).contains(n) {
                            let i = choose|i: int| 0 <= i < rest.len() && (
                            #[trigger] rest[i]).stream_id == x && rest[i].seen@.contains(n);
                            assert(streams[i].stream_id != streams[streams.len() - 1].stream_id);
                        }
                    }
                }
                assert(number_set(of_stream(others, x)) =~= Set::empty());
            } else {
                assert(seen_in(rest, x) == seen_in(streams, x));
            }
        }
        assert forall|x: u32| uses_less(#[trigger] of_stream(others, x)) by {
            if x != id {
                assert(of_stream(others, x) == of_stream(marks, x));
            }
        }
        law_workers_find_loss(rest, others);
        assert(seen_in(streams, id) == number_set(of_stream(marks, id)));
        lemma_stream_missing(of_stream(marks, id));
    }
}

/// A list without one of its streams.
proof fn lemma_lost_remove(streams: Seq<StreamNumbers>, at: int)
    requires
        sound_streams(streams),
        0 <= at < streams.len(),
    ensures
        sound_streams(streams.remove(at)),
        lost_in(streams) == lost_in(streams.remove(at)) + missing_on_circle(
            streams[at].seen@,
        ) as nat,
        forall|id: u32| #[trigger]
            seen_in(streams.remove(at), id) == if id == streams[at].stream_id {
                Set::empty()
            } else {
                seen_in(streams, id)
            },
    decreases streams.len(),
{
    let left = streams.remove(at);
    assert forall|i: int| 0 <= i < left.len() implies (#[trigger] left[i]).seen.wf() by {
        assert(left[i] == streams[if i < at { i } else { i + 1 }]);
    }
    assert forall|i: int, n: int|
        0 <= i < left.len() && #[trigger] left[i].seen@.contains(n) implies n <= u32::MAX by {
        assert(streams[if i < at { i } else { i + 1 }].seen@.contains(n));
    }
    assert forall|i: int, j: int| 0 <= i < j < left.len() implies (#[trigger] left[i]).stream_id
        != (#[trigger] left[j]).stream_id by {
        let p = if i < at {
            i
        } else {
            i + 1
        };
        let q = if j < at {
            j
        } else {
            j + 1
        };
        assert(streams[p].stream_id != streams[q].stream_id);
    }
    assert forall|id: u32| #[trigger] seen_in(left, id) == if id == streams[at].stream_id {
        Set::empty()
    } else {
        seen_in(streams, id)
    } by {
        let right = if id == streams[at].stream_id {
            Set::empty()
        } else {
            seen_in(streams, id)
        };
        assert forall|n: int| seen_in(left, id).contains(n) == right.contains(n) by {
            if seen_in(left, id).contains(n) {
                let i = choose|i: int| 0 <= i < left.len() && (#[trigger] left[i]).stream_id == id
                    && left[i].seen@.contains(n);
                let p = if i < at {
                    i
                } else {
                    i + 1
                };
                assert(streams[p].stream_id == id && streams[p].seen@.contains(n));
                if p < at {
                    assert(streams[p].stream_id != streams[at].stream_id);
                } else {
                    assert(streams[at].stream_id != streams[p].stream_id);
                }
            }
            if right.contains(n) {
                let i = choose|i: int| 0 <= i < streams.len() && (
                #[trigger] streams[i]).stream_id == id && streams[i].seen@.contains(n);
                let p = if i < at {
                    i
                } else {
                    i - 1
                };
                assert(left[p].stream_id == id && left[p].seen@.contains(n));
            }
        }
        assert(seen_in(left, id) =~= right);
    }
    if at == streams.len() - 1 {
        assert(left =~= streams.drop_last());
    } else {
        lemma_rest_sound(streams);
        lemma_lost_remove(streams.drop_last(), at);
        assert(left.drop_last() =~= streams.drop_last().remove(at));
        assert(left.last() == streams.last());
    }
}

/// Law: what counts as lost depends only on which numbers of which stream were received, and not on
/// the workers that received them, nor on when or how often.
pub proof fn law_spread_does_not_matter(a: Seq<StreamNumbers>, b: Seq<StreamNumbers>)
    requires
        sound_streams(a),
        sound_streams(b),
        forall|id: u32| #[trigger] seen_in(a, id) == seen_in(b, id),
    ensures
        lost_in(a) == lost_in(b),
    decreases a.len() + b.len(),
{
    if a.len() > 0 {
        let at = a.len() - 1;
        let id = a[at].stream_id;
        lemma_lost_remove(a, at);
        lemma_seen_at(a, at);
        assert(seen_in(a, id) == seen_in(b, id));
        if exists|j: int| 0 <= j < b.len() && (#[trigger] b[j]).stream_id == id {
            let j = choose|j: int| 0 <= j < b.len() && (#[trigger] b[j]).stream_id == id;
            lemma_lost_remove(b, j);
            lemma_seen_at(b, j);
            assert forall|x: u32| #[trigger] seen_in(a.remove(at), x) == seen_in(
                b.remove(j),
                x,
            ) by {
                assert(seen_in(a, x) == seen_in(b, x));
            }
            law_spread_does_not_matter(a.remove(at), b.remove(j));
        } else {
            assert(seen_in(b, id) =~= Set::empty());
            assert forall|x: u32| #[trigger] seen_in(a.remove(at), x) == seen_in(b, x) by {
                assert(seen_in(a, x) == seen_in(b, x));
            }
            law_spread_does_not_matter(a.remove(at), b);
        }
    } else if b.len() > 0 {
        let at = b.len() - 1;
        let id = b[at].stream_id;
        lemma_lost_remove(b, at);
        lemma_seen_at(b, at);
        assert(seen_in(a, id) =~= Set::empty());
        assert forall|x: u32| #[trigger] seen_in(a, x) == seen_in(b.remove(at), x) by {
            assert(seen_in(a, x) == seen_in(b, x));
        }
        law_spread_does_not_matter(a, b.remove(at));
    }
}

/// Law: of a stream that comes whole nothing is missing, even where its numbers start over at zero,
/// and in whatever order its packets come to whichever worker.
pub proof fn law_whole_stream_is_lossless(start: u32, count: int)
    requires
        0 <= count <= CIRCLE,
    ensures
        missing_on_circle(arc(start as int, count)) == 0,
{
    let set = arc(start as int, count);
    let c = CIRCLE as int;
    lemma_arc_len(start as int, count);
    if count > 0 {
        assert(set.contains(start as int)) by {
            assert((start - start) as int % c == 0);
        }
        let from = (start + count) % c;
        assert(is_gap(set, from, c - count)) by {
            assert forall|n: int| #[trigger] set.contains(n) implies !arc(
                from,
                c - count,
            ).contains(n) by {
                let d = (n - start) % c;
                assert((n - from) % c == d - count + c) by {
                    if n >= start {
                        assert(d == n - start);
                    } else {
                        assert(d == n - start + c);
                    }
                }
            }
        }
        assert forall|other: int, len: int| is_gap(set, other, len) implies len <= c - count by {
            lemma_gap_room(set, other, len);
        }
        assert(is_longest_gap(set, c - count));
        lemma_longest_gap(set, c - count);
    } else {
        assert(set =~= Set::empty());
    }
}

} // verus!
