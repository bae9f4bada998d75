//! Sets of sequence numbers, kept as runs of consecutive ones.
//!
//! Packets mostly come in the order of their numbers, so a set of numbers that were received is
//! mostly a few long runs: it takes little room, and a new number mostly joins the last run.

use vstd::prelude::*;
use vstd::set_lib::{lemma_int_range, lemma_len_subset, lemma_set_disjoint_lens, set_int_range};

verus! {

/// Consecutive numbers, from the first to the last of them.
#[derive(Debug, Clone, Copy, PartialEq, Eq, Structural)]
struct Run {
    first: u64,
    last: u64,
}

/// A set of sequence numbers. The greatest 64-bit number is none.
#[derive(Debug, PartialEq, Eq)]
pub struct SequenceSet {
    runs: Vec<Run>,
    count: u64,
}

/// The numbers of a run.
spec fn span(run: Run) -> Set<int> {
    set_int_range(run.first as int, run.last + 1)
}

/// True for a number of one of the runs.
spec fn in_runs(runs: Seq<Run>, n: int) -> bool {
    exists|i: int| 0 <= i < runs.len() && (#[trigger] runs[i]).first <= n <= runs[i].last
}

/// The numbers of all runs.
spec fn numbers(runs: Seq<Run>) -> Set<int> {
    Set::new(|n: int| in_runs(runs, n))
}

/// The runs are not empty, come in their order and leave at least one number out between them.
spec fn sorted(runs: Seq<Run>) -> bool {
    &&& forall|i: int|
        0 <= i < runs.len() ==> (#[trigger] runs[i]).first <= runs[i].last < u64::MAX
    &&& forall|i: int, j: int|
        0 <= i < j < runs.len() ==> (#[trigger] runs[i]).last + 1 < (#[trigger] runs[j]).first
}

/// How many numbers some runs have together.
spec fn total(runs: Seq<Run>) -> int
    decreases runs.len(),
{
    if runs.len() == 0 {
        0
    } else {
        total(runs.drop_last()) + (runs.last().last - runs.last().first + 1)
    }
}

/// The numbers of 32 bits, which start over at zero after the greatest: they lie on a circle.
pub const CIRCLE: u64 = 0x1_0000_0000;

/// The `len` numbers on the circle from `from` on.
pub open spec fn arc(from: int, len: int) -> Set<int> {
    Set::new(|n: int| 0 <= n < CIRCLE && (n - from) % (CIRCLE as int) < len)
}

/// True when none of the `len` numbers on the circle from `from` on belongs to a set.
pub open spec fn is_gap(s: Set<int>, from: int, len: int) -> bool {
    &&& 0 <= from < CIRCLE
    &&& 0 <= len <= CIRCLE
    &&& forall|n: int| #[trigger] s.contains(n) ==> !arc(from, len).contains(n)
}

/// True when a set leaves out so many consecutive numbers of the circle, and nowhere more.
pub open spec fn is_longest_gap(s: Set<int>, len: int) -> bool {
    &&& exists|from: int| is_gap(s, from, len)
    &&& forall|from: int, other: int| is_gap(s, from, other) ==> other <= len
}

/// How many numbers of the circle a set leaves out, not counting its longest gap. Numbers that were
/// given out one after the other take up the rest of the circle, so this many of them are missing.
pub open spec fn missing_on_circle(s: Set<int>) -> int {
    if s == Set::<int>::empty() {
        0
    } else {
        CIRCLE - s.len() - choose|len: int| is_longest_gap(s, len)
    }
}

/// An arc has as many numbers as its length says.
pub proof fn lemma_arc_len(from: int, len: int)
    requires
        0 <= from < CIRCLE,
        0 <= len <= CIRCLE,
    ensures
        arc(from, len).finite(),
        arc(from, len).len() == len,
{
    let c = CIRCLE as int;
    if from + len <= c {
        lemma_int_range(from, from + len);
        assert(arc(from, len) =~= set_int_range(from, from + len));
    } else {
        let high = set_int_range(from, c);
        let low = set_int_range(0, from + len - c);
        lemma_int_range(from, c);
        lemma_int_range(0, from + len - c);
        assert(arc(from, len) =~= high + low);
        assert(high.disjoint(low));
        lemma_set_disjoint_lens(high, low);
    }
}

/// A gap and the set that leaves it out have room on the circle.
pub proof fn lemma_gap_room(s: Set<int>, from: int, len: int)
    requires
        s.finite(),
        forall|n: int| #[trigger] s.contains(n) ==> 0 <= n < CIRCLE,
        is_gap(s, from, len),
    ensures
        len + s.len() <= CIRCLE,
{
    lemma_arc_len(from, len);
    let all = set_int_range(0, CIRCLE as int);
    lemma_int_range(0, CIRCLE as int);
    assert(s.disjoint(arc(from, len)));
    lemma_set_disjoint_lens(s, arc(from, len));
    assert((s + arc(from, len)).subset_of(all));
    lemma_len_subset(s + arc(from, len), all);
}

/// There is only one longest gap length.
pub proof fn lemma_longest_gap(s: Set<int>, len: int)
    requires
        is_longest_gap(s, len),
        s != Set::<int>::empty(),
    ensures
        missing_on_circle(s) == CIRCLE - s.len() - len,
{
    let chosen = choose|l: int| is_longest_gap(s, l);
    assert(is_longest_gap(s, chosen));
    let a = choose|from: int| is_gap(s, from, len);
    let b = choose|from: int| is_gap(s, from, chosen);
    assert(is_gap(s, a, len) && is_gap(s, b, chosen));
}

proof fn lemma_longest_exists(s: Set<int>, most: int)
    requires
        0 <= most <= CIRCLE,
        forall|from: int, len: int| is_gap(s, from, len) ==> len <= most,
    ensures
        exists|len: int| is_longest_gap(s, len),
    decreases most,
{
    if exists|from: int| is_gap(s, from, most) {
        assert(is_longest_gap(s, most));
    } else if most == 0 {
        assert(is_gap(s, 0, 0)) by {
            assert forall|n: int| #[trigger] s.contains(n) implies !arc(0, 0).contains(n) by {
                assert(n % (CIRCLE as int) >= 0);
            }
        }
    } else {
        assert forall|from: int, len: int| is_gap(s, from, len) implies len <= most - 1 by {
            if len == most {
                assert(is_gap(s, from, most));
            }
        }
        lemma_longest_exists(s, most - 1);
    }
}

/// Of a set on the circle fewer numbers are missing than the circle has.
pub proof fn lemma_missing_bounds(s: Set<int>)
    requires
        s.finite(),
        forall|n: int| #[trigger] s.contains(n) ==> 0 <= n < CIRCLE,
    ensures
        0 <= missing_on_circle(s) <= 0xffff_ffff,
{
    if s != Set::<int>::empty() {
        lemma_longest_exists(s, CIRCLE as int);
        let len = choose|len: int| is_longest_gap(s, len);
        let from = choose|from: int| is_gap(s, from, len);
        lemma_gap_room(s, from, len);
        assert(s.len() > 0) by {
            if s.len() == 0 {
                assert(s =~= Set::empty());
            }
        }
    }
}

/// The last run that ends before a number which belongs to none.
proof fn locate(runs: Seq<Run>, n: int) -> (i: int)
    requires
        sorted(runs),
        runs.len() > 0,
        runs[0].first < n,
        !in_runs(runs, n),
    ensures
        0 <= i < runs.len(),
        runs[i].last < n,
        i + 1 < runs.len() ==> n < runs[i + 1].first,
    decreases runs.len(),
{
    let last = runs.len() - 1;
    if runs[last].first < n {
        assert(runs[last].last < n);
        last
    } else {
        let rest = runs.drop_last();
        assert(n != runs[last].first) by {
            assert(runs[last].first <= runs[last].last);
        }
        assert forall|i: int| 0 <= i < rest.len() implies (#[trigger] rest[i]).first
            <= rest[i].last < u64::MAX by {
            assert(rest[i] == runs[i]);
        }
        assert forall|i: int, j: int| 0 <= i < j < rest.len() implies (#[trigger] rest[i]).last + 1
            < (#[trigger] rest[j]).first by {
            assert(rest[i] == runs[i] && rest[j] == runs[j]);
        }
        assert(!in_runs(rest, n)) by {
            if in_runs(rest, n) {
                let i = choose|i: int| 0 <= i < rest.len() && (#[trigger] rest[i]).first <= n
                    <= rest[i].last;
                assert(runs[i].first <= n <= runs[i].last);
            }
        }
        let i = locate(rest, n);
        i
    }
}

/// The numbers between a run and the one after it, or beyond the last run and before the first.
spec fn gap_after(runs: Seq<Run>, i: int) -> int {
    if i + 1 < runs.len() {
        runs[i + 1].first - runs[i].last - 1
    } else {
        CIRCLE - runs[i].last - 1 + runs[0].first
    }
}

/// Every gap of a set lies between two neighbouring runs.
proof fn lemma_gaps_between(runs: Seq<Run>, from: int, len: int, most: int)
    requires
        sorted(runs),
        runs.len() > 0,
        runs.last().last < CIRCLE,
        is_gap(numbers(runs), from, len),
        forall|i: int| 0 <= i < runs.len() ==> #[trigger] gap_after(runs, i) <= most,
        most >= 0,
    ensures
        len <= most,
{
    let c = CIRCLE as int;
    let first = runs[0].first as int;
    let end = runs.len() - 1;
    assert(runs[0].first <= runs[0].last);
    assert(runs[end].first <= runs[end].last);
    if end > 0 {
        assert(runs[0].last + 1 < runs[end].first);
    }
    assert(gap_after(runs, end) <= most);
    if len > most {
        assert(numbers(runs).contains(first)) by {
            assert(runs[0].first <= first <= runs[0].last);
        }
        assert(!arc(from, len).contains(first));
        if numbers(runs).contains(from) {
            assert((from - from) % c == 0);
            assert(arc(from, len).contains(from));
        } else if from < first {
            assert((first - from) % c == first - from);
        } else {
            assert(from != first);
            let i = locate(runs, from);
            assert(gap_after(runs, i) <= most);
            if i + 1 < runs.len() {
                let next = runs[i + 1].first as int;
                assert(numbers(runs).contains(next)) by {
                    assert(runs[i + 1].first <= next <= runs[i + 1].last);
                }
                if i + 1 < end {
                    assert(runs[i + 1].last + 1 < runs[end].first);
                }
                assert((next - from) % c == next - from);
                assert(arc(from, len).contains(next));
            } else {
                assert((first - from) % c == first - from + c);
                assert(arc(from, len).contains(first));
            }
        }
    }
}

/// The numbers after a run, up to the next one on the circle, are a gap.
proof fn lemma_gap_after(runs: Seq<Run>, i: int)
    requires
        sorted(runs),
        0 <= i < runs.len(),
        runs.last().last < CIRCLE,
    ensures
        0 <= gap_after(runs, i) <= CIRCLE,
        is_gap(numbers(runs), (runs[i].last + 1) % (CIRCLE as int), gap_after(runs, i)),
{
    let c = CIRCLE as int;
    let end = runs.len() - 1;
    assert(runs[0].first <= runs[0].last);
    assert(runs[i].first <= runs[i].last);
    assert(runs[end].first <= runs[end].last);
    if i < end {
        assert(runs[i].last + 1 < runs[end].first);
        assert(runs[i].last + 1 < runs[i + 1].first);
        assert(runs[i + 1].first <= runs[i + 1].last);
        if i + 1 < end {
            assert(runs[i + 1].last + 1 < runs[end].first);
        }
    }
    if 0 < end {
        assert(runs[0].last + 1 < runs[end].first);
    }
    let from = (runs[i].last + 1) % c;
    let len = gap_after(runs, i);
    assert forall|n: int| #[trigger] numbers(runs).contains(n) implies !arc(from, len).contains(
        n,
    ) by {
        let j = choose|j: int| 0 <= j < runs.len() && (#[trigger] runs[j]).first <= n
            <= runs[j].last;
        if j < i {
            assert(runs[j].last + 1 < runs[i].first);
        }
        if j > 0 {
            assert(runs[0].last + 1 < runs[j].first);
        }
        if j < end {
            assert(runs[j].last + 1 < runs[end].first);
        }
        if i < end {
            if j > i + 1 {
                assert(runs[i + 1].last + 1 < runs[j].first);
            }
            if j <= i {
                assert((n - from) % c == n - from + c);
            } else {
                assert((n - from) % c == n - from);
            }
        } else if runs[i].last + 1 == c {
            assert((n - from) % c == n);
        } else {
            assert((n - from) % c == n - from + c);
        }
    }
}

/// One run more at the end adds its numbers.
proof fn lemma_last_run(runs: Seq<Run>)
    requires
        runs.len() > 0,
    ensures
        numbers(runs) == numbers(runs.drop_last()) + span(runs.last()),
{
    let rest = runs.drop_last();
    assert forall|n: int| numbers(runs).contains(n) == (numbers(rest) + span(
        runs.last(),
    )).contains(n) by {
        if in_runs(runs, n) {
            let i = choose|i: int| 0 <= i < runs.len() && (#[trigger] runs[i]).first <= n
                <= runs[i].last;
            if i < rest.len() {
                assert(rest[i] == runs[i]);
            }
        }
        if in_runs(rest, n) {
            let i = choose|i: int| 0 <= i < rest.len() && (#[trigger] rest[i]).first <= n
                <= rest[i].last;
            assert(runs[i] == rest[i]);
        }
        if span(runs.last()).contains(n) {
            assert(runs[runs.len() - 1] == runs.last());
        }
    }
    assert(numbers(runs) =~= numbers(rest) + span(runs.last()));
}

/// Runs in their order are a finite set, with as many numbers as the runs have together.
proof fn lemma_len(runs: Seq<Run>)
    requires
        sorted(runs),
    ensures
        numbers(runs).finite(),
        numbers(runs).len() == total(runs),
        0 <= total(runs) <= u64::MAX,
    decreases runs.len(),
{
    if runs.len() == 0 {
        assert(numbers(runs) =~= Set::empty());
    } else {
        let rest = runs.drop_last();
        assert forall|i: int| 0 <= i < rest.len() implies (#[trigger] rest[i]).first
            <= rest[i].last < u64::MAX by {
            assert(rest[i] == runs[i]);
        }
        assert forall|i: int, j: int| 0 <= i < j < rest.len() implies (#[trigger] rest[i]).last + 1
            < (#[trigger] rest[j]).first by {
            assert(rest[i] == runs[i] && rest[j] == runs[j]);
        }
        lemma_len(rest);
        lemma_last_run(runs);
        let last = runs.last();
        assert(last == runs[runs.len() - 1]);
        lemma_int_range(last.first as int, last.last + 1);
        assert(numbers(rest).disjoint(span(last))) by {
            assert forall|n: int| numbers(rest).contains(n) implies !span(last).contains(n) by {
                let i = choose|i: int| 0 <= i < rest.len() && (#[trigger] rest[i]).first <= n
                    <= rest[i].last;
                assert(runs[i].last + 1 < runs[runs.len() - 1].first);
            }
        }
        lemma_set_disjoint_lens(numbers(rest), span(last));
        let all = set_int_range(0, u64::MAX as int);
        lemma_int_range(0, u64::MAX as int);
        assert(numbers(runs).subset_of(all)) by {
            assert forall|n: int| numbers(runs).contains(n) implies all.contains(n) by {
                let i = choose|i: int| 0 <= i < runs.len() && (#[trigger] runs[i]).first <= n
                    <= runs[i].last;
                assert(runs[i].last < u64::MAX);
            }
        }
        lemma_len_subset(numbers(runs), all);
    }
}

/// Adds a run that starts at or after the start of the last one: it joins that one if nothing lies
/// between them.
fn append(runs: &mut Vec<Run>, run: Run)
    requires
        sorted(old(runs)@),
        run.first <= run.last < u64::MAX,
        old(runs)@.len() > 0 ==> old(runs)@.last().first <= run.first,
    ensures
        sorted(final(runs)@),
        numbers(final(runs)@) == numbers(old(runs)@) + span(run),
        final(runs)@.len() > 0,
        final(runs)@.last().first <= run.first,
{
    let ghost before = runs@;
    let n: usize = runs.len();
    if n > 0 && run.first <= runs[n - 1].last + 1 {
        let held: Run = runs[n - 1];
        assert(held == before[n - 1]);
        if held.last < run.last {
            runs.set(n - 1, Run { first: held.first, last: run.last });
        }
        proof {
            lemma_last_run(before);
            lemma_last_run(runs@);
            assert(runs@.drop_last() =~= before.drop_last());
            assert(span(runs@.last()) =~= span(held) + span(run));
            assert(numbers(runs@) =~= numbers(before) + span(run));
        }
    } else {
        runs.push(run);
        proof {
            lemma_last_run(runs@);
            assert(runs@.drop_last() =~= before);
        }
    }
}

impl View for SequenceSet {
    type V = Set<int>;

    closed spec fn view(&self) -> Set<int> {
        numbers(self.runs@)
    }
}

impl SequenceSet {
    /// The runs are in order, and the count is theirs.
    pub closed spec fn sound(&self) -> bool {
        &&& sorted(self.runs@)
        &&& self.count == total(self.runs@)
    }

    /// What holds of every set: it is finite, its numbers are 64-bit numbers but the greatest, and
    /// its runs are in order.
    pub open spec fn wf(&self) -> bool {
        &&& self.sound()
        &&& self@.finite()
        &&& forall|n: int| #[trigger] self@.contains(n) ==> 0 <= n < u64::MAX
    }

    proof fn lemma_wf(&self)
        requires
            self.sound(),
        ensures
            self.wf(),
            self.count == self@.len(),
    {
        lemma_len(self.runs@);
        assert forall|n: int| #[trigger] self@.contains(n) implies 0 <= n < u64::MAX by {
            let i = choose|i: int| 0 <= i < self.runs@.len() && (#[trigger] self.runs@[i]).first
                <= n <= self.runs@[i].last;
            assert(self.runs@[i].last < u64::MAX);
        }
    }

    /// The empty set.
    pub fn new() -> (r: Self)
        ensures
            r.wf(),
            r@ == Set::<int>::empty(),
    {
        let r = SequenceSet { runs: Vec::new(), count: 0 };
        proof {
            r.lemma_wf();
            assert(r@ =~= Set::empty());
        }
        r
    }

    /// How many numbers the set has.
    pub fn len(&self) -> (r: u64)
        requires
            self.wf(),
        ensures
            r == self@.len(),
    {
        proof {
            self.lemma_wf();
        }
        self.count
    }

    /// How many numbers of the circle are left out, not counting the longest gap.
    pub fn missing(&self) -> (r: u64)
        requires
            self.wf(),
            forall|n: int| #[trigger] self@.contains(n) ==> n < CIRCLE,
        ensures
            r == missing_on_circle(self@),
            r <= 0xffff_ffff,
    {
        let size: usize = self.runs.len();
        if size == 0 {
            assert(self@ =~= Set::empty());
            return 0;
        }
        proof {
            self.lemma_wf();
            let end = size - 1;
            assert(self.runs@[end].first <= self.runs@[end].last);
            assert(self@.contains(self.runs@[end].last as int));
            assert(self.runs@[0].first <= self.runs@[0].last);
            assert(self@.contains(self.runs@[0].first as int));
            lemma_gap_after(self.runs@, end);
            if 0 < end {
                assert(self.runs@[0].last + 1 < self.runs@[end].first);
            }
        }
        let mut longest: u64 = CIRCLE - self.runs[size - 1].last - 1 + self.runs[0].first;
        let ghost mut place: int = size - 1;
        let mut i: usize = 0;
        while i < size - 1
            invariant
                self.wf(),
                size == self.runs@.len(),
                i < size,
                self.runs@.last().last < CIRCLE,
                0 <= place < size,
                longest == gap_after(self.runs@, place),
                gap_after(self.runs@, size - 1) <= longest,
                forall|j: int| 0 <= j < i ==> #[trigger] gap_after(self.runs@, j) <= longest,
            decreases size - i,
        {
            assert(self.runs@[i as int].last + 1 < self.runs@[i + 1].first);
            let gap: u64 = self.runs[i + 1].first - self.runs[i].last - 1;
            assert(gap == gap_after(self.runs@, i as int));
            if gap > longest {
                longest = gap;
                proof {
                    place = i as int;
                }
            }
            i = i + 1;
        }
        proof {
            lemma_gap_after(self.runs@, place);
            let from = (self.runs@[place].last + 1) % (CIRCLE as int);
            assert(is_gap(self@, from, longest as int));
            assert forall|other: int, len: int| is_gap(self@, other, len) implies len
                <= longest by {
                lemma_gaps_between(self.runs@, other, len, longest as int);
            }
            assert(is_longest_gap(self@, longest as int));
            lemma_longest_gap(self@, longest as int);
            lemma_gap_room(self@, from, longest as int);
            assert(self@.len() > 0) by {
                if self@.len() == 0 {
                    assert(self@ =~= Set::empty());
                }
            }
        }
        CIRCLE - self.count - longest
    }

    /// Adds a number. Returns whether it is new to the set.
    pub fn insert(&mut self, n: u64) -> (fresh: bool)
        requires
            old(self).wf(),
            n < u64::MAX,
        ensures
            final(self).wf(),
            final(self)@ == old(self)@.insert(n as int),
            fresh == !old(self)@.contains(n as int),
    {
        let ghost before = self.runs@;
        let size: usize = self.runs.len();
        let mut at: usize = size;
        while at > 0 && self.runs[at - 1].first > n
            invariant
                at <= size,
                size == self.runs@.len(),
                before == self.runs@,
                *self == *old(self),
                forall|i: int| at <= i < size ==> (#[trigger] before[i]).first > n,
            decreases at,
        {
            at = at - 1;
        }
        if at > 0 && n <= self.runs[at - 1].last {
            assert(before[at - 1].first <= n <= before[at - 1].last);
            assert(self@.insert(n as int) =~= self@);
            return false;
        }
        let joins_left: bool = at > 0 && self.runs[at - 1].last + 1 == n;
        let joins_right: bool = at < size && n + 1 == self.runs[at].first;
        proof {
            assert forall|i: int| 0 <= i < at implies (#[trigger] before[i]).last < n by {
                if i < at - 1 {
                    assert(before[i].last + 1 < before[at - 1].first);
                }
            }
            assert(fits(before, n, at as int));
            assert(!in_runs(before, n as int));
            lemma_len(before);
        }
        if joins_left && joins_right {
            proof {
                lemma_bridge(before, n, at as int);
            }
            let joined = Run { first: self.runs[at - 1].first, last: self.runs[at].last };
            self.runs.set(at - 1, joined);
            self.runs.remove(at);
        } else if joins_left {
            let joined = Run { first: self.runs[at - 1].first, last: n };
            proof {
                lemma_extend(before, n, at as int, at - 1, joined);
            }
            self.runs.set(at - 1, joined);
        } else if joins_right {
            let joined = Run { first: n, last: self.runs[at].last };
            proof {
                lemma_extend(before, n, at as int, at as int, joined);
            }
            self.runs.set(at, joined);
        } else {
            proof {
                lemma_alone(before, n, at as int);
            }
            self.runs.insert(at, Run { first: n, last: n });
        }
        proof {
            lemma_len(self.runs@);
        }
        self.count = self.count + 1;
        proof {
            self.lemma_wf();
        }
        true
    }

    /// Adds all numbers of another set.
    pub fn merge(&mut self, other: &SequenceSet)
        requires
            old(self).wf(),
            other.wf(),
        ensures
            final(self).wf(),
            final(self)@ == old(self)@ + other@,
    {
        let ghost a = self.runs@;
        let ghost b = other.runs@;
        let mut out: Vec<Run> = Vec::new();
        let mut i: usize = 0;
        let mut j: usize = 0;
        assert(numbers(out@) =~= numbers(a.take(0)) + numbers(b.take(0)));
        while i < self.runs.len() || j < other.runs.len()
            invariant
                a == self.runs@,
                b == other.runs@,
                sorted(a),
                sorted(b),
                i <= a.len(),
                j <= b.len(),
                sorted(out@),
                numbers(out@) == numbers(a.take(i as int)) + numbers(b.take(j as int)),
                out@.len() > 0 && i < a.len() ==> out@.last().first <= a[i as int].first,
                out@.len() > 0 && j < b.len() ==> out@.last().first <= b[j as int].first,
            decreases a.len() - i + b.len() - j,
        {
            let ghost held = numbers(out@);
            let from_self: bool = j >= other.runs.len() || (i < self.runs.len()
                && self.runs[i].first <= other.runs[j].first);
            if from_self {
                let run: Run = self.runs[i];
                assert(run == a[i as int]);
                append(&mut out, run);
                proof {
                    lemma_last_run(a.take(i + 1));
                    assert(a.take(i + 1).drop_last() =~= a.take(i as int));
                    assert(a.take(i + 1).last() == run);
                    if i + 1 < a.len() {
                        assert(a[i as int].last + 1 < a[i + 1].first);
                    }
                    assert(numbers(out@) =~= numbers(a.take(i + 1)) + numbers(b.take(j as int)));
                }
                i = i + 1;
            } else {
                let run: Run = other.runs[j];
                assert(run == b[j as int]);
                append(&mut out, run);
                proof {
                    lemma_last_run(b.take(j + 1));
                    assert(b.take(j + 1).drop_last() =~= b.take(j as int));
                    assert(b.take(j + 1).last() == run);
                    if j + 1 < b.len() {
                        assert(b[j as int].last + 1 < b[j + 1].first);
                    }
                    assert(numbers(out@) =~= numbers(a.take(i as int)) + numbers(b.take(j + 1)));
                }
                j = j + 1;
            }
        }
        assert(a.take(i as int) =~= a && b.take(j as int) =~= b);
        self.count = total_of(&out);
        self.runs = out;
        proof {
            self.lemma_wf();
        }
    }
}

/// How many numbers some runs have together.
fn total_of(runs: &Vec<Run>) -> (r: u64)
    requires
        sorted(runs@),
    ensures
        r == total(runs@),
{
    let mut sum: u64 = 0;
    let mut i: usize = 0;
    while i < runs.len()
        invariant
            sorted(runs@),
            i <= runs@.len(),
            sum == total(runs@.take(i as int)),
        decreases runs@.len() - i,
    {
        proof {
            assert(runs@.take(i + 1).drop_last() =~= runs@.take(i as int));
            lemma_len(runs@.take(i + 1));
            assert(runs@[i as int].first <= runs@[i as int].last);
        }
        sum = sum + (runs[i].last - runs[i].first + 1);
        i = i + 1;
    }
    assert(runs@.take(i as int) =~= runs@);
    sum
}

/// True when a new number belongs before the run `at` and after the one before it.
spec fn fits(runs: Seq<Run>, n: u64, at: int) -> bool {
    &&& sorted(runs)
    &&& n < u64::MAX
    &&& 0 <= at <= runs.len()
    &&& forall|i: int| 0 <= i < at ==> (#[trigger] runs[i]).last < n
    &&& forall|i: int| at <= i < runs.len() ==> n < (#[trigger] runs[i]).first
}

/// A number that joins the runs on both sides.
proof fn lemma_bridge(runs: Seq<Run>, n: u64, at: int)
    requires
        fits(runs, n, at),
        0 < at < runs.len(),
        runs[at - 1].last + 1 == n,
        n + 1 == runs[at].first,
    ensures
        ({
            let joined = Run { first: runs[at - 1].first, last: runs[at].last };
            let after = runs.update(at - 1, joined).remove(at);
            sorted(after) && numbers(after) == numbers(runs).insert(n as int)
        }),
{
    let joined = Run { first: runs[at - 1].first, last: runs[at].last };
    let after = runs.update(at - 1, joined).remove(at);
    assert(forall|i: int| 0 <= i < at - 1 ==> #[trigger] after[i] == runs[i]);
    assert(after[at - 1] == joined);
    assert(forall|i: int| at <= i < after.len() ==> #[trigger] after[i] == runs[i + 1]);
    assert(sorted(after));
    assert forall|k: int| numbers(after).contains(k) implies numbers(runs).insert(
        n as int,
    ).contains(k) by {
        let i = choose|i: int| 0 <= i < after.len() && (#[trigger] after[i]).first <= k
            <= after[i].last;
        if i >= at {
            assert(runs[i + 1].first <= k <= runs[i + 1].last);
        } else if i < at - 1 || k < n {
            assert(runs[i].first <= k <= runs[i].last);
        } else if k > n {
            assert(runs[at].first <= k <= runs[at].last);
        }
    }
    assert forall|k: int| numbers(runs).insert(n as int).contains(k) implies numbers(
        after,
    ).contains(k) by {
        if k == n {
            assert(after[at - 1].first <= k <= after[at - 1].last);
        } else {
            let i = choose|i: int| 0 <= i < runs.len() && (#[trigger] runs[i]).first <= k
                <= runs[i].last;
            let j = if i >= at {
                i - 1
            } else {
                i
            };
            assert(after[j].first <= k <= after[j].last);
        }
    }
    assert(numbers(after) =~= numbers(runs).insert(n as int));
}

/// A number that makes a run longer by one at either end and meets no other.
proof fn lemma_extend(runs: Seq<Run>, n: u64, at: int, place: int, longer: Run)
    requires
        fits(runs, n, at),
        0 <= place < runs.len(),
        (place == at - 1 && runs[place].last + 1 == n && longer == (Run {
            first: runs[place].first,
            last: n,
        }) && (at < runs.len() ==> n + 1 < runs[at].first)) || (place == at && n + 1
            == runs[place].first && longer == (Run { first: n, last: runs[place].last }) && (at > 0
            ==> runs[at - 1].last + 1 < n)),
    ensures
        sorted(runs.update(place, longer)),
        numbers(runs.update(place, longer)) == numbers(runs).insert(n as int),
{
    let after = runs.update(place, longer);
    assert(forall|i: int| 0 <= i < at - 1 ==> (#[trigger] runs[i]).last + 1 < n);
    assert(forall|i: int| at < i < runs.len() ==> n + 1 < (#[trigger] runs[i]).first);
    assert forall|i: int, j: int| 0 <= i < j < after.len() implies (#[trigger] after[i]).last + 1
        < (#[trigger] after[j]).first by {
        assert(runs[i].last + 1 < runs[j].first);
    }
    assert(sorted(after));
    assert forall|k: int| numbers(after).contains(k) implies numbers(runs).insert(
        n as int,
    ).contains(k) by {
        let i = choose|i: int| 0 <= i < after.len() && (#[trigger] after[i]).first <= k
            <= after[i].last;
        if k != n {
            assert(runs[i].first <= k <= runs[i].last);
        }
    }
    assert forall|k: int| numbers(runs).insert(n as int).contains(k) implies numbers(
        after,
    ).contains(k) by {
        if k == n {
            assert(after[place].first <= k <= after[place].last);
        } else {
            let i = choose|i: int| 0 <= i < runs.len() && (#[trigger] runs[i]).first <= k
                <= runs[i].last;
            assert(after[i].first <= k <= after[i].last);
        }
    }
    assert(numbers(after) =~= numbers(runs).insert(n as int));
}

/// A number that meets no run.
proof fn lemma_alone(runs: Seq<Run>, n: u64, at: int)
    requires
        fits(runs, n, at),
        at > 0 ==> runs[at - 1].last + 1 < n,
        at < runs.len() ==> n + 1 < runs[at].first,
    ensures
        ({
            let after = runs.insert(at, Run { first: n, last: n });
            sorted(after) && numbers(after) == numbers(runs).insert(n as int)
        }),
{
    let after = runs.insert(at, Run { first: n, last: n });
    assert(forall|i: int| 0 <= i < at - 1 ==> (#[trigger] runs[i]).last + 1 < n);
    assert(forall|i: int| at < i < runs.len() ==> n + 1 < (#[trigger] runs[i]).first);
    assert(forall|i: int| 0 <= i < at ==> #[trigger] after[i] == runs[i]);
    assert(after[at] == (Run { first: n, last: n }));
    assert(forall|i: int| at < i < after.len() ==> #[trigger] after[i] == runs[i - 1]);
    assert(sorted(after));
    assert forall|k: int| numbers(after).contains(k) implies numbers(runs).insert(
        n as int,
    ).contains(k) by {
        let i = choose|i: int| 0 <= i < after.len() && (#[trigger] after[i]).first <= k
            <= after[i].last;
        if i < at {
            assert(runs[i].first <= k <= runs[i].last);
        } else if i > at {
            assert(runs[i - 1].first <= k <= runs[i - 1].last);
        }
    }
    assert forall|k: int| numbers(runs).insert(n as int).contains(k) implies numbers(
        after,
    ).contains(k) by {
        if k == n {
            assert(after[at].first <= k <= after[at].last);
        } else {
            let i = choose|i: int| 0 <= i < runs.len() && (#[trigger] runs[i]).first <= k
                <= runs[i].last;
            let j = if i >= at {
                i + 1
            } else {
                i
            };
            assert(after[j].first <= k <= after[j].last);
        }
    }
    assert(numbers(after) =~= numbers(runs).insert(n as int));
}

} // verus!
