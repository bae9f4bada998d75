//! What the TCP statistics of a socket show over a whole test.

use crate::measurements::tcp_stats::{
    optional, TcpStats, TCP_RTT_PRESENT, TCP_SND_CWND_PRESENT,
};
use vstd::prelude::*;

verus! {

/// The figures of a whole test from the readings of a socket's TCP statistics.
#[derive(Debug, Clone, Copy, PartialEq, Eq)]
pub struct TcpFigures {
    /// Segments sent again since the connection began
    pub retransmits: u64,
    /// Largest congestion window in bytes, if it is known
    pub max_snd_cwnd: Option<u64>,
    /// Longest round-trip time in microseconds, if it is known
    pub max_rtt: Option<u64>,
    /// Shortest round-trip time in microseconds, if it is known
    pub min_rtt: Option<u64>,
    /// The round-trip times that were read, added up
    pub rtt_sum: u128,
    /// How many round-trip times were read
    pub rtt_count: u64,
}

/// The figures before any reading.
pub open spec fn no_figures() -> TcpFigures {
    TcpFigures {
        retransmits: 0,
        max_snd_cwnd: None,
        max_rtt: None,
        min_rtt: None,
        rtt_sum: 0,
        rtt_count: 0,
    }
}

/// The greater of two values that may be missing.
pub open spec fn greater(a: Option<u64>, b: Option<u64>) -> Option<u64> {
    match (a, b) {
        (Some(x), Some(y)) => if x < y {
            Some(y)
        } else {
            Some(x)
        },
        (None, _) => b,
        (_, None) => a,
    }
}

/// The lesser of two values that may be missing.
pub open spec fn lesser(a: Option<u64>, b: Option<u64>) -> Option<u64> {
    match (a, b) {
        (Some(x), Some(y)) => if y < x {
            Some(y)
        } else {
            Some(x)
        },
        (None, _) => b,
        (_, None) => a,
    }
}

/// The congestion window of a reading, if it is known.
pub open spec fn window_in(stats: TcpStats) -> Option<u64> {
    optional(stats.flags, TCP_SND_CWND_PRESENT, stats.snd_cwnd)
}

/// The round-trip time of a reading, if it is known.
pub open spec fn rtt_in(stats: TcpStats) -> Option<u64> {
    optional(stats.flags, TCP_RTT_PRESENT, stats.rtt)
}

/// The figures after one reading more. The kernel counts the segments sent again from the start of
/// the connection, so the greatest count is the one of the whole test. Once as many round-trip
/// times were read as 64 bits can count, no more of them enter the mean.
pub open spec fn figures_after(f: TcpFigures, stats: TcpStats) -> TcpFigures {
    let counts = rtt_in(stats) is Some && f.rtt_count < u64::MAX;
    TcpFigures {
        retransmits: if f.retransmits < stats.retransmits {
            stats.retransmits
        } else {
            f.retransmits
        },
        max_snd_cwnd: greater(f.max_snd_cwnd, window_in(stats)),
        max_rtt: greater(f.max_rtt, rtt_in(stats)),
        min_rtt: lesser(f.min_rtt, rtt_in(stats)),
        rtt_sum: if counts {
            (f.rtt_sum + stats.rtt) as u128
        } else {
            f.rtt_sum
        },
        rtt_count: if counts {
            (f.rtt_count + 1) as u64
        } else {
            f.rtt_count
        },
    }
}

/// The figures after a reading that may have failed.
pub open spec fn figures_with(f: TcpFigures, stats: Option<TcpStats>) -> TcpFigures {
    match stats {
        Some(s) => figures_after(f, s),
        None => f,
    }
}

/// The mean round-trip time in whole microseconds, if any was read.
pub open spec fn mean_of(f: TcpFigures) -> Option<u64> {
    if f.rtt_count > 0 {
        Some((f.rtt_sum / f.rtt_count as u128) as u64)
    } else {
        None
    }
}

fn greater_of(a: Option<u64>, b: Option<u64>) -> (r: Option<u64>)
    ensures
        r == greater(a, b),
{
    match (a, b) {
        (Some(x), Some(y)) => if x < y {
            Some(y)
        } else {
            Some(x)
        },
        (None, _) => b,
        (_, None) => a,
    }
}

fn lesser_of(a: Option<u64>, b: Option<u64>) -> (r: Option<u64>)
    ensures
        r == lesser(a, b),
{
    match (a, b) {
        (Some(x), Some(y)) => if y < x {
            Some(y)
        } else {
            Some(x)
        },
        (None, _) => b,
        (_, None) => a,
    }
}

impl TcpFigures {
    /// No sum is greater than so many round-trip times can make it.
    pub open spec fn wf(&self) -> bool {
        self.rtt_sum <= self.rtt_count * u64::MAX
    }

    /// The figures before any reading.
    pub fn new() -> (r: Self)
        ensures
            r == no_figures(),
            r.wf(),
    {
        TcpFigures {
            retransmits: 0,
            max_snd_cwnd: None,
            max_rtt: None,
            min_rtt: None,
            rtt_sum: 0,
            rtt_count: 0,
        }
    }

    /// Takes a reading into account.
    pub fn observe(&mut self, stats: &TcpStats)
        requires
            old(self).wf(),
        ensures
            final(self).wf(),
            *final(self) == figures_after(*old(self), *stats),
    {
        if self.retransmits < stats.retransmits {
            self.retransmits = stats.retransmits;
        }
        let rtt: Option<u64> = stats.rtt_opt();
        self.max_snd_cwnd = greater_of(self.max_snd_cwnd, stats.snd_cwnd_opt());
        self.max_rtt = greater_of(self.max_rtt, rtt);
        self.min_rtt = lesser_of(self.min_rtt, rtt);
        match rtt {
            Some(micros) => {
                if self.rtt_count < u64::MAX {
                    let count: u64 = self.rtt_count;
                    assert(count * u64::MAX + u64::MAX == (count + 1) * u64::MAX) by (
                    nonlinear_arith);
                    assert((count + 1) * u64::MAX <= u64::MAX * u64::MAX) by (nonlinear_arith)
                        requires
                            count + 1 <= u64::MAX,
                    ;
                    self.rtt_sum = self.rtt_sum + micros as u128;
                    self.rtt_count = count + 1;
                }
            },
            None => {},
        }
    }

    /// The mean round-trip time in whole microseconds, if any was read.
    pub fn mean_rtt(&self) -> (r: Option<u64>)
        requires
            self.wf(),
        ensures
            r == mean_of(*self),
            r matches Some(mean) ==> mean == self.rtt_sum / self.rtt_count as u128,
    {
        if self.rtt_count > 0 {
            let sum: u128 = self.rtt_sum;
            let count: u64 = self.rtt_count;
            assert(sum / count as u128 <= u64::MAX) by (nonlinear_arith)
                requires
                    count > 0,
                    sum <= count * u64::MAX,
            ;
            Some((sum / count as u128) as u64)
        } else {
            None
        }
    }
}

/// The figures after some readings.
pub open spec fn figures_of(readings: Seq<TcpStats>) -> TcpFigures
    decreases readings.len(),
{
    if readings.len() == 0 {
        no_figures()
    } else {
        figures_after(figures_of(readings.drop_last()), readings.last())
    }
}

/// A sequence with one value more, unless it is missing.
pub open spec fn with_known(values: Seq<u64>, value: Option<u64>) -> Seq<u64> {
    match value {
        Some(v) => values.push(v),
        None => values,
    }
}

/// The counts of segments sent again in some readings.
pub open spec fn retransmit_counts(readings: Seq<TcpStats>) -> Seq<u64> {
    Seq::new(readings.len(), |i: int| readings[i].retransmits)
}

/// The known congestion windows of some readings.
pub open spec fn known_windows(readings: Seq<TcpStats>) -> Seq<u64>
    decreases readings.len(),
{
    if readings.len() == 0 {
        Seq::empty()
    } else {
        with_known(known_windows(readings.drop_last()), window_in(readings.last()))
    }
}

/// The known round-trip times of some readings.
pub open spec fn known_rtts(readings: Seq<TcpStats>) -> Seq<u64>
    decreases readings.len(),
{
    if readings.len() == 0 {
        Seq::empty()
    } else {
        with_known(known_rtts(readings.drop_last()), rtt_in(readings.last()))
    }
}

/// Some values added up.
pub open spec fn sum_of(values: Seq<u64>) -> nat
    decreases values.len(),
{
    if values.len() == 0 {
        0
    } else {
        sum_of(values.drop_last()) + values.last() as nat
    }
}

/// True for the greatest of some values, or for none when there are no values.
pub open spec fn is_greatest(values: Seq<u64>, m: Option<u64>) -> bool {
    match m {
        Some(v) => values.contains(v) && forall|i: int|
            0 <= i < values.len() ==> #[trigger] values[i] <= v,
        None => values.len() == 0,
    }
}

/// True for the least of some values, or for none when there are no values.
pub open spec fn is_least(values: Seq<u64>, m: Option<u64>) -> bool {
    match m {
        Some(v) => values.contains(v) && forall|i: int|
            0 <= i < values.len() ==> v <= #[trigger] values[i],
        None => values.len() == 0,
    }
}

proof fn lemma_sum_between(values: Seq<u64>, low: u64, high: u64)
    requires
        forall|i: int| 0 <= i < values.len() ==> low <= #[trigger] values[i] <= high,
    ensures
        low * values.len() <= sum_of(values) <= high * values.len(),
    decreases values.len(),
{
    if values.len() > 0 {
        let rest = values.drop_last();
        assert forall|i: int| 0 <= i < rest.len() implies low <= #[trigger] rest[i] <= high by {
            assert(rest[i] == values[i]);
        }
        lemma_sum_between(rest, low, high);
        assert(low <= values[values.len() - 1] <= high);
        let n = rest.len();
        assert(low * (n + 1) == low * n + low) by (nonlinear_arith);
        assert(high * (n + 1) == high * n + high) by (nonlinear_arith);
    }
}

/// Law: the figures of a test are those of its readings: the greatest count of segments sent again,
/// the largest known congestion window, the longest and the shortest known round-trip time, and
/// the mean of the known ones, which lies between those two. A figure is missing only where no
/// reading knows it.
pub proof fn law_figures_of_readings(readings: Seq<TcpStats>)
    requires
        readings.len() <= u64::MAX,
    ensures
        ({
            let f = figures_of(readings);
            let rtts = known_rtts(readings);
            &&& f.wf()
            &&& readings.len() > 0 ==> is_greatest(
                retransmit_counts(readings),
                Some(f.retransmits),
            )
            &&& is_greatest(known_windows(readings), f.max_snd_cwnd)
            &&& is_greatest(rtts, f.max_rtt)
            &&& is_least(rtts, f.min_rtt)
            &&& f.rtt_sum == sum_of(rtts)
            &&& f.rtt_count == rtts.len()
            &&& mean_of(f) is Some <==> rtts.len() > 0
            &&& mean_of(f) matches Some(mean) ==> {
                &&& f.min_rtt->0 <= mean <= f.max_rtt->0
                &&& mean == sum_of(rtts) / rtts.len()
            }
        }),
    decreases readings.len(),
{
    let f = figures_of(readings);
    let rtts = known_rtts(readings);
    if readings.len() > 0 {
        let rest = readings.drop_last();
        law_figures_of_readings(rest);
        let before = figures_of(rest);
        let stats = readings.last();
        let old_rtts = known_rtts(rest);
        lemma_rtts_fewer(rest);
        lemma_greatest(old_rtts, before.max_rtt, rtt_in(stats));
        lemma_least(old_rtts, before.min_rtt, rtt_in(stats));
        lemma_greatest(known_windows(rest), before.max_snd_cwnd, window_in(stats));
        let counts = retransmit_counts(rest);
        assert(retransmit_counts(readings) =~= counts.push(stats.retransmits));
        lemma_greatest(
            counts,
            if rest.len() > 0 {
                Some(before.retransmits)
            } else {
                None
            },
            Some(stats.retransmits),
        );
        if rtt_in(stats) is Some {
            assert(old_rtts.push(stats.rtt).drop_last() =~= old_rtts);
            lemma_sum_below(old_rtts);
            let n = old_rtts.len() as int;
            assert(n * u64::MAX + u64::MAX == (n + 1) * u64::MAX) by (nonlinear_arith);
            assert((n + 1) * u64::MAX <= u64::MAX * u64::MAX) by (nonlinear_arith)
                requires
                    n + 1 <= u64::MAX,
            ;
        }
    }
    if rtts.len() > 0 {
        let low = f.min_rtt->0;
        let high = f.max_rtt->0;
        lemma_sum_between(rtts, low, high);
        let sum = sum_of(rtts) as int;
        let n = rtts.len() as int;
        assert(low <= sum / n <= high) by (nonlinear_arith)
            requires
                n > 0,
                low * n <= sum <= high * n,
        ;
    }
}

proof fn lemma_rtts_fewer(readings: Seq<TcpStats>)
    ensures
        known_rtts(readings).len() <= readings.len(),
    decreases readings.len(),
{
    if readings.len() > 0 {
        lemma_rtts_fewer(readings.drop_last());
    }
}

proof fn lemma_greatest(values: Seq<u64>, high: Option<u64>, more: Option<u64>)
    requires
        is_greatest(values, high),
    ensures
        is_greatest(with_known(values, more), greater(high, more)),
{
    match more {
        Some(v) => {
            let all = values.push(v);
            assert(all[values.len() as int] == v);
            match high {
                Some(h) => {
                    let k = choose|k: int| 0 <= k < values.len() && values[k] == h;
                    assert(all[k] == h);
                },
                None => {},
            }
        },
        None => {},
    }
}

proof fn lemma_least(values: Seq<u64>, low: Option<u64>, more: Option<u64>)
    requires
        is_least(values, low),
    ensures
        is_least(with_known(values, more), lesser(low, more)),
{
    match more {
        Some(v) => {
            let all = values.push(v);
            assert(all[values.len() as int] == v);
            match low {
                Some(l) => {
                    let k = choose|k: int| 0 <= k < values.len() && values[k] == l;
                    assert(all[k] == l);
                },
                None => {},
            }
        },
        None => {},
    }
}

proof fn lemma_sum_below(values: Seq<u64>)
    ensures
        sum_of(values) <= values.len() * u64::MAX,
{
    lemma_sum_between(values, 0, u64::MAX);
    assert(u64::MAX * values.len() == values.len() * u64::MAX) by (nonlinear_arith);
}

/// The segments sent again in each of some intervals, by the readings at their ends: what the count
/// has grown since the reading before.
pub open spec fn sent_again(readings: Seq<TcpStats>) -> Seq<u64> {
    Seq::new(
        readings.len(),
        |i: int|
            readings[i].retransmits.saturating_sub(
                if i == 0 {
                    0
                } else {
                    readings[i - 1].retransmits
                },
            ),
    )
}

/// Law: the segments sent again in the intervals of a test add up to those of the whole test, as
/// long as the kernel's count never falls.
pub proof fn law_retransmits_add_up(readings: Seq<TcpStats>)
    requires
        forall|i: int, j: int|
            0 <= i <= j < readings.len() ==> (#[trigger] readings[i]).retransmits <= (
            #[trigger] readings[j]).retransmits,
    ensures
        sum_of(sent_again(readings)) == figures_of(readings).retransmits,
        readings.len() > 0 ==> figures_of(readings).retransmits == readings.last().retransmits,
    decreases readings.len(),
{
    if readings.len() > 0 {
        let rest = readings.drop_last();
        assert forall|i: int, j: int| 0 <= i <= j < rest.len() implies (
        #[trigger] rest[i]).retransmits <= (#[trigger] rest[j]).retransmits by {
            assert(rest[i] == readings[i] && rest[j] == readings[j]);
        }
        law_retransmits_add_up(rest);
        assert(sent_again(readings).drop_last() =~= sent_again(rest));
        let n = readings.len() as int;
        if n > 1 {
            assert(readings[n - 2].retransmits <= readings[n - 1].retransmits);
            assert(rest.last() == readings[n - 2]);
        }
        assert(readings.last() == readings[n - 1]);
    }
}

/// Law: a reading tells a congestion window when its first flag is set and a round-trip time when its
/// second one is, each the value of that name.
pub proof fn law_what_a_reading_tells(stats: TcpStats)
    ensures
        window_in(stats) is Some <==> stats.flags & 1 != 0,
        window_in(stats) matches Some(v) ==> v == stats.snd_cwnd,
        rtt_in(stats) is Some <==> stats.flags & 2 != 0,
        rtt_in(stats) matches Some(v) ==> v == stats.rtt,
{
}

/// Law: after one more reading no greatest value is below what the reading tells, no least value is
/// above it, and each figure is the one before or what the reading tells.
pub proof fn law_figures_take_up_a_reading(f: TcpFigures, stats: TcpStats)
    ensures
        ({
            let g = figures_after(f, stats);
            &&& g.retransmits >= f.retransmits && g.retransmits >= stats.retransmits
            &&& g.retransmits == f.retransmits || g.retransmits == stats.retransmits
            &&& stats.flags & 1 != 0 ==> g.max_snd_cwnd is Some && g.max_snd_cwnd->0
                >= stats.snd_cwnd && (g.max_snd_cwnd == f.max_snd_cwnd || g.max_snd_cwnd->0
                == stats.snd_cwnd)
            &&& stats.flags & 1 == 0 ==> g.max_snd_cwnd == f.max_snd_cwnd
            &&& stats.flags & 2 != 0 ==> g.max_rtt is Some && g.max_rtt->0 >= stats.rtt && (
            g.max_rtt == f.max_rtt || g.max_rtt->0 == stats.rtt)
            &&& stats.flags & 2 != 0 ==> g.min_rtt is Some && g.min_rtt->0 <= stats.rtt && (
            g.min_rtt == f.min_rtt || g.min_rtt->0 == stats.rtt)
            &&& stats.flags & 2 == 0 ==> g.max_rtt == f.max_rtt && g.min_rtt == f.min_rtt
            &&& f.max_rtt matches Some(v) ==> g.max_rtt is Some && g.max_rtt->0 >= v
            &&& f.min_rtt matches Some(v) ==> g.min_rtt is Some && g.min_rtt->0 <= v
            &&& f.max_snd_cwnd matches Some(v) ==> g.max_snd_cwnd is Some && g.max_snd_cwnd->0 >= v
        }),
{
}

} // verus!
