//! Bandwidth limiting: how long a sender has to wait.

use crate::time::Duration;
use vstd::prelude::*;

verus! {

/// A rate-based limiter. It looks at the traffic at most once a millisecond, and when more was
/// sent since its last look than the target allows, it asks for a pause that makes up for it.
#[derive(Debug, Clone, Copy, PartialEq, Eq)]
pub struct Pacer {
    /// Target in bytes per second, if there is one
    pub target: Option<u64>,
    /// Bytes sent since the last look
    pub sent: u64,
}

/// What a sender has to do.
#[derive(Debug, Clone, Copy, PartialEq, Eq, Structural)]
pub enum Pace {
    /// Go on; the limiter did not look
    Go,
    /// Go on; the limiter looked, and its time starts anew
    Looked,
    /// Wait so long; the limiter looked, and its time starts anew after the pause
    Wait(Duration),
}

/// The bytes that the target allows in a span of time.
pub open spec fn allowance(target: u64, span: Duration) -> nat {
    ((target * span@) / 1_000_000_000) as nat
}

/// The pause that makes up for some bytes too many, in nanoseconds.
pub open spec fn make_up(target: u64, ahead: int) -> int {
    (ahead * 1_000_000_000) / (target as int)
}

/// What the limiter says when `sent` bytes were sent in `span`. Pauses of a tenth of a
/// millisecond and less are left out.
pub open spec fn pace_of(target: Option<u64>, sent: nat, span: Duration) -> Pace {
    match target {
        None => Pace::Go,
        Some(rate) => if span@ < 1_000_000 {
            Pace::Go
        } else if sent > allowance(rate, span) && make_up(rate, sent - allowance(rate, span))
            > 100_000 {
            Pace::Wait(Duration { nanos: make_up(rate, sent - allowance(rate, span)) as u128 })
        } else {
            Pace::Looked
        },
    }
}

impl Pacer {
    /// A limiter for a target in bits per second. Without a target it never asks for a pause.
    pub fn new(bandwidth: Option<u64>) -> (r: Self)
        ensures
            r.target == match bandwidth {
                Some(bits) => Some((bits / 8) as u64),
                None => None,
            },
            r.target is Some <==> bandwidth is Some,
            bandwidth matches Some(bits) ==> 8 * r.target->0 <= bits < 8 * (r.target->0 + 1),
            r.sent == 0,
    {
        Pacer {
            target: match bandwidth {
                Some(bits) => Some(bits / 8),
                None => None,
            },
            sent: 0,
        }
    }

    /// Takes some bytes into account that were sent `span` after the last look. No pause makes up
    /// for bytes that were sent at a target of zero.
    pub fn consume(&mut self, bytes: u64, span: Duration) -> (pace: Pace)
        requires
            old(self).sent + bytes <= u64::MAX,
            old(self).target == Some(0u64) ==> span@ < 1_000_000 || old(self).sent + bytes == 0,
        ensures
            pace == pace_of(old(self).target, (old(self).sent + bytes) as nat, span),
            final(self).target == old(self).target,
            final(self).sent == if pace == Pace::Go {
                (old(self).sent + bytes) as u64
            } else {
                0
            },
    {
        self.sent = self.sent + bytes;
        match self.target {
            None => Pace::Go,
            Some(rate) => {
                if span.shorter_than(&Duration::from_millis(1)) {
                    return Pace::Go;
                }
                let sent: u64 = self.sent;
                let allowed: u64 = allowed_bytes(rate, span);
                proof {
                    lemma_capped(rate, sent, span);
                }
                self.sent = 0;
                if sent > allowed {
                    let pause: u128 = (sent - allowed) as u128 * 1_000_000_000 / rate as u128;
                    if pause > 100_000 {
                        return Pace::Wait(Duration::from_nanos(pause));
                    }
                }
                Pace::Looked
            },
        }
    }
}

/// The allowance, held to what 64 bits can carry.
fn allowed_bytes(target: u64, span: Duration) -> (r: u64)
    ensures
        r == if allowance(target, span) > u64::MAX {
            u64::MAX as nat
        } else {
            allowance(target, span)
        },
{
    match (target as u128).checked_mul(span.nanos) {
        Some(product) => {
            let bytes: u128 = product / 1_000_000_000;
            if bytes > u64::MAX as u128 {
                u64::MAX
            } else {
                bytes as u64
            }
        },
        None => {
            assert(target * span@ > u128::MAX);
            u64::MAX
        },
    }
}

proof fn lemma_capped(rate: u64, sent: u64, span: Duration)
    ensures
        allowance(rate, span) > u64::MAX ==> sent <= allowance(rate, span),
{
}

/// Law: a pause and the time before it are together just long enough for what was sent: up to the
/// pause's last nanosecond the target allows no more than that, and a nanosecond more would allow
/// at least as much.
pub proof fn law_pause_meets_target(target: u64, sent: u64, span: Duration)
    requires
        target > 0,
        pace_of(Some(target), sent as nat, span) is Wait,
    ensures
        ({
            let pause = pace_of(Some(target), sent as nat, span)->Wait_0@;
            &&& target * pause <= (sent - allowance(target, span)) * 1_000_000_000
            &&& (sent - allowance(target, span)) * 1_000_000_000 < target * (pause + 1)
        }),
{
    let ahead = sent - allowance(target, span);
    let x = ahead * 1_000_000_000;
    let d = target as int;
    vstd::arithmetic::div_mod::lemma_fundamental_div_mod(x, d);
    vstd::arithmetic::div_mod::lemma_mod_bound(x, d);
    let q = x / d;
    assert(0 <= q <= x) by (nonlinear_arith)
        requires
            d >= 1,
            x >= 0,
            q == x / d,
    ;
    assert(make_up(target, ahead) == q);
    assert(d * (q + 1) == d * q + d) by (nonlinear_arith);
}

proof fn lemma_pause(target: u64, sent: u64, span: Duration)
    requires
        target > 0,
    ensures
        ({
            let allowed = allowance(target, span) as int;
            let ahead = sent - allowed;
            &&& allowed * 1_000_000_000 <= target * span@ < allowed * 1_000_000_000 + 1_000_000_000
            &&& ahead > 0 ==> {
                let pause = make_up(target, ahead);
                &&& 0 <= pause <= u128::MAX
                &&& target * pause <= ahead * 1_000_000_000 < target * pause + target
            }
        }),
{
    let allowed = allowance(target, span) as int;
    let product = target * span@;
    assert(product >= 0) by (nonlinear_arith)
        requires
            product == target * span@,
    ;
    assert(allowed == product / 1_000_000_000);
    let ahead = sent - allowed;
    if ahead > 0 {
        let x = ahead * 1_000_000_000;
        let d = target as int;
        let pause = make_up(target, ahead);
        assert(pause == x / d);
        vstd::arithmetic::div_mod::lemma_fundamental_div_mod(x, d);
        vstd::arithmetic::div_mod::lemma_mod_bound(x, d);
        assert(0 <= pause <= x) by (nonlinear_arith)
            requires
                d >= 1,
                x >= 0,
                pause == x / d,
        ;
    }
}

/// Law: a sender keeps to its target. From a millisecond on, a pause is asked for only when more was
/// sent than the target has for the time, and with the pause the time is what the target needs for
/// what was sent, up to one byte and one nanosecond. When no pause is asked for, no more was sent
/// than the target has for the time and a tenth of a millisecond, up to the same rounding.
pub proof fn law_target_is_kept(target: u64, sent: u64, span: Duration)
    requires
        target > 0,
        span@ >= 1_000_000,
    ensures
        match pace_of(Some(target), sent as nat, span) {
            Pace::Wait(pause) => {
                &&& sent * 1_000_000_000 > target * span@
                &&& target * (span@ + pause@) <= sent * 1_000_000_000 + 1_000_000_000 + target
                &&& sent * 1_000_000_000 <= target * (span@ + pause@) + 1_000_000_000 + target
                &&& pause@ > 100_000
            },
            Pace::Looked => sent * 1_000_000_000 <= target * (span@ + 100_000) + 1_000_000_000
                + target,
            Pace::Go => false,
        },
        sent * 1_000_000_000 <= target * span@ ==> pace_of(Some(target), sent as nat, span)
            == Pace::Looked,
{
    lemma_pause(target, sent, span);
    let allowed = allowance(target, span) as int;
    let ahead = sent - allowed;
    let t = target as int;
    let n = span@ as int;
    if ahead > 0 {
        let pause = make_up(target, ahead);
        assert(t * (n + pause) == t * n + t * pause) by (nonlinear_arith);
        assert(t * (n + 100_000) == t * n + t * 100_000) by (nonlinear_arith);
        if pause <= 100_000 {
            assert(t * pause <= t * 100_000) by (nonlinear_arith)
                requires
                    t > 0,
                    pause <= 100_000,
            ;
        }
    } else {
        assert(t * (n + 100_000) >= t * n) by (nonlinear_arith)
            requires
                t > 0,
        ;
    }
}

/// Law: who has no target never waits, and no pause is asked for within a millisecond of the last
/// look.
pub proof fn law_no_needless_pause(target: Option<u64>, sent: nat, span: Duration)
    requires
        target is None || span@ < 1_000_000,
    ensures
        pace_of(target, sent, span) == Pace::Go,
{
}

/// A look of the limiter: the bytes since the last one, and the time since then.
pub struct Look {
    /// Bytes sent
    pub sent: u64,
    /// Time that it took
    pub span: Duration,
}

/// What a sender sent over a run of looks, and the time it took, pauses and all.
pub open spec fn paced(target: u64, looks: Seq<Look>) -> (nat, nat)
    decreases looks.len(),
{
    if looks.len() == 0 {
        (0, 0)
    } else {
        let (sent, time) = paced(target, looks.drop_last());
        let look = looks.last();
        let pause = match pace_of(Some(target), look.sent as nat, look.span) {
            Pace::Wait(pause) => pause@,
            _ => 0,
        };
        (sent + look.sent as nat, time + look.span@ + pause)
    }
}

/// Law: over a whole run a sender that keeps the pauses keeps to its target, up to the shortest pause,
/// one nanosecond and one byte for each look.
pub proof fn law_run_keeps_target(target: u64, looks: Seq<Look>)
    requires
        target > 0,
        forall|i: int| 0 <= i < looks.len() ==> (#[trigger] looks[i]).span@ >= 1_000_000,
    ensures
        ({
            let (sent, time) = paced(target, looks);
            sent * 1_000_000_000 <= target * time + looks.len() * (target * 100_001
                + 1_000_000_000)
        }),
    decreases looks.len(),
{
    let n = looks.len() as int;
    let t = target as int;
    if n == 0 {
        assert(t * 0 == 0 && 0 * (t * 100_001 + 1_000_000_000) == 0);
    } else {
        let rest = looks.drop_last();
        assert forall|i: int| 0 <= i < rest.len() implies (#[trigger] rest[i]).span@
            >= 1_000_000 by {
            assert(rest[i] == looks[i]);
        }
        law_run_keeps_target(target, rest);
        let look = looks.last();
        assert(look == looks[n - 1]);
        law_target_is_kept(target, look.sent, look.span);
        let (sent, time) = paced(target, rest);
        let pause = match pace_of(Some(target), look.sent as nat, look.span) {
            Pace::Wait(pause) => pause@ as int,
            _ => 0,
        };
        let span = look.span@ as int;
        let each = t * 100_001 + 1_000_000_000;
        assert(t * (span + pause + 100_001) == t * (span + pause) + t * 100_001)
            by (nonlinear_arith);
        assert(t * (span + 100_000) + t == t * span + t * 100_001) by (nonlinear_arith);
        assert(t * (time + span + pause) == t * time + t * (span + pause)) by (nonlinear_arith);
        assert(n * each == (n - 1) * each + each) by (nonlinear_arith);
        assert(t * 100_001 >= t);
    }
}

} // verus!
