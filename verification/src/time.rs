//! Spans of time, to the nanosecond.

use vstd::prelude::*;

verus! {

/// Nanoseconds in one second.
pub const NANOS_PER_SEC: u128 = 1_000_000_000;

/// Nanoseconds in one millisecond.
pub const NANOS_PER_MILLI: u128 = 1_000_000;

/// A span of time.
#[derive(Debug, Clone, Copy, PartialEq, Eq, PartialOrd, Ord, Hash, Structural)]
pub struct Duration {
    /// The whole span in nanoseconds.
    pub nanos: u128,
}

/// A duration stands for its number of nanoseconds.
impl View for Duration {
    type V = nat;

    open spec fn view(&self) -> nat {
        self.nanos as nat
    }
}

impl Default for Duration {
    fn default() -> (r: Self)
        ensures
            r@ == 0,
    {
        Duration { nanos: 0 }
    }
}

impl Duration {
    /// The empty span.
    pub fn zero() -> (r: Self)
        ensures
            r@ == 0,
    {
        Duration { nanos: 0 }
    }

    /// A span of whole seconds.
    pub fn from_secs(secs: u64) -> (r: Self)
        ensures
            r@ == secs * NANOS_PER_SEC,
    {
        Duration { nanos: secs as u128 * NANOS_PER_SEC }
    }

    /// A span of whole milliseconds.
    pub fn from_millis(millis: u64) -> (r: Self)
        ensures
            r@ == millis * NANOS_PER_MILLI,
    {
        Duration { nanos: millis as u128 * NANOS_PER_MILLI }
    }

    /// A span of nanoseconds.
    pub fn from_nanos(nanos: u128) -> (r: Self)
        ensures
            r@ == nanos,
    {
        Duration { nanos }
    }

    /// The span in nanoseconds.
    pub fn as_nanos(&self) -> (r: u128)
        ensures
            r == self@,
    {
        self.nanos
    }

    /// The number of whole seconds in the span, or the greatest number when there are more.
    pub fn as_secs(&self) -> (r: u64)
        ensures
            r == whole_secs(*self),
    {
        let secs: u128 = self.nanos / NANOS_PER_SEC;
        if secs > u64::MAX as u128 {
            u64::MAX
        } else {
            secs as u64
        }
    }

    /// True when the span is empty.
    pub fn is_zero(&self) -> (r: bool)
        ensures
            r == (self@ == 0),
    {
        self.nanos == 0
    }

    /// True when this span is shorter than the other.
    pub fn shorter_than(&self, other: &Duration) -> (r: bool)
        ensures
            r == (self@ < other@),
    {
        self.nanos < other.nanos
    }

    /// The difference of two spans, or the empty span when the other is the longer one.
    pub fn saturating_sub(&self, other: &Duration) -> (r: Self)
        ensures
            r@ == if self@ > other@ { self@ - other@ } else { 0 },
    {
        if self.nanos > other.nanos {
            Duration { nanos: self.nanos - other.nanos }
        } else {
            Duration { nanos: 0 }
        }
    }

    /// The shorter of two spans.
    pub fn min_with(&self, other: &Duration) -> (r: Self)
        ensures
            r@ == if self@ < other@ { self@ } else { other@ },
    {
        if self.nanos < other.nanos {
            *self
        } else {
            *other
        }
    }
}

/// The number of whole seconds in a span, held to what 64 bits can carry.
pub open spec fn whole_secs(d: Duration) -> u64 {
    if d@ / NANOS_PER_SEC as nat > u64::MAX {
        u64::MAX
    } else {
        (d@ / NANOS_PER_SEC as nat) as u64
    }
}

/// Law: the whole seconds of a span are the most that fit into it, as far as 64 bits can count them.
pub proof fn law_whole_seconds_fit(d: Duration)
    ensures
        whole_secs(d) * 1_000_000_000 <= d@,
        whole_secs(d) < u64::MAX ==> d@ < (whole_secs(d) + 1) * 1_000_000_000,
{
}

} // verus!
