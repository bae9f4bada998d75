//! Readings of the host's clocks.
//!
//! What a clock shows depends on the host and the moment, so nothing is promised of a reading.

use crate::time::Duration;
use vstd::prelude::*;

verus! {

/// `std::time::Instant`: a moment of the monotonic clock. Verified code only carries it.
#[verifier::external_type_specification]
#[verifier::external_body]
pub struct ExInstant(std::time::Instant);

/// `std::time::SystemTime`: a moment of the wall clock. Verified code only carries it.
#[verifier::external_type_specification]
#[verifier::external_body]
pub struct ExSystemTime(std::time::SystemTime);

/// `Instant::now`: the present moment of the monotonic clock. Nothing is claimed of it.
pub assume_specification[ std::time::Instant::now ]() -> (now: std::time::Instant);

/// `SystemTime::now`: the present moment of the wall clock. Nothing is claimed of it.
pub assume_specification[ std::time::SystemTime::now ]() -> (now: std::time::SystemTime);

/// `Instant::elapsed`: the time that has passed since a moment, in nanoseconds. It depends on when
/// it is asked, so nothing is claimed of it.
#[verifier::external_body]
fn elapsed_nanos(moment: &std::time::Instant) -> (nanos: u128)
{
    moment.elapsed().as_nanos()
}

/// `SystemTime::duration_since` with the UNIX epoch: the time from the epoch to `moment` in
/// whole microseconds, or `None` for a moment before the epoch. A moment is opaque, so nothing
/// is claimed of the number.
#[verifier::external_body]
pub(crate) fn since_epoch_micros(moment: std::time::SystemTime) -> (micros: Option<u128>)
{
    moment.duration_since(std::time::UNIX_EPOCH).ok().map(|span| span.as_micros())
}

/// The microseconds since the UNIX epoch by the wall clock, in their low 64 bits. A clock that
/// stands before the epoch reads zero.
pub fn unix_micros() -> (micros: u64)
{
    stamp_of(since_epoch_micros(std::time::SystemTime::now()))
}

/// The time since a moment of the monotonic clock.
pub fn time_since(moment: &std::time::Instant) -> (span: Duration)
{
    Duration::from_nanos(elapsed_nanos(moment))
}

/// The microseconds since a moment of the monotonic clock, in their low 64 bits.
pub fn micros_since(moment: &std::time::Instant) -> (micros: u64)
{
    whole_micros(elapsed_nanos(moment))
}

/// The timestamp for a reading of the wall clock in microseconds since the UNIX epoch: its low 64
/// bits, or zero where there is none because the clock stands before the epoch.
pub fn stamp_of(reading: Option<u128>) -> (micros: u64)
    ensures
        micros == match reading {
            Some(since_epoch) => since_epoch % 0x1_0000_0000_0000_0000,
            None => 0,
        },
{
    match reading {
        Some(since_epoch) => low_64(since_epoch),
        None => 0,
    }
}

/// The whole microseconds in some nanoseconds, in their low 64 bits.
pub fn whole_micros(nanos: u128) -> (micros: u64)
    ensures
        micros == nanos / 1000 % 0x1_0000_0000_0000_0000,
{
    low_64(nanos / 1000)
}

/// The low 64 bits of a number.
pub fn low_64(x: u128) -> (r: u64)
    ensures
        r == x % 0x1_0000_0000_0000_0000,
{
    (x % 0x1_0000_0000_0000_0000) as u64
}

} // verus!
