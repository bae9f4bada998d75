//! Quantities that are shown as decimal fractions.
//!
//! Rates and shares are kept as exact ratios of integers; who shows them divides. Values that
//! are only handed on keep the bits of their binary floating-point form.

use crate::time::Duration;
use vstd::prelude::*;

verus! {

/// A number in IEEE 754 binary64 form, which is handed on without being computed with.
#[derive(Debug, Clone, Copy, PartialEq, Eq, Hash, Structural)]
pub struct Binary64 {
    /// The sixty-four bits of the number.
    pub bits: u64,
}

impl Binary64 {
    /// The number zero.
    pub fn zero() -> (r: Self)
        ensures
            r.bits == 0,
    {
        Binary64 { bits: 0 }
    }

    /// True for zero of either sign.
    pub open spec fn is_zero_spec(&self) -> bool {
        self.bits == 0 || self.bits == 0x8000_0000_0000_0000
    }

    /// True for the numbers above zero, infinity among them.
    pub open spec fn is_positive_spec(&self) -> bool {
        0 < self.bits <= 0x7ff0_0000_0000_0000
    }

    /// True for the numbers above zero, infinity among them.
    pub fn is_positive(&self) -> (r: bool)
        ensures
            r == self.is_positive_spec(),
    {
        0 < self.bits && self.bits <= 0x7ff0_0000_0000_0000
    }

    /// True for zero of either sign.
    pub fn is_zero(&self) -> (r: bool)
        ensures
            r == self.is_zero_spec(),
    {
        self.bits == 0 || self.bits == 0x8000_0000_0000_0000
    }

    /// The number with the given bits.
    pub fn from_bits(bits: u64) -> (r: Self)
        ensures
            r.bits == bits,
    {
        Binary64 { bits }
    }

    /// The bits of the number.
    pub fn to_bits(&self) -> (r: u64)
        ensures
            r == self.bits,
    {
        self.bits
    }
}

impl Default for Binary64 {
    fn default() -> (r: Self)
        ensures
            r.bits == 0,
    {
        Binary64 { bits: 0 }
    }
}

/// A throughput: some bytes over some time. In bits per second it is eight times the bytes,
/// divided by the seconds, without bound where no time passed.
#[derive(Debug, Clone, Copy, PartialEq, Eq, Hash, Structural)]
pub struct BitRate {
    /// Bytes transferred.
    pub bytes: u64,
    /// The time that it took.
    pub over: Duration,
}

/// The rate of a transfer. One that took no time has the rate zero.
pub open spec fn rate_of(bytes: u64, over: Duration) -> BitRate {
    if over@ > 0 {
        BitRate { bytes, over }
    } else {
        BitRate { bytes: 0, over: Duration { nanos: 1_000_000_000 } }
    }
}

impl BitRate {
    /// The rate of a transfer. One that took no time has the rate zero.
    pub fn of(bytes: u64, over: Duration) -> (r: Self)
        ensures
            r == rate_of(bytes, over),
            r.over@ > 0,
    {
        if over.is_zero() {
            BitRate { bytes: 0, over: Duration::from_secs(1) }
        } else {
            BitRate { bytes, over }
        }
    }
}

/// The unit that a throughput is shown in.
#[derive(Debug, Clone, Copy, PartialEq, Eq, Structural)]
pub enum RateUnit {
    /// Millions of bits per second
    Mega,
    /// Thousands of millions of bits per second
    Giga,
}

/// The unit of a throughput: giga from a thousand million bits per second on, else mega.
pub open spec fn rate_unit_of(rate: BitRate) -> RateUnit {
    if (rate.over@ > 0 && rate.bytes * 8 * 1_000_000_000 >= 1_000_000_000 * rate.over@) || (
    rate.over@ == 0 && rate.bytes > 0) {
        RateUnit::Giga
    } else {
        RateUnit::Mega
    }
}

impl RateUnit {
    /// The unit of a throughput.
    pub fn of(rate: &BitRate) -> (r: Self)
        ensures
            r == rate_unit_of(*rate),
    {
        if rate.bytes as u128 * 8 >= rate.over.nanos && (rate.bytes > 0 || !rate.over.is_zero()) {
            RateUnit::Giga
        } else {
            RateUnit::Mega
        }
    }

    /// The name of the unit.
    pub fn name(&self) -> (r: &'static str)
        ensures
            r@ == match self {
                RateUnit::Mega => "Mbits/sec"@,
                RateUnit::Giga => "Gbits/sec"@,
            },
    {
        match self {
            RateUnit::Mega => "Mbits/sec",
            RateUnit::Giga => "Gbits/sec",
        }
    }

    /// How many bits per second the unit stands for.
    pub fn scale(&self) -> (r: u64)
        ensures
            r == match self {
                RateUnit::Mega => 1_000_000u64,
                RateUnit::Giga => 1_000_000_000,
            },
    {
        match self {
            RateUnit::Mega => 1_000_000,
            RateUnit::Giga => 1_000_000_000,
        }
    }
}

/// The unit that an amount of data is shown in.
#[derive(Debug, Clone, Copy, PartialEq, Eq, Structural)]
pub enum ByteUnit {
    /// Thousands of bytes
    Kilo,
    /// Millions of bytes
    Mega,
    /// Thousands of millions of bytes
    Giga,
}

/// The unit of an amount of data: the largest of which there is a whole one, and never less than
/// `least`, which is kilo or mega.
pub open spec fn byte_unit_of(bytes: u64, least: ByteUnit) -> ByteUnit {
    if bytes >= 1_000_000_000 {
        ByteUnit::Giga
    } else if bytes >= 1_000_000 {
        ByteUnit::Mega
    } else {
        least
    }
}

impl ByteUnit {
    /// The unit of an amount of data.
    pub fn of(bytes: u64, least: ByteUnit) -> (r: Self)
        ensures
            r == byte_unit_of(bytes, least),
    {
        if bytes >= 1_000_000_000 {
            ByteUnit::Giga
        } else if bytes >= 1_000_000 {
            ByteUnit::Mega
        } else {
            least
        }
    }

    /// The name of the unit.
    pub fn name(&self) -> (r: &'static str)
        ensures
            r@ == match self {
                ByteUnit::Kilo => "KBytes"@,
                ByteUnit::Mega => "MBytes"@,
                ByteUnit::Giga => "GBytes"@,
            },
    {
        match self {
            ByteUnit::Kilo => "KBytes",
            ByteUnit::Mega => "MBytes",
            ByteUnit::Giga => "GBytes",
        }
    }

    /// How many bytes the unit stands for.
    pub fn scale(&self) -> (r: u64)
        ensures
            r == match self {
                ByteUnit::Kilo => 1_000u64,
                ByteUnit::Mega => 1_000_000,
                ByteUnit::Giga => 1_000_000_000,
            },
            r == bytes_in(*self),
    {
        match self {
            ByteUnit::Kilo => 1_000,
            ByteUnit::Mega => 1_000_000,
            ByteUnit::Giga => 1_000_000_000,
        }
    }
}

/// A share of a whole, in percent a hundred times the part divided by the whole.
#[derive(Debug, Clone, Copy, PartialEq, Eq, Hash, Structural)]
pub struct Percent {
    /// The part.
    pub part: u64,
    /// The whole, which is never zero.
    pub whole: u64,
}

/// The share of a part in a whole. Of nothing every share is zero.
pub open spec fn share_of(part: u64, whole: u64) -> Percent {
    if whole > 0 {
        Percent { part, whole }
    } else {
        Percent { part: 0, whole: 1 }
    }
}

impl Percent {
    /// The share of a part in a whole. Of nothing every share is zero.
    pub fn of(part: u64, whole: u64) -> (r: Self)
        ensures
            r == share_of(part, whole),
            r.whole > 0,
    {
        if whole > 0 {
            Percent { part, whole }
        } else {
            Percent { part: 0, whole: 1 }
        }
    }
}

/// Law: a rate is that of the bytes over the time, whenever any time passed, and it is zero when
/// none did. Its time is never zero.
pub proof fn law_rate_is_bytes_over_time(bytes: u64, over: Duration)
    ensures
        rate_of(bytes, over).over@ > 0,
        over@ > 0 ==> rate_of(bytes, over).bytes == bytes && rate_of(bytes, over).over == over,
        over@ == 0 ==> rate_of(bytes, over).bytes == 0,
{
}

/// Law: a share is that of the part in the whole, whenever there is a whole, and it is zero when
/// there is none. Its whole is never zero.
pub proof fn law_share_is_part_of_whole(part: u64, whole: u64)
    ensures
        share_of(part, whole).whole > 0,
        whole > 0 ==> share_of(part, whole).part == part && share_of(part, whole).whole == whole,
        whole == 0 ==> share_of(part, whole).part == 0,
{
}

/// Law: a throughput is shown in giga just when it is at least a thousand million bits per second,
/// that is when a bit for each nanosecond was moved. What took no time has no bound.
pub proof fn law_giga_from_a_bit_per_nanosecond(rate: BitRate)
    ensures
        rate.over@ > 0 ==> (rate_unit_of(rate) == RateUnit::Giga <==> 8 * rate.bytes
            >= rate.over@),
        rate.over@ == 0 ==> (rate_unit_of(rate) == RateUnit::Giga <==> rate.bytes > 0),
{
}

/// How many bytes a unit stands for.
pub open spec fn bytes_in(unit: ByteUnit) -> int {
    match unit {
        ByteUnit::Kilo => 1000,
        ByteUnit::Mega => 1_000_000,
        ByteUnit::Giga => 1_000_000_000,
    }
}

/// Law: an amount of data is shown in the largest unit of which it has a whole one, or in the least
/// unit when it has a whole one of none.
pub proof fn law_largest_unit(bytes: u64, least: ByteUnit, other: ByteUnit)
    requires
        least != ByteUnit::Giga,
    ensures
        ({
            let unit = byte_unit_of(bytes, least);
            &&& unit == least || bytes_in(unit) <= bytes
            &&& bytes_in(unit) >= bytes_in(least)
            &&& bytes_in(other) > bytes_in(unit) ==> bytes < bytes_in(other)
        }),
{
}

/// Law: of the sign, the eleven exponent bits and the fraction of a number, a zero has only the sign,
/// and a positive number has no sign, is not zero, and is not one of the patterns that stand for no
/// number.
pub proof fn law_kinds_of_numbers(x: Binary64)
    ensures
        ({
            let sign = x.bits / 0x8000_0000_0000_0000;
            let exponent = x.bits / 0x10_0000_0000_0000 % 0x800;
            let fraction = x.bits % 0x10_0000_0000_0000;
            &&& x.is_zero_spec() <==> exponent == 0 && fraction == 0
            &&& x.is_positive_spec() <==> sign == 0 && !(exponent == 0 && fraction == 0) && !(
            exponent == 0x7ff && fraction > 0)
        }),
{
}

} // verus!
