//! Bandwidths as the user writes them: a number of bits per second with an optional unit.

use crate::text::{
    chars_of, decimal, is_digit, is_white, law_decimal_spells, parse_u64, parsed_u64, text_of,
    trim_bounds, trim_end, trim_start, trimmed, unsigned_part,
};
use vstd::prelude::*;
use vstd::string::*;

verus! {

/// Why a text is no bandwidth.
#[derive(Debug)]
pub enum BandwidthError {
    /// The text is empty or blank
    Empty,
    /// What stands before the unit is no number
    InvalidNumber(String),
    /// The text means more bits per second than 64 bits can count
    TooLarge(String),
}

impl BandwidthError {
    /// The message for the user.
    pub fn message(&self) -> (r: String)
        ensures
            self is Empty ==> r@ == "Bandwidth cannot be empty"@,
            self matches BandwidthError::InvalidNumber(number) ==> r@
                == "Invalid bandwidth number: "@ + number@,
            self matches BandwidthError::TooLarge(text) ==> r@ == "Bandwidth is too large: "@
                + text@,
    {
        match self {
            BandwidthError::Empty => String::from_str("Bandwidth cannot be empty"),
            BandwidthError::InvalidNumber(number) => {
                let mut text: String = String::from_str("Invalid bandwidth number: ");
                text.append(number.as_str());
                text
            },
            BandwidthError::TooLarge(bandwidth) => {
                let mut text: String = String::from_str("Bandwidth is too large: ");
                text.append(bandwidth.as_str());
                text
            },
        }
    }
}

/// The bits per second that a unit letter stands for: kilo, mega or giga. Any other last
/// character belongs to the number.
pub open spec fn unit_of(c: char) -> Option<u64> {
    if c == 'G' || c == 'g' {
        Some(1_000_000_000)
    } else if c == 'M' || c == 'm' {
        Some(1_000_000)
    } else if c == 'K' || c == 'k' {
        Some(1_000)
    } else {
        None
    }
}

/// The factor of a trimmed bandwidth text.
pub open spec fn multiplier(t: Seq<char>) -> u64 {
    match unit_of(t.last()) {
        Some(m) => m,
        None => 1,
    }
}

/// The number text of a trimmed bandwidth text.
pub open spec fn number_text(t: Seq<char>) -> Seq<char> {
    if unit_of(t.last()) is Some {
        t.drop_last()
    } else {
        t
    }
}

/// What a bandwidth text means in bits per second, if it is one.
pub open spec fn bandwidth_of(s: Seq<char>) -> Option<int> {
    let t = trimmed(s);
    if t.len() == 0 {
        None
    } else {
        match parsed_u64(number_text(t)) {
            Some(n) => Some(n * multiplier(t)),
            None => None,
        }
    }
}

fn unit(c: char) -> (r: Option<u64>)
    ensures
        r == unit_of(c),
{
    if c == 'G' || c == 'g' {
        Some(1_000_000_000)
    } else if c == 'M' || c == 'm' {
        Some(1_000_000)
    } else if c == 'K' || c == 'k' {
        Some(1_000)
    } else {
        None
    }
}

/// Parses a bandwidth with K/M/G suffix (in bits per second).
///
/// Examples: "100M" = 100 Mbps, "1G" = 1 Gbps, "500K" = 500 Kbps.
pub fn parse_bandwidth(s: &str) -> (r: Result<u64, BandwidthError>)
    ensures
        match r {
            Ok(b) => bandwidth_of(s@) == Some(b as int),
            Err(BandwidthError::Empty) => trimmed(s@).len() == 0,
            Err(BandwidthError::InvalidNumber(number)) => trimmed(s@).len() > 0 && parsed_u64(
                number_text(trimmed(s@)),
            ) is None && number@ == number_text(trimmed(s@)),
            Err(BandwidthError::TooLarge(text)) => (bandwidth_of(s@) matches Some(b) && b
                > u64::MAX) && text@ == trimmed(s@),
        },
{
    let chars: Vec<char> = chars_of(s);
    let (from, to) = trim_bounds(&chars);
    let ghost t = trimmed(s@);
    if from == to {
        return Err(BandwidthError::Empty);
    }
    assert(t.last() == chars@[to - 1]);
    let (end, factor): (usize, u64) = match unit(chars[to - 1]) {
        Some(m) => (to - 1, m),
        None => (to, 1),
    };
    assert(chars@.subrange(from as int, end as int) =~= number_text(t));
    match parse_u64(&chars, from, end) {
        Some(n) => match n.checked_mul(factor) {
            Some(b) => Ok(b),
            None => Err(BandwidthError::TooLarge(text_of(&chars, from, to))),
        },
        None => Err(BandwidthError::InvalidNumber(text_of(&chars, from, end))),
    }
}

proof fn lemma_trim_start(w: Seq<char>, core: Seq<char>)
    requires
        forall|i: int| 0 <= i < w.len() ==> is_white(#[trigger] w[i]),
        core.len() > 0,
        !is_white(core.first()),
    ensures
        trim_start(w + core) == core,
    decreases w.len(),
{
    if w.len() == 0 {
        assert(w + core =~= core);
    } else {
        assert((w + core).skip(1) =~= w.skip(1) + core);
        assert((w + core).first() == w[0]);
        lemma_trim_start(w.skip(1), core);
    }
}

proof fn lemma_trim_end(core: Seq<char>, w: Seq<char>)
    requires
        forall|i: int| 0 <= i < w.len() ==> is_white(#[trigger] w[i]),
        core.len() > 0,
        !is_white(core.last()),
    ensures
        trim_end(core + w) == core,
    decreases w.len(),
{
    if w.len() == 0 {
        assert(core + w =~= core);
    } else {
        assert((core + w).drop_last() =~= core + w.drop_last());
        assert((core + w).last() == w.last());
        lemma_trim_end(core, w.drop_last());
    }
}

/// Law: a number in decimal with a unit letter, or with none, and with any white space around it,
/// means that number of units.
pub proof fn law_bandwidth_notation(
    before: Seq<char>,
    n: u64,
    unit: Option<char>,
    after: Seq<char>,
)
    requires
        forall|i: int| 0 <= i < before.len() ==> is_white(#[trigger] before[i]),
        forall|i: int| 0 <= i < after.len() ==> is_white(#[trigger] after[i]),
        unit matches Some(c) ==> unit_of(c) is Some,
    ensures
        bandwidth_of(
            before + (match unit {
                Some(c) => decimal(n as nat).push(c),
                None => decimal(n as nat),
            }) + after,
        ) == Some(
            n * match unit {
                Some(c) => unit_of(c)->0,
                None => 1,
            },
        ),
{
    let d = decimal(n as nat);
    law_decimal_spells(n as nat);
    let core = match unit {
        Some(c) => d.push(c),
        None => d,
    };
    assert(core.first() == d[0]);
    assert(core.last() == match unit {
        Some(c) => c,
        None => d[d.len() - 1],
    });
    let all = before + core + after;
    assert(all =~= before + (core + after));
    assert((core + after).first() == core.first());
    lemma_trim_start(before, core + after);
    lemma_trim_end(core, after);
    assert(trimmed(all) == core);
    match unit {
        Some(c) => {
            assert(core.drop_last() =~= d);
        },
        None => {},
    }
    assert(number_text(core) == d);
    assert(unsigned_part(d) == d);
    assert(parsed_u64(d) == Some(n));
}

/// Law: a unit letter, in upper or lower case, stands for a thousand, a million or a thousand million
/// bits per second, and no other character is a unit. So a bandwidth with a unit is that many times
/// the bandwidth without one.
pub proof fn law_units_are_powers_of_a_thousand(n: u64, c: char)
    ensures
        bandwidth_of(decimal(n as nat)) == Some(n as int),
        c == 'K' || c == 'k' ==> bandwidth_of(decimal(n as nat).push(c)) == Some(n * 1000),
        c == 'M' || c == 'm' ==> bandwidth_of(decimal(n as nat).push(c)) == Some(n * 1_000_000),
        c == 'G' || c == 'g' ==> bandwidth_of(decimal(n as nat).push(c)) == Some(
            n * 1_000_000_000,
        ),
        unit_of(c) is Some <==> c == 'K' || c == 'k' || c == 'M' || c == 'm' || c == 'G' || c == 'g',
{
    let d = decimal(n as nat);
    let none = Seq::<char>::empty();
    law_bandwidth_notation(none, n, None, none);
    assert(none + d + none =~= d);
    if unit_of(c) is Some {
        law_bandwidth_notation(none, n, Some(c), none);
        assert(none + d.push(c) + none =~= d.push(c));
    }
}

/// Law: a bandwidth is nothing but a number, and a unit after it: a number followed by any other
/// character that is not a digit or white space is refused, and so is a unit without a number.
pub proof fn law_other_units_are_refused(n: u64, c: char)
    requires
        !is_white(c),
        !('0' <= c <= '9'),
    ensures
        c != 'K' && c != 'k' && c != 'M' && c != 'm' && c != 'G' && c != 'g' ==> bandwidth_of(
            decimal(n as nat).push(c),
        ) is None,
        bandwidth_of(seq![c]) is None,
        bandwidth_of(Seq::empty()) is None,
{
    let d = decimal(n as nat);
    law_decimal_spells(n as nat);
    let s = d.push(c);
    assert(is_digit(d[0]));
    assert(s[0] == d[0]);
    assert(!is_white(s.first()));
    assert(!is_white(s.last()));
    assert(trimmed(s) == s);
    if unit_of(c) is None {
        let u = unsigned_part(s);
        assert(u == s);
        assert(!is_digit(u[u.len() - 1]));
    }
    let one = seq![c];
    assert(trimmed(one) == one);
    if unit_of(c) is Some {
        assert(one.drop_last() =~= Seq::empty());
    } else {
        let u = unsigned_part(one);
        if c == '+' {
            assert(u.len() == 0);
        } else {
            assert(!is_digit(u[0]));
        }
    }
}

} // verus!
