//! Big-endian integers in byte sequences.

use vstd::prelude::*;

verus! {

/// The four bytes of `x`, most significant first.
pub open spec fn be32(x: u32) -> Seq<u8> {
    seq![
        (x / 0x100_0000) as u8,
        (x / 0x1_0000 % 0x100) as u8,
        (x / 0x100 % 0x100) as u8,
        (x % 0x100) as u8,
    ]
}

/// The number that the bytes `s[at..at + 4]` spell, most significant first.
pub open spec fn be32_at(s: Seq<u8>, at: int) -> u32 {
    (s[at] * 0x100_0000 + s[at + 1] * 0x1_0000 + s[at + 2] * 0x100 + s[at + 3]) as u32
}

/// The eight bytes of `x`, most significant first.
pub open spec fn be64(x: u64) -> Seq<u8> {
    be32((x / 0x1_0000_0000) as u32) + be32((x % 0x1_0000_0000) as u32)
}

/// The number that the bytes `s[at..at + 8]` spell, most significant first.
pub open spec fn be64_at(s: Seq<u8>, at: int) -> u64 {
    (be32_at(s, at) * 0x1_0000_0000 + be32_at(s, at + 4)) as u64
}

/// Reading four bytes back gives the number that was written.
pub proof fn lemma_be32_round_trip(x: u32, s: Seq<u8>, at: int)
    requires
        0 <= at,
        at + 4 <= s.len(),
        s.subrange(at, at + 4) == be32(x),
    ensures
        be32_at(s, at) == x,
{
    let t = s.subrange(at, at + 4);
    assert(s[at] == t[0] && s[at + 1] == t[1] && s[at + 2] == t[2] && s[at + 3] == t[3]);
}

/// Reading eight bytes back gives the number that was written.
pub proof fn lemma_be64_round_trip(x: u64, s: Seq<u8>, at: int)
    requires
        0 <= at,
        at + 8 <= s.len(),
        s.subrange(at, at + 8) == be64(x),
    ensures
        be64_at(s, at) == x,
{
    let t = s.subrange(at, at + 8);
    let high = (x / 0x1_0000_0000) as u32;
    let low = (x % 0x1_0000_0000) as u32;
    assert(s.subrange(at, at + 4) =~= be32(high)) by {
        assert(s.subrange(at, at + 4) =~= t.subrange(0, 4));
        assert(t.subrange(0, 4) =~= be32(high));
    }
    assert(s.subrange(at + 4, at + 4 + 4) =~= be32(low)) by {
        assert(s.subrange(at + 4, at + 8) =~= t.subrange(4, 8));
        assert(t.subrange(4, 8) =~= be32(low));
    }
    lemma_be32_round_trip(high, s, at);
    lemma_be32_round_trip(low, s, at + 4);
}

/// Writing back what was read gives the bytes that were read.
pub proof fn lemma_be32_read_write(s: Seq<u8>, at: int)
    requires
        0 <= at,
        at + 4 <= s.len(),
    ensures
        be32(be32_at(s, at)) == s.subrange(at, at + 4),
{
    assert(be32(be32_at(s, at)) =~= s.subrange(at, at + 4));
}

/// The four bytes of a number, most significant first.
pub fn u32_to_be(x: u32) -> (r: [u8; 4])
    ensures
        r@ == be32(x),
{
    let r: [u8; 4] = [
        (x / 0x100_0000) as u8,
        (x / 0x1_0000 % 0x100) as u8,
        (x / 0x100 % 0x100) as u8,
        (x % 0x100) as u8,
    ];
    assert(r@ =~= be32(x));
    r
}

/// The number that four bytes of a buffer spell, most significant first.
pub fn u32_from_be(bytes: &[u8], at: usize) -> (x: u32)
    requires
        at + 4 <= bytes@.len(),
    ensures
        x == be32_at(bytes@, at as int),
{
    bytes[at] as u32 * 0x100_0000 + bytes[at + 1] as u32 * 0x1_0000 + bytes[at + 2] as u32 * 0x100
        + bytes[at + 3] as u32
}

/// The number that eight bytes of a buffer spell, most significant first.
pub fn u64_from_be(bytes: &[u8], at: usize) -> (x: u64)
    requires
        at + 8 <= bytes@.len(),
    ensures
        x == be64_at(bytes@, at as int),
{
    assert(at + 8 <= bytes.len());
    let high: u32 = u32_from_be(bytes, at);
    let low: u32 = u32_from_be(bytes, at + 4);
    high as u64 * 0x1_0000_0000 + low as u64
}

/// Law: numbers are written with their most significant byte first: each byte counts as much as all
/// that follow it, two hundred and fifty-six times over.
pub proof fn law_most_significant_first(x: u32, y: u64)
    ensures
        be32(x).len() == 4,
        ((be32(x)[0] * 256 + be32(x)[1]) * 256 + be32(x)[2]) * 256 + be32(x)[3] == x,
        be64(y).len() == 8,
        (((((((be64(y)[0] * 256 + be64(y)[1]) * 256 + be64(y)[2]) * 256 + be64(y)[3]) * 256 + be64(
            y,
        )[4]) * 256 + be64(y)[5]) * 256 + be64(y)[6]) * 256 + be64(y)[7]) == y,
{
}

/// Law: numbers are read with their most significant byte first.
pub proof fn law_most_significant_read_first(s: Seq<u8>, at: int)
    requires
        0 <= at,
        at + 8 <= s.len(),
    ensures
        be32_at(s, at) == ((s[at] * 256 + s[at + 1]) * 256 + s[at + 2]) * 256 + s[at + 3],
        be64_at(s, at) == be32_at(s, at) * 0x1_0000_0000 + be32_at(s, at + 4),
{
}

} // verus!
