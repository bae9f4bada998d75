//! Optional counters in one word: the greatest number stands for "not counted".

use vstd::prelude::*;

verus! {

/// What a counter word says: nothing for the greatest number, else the count.
pub open spec fn meaning(value: u64) -> Option<u64> {
    if value == u64::MAX {
        None
    } else {
        Some(value)
    }
}

/// The optional count that a counter word is written out as.
pub fn serialize(value: &u64) -> (r: Option<u64>)
    ensures
        r == meaning(*value),
{
    if *value == u64::MAX {
        None
    } else {
        Some(*value)
    }
}

/// The counter word for an optional count that was read.
pub fn deserialize(opt: Option<u64>) -> (r: u64)
    ensures
        r == match opt {
            Some(value) => value,
            None => u64::MAX,
        },
{
    match opt {
        Some(value) => value,
        None => u64::MAX,
    }
}

/// Law: every counter word that is written out and read back is unchanged, and so is every
/// optional count but the greatest number, which reads back as "not counted".
pub proof fn law_round_trip(value: u64, opt: Option<u64>)
    ensures
        (match meaning(value) {
            Some(v) => v,
            None => u64::MAX,
        }) == value,
        opt != Some(u64::MAX) ==> meaning(
            match opt {
                Some(v) => v,
                None => u64::MAX,
            },
        ) == opt,
        opt == Some(u64::MAX) ==> meaning(u64::MAX) is None,
{
}

} // verus!
