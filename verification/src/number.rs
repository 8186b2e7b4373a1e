//! Single-precision numbers, by their bits.
use vstd::prelude::*;

verus! {

/// Whether a number is neither infinite nor not a number: its exponent is not
/// all ones.
pub open spec fn finite(bits: u32) -> bool {
    bits as int % 0x8000_0000 < 0x7f80_0000
}

/// Whether a number is finite and above zero.
pub open spec fn usable_factor(bits: u32) -> bool {
    0 < bits < 0x7f80_0000
}

/// Whether all numbers are finite.
pub open spec fn all_finite(bits: Seq<u32>) -> bool {
    forall|i: int| 0 <= i < bits.len() ==> finite(#[trigger] bits[i])
}

/// Whether a number is finite.
pub fn is_finite(bits: u32) -> (r: bool)
    ensures
        r == finite(bits),
{
    bits % 0x8000_0000 < 0x7f80_0000
}

/// Whether a number is finite and above zero.
pub fn is_usable_factor(bits: u32) -> (r: bool)
    ensures
        r == usable_factor(bits),
{
    0 < bits && bits < 0x7f80_0000
}

/// Whether all numbers are finite.
pub fn are_finite(bits: &[u32]) -> (r: bool)
    ensures
        r == all_finite(bits@),
{
    for i in 0..bits.len()
        invariant
            forall|j: int| 0 <= j < i ==> finite(#[trigger] bits@[j]),
    {
        if !is_finite(bits[i]) {
            return false;
        }
    }
    true
}

} // verus!
