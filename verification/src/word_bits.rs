use vstd::prelude::*;
use vstd::std_specs::bits::{u64_leading_zeros, u64_trailing_zeros};

verus! {

/// The number of leading zeros of a machine word: those of the same value as a
/// 64-bit word, less the 64 - BITS high bits that a narrower word lacks.
pub open spec fn usize_leading_zeros(x: usize) -> int {
    u64_leading_zeros(x as u64) - (64 - usize::BITS)
}

/// The number of trailing zeros of a machine word; a zero word has BITS.
pub open spec fn usize_trailing_zeros(x: usize) -> int {
    if x == 0 {
        usize::BITS as int
    } else {
        u64_trailing_zeros(x as u64) as int
    }
}

/// `usize::leading_zeros` counts the zero bits above the highest set bit.
pub assume_specification[ usize::leading_zeros ](x: usize) -> (r: u32)
    ensures
        r == usize_leading_zeros(x),
;

/// `usize::trailing_zeros` counts the zero bits below the lowest set bit.
pub assume_specification[ usize::trailing_zeros ](x: usize) -> (r: u32)
    ensures
        r == usize_trailing_zeros(x),
;

} // verus!
