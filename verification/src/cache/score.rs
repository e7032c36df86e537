//! Scores of sorted sets, and the ranks by which they are ordered.
//!
//! A score is a floating-point number, given by its IEEE 754 binary64 bits: the sign is
//! the top bit, the magnitude the rest. Its rank is an integer that orders alike.

use vstd::prelude::*;

verus! {

/// The sign bit.
pub const SIGN: u64 = 0x8000_0000_0000_0000;

/// The magnitude of the infinities; what is greater is not a number.
pub const INFINITY: u64 = 0x7ff0_0000_0000_0000;

/// The magnitude that stands for all that is not a number.
pub const QUIET_NAN: u64 = 0x7ff8_0000_0000_0000;

/// The magnitude with the sign: it orders numbers as their values do.
pub open spec fn signed_magnitude(bits: u64) -> int {
    if bits < SIGN {
        bits as int
    } else {
        SIGN - bits
    }
}

/// Whether the bits are not a number.
pub open spec fn is_nan(bits: u64) -> bool {
    signed_magnitude(bits) > INFINITY || signed_magnitude(bits) < -INFINITY
}

/// The rank of a score: it grows with the number; the zeros have the same rank, and
/// what is not a number has one rank above all others.
pub open spec fn rank(bits: u64) -> u64 {
    (SIGN + if is_nan(bits) {
        QUIET_NAN as int
    } else {
        signed_magnitude(bits)
    }) as u64
}

/// The rank of the score that has these bits.
pub fn rank_of(bits: u64) -> (found: u64)
    ensures
        found == rank(bits),
{
    if bits < SIGN {
        if bits > INFINITY {
            SIGN + QUIET_NAN
        } else {
            SIGN + bits
        }
    } else {
        let magnitude = bits - SIGN;
        if magnitude > INFINITY {
            SIGN + QUIET_NAN
        } else {
            SIGN - magnitude
        }
    }
}

/// Ranks order numbers as their values do; the zeros are equal, and what is not a number
/// is equal to itself and greater than every number.
pub proof fn law_ranks_order_numbers(a: u64, b: u64)
    ensures
        !is_nan(a) && !is_nan(b) ==> (rank(a) < rank(b) <==> signed_magnitude(a)
            < signed_magnitude(b)),
        !is_nan(a) && is_nan(b) ==> rank(a) < rank(b),
        is_nan(a) && is_nan(b) ==> rank(a) == rank(b),
        rank(0) == rank(SIGN),
{
}

/// Over the bits: of two numbers without the sign bit the one with the greater bits ranks
/// higher, of two with it the one with the lesser bits; a number with it ranks no higher
/// than one without it, and the same only where both are zero; bits beyond those of the
/// infinities rank above all numbers, and all the same.
pub proof fn law_ranks_over_the_bits(a: u64, b: u64)
    ensures
        a < b && b <= 0x7ff0_0000_0000_0000 ==> rank(a) < rank(b),
        0x8000_0000_0000_0000 <= a < b && b <= 0xfff0_0000_0000_0000 ==> rank(b) < rank(a),
        0x8000_0000_0000_0000 <= a <= 0xfff0_0000_0000_0000 && b <= 0x7ff0_0000_0000_0000 ==> (
        if a == 0x8000_0000_0000_0000 && b == 0 {
            rank(a) == rank(b)
        } else {
            rank(a) < rank(b)
        }),
        (0x7ff0_0000_0000_0000 < b < 0x8000_0000_0000_0000 || b > 0xfff0_0000_0000_0000) ==> (
        if 0x7ff0_0000_0000_0000 < a < 0x8000_0000_0000_0000 || a > 0xfff0_0000_0000_0000 {
            rank(a) == rank(b)
        } else {
            rank(a) < rank(b)
        }),
{
}

} // verus!
