//! Comparison of floating-point values by their IEEE 754 bit patterns.
//!
//! The engine never holds a float: a 64-bit column carries `u64` bit
//! patterns, a 32-bit column `u32` ones. Comparing two values is pure bit
//! logic on the patterns — sign, magnitude, and the NaN encodings — written
//! out here and verified, with the partial order the formats define: every
//! comparison against a NaN is unordered, and the two zeros are equal.

use vstd::prelude::*;

verus! {

/// How two values stand to one another. `Unordered` is a comparison against
/// a NaN: no ordered operator holds of it, and only `!=` does.
#[derive(Clone, Copy, Debug, PartialEq, Eq, Structural)]
pub enum CmpOutcome {
    Less,
    Equal,
    Greater,
    Unordered,
}

/// The sign bit of a 64-bit pattern.
pub open spec fn f64_sign(a: u64) -> bool {
    a & 0x8000_0000_0000_0000 != 0
}

/// The magnitude bits of a 64-bit pattern: everything but the sign.
pub open spec fn f64_mag(a: u64) -> u64 {
    a & 0x7FFF_FFFF_FFFF_FFFF
}

/// A 64-bit NaN: exponent all ones, fraction not zero.
pub open spec fn f64_is_nan(a: u64) -> bool {
    a & 0x7FF0_0000_0000_0000 == 0x7FF0_0000_0000_0000 && a & 0x000F_FFFF_FFFF_FFFF != 0
}

/// A 64-bit zero of either sign.
pub open spec fn f64_is_zero(a: u64) -> bool {
    f64_mag(a) == 0
}

/// Where the doubles behind two 64-bit patterns stand to one another.
///
/// For finite values and infinities the magnitude bits order exactly as the
/// values do, reversed on the negative side; the two zeros are equal; a NaN
/// on either side is unordered.
pub open spec fn f64_cmp_bits(a: u64, b: u64) -> CmpOutcome {
    if f64_is_nan(a) || f64_is_nan(b) {
        CmpOutcome::Unordered
    } else if f64_is_zero(a) && f64_is_zero(b) {
        CmpOutcome::Equal
    } else if f64_sign(a) != f64_sign(b) {
        if f64_sign(a) {
            CmpOutcome::Less
        } else {
            CmpOutcome::Greater
        }
    } else if f64_sign(a) {
        if f64_mag(a) == f64_mag(b) {
            CmpOutcome::Equal
        } else if f64_mag(a) > f64_mag(b) {
            CmpOutcome::Less
        } else {
            CmpOutcome::Greater
        }
    } else {
        if f64_mag(a) == f64_mag(b) {
            CmpOutcome::Equal
        } else if f64_mag(a) < f64_mag(b) {
            CmpOutcome::Less
        } else {
            CmpOutcome::Greater
        }
    }
}

/// Compares two doubles given as their bit patterns.
pub fn cmp_f64_bits(a: u64, b: u64) -> (r: CmpOutcome)
    ensures
        r == f64_cmp_bits(a, b),
{
    let a_nan = a & 0x7FF0_0000_0000_0000 == 0x7FF0_0000_0000_0000 && a & 0x000F_FFFF_FFFF_FFFF
        != 0;
    let b_nan = b & 0x7FF0_0000_0000_0000 == 0x7FF0_0000_0000_0000 && b & 0x000F_FFFF_FFFF_FFFF
        != 0;
    if a_nan || b_nan {
        return CmpOutcome::Unordered;
    }
    let a_mag = a & 0x7FFF_FFFF_FFFF_FFFF;
    let b_mag = b & 0x7FFF_FFFF_FFFF_FFFF;
    if a_mag == 0 && b_mag == 0 {
        return CmpOutcome::Equal;
    }
    let a_neg = a & 0x8000_0000_0000_0000 != 0;
    let b_neg = b & 0x8000_0000_0000_0000 != 0;
    if a_neg != b_neg {
        if a_neg {
            CmpOutcome::Less
        } else {
            CmpOutcome::Greater
        }
    } else if a_mag == b_mag {
        CmpOutcome::Equal
    } else if a_neg {
        if a_mag > b_mag {
            CmpOutcome::Less
        } else {
            CmpOutcome::Greater
        }
    } else {
        if a_mag < b_mag {
            CmpOutcome::Less
        } else {
            CmpOutcome::Greater
        }
    }
}

/// The sign bit of a 32-bit pattern.
pub open spec fn f32_sign(a: u32) -> bool {
    a & 0x8000_0000 != 0
}

/// The magnitude bits of a 32-bit pattern: everything but the sign.
pub open spec fn f32_mag(a: u32) -> u32 {
    a & 0x7FFF_FFFF
}

/// A 32-bit NaN: exponent all ones, fraction not zero.
pub open spec fn f32_is_nan(a: u32) -> bool {
    a & 0x7F80_0000 == 0x7F80_0000 && a & 0x007F_FFFF != 0
}

/// A 32-bit zero of either sign.
pub open spec fn f32_is_zero(a: u32) -> bool {
    f32_mag(a) == 0
}

/// Where the single-precision values behind two 32-bit patterns stand to one
/// another; the order mirrors the 64-bit one.
pub open spec fn f32_cmp_bits(a: u32, b: u32) -> CmpOutcome {
    if f32_is_nan(a) || f32_is_nan(b) {
        CmpOutcome::Unordered
    } else if f32_is_zero(a) && f32_is_zero(b) {
        CmpOutcome::Equal
    } else if f32_sign(a) != f32_sign(b) {
        if f32_sign(a) {
            CmpOutcome::Less
        } else {
            CmpOutcome::Greater
        }
    } else if f32_sign(a) {
        if f32_mag(a) == f32_mag(b) {
            CmpOutcome::Equal
        } else if f32_mag(a) > f32_mag(b) {
            CmpOutcome::Less
        } else {
            CmpOutcome::Greater
        }
    } else {
        if f32_mag(a) == f32_mag(b) {
            CmpOutcome::Equal
        } else if f32_mag(a) < f32_mag(b) {
            CmpOutcome::Less
        } else {
            CmpOutcome::Greater
        }
    }
}

/// Compares two single-precision values given as their bit patterns.
pub fn cmp_f32_bits(a: u32, b: u32) -> (r: CmpOutcome)
    ensures
        r == f32_cmp_bits(a, b),
{
    let a_nan = a & 0x7F80_0000 == 0x7F80_0000 && a & 0x007F_FFFF != 0;
    let b_nan = b & 0x7F80_0000 == 0x7F80_0000 && b & 0x007F_FFFF != 0;
    if a_nan || b_nan {
        return CmpOutcome::Unordered;
    }
    let a_mag = a & 0x7FFF_FFFF;
    let b_mag = b & 0x7FFF_FFFF;
    if a_mag == 0 && b_mag == 0 {
        return CmpOutcome::Equal;
    }
    let a_neg = a & 0x8000_0000 != 0;
    let b_neg = b & 0x8000_0000 != 0;
    if a_neg != b_neg {
        if a_neg {
            CmpOutcome::Less
        } else {
            CmpOutcome::Greater
        }
    } else if a_mag == b_mag {
        CmpOutcome::Equal
    } else if a_neg {
        if a_mag > b_mag {
            CmpOutcome::Less
        } else {
            CmpOutcome::Greater
        }
    } else {
        if a_mag < b_mag {
            CmpOutcome::Less
        } else {
            CmpOutcome::Greater
        }
    }
}

/// The integer ordering, said in the same vocabulary as the bit-pattern one;
/// integers always order.
pub open spec fn int_cmp(a: int, b: int) -> CmpOutcome {
    if a < b {
        CmpOutcome::Less
    } else if a == b {
        CmpOutcome::Equal
    } else {
        CmpOutcome::Greater
    }
}

} // verus!
