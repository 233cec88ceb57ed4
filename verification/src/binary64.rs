//! Amounts, rates and coordinates are IEEE-754 binary64 numbers. The library
//! carries each one as its 64-bit pattern (the value `to_bits` gives), so that
//! nothing is lost, and orders them as IEEE-754 does.

use vstd::prelude::*;

verus! {

/// The bit pattern of an IEEE-754 binary64 number.
pub type Binary64 = u64;

/// The sign bit of a binary64 pattern.
pub const SIGN_BIT: u64 = 0x8000_0000_0000_0000;

/// The pattern of positive infinity; magnitudes above it are NaNs.
pub const INFINITY_BITS: u64 = 0x7ff0_0000_0000_0000;

/// The magnitude part (all bits but the sign) of a pattern.
pub open spec fn magnitude(b: Binary64) -> int {
    if b >= SIGN_BIT { b - SIGN_BIT } else { b as int }
}

/// Whether the pattern is a NaN: all exponent bits set and a non-zero fraction.
pub open spec fn is_nan(b: Binary64) -> bool {
    magnitude(b) > INFINITY_BITS
}

/// The position of a non-NaN pattern on the number line. For binary64, the
/// order of magnitudes as integers is the order of absolute values, and
/// both zeros get rank 0.
pub open spec fn rank(b: Binary64) -> int {
    if b >= SIGN_BIT { -magnitude(b) } else { magnitude(b) }
}

/// IEEE-754 `a <= b`: false whenever either side is a NaN.
pub open spec fn binary64_le(a: Binary64, b: Binary64) -> bool {
    !is_nan(a) && !is_nan(b) && rank(a) <= rank(b)
}

/// IEEE-754 `a < b`: false whenever either side is a NaN.
pub open spec fn binary64_lt(a: Binary64, b: Binary64) -> bool {
    !is_nan(a) && !is_nan(b) && rank(a) < rank(b)
}

/// IEEE-754 `a <= b`, on bit patterns.
pub fn le(a: Binary64, b: Binary64) -> (r: bool)
    ensures
        r == binary64_le(a, b),
{
    let ma: u64 = if a >= SIGN_BIT { a - SIGN_BIT } else { a };
    let mb: u64 = if b >= SIGN_BIT { b - SIGN_BIT } else { b };
    if ma > INFINITY_BITS || mb > INFINITY_BITS {
        return false;
    }
    let a_neg = a >= SIGN_BIT;
    let b_neg = b >= SIGN_BIT;
    if a_neg && b_neg {
        mb <= ma
    } else if a_neg {
        true
    } else if b_neg {
        ma == 0 && mb == 0
    } else {
        ma <= mb
    }
}

/// IEEE-754 `a < b`, on bit patterns.
pub fn lt(a: Binary64, b: Binary64) -> (r: bool)
    ensures
        r == binary64_lt(a, b),
{
    let ma: u64 = if a >= SIGN_BIT { a - SIGN_BIT } else { a };
    let mb: u64 = if b >= SIGN_BIT { b - SIGN_BIT } else { b };
    if ma > INFINITY_BITS || mb > INFINITY_BITS {
        return false;
    }
    let a_neg = a >= SIGN_BIT;
    let b_neg = b >= SIGN_BIT;
    if a_neg && b_neg {
        mb < ma
    } else if a_neg {
        ma != 0 || mb != 0
    } else if b_neg {
        false
    } else {
        ma < mb
    }
}

} // verus!
