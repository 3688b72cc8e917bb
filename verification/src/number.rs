//! Comparing a number that is held as the bits of its 64-bit
//! floating-point form with a whole number, in whole-number arithmetic.
//!
//! The bits are a sign, an exponent field of eleven bits and a fraction of
//! fifty-two bits. A finite number is its significand, a whole number below
//! 2^53, times a power of two.

use vstd::prelude::*;
use vstd::arithmetic::power2::{
    lemma2_to64, lemma2_to64_rest, lemma_pow2_strictly_increases, lemma_pow2_unfold, pow2,
};

verus! {

/// Two to the power of 52: the place of the lowest bit of the exponent
/// field, and the bit that a normal number's significand has above its
/// fraction.
pub const FRACTION_UNIT: u64 = 0x10_0000_0000_0000;

/// Two to the power of 63: the place of the sign.
pub const SIGN_UNIT: u64 = 0x8000_0000_0000_0000;

/// The exponent field of infinities and of values that are no number.
pub const EXPONENT_SPECIAL: u64 = 2047;

/// The exponent field of the numbers whose significand counts ones.
pub const EXPONENT_OF_ONES: u64 = 1075;

/// Whether the sign is set.
pub open spec fn real_is_negative(bits: u64) -> bool {
    bits >= SIGN_UNIT
}

/// The exponent field.
pub open spec fn real_exponent(bits: u64) -> nat {
    ((bits / FRACTION_UNIT) % 2048) as nat
}

/// The fraction field.
pub open spec fn real_fraction(bits: u64) -> nat {
    (bits % FRACTION_UNIT) as nat
}

/// The significand of a finite number: the fraction, with one more bit
/// above it unless the exponent field is zero.
pub open spec fn real_significand(bits: u64) -> nat {
    if real_exponent(bits) == 0 {
        real_fraction(bits)
    } else {
        FRACTION_UNIT as nat + real_fraction(bits)
    }
}

/// The power of two that the significand of a finite number is multiplied
/// by; below zero, the significand is divided.
pub open spec fn real_scale(bits: u64) -> int {
    if real_exponent(bits) == 0 {
        1 - EXPONENT_OF_ONES
    } else {
        real_exponent(bits) - EXPONENT_OF_ONES
    }
}

/// Whether the number that `bits` hold is greater than `cap`. Nothing
/// negative is; positive infinity is; a value that is no number is not.
/// A finite number that is not negative is greater than `cap` exactly when
/// its significand times its power of two is.
pub open spec fn real_exceeds(bits: u64, cap: u64) -> bool {
    if real_is_negative(bits) {
        false
    } else if real_exponent(bits) == EXPONENT_SPECIAL {
        real_fraction(bits) == 0
    } else if real_scale(bits) >= 0 {
        real_significand(bits) * pow2(real_scale(bits) as nat) > cap
    } else {
        real_significand(bits) > cap * pow2((-real_scale(bits)) as nat)
    }
}

/// Two to the power of `e`.
fn power_of_two(e: u64) -> (p: u64)
    requires
        e < 64,
    ensures
        p == pow2(e as nat),
{
    let mut p: u64 = 1;
    let mut i: u64 = 0;
    proof {
        lemma2_to64();
    }
    while i < e
        invariant
            i <= e < 64,
            p == pow2(i as nat),
        decreases e - i,
    {
        proof {
            lemma_pow2_unfold((i + 1) as nat);
            lemma_pow2_strictly_increases((i + 1) as nat, 64);
            lemma2_to64();
        }
        p = p * 2;
        i += 1;
    }
    p
}

/// Decides whether the number that `bits` hold is greater than `cap`.
pub fn real_is_over(bits: u64, cap: u64) -> (r: bool)
    ensures
        r == real_exceeds(bits, cap),
{
    if bits >= SIGN_UNIT {
        return false;
    }
    let exponent: u64 = (bits / FRACTION_UNIT) % 2048;
    let fraction: u64 = bits % FRACTION_UNIT;
    if exponent == EXPONENT_SPECIAL {
        return fraction == 0;
    }
    let significand: u64 = if exponent == 0 {
        fraction
    } else {
        FRACTION_UNIT + fraction
    };
    let field: u64 = if exponent == 0 {
        1
    } else {
        exponent
    };
    proof {
        lemma2_to64();
        lemma2_to64_rest();
    }
    if field >= EXPONENT_OF_ONES {
        let up: u64 = field - EXPONENT_OF_ONES;
        assert(significand >= FRACTION_UNIT);
        if up >= 12 {
            proof {
                if up > 12 {
                    lemma_pow2_strictly_increases(12, up as nat);
                }
                assert(pow2(up as nat) >= 0x1000);
                assert(significand * pow2(up as nat) >= 0x10_0000_0000_0000 * 0x1000)
                    by (nonlinear_arith)
                    requires
                        significand >= 0x10_0000_0000_0000,
                        pow2(up as nat) >= 0x1000,
                ;
            }
            return true;
        }
        let unit: u64 = power_of_two(up);
        proof {
            if up < 11 {
                lemma_pow2_strictly_increases(up as nat, 11);
            }
            assert(unit <= 0x800);
            assert(significand * unit <= 0x1f_ffff_ffff_ffff * 0x800) by (nonlinear_arith)
                requires
                    significand <= 0x1f_ffff_ffff_ffff,
                    unit <= 0x800,
            ;
        }
        significand * unit > cap
    } else {
        let down: u64 = EXPONENT_OF_ONES - field;
        if down >= 53 {
            proof {
                if down > 53 {
                    lemma_pow2_strictly_increases(53, down as nat);
                }
                assert(pow2(down as nat) >= 0x20_0000_0000_0000);
                if cap > 0 {
                    assert(cap * pow2(down as nat) >= 0x20_0000_0000_0000) by (nonlinear_arith)
                        requires
                            cap >= 1,
                            pow2(down as nat) >= 0x20_0000_0000_0000,
                    ;
                } else {
                    assert(cap * pow2(down as nat) == 0) by (nonlinear_arith)
                        requires
                            cap == 0,
                    ;
                }
            }
            return cap == 0 && significand > 0;
        }
        let unit: u64 = power_of_two(down);
        proof {
            if down < 52 {
                lemma_pow2_strictly_increases(down as nat, 52);
            }
            assert(unit <= 0x10_0000_0000_0000);
            assert(cap * unit <= 0xffff_ffff_ffff_ffff * 0x10_0000_0000_0000) by (nonlinear_arith)
                requires
                    cap <= 0xffff_ffff_ffff_ffff,
                    unit <= 0x10_0000_0000_0000,
            ;
        }
        (significand as u128) > (cap as u128) * (unit as u128)
    }
}

} // verus!
