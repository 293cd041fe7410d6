//! Single-precision numbers as their encodings.
//!
//! Amounts that arrive as single-precision numbers are taken here as the 32
//! bits that encode them, and compared as such.  This module says which
//! number an encoding stands for, and proves that the encodings the camera
//! looks for stand for the numbers they are named after.

use vstd::prelude::*;
use vstd::arithmetic::mul::{
    lemma_mul_equality_converse,
    lemma_mul_inequality,
    lemma_mul_strict_inequality,
};
use vstd::arithmetic::power2::{
    lemma2_to64,
    lemma_pow2_adds,
    lemma_pow2_pos,
    lemma_pow2_strictly_increases,
    pow2,
};

verus! {

/// The encoding of `1.0`.
pub const ONE: u32 = 0x3F80_0000;

/// The encoding of `-1.0`.
pub const MINUS_ONE: u32 = 0xBF80_0000;

/// The encoded number is negative, or a negative zero.
pub open spec fn sign_bit(bits: u32) -> bool {
    bits >> 31 == 1
}

/// The eight bits of the exponent.
pub open spec fn exponent_field(bits: u32) -> nat {
    ((bits >> 23) & 0xFF) as nat
}

/// The twenty-three bits of the fraction.
pub open spec fn fraction_field(bits: u32) -> nat {
    (bits & 0x7F_FFFF) as nat
}

/// The encoding stands for a number, not for an infinity or a NaN.
pub open spec fn is_number(bits: u32) -> bool {
    exponent_field(bits) != 255
}

/// The significand: the fraction, below a leading one unless the number is
/// subnormal.
pub open spec fn significand(bits: u32) -> nat {
    if exponent_field(bits) == 0 {
        fraction_field(bits)
    } else {
        0x80_0000 + fraction_field(bits)
    }
}

/// The power of two that scales the significand, counted from the smallest
/// one, two to the power of -149.
pub open spec fn scale(bits: u32) -> nat {
    if exponent_field(bits) == 0 {
        0
    } else {
        (exponent_field(bits) - 1) as nat
    }
}

/// `bits` stands for the whole number `value`: its significand times its
/// power of two, with its sign, is `value`.
pub open spec fn encodes(bits: u32, value: int) -> bool {
    &&& is_number(bits)
    &&& (if sign_bit(bits) {
        -1
    } else {
        1int
    }) * (significand(bits) * pow2(scale(bits))) == value * pow2(149)
}

proof fn lemma_fields(bits: u32)
    ensures
        exponent_field(bits) < 256,
        fraction_field(bits) < 0x80_0000,
        !sign_bit(bits) && exponent_field(bits) == 127 && fraction_field(bits) == 0 <==> bits
            == ONE,
        sign_bit(bits) && exponent_field(bits) == 127 && fraction_field(bits) == 0 <==> bits
            == MINUS_ONE,
{
    assert(((bits >> 23) & 0xFF) < 256 && (bits & 0x7F_FFFF) < 0x80_0000) by (bit_vector);
    assert((bits >> 31 != 1 && (bits >> 23) & 0xFF == 127 && bits & 0x7F_FFFF == 0) <==> bits
        == 0x3F80_0000u32) by (bit_vector);
    assert((bits >> 31 == 1 && (bits >> 23) & 0xFF == 127 && bits & 0x7F_FFFF == 0) <==> bits
        == 0xBF80_0000u32) by (bit_vector);
}

/// A significand times its power of two is two to the power of 149 only
/// where the significand is a lone leading one and the power is the 126th.
proof fn lemma_magnitude_one(bits: u32)
    ensures
        significand(bits) * pow2(scale(bits)) == pow2(149) <==> exponent_field(bits) == 127
            && fraction_field(bits) == 0,
{
    lemma_fields(bits);
    lemma2_to64();
    let s = significand(bits) as int;
    let k = scale(bits);
    lemma_pow2_pos(k);
    lemma_pow2_pos(149);
    lemma_pow2_adds(23, 126);
    if exponent_field(bits) == 0 {
        assert(pow2(0) == 1);
        lemma_pow2_strictly_increases(23, 149);
        assert(s * pow2(k) == s) by (nonlinear_arith)
            requires
                pow2(k) == 1,
        ;
    } else if k < 126 {
        lemma_pow2_adds(24, k);
        if 24 + k < 149 {
            lemma_pow2_strictly_increases(24 + k, 149);
        }
        lemma_mul_strict_inequality(s, pow2(24) as int, pow2(k) as int);
    } else if k > 126 {
        lemma_pow2_adds(23, k);
        lemma_pow2_strictly_increases(149, 23 + k);
        lemma_mul_inequality(pow2(23) as int, s, pow2(k) as int);
    } else {
        if s * pow2(126) == pow2(149) {
            assert(pow2(126) * s == pow2(126) * pow2(23)) by (nonlinear_arith)
                requires
                    s * pow2(126) == pow2(149),
                    pow2(23) * pow2(126) == pow2(149),
            ;
            lemma_mul_equality_converse(pow2(126) as int, s, pow2(23) as int);
        }
    }
}

/// Among all encodings, `ONE` alone stands for the number one and
/// `MINUS_ONE` alone for minus one.
pub proof fn lemma_unit_encodings(bits: u32)
    ensures
        encodes(bits, 1) <==> bits == ONE,
        encodes(bits, -1) <==> bits == MINUS_ONE,
{
    lemma_fields(bits);
    lemma_magnitude_one(bits);
    lemma_pow2_pos(149);
    lemma_pow2_pos(scale(bits));
    let magnitude = significand(bits) * pow2(scale(bits));
    assert(magnitude >= 0) by (nonlinear_arith)
        requires
            magnitude == significand(bits) * pow2(scale(bits)),
    ;
    assert(1 * magnitude == magnitude && -1 * magnitude == -magnitude && 1 * pow2(149) == pow2(
        149,
    ) && -1 * pow2(149) == -pow2(149)) by (nonlinear_arith);
}

} // verus!
