//! IEEE 754 single precision as bit patterns.
//!
//! A pattern is a `u32`: one sign bit, eight exponent bits, twenty-three
//! fraction bits. What a finite pattern stands for is given as an integer:
//! its value in units of 2^-149, the smallest positive number of the format.

use vstd::prelude::*;
use vstd::arithmetic::power2::{
    lemma2_to64,
    lemma_pow2_adds,
    lemma_pow2_pos,
    lemma_pow2_strictly_increases,
    lemma_pow2_unfold,
    pow2,
};

verus! {

/// The pattern with only the sign bit set: negative zero.
pub const SIGN_BIT: u32 = 0x8000_0000;

/// The weight of the leading bit of a normal number's significand, 2^23.
pub const HIDDEN_BIT: u32 = 0x0080_0000;

/// The pattern of 1.0.
pub const ONE: u32 = 0x3F80_0000;

/// The pattern of -1.0.
pub const MINUS_ONE: u32 = 0xBF80_0000;

/// Whether the sign bit of `bits` is set.
pub open spec fn is_negative(bits: u32) -> bool {
    bits >= SIGN_BIT
}

/// The exponent field of `bits`, from 0 to 255.
pub open spec fn exponent_field(bits: u32) -> int {
    (bits as int / 0x0080_0000) % 0x100
}

/// The fraction field of `bits`, below 2^23.
pub open spec fn fraction_field(bits: u32) -> int {
    bits as int % 0x0080_0000
}

/// Whether `bits` stands for a number: neither an infinity nor a NaN.
pub open spec fn is_finite(bits: u32) -> bool {
    exponent_field(bits) != 0xFF
}

/// The absolute value of what a finite `bits` stands for, in units of 2^-149.
pub open spec fn scaled_magnitude(bits: u32) -> int {
    if exponent_field(bits) == 0 {
        fraction_field(bits)
    } else {
        (0x0080_0000 + fraction_field(bits)) * pow2((exponent_field(bits) - 1) as nat)
    }
}

/// What a finite `bits` stands for, in units of 2^-149.
pub open spec fn scaled_value(bits: u32) -> int {
    if is_negative(bits) {
        -scaled_magnitude(bits)
    } else {
        scaled_magnitude(bits)
    }
}

/// The pattern of the normal number with the given sign, exponent field and
/// significand: `significand * 2^(exponent - 150)`, negated where `negative`.
pub open spec fn normal_pattern(negative: bool, exponent: int, significand: int) -> u32
    recommends
        1 <= exponent <= 254,
        0x0080_0000 <= significand < 0x0100_0000,
{
    ((if negative {
        0x8000_0000int
    } else {
        0int
    }) + exponent * 0x0080_0000 + (significand - 0x0080_0000)) as u32
}

/// The fields and the value of a normal pattern are those it was made from.
pub proof fn lemma_normal_pattern(negative: bool, exponent: int, significand: int)
    requires
        1 <= exponent <= 254,
        0x0080_0000 <= significand < 0x0100_0000,
    ensures
        is_negative(normal_pattern(negative, exponent, significand)) == negative,
        exponent_field(normal_pattern(negative, exponent, significand)) == exponent,
        fraction_field(normal_pattern(negative, exponent, significand)) == significand
            - 0x0080_0000,
        is_finite(normal_pattern(negative, exponent, significand)),
        scaled_magnitude(normal_pattern(negative, exponent, significand)) == significand * pow2(
            (exponent - 1) as nat,
        ),
{
}

/// Puts a normal pattern together.
pub fn pack_normal(negative: bool, exponent: u32, significand: u32) -> (bits: u32)
    requires
        1 <= exponent <= 254,
        0x0080_0000 <= significand < 0x0100_0000,
    ensures
        bits == normal_pattern(negative, exponent as int, significand as int),
{
    let sign: u32 = if negative {
        SIGN_BIT
    } else {
        0
    };
    sign + exponent * HIDDEN_BIT + (significand - HIDDEN_BIT)
}

/// A pattern is its three fields put together.
pub proof fn lemma_fields_make_pattern(bits: u32)
    ensures
        0 <= exponent_field(bits) <= 0xFF,
        0 <= fraction_field(bits) < 0x0080_0000,
        bits == (if is_negative(bits) {
            0x8000_0000int
        } else {
            0int
        }) + exponent_field(bits) * 0x0080_0000 + fraction_field(bits),
{
}

/// The magnitude of a finite pattern lies in the binade that its exponent
/// field names: below 2^23 units for a subnormal, and from `2^(22 + e)` up to
/// but not including `2^(23 + e)` for a normal number with exponent field `e`.
pub proof fn lemma_magnitude_bounds(bits: u32)
    ensures
        0 <= scaled_magnitude(bits),
        exponent_field(bits) == 0 ==> scaled_magnitude(bits) < 0x0080_0000,
        exponent_field(bits) != 0 ==> 0x0080_0000 * pow2((exponent_field(bits) - 1) as nat)
            <= scaled_magnitude(bits) < 0x0080_0000 * pow2(exponent_field(bits) as nat),
        scaled_magnitude(bits) == 0 <==> (bits == 0 || bits == SIGN_BIT),
{
    let e = exponent_field(bits);
    let f = fraction_field(bits);
    lemma_fields_make_pattern(bits);
    if e != 0 {
        let p = pow2((e - 1) as nat);
        lemma_pow2_pos((e - 1) as nat);
        lemma_pow2_unfold(e as nat);
        assert(0x0080_0000 * p <= (0x0080_0000 + f) * p < 0x0100_0000 * p) by (nonlinear_arith)
            requires
                0 <= f < 0x0080_0000,
                p > 0,
        ;
        assert(0x0100_0000 * p == 0x0080_0000 * (2 * p)) by (nonlinear_arith);
    }
}

/// Two finite patterns that stand for the same number are the same pattern,
/// unless the number is zero, which has a pattern of either sign.
pub proof fn lemma_value_determines_pattern(a: u32, b: u32)
    requires
        is_finite(a),
        is_finite(b),
        scaled_value(a) == scaled_value(b),
    ensures
        scaled_value(a) != 0 ==> a == b,
        scaled_value(a) == 0 ==> (a == 0 || a == SIGN_BIT) && (b == 0 || b == SIGN_BIT),
{
    lemma_magnitude_bounds(a);
    lemma_magnitude_bounds(b);
    lemma_fields_make_pattern(a);
    lemma_fields_make_pattern(b);
    if scaled_value(a) != 0 {
        assert(is_negative(a) == is_negative(b));
        assert(scaled_magnitude(a) == scaled_magnitude(b));
        let ea = exponent_field(a);
        let eb = exponent_field(b);
        if ea < eb {
            lemma_binades_apart(a, b);
        } else if eb < ea {
            lemma_binades_apart(b, a);
        } else if ea != 0 {
            let p = pow2((ea - 1) as nat);
            let fa = fraction_field(a);
            let fb = fraction_field(b);
            lemma_pow2_pos((ea - 1) as nat);
            assert(fa == fb) by (nonlinear_arith)
                requires
                    (0x0080_0000 + fa) * p == (0x0080_0000 + fb) * p,
                    p > 0,
            ;
        }
    }
}

/// A finite pattern with the smaller exponent field has the smaller magnitude.
proof fn lemma_binades_apart(a: u32, b: u32)
    requires
        exponent_field(a) < exponent_field(b),
    ensures
        scaled_magnitude(a) < scaled_magnitude(b),
{
    let ea = exponent_field(a);
    let eb = exponent_field(b);
    lemma_magnitude_bounds(a);
    lemma_magnitude_bounds(b);
    lemma_fields_make_pattern(a);
    lemma_pow2_pos((eb - 1) as nat);
    if ea == 0 {
        assert(0x0080_0000 <= 0x0080_0000 * pow2((eb - 1) as nat)) by (nonlinear_arith)
            requires
                pow2((eb - 1) as nat) > 0,
        ;
    } else {
        if ea < eb - 1 {
            lemma_pow2_strictly_increases(ea as nat, (eb - 1) as nat);
        }
        assert(0x0080_0000 * pow2(ea as nat) <= 0x0080_0000 * pow2((eb - 1) as nat))
            by (nonlinear_arith)
            requires
                pow2(ea as nat) <= pow2((eb - 1) as nat),
        ;
    }
}

/// `ONE` stands for 1 and `MINUS_ONE` for -1: 2^149 units, with either sign.
pub proof fn lemma_unit_patterns()
    ensures
        is_finite(ONE),
        is_finite(MINUS_ONE),
        scaled_value(ONE) == pow2(149),
        scaled_value(MINUS_ONE) == -pow2(149),
        is_finite(0),
        scaled_value(0) == 0,
{
    lemma2_to64();
    lemma_pow2_adds(23, 126);
    assert(exponent_field(ONE) == 127);
    assert(fraction_field(ONE) == 0);
    assert(exponent_field(MINUS_ONE) == 127);
    assert(fraction_field(MINUS_ONE) == 0);
}

} // verus!
