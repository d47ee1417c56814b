//! Conversion of the engine's native samples to single precision.
//!
//! A native sample is a signed 32-bit integer. It is rounded to a multiple of
//! 128, which leaves the 24 significant bits that single precision holds, and
//! divided by 2^31, full scale. A sample within 64 of the largest one would
//! round to full scale itself and is clipped to exactly 1.
//!
//! Both steps are exact in single precision, so the result is given as the
//! bit pattern of the number, in the terms of [`crate::binary32`].

use vstd::prelude::*;
use vstd::arithmetic::power2::{
    lemma2_to64,
    lemma_pow2_adds,
    lemma_pow2_pos,
    lemma_pow2_strictly_increases,
    lemma_pow2_unfold,
    pow2,
};
use crate::binary32::{
    is_finite,
    lemma_normal_pattern,
    lemma_unit_patterns,
    lemma_value_determines_pattern,
    normal_pattern,
    pack_normal,
    scaled_value,
    HIDDEN_BIT,
    MINUS_ONE,
    ONE,
};

verus! {

/// The largest native sample.
pub const SOX_SAMPLE_MAX: i32 = 0x7FFF_FFFF;

/// Whether the sample `d` is clipped: it lies within 64 of the largest sample.
pub open spec fn clips(d: i32) -> bool {
    d > SOX_SAMPLE_MAX - 64
}

/// The sample `d` rounded to the nearest multiple of 128, halves upward; full
/// scale, 2^31, for a sample that is clipped.
pub open spec fn rounded_sample(d: i32) -> int {
    if clips(d) {
        0x8000_0000
    } else {
        128 * ((d + 64) / 128)
    }
}

/// Whether `bits` is the pattern of `numerator / 2^31`, and of positive zero
/// where that is zero. In units of 2^-149 that number is `numerator * 2^118`.
pub open spec fn is_fraction_pattern(bits: u32, numerator: int) -> bool {
    &&& is_finite(bits)
    &&& scaled_value(bits) == numerator * pow2(118)
    &&& numerator == 0 ==> bits == 0
}

/// Whether `bits` is the single-precision pattern of the sample `d`: the
/// pattern of `rounded_sample(d) / 2^31`.
pub open spec fn is_sample_pattern(bits: u32, d: i32) -> bool {
    is_fraction_pattern(bits, rounded_sample(d))
}

/// The single-precision pattern of the sample `d`. Every sample has exactly
/// one: see `lemma_sample_bits` and `lemma_sample_pattern_unique`.
pub open spec fn sample_bits(d: i32) -> u32 {
    choose|bits: u32| is_sample_pattern(bits, d)
}

/// Rounding is the mask of the low seven bits after adding half a step: for a
/// sample that is not clipped, `rounded_sample(d)` is `(d + 64) & !127`.
pub proof fn lemma_rounding_is_mask(d: i32)
    requires
        !clips(d),
    ensures
        rounded_sample(d) == ((d + 64) as i32) & !127i32,
{
    let x: i32 = (d + 64) as i32;
    assert(x & !127i32 == 128 * (x / 128)) by (bit_vector);
}

/// No two patterns stand for the same fraction.
proof fn lemma_fraction_pattern_unique(a: u32, b: u32, numerator: int)
    requires
        is_fraction_pattern(a, numerator),
        is_fraction_pattern(b, numerator),
    ensures
        a == b,
{
    lemma_value_determines_pattern(a, b);
    if numerator != 0 {
        lemma_pow2_pos(118);
        assert(numerator * pow2(118) != 0) by (nonlinear_arith)
            requires
                numerator != 0,
                pow2(118) > 0,
        ;
    }
}

/// A magnitude of `steps` times 128, with the leading bit of `steps * 2^shift`
/// in place, has the normal pattern with that significand and the exponent
/// field `126 - shift`.
proof fn lemma_normalized_fraction(negative: bool, steps: int, shift: nat)
    requires
        1 <= steps,
        shift <= 23,
        0x0080_0000 <= steps * pow2(shift) < 0x0100_0000,
    ensures
        is_fraction_pattern(
            normal_pattern(negative, 126 - shift, steps * pow2(shift)),
            if negative {
                -(steps * 128)
            } else {
                steps * 128
            },
        ),
{
    let significand = steps * pow2(shift);
    lemma_normal_pattern(negative, 126 - shift, significand);
    lemma2_to64();
    lemma_pow2_adds(7, 118);
    lemma_pow2_adds(shift, (125 - shift) as nat);
    assert((steps * pow2(shift)) * pow2((125 - shift) as nat) == steps * (pow2(shift) * pow2(
        (125 - shift) as nat,
    ))) by (nonlinear_arith);
    assert(steps * (128 * pow2(118)) == (steps * 128) * pow2(118)) by (nonlinear_arith);
    assert((-(steps * 128)) * pow2(118) == -((steps * 128) * pow2(118))) by (nonlinear_arith);
}

/// The two ends of the scale: `ONE` is the pattern of `2^31 / 2^31` and
/// `MINUS_ONE` that of `-2^31 / 2^31`; zero has the pattern 0.
proof fn lemma_end_patterns()
    ensures
        is_fraction_pattern(ONE, 0x8000_0000),
        is_fraction_pattern(MINUS_ONE, -0x8000_0000),
        is_fraction_pattern(0, 0),
{
    lemma_unit_patterns();
    lemma2_to64();
    lemma_pow2_adds(31, 118);
}

/// How far the significand of `steps` has to be shifted for its leading bit to
/// come into place.
proof fn lemma_normalizing_shift(steps: int) -> (shift: nat)
    requires
        1 <= steps < 0x0100_0000,
    ensures
        shift <= 23,
        0x0080_0000 <= steps * pow2(shift) < 0x0100_0000,
    decreases 0x0100_0000 - steps,
{
    lemma2_to64();
    if steps >= 0x0080_0000 {
        0
    } else {
        let rest = lemma_normalizing_shift(2 * steps);
        lemma_pow2_unfold(rest + 1);
        assert((2 * steps) * pow2(rest) == steps * (2 * pow2(rest))) by (nonlinear_arith);
        lemma_shift_bound(steps, rest + 1);
        rest + 1
    }
}

/// A shift that keeps a significand below 2^24 is below 24.
proof fn lemma_shift_bound(steps: int, shift: nat)
    requires
        1 <= steps,
        steps * pow2(shift) < 0x0100_0000,
    ensures
        shift <= 23,
{
    lemma2_to64();
    assert(pow2(shift) <= steps * pow2(shift)) by (nonlinear_arith)
        requires
            1 <= steps,
    ;
    if shift > 24 {
        lemma_pow2_strictly_increases(24, shift);
    }
}

/// Every multiple of 128 from -2^31 to 2^31 has a fraction pattern.
proof fn lemma_fraction_pattern_exists(numerator: int) -> (bits: u32)
    requires
        numerator % 128 == 0,
        -0x8000_0000 <= numerator <= 0x8000_0000,
    ensures
        is_fraction_pattern(bits, numerator),
{
    lemma_end_patterns();
    if numerator == 0 {
        0
    } else if numerator == 0x8000_0000 {
        ONE
    } else if numerator == -0x8000_0000 {
        MINUS_ONE
    } else {
        let negative = numerator < 0;
        let steps = if negative {
            -numerator / 128
        } else {
            numerator / 128
        };
        let shift = lemma_normalizing_shift(steps);
        lemma_normalized_fraction(negative, steps, shift);
        normal_pattern(negative, 126 - shift, steps * pow2(shift))
    }
}

/// `sample_bits(d)` is the pattern of the sample `d`, and the only one.
pub proof fn lemma_sample_bits(d: i32)
    ensures
        is_sample_pattern(sample_bits(d), d),
        forall|bits: u32| is_sample_pattern(bits, d) ==> bits == sample_bits(d),
{
    let witness = lemma_fraction_pattern_exists(rounded_sample(d));
    assert(is_sample_pattern(witness, d));
    assert forall|bits: u32| is_sample_pattern(bits, d) implies bits == sample_bits(d) by {
        lemma_fraction_pattern_unique(bits, sample_bits(d), rounded_sample(d));
    }
}

/// No sample has two patterns.
pub proof fn lemma_sample_pattern_unique(a: u32, b: u32, d: i32)
    requires
        is_sample_pattern(a, d),
        is_sample_pattern(b, d),
    ensures
        a == b,
{
    lemma_fraction_pattern_unique(a, b, rounded_sample(d));
}

/// A clipped sample converts to exactly 1.
pub proof fn lemma_clipped_sample_is_one(d: i32)
    requires
        clips(d),
    ensures
        sample_bits(d) == ONE,
        scaled_value(sample_bits(d)) == pow2(149),
{
    lemma_end_patterns();
    lemma_unit_patterns();
    lemma_sample_bits(d);
    lemma_sample_pattern_unique(ONE, sample_bits(d), d);
}

/// Every sample converts to a finite number from -1 to 1, and a sample that is
/// not clipped to one below 1.
pub proof fn lemma_sample_in_unit_range(d: i32)
    ensures
        is_finite(sample_bits(d)),
        -pow2(149) <= scaled_value(sample_bits(d)) <= pow2(149),
        !clips(d) ==> scaled_value(sample_bits(d)) < pow2(149),
{
    lemma_sample_bits(d);
    lemma2_to64();
    lemma_pow2_adds(31, 118);
    lemma_pow2_pos(118);
    let rounded = rounded_sample(d);
    let unit = pow2(118) as int;
    assert(-0x8000_0000 * unit <= rounded * unit <= 0x8000_0000 * unit) by (nonlinear_arith)
        requires
            -0x8000_0000 <= rounded <= 0x8000_0000,
            unit > 0,
    ;
    if !clips(d) {
        assert(rounded * unit < 0x8000_0000 * unit) by (nonlinear_arith)
            requires
                rounded < 0x8000_0000,
                unit > 0,
        ;
    }
}

/// Conversion keeps the order of samples: a larger sample never converts to a
/// smaller number.
pub proof fn lemma_conversion_is_monotonic(a: i32, b: i32)
    requires
        a <= b,
    ensures
        scaled_value(sample_bits(a)) <= scaled_value(sample_bits(b)),
{
    lemma_sample_bits(a);
    lemma_sample_bits(b);
    lemma_pow2_pos(118);
    let unit = pow2(118) as int;
    assert(rounded_sample(a) * unit <= rounded_sample(b) * unit) by (nonlinear_arith)
        requires
            rounded_sample(a) <= rounded_sample(b),
            unit > 0,
    ;
}

/// The pattern of `numerator / 2^31`, for a numerator that is a multiple of
/// 128.
fn fraction_pattern(numerator: i32) -> (bits: u32)
    requires
        numerator % 128 == 0,
    ensures
        is_fraction_pattern(bits, numerator as int),
{
    proof {
        lemma_end_patterns();
    }
    if numerator == 0 {
        return 0;
    }
    if numerator == i32::MIN {
        return MINUS_ONE;
    }
    let negative = numerator < 0;
    let magnitude: i32 = if negative {
        -numerator
    } else {
        numerator
    };
    // In steps of 128 the magnitude has at most 24 bits, and has them all in
    // the significand once its leading bit is in place.
    let steps: u32 = (magnitude / 128) as u32;
    let mut significand: u32 = steps;
    let mut exponent: u32 = 126;
    let ghost mut shift: nat = 0;
    proof {
        lemma2_to64();
    }
    while significand < HIDDEN_BIT
        invariant
            1 <= steps,
            significand < 0x0100_0000,
            significand == steps * pow2(shift),
            exponent + shift == 126,
            shift <= 23,
        decreases 0x0100_0000 - significand,
    {
        proof {
            lemma_pow2_unfold(shift + 1);
            lemma_pow2_pos(shift);
            assert(steps * (2 * pow2(shift)) == 2 * (steps * pow2(shift))) by (nonlinear_arith);
            assert(steps * pow2(shift) >= 1) by (nonlinear_arith)
                requires
                    steps >= 1,
                    pow2(shift) >= 1,
            ;
            lemma_shift_bound(steps as int, shift + 1);
            shift = shift + 1;
        }
        significand = significand * 2;
        exponent = exponent - 1;
    }
    proof {
        lemma_normalized_fraction(negative, steps as int, shift);
    }
    pack_normal(negative, exponent, significand)
}

/// Converts a native sample to single precision.
///
/// The result is the bit pattern of the converted sample, the argument of
/// `f32::from_bits`. It stands for `(d + 64) & !127` divided by 2^31, and for
/// exactly 1 where `d` is clipped.
pub fn sox_sample_to_float_32bit(d: i32) -> (bits: u32)
    ensures
        bits == sample_bits(d),
        is_sample_pattern(bits, d),
        clips(d) ==> bits == ONE,
{
    let bits = if d > SOX_SAMPLE_MAX - 64 {
        proof {
            lemma_end_patterns();
        }
        ONE
    } else {
        let rounded: i32 = (d + 64) & !127;
        proof {
            lemma_rounding_is_mask(d);
        }
        fraction_pattern(rounded)
    };
    proof {
        lemma_sample_bits(d);
        lemma_sample_pattern_unique(bits, sample_bits(d), d);
    }
    bits
}

} // verus!
