use libsox::binary32::{MINUS_ONE, ONE};
use libsox::sample::{sox_sample_to_float_32bit, SOX_SAMPLE_MAX};

/// The conversion as it is written in floating point.
fn in_floating_point(d: i32) -> f32 {
    if d > SOX_SAMPLE_MAX - 64 {
        1.0
    } else {
        ((d + 64) & !127) as f32 * (1.0 / (SOX_SAMPLE_MAX as f32 + 1.0))
    }
}

fn converted(d: i32) -> f32 {
    f32::from_bits(sox_sample_to_float_32bit(d))
}

const EDGES: [i32; 31] = [
    i32::MIN,
    i32::MIN + 1,
    i32::MIN + 63,
    i32::MIN + 64,
    i32::MIN + 65,
    i32::MIN + 191,
    i32::MIN + 192,
    -0x4000_0000,
    -8_388_672,
    -193,
    -192,
    -129,
    -128,
    -65,
    -64,
    -63,
    -1,
    0,
    1,
    63,
    64,
    127,
    128,
    191,
    192,
    8_388_544,
    0x4000_0000,
    i32::MAX - 192,
    i32::MAX - 191,
    i32::MAX - 65,
    i32::MAX - 64,
];

#[test]
fn zero_converts_to_positive_zero() {
    assert_eq!(sox_sample_to_float_32bit(0), 0);
    assert_eq!(sox_sample_to_float_32bit(63), 0);
    assert_eq!(sox_sample_to_float_32bit(-64), 0);
    assert!(converted(-64).is_sign_positive());
}

#[test]
fn exact_patterns() {
    // One step of 128 is 2^-24.
    assert_eq!(sox_sample_to_float_32bit(64), 0x3380_0000);
    assert_eq!(sox_sample_to_float_32bit(128), 0x3380_0000);
    assert_eq!(sox_sample_to_float_32bit(191), 0x3380_0000);
    assert_eq!(sox_sample_to_float_32bit(192), 0x3400_0000);
    assert_eq!(sox_sample_to_float_32bit(-65), 0xB380_0000);
    assert_eq!(sox_sample_to_float_32bit(-192), 0xB380_0000);
    assert_eq!(sox_sample_to_float_32bit(-193), 0xB400_0000);
    // Half and quarter scale.
    assert_eq!(sox_sample_to_float_32bit(0x4000_0000), 0x3F00_0000);
    assert_eq!(sox_sample_to_float_32bit(-0x4000_0000), 0xBF00_0000);
    assert_eq!(sox_sample_to_float_32bit(0x2000_0000), 0x3E80_0000);
    // Three steps: 1.5 * 2^-23.
    assert_eq!(sox_sample_to_float_32bit(384), 0x3440_0000);
    // The largest sample that is not clipped: 1 - 2^-24.
    assert_eq!(sox_sample_to_float_32bit(i32::MAX - 64), 0x3F7F_FFFF);
    assert_eq!(sox_sample_to_float_32bit(i32::MAX - 191), 0x3F7F_FFFF);
    assert_eq!(sox_sample_to_float_32bit(i32::MAX - 192), 0x3F7F_FFFE);
}

#[test]
fn exact_values() {
    assert_eq!(converted(0), 0.0);
    assert_eq!(converted(0x4000_0000), 0.5);
    assert_eq!(converted(-0x4000_0000), -0.5);
    assert_eq!(converted(0x1000_0000), 0.125);
    assert_eq!(converted(128), 128.0 / 2147483648.0);
    assert_eq!(converted(i32::MIN), -1.0);
}

#[test]
fn samples_within_64_of_the_largest_are_clipped_to_one() {
    for d in (i32::MAX - 63)..=i32::MAX {
        assert_eq!(sox_sample_to_float_32bit(d), ONE);
        assert_eq!(converted(d), 1.0);
    }
    assert_eq!(ONE, 1.0f32.to_bits());
    assert!(converted(i32::MAX - 64) < 1.0);
}

#[test]
fn the_lowest_samples_convert_to_minus_one() {
    for d in i32::MIN..=(i32::MIN + 63) {
        assert_eq!(sox_sample_to_float_32bit(d), MINUS_ONE);
    }
    assert_eq!(MINUS_ONE, (-1.0f32).to_bits());
    assert!(converted(i32::MIN + 64) > -1.0);
}

#[test]
fn agrees_with_floating_point_at_the_edges() {
    for d in EDGES {
        assert_eq!(
            sox_sample_to_float_32bit(d),
            in_floating_point(d).to_bits(),
            "sample {}",
            d
        );
    }
}

#[test]
fn agrees_with_floating_point_across_the_range() {
    let mut d: i64 = i32::MIN as i64;
    while d <= i32::MAX as i64 {
        let s = d as i32;
        assert_eq!(sox_sample_to_float_32bit(s), in_floating_point(s).to_bits(), "sample {}", s);
        d += 104_729;
    }
}

#[test]
fn agrees_with_floating_point_around_every_power_of_two() {
    for p in 0..31 {
        let base: i64 = 1 << p;
        for offset in -200i64..=200 {
            for sign in [-1i64, 1] {
                let d = sign * base + offset;
                if d < i32::MIN as i64 || d > i32::MAX as i64 {
                    continue;
                }
                let s = d as i32;
                assert_eq!(
                    sox_sample_to_float_32bit(s),
                    in_floating_point(s).to_bits(),
                    "sample {}",
                    s
                );
            }
        }
    }
}

#[test]
fn every_result_is_finite_and_within_the_unit_range() {
    let mut d: i64 = i32::MIN as i64;
    while d <= i32::MAX as i64 {
        let x = converted(d as i32);
        assert!(x.is_finite());
        assert!((-1.0..=1.0).contains(&x));
        d += 1_299_709;
    }
    for d in EDGES {
        let x = converted(d);
        assert!(x.is_finite());
        assert!((-1.0..=1.0).contains(&x));
    }
}

#[test]
fn conversion_is_repeatable() {
    for d in EDGES {
        assert_eq!(sox_sample_to_float_32bit(d), sox_sample_to_float_32bit(d));
    }
}

#[test]
fn conversion_keeps_the_order_of_samples() {
    let mut last = converted(i32::MIN);
    let mut d: i64 = i32::MIN as i64;
    while d <= i32::MAX as i64 {
        let x = converted(d as i32);
        assert!(last <= x);
        last = x;
        d += 7_919_003;
    }
}

#[test]
fn rounding_is_to_the_nearest_step_with_halves_upward() {
    // 64 is half a step above 0 and goes up; 63 goes down.
    assert_eq!(converted(63), 0.0);
    assert_eq!(converted(64), converted(128));
    // -64 is half a step below 0 and goes up to 0; -65 goes down.
    assert_eq!(converted(-64), 0.0);
    assert_eq!(converted(-65), converted(-128));
}
