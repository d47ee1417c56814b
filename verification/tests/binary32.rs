use libsox::binary32::{pack_normal, HIDDEN_BIT, MINUS_ONE, ONE, SIGN_BIT};

#[test]
fn the_named_patterns_are_those_of_the_format() {
    assert_eq!(ONE, 1.0f32.to_bits());
    assert_eq!(MINUS_ONE, (-1.0f32).to_bits());
    assert_eq!(SIGN_BIT, (-0.0f32).to_bits());
    assert_eq!(HIDDEN_BIT, 1 << 23);
}

#[test]
fn a_normal_pattern_is_its_fields_put_together() {
    assert_eq!(pack_normal(false, 127, 0x0080_0000), 0x3F80_0000);
    assert_eq!(pack_normal(true, 127, 0x0080_0000), 0xBF80_0000);
    assert_eq!(pack_normal(false, 126, 0x0080_0000), 0x3F00_0000);
    assert_eq!(pack_normal(false, 127, 0x00C0_0000), 0x3FC0_0000);
    assert_eq!(pack_normal(false, 1, 0x0080_0000), 0x0080_0000);
    assert_eq!(pack_normal(true, 254, 0x00FF_FFFF), 0xFF7F_FFFF);
}

#[test]
fn a_normal_pattern_stands_for_its_significand_scaled() {
    // significand * 2^(exponent - 150)
    assert_eq!(f32::from_bits(pack_normal(false, 150, 0x0080_0000)), 8_388_608.0);
    assert_eq!(f32::from_bits(pack_normal(false, 150, 0x00FF_FFFF)), 16_777_215.0);
    assert_eq!(f32::from_bits(pack_normal(true, 149, 0x00C0_0000)), -6_291_456.0);
    assert_eq!(f32::from_bits(pack_normal(false, 127, 0x00C0_0000)), 1.5);
    assert_eq!(f32::from_bits(pack_normal(false, 1, 0x0080_0000)), f32::MIN_POSITIVE);
    assert_eq!(f32::from_bits(pack_normal(false, 254, 0x00FF_FFFF)), f32::MAX);
    assert_eq!(f32::from_bits(pack_normal(true, 254, 0x00FF_FFFF)), f32::MIN);
}

#[test]
fn every_normal_pattern_is_finite() {
    for exponent in 1..=254u32 {
        for significand in [0x0080_0000u32, 0x0080_0001, 0x00AB_CDEF, 0x00FF_FFFF] {
            for negative in [false, true] {
                let x = f32::from_bits(pack_normal(negative, exponent, significand));
                assert!(x.is_normal());
                assert_eq!(x.is_sign_negative(), negative);
            }
        }
    }
}
