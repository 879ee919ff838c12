//! Numbers as bits, held against the numbers themselves.
use ruffle::float::FloatBits;
use ruffle::geometry::vec4;

fn bits(number: f32) -> FloatBits {
    FloatBits { bits: number.to_bits() }
}

/// Numbers of all kinds, with both signs.
fn samples() -> Vec<f32> {
    let mut numbers = vec![
        0.0,
        f32::MIN_POSITIVE,
        f32::from_bits(1),
        0.25,
        0.999_999_94,
        1.0,
        1.5,
        2.0,
        3.75,
        499.5,
        500.0,
        65_535.0,
        8_388_607.5,
        8_388_608.0,
        16_777_215.0,
        16_777_216.0,
        2_147_483_500.0,
        2_147_483_648.0,
        4_294_967_296.0,
        f32::MAX,
        f32::INFINITY,
        f32::NAN,
    ];
    for i in 0..numbers.len() {
        numbers.push(-numbers[i]);
    }
    numbers
}

#[test]
fn constants_have_their_bits() {
    assert_eq!(FloatBits::zero(), bits(0.0));
    assert_eq!(FloatBits::one(), bits(1.0));
    assert_eq!(FloatBits::two(), bits(2.0));
    assert_eq!(FloatBits::minus_one(), bits(-1.0));
}

#[test]
fn numbers_are_compared_as_numbers() {
    for a in samples() {
        for b in samples() {
            assert_eq!(bits(a).float_eq(bits(b)), a == b, "{} {}", a, b);
        }
    }
}

#[test]
fn zeros_are_equal_and_not_a_number_is_not() {
    assert!(bits(0.0).float_eq(bits(-0.0)));
    assert_ne!(bits(0.0), bits(-0.0));
    assert!(!bits(f32::NAN).float_eq(bits(f32::NAN)));
}

#[test]
fn vectors_are_compared_number_by_number() {
    let a = vec4(bits(1.0), bits(0.0), bits(-2.0), bits(4.0));
    let b = vec4(bits(1.0), bits(-0.0), bits(-2.0), bits(4.0));
    let c = vec4(bits(1.0), bits(0.0), bits(-2.0), bits(4.5));
    let d = vec4(bits(f32::NAN), bits(0.0), bits(-2.0), bits(4.0));
    assert!(a.float_eq(b));
    assert!(!a.float_eq(c));
    assert!(!d.float_eq(d));
}

#[test]
fn numbers_are_rounded_towards_zero() {
    for number in samples() {
        assert_eq!(bits(number).to_i32(), number as i32, "{}", number);
    }
    let mut pattern: u32 = 12_345;
    for _ in 0..20_000 {
        pattern = pattern.wrapping_mul(1_664_525).wrapping_add(1_013_904_223);
        let number = f32::from_bits(pattern);
        assert_eq!(FloatBits { bits: pattern }.to_i32(), number as i32, "{}", number);
    }
}

#[test]
fn numbers_beyond_the_integers_are_held_back() {
    assert_eq!(bits(3.0e9).to_i32(), i32::MAX);
    assert_eq!(bits(-3.0e9).to_i32(), i32::MIN);
    assert_eq!(bits(f32::INFINITY).to_i32(), i32::MAX);
    assert_eq!(bits(f32::NAN).to_i32(), 0);
    assert_eq!(bits(-2_147_483_648.0).to_i32(), i32::MIN);
}

#[test]
fn integers_become_the_nearest_number() {
    let edges: Vec<u32> = vec![
        0,
        1,
        2,
        3,
        255,
        500,
        65_025,
        16_777_215,
        16_777_216,
        16_777_217,
        16_777_218,
        16_777_219,
        33_554_433,
        33_554_434,
        33_554_435,
        2_147_483_583,
        2_147_483_584,
        2_147_483_648,
        4_294_967_167,
        4_294_967_168,
        4_294_967_169,
        4_294_967_295,
    ];
    for n in edges {
        assert_eq!(FloatBits::from_u32(n), bits(n as f32), "{}", n);
    }
    let mut n: u32 = 98_765;
    for shift in 0..20_000 {
        n = n.wrapping_mul(1_664_525).wrapping_add(1_013_904_223);
        let n: u32 = n >> (shift % 32);
        assert_eq!(FloatBits::from_u32(n), bits(n as f32), "{}", n);
    }
}

#[test]
fn integers_survive_up_to_24_bits() {
    for n in [0u32, 1, 7, 640, 1_080, 65_536, 9_999_999, 16_777_216] {
        assert_eq!(FloatBits::from_u32(n).to_i32(), n as i32);
    }
    assert_eq!(FloatBits::from_u32(16_777_217).to_i32(), 16_777_216);
}
