use rust_gwbasic::numeric::{Double, Single};

fn d(v: f64) -> Double {
    Double::from_bits(v.to_bits())
}

fn samples() -> Vec<f64> {
    let mut v = vec![
        0.0, -0.0, 1.0, -1.0, 0.5, -0.5, 0.49999999999999994, 1.5, -1.5, 2.5, -2.5, 3.7, -3.7,
        1e-320, -1e-320, f64::MIN_POSITIVE, f64::MAX, f64::MIN, f64::INFINITY, f64::NEG_INFINITY,
        f64::NAN, 2147483647.0, 2147483647.5, 2147483648.0, 2147483646.5, -2147483648.0,
        -2147483648.5, -2147483649.0, -2147483647.5, 4294967296.0, 1e10, -1e10, 1e300, 42.0,
        123456.789, -0.999999, 0.999999, 4503599627370496.0, 9007199254740992.0, 5.0, 14.0,
    ];
    let mut x: u64 = 0x9E37_79B9_7F4A_7C15;
    for _ in 0..2000 {
        x ^= x << 13;
        x ^= x >> 7;
        x ^= x << 17;
        v.push(f64::from_bits(x));
        v.push(((x % 2_000_000) as f64 - 1_000_000.0) / 8.0);
    }
    v
}

#[test]
fn truncation_is_the_cast() {
    for v in samples() {
        assert_eq!(d(v).to_i32(), v as i32, "{v}");
    }
}

#[test]
fn floor_is_floor_then_cast() {
    for v in samples() {
        assert_eq!(d(v).floor_to_i32(), v.floor() as i32, "{v}");
    }
}

#[test]
fn round_is_round_then_cast() {
    for v in samples() {
        assert_eq!(d(v).round_to_i32(), v.round() as i32, "{v}");
    }
}

#[test]
fn from_i32_is_the_cast() {
    let ints = [0, 1, -1, 2, 3, 5, 42, -42, 1023, 1024, 65535, i32::MAX, i32::MIN, i32::MIN + 1, 123456789];
    for i in ints {
        assert_eq!(Double::from_i32(i).to_bits(), (i as f64).to_bits(), "{i}");
        assert_eq!(Double::from_i32(i).to_i32(), i);
    }
}

#[test]
fn order_is_the_order_of_the_numbers() {
    let s = samples();
    for (i, a) in s.iter().enumerate() {
        for b in s.iter().skip(i % 7).step_by(13) {
            assert_eq!(d(*a).lt(d(*b)), a < b, "{a} < {b}");
            assert_eq!(d(*a).le(d(*b)), a <= b, "{a} <= {b}");
            assert_eq!(d(*a).equals(d(*b)), a == b, "{a} == {b}");
        }
    }
}

#[test]
fn sign_operations() {
    for v in samples() {
        assert_eq!(d(v).neg().to_bits(), (-v).to_bits());
        assert_eq!(d(v).abs().to_bits(), v.abs().to_bits());
        assert_eq!(d(v).nan(), v.is_nan());
        assert_eq!(d(v).zero_valued(), v == 0.0);
    }
    assert_eq!(Double::zero().to_bits(), 0.0f64.to_bits());
}

#[test]
fn widening_is_the_cast() {
    let mut singles: Vec<f32> = vec![
        0.0, -0.0, 1.0, -1.0, 0.1, 3.5, f32::MAX, f32::MIN, f32::MIN_POSITIVE, 1e-40, -1e-45,
        f32::INFINITY, f32::NEG_INFINITY, 16777216.0, 0.333,
    ];
    let mut x: u32 = 0x9E37_79B9;
    for _ in 0..2000 {
        x ^= x << 13;
        x ^= x >> 17;
        x ^= x << 5;
        singles.push(f32::from_bits(x));
        singles.push(f32::from_bits(x % 0x0080_0000));
    }
    for s in singles {
        let w = Single::from_bits(s.to_bits()).widen();
        if s.is_nan() {
            assert!(f64::from_bits(w.to_bits()).is_nan());
        } else {
            assert_eq!(w.to_bits(), (s as f64).to_bits(), "{s}");
        }
        assert_eq!(Single::from_bits(s.to_bits()).zero_valued(), s == 0.0);
    }
}

#[test]
fn small_integers_as_singles() {
    for n in [0u32, 1, 2, 3, 7, 8, 1000, 86399, 999_999, 16_777_215] {
        assert_eq!(Single::from_small(n).to_bits(), (n as f32).to_bits(), "{n}");
    }
}

#[test]
fn unsigned_truncation_is_the_cast() {
    let mut v = samples();
    v.extend([
        18446744073709551615.0,
        18446744073709551616.0,
        18446744073709549568.0,
        9223372036854775808.0,
        4503599627370497.0,
        1e19,
        1e20,
        0.9999999999999999,
    ]);
    for x in v {
        assert_eq!(d(x).to_u64(), x as u64, "{x}");
    }
}
