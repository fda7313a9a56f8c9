use system_notifier::binary32::Binary32;

fn samples() -> Vec<f32> {
    let mut v = vec![
        0.0, -0.0, 0.04, -0.04, 0.05, 0.25, 0.35, 0.5, 1.5, 2.5, -2.5, 4.45, 4.5, 4.55, 9.95,
        14.4, 14.5, 15.0, 97.5, 99.95, 100.0, 1e7, 16777215.0, 16777216.0, 3.4e38, -3.4e38,
        1e-45, f32::MIN_POSITIVE, f32::MAX, f32::MIN, f32::INFINITY, f32::NEG_INFINITY,
        f32::NAN, -f32::NAN,
    ];
    let mut x: u32 = 0x1234_5678;
    for _ in 0..20000 {
        x ^= x << 13;
        x ^= x >> 17;
        x ^= x << 5;
        v.push(f32::from_bits(x));
        v.push((x % 100_000) as f32 / 1000.0);
        v.push((x % 4000) as f32 / 40.0);
    }
    v
}

#[test]
fn whole_text_is_display_of_round() {
    for x in samples() {
        let mut s = String::new();
        Binary32(x.to_bits()).push_whole_text(&mut s);
        assert_eq!(s, format!("{}", x.round()), "bits {:#x}", x.to_bits());
    }
}

#[test]
fn whole_text_is_display_for_large_values() {
    for k in [1u32, 2, 3, 4, 7, 10, 20, 33, 40, 57, 80, 100, 103, 104] {
        for m in (0x80_0000u32..0x80_0000 + 20000).chain(0xFF_FFFF - 5000..=0xFF_FFFF) {
            let bits = ((150 + k) << 23) | (m - 0x80_0000);
            for x in [f32::from_bits(bits), -f32::from_bits(bits)] {
                let mut s = String::new();
                Binary32(x.to_bits()).push_whole_text(&mut s);
                assert_eq!(s, format!("{}", x.round()), "bits {:#x}", x.to_bits());
            }
        }
    }
}

#[test]
fn one_decimal_text_is_display_with_one_decimal() {
    for x in samples() {
        let mut s = String::new();
        Binary32(x.to_bits()).push_one_decimal_text(&mut s);
        assert_eq!(s, format!("{:.1}", x), "bits {:#x}", x.to_bits());
    }
}

#[test]
fn comparisons_are_those_of_binary32() {
    let v = samples();
    for (i, &a) in v.iter().enumerate().step_by(7) {
        for &c in v.iter().skip(i % 5).step_by(97) {
            let (ba, bc) = (Binary32(a.to_bits()), Binary32(c.to_bits()));
            assert_eq!(ba.at_most(&bc), a <= c, "{} <= {}", a, c);
            assert_eq!(ba.at_least(&bc), a >= c, "{} >= {}", a, c);
            assert_eq!(ba == bc, a == c, "{} == {}", a, c);
        }
    }
}

#[test]
fn zeros_are_equal_and_nan_is_not() {
    assert_eq!(Binary32(0.0f32.to_bits()), Binary32((-0.0f32).to_bits()));
    assert_ne!(Binary32(f32::NAN.to_bits()), Binary32(f32::NAN.to_bits()));
    assert!(Binary32(f32::NEG_INFINITY.to_bits()).at_most(&Binary32(f32::MIN.to_bits())));
}
