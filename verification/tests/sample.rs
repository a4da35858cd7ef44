use mister_core::format::sample;
use mister_core::format::Color;

#[test]
fn sample_constants_are_the_float_patterns() {
    assert_eq!(sample::ZERO, 0.0f32.to_bits());
    assert_eq!(sample::ONE, 1.0f32.to_bits());
    assert_eq!(sample::INFINITY, f32::INFINITY.to_bits());
    assert_eq!(sample::NEG_ZERO, (-0.0f32).to_bits());
    assert_eq!(sample::NEG_INFINITY, f32::NEG_INFINITY.to_bits());
}

#[test]
fn unit_range_at_its_edges() {
    assert!(sample::is_in_unit_range(0.0f32.to_bits()));
    assert!(sample::is_in_unit_range((-0.0f32).to_bits()));
    assert!(sample::is_in_unit_range(1.0f32.to_bits()));
    assert!(sample::is_in_unit_range(0.5f32.to_bits()));
    assert!(sample::is_in_unit_range(f32::MIN_POSITIVE.to_bits()));
    assert!(sample::is_in_unit_range(1)); // the smallest number above zero
    assert!(sample::is_in_unit_range(f32::NAN.to_bits()));
    assert!(!sample::is_in_unit_range(1.5f32.to_bits()));
    assert!(!sample::is_in_unit_range(sample::ONE + 1)); // the next number after one
    assert!(!sample::is_in_unit_range(f32::INFINITY.to_bits()));
    assert!(!sample::is_in_unit_range((-0.25f32).to_bits()));
    assert!(!sample::is_in_unit_range(sample::NEG_ZERO + 1)); // the largest number below zero
    assert!(!sample::is_in_unit_range(f32::NEG_INFINITY.to_bits()));
    assert!(!sample::is_in_unit_range(f32::MAX.to_bits()));
    assert!(!sample::is_in_unit_range(f32::MIN.to_bits()));
}

#[test]
fn unit_range_agrees_with_float_comparison() {
    let mut bits: u32 = 0;
    loop {
        let value = f32::from_bits(bits);
        let outside = value > 1.0 || value < 0.0;
        assert_eq!(sample::is_in_unit_range(bits), !outside, "pattern {:#010x}", bits);
        match bits.checked_add(32_749) {
            Some(next) => bits = next,
            None => break,
        }
    }
    for exponent in 0..=255u32 {
        for sign in [0u32, 1] {
            for fraction in [0u32, 1, 0x40_0000, 0x7F_FFFF] {
                let bits = (sign << 31) | (exponent << 23) | fraction;
                let value = f32::from_bits(bits);
                let outside = value > 1.0 || value < 0.0;
                assert_eq!(sample::is_in_unit_range(bits), !outside, "pattern {:#010x}", bits);
            }
        }
    }
}

#[test]
fn clamp_at_its_edges() {
    assert_eq!(sample::clamp(1.5f32.to_bits()), 1.0f32.to_bits());
    assert_eq!(sample::clamp(f32::INFINITY.to_bits()), 1.0f32.to_bits());
    assert_eq!(sample::clamp((-3.0f32).to_bits()), 0.0f32.to_bits());
    assert_eq!(sample::clamp(f32::NEG_INFINITY.to_bits()), 0.0f32.to_bits());
    assert_eq!(sample::clamp(0.25f32.to_bits()), 0.25f32.to_bits());
    assert_eq!(sample::clamp(0.0f32.to_bits()), 0.0f32.to_bits());
    assert_eq!(sample::clamp(1.0f32.to_bits()), 1.0f32.to_bits());
    assert_eq!(sample::clamp((-0.0f32).to_bits()), (-0.0f32).to_bits());
    assert_eq!(sample::clamp(f32::NAN.to_bits()), f32::NAN.to_bits());
}

#[test]
fn clamp_agrees_with_palette() {
    let mut bits: u32 = 0;
    loop {
        let value = f32::from_bits(bits);
        let (r, g, b, a): (f32, f32, f32, f32) =
            palette::Rgba::new(value, value, value, value).to_pixel();
        let expected = sample::clamp(bits);
        assert_eq!(r.to_bits(), expected, "pattern {:#010x}", bits);
        assert_eq!(g.to_bits(), expected, "pattern {:#010x}", bits);
        assert_eq!(b.to_bits(), expected, "pattern {:#010x}", bits);
        assert_eq!(a.to_bits(), expected, "pattern {:#010x}", bits);
        match bits.checked_add(65_521) {
            Some(next) => bits = next,
            None => break,
        }
    }
}

#[test]
fn clamped_samples_lie_in_the_unit_range() {
    let mut bits: u32 = 0;
    loop {
        let clamped = sample::clamp(bits);
        assert!(sample::is_in_unit_range(clamped));
        assert_eq!(sample::clamp(clamped), clamped);
        assert_eq!(sample::is_in_unit_range(bits), clamped == bits);
        match bits.checked_add(65_521) {
            Some(next) => bits = next,
            None => break,
        }
    }
}

#[test]
fn color_decomposes_as_palette_does() {
    let cases: [(f32, f32, f32, f32); 5] = [
        (0.5, 0.3, 0.1, 0.5),
        (0.0, 0.0, 0.0, 1.0),
        (1.5, -0.5, 0.25, 2.0),
        (-0.0, 1.0, f32::INFINITY, f32::NEG_INFINITY),
        (f32::MIN_POSITIVE, f32::MAX, f32::MIN, 0.999_999_9),
    ];
    for (r, g, b, a) in cases {
        let color = Color::rgb(r.to_bits(), g.to_bits(), b.to_bits(), a.to_bits());
        assert_eq!(
            (color.red, color.green, color.blue, color.alpha),
            (r.to_bits(), g.to_bits(), b.to_bits(), a.to_bits())
        );
        let (er, eg, eb, ea): (f32, f32, f32, f32) = palette::Rgba::new(r, g, b, a).to_pixel();
        assert_eq!(color.to_pixel(), (er.to_bits(), eg.to_bits(), eb.to_bits(), ea.to_bits()));
    }
}

#[test]
fn color_within_the_range_decomposes_without_loss() {
    let color = Color::rgb(
        0.5f32.to_bits(),
        0.3f32.to_bits(),
        0.1f32.to_bits(),
        0.5f32.to_bits(),
    );
    let (r, g, b, a) = color.to_pixel();
    assert_eq!(Color::rgb(r, g, b, a), color);
    assert_eq!(
        (f32::from_bits(r), f32::from_bits(g), f32::from_bits(b), f32::from_bits(a)),
        (0.5, 0.3, 0.1, 0.5)
    );
}
