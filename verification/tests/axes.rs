use joint_model::axes_mask::JointAxesMask;
use joint_model::axis::JointAxis;
use joint_model::math::{Point, Real};

const AXES: [JointAxis; 6] = [
    JointAxis::X,
    JointAxis::Y,
    JointAxis::Z,
    JointAxis::AngX,
    JointAxis::AngY,
    JointAxis::AngZ,
];

#[test]
fn axis_ordinals_and_bits_are_aligned() {
    for (i, axis) in AXES.iter().enumerate() {
        assert_eq!(axis.index(), i);
        assert_eq!(JointAxis::from_index(i), Some(*axis));
        assert_eq!(axis.bit(), 1u8 << i);
        assert_eq!(axis.is_linear(), i < 3);
        assert_eq!(axis.is_angular(), i >= 3);
        assert_eq!(JointAxesMask::from_axis(*axis).bits(), 1u8 << i);
        assert_eq!(JointAxesMask::from(*axis), JointAxesMask::from_axis(*axis));
    }
    assert_eq!(JointAxis::from_index(6), None);
    assert_eq!(JointAxis::from_index(usize::MAX), None);
}

#[test]
fn named_masks_hold_the_expected_axes() {
    assert_eq!(JointAxesMask::empty().bits(), 0);
    assert_eq!(JointAxesMask::all().bits(), 0b111111);
    assert_eq!(JointAxesMask::lin_axes().bits(), 0b000111);
    assert_eq!(JointAxesMask::ang_axes().bits(), 0b111000);
    assert_eq!(JointAxesMask::locked_revolute_axes().bits(), 0b110111);
    assert_eq!(JointAxesMask::locked_prismatic_axes().bits(), 0b111110);
    assert_eq!(JointAxesMask::locked_fixed_axes(), JointAxesMask::all());
    assert_eq!(JointAxesMask::locked_spherical_axes(), JointAxesMask::lin_axes());
    assert!(JointAxesMask::empty().is_empty());
    assert!(!JointAxesMask::lin_axes().is_empty());
    assert!(JointAxesMask::all().is_all());
    assert!(!JointAxesMask::locked_revolute_axes().is_all());
    assert!(!JointAxesMask::locked_revolute_axes().contains_axis(JointAxis::AngX));
    assert!(JointAxesMask::locked_revolute_axes().contains_axis(JointAxis::AngY));
}

#[test]
fn mask_operations_act_as_set_operations() {
    let lin = JointAxesMask::lin_axes();
    let ang = JointAxesMask::ang_axes();
    let x = JointAxesMask::from_axis(JointAxis::X);
    assert_eq!(lin.union(ang), JointAxesMask::all());
    assert_eq!(lin.intersection(ang), JointAxesMask::empty());
    assert_eq!(lin.difference(x).bits(), 0b000110);
    assert_eq!(lin.complement(), ang);
    assert_eq!(JointAxesMask::empty().complement(), JointAxesMask::all());
    assert!(lin.contains(x));
    assert!(!x.contains(lin));
    assert!(lin.contains(JointAxesMask::empty()));
    assert!(lin.intersects(x));
    assert!(!lin.intersects(ang));
    assert!(!lin.intersects(JointAxesMask::empty()));
    let mut mask = JointAxesMask::empty();
    mask.insert(x);
    mask.insert(ang);
    assert_eq!(mask.bits(), 0b111001);
    mask.remove(JointAxesMask::from_axis(JointAxis::AngY));
    assert_eq!(mask.bits(), 0b101001);
    mask.set(lin, true);
    assert_eq!(mask.bits(), 0b101111);
    mask.set(lin, false);
    assert_eq!(mask.bits(), 0b101000);
}

#[test]
fn masks_from_bytes_never_hold_a_seventh_bit() {
    assert_eq!(JointAxesMask::from_bits(0b111111), Some(JointAxesMask::all()));
    assert_eq!(JointAxesMask::from_bits(0b1000000), None);
    assert_eq!(JointAxesMask::from_bits(0xFF), None);
    assert_eq!(JointAxesMask::from_bits(0b101), Some(JointAxesMask::from_bits_truncate(0b101)));
    assert_eq!(JointAxesMask::from_bits_truncate(0xFF), JointAxesMask::all());
    assert_eq!(JointAxesMask::from_bits_truncate(0b11000111).bits(), 0b000111);
}

#[test]
fn scalars_are_classified_by_their_bits() {
    let of = |x: f32| Real::from_bits(x.to_bits());
    for x in [0.0f32, -0.0, 1.0, -1.0, f32::MAX, f32::MIN, f32::MIN_POSITIVE, 1.0e-45] {
        assert!(of(x).is_finite(), "{x}");
        assert!(!of(x).is_nan(), "{x}");
        assert_eq!(of(x).is_non_negative(), x >= 0.0, "{x}");
        assert_eq!(of(x).is_sign_negative(), x.is_sign_negative(), "{x}");
        assert_eq!(of(x).is_zero(), x == 0.0, "{x}");
        assert_eq!(f32::from_bits(of(x).to_bits()), x);
    }
    for x in [f32::INFINITY, f32::NEG_INFINITY] {
        assert!(!of(x).is_finite());
        assert!(!of(x).is_nan());
        assert_eq!(of(x).is_non_negative(), x >= 0.0);
    }
    for bits in [f32::NAN.to_bits(), 0x7F80_0001, 0xFFC0_0000, 0xFFFF_FFFF] {
        let nan = Real::from_bits(bits);
        assert!(nan.is_nan());
        assert!(!nan.is_finite());
        assert!(!nan.is_non_negative());
    }
    assert_eq!(Real::zero().to_bits(), 0.0f32.to_bits());
    assert_eq!(Real::max_value().to_bits(), f32::MAX.to_bits());
    assert_eq!(Real::min_value().to_bits(), f32::MIN.to_bits());
    assert_eq!(Point::origin(), Point::new(of(0.0), of(0.0), of(0.0)));
    assert!(Point::new(of(1.0), of(-2.0), of(3.5)).is_finite());
    assert!(!Point::new(of(1.0), of(f32::NAN), of(3.5)).is_finite());
}
