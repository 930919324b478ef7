use float_ord::FloatOrd;
use rukako::bool32::Bool32;
use rukako::scalar::{Scalar, INFINITY_BITS, NEAR_ZERO_BITS, ONE_BITS, SIGN_BIT};
use rukako::stack::{Stack, STACK_CAPACITY};
use rukako::vec3::{Vec3, Vec4};

fn s(x: f32) -> Scalar {
    Scalar::from_bits(x.to_bits())
}

fn samples() -> Vec<f32> {
    vec![
        0.0,
        -0.0,
        1.0,
        -1.0,
        0.5,
        -0.5,
        0.001,
        1e-8,
        -1e-8,
        9.9e-9,
        1.0e-45,
        -1.0e-45,
        1.17549435e-38,
        3.4028235e38,
        -3.4028235e38,
        f32::INFINITY,
        f32::NEG_INFINITY,
        f32::NAN,
        -f32::NAN,
        f32::from_bits(0x7fc0_0001),
        f32::from_bits(0xff80_0001),
        2.0,
        2.0000002,
        1000.0,
        -1000.0,
        0.999,
        0.7,
    ]
}

#[test]
fn scalar_keeps_its_bits() {
    for x in samples() {
        assert_eq!(Scalar::from_bits(x.to_bits()).to_bits(), x.to_bits());
        assert_eq!(s(x).bits, x.to_bits());
    }
}

#[test]
fn scalar_constants_are_the_floats_they_name() {
    assert_eq!(Scalar::zero().to_bits(), 0.0f32.to_bits());
    assert_eq!(Scalar::one().to_bits(), 1.0f32.to_bits());
    assert_eq!(Scalar::infinity().to_bits(), f32::INFINITY.to_bits());
    assert_eq!(ONE_BITS, 1.0f32.to_bits());
    assert_eq!(INFINITY_BITS, f32::INFINITY.to_bits());
    assert_eq!(NEAR_ZERO_BITS, 1e-8f32.to_bits());
    assert_eq!(SIGN_BIT, (-0.0f32).to_bits());
}

#[test]
fn lt_and_le_compare_as_floats_do() {
    for a in samples() {
        for b in samples() {
            assert_eq!(s(a).lt(s(b)), a < b, "{} < {}", a, b);
            assert_eq!(s(a).le(s(b)), a <= b, "{} <= {}", a, b);
        }
    }
}

#[test]
fn nan_and_sign_are_read_from_the_bits() {
    for a in samples() {
        assert_eq!(s(a).is_nan(), a.is_nan(), "{}", a);
        assert_eq!(s(a).is_negative(), a.is_sign_negative(), "{}", a);
    }
}

#[test]
fn neg_and_abs_are_the_float_operations() {
    for a in samples() {
        assert_eq!(s(a).neg().to_bits(), (-a).to_bits(), "{}", a);
        assert_eq!(s(a).abs().to_bits(), a.abs().to_bits(), "{}", a);
        assert_eq!(s(a).neg().neg(), s(a));
    }
}

#[test]
fn min_and_max_pick_as_floats_do() {
    for a in samples() {
        for b in samples() {
            if a.is_nan() && b.is_nan() {
                assert!(s(a).min(s(b)).is_nan());
                assert!(s(a).max(s(b)).is_nan());
            } else if a == b {
                // the two zeros are equal as numbers: either may come back
                assert!(f32::from_bits(s(a).min(s(b)).to_bits()) == a);
                assert!(f32::from_bits(s(a).max(s(b)).to_bits()) == a);
            } else {
                assert_eq!(s(a).min(s(b)).to_bits(), a.min(b).to_bits(), "min {} {}", a, b);
                assert_eq!(s(a).max(s(b)).to_bits(), a.max(b).to_bits(), "max {} {}", a, b);
            }
        }
    }
}

#[test]
fn min_of_a_nan_and_a_number_is_the_number() {
    assert_eq!(s(f32::NAN).min(s(3.0)), s(3.0));
    assert_eq!(s(3.0).min(s(f32::NAN)), s(3.0));
    assert_eq!(s(f32::NAN).max(s(-3.0)), s(-3.0));
    assert_eq!(s(-3.0).max(s(f32::NAN)), s(-3.0));
}

#[test]
fn ordered_key_orders_as_float_ord_does() {
    for a in samples() {
        for b in samples() {
            let expected = FloatOrd(a).cmp(&FloatOrd(b));
            let got = s(a).ordered_key().cmp(&s(b).ordered_key());
            assert_eq!(got, expected, "{} against {}", a, b);
        }
    }
}

#[test]
fn ordered_key_has_the_known_values() {
    assert_eq!(s(0.0).ordered_key(), 0x8000_0000);
    assert_eq!(s(-0.0).ordered_key(), 0x7fff_ffff);
    assert_eq!(s(1.0).ordered_key(), 0xbf80_0000);
    assert_eq!(s(-1.0).ordered_key(), 0x407f_ffff);
    assert_eq!(s(f32::INFINITY).ordered_key(), 0xff80_0000);
    assert_eq!(s(f32::NEG_INFINITY).ordered_key(), 0x007f_ffff);
}

#[test]
fn ordered_key_agrees_with_the_numeric_order() {
    for a in samples() {
        for b in samples() {
            if a < b {
                assert!(s(a).ordered_key() < s(b).ordered_key(), "{} {}", a, b);
            }
        }
    }
}

#[test]
fn vec3_axis_picks_the_component() {
    let v = Vec3::new(s(1.0), s(2.0), s(3.0));
    assert_eq!(v.axis(0), s(1.0));
    assert_eq!(v.axis(1), s(2.0));
    assert_eq!(v.axis(2), s(3.0));
    assert_eq!(Vec3::splat(s(4.0)), Vec3::new(s(4.0), s(4.0), s(4.0)));
    assert_eq!(Vec3::default(), Vec3::new(s(0.0), s(0.0), s(0.0)));
}

#[test]
fn vec3_neg_min_max_work_by_component() {
    let a = Vec3::new(s(1.0), s(-2.0), s(3.0));
    let b = Vec3::new(s(0.5), s(4.0), s(3.5));
    assert_eq!(a.neg(), Vec3::new(s(-1.0), s(2.0), s(-3.0)));
    assert_eq!(a.min(b), Vec3::new(s(0.5), s(-2.0), s(3.0)));
    assert_eq!(a.max(b), Vec3::new(s(1.0), s(4.0), s(3.5)));
}

#[test]
fn near_zero_needs_every_component_below_the_threshold() {
    assert!(Vec3::new(s(0.0), s(-0.0), s(9.9e-9)).is_near_zero());
    assert!(Vec3::new(s(-9.9e-9), s(1e-20), s(0.0)).is_near_zero());
    assert!(!Vec3::new(s(1e-8), s(0.0), s(0.0)).is_near_zero());
    assert!(!Vec3::new(s(0.0), s(-1e-8), s(0.0)).is_near_zero());
    assert!(!Vec3::new(s(0.0), s(0.0), s(1.0)).is_near_zero());
    assert!(!Vec3::new(s(f32::NAN), s(0.0), s(0.0)).is_near_zero());
}

#[test]
fn vec4_xyz_drops_the_last_component() {
    let v = Vec4 { x: s(1.0), y: s(2.0), z: s(3.0), w: s(4.0) };
    assert_eq!(v.xyz(), Vec3::new(s(1.0), s(2.0), s(3.0)));
    assert_eq!(Vec4::default().w, s(0.0));
}

#[test]
fn bool32_holds_one_or_zero() {
    assert_eq!(Bool32::new(true).to_word(), 1);
    assert_eq!(Bool32::new(false).to_word(), 0);
    assert!(Bool32::new(true).get());
    assert!(!Bool32::new(false).get());
    assert_eq!(Bool32::default(), Bool32::new(false));
}

#[test]
fn bool32_converts_from_and_into_bool() {
    assert_eq!(Bool32::from(true), Bool32::new(true));
    assert_eq!(Bool32::from(false), Bool32::new(false));
    let yes: bool = Bool32::new(true).into();
    let no: bool = Bool32::new(false).into();
    assert!(yes);
    assert!(!no);
    assert!(bool::from(Bool32::from(true)));
}

#[test]
fn bool32_or_and_not_are_the_truth_tables() {
    for a in [false, true] {
        for b in [false, true] {
            assert_eq!(Bool32::new(a).or(Bool32::new(b)), Bool32::new(a || b));
        }
        assert_eq!(Bool32::new(a).not(), Bool32::new(!a));
    }
}

#[test]
fn stack_gives_back_the_last_pushed_first() {
    let mut stack = Stack::default();
    assert!(stack.is_empty().get());
    stack.push(7);
    stack.push(8);
    stack.push(9);
    assert!(!stack.is_empty().get());
    assert_eq!(stack.pop(), 9);
    assert_eq!(stack.pop(), 8);
    stack.push(10);
    assert_eq!(stack.pop(), 10);
    assert_eq!(stack.pop(), 7);
    assert!(stack.is_empty().get());
}

#[test]
fn stack_holds_its_capacity() {
    assert_eq!(STACK_CAPACITY, 32);
    let mut stack = Stack::default();
    for i in 0..32u32 {
        stack.push(i * 3);
    }
    for i in (0..32u32).rev() {
        assert_eq!(stack.pop(), i * 3);
    }
    assert!(stack.is_empty().get());
}
