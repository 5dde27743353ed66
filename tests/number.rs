use gtmpl_value::{Binary32, Binary64, Number, ToValue, Value};
use std::cmp::Ordering;

fn float(x: f64) -> Number {
    Number::from_f64_bits(x.to_bits())
}

fn float_of(n: &Number) -> Option<f64> {
    n.as_f64().map(f64::from_bits)
}

#[test]
fn test_i() {
    let num: Number = (-23i8).into();
    assert_eq!(num.as_i64(), Some(-23i64));
    assert_eq!(num.as_u64(), None);
    assert_eq!(num.as_f64(), None);
}

#[test]
fn test_u() {
    let num: Number = 23u8.into();
    assert_eq!(num.as_i64(), Some(23i64));
    assert_eq!(num.as_u64(), Some(23u64));
    assert_eq!(num.as_f64(), None);
}

#[test]
fn test_u_max() {
    let num: Number = u64::MAX.into();
    assert_eq!(num.as_i64(), None);
    assert_eq!(num.as_u64(), Some(u64::MAX));
    assert_eq!(num.as_f64(), None);
}

#[test]
fn test_f() {
    let num: Number = float(23.42f64);
    assert_eq!(num.as_i64(), None);
    assert_eq!(num.as_u64(), None);
    assert_eq!(float_of(&num), Some(23.42f64));
    let num: Number = float(-23.42f64);
    assert_eq!(num.as_i64(), None);
    assert_eq!(num.as_u64(), None);
    assert_eq!(float_of(&num), Some(-23.42f64));
}

#[test]
fn test_le() {
    let a: Number = float(23.0f64);
    let b: Number = 24u64.into();
    assert!(a <= b);
}

#[test]
fn test_ge() {
    let a: Number = 1u64.into();
    let b: Number = (-1i64).into();
    assert!(a > b);
}

#[test]
fn nonnegative_integers_read_back() {
    let zero: Number = 0i32.into();
    assert_eq!(zero.as_u64(), Some(0));
    assert_eq!(zero.as_i64(), Some(0));
    assert_eq!(zero.as_f64(), None);
    let top: Number = (i64::MAX as u64).into();
    assert_eq!(top.as_i64(), Some(i64::MAX));
    let over: Number = (i64::MAX as u64 + 1).into();
    assert_eq!(over.as_u64(), Some(i64::MAX as u64 + 1));
    assert_eq!(over.as_i64(), None);
    assert_eq!(over.as_f64(), None);
    let wide: Number = usize::MAX.into();
    assert_eq!(wide.as_u64(), Some(usize::MAX as u64));
    let small: Number = 7isize.into();
    assert_eq!(small.as_u64(), Some(7));
}

#[test]
fn negative_integers_read_back() {
    for n in [-1i64, -23, i64::MIN] {
        let num: Number = n.into();
        assert_eq!(num.as_i64(), Some(n));
        assert_eq!(num.as_u64(), None);
        assert_eq!(num.as_f64(), None);
    }
    let num: Number = (-5i16).into();
    assert_eq!(num.as_i64(), Some(-5));
    let num: Number = (-5i32).into();
    assert_eq!(num.as_i64(), Some(-5));
}

#[test]
fn fractional_floats_stay_floats() {
    for x in [0.5f64, -2.25, 1.0 + f64::EPSILON, 1e-10, 4503599627370495.5] {
        let num = float(x);
        assert_eq!(float_of(&num), Some(x));
        assert_eq!(num.as_u64(), None);
        assert_eq!(num.as_i64(), None);
    }
    let nan = float(f64::NAN);
    assert!(float_of(&nan).unwrap().is_nan());
    assert_eq!(float_of(&float(f64::INFINITY)), Some(f64::INFINITY));
    assert_eq!(float_of(&float(f64::NEG_INFINITY)), Some(f64::NEG_INFINITY));
}

#[test]
fn integral_floats_collapse() {
    assert_eq!(float(23.0).as_u64(), Some(23));
    assert_eq!(float(-23.0).as_i64(), Some(-23));
    assert_eq!(float(-23.0).as_u64(), None);
    assert_eq!(float(1e-20).as_u64(), Some(0));
    assert_eq!(float(-1e-20).as_i64(), Some(0));
    assert_eq!(float(-0.0).as_i64(), Some(0));
    assert_eq!(float(-0.0).as_u64(), Some(0));
    assert_eq!(float(0.0).as_u64(), Some(0));
    assert_eq!(float(1e30).as_u64(), Some(u64::MAX));
    assert_eq!(float(-1e30).as_i64(), Some(i64::MIN));
    assert_eq!(float(9007199254740993.0).as_u64(), Some(9007199254740992));
    assert_eq!(float(18446744073709551616.0).as_u64(), Some(u64::MAX));
    assert_eq!(float(-9223372036854775808.0).as_i64(), Some(i64::MIN));
}

#[test]
fn binary32_uses_its_own_epsilon() {
    let tiny = Number::from_f32_bits(1e-10f32.to_bits());
    assert_eq!(tiny.as_u64(), Some(0));
    let half = Number::from_f32_bits(0.5f32.to_bits());
    assert_eq!(float_of(&half), Some(0.5));
    let third = Number::from_f32_bits((1.0f32 / 3.0).to_bits());
    assert_eq!(float_of(&third), Some((1.0f32 / 3.0) as f64));
    let neg = Number::from_f32_bits((-7.75f32).to_bits());
    assert_eq!(float_of(&neg), Some(-7.75));
    let whole = Number::from_f32_bits((-12.0f32).to_bits());
    assert_eq!(whole.as_i64(), Some(-12));
    assert_eq!(float_of(&Number::from_f32_bits(f32::INFINITY.to_bits())), Some(f64::INFINITY));
    assert!(float_of(&Number::from_f32_bits(f32::NAN.to_bits())).unwrap().is_nan());
    let v = Binary32(2.5f32.to_bits()).to_value();
    assert!(v == Value::from(Binary64(2.5f64.to_bits())));
}

#[test]
fn signed_below_unsigned_whatever_the_values() {
    let neg: Number = (-1i64).into();
    let one: Number = 1u64.into();
    assert_eq!(neg.partial_cmp(&one), Some(Ordering::Less));
    assert_eq!(one.partial_cmp(&neg), Some(Ordering::Greater));
    let min: Number = i64::MIN.into();
    let zero: Number = 0u64.into();
    assert!(min < zero);
    let neg_zero = float(-0.0);
    assert_eq!(neg_zero.as_i64(), Some(0));
    assert!(neg_zero < zero);
}

#[test]
fn same_kind_orders_natively() {
    let a: Number = 3u64.into();
    let b: Number = 5u8.into();
    assert!(a < b);
    let c: Number = (-9i64).into();
    let d: Number = (-2i8).into();
    assert!(c < d);
    assert_eq!(float(0.5).partial_cmp(&float(0.25)), Some(Ordering::Greater));
    assert_eq!(float(-0.5).partial_cmp(&float(0.25)), Some(Ordering::Less));
    assert_eq!(float(f64::NAN).partial_cmp(&float(0.5)), None);
    assert_eq!(float(f64::INFINITY).partial_cmp(&float(1e300)), Some(Ordering::Greater));
}

#[test]
fn float_against_integer() {
    let one: Number = 1u64.into();
    let minus_two: Number = (-2i64).into();
    assert_eq!(float(0.5).partial_cmp(&one), Some(Ordering::Less));
    assert_eq!(one.partial_cmp(&float(0.5)), Some(Ordering::Greater));
    assert_eq!(float(-2.5).partial_cmp(&minus_two), Some(Ordering::Less));
    assert_eq!(minus_two.partial_cmp(&float(-1.5)), Some(Ordering::Less));
    assert_eq!(float(-0.5).partial_cmp(&Number::from(0u64)), Some(Ordering::Less));
    assert_eq!(float(f64::NAN).partial_cmp(&one), None);
    assert_eq!(float(f64::INFINITY).partial_cmp(&Number::from(u64::MAX)), Some(Ordering::Greater));
    assert_eq!(float(f64::NEG_INFINITY).partial_cmp(&Number::from(i64::MIN)), Some(Ordering::Less));
    let big: Number = u64::MAX.into();
    assert_eq!(float(1e10 + 0.5).partial_cmp(&big), Some(Ordering::Less));
}

#[test]
fn kinds_never_equal() {
    let unsigned_zero: Number = 0u64.into();
    let signed_zero = float(-0.0);
    assert!(unsigned_zero != signed_zero);
    let unsigned: Number = 23u64.into();
    assert!(unsigned != float(23.5));
    let from_signed: Number = 23i64.into();
    assert!(unsigned == from_signed);
    assert!(float(0.5) == float(0.5));
    assert!(float(f64::NAN) != float(f64::NAN));
    let view = unsigned.as_u64();
    assert_eq!(view, Some(23));
}
