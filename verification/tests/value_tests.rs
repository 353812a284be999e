use muoni::bignum::BigNum;
use muoni::value::{add, ComplexBig, ComplexInt, Number, Value};
use num_bigint::BigInt;

fn big(b: &BigNum) -> BigInt {
    BigInt::from_signed_bytes_le(&b.bytes)
}

fn sum(a: Number, b: Number) -> Number {
    match add(&Value::N(a), &Value::N(b)) {
        Value::N(n) => n,
        other => panic!("not a number: {:?}", other),
    }
}

fn rb(n: i64) -> Number {
    Number::RB(BigNum::from_i64(n))
}

fn cb(re: i64, im: i64) -> Number {
    Number::CB(ComplexBig { re: BigNum::from_i64(re), im: BigNum::from_i64(im) })
}

fn ci(re: i64, im: i64) -> Number {
    Number::CI(ComplexInt { re, im })
}

#[test]
fn from_i64_gives_twos_complement_bytes() {
    assert_eq!(BigNum::from_i64(-1125).bytes, vec![155, 251]);
    assert_eq!(BigNum::from_i64(0).bytes, vec![0]);
    assert_eq!(BigNum::from_i64(255).bytes, vec![255, 0]);
    assert_eq!(big(&BigNum::from_i64(i64::MIN)), BigInt::from(i64::MIN));
}

#[test]
fn small_integers_add_to_small_integer() {
    assert_eq!(sum(Number::RI(2), Number::RI(3)), Number::RI(5));
    assert_eq!(sum(Number::RI(-7), Number::RI(3)), Number::RI(-4));
}

#[test]
fn integer_overflow_widens_to_big() {
    match sum(Number::RI(i64::MAX), Number::RI(1)) {
        Number::RB(b) => assert_eq!(big(&b), BigInt::from(i64::MAX) + 1),
        other => panic!("expected a big integer, got {:?}", other),
    }
    match sum(Number::RI(i64::MIN), Number::RI(-1)) {
        Number::RB(b) => assert_eq!(big(&b), BigInt::from(i64::MIN) - 1),
        other => panic!("expected a big integer, got {:?}", other),
    }
    match sum(Number::RI(i64::MAX), Number::RI(i64::MAX)) {
        Number::RB(b) => assert_eq!(big(&b), BigInt::from(i64::MAX) * 2),
        other => panic!("expected a big integer, got {:?}", other),
    }
}

#[test]
fn no_widening_at_the_edge() {
    assert_eq!(sum(Number::RI(i64::MAX), Number::RI(0)), Number::RI(i64::MAX));
    assert_eq!(sum(Number::RI(i64::MIN), Number::RI(0)), Number::RI(i64::MIN));
    assert_eq!(sum(Number::RI(i64::MAX), Number::RI(i64::MIN)), Number::RI(-1));
}

#[test]
fn big_integers_add_exactly() {
    let x = sum(Number::RI(i64::MAX), Number::RI(i64::MAX));
    let y = sum(x.clone(), x.clone());
    match y {
        Number::RB(b) => assert_eq!(big(&b), BigInt::from(i64::MAX) * 4),
        other => panic!("expected a big integer, got {:?}", other),
    }
    assert_eq!(sum(rb(40), rb(2)), rb(42));
    assert_eq!(sum(rb(-40), rb(2)), rb(-38));
}

#[test]
fn big_and_small_integers() {
    assert_eq!(sum(rb(400), Number::RI(5)), rb(405));
    assert_eq!(sum(Number::RI(5), rb(400)), rb(405));
    assert_eq!(sum(rb(0), Number::RI(-3)), rb(-3));
}

#[test]
fn complex_integers() {
    assert_eq!(sum(ci(1, 2), ci(3, -4)), ci(4, -2));
    assert_eq!(sum(ci(1, 2), Number::RI(10)), ci(11, 2));
    assert_eq!(sum(Number::RI(10), ci(1, 2)), ci(11, 2));
}

#[test]
fn complex_big_integers() {
    assert_eq!(sum(cb(1, 2), cb(3, 4)), cb(4, 6));
    assert_eq!(sum(rb(7), ci(1, 2)), cb(8, 2));
    assert_eq!(sum(ci(1, 2), rb(7)), cb(8, 2));
    assert_eq!(sum(Number::RI(7), cb(1, 2)), cb(8, 2));
    assert_eq!(sum(cb(1, 2), Number::RI(7)), cb(8, 2));
    assert_eq!(sum(rb(7), cb(1, 2)), cb(8, 2));
    assert_eq!(sum(cb(1, 2), rb(7)), cb(8, 2));
    assert_eq!(sum(ci(5, -5), cb(1, 2)), cb(6, -3));
    assert_eq!(sum(cb(1, 2), ci(5, -5)), cb(6, -3));
}

#[test]
fn complex_parts_do_not_widen_each_other() {
    match sum(cb(i64::MAX, i64::MIN), ci(i64::MAX, i64::MIN)) {
        Number::CB(c) => {
            assert_eq!(big(&c.re), BigInt::from(i64::MAX) * 2);
            assert_eq!(big(&c.im), BigInt::from(i64::MIN) * 2);
        }
        other => panic!("expected a complex big integer, got {:?}", other),
    }
}

#[test]
fn addition_commutes_on_samples() {
    let samples = vec![
        Number::RI(3),
        Number::RI(i64::MAX),
        rb(-12),
        ci(2, 9),
        cb(-1, 4),
    ];
    for a in &samples {
        for b in &samples {
            if let (Number::CI(_), Number::CI(_)) | (Number::CI(_), Number::RI(_)) | (Number::RI(_), Number::CI(_)) = (a, b) {
                if matches!(a, Number::RI(i64::MAX)) || matches!(b, Number::RI(i64::MAX)) {
                    continue;
                }
            }
            assert_eq!(sum(a.clone(), b.clone()), sum(b.clone(), a.clone()));
        }
    }
}

#[test]
fn adding_zero_keeps_number() {
    for a in [Number::RI(-9), rb(123456), ci(1, -1), cb(0, 7)] {
        assert_eq!(sum(a.clone(), Number::RI(0)), a);
    }
}

#[test]
fn grouping_changes_kind_but_not_value() {
    let left = sum(sum(Number::RI(i64::MAX), Number::RI(1)), Number::RI(-1));
    let right = sum(Number::RI(i64::MAX), sum(Number::RI(1), Number::RI(-1)));
    assert_eq!(right, Number::RI(i64::MAX));
    match left {
        Number::RB(b) => assert_eq!(big(&b), BigInt::from(i64::MAX)),
        other => panic!("expected a big integer, got {:?}", other),
    }
}
