use lox_expr::interpreter::{apply_numeric, Value};
use lox_expr::number::{equal, less, less_or_equal, nan, negate, INFINITY_BITS, SIGN_BIT};
use lox_expr::scanner::TokenType;

fn samples() -> Vec<f64> {
    vec![
        0.0,
        -0.0,
        1.0,
        -1.0,
        0.1,
        0.2,
        0.5,
        1.5,
        -2.75,
        3.0,
        123.32,
        1e-320,
        -1e-320,
        5e-324,
        f64::MIN_POSITIVE,
        f64::EPSILON,
        1e15,
        9007199254740993.0,
        1e300,
        -1e300,
        f64::MAX,
        f64::MIN,
        f64::INFINITY,
        f64::NEG_INFINITY,
        f64::NAN,
        -f64::NAN,
        f64::from_bits(0x7ff0_0000_0000_0001),
        f64::from_bits(0xffff_ffff_ffff_ffff),
    ]
}

fn same_number(bits: u64, expected: f64) -> bool {
    let got = f64::from_bits(bits);
    if expected.is_nan() {
        got.is_nan()
    } else {
        bits == expected.to_bits()
    }
}

fn numeric(operator: TokenType, a: f64, b: f64) -> u64 {
    match apply_numeric(&operator, a.to_bits(), b.to_bits()) {
        Value::Number(bits) => bits,
        other => panic!("{other:?}"),
    }
}

#[test]
fn the_two_constants_are_the_sign_and_infinity() {
    assert_eq!(SIGN_BIT, (-0.0_f64).to_bits());
    assert_eq!(INFINITY_BITS, f64::INFINITY.to_bits());
}

#[test]
fn nan_is_told_as_doubles_tell_it() {
    for a in samples() {
        assert_eq!(nan(a.to_bits()), a.is_nan(), "{a:?}");
    }
}

#[test]
fn negation_flips_the_sign() {
    for a in samples() {
        assert_eq!(negate(a.to_bits()), (-a).to_bits(), "{a:?}");
        assert_eq!(negate(negate(a.to_bits())), a.to_bits(), "{a:?}");
    }
    assert_eq!(negate(1.0_f64.to_bits()), (-1.0_f64).to_bits());
    assert_eq!(negate(0), SIGN_BIT);
}

#[test]
fn order_and_equality_are_those_of_doubles() {
    for a in samples() {
        for b in samples() {
            assert_eq!(equal(a.to_bits(), b.to_bits()), a == b, "{a:?} == {b:?}");
            assert_eq!(less(a.to_bits(), b.to_bits()), a < b, "{a:?} < {b:?}");
            assert_eq!(less_or_equal(a.to_bits(), b.to_bits()), a <= b, "{a:?} <= {b:?}");
        }
    }
}

#[test]
fn rounded_arithmetic_is_that_of_doubles() {
    for a in samples() {
        for b in samples() {
            assert!(same_number(numeric(TokenType::Plus, a, b), a + b), "{a:?} + {b:?}");
            assert!(same_number(numeric(TokenType::Minus, a, b), a - b), "{a:?} - {b:?}");
            assert!(same_number(numeric(TokenType::Star, a, b), a * b), "{a:?} * {b:?}");
            assert!(same_number(numeric(TokenType::Slash, a, b), a / b), "{a:?} / {b:?}");
        }
    }
}

#[test]
fn each_operation_has_its_exact_result() {
    assert_eq!(numeric(TokenType::Plus, 1.5, 2.25), 3.75_f64.to_bits());
    assert_eq!(numeric(TokenType::Minus, 1.5, 2.25), (-0.75_f64).to_bits());
    assert_eq!(numeric(TokenType::Star, 1.5, 2.25), 3.375_f64.to_bits());
    assert_eq!(numeric(TokenType::Slash, 2.25, 1.5), 1.5_f64.to_bits());
    assert_eq!(numeric(TokenType::Slash, 1.0, 0.0), f64::INFINITY.to_bits());
}

#[test]
fn comparisons_give_booleans() {
    let one = 1.0_f64.to_bits();
    let two = 2.0_f64.to_bits();
    assert_eq!(apply_numeric(&TokenType::LessThan, one, two), Value::Bool(true));
    assert_eq!(apply_numeric(&TokenType::LessThan, two, one), Value::Bool(false));
    assert_eq!(apply_numeric(&TokenType::LessThanOrEqual, two, two), Value::Bool(true));
    assert_eq!(apply_numeric(&TokenType::GreaterThan, two, one), Value::Bool(true));
    assert_eq!(apply_numeric(&TokenType::GreaterThan, two, two), Value::Bool(false));
    assert_eq!(apply_numeric(&TokenType::GreaterThanOrEqual, two, two), Value::Bool(true));
    assert_eq!(apply_numeric(&TokenType::GreaterThanOrEqual, one, two), Value::Bool(false));
}
