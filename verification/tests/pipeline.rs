use lox_expr::interpreter::{Error, Value};
use lox_expr::pipeline::{run, Failure};
use lox_expr::scanner::ScanError;

fn number(value: f64) -> Value {
    Value::Number(value.to_bits())
}

fn text(value: &str) -> Value {
    Value::String(value.to_string())
}

fn value_of(source: &str) -> Value {
    match run(source.as_bytes()) {
        Ok(value) => value,
        Err(failure) => panic!("{source:?} gave {failure:?}"),
    }
}

fn is_type_error(source: &str) -> bool {
    matches!(run(source.as_bytes()), Err(Failure::Type(Error::Type)))
}

fn is_syntax_error(source: &str) -> bool {
    matches!(run(source.as_bytes()), Err(Failure::Syntactic(_)))
}

#[test]
fn multiplication_binds_tighter_than_addition() {
    assert_eq!(value_of("2 + 3 * 4"), number(14.0));
    assert_eq!(value_of("(2 + 3) * 4"), number(20.0));
    assert_eq!(value_of("2 * 3 + 4"), number(10.0));
    assert_eq!(value_of("1 + 6 / 3"), number(3.0));
}

#[test]
fn binary_operators_associate_to_the_left() {
    assert_eq!(value_of("8 - 4 - 2"), number(2.0));
    assert_eq!(value_of("8 / 4 / 2"), number(1.0));
    assert_eq!(value_of("8 - (4 - 2)"), number(6.0));
    assert_eq!(value_of("1 < 2 == true"), Value::Bool(true));
}

#[test]
fn strings_concatenate_and_do_not_mix_with_numbers() {
    assert_eq!(value_of("\"foo\" + \"bar\""), text("foobar"));
    assert_eq!(value_of("\"\" + \"\""), text(""));
    assert!(is_type_error("\"foo\" + 1"));
    assert!(is_type_error("1 + \"foo\""));
    assert!(is_type_error("\"foo\" - \"bar\""));
    assert!(is_type_error("\"foo\" * \"bar\""));
    assert!(is_type_error("\"foo\" < \"bar\""));
}

#[test]
fn only_nil_and_false_are_falsy() {
    assert_eq!(value_of("!nil"), Value::Bool(true));
    assert_eq!(value_of("!0"), Value::Bool(false));
    assert_eq!(value_of("!false"), Value::Bool(true));
    assert_eq!(value_of("!true"), Value::Bool(false));
    assert_eq!(value_of("!\"\""), Value::Bool(false));
    assert_eq!(value_of("!!nil"), Value::Bool(false));
    assert_eq!(value_of("!!\"text\""), Value::Bool(true));
}

#[test]
fn equality_does_not_coerce() {
    assert_eq!(value_of("1 == \"1\""), Value::Bool(false));
    assert_eq!(value_of("nil == nil"), Value::Bool(true));
    assert_eq!(value_of("nil == false"), Value::Bool(false));
    assert_eq!(value_of("1 != \"1\""), Value::Bool(true));
    assert_eq!(value_of("\"a\" == \"a\""), Value::Bool(true));
    assert_eq!(value_of("\"a\" != \"b\""), Value::Bool(true));
    assert_eq!(value_of("true == true"), Value::Bool(true));
    assert_eq!(value_of("1 == 1.0"), Value::Bool(true));
}

#[test]
fn brackets_change_no_value() {
    assert_eq!(value_of("((((1))))"), number(1.0));
    assert_eq!(value_of("1"), number(1.0));
    assert_eq!(value_of("((\"a\"))"), text("a"));
    assert_eq!(value_of("(((nil)))"), Value::Nil);
    let mut source = String::from("2.5");
    for _ in 0..200 {
        source = format!("({source})");
    }
    assert_eq!(value_of(&source), number(2.5));
}

#[test]
fn literals_evaluate_to_themselves() {
    assert_eq!(value_of("nil"), Value::Nil);
    assert_eq!(value_of("true"), Value::Bool(true));
    assert_eq!(value_of("false"), Value::Bool(false));
    assert_eq!(value_of("12.5"), number(12.5));
    assert_eq!(value_of("\"text\""), text("text"));
}

#[test]
fn minus_negates_numbers_only() {
    assert_eq!(value_of("-3"), number(-3.0));
    assert_eq!(value_of("--3"), number(3.0));
    assert_eq!(value_of("-0"), number(-0.0));
    assert_eq!(value_of("4 - -3"), number(7.0));
    assert!(is_type_error("-\"a\""));
    assert!(is_type_error("-nil"));
    assert!(is_type_error("-true"));
}

#[test]
fn arithmetic_is_that_of_doubles() {
    assert_eq!(value_of("1 + 2"), number(3.0));
    assert_eq!(value_of("5 - 3"), number(2.0));
    assert_eq!(value_of("2 * 3"), number(6.0));
    assert_eq!(value_of("7 / 2"), number(3.5));
    assert_eq!(value_of("0.1 + 0.2"), number(0.1 + 0.2));
    assert_eq!(value_of("1 / 3"), number(1.0 / 3.0));
    assert_eq!(value_of("1 / 0"), number(f64::INFINITY));
    assert_eq!(value_of("-1 / 0"), number(f64::NEG_INFINITY));
    match value_of("0 / 0") {
        Value::Number(bits) => assert!(f64::from_bits(bits).is_nan()),
        other => panic!("{other:?}"),
    }
    assert_eq!(value_of("0 / 0 == 0 / 0"), Value::Bool(false));
    assert_eq!(value_of("0 / 0 != 0 / 0"), Value::Bool(true));
    assert_eq!(value_of("0 == -0"), Value::Bool(true));
}

#[test]
fn comparisons_take_numbers_only() {
    assert_eq!(value_of("1 < 2"), Value::Bool(true));
    assert_eq!(value_of("2 < 1"), Value::Bool(false));
    assert_eq!(value_of("2 <= 2"), Value::Bool(true));
    assert_eq!(value_of("3 > 2"), Value::Bool(true));
    assert_eq!(value_of("2 > 3"), Value::Bool(false));
    assert_eq!(value_of("2 >= 3"), Value::Bool(false));
    assert_eq!(value_of("-1 < 0"), Value::Bool(true));
    assert_eq!(value_of("0 / 0 < 1"), Value::Bool(false));
    assert_eq!(value_of("0 / 0 >= 1"), Value::Bool(false));
    assert!(is_type_error("1 < nil"));
    assert!(is_type_error("true > false"));
    assert!(is_type_error("nil <= nil"));
}

#[test]
fn the_first_type_error_ends_evaluation() {
    assert!(is_type_error("(1 + nil) * (2 + \"a\")"));
    assert!(is_type_error("1 + (2 + (3 + nil))"));
    assert!(is_type_error("!(1 + nil)"));
    assert!(is_type_error("(1 + nil) == (1 + nil)"));
}

#[test]
fn syntax_errors_are_reported_as_such() {
    assert!(is_syntax_error(""));
    assert!(is_syntax_error(")"));
    assert!(is_syntax_error("(1"));
    assert!(is_syntax_error("(1 + 2"));
    assert!(is_syntax_error("1 +"));
    assert!(is_syntax_error("* 2"));
    assert!(is_syntax_error("()"));
    assert!(is_syntax_error("abc"));
    assert!(is_syntax_error("1 + var"));
}

#[test]
fn what_follows_the_expression_is_not_read() {
    assert_eq!(value_of("1 2"), number(1.0));
    assert_eq!(value_of("1 + 2 )"), number(3.0));
    assert_eq!(value_of("true;"), Value::Bool(true));
}

#[test]
fn lexical_errors_come_before_all_else() {
    match run(b"(1 + @ # \"abc") {
        Err(Failure::Lexical(errors)) => {
            assert_eq!(errors.len(), 3);
            assert_eq!(
                errors.errors(),
                &vec![
                    ScanError::UnexpectedCharacter { character: '@', line: 1 },
                    ScanError::UnexpectedCharacter { character: '#', line: 1 },
                    ScanError::UnterminatedString { line: 1 },
                ]
            );
        }
        other => panic!("{other:?}"),
    }
}

#[test]
fn comments_and_blanks_are_skipped() {
    assert_eq!(value_of("// nothing\n 1 + // one\n\t2 // three"), number(3.0));
    assert_eq!(value_of("6 / 3 // 2"), number(2.0));
}
