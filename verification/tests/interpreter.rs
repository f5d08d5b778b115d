use lox_expr::interpreter::{apply_binary, apply_unary, interpret, literal, Error, Value};
use lox_expr::parser::Expr;
use lox_expr::scanner::TokenType;

fn number(value: f64) -> Value {
    Value::Number(value.to_bits())
}

fn text(value: &str) -> Value {
    Value::String(value.to_string())
}

fn each_kind() -> Vec<Value> {
    vec![Value::Nil, Value::Bool(true), Value::Bool(false), number(0.0), number(1.0), text(""), text("a")]
}

#[test]
fn truthiness_of_each_kind() {
    assert!(!Value::Nil.truthy());
    assert!(!Value::Bool(false).truthy());
    assert!(Value::Bool(true).truthy());
    assert!(number(0.0).truthy());
    assert!(number(f64::NAN).truthy());
    assert!(text("").truthy());
    assert!(text("false").truthy());
}

#[test]
fn values_are_equal_only_within_a_kind() {
    let values = each_kind();
    for (i, a) in values.iter().enumerate() {
        for (j, b) in values.iter().enumerate() {
            assert_eq!(a.equals(b), i == j, "{a:?} {b:?}");
            assert_eq!(a.equals(b), b.equals(a));
        }
    }
    assert!(number(0.0).equals(&number(-0.0)));
    assert!(!number(f64::NAN).equals(&number(f64::NAN)));
    assert!(text("abc").equals(&text("abc")));
    assert!(!text("abc").equals(&text("abd")));
}

#[test]
fn a_literal_token_gives_its_value() {
    assert_eq!(literal(&TokenType::Number(2.5_f64.to_bits())), number(2.5));
    assert_eq!(literal(&TokenType::String("s".to_string())), text("s"));
    assert_eq!(literal(&TokenType::True), Value::Bool(true));
    assert_eq!(literal(&TokenType::False), Value::Bool(false));
    assert_eq!(literal(&TokenType::Nil), Value::Nil);
}

#[test]
fn bang_never_fails() {
    for value in each_kind() {
        let truthy = value.truthy();
        assert_eq!(apply_unary(&TokenType::Bang, value).unwrap(), Value::Bool(!truthy));
    }
}

#[test]
fn minus_fails_on_all_but_numbers() {
    for value in each_kind() {
        let result = apply_unary(&TokenType::Minus, value.clone());
        match value {
            Value::Number(bits) => {
                assert_eq!(result.unwrap(), number(-f64::from_bits(bits)))
            }
            _ => assert!(matches!(result, Err(Error::Type))),
        }
    }
}

#[test]
fn equality_operators_never_fail() {
    for a in each_kind() {
        for b in each_kind() {
            let same = a.equals(&b);
            assert_eq!(
                apply_binary(&TokenType::Equal, a.clone(), b.clone()).unwrap(),
                Value::Bool(same)
            );
            assert_eq!(
                apply_binary(&TokenType::NotEqual, a.clone(), b.clone()).unwrap(),
                Value::Bool(!same)
            );
        }
    }
}

#[test]
fn other_operators_fail_on_mixed_kinds() {
    let operators = [
        TokenType::Plus,
        TokenType::Minus,
        TokenType::Star,
        TokenType::Slash,
        TokenType::LessThan,
        TokenType::LessThanOrEqual,
        TokenType::GreaterThan,
        TokenType::GreaterThanOrEqual,
    ];
    for operator in operators {
        for a in each_kind() {
            for b in each_kind() {
                let result = apply_binary(&operator, a.clone(), b.clone());
                let numbers = matches!((&a, &b), (Value::Number(_), Value::Number(_)));
                let strings = matches!((&a, &b), (Value::String(_), Value::String(_)));
                let owed = numbers || (strings && operator == TokenType::Plus);
                assert_eq!(result.is_ok(), owed, "{a:?} {operator:?} {b:?}");
            }
        }
    }
}

#[test]
fn plus_joins_text_in_order() {
    assert_eq!(apply_binary(&TokenType::Plus, text("ab"), text("cd")).unwrap(), text("abcd"));
    assert_eq!(apply_binary(&TokenType::Plus, text(""), text("cd")).unwrap(), text("cd"));
    assert_eq!(apply_binary(&TokenType::Plus, text("é"), text("ü")).unwrap(), text("éü"));
}

#[test]
fn a_tree_built_by_hand_evaluates() {
    let tree = Expr::Binary {
        left: Box::new(Expr::Grouping {
            expression: Box::new(Expr::Binary {
                left: Box::new(Expr::Literal { value: TokenType::Number(2.0_f64.to_bits()) }),
                operator: TokenType::Plus,
                right: Box::new(Expr::Literal { value: TokenType::Number(3.0_f64.to_bits()) }),
            }),
        }),
        operator: TokenType::Star,
        right: Box::new(Expr::Unary {
            operator: TokenType::Minus,
            right: Box::new(Expr::Literal { value: TokenType::Number(4.0_f64.to_bits()) }),
        }),
    };
    assert_eq!(interpret(&tree).unwrap(), number(-20.0));
    let boxed = Box::new(tree);
    assert_eq!(interpret(&boxed).unwrap(), number(-20.0));
}

#[test]
fn equality_of_values_is_that_of_the_language() {
    assert!(number(0.0) == number(-0.0));
    assert!(number(f64::NAN) != number(f64::NAN));
    assert!(number(1.0) == number(1.0));
    assert!(number(1.0) != number(2.0));
    assert!(text("a") == text("a"));
    assert!(text("a") != text("b"));
    assert!(Value::Nil == Value::Nil);
    assert!(Value::Nil != Value::Bool(false));
    assert!(number(0.0) != text("0"));
}

#[test]
fn hand_built_trees_can_be_checked() {
    let good = Expr::Unary {
        operator: TokenType::Bang,
        right: Box::new(Expr::Grouping {
            expression: Box::new(Expr::Binary {
                left: Box::new(Expr::Literal { value: TokenType::Nil }),
                operator: TokenType::Slash,
                right: Box::new(Expr::Literal { value: TokenType::String("s".to_string()) }),
            }),
        }),
    };
    assert!(good.is_well_formed());
    assert!(matches!(interpret(&good), Err(Error::Type)));
    let literal = Expr::Literal { value: TokenType::Plus };
    assert!(!literal.is_well_formed());
    let unary = Expr::Unary {
        operator: TokenType::Plus,
        right: Box::new(Expr::Literal { value: TokenType::Nil }),
    };
    assert!(!unary.is_well_formed());
    let binary = Expr::Binary {
        left: Box::new(Expr::Literal { value: TokenType::Nil }),
        operator: TokenType::Bang,
        right: Box::new(Expr::Literal { value: TokenType::Nil }),
    };
    assert!(!binary.is_well_formed());
    let deep = Expr::Grouping {
        expression: Box::new(Expr::Binary {
            left: Box::new(Expr::Literal { value: TokenType::Nil }),
            operator: TokenType::Plus,
            right: Box::new(Expr::Literal { value: TokenType::Identifier("x".to_string()) }),
        }),
    };
    assert!(!deep.is_well_formed());
}
