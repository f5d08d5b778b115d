use lox_expr::parser::{parse, synchronize, Expr};
use lox_expr::scanner::{scan_tokens, Token, TokenType};

fn tokens(source: &str) -> Vec<Token> {
    scan_tokens(source.as_bytes()).unwrap()
}

fn number(value: f64) -> Box<Expr> {
    Box::new(Expr::Literal { value: TokenType::Number(value.to_bits()) })
}

fn binary(left: Box<Expr>, operator: TokenType, right: Box<Expr>) -> Box<Expr> {
    Box::new(Expr::Binary { left, operator, right })
}

fn shape(expr: &Expr) -> String {
    format!("{expr:?}")
}

fn parsed(source: &str) -> String {
    shape(&parse(tokens(source)).unwrap())
}

#[test]
fn a_literal_parses_to_itself() {
    assert_eq!(parsed("1"), shape(&number(1.0)));
    assert_eq!(parsed("nil"), shape(&Expr::Literal { value: TokenType::Nil }));
    assert_eq!(parsed("true"), shape(&Expr::Literal { value: TokenType::True }));
    assert_eq!(parsed("false"), shape(&Expr::Literal { value: TokenType::False }));
    assert_eq!(
        parsed("\"a\""),
        shape(&Expr::Literal { value: TokenType::String("a".to_string()) })
    );
}

#[test]
fn same_level_operators_fold_to_the_left() {
    let expected = binary(
        binary(number(1.0), TokenType::Minus, number(2.0)),
        TokenType::Minus,
        number(3.0),
    );
    assert_eq!(parsed("1 - 2 - 3"), shape(&expected));
    let expected = binary(
        binary(number(1.0), TokenType::Equal, number(2.0)),
        TokenType::NotEqual,
        number(3.0),
    );
    assert_eq!(parsed("1 == 2 != 3"), shape(&expected));
}

#[test]
fn higher_levels_bind_tighter() {
    let expected = binary(
        number(1.0),
        TokenType::Plus,
        binary(number(2.0), TokenType::Star, number(3.0)),
    );
    assert_eq!(parsed("1 + 2 * 3"), shape(&expected));
    let expected = binary(
        binary(number(1.0), TokenType::Star, number(2.0)),
        TokenType::Plus,
        number(3.0),
    );
    assert_eq!(parsed("1 * 2 + 3"), shape(&expected));
    let expected = binary(
        binary(
            number(1.0),
            TokenType::LessThan,
            binary(number(2.0), TokenType::Plus, number(3.0)),
        ),
        TokenType::Equal,
        Box::new(Expr::Literal { value: TokenType::True }),
    );
    assert_eq!(parsed("1 < 2 + 3 == true"), shape(&expected));
}

#[test]
fn prefix_operators_nest_to_the_right() {
    let expected = Expr::Unary {
        operator: TokenType::Bang,
        right: Box::new(Expr::Unary {
            operator: TokenType::Bang,
            right: Box::new(Expr::Literal { value: TokenType::True }),
        }),
    };
    assert_eq!(parsed("!!true"), shape(&expected));
    let expected = binary(
        Box::new(Expr::Unary { operator: TokenType::Minus, right: number(1.0) }),
        TokenType::Minus,
        Box::new(Expr::Unary { operator: TokenType::Minus, right: number(2.0) }),
    );
    assert_eq!(parsed("-1 - -2"), shape(&expected));
}

#[test]
fn brackets_make_a_grouping() {
    let expected = binary(
        Box::new(Expr::Grouping {
            expression: binary(number(1.0), TokenType::Plus, number(2.0)),
        }),
        TokenType::Star,
        number(3.0),
    );
    assert_eq!(parsed("(1 + 2) * 3"), shape(&expected));
    let expected = Expr::Grouping { expression: Box::new(Expr::Grouping { expression: number(1.0) }) };
    assert_eq!(parsed("((1))"), shape(&expected));
}

#[test]
fn a_missing_primary_is_an_error() {
    assert!(parse(tokens("")).is_err());
    assert!(parse(tokens("+")).is_err());
    assert!(parse(tokens("1 *")).is_err());
    assert!(parse(tokens("1 == == 2")).is_err());
    assert!(parse(tokens("!")).is_err());
    assert!(parse(tokens("{")).is_err());
    assert!(parse(Vec::new()).is_err());
}

#[test]
fn an_open_bracket_is_an_error() {
    assert!(parse(tokens("(1")).is_err());
    assert!(parse(tokens("((1)")).is_err());
    assert!(parse(tokens("(1 2)")).is_err());
    assert!(parse(vec![
        Token { kind: TokenType::LeftBracket, line: 1 },
        Token { kind: TokenType::Nil, line: 1 },
    ])
    .is_err());
}

#[test]
fn tokens_without_an_end_mark_parse_too() {
    let expr = parse(vec![
        Token { kind: TokenType::Number(1.0_f64.to_bits()), line: 1 },
        Token { kind: TokenType::Plus, line: 1 },
        Token { kind: TokenType::Number(2.0_f64.to_bits()), line: 1 },
    ])
    .unwrap();
    assert_eq!(shape(&expr), shape(&binary(number(1.0), TokenType::Plus, number(2.0))));
}

#[test]
fn parsing_reads_back_what_a_tree_spells() {
    for source in [
        "1",
        "-1",
        "!(1 == 2)",
        "1 + 2 * 3 - 4 / 5",
        "(1 + 2) * (3 - 4)",
        "1 < 2 == 3 >= 4",
        "\"a\" + \"b\" != nil",
        "-(-(-1))",
        "!!!false == true",
    ] {
        let first = parse(tokens(source)).unwrap();
        let mut spelled = Vec::new();
        spell(&first, &mut spelled);
        spelled.push(Token { kind: TokenType::EndOfFile, line: 1 });
        let kinds: Vec<TokenType> = tokens(source).into_iter().map(|t| t.kind).collect();
        let respelled: Vec<TokenType> = spelled.iter().map(|t| t.kind.clone()).collect();
        assert_eq!(kinds, respelled);
        assert_eq!(shape(&parse(spelled).unwrap()), shape(&first));
    }
}

fn spell(expr: &Expr, out: &mut Vec<Token>) {
    match expr {
        Expr::Literal { value } => out.push(Token { kind: value.clone(), line: 1 }),
        Expr::Grouping { expression } => {
            out.push(Token { kind: TokenType::LeftBracket, line: 1 });
            spell(expression, out);
            out.push(Token { kind: TokenType::RightBracket, line: 1 });
        }
        Expr::Unary { operator, right } => {
            out.push(Token { kind: operator.clone(), line: 1 });
            spell(right, out);
        }
        Expr::Binary { left, operator, right } => {
            spell(left, out);
            out.push(Token { kind: operator.clone(), line: 1 });
            spell(right, out);
        }
    }
}

#[test]
fn synchronize_stops_after_a_semicolon() {
    let tokens = tokens("1 + ; 2 3");
    // 1 + ; 2 3 <end>
    assert_eq!(synchronize(&tokens, 0), 3);
    assert_eq!(synchronize(&tokens, 1), 3);
    assert_eq!(synchronize(&tokens, 2), 3);
    assert_eq!(synchronize(&tokens, 3), 6);
}

#[test]
fn synchronize_stops_at_a_statement_word() {
    for word in ["class", "fun", "var", "for", "if", "while", "print", "return"] {
        let tokens = tokens(&format!("1 2 {word} 3"));
        assert_eq!(synchronize(&tokens, 0), 2);
        assert_eq!(synchronize(&tokens, 1), 2);
        assert_eq!(synchronize(&tokens, 2), 5);
    }
    let tokens = tokens("1 and or nil");
    assert_eq!(synchronize(&tokens, 0), 5);
}

#[test]
fn synchronize_at_the_end_stays() {
    let tokens = tokens("1");
    assert_eq!(synchronize(&tokens, 1), 2);
    assert_eq!(synchronize(&tokens, 2), 2);
    assert_eq!(synchronize(&tokens, 7), 7);
    assert_eq!(synchronize(&[], 0), 0);
}
