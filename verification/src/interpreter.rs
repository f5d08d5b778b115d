//! The evaluator: from an expression tree to a value, or to a type error.

use crate::number::{
    difference_of, equal, float_add, float_div, float_mul, float_sub, less, less_or_equal,
    negate, negated, number_eq, number_le, number_lt, product_of, quotient_of, sum_of,
};
use crate::parser::{is_binary_operator, is_literal, is_unary_operator, well_formed, Expr, ExprView};
use crate::token::{Kind, TokenType};
use vstd::prelude::*;
use vstd::string::StringExecFns;

verus! {

/// A runtime value. A number is held as its 64-bit pattern. `==` on values
/// is the equality of the language: see [`values_equal`].
#[derive(Clone, Debug)]
pub enum Value {
    Nil,
    Bool(bool),
    Number(u64),
    String(String),
}

/// The view of a [`Value`].
pub ghost enum ValueView {
    Nil,
    Bool(bool),
    Number(u64),
    String(Seq<char>),
}

impl View for Value {
    type V = ValueView;

    open spec fn view(&self) -> ValueView {
        match *self {
            Value::Nil => ValueView::Nil,
            Value::Bool(b) => ValueView::Bool(b),
            Value::Number(bits) => ValueView::Number(bits),
            Value::String(text) => ValueView::String(text@),
        }
    }
}

/// Why an evaluation failed.
#[derive(Clone, Copy, Debug)]
pub enum Error {
    /// An operator met an operand of a kind that it does not take.
    Type,
}

/// Truthiness: `nil` and `false` are false, every other value is true.
pub open spec fn is_truthy(v: ValueView) -> bool {
    match v {
        ValueView::Nil => false,
        ValueView::Bool(b) => b,
        _ => true,
    }
}

/// Equality of values: of the same kind and with equal payloads. Numbers
/// are equal as numbers, text letter by letter.
pub open spec fn values_equal(a: ValueView, b: ValueView) -> bool {
    match (a, b) {
        (ValueView::Nil, ValueView::Nil) => true,
        (ValueView::Bool(x), ValueView::Bool(y)) => x == y,
        (ValueView::Number(x), ValueView::Number(y)) => number_eq(x, y),
        (ValueView::String(x), ValueView::String(y)) => x == y,
        _ => false,
    }
}

/// The value that a literal stands for.
pub open spec fn literal_value(kind: Kind) -> ValueView
    recommends
        is_literal(kind),
{
    match kind {
        Kind::Number(bits) => ValueView::Number(bits),
        Kind::String(text) => ValueView::String(text),
        Kind::True => ValueView::Bool(true),
        Kind::False => ValueView::Bool(false),
        _ => ValueView::Nil,
    }
}

/// What a prefix operator makes of a value: `-` negates a number and takes
/// nothing else, `!` gives the opposite of the value's truthiness.
pub open spec fn unary_result(operator: Kind, v: ValueView) -> Result<ValueView, Error>
    recommends
        is_unary_operator(operator),
{
    match operator {
        Kind::Minus => match v {
            ValueView::Number(bits) => Ok(ValueView::Number(negated(bits))),
            _ => Err(Error::Type),
        },
        _ => Ok(ValueView::Bool(!is_truthy(v))),
    }
}

/// What an arithmetic operator or a comparison makes of two numbers.
pub open spec fn numeric_result(operator: Kind, a: u64, b: u64) -> ValueView
    recommends
        is_binary_operator(operator),
{
    match operator {
        Kind::Plus => ValueView::Number(sum_of(a, b)),
        Kind::Minus => ValueView::Number(difference_of(a, b)),
        Kind::Star => ValueView::Number(product_of(a, b)),
        Kind::Slash => ValueView::Number(quotient_of(a, b)),
        Kind::GreaterThan => ValueView::Bool(number_lt(b, a)),
        Kind::GreaterThanOrEqual => ValueView::Bool(number_le(b, a)),
        Kind::LessThan => ValueView::Bool(number_lt(a, b)),
        _ => ValueView::Bool(number_le(a, b)),
    }
}

/// What a binary operator makes of two values. `==` and `!=` take any two
/// values. `+` takes two numbers or two strings. Every other operator takes
/// two numbers. Whatever else an operator meets is a type error.
pub open spec fn binary_result(operator: Kind, left: ValueView, right: ValueView) -> Result<
    ValueView,
    Error,
>
    recommends
        is_binary_operator(operator),
{
    match operator {
        Kind::Equal => Ok(ValueView::Bool(values_equal(left, right))),
        Kind::NotEqual => Ok(ValueView::Bool(!values_equal(left, right))),
        _ => match (left, right) {
            (ValueView::Number(a), ValueView::Number(b)) => Ok(numeric_result(operator, a, b)),
            (ValueView::String(a), ValueView::String(b)) => if operator is Plus {
                Ok(ValueView::String(a + b))
            } else {
                Err(Error::Type)
            },
            _ => Err(Error::Type),
        },
    }
}

/// The value of an expression: operands before their operator, the left one
/// first, and the first type error met ends the evaluation.
pub open spec fn value_of(e: ExprView) -> Result<ValueView, Error>
    recommends
        well_formed(e),
    decreases e,
{
    match e {
        ExprView::Literal { value } => Ok(literal_value(value)),
        ExprView::Grouping { expression } => value_of(*expression),
        ExprView::Unary { operator, right } => match value_of(*right) {
            Ok(v) => unary_result(operator, v),
            Err(error) => Err(error),
        },
        ExprView::Binary { left, operator, right } => match value_of(*left) {
            Ok(l) => match value_of(*right) {
                Ok(r) => binary_result(operator, l, r),
                Err(error) => Err(error),
            },
            Err(error) => Err(error),
        },
    }
}

/// The views of a result of evaluation.
pub open spec fn outcome_view(r: Result<Value, Error>) -> Result<ValueView, Error> {
    match r {
        Ok(v) => Ok(v@),
        Err(error) => Err(error),
    }
}

impl Value {
    /// Tells whether the value counts as true.
    pub fn truthy(&self) -> (r: bool)
        ensures
            r == is_truthy(self@),
    {
        match self {
            Value::Nil => false,
            Value::Bool(b) => *b,
            _ => true,
        }
    }

    /// Tells whether two values are equal.
    pub fn equals(&self, other: &Value) -> (r: bool)
        ensures
            r == values_equal(self@, other@),
    {
        match (self, other) {
            (Value::Nil, Value::Nil) => true,
            (Value::Bool(a), Value::Bool(b)) => *a == *b,
            (Value::Number(a), Value::Number(b)) => equal(*a, *b),
            (Value::String(a), Value::String(b)) => *a == *b,
            _ => false,
        }
    }
}

impl PartialEq for Value {
    fn eq(&self, other: &Value) -> (r: bool) {
        self.equals(other)
    }
}

impl vstd::std_specs::cmp::PartialEqSpecImpl for Value {
    open spec fn obeys_eq_spec() -> bool {
        true
    }

    open spec fn eq_spec(&self, other: &Value) -> bool {
        values_equal(self@, other@)
    }
}

/// The value of a literal token.
pub fn literal(value: &TokenType) -> (r: Value)
    requires
        is_literal(value@),
    ensures
        r@ == literal_value(value@),
{
    match value {
        TokenType::Number(bits) => Value::Number(*bits),
        TokenType::String(text) => Value::String(text.clone()),
        TokenType::True => Value::Bool(true),
        TokenType::False => Value::Bool(false),
        _ => Value::Nil,
    }
}

/// Applies a prefix operator to a value.
pub fn apply_unary(operator: &TokenType, right: Value) -> (r: Result<Value, Error>)
    requires
        is_unary_operator(operator@),
    ensures
        outcome_view(r) == unary_result(operator@, right@),
{
    match operator {
        TokenType::Minus => {
            if let Value::Number(bits) = right {
                Ok(Value::Number(negate(bits)))
            } else {
                Err(Error::Type)
            }
        },
        _ => Ok(Value::Bool(!right.truthy())),
    }
}

/// Applies an arithmetic operator or a comparison to two numbers.
pub fn apply_numeric(operator: &TokenType, a: u64, b: u64) -> (r: Value)
    requires
        is_binary_operator(operator@),
    ensures
        r@ == numeric_result(operator@, a, b),
{
    match operator {
        TokenType::Plus => Value::Number(float_add(a, b)),
        TokenType::Minus => Value::Number(float_sub(a, b)),
        TokenType::Star => Value::Number(float_mul(a, b)),
        TokenType::Slash => Value::Number(float_div(a, b)),
        TokenType::GreaterThan => Value::Bool(less(b, a)),
        TokenType::GreaterThanOrEqual => Value::Bool(less_or_equal(b, a)),
        TokenType::LessThan => Value::Bool(less(a, b)),
        _ => Value::Bool(less_or_equal(a, b)),
    }
}

/// Applies a binary operator to two values.
pub fn apply_binary(operator: &TokenType, left: Value, right: Value) -> (r: Result<Value, Error>)
    requires
        is_binary_operator(operator@),
    ensures
        outcome_view(r) == binary_result(operator@, left@, right@),
{
    match operator {
        TokenType::Equal => Ok(Value::Bool(left.equals(&right))),
        TokenType::NotEqual => Ok(Value::Bool(!left.equals(&right))),
        _ => match (left, right) {
            (Value::Number(a), Value::Number(b)) => Ok(apply_numeric(operator, a, b)),
            (Value::String(a), Value::String(b)) => {
                if let TokenType::Plus = operator {
                    Ok(Value::String(a.concat(b.as_str())))
                } else {
                    Err(Error::Type)
                }
            },
            _ => Err(Error::Type),
        },
    }
}

/// Evaluates an expression.
pub fn interpret(expr: &Expr) -> (r: Result<Value, Error>)
    requires
        well_formed(expr@),
    ensures
        outcome_view(r) == value_of(expr@),
    decreases expr,
{
    match expr {
        Expr::Literal { value } => Ok(literal(value)),
        Expr::Grouping { expression } => interpret(expression),
        Expr::Unary { operator, right } => {
            match interpret(right) {
                Ok(value) => apply_unary(operator, value),
                Err(error) => Err(error),
            }
        },
        Expr::Binary { left, operator, right } => {
            match interpret(left) {
                Ok(l) => match interpret(right) {
                    Ok(r) => apply_binary(operator, l, r),
                    Err(error) => Err(error),
                },
                Err(error) => Err(error),
            }
        },
    }
}

/// `e` inside `depth` pairs of brackets.
pub open spec fn nested(e: ExprView, depth: nat) -> ExprView
    decreases depth,
{
    if depth == 0 {
        e
    } else {
        ExprView::Grouping { expression: Box::new(nested(e, (depth - 1) as nat)) }
    }
}

/// Brackets change no value: however deep an expression is nested in them,
/// it evaluates to what it evaluates to without them.
pub proof fn lemma_grouping_keeps_value(e: ExprView, depth: nat)
    ensures
        value_of(nested(e, depth)) == value_of(e),
        well_formed(nested(e, depth)) == well_formed(e),
    decreases depth,
{
    if depth > 0 {
        lemma_grouping_keeps_value(e, (depth - 1) as nat);
    }
}

/// `!` applied twice gives the truthiness of its operand, whatever the
/// operand is, and never fails.
pub proof fn lemma_double_negation(v: ValueView)
    ensures
        unary_result(Kind::Bang, v) matches Ok(once) && unary_result(Kind::Bang, once) == Ok::<
            ValueView,
            Error,
        >(ValueView::Bool(is_truthy(v))),
{
}

/// Equality of values is symmetric, and `!=` is its negation.
pub proof fn lemma_equality(a: ValueView, b: ValueView)
    ensures
        values_equal(a, b) == values_equal(b, a),
        binary_result(Kind::Equal, a, b) == Ok::<ValueView, Error>(
            ValueView::Bool(values_equal(a, b)),
        ),
        binary_result(Kind::NotEqual, a, b) == Ok::<ValueView, Error>(
            ValueView::Bool(!values_equal(a, b)),
        ),
{
}

/// Values of different kinds are never equal.
pub proof fn lemma_kinds_differ(a: ValueView, b: ValueView)
    requires
        values_equal(a, b),
    ensures
        a is Nil == b is Nil,
        a is Bool == b is Bool,
        a is Number == b is Number,
        a is String == b is String,
{
}

} // verus!
