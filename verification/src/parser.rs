//! The parser: from tokens to one expression tree.
//!
//! ```text
//! expression → equality
//! equality   → comparison ( ("!=" | "==") comparison )*
//! comparison → term ( (">" | ">=" | "<" | "<=") term )*
//! term       → factor ( ("+" | "-") factor )*
//! factor     → unary ( ("*" | "/") unary )*
//! unary      → ("!" | "-") unary | primary
//! primary    → NUMBER | STRING | "true" | "false" | "nil" | "(" expression ")"
//! ```

use crate::token::{token_kinds, Kind, Token, TokenType};
use vstd::prelude::*;

verus! {

/// An expression tree. Operators and literals are held as the token types
/// they were read from.
#[derive(Debug)]
pub enum Expr {
    /// Two operands and the operator between them.
    Binary { left: Box<Expr>, operator: TokenType, right: Box<Expr> },
    /// An expression in brackets.
    Grouping { expression: Box<Expr> },
    /// A number, a string, `true`, `false` or `nil`.
    Literal { value: TokenType },
    /// An operator and its operand.
    Unary { operator: TokenType, right: Box<Expr> },
}

/// The view of an [`Expr`].
pub ghost enum ExprView {
    Binary { left: Box<ExprView>, operator: Kind, right: Box<ExprView> },
    Grouping { expression: Box<ExprView> },
    Literal { value: Kind },
    Unary { operator: Kind, right: Box<ExprView> },
}

impl Expr {
    /// The tree as a mathematical value.
    pub open spec fn tree(&self) -> ExprView
        decreases self,
    {
        match self {
            Expr::Binary { left, operator, right } => ExprView::Binary {
                left: Box::new(left.tree()),
                operator: operator@,
                right: Box::new(right.tree()),
            },
            Expr::Grouping { expression } => ExprView::Grouping {
                expression: Box::new(expression.tree()),
            },
            Expr::Literal { value } => ExprView::Literal { value: value@ },
            Expr::Unary { operator, right } => ExprView::Unary {
                operator: operator@,
                right: Box::new(right.tree()),
            },
        }
    }
}

impl View for Expr {
    type V = ExprView;

    open spec fn view(&self) -> ExprView {
        self.tree()
    }
}

/// A token type that is a literal: a number, a string, `true`, `false`, `nil`.
pub open spec fn is_literal(kind: Kind) -> bool {
    kind is Number || kind is String || kind is True || kind is False || kind is Nil
}

/// A token type that is a prefix operator: `!` or `-`.
pub open spec fn is_unary_operator(kind: Kind) -> bool {
    kind is Bang || kind is Minus
}

/// `!=` or `==`.
pub open spec fn is_equality_operator(kind: Kind) -> bool {
    kind is NotEqual || kind is Equal
}

/// `>`, `>=`, `<` or `<=`.
pub open spec fn is_comparison_operator(kind: Kind) -> bool {
    kind is GreaterThan || kind is GreaterThanOrEqual || kind is LessThan || kind is LessThanOrEqual
}

/// `+` or `-`.
pub open spec fn is_term_operator(kind: Kind) -> bool {
    kind is Plus || kind is Minus
}

/// `*` or `/`.
pub open spec fn is_factor_operator(kind: Kind) -> bool {
    kind is Star || kind is Slash
}

/// A token type that is an operator between two operands.
pub open spec fn is_binary_operator(kind: Kind) -> bool {
    is_equality_operator(kind) || is_comparison_operator(kind) || is_term_operator(kind)
        || is_factor_operator(kind)
}

/// Whether every node of `e` holds what its variant asks for: a literal in a
/// `Literal`, a prefix operator in a `Unary`, a binary operator in a `Binary`.
pub open spec fn well_formed(e: ExprView) -> bool
    decreases e,
{
    match e {
        ExprView::Binary { left, operator, right } => {
            &&& is_binary_operator(operator)
            &&& well_formed(*left)
            &&& well_formed(*right)
        },
        ExprView::Grouping { expression } => well_formed(*expression),
        ExprView::Literal { value } => is_literal(value),
        ExprView::Unary { operator, right } => is_unary_operator(operator) && well_formed(*right),
    }
}

/// Whether `kind` is an operator of the binary level `level`: equality is
/// level 0, comparison 1, term 2, factor 3. From 4 on a level has no
/// operator and its production is `unary`.
pub open spec fn is_operator_at(kind: Kind, level: nat) -> bool {
    if level == 0 {
        is_equality_operator(kind)
    } else if level == 1 {
        is_comparison_operator(kind)
    } else if level == 2 {
        is_term_operator(kind)
    } else if level == 3 {
        is_factor_operator(kind)
    } else {
        false
    }
}

/// What one production reads: the tree, and the index of the first token
/// after it; `None` where the tokens do not start with the production.
pub type Parsed = Option<(ExprView, int)>;

/// The rank of a level in the order of the productions' calls.
pub open spec fn level_rank(level: nat) -> nat {
    if level >= 4 {
        2
    } else {
        (6 - level) as nat
    }
}

/// `primary` at `pos`: a literal, or an expression in brackets.
pub open spec fn parse_primary(ts: Seq<Kind>, pos: int) -> Parsed
    decreases ts.len() - pos, 0nat,
{
    if pos < 0 || pos >= ts.len() {
        None
    } else if is_literal(ts[pos]) {
        Some((ExprView::Literal { value: ts[pos] }, pos + 1))
    } else if ts[pos] is LeftBracket {
        match parse_level(ts, pos + 1, 0) {
            Some((inner, next)) => if 0 <= next < ts.len() && ts[next] is RightBracket {
                Some((ExprView::Grouping { expression: Box::new(inner) }, next + 1))
            } else {
                None
            },
            None => None,
        }
    } else {
        None
    }
}

/// `unary` at `pos`: a prefix operator and its operand, or a primary.
pub open spec fn parse_unary(ts: Seq<Kind>, pos: int) -> Parsed
    decreases ts.len() - pos, 1nat,
{
    if 0 <= pos < ts.len() && is_unary_operator(ts[pos]) {
        match parse_unary(ts, pos + 1) {
            Some((right, next)) => Some(
                (ExprView::Unary { operator: ts[pos], right: Box::new(right) }, next),
            ),
            None => None,
        }
    } else {
        parse_primary(ts, pos)
    }
}

/// The production of `level` at `pos`: an operand of the next level, then
/// as many operators of this level with their operands as follow.
pub open spec fn parse_level(ts: Seq<Kind>, pos: int, level: nat) -> Parsed
    decreases ts.len() - pos, level_rank(level),
{
    if level >= 4 {
        parse_unary(ts, pos)
    } else {
        match parse_level(ts, pos, level + 1) {
            Some((first, next)) => if pos < next <= ts.len() {
                level_tail(ts, first, next, level)
            } else {
                None
            },
            None => None,
        }
    }
}

/// What follows the operand `left` of `level`, which ends before `pos`:
/// each further operator of this level takes all that came before as its
/// left operand.
pub open spec fn level_tail(ts: Seq<Kind>, left: ExprView, pos: int, level: nat) -> Parsed
    decreases ts.len() - pos, 0nat,
{
    if 0 <= pos < ts.len() && is_operator_at(ts[pos], level) {
        match parse_level(ts, pos + 1, level + 1) {
            Some((right, next)) => if pos < next <= ts.len() {
                level_tail(
                    ts,
                    ExprView::Binary {
                        left: Box::new(left),
                        operator: ts[pos],
                        right: Box::new(right),
                    },
                    next,
                    level,
                )
            } else {
                None
            },
            None => None,
        }
    } else {
        Some((left, pos))
    }
}

/// `expression` at `pos`.
pub open spec fn parse_expression(ts: Seq<Kind>, pos: int) -> Parsed {
    parse_level(ts, pos, 0)
}

/// The tree that the tokens start with, if they start with an expression.
pub open spec fn parsed_tree(ts: Seq<Kind>) -> Option<ExprView> {
    match parse_expression(ts, 0) {
        Some((e, _)) => Some(e),
        None => None,
    }
}

/// Every production reads at least one token, stays inside the tokens, and
/// gives a well-formed tree.
pub proof fn lemma_parse_level(ts: Seq<Kind>, pos: int, level: nat)
    requires
        0 <= pos,
    ensures
        parse_level(ts, pos, level) matches Some((e, next)) ==> pos < next <= ts.len()
            && well_formed(e),
    decreases ts.len() - pos, level_rank(level),
{
    if level >= 4 {
        lemma_parse_unary(ts, pos);
    } else {
        lemma_parse_level(ts, pos, level + 1);
        match parse_level(ts, pos, level + 1) {
            Some((first, next)) => {
                lemma_level_tail(ts, first, next, level);
            },
            None => {},
        }
    }
}

/// `unary` reads at least one token, stays inside the tokens, and gives a
/// well-formed tree.
pub proof fn lemma_parse_unary(ts: Seq<Kind>, pos: int)
    requires
        0 <= pos,
    ensures
        parse_unary(ts, pos) matches Some((e, next)) ==> pos < next <= ts.len() && well_formed(e),
    decreases ts.len() - pos, 1nat,
{
    if pos < ts.len() && is_unary_operator(ts[pos]) {
        lemma_parse_unary(ts, pos + 1);
    } else {
        lemma_parse_primary(ts, pos);
    }
}

/// `primary` reads at least one token, stays inside the tokens, and gives a
/// well-formed tree.
pub proof fn lemma_parse_primary(ts: Seq<Kind>, pos: int)
    requires
        0 <= pos,
    ensures
        parse_primary(ts, pos) matches Some((e, next)) ==> pos < next <= ts.len() && well_formed(
            e,
        ),
    decreases ts.len() - pos, 0nat,
{
    if pos < ts.len() && !is_literal(ts[pos]) && ts[pos] is LeftBracket {
        lemma_parse_level(ts, pos + 1, 0);
    }
}

/// The rest of a level stays inside the tokens and keeps the tree
/// well-formed.
pub proof fn lemma_level_tail(ts: Seq<Kind>, left: ExprView, pos: int, level: nat)
    requires
        0 <= pos <= ts.len(),
        well_formed(left),
        level < 4,
    ensures
        level_tail(ts, left, pos, level) matches Some((e, next)) ==> pos <= next <= ts.len()
            && well_formed(e),
    decreases ts.len() - pos, 0nat,
{
    if pos < ts.len() && is_operator_at(ts[pos], level) {
        lemma_parse_level(ts, pos + 1, level + 1);
        match parse_level(ts, pos + 1, level + 1) {
            Some((right, next)) => {
                let joined = ExprView::Binary {
                    left: Box::new(left),
                    operator: ts[pos],
                    right: Box::new(right),
                };
                lemma_level_tail(ts, joined, next, level);
            },
            None => {},
        }
    }
}

/// A syntax error: a token that starts no primary where one is expected, or
/// a bracket that is not closed.
#[derive(Clone, Copy, Debug)]
pub struct ParseError;

/// Tells whether `kind` is a literal.
pub fn literal_kind(kind: &TokenType) -> (r: bool)
    ensures
        r == is_literal(kind@),
{
    match kind {
        TokenType::Number(_) => true,
        TokenType::String(_) => true,
        TokenType::True => true,
        TokenType::False => true,
        TokenType::Nil => true,
        _ => false,
    }
}

/// Tells whether `kind` is a prefix operator.
pub fn unary_operator(kind: &TokenType) -> (r: bool)
    ensures
        r == is_unary_operator(kind@),
{
    match kind {
        TokenType::Bang => true,
        TokenType::Minus => true,
        _ => false,
    }
}

/// Tells whether `kind` is an operator of the binary level `level`.
pub fn operator_at(kind: &TokenType, level: usize) -> (r: bool)
    ensures
        r == is_operator_at(kind@, level as nat),
{
    match kind {
        TokenType::NotEqual => level == 0,
        TokenType::Equal => level == 0,
        TokenType::GreaterThan => level == 1,
        TokenType::GreaterThanOrEqual => level == 1,
        TokenType::LessThan => level == 1,
        TokenType::LessThanOrEqual => level == 1,
        TokenType::Plus => level == 2,
        TokenType::Minus => level == 2,
        TokenType::Star => level == 3,
        TokenType::Slash => level == 3,
        _ => false,
    }
}

/// Tells whether `kind` is an operator between two operands.
pub fn binary_operator(kind: &TokenType) -> (r: bool)
    ensures
        r == is_binary_operator(kind@),
{
    operator_at(kind, 0) || operator_at(kind, 1) || operator_at(kind, 2) || operator_at(kind, 3)
}

impl Expr {
    /// Tells whether the tree is well-formed, as every tree that [`parse`]
    /// gives is.
    pub fn is_well_formed(&self) -> (r: bool)
        ensures
            r == well_formed(self@),
        decreases self,
    {
        match self {
            Expr::Binary { left, operator, right } => {
                binary_operator(operator) && left.is_well_formed() && right.is_well_formed()
            },
            Expr::Grouping { expression } => expression.is_well_formed(),
            Expr::Literal { value } => literal_kind(value),
            Expr::Unary { operator, right } => unary_operator(operator) && right.is_well_formed(),
        }
    }
}

/// The tokens and the index of the next one to read.
struct Parser {
    tokens: Vec<Token>,
    current: usize,
}

/// What a production's method does: the tokens stay; where the production
/// reads `expected`, the method gives that tree and leaves the cursor after
/// it; where it reads nothing, the method fails.
spec fn reads(before: Parser, after: Parser, r: Result<Expr, ParseError>, expected: Parsed) -> bool {
    &&& after.tokens == before.tokens
    &&& after.wf()
    &&& match expected {
        Some((e, next)) => r matches Ok(x) && x@ == e && after.current == next,
        None => r is Err,
    }
}

impl Parser {
    /// The kinds of the tokens.
    spec fn kinds(&self) -> Seq<Kind> {
        token_kinds(self.tokens@)
    }

    /// The cursor is inside the tokens or at their end.
    spec fn wf(&self) -> bool {
        self.current <= self.tokens@.len()
    }

    fn new(tokens: Vec<Token>) -> (p: Parser)
        ensures
            p.tokens == tokens,
            p.current == 0,
    {
        Parser { tokens, current: 0 }
    }

    /// `expression → equality`
    fn expression(&mut self) -> (r: Result<Expr, ParseError>)
        requires
            old(self).wf(),
        ensures
            reads(
                *old(self),
                *final(self),
                r,
                parse_expression(old(self).kinds(), old(self).current as int),
            ),
        decreases old(self).tokens@.len() - old(self).current, 7nat,
    {
        self.equality()
    }

    /// `equality → comparison ( ("!=" | "==") comparison )*`
    fn equality(&mut self) -> (r: Result<Expr, ParseError>)
        requires
            old(self).wf(),
        ensures
            reads(
                *old(self),
                *final(self),
                r,
                parse_level(old(self).kinds(), old(self).current as int, 0),
            ),
        decreases old(self).tokens@.len() - old(self).current, level_rank(0),
    {
        let ghost ts = self.kinds();
        let ghost start = self.current as int;
        proof {
            lemma_parse_level(ts, start, 1);
        }
        let mut expr = match self.comparison() {
            Ok(first) => first,
            Err(error) => return Err(error),
        };
        loop
            invariant
                self.wf(),
                self.tokens == old(self).tokens,
                ts == old(self).kinds(),
                start == old(self).current,
                start < self.current,
                well_formed(expr@),
                parse_level(ts, start, 0) == level_tail(ts, expr@, self.current as int, 0),
            decreases self.tokens@.len() - self.current,
        {
            let operator = match self.match_operator(0) {
                Some(operator) => operator,
                None => return Ok(expr),
            };
            proof {
                lemma_parse_level(ts, self.current as int, 1);
            }
            let right = match self.comparison() {
                Ok(right) => right,
                Err(error) => return Err(error),
            };
            expr = Expr::Binary { left: Box::new(expr), operator, right: Box::new(right) };
        }
    }

    /// `comparison → term ( (">" | ">=" | "<" | "<=") term )*`
    fn comparison(&mut self) -> (r: Result<Expr, ParseError>)
        requires
            old(self).wf(),
        ensures
            reads(
                *old(self),
                *final(self),
                r,
                parse_level(old(self).kinds(), old(self).current as int, 1),
            ),
        decreases old(self).tokens@.len() - old(self).current, level_rank(1),
    {
        let ghost ts = self.kinds();
        let ghost start = self.current as int;
        proof {
            lemma_parse_level(ts, start, 2);
        }
        let mut expr = match self.term() {
            Ok(first) => first,
            Err(error) => return Err(error),
        };
        loop
            invariant
                self.wf(),
                self.tokens == old(self).tokens,
                ts == old(self).kinds(),
                start == old(self).current,
                start < self.current,
                well_formed(expr@),
                parse_level(ts, start, 1) == level_tail(ts, expr@, self.current as int, 1),
            decreases self.tokens@.len() - self.current,
        {
            let operator = match self.match_operator(1) {
                Some(operator) => operator,
                None => return Ok(expr),
            };
            proof {
                lemma_parse_level(ts, self.current as int, 2);
            }
            let right = match self.term() {
                Ok(right) => right,
                Err(error) => return Err(error),
            };
            expr = Expr::Binary { left: Box::new(expr), operator, right: Box::new(right) };
        }
    }

    /// `term → factor ( ("+" | "-") factor )*`
    fn term(&mut self) -> (r: Result<Expr, ParseError>)
        requires
            old(self).wf(),
        ensures
            reads(
                *old(self),
                *final(self),
                r,
                parse_level(old(self).kinds(), old(self).current as int, 2),
            ),
        decreases old(self).tokens@.len() - old(self).current, level_rank(2),
    {
        let ghost ts = self.kinds();
        let ghost start = self.current as int;
        proof {
            lemma_parse_level(ts, start, 3);
        }
        let mut expr = match self.factor() {
            Ok(first) => first,
            Err(error) => return Err(error),
        };
        loop
            invariant
                self.wf(),
                self.tokens == old(self).tokens,
                ts == old(self).kinds(),
                start == old(self).current,
                start < self.current,
                well_formed(expr@),
                parse_level(ts, start, 2) == level_tail(ts, expr@, self.current as int, 2),
            decreases self.tokens@.len() - self.current,
        {
            let operator = match self.match_operator(2) {
                Some(operator) => operator,
                None => return Ok(expr),
            };
            proof {
                lemma_parse_level(ts, self.current as int, 3);
            }
            let right = match self.factor() {
                Ok(right) => right,
                Err(error) => return Err(error),
            };
            expr = Expr::Binary { left: Box::new(expr), operator, right: Box::new(right) };
        }
    }

    /// `factor → unary ( ("*" | "/") unary )*`
    fn factor(&mut self) -> (r: Result<Expr, ParseError>)
        requires
            old(self).wf(),
        ensures
            reads(
                *old(self),
                *final(self),
                r,
                parse_level(old(self).kinds(), old(self).current as int, 3),
            ),
        decreases old(self).tokens@.len() - old(self).current, level_rank(3),
    {
        let ghost ts = self.kinds();
        let ghost start = self.current as int;
        proof {
            lemma_parse_level(ts, start, 4);
        }
        let mut expr = match self.unary() {
            Ok(first) => first,
            Err(error) => return Err(error),
        };
        loop
            invariant
                self.wf(),
                self.tokens == old(self).tokens,
                ts == old(self).kinds(),
                start == old(self).current,
                start < self.current,
                well_formed(expr@),
                parse_level(ts, start, 3) == level_tail(ts, expr@, self.current as int, 3),
            decreases self.tokens@.len() - self.current,
        {
            let operator = match self.match_operator(3) {
                Some(operator) => operator,
                None => return Ok(expr),
            };
            proof {
                lemma_parse_level(ts, self.current as int, 4);
            }
            let right = match self.unary() {
                Ok(right) => right,
                Err(error) => return Err(error),
            };
            expr = Expr::Binary { left: Box::new(expr), operator, right: Box::new(right) };
        }
    }

    /// `unary → ("!" | "-") unary | primary`
    fn unary(&mut self) -> (r: Result<Expr, ParseError>)
        requires
            old(self).wf(),
        ensures
            reads(*old(self), *final(self), r, parse_unary(old(self).kinds(), old(self).current as int)),
        decreases old(self).tokens@.len() - old(self).current, 1nat,
    {
        if self.current < self.tokens.len() && unary_operator(&self.tokens[self.current].kind) {
            let operator = self.tokens[self.current].kind.duplicate();
            self.current += 1;
            match self.unary() {
                Ok(right) => Ok(Expr::Unary { operator, right: Box::new(right) }),
                Err(error) => Err(error),
            }
        } else {
            self.primary()
        }
    }

    /// `primary → NUMBER | STRING | "true" | "false" | "nil" | "(" expression ")"`
    fn primary(&mut self) -> (r: Result<Expr, ParseError>)
        requires
            old(self).wf(),
        ensures
            reads(
                *old(self),
                *final(self),
                r,
                parse_primary(old(self).kinds(), old(self).current as int),
            ),
        decreases old(self).tokens@.len() - old(self).current, 0nat,
    {
        if self.current >= self.tokens.len() {
            return Err(ParseError);
        }
        let kind = self.tokens[self.current].kind.duplicate();
        if literal_kind(&kind) {
            self.current += 1;
            return Ok(Expr::Literal { value: kind });
        }
        match kind {
            TokenType::LeftBracket => {
                self.current += 1;
                proof {
                    lemma_parse_level(self.kinds(), self.current as int, 0);
                }
                let expression = match self.expression() {
                    Ok(inner) => inner,
                    Err(error) => return Err(error),
                };
                if self.current < self.tokens.len() {
                    if let TokenType::RightBracket = self.tokens[self.current].kind {
                        self.current += 1;
                        return Ok(Expr::Grouping { expression: Box::new(expression) });
                    }
                }
                Err(ParseError)
            },
            _ => Err(ParseError),
        }
    }

    /// Where the next token is an operator of `level`, takes it.
    fn match_operator(&mut self, level: usize) -> (r: Option<TokenType>)
        requires
            old(self).wf(),
        ensures
            final(self).tokens == old(self).tokens,
            final(self).wf(),
            match r {
                Some(operator) => {
                    &&& old(self).current < old(self).tokens@.len()
                    &&& operator@ == old(self).kinds()[old(self).current as int]
                    &&& is_operator_at(operator@, level as nat)
                    &&& final(self).current == old(self).current + 1
                },
                None => {
                    &&& final(self).current == old(self).current
                    &&& !(old(self).current < old(self).tokens@.len() && is_operator_at(
                        old(self).kinds()[old(self).current as int],
                        level as nat,
                    ))
                },
            },
    {
        if self.current < self.tokens.len() && operator_at(&self.tokens[self.current].kind, level) {
            let operator = self.tokens[self.current].kind.duplicate();
            self.current += 1;
            Some(operator)
        } else {
            None
        }
    }
}

/// Parses the expression that `tokens` start with. Fails where a token
/// that starts no primary stands in an operand's place, the end of the
/// tokens included, and where a bracket is not closed. What follows the
/// expression is not read.
pub fn parse(tokens: Vec<Token>) -> (r: Result<Expr, ParseError>)
    ensures
        match parsed_tree(token_kinds(tokens@)) {
            Some(e) => r matches Ok(x) && x@ == e,
            None => r is Err,
        },
        r matches Ok(x) ==> well_formed(x@),
{
    let mut parser = Parser::new(tokens);
    proof {
        lemma_parse_level(parser.kinds(), 0, 0);
    }
    parser.expression()
}

/// A reserved word that starts a statement.
pub open spec fn is_statement_start(kind: Kind) -> bool {
    kind is Class || kind is Fun || kind is Var || kind is For || kind is If || kind is While
        || kind is Print || kind is Return
}

/// Whether a parser that gave up may take up its work at `at`: at the end
/// of the tokens, after a semicolon, or at a word that starts a statement.
pub open spec fn is_resume_point(ts: Seq<Kind>, at: int) -> bool {
    ||| at >= ts.len()
    ||| (at > 0 && ts[at - 1] is Semicolon)
    ||| is_statement_start(ts[at])
}

/// Tells whether `kind` starts a statement.
pub fn statement_start(kind: &TokenType) -> (r: bool)
    ensures
        r == is_statement_start(kind@),
{
    match kind {
        TokenType::Class => true,
        TokenType::Fun => true,
        TokenType::Var => true,
        TokenType::For => true,
        TokenType::If => true,
        TokenType::While => true,
        TokenType::Print => true,
        TokenType::Return => true,
        _ => false,
    }
}

/// After a syntax error at `current`, finds where to take up parsing again:
/// the first place after `current` that follows a semicolon or holds a word
/// that starts a statement, or the end of the tokens. Where `current` is
/// already at the end or past it, that is `current` itself.
pub fn synchronize(tokens: &[Token], current: usize) -> (next: usize)
    ensures
        current < tokens@.len() ==> current < next <= tokens@.len(),
        current >= tokens@.len() ==> next == current,
        is_resume_point(token_kinds(tokens@), next as int),
        forall|at: int| current < at < next ==> !is_resume_point(token_kinds(tokens@), at),
{
    if current >= tokens.len() {
        return current;
    }
    let mut next: usize = current + 1;
    while next < tokens.len()
        invariant
            current < next <= tokens@.len(),
            forall|at: int| current < at < next ==> !is_resume_point(token_kinds(tokens@), at),
        decreases tokens@.len() - next,
    {
        if let TokenType::Semicolon = tokens[next - 1].kind {
            return next;
        }
        if statement_start(&tokens[next].kind) {
            return next;
        }
        next += 1;
    }
    next
}

} // verus!
