//! Tokens and their mathematical views.

use vstd::prelude::*;

verus! {

/// What a token is. A string literal carries its text, a number literal the
/// 64-bit pattern of its value, an identifier its name.
#[derive(Debug, Clone, PartialEq)]
pub enum TokenType {
    /// `(`
    LeftBracket,
    /// `)`
    RightBracket,
    /// `{`
    LeftBrace,
    /// `}`
    RightBrace,
    /// `,`
    Comma,
    /// `.`
    Dot,
    /// `-`
    Minus,
    /// `+`
    Plus,
    /// `;`
    Semicolon,
    /// `*`
    Star,
    /// The end of the input.
    EndOfFile,
    /// `!`
    Bang,
    /// `!=`
    NotEqual,
    /// `==`
    Equal,
    /// `=`
    Assign,
    /// `<`
    LessThan,
    /// `<=`
    LessThanOrEqual,
    /// `>`
    GreaterThan,
    /// `>=`
    GreaterThanOrEqual,
    /// `/`
    Slash,
    /// A string literal, without its quotes.
    String(String),
    /// A number literal.
    Number(u64),
    /// A name that is no reserved word.
    Identifier(String),
    /// The reserved word `and`.
    And,
    /// The reserved word `class`.
    Class,
    /// The reserved word `else`.
    Else,
    /// The reserved word `false`.
    False,
    /// The reserved word `for`.
    For,
    /// The reserved word `fun`.
    Fun,
    /// The reserved word `if`.
    If,
    /// The reserved word `nil`.
    Nil,
    /// The reserved word `or`.
    Or,
    /// The reserved word `print`.
    Print,
    /// The reserved word `return`.
    Return,
    /// The reserved word `super`.
    Super,
    /// The reserved word `this`.
    This,
    /// The reserved word `true`.
    True,
    /// The reserved word `var`.
    Var,
    /// The reserved word `while`.
    While,
}

/// The view of a [`TokenType`]: the same variants, with text as a sequence
/// of characters.
pub ghost enum Kind {
    LeftBracket,
    RightBracket,
    LeftBrace,
    RightBrace,
    Comma,
    Dot,
    Minus,
    Plus,
    Semicolon,
    Star,
    EndOfFile,
    Bang,
    NotEqual,
    Equal,
    Assign,
    LessThan,
    LessThanOrEqual,
    GreaterThan,
    GreaterThanOrEqual,
    Slash,
    String(Seq<char>),
    Number(u64),
    Identifier(Seq<char>),
    And,
    Class,
    Else,
    False,
    For,
    Fun,
    If,
    Nil,
    Or,
    Print,
    Return,
    Super,
    This,
    True,
    Var,
    While,
}

impl View for TokenType {
    type V = Kind;

    open spec fn view(&self) -> Kind {
        match *self {
            TokenType::LeftBracket => Kind::LeftBracket,
            TokenType::RightBracket => Kind::RightBracket,
            TokenType::LeftBrace => Kind::LeftBrace,
            TokenType::RightBrace => Kind::RightBrace,
            TokenType::Comma => Kind::Comma,
            TokenType::Dot => Kind::Dot,
            TokenType::Minus => Kind::Minus,
            TokenType::Plus => Kind::Plus,
            TokenType::Semicolon => Kind::Semicolon,
            TokenType::Star => Kind::Star,
            TokenType::EndOfFile => Kind::EndOfFile,
            TokenType::Bang => Kind::Bang,
            TokenType::NotEqual => Kind::NotEqual,
            TokenType::Equal => Kind::Equal,
            TokenType::Assign => Kind::Assign,
            TokenType::LessThan => Kind::LessThan,
            TokenType::LessThanOrEqual => Kind::LessThanOrEqual,
            TokenType::GreaterThan => Kind::GreaterThan,
            TokenType::GreaterThanOrEqual => Kind::GreaterThanOrEqual,
            TokenType::Slash => Kind::Slash,
            TokenType::And => Kind::And,
            TokenType::Class => Kind::Class,
            TokenType::Else => Kind::Else,
            TokenType::False => Kind::False,
            TokenType::For => Kind::For,
            TokenType::Fun => Kind::Fun,
            TokenType::If => Kind::If,
            TokenType::Nil => Kind::Nil,
            TokenType::Or => Kind::Or,
            TokenType::Print => Kind::Print,
            TokenType::Return => Kind::Return,
            TokenType::Super => Kind::Super,
            TokenType::This => Kind::This,
            TokenType::True => Kind::True,
            TokenType::Var => Kind::Var,
            TokenType::While => Kind::While,
            TokenType::String(text) => Kind::String(text@),
            TokenType::Number(bits) => Kind::Number(bits),
            TokenType::Identifier(name) => Kind::Identifier(name@),
        }
    }
}

impl TokenType {
    /// A copy of the token type, text included.
    pub fn duplicate(&self) -> (r: TokenType)
        ensures
            r@ == self@,
    {
        match self {
            TokenType::LeftBracket => TokenType::LeftBracket,
            TokenType::RightBracket => TokenType::RightBracket,
            TokenType::LeftBrace => TokenType::LeftBrace,
            TokenType::RightBrace => TokenType::RightBrace,
            TokenType::Comma => TokenType::Comma,
            TokenType::Dot => TokenType::Dot,
            TokenType::Minus => TokenType::Minus,
            TokenType::Plus => TokenType::Plus,
            TokenType::Semicolon => TokenType::Semicolon,
            TokenType::Star => TokenType::Star,
            TokenType::EndOfFile => TokenType::EndOfFile,
            TokenType::Bang => TokenType::Bang,
            TokenType::NotEqual => TokenType::NotEqual,
            TokenType::Equal => TokenType::Equal,
            TokenType::Assign => TokenType::Assign,
            TokenType::LessThan => TokenType::LessThan,
            TokenType::LessThanOrEqual => TokenType::LessThanOrEqual,
            TokenType::GreaterThan => TokenType::GreaterThan,
            TokenType::GreaterThanOrEqual => TokenType::GreaterThanOrEqual,
            TokenType::Slash => TokenType::Slash,
            TokenType::And => TokenType::And,
            TokenType::Class => TokenType::Class,
            TokenType::Else => TokenType::Else,
            TokenType::False => TokenType::False,
            TokenType::For => TokenType::For,
            TokenType::Fun => TokenType::Fun,
            TokenType::If => TokenType::If,
            TokenType::Nil => TokenType::Nil,
            TokenType::Or => TokenType::Or,
            TokenType::Print => TokenType::Print,
            TokenType::Return => TokenType::Return,
            TokenType::Super => TokenType::Super,
            TokenType::This => TokenType::This,
            TokenType::True => TokenType::True,
            TokenType::Var => TokenType::Var,
            TokenType::While => TokenType::While,
            TokenType::String(text) => TokenType::String(text.clone()),
            TokenType::Number(bits) => TokenType::Number(*bits),
            TokenType::Identifier(name) => TokenType::Identifier(name.clone()),
        }
    }
}

/// A token: what it is, and the 1-based line on which it starts.
#[derive(Debug, Clone, PartialEq)]
pub struct Token {
    pub kind: TokenType,
    pub line: usize,
}

/// The view of a [`Token`].
pub ghost struct TokenView {
    pub kind: Kind,
    pub line: int,
}

impl View for Token {
    type V = TokenView;

    open spec fn view(&self) -> TokenView {
        TokenView { kind: self.kind@, line: self.line as int }
    }
}

/// The views of a sequence of tokens, in order.
pub open spec fn token_views(tokens: Seq<Token>) -> Seq<TokenView> {
    tokens.map_values(|t: Token| t@)
}

/// The kinds of a sequence of tokens, in order: what a parser reads.
pub open spec fn token_kinds(tokens: Seq<Token>) -> Seq<Kind> {
    tokens.map_values(|t: Token| t.kind@)
}

} // verus!
