//! The scanner: from bytes to tokens, or to every lexical error found.
//!
//! What the scanner does is stated as a walk over the bytes: [`step`] reads
//! one lexeme, [`run`] repeats it to the end, and [`scan_tokens`] returns what
//! [`scanned`] describes.

use crate::lexeme::{
    count_newlines, digit, digits_end, find_byte, is_blank, is_digit, is_name_part, is_name_start,
    keyword, lemma_digits_end, lemma_keyword_is_a_word, lemma_name_end,
    lemma_newlines_split, lemma_no_newlines, lemma_position_of, name_end,
    name_start, newlines, position_of, reserved_word, skip_digits, skip_name, BANG,
    CARRIAGE_RETURN, COMMA, EQUALS, GREATER, LEFT_BRACE, LEFT_BRACKET, LESS, MINUS, NEWLINE, PLUS,
    POINT, QUOTE, RIGHT_BRACE, RIGHT_BRACKET, SEMICOLON, SLASH, SPACE, STAR, TAB,
};
use crate::number::{
    decimal_value, has_decimal_shape, is_decimal_text, is_digit_char, read_decimal,
};
use crate::text::{ascii_text, is_ascii_bytes, lemma_ascii_is_utf8, text_of};
pub use crate::token::{Token, TokenType};
use crate::token::{token_views, Kind, TokenView};
use vstd::pervasive::unreached;
use vstd::prelude::*;
use vstd::slice::slice_subrange;
use vstd::utf8::{decode_utf8, valid_utf8};

verus! {

/// A lexical error. Every line is 1-based and is the line on which the
/// offending lexeme starts.
#[derive(Debug, PartialEq)]
pub enum ScanError {
    /// A byte that starts no lexeme.
    UnexpectedCharacter { character: char, line: usize },
    /// A string literal that the input ends in.
    UnterminatedString { line: usize },
    /// A string literal whose bytes are not valid UTF-8.
    InvalidEncoding { line: usize },
    /// A number literal that has no value.
    InvalidNumber { line: usize, text: String },
}

/// The view of a [`ScanError`].
pub ghost enum ScanErrorView {
    UnexpectedCharacter { character: char, line: int },
    UnterminatedString { line: int },
    InvalidEncoding { line: int },
    InvalidNumber { line: int, text: Seq<char> },
}

impl View for ScanError {
    type V = ScanErrorView;

    open spec fn view(&self) -> ScanErrorView {
        match *self {
            ScanError::UnexpectedCharacter { character, line } => ScanErrorView::UnexpectedCharacter {
                character,
                line: line as int,
            },
            ScanError::UnterminatedString { line } => ScanErrorView::UnterminatedString {
                line: line as int,
            },
            ScanError::InvalidEncoding { line } => ScanErrorView::InvalidEncoding {
                line: line as int,
            },
            ScanError::InvalidNumber { line, text } => ScanErrorView::InvalidNumber {
                line: line as int,
                text: text@,
            },
        }
    }
}

/// The views of a sequence of errors, in order.
pub open spec fn error_views(errors: Seq<ScanError>) -> Seq<ScanErrorView> {
    errors.map_values(|e: ScanError| e@)
}

/// The lexical errors of one scan, in the order in which they were met.
/// There is at least one.
#[derive(Debug, PartialEq)]
pub struct ScanErrors {
    errors: Vec<ScanError>,
}

impl View for ScanErrors {
    type V = Seq<ScanErrorView>;

    closed spec fn view(&self) -> Seq<ScanErrorView> {
        error_views(self.errors@)
    }
}

impl ScanErrors {
    /// The errors, in the order in which they were met.
    pub fn errors(&self) -> (r: &Vec<ScanError>)
        ensures
            error_views(r@) == self@,
    {
        &self.errors
    }

    /// How many errors there are.
    pub fn len(&self) -> (r: usize)
        ensures
            r == self@.len(),
    {
        self.errors.len()
    }
}

/// How far a scan has come: the index of the next byte, the line it is on,
/// and the tokens and errors so far.
pub ghost struct Progress {
    pub current: int,
    pub line: int,
    pub tokens: Seq<TokenView>,
    pub errors: Seq<ScanErrorView>,
}

/// Before the first byte: line 1, nothing found.
pub open spec fn start() -> Progress {
    Progress { current: 0, line: 1, tokens: seq![], errors: seq![] }
}

/// `p` after a token of `width` bytes, on the line that `p` is on.
pub open spec fn emit(p: Progress, kind: Kind, width: int) -> Progress {
    Progress {
        current: p.current + width,
        tokens: p.tokens.push(TokenView { kind, line: p.line }),
        ..p
    }
}

/// `p` after `width` bytes that give nothing.
pub open spec fn skip(p: Progress, width: int) -> Progress {
    Progress { current: p.current + width, ..p }
}

/// `p` after an error in a lexeme of `width` bytes.
pub open spec fn reject(p: Progress, error: ScanErrorView, width: int) -> Progress {
    Progress { current: p.current + width, errors: p.errors.push(error), ..p }
}

/// Whether the byte after the one at `at` is `b`.
pub open spec fn followed_by(src: Seq<u8>, at: int, b: u8) -> bool {
    at + 1 < src.len() && src[at + 1] == b
}

/// Where the number literal that starts at `from` ends: after its digits,
/// and after a point and further digits if a digit follows the point.
pub open spec fn number_end(src: Seq<u8>, from: int) -> int {
    let whole = digits_end(src, from);
    if whole + 1 < src.len() && src[whole] == POINT && is_digit(src[whole + 1]) {
        digits_end(src, whole + 1)
    } else {
        whole
    }
}

/// `p` after the number literal that starts at its cursor: a token with the
/// value of the text, or an error where the text has none.
pub open spec fn after_number(src: Seq<u8>, p: Progress) -> Progress {
    let end = number_end(src, p.current);
    let text = ascii_text(src.subrange(p.current, end));
    match decimal_value(text) {
        Some(bits) => emit(p, Kind::Number(bits), end - p.current),
        None => reject(p, ScanErrorView::InvalidNumber { line: p.line, text }, end - p.current),
    }
}

/// `p` after the name that starts at its cursor: a reserved word or an
/// identifier.
pub open spec fn after_name(src: Seq<u8>, p: Progress) -> Progress {
    let end = name_end(src, p.current);
    let name = ascii_text(src.subrange(p.current, end));
    match keyword(name) {
        Some(kind) => emit(p, kind, end - p.current),
        None => emit(p, Kind::Identifier(name), end - p.current),
    }
}

/// `p` after the string literal whose opening quote is at its cursor. The
/// bytes up to the closing quote are the text, line feeds included; they
/// count for the lines that follow, while the token and the errors carry the
/// line of the opening quote.
pub open spec fn after_string(src: Seq<u8>, p: Progress) -> Progress {
    let close = position_of(src, p.current + 1, QUOTE);
    let body = src.subrange(p.current + 1, close);
    let line = p.line + newlines(src, p.current + 1, close);
    if close >= src.len() {
        Progress {
            current: close,
            line,
            errors: p.errors.push(ScanErrorView::UnterminatedString { line: p.line }),
            ..p
        }
    } else if valid_utf8(body) {
        Progress {
            current: close + 1,
            line,
            tokens: p.tokens.push(TokenView { kind: Kind::String(decode_utf8(body)), line: p.line }),
            ..p
        }
    } else {
        Progress {
            current: close + 1,
            line,
            errors: p.errors.push(ScanErrorView::InvalidEncoding { line: p.line }),
            ..p
        }
    }
}

/// `p` after the comment whose two slashes start at its cursor: the cursor
/// is on the line feed that ends the comment, or at the end of the input.
pub open spec fn after_comment(src: Seq<u8>, p: Progress) -> Progress {
    Progress { current: position_of(src, p.current + 2, NEWLINE), ..p }
}

/// `p` after an operator that is `double` when an equals sign follows it and
/// `single` otherwise.
pub open spec fn after_operator(src: Seq<u8>, p: Progress, single: Kind, double: Kind) -> Progress {
    if followed_by(src, p.current, EQUALS) {
        emit(p, double, 2)
    } else {
        emit(p, single, 1)
    }
}

/// `p` after the lexeme, blank or comment that starts at its cursor.
pub open spec fn step(src: Seq<u8>, p: Progress) -> Progress
    recommends
        0 <= p.current < src.len(),
{
    let b = src[p.current];
    if b == LEFT_BRACKET {
        emit(p, Kind::LeftBracket, 1)
    } else if b == RIGHT_BRACKET {
        emit(p, Kind::RightBracket, 1)
    } else if b == LEFT_BRACE {
        emit(p, Kind::LeftBrace, 1)
    } else if b == RIGHT_BRACE {
        emit(p, Kind::RightBrace, 1)
    } else if b == COMMA {
        emit(p, Kind::Comma, 1)
    } else if b == POINT {
        emit(p, Kind::Dot, 1)
    } else if b == MINUS {
        emit(p, Kind::Minus, 1)
    } else if b == PLUS {
        emit(p, Kind::Plus, 1)
    } else if b == SEMICOLON {
        emit(p, Kind::Semicolon, 1)
    } else if b == STAR {
        emit(p, Kind::Star, 1)
    } else if b == BANG {
        after_operator(src, p, Kind::Bang, Kind::NotEqual)
    } else if b == EQUALS {
        after_operator(src, p, Kind::Assign, Kind::Equal)
    } else if b == LESS {
        after_operator(src, p, Kind::LessThan, Kind::LessThanOrEqual)
    } else if b == GREATER {
        after_operator(src, p, Kind::GreaterThan, Kind::GreaterThanOrEqual)
    } else if b == SLASH {
        if followed_by(src, p.current, SLASH) {
            after_comment(src, p)
        } else {
            emit(p, Kind::Slash, 1)
        }
    } else if b == QUOTE {
        after_string(src, p)
    } else if is_digit(b) {
        after_number(src, p)
    } else if is_name_start(b) {
        after_name(src, p)
    } else if is_blank(b) {
        skip(p, 1)
    } else if b == NEWLINE {
        Progress { current: p.current + 1, line: p.line + 1, ..p }
    } else {
        reject(p, ScanErrorView::UnexpectedCharacter { character: b as char, line: p.line }, 1)
    }
}

/// A step moves the cursor forward, and not past the end.
pub proof fn lemma_step_advances(src: Seq<u8>, p: Progress)
    requires
        0 <= p.current < src.len(),
    ensures
        p.current < step(src, p).current <= src.len(),
{
    lemma_digits_end(src, p.current);
    if digits_end(src, p.current) + 1 <= src.len() {
        lemma_digits_end(src, digits_end(src, p.current) + 1);
    }
    lemma_name_end(src, p.current);
    lemma_position_of(src, p.current + 1, QUOTE);
    if p.current + 2 <= src.len() {
        lemma_position_of(src, p.current + 2, NEWLINE);
    }
}

/// `p` after every step up to the end of the input.
pub open spec fn run(src: Seq<u8>, p: Progress) -> Progress
    decreases src.len() - p.current,
    via run_decreases
{
    if 0 <= p.current < src.len() {
        run(src, step(src, p))
    } else {
        p
    }
}

#[via_fn]
proof fn run_decreases(src: Seq<u8>, p: Progress) {
    if 0 <= p.current < src.len() {
        lemma_step_advances(src, p);
    }
}

/// Where a scan of `src` ends: the line reached, and every token and error
/// before the end of the input.
pub open spec fn scanned(src: Seq<u8>) -> Progress {
    run(src, start())
}

/// The tokens of `src`: those of its lexemes, then the one that marks the
/// end of the input, on the last line.
pub open spec fn tokens_of(src: Seq<u8>) -> Seq<TokenView> {
    scanned(src).tokens.push(TokenView { kind: Kind::EndOfFile, line: scanned(src).line })
}

/// The token or the error that a number literal gives, once its text has
/// been read: a number token with the value found, or `InvalidNumber` with
/// the text where none was found.
pub fn number_lexeme(parsed: Option<u64>, text: String, line: usize) -> (r: Result<
    Token,
    ScanError,
>)
    ensures
        match parsed {
            Some(bits) => r matches Ok(token) && token@ == (TokenView {
                kind: Kind::Number(bits),
                line: line as int,
            }),
            None => r matches Err(error) && error@ == (ScanErrorView::InvalidNumber {
                line: line as int,
                text: text@,
            }),
        },
{
    match parsed {
        Some(bits) => Ok(Token { kind: TokenType::Number(bits), line }),
        None => Err(ScanError::InvalidNumber { line, text }),
    }
}

/// The scanner's cursor and what it has found.
struct Scanner {
    current: usize,
    line: usize,
    errors: Vec<ScanError>,
    tokens: Vec<Token>,
}

impl View for Scanner {
    type V = Progress;

    closed spec fn view(&self) -> Progress {
        Progress {
            current: self.current as int,
            line: self.line as int,
            tokens: token_views(self.tokens@),
            errors: error_views(self.errors@),
        }
    }
}

impl Scanner {
    /// The cursor is inside `src` or at its end, and the line count is no
    /// more than one for each byte passed, after the first line.
    spec fn wf(&self, src: Seq<u8>) -> bool {
        &&& self.current <= src.len() < usize::MAX
        &&& 1 <= self.line <= self.current + 1
    }

    fn new() -> (s: Scanner)
        ensures
            s@ == start(),
    {
        let s = Scanner { current: 0, line: 1, errors: Vec::new(), tokens: Vec::new() };
        assert(s@.tokens =~= start().tokens);
        assert(s@.errors =~= start().errors);
        s
    }

    /// Scans `source` from the cursor to its end, and gives the tokens, the
    /// mark of the end included, and the errors.
    fn scan_tokens(self, source: &[u8]) -> (r: (Vec<Token>, Vec<ScanError>))
        requires
            self.wf(source@),
        ensures
            token_views(r.0@) == run(source@, self@).tokens.push(
                TokenView { kind: Kind::EndOfFile, line: run(source@, self@).line },
            ),
            error_views(r.1@) == run(source@, self@).errors,
    {
        let mut scanner = self;
        let ghost begin = scanner@;
        while scanner.current < source.len()
            invariant
                scanner.wf(source@),
                run(source@, begin) == run(source@, scanner@),
            decreases source@.len() - scanner.current,
        {
            let ghost before = scanner@;
            proof {
                lemma_step_advances(source@, before);
            }
            let b: u8 = source[scanner.current];
            if b == LEFT_BRACKET {
                scanner.add_token(TokenType::LeftBracket, 1);
            } else if b == RIGHT_BRACKET {
                scanner.add_token(TokenType::RightBracket, 1);
            } else if b == LEFT_BRACE {
                scanner.add_token(TokenType::LeftBrace, 1);
            } else if b == RIGHT_BRACE {
                scanner.add_token(TokenType::RightBrace, 1);
            } else if b == COMMA {
                scanner.add_token(TokenType::Comma, 1);
            } else if b == POINT {
                scanner.add_token(TokenType::Dot, 1);
            } else if b == MINUS {
                scanner.add_token(TokenType::Minus, 1);
            } else if b == PLUS {
                scanner.add_token(TokenType::Plus, 1);
            } else if b == SEMICOLON {
                scanner.add_token(TokenType::Semicolon, 1);
            } else if b == STAR {
                scanner.add_token(TokenType::Star, 1);
            } else if b == BANG {
                if scanner.next_is(source, EQUALS) {
                    scanner.add_token(TokenType::NotEqual, 2);
                } else {
                    scanner.add_token(TokenType::Bang, 1);
                }
            } else if b == EQUALS {
                if scanner.next_is(source, EQUALS) {
                    scanner.add_token(TokenType::Equal, 2);
                } else {
                    scanner.add_token(TokenType::Assign, 1);
                }
            } else if b == LESS {
                if scanner.next_is(source, EQUALS) {
                    scanner.add_token(TokenType::LessThanOrEqual, 2);
                } else {
                    scanner.add_token(TokenType::LessThan, 1);
                }
            } else if b == GREATER {
                if scanner.next_is(source, EQUALS) {
                    scanner.add_token(TokenType::GreaterThanOrEqual, 2);
                } else {
                    scanner.add_token(TokenType::GreaterThan, 1);
                }
            } else if b == SLASH {
                if scanner.next_is(source, SLASH) {
                    let end: usize = find_byte(source, scanner.current + 2, NEWLINE);
                    scanner.advance(end - scanner.current);
                } else {
                    scanner.add_token(TokenType::Slash, 1);
                }
            } else if b == QUOTE {
                scanner.handle_string(source);
            } else if digit(b) {
                scanner.handle_number(source);
            } else if name_start(b) {
                scanner.handle_identifier(source);
            } else if b == SPACE || b == CARRIAGE_RETURN || b == TAB {
                scanner.advance(1);
            } else if b == NEWLINE {
                scanner.line += 1;
                scanner.advance(1);
            } else {
                scanner.add_error(ScanError::UnexpectedCharacter { character: b as char, line: scanner.line }, 1);
            }
        }
        scanner.tokens.push(Token { kind: TokenType::EndOfFile, line: scanner.line });
        proof {
            let done = run(source@, begin);
            assert(token_views(scanner.tokens@) =~= done.tokens.push(
                TokenView { kind: Kind::EndOfFile, line: done.line },
            ));
        }
        (scanner.tokens, scanner.errors)
    }

    /// Reads the name that starts at the cursor.
    fn handle_identifier(&mut self, source: &[u8])
        requires
            old(self).wf(source@),
            old(self).current < source@.len(),
            is_name_start(source@[old(self).current as int]),
        ensures
            final(self)@ == after_name(source@, old(self)@),
            final(self).wf(source@),
    {
        let end: usize = skip_name(source, self.current);
        let word = slice_subrange(source, self.current, end);
        proof {
            lemma_name_end(source@, self.current as int);
            assert(is_ascii_bytes(word@)) by {
                assert forall|i: int| 0 <= i < word@.len() implies #[trigger] word@[i] < 128 by {
                    assert(is_name_part(source@[self.current + i]));
                }
            }
            lemma_ascii_is_utf8(word@);
        }
        let width: usize = end - self.current;
        match reserved_word(word) {
            Some(kind) => self.add_token(kind, width),
            None => {
                match text_of(word) {
                    Some(name) => self.add_token(TokenType::Identifier(name), width),
                    None => unreached(),
                }
            },
        }
    }

    /// Reads the number literal that starts at the cursor.
    fn handle_number(&mut self, source: &[u8])
        requires
            old(self).wf(source@),
            old(self).current < source@.len(),
            is_digit(source@[old(self).current as int]),
        ensures
            final(self)@ == after_number(source@, old(self)@),
            final(self).wf(source@),
    {
        let whole: usize = skip_digits(source, self.current);
        let mut end: usize = whole;
        if whole + 1 < source.len() && source[whole] == POINT && digit(source[whole + 1]) {
            end = skip_digits(source, whole + 1);
        }
        let lexeme = slice_subrange(source, self.current, end);
        proof {
            lemma_digits_end(source@, self.current as int);
            if whole + 1 <= source@.len() {
                lemma_digits_end(source@, whole + 1);
            }
            assert(is_ascii_bytes(lexeme@)) by {
                assert forall|i: int| 0 <= i < lexeme@.len() implies #[trigger] lexeme@[i] < 128 by {
                    let b = source@[self.current + i];
                    assert(is_digit(b) || b == POINT);
                }
            }
            lemma_ascii_is_utf8(lexeme@);
        }
        let width: usize = end - self.current;
        match text_of(lexeme) {
            Some(text) => {
                proof {
                    let digits = whole - self.current;
                    assert forall|i: int| 0 <= i < digits implies is_digit_char(
                        #[trigger] text@[i],
                    ) by {
                        assert(is_digit(source@[self.current + i]));
                    }
                    if end != whole {
                        assert(text@[digits] == '.');
                        assert forall|i: int| digits < i < text@.len() implies is_digit_char(
                            #[trigger] text@[i],
                        ) by {
                            assert(is_digit(source@[self.current + i]));
                        }
                    }
                    assert(has_decimal_shape(text@, digits));
                }
                let parsed = read_decimal(text.as_str());
                match number_lexeme(parsed, text, self.line) {
                    Ok(token) => self.push_token(token, width),
                    Err(error) => self.add_error(error, width),
                }
            },
            None => unreached(),
        }
    }

    /// Reads the string literal whose opening quote is at the cursor.
    fn handle_string(&mut self, source: &[u8])
        requires
            old(self).wf(source@),
            old(self).current < source@.len(),
        ensures
            final(self)@ == after_string(source@, old(self)@),
            final(self).wf(source@),
    {
        let first: usize = self.current + 1;
        let close: usize = find_byte(source, first, QUOTE);
        let lines: usize = count_newlines(source, first, close);
        let opened: usize = self.line;
        if close >= source.len() {
            self.add_error(ScanError::UnterminatedString { line: opened }, close - self.current);
        } else {
            let body = slice_subrange(source, first, close);
            let width: usize = close + 1 - self.current;
            match text_of(body) {
                Some(text) => self.add_token(TokenType::String(text), width),
                None => self.add_error(ScanError::InvalidEncoding { line: opened }, width),
            }
        }
        self.line += lines;
    }

    /// Moves the cursor `width` bytes on.
    fn advance(&mut self, width: usize)
        requires
            old(self).current + width <= usize::MAX,
        ensures
            final(self)@ == skip(old(self)@, width as int),
            final(self).line == old(self).line,
    {
        self.current += width;
    }

    /// Records a token of `width` bytes that starts on the current line.
    fn add_token(&mut self, kind: TokenType, width: usize)
        requires
            old(self).current + width <= usize::MAX,
        ensures
            final(self)@ == emit(old(self)@, kind@, width as int),
            final(self).line == old(self).line,
    {
        let token = Token { kind, line: self.line };
        self.push_token(token, width);
    }

    /// Records `token`, which is `width` bytes long.
    fn push_token(&mut self, token: Token, width: usize)
        requires
            old(self).current + width <= usize::MAX,
        ensures
            final(self)@ == (Progress {
                current: old(self)@.current + width,
                tokens: old(self)@.tokens.push(token@),
                ..old(self)@
            }),
            final(self).line == old(self).line,
    {
        let ghost before = self.tokens@;
        self.tokens.push(token);
        self.current += width;
        assert(token_views(self.tokens@) =~= token_views(before).push(token@));
    }

    /// Records an error in a lexeme of `width` bytes.
    fn add_error(&mut self, error: ScanError, width: usize)
        requires
            old(self).current + width <= usize::MAX,
        ensures
            final(self)@ == reject(old(self)@, error@, width as int),
            final(self).line == old(self).line,
    {
        let ghost before = self.errors@;
        self.errors.push(error);
        self.current += width;
        assert(error_views(self.errors@) =~= error_views(before).push(error@));
    }

    /// The byte after the one at the cursor, if there is one.
    fn peek(&self, source: &[u8]) -> (r: Option<u8>)
        requires
            self.current < source@.len(),
        ensures
            r == if self.current + 1 < source@.len() {
                Some(source@[self.current + 1])
            } else {
                None
            },
    {
        let len: usize = source.len();
        if self.current + 1 < len {
            Some(source[self.current + 1])
        } else {
            None
        }
    }

    /// Tells whether the byte after the one at the cursor is `value`.
    fn next_is(&self, source: &[u8], value: u8) -> (r: bool)
        requires
            self.current < source@.len(),
        ensures
            r == followed_by(source@, self.current as int, value),
    {
        match self.peek(source) {
            Some(b) => b == value,
            None => false,
        }
    }
}

/// Scans `content` and gives both its tokens, the last of which marks the
/// end of the input, and its lexical errors, in the order of the input. A
/// lexeme in error gives no token.
pub fn scan_all(content: &[u8]) -> (r: (Vec<Token>, Vec<ScanError>))
    requires
        content@.len() < usize::MAX,
    ensures
        token_views(r.0@) == tokens_of(content@),
        error_views(r.1@) == scanned(content@).errors,
{
    Scanner::new().scan_tokens(content)
}

/// Scans `content` into its tokens, the last of which marks the end of the
/// input. Where any lexeme is in error, gives every error instead, in the
/// order of the input.
pub fn scan_tokens(content: &[u8]) -> (r: Result<Vec<Token>, ScanErrors>)
    requires
        content@.len() < usize::MAX,
    ensures
        match r {
            Ok(tokens) => {
                &&& scanned(content@).errors.len() == 0
                &&& token_views(tokens@) == tokens_of(content@)
            },
            Err(errors) => {
                &&& scanned(content@).errors.len() > 0
                &&& errors@ == scanned(content@).errors
            },
        },
{
    let (tokens, errors) = scan_all(content);
    if errors.len() == 0 {
        Ok(tokens)
    } else {
        Err(ScanErrors { errors })
    }
}

/// Whether `p` is a state that a scan of `src` can be in: the cursor inside
/// the input or at its end, the line one more than the line feeds before
/// the cursor, and no token so far that marks the end of the input.
pub open spec fn consistent(src: Seq<u8>, p: Progress) -> bool {
    &&& 0 <= p.current <= src.len()
    &&& p.line == 1 + newlines(src, 0, p.current)
    &&& forall|i: int| 0 <= i < p.tokens.len() ==> !(#[trigger] p.tokens[i].kind is EndOfFile)
}

/// A step keeps a scan consistent.
pub proof fn lemma_step_is_consistent(src: Seq<u8>, p: Progress)
    requires
        consistent(src, p),
        p.current < src.len(),
    ensures
        consistent(src, step(src, p)),
{
    let q = step(src, p);
    let b = src[p.current];
    lemma_step_advances(src, p);
    lemma_newlines_split(src, 0, p.current, q.current);
    lemma_keyword_is_a_word(ascii_text(src.subrange(p.current, name_end(src, p.current))));
    if b == QUOTE {
        let close = position_of(src, p.current + 1, QUOTE);
        lemma_position_of(src, p.current + 1, QUOTE);
        lemma_newlines_split(src, p.current, p.current + 1, q.current);
        lemma_no_newlines(src, p.current, p.current + 1);
        if close < src.len() {
            lemma_newlines_split(src, p.current + 1, close, close + 1);
            lemma_no_newlines(src, close, close + 1);
        }
    } else if b == SLASH && followed_by(src, p.current, SLASH) {
        lemma_position_of(src, p.current + 2, NEWLINE);
        lemma_no_newlines(src, p.current, q.current);
    } else if is_digit(b) {
        lemma_digits_end(src, p.current);
        let whole = digits_end(src, p.current);
        if whole + 1 <= src.len() {
            lemma_digits_end(src, whole + 1);
        }
        lemma_no_newlines(src, p.current, q.current);
    } else if is_name_start(b) {
        lemma_name_end(src, p.current);
        lemma_no_newlines(src, p.current, q.current);
    } else if b == NEWLINE {
        assert(newlines(src, p.current, p.current + 1) == 1) by {
            lemma_no_newlines(src, p.current, p.current);
        }
    } else {
        assert forall|i: int| p.current <= i < q.current implies #[trigger] src[i] != NEWLINE by {
            if i == p.current + 1 {
                assert(followed_by(src, p.current, EQUALS));
            }
        }
        lemma_no_newlines(src, p.current, q.current);
    }
}

/// A scan that is consistent stays so to the end, where the cursor is at
/// the end of the input.
pub proof fn lemma_run_is_consistent(src: Seq<u8>, p: Progress)
    requires
        consistent(src, p),
    ensures
        consistent(src, run(src, p)),
        run(src, p).current == src.len(),
    decreases src.len() - p.current,
{
    if p.current < src.len() {
        lemma_step_advances(src, p);
        lemma_step_is_consistent(src, p);
        lemma_run_is_consistent(src, step(src, p));
    }
}

/// The tokens of any input end with the one mark of the end of the input,
/// and no other token is such a mark. The line of that mark is one more
/// than the number of line feeds in the input.
pub proof fn lemma_tokens_end_once(src: Seq<u8>)
    ensures
        tokens_of(src).len() > 0,
        tokens_of(src).last() == (TokenView {
            kind: Kind::EndOfFile,
            line: 1 + newlines(src, 0, src.len() as int),
        }),
        forall|i: int|
            0 <= i < tokens_of(src).len() - 1 ==> !(#[trigger] tokens_of(src)[i].kind
                is EndOfFile),
{
    lemma_no_newlines(src, 0, 0);
    lemma_run_is_consistent(src, start());
}

/// The line of an error.
pub open spec fn error_line(error: ScanErrorView) -> int {
    match error {
        ScanErrorView::UnexpectedCharacter { line, .. } => line,
        ScanErrorView::UnterminatedString { line } => line,
        ScanErrorView::InvalidEncoding { line } => line,
        ScanErrorView::InvalidNumber { line, .. } => line,
    }
}

/// A step keeps what was found and adds one token, one error or nothing.
/// What it adds carries the line on which the lexeme starts: one more than
/// the number of line feeds before its first byte.
pub proof fn lemma_step_adds_one(src: Seq<u8>, p: Progress)
    requires
        consistent(src, p),
        p.current < src.len(),
    ensures
        ({
            let q = step(src, p);
            let line = 1 + newlines(src, 0, p.current);
            ||| q.tokens == p.tokens && q.errors == p.errors
            ||| q.errors == p.errors && q.tokens.len() == p.tokens.len() + 1 && q.tokens.drop_last()
                == p.tokens && q.tokens.last().line == line
            ||| q.tokens == p.tokens && q.errors.len() == p.errors.len() + 1 && q.errors.drop_last()
                == p.errors && error_line(q.errors.last()) == line
        }),
{
    let q = step(src, p);
    if q.tokens.len() == p.tokens.len() + 1 {
        assert(q.tokens.drop_last() =~= p.tokens);
    }
    if q.errors.len() == p.errors.len() + 1 {
        assert(q.errors.drop_last() =~= p.errors);
    }
}

} // verus!
