//! The shapes of lexemes: classes of bytes, how far a run of them reaches,
//! and the table of reserved words.

use crate::token::{Kind, TokenType};
use vstd::prelude::*;
use vstd::string::*;
use vstd::utf8::*;

verus! {

/// `(`
pub const LEFT_BRACKET: u8 = 0x28;

/// `)`
pub const RIGHT_BRACKET: u8 = 0x29;

/// `{`
pub const LEFT_BRACE: u8 = 0x7b;

/// `}`
pub const RIGHT_BRACE: u8 = 0x7d;

/// `,`
pub const COMMA: u8 = 0x2c;

/// `.`
pub const POINT: u8 = 0x2e;

/// `-`
pub const MINUS: u8 = 0x2d;

/// `+`
pub const PLUS: u8 = 0x2b;

/// `;`
pub const SEMICOLON: u8 = 0x3b;

/// `*`
pub const STAR: u8 = 0x2a;

/// `!`
pub const BANG: u8 = 0x21;

/// `=`
pub const EQUALS: u8 = 0x3d;

/// `<`
pub const LESS: u8 = 0x3c;

/// `>`
pub const GREATER: u8 = 0x3e;

/// `/`
pub const SLASH: u8 = 0x2f;

/// `"`
pub const QUOTE: u8 = 0x22;

/// A space.
pub const SPACE: u8 = 0x20;

/// A carriage return.
pub const CARRIAGE_RETURN: u8 = 0x0d;

/// A horizontal tab.
pub const TAB: u8 = 0x09;

/// A line feed: the byte that ends a line.
pub const NEWLINE: u8 = 0x0a;

/// `_`
pub const UNDERSCORE: u8 = 0x5f;

/// `0`
pub const DIGIT_0: u8 = 0x30;

/// `9`
pub const DIGIT_9: u8 = 0x39;

/// `a`
pub const LOWER_A: u8 = 0x61;

/// `z`
pub const LOWER_Z: u8 = 0x7a;

/// `A`
pub const UPPER_A: u8 = 0x41;

/// `Z`
pub const UPPER_Z: u8 = 0x5a;

/// An ASCII decimal digit.
pub open spec fn is_digit(b: u8) -> bool {
    DIGIT_0 <= b && b <= DIGIT_9
}

/// A byte that may start a name: an ASCII letter or an underscore.
pub open spec fn is_name_start(b: u8) -> bool {
    (LOWER_A <= b && b <= LOWER_Z) || (UPPER_A <= b && b <= UPPER_Z) || b == UNDERSCORE
}

/// A byte that may continue a name: a letter, a digit or an underscore.
pub open spec fn is_name_part(b: u8) -> bool {
    is_name_start(b) || is_digit(b)
}

/// A blank that is skipped without ending a line.
pub open spec fn is_blank(b: u8) -> bool {
    b == SPACE || b == CARRIAGE_RETURN || b == TAB
}

/// The first index at or after `from` that holds no digit; the length of
/// `src` where there is none.
pub open spec fn digits_end(src: Seq<u8>, from: int) -> int
    decreases src.len() - from,
{
    if 0 <= from < src.len() && is_digit(src[from]) {
        digits_end(src, from + 1)
    } else {
        from
    }
}

/// The first index at or after `from` whose byte cannot continue a name; the
/// length of `src` where there is none.
pub open spec fn name_end(src: Seq<u8>, from: int) -> int
    decreases src.len() - from,
{
    if 0 <= from < src.len() && is_name_part(src[from]) {
        name_end(src, from + 1)
    } else {
        from
    }
}

/// The first index at or after `from` that holds `target`; the length of
/// `src` where there is none.
pub open spec fn position_of(src: Seq<u8>, from: int, target: u8) -> int
    decreases src.len() - from,
{
    if 0 <= from < src.len() && src[from] != target {
        position_of(src, from + 1, target)
    } else {
        from
    }
}

/// How many line feeds `src` holds from `from` up to, not including, `to`.
pub open spec fn newlines(src: Seq<u8>, from: int, to: int) -> int
    decreases to - from,
{
    if to <= from {
        0
    } else {
        newlines(src, from, to - 1) + if src[to - 1] == NEWLINE {
            1int
        } else {
            0int
        }
    }
}

/// `digits_end` is where the run of digits from `from` stops.
pub proof fn lemma_digits_end(src: Seq<u8>, from: int)
    requires
        0 <= from <= src.len(),
    ensures
        from <= digits_end(src, from) <= src.len(),
        forall|i: int| from <= i < digits_end(src, from) ==> is_digit(#[trigger] src[i]),
        digits_end(src, from) < src.len() ==> !is_digit(src[digits_end(src, from)]),
    decreases src.len() - from,
{
    if from < src.len() && is_digit(src[from]) {
        lemma_digits_end(src, from + 1);
    }
}

/// `name_end` is where the run of name bytes from `from` stops.
pub proof fn lemma_name_end(src: Seq<u8>, from: int)
    requires
        0 <= from <= src.len(),
    ensures
        from <= name_end(src, from) <= src.len(),
        forall|i: int| from <= i < name_end(src, from) ==> is_name_part(#[trigger] src[i]),
        name_end(src, from) < src.len() ==> !is_name_part(src[name_end(src, from)]),
    decreases src.len() - from,
{
    if from < src.len() && is_name_part(src[from]) {
        lemma_name_end(src, from + 1);
    }
}

/// `position_of` is the first place at or after `from` that holds `target`.
pub proof fn lemma_position_of(src: Seq<u8>, from: int, target: u8)
    requires
        0 <= from <= src.len(),
    ensures
        from <= position_of(src, from, target) <= src.len(),
        forall|i: int| from <= i < position_of(src, from, target) ==> #[trigger] src[i] != target,
        position_of(src, from, target) < src.len() ==> src[position_of(src, from, target)]
            == target,
    decreases src.len() - from,
{
    if from < src.len() && src[from] != target {
        lemma_position_of(src, from + 1, target);
    }
}

/// Tells whether `b` is an ASCII decimal digit.
pub fn digit(b: u8) -> (r: bool)
    ensures
        r == is_digit(b),
{
    DIGIT_0 <= b && b <= DIGIT_9
}

/// Tells whether `b` may start a name.
pub fn name_start(b: u8) -> (r: bool)
    ensures
        r == is_name_start(b),
{
    (LOWER_A <= b && b <= LOWER_Z) || (UPPER_A <= b && b <= UPPER_Z) || b == UNDERSCORE
}

/// Tells whether `b` may continue a name.
pub fn name_part(b: u8) -> (r: bool)
    ensures
        r == is_name_part(b),
{
    name_start(b) || digit(b)
}

/// Finds where the run of digits that starts at `from` stops.
pub fn skip_digits(source: &[u8], from: usize) -> (end: usize)
    requires
        from <= source@.len(),
    ensures
        end == digits_end(source@, from as int),
        from <= end <= source@.len(),
{
    let mut i: usize = from;
    while i < source.len() && digit(source[i])
        invariant
            from <= i <= source@.len(),
            digits_end(source@, from as int) == digits_end(source@, i as int),
        decreases source@.len() - i,
    {
        i += 1;
    }
    i
}

/// Finds where the run of name bytes that starts at `from` stops.
pub fn skip_name(source: &[u8], from: usize) -> (end: usize)
    requires
        from <= source@.len(),
    ensures
        end == name_end(source@, from as int),
        from <= end <= source@.len(),
{
    let mut i: usize = from;
    while i < source.len() && name_part(source[i])
        invariant
            from <= i <= source@.len(),
            name_end(source@, from as int) == name_end(source@, i as int),
        decreases source@.len() - i,
    {
        i += 1;
    }
    i
}

/// Finds the first `target` at or after `from`.
pub fn find_byte(source: &[u8], from: usize, target: u8) -> (end: usize)
    requires
        from <= source@.len(),
    ensures
        end == position_of(source@, from as int, target),
        from <= end <= source@.len(),
{
    let mut i: usize = from;
    while i < source.len() && source[i] != target
        invariant
            from <= i <= source@.len(),
            position_of(source@, from as int, target) == position_of(source@, i as int, target),
        decreases source@.len() - i,
    {
        i += 1;
    }
    i
}

/// Counts the line feeds from `from` up to, not including, `to`.
pub fn count_newlines(source: &[u8], from: usize, to: usize) -> (count: usize)
    requires
        from <= to <= source@.len(),
    ensures
        count == newlines(source@, from as int, to as int),
        count <= to - from,
{
    let mut count: usize = 0;
    let mut i: usize = from;
    while i < to
        invariant
            from <= i <= to <= source@.len(),
            count == newlines(source@, from as int, i as int),
            count <= i - from,
        decreases to - i,
    {
        if source[i] == NEWLINE {
            count += 1;
        }
        i += 1;
    }
    count
}

/// The reserved word that `name` spells, if it spells one.
pub open spec fn keyword(name: Seq<char>) -> Option<Kind> {
    if name == "and"@ {
        Some(Kind::And)
    } else if name == "class"@ {
        Some(Kind::Class)
    } else if name == "else"@ {
        Some(Kind::Else)
    } else if name == "false"@ {
        Some(Kind::False)
    } else if name == "for"@ {
        Some(Kind::For)
    } else if name == "fun"@ {
        Some(Kind::Fun)
    } else if name == "if"@ {
        Some(Kind::If)
    } else if name == "nil"@ {
        Some(Kind::Nil)
    } else if name == "or"@ {
        Some(Kind::Or)
    } else if name == "print"@ {
        Some(Kind::Print)
    } else if name == "return"@ {
        Some(Kind::Return)
    } else if name == "super"@ {
        Some(Kind::Super)
    } else if name == "this"@ {
        Some(Kind::This)
    } else if name == "true"@ {
        Some(Kind::True)
    } else if name == "var"@ {
        Some(Kind::Var)
    } else if name == "while"@ {
        Some(Kind::While)
    } else {
        None
    }
}

/// Tells whether two slices hold the same bytes.
pub fn same_bytes(left: &[u8], right: &[u8]) -> (r: bool)
    ensures
        r == (left@ == right@),
{
    if left.len() != right.len() {
        return false;
    }
    let mut i: usize = 0;
    while i < left.len()
        invariant
            left@.len() == right@.len(),
            0 <= i <= left@.len(),
            forall|j: int| 0 <= j < i ==> left@[j] == right@[j],
        decreases left@.len() - i,
    {
        if left[i] != right[i] {
            return false;
        }
        i += 1;
    }
    assert(left@ =~= right@);
    true
}

/// Tells whether the bytes `word` spell the text `literal`.
pub fn spells(word: &[u8], literal: &str) -> (r: bool)
    requires
        valid_utf8(word@),
    ensures
        r == (decode_utf8(word@) == literal@),
{
    broadcast use {encode_utf8_decode_utf8, decode_utf8_encode_utf8};

    same_bytes(word, literal.as_bytes())
}

/// Looks `word` up in the table of reserved words.
pub fn reserved_word(word: &[u8]) -> (r: Option<TokenType>)
    requires
        valid_utf8(word@),
    ensures
        r is Some == keyword(decode_utf8(word@)) is Some,
        r matches Some(kind) ==> keyword(decode_utf8(word@)) == Some(kind@),
{
    if spells(word, "and") {
        Some(TokenType::And)
    } else if spells(word, "class") {
        Some(TokenType::Class)
    } else if spells(word, "else") {
        Some(TokenType::Else)
    } else if spells(word, "false") {
        Some(TokenType::False)
    } else if spells(word, "for") {
        Some(TokenType::For)
    } else if spells(word, "fun") {
        Some(TokenType::Fun)
    } else if spells(word, "if") {
        Some(TokenType::If)
    } else if spells(word, "nil") {
        Some(TokenType::Nil)
    } else if spells(word, "or") {
        Some(TokenType::Or)
    } else if spells(word, "print") {
        Some(TokenType::Print)
    } else if spells(word, "return") {
        Some(TokenType::Return)
    } else if spells(word, "super") {
        Some(TokenType::Super)
    } else if spells(word, "this") {
        Some(TokenType::This)
    } else if spells(word, "true") {
        Some(TokenType::True)
    } else if spells(word, "var") {
        Some(TokenType::Var)
    } else if spells(word, "while") {
        Some(TokenType::While)
    } else {
        None
    }
}

/// Line feeds add up over adjoining ranges.
pub proof fn lemma_newlines_split(src: Seq<u8>, from: int, middle: int, to: int)
    requires
        from <= middle <= to,
    ensures
        newlines(src, from, to) == newlines(src, from, middle) + newlines(src, middle, to),
    decreases to - middle,
{
    if middle < to {
        lemma_newlines_split(src, from, middle, to - 1);
    }
}

/// A range without a line feed counts none.
pub proof fn lemma_no_newlines(src: Seq<u8>, from: int, to: int)
    requires
        forall|i: int| from <= i < to ==> #[trigger] src[i] != NEWLINE,
    ensures
        newlines(src, from, to) == 0,
    decreases to - from,
{
    if from < to {
        lemma_no_newlines(src, from, to - 1);
    }
}

/// No reserved word is the mark of the end of the input.
pub proof fn lemma_keyword_is_a_word(name: Seq<char>)
    ensures
        keyword(name) matches Some(kind) ==> !(kind is EndOfFile),
{
}

} // verus!
