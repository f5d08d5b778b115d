//! The three stages in a row: bytes in, a value or the failure of one stage
//! out.

use crate::grammar::{grammatical, lemma_spelling_parses, spelling};
use crate::interpreter::{interpret, value_of, Error, Value, ValueView};
use crate::parser::{parse, parsed_tree, ExprView, ParseError};
use crate::scanner::{scan_tokens, scanned, tokens_of, ScanErrorView, ScanErrors};
use crate::token::{token_kinds, token_views, Kind, TokenView};
use vstd::prelude::*;

verus! {

/// Why a source gave no value: the stage that failed, with what it found.
#[derive(Debug)]
pub enum Failure {
    /// The scanner found lexical errors: all of them, in order.
    Lexical(ScanErrors),
    /// The parser found a syntax error.
    Syntactic(ParseError),
    /// The evaluator found a type error.
    Type(Error),
}

/// What a source comes to, as a mathematical value.
pub ghost enum Outcome {
    Value(ValueView),
    Lexical(Seq<ScanErrorView>),
    Syntactic,
    Type,
}

/// The kinds of a sequence of token views, in order.
pub open spec fn kinds_of(tokens: Seq<TokenView>) -> Seq<Kind> {
    tokens.map_values(|t: TokenView| t.kind)
}

/// What `src` comes to: its lexical errors if it has any; else a syntax
/// error if its tokens start with no expression; else the value of that
/// expression, or a type error.
pub open spec fn outcome_of(src: Seq<u8>) -> Outcome {
    if scanned(src).errors.len() > 0 {
        Outcome::Lexical(scanned(src).errors)
    } else {
        match parsed_tree(kinds_of(tokens_of(src))) {
            None => Outcome::Syntactic,
            Some(e) => match value_of(e) {
                Ok(v) => Outcome::Value(v),
                Err(_) => Outcome::Type,
            },
        }
    }
}

/// The view of what [`run`] returns.
pub open spec fn result_view(r: Result<Value, Failure>) -> Outcome {
    match r {
        Ok(v) => Outcome::Value(v@),
        Err(Failure::Lexical(errors)) => Outcome::Lexical(errors@),
        Err(Failure::Syntactic(_)) => Outcome::Syntactic,
        Err(Failure::Type(_)) => Outcome::Type,
    }
}

/// Scans, parses and evaluates one source.
pub fn run(content: &[u8]) -> (r: Result<Value, Failure>)
    requires
        content@.len() < usize::MAX,
    ensures
        result_view(r) == outcome_of(content@),
{
    let tokens = match scan_tokens(content) {
        Ok(tokens) => tokens,
        Err(errors) => return Err(Failure::Lexical(errors)),
    };
    assert(token_kinds(tokens@) =~= kinds_of(token_views(tokens@)));
    let expr = match parse(tokens) {
        Ok(expr) => expr,
        Err(error) => return Err(Failure::Syntactic(error)),
    };
    match interpret(&expr) {
        Ok(value) => Ok(value),
        Err(error) => Err(Failure::Type(error)),
    }
}

/// A source without lexical errors whose tokens spell a grammatical tree
/// comes to the value of that tree or to a type error, never to a lexical
/// or a syntax error.
pub proof fn lemma_grammatical_source_evaluates(src: Seq<u8>, e: ExprView)
    requires
        scanned(src).errors.len() == 0,
        grammatical(e),
        kinds_of(tokens_of(src)) == spelling(e) + seq![Kind::EndOfFile],
    ensures
        outcome_of(src) == match value_of(e) {
            Ok(v) => Outcome::Value(v),
            Err(_) => Outcome::Type,
        },
{
    lemma_spelling_parses(e, seq![Kind::EndOfFile]);
}

} // verus!
