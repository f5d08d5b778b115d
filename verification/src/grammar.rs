//! The token streams that the grammar generates, and the proof that the
//! parser reads each of them back as the tree it was written from.

use crate::interpreter::{nested, value_of, Error, ValueView};
use crate::parser::{
    is_binary_operator, is_comparison_operator, is_equality_operator, is_literal, is_operator_at,
    is_term_operator, is_unary_operator, level_rank, level_tail, parse_level, parse_primary,
    parse_unary, parsed_tree, well_formed, ExprView,
};
use crate::token::Kind;
use vstd::prelude::*;

verus! {

/// The tokens that spell a tree: operands and operators from left to right,
/// a grouping inside its two brackets.
pub open spec fn spelling(e: ExprView) -> Seq<Kind>
    decreases e,
{
    match e {
        ExprView::Literal { value } => seq![value],
        ExprView::Grouping { expression } => seq![Kind::LeftBracket] + spelling(*expression)
            + seq![Kind::RightBracket],
        ExprView::Unary { operator, right } => seq![operator] + spelling(*right),
        ExprView::Binary { left, operator, right } => spelling(*left) + seq![operator] + spelling(
            *right,
        ),
    }
}

/// The level of a binary operator: 0 for equality, 1 for comparison, 2 for
/// term, 3 for factor.
pub open spec fn operator_level(kind: Kind) -> nat
    recommends
        is_binary_operator(kind),
{
    if is_equality_operator(kind) {
        0
    } else if is_comparison_operator(kind) {
        1
    } else if is_term_operator(kind) {
        2
    } else {
        3
    }
}

/// The level of the production that yields a tree of this variant: that of
/// its operator for a `Binary`, 4 for a `Unary`, 5 for a primary.
pub open spec fn level_of(e: ExprView) -> nat {
    match e {
        ExprView::Binary { operator, .. } => operator_level(operator),
        ExprView::Unary { .. } => 4,
        _ => 5,
    }
}

/// Whether `e` is a tree that the grammar yields: well-formed; the left
/// operand of a binary operator of no lower level than the operator, its
/// right operand of a higher one; the operand of a prefix operator a unary
/// or a primary. Anything may stand inside brackets.
pub open spec fn grammatical(e: ExprView) -> bool
    decreases e,
{
    match e {
        ExprView::Literal { value } => is_literal(value),
        ExprView::Grouping { expression } => grammatical(*expression),
        ExprView::Unary { operator, right } => {
            &&& is_unary_operator(operator)
            &&& level_of(*right) >= 4
            &&& grammatical(*right)
        },
        ExprView::Binary { left, operator, right } => {
            &&& is_binary_operator(operator)
            &&& level_of(*left) >= operator_level(operator)
            &&& level_of(*right) > operator_level(operator)
            &&& grammatical(*left)
            &&& grammatical(*right)
        },
    }
}

/// Whether the tokens from `pos` on start with the spelling of `e`.
pub open spec fn spelled_at(ts: Seq<Kind>, pos: int, e: ExprView) -> bool {
    &&& 0 <= pos
    &&& pos + spelling(e).len() <= ts.len()
    &&& forall|i: int| 0 <= i < spelling(e).len() ==> ts[pos + i] == #[trigger] spelling(e)[i]
}

/// Whether a production of `level` stops at `at`: the tokens end there, or
/// the token there is no binary operator of that level or a higher one.
pub open spec fn stops_at(ts: Seq<Kind>, at: int, level: nat) -> bool {
    at >= ts.len() || !(is_binary_operator(ts[at]) && operator_level(ts[at]) >= level)
}

/// A spelling is never empty.
pub proof fn lemma_spelling_is_not_empty(e: ExprView)
    ensures
        spelling(e).len() > 0,
    decreases e,
{
    match e {
        ExprView::Binary { left, operator, right } => {
            lemma_spelling_is_not_empty(*left);
        },
        _ => {},
    }
}

/// A grammatical tree is well-formed.
pub proof fn lemma_grammatical_is_well_formed(e: ExprView)
    requires
        grammatical(e),
    ensures
        well_formed(e),
    decreases e,
{
    match e {
        ExprView::Literal { value } => {},
        ExprView::Grouping { expression } => {
            lemma_grammatical_is_well_formed(*expression);
        },
        ExprView::Unary { operator, right } => {
            lemma_grammatical_is_well_formed(*right);
        },
        ExprView::Binary { left, operator, right } => {
            lemma_grammatical_is_well_formed(*left);
            lemma_grammatical_is_well_formed(*right);
        },
    }
}

/// How many binary levels lie at or above `level`.
pub open spec fn steps_left(level: nat) -> nat {
    if level >= 4 {
        0
    } else {
        (4 - level) as nat
    }
}

/// Where the tokens at `pos` spell a grammatical tree of `level` or a
/// higher one, and the production of `level` stops after it, that
/// production reads exactly the tree.
pub proof fn lemma_reads_back(ts: Seq<Kind>, pos: int, e: ExprView, level: nat)
    requires
        grammatical(e),
        level_of(e) >= level,
        spelled_at(ts, pos, e),
        stops_at(ts, pos + spelling(e).len(), level),
    ensures
        parse_level(ts, pos, level) == Some((e, pos + spelling(e).len())),
    decreases e, 2 * steps_left(level) + 1,
{
    let end = pos + spelling(e).len();
    lemma_spelling_is_not_empty(e);
    if level >= 4 {
        match e {
            ExprView::Literal { value } => {
                assert(ts[pos + 0] == spelling(e)[0]);
                assert(parse_primary(ts, pos) == Some((e, end)));
                assert(parse_unary(ts, pos) == Some((e, end)));
            },
            ExprView::Grouping { expression } => {
                let inner = *expression;
                let open = seq![Kind::LeftBracket];
                let close = seq![Kind::RightBracket];
                assert(ts[pos + 0] == spelling(e)[0]);
                assert(spelled_at(ts, pos + 1, inner)) by {
                    assert forall|i: int| 0 <= i < spelling(inner).len() implies ts[pos + 1 + i]
                        == #[trigger] spelling(inner)[i] by {
                        assert(ts[pos + (i + 1)] == spelling(e)[i + 1]);
                    }
                }
                let last = spelling(e).len() - 1;
                assert(ts[pos + last] == spelling(e)[last]);
                assert(ts[pos + 1 + spelling(inner).len()] == Kind::RightBracket);
                lemma_reads_back(ts, pos + 1, inner, 0);
                assert(parse_primary(ts, pos) == Some((e, end)));
                assert(parse_unary(ts, pos) == Some((e, end)));
            },
            ExprView::Unary { operator, right } => {
                assert(ts[pos + 0] == spelling(e)[0]);
                assert(spelled_at(ts, pos + 1, *right)) by {
                    assert forall|i: int| 0 <= i < spelling(*right).len() implies ts[pos + 1 + i]
                        == #[trigger] spelling(*right)[i] by {
                        assert(ts[pos + (i + 1)] == spelling(e)[i + 1]);
                    }
                }
                lemma_reads_back(ts, pos + 1, *right, 4);
                assert(parse_unary(ts, pos + 1) == Some((*right, end)));
                assert(parse_unary(ts, pos) == Some((e, end)));
            },
            ExprView::Binary { .. } => {},
        }
    } else {
        lemma_reads_spine(ts, pos, e, level);
        assert(level_tail(ts, e, end, level) == Some((e, end)));
    }
}

/// Where the tokens at `pos` spell a grammatical tree of `level` or a
/// higher one, the production of `level` has, at the end of that spelling,
/// read exactly the tree and goes on from there.
pub proof fn lemma_reads_spine(ts: Seq<Kind>, pos: int, e: ExprView, level: nat)
    requires
        level < 4,
        grammatical(e),
        level_of(e) >= level,
        spelled_at(ts, pos, e),
        stops_at(ts, pos + spelling(e).len(), level + 1),
    ensures
        parse_level(ts, pos, level + 1) matches Some((first, next)) && pos < next <= ts.len()
            && level_tail(ts, first, next, level) == level_tail(
            ts,
            e,
            pos + spelling(e).len(),
            level,
        ),
    decreases e, 2 * steps_left(level),
{
    let end = pos + spelling(e).len();
    lemma_spelling_is_not_empty(e);
    if level_of(e) > level {
        lemma_reads_back(ts, pos, e, level + 1);
    } else {
        match e {
            ExprView::Binary { left, operator, right } => {
                let l = *left;
                let r = *right;
                let middle = pos + spelling(l).len();
                lemma_spelling_is_not_empty(l);
                lemma_spelling_is_not_empty(r);
                assert(spelled_at(ts, pos, l)) by {
                    assert forall|i: int| 0 <= i < spelling(l).len() implies ts[pos + i]
                        == #[trigger] spelling(l)[i] by {
                        assert(ts[pos + i] == spelling(e)[i]);
                    }
                }
                assert(ts[middle] == operator) by {
                    assert(ts[pos + spelling(l).len()] == spelling(e)[spelling(l).len() as int]);
                }
                assert(spelled_at(ts, middle + 1, r)) by {
                    assert forall|i: int| 0 <= i < spelling(r).len() implies ts[middle + 1 + i]
                        == #[trigger] spelling(r)[i] by {
                        let j = spelling(l).len() + 1 + i;
                        assert(ts[pos + j] == spelling(e)[j]);
                    }
                }
                assert(middle + 1 + spelling(r).len() == end);
                lemma_reads_spine(ts, pos, l, level);
                lemma_reads_back(ts, middle + 1, r, level + 1);
                assert(is_operator_at(operator, level));
                assert(level_tail(ts, l, middle, level) == level_tail(ts, e, end, level));
            },
            _ => {},
        }
    }
}

/// Every stream of tokens that spells a grammatical tree, and goes on with
/// no binary operator, parses to that tree; the tree is well-formed, so its
/// evaluation gives a value or a type error.
pub proof fn lemma_spelling_parses(e: ExprView, rest: Seq<Kind>)
    requires
        grammatical(e),
        rest.len() == 0 || !is_binary_operator(rest[0]),
    ensures
        parsed_tree(spelling(e) + rest) == Some(e),
        well_formed(e),
        value_of(e) is Ok || value_of(e) == Err::<ValueView, Error>(Error::Type),
{
    let ts = spelling(e) + rest;
    assert(spelled_at(ts, 0, e));
    if rest.len() > 0 {
        assert(ts[spelling(e).len() as int] == rest[0]);
    }
    lemma_reads_back(ts, 0, e, 0);
    lemma_grammatical_is_well_formed(e);
    match value_of(e) {
        Ok(_) => {},
        Err(error) => {
            assert(error is Type);
        },
    }
}

/// What a production reads is a grammatical tree of the production's level
/// or a higher one, and the tokens that it passed are the tree's spelling.
pub proof fn lemma_parse_is_faithful(ts: Seq<Kind>, pos: int, level: nat)
    requires
        0 <= pos,
        level <= 4,
    ensures
        parse_level(ts, pos, level) matches Some((e, next)) ==> {
            &&& pos < next <= ts.len()
            &&& grammatical(e)
            &&& level_of(e) >= level
            &&& spelling(e) == ts.subrange(pos, next)
        },
    decreases ts.len() - pos, level_rank(level),
{
    if level >= 4 {
        lemma_unary_is_faithful(ts, pos);
    } else {
        lemma_parse_is_faithful(ts, pos, level + 1);
        match parse_level(ts, pos, level + 1) {
            Some((first, next)) => {
                lemma_tail_is_faithful(ts, first, pos, next, level);
            },
            None => {},
        }
    }
}

/// What `unary` reads is a grammatical unary or primary, and the tokens
/// that it passed are the tree's spelling.
pub proof fn lemma_unary_is_faithful(ts: Seq<Kind>, pos: int)
    requires
        0 <= pos,
    ensures
        parse_unary(ts, pos) matches Some((e, next)) ==> {
            &&& pos < next <= ts.len()
            &&& grammatical(e)
            &&& level_of(e) >= 4
            &&& spelling(e) == ts.subrange(pos, next)
        },
    decreases ts.len() - pos, 1nat,
{
    if pos < ts.len() && is_unary_operator(ts[pos]) {
        lemma_unary_is_faithful(ts, pos + 1);
        match parse_unary(ts, pos + 1) {
            Some((right, next)) => {
                assert(seq![ts[pos]] + ts.subrange(pos + 1, next) =~= ts.subrange(pos, next));
            },
            None => {},
        }
    } else {
        lemma_primary_is_faithful(ts, pos);
    }
}

/// What `primary` reads is a grammatical primary, and the tokens that it
/// passed are the tree's spelling.
pub proof fn lemma_primary_is_faithful(ts: Seq<Kind>, pos: int)
    requires
        0 <= pos,
    ensures
        parse_primary(ts, pos) matches Some((e, next)) ==> {
            &&& pos < next <= ts.len()
            &&& grammatical(e)
            &&& level_of(e) == 5
            &&& spelling(e) == ts.subrange(pos, next)
        },
    decreases ts.len() - pos, 0nat,
{
    if pos < ts.len() {
        if is_literal(ts[pos]) {
            assert(seq![ts[pos]] =~= ts.subrange(pos, pos + 1));
        } else if ts[pos] is LeftBracket {
            lemma_parse_is_faithful(ts, pos + 1, 0);
            match parse_level(ts, pos + 1, 0) {
                Some((inner, next)) => {
                    if next < ts.len() && ts[next] is RightBracket {
                        assert(seq![Kind::LeftBracket] + ts.subrange(pos + 1, next)
                            + seq![Kind::RightBracket] =~= ts.subrange(pos, next + 1));
                    }
                },
                None => {},
            }
        }
    }
}

/// The rest of a level keeps what was read grammatical and spelled by the
/// tokens passed since `from`.
pub proof fn lemma_tail_is_faithful(ts: Seq<Kind>, left: ExprView, from: int, pos: int, level: nat)
    requires
        0 <= from < pos <= ts.len(),
        level < 4,
        grammatical(left),
        level_of(left) >= level,
        spelling(left) == ts.subrange(from, pos),
    ensures
        level_tail(ts, left, pos, level) matches Some((e, next)) ==> {
            &&& pos <= next <= ts.len()
            &&& grammatical(e)
            &&& level_of(e) >= level
            &&& spelling(e) == ts.subrange(from, next)
        },
    decreases ts.len() - pos, 0nat,
{
    if pos < ts.len() && is_operator_at(ts[pos], level) {
        lemma_parse_is_faithful(ts, pos + 1, level + 1);
        match parse_level(ts, pos + 1, level + 1) {
            Some((right, next)) => {
                let joined = ExprView::Binary {
                    left: Box::new(left),
                    operator: ts[pos],
                    right: Box::new(right),
                };
                assert(ts.subrange(from, pos) + seq![ts[pos]] + ts.subrange(pos + 1, next)
                    =~= ts.subrange(from, next));
                lemma_tail_is_faithful(ts, joined, from, next, level);
            },
            None => {},
        }
    }
}

/// What `parse` gives is a grammatical tree whose spelling the tokens
/// start with.
pub proof fn lemma_parsed_tree_is_spelled(ts: Seq<Kind>)
    ensures
        parsed_tree(ts) matches Some(e) ==> grammatical(e) && spelling(e).is_prefix_of(ts),
{
    lemma_parse_is_faithful(ts, 0, 0);
    match parse_level(ts, 0, 0) {
        Some((e, next)) => {
            assert(ts.subrange(0, next).is_prefix_of(ts));
        },
        None => {},
    }
}

/// Brackets around a grammatical tree give a grammatical tree, whose
/// spelling therefore parses as well.
pub proof fn lemma_nested_is_grammatical(e: ExprView, depth: nat)
    ensures
        grammatical(nested(e, depth)) == grammatical(e),
    decreases depth,
{
    if depth > 0 {
        lemma_nested_is_grammatical(e, (depth - 1) as nat);
    }
}

} // verus!
