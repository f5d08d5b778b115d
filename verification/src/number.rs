//! IEEE-754 binary64 numbers as 64-bit patterns.
//!
//! Sign, order and equality are stated and proved here over integers.
//! Rounded arithmetic and the reading of decimal text are done by
//! `rustc_apfloat`; their results are named, not defined.

use rustc_apfloat::ieee::Double;
use rustc_apfloat::Float;
use vstd::prelude::*;

verus! {

/// The pattern whose only set bit is the sign.
pub const SIGN_BIT: u64 = 0x8000_0000_0000_0000;

/// The pattern of positive infinity: every pattern whose magnitude is larger
/// is a NaN.
pub const INFINITY_BITS: u64 = 0x7ff0_0000_0000_0000;

/// Whether the sign bit is set.
pub open spec fn is_negative(bits: u64) -> bool {
    bits >= SIGN_BIT
}

/// The pattern without its sign bit.
pub open spec fn magnitude(bits: u64) -> int {
    if bits >= SIGN_BIT {
        bits - SIGN_BIT
    } else {
        bits as int
    }
}

/// Whether the pattern is a NaN, quiet or signalling.
pub open spec fn is_nan(bits: u64) -> bool {
    magnitude(bits) > INFINITY_BITS
}

/// An integer that orders the patterns which are not NaN as the numbers
/// they stand for: both zeros map to 0.
pub open spec fn order_key(bits: u64) -> int {
    if is_negative(bits) {
        -magnitude(bits)
    } else {
        magnitude(bits)
    }
}

/// Numeric equality: no NaN equals anything, and the two zeros are equal.
pub open spec fn number_eq(a: u64, b: u64) -> bool {
    !is_nan(a) && !is_nan(b) && order_key(a) == order_key(b)
}

/// Numeric `<`: false as soon as one side is a NaN.
pub open spec fn number_lt(a: u64, b: u64) -> bool {
    !is_nan(a) && !is_nan(b) && order_key(a) < order_key(b)
}

/// Numeric `<=`: false as soon as one side is a NaN.
pub open spec fn number_le(a: u64, b: u64) -> bool {
    !is_nan(a) && !is_nan(b) && order_key(a) <= order_key(b)
}

/// The pattern with its sign bit flipped.
pub open spec fn negated(bits: u64) -> u64 {
    if bits >= SIGN_BIT {
        (bits - SIGN_BIT) as u64
    } else {
        (bits + SIGN_BIT) as u64
    }
}

/// Tells whether `bits` is a NaN.
pub fn nan(bits: u64) -> (r: bool)
    ensures
        r == is_nan(bits),
{
    if bits >= SIGN_BIT {
        bits - SIGN_BIT > INFINITY_BITS
    } else {
        bits > INFINITY_BITS
    }
}

/// Arithmetic negation: flips the sign, of a NaN too.
pub fn negate(bits: u64) -> (r: u64)
    ensures
        r == negated(bits),
{
    if bits >= SIGN_BIT {
        bits - SIGN_BIT
    } else {
        bits + SIGN_BIT
    }
}

/// Numeric equality of two patterns.
pub fn equal(a: u64, b: u64) -> (r: bool)
    ensures
        r == number_eq(a, b),
{
    if nan(a) || nan(b) {
        false
    } else if a == b {
        true
    } else {
        // Two different patterns are equal only as the two zeros.
        (a == 0 || a == SIGN_BIT) && (b == 0 || b == SIGN_BIT)
    }
}

/// Numeric `<` of two patterns.
pub fn less(a: u64, b: u64) -> (r: bool)
    ensures
        r == number_lt(a, b),
{
    if nan(a) || nan(b) {
        false
    } else if a >= SIGN_BIT {
        if b >= SIGN_BIT {
            a > b
        } else {
            a > SIGN_BIT || b > 0
        }
    } else {
        b < SIGN_BIT && a < b
    }
}

/// Numeric `<=` of two patterns.
pub fn less_or_equal(a: u64, b: u64) -> (r: bool)
    ensures
        r == number_le(a, b),
{
    less(a, b) || equal(a, b)
}

/// Negating twice gives the pattern back.
pub proof fn lemma_negate_twice(bits: u64)
    ensures
        negated(negated(bits)) == bits,
{
}

/// Among patterns that are not NaN, exactly one of `<`, `==`, `>` holds, and
/// `<=` is `<` or `==`.
pub proof fn lemma_order_is_total(a: u64, b: u64)
    ensures
        number_le(a, b) == (number_lt(a, b) || number_eq(a, b)),
        !is_nan(a) && !is_nan(b) ==> (number_lt(a, b) || number_eq(a, b) || number_lt(b, a)),
        !(number_lt(a, b) && number_lt(b, a)),
        !(number_lt(a, b) && number_eq(a, b)),
{
}

/// Whether `c` is one of the ten decimal digits.
pub open spec fn is_digit_char(c: char) -> bool {
    '0' <= c && c <= '9'
}

/// Whether `text` is `whole` digits, one or more, optionally followed by a
/// point and one or more digits.
pub open spec fn has_decimal_shape(text: Seq<char>, whole: int) -> bool {
    &&& 0 < whole <= text.len()
    &&& forall|i: int| 0 <= i < whole ==> is_digit_char(#[trigger] text[i])
    &&& (whole == text.len() || {
        &&& text[whole] == '.'
        &&& whole + 1 < text.len()
        &&& forall|i: int| whole < i < text.len() ==> is_digit_char(#[trigger] text[i])
    })
}

/// Whether `text` is one or more digits, optionally followed by a point and
/// one or more digits.
pub open spec fn is_decimal_text(text: Seq<char>) -> bool {
    exists|whole: int| has_decimal_shape(text, whole)
}

/// The pattern that `rustc_apfloat` reads from decimal text, rounding to
/// nearest with ties to even; `None` where it rejects the text.
pub uninterp spec fn decimal_value(text: Seq<char>) -> Option<u64>;

/// The rounded sum of two patterns, as `rustc_apfloat` computes it.
pub uninterp spec fn sum_of(a: u64, b: u64) -> u64;

/// The rounded difference of two patterns, as `rustc_apfloat` computes it.
pub uninterp spec fn difference_of(a: u64, b: u64) -> u64;

/// The rounded product of two patterns, as `rustc_apfloat` computes it.
pub uninterp spec fn product_of(a: u64, b: u64) -> u64;

/// The rounded quotient of two patterns, as `rustc_apfloat` computes it.
pub uninterp spec fn quotient_of(a: u64, b: u64) -> u64;

/// Calls `<rustc_apfloat::ieee::Double as FromStr>::from_str`. Trusted: the
/// result depends on the text alone. Nothing is claimed of which pattern
/// comes out, nor that one does.
#[verifier::external_body]
pub(crate) fn read_decimal(text: &str) -> (r: Option<u64>)
    requires
        is_decimal_text(text@),
    ensures
        r == decimal_value(text@),
{
    match text.parse::<Double>() {
        Ok(value) => Some(value.to_bits() as u64),
        Err(_) => None,
    }
}

/// Calls `<rustc_apfloat::ieee::Double as Add>::add`, which rounds to nearest
/// with ties to even. Trusted: the result depends on the operands alone.
#[verifier::external_body]
pub(crate) fn float_add(a: u64, b: u64) -> (r: u64)
    ensures
        r == sum_of(a, b),
{
    (Double::from_bits(a as u128) + Double::from_bits(b as u128)).value.to_bits() as u64
}

/// Calls `<rustc_apfloat::ieee::Double as Sub>::sub`, which rounds to nearest
/// with ties to even. Trusted: the result depends on the operands alone.
#[verifier::external_body]
pub(crate) fn float_sub(a: u64, b: u64) -> (r: u64)
    ensures
        r == difference_of(a, b),
{
    (Double::from_bits(a as u128) - Double::from_bits(b as u128)).value.to_bits() as u64
}

/// Calls `<rustc_apfloat::ieee::Double as Mul>::mul`, which rounds to nearest
/// with ties to even. Trusted: the result depends on the operands alone.
#[verifier::external_body]
pub(crate) fn float_mul(a: u64, b: u64) -> (r: u64)
    ensures
        r == product_of(a, b),
{
    (Double::from_bits(a as u128) * Double::from_bits(b as u128)).value.to_bits() as u64
}

/// Calls `<rustc_apfloat::ieee::Double as Div>::div`, which rounds to nearest
/// with ties to even and gives an infinity or a NaN for a zero divisor.
/// Trusted: the result depends on the operands alone.
#[verifier::external_body]
pub(crate) fn float_div(a: u64, b: u64) -> (r: u64)
    ensures
        r == quotient_of(a, b),
{
    (Double::from_bits(a as u128) / Double::from_bits(b as u128)).value.to_bits() as u64
}

} // verus!
