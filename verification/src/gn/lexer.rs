use super::grammar;
use super::grammar::{CharClass, GnError};
use crate::text::text_of;
use vstd::prelude::*;
use vstd::slice::slice_subrange;

verus! {

/// What an executable rule returned, as the grammar states it: the value by
/// its view, the position as an integer.
pub open spec fn outcome<T: View>(r: Result<(T, usize), GnError>) -> Result<(T::V, int), GnError> {
    match r {
        Ok((value, next)) => Ok((value@, next as int)),
        Err(e) => Err(e),
    }
}

/// Whether `c` is a space, a tab or a line break.
pub fn is_whitespace(c: char) -> (r: bool)
    ensures
        r == grammar::is_whitespace(c),
{
    c == ' ' || c == '\t' || c == '\n' || c == '\r'
}

/// Whether `c` is an ASCII letter or an underscore.
pub fn is_letter(c: char) -> (r: bool)
    ensures
        r == grammar::is_letter(c),
{
    ('a' <= c && c <= 'z') || ('A' <= c && c <= 'Z') || c == '_'
}

/// Whether `c` is a decimal digit.
pub fn is_digit(c: char) -> (r: bool)
    ensures
        r == grammar::is_digit(c),
{
    '0' <= c && c <= '9'
}

/// Whether `c` belongs to `class`.
pub fn in_class(c: char, class: CharClass) -> (r: bool)
    ensures
        r == grammar::in_class(c, class),
{
    match class {
        CharClass::Whitespace => is_whitespace(c),
        CharClass::IdentifierPart => is_letter(c) || is_digit(c),
        CharClass::Digit => is_digit(c),
        CharClass::StringContent => c != '"',
    }
}

/// A scan never moves back and never leaves the text.
pub(crate) proof fn lemma_scan_bounds(s: Seq<char>, pos: int, class: CharClass)
    requires
        0 <= pos <= s.len(),
    ensures
        pos <= grammar::scan(s, pos, class) <= s.len(),
    decreases s.len() - pos,
{
    if pos < s.len() && grammar::in_class(s[pos], class) {
        lemma_scan_bounds(s, pos + 1, class);
    }
}

/// Every character that a scan passes is in the class, and the one at which
/// it stops is not.
pub(crate) proof fn lemma_scan_run(s: Seq<char>, pos: int, class: CharClass)
    requires
        0 <= pos <= s.len(),
    ensures
        forall|i: int|
            pos <= i < grammar::scan(s, pos, class) ==> grammar::in_class(#[trigger] s[i], class),
        grammar::scan(s, pos, class) < s.len() ==> !grammar::in_class(
            s[grammar::scan(s, pos, class)],
            class,
        ),
    decreases s.len() - pos,
{
    if pos < s.len() && grammar::in_class(s[pos], class) {
        lemma_scan_run(s, pos + 1, class);
    }
}

/// Moves from `pos` over the characters of `class`.
pub fn scan(input: &[char], pos: usize, class: CharClass) -> (end: usize)
    ensures
        end == grammar::scan(input@, pos as int, class),
        pos <= input.len() ==> pos <= end <= input.len(),
        pos > input.len() ==> end == pos,
{
    let mut i: usize = pos;
    while i < input.len() && in_class(input[i], class)
        invariant
            pos <= i,
            pos <= input.len() ==> i <= input.len(),
            grammar::scan(input@, pos as int, class) == grammar::scan(input@, i as int, class),
        decreases input.len() - i,
    {
        i = i + 1;
    }
    i
}

/// Where the next token starts at or after `pos`.
pub fn skip_whitespace(input: &[char], pos: usize) -> (start: usize)
    ensures
        start == grammar::skip_whitespace(input@, pos as int),
        pos <= input.len() ==> pos <= start <= input.len(),
        pos > input.len() ==> start == pos,
{
    scan(input, pos, CharClass::Whitespace)
}

/// Matches the one-character token `c`.
pub fn symbol(input: &[char], pos: usize, c: char) -> (r: Result<usize, GnError>)
    ensures
        match r {
            Ok(next) => grammar::symbol(input@, pos as int, c) == Ok::<int, GnError>(next as int),
            Err(e) => grammar::symbol(input@, pos as int, c) == Err::<int, GnError>(e),
        },
        r is Ok ==> pos < r->Ok_0 <= input.len(),
{
    let p = skip_whitespace(input, pos);
    if p >= input.len() {
        Err(GnError::Incomplete)
    } else if input[p] == c {
        Ok(p + 1)
    } else {
        Err(GnError::StructuralMismatch { position: p })
    }
}

/// Matches one letter or underscore at `pos`.
pub fn gn_letter(input: &[char], pos: usize) -> (r: Result<(String, usize), GnError>)
    ensures
        outcome(r) == grammar::letter(input@, pos as int),
        r is Ok ==> pos < r->Ok_0.1 <= input.len(),
{
    let p = skip_whitespace(input, pos);
    if p >= input.len() {
        Err(GnError::Incomplete)
    } else if is_letter(input[p]) {
        Ok((text_of(input, p, p + 1), p + 1))
    } else {
        Err(GnError::StructuralMismatch { position: p })
    }
}

/// Matches a name at `pos`.
pub fn gn_identifier(input: &[char], pos: usize) -> (r: Result<(String, usize), GnError>)
    ensures
        outcome(r) == grammar::identifier(input@, pos as int),
        r is Ok ==> pos < r->Ok_0.1 <= input.len(),
{
    let p = skip_whitespace(input, pos);
    if p >= input.len() {
        Err(GnError::Incomplete)
    } else if is_letter(input[p]) {
        let end = scan(input, p + 1, CharClass::IdentifierPart);
        Ok((text_of(input, p, end), end))
    } else {
        Err(GnError::StructuralMismatch { position: p })
    }
}

/// Matches a string literal at `pos` and yields its content.
pub fn gn_string(input: &[char], pos: usize) -> (r: Result<(String, usize), GnError>)
    ensures
        outcome(r) == grammar::string_literal(input@, pos as int),
        r is Ok ==> pos < r->Ok_0.1 <= input.len(),
{
    let p = skip_whitespace(input, pos);
    if p >= input.len() {
        Err(GnError::Incomplete)
    } else if input[p] == '"' {
        let close = scan(input, p + 1, CharClass::StringContent);
        if close < input.len() {
            Ok((text_of(input, p + 1, close), close + 1))
        } else {
            Err(GnError::Incomplete)
        }
    } else {
        Err(GnError::StructuralMismatch { position: p })
    }
}

/// The value of a run of digits with its sign, or `None` where the
/// magnitude does not fit a signed 64-bit integer.
pub fn to_integer(negative: bool, digits: &[char]) -> (value: Option<i64>)
    requires
        forall|i: int| 0 <= i < digits@.len() ==> grammar::is_digit(#[trigger] digits@[i]),
    ensures
        value == grammar::signed_value(negative, digits@),
{
    let mut i: usize = 0;
    let mut magnitude: u64 = 0;
    let mut too_large = false;
    assert(digits@.subrange(0, 0) =~= Seq::<char>::empty());
    while i < digits.len()
        invariant
            i <= digits.len(),
            forall|j: int| 0 <= j < digits@.len() ==> grammar::is_digit(#[trigger] digits@[j]),
            !too_large ==> magnitude == grammar::decimal_value(digits@.subrange(0, i as int))
                && magnitude <= i64::MAX,
            too_large ==> grammar::decimal_value(digits@.subrange(0, i as int)) > i64::MAX,
        decreases digits.len() - i,
    {
        let digit: u64 = (digits[i] as u64) - ('0' as u64);
        proof {
            let longer = digits@.subrange(0, i as int + 1);
            assert(longer.drop_last() == digits@.subrange(0, i as int));
            assert(longer.last() == digits@[i as int]);
            assert(digit == grammar::digit_value(digits@[i as int]));
        }
        if !too_large {
            if magnitude > (0x7fff_ffff_ffff_ffffu64 - digit) / 10 {
                too_large = true;
            } else {
                magnitude = magnitude * 10 + digit;
            }
        }
        i = i + 1;
    }
    assert(digits@.subrange(0, digits@.len() as int) == digits@);
    if too_large {
        None
    } else if negative {
        Some(-(magnitude as i64))
    } else {
        Some(magnitude as i64)
    }
}

/// Matches an integer literal at `pos` and yields its value.
pub fn gn_integer(input: &[char], pos: usize) -> (r: Result<(i64, usize), GnError>)
    ensures
        outcome(r) == grammar::integer_literal(input@, pos as int),
        r is Ok ==> pos < r->Ok_0.1 <= input.len(),
{
    let p = skip_whitespace(input, pos);
    if p >= input.len() {
        return Err(GnError::Incomplete);
    }
    let negative = input[p] == '-';
    let first = if negative {
        p + 1
    } else {
        p
    };
    if first >= input.len() {
        return Err(GnError::Incomplete);
    }
    if !is_digit(input[first]) {
        return Err(GnError::StructuralMismatch { position: p });
    }
    let end = scan(input, first, CharClass::Digit);
    proof {
        lemma_scan_run(input@, first as int, CharClass::Digit);
    }
    match to_integer(negative, slice_subrange(input, first, end)) {
        None => Err(GnError::StructuralMismatch { position: p }),
        Some(value) => Ok((value, end)),
    }
}

/// Matches `=`, `+=` or `-=` at `pos`.
pub fn gn_assign_op(input: &[char], pos: usize) -> (r: Result<(String, usize), GnError>)
    ensures
        outcome(r) == grammar::assign_op(input@, pos as int),
        r is Ok ==> pos < r->Ok_0.1 <= input.len(),
{
    let p = skip_whitespace(input, pos);
    if p >= input.len() {
        Err(GnError::Incomplete)
    } else if input[p] == '=' {
        Ok((text_of(input, p, p + 1), p + 1))
    } else if input[p] == '+' || input[p] == '-' {
        if p + 1 >= input.len() {
            Err(GnError::Incomplete)
        } else if input[p + 1] == '=' {
            Ok((text_of(input, p, p + 2), p + 2))
        } else {
            Err(GnError::StructuralMismatch { position: p })
        }
    } else {
        Err(GnError::StructuralMismatch { position: p })
    }
}

/// Matches `!` at `pos`.
pub fn gn_unary_op(input: &[char], pos: usize) -> (r: Result<(String, usize), GnError>)
    ensures
        outcome(r) == grammar::unary_op(input@, pos as int),
        r is Ok ==> pos < r->Ok_0.1 <= input.len(),
{
    match symbol(input, pos, '!') {
        Ok(next) => Ok((text_of(input, next - 1, next), next)),
        Err(e) => Err(e),
    }
}

/// Whether `a` and `b` make a binary operator of two characters.
pub fn is_binary_pair(a: char, b: char) -> (r: bool)
    ensures
        r == grammar::is_binary_pair(a, b),
{
    ((a == '<' || a == '>' || a == '=' || a == '!') && b == '=') || (a == '&' && b == '&') || (a
        == '|' && b == '|')
}

/// Matches a binary operator at `pos`, the longer one where two begin
/// alike.
pub fn gn_binary_op(input: &[char], pos: usize) -> (r: Result<(String, usize), GnError>)
    ensures
        outcome(r) == grammar::binary_op(input@, pos as int),
        r is Ok ==> pos < r->Ok_0.1 <= input.len(),
{
    let p = skip_whitespace(input, pos);
    if p >= input.len() {
        return Err(GnError::Incomplete);
    }
    let a = input[p];
    if p + 1 < input.len() && is_binary_pair(a, input[p + 1]) {
        Ok((text_of(input, p, p + 2), p + 2))
    } else if a == '+' || a == '-' || a == '<' || a == '>' {
        Ok((text_of(input, p, p + 1), p + 1))
    } else if p + 1 == input.len() && (a == '=' || a == '!' || a == '&' || a == '|') {
        Err(GnError::Incomplete)
    } else {
        Err(GnError::StructuralMismatch { position: p })
    }
}

} // verus!
