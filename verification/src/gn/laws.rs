//! What holds of the grammar for every text.

use super::ast::GnAst;
use super::grammar::{
    expr, identifier, in_class, is_digit, mismatch, primary_expr, scan, unary_expr, CharClass,
    GnError,
};
use super::printer::is_identifier;
use vstd::prelude::*;

verus! {

/// A scan over characters that are all in the class ends where they end.
pub(crate) proof fn lemma_scan_whole_run(s: Seq<char>, pos: int, end: int, class: CharClass)
    requires
        0 <= pos <= end <= s.len(),
        forall|i: int| pos <= i < end ==> in_class(#[trigger] s[i], class),
        end < s.len() ==> !in_class(s[end], class),
    ensures
        scan(s, pos, class) == end,
    decreases end - pos,
{
    if pos < end {
        lemma_scan_whole_run(s, pos + 1, end, class);
    }
}

/// Every name, parsed as an identifier, as a primary expression or as an
/// expression, yields the identifier node of that name and is read to its
/// end, whatever the limit on nesting.
pub proof fn lemma_identifier_parses_to_itself(name: Seq<char>, depth: nat)
    requires
        is_identifier(name),
    ensures
        identifier(name, 0) == Ok::<(Seq<char>, int), GnError>((name, name.len() as int)),
        primary_expr(name, 0, depth) == Ok::<(GnAst, int), GnError>(
            (GnAst::Identifier(name), name.len() as int),
        ),
        unary_expr(name, 0, depth) == primary_expr(name, 0, depth),
        expr(name, 0, depth) == primary_expr(name, 0, depth),
{
    lemma_scan_whole_run(name, 1, name.len() as int, CharClass::IdentifierPart);
    assert(name.subrange(0, name.len() as int) == name);
    assert(scan(name, name.len() as int, CharClass::Whitespace) == name.len());
}

/// A text that begins with a digit is no identifier: the parse fails at the
/// digit as a structural mismatch.
pub proof fn lemma_leading_digit_is_no_identifier(text: Seq<char>)
    requires
        text.len() > 0,
        is_digit(text[0]),
    ensures
        identifier(text, 0) == Err::<(Seq<char>, int), GnError>(mismatch(0)),
{
}

} // verus!
