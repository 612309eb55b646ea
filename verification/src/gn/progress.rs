//! Every rule that matches reads text and stays inside it: the grammar's
//! checks that a position has moved on never cut a parse short.

use super::grammar::{
    arguments_from, assign_op, binary_op, expr, expr_rest, identifier, integer_literal, letter,
    list_elements, primary_expr, skip_whitespace, statement, statements_from, string_literal,
    symbol, unary_expr, unary_op, CharClass,
};
use super::ast::GnAst;
use super::lexer::lemma_scan_bounds;
use vstd::prelude::*;

verus! {

/// A token that matches from `pos` ends after `pos` and inside the text.
pub proof fn lemma_tokens_advance(s: Seq<char>, pos: int)
    requires
        0 <= pos,
    ensures
        forall|c: char| #[trigger] symbol(s, pos, c) is Ok ==> pos < symbol(s, pos, c)->Ok_0 <= s.len(),
        letter(s, pos) is Ok ==> pos < letter(s, pos)->Ok_0.1 <= s.len(),
        identifier(s, pos) is Ok ==> pos < identifier(s, pos)->Ok_0.1 <= s.len(),
        string_literal(s, pos) is Ok ==> pos < string_literal(s, pos)->Ok_0.1 <= s.len(),
        integer_literal(s, pos) is Ok ==> pos < integer_literal(s, pos)->Ok_0.1 <= s.len(),
        assign_op(s, pos) is Ok ==> pos < assign_op(s, pos)->Ok_0.1 <= s.len(),
        unary_op(s, pos) is Ok ==> pos < unary_op(s, pos)->Ok_0.1 <= s.len(),
        binary_op(s, pos) is Ok ==> pos < binary_op(s, pos)->Ok_0.1 <= s.len(),
{
    let p = skip_whitespace(s, pos);
    if pos <= s.len() {
        lemma_scan_bounds(s, pos, CharClass::Whitespace);
    }
    if 0 <= p < s.len() {
        lemma_scan_bounds(s, p + 1, CharClass::IdentifierPart);
        lemma_scan_bounds(s, p + 1, CharClass::StringContent);
        lemma_scan_bounds(s, p, CharClass::Digit);
        lemma_scan_bounds(s, p + 1, CharClass::Digit);
    }
}

/// A primary expression that matches from `pos` ends after `pos` and
/// inside the text.
pub proof fn lemma_primary_advances(s: Seq<char>, pos: int, depth: nat)
    requires
        0 <= pos,
    ensures
        primary_expr(s, pos, depth) is Ok ==> pos < primary_expr(s, pos, depth)->Ok_0.1 <= s.len(),
    decreases depth, s.len() - pos, 1int,
{
    lemma_tokens_advance(s, pos);
    if identifier(s, pos) is Ok {
        lemma_tokens_advance(s, identifier(s, pos)->Ok_0.1);
    }
    if symbol(s, pos, '[') is Ok && depth > 0 {
        let pos1 = symbol(s, pos, '[')->Ok_0;
        let inner = (depth - 1) as nat;
        lemma_elements_advance(s, pos1, inner, Seq::empty());
        if list_elements(s, pos1, inner, Seq::empty()) is Ok {
            lemma_tokens_advance(s, list_elements(s, pos1, inner, Seq::empty())->Ok_0.1);
        }
    }
    if symbol(s, pos, '(') is Ok && depth > 0 {
        let pos1 = symbol(s, pos, '(')->Ok_0;
        let inner = (depth - 1) as nat;
        lemma_expr_advances(s, pos1, inner);
        if expr(s, pos1, inner) is Ok {
            lemma_tokens_advance(s, expr(s, pos1, inner)->Ok_0.1);
        }
    }
}

/// The elements of a list that are read from `pos` end at or after `pos`
/// and inside the text.
pub proof fn lemma_elements_advance(s: Seq<char>, pos: int, depth: nat, acc: Seq<GnAst>)
    requires
        0 <= pos <= s.len(),
    ensures
        list_elements(s, pos, depth, acc) is Ok ==> pos <= list_elements(
            s,
            pos,
            depth,
            acc,
        )->Ok_0.1 <= s.len(),
    decreases depth, s.len() - pos, 5int,
{
    lemma_primary_advances(s, pos, depth);
    if primary_expr(s, pos, depth) is Ok {
        let element = primary_expr(s, pos, depth)->Ok_0.0;
        let pos1 = primary_expr(s, pos, depth)->Ok_0.1;
        lemma_tokens_advance(s, pos1);
        let pos2 = match symbol(s, pos1, ',') {
            Ok(q) => q,
            Err(_) => pos1,
        };
        lemma_elements_advance(s, pos2, depth, acc.push(element));
    }
}

/// A unary expression that matches from `pos` ends after `pos` and inside
/// the text.
pub proof fn lemma_unary_advances(s: Seq<char>, pos: int, depth: nat)
    requires
        0 <= pos,
    ensures
        unary_expr(s, pos, depth) is Ok ==> pos < unary_expr(s, pos, depth)->Ok_0.1 <= s.len(),
    decreases depth, s.len() - pos, 2int,
{
    lemma_tokens_advance(s, pos);
    lemma_primary_advances(s, pos, depth);
    if unary_op(s, pos) is Ok && depth > 0 {
        lemma_unary_advances(s, unary_op(s, pos)->Ok_0.1, (depth - 1) as nat);
    }
}

/// What is folded onto a left operand from `pos` ends at or after `pos` and
/// inside the text.
pub proof fn lemma_expr_rest_advances(s: Seq<char>, pos: int, depth: nat, left: GnAst)
    requires
        0 <= pos <= s.len(),
    ensures
        expr_rest(s, pos, depth, left) is Ok ==> pos <= expr_rest(s, pos, depth, left)->Ok_0.1
            <= s.len(),
    decreases depth, s.len() - pos, 3int,
{
    lemma_tokens_advance(s, pos);
    if binary_op(s, pos) is Ok {
        let op = binary_op(s, pos)->Ok_0.0;
        let pos1 = binary_op(s, pos)->Ok_0.1;
        lemma_unary_advances(s, pos1, depth);
        if unary_expr(s, pos1, depth) is Ok {
            let right = unary_expr(s, pos1, depth)->Ok_0.0;
            let pos2 = unary_expr(s, pos1, depth)->Ok_0.1;
            lemma_expr_rest_advances(
                s,
                pos2,
                depth,
                GnAst::BinaryExpr(Box::new(left), op, Box::new(right)),
            );
        }
    }
}

/// An expression that matches from `pos` ends after `pos` and inside the
/// text.
pub proof fn lemma_expr_advances(s: Seq<char>, pos: int, depth: nat)
    requires
        0 <= pos,
    ensures
        expr(s, pos, depth) is Ok ==> pos < expr(s, pos, depth)->Ok_0.1 <= s.len(),
    decreases depth, s.len() - pos, 4int,
{
    lemma_unary_advances(s, pos, depth);
    if unary_expr(s, pos, depth) is Ok {
        let left = unary_expr(s, pos, depth)->Ok_0.0;
        let pos1 = unary_expr(s, pos, depth)->Ok_0.1;
        lemma_expr_rest_advances(s, pos1, depth, left);
    }
}

/// The arguments of a call that are read from `pos` end at or after `pos`
/// and inside the text.
pub proof fn lemma_arguments_advance(s: Seq<char>, pos: int, depth: nat, acc: Seq<GnAst>)
    requires
        0 <= pos <= s.len(),
    ensures
        arguments_from(s, pos, depth, acc) is Ok ==> pos <= arguments_from(
            s,
            pos,
            depth,
            acc,
        )->Ok_0.1 <= s.len(),
    decreases depth, s.len() - pos, 5int,
{
    lemma_expr_advances(s, pos, depth);
    if expr(s, pos, depth) is Ok {
        let argument = expr(s, pos, depth)->Ok_0.0;
        let pos1 = expr(s, pos, depth)->Ok_0.1;
        lemma_tokens_advance(s, pos1);
        if symbol(s, pos1, ',') is Ok {
            lemma_arguments_advance(s, symbol(s, pos1, ',')->Ok_0, depth, acc.push(argument));
        }
    }
}

/// A statement that matches from `pos` ends after `pos` and inside the
/// text.
pub proof fn lemma_statement_advances(s: Seq<char>, pos: int, depth: nat)
    requires
        0 <= pos,
    ensures
        statement(s, pos, depth) is Ok ==> pos < statement(s, pos, depth)->Ok_0.1 <= s.len(),
    decreases depth, s.len() - pos, 7int,
{
    lemma_tokens_advance(s, pos);
    if identifier(s, pos) is Ok {
        let pos1 = identifier(s, pos)->Ok_0.1;
        lemma_tokens_advance(s, pos1);
        if assign_op(s, pos1) is Ok {
            lemma_expr_advances(s, assign_op(s, pos1)->Ok_0.1, depth);
        }
        if symbol(s, pos1, '(') is Ok && depth > 0 {
            let pos2 = symbol(s, pos1, '(')->Ok_0;
            let inner = (depth - 1) as nat;
            lemma_arguments_advance(s, pos2, inner, Seq::empty());
            if arguments_from(s, pos2, inner, Seq::empty()) is Ok {
                let pos3 = arguments_from(s, pos2, inner, Seq::empty())->Ok_0.1;
                lemma_tokens_advance(s, pos3);
                if symbol(s, pos3, ')') is Ok {
                    let pos4 = symbol(s, pos3, ')')->Ok_0;
                    lemma_tokens_advance(s, pos4);
                    if symbol(s, pos4, '{') is Ok {
                        let pos5 = symbol(s, pos4, '{')->Ok_0;
                        lemma_statements_advance(s, pos5, inner, Seq::empty());
                        if statements_from(s, pos5, inner, Seq::empty()) is Ok {
                            lemma_tokens_advance(
                                s,
                                statements_from(s, pos5, inner, Seq::empty())->Ok_0.1,
                            );
                        }
                    }
                }
            }
        }
    }
}

/// The statements that are read from `pos` end at or after `pos` and inside
/// the text.
pub proof fn lemma_statements_advance(s: Seq<char>, pos: int, depth: nat, acc: Seq<GnAst>)
    requires
        0 <= pos <= s.len(),
    ensures
        statements_from(s, pos, depth, acc) is Ok ==> pos <= statements_from(
            s,
            pos,
            depth,
            acc,
        )->Ok_0.1 <= s.len(),
    decreases depth, s.len() - pos, 8int,
{
    lemma_statement_advances(s, pos, depth);
    if statement(s, pos, depth) is Ok {
        let st = statement(s, pos, depth)->Ok_0.0;
        let pos1 = statement(s, pos, depth)->Ok_0.1;
        lemma_statements_advance(s, pos1, depth, acc.push(st));
    }
}

} // verus!
