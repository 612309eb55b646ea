//! Every tree that the grammar yields is one that can be written down.

use super::ast::GnAst;
use super::grammar::{
    arguments_from, array_access, assign_op, binary_op, bracketed_list, call, expr, expr_rest,
    identifier, integer_literal, list_elements, parenthesized, primary_expr, program,
    scope_access, skip_whitespace, statement, statements_from, string_literal, symbol,
    unary_expr, unary_op, CharClass,
};
use super::lexer::{lemma_scan_bounds, lemma_scan_run};
use super::printer::{
    is_assign_operator, is_binary_operator, is_identifier, is_string_content, is_unary_operator,
    plain_primary, writable_expr, writable_primary, writable_program, writable_statement,
    writable_unary, write_program,
};
use super::round_trip::lemma_program_round_trip;
use vstd::prelude::*;

verus! {

/// A plain primary expression stays writable under a higher limit.
proof fn lemma_plain_deeper(x: GnAst, depth: nat)
    requires
        plain_primary(x, depth),
    ensures
        plain_primary(x, depth + 1),
    decreases depth, x, 0int,
{
    match x {
        GnAst::ExpressionList(elements) => {
            assert forall|i: int| 0 <= i < elements.len() implies writable_primary(
                #[trigger] elements[i],
                depth,
            ) by {
                lemma_primary_deeper(elements[i], (depth - 1) as nat);
            }
        },
        _ => {},
    }
}

/// A primary expression stays writable under a higher limit.
proof fn lemma_primary_deeper(x: GnAst, depth: nat)
    requires
        writable_primary(x, depth),
    ensures
        writable_primary(x, depth + 1),
    decreases depth, x, 1int,
{
    match x {
        GnAst::UnaryExpr(_, _) => {
            lemma_expr_deeper(x, (depth - 1) as nat);
        },
        GnAst::BinaryExpr(_, _, _) => {
            lemma_expr_deeper(x, (depth - 1) as nat);
        },
        _ => {
            lemma_plain_deeper(x, depth);
        },
    }
}

/// A unary expression stays writable under a higher limit.
proof fn lemma_unary_deeper(x: GnAst, depth: nat)
    requires
        writable_unary(x, depth),
    ensures
        writable_unary(x, depth + 1),
    decreases depth, x, 2int,
{
    match x {
        GnAst::UnaryExpr(op, operand) => {
            lemma_unary_deeper(*operand, (depth - 1) as nat);
        },
        _ => {
            lemma_primary_deeper(x, depth);
        },
    }
}

/// An expression stays writable under a higher limit.
proof fn lemma_expr_deeper(x: GnAst, depth: nat)
    requires
        writable_expr(x, depth),
    ensures
        writable_expr(x, depth + 1),
    decreases depth, x, 3int,
{
    match x {
        GnAst::BinaryExpr(left, op, right) => {
            lemma_expr_deeper(*left, depth);
            lemma_unary_deeper(*right, depth);
        },
        _ => {
            lemma_unary_deeper(x, depth);
        },
    }
}

/// What is writable as a primary expression is writable as a unary one.
proof fn lemma_primary_is_unary(x: GnAst, depth: nat)
    requires
        writable_primary(x, depth),
    ensures
        writable_unary(x, depth),
{
    match x {
        GnAst::UnaryExpr(op, operand) => {
            assert(writable_unary(x, (depth - 1) as nat));
            lemma_unary_deeper(*operand, (depth - 2) as nat);
        },
        _ => {},
    }
}

/// What is writable as a unary expression is writable as an expression.
proof fn lemma_unary_is_expr(x: GnAst, depth: nat)
    requires
        writable_unary(x, depth),
    ensures
        writable_expr(x, depth),
{
    match x {
        GnAst::BinaryExpr(_, _, _) => {
            assert(writable_primary(x, depth));
            lemma_expr_deeper(x, (depth - 1) as nat);
        },
        _ => {},
    }
}

/// An expression in parentheses is writable as a primary expression one
/// level higher.
proof fn lemma_grouped_is_primary(x: GnAst, depth: nat)
    requires
        writable_expr(x, depth),
    ensures
        writable_primary(x, depth + 1),
{
    match x {
        GnAst::UnaryExpr(_, _) => {},
        GnAst::BinaryExpr(_, _, _) => {},
        _ => {
            assert(writable_unary(x, depth));
            assert(writable_primary(x, depth));
            lemma_primary_deeper(x, depth);
        },
    }
}

/// What the rules for single tokens yield: an identifier is a name, a
/// string literal holds no double quote, an integer is above the least
/// one, and an operator is one of its kind.
proof fn lemma_tokens_yield(s: Seq<char>, pos: int)
    requires
        0 <= pos,
    ensures
        identifier(s, pos) is Ok ==> is_identifier(identifier(s, pos)->Ok_0.0),
        string_literal(s, pos) is Ok ==> is_string_content(string_literal(s, pos)->Ok_0.0),
        integer_literal(s, pos) is Ok ==> integer_literal(s, pos)->Ok_0.0 > i64::MIN,
        binary_op(s, pos) is Ok ==> is_binary_operator(binary_op(s, pos)->Ok_0.0),
        assign_op(s, pos) is Ok ==> is_assign_operator(assign_op(s, pos)->Ok_0.0),
        unary_op(s, pos) is Ok ==> is_unary_operator(unary_op(s, pos)->Ok_0.0),
{
    let p = skip_whitespace(s, pos);
    if pos <= s.len() {
        lemma_scan_bounds(s, pos, CharClass::Whitespace);
    }
    if 0 <= p < s.len() {
        lemma_scan_bounds(s, p + 1, CharClass::IdentifierPart);
        lemma_scan_run(s, p + 1, CharClass::IdentifierPart);
        lemma_scan_bounds(s, p + 1, CharClass::StringContent);
        lemma_scan_run(s, p + 1, CharClass::StringContent);
    }
}

/// Every tree that a primary expression yields is writable.
proof fn lemma_primary_yields(s: Seq<char>, pos: int, depth: nat)
    requires
        0 <= pos,
    ensures
        primary_expr(s, pos, depth) is Ok ==> writable_primary(
            primary_expr(s, pos, depth)->Ok_0.0,
            depth,
        ),
    decreases depth, s.len() - pos, 1int,
{
    lemma_tokens_yield(s, pos);
    if symbol(s, pos, '[') is Ok && depth > 0 {
        let pos1 = symbol(s, pos, '[')->Ok_0;
        lemma_elements_yield(s, pos1, (depth - 1) as nat, Seq::empty());
    }
    let list = bracketed_list(s, pos, depth);
    assert(list is Ok ==> writable_primary(list->Ok_0.0, depth));
    if symbol(s, pos, '(') is Ok && depth > 0 {
        let pos1 = symbol(s, pos, '(')->Ok_0;
        lemma_expr_yields(s, pos1, (depth - 1) as nat);
        if expr(s, pos1, (depth - 1) as nat) is Ok {
            let inner = expr(s, pos1, (depth - 1) as nat)->Ok_0.0;
            lemma_grouped_is_primary(inner, (depth - 1) as nat);
        }
    }
    let grouped = parenthesized(s, pos, depth);
    assert(grouped is Ok ==> writable_primary(grouped->Ok_0.0, depth));
    assert(identifier(s, pos) is Err ==> call(s, pos, depth) is Err);
    assert(identifier(s, pos) is Err ==> array_access(s, pos, depth) is Err);
    assert(identifier(s, pos) is Err ==> scope_access(s, pos) is Err);
}

/// Every element that is read into a list of writable elements is
/// writable.
proof fn lemma_elements_yield(s: Seq<char>, pos: int, depth: nat, acc: Seq<GnAst>)
    requires
        0 <= pos,
        forall|i: int| 0 <= i < acc.len() ==> writable_primary(#[trigger] acc[i], depth),
    ensures
        list_elements(s, pos, depth, acc) is Ok ==> forall|i: int|
            0 <= i < list_elements(s, pos, depth, acc)->Ok_0.0.len() ==> writable_primary(
                #[trigger] list_elements(s, pos, depth, acc)->Ok_0.0[i],
                depth,
            ),
    decreases depth, s.len() - pos, 5int,
{
    lemma_primary_yields(s, pos, depth);
    if primary_expr(s, pos, depth) is Ok {
        let element = primary_expr(s, pos, depth)->Ok_0.0;
        let pos1 = primary_expr(s, pos, depth)->Ok_0.1;
        let pos2 = match symbol(s, pos1, ',') {
            Ok(q) => q,
            Err(_) => pos1,
        };
        if pos < pos2 <= s.len() {
            lemma_elements_yield(s, pos2, depth, acc.push(element));
        }
    }
}

/// Every tree that a unary expression yields is writable.
proof fn lemma_unary_yields(s: Seq<char>, pos: int, depth: nat)
    requires
        0 <= pos,
    ensures
        unary_expr(s, pos, depth) is Ok ==> writable_unary(
            unary_expr(s, pos, depth)->Ok_0.0,
            depth,
        ),
    decreases depth, s.len() - pos, 2int,
{
    lemma_tokens_yield(s, pos);
    lemma_primary_yields(s, pos, depth);
    if primary_expr(s, pos, depth) is Ok {
        lemma_primary_is_unary(primary_expr(s, pos, depth)->Ok_0.0, depth);
    }
    if unary_op(s, pos) is Ok && depth > 0 {
        let pos1 = unary_op(s, pos)->Ok_0.1;
        lemma_unary_yields(s, pos1, (depth - 1) as nat);
    }
}

/// Whatever is folded onto a writable left operand is writable.
proof fn lemma_expr_rest_yields(s: Seq<char>, pos: int, depth: nat, left: GnAst)
    requires
        0 <= pos,
        writable_expr(left, depth),
    ensures
        expr_rest(s, pos, depth, left) is Ok ==> writable_expr(
            expr_rest(s, pos, depth, left)->Ok_0.0,
            depth,
        ),
    decreases depth, s.len() - pos, 3int,
{
    lemma_tokens_yield(s, pos);
    if binary_op(s, pos) is Ok {
        let op = binary_op(s, pos)->Ok_0.0;
        let pos1 = binary_op(s, pos)->Ok_0.1;
        if pos <= pos1 <= s.len() {
            lemma_unary_yields(s, pos1, depth);
            if unary_expr(s, pos1, depth) is Ok {
                let right = unary_expr(s, pos1, depth)->Ok_0.0;
                let pos2 = unary_expr(s, pos1, depth)->Ok_0.1;
                let node = GnAst::BinaryExpr(Box::new(left), op, Box::new(right));
                if pos < pos2 <= s.len() {
                    lemma_expr_rest_yields(s, pos2, depth, node);
                }
            }
        }
    }
}

/// Every tree that an expression yields is writable.
pub proof fn lemma_expr_yields(s: Seq<char>, pos: int, depth: nat)
    requires
        0 <= pos,
    ensures
        expr(s, pos, depth) is Ok ==> writable_expr(expr(s, pos, depth)->Ok_0.0, depth),
    decreases depth, s.len() - pos, 4int,
{
    lemma_unary_yields(s, pos, depth);
    if unary_expr(s, pos, depth) is Ok {
        let left = unary_expr(s, pos, depth)->Ok_0.0;
        let pos1 = unary_expr(s, pos, depth)->Ok_0.1;
        lemma_unary_is_expr(left, depth);
        if pos <= pos1 <= s.len() {
            lemma_expr_rest_yields(s, pos1, depth, left);
        }
    }
}

/// Every argument that is read into a list of writable arguments is
/// writable.
proof fn lemma_arguments_yield(s: Seq<char>, pos: int, depth: nat, acc: Seq<GnAst>)
    requires
        0 <= pos,
        forall|i: int| 0 <= i < acc.len() ==> writable_expr(#[trigger] acc[i], depth),
    ensures
        arguments_from(s, pos, depth, acc) is Ok ==> forall|i: int|
            0 <= i < arguments_from(s, pos, depth, acc)->Ok_0.0.len() ==> writable_expr(
                #[trigger] arguments_from(s, pos, depth, acc)->Ok_0.0[i],
                depth,
            ),
    decreases depth, s.len() - pos, 5int,
{
    lemma_expr_yields(s, pos, depth);
    if expr(s, pos, depth) is Ok {
        let argument = expr(s, pos, depth)->Ok_0.0;
        let pos1 = expr(s, pos, depth)->Ok_0.1;
        if symbol(s, pos1, ',') is Ok {
            let pos2 = symbol(s, pos1, ',')->Ok_0;
            if pos < pos2 <= s.len() {
                lemma_arguments_yield(s, pos2, depth, acc.push(argument));
            }
        }
    }
}

/// Every tree that a statement yields is writable.
pub proof fn lemma_statement_yields(s: Seq<char>, pos: int, depth: nat)
    requires
        0 <= pos,
    ensures
        statement(s, pos, depth) is Ok ==> writable_statement(
            statement(s, pos, depth)->Ok_0.0,
            depth,
        ),
    decreases depth, s.len() - pos, 7int,
{
    lemma_tokens_yield(s, pos);
    if identifier(s, pos) is Ok {
        let pos1 = identifier(s, pos)->Ok_0.1;
        if 0 <= pos1 {
            lemma_tokens_yield(s, pos1);
        }
        if assign_op(s, pos1) is Ok {
            let pos2 = assign_op(s, pos1)->Ok_0.1;
            if pos <= pos2 <= s.len() {
                lemma_expr_yields(s, pos2, depth);
            }
        }
        if symbol(s, pos1, '(') is Ok && depth > 0 {
            let pos2 = symbol(s, pos1, '(')->Ok_0;
            let inner = (depth - 1) as nat;
            if 0 <= pos2 {
                lemma_arguments_yield(s, pos2, inner, Seq::empty());
            }
            if arguments_from(s, pos2, inner, Seq::empty()) is Ok {
                let pos3 = arguments_from(s, pos2, inner, Seq::empty())->Ok_0.1;
                if symbol(s, pos3, ')') is Ok {
                    let pos4 = symbol(s, pos3, ')')->Ok_0;
                    if symbol(s, pos4, '{') is Ok {
                        let pos5 = symbol(s, pos4, '{')->Ok_0;
                        if 0 <= pos5 {
                            lemma_statements_yield(s, pos5, inner, Seq::empty());
                        }
                    }
                }
            }
        }
    }
}

/// Every statement that is read into a list of writable statements is
/// writable.
proof fn lemma_statements_yield(s: Seq<char>, pos: int, depth: nat, acc: Seq<GnAst>)
    requires
        0 <= pos,
        forall|i: int| 0 <= i < acc.len() ==> writable_statement(#[trigger] acc[i], depth),
    ensures
        statements_from(s, pos, depth, acc) is Ok ==> forall|i: int|
            0 <= i < statements_from(s, pos, depth, acc)->Ok_0.0.len() ==> writable_statement(
                #[trigger] statements_from(s, pos, depth, acc)->Ok_0.0[i],
                depth,
            ),
    decreases depth, s.len() - pos, 8int,
{
    lemma_statement_yields(s, pos, depth);
    if statement(s, pos, depth) is Ok {
        let st = statement(s, pos, depth)->Ok_0.0;
        let pos1 = statement(s, pos, depth)->Ok_0.1;
        if pos < pos1 <= s.len() {
            lemma_statements_yield(s, pos1, depth, acc.push(st));
        }
    }
}

/// Every tree that the parse of a whole text yields is a writable program.
pub proof fn lemma_program_yields(s: Seq<char>, depth: nat)
    ensures
        program(s, depth) is Ok ==> writable_program(program(s, depth)->Ok_0, depth),
{
    lemma_statements_yield(s, 0, depth, Seq::empty());
}

/// Parsing is idempotent over writing: where a text parses to a tree, that
/// tree written down parses to the same tree again, under the same limit
/// on nesting.
pub proof fn lemma_reparse_gives_same_tree(s: Seq<char>, depth: nat)
    requires
        program(s, depth) is Ok,
    ensures
        program(write_program(program(s, depth)->Ok_0), depth) == program(s, depth),
{
    lemma_program_yields(s, depth);
    lemma_program_round_trip(program(s, depth)->Ok_0, depth);
}

proof fn lemma_plain_well_formed(x: GnAst, depth: nat)
    requires
        plain_primary(x, depth),
    ensures
        x.well_formed(),
    decreases depth, x, 0int,
{
    match x {
        GnAst::ExpressionList(elements) => {
            assert forall|i: int| 0 <= i < elements.len() implies (#[trigger] elements[i]).well_formed() by {
                lemma_primary_well_formed(elements[i], (depth - 1) as nat);
            }
        },
        _ => {},
    }
}

proof fn lemma_primary_well_formed(x: GnAst, depth: nat)
    requires
        writable_primary(x, depth),
    ensures
        x.well_formed(),
    decreases depth, x, 1int,
{
    match x {
        GnAst::UnaryExpr(_, _) => {
            lemma_expr_well_formed(x, (depth - 1) as nat);
        },
        GnAst::BinaryExpr(_, _, _) => {
            lemma_expr_well_formed(x, (depth - 1) as nat);
        },
        _ => {
            lemma_plain_well_formed(x, depth);
        },
    }
}

proof fn lemma_unary_well_formed(x: GnAst, depth: nat)
    requires
        writable_unary(x, depth),
    ensures
        x.well_formed(),
    decreases depth, x, 2int,
{
    match x {
        GnAst::UnaryExpr(op, operand) => {
            lemma_unary_well_formed(*operand, (depth - 1) as nat);
        },
        _ => {
            lemma_primary_well_formed(x, depth);
        },
    }
}

/// Every writable expression keeps the invariant of trees.
pub proof fn lemma_expr_well_formed(x: GnAst, depth: nat)
    requires
        writable_expr(x, depth),
    ensures
        x.well_formed(),
    decreases depth, x, 3int,
{
    match x {
        GnAst::BinaryExpr(left, op, right) => {
            lemma_expr_well_formed(*left, depth);
            lemma_unary_well_formed(*right, depth);
        },
        _ => {
            lemma_unary_well_formed(x, depth);
        },
    }
}

/// Every writable statement keeps the invariant of trees.
pub proof fn lemma_statement_well_formed(x: GnAst, depth: nat)
    requires
        writable_statement(x, depth),
    ensures
        x.well_formed(),
    decreases depth, x,
{
    match x {
        GnAst::Assignment(lvalue, op, rvalue) => {
            lemma_expr_well_formed(*rvalue, depth);
            assert(lvalue.is_addressable());
            assert(lvalue.well_formed());
        },
        GnAst::Call { name, params, block } => {
            let inner = (depth - 1) as nat;
            let arguments = params->ExpressionList_0;
            assert forall|i: int| 0 <= i < arguments.len() implies (#[trigger] arguments[i]).well_formed() by {
                lemma_expr_well_formed(arguments[i], inner);
            }
            assert(params.well_formed());
            match block {
                Some(body) => {
                    let statements = body->ExpressionList_0;
                    assert forall|i: int| 0 <= i < statements.len() implies (
                    #[trigger] statements[i]).well_formed() by {
                        lemma_statement_well_formed(statements[i], inner);
                    }
                    assert(body.well_formed());
                },
                None => {},
            }
        },
        _ => {},
    }
}

/// Every tree that the parse of a whole text yields keeps the invariant of
/// trees: the left side of each assignment is addressable, and the
/// arguments and the body of each call are lists.
pub proof fn lemma_program_well_formed(s: Seq<char>, depth: nat)
    ensures
        program(s, depth) is Ok ==> (program(s, depth)->Ok_0).well_formed(),
{
    lemma_program_yields(s, depth);
    if program(s, depth) is Ok {
        let statements = (program(s, depth)->Ok_0)->ExpressionList_0;
        assert forall|i: int| 0 <= i < statements.len() implies (#[trigger] statements[i]).well_formed() by {
            lemma_statement_well_formed(statements[i], depth);
        }
    }
}

} // verus!
