//! How a syntax tree is written down as text, and which trees can be
//! written so that the grammar reads them back.

use super::ast::GnAst;
use super::grammar::{is_binary_pair, is_binary_single, is_digit, is_letter};
use vstd::prelude::*;

verus! {

/// A name: a letter or underscore, then letters, underscores and digits.
pub open spec fn is_identifier(name: Seq<char>) -> bool {
    &&& name.len() > 0
    &&& is_letter(name[0])
    &&& forall|i: int| 0 < i < name.len() ==> is_letter(#[trigger] name[i]) || is_digit(name[i])
}

/// The content of a string literal: anything without a double quote.
pub open spec fn is_string_content(content: Seq<char>) -> bool {
    forall|i: int| 0 <= i < content.len() ==> #[trigger] content[i] != '"'
}

pub open spec fn is_binary_operator(op: Seq<char>) -> bool {
    ||| op.len() == 1 && is_binary_single(op[0])
    ||| op.len() == 2 && is_binary_pair(op[0], op[1])
}

pub open spec fn is_assign_operator(op: Seq<char>) -> bool {
    ||| op.len() == 1 && op[0] == '='
    ||| op.len() == 2 && (op[0] == '+' || op[0] == '-') && op[1] == '='
}

pub open spec fn is_unary_operator(op: Seq<char>) -> bool {
    op.len() == 1 && op[0] == '!'
}

/// The primary expressions that can be written without parentheses, to
/// `depth` levels of nesting.
pub open spec fn plain_primary(x: GnAst, depth: nat) -> bool
    decreases depth, x, 0int,
{
    match x {
        GnAst::Identifier(name) => is_identifier(name),
        GnAst::StringLiteral(content) => is_string_content(content),
        GnAst::IntegerLiteral(value) => value > i64::MIN,
        GnAst::ExpressionList(elements) => depth > 0 && forall|i: int|
            0 <= i < elements.len() ==> writable_primary(
                #[trigger] elements[i],
                (depth - 1) as nat,
            ),
        _ => false,
    }
}

/// The trees that a primary expression can yield: the plain ones, and in
/// parentheses any expression one level deeper.
pub open spec fn writable_primary(x: GnAst, depth: nat) -> bool
    decreases depth, x, 1int,
{
    match x {
        GnAst::UnaryExpr(_, _) | GnAst::BinaryExpr(_, _, _) => depth > 0 && writable_expr(
            x,
            (depth - 1) as nat,
        ),
        _ => plain_primary(x, depth),
    }
}

/// The trees that a unary expression can yield.
pub open spec fn writable_unary(x: GnAst, depth: nat) -> bool
    decreases depth, x, 2int,
{
    match x {
        GnAst::UnaryExpr(op, operand) => is_unary_operator(op) && depth > 0 && writable_unary(
            *operand,
            (depth - 1) as nat,
        ),
        GnAst::BinaryExpr(_, _, _) => writable_primary(x, depth),
        _ => writable_primary(x, depth),
    }
}

/// The trees that an expression can yield.
pub open spec fn writable_expr(x: GnAst, depth: nat) -> bool
    decreases depth, x, 3int,
{
    match x {
        GnAst::BinaryExpr(left, op, right) => {
            &&& is_binary_operator(op)
            &&& writable_expr(*left, depth)
            &&& writable_unary(*right, depth)
        },
        _ => writable_unary(x, depth),
    }
}

pub open spec fn digit_char(digit: int) -> char {
    if digit == 0 {
        '0'
    } else if digit == 1 {
        '1'
    } else if digit == 2 {
        '2'
    } else if digit == 3 {
        '3'
    } else if digit == 4 {
        '4'
    } else if digit == 5 {
        '5'
    } else if digit == 6 {
        '6'
    } else if digit == 7 {
        '7'
    } else if digit == 8 {
        '8'
    } else {
        '9'
    }
}

/// A number in decimal digits, without leading zeros.
pub open spec fn write_nat(n: nat) -> Seq<char>
    decreases n,
{
    if n < 10 {
        seq![digit_char(n as int)]
    } else {
        write_nat(n / 10).push(digit_char(n as int % 10))
    }
}

pub open spec fn write_integer(value: i64) -> Seq<char> {
    if value < 0 {
        seq!['-'] + write_nat((-value) as nat)
    } else {
        write_nat(value as nat)
    }
}

pub open spec fn quoted(content: Seq<char>) -> Seq<char> {
    seq!['"'] + content + seq!['"']
}

/// All the parts, one after the other.
pub open spec fn concat(parts: Seq<Seq<char>>) -> Seq<char>
    decreases parts.len(),
{
    if parts.len() == 0 {
        Seq::empty()
    } else {
        parts[0] + concat(parts.drop_first())
    }
}

/// The elements of a list as they are written, each with a `,` behind it.
pub open spec fn element_texts(elements: Seq<GnAst>) -> Seq<Seq<char>>
    decreases elements, 0int,
{
    Seq::new(
        elements.len(),
        |i: int|
            if 0 <= i < elements.len() {
                write_primary(elements[i]) + seq![',']
            } else {
                Seq::empty()
            },
    )
}

/// A primary expression as text. A list has a `,` behind each element; a
/// unary or binary expression stands in parentheses.
pub open spec fn write_primary(x: GnAst) -> Seq<char>
    decreases x, 0int,
{
    match x {
        GnAst::Identifier(name) => name,
        GnAst::StringLiteral(content) => quoted(content),
        GnAst::IntegerLiteral(value) => write_integer(value),
        GnAst::ExpressionList(elements) => seq!['['] + concat(element_texts(elements)) + seq![']'],
        GnAst::UnaryExpr(op, operand) => seq!['('] + (op + write_unary(*operand)) + seq![')'],
        GnAst::BinaryExpr(left, op, right) => seq!['('] + (write_expr(*left) + op + write_unary(
            *right,
        )) + seq![')'],
        _ => Seq::empty(),
    }
}

/// A unary expression as text: the operator directly before its operand.
pub open spec fn write_unary(x: GnAst) -> Seq<char>
    decreases x, 1int,
{
    match x {
        GnAst::UnaryExpr(op, operand) => op + write_unary(*operand),
        _ => write_primary(x),
    }
}

/// An expression as text: the operands with the operators between them,
/// without spaces.
pub open spec fn write_expr(x: GnAst) -> Seq<char>
    decreases x, 2int,
{
    match x {
        GnAst::BinaryExpr(left, op, right) => write_expr(*left) + op + write_unary(*right),
        _ => write_unary(x),
    }
}

/// The statements that can be written, to `depth` levels of nesting: an
/// assignment to a name, and a call whose arguments and body can be
/// written one level deeper.
pub open spec fn writable_statement(x: GnAst, depth: nat) -> bool
    decreases depth, x, 0int,
{
    match x {
        GnAst::Assignment(lvalue, op, rvalue) => {
            &&& match *lvalue {
                GnAst::Identifier(name) => is_identifier(name),
                _ => false,
            }
            &&& is_assign_operator(op)
            &&& writable_expr(*rvalue, depth)
        },
        GnAst::Call { name, params, block } => {
            &&& is_identifier(name)
            &&& depth > 0
            &&& match *params {
                GnAst::ExpressionList(arguments) => forall|i: int|
                    0 <= i < arguments.len() ==> writable_expr(
                        #[trigger] arguments[i],
                        (depth - 1) as nat,
                    ),
                _ => false,
            }
            &&& match block {
                None => true,
                Some(body) => match *body {
                    GnAst::ExpressionList(statements) => forall|i: int|
                        0 <= i < statements.len() ==> writable_statement(
                            #[trigger] statements[i],
                            (depth - 1) as nat,
                        ),
                    _ => false,
                },
            }
        },
        _ => false,
    }
}

/// The trees that the parse of a whole text can yield: a list of
/// statements.
pub open spec fn writable_program(x: GnAst, depth: nat) -> bool {
    match x {
        GnAst::ExpressionList(statements) => forall|i: int|
            0 <= i < statements.len() ==> writable_statement(#[trigger] statements[i], depth),
        _ => false,
    }
}

/// The arguments of a call as they are written, each but the last with a
/// `,` behind it.
pub open spec fn argument_texts(arguments: Seq<GnAst>) -> Seq<Seq<char>> {
    Seq::new(
        arguments.len(),
        |i: int|
            if i + 1 < arguments.len() {
                write_expr(arguments[i]) + seq![',']
            } else {
                write_expr(arguments[i])
            },
    )
}

/// The statements of a list as they are written.
pub open spec fn statement_texts(statements: Seq<GnAst>) -> Seq<Seq<char>>
    decreases statements, 0int,
{
    Seq::new(
        statements.len(),
        |i: int|
            if 0 <= i < statements.len() {
                write_statement(statements[i])
            } else {
                Seq::empty()
            },
    )
}

/// The body of a call as it is written: the statements between braces, or
/// nothing where the call has no body.
pub open spec fn write_block(block: Option<Box<GnAst>>) -> Seq<char>
    decreases block, 1int,
{
    match block {
        Some(body) => match *body {
            GnAst::ExpressionList(statements) => seq!['{'] + concat(statement_texts(statements))
                + seq!['}'],
            _ => Seq::empty(),
        },
        None => Seq::empty(),
    }
}

/// A statement as text. Every statement begins on a line of its own.
pub open spec fn write_statement(x: GnAst) -> Seq<char>
    decreases x, 2int,
{
    match x {
        GnAst::Assignment(lvalue, op, rvalue) => seq!['\n'] + write_primary(*lvalue) + op
            + write_expr(*rvalue),
        GnAst::Call { name, params, block } => seq!['\n'] + name + seq!['('] + (match *params {
            GnAst::ExpressionList(arguments) => concat(argument_texts(arguments)),
            _ => Seq::empty(),
        }) + seq![')'] + write_block(block),
        _ => Seq::empty(),
    }
}

/// A whole tree as text: its statements, one after the other.
pub open spec fn write_program(x: GnAst) -> Seq<char> {
    match x {
        GnAst::ExpressionList(statements) => concat(statement_texts(statements)),
        _ => Seq::empty(),
    }
}

} // verus!
