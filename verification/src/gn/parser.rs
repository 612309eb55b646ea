use super::ast::{list_model, GnArrayAccess, GnAst, GnCall, GnExpr, GnScopeAccess};
use super::grammar;
use super::grammar::GnError;
use super::lexer::{
    gn_assign_op, gn_binary_op, gn_identifier, gn_integer, gn_string, gn_unary_op,
    outcome, skip_whitespace, symbol,
};
use super::printer::writable_program;
use super::yields::{lemma_program_well_formed, lemma_program_yields};
use crate::text::chars_of;
use vstd::prelude::*;

verus! {

/// The nesting limit that `parse` applies.
pub const DEFAULT_MAX_DEPTH: usize = 128;

/// What a rule that yields a list returned, as the grammar states it.
pub open spec fn list_outcome(r: Result<(Vec<GnExpr>, usize), GnError>) -> Result<
    (Seq<GnAst>, int),
    GnError,
> {
    match r {
        Ok((list, next)) => Ok((list_model(list@), next as int)),
        Err(e) => Err(e),
    }
}

/// What a parse of a whole text returned, as the grammar states it.
pub open spec fn program_outcome(r: Result<GnExpr, GnError>) -> Result<GnAst, GnError> {
    match r {
        Ok(tree) => Ok(tree.model()),
        Err(e) => Err(e),
    }
}

/// The models of a list with one more element.
proof fn lemma_list_model_push(list: Seq<GnExpr>, element: GnExpr)
    ensures
        list_model(list.push(element)) == list_model(list).push(element.model()),
{
    assert(list_model(list.push(element)) =~= list_model(list).push(element.model()));
}

/// The empty list has no models.
proof fn lemma_list_model_empty()
    ensures
        list_model(Seq::<GnExpr>::empty()) == Seq::<GnAst>::empty(),
{
    assert(list_model(Seq::<GnExpr>::empty()) =~= Seq::<GnAst>::empty());
}

/// Parses `scope.name` at `pos`.
pub fn gn_scope_access(input: &[char], pos: usize) -> (r: Result<(GnScopeAccess, usize), GnError>)
    ensures
        outcome(r) == grammar::scope_access(input@, pos as int),
        r is Ok ==> pos < r->Ok_0.1 <= input.len(),
{
    let (scope, pos1) = match gn_identifier(input, pos) {
        Ok(found) => found,
        Err(e) => return Err(e),
    };
    let pos2 = match symbol(input, pos1, '.') {
        Ok(next) => next,
        Err(e) => return Err(e),
    };
    let (name, pos3) = match gn_identifier(input, pos2) {
        Ok(found) => found,
        Err(e) => return Err(e),
    };
    Ok((GnScopeAccess { scope, name }, pos3))
}

/// Parses a list in brackets at `pos`; its elements may nest `depth - 1`
/// levels deep.
pub fn gn_bracketed_expression_list(input: &[char], pos: usize, depth: usize) -> (r: Result<
    (GnExpr, usize),
    GnError,
>)
    ensures
        outcome(r) == grammar::bracketed_list(input@, pos as int, depth as nat),
        r is Ok ==> pos < r->Ok_0.1 <= input.len(),
    decreases depth, input.len() - pos, 0int,
{
    let pos1 = match symbol(input, pos, '[') {
        Ok(next) => next,
        Err(e) => return Err(e),
    };
    if depth == 0 {
        return Err(GnError::DepthExceeded);
    }
    let (elements, pos2) = match gn_expr_list_trailing_comma(input, pos1, depth - 1) {
        Ok(found) => found,
        Err(e) => return Err(e),
    };
    let pos3 = match symbol(input, pos2, ']') {
        Ok(next) => next,
        Err(e) => return Err(e),
    };
    Ok((GnExpr::new_expression_list_from_vec(elements), pos3))
}

/// The elements of a bracketed list: primary expressions, each with an
/// optional `,` behind it.
pub fn gn_expr_list_trailing_comma(input: &[char], pos: usize, depth: usize) -> (r: Result<
    (Vec<GnExpr>, usize),
    GnError,
>)
    ensures
        list_outcome(r) == grammar::list_elements(
            input@,
            pos as int,
            depth as nat,
            Seq::empty(),
        ),
        r is Ok ==> pos <= r->Ok_0.1,
        r is Ok && pos <= input.len() ==> r->Ok_0.1 <= input.len(),
    decreases depth, input.len() - pos, 5int,
{
    let mut elements: Vec<GnExpr> = Vec::new();
    let mut at: usize = pos;
    proof {
        lemma_list_model_empty();
    }
    loop
        invariant
            at == pos || pos < at <= input.len(),
            grammar::list_elements(input@, pos as int, depth as nat, Seq::empty())
                == grammar::list_elements(input@, at as int, depth as nat, list_model(elements@)),
        decreases input.len() - at,
    {
        match gn_primary_expr(input, at, depth) {
            Err(GnError::StructuralMismatch { .. }) => {
                return Ok((elements, at));
            },
            Err(e) => {
                return Err(e);
            },
            Ok((element, pos1)) => {
                let pos2 = match symbol(input, pos1, ',') {
                    Ok(next) => next,
                    Err(_) => pos1,
                };
                proof {
                    lemma_list_model_push(elements@, element);
                }
                elements.push(element);
                at = pos2;
            },
        }
    }
}

/// Parses an expression in parentheses at `pos`. The result is the
/// expression itself.
pub fn gn_parenthesized_expr(input: &[char], pos: usize, depth: usize) -> (r: Result<
    (GnExpr, usize),
    GnError,
>)
    ensures
        outcome(r) == grammar::parenthesized(input@, pos as int, depth as nat),
        r is Ok ==> pos < r->Ok_0.1 <= input.len(),
    decreases depth, input.len() - pos, 0int,
{
    let pos1 = match symbol(input, pos, '(') {
        Ok(next) => next,
        Err(e) => return Err(e),
    };
    if depth == 0 {
        return Err(GnError::DepthExceeded);
    }
    let (inner, pos2) = match gn_expr(input, pos1, depth - 1) {
        Ok(found) => found,
        Err(e) => return Err(e),
    };
    let pos3 = match symbol(input, pos2, ')') {
        Ok(next) => next,
        Err(e) => return Err(e),
    };
    Ok((GnExpr::new_expression(inner), pos3))
}

/// Parses `identifier[expression]` at `pos`.
pub fn gn_array_access(input: &[char], pos: usize, depth: usize) -> (r: Result<
    (GnArrayAccess, usize),
    GnError,
>)
    ensures
        outcome(r) == grammar::array_access(input@, pos as int, depth as nat),
        r is Ok ==> pos < r->Ok_0.1 <= input.len(),
    decreases depth, input.len() - pos, 0int,
{
    let (identifier, pos1) = match gn_identifier(input, pos) {
        Ok(found) => found,
        Err(e) => return Err(e),
    };
    let pos2 = match symbol(input, pos1, '[') {
        Ok(next) => next,
        Err(e) => return Err(e),
    };
    if depth == 0 {
        return Err(GnError::DepthExceeded);
    }
    let (index, pos3) = match gn_expr(input, pos2, depth - 1) {
        Ok(found) => found,
        Err(e) => return Err(e),
    };
    let pos4 = match symbol(input, pos3, ']') {
        Ok(next) => next,
        Err(e) => return Err(e),
    };
    Ok((GnArrayAccess { identifier, expression: Box::new(index) }, pos4))
}

/// Parses a call at `pos`: a name, the arguments in parentheses and, where
/// a `{` follows, a block.
pub fn gn_call(input: &[char], pos: usize, depth: usize) -> (r: Result<(GnCall, usize), GnError>)
    ensures
        outcome(r) == grammar::call(input@, pos as int, depth as nat),
        r is Ok ==> pos < r->Ok_0.1 <= input.len(),
    decreases depth, input.len() - pos, 0int,
{
    let (name, pos1) = match gn_identifier(input, pos) {
        Ok(found) => found,
        Err(e) => return Err(e),
    };
    let pos2 = match symbol(input, pos1, '(') {
        Ok(next) => next,
        Err(e) => return Err(e),
    };
    if depth == 0 {
        return Err(GnError::DepthExceeded);
    }
    let (arguments, pos3) = match call_arguments(input, pos2, depth - 1) {
        Ok(found) => found,
        Err(e) => return Err(e),
    };
    let pos4 = match symbol(input, pos3, ')') {
        Ok(next) => next,
        Err(e) => return Err(e),
    };
    let params = Box::new(GnExpr::new_expression_list_from_vec(arguments));
    match symbol(input, pos4, '{') {
        Err(_) => Ok((GnCall { name, params, block: None }, pos4)),
        Ok(pos5) => {
            let (body, pos6) = match block_rest(input, pos5, depth - 1) {
                Ok(found) => found,
                Err(e) => return Err(e),
            };
            Ok((GnCall { name, params, block: Some(Box::new(body)) }, pos6))
        },
    }
}

/// The expressions between the parentheses of a call, separated by `,`.
fn call_arguments(input: &[char], pos: usize, depth: usize) -> (r: Result<
    (Vec<GnExpr>, usize),
    GnError,
>)
    ensures
        list_outcome(r) == grammar::arguments_from(
            input@,
            pos as int,
            depth as nat,
            Seq::empty(),
        ),
        r is Ok ==> pos <= r->Ok_0.1,
        r is Ok && pos <= input.len() ==> r->Ok_0.1 <= input.len(),
    decreases depth, input.len() - pos, 5int,
{
    let mut arguments: Vec<GnExpr> = Vec::new();
    let mut at: usize = pos;
    proof {
        lemma_list_model_empty();
    }
    loop
        invariant
            at == pos || pos < at <= input.len(),
            at == pos ==> arguments@.len() == 0,
            grammar::arguments_from(input@, pos as int, depth as nat, Seq::empty())
                == grammar::arguments_from(
                input@,
                at as int,
                depth as nat,
                list_model(arguments@),
            ),
        decreases input.len() - at,
    {
        match gn_expr(input, at, depth) {
            Err(e) => {
                if arguments.len() == 0 {
                    match e {
                        GnError::StructuralMismatch { .. } => {
                            return Ok((arguments, at));
                        },
                        _ => {},
                    }
                }
                return Err(e);
            },
            Ok((argument, pos1)) => {
                proof {
                    lemma_list_model_push(arguments@, argument);
                }
                arguments.push(argument);
                match symbol(input, pos1, ',') {
                    Err(_) => {
                        return Ok((arguments, pos1));
                    },
                    Ok(pos2) => {
                        at = pos2;
                    },
                }
            },
        }
    }
}

/// The arguments of a call, as one list node.
pub fn gn_expr_list(input: &[char], pos: usize, depth: usize) -> (r: Result<
    (GnExpr, usize),
    GnError,
>)
    ensures
        outcome(r) == grammar::expr_list(input@, pos as int, depth as nat),
        r is Ok ==> pos <= r->Ok_0.1,
        r is Ok && pos <= input.len() ==> r->Ok_0.1 <= input.len(),
{
    match call_arguments(input, pos, depth) {
        Err(e) => Err(e),
        Ok((arguments, next)) => Ok((GnExpr::new_expression_list_from_vec(arguments), next)),
    }
}

/// Parses a primary expression at `pos`: the first alternative that
/// matches is taken.
pub fn gn_primary_expr(input: &[char], pos: usize, depth: usize) -> (r: Result<
    (GnExpr, usize),
    GnError,
>)
    ensures
        outcome(r) == grammar::primary_expr(input@, pos as int, depth as nat),
        r is Ok ==> pos < r->Ok_0.1 <= input.len(),
    decreases depth, input.len() - pos, 1int,
{
    match gn_bracketed_expression_list(input, pos, depth) {
        Err(GnError::StructuralMismatch { .. }) => {},
        Err(e) => return Err(e),
        Ok((list, next)) => return Ok((GnExpr::new_expression_list(list), next)),
    }
    match gn_string(input, pos) {
        Err(GnError::StructuralMismatch { .. }) => {},
        Err(e) => return Err(e),
        Ok((value, next)) => return Ok((GnExpr::new_string(value), next)),
    }
    match gn_identifier(input, pos) {
        Err(GnError::StructuralMismatch { .. }) => {},
        Err(e) => return Err(e),
        Ok((name, next)) => return Ok((GnExpr::new_identifier_from_string(name), next)),
    }
    match gn_call(input, pos, depth) {
        Err(GnError::StructuralMismatch { .. }) => {},
        Err(e) => return Err(e),
        Ok((call, next)) => return Ok((GnExpr::new_call(call), next)),
    }
    match gn_array_access(input, pos, depth) {
        Err(GnError::StructuralMismatch { .. }) => {},
        Err(e) => return Err(e),
        Ok((access, next)) => return Ok((GnExpr::new_array_access(access), next)),
    }
    match gn_scope_access(input, pos) {
        Err(GnError::StructuralMismatch { .. }) => {},
        Err(e) => return Err(e),
        Ok((access, next)) => return Ok((GnExpr::new_scope_access(access), next)),
    }
    match gn_parenthesized_expr(input, pos, depth) {
        Err(GnError::StructuralMismatch { .. }) => {},
        Err(e) => return Err(e),
        Ok((inner, next)) => return Ok((inner, next)),
    }
    match gn_integer(input, pos) {
        Err(e) => Err(e),
        Ok((value, next)) => Ok((GnExpr::new_integer(value), next)),
    }
}

/// Parses a primary expression, or `!` before a unary expression, at
/// `pos`.
pub fn gn_unary_expr(input: &[char], pos: usize, depth: usize) -> (r: Result<
    (GnExpr, usize),
    GnError,
>)
    ensures
        outcome(r) == grammar::unary_expr(input@, pos as int, depth as nat),
        r is Ok ==> pos < r->Ok_0.1 <= input.len(),
    decreases depth, input.len() - pos, 2int,
{
    match gn_primary_expr(input, pos, depth) {
        Err(GnError::StructuralMismatch { .. }) => {},
        Err(e) => return Err(e),
        Ok(found) => return Ok(found),
    }
    let (op, pos1) = match gn_unary_op(input, pos) {
        Ok(found) => found,
        Err(e) => return Err(e),
    };
    if depth == 0 {
        return Err(GnError::DepthExceeded);
    }
    match gn_unary_expr(input, pos1, depth - 1) {
        Err(e) => Err(e),
        Ok((operand, pos2)) => Ok((GnExpr::UnaryExpr(op, Box::new(operand)), pos2)),
    }
}

/// Parses an expression at `pos`: a unary expression and then, as long as
/// a binary operator follows, the operator and a further unary expression,
/// folded from the left.
pub fn gn_expr(input: &[char], pos: usize, depth: usize) -> (r: Result<(GnExpr, usize), GnError>)
    ensures
        outcome(r) == grammar::expr(input@, pos as int, depth as nat),
        r is Ok ==> pos < r->Ok_0.1 <= input.len(),
    decreases depth, input.len() - pos, 4int,
{
    let (first, pos0) = match gn_unary_expr(input, pos, depth) {
        Ok(found) => found,
        Err(e) => return Err(e),
    };
    let mut left: GnExpr = first;
    let mut at: usize = pos0;
    loop
        invariant
            pos < at <= input.len(),
            grammar::expr(input@, pos as int, depth as nat) == grammar::expr_rest(
                input@,
                at as int,
                depth as nat,
                left.model(),
            ),
        decreases input.len() - at,
    {
        let (op, pos1) = match gn_binary_op(input, at) {
            Ok(found) => found,
            Err(_) => return Ok((left, at)),
        };
        let (right, pos2) = match gn_unary_expr(input, pos1, depth) {
            Ok(found) => found,
            Err(e) => return Err(e),
        };
        left = GnExpr::BinaryExpr(Box::new(left), op, Box::new(right));
        at = pos2;
    }
}

/// Parses the left side of an assignment at `pos`.
pub fn gn_l_value(input: &[char], pos: usize, depth: usize) -> (r: Result<
    (GnExpr, usize),
    GnError,
>)
    ensures
        outcome(r) == grammar::l_value(input@, pos as int, depth as nat),
        r is Ok ==> pos < r->Ok_0.1 <= input.len(),
        r is Ok ==> r->Ok_0.0.model().is_addressable(),
    decreases depth, input.len() - pos, 5int,
{
    match gn_identifier(input, pos) {
        Err(GnError::StructuralMismatch { .. }) => {},
        Err(e) => return Err(e),
        Ok((name, next)) => return Ok((GnExpr::new_identifier_from_string(name), next)),
    }
    match gn_array_access(input, pos, depth) {
        Err(GnError::StructuralMismatch { .. }) => {},
        Err(e) => return Err(e),
        Ok((access, next)) => return Ok((GnExpr::new_array_access(access), next)),
    }
    match gn_scope_access(input, pos) {
        Err(e) => Err(e),
        Ok((access, next)) => Ok((GnExpr::new_scope_access(access), next)),
    }
}

/// Parses `lvalue op expression` at `pos`.
pub fn gn_assignment(input: &[char], pos: usize, depth: usize) -> (r: Result<
    (GnExpr, usize),
    GnError,
>)
    ensures
        outcome(r) == grammar::assignment(input@, pos as int, depth as nat),
        r is Ok ==> pos < r->Ok_0.1 <= input.len(),
    decreases depth, input.len() - pos, 6int,
{
    let (lvalue, pos1) = match gn_l_value(input, pos, depth) {
        Ok(found) => found,
        Err(e) => return Err(e),
    };
    let (op, pos2) = match gn_assign_op(input, pos1) {
        Ok(found) => found,
        Err(e) => return Err(e),
    };
    let (rvalue, pos3) = match gn_expr(input, pos2, depth) {
        Ok(found) => found,
        Err(e) => return Err(e),
    };
    Ok((GnExpr::new_assignment(lvalue, op.as_str(), rvalue), pos3))
}

/// Parses a statement at `pos`: an assignment, or else a call.
pub fn gn_statement(input: &[char], pos: usize, depth: usize) -> (r: Result<
    (GnExpr, usize),
    GnError,
>)
    ensures
        outcome(r) == grammar::statement(input@, pos as int, depth as nat),
        r is Ok ==> pos < r->Ok_0.1 <= input.len(),
    decreases depth, input.len() - pos, 7int,
{
    match gn_assignment(input, pos, depth) {
        Err(GnError::StructuralMismatch { .. }) => {},
        Err(e) => return Err(e),
        Ok(found) => return Ok(found),
    }
    match gn_call(input, pos, depth) {
        Err(e) => Err(e),
        Ok((call, next)) => Ok((GnExpr::new_call(call), next)),
    }
}

/// The statements of a list, in order.
fn statements(input: &[char], pos: usize, depth: usize) -> (r: Result<
    (Vec<GnExpr>, usize),
    GnError,
>)
    ensures
        list_outcome(r) == grammar::statements_from(
            input@,
            pos as int,
            depth as nat,
            Seq::empty(),
        ),
        r is Ok ==> pos <= r->Ok_0.1,
        r is Ok && pos <= input.len() ==> r->Ok_0.1 <= input.len(),
    decreases depth, input.len() - pos, 8int,
{
    let mut list: Vec<GnExpr> = Vec::new();
    let mut at: usize = pos;
    proof {
        lemma_list_model_empty();
    }
    loop
        invariant
            at == pos || pos < at <= input.len(),
            grammar::statements_from(input@, pos as int, depth as nat, Seq::empty())
                == grammar::statements_from(
                input@,
                at as int,
                depth as nat,
                list_model(list@),
            ),
        decreases input.len() - at,
    {
        if skip_whitespace(input, at) >= input.len() {
            return Ok((list, at));
        }
        match gn_statement(input, at, depth) {
            Err(GnError::StructuralMismatch { .. }) => {
                return Ok((list, at));
            },
            Err(e) => {
                return Err(e);
            },
            Ok((statement, pos1)) => {
                proof {
                    lemma_list_model_push(list@, statement);
                }
                list.push(statement);
                at = pos1;
            },
        }
    }
}

/// Parses statements from `pos` on, as far as there are any, into one
/// list node.
pub fn gn_statement_list(input: &[char], pos: usize, depth: usize) -> (r: Result<
    (GnExpr, usize),
    GnError,
>)
    ensures
        outcome(r) == grammar::statement_list(input@, pos as int, depth as nat),
        r is Ok ==> pos <= r->Ok_0.1,
        r is Ok && pos <= input.len() ==> r->Ok_0.1 <= input.len(),
{
    match statements(input, pos, depth) {
        Err(e) => Err(e),
        Ok((list, next)) => Ok((GnExpr::new_statement_list(list), next)),
    }
}

/// What follows the `{` of a block.
fn block_rest(input: &[char], pos: usize, depth: usize) -> (r: Result<(GnExpr, usize), GnError>)
    ensures
        outcome(r) == grammar::block_rest(input@, pos as int, depth as nat),
        r is Ok ==> pos < r->Ok_0.1 <= input.len(),
    decreases depth, input.len() - pos, 9int,
{
    let (list, pos1) = match statements(input, pos, depth) {
        Ok(found) => found,
        Err(e) => return Err(e),
    };
    let pos2 = match symbol(input, pos1, '}') {
        Ok(next) => next,
        Err(e) => return Err(e),
    };
    Ok((GnExpr::new_statement_list(list), pos2))
}

/// Parses `{ statements }` at `pos`.
pub fn gn_block(input: &[char], pos: usize, depth: usize) -> (r: Result<(GnExpr, usize), GnError>)
    ensures
        outcome(r) == grammar::block(input@, pos as int, depth as nat),
        r is Ok ==> pos < r->Ok_0.1 <= input.len(),
{
    let pos1 = match symbol(input, pos, '{') {
        Ok(next) => next,
        Err(e) => return Err(e),
    };
    if depth == 0 {
        return Err(GnError::DepthExceeded);
    }
    block_rest(input, pos1, depth - 1)
}

/// Parses a whole text, given as its characters, with at most `max_depth`
/// levels of nesting. The result is the statement list of the text. It
/// keeps the invariant of trees, and it can be written down and read back.
pub fn parse_chars(input: &[char], max_depth: usize) -> (r: Result<GnExpr, GnError>)
    ensures
        program_outcome(r) == grammar::program(input@, max_depth as nat),
        r is Ok ==> r->Ok_0.model().well_formed(),
        r is Ok ==> writable_program(r->Ok_0.model(), max_depth as nat),
{
    proof {
        lemma_program_well_formed(input@, max_depth as nat);
        lemma_program_yields(input@, max_depth as nat);
    }
    let (list, next) = match gn_statement_list(input, 0, max_depth) {
        Ok(found) => found,
        Err(e) => return Err(e),
    };
    let end = skip_whitespace(input, next);
    if end < input.len() {
        Err(GnError::TrailingInput { position: end })
    } else {
        Ok(list)
    }
}

/// Parses a whole text with at most `max_depth` levels of nesting.
pub fn parse_with_max_depth(src: &str, max_depth: usize) -> (r: Result<GnExpr, GnError>)
    ensures
        program_outcome(r) == grammar::program(src@, max_depth as nat),
        r is Ok ==> r->Ok_0.model().well_formed(),
        r is Ok ==> writable_program(r->Ok_0.model(), max_depth as nat),
{
    let input = chars_of(src);
    parse_chars(input.as_slice(), max_depth)
}

/// Parses a whole text with the default limit on nesting.
pub fn parse(src: &str) -> (r: Result<GnExpr, GnError>)
    ensures
        program_outcome(r) == grammar::program(src@, DEFAULT_MAX_DEPTH as nat),
        r is Ok ==> r->Ok_0.model().well_formed(),
        r is Ok ==> writable_program(r->Ok_0.model(), DEFAULT_MAX_DEPTH as nat),
{
    parse_with_max_depth(src, DEFAULT_MAX_DEPTH)
}

} // verus!
