//! The language, rule by rule. A rule is a function of the text and of a
//! position in it: it yields what stands there and where that ends, or why
//! nothing of its kind stands there. Whitespace is skipped before every
//! token and nowhere else.
//!
//! The rules that can nest take the number of levels that are left, and
//! fail with `DepthExceeded` where a construct opens with none left. A rule
//! that goes on behind a part that it has read first checks that the part
//! ended further on and inside the text. That makes the definitions well
//! founded; `progress` proves that the check always holds.

use super::ast::GnAst;
use vstd::prelude::*;

verus! {

/// Why a parse failed.
#[derive(Debug, Clone, Copy, PartialEq, Eq)]
pub enum GnError {
    /// The text at `position` fits no alternative of the rule that was tried.
    StructuralMismatch { position: usize },
    /// The text ended inside a token or an open construct: more text could
    /// still make it valid.
    Incomplete,
    /// A statement list was parsed, but text is left over at `position`.
    TrailingInput { position: usize },
    /// Constructs are nested more deeply than the limit allows.
    DepthExceeded,
}

/// The classes of characters that a scan runs over.
#[derive(Debug, Clone, Copy)]
pub enum CharClass {
    Whitespace,
    IdentifierPart,
    Digit,
    StringContent,
}

pub open spec fn is_whitespace(c: char) -> bool {
    c == ' ' || c == '\t' || c == '\n' || c == '\r'
}

pub open spec fn is_letter(c: char) -> bool {
    ('a' <= c && c <= 'z') || ('A' <= c && c <= 'Z') || c == '_'
}

pub open spec fn is_digit(c: char) -> bool {
    '0' <= c && c <= '9'
}

pub open spec fn in_class(c: char, class: CharClass) -> bool {
    match class {
        CharClass::Whitespace => is_whitespace(c),
        CharClass::IdentifierPart => is_letter(c) || is_digit(c),
        CharClass::Digit => is_digit(c),
        CharClass::StringContent => c != '"',
    }
}

/// The first position at or after `pos` whose character is not in `class`,
/// or the end of the text.
pub open spec fn scan(s: Seq<char>, pos: int, class: CharClass) -> int
    decreases s.len() - pos,
{
    if 0 <= pos < s.len() && in_class(s[pos], class) {
        scan(s, pos + 1, class)
    } else {
        pos
    }
}

/// Where the next token starts: whitespace is skipped before every token.
pub open spec fn skip_whitespace(s: Seq<char>, pos: int) -> int {
    scan(s, pos, CharClass::Whitespace)
}

pub open spec fn mismatch(position: int) -> GnError {
    GnError::StructuralMismatch { position: position as usize }
}

/// Ordered choice: the second alternative is tried only where the first is a
/// structural mismatch. Any other failure of the first is final.
pub open spec fn or_else<T>(
    first: Result<(T, int), GnError>,
    second: Result<(T, int), GnError>,
) -> Result<(T, int), GnError> {
    match first {
        Err(GnError::StructuralMismatch { .. }) => second,
        _ => first,
    }
}

/// The one-character token `c`.
pub open spec fn symbol(s: Seq<char>, pos: int, c: char) -> Result<int, GnError> {
    let p = skip_whitespace(s, pos);
    if !(0 <= p < s.len()) {
        Err(GnError::Incomplete)
    } else if s[p] == c {
        Ok(p + 1)
    } else {
        Err(mismatch(p))
    }
}

/// A single letter or underscore.
pub open spec fn letter(s: Seq<char>, pos: int) -> Result<(Seq<char>, int), GnError> {
    let p = skip_whitespace(s, pos);
    if !(0 <= p < s.len()) {
        Err(GnError::Incomplete)
    } else if is_letter(s[p]) {
        Ok((s.subrange(p, p + 1), p + 1))
    } else {
        Err(mismatch(p))
    }
}

/// A letter or underscore, then the longest run of letters, underscores and
/// digits.
pub open spec fn identifier(s: Seq<char>, pos: int) -> Result<(Seq<char>, int), GnError> {
    let p = skip_whitespace(s, pos);
    if !(0 <= p < s.len()) {
        Err(GnError::Incomplete)
    } else if is_letter(s[p]) {
        let end = scan(s, p + 1, CharClass::IdentifierPart);
        Ok((s.subrange(p, end), end))
    } else {
        Err(mismatch(p))
    }
}

/// The text between a double quote and the next one, taken as it stands.
pub open spec fn string_literal(s: Seq<char>, pos: int) -> Result<(Seq<char>, int), GnError> {
    let p = skip_whitespace(s, pos);
    if !(0 <= p < s.len()) {
        Err(GnError::Incomplete)
    } else if s[p] == '"' {
        let close = scan(s, p + 1, CharClass::StringContent);
        if close < s.len() {
            Ok((s.subrange(p + 1, close), close + 1))
        } else {
            Err(GnError::Incomplete)
        }
    } else {
        Err(mismatch(p))
    }
}

pub open spec fn digit_value(c: char) -> nat {
    (c as int - '0' as int) as nat
}

/// The number that a run of decimal digits writes.
pub open spec fn decimal_value(digits: Seq<char>) -> nat
    decreases digits.len(),
{
    if digits.len() == 0 {
        0
    } else {
        decimal_value(digits.drop_last()) * 10 + digit_value(digits.last())
    }
}

/// The number that a sign and a run of digits write: the digits give the
/// magnitude, which must fit a signed 64-bit integer, and the sign inverts
/// it.
pub open spec fn signed_value(negative: bool, digits: Seq<char>) -> Option<i64> {
    let magnitude = decimal_value(digits);
    if magnitude > i64::MAX {
        None
    } else if negative {
        Some((-magnitude) as i64)
    } else {
        Some(magnitude as i64)
    }
}

/// An optional `-`, then one or more digits, as `signed_value` reads them.
/// A magnitude that does not fit is a structural mismatch.
pub open spec fn integer_literal(s: Seq<char>, pos: int) -> Result<(i64, int), GnError> {
    let p = skip_whitespace(s, pos);
    if !(0 <= p < s.len()) {
        Err(GnError::Incomplete)
    } else {
        let negative = s[p] == '-';
        let first = if negative {
            p + 1
        } else {
            p
        };
        if !(first < s.len()) {
            Err(GnError::Incomplete)
        } else if !is_digit(s[first]) {
            Err(mismatch(p))
        } else {
            let end = scan(s, first, CharClass::Digit);
            match signed_value(negative, s.subrange(first, end)) {
                None => Err(mismatch(p)),
                Some(value) => Ok((value, end)),
            }
        }
    }
}

/// One of `=`, `+=` and `-=`. The operator is the text that was matched.
pub open spec fn assign_op(s: Seq<char>, pos: int) -> Result<(Seq<char>, int), GnError> {
    let p = skip_whitespace(s, pos);
    if !(0 <= p < s.len()) {
        Err(GnError::Incomplete)
    } else if s[p] == '=' {
        Ok((s.subrange(p, p + 1), p + 1))
    } else if s[p] == '+' || s[p] == '-' {
        if !(p + 1 < s.len()) {
            Err(GnError::Incomplete)
        } else if s[p + 1] == '=' {
            Ok((s.subrange(p, p + 2), p + 2))
        } else {
            Err(mismatch(p))
        }
    } else {
        Err(mismatch(p))
    }
}

/// The prefix operator `!`.
pub open spec fn unary_op(s: Seq<char>, pos: int) -> Result<(Seq<char>, int), GnError> {
    match symbol(s, pos, '!') {
        Ok(next) => Ok((s.subrange(next - 1, next), next)),
        Err(e) => Err(e),
    }
}

/// The binary operators of two characters: `<= >= == != && ||`.
pub open spec fn is_binary_pair(a: char, b: char) -> bool {
    ||| ((a == '<' || a == '>' || a == '=' || a == '!') && b == '=')
    ||| (a == '&' && b == '&')
    ||| (a == '|' && b == '|')
}

/// The binary operators of one character: `+ - < >`.
pub open spec fn is_binary_single(a: char) -> bool {
    a == '+' || a == '-' || a == '<' || a == '>'
}

/// A character that begins a binary operator but is none by itself.
pub open spec fn is_binary_prefix(a: char) -> bool {
    a == '=' || a == '!' || a == '&' || a == '|'
}

/// A binary operator, the longer one where two begin alike. The operator is
/// the text that was matched.
pub open spec fn binary_op(s: Seq<char>, pos: int) -> Result<(Seq<char>, int), GnError> {
    let p = skip_whitespace(s, pos);
    if !(0 <= p < s.len()) {
        Err(GnError::Incomplete)
    } else if p + 1 < s.len() && is_binary_pair(s[p], s[p + 1]) {
        Ok((s.subrange(p, p + 2), p + 2))
    } else if is_binary_single(s[p]) {
        Ok((s.subrange(p, p + 1), p + 1))
    } else if p + 1 == s.len() && is_binary_prefix(s[p]) {
        Err(GnError::Incomplete)
    } else {
        Err(mismatch(p))
    }
}

/// `scope.name`
pub open spec fn scope_access(s: Seq<char>, pos: int) -> Result<(GnAst, int), GnError> {
    match identifier(s, pos) {
        Err(e) => Err(e),
        Ok((scope, pos1)) => match symbol(s, pos1, '.') {
            Err(e) => Err(e),
            Ok(pos2) => match identifier(s, pos2) {
                Err(e) => Err(e),
                Ok((name, pos3)) => Ok((GnAst::ScopeAccess { scope, name }, pos3)),
            },
        },
    }
}

/// A bare name as an expression.
pub open spec fn identifier_expr(s: Seq<char>, pos: int) -> Result<(GnAst, int), GnError> {
    match identifier(s, pos) {
        Err(e) => Err(e),
        Ok((name, p)) => Ok((GnAst::Identifier(name), p)),
    }
}

pub open spec fn string_expr(s: Seq<char>, pos: int) -> Result<(GnAst, int), GnError> {
    match string_literal(s, pos) {
        Err(e) => Err(e),
        Ok((value, p)) => Ok((GnAst::StringLiteral(value), p)),
    }
}

pub open spec fn integer_expr(s: Seq<char>, pos: int) -> Result<(GnAst, int), GnError> {
    match integer_literal(s, pos) {
        Err(e) => Err(e),
        Ok((value, p)) => Ok((GnAst::IntegerLiteral(value), p)),
    }
}

/// `[`, then elements, then `]`. The elements are parsed one level deeper.
pub open spec fn bracketed_list(s: Seq<char>, pos: int, depth: nat) -> Result<(GnAst, int), GnError>
    decreases depth, s.len() - pos, 0int,
{
    match symbol(s, pos, '[') {
        Err(e) => Err(e),
        Ok(pos1) => if depth == 0 {
            Err(GnError::DepthExceeded)
        } else {
            match list_elements(s, pos1, (depth - 1) as nat, Seq::empty()) {
                Err(e) => Err(e),
                Ok((elements, pos2)) => match symbol(s, pos2, ']') {
                    Err(e) => Err(e),
                    Ok(pos3) => Ok((GnAst::ExpressionList(elements), pos3)),
                },
            }
        },
    }
}

/// Zero or more primary expressions, each with an optional `,` behind it,
/// added to `acc` in the order of the text. The list ends before the first
/// text that is no primary expression.
pub open spec fn list_elements(s: Seq<char>, pos: int, depth: nat, acc: Seq<GnAst>) -> Result<
    (Seq<GnAst>, int),
    GnError,
>
    decreases depth, s.len() - pos, 5int,
{
    match primary_expr(s, pos, depth) {
        Err(GnError::StructuralMismatch { .. }) => Ok((acc, pos)),
        Err(e) => Err(e),
        Ok((element, pos1)) => {
            let pos2 = match symbol(s, pos1, ',') {
                Ok(q) => q,
                Err(_) => pos1,
            };
            if pos < pos2 <= s.len() {
                list_elements(s, pos2, depth, acc.push(element))
            } else {
                Ok((acc.push(element), pos2))
            }
        },
    }
}

/// `(`, an expression one level deeper, `)`. The node is the expression.
pub open spec fn parenthesized(s: Seq<char>, pos: int, depth: nat) -> Result<(GnAst, int), GnError>
    decreases depth, s.len() - pos, 0int,
{
    match symbol(s, pos, '(') {
        Err(e) => Err(e),
        Ok(pos1) => if depth == 0 {
            Err(GnError::DepthExceeded)
        } else {
            match expr(s, pos1, (depth - 1) as nat) {
                Err(e) => Err(e),
                Ok((inner, pos2)) => match symbol(s, pos2, ')') {
                    Err(e) => Err(e),
                    Ok(pos3) => Ok((inner, pos3)),
                },
            }
        },
    }
}

/// `identifier[expression]`, the index one level deeper.
pub open spec fn array_access(s: Seq<char>, pos: int, depth: nat) -> Result<(GnAst, int), GnError>
    decreases depth, s.len() - pos, 0int,
{
    match identifier(s, pos) {
        Err(e) => Err(e),
        Ok((name, pos1)) => match symbol(s, pos1, '[') {
            Err(e) => Err(e),
            Ok(pos2) => if depth == 0 {
                Err(GnError::DepthExceeded)
            } else {
                match expr(s, pos2, (depth - 1) as nat) {
                    Err(e) => Err(e),
                    Ok((index, pos3)) => match symbol(s, pos3, ']') {
                        Err(e) => Err(e),
                        Ok(pos4) => Ok(
                            (GnAst::ArrayAccess { identifier: name, expression: Box::new(index) }, pos4),
                        ),
                    },
                }
            },
        },
    }
}

/// `name(arguments)`, then a block where a `{` follows. Arguments and block
/// are parsed one level deeper.
pub open spec fn call(s: Seq<char>, pos: int, depth: nat) -> Result<(GnAst, int), GnError>
    decreases depth, s.len() - pos, 0int,
{
    match identifier(s, pos) {
        Err(e) => Err(e),
        Ok((name, pos1)) => match symbol(s, pos1, '(') {
            Err(e) => Err(e),
            Ok(pos2) => if depth == 0 {
                Err(GnError::DepthExceeded)
            } else {
                match arguments_from(s, pos2, (depth - 1) as nat, Seq::empty()) {
                    Err(e) => Err(e),
                    Ok((arguments, pos3)) => match symbol(s, pos3, ')') {
                        Err(e) => Err(e),
                        Ok(pos4) => match symbol(s, pos4, '{') {
                            Err(_) => Ok(
                                (
                                    GnAst::Call {
                                        name,
                                        params: Box::new(GnAst::ExpressionList(arguments)),
                                        block: None,
                                    },
                                    pos4,
                                ),
                            ),
                            Ok(pos5) => match block_rest(s, pos5, (depth - 1) as nat) {
                                Err(e) => Err(e),
                                Ok((body, pos6)) => Ok(
                                    (
                                        GnAst::Call {
                                            name,
                                            params: Box::new(GnAst::ExpressionList(arguments)),
                                            block: Some(Box::new(body)),
                                        },
                                        pos6,
                                    ),
                                ),
                            },
                        },
                    },
                }
            },
        },
    }
}

/// Expressions separated by `,`, added to `acc`. Where `acc` is empty the
/// list may be empty; after a `,` an expression must follow.
pub open spec fn arguments_from(s: Seq<char>, pos: int, depth: nat, acc: Seq<GnAst>) -> Result<
    (Seq<GnAst>, int),
    GnError,
>
    decreases depth, s.len() - pos, 5int,
{
    match expr(s, pos, depth) {
        Err(e) => if acc.len() == 0 && e is StructuralMismatch {
            Ok((acc, pos))
        } else {
            Err(e)
        },
        Ok((argument, pos1)) => match symbol(s, pos1, ',') {
            Err(_) => Ok((acc.push(argument), pos1)),
            Ok(pos2) => if pos < pos2 <= s.len() {
                arguments_from(s, pos2, depth, acc.push(argument))
            } else {
                Ok((acc.push(argument), pos1))
            },
        },
    }
}

/// The alternatives of a primary expression, tried in this order: a
/// bracketed list, a string, a bare name, a call, an array access, a scope
/// access, an expression in parentheses, an integer. The first that matches
/// is taken, also where a later one would match more text: a name is taken
/// bare even where `(`, `[` or `.` follows it.
pub open spec fn primary_expr(s: Seq<char>, pos: int, depth: nat) -> Result<(GnAst, int), GnError>
    decreases depth, s.len() - pos, 1int,
{
    or_else(
        bracketed_list(s, pos, depth),
        or_else(
            string_expr(s, pos),
            or_else(
                identifier_expr(s, pos),
                or_else(
                    call(s, pos, depth),
                    or_else(
                        array_access(s, pos, depth),
                        or_else(
                            scope_access(s, pos),
                            or_else(parenthesized(s, pos, depth), integer_expr(s, pos)),
                        ),
                    ),
                ),
            ),
        ),
    )
}

/// A primary expression, or `!` before a unary expression one level deeper.
pub open spec fn unary_expr(s: Seq<char>, pos: int, depth: nat) -> Result<(GnAst, int), GnError>
    decreases depth, s.len() - pos, 2int,
{
    or_else(
        primary_expr(s, pos, depth),
        match unary_op(s, pos) {
            Err(e) => Err(e),
            Ok((op, pos1)) => if depth == 0 {
                Err(GnError::DepthExceeded)
            } else {
                match unary_expr(s, pos1, (depth - 1) as nat) {
                    Err(e) => Err(e),
                    Ok((operand, pos2)) => Ok((GnAst::UnaryExpr(op, Box::new(operand)), pos2)),
                }
            },
        },
    )
}

/// What follows the left operand `left`: as long as a binary operator
/// comes next, it and a unary expression after it are folded into `left`.
/// All operators bind alike, from left to right.
pub open spec fn expr_rest(s: Seq<char>, pos: int, depth: nat, left: GnAst) -> Result<
    (GnAst, int),
    GnError,
>
    decreases depth, s.len() - pos, 3int,
{
    match binary_op(s, pos) {
        Err(_) => Ok((left, pos)),
        Ok((op, pos1)) => if !(pos <= pos1 <= s.len()) {
            Ok((left, pos))
        } else {
            match unary_expr(s, pos1, depth) {
                Err(e) => Err(e),
                Ok((right, pos2)) => {
                    let node = GnAst::BinaryExpr(Box::new(left), op, Box::new(right));
                    if pos < pos2 <= s.len() {
                        expr_rest(s, pos2, depth, node)
                    } else {
                        Ok((node, pos2))
                    }
                },
            }
        },
    }
}

/// A unary expression, then any number of binary operators with their right
/// operands.
pub open spec fn expr(s: Seq<char>, pos: int, depth: nat) -> Result<(GnAst, int), GnError>
    decreases depth, s.len() - pos, 4int,
{
    match unary_expr(s, pos, depth) {
        Err(e) => Err(e),
        Ok((left, pos1)) => if pos <= pos1 <= s.len() {
            expr_rest(s, pos1, depth, left)
        } else {
            Ok((left, pos1))
        },
    }
}

/// The left side of an assignment: a name, an array access or a scope
/// access, tried in this order.
pub open spec fn l_value(s: Seq<char>, pos: int, depth: nat) -> Result<(GnAst, int), GnError>
    decreases depth, s.len() - pos, 5int,
{
    or_else(identifier_expr(s, pos), or_else(array_access(s, pos, depth), scope_access(s, pos)))
}

/// `lvalue op expression`
pub open spec fn assignment(s: Seq<char>, pos: int, depth: nat) -> Result<(GnAst, int), GnError>
    decreases depth, s.len() - pos, 6int,
{
    match l_value(s, pos, depth) {
        Err(e) => Err(e),
        Ok((lvalue, pos1)) => match assign_op(s, pos1) {
            Err(e) => Err(e),
            Ok((op, pos2)) => if !(pos <= pos2 <= s.len()) {
                Err(GnError::Incomplete)
            } else {
                match expr(s, pos2, depth) {
                    Err(e) => Err(e),
                    Ok((rvalue, pos3)) => Ok(
                        (GnAst::Assignment(Box::new(lvalue), op, Box::new(rvalue)), pos3),
                    ),
                }
            },
        },
    }
}

/// An assignment, or else a call.
pub open spec fn statement(s: Seq<char>, pos: int, depth: nat) -> Result<(GnAst, int), GnError>
    decreases depth, s.len() - pos, 7int,
{
    or_else(assignment(s, pos, depth), call(s, pos, depth))
}

/// Zero or more statements, added to `acc` in the order of the text. The
/// list ends at the end of the text, or before the first text that is no
/// statement.
pub open spec fn statements_from(s: Seq<char>, pos: int, depth: nat, acc: Seq<GnAst>) -> Result<
    (Seq<GnAst>, int),
    GnError,
>
    decreases depth, s.len() - pos, 8int,
{
    if !(skip_whitespace(s, pos) < s.len()) {
        Ok((acc, pos))
    } else {
        match statement(s, pos, depth) {
            Err(GnError::StructuralMismatch { .. }) => Ok((acc, pos)),
            Err(e) => Err(e),
            Ok((st, pos1)) => if pos < pos1 <= s.len() {
                statements_from(s, pos1, depth, acc.push(st))
            } else {
                Ok((acc.push(st), pos1))
            },
        }
    }
}

/// What follows the `{` of a block: a statement list and `}`.
pub open spec fn block_rest(s: Seq<char>, pos: int, depth: nat) -> Result<(GnAst, int), GnError>
    decreases depth, s.len() - pos, 9int,
{
    match statements_from(s, pos, depth, Seq::empty()) {
        Err(e) => Err(e),
        Ok((statements, pos1)) => match symbol(s, pos1, '}') {
            Err(e) => Err(e),
            Ok(pos2) => Ok((GnAst::ExpressionList(statements), pos2)),
        },
    }
}

/// `{ statements }`, the statements one level deeper.
pub open spec fn block(s: Seq<char>, pos: int, depth: nat) -> Result<(GnAst, int), GnError> {
    match symbol(s, pos, '{') {
        Err(e) => Err(e),
        Ok(pos1) => if depth == 0 {
            Err(GnError::DepthExceeded)
        } else {
            block_rest(s, pos1, (depth - 1) as nat)
        },
    }
}

/// The arguments of a call: zero or more expressions separated by `,`.
pub open spec fn expr_list(s: Seq<char>, pos: int, depth: nat) -> Result<(GnAst, int), GnError> {
    match arguments_from(s, pos, depth, Seq::empty()) {
        Err(e) => Err(e),
        Ok((arguments, p)) => Ok((GnAst::ExpressionList(arguments), p)),
    }
}

/// Zero or more statements, as one list node.
pub open spec fn statement_list(s: Seq<char>, pos: int, depth: nat) -> Result<
    (GnAst, int),
    GnError,
> {
    match statements_from(s, pos, depth, Seq::empty()) {
        Err(e) => Err(e),
        Ok((statements, p)) => Ok((GnAst::ExpressionList(statements), p)),
    }
}

/// A whole text: a statement list, after which only whitespace may follow.
pub open spec fn program(s: Seq<char>, max_depth: nat) -> Result<GnAst, GnError> {
    match statement_list(s, 0, max_depth) {
        Err(e) => Err(e),
        Ok((statements, p)) => {
            let end = skip_whitespace(s, p);
            if end < s.len() {
                Err(GnError::TrailingInput { position: end as usize })
            } else {
                Ok(statements)
            }
        },
    }
}

} // verus!
