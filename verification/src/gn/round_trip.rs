//! Writing a tree down and parsing the text gives the tree back.

use super::ast::GnAst;
use super::grammar::{
    arguments_from, assign_op, assignment, binary_op, call, decimal_value, digit_value, expr,
    expr_rest, identifier, in_class, integer_literal, is_digit, is_letter, is_whitespace,
    list_elements, primary_expr, program, scan, skip_whitespace, statement, statement_list,
    statements_from, string_literal, symbol, unary_expr, CharClass, GnError,
};
use super::laws::lemma_scan_whole_run;
use super::printer::{
    argument_texts, concat, digit_char, element_texts, is_identifier, is_string_content, quoted,
    statement_texts, writable_expr, writable_primary, writable_program, writable_statement,
    writable_unary, write_block, write_expr, write_integer, write_nat, write_primary,
    write_program, write_statement, write_unary,
};
use vstd::prelude::*;

verus! {

/// The text `t` stands in `s` at `pos`.
pub open spec fn at(s: Seq<char>, pos: int, t: Seq<char>) -> bool {
    &&& 0 <= pos
    &&& pos + t.len() <= s.len()
    &&& s.subrange(pos, pos + t.len()) == t
}

/// No letter, underscore or digit stands at `pos`: a name or a number that
/// ends there is not continued.
pub open spec fn word_end(s: Seq<char>, pos: int) -> bool {
    pos >= s.len() || !(is_letter(s[pos]) || is_digit(s[pos]))
}

/// The characters with which a written primary expression can begin.
pub open spec fn starts_primary(c: char) -> bool {
    is_letter(c) || is_digit(c) || c == '"' || c == '-' || c == '[' || c == '('
}

proof fn lemma_at_char(s: Seq<char>, pos: int, t: Seq<char>, i: int)
    requires
        at(s, pos, t),
        0 <= i < t.len(),
    ensures
        s[pos + i] == t[i],
{
    assert(s.subrange(pos, pos + t.len())[i] == s[pos + i]);
}

proof fn lemma_at_split(s: Seq<char>, pos: int, a: Seq<char>, b: Seq<char>)
    requires
        at(s, pos, a + b),
    ensures
        at(s, pos, a),
        at(s, pos + a.len(), b),
{
    let t = a + b;
    assert forall|i: int| 0 <= i < a.len() implies s.subrange(pos, pos + a.len())[i] == a[i] by {
        lemma_at_char(s, pos, t, i);
    }
    assert(s.subrange(pos, pos + a.len()) =~= a);
    assert forall|i: int| 0 <= i < b.len() implies s.subrange(
        pos + a.len(),
        pos + a.len() + b.len(),
    )[i] == b[i] by {
        lemma_at_char(s, pos, t, a.len() + i);
    }
    assert(s.subrange(pos + a.len(), pos + a.len() + b.len()) =~= b);
}

/// Where no whitespace stands, none is skipped.
proof fn lemma_no_whitespace(s: Seq<char>, pos: int)
    requires
        0 <= pos < s.len(),
        !is_whitespace(s[pos]),
    ensures
        skip_whitespace(s, pos) == pos,
{
}

/// A written number is one or more digits and has the number's value.
proof fn lemma_write_nat(n: nat)
    ensures
        write_nat(n).len() >= 1,
        forall|i: int| 0 <= i < write_nat(n).len() ==> is_digit(#[trigger] write_nat(n)[i]),
        decimal_value(write_nat(n)) == n,
    decreases n,
{
    if n < 10 {
        let text = seq![digit_char(n as int)];
        assert(text.drop_last() =~= Seq::<char>::empty());
        assert(decimal_value(text.drop_last()) == 0);
        assert(digit_value(digit_char(n as int)) == n);
    } else {
        lemma_write_nat(n / 10);
        let text = write_nat(n / 10).push(digit_char(n as int % 10));
        assert(text.drop_last() =~= write_nat(n / 10));
        assert(digit_value(digit_char(n as int % 10)) == n % 10);
    }
}

proof fn lemma_identifier_token(s: Seq<char>, pos: int, name: Seq<char>)
    requires
        is_identifier(name),
        at(s, pos, name),
        word_end(s, pos + name.len()),
    ensures
        identifier(s, pos) == Ok::<(Seq<char>, int), GnError>((name, pos + name.len())),
{
    let end = pos + name.len();
    lemma_at_char(s, pos, name, 0);
    lemma_no_whitespace(s, pos);
    assert forall|i: int| pos + 1 <= i < end implies in_class(
        #[trigger] s[i],
        CharClass::IdentifierPart,
    ) by {
        lemma_at_char(s, pos, name, i - pos);
    }
    lemma_scan_whole_run(s, pos + 1, end, CharClass::IdentifierPart);
}

proof fn lemma_string_token(s: Seq<char>, pos: int, content: Seq<char>)
    requires
        is_string_content(content),
        at(s, pos, quoted(content)),
    ensures
        string_literal(s, pos) == Ok::<(Seq<char>, int), GnError>(
            (content, pos + quoted(content).len()),
        ),
{
    let text = quoted(content);
    let close = pos + content.len() + 1;
    lemma_at_char(s, pos, text, 0);
    lemma_at_char(s, pos, text, content.len() as int + 1);
    lemma_no_whitespace(s, pos);
    assert forall|i: int| pos + 1 <= i < close implies in_class(
        #[trigger] s[i],
        CharClass::StringContent,
    ) by {
        lemma_at_char(s, pos, text, i - pos);
        assert(text[i - pos] == content[i - pos - 1]);
    }
    lemma_scan_whole_run(s, pos + 1, close, CharClass::StringContent);
    assert forall|i: int| 0 <= i < content.len() implies s.subrange(pos + 1, close)[i]
        == content[i] by {
        lemma_at_char(s, pos, text, i + 1);
    }
    assert(s.subrange(pos + 1, close) =~= content);
}

proof fn lemma_integer_token(s: Seq<char>, pos: int, value: i64)
    requires
        value > i64::MIN,
        at(s, pos, write_integer(value)),
        word_end(s, pos + write_integer(value).len()),
    ensures
        integer_literal(s, pos) == Ok::<(i64, int), GnError>(
            (value, pos + write_integer(value).len()),
        ),
{
    let text = write_integer(value);
    let end = pos + text.len();
    let magnitude: nat = if value < 0 {
        (-value) as nat
    } else {
        value as nat
    };
    let digits = write_nat(magnitude);
    lemma_write_nat(magnitude);
    let first = if value < 0 {
        pos + 1
    } else {
        pos
    };
    if value < 0 {
        lemma_at_split(s, pos, seq!['-'], digits);
        lemma_at_char(s, pos, seq!['-'], 0);
    }
    assert(at(s, first, digits));
    lemma_at_char(s, pos, text, 0);
    lemma_no_whitespace(s, pos);
    assert forall|i: int| first <= i < end implies in_class(#[trigger] s[i], CharClass::Digit) by {
        lemma_at_char(s, first, digits, i - first);
    }
    lemma_at_char(s, first, digits, 0);
    lemma_scan_whole_run(s, first, end, CharClass::Digit);
    assert(s.subrange(first, end) == digits);
}

/// A written primary expression is not empty and begins with a character
/// that begins nothing else.
proof fn lemma_primary_starts(x: GnAst, depth: nat)
    requires
        writable_primary(x, depth),
    ensures
        write_primary(x).len() > 0,
        starts_primary(write_primary(x)[0]),
{
    match x {
        GnAst::IntegerLiteral(value) => {
            if value < 0 {
                lemma_write_nat((-value) as nat);
            } else {
                lemma_write_nat(value as nat);
            }
        },
        _ => {},
    }
}

proof fn lemma_unary_starts(x: GnAst, depth: nat)
    requires
        writable_unary(x, depth),
    ensures
        write_unary(x).len() > 0,
        starts_primary(write_unary(x)[0]) || write_unary(x)[0] == '!',
{
    match x {
        GnAst::UnaryExpr(op, operand) => {},
        _ => {
            lemma_primary_starts(x, depth);
        },
    }
}

proof fn lemma_expr_starts(x: GnAst, depth: nat)
    requires
        writable_expr(x, depth),
    ensures
        write_expr(x).len() > 0,
        starts_primary(write_expr(x)[0]) || write_expr(x)[0] == '!',
    decreases x,
{
    match x {
        GnAst::BinaryExpr(left, op, right) => {
            lemma_expr_starts(*left, depth);
        },
        _ => {
            lemma_unary_starts(x, depth);
        },
    }
}

/// A written primary expression that is not continued parses to its tree
/// and is read to its end.
pub proof fn lemma_primary_round_trip(s: Seq<char>, pos: int, x: GnAst, depth: nat)
    requires
        writable_primary(x, depth),
        at(s, pos, write_primary(x)),
        word_end(s, pos + write_primary(x).len()),
    ensures
        primary_expr(s, pos, depth) == Ok::<(GnAst, int), GnError>(
            (x, pos + write_primary(x).len()),
        ),
    decreases depth, x, 1int,
{
    let text = write_primary(x);
    let end = pos + text.len();
    lemma_primary_starts(x, depth);
    lemma_at_char(s, pos, text, 0);
    lemma_no_whitespace(s, pos);
    match x {
        GnAst::Identifier(name) => {
            lemma_identifier_token(s, pos, name);
        },
        GnAst::StringLiteral(content) => {
            lemma_string_token(s, pos, content);
        },
        GnAst::IntegerLiteral(value) => {
            lemma_integer_token(s, pos, value);
        },
        GnAst::ExpressionList(elements) => {
            let parts = element_texts(elements);
            lemma_at_split(s, pos, seq!['['] + concat(parts), seq![']']);
            lemma_at_split(s, pos, seq!['['], concat(parts));
            let close = pos + 1 + concat(parts).len();
            lemma_at_char(s, close, seq![']'], 0);
            assert(parts.skip(0) =~= parts);
            lemma_elements_round_trip(s, pos + 1, elements, 0, (depth - 1) as nat);
            assert(elements.take(0) =~= Seq::<GnAst>::empty());
            lemma_no_whitespace(s, close);
        },
        GnAst::UnaryExpr(op, operand) => {
            let inner = write_expr(x);
            assert(write_expr(x) == write_unary(x));
            assert(text =~= seq!['('] + inner + seq![')']);
            lemma_at_split(s, pos, seq!['('] + inner, seq![')']);
            lemma_at_split(s, pos, seq!['('], inner);
            let close = pos + 1 + inner.len();
            lemma_at_char(s, close, seq![')'], 0);
            lemma_no_whitespace(s, close);
            lemma_expr_round_trip(s, pos + 1, x, (depth - 1) as nat);
        },
        GnAst::BinaryExpr(left, op, right) => {
            let inner = write_expr(x);
            assert(text =~= seq!['('] + inner + seq![')']);
            lemma_at_split(s, pos, seq!['('] + inner, seq![')']);
            lemma_at_split(s, pos, seq!['('], inner);
            let close = pos + 1 + inner.len();
            lemma_at_char(s, close, seq![')'], 0);
            lemma_no_whitespace(s, close);
            lemma_expr_round_trip(s, pos + 1, x, (depth - 1) as nat);
        },
        _ => {},
    }
}

/// The written elements of a list from the `i`-th on, with `]` behind
/// them, are read as those elements and added to the ones before.
proof fn lemma_elements_round_trip(
    s: Seq<char>,
    pos: int,
    elements: Seq<GnAst>,
    i: int,
    depth: nat,
)
    requires
        0 <= i <= elements.len(),
        forall|j: int| 0 <= j < elements.len() ==> writable_primary(#[trigger] elements[j], depth),
        at(s, pos, concat(element_texts(elements).skip(i))),
        pos + concat(element_texts(elements).skip(i)).len() < s.len(),
        s[pos + concat(element_texts(elements).skip(i)).len()] == ']',
    ensures
        list_elements(s, pos, depth, elements.take(i)) == Ok::<(Seq<GnAst>, int), GnError>(
            (elements, pos + concat(element_texts(elements).skip(i)).len()),
        ),
    decreases depth, elements, elements.len() - i,
{
    let rest = element_texts(elements).skip(i);
    if i == elements.len() {
        assert(rest.len() == 0);
        lemma_no_whitespace(s, pos);
        assert(elements.take(i) =~= elements);
    } else {
        let element = elements[i];
        let written = write_primary(element);
        let part = written + seq![','];
        assert(rest[0] == part);
        assert(rest.drop_first() =~= element_texts(elements).skip(i + 1));
        lemma_at_split(s, pos, part, concat(rest.drop_first()));
        lemma_at_split(s, pos, written, seq![',']);
        let pos1 = pos + written.len();
        lemma_at_char(s, pos1, seq![','], 0);
        lemma_primary_round_trip(s, pos, element, depth);
        lemma_primary_starts(element, depth);
        lemma_no_whitespace(s, pos1);
        lemma_elements_round_trip(s, pos1 + 1, elements, i + 1, depth);
        assert(elements.take(i).push(element) =~= elements.take(i + 1));
    }
}

/// A written unary expression that is not continued parses to its tree and
/// is read to its end.
pub proof fn lemma_unary_round_trip(s: Seq<char>, pos: int, x: GnAst, depth: nat)
    requires
        writable_unary(x, depth),
        at(s, pos, write_unary(x)),
        word_end(s, pos + write_unary(x).len()),
    ensures
        unary_expr(s, pos, depth) == Ok::<(GnAst, int), GnError>((x, pos + write_unary(x).len())),
    decreases depth, x, 2int,
{
    match x {
        GnAst::UnaryExpr(op, operand) => {
            let rest = write_unary(*operand);
            lemma_at_split(s, pos, op, rest);
            lemma_at_char(s, pos, op, 0);
            lemma_no_whitespace(s, pos);
            assert(s.subrange(pos, pos + 1) == op);
            lemma_unary_round_trip(s, pos + 1, *operand, (depth - 1) as nat);
        },
        _ => {
            lemma_primary_round_trip(s, pos, x, depth);
        },
    }
}

/// Once the written expression `x` has been read, the parse stands behind
/// it with `x` as the left operand of whatever follows.
proof fn lemma_expr_prefix(s: Seq<char>, pos: int, x: GnAst, depth: nat)
    requires
        writable_expr(x, depth),
        at(s, pos, write_expr(x)),
        word_end(s, pos + write_expr(x).len()),
    ensures
        expr(s, pos, depth) == expr_rest(s, pos + write_expr(x).len(), depth, x),
        write_expr(x).len() > 0,
    decreases depth, x, 3int,
{
    match x {
        GnAst::BinaryExpr(left, op, right) => {
            let a = write_expr(*left);
            let b = write_unary(*right);
            assert(write_expr(x) =~= (a + op) + b);
            lemma_at_split(s, pos, a + op, b);
            lemma_at_split(s, pos, a, op);
            let pos1 = pos + a.len();
            let pos2 = pos1 + op.len();
            lemma_at_char(s, pos1, op, 0);
            if op.len() == 2 {
                lemma_at_char(s, pos1, op, 1);
            }
            lemma_expr_prefix(s, pos, *left, depth);
            lemma_unary_starts(*right, depth);
            lemma_at_char(s, pos2, b, 0);
            lemma_no_whitespace(s, pos1);
            assert(binary_op(s, pos1) == Ok::<(Seq<char>, int), GnError>((op, pos2)));
            lemma_unary_round_trip(s, pos2, *right, depth);
        },
        _ => {
            lemma_unary_round_trip(s, pos, x, depth);
            lemma_unary_starts(x, depth);
        },
    }
}

/// A written expression after which no operator follows parses to its tree
/// and is read to its end.
pub proof fn lemma_expr_round_trip(s: Seq<char>, pos: int, x: GnAst, depth: nat)
    requires
        writable_expr(x, depth),
        at(s, pos, write_expr(x)),
        word_end(s, pos + write_expr(x).len()),
        binary_op(s, pos + write_expr(x).len()) is Err,
    ensures
        expr(s, pos, depth) == Ok::<(GnAst, int), GnError>((x, pos + write_expr(x).len())),
    decreases depth, x, 4int,
{
    lemma_expr_prefix(s, pos, x, depth);
}

/// What may stand behind a written statement: the end of the text, a `}`,
/// or the line break and the name with which the next statement begins.
pub open spec fn statement_end(s: Seq<char>, pos: int) -> bool {
    ||| pos >= s.len()
    ||| s[pos] == '}'
    ||| (s[pos] == '\n' && pos + 1 < s.len() && is_letter(s[pos + 1]))
}

proof fn lemma_skip_line_break(s: Seq<char>, pos: int)
    requires
        0 <= pos,
        pos + 1 < s.len(),
        s[pos] == '\n',
        !is_whitespace(s[pos + 1]),
    ensures
        skip_whitespace(s, pos) == pos + 1,
{
    assert(scan(s, pos + 1, CharClass::Whitespace) == pos + 1);
}

/// Behind a written statement nothing continues it: no name or number, no
/// operator, no body.
proof fn lemma_statement_end_stops(s: Seq<char>, pos: int)
    requires
        0 <= pos <= s.len(),
        statement_end(s, pos),
    ensures
        word_end(s, pos),
        binary_op(s, pos) is Err,
        symbol(s, pos, '{') is Err,
{
    if pos < s.len() {
        if s[pos] == '\n' {
            lemma_skip_line_break(s, pos);
        } else {
            lemma_no_whitespace(s, pos);
        }
    }
}

/// A written statement begins with a line break and a name.
proof fn lemma_statement_starts(x: GnAst, depth: nat)
    requires
        writable_statement(x, depth),
    ensures
        write_statement(x).len() >= 2,
        write_statement(x)[0] == '\n',
        is_letter(write_statement(x)[1]),
{
}

/// The written arguments of a call from the `i`-th on, with `)` behind
/// them, are read as those arguments and added to the ones before.
proof fn lemma_arguments_round_trip(
    s: Seq<char>,
    pos: int,
    arguments: Seq<GnAst>,
    i: int,
    depth: nat,
)
    requires
        0 <= i < arguments.len(),
        forall|j: int| 0 <= j < arguments.len() ==> writable_expr(#[trigger] arguments[j], depth),
        at(s, pos, concat(argument_texts(arguments).skip(i))),
        pos + concat(argument_texts(arguments).skip(i)).len() < s.len(),
        s[pos + concat(argument_texts(arguments).skip(i)).len()] == ')',
    ensures
        arguments_from(s, pos, depth, arguments.take(i)) == Ok::<(Seq<GnAst>, int), GnError>(
            (arguments, pos + concat(argument_texts(arguments).skip(i)).len()),
        ),
    decreases arguments.len() - i,
{
    let rest = argument_texts(arguments).skip(i);
    let argument = arguments[i];
    let written = write_expr(argument);
    let part = rest[0];
    let pos1 = pos + written.len();
    assert(rest.drop_first() =~= argument_texts(arguments).skip(i + 1));
    lemma_at_split(s, pos, part, concat(rest.drop_first()));
    lemma_expr_starts(argument, depth);
    if i + 1 < arguments.len() {
        assert(part == written + seq![',']);
        lemma_at_split(s, pos, written, seq![',']);
        lemma_at_char(s, pos1, seq![','], 0);
        lemma_no_whitespace(s, pos1);
        lemma_expr_round_trip(s, pos, argument, depth);
        lemma_arguments_round_trip(s, pos1 + 1, arguments, i + 1, depth);
        assert(arguments.take(i).push(argument) =~= arguments.take(i + 1));
    } else {
        assert(part == written);
        assert(rest.drop_first().len() == 0);
        lemma_no_whitespace(s, pos1);
        lemma_expr_round_trip(s, pos, argument, depth);
        assert(arguments.take(i).push(argument) =~= arguments);
    }
}

/// A written assignment with nothing behind it that continues it parses to
/// its tree and is read to its end.
proof fn lemma_assignment_round_trip(s: Seq<char>, pos: int, x: GnAst, depth: nat)
    requires
        x is Assignment,
        writable_statement(x, depth),
        at(s, pos, write_statement(x)),
        statement_end(s, pos + write_statement(x).len()),
    ensures
        assignment(s, pos, depth) == Ok::<(GnAst, int), GnError>(
            (x, pos + write_statement(x).len()),
        ),
{
    let text = write_statement(x);
    let end = pos + text.len();
    let lvalue = x->Assignment_0;
    let op = x->Assignment_1;
    let rvalue = x->Assignment_2;
    let name = lvalue->Identifier_0;
    let written = write_expr(*rvalue);
    let pos1 = pos + 1 + name.len();
    let pos2 = pos1 + op.len();
    assert(text =~= ((seq!['\n'] + name) + op) + written);
    lemma_at_split(s, pos, (seq!['\n'] + name) + op, written);
    lemma_at_split(s, pos, seq!['\n'] + name, op);
    lemma_at_split(s, pos, seq!['\n'], name);
    lemma_at_char(s, pos, seq!['\n'], 0);
    lemma_at_char(s, pos + 1, name, 0);
    lemma_skip_line_break(s, pos);
    lemma_no_whitespace(s, pos + 1);
    assert(identifier(s, pos) == identifier(s, pos + 1));
    lemma_at_char(s, pos1, op, 0);
    if op.len() == 2 {
        lemma_at_char(s, pos1, op, 1);
    }
    lemma_identifier_token(s, pos + 1, name);
    lemma_no_whitespace(s, pos1);
    assert(assign_op(s, pos1) == Ok::<(Seq<char>, int), GnError>((op, pos2)));
    lemma_statement_end_stops(s, end);
    lemma_expr_round_trip(s, pos2, *rvalue, depth);
    assert(*lvalue == GnAst::Identifier(name));
}

/// The written head of a call, from the line break before its name to the
/// `)` behind its arguments, is read piece by piece; and it is no
/// assignment.
proof fn lemma_call_head(
    s: Seq<char>,
    pos: int,
    name: Seq<char>,
    arguments: Seq<GnAst>,
    depth: nat,
)
    requires
        is_identifier(name),
        forall|j: int| 0 <= j < arguments.len() ==> writable_expr(#[trigger] arguments[j], depth),
        at(
            s,
            pos,
            (((seq!['\n'] + name) + seq!['(']) + concat(argument_texts(arguments))) + seq![')'],
        ),
    ensures
        ({
            let pos1 = pos + 1 + name.len();
            let pos3 = pos1 + 1 + concat(argument_texts(arguments)).len();
            &&& identifier(s, pos) == Ok::<(Seq<char>, int), GnError>((name, pos1))
            &&& assign_op(s, pos1) is Err
            &&& assign_op(s, pos1)->Err_0 is StructuralMismatch
            &&& symbol(s, pos1, '(') == Ok::<int, GnError>(pos1 + 1)
            &&& arguments_from(s, pos1 + 1, depth, Seq::empty()) == Ok::<
                (Seq<GnAst>, int),
                GnError,
            >((arguments, pos3))
            &&& symbol(s, pos3, ')') == Ok::<int, GnError>(pos3 + 1)
        }),
{
    let a = concat(argument_texts(arguments));
    let pos1 = pos + 1 + name.len();
    let pos2 = pos1 + 1;
    let pos3 = pos2 + a.len();
    lemma_at_split(s, pos, ((seq!['\n'] + name) + seq!['(']) + a, seq![')']);
    lemma_at_split(s, pos, (seq!['\n'] + name) + seq!['('], a);
    lemma_at_split(s, pos, seq!['\n'] + name, seq!['(']);
    lemma_at_split(s, pos, seq!['\n'], name);
    lemma_at_char(s, pos, seq!['\n'], 0);
    lemma_at_char(s, pos + 1, name, 0);
    lemma_at_char(s, pos1, seq!['('], 0);
    lemma_at_char(s, pos3, seq![')'], 0);
    lemma_skip_line_break(s, pos);
    lemma_no_whitespace(s, pos + 1);
    assert(identifier(s, pos) == identifier(s, pos + 1));
    lemma_identifier_token(s, pos + 1, name);
    lemma_no_whitespace(s, pos1);
    lemma_no_whitespace(s, pos3);
    assert(identifier(s, pos) == Ok::<(Seq<char>, int), GnError>((name, pos1)));
    assert(assign_op(s, pos1) is Err);
    assert(assign_op(s, pos1)->Err_0 is StructuralMismatch);
    assert(symbol(s, pos1, '(') == Ok::<int, GnError>(pos1 + 1));
    assert(symbol(s, pos3, ')') == Ok::<int, GnError>(pos3 + 1));
    if arguments.len() == 0 {
        assert(argument_texts(arguments) =~= Seq::<Seq<char>>::empty());
        assert(arguments =~= Seq::<GnAst>::empty());
        assert(a.len() == 0);
        assert(primary_expr(s, pos2, depth) is Err);
        assert(primary_expr(s, pos2, depth)->Err_0 is StructuralMismatch);
        assert(unary_expr(s, pos2, depth) is Err);
        assert(unary_expr(s, pos2, depth)->Err_0 is StructuralMismatch);
        assert(expr(s, pos2, depth) is Err);
        assert(expr(s, pos2, depth)->Err_0 is StructuralMismatch);
    } else {
        assert(argument_texts(arguments).skip(0) =~= argument_texts(arguments));
        assert(arguments.take(0) =~= Seq::<GnAst>::empty());
        lemma_arguments_round_trip(s, pos2, arguments, 0, depth);
    }
}

/// A written call with nothing behind it that continues it parses to its
/// tree and is read to its end.
#[verifier::rlimit(60)]
proof fn lemma_call_round_trip(s: Seq<char>, pos: int, x: GnAst, depth: nat)
    requires
        x is Call,
        writable_statement(x, depth),
        at(s, pos, write_statement(x)),
        statement_end(s, pos + write_statement(x).len()),
    ensures
        call(s, pos, depth) == Ok::<(GnAst, int), GnError>((x, pos + write_statement(x).len())),
        identifier(s, pos) == Ok::<(Seq<char>, int), GnError>(
            (x->Call_name, pos + 1 + x->Call_name.len()),
        ),
        assign_op(s, pos + 1 + x->Call_name.len()) is Err,
        assign_op(s, pos + 1 + x->Call_name.len())->Err_0 is StructuralMismatch,
    decreases depth, x, 0int,
{
    let text = write_statement(x);
    let end = pos + text.len();
    let name = x->Call_name;
    let params = x->Call_params;
    let block = x->Call_block;
    let arguments = params->ExpressionList_0;
    let a = concat(argument_texts(arguments));
    let b = write_block(block);
    let head = (((seq!['\n'] + name) + seq!['(']) + a) + seq![')'];
    let pos1 = pos + 1 + name.len();
    let pos4 = pos1 + 1 + a.len() + 1;
    let inner = (depth - 1) as nat;
    assert(text =~= head + b);
    lemma_at_split(s, pos, head, b);
    lemma_call_head(s, pos, name, arguments, inner);
    assert(*params == GnAst::ExpressionList(arguments));
    match block {
        None => {
            lemma_statement_end_stops(s, pos4);
        },
        Some(body) => {
            let statements = body->ExpressionList_0;
            let c = concat(statement_texts(statements));
            let pos5 = pos4 + 1;
            let pos6 = pos5 + c.len();
            assert(b =~= (seq!['{'] + c) + seq!['}']);
            lemma_at_split(s, pos4, seq!['{'] + c, seq!['}']);
            lemma_at_split(s, pos4, seq!['{'], c);
            lemma_at_char(s, pos4, seq!['{'], 0);
            lemma_at_char(s, pos6, seq!['}'], 0);
            lemma_no_whitespace(s, pos4);
            lemma_no_whitespace(s, pos6);
            assert(statement_texts(statements).skip(0) =~= statement_texts(statements));
            assert(statements.take(0) =~= Seq::<GnAst>::empty());
            lemma_statements_round_trip(s, pos5, statements, 0, inner);
            assert(*body == GnAst::ExpressionList(statements));
        },
    }
}

/// A written statement with nothing behind it that continues it parses to
/// its tree and is read to its end.
pub proof fn lemma_statement_round_trip(s: Seq<char>, pos: int, x: GnAst, depth: nat)
    requires
        writable_statement(x, depth),
        at(s, pos, write_statement(x)),
        statement_end(s, pos + write_statement(x).len()),
    ensures
        statement(s, pos, depth) == Ok::<(GnAst, int), GnError>(
            (x, pos + write_statement(x).len()),
        ),
    decreases depth, x, 1int,
{
    if x is Assignment {
        lemma_assignment_round_trip(s, pos, x, depth);
    } else {
        lemma_call_round_trip(s, pos, x, depth);
        assert(assignment(s, pos, depth) is Err);
        assert(assignment(s, pos, depth)->Err_0 is StructuralMismatch);
    }
}

/// The written statements of a list from the `i`-th on, with the end of
/// the text or a `}` behind them, are read as those statements and added
/// to the ones before.
proof fn lemma_statements_round_trip(
    s: Seq<char>,
    pos: int,
    statements: Seq<GnAst>,
    i: int,
    depth: nat,
)
    requires
        0 <= i <= statements.len(),
        forall|j: int|
            0 <= j < statements.len() ==> writable_statement(#[trigger] statements[j], depth),
        at(s, pos, concat(statement_texts(statements).skip(i))),
        pos + concat(statement_texts(statements).skip(i)).len() >= s.len() || s[pos + concat(
            statement_texts(statements).skip(i),
        ).len()] == '}',
    ensures
        statements_from(s, pos, depth, statements.take(i)) == Ok::<(Seq<GnAst>, int), GnError>(
            (statements, pos + concat(statement_texts(statements).skip(i)).len()),
        ),
    decreases depth, statements, statements.len() - i,
{
    let rest = statement_texts(statements).skip(i);
    if i == statements.len() {
        assert(rest.len() == 0);
        assert(statements.take(i) =~= statements);
        if pos < s.len() {
            lemma_no_whitespace(s, pos);
            assert(statement(s, pos, depth) is Err);
            assert(statement(s, pos, depth)->Err_0 is StructuralMismatch);
        }
    } else {
        let x = statements[i];
        let part = write_statement(x);
        let pos1 = pos + part.len();
        assert(rest[0] == part);
        assert(rest.drop_first() =~= statement_texts(statements).skip(i + 1));
        lemma_at_split(s, pos, part, concat(rest.drop_first()));
        lemma_statement_starts(x, depth);
        lemma_at_char(s, pos, part, 0);
        lemma_at_char(s, pos, part, 1);
        lemma_skip_line_break(s, pos);
        if i + 1 < statements.len() {
            let next = write_statement(statements[i + 1]);
            let after = statement_texts(statements).skip(i + 1);
            assert(after[0] == next);
            lemma_at_split(s, pos1, next, concat(after.drop_first()));
            lemma_statement_starts(statements[i + 1], depth);
            lemma_at_char(s, pos1, next, 0);
            lemma_at_char(s, pos1, next, 1);
        } else {
            assert(rest.drop_first().len() == 0);
        }
        lemma_statement_round_trip(s, pos, x, depth);
        lemma_statements_round_trip(s, pos1, statements, i + 1, depth);
        assert(statements.take(i).push(x) =~= statements.take(i + 1));
    }
}

/// Writing a tree down and parsing the text gives the tree back: every
/// tree that is a list of writable statements, written as `write_program`
/// writes it, parses to that same tree, with any limit on nesting under
/// which the tree is writable.
pub proof fn lemma_program_round_trip(x: GnAst, depth: nat)
    requires
        writable_program(x, depth),
    ensures
        program(write_program(x), depth) == Ok::<GnAst, GnError>(x),
{
    let s = write_program(x);
    let statements = x->ExpressionList_0;
    assert(statement_texts(statements).skip(0) =~= statement_texts(statements));
    assert(statements.take(0) =~= Seq::<GnAst>::empty());
    assert(s.subrange(0, s.len() as int) =~= s);
    lemma_statements_round_trip(s, 0, statements, 0, depth);
    assert(statement_list(s, 0, depth) == Ok::<(GnAst, int), GnError>((x, s.len() as int)));
}

} // verus!
