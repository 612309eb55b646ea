//! Writes a syntax tree down as text, as `printer` states it.

use super::ast::{list_model, GnAst, GnExpr};
use super::grammar::{program, GnError};
use super::printer::{
    argument_texts, concat, digit_char, element_texts, statement_texts, writable_program,
    write_block, write_expr, write_integer, write_nat, write_primary, write_program,
    write_statement, write_unary,
};
use super::round_trip::lemma_program_round_trip;
use crate::text::push_char;
use vstd::prelude::*;

verus! {

broadcast use vstd::std_specs::vec::group_vec_axioms;

/// All the parts are the parts before the last and then the last.
proof fn lemma_concat_push(parts: Seq<Seq<char>>, last: Seq<char>)
    ensures
        concat(parts.push(last)) == concat(parts) + last,
    decreases parts.len(),
{
    if parts.len() == 0 {
        assert(parts.push(last).drop_first() =~= Seq::<Seq<char>>::empty());
        assert(concat(Seq::<Seq<char>>::empty()) =~= Seq::<char>::empty());
        assert(concat(parts.push(last)) =~= last + concat(parts.push(last).drop_first()));
        assert(concat(parts.push(last)) =~= concat(parts) + last);
    } else {
        assert(parts.push(last).drop_first() =~= parts.drop_first().push(last));
        lemma_concat_push(parts.drop_first(), last);
        assert(concat(parts.push(last)) =~= concat(parts) + last);
    }
}

fn digit_to_char(digit: u64) -> (c: char)
    requires
        digit < 10,
    ensures
        c == digit_char(digit as int),
{
    if digit == 0 {
        '0'
    } else if digit == 1 {
        '1'
    } else if digit == 2 {
        '2'
    } else if digit == 3 {
        '3'
    } else if digit == 4 {
        '4'
    } else if digit == 5 {
        '5'
    } else if digit == 6 {
        '6'
    } else if digit == 7 {
        '7'
    } else if digit == 8 {
        '8'
    } else {
        '9'
    }
}

fn append_nat(out: &mut String, n: u64)
    ensures
        final(out)@ == old(out)@ + write_nat(n as nat),
    decreases n,
{
    if n >= 10 {
        append_nat(out, n / 10);
    }
    push_char(out, digit_to_char(n % 10));
    assert(out@ =~= old(out)@ + write_nat(n as nat));
}

fn append_integer(out: &mut String, value: i64)
    ensures
        final(out)@ == old(out)@ + write_integer(value),
{
    if value < 0 {
        push_char(out, '-');
        let magnitude: u64 = if value == i64::MIN {
            0x8000_0000_0000_0000u64
        } else {
            (-value) as u64
        };
        append_nat(out, magnitude);
        assert(out@ =~= old(out)@ + write_integer(value));
    } else {
        append_nat(out, value as u64);
    }
}

fn append_primary(out: &mut String, x: &GnExpr)
    ensures
        final(out)@ == old(out)@ + write_primary(x.model()),
    decreases x, 0int,
{
    match x {
        GnExpr::Identifier(name) => {
            out.append(name.as_str());
        },
        GnExpr::StringLiteral(content) => {
            push_char(out, '"');
            out.append(content.as_str());
            push_char(out, '"');
            assert(out@ =~= old(out)@ + write_primary(x.model()));
        },
        GnExpr::IntegerLiteral(value) => {
            append_integer(out, *value);
        },
        GnExpr::ExpressionList(elements) => {
            push_char(out, '[');
            let ghost models = list_model(elements@);
            let ghost parts = element_texts(models);
            proof {
                GnExpr::lemma_list_model(*elements);
                assert(parts.take(0) =~= Seq::<Seq<char>>::empty());
            }
            let mut i: usize = 0;
            while i < elements.len()
                invariant
                    *x == GnExpr::ExpressionList(*elements),
                    i <= elements.len(),
                    models == list_model(elements@),
                    parts == element_texts(models),
                    out@ == old(out)@ + seq!['['] + concat(parts.take(i as int)),
                decreases elements.len() - i,
            {
                let element = &elements[i];
                proof {
                    assert(x->ExpressionList_0 == *elements);
                    assert(decreases_to!(*x => x->ExpressionList_0));
                    assert(decreases_to!(*elements => elements@));
                    assert(decreases_to!(elements@ => elements@[i as int]));
                    assert(decreases_to!(*x => *element));
                }
                append_primary(out, element);
                push_char(out, ',');
                proof {
                    let part = write_primary(models[i as int]) + seq![','];
                    assert(parts[i as int] == part);
                    assert(parts.take(i as int + 1) =~= parts.take(i as int).push(part));
                    lemma_concat_push(parts.take(i as int), part);
                    assert(out@ =~= old(out)@ + seq!['['] + concat(parts.take(i as int + 1)));
                }
                i = i + 1;
            }
            push_char(out, ']');
            proof {
                assert(parts.take(elements.len() as int) =~= parts);
                assert(out@ =~= old(out)@ + write_primary(x.model()));
            }
        },
        GnExpr::UnaryExpr(op, operand) => {
            push_char(out, '(');
            out.append(op.as_str());
            append_unary(out, operand);
            push_char(out, ')');
            assert(out@ =~= old(out)@ + write_primary(x.model()));
        },
        GnExpr::BinaryExpr(left, op, right) => {
            push_char(out, '(');
            append_expr(out, left);
            out.append(op.as_str());
            append_unary(out, right);
            push_char(out, ')');
            assert(out@ =~= old(out)@ + write_primary(x.model()));
        },
        _ => {
            assert(out@ =~= old(out)@ + write_primary(x.model()));
        },
    }
}

fn append_unary(out: &mut String, x: &GnExpr)
    ensures
        final(out)@ == old(out)@ + write_unary(x.model()),
    decreases x, 1int,
{
    match x {
        GnExpr::UnaryExpr(op, operand) => {
            out.append(op.as_str());
            append_unary(out, operand);
            assert(out@ =~= old(out)@ + write_unary(x.model()));
        },
        _ => {
            append_primary(out, x);
        },
    }
}

fn append_expr(out: &mut String, x: &GnExpr)
    ensures
        final(out)@ == old(out)@ + write_expr(x.model()),
    decreases x, 2int,
{
    match x {
        GnExpr::BinaryExpr(left, op, right) => {
            append_expr(out, left);
            out.append(op.as_str());
            append_unary(out, right);
            assert(out@ =~= old(out)@ + write_expr(x.model()));
        },
        _ => {
            append_unary(out, x);
        },
    }
}

/// An expression as text: the operands with the operators between them,
/// parentheses round a unary or binary operand, and a `,` behind every
/// element of a list.
pub fn write_expression(x: &GnExpr) -> (text: String)
    ensures
        text@ == write_expr(x.model()),
{
    let mut text = String::new();
    append_expr(&mut text, x);
    assert(text@ =~= write_expr(x.model()));
    text
}

fn append_arguments(out: &mut String, arguments: &Vec<GnExpr>)
    ensures
        final(out)@ == old(out)@ + concat(argument_texts(list_model(arguments@))),
{
    let ghost models = list_model(arguments@);
    let ghost parts = argument_texts(models);
    proof {
        assert(parts.take(0) =~= Seq::<Seq<char>>::empty());
        assert(out@ =~= old(out)@ + concat(parts.take(0)));
    }
    let mut i: usize = 0;
    while i < arguments.len()
        invariant
            i <= arguments.len(),
            models == list_model(arguments@),
            parts == argument_texts(models),
            out@ == old(out)@ + concat(parts.take(i as int)),
        decreases arguments.len() - i,
    {
        append_expr(out, &arguments[i]);
        if i + 1 < arguments.len() {
            push_char(out, ',');
        }
        proof {
            let part = parts[i as int];
            assert(parts.take(i as int + 1) =~= parts.take(i as int).push(part));
            lemma_concat_push(parts.take(i as int), part);
            assert(out@ =~= old(out)@ + concat(parts.take(i as int + 1)));
        }
        i = i + 1;
    }
    proof {
        assert(parts.take(arguments.len() as int) =~= parts);
    }
}

fn append_statement(out: &mut String, x: &GnExpr)
    ensures
        final(out)@ == old(out)@ + write_statement(x.model()),
    decreases x,
{
    match x {
        GnExpr::Assignment(lvalue, op, rvalue) => {
            push_char(out, '\n');
            append_primary(out, lvalue);
            out.append(op.as_str());
            append_expr(out, rvalue);
            assert(out@ =~= old(out)@ + write_statement(x.model()));
        },
        GnExpr::Call(call) => {
            push_char(out, '\n');
            out.append(call.name.as_str());
            push_char(out, '(');
            match &*call.params {
                GnExpr::ExpressionList(arguments) => {
                    proof {
                        GnExpr::lemma_list_model(*arguments);
                    }
                    append_arguments(out, arguments);
                },
                _ => {},
            }
            push_char(out, ')');
            let ghost head = out@;
            assert(head =~= old(out)@ + (seq!['\n'] + call.name@ + seq!['('] + (match call.params.model() {
                GnAst::ExpressionList(arguments) => concat(argument_texts(arguments)),
                _ => Seq::empty(),
            }) + seq![')']));
            match &call.block {
                Some(body) => {
                    match &**body {
                        GnExpr::ExpressionList(statements) => {
                            push_char(out, '{');
                            let ghost models = list_model(statements@);
                            let ghost parts = statement_texts(models);
                            proof {
                                GnExpr::lemma_list_model(*statements);
                                assert(parts.take(0) =~= Seq::<Seq<char>>::empty());
                            }
                            let mut i: usize = 0;
                            while i < statements.len()
                                invariant
                                    x->Call_0.block == Some(*body),
                                    **body == GnExpr::ExpressionList(*statements),
                                    *x is Call,
                                    i <= statements.len(),
                                    models == list_model(statements@),
                                    parts == statement_texts(models),
                                    out@ == head + seq!['{'] + concat(parts.take(i as int)),
                                decreases statements.len() - i,
                            {
                                let statement = &statements[i];
                                proof {
                                    assert(decreases_to!(*x => x->Call_0));
                                    assert(decreases_to!(x->Call_0 => x->Call_0.block));
                                    assert(decreases_to!(x->Call_0.block => x->Call_0.block->Some_0));
                                    assert(body->ExpressionList_0 == *statements);
                                    assert(decreases_to!(**body => body->ExpressionList_0));
                                    assert(decreases_to!(*statements => statements@));
                                    assert(decreases_to!(statements@ => statements@[i as int]));
                                    assert(decreases_to!(*x => *statement));
                                }
                                append_statement(out, statement);
                                proof {
                                    let part = write_statement(models[i as int]);
                                    assert(parts[i as int] == part);
                                    assert(parts.take(i as int + 1) =~= parts.take(i as int).push(
                                        part,
                                    ));
                                    lemma_concat_push(parts.take(i as int), part);
                                    assert(out@ =~= head + seq!['{'] + concat(
                                        parts.take(i as int + 1),
                                    ));
                                }
                                i = i + 1;
                            }
                            push_char(out, '}');
                            proof {
                                assert(parts.take(statements.len() as int) =~= parts);
                                GnExpr::lemma_list_model(*statements);
                                assert(body.model() == GnAst::ExpressionList(models));
                                assert(x.model()->Call_block == Some(Box::new(body.model())));
                                assert(write_block(x.model()->Call_block) =~= seq!['{'] + concat(
                                    parts,
                                ) + seq!['}']);
                                assert(out@ =~= head + write_block(x.model()->Call_block));
                            }
                        },
                        _ => {
                            assert(out@ =~= head + write_block(x.model()->Call_block));
                        },
                    }
                },
                None => {
                    assert(out@ =~= head + write_block(x.model()->Call_block));
                },
            }
            assert(out@ =~= old(out)@ + write_statement(x.model()));
        },
        _ => {
            assert(out@ =~= old(out)@ + write_statement(x.model()));
        },
    }
}

/// A whole tree as text: every statement of the list on a line of its own,
/// without spaces. A tree that is no list is written as the empty text.
/// Where the tree came out of a parse, parsing the text gives it back.
pub fn write_tree(tree: &GnExpr) -> (text: String)
    ensures
        text@ == write_program(tree.model()),
        forall|depth: nat|
            writable_program(tree.model(), depth) ==> #[trigger] program(text@, depth) == Ok::<
                GnAst,
                GnError,
            >(tree.model()),
{
    proof {
        assert forall|depth: nat| writable_program(tree.model(), depth) implies #[trigger] program(
            write_program(tree.model()),
            depth,
        ) == Ok::<GnAst, GnError>(tree.model()) by {
            lemma_program_round_trip(tree.model(), depth);
        }
    }
    let mut text = String::new();
    match tree {
        GnExpr::ExpressionList(statements) => {
            let ghost models = list_model(statements@);
            let ghost parts = statement_texts(models);
            proof {
                GnExpr::lemma_list_model(*statements);
                assert(parts.take(0) =~= Seq::<Seq<char>>::empty());
                assert(text@ =~= concat(parts.take(0)));
            }
            let mut i: usize = 0;
            while i < statements.len()
                invariant
                    i <= statements.len(),
                    models == list_model(statements@),
                    parts == statement_texts(models),
                    text@ == concat(parts.take(i as int)),
                decreases statements.len() - i,
            {
                append_statement(&mut text, &statements[i]);
                proof {
                    let part = write_statement(models[i as int]);
                    assert(parts[i as int] == part);
                    assert(parts.take(i as int + 1) =~= parts.take(i as int).push(part));
                    lemma_concat_push(parts.take(i as int), part);
                }
                i = i + 1;
            }
            proof {
                assert(parts.take(statements.len() as int) =~= parts);
            }
        },
        _ => {
            assert(text@ =~= write_program(tree.model()));
        },
    }
    text
}

} // verus!
