use fargo::gn::ast::{GnCall, GnExpr};
use fargo::gn::grammar::GnError;
use fargo::gn::lexer::{gn_binary_op, gn_identifier, gn_integer, gn_string, to_integer};
use fargo::gn::parser::{
    gn_bracketed_expression_list, gn_expr, gn_expr_list, gn_l_value, gn_parenthesized_expr,
    gn_primary_expr, gn_statement, gn_unary_expr, parse, parse_chars, parse_with_max_depth,
    DEFAULT_MAX_DEPTH,
};
use fargo::text::chars_of;

fn ident(name: &str) -> GnExpr {
    GnExpr::new_identifier_from_string(name.to_owned())
}

fn assign(name: &str, op: &str, value: GnExpr) -> GnExpr {
    GnExpr::new_assignment(ident(name), op, value)
}

fn list(elements: Vec<GnExpr>) -> GnExpr {
    GnExpr::new_expression_list_from_vec(elements)
}

fn text(value: &str) -> GnExpr {
    GnExpr::new_string_from_str(value)
}

#[test]
fn parse_reads_a_target_with_its_block() {
    let src = "fidl(\"input\") { a = 1 }";
    let expected = list(vec![GnExpr::new_call(GnCall {
        name: String::from("fidl"),
        params: Box::new(list(vec![text("input")])),
        block: Some(Box::new(list(vec![assign("a", "=", GnExpr::new_integer(1))]))),
    })]);
    assert_eq!(parse(src), Ok(expected));
}

#[test]
fn parse_reads_the_whole_fixture() {
    let src = r#"fidl("input") {
  sources = [
    "ime_service.fidl",
    "input_connection.fidl",
    "usages.fidl",
  ]

  public_deps = [
    "//apps/mozart/services/geometry",
    "//apps/mozart/services/views:view_token",
  ]
}
"#;
    let tree = parse(src).unwrap();
    let statements = match tree {
        GnExpr::ExpressionList(statements) => statements,
        other => panic!("no statement list: {:?}", other),
    };
    assert_eq!(statements.len(), 1);
    let call = match &statements[0] {
        GnExpr::Call(call) => call,
        other => panic!("no call: {:?}", other),
    };
    assert_eq!(call.name, "fidl");
    assert_eq!(*call.params, list(vec![text("input")]));
    let body = match call.block.as_deref() {
        Some(GnExpr::ExpressionList(body)) => body,
        other => panic!("no body: {:?}", other),
    };
    assert_eq!(body.len(), 2);
    assert_eq!(
        body[0],
        assign(
            "sources",
            "=",
            list(vec![text("ime_service.fidl"), text("input_connection.fidl"), text("usages.fidl")])
        )
    );
    assert_eq!(
        body[1],
        assign(
            "public_deps",
            "=",
            list(vec![
                text("//apps/mozart/services/geometry"),
                text("//apps/mozart/services/views:view_token")
            ])
        )
    );
}

#[test]
fn trailing_comma_changes_nothing() {
    let with = parse(r#"bork_list = ["Fez","Raz","Skitch",]"#);
    let without = parse(r#"bork_list = ["Fez","Raz","Skitch"]"#);
    assert!(with.is_ok());
    assert_eq!(with, without);
    assert_eq!(
        with,
        Ok(list(vec![assign("bork_list", "=", list(vec![text("Fez"), text("Raz"), text("Skitch")]))]))
    );
}

#[test]
fn empty_text_is_an_empty_list() {
    assert_eq!(parse(""), Ok(list(vec![])));
    assert_eq!(parse(" \n\t "), Ok(list(vec![])));
}

#[test]
fn empty_brackets_are_an_empty_list() {
    assert_eq!(parse("a = []"), Ok(list(vec![assign("a", "=", list(vec![]))])));
    assert_eq!(parse("f()"), Ok(list(vec![GnExpr::new_call(GnCall {
        name: String::from("f"),
        params: Box::new(list(vec![])),
        block: None,
    })])));
}

#[test]
fn trailing_input_is_an_error() {
    assert_eq!(parse("a = 1 ]"), Err(GnError::TrailingInput { position: 6 }));
    assert_eq!(parse("?"), Err(GnError::TrailingInput { position: 0 }));
    assert_eq!(parse("a = 1\n  3"), Err(GnError::TrailingInput { position: 8 }));
}

#[test]
fn a_name_is_taken_bare_in_an_expression() {
    assert_eq!(
        gn_primary_expr(&chars_of("foo(1)"), 0, DEFAULT_MAX_DEPTH),
        Ok((ident("foo"), 3))
    );
    assert_eq!(parse("a = foo(1)"), Err(GnError::TrailingInput { position: 7 }));
    assert_eq!(gn_l_value(&chars_of("a[1] = 2"), 0, DEFAULT_MAX_DEPTH), Ok((ident("a"), 1)));
}

#[test]
fn unterminated_constructs_are_incomplete() {
    assert_eq!(gn_string(&chars_of("\"abc"), 0), Err(GnError::Incomplete));
    assert_eq!(parse("a = \"abc"), Err(GnError::Incomplete));
    assert_eq!(parse("a = [1, 2"), Err(GnError::Incomplete));
    assert_eq!(parse("foo("), Err(GnError::Incomplete));
    assert_eq!(parse("foo(a) { b = 1"), Err(GnError::Incomplete));
    assert_eq!(parse("a ="), Err(GnError::Incomplete));
    assert_eq!(parse("a = b +"), Err(GnError::Incomplete));
    assert_eq!(parse("a = -"), Err(GnError::Incomplete));
    assert_eq!(parse("a"), Err(GnError::Incomplete));
    assert_eq!(gn_identifier(&chars_of(""), 0), Err(GnError::Incomplete));
    assert_eq!(gn_identifier(&chars_of("abc"), 7), Err(GnError::Incomplete));
    assert_eq!(gn_binary_op(&chars_of("&"), 0), Err(GnError::Incomplete));
}

#[test]
fn nesting_is_limited() {
    assert_eq!(parse_with_max_depth("a = [1]", 1), Ok(list(vec![assign(
        "a",
        "=",
        list(vec![GnExpr::new_integer(1)])
    )])));
    assert_eq!(parse_with_max_depth("a = [1]", 0), Err(GnError::DepthExceeded));
    assert_eq!(parse_with_max_depth("a = [[1]]", 1), Err(GnError::DepthExceeded));
    assert_eq!(parse_with_max_depth("a = ((1))", 2), Ok(list(vec![assign(
        "a",
        "=",
        GnExpr::new_integer(1)
    )])));
    assert_eq!(parse_with_max_depth("a = ((1))", 1), Err(GnError::DepthExceeded));
    assert_eq!(parse_with_max_depth("a = !!b", 1), Err(GnError::DepthExceeded));
    assert_eq!(parse_with_max_depth("f(1)", 0), Err(GnError::DepthExceeded));
    assert_eq!(parse_with_max_depth("f(1) { a = 1 }", 1).is_ok(), true);
    assert_eq!(parse_with_max_depth("f(1) { a = [1] }", 1), Err(GnError::DepthExceeded));
    let mut deep = String::from("a = ");
    for _ in 0..200 {
        deep.push('[');
    }
    assert_eq!(parse(&deep), Err(GnError::DepthExceeded));
    let mut nested = String::from("a = ");
    for _ in 0..DEFAULT_MAX_DEPTH {
        nested.push('(');
    }
    nested.push('1');
    for _ in 0..DEFAULT_MAX_DEPTH {
        nested.push(')');
    }
    assert_eq!(parse(&nested), Ok(list(vec![assign("a", "=", GnExpr::new_integer(1))])));
}

#[test]
fn binary_operators_fold_to_the_left() {
    let expected = GnExpr::new_binary_expression(
        GnExpr::new_binary_expression(ident("b"), "+", ident("c")),
        "-",
        ident("d"),
    );
    assert_eq!(gn_expr(&chars_of("b + c - d"), 0, DEFAULT_MAX_DEPTH), Ok((expected, 9)));
    let expected = GnExpr::new_binary_expression(
        GnExpr::new_binary_expression(ident("b"), "||", ident("c")),
        "&&",
        GnExpr::new_unary_expression("!", ident("d")),
    );
    assert_eq!(gn_expr(&chars_of("b||c&&!d"), 0, DEFAULT_MAX_DEPTH), Ok((expected, 8)));
}

#[test]
fn the_longer_operator_is_taken() {
    let ops = ["+", "-", "<", "<=", ">", ">=", "==", "!=", "&&", "||"];
    for op in ops.iter() {
        let src = format!("a {} 1", op);
        let expected = GnExpr::new_binary_expression(ident("a"), op, GnExpr::new_integer(1));
        assert_eq!(
            gn_expr(&chars_of(&src), 0, DEFAULT_MAX_DEPTH),
            Ok((expected, src.chars().count()))
        );
    }
    assert_eq!(gn_binary_op(&chars_of("<=x"), 0), Ok((String::from("<="), 2)));
    assert_eq!(gn_binary_op(&chars_of("<x"), 0), Ok((String::from("<"), 1)));
    assert_eq!(gn_binary_op(&chars_of("=x"), 0), Err(GnError::StructuralMismatch { position: 0 }));
    assert_eq!(gn_binary_op(&chars_of("*"), 0), Err(GnError::StructuralMismatch { position: 0 }));
}

#[test]
fn an_expression_ends_before_what_is_no_operator() {
    assert_eq!(gn_expr(&chars_of("a b"), 0, DEFAULT_MAX_DEPTH), Ok((ident("a"), 1)));
    assert_eq!(gn_expr(&chars_of("3*3"), 0, DEFAULT_MAX_DEPTH), Ok((GnExpr::new_integer(3), 1)));
    assert_eq!(
        gn_expr(&chars_of("a + ]"), 0, DEFAULT_MAX_DEPTH),
        Err(GnError::StructuralMismatch { position: 4 })
    );
}

#[test]
fn parentheses_group_and_leave_no_node() {
    let expected = GnExpr::new_binary_expression(
        ident("a"),
        "-",
        GnExpr::new_binary_expression(ident("b"), "-", ident("c")),
    );
    assert_eq!(gn_expr(&chars_of("a - (b - c)"), 0, DEFAULT_MAX_DEPTH), Ok((expected, 11)));
    assert_eq!(
        gn_parenthesized_expr(&chars_of("( x )"), 0, DEFAULT_MAX_DEPTH),
        Ok((ident("x"), 5))
    );
    assert_eq!(
        gn_parenthesized_expr(&chars_of("(x"), 0, DEFAULT_MAX_DEPTH),
        Err(GnError::Incomplete)
    );
    assert_eq!(
        gn_parenthesized_expr(&chars_of("(x]"), 0, DEFAULT_MAX_DEPTH),
        Err(GnError::StructuralMismatch { position: 2 })
    );
}

#[test]
fn lists_hold_primary_expressions() {
    assert_eq!(
        gn_bracketed_expression_list(&chars_of("[a \"b\" , 3,[ ], ]"), 0, DEFAULT_MAX_DEPTH),
        Ok((list(vec![ident("a"), text("b"), GnExpr::new_integer(3), list(vec![])]), 17))
    );
    assert_eq!(
        gn_bracketed_expression_list(&chars_of("[a + b]"), 0, DEFAULT_MAX_DEPTH),
        Err(GnError::StructuralMismatch { position: 3 })
    );
    assert_eq!(
        gn_bracketed_expression_list(&chars_of("[,]"), 0, DEFAULT_MAX_DEPTH),
        Err(GnError::StructuralMismatch { position: 1 })
    );
}

#[test]
fn arguments_are_separated_by_commas() {
    assert_eq!(
        gn_expr_list(&chars_of("a, 1 + 2 ,\"c\")"), 0, DEFAULT_MAX_DEPTH),
        Ok((
            list(vec![
                ident("a"),
                GnExpr::new_binary_expression(GnExpr::new_integer(1), "+", GnExpr::new_integer(2)),
                text("c")
            ]),
            13
        ))
    );
    assert_eq!(gn_expr_list(&chars_of(")"), 0, DEFAULT_MAX_DEPTH), Ok((list(vec![]), 0)));
    assert_eq!(
        gn_expr_list(&chars_of("a,)"), 0, DEFAULT_MAX_DEPTH),
        Err(GnError::StructuralMismatch { position: 2 })
    );
    assert_eq!(gn_expr_list(&chars_of("a,"), 0, DEFAULT_MAX_DEPTH), Err(GnError::Incomplete));
}

#[test]
fn statements_are_assignments_and_calls() {
    assert_eq!(
        gn_statement(&chars_of("a += [1]"), 0, DEFAULT_MAX_DEPTH),
        Ok((assign("a", "+=", list(vec![GnExpr::new_integer(1)])), 8))
    );
    assert_eq!(
        gn_statement(&chars_of("a -= 1"), 0, DEFAULT_MAX_DEPTH),
        Ok((assign("a", "-=", GnExpr::new_integer(1)), 6))
    );
    assert_eq!(
        gn_statement(&chars_of("a + 1"), 0, DEFAULT_MAX_DEPTH),
        Err(GnError::StructuralMismatch { position: 2 })
    );
    assert_eq!(
        parse("outer(\"x\") { inner(1, 2) { a = b } c = d }"),
        Ok(list(vec![GnExpr::new_call(GnCall {
            name: String::from("outer"),
            params: Box::new(list(vec![text("x")])),
            block: Some(Box::new(list(vec![
                GnExpr::new_call(GnCall {
                    name: String::from("inner"),
                    params: Box::new(list(vec![GnExpr::new_integer(1), GnExpr::new_integer(2)])),
                    block: Some(Box::new(list(vec![assign("a", "=", ident("b"))]))),
                }),
                assign("c", "=", ident("d")),
            ]))),
        })]))
    );
}

#[test]
fn integers_fit_sixty_four_bits() {
    assert_eq!(
        gn_integer(&chars_of("9223372036854775807"), 0),
        Ok((9223372036854775807i64, 19))
    );
    assert_eq!(
        gn_integer(&chars_of("-9223372036854775807"), 0),
        Ok((-9223372036854775807i64, 20))
    );
    assert_eq!(
        gn_integer(&chars_of("9223372036854775808"), 0),
        Err(GnError::StructuralMismatch { position: 0 })
    );
    assert_eq!(
        gn_integer(&chars_of(" -9223372036854775808"), 0),
        Err(GnError::StructuralMismatch { position: 1 })
    );
    assert_eq!(
        gn_integer(&chars_of("99999999999999999999999999"), 0),
        Err(GnError::StructuralMismatch { position: 0 })
    );
    assert_eq!(gn_integer(&chars_of("007x"), 0), Ok((7, 3)));
    assert_eq!(gn_integer(&chars_of("-0"), 0), Ok((0, 2)));
    assert_eq!(gn_integer(&chars_of("-x"), 0), Err(GnError::StructuralMismatch { position: 0 }));
    assert_eq!(gn_integer(&chars_of("- 4"), 0), Err(GnError::StructuralMismatch { position: 0 }));
}

#[test]
fn to_integer_reads_sign_and_digits() {
    assert_eq!(to_integer(false, &chars_of("33")), Some(33));
    assert_eq!(to_integer(true, &chars_of("44")), Some(-44));
    assert_eq!(to_integer(false, &chars_of("")), Some(0));
    assert_eq!(to_integer(true, &chars_of("9223372036854775808")), None);
}

#[test]
fn whitespace_is_skipped_before_every_token() {
    let src = "\n\tf (\r\n \"x\" ,  y )\n{\n  a\t=\n1 }  \n";
    assert_eq!(
        parse(src),
        Ok(list(vec![GnExpr::new_call(GnCall {
            name: String::from("f"),
            params: Box::new(list(vec![text("x"), ident("y")])),
            block: Some(Box::new(list(vec![assign("a", "=", GnExpr::new_integer(1))]))),
        })]))
    );
    assert_eq!(gn_identifier(&chars_of("  one two"), 0), Ok((String::from("one"), 5)));
    assert_eq!(gn_identifier(&chars_of("one two"), 3), Ok((String::from("two"), 7)));
}

#[test]
fn strings_are_taken_as_they_stand() {
    assert_eq!(gn_string(&chars_of("\"a\\n b\" x"), 0), Ok((String::from("a\\n b"), 7)));
    assert_eq!(gn_string(&chars_of("\"\""), 0), Ok((String::new(), 2)));
    assert_eq!(gn_string(&chars_of("\"gr\u{fc}\u{df}e \u{4e16}\""), 0), Ok((String::from("gr\u{fc}\u{df}e \u{4e16}"), 9)));
    assert_eq!(gn_string(&chars_of("x"), 0), Err(GnError::StructuralMismatch { position: 0 }));
    assert_eq!(chars_of("a\u{4e16}b"), vec!['a', '\u{4e16}', 'b']);
}

#[test]
fn every_name_parses_to_its_identifier() {
    for name in ["a", "_", "Plan9", "_errno", "a_b_C_0", "z9_"].iter() {
        let chars = chars_of(name);
        assert_eq!(gn_identifier(&chars, 0), Ok((String::from(*name), chars.len())));
        assert_eq!(gn_primary_expr(&chars, 0, 0), Ok((ident(name), chars.len())));
        assert_eq!(gn_unary_expr(&chars, 0, 0), Ok((ident(name), chars.len())));
        assert_eq!(gn_expr(&chars, 0, 0), Ok((ident(name), chars.len())));
    }
    for text in ["7words", "0", "9_"].iter() {
        assert_eq!(
            gn_identifier(&chars_of(text), 0),
            Err(GnError::StructuralMismatch { position: 0 })
        );
    }
}

#[test]
fn a_written_tree_parses_to_itself() {
    let tree = list(vec![
        assign("sources", "=", list(vec![text("a.fidl"), text("b.fidl")])),
        GnExpr::new_call(GnCall {
            name: String::from("deps"),
            params: Box::new(list(vec![GnExpr::new_binary_expression(
                ident("x"),
                "<=",
                GnExpr::new_unary_expression("!", GnExpr::new_integer(-4)),
            )])),
            block: Some(Box::new(list(vec![]))),
        }),
    ]);
    let written = "\nsources=[\"a.fidl\",\"b.fidl\",]\ndeps(x<=!-4){}";
    assert_eq!(parse(written).as_ref(), Ok(&tree));
    assert_eq!(parse_chars(&chars_of(written), 2).as_ref(), Ok(&tree));
    let spaced = "sources = [\"a.fidl\", \"b.fidl\", ]\ndeps(x <= !-4) {\n}\n";
    assert_eq!(parse(spaced), Ok(tree));
}
