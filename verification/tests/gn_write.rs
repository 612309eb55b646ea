use fargo::gn::ast::{GnCall, GnExpr};
use fargo::gn::parser::{gn_expr, parse, parse_with_max_depth, DEFAULT_MAX_DEPTH};
use fargo::gn::writer::{write_expression, write_tree};
use fargo::text::chars_of;

fn name(text: &str) -> GnExpr {
    GnExpr::new_identifier_from_string(text.to_owned())
}

#[test]
fn a_tree_is_written_line_by_line() {
    let tree = GnExpr::new_statement_list(vec![
        GnExpr::new_assignment(
            name("sources"),
            "=",
            GnExpr::new_expression_list_from_vec(vec![
                GnExpr::new_string_from_str("a.fidl"),
                GnExpr::new_string_from_str("b.fidl"),
            ]),
        ),
        GnExpr::new_call(GnCall {
            name: String::from("deps"),
            params: Box::new(GnExpr::new_expression_list_from_vec(vec![
                GnExpr::new_binary_expression(
                    name("x"),
                    "<=",
                    GnExpr::new_unary_expression("!", GnExpr::new_integer(-4)),
                ),
                GnExpr::new_integer(7),
            ])),
            block: Some(Box::new(GnExpr::new_statement_list(vec![GnExpr::new_assignment(
                name("a"),
                "+=",
                GnExpr::new_integer(1),
            )]))),
        }),
        GnExpr::new_call(GnCall {
            name: String::from("f"),
            params: Box::new(GnExpr::new_expression_list_from_vec(vec![])),
            block: None,
        }),
    ]);
    let written = write_tree(&tree);
    assert_eq!(written, "\nsources=[\"a.fidl\",\"b.fidl\",]\ndeps(x<=!-4,7){\na+=1}\nf()");
    assert_eq!(parse(&written), Ok(tree));
}

#[test]
fn operands_get_parentheses_where_needed() {
    let inner = GnExpr::new_binary_expression(name("b"), "-", name("c"));
    let tree = GnExpr::new_binary_expression(
        GnExpr::new_binary_expression(name("a"), "+", GnExpr::new_integer(2)),
        "-",
        inner,
    );
    assert_eq!(write_expression(&tree), "a+2-(b-c)");
    let tree = GnExpr::new_unary_expression(
        "!",
        GnExpr::new_binary_expression(name("a"), "&&", name("b")),
    );
    assert_eq!(write_expression(&tree), "!(a&&b)");
    let tree = GnExpr::new_expression_list_from_vec(vec![GnExpr::new_unary_expression(
        "!",
        name("a"),
    )]);
    assert_eq!(write_expression(&tree), "[(!a),]");
    let written = write_expression(&tree);
    assert_eq!(gn_expr(&chars_of(&written), 0, DEFAULT_MAX_DEPTH), Ok((tree, 7)));
}

#[test]
fn integers_are_written_in_decimal() {
    assert_eq!(write_expression(&GnExpr::new_integer(0)), "0");
    assert_eq!(write_expression(&GnExpr::new_integer(9)), "9");
    assert_eq!(write_expression(&GnExpr::new_integer(10)), "10");
    assert_eq!(write_expression(&GnExpr::new_integer(-1)), "-1");
    assert_eq!(write_expression(&GnExpr::new_integer(1234567890)), "1234567890");
    assert_eq!(write_expression(&GnExpr::new_integer(i64::MAX)), "9223372036854775807");
    assert_eq!(write_expression(&GnExpr::new_integer(i64::MIN)), "-9223372036854775808");
    assert_eq!(write_expression(&GnExpr::new_integer(i64::MIN + 1)), "-9223372036854775807");
}

#[test]
fn what_is_no_statement_list_is_written_empty() {
    assert_eq!(write_tree(&name("a")), "");
    assert_eq!(write_tree(&GnExpr::new_statement_list(vec![])), "");
    assert_eq!(write_tree(&GnExpr::new_statement_list(vec![name("a")])), "");
}

#[test]
fn parsing_what_was_written_gives_the_tree_back() {
    let sources = [
        "",
        "a = 1",
        "a = b + c - d",
        "a = (b + c) - (d - e)",
        "a = !!b",
        "a = !(b == c) || d",
        "a = [1, [2, [3, \"x\"]], (y), (z < 1)]",
        "a = -9223372036854775807 b -= 0",
        "fidl(\"input\") {\n  sources = [\n    \"a.fidl\",\n  ]\n  public_deps = [ \"//pkg/a\", ]\n}\n",
        "outer() { inner(a, 1 + 2, [b]) { x = y } z += (1) } last(\"s\")",
    ];
    for src in sources.iter() {
        let tree = parse(src).unwrap();
        let written = write_tree(&tree);
        assert_eq!(parse(&written).as_ref(), Ok(&tree), "{}", written);
        assert_eq!(write_tree(&parse(&written).unwrap()), written);
    }
}

#[test]
fn the_limit_that_read_a_tree_reads_it_back() {
    let src = "a = [[(b)]] f(!c) { d = [e] }";
    for depth in 0..6 {
        match parse_with_max_depth(src, depth) {
            Ok(tree) => {
                assert!(depth >= 3);
                assert_eq!(parse_with_max_depth(&write_tree(&tree), depth), Ok(tree));
            }
            Err(e) => {
                assert!(depth < 3);
                assert_eq!(e, fargo::gn::grammar::GnError::DepthExceeded);
            }
        }
    }
}
