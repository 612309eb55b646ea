use fargo::gn::ast::{GnArrayAccess, GnCall, GnExpr, GnScopeAccess};
use fargo::gn::grammar::GnError;
use fargo::gn::lexer::{
    gn_assign_op, gn_binary_op, gn_identifier, gn_integer, gn_letter, gn_string, gn_unary_op,
};
use fargo::gn::parser::{
    gn_array_access, gn_assignment, gn_block, gn_call, gn_scope_access, gn_statement_list,
    gn_unary_expr, DEFAULT_MAX_DEPTH,
};
use fargo::text::chars_of;

const INPUT_FIDL: &str = r#"fidl("input") {
  sources = [
    "ime_service.fidl",
    "input_connection.fidl",
    "input_device_registry.fidl",
    "input_dispatcher.fidl",
    "input_event_constants.fidl",
    "input_events.fidl",
    "input_reports.fidl",
    "text_editing.fidl",
    "text_input.fidl",
    "usages.fidl",
  ]

  public_deps = [
    "//apps/mozart/services/geometry",
    "//apps/mozart/services/views:view_token",
  ]
}
"#;

const INPUT_FIDL_BLOCK: &str = r#"{
  sources = [
    "ime_service.fidl",
    "input_connection.fidl",
    "input_device_registry.fidl",
    "input_dispatcher.fidl",
    "input_event_constants.fidl",
    "input_events.fidl",
    "input_reports.fidl",
    "text_editing.fidl",
    "text_input.fidl",
    "usages.fidl",
  ]

  public_deps = [
    "//apps/mozart/services/geometry",
    "//apps/mozart/services/views:view_token",
  ]
}
"#;

const INPUT_FIDL_ASSIGNMENT: &str = r#"
  sources = [
    "ime_service.fidl",
    "input_connection.fidl",
    "input_device_registry.fidl",
    "input_dispatcher.fidl",
    "input_event_constants.fidl",
    "input_events.fidl",
    "input_reports.fidl",
    "text_editing.fidl",
    "text_input.fidl",
    "usages.fidl",
  ]
"#;

/// A successful match of `value` that leaves `rest` of `src` unread.
fn done<T>(src: &str, rest: &str, value: T) -> Result<(T, usize), GnError> {
    assert!(src.ends_with(rest));
    Ok((value, src.chars().count() - rest.chars().count()))
}

fn mismatch<T>(position: usize) -> Result<(T, usize), GnError> {
    Err(GnError::StructuralMismatch { position })
}

#[test]
fn test_parse_gn_letter() {
    assert_eq!(gn_letter(&chars_of("a"), 0), done("a", "", String::from("a")));
    assert_eq!(gn_letter(&chars_of("_"), 0), done("_", "", String::from("_")));
    assert_eq!(gn_letter(&chars_of("-"), 0), mismatch(0));
}

#[test]
fn test_parse_gn_identifier() {
    assert_eq!(gn_identifier(&chars_of("Plan9"), 0), done("Plan9", "", String::from("Plan9")));
    assert_eq!(gn_identifier(&chars_of("_errno"), 0), done("_errno", "", String::from("_errno")));
    assert_eq!(gn_identifier(&chars_of("7words"), 0), mismatch(0));
    assert_eq!(gn_identifier(&chars_of("one two"), 0), done("one two", " two", String::from("one")));
}

#[test]
fn test_parse_gn_assign_op() {
    assert_eq!(gn_assign_op(&chars_of("="), 0), done("=", "", String::from("=")), "testing =");
    assert_eq!(gn_assign_op(&chars_of("+="), 0), done("+=", "", String::from("+=")));
    assert_eq!(gn_assign_op(&chars_of("-="), 0), done("-=", "", String::from("-=")));
    assert_eq!(gn_assign_op(&chars_of("+"), 0), Err(GnError::Incomplete));
}

#[test]
fn test_parse_gn_unary_op() {
    assert_eq!(gn_unary_op(&chars_of("!"), 0), done("!", "", String::from("!")));
    assert_eq!(gn_unary_op(&chars_of("ahoy"), 0), mismatch(0));
}

#[test]
fn test_parse_gn_binary_op() {
    assert_eq!(gn_binary_op(&chars_of("=="), 0), done("==", "", String::from("==")));
    assert_eq!(gn_binary_op(&chars_of("<"), 0), done("<", "", String::from("<")));
    assert_eq!(gn_binary_op(&chars_of("+"), 0), done("+", "", String::from("+")));
    assert_eq!(gn_binary_op(&chars_of("?="), 0), mismatch(0));
}

#[test]
fn test_parse_gn_scope_access() {
    assert_eq!(
        gn_scope_access(&chars_of("dog.name"), 0),
        done(
            "dog.name",
            "",
            GnScopeAccess { scope: String::from("dog"), name: String::from("name") },
        )
    );
    assert_eq!(gn_scope_access(&chars_of("this=that"), 0), mismatch(4));
    assert_eq!(gn_scope_access(&chars_of("this."), 0), Err(GnError::Incomplete));
}

#[test]
fn test_gn_call() {
    let input_string = GnExpr::new_string("input".to_owned());
    let expressions = vec![input_string];
    let expression_list = GnExpr::new_expression_list_from_vec(expressions);
    let src = r#"fidl ( "input" )"#;
    assert_eq!(
        gn_call(&chars_of(src), 0, DEFAULT_MAX_DEPTH),
        done(
            src,
            "",
            GnCall { name: String::from("fidl"), params: Box::new(expression_list), block: None },
        )
    );
    assert_eq!(gn_call(&chars_of("this=that"), 0, DEFAULT_MAX_DEPTH), mismatch(4));
    let src = r#"with_block("this"){a=1}"#;
    let call_with_block = gn_call(&chars_of(src), 0, DEFAULT_MAX_DEPTH);
    let input_string = GnExpr::new_string("this".to_owned());
    let expressions = vec![input_string];
    let param_expression_list = GnExpr::new_expression_list_from_vec(expressions);
    let identifier = GnExpr::new_identifier_from_string("a".to_owned());
    let val_2 = GnExpr::new_integer(1);
    let assignment1 = GnExpr::new_assignment(identifier, "=", val_2);
    let block_expressions = vec![assignment1];
    let block_expression_list = GnExpr::new_expression_list_from_vec(block_expressions);
    let call = GnCall {
        name: String::from("with_block"),
        params: Box::new(param_expression_list),
        block: Some(Box::new(block_expression_list)),
    };
    assert_eq!(call_with_block, done(src, "", call));
}

#[test]
fn test_gn_string() {
    let src = r#""ahoy""#;
    assert_eq!(gn_string(&chars_of(src), 0), done(src, "", String::from("ahoy")));
    let src = r#""now is the time""#;
    assert_eq!(gn_string(&chars_of(src), 0), done(src, "", String::from("now is the time")));
}

#[test]
fn test_gn_integer() {
    assert_eq!(gn_integer(&chars_of("33"), 0), done("33", "", 33));
    assert_eq!(gn_integer(&chars_of("-44"), 0), done("-44", "", -44));
}

#[test]
fn test_gn_array_access() {
    let expr = GnExpr::new_integer(3);
    assert_eq!(
        gn_array_access(&chars_of("dog[3]"), 0, DEFAULT_MAX_DEPTH),
        done(
            "dog[3]",
            "",
            GnArrayAccess { identifier: "dog".to_owned(), expression: Box::new(expr) },
        )
    );
    assert_eq!(gn_array_access(&chars_of("dog[3*3]"), 0, DEFAULT_MAX_DEPTH), mismatch(5));
}

#[test]
fn test_gn_unary_expression() {
    let identifier = GnExpr::new_identifier_from_string("dog_age".to_owned());
    assert_eq!(
        gn_unary_expr(&chars_of("!dog_age"), 0, DEFAULT_MAX_DEPTH),
        done("!dog_age", "", GnExpr::new_unary_expression("!", identifier))
    );
    let identifier = GnExpr::new_identifier_from_string("dog_age".to_owned());
    assert_eq!(
        gn_unary_expr(&chars_of("!!dog_age"), 0, DEFAULT_MAX_DEPTH),
        done(
            "!!dog_age",
            "",
            GnExpr::new_unary_expression("!", GnExpr::new_unary_expression("!", identifier)),
        )
    );
}

#[test]
fn test_assignment() {
    let identifier = GnExpr::new_identifier_from_string("bork".to_owned());
    let val_3 = GnExpr::new_integer(3);
    let assignment = GnExpr::new_assignment(identifier, "=", val_3);
    assert_eq!(
        gn_assignment(&chars_of("bork = 3"), 0, DEFAULT_MAX_DEPTH),
        done("bork = 3", "", assignment)
    );

    let identifier = GnExpr::new_identifier_from_string("bork_list".to_owned());
    let borker_names =
        vec!["Fez", "Raz", "Skitch"].iter().map(|s| GnExpr::new_string_from_str(*s)).collect();
    let borkers = GnExpr::new_expression_list_from_vec(borker_names);
    let assignment = GnExpr::new_assignment(identifier, "=", borkers);
    let src = r#"bork_list = ["Fez","Raz","Skitch",]"#;
    assert_eq!(gn_assignment(&chars_of(src), 0, DEFAULT_MAX_DEPTH), done(src, "", assignment));

    let identifier = GnExpr::new_identifier_from_string("bork_list".to_owned());
    let borker_names =
        vec!["Fez", "Raz", "Skitch"].iter().map(|s| GnExpr::new_string_from_str(*s)).collect();
    let borkers = GnExpr::new_expression_list_from_vec(borker_names);
    let assignment = GnExpr::new_assignment(identifier, "=", borkers);
    let src = r#"bork_list = ["Fez","Raz","Skitch"]"#;
    assert_eq!(gn_assignment(&chars_of(src), 0, DEFAULT_MAX_DEPTH), done(src, "", assignment));

    let assignment = gn_assignment(&chars_of(INPUT_FIDL_ASSIGNMENT), 0, DEFAULT_MAX_DEPTH);
    assert!(assignment.is_ok());
}

#[test]
fn test_statement_list() {
    let src = r#"b=2 c=3"#;
    let list = gn_statement_list(&chars_of(src), 0, DEFAULT_MAX_DEPTH);
    let identifier = GnExpr::new_identifier_from_string("b".to_owned());
    let val_2 = GnExpr::new_integer(2);
    let assignment1 = GnExpr::new_assignment(identifier, "=", val_2);
    let identifier = GnExpr::new_identifier_from_string("c".to_owned());
    let val_3 = GnExpr::new_integer(3);
    let assignment2 = GnExpr::new_assignment(identifier, "=", val_3);
    let expected_list = GnExpr::new_statement_list(vec![assignment1, assignment2]);
    assert_eq!(list, done(src, "", expected_list));
}

#[test]
fn test_block() {
    let src = r#"{ b=2 c=3 }"#;
    let list = gn_block(&chars_of(src), 0, DEFAULT_MAX_DEPTH);
    let identifier = GnExpr::new_identifier_from_string("b".to_owned());
    let val_2 = GnExpr::new_integer(2);
    let assignment1 = GnExpr::new_assignment(identifier, "=", val_2);
    let identifier = GnExpr::new_identifier_from_string("c".to_owned());
    let val_3 = GnExpr::new_integer(3);
    let assignment2 = GnExpr::new_assignment(identifier, "=", val_3);
    let expected_list = GnExpr::new_statement_list(vec![assignment1, assignment2]);
    assert_eq!(list, done(src, "", expected_list));

    let list = gn_block(&chars_of(INPUT_FIDL_BLOCK), 0, DEFAULT_MAX_DEPTH);
    assert!(list.is_ok());
}

#[test]
fn test_src() {
    let list = gn_statement_list(&chars_of(INPUT_FIDL), 0, DEFAULT_MAX_DEPTH);
    assert!(list.is_ok());
    println!("list = {:?}", list);
}
