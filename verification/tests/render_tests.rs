use flatjson::ast::{
    CommaExpression, Expression, JsonArrayExpression, JsonObjectExpression, JsonValue,
    NameExpression, NewlineExpression, PropertyAssignmentExpression, ValueExpression,
    WhitespaceExpression,
};
use flatjson::parsing::parse;
use flatjson::tokens::process_str;
use flatjson::visitor::{ExpressionVisitor, JsonExpressionVisitor};

fn new_prop_assignment(name: &str, value: JsonValue) -> PropertyAssignmentExpression {
    PropertyAssignmentExpression::new(
        NameExpression::new(String::from(name)),
        ValueExpression::new(value),
    )
}

fn rendered(expr: &Expression) -> String {
    let mut v = JsonExpressionVisitor::new();
    expr.accept(&mut v);
    String::from(v.get_json())
}

#[test]
fn number_assignment() {
    let expr = Expression::PropertyAssignment(new_prop_assignment("foo", JsonValue::Number(1)));
    assert_eq!("\"foo\": 1", rendered(&expr));
}

#[test]
fn string_assignment() {
    let expr = Expression::PropertyAssignment(new_prop_assignment(
        "foo",
        JsonValue::String(String::from("bar")),
    ));
    assert_eq!("\"foo\": \"bar\"", rendered(&expr));
}

#[test]
fn bool_assignment() {
    let expr = Expression::PropertyAssignment(new_prop_assignment("foo", JsonValue::Boolean(true)));
    assert_eq!("\"foo\": true", rendered(&expr));
}

#[test]
fn comma_expression() {
    assert_eq!(",", rendered(&Expression::Comma(CommaExpression::new())));
}

#[test]
fn newline_expression() {
    assert_eq!("\n", rendered(&Expression::Whitespace(WhitespaceExpression::new('\n'))));
}

#[test]
fn tab_expression() {
    assert_eq!("\t", rendered(&Expression::Whitespace(WhitespaceExpression::new('\t'))));
}

#[test]
fn whitespace_expression() {
    assert_eq!(" ", rendered(&Expression::Whitespace(WhitespaceExpression::new(' '))));
}

#[test]
fn array_expression_renders_empty_brackets() {
    assert_eq!("[]", rendered(&Expression::Array(JsonArrayExpression::new())));
}

#[test]
fn newline_marker_constructs() {
    assert_eq!(NewlineExpression::new(), NewlineExpression::new());
}

fn single_prop_object(value: JsonValue) -> Expression {
    let mut obj = JsonObjectExpression::new();
    obj.add_expr(Expression::Whitespace(WhitespaceExpression::new('\n')));
    obj.add_expr(Expression::Whitespace(WhitespaceExpression::new('\t')));
    obj.add_expr(Expression::PropertyAssignment(new_prop_assignment("foo", value)));
    obj.add_expr(Expression::Whitespace(WhitespaceExpression::new('\n')));
    Expression::Object(obj)
}

#[test]
fn single_prop_string_object_expression() {
    let expr = single_prop_object(JsonValue::String(String::from("bar")));
    assert_eq!("{\n\t\"foo\": \"bar\"\n}", rendered(&expr));
}

#[test]
fn single_prop_number_object_expression() {
    let expr = single_prop_object(JsonValue::Number(500));
    assert_eq!("{\n\t\"foo\": 500\n}", rendered(&expr));
}

#[test]
fn single_prop_bool_object_expression() {
    let expr = single_prop_object(JsonValue::Boolean(true));
    assert_eq!("{\n\t\"foo\": true\n}", rendered(&expr));
}

#[test]
fn extreme_numbers_render_in_decimal() {
    assert_eq!(
        "\"n\": -9223372036854775808",
        rendered(&Expression::PropertyAssignment(new_prop_assignment(
            "n",
            JsonValue::Number(i64::MIN)
        )))
    );
    assert_eq!(
        "\"n\": 9223372036854775807",
        rendered(&Expression::PropertyAssignment(new_prop_assignment(
            "n",
            JsonValue::Number(i64::MAX)
        )))
    );
    assert_eq!(
        "\"n\": 0",
        rendered(&Expression::PropertyAssignment(new_prop_assignment("n", JsonValue::Number(0))))
    );
}

#[test]
fn rendering_is_idempotent() {
    let expr = single_prop_object(JsonValue::String(String::from("bar")));
    let mut first = JsonExpressionVisitor::new();
    let mut second = JsonExpressionVisitor::new();
    expr.accept(&mut first);
    expr.accept(&mut second);
    assert_eq!(first.get_json(), second.get_json());
}

#[test]
fn flat_object_round_trip_reproduces_source() {
    let source = "{\n\t\"foo\": \"bar\"\n}";
    let tree = parse(process_str(source)).unwrap();
    assert_eq!(source, rendered(&tree));
}

#[test]
fn round_trip_with_every_scalar_kind() {
    let source = "{\"foo\": \"bar\", \"baz\": -123,\"ok\": true,\"n\": 5}";
    let tree = parse(process_str(source)).unwrap();
    assert_eq!(source, rendered(&tree));
}

#[test]
fn rendering_canonicalizes_separator_spacing() {
    // Separator whitespace is not preserved: the renderer always emits
    // exactly one space after the colon.
    let tree = parse(process_str("{\"foo\":\t \"bar\"}")).unwrap();
    assert_eq!("{\"foo\": \"bar\"}", rendered(&tree));
}
