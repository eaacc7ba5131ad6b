use flatjson::ast::{Expression, JsonValue};
use flatjson::errors::ParseError;
use flatjson::parsing::{parse, ParseContext};
use flatjson::tokens::{process_str, Token};

fn object_children(r: Result<Expression, ParseError>) -> Vec<Expression> {
    match r {
        Ok(Expression::Object(o)) => o.expressions,
        other => panic!("expected an object, got {:?}", other),
    }
}

fn scalar_of(e: &Expression) -> JsonValue {
    match e {
        Expression::PropertyAssignment(pa) => pa.value.value.clone(),
        other => panic!("expected an assignment, got {:?}", other),
    }
}

#[test]
fn parsecontext_does_not_advance_empty_tokens() {
    let mut pc = ParseContext::new(Vec::new());

    let result = pc.advance();

    assert!(!result);
    assert_eq!(pc.current(), None)
}

#[test]
fn parse_returns_err_if_not_start_object_or_array() {
    let tokens = vec![Token::Whitespace(' ')];

    match parse(tokens) {
        Err(e) => assert!(matches!(e, ParseError::UnexpectedToken(_))),
        _ => assert!(false),
    }
}

#[test]
fn parse_returns_err_empty_tokens() {
    match parse(Vec::new()) {
        Err(ParseError::UnexpectedEndOfInput(u)) => {
            assert_eq!((u.line, u.pos), (0, 0));
        },
        other => panic!("expected end-of-input, got {:?}", other),
    }
}

#[test]
fn parse_returns_err_if_start_close_curly_brace() {
    assert!(matches!(
        parse(vec![Token::CloseCurlyBrace]),
        Err(ParseError::UnexpectedToken(_))
    ));
}

#[test]
fn parse_returns_err_if_start_close_square_brace() {
    assert!(matches!(
        parse(vec![Token::CloseSquareBrace]),
        Err(ParseError::UnexpectedToken(_))
    ));
}

#[test]
fn parse_returns_err_if_start_open_parens() {
    assert!(matches!(
        parse(vec![Token::OpenParenthesis]),
        Err(ParseError::UnexpectedToken(_))
    ));
}

#[test]
fn parse_returns_err_if_start_close_parens() {
    assert!(matches!(
        parse(vec![Token::CloseParenthesis]),
        Err(ParseError::UnexpectedToken(_))
    ));
}

#[test]
fn parse_returns_err_if_start_quote() {
    assert!(matches!(parse(vec![Token::Quote]), Err(ParseError::UnexpectedToken(_))));
}

#[test]
fn parse_returns_err_if_start_comma() {
    assert!(matches!(parse(vec![Token::Comma]), Err(ParseError::UnexpectedToken(_))));
}

#[test]
fn parse_returns_err_if_start_colon() {
    assert!(matches!(parse(vec![Token::Colon]), Err(ParseError::UnexpectedToken(_))));
}

#[test]
fn parse_open_square_brace_gives_stub_array() {
    match parse(vec![Token::OpenSquareBrace]) {
        Ok(Expression::Array(_)) => (),
        other => panic!("expected the stub array, got {:?}", other),
    }
}

#[test]
fn negative_number_parses_signed() {
    let children = object_children(parse(process_str("{\"n\": -123}")));
    assert_eq!(children.len(), 1);
    assert_eq!(scalar_of(&children[0]), JsonValue::Number(-123));
}

#[test]
fn negative_number_keeps_terminator_for_object() {
    // The close brace the number production rewound must still terminate
    // the object: a trailing comma child after the number proves the
    // queue was intact.
    let children = object_children(parse(process_str("{\"n\": -123,\"m\": 4}")));
    assert_eq!(children.len(), 3);
    assert!(matches!(children[1], Expression::Comma(_)));
    assert_eq!(scalar_of(&children[2]), JsonValue::Number(4));
}

#[test]
fn name_must_not_start_with_digit() {
    match parse(process_str("{\"1abc\": 1}")) {
        Err(ParseError::UnexpectedToken(u)) => {
            assert_eq!(u.token, Token::Digit(1));
            assert_eq!((u.line, u.pos), (0, 3));
        },
        other => panic!("expected an unexpected-token error, got {:?}", other),
    }
}

#[test]
fn digit_allowed_after_letter_in_name() {
    let children = object_children(parse(process_str("{\"a1\": 2}")));
    assert_eq!(children.len(), 1);
    match &children[0] {
        Expression::PropertyAssignment(pa) => assert_eq!(pa.name.name, "a1"),
        other => panic!("expected an assignment, got {:?}", other),
    }
}

#[test]
fn premature_termination_is_end_of_input() {
    assert!(matches!(
        parse(process_str("{\"foo\": 1")),
        Err(ParseError::UnexpectedEndOfInput(_))
    ));
}

#[test]
fn string_value_parses_verbatim() {
    let children = object_children(parse(process_str("{\"foo\": \"bar baz7\"}")));
    assert_eq!(scalar_of(&children[0]), JsonValue::String(String::from("bar baz7")));
}

#[test]
fn boolean_literals_parse() {
    let children = object_children(parse(process_str("{\"t\": true,\"f\": false}")));
    assert_eq!(scalar_of(&children[0]), JsonValue::Boolean(true));
    assert_eq!(scalar_of(&children[2]), JsonValue::Boolean(false));
}

#[test]
fn invalid_boolean_literal_is_rejected() {
    match parse(process_str("{\"t\": trux}")) {
        Err(ParseError::InvalidLiteral(u)) => assert_eq!(u.literal, "trux"),
        other => panic!("expected an invalid-literal error, got {:?}", other),
    }
}

#[test]
fn boolean_needs_comma_or_close_brace() {
    assert!(matches!(
        parse(process_str("{\"t\": true }")),
        Err(ParseError::UnexpectedToken(_))
    ));
}

#[test]
fn number_stops_at_unexpected_token() {
    match parse(process_str("{\"n\": 12x}")) {
        Err(ParseError::UnexpectedToken(u)) => assert_eq!(u.token, Token::Character('x')),
        other => panic!("expected an unexpected-token error, got {:?}", other),
    }
}

#[test]
fn negative_sign_needs_digit() {
    assert!(matches!(
        parse(process_str("{\"n\": -x}")),
        Err(ParseError::UnexpectedToken(_))
    ));
}

#[test]
fn digits_wrap_like_sixty_four_bit_arithmetic() {
    let children = object_children(parse(process_str("{\"n\": 9223372036854775808}")));
    assert_eq!(scalar_of(&children[0]), JsonValue::Number(i64::MIN));
}

#[test]
fn minimum_integer_round_trips_through_digits() {
    let children = object_children(parse(process_str("{\"n\": -9223372036854775808}")));
    assert_eq!(scalar_of(&children[0]), JsonValue::Number(i64::MIN));
}

#[test]
fn whitespace_children_are_preserved() {
    let children = object_children(parse(process_str("{ \t\n}")));
    assert_eq!(children.len(), 3);
    assert!(matches!(&children[0], Expression::Whitespace(w) if w.get_char() == ' '));
    assert!(matches!(&children[1], Expression::Whitespace(w) if w.get_char() == '\t'));
    assert!(matches!(&children[2], Expression::Whitespace(w) if w.get_char() == '\n'));
}

#[test]
fn error_position_counts_lines_and_columns() {
    match parse(process_str("{\n  &}")) {
        Err(ParseError::UnexpectedToken(u)) => {
            assert_eq!(u.token, Token::Unknown('&'));
            assert_eq!((u.line, u.pos), (1, 3));
        },
        other => panic!("expected an unexpected-token error, got {:?}", other),
    }
}

#[test]
fn advance_tracks_lines_and_columns() {
    let mut pc = ParseContext::new(process_str("a\nb"));
    assert!(pc.advance());
    assert_eq!((pc.line(), pc.pos()), (0, 1));
    assert!(pc.advance());
    assert_eq!((pc.line(), pc.pos()), (1, 0));
    assert!(pc.advance());
    assert_eq!((pc.line(), pc.pos()), (1, 1));
    assert!(!pc.advance());
    assert_eq!(pc.current(), Some(Token::Character('b')));
}

#[test]
fn name_tolerates_whitespace_after_closing_quote() {
    let children = object_children(parse(process_str("{\"a\" : 1}")));
    match &children[0] {
        Expression::PropertyAssignment(pa) => assert_eq!(pa.name.name, "a"),
        other => panic!("expected an assignment, got {:?}", other),
    }
}

#[test]
fn name_rejects_whitespace_inside_quotes() {
    assert!(matches!(
        parse(process_str("{\" a\": 1}")),
        Err(ParseError::UnexpectedToken(_))
    ));
}

#[test]
fn rewind_restores_one_token_only() {
    let mut pc = ParseContext::new(process_str("ab"));
    assert!(!pc.rewind());
    assert!(pc.advance());
    assert_eq!(pc.current(), Some(Token::Character('a')));
    assert!(pc.rewind());
    assert_eq!(pc.current(), None);
    assert!(!pc.rewind());
    assert!(pc.advance());
    assert_eq!(pc.current(), Some(Token::Character('a')));
}
