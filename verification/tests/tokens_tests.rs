use flatjson::tokens::{process_str, Token};

#[test]
fn test_open_parens() {
    assert_eq!(Token::from('('), Token::OpenParenthesis);
}

#[test]
fn test_close_parens() {
    assert_eq!(Token::from(')'), Token::CloseParenthesis);
}

#[test]
fn test_open_curly_brace() {
    assert_eq!(Token::from('{'), Token::OpenCurlyBrace);
}

#[test]
fn test_close_curly_brace() {
    assert_eq!(Token::from('}'), Token::CloseCurlyBrace);
}

#[test]
fn test_open_square_brace() {
    assert_eq!(Token::from('['), Token::OpenSquareBrace);
}

#[test]
fn test_close_square_brace() {
    assert_eq!(Token::from(']'), Token::CloseSquareBrace);
}

#[test]
fn test_white_space() {
    assert_eq!(Token::from(' '), Token::Whitespace(' '));
}

#[test]
fn test_newline() {
    assert_eq!(Token::from('\n'), Token::Whitespace('\n'));
}

#[test]
fn test_tab() {
    assert_eq!(Token::from('\t'), Token::Whitespace('\t'));
}

#[test]
fn test_colon() {
    assert_eq!(Token::from(':'), Token::Colon);
}

#[test]
fn test_comma() {
    assert_eq!(Token::from(','), Token::Comma);
}

#[test]
fn test_neg_sign() {
    assert_eq!(Token::from('-'), Token::NegativeSign);
}

#[test]
fn test_digits() {
    for (i, c) in ('0'..='9').enumerate() {
        assert_eq!(Token::from(c), Token::Digit(i as u8));
    }
}

#[test]
fn test_lower_letters() {
    for c in 'a'..='z' {
        assert_eq!(Token::from(c), Token::Character(c));
    }
}

#[test]
fn test_upper_letters() {
    for c in 'A'..='Z' {
        assert_eq!(Token::from(c), Token::Character(c));
    }
}

#[test]
fn test_ampersand_unk() {
    assert_eq!(Token::from('&'), Token::Unknown('&'));
}

#[test]
fn test_caret_unk() {
    assert_eq!(Token::from('^'), Token::Unknown('^'));
}

#[test]
fn token_constructors() {
    assert_eq!(Token::newline(), Token::Whitespace('\n'));
    assert_eq!(Token::space(), Token::Whitespace(' '));
    assert_eq!(Token::tab(), Token::Whitespace('\t'));
}

#[test]
fn token_to_char_round() {
    assert_eq!(char::from(&Token::OpenCurlyBrace), '{');
    assert_eq!(char::from(&Token::Quote), '"');
    assert_eq!(char::from(&Token::Character('x')), 'x');
    assert_eq!(char::from(&Token::Whitespace('\t')), '\t');
    assert_eq!(char::from(&Token::Unknown('%')), '%');
}

#[test]
fn process_str_is_total_and_positional() {
    let input = "{\"a\": 1}&^\u{263a}";
    let tokens = process_str(input);
    assert_eq!(tokens.len(), input.chars().count());
    assert_eq!(tokens[0], Token::OpenCurlyBrace);
    assert_eq!(tokens[tokens.len() - 1], Token::Unknown('\u{263a}'));
}

#[test]
fn hello_world_theory() {
    assert_eq!(
        process_str("{\"hello\": \"world\"}"),
        vec![
            Token::OpenCurlyBrace,
            Token::Quote,
            Token::Character('h'),
            Token::Character('e'),
            Token::Character('l'),
            Token::Character('l'),
            Token::Character('o'),
            Token::Quote,
            Token::Colon,
            Token::Whitespace(' '),
            Token::Quote,
            Token::Character('w'),
            Token::Character('o'),
            Token::Character('r'),
            Token::Character('l'),
            Token::Character('d'),
            Token::Quote,
            Token::CloseCurlyBrace,
        ]
    );
}

#[test]
fn first_name_theory() {
    assert_eq!(
        process_str("{\"firstName\": \"{{firstName()}}\"}"),
        vec![
            Token::OpenCurlyBrace,
            Token::Quote,
            Token::Character('f'),
            Token::Character('i'),
            Token::Character('r'),
            Token::Character('s'),
            Token::Character('t'),
            Token::Character('N'),
            Token::Character('a'),
            Token::Character('m'),
            Token::Character('e'),
            Token::Quote,
            Token::Colon,
            Token::Whitespace(' '),
            Token::Quote,
            Token::OpenCurlyBrace,
            Token::OpenCurlyBrace,
            Token::Character('f'),
            Token::Character('i'),
            Token::Character('r'),
            Token::Character('s'),
            Token::Character('t'),
            Token::Character('N'),
            Token::Character('a'),
            Token::Character('m'),
            Token::Character('e'),
            Token::OpenParenthesis,
            Token::CloseParenthesis,
            Token::CloseCurlyBrace,
            Token::CloseCurlyBrace,
            Token::Quote,
            Token::CloseCurlyBrace,
        ]
    );
}

#[test]
fn complex_tag_theory() {
    assert_eq!(
        process_str("{\"x\": \"{{foo(true, -123, \"hello\")}}\"}"),
        vec![
            Token::OpenCurlyBrace,
            Token::Quote,
            Token::Character('x'),
            Token::Quote,
            Token::Colon,
            Token::Whitespace(' '),
            Token::Quote,
            Token::OpenCurlyBrace,
            Token::OpenCurlyBrace,
            Token::Character('f'),
            Token::Character('o'),
            Token::Character('o'),
            Token::OpenParenthesis,
            Token::Character('t'),
            Token::Character('r'),
            Token::Character('u'),
            Token::Character('e'),
            Token::Comma,
            Token::Whitespace(' '),
            Token::NegativeSign,
            Token::Digit(1),
            Token::Digit(2),
            Token::Digit(3),
            Token::Comma,
            Token::Whitespace(' '),
            Token::Quote,
            Token::Character('h'),
            Token::Character('e'),
            Token::Character('l'),
            Token::Character('l'),
            Token::Character('o'),
            Token::Quote,
            Token::CloseParenthesis,
            Token::CloseCurlyBrace,
            Token::CloseCurlyBrace,
            Token::Quote,
            Token::CloseCurlyBrace,
        ]
    );
}
