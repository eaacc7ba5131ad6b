//! The token model: the alphabet of lexical units and the total
//! character-to-token classification rule.
//!
//! Every input character maps to exactly one token; no character is rejected
//! at tokenization time. Multi-character units (numbers, words) are *not*
//! merged here: each character stands alone, and grouping is the parser's job.

use vstd::prelude::*;

verus! {

/// One lexical unit, produced from exactly one input character.
#[derive(Clone, Copy, Debug, PartialEq, Eq)]
pub enum Token {
    OpenParenthesis,
    CloseParenthesis,
    OpenCurlyBrace,
    CloseCurlyBrace,
    OpenSquareBrace,
    CloseSquareBrace,
    /// A single letter, `a`-`z` or `A`-`Z`.
    Character(char),
    /// A single decimal digit, stored as its numeric value 0-9.
    Digit(u8),
    Quote,
    Comma,
    Colon,
    NegativeSign,
    /// A literal whitespace character: space, tab, or newline.
    Whitespace(char),
    /// Any character not covered by the other variants.
    Unknown(char),
}

/// Whether `c` is one of the three whitespace characters the lexer knows.
pub open spec fn is_ws_char(c: char) -> bool {
    c == ' ' || c == '\t' || c == '\n'
}

/// Whether `c` is a decimal digit character.
pub open spec fn is_digit_char(c: char) -> bool {
    '0' <= c && c <= '9'
}

/// Whether `c` is an ASCII letter.
pub open spec fn is_letter_char(c: char) -> bool {
    ('a' <= c && c <= 'z') || ('A' <= c && c <= 'Z')
}

/// The numeric value of a digit character.
pub open spec fn digit_val(c: char) -> u8 {
    (c as u8 - '0' as u8) as u8
}

/// The classification table: which token one character becomes.
pub open spec fn token_of(c: char) -> Token {
    if c == '(' {
        Token::OpenParenthesis
    } else if c == ')' {
        Token::CloseParenthesis
    } else if c == '{' {
        Token::OpenCurlyBrace
    } else if c == '}' {
        Token::CloseCurlyBrace
    } else if c == '[' {
        Token::OpenSquareBrace
    } else if c == ']' {
        Token::CloseSquareBrace
    } else if is_ws_char(c) {
        Token::Whitespace(c)
    } else if is_digit_char(c) {
        Token::Digit(digit_val(c))
    } else if c == ',' {
        Token::Comma
    } else if c == ':' {
        Token::Colon
    } else if c == '"' {
        Token::Quote
    } else if c == '-' {
        Token::NegativeSign
    } else if is_letter_char(c) {
        Token::Character(c)
    } else {
        Token::Unknown(c)
    }
}

/// The character a token prints as; the inverse of classification on
/// every variant except `Digit`, whose stored numeric value is read back
/// as a code point.
pub open spec fn char_of(t: Token) -> char {
    match t {
        Token::OpenParenthesis => '(',
        Token::CloseParenthesis => ')',
        Token::OpenCurlyBrace => '{',
        Token::CloseCurlyBrace => '}',
        Token::OpenSquareBrace => '[',
        Token::CloseSquareBrace => ']',
        Token::Whitespace(ws) => ws,
        Token::Digit(d) => (d as char),
        Token::Comma => ',',
        Token::Colon => ':',
        Token::Quote => '"',
        Token::NegativeSign => '-',
        Token::Character(c) => c,
        Token::Unknown(u) => u,
    }
}

impl Token {
    /// The whitespace token for a newline character.
    pub fn newline() -> (r: Self)
        ensures
            r == Token::Whitespace('\n'),
    {
        Token::Whitespace('\n')
    }

    /// The whitespace token for a space character.
    pub fn space() -> (r: Self)
        ensures
            r == Token::Whitespace(' '),
    {
        Token::Whitespace(' ')
    }

    /// The whitespace token for a tab character.
    pub fn tab() -> (r: Self)
        ensures
            r == Token::Whitespace('\t'),
    {
        Token::Whitespace('\t')
    }
}

impl From<char> for Token {
    /// Classify one character, per the table in `token_of`.
    fn from(c: char) -> (t: Token)
        ensures
            t == token_of(c),
    {
        if c == '(' {
            Token::OpenParenthesis
        } else if c == ')' {
            Token::CloseParenthesis
        } else if c == '{' {
            Token::OpenCurlyBrace
        } else if c == '}' {
            Token::CloseCurlyBrace
        } else if c == '[' {
            Token::OpenSquareBrace
        } else if c == ']' {
            Token::CloseSquareBrace
        } else if c == ' ' || c == '\t' || c == '\n' {
            Token::Whitespace(c)
        } else if '0' <= c && c <= '9' {
            Token::Digit((c as u8) - ('0' as u8))
        } else if c == ',' {
            Token::Comma
        } else if c == ':' {
            Token::Colon
        } else if c == '"' {
            Token::Quote
        } else if c == '-' {
            Token::NegativeSign
        } else if ('a' <= c && c <= 'z') || ('A' <= c && c <= 'Z') {
            Token::Character(c)
        } else {
            Token::Unknown(c)
        }
    }
}

impl vstd::std_specs::convert::FromSpecImpl<char> for Token {
    open spec fn obeys_from_spec() -> bool {
        true
    }

    open spec fn from_spec(c: char) -> Token {
        token_of(c)
    }
}

impl<'a> From<&'a Token> for char {
    /// The character a token prints as, per `char_of`.
    fn from(t: &'a Token) -> (c: char)
        ensures
            c == char_of(*t),
    {
        match t {
            Token::OpenParenthesis => '(',
            Token::CloseParenthesis => ')',
            Token::OpenCurlyBrace => '{',
            Token::CloseCurlyBrace => '}',
            Token::OpenSquareBrace => '[',
            Token::CloseSquareBrace => ']',
            Token::Whitespace(ws) => *ws,
            Token::Digit(d) => (*d) as char,
            Token::Comma => ',',
            Token::Colon => ':',
            Token::Quote => '"',
            Token::NegativeSign => '-',
            Token::Character(c) => *c,
            Token::Unknown(u) => *u,
        }
    }
}

impl<'a> vstd::std_specs::convert::FromSpecImpl<&'a Token> for char {
    open spec fn obeys_from_spec() -> bool {
        true
    }

    open spec fn from_spec(t: &'a Token) -> char {
        char_of(*t)
    }
}

/// Tokenize a whole input string: one token per character, each classified
/// independently by the table in `token_of`. Total over every input.
pub fn process_str(s: &str) -> (r: Vec<Token>)
    ensures
        r@.len() == s@.len(),
        forall|i: int| 0 <= i < s@.len() ==> r@[i] == token_of(s@[i]),
{
    let n = s.unicode_len();
    let mut r: Vec<Token> = Vec::new();
    let mut i: usize = 0;
    while i < n
        invariant
            n == s@.len(),
            i <= n,
            r@.len() == i,
            forall|j: int| 0 <= j < i ==> r@[j] == token_of(s@[j]),
        decreases n - i,
    {
        let c = s.get_char(i);
        r.push(Token::from(c));
        i = i + 1;
    }
    r
}

} // verus!
