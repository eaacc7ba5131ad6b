//! Parse errors. Both recoverable kinds carry the (line, column) position at
//! which the offending token was consumed; productions propagate them to the
//! top-level `parse` call without any recovery attempt.

use vstd::prelude::*;
use crate::tokens::Token;

verus! {

/// The current production met a token the grammar does not permit here.
#[derive(Debug, Clone, PartialEq)]
pub struct UnexpectedTokenError {
    pub line: usize,
    pub pos: usize,
    pub token: Token,
}

impl UnexpectedTokenError {
    pub fn new(line: usize, pos: usize, token: Token) -> (r: UnexpectedTokenError)
        ensures
            r == (UnexpectedTokenError { line, pos, token }),
    {
        UnexpectedTokenError { line, pos, token }
    }
}

/// A production needed another token but the queue was exhausted.
#[derive(Debug, Clone, PartialEq)]
pub struct UnexpectedEndOfInputError {
    pub line: usize,
    pub pos: usize,
}

impl UnexpectedEndOfInputError {
    pub fn new(line: usize, pos: usize) -> (r: UnexpectedEndOfInputError)
        ensures
            r == (UnexpectedEndOfInputError { line, pos }),
    {
        UnexpectedEndOfInputError { line, pos }
    }
}

/// A word accumulated where a boolean literal was expected is neither
/// `true` nor `false`. Carries the offending word.
#[derive(Debug, Clone, PartialEq)]
pub struct InvalidLiteralError {
    pub line: usize,
    pub pos: usize,
    pub literal: String,
}

impl InvalidLiteralError {
    pub fn new(line: usize, pos: usize, literal: String) -> (r: InvalidLiteralError)
        ensures
            r.line == line,
            r.pos == pos,
            r.literal == literal,
    {
        InvalidLiteralError { line, pos, literal }
    }
}

/// Everything a parser production can fail with.
#[derive(Debug, Clone, PartialEq)]
pub enum ParseError {
    UnexpectedToken(UnexpectedTokenError),
    UnexpectedEndOfInput(UnexpectedEndOfInputError),
    InvalidLiteral(InvalidLiteralError),
}

} // verus!
