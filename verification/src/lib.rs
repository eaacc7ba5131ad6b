//! A hand-written JSON reader/writer pipeline: a character-to-token lexer,
//! a recursive-descent parser that builds a format-preserving syntax tree
//! (whitespace and commas are first-class nodes), and a tree walker that
//! renders the tree back to JSON text.

pub mod ast;
pub mod decimal;
pub mod errors;
pub mod parsing;
pub mod roundtrip;
pub mod scan;
pub mod tokens;
pub mod visitor;
