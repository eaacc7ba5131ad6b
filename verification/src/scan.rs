//! The mathematical model of parsing. Each parser production has a step
//! function here that maps a cursor view to its exact outcome: the value
//! produced or the error raised, together with the cursor state left behind.
//! The executable productions promise in their contracts to agree with these
//! functions on every input.

use vstd::prelude::*;
use crate::ast::{ChildV, ValV};
use crate::decimal::dec_digits;
use crate::errors::{ParseError};
use crate::tokens::Token;

verus! {

/// The state of a parse cursor: the remaining token queue, the token
/// consumed last, and the 0-based column and line counters.
pub struct CtxView {
    pub rem: Seq<Token>,
    pub cur: Option<Token>,
    pub pos: usize,
    pub line: usize,
}

/// A counter bump that sticks at the top of `usize` instead of wrapping.
pub open spec fn bump(x: usize) -> usize {
    if x == usize::MAX {
        usize::MAX
    } else {
        (x + 1) as usize
    }
}

/// Pulling one token from the queue into `cur`. On a newline the column
/// resets and the line advances; otherwise the column advances. On an
/// empty queue nothing changes.
pub open spec fn adv(v: CtxView) -> CtxView {
    if v.rem.len() == 0 {
        v
    } else {
        let t = v.rem[0];
        CtxView {
            rem: v.rem.drop_first(),
            cur: Some(t),
            pos: if t == Token::Whitespace('\n') {
                0
            } else {
                bump(v.pos)
            },
            line: if t == Token::Whitespace('\n') {
                bump(v.line)
            } else {
                v.line
            },
        }
    }
}

/// Pushing the token consumed last back to the front of the queue and
/// clearing `cur`. The counters stay where they are.
pub open spec fn rewound(v: CtxView, t: Token) -> CtxView {
    CtxView { rem: seq![t] + v.rem, cur: None, pos: v.pos, line: v.line }
}

/// What a production fails with, as plain data.
pub enum ErrView {
    Tok { line: usize, pos: usize, token: Token },
    Eof { line: usize, pos: usize },
    Lit { line: usize, pos: usize, word: Seq<char> },
}

/// The view of an executable parse error.
pub open spec fn err_view(e: ParseError) -> ErrView {
    match e {
        ParseError::UnexpectedToken(u) => ErrView::Tok {
            line: u.line,
            pos: u.pos,
            token: u.token,
        },
        ParseError::UnexpectedEndOfInput(u) => ErrView::Eof { line: u.line, pos: u.pos },
        ParseError::InvalidLiteral(u) => ErrView::Lit {
            line: u.line,
            pos: u.pos,
            word: u.literal@,
        },
    }
}

/// What one production leaves behind: a value or an error, and the cursor.
pub enum Outcome<T> {
    Done { val: T, end: CtxView },
    Fail { err: ErrView, end: CtxView },
}

impl<T> Outcome<T> {
    /// The cursor state after the production, success or failure.
    pub open spec fn end(self) -> CtxView {
        match self {
            Outcome::Done { val, end } => end,
            Outcome::Fail { err, end } => end,
        }
    }

    /// The value produced, where there is one.
    pub open spec fn value(self) -> T {
        match self {
            Outcome::Done { val, end } => val,
            Outcome::Fail { err, end } => vstd::pervasive::arbitrary(),
        }
    }
}

/// An end-of-input error at the cursor's position.
pub open spec fn eof_err(v: CtxView) -> ErrView {
    ErrView::Eof { line: v.line, pos: v.pos }
}

/// An unexpected-token error at the cursor's position.
pub open spec fn tok_err(v: CtxView, t: Token) -> ErrView {
    ErrView::Tok { line: v.line, pos: v.pos, token: t }
}

/// The name production: letters accumulate; a digit is accepted only into a
/// non-empty buffer; a quote marks the name as closed; whitespace is
/// tolerated only after that; a colon ends the production.
pub open spec fn name_step(v: CtxView, acc: Seq<char>, ended: bool) -> Outcome<Seq<char>>
    decreases v.rem.len(),
{
    if v.rem.len() == 0 {
        Outcome::Fail { err: eof_err(v), end: v }
    } else {
        let t = v.rem[0];
        let w = adv(v);
        match t {
            Token::Character(c) => name_step(w, acc.push(c), ended),
            Token::Digit(d) => if acc.len() > 0 {
                name_step(w, acc + dec_digits(d as nat), ended)
            } else {
                Outcome::Fail { err: tok_err(w, t), end: w }
            },
            Token::Quote => name_step(w, acc, true),
            Token::Colon => Outcome::Done { val: acc, end: w },
            Token::Whitespace(s) => if ended {
                name_step(w, acc, ended)
            } else {
                Outcome::Fail { err: tok_err(w, t), end: w }
            },
            _ => Outcome::Fail { err: tok_err(w, t), end: w },
        }
    }
}

/// The string production: whitespace, letters and digits accumulate
/// verbatim (a digit as its decimal character form); a quote closes the
/// string; anything else is an error.
pub open spec fn string_step(v: CtxView, acc: Seq<char>) -> Outcome<Seq<char>>
    decreases v.rem.len(),
{
    if v.rem.len() == 0 {
        Outcome::Fail { err: eof_err(v), end: v }
    } else {
        let t = v.rem[0];
        let w = adv(v);
        match t {
            Token::Whitespace(c) => string_step(w, acc.push(c)),
            Token::Character(c) => string_step(w, acc.push(c)),
            Token::Digit(d) => string_step(w, acc + dec_digits(d as nat)),
            Token::Quote => Outcome::Done { val: acc, end: w },
            _ => Outcome::Fail { err: tok_err(w, t), end: w },
        }
    }
}

/// One accumulation step of the number production, with the wrapping
/// semantics of 64-bit arithmetic.
pub open spec fn mul10_add(n: i64, d: u8) -> i64 {
    vstd::wrapping::i64_specs::wrapping_add(vstd::wrapping::i64_specs::wrapping_mul(n, 10i64), d as i64)
}

/// Negation with the wrapping semantics of 64-bit arithmetic.
pub open spec fn wrap_neg(n: i64) -> i64 {
    vstd::wrapping::i64_specs::wrapping_mul(n, -1i64)
}

/// The number production after its first digit: digits accumulate by
/// value = value * 10 + digit; a comma or close brace ends the number and
/// is pushed back for the enclosing production; anything else is an error.
pub open spec fn number_step(v: CtxView, num: i64, neg: bool) -> Outcome<i64>
    decreases v.rem.len(),
{
    if v.rem.len() == 0 {
        Outcome::Fail { err: eof_err(v), end: v }
    } else {
        let t = v.rem[0];
        let w = adv(v);
        match t {
            Token::Digit(d) => number_step(w, mul10_add(num, d), neg),
            Token::Comma => Outcome::Done {
                val: if neg {
                    wrap_neg(num)
                } else {
                    num
                },
                end: rewound(w, t),
            },
            Token::CloseCurlyBrace => Outcome::Done {
                val: if neg {
                    wrap_neg(num)
                } else {
                    num
                },
                end: rewound(w, t),
            },
            _ => Outcome::Fail { err: tok_err(w, t), end: w },
        }
    }
}

/// The boolean production: letters accumulate; a comma or close brace ends
/// the word and is pushed back; the word must then be exactly `true` or
/// `false`, anything else is an invalid-literal error.
pub open spec fn bool_step(v: CtxView, acc: Seq<char>) -> Outcome<bool>
    decreases v.rem.len(),
{
    if v.rem.len() == 0 {
        Outcome::Fail { err: eof_err(v), end: v }
    } else {
        let t = v.rem[0];
        let w = adv(v);
        match t {
            Token::Character(c) => bool_step(w, acc.push(c)),
            Token::Comma => bool_word(acc, rewound(w, t)),
            Token::CloseCurlyBrace => bool_word(acc, rewound(w, t)),
            _ => Outcome::Fail { err: tok_err(w, t), end: w },
        }
    }
}

/// Validation of an accumulated boolean word at the given cursor state.
pub open spec fn bool_word(acc: Seq<char>, u: CtxView) -> Outcome<bool> {
    if acc == seq!['t', 'r', 'u', 'e'] {
        Outcome::Done { val: true, end: u }
    } else if acc == seq!['f', 'a', 'l', 's', 'e'] {
        Outcome::Done { val: false, end: u }
    } else {
        Outcome::Fail { err: ErrView::Lit { line: u.line, pos: u.pos, word: acc }, end: u }
    }
}

/// The word the boolean production starts from: the letter that chose it.
pub open spec fn bool_init(v: CtxView) -> Seq<char> {
    match v.cur {
        Some(Token::Character(c)) => seq![c],
        _ => Seq::empty(),
    }
}

/// The value production: leading whitespace is skipped, then the next token
/// chooses a string, number (optionally negative) or boolean production.
pub open spec fn value_step(v: CtxView) -> Outcome<ValV>
    decreases v.rem.len(),
{
    if v.rem.len() == 0 {
        Outcome::Fail { err: eof_err(v), end: v }
    } else {
        let t = v.rem[0];
        let w = adv(v);
        match t {
            Token::Whitespace(c) => value_step(w),
            Token::Quote => match string_step(w, Seq::empty()) {
                Outcome::Done { val, end } => Outcome::Done { val: ValV::Str(val), end },
                Outcome::Fail { err, end } => Outcome::Fail { err, end },
            },
            Token::Digit(d) => match number_step(w, d as i64, false) {
                Outcome::Done { val, end } => Outcome::Done { val: ValV::Num(val), end },
                Outcome::Fail { err, end } => Outcome::Fail { err, end },
            },
            Token::NegativeSign => if w.rem.len() == 0 {
                Outcome::Fail { err: eof_err(w), end: w }
            } else {
                let t2 = w.rem[0];
                let x = adv(w);
                match t2 {
                    Token::Digit(d) => match number_step(x, d as i64, true) {
                        Outcome::Done { val, end } => Outcome::Done { val: ValV::Num(val), end },
                        Outcome::Fail { err, end } => Outcome::Fail { err, end },
                    },
                    _ => Outcome::Fail { err: tok_err(x, t2), end: x },
                }
            },
            Token::Character(c) => if c == 't' || c == 'f' {
                match bool_step(w, seq![c]) {
                    Outcome::Done { val, end } => Outcome::Done { val: ValV::Bool(val), end },
                    Outcome::Fail { err, end } => Outcome::Fail { err, end },
                }
            } else {
                Outcome::Fail { err: tok_err(w, t), end: w }
            },
            _ => Outcome::Fail { err: tok_err(w, t), end: w },
        }
    }
}

/// The assignment production: a name, then a value.
pub open spec fn assignment_step(v: CtxView) -> Outcome<ChildV> {
    match name_step(v, Seq::empty(), false) {
        Outcome::Fail { err, end } => Outcome::Fail { err, end },
        Outcome::Done { val: n, end: v1 } => match value_step(v1) {
            Outcome::Fail { err, end } => Outcome::Fail { err, end },
            Outcome::Done { val: j, end: v2 } => Outcome::Done {
                val: ChildV::Assign(n, j),
                end: v2,
            },
        },
    }
}

/// No production hands back a longer queue than it was given.
pub proof fn lemma_name_step_mono(v: CtxView, acc: Seq<char>, ended: bool)
    ensures
        name_step(v, acc, ended).end().rem.len() <= v.rem.len(),
    decreases v.rem.len(),
{
    if v.rem.len() > 0 {
        let w = adv(v);
        match v.rem[0] {
            Token::Character(c) => lemma_name_step_mono(w, acc.push(c), ended),
            Token::Digit(d) => if acc.len() > 0 {
                lemma_name_step_mono(w, acc + dec_digits(d as nat), ended)
            },
            Token::Quote => lemma_name_step_mono(w, acc, true),
            Token::Whitespace(s) => if ended {
                lemma_name_step_mono(w, acc, ended)
            },
            _ => (),
        }
    }
}

pub proof fn lemma_string_step_mono(v: CtxView, acc: Seq<char>)
    ensures
        string_step(v, acc).end().rem.len() <= v.rem.len(),
    decreases v.rem.len(),
{
    if v.rem.len() > 0 {
        let w = adv(v);
        match v.rem[0] {
            Token::Whitespace(c) => lemma_string_step_mono(w, acc.push(c)),
            Token::Character(c) => lemma_string_step_mono(w, acc.push(c)),
            Token::Digit(d) => lemma_string_step_mono(w, acc + dec_digits(d as nat)),
            _ => (),
        }
    }
}

pub proof fn lemma_number_step_mono(v: CtxView, num: i64, neg: bool)
    ensures
        number_step(v, num, neg).end().rem.len() <= v.rem.len(),
    decreases v.rem.len(),
{
    if v.rem.len() > 0 {
        let w = adv(v);
        match v.rem[0] {
            Token::Digit(d) => lemma_number_step_mono(w, mul10_add(num, d), neg),
            _ => (),
        }
    }
}

pub proof fn lemma_bool_step_mono(v: CtxView, acc: Seq<char>)
    ensures
        bool_step(v, acc).end().rem.len() <= v.rem.len(),
    decreases v.rem.len(),
{
    if v.rem.len() > 0 {
        let w = adv(v);
        match v.rem[0] {
            Token::Character(c) => lemma_bool_step_mono(w, acc.push(c)),
            _ => (),
        }
    }
}

pub proof fn lemma_value_step_mono(v: CtxView)
    ensures
        value_step(v).end().rem.len() <= v.rem.len(),
    decreases v.rem.len(),
{
    if v.rem.len() > 0 {
        let w = adv(v);
        match v.rem[0] {
            Token::Whitespace(c) => lemma_value_step_mono(w),
            Token::Quote => lemma_string_step_mono(w, Seq::empty()),
            Token::Digit(d) => lemma_number_step_mono(w, d as i64, false),
            Token::NegativeSign => if w.rem.len() > 0 {
                let x = adv(w);
                match w.rem[0] {
                    Token::Digit(d) => lemma_number_step_mono(x, d as i64, true),
                    _ => (),
                }
            },
            Token::Character(c) => if c == 't' || c == 'f' {
                lemma_bool_step_mono(w, seq![c])
            },
            _ => (),
        }
    }
}

/// A successful assignment consumes at least its opening token.
pub proof fn lemma_assignment_step_mono(v: CtxView)
    ensures
        assignment_step(v).end().rem.len() <= v.rem.len(),
{
    lemma_name_step_mono(v, Seq::empty(), false);
    match name_step(v, Seq::empty(), false) {
        Outcome::Done { val, end } => lemma_value_step_mono(end),
        Outcome::Fail { err, end } => (),
    }
}

/// The object-body production: whitespace, comma and assignment children
/// accumulate in document order until a close brace ends the object;
/// exhaustion before the close brace is an end-of-input error.
pub open spec fn object_step(v: CtxView, acc: Seq<ChildV>) -> Outcome<Seq<ChildV>>
    decreases v.rem.len()
        via object_step_dec
{
    if v.rem.len() == 0 {
        Outcome::Fail { err: eof_err(v), end: v }
    } else {
        let t = v.rem[0];
        let w = adv(v);
        match t {
            Token::Whitespace(c) => object_step(w, acc.push(ChildV::Ws(c))),
            Token::Quote => match assignment_step(w) {
                Outcome::Fail { err, end } => Outcome::Fail { err, end },
                Outcome::Done { val: a, end: v2 } => object_step(v2, acc.push(a)),
            },
            Token::Comma => object_step(w, acc.push(ChildV::Sep)),
            Token::CloseCurlyBrace => Outcome::Done { val: acc, end: w },
            _ => Outcome::Fail { err: tok_err(w, t), end: w },
        }
    }
}

#[via_fn]
proof fn object_step_dec(v: CtxView, acc: Seq<ChildV>) {
    if v.rem.len() > 0 && v.rem[0] == Token::Quote {
        lemma_assignment_step_mono(adv(v));
    }
}

/// The document the parser recognizes.
pub enum DocV {
    Obj(Seq<ChildV>),
    Arr,
}

/// The root production: an empty queue is an end-of-input error; an open
/// curly brace starts an object; an open square brace yields the stub
/// array without consuming anything more; any other first token is an
/// unexpected-token error.
pub open spec fn doc_step(v: CtxView) -> Outcome<DocV> {
    if v.rem.len() == 0 {
        Outcome::Fail { err: eof_err(v), end: v }
    } else {
        let t = v.rem[0];
        let w = adv(v);
        match t {
            Token::OpenCurlyBrace => match object_step(w, Seq::empty()) {
                Outcome::Done { val, end } => Outcome::Done { val: DocV::Obj(val), end },
                Outcome::Fail { err, end } => Outcome::Fail { err, end },
            },
            Token::OpenSquareBrace => Outcome::Done { val: DocV::Arr, end: w },
            _ => Outcome::Fail { err: tok_err(w, t), end: w },
        }
    }
}

/// The cursor view a fresh parse of `ts` starts from.
pub open spec fn start_view(ts: Seq<Token>) -> CtxView {
    CtxView { rem: ts, cur: None, pos: 0, line: 0 }
}

} // verus!
