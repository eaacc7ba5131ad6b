//! The parse cursor and the recursive-descent productions. The cursor owns
//! the token queue and supports one token of pushback: `rewind` restores the
//! token consumed last to the front of the queue, and may be called at most
//! once per consumed token. Every production's contract states its exact
//! outcome through the step functions of `scan`.

use vstd::prelude::*;
use vstd::string::StringExecFns;
use crate::ast::{
    CommaExpression, Expression, JsonArrayExpression, JsonObjectExpression, JsonValue,
    NameExpression, PropertyAssignmentExpression, ValueExpression, WhitespaceExpression,
    child_matches, children_match, val_view, ChildV, ValV,
};
use crate::decimal::{push_char, push_u64_decimal};
use crate::errors::{
    InvalidLiteralError, ParseError, UnexpectedEndOfInputError, UnexpectedTokenError,
};
use crate::scan::{
    adv, assignment_step, bool_init, bool_step, doc_step, err_view, lemma_assignment_step_mono,
    name_step, number_step, object_step, rewound, start_view, string_step, value_step, CtxView,
    DocV, Outcome,
};
use crate::tokens::Token;

verus! {

/// The cursor over a token sequence: the remaining queue (held as the tail
/// of `tokens` from `next` on), the token consumed last, and the 0-based
/// column and line counters. Owned exclusively by one parse operation.
pub struct ParseContext {
    tokens: Vec<Token>,
    next: usize,
    current: Option<Token>,
    pos: usize,
    line: usize,
}

impl View for ParseContext {
    type V = CtxView;

    closed spec fn view(&self) -> CtxView {
        CtxView {
            rem: self.tokens@.skip(self.next as int),
            cur: self.current,
            pos: self.pos,
            line: self.line,
        }
    }
}

impl ParseContext {
    /// The cursor's internal consistency: the token consumed last, when one
    /// is held, sits just before the queue inside the backing storage, so
    /// that `rewind` can restore it in place.
    pub closed spec fn wf(self) -> bool {
        &&& self.next <= self.tokens@.len()
        &&& match self.current {
            Some(t) => self.next >= 1 && self.tokens@[self.next - 1] == t,
            None => true,
        }
    }

    /// A fresh cursor over `tokens`: nothing consumed, both counters zero.
    pub fn new(tokens: Vec<Token>) -> (r: ParseContext)
        ensures
            r.wf(),
            r@ == start_view(tokens@),
    {
        let r = ParseContext { tokens, next: 0, current: None, pos: 0, line: 0 };
        proof {
            assert(r@.rem =~= r.tokens@);
        }
        r
    }

    /// The token consumed last, if any.
    pub fn current(&self) -> (r: Option<Token>)
        ensures
            r == self@.cur,
    {
        self.current
    }

    /// The 0-based column counter.
    pub fn pos(&self) -> (r: usize)
        ensures
            r == self@.pos,
    {
        self.pos
    }

    /// The 0-based line counter.
    pub fn line(&self) -> (r: usize)
        ensures
            r == self@.line,
    {
        self.line
    }

    /// Pull the next token from the queue into `current`. True iff a token
    /// was available; on an empty queue nothing changes, and the caller
    /// treats that as end of input. A newline resets the column and bumps
    /// the line; any other token bumps the column. The counters saturate at
    /// the top of `usize` instead of wrapping.
    pub fn advance(&mut self) -> (b: bool)
        requires
            old(self).wf(),
        ensures
            final(self).wf(),
            b == (old(self)@.rem.len() > 0),
            final(self)@ == adv(old(self)@),
    {
        if self.next < self.tokens.len() {
            let t = self.tokens[self.next];
            self.next = self.next + 1;
            match t {
                Token::Whitespace(c) if c == '\n' => {
                    self.pos = 0;
                    if self.line < usize::MAX {
                        self.line = self.line + 1;
                    }
                },
                _ => {
                    if self.pos < usize::MAX {
                        self.pos = self.pos + 1;
                    }
                },
            }
            self.current = Some(t);
            proof {
                assert(self@.rem =~= adv(old(self)@).rem);
            }
            true
        } else {
            false
        }
    }

    /// Push the token consumed last back to the front of the queue and
    /// clear `current`. True iff there was one to restore; at most one
    /// token of pushback is ever available. The counters stay where they
    /// are.
    pub fn rewind(&mut self) -> (b: bool)
        requires
            old(self).wf(),
        ensures
            final(self).wf(),
            b == (old(self)@.cur is Some),
            old(self)@.cur is Some ==> final(self)@ == rewound(
                old(self)@,
                old(self)@.cur.unwrap(),
            ),
            old(self)@.cur is None ==> final(self)@ == old(self)@,
    {
        match self.current {
            Some(t) => {
                self.current = None;
                self.next = self.next - 1;
                proof {
                    assert(self@.rem =~= rewound(old(self)@, t).rem);
                }
                true
            },
            None => false,
        }
    }
}

/// The name production: letters (and digits, after a first letter)
/// accumulate into the property key until the closing quote; whitespace is
/// tolerated after the quote; the colon ends the production and is
/// consumed. Exact outcome: `name_step` from the cursor's state.
pub fn parse_name(ctx: &mut ParseContext) -> (r: Result<NameExpression, ParseError>)
    requires
        old(ctx).wf(),
    ensures
        final(ctx).wf(),
        final(ctx)@ == name_step(old(ctx)@, Seq::<char>::empty(), false).end(),
        (match (r, name_step(old(ctx)@, Seq::<char>::empty(), false)) {
            (Ok(n), Outcome::Done { val, end }) => n.name@ == val,
            (Err(e), Outcome::Fail { err, end }) => err_view(e) == err,
            _ => false,
        }),
{
    let mut name = String::new();
    let mut name_ended = false;
    loop
        invariant
            ctx.wf(),
            name_step(old(ctx)@, Seq::<char>::empty(), false) == name_step(
                ctx@,
                name@,
                name_ended,
            ),
        decreases ctx@.rem.len(),
    {
        if ctx.advance() {
            let t = ctx.current().unwrap();
            match t {
                Token::Character(c) => push_char(&mut name, c),
                Token::Digit(d) => {
                    if !name.as_str().is_empty() {
                        push_u64_decimal(&mut name, d as u64);
                    } else {
                        return Err(ParseError::UnexpectedToken(UnexpectedTokenError::new(
                            ctx.line(),
                            ctx.pos(),
                            Token::Digit(d),
                        )));
                    }
                },
                Token::Quote => {
                    name_ended = true;
                },
                Token::Colon => {
                    return Ok(NameExpression::new(name));
                },
                Token::Whitespace(s) => {
                    if !name_ended {
                        return Err(ParseError::UnexpectedToken(UnexpectedTokenError::new(
                            ctx.line(),
                            ctx.pos(),
                            Token::Whitespace(s),
                        )));
                    }
                },
                _ => {
                    return Err(ParseError::UnexpectedToken(UnexpectedTokenError::new(
                        ctx.line(),
                        ctx.pos(),
                        t,
                    )));
                },
            }
        } else {
            return Err(ParseError::UnexpectedEndOfInput(UnexpectedEndOfInputError::new(
                ctx.line(),
                ctx.pos(),
            )));
        }
    }
}

/// The string production: whitespace, letters and digits accumulate
/// verbatim (digits in their decimal character form) until the closing
/// quote; no escape processing. Exact outcome: `string_step`.
pub fn parse_string(ctx: &mut ParseContext) -> (r: Result<ValueExpression, ParseError>)
    requires
        old(ctx).wf(),
    ensures
        final(ctx).wf(),
        final(ctx)@ == string_step(old(ctx)@, Seq::<char>::empty()).end(),
        (match (r, string_step(old(ctx)@, Seq::<char>::empty())) {
            (Ok(v), Outcome::Done { val, end }) => val_view(v.value) == ValV::Str(val),
            (Err(e), Outcome::Fail { err, end }) => err_view(e) == err,
            _ => false,
        }),
{
    let mut s = String::new();
    loop
        invariant
            ctx.wf(),
            string_step(old(ctx)@, Seq::<char>::empty()) == string_step(ctx@, s@),
        decreases ctx@.rem.len(),
    {
        if ctx.advance() {
            let t = ctx.current().unwrap();
            match t {
                Token::Whitespace(ws) => push_char(&mut s, ws),
                Token::Character(c) => push_char(&mut s, c),
                Token::Digit(d) => push_u64_decimal(&mut s, d as u64),
                Token::Quote => {
                    return Ok(ValueExpression::new(JsonValue::String(s)));
                },
                _ => {
                    return Err(ParseError::UnexpectedToken(UnexpectedTokenError::new(
                        ctx.line(),
                        ctx.pos(),
                        t,
                    )));
                },
            }
        } else {
            return Err(ParseError::UnexpectedEndOfInput(UnexpectedEndOfInputError::new(
                ctx.line(),
                ctx.pos(),
            )));
        }
    }
}

/// The number production, entered after its first digit (and sign, if
/// any). Digits accumulate by value = value * 10 + digit with wrapping
/// 64-bit arithmetic; a comma or close brace ends the number and is pushed
/// back for the enclosing production to consume. Failing to push it back
/// would silently drop that token; the cursor's contract rules the failure
/// out, and the proof here checks that. Exact outcome: `number_step`.
pub fn parse_number(ctx: &mut ParseContext, first_digit: u8, is_neg: bool) -> (r: Result<
    ValueExpression,
    ParseError,
>)
    requires
        old(ctx).wf(),
    ensures
        final(ctx).wf(),
        final(ctx)@ == number_step(old(ctx)@, first_digit as i64, is_neg).end(),
        (match (r, number_step(old(ctx)@, first_digit as i64, is_neg)) {
            (Ok(v), Outcome::Done { val, end }) => v.value == JsonValue::Number(val),
            (Err(e), Outcome::Fail { err, end }) => err_view(e) == err,
            _ => false,
        }),
{
    let mut num: i64 = first_digit as i64;
    loop
        invariant
            ctx.wf(),
            number_step(old(ctx)@, first_digit as i64, is_neg) == number_step(ctx@, num, is_neg),
        decreases ctx@.rem.len(),
    {
        if ctx.advance() {
            let t = ctx.current().unwrap();
            match t {
                Token::Digit(d) => {
                    num = num.wrapping_mul(10).wrapping_add(d as i64);
                },
                Token::Comma | Token::CloseCurlyBrace => {
                    let restored = ctx.rewind();
                    proof {
                        assert(restored);
                    }
                    if is_neg {
                        num = num.wrapping_mul(-1);
                    }
                    return Ok(ValueExpression::new(JsonValue::Number(num)));
                },
                _ => {
                    return Err(ParseError::UnexpectedToken(UnexpectedTokenError::new(
                        ctx.line(),
                        ctx.pos(),
                        t,
                    )));
                },
            }
        } else {
            return Err(ParseError::UnexpectedEndOfInput(UnexpectedEndOfInputError::new(
                ctx.line(),
                ctx.pos(),
            )));
        }
    }
}

/// The boolean production, entered after its first letter (which the value
/// production consumed and which seeds the word). Letters accumulate until
/// a comma or close brace, which is pushed back; the word must then be
/// exactly `true` or `false`, anything else is an invalid-literal error.
/// Exact outcome: `bool_step`.
pub fn parse_bool(ctx: &mut ParseContext) -> (r: Result<ValueExpression, ParseError>)
    requires
        old(ctx).wf(),
    ensures
        final(ctx).wf(),
        final(ctx)@ == bool_step(old(ctx)@, bool_init(old(ctx)@)).end(),
        (match (r, bool_step(old(ctx)@, bool_init(old(ctx)@))) {
            (Ok(v), Outcome::Done { val, end }) => v.value == JsonValue::Boolean(val),
            (Err(e), Outcome::Fail { err, end }) => err_view(e) == err,
            _ => false,
        }),
{
    let mut word = String::new();
    match ctx.current() {
        Some(Token::Character(c)) => push_char(&mut word, c),
        _ => (),
    }
    proof {
        assert(word@ =~= bool_init(old(ctx)@));
    }
    loop
        invariant
            ctx.wf(),
            bool_step(old(ctx)@, bool_init(old(ctx)@)) == bool_step(ctx@, word@),
        decreases ctx@.rem.len(),
    {
        if ctx.advance() {
            let t = ctx.current().unwrap();
            match t {
                Token::Character(c) => push_char(&mut word, c),
                Token::Comma | Token::CloseCurlyBrace => {
                    let restored = ctx.rewind();
                    proof {
                        assert(restored);
                        reveal_strlit("true");
                        reveal_strlit("false");
                        assert(("true")@ =~= seq!['t', 'r', 'u', 'e']);
                        assert(("false")@ =~= seq!['f', 'a', 'l', 's', 'e']);
                    }
                    if word == String::from_str("true") {
                        return Ok(ValueExpression::new(JsonValue::Boolean(true)));
                    } else if word == String::from_str("false") {
                        return Ok(ValueExpression::new(JsonValue::Boolean(false)));
                    } else {
                        return Err(ParseError::InvalidLiteral(InvalidLiteralError::new(
                            ctx.line(),
                            ctx.pos(),
                            word,
                        )));
                    }
                },
                _ => {
                    return Err(ParseError::UnexpectedToken(UnexpectedTokenError::new(
                        ctx.line(),
                        ctx.pos(),
                        t,
                    )));
                },
            }
        } else {
            return Err(ParseError::UnexpectedEndOfInput(UnexpectedEndOfInputError::new(
                ctx.line(),
                ctx.pos(),
            )));
        }
    }
}

/// The value production: leading whitespace is skipped, then the next
/// token chooses the string, number (optionally negative) or boolean
/// production; anything else is an error. Exact outcome: `value_step`.
pub fn parse_value(ctx: &mut ParseContext) -> (r: Result<ValueExpression, ParseError>)
    requires
        old(ctx).wf(),
    ensures
        final(ctx).wf(),
        final(ctx)@ == value_step(old(ctx)@).end(),
        (match (r, value_step(old(ctx)@)) {
            (Ok(v), Outcome::Done { val, end }) => val_view(v.value) == val,
            (Err(e), Outcome::Fail { err, end }) => err_view(e) == err,
            _ => false,
        }),
{
    loop
        invariant
            ctx.wf(),
            value_step(old(ctx)@) == value_step(ctx@),
        decreases ctx@.rem.len(),
    {
        if ctx.advance() {
            let t = ctx.current().unwrap();
            match t {
                Token::Whitespace(_) => (),
                Token::Quote => {
                    return parse_string(ctx);
                },
                Token::Digit(d) => {
                    return parse_number(ctx, d, false);
                },
                Token::NegativeSign => {
                    if ctx.advance() {
                        let t2 = ctx.current().unwrap();
                        match t2 {
                            Token::Digit(d) => {
                                return parse_number(ctx, d, true);
                            },
                            _ => {
                                return Err(ParseError::UnexpectedToken(
                                    UnexpectedTokenError::new(ctx.line(), ctx.pos(), t2),
                                ));
                            },
                        }
                    } else {
                        return Err(ParseError::UnexpectedEndOfInput(
                            UnexpectedEndOfInputError::new(ctx.line(), ctx.pos()),
                        ));
                    }
                },
                Token::Character(c) => {
                    if c == 't' || c == 'f' {
                        return parse_bool(ctx);
                    } else {
                        return Err(ParseError::UnexpectedToken(UnexpectedTokenError::new(
                            ctx.line(),
                            ctx.pos(),
                            t,
                        )));
                    }
                },
                _ => {
                    return Err(ParseError::UnexpectedToken(UnexpectedTokenError::new(
                        ctx.line(),
                        ctx.pos(),
                        t,
                    )));
                },
            }
        } else {
            return Err(ParseError::UnexpectedEndOfInput(UnexpectedEndOfInputError::new(
                ctx.line(),
                ctx.pos(),
            )));
        }
    }
}

/// The assignment production: a name, then a value. Exact outcome:
/// `assignment_step`.
pub fn parse_assignment_expr(ctx: &mut ParseContext) -> (r: Result<
    PropertyAssignmentExpression,
    ParseError,
>)
    requires
        old(ctx).wf(),
    ensures
        final(ctx).wf(),
        final(ctx)@ == assignment_step(old(ctx)@).end(),
        (match (r, assignment_step(old(ctx)@)) {
            (Ok(pa), Outcome::Done { val, end }) => child_matches(
                Expression::PropertyAssignment(pa),
                val,
            ),
            (Err(e), Outcome::Fail { err, end }) => err_view(e) == err,
            _ => false,
        }),
{
    let name = match parse_name(ctx) {
        Ok(n) => n,
        Err(e) => {
            return Err(e);
        },
    };
    let value = match parse_value(ctx) {
        Ok(v) => v,
        Err(e) => {
            return Err(e);
        },
    };
    Ok(PropertyAssignmentExpression::new(name, value))
}

/// The object-body production, entered after the open brace: whitespace,
/// comma and assignment children accumulate in document order until the
/// close brace; whitespace is preserved as nodes, not skipped. Exact
/// outcome: `object_step`.
pub fn parse_object_expr(ctx: &mut ParseContext) -> (r: Result<JsonObjectExpression, ParseError>)
    requires
        old(ctx).wf(),
    ensures
        final(ctx).wf(),
        final(ctx)@ == object_step(old(ctx)@, Seq::<ChildV>::empty()).end(),
        (match (r, object_step(old(ctx)@, Seq::<ChildV>::empty())) {
            (Ok(jo), Outcome::Done { val, end }) => children_match(jo.expressions@, val),
            (Err(e), Outcome::Fail { err, end }) => err_view(e) == err,
            _ => false,
        }),
{
    let mut jo = JsonObjectExpression::new();
    let ghost mut cs: Seq<ChildV> = Seq::empty();
    loop
        invariant
            ctx.wf(),
            children_match(jo.expressions@, cs),
            object_step(old(ctx)@, Seq::<ChildV>::empty()) == object_step(ctx@, cs),
        decreases ctx@.rem.len(),
    {
        if ctx.advance() {
            let t = ctx.current().unwrap();
            match t {
                Token::Whitespace(c) => {
                    jo.add_expr(Expression::Whitespace(WhitespaceExpression::new(c)));
                    proof {
                        cs = cs.push(ChildV::Ws(c));
                    }
                },
                Token::Quote => {
                    let ghost w = ctx@;
                    match parse_assignment_expr(ctx) {
                        Ok(pa) => {
                            jo.add_expr(Expression::PropertyAssignment(pa));
                            proof {
                                lemma_assignment_step_mono(w);
                                cs = cs.push(assignment_step(w).value());
                            }
                        },
                        Err(e) => {
                            return Err(e);
                        },
                    }
                },
                Token::Comma => {
                    jo.add_expr(Expression::Comma(CommaExpression::new()));
                    proof {
                        cs = cs.push(ChildV::Sep);
                    }
                },
                Token::CloseCurlyBrace => {
                    return Ok(jo);
                },
                _ => {
                    return Err(ParseError::UnexpectedToken(UnexpectedTokenError::new(
                        ctx.line(),
                        ctx.pos(),
                        t,
                    )));
                },
            }
        } else {
            return Err(ParseError::UnexpectedEndOfInput(UnexpectedEndOfInputError::new(
                ctx.line(),
                ctx.pos(),
            )));
        }
    }
}

/// The array production: a stub. It consumes nothing and yields the empty
/// array node unconditionally; bringing it to parity with the object
/// production is open design surface.
pub fn parse_array_expr(ctx: &mut ParseContext) -> (r: JsonArrayExpression)
    ensures
        *final(ctx) == *old(ctx),
        r == (JsonArrayExpression {}),
{
    JsonArrayExpression::new()
}

/// Parse one document from a token sequence. An empty sequence is an
/// end-of-input error; an open curly brace starts an object; an open
/// square brace yields the stub array; any other first token is an
/// unexpected-token error at its position. Exact outcome: `doc_step` from
/// a fresh cursor over `tokens`.
pub fn parse(tokens: Vec<Token>) -> (r: Result<Expression, ParseError>)
    ensures
        (match (r, doc_step(start_view(tokens@))) {
            (Ok(e), Outcome::Done { val, end }) => match val {
                DocV::Obj(cs) => match e {
                    Expression::Object(o) => children_match(o.expressions@, cs),
                    _ => false,
                },
                DocV::Arr => e == Expression::Array(JsonArrayExpression {}),
            },
            (Err(er), Outcome::Fail { err, end }) => err_view(er) == err,
            _ => false,
        }),
{
    let mut context = ParseContext::new(tokens);

    if context.advance() {
        let t = context.current().unwrap();
        match t {
            Token::OpenCurlyBrace => match parse_object_expr(&mut context) {
                Ok(o) => Ok(Expression::Object(o)),
                Err(e) => Err(e),
            },
            Token::OpenSquareBrace => Ok(Expression::Array(parse_array_expr(&mut context))),
            _ => Err(ParseError::UnexpectedToken(UnexpectedTokenError::new(
                context.line(),
                context.pos(),
                t,
            ))),
        }
    } else {
        Err(ParseError::UnexpectedEndOfInput(UnexpectedEndOfInputError::new(
            context.line(),
            context.pos(),
        )))
    }
}

} // verus!
