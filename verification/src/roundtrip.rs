//! The round-trip law: a flat object tree whose names, strings and values
//! the grammar can express renders to text that tokenizes and parses back
//! to the same tree, so rendering the parse of such text reproduces the
//! text exactly. Property separators always render as `: `, so the law
//! holds of sources written that way, which are exactly the renderings.

use vstd::prelude::*;
use crate::ast::{ChildV, Expression, JsonValue, PropertyAssignmentExpression, val_view};
use crate::decimal::{dec_digits, digit_char};
use crate::scan::{
    adv, assignment_step, bool_step, bool_word, doc_step, mul10_add, name_step, number_step,
    object_step, rewound, start_view, string_step, value_step, wrap_neg, CtxView, DocV, Outcome,
};
use crate::tokens::{digit_val, is_digit_char, is_letter_char, is_ws_char, token_of, Token};

verus! {

/// The tokens of a text: one per character, by the classification table.
pub open spec fn tokens_of(s: Seq<char>) -> Seq<Token> {
    s.map_values(|c: char| token_of(c))
}

proof fn lemma_tokens_of_add(a: Seq<char>, b: Seq<char>)
    ensures
        tokens_of(a + b) == tokens_of(a) + tokens_of(b),
{
    assert(tokens_of(a + b) =~= tokens_of(a) + tokens_of(b));
}

/// A digit character comes back from its token unchanged: its value is at
/// most nine and prints as the character itself.
proof fn lemma_digit_round(c: char)
    requires
        is_digit_char(c),
    ensures
        digit_val(c) <= 9,
        dec_digits(digit_val(c) as nat) == seq![c],
{
    assert(dec_digits(digit_val(c) as nat) =~= seq![c]);
}

/// Name text the grammar can express: letters and digits only, and not a
/// digit first.
pub open spec fn wf_name_text(ns: Seq<char>) -> bool {
    &&& forall|i: int|
        0 <= i < ns.len() ==> is_letter_char(#[trigger] ns[i]) || is_digit_char(ns[i])
    &&& ns.len() > 0 ==> is_letter_char(ns[0])
}

/// String text the grammar can express: whitespace, letters and digits.
pub open spec fn wf_string_text(s: Seq<char>) -> bool {
    forall|i: int|
        0 <= i < s.len() ==> is_ws_char(#[trigger] s[i]) || is_letter_char(s[i]) || is_digit_char(
            s[i],
        )
}

/// Parsing the name text back: from any cursor whose queue opens with the
/// name's tokens, its closing quote and the colon, the name production
/// succeeds, appends exactly the text to its buffer, and leaves the rest.
proof fn lemma_name_rt(ns: Seq<char>, acc: Seq<char>, v: CtxView, rest: Seq<Token>)
    requires
        v.rem == tokens_of(ns) + seq![Token::Quote, Token::Colon] + rest,
        forall|i: int|
            0 <= i < ns.len() ==> is_letter_char(#[trigger] ns[i]) || is_digit_char(ns[i]),
        acc.len() == 0 && ns.len() > 0 ==> is_letter_char(ns[0]),
    ensures
        name_step(v, acc, false) is Done,
        name_step(v, acc, false).value() == acc + ns,
        name_step(v, acc, false).end().rem == rest,
    decreases ns.len(),
{
    if ns.len() == 0 {
        assert(v.rem[0] == Token::Quote);
        let w = adv(v);
        assert(w.rem =~= seq![Token::Colon] + rest);
        assert(name_step(v, acc, false) == name_step(w, acc, true));
        let x = adv(w);
        assert(name_step(w, acc, true) == (Outcome::Done { val: acc, end: x }));
        assert(x.rem =~= rest);
        assert(acc + ns =~= acc);
    } else {
        let c = ns[0];
        assert(v.rem[0] == token_of(c));
        let w = adv(v);
        assert(w.rem =~= tokens_of(ns.drop_first()) + seq![Token::Quote, Token::Colon] + rest)
            by {
            assert(tokens_of(ns).drop_first() =~= tokens_of(ns.drop_first()));
        }
        if is_letter_char(c) {
            assert(token_of(c) == Token::Character(c));
            assert(name_step(v, acc, false) == name_step(w, acc.push(c), false));
            lemma_name_rt(ns.drop_first(), acc.push(c), w, rest);
            assert(acc.push(c) + ns.drop_first() =~= acc + ns);
        } else {
            assert(is_digit_char(c));
            assert(token_of(c) == Token::Digit(digit_val(c)));
            assert(acc.len() > 0);
            lemma_digit_round(c);
            assert(name_step(v, acc, false) == name_step(
                w,
                acc + dec_digits(digit_val(c) as nat),
                false,
            ));
            assert(acc + dec_digits(digit_val(c) as nat) =~= acc.push(c));
            lemma_name_rt(ns.drop_first(), acc.push(c), w, rest);
            assert(acc.push(c) + ns.drop_first() =~= acc + ns);
        }
    }
}

/// Parsing string text back: from any cursor whose queue opens with the
/// string's tokens and its closing quote, the string production succeeds
/// with exactly the text and leaves the rest.
proof fn lemma_string_rt(sv: Seq<char>, acc: Seq<char>, v: CtxView, rest: Seq<Token>)
    requires
        v.rem == tokens_of(sv) + seq![Token::Quote] + rest,
        wf_string_text(sv),
    ensures
        string_step(v, acc) is Done,
        string_step(v, acc).value() == acc + sv,
        string_step(v, acc).end().rem == rest,
    decreases sv.len(),
{
    if sv.len() == 0 {
        assert(v.rem[0] == Token::Quote);
        let w = adv(v);
        assert(string_step(v, acc) == (Outcome::Done { val: acc, end: w }));
        assert(w.rem =~= rest);
        assert(acc + sv =~= acc);
    } else {
        let c = sv[0];
        assert(v.rem[0] == token_of(c));
        let w = adv(v);
        assert(w.rem =~= tokens_of(sv.drop_first()) + seq![Token::Quote] + rest) by {
            assert(tokens_of(sv).drop_first() =~= tokens_of(sv.drop_first()));
        }
        if is_ws_char(c) {
            assert(token_of(c) == Token::Whitespace(c));
            assert(string_step(v, acc) == string_step(w, acc.push(c)));
        } else if is_letter_char(c) {
            assert(token_of(c) == Token::Character(c));
            assert(string_step(v, acc) == string_step(w, acc.push(c)));
        } else {
            assert(is_digit_char(c));
            lemma_digit_round(c);
            assert(string_step(v, acc) == string_step(w, acc + dec_digits(digit_val(c) as nat)));
            assert(acc + dec_digits(digit_val(c) as nat) =~= acc.push(c));
        }
        lemma_string_rt(sv.drop_first(), acc.push(c), w, rest);
        assert(acc.push(c) + sv.drop_first() =~= acc + sv);
    }
}

/// What the number production accumulates over a run of digit characters.
pub open spec fn wrapfold(n: i64, ds: Seq<char>) -> i64
    decreases ds.len(),
{
    if ds.len() == 0 {
        n
    } else {
        wrapfold(mul10_add(n, digit_val(ds[0])), ds.drop_first())
    }
}

proof fn lemma_crop_id(x: int)
    requires
        0 <= x <= i64::MAX as int,
    ensures
        vstd::wrapping::i64_specs::signed_crop(x) == x,
{
    vstd::arithmetic::div_mod::lemma_fundamental_div_mod_converse(
        x,
        0x1_0000_0000_0000_0000,
        0,
        x,
    );
}

proof fn lemma_crop_neg(x: int)
    requires
        i64::MIN as int <= x < 0,
    ensures
        vstd::wrapping::i64_specs::signed_crop(x) == x,
{
    vstd::arithmetic::div_mod::lemma_fundamental_div_mod_converse(
        x,
        0x1_0000_0000_0000_0000,
        -1,
        x + 0x1_0000_0000_0000_0000,
    );
}

proof fn lemma_crop_top()
    ensures
        vstd::wrapping::i64_specs::signed_crop(0x8000_0000_0000_0000) == i64::MIN,
{
    vstd::arithmetic::div_mod::lemma_fundamental_div_mod_converse(
        0x8000_0000_0000_0000,
        0x1_0000_0000_0000_0000,
        0,
        0x8000_0000_0000_0000,
    );
}

/// Wrapping negation is exact negation everywhere but at the minimum,
/// which it fixes.
proof fn lemma_wrap_neg(n: i64)
    ensures
        n != i64::MIN ==> wrap_neg(n) as int == -(n as int),
        n == i64::MIN ==> wrap_neg(n) == i64::MIN,
{
    if n == i64::MIN {
        lemma_crop_top();
    } else if n <= 0 {
        lemma_crop_id(-(n as int));
    } else {
        lemma_crop_neg(-(n as int));
    }
}

/// One accumulation step is exact while the exact value stays at or below
/// one past the maximum; at exactly one past it wraps to the minimum.
proof fn lemma_mul10_add_exact(n: i64, d: u8)
    requires
        0 <= n,
        d <= 9,
        10 * (n as int) + d <= 0x8000_0000_0000_0000,
    ensures
        10 * (n as int) + d <= i64::MAX as int ==> mul10_add(n, d) as int == 10 * (n as int) + d,
        10 * (n as int) + d == 0x8000_0000_0000_0000 ==> mul10_add(n, d) == i64::MIN,
{
    assert(10 * (n as int) != 0x8000_0000_0000_0000) by {
        if 10 * (n as int) == 0x8000_0000_0000_0000int {
            assert(n as int == 922337203685477580int);
        }
    }
    lemma_crop_id(10 * (n as int));
    if 10 * (n as int) + d == 0x8000_0000_0000_0000int {
        assert(mul10_add(n, d) == i64::MIN);
    }
}

proof fn lemma_wrapfold_snoc(n: i64, ds: Seq<char>, c: char)
    ensures
        wrapfold(n, ds.push(c)) == mul10_add(wrapfold(n, ds), digit_val(c)),
    decreases ds.len(),
{
    if ds.len() == 0 {
        assert(ds.push(c)[0] == c);
        assert(ds.push(c).drop_first() =~= Seq::<char>::empty());
        assert(wrapfold(mul10_add(n, digit_val(c)), Seq::<char>::empty()) == mul10_add(
            n,
            digit_val(c),
        ));
        assert(wrapfold(n, ds) == n);
        assert(wrapfold(n, ds.push(c)) == wrapfold(
            mul10_add(n, digit_val(ds.push(c)[0])),
            ds.push(c).drop_first(),
        ));
    } else {
        assert(ds.push(c)[0] == ds[0]);
        assert(ds.push(c).drop_first() =~= ds.drop_first().push(c));
        lemma_wrapfold_snoc(mul10_add(n, digit_val(ds[0])), ds.drop_first(), c);
        assert(wrapfold(n, ds.push(c)) == wrapfold(
            mul10_add(n, digit_val(ds[0])),
            ds.drop_first().push(c),
        ));
        assert(wrapfold(n, ds) == wrapfold(mul10_add(n, digit_val(ds[0])), ds.drop_first()));
    }
}

/// Reading the decimal digits of `m` back through the accumulator yields
/// `m` itself while `m` fits, and the minimum at one past the maximum:
/// exactly the 64-bit wrap of `m`.
proof fn lemma_fold_decimal(m: nat)
    requires
        m <= 0x8000_0000_0000_0000,
    ensures
        dec_digits(m).len() >= 1,
        forall|i: int| 0 <= i < dec_digits(m).len() ==> is_digit_char(#[trigger] dec_digits(m)[i]),
        wrapfold(digit_val(dec_digits(m)[0]) as i64, dec_digits(m).drop_first())
            == vstd::wrapping::i64_specs::signed_crop(m as int),
    decreases m,
{
    if m < 10 {
        assert(dec_digits(m) =~= seq![digit_char(m)]);
        assert(is_digit_char(digit_char(m)));
        assert(digit_val(digit_char(m)) == m);
        assert(dec_digits(m).drop_first() =~= Seq::<char>::empty());
        lemma_crop_id(m as int);
    } else {
        vstd::arithmetic::div_mod::lemma_fundamental_div_mod(m as int, 10);
        vstd::arithmetic::div_mod::lemma_mod_pos_bound(m as int, 10);
        let q = m / 10;
        let r = m % 10;
        assert(q < m);
        lemma_fold_decimal(q);
        let prev = dec_digits(q);
        let ds = dec_digits(m);
        assert(ds == prev.push(digit_char(r)));
        assert(is_digit_char(digit_char(r)));
        assert(digit_val(digit_char(r)) == r);
        assert(forall|i: int| 0 <= i < ds.len() ==> is_digit_char(#[trigger] ds[i])) by {
            assert(forall|i: int| 0 <= i < prev.len() ==> ds[i] == prev[i]);
            assert(ds[ds.len() - 1] == digit_char(r));
        }
        assert(ds[0] == prev[0]);
        assert(ds.drop_first() =~= prev.drop_first().push(digit_char(r)));
        lemma_wrapfold_snoc(digit_val(prev[0]) as i64, prev.drop_first(), digit_char(r));
        let folded_q = wrapfold(digit_val(prev[0]) as i64, prev.drop_first());
        assert(folded_q == vstd::wrapping::i64_specs::signed_crop(q as int));
        lemma_crop_id(q as int);
        assert(folded_q as int == q as int);
        lemma_mul10_add_exact(folded_q, r as u8);
        if m as int <= i64::MAX as int {
            lemma_crop_id(m as int);
        } else {
            lemma_crop_top();
        }
    }
}

/// Parsing a run of digit characters back: the number production
/// accumulates exactly their fold and pushes the terminator back.
proof fn lemma_number_rt(ds: Seq<char>, num: i64, neg: bool, v: CtxView, rest: Seq<Token>)
    requires
        v.rem == tokens_of(ds) + rest,
        forall|i: int| 0 <= i < ds.len() ==> is_digit_char(#[trigger] ds[i]),
        rest.len() > 0,
        rest[0] == Token::Comma || rest[0] == Token::CloseCurlyBrace,
    ensures
        number_step(v, num, neg) is Done,
        number_step(v, num, neg).value() == (if neg {
            wrap_neg(wrapfold(num, ds))
        } else {
            wrapfold(num, ds)
        }),
        number_step(v, num, neg).end().rem == rest,
    decreases ds.len(),
{
    if ds.len() == 0 {
        assert(v.rem =~= rest);
        let t = v.rem[0];
        let w = adv(v);
        assert(rewound(w, t).rem =~= rest);
    } else {
        let c = ds[0];
        assert(v.rem[0] == token_of(c));
        assert(token_of(c) == Token::Digit(digit_val(c)));
        let w = adv(v);
        assert(w.rem =~= tokens_of(ds.drop_first()) + rest) by {
            assert(tokens_of(ds).drop_first() =~= tokens_of(ds.drop_first()));
        }
        lemma_number_rt(ds.drop_first(), mul10_add(num, digit_val(c)), neg, w, rest);
    }
}

/// A scalar the grammar can express: any integer, any boolean, a string of
/// whitespace, letters and digits.
pub open spec fn wf_scalar(jv: JsonValue) -> bool {
    match jv {
        JsonValue::Number(n) => true,
        JsonValue::String(s) => wf_string_text(s@),
        JsonValue::Boolean(b) => true,
    }
}

/// Whether a scalar's text is ended only by the token after it: numbers
/// and booleans read up to a comma or close brace, strings close
/// themselves.
pub open spec fn needs_terminator(jv: JsonValue) -> bool {
    match jv {
        JsonValue::Number(n) => true,
        JsonValue::Boolean(b) => true,
        JsonValue::String(s) => false,
    }
}

/// Parsing a rendered scalar back: from a cursor whose queue opens with
/// the scalar's text (a comma or close brace following where the scalar
/// needs one), the value production yields exactly that scalar and leaves
/// the rest.
proof fn lemma_value_rt(jv: JsonValue, v: CtxView, rest: Seq<Token>)
    requires
        wf_scalar(jv),
        v.rem == tokens_of(crate::visitor::render_value(jv)) + rest,
        needs_terminator(jv) ==> rest.len() > 0 && (rest[0] == Token::Comma || rest[0]
            == Token::CloseCurlyBrace),
    ensures
        value_step(v) is Done,
        value_step(v).value() == val_view(jv),
        value_step(v).end().rem == rest,
{
    match jv {
        JsonValue::String(s) => {
            let body = crate::visitor::render_value(jv);
            assert(body == seq!['"'] + s@ + seq!['"']);
            assert(v.rem[0] == token_of(body[0]));
            assert(body[0] == '"');
            assert(token_of('"') == Token::Quote);
            let w = adv(v);
            assert(w.rem =~= tokens_of(s@) + seq![Token::Quote] + rest) by {
                assert(tokens_of(body).drop_first() =~= tokens_of(s@) + seq![Token::Quote]);
            }
            lemma_string_rt(s@, Seq::empty(), w, rest);
            assert(Seq::<char>::empty() + s@ =~= s@);
        },
        JsonValue::Number(n) => {
            if n >= 0 {
                let m = n as nat;
                lemma_fold_decimal(m);
                let ds = dec_digits(m);
                assert(crate::visitor::render_value(jv) == ds);
                assert(v.rem[0] == token_of(ds[0]));
                assert(token_of(ds[0]) == Token::Digit(digit_val(ds[0])));
                let w = adv(v);
                assert(w.rem =~= tokens_of(ds.drop_first()) + rest) by {
                    assert(tokens_of(ds).drop_first() =~= tokens_of(ds.drop_first()));
                }
                lemma_number_rt(ds.drop_first(), digit_val(ds[0]) as i64, false, w, rest);
                lemma_crop_id(m as int);
            } else {
                let m = (-(n as int)) as nat;
                lemma_fold_decimal(m);
                let ds = dec_digits(m);
                assert(crate::visitor::render_value(jv) == seq!['-'] + ds);
                assert(v.rem[0] == token_of('-'));
                assert(token_of('-') == Token::NegativeSign);
                let w = adv(v);
                assert(w.rem =~= tokens_of(ds) + rest) by {
                    assert(tokens_of(seq!['-'] + ds).drop_first() =~= tokens_of(ds));
                }
                assert(w.rem[0] == token_of(ds[0]));
                assert(token_of(ds[0]) == Token::Digit(digit_val(ds[0])));
                let x = adv(w);
                assert(x.rem =~= tokens_of(ds.drop_first()) + rest) by {
                    assert(tokens_of(ds).drop_first() =~= tokens_of(ds.drop_first()));
                }
                lemma_number_rt(ds.drop_first(), digit_val(ds[0]) as i64, true, x, rest);
                lemma_wrap_neg(wrapfold(digit_val(ds[0]) as i64, ds.drop_first()));
                if n == i64::MIN {
                    lemma_crop_top();
                } else {
                    lemma_crop_id(m as int);
                }
            }
        },
        JsonValue::Boolean(b) => {
            lemma_bool_rt(b, v, rest);
        },
    }
}

/// Parsing a rendered boolean literal back, letter by letter.
proof fn lemma_bool_rt(b: bool, v: CtxView, rest: Seq<Token>)
    requires
        v.rem == tokens_of(crate::visitor::render_value(JsonValue::Boolean(b))) + rest,
        rest.len() > 0,
        rest[0] == Token::Comma || rest[0] == Token::CloseCurlyBrace,
    ensures
        value_step(v) is Done,
        value_step(v).value() == val_view(JsonValue::Boolean(b)),
        value_step(v).end().rem == rest,
{
    let cs = crate::visitor::render_value(JsonValue::Boolean(b));
    if b {
        assert(cs == seq!['t', 'r', 'u', 'e']);
        assert(v.rem[0] == token_of('t'));
        assert(token_of('t') == Token::Character('t'));
        let w0 = adv(v);
        assert(value_step(v) == (match bool_step(w0, seq!['t']) {
            Outcome::Done { val, end } => Outcome::Done {
                val: crate::ast::ValV::Bool(val),
                end,
            },
            Outcome::Fail { err, end } => Outcome::Fail { err, end },
        }));
        assert(w0.rem =~= seq![Token::Character('r'), Token::Character('u'), Token::Character('e')]
            + rest) by {
            assert(token_of('r') == Token::Character('r'));
            assert(token_of('u') == Token::Character('u'));
            assert(token_of('e') == Token::Character('e'));
            assert(tokens_of(cs).drop_first() =~= seq![
                Token::Character('r'),
                Token::Character('u'),
                Token::Character('e'),
            ]);
        }
        let w1 = adv(w0);
        assert(w1.rem =~= seq![Token::Character('u'), Token::Character('e')] + rest);
        assert(bool_step(w0, seq!['t']) == bool_step(w1, seq!['t'].push('r')));
        let w2 = adv(w1);
        assert(w2.rem =~= seq![Token::Character('e')] + rest);
        assert(bool_step(w1, seq!['t'].push('r')) == bool_step(w2, seq!['t'].push('r').push('u')));
        let w3 = adv(w2);
        assert(w3.rem =~= rest);
        assert(bool_step(w2, seq!['t'].push('r').push('u')) == bool_step(
            w3,
            seq!['t'].push('r').push('u').push('e'),
        ));
        let t = rest[0];
        let w4 = adv(w3);
        assert(bool_step(w3, seq!['t'].push('r').push('u').push('e')) == bool_word(
            seq!['t'].push('r').push('u').push('e'),
            rewound(w4, t),
        ));
        assert(seq!['t'].push('r').push('u').push('e') =~= seq!['t', 'r', 'u', 'e']);
        assert(rewound(w4, t).rem =~= rest);
    } else {
        assert(cs == seq!['f', 'a', 'l', 's', 'e']);
        assert(v.rem[0] == token_of('f'));
        assert(token_of('f') == Token::Character('f'));
        let w0 = adv(v);
        assert(value_step(v) == (match bool_step(w0, seq!['f']) {
            Outcome::Done { val, end } => Outcome::Done {
                val: crate::ast::ValV::Bool(val),
                end,
            },
            Outcome::Fail { err, end } => Outcome::Fail { err, end },
        }));
        assert(w0.rem =~= seq![
            Token::Character('a'),
            Token::Character('l'),
            Token::Character('s'),
            Token::Character('e'),
        ] + rest) by {
            assert(token_of('a') == Token::Character('a'));
            assert(token_of('l') == Token::Character('l'));
            assert(token_of('s') == Token::Character('s'));
            assert(token_of('e') == Token::Character('e'));
            assert(tokens_of(cs).drop_first() =~= seq![
                Token::Character('a'),
                Token::Character('l'),
                Token::Character('s'),
                Token::Character('e'),
            ]);
        }
        let w1 = adv(w0);
        assert(w1.rem =~= seq![Token::Character('l'), Token::Character('s'), Token::Character('e')]
            + rest);
        assert(bool_step(w0, seq!['f']) == bool_step(w1, seq!['f'].push('a')));
        let w2 = adv(w1);
        assert(w2.rem =~= seq![Token::Character('s'), Token::Character('e')] + rest);
        assert(bool_step(w1, seq!['f'].push('a')) == bool_step(w2, seq!['f'].push('a').push('l')));
        let w3 = adv(w2);
        assert(w3.rem =~= seq![Token::Character('e')] + rest);
        assert(bool_step(w2, seq!['f'].push('a').push('l')) == bool_step(
            w3,
            seq!['f'].push('a').push('l').push('s'),
        ));
        let w4 = adv(w3);
        assert(w4.rem =~= rest);
        assert(bool_step(w3, seq!['f'].push('a').push('l').push('s')) == bool_step(
            w4,
            seq!['f'].push('a').push('l').push('s').push('e'),
        ));
        let t = rest[0];
        let w5 = adv(w4);
        assert(bool_step(w4, seq!['f'].push('a').push('l').push('s').push('e')) == bool_word(
            seq!['f'].push('a').push('l').push('s').push('e'),
            rewound(w5, t),
        ));
        assert(seq!['f'].push('a').push('l').push('s').push('e') =~= seq!['f', 'a', 'l', 's', 'e']);
        assert(seq!['f'].push('a').push('l').push('s').push('e') !~= seq!['t', 'r', 'u', 'e']);
        assert(rewound(w5, t).rem =~= rest);
    }
}

/// Parsing a rendered assignment back, from just after its opening quote:
/// the name, the closing quote, the colon, the single space the renderer
/// emits, then the value.
proof fn lemma_assignment_rt(pa: PropertyAssignmentExpression, v: CtxView, rest: Seq<Token>)
    requires
        wf_name_text(pa.name.name@),
        wf_scalar(pa.value.value),
        v.rem == tokens_of(pa.name.name@) + seq![
            Token::Quote,
            Token::Colon,
            Token::Whitespace(' '),
        ] + tokens_of(crate::visitor::render_value(pa.value.value)) + rest,
        needs_terminator(pa.value.value) ==> rest.len() > 0 && (rest[0] == Token::Comma || rest[0]
            == Token::CloseCurlyBrace),
    ensures
        assignment_step(v) is Done,
        assignment_step(v).value() == ChildV::Assign(pa.name.name@, val_view(pa.value.value)),
        assignment_step(v).end().rem == rest,
{
    let ns = pa.name.name@;
    let valtoks = tokens_of(crate::visitor::render_value(pa.value.value));
    let rest1 = seq![Token::Whitespace(' ')] + valtoks + rest;
    assert(v.rem =~= tokens_of(ns) + seq![Token::Quote, Token::Colon] + rest1);
    lemma_name_rt(ns, Seq::empty(), v, rest1);
    assert(Seq::<char>::empty() + ns =~= ns);
    let v1 = name_step(v, Seq::empty(), false).end();
    assert(v1.rem[0] == Token::Whitespace(' '));
    let v2 = adv(v1);
    assert(value_step(v1) == value_step(v2));
    assert(v2.rem =~= valtoks + rest);
    lemma_value_rt(pa.value.value, v2, rest);
}

/// The view of one well-formed child of an object.
pub open spec fn child_view_of(e: Expression) -> ChildV {
    match e {
        Expression::Whitespace(w) => ChildV::Ws(w.c),
        Expression::Comma(c) => ChildV::Sep,
        Expression::PropertyAssignment(pa) => ChildV::Assign(
            pa.name.name@,
            val_view(pa.value.value),
        ),
        _ => vstd::pervasive::arbitrary(),
    }
}

/// The views of an object's children, in order.
pub open spec fn views_of(es: Seq<Expression>) -> Seq<ChildV> {
    es.map_values(|e: Expression| child_view_of(e))
}

/// One child the flat-object grammar can express.
pub open spec fn wf_child(e: Expression) -> bool {
    match e {
        Expression::Whitespace(w) => is_ws_char(w.c),
        Expression::Comma(c) => true,
        Expression::PropertyAssignment(pa) => wf_name_text(pa.name.name@) && wf_scalar(
            pa.value.value,
        ),
        _ => false,
    }
}

/// Whether this child is an assignment whose value reads up to the next
/// comma or close brace.
pub open spec fn assign_needs_term(e: Expression) -> bool {
    match e {
        Expression::PropertyAssignment(pa) => needs_terminator(pa.value.value),
        _ => false,
    }
}

/// A child sequence the grammar can parse back: every child well formed,
/// and every number or boolean assignment followed directly by a comma or
/// by the end of the object.
pub open spec fn wf_children(es: Seq<Expression>) -> bool {
    &&& forall|i: int| 0 <= i < es.len() ==> wf_child(#[trigger] es[i])
    &&& forall|i: int|
        0 <= i && i + 1 < es.len() && assign_needs_term(#[trigger] es[i]) ==> es[i + 1]
            == Expression::Comma(crate::ast::CommaExpression {})
}

/// A flat object the round-trip law covers: whitespace, comma and
/// assignment children with scalar values, names of letters and digits not
/// starting with a digit, strings without quotes or other punctuation, and
/// numbers and booleans ended by a comma or the close brace.
pub open spec fn wf_flat_object(t: Expression) -> bool {
    match t {
        Expression::Object(o) => wf_children(o.expressions@),
        _ => false,
    }
}

/// Parsing rendered children back, one at a time, until the close brace.
proof fn lemma_children_rt(es: Seq<Expression>, v: CtxView, acc: Seq<ChildV>, rest: Seq<Token>)
    requires
        wf_children(es),
        v.rem == tokens_of(crate::visitor::render_children(es)) + seq![Token::CloseCurlyBrace]
            + rest,
    ensures
        object_step(v, acc) is Done,
        object_step(v, acc).value() == acc + views_of(es),
        object_step(v, acc).end().rem == rest,
    decreases es.len(),
{
    if es.len() == 0 {
        assert(tokens_of(crate::visitor::render_children(es)) =~= Seq::<Token>::empty());
        assert(v.rem =~= seq![Token::CloseCurlyBrace] + rest);
        assert(v.rem[0] == Token::CloseCurlyBrace);
        let w = adv(v);
        assert(w.rem =~= rest);
        assert(acc + views_of(es) =~= acc);
    } else {
        let e0 = es[0];
        let tail = es.drop_first();
        assert(wf_child(e0));
        assert(wf_children(tail)) by {
            assert(forall|i: int| 0 <= i < tail.len() ==> tail[i] == es[i + 1]);
        }
        let tailtoks = tokens_of(crate::visitor::render_children(tail)) + seq![
            Token::CloseCurlyBrace,
        ] + rest;
        assert(crate::visitor::render_children(es) == crate::visitor::render_expr(e0)
            + crate::visitor::render_children(tail));
        lemma_tokens_of_add(
            crate::visitor::render_expr(e0),
            crate::visitor::render_children(tail),
        );
        assert(v.rem =~= tokens_of(crate::visitor::render_expr(e0)) + tailtoks);
        match e0 {
            Expression::Whitespace(w) => {
                assert(crate::visitor::render_expr(e0) == seq![w.c]);
                assert(v.rem[0] == token_of(w.c));
                assert(token_of(w.c) == Token::Whitespace(w.c));
                let v1 = adv(v);
                assert(v1.rem =~= tailtoks);
                lemma_children_rt(tail, v1, acc.push(ChildV::Ws(w.c)), rest);
                assert(acc.push(ChildV::Ws(w.c)) + views_of(tail) =~= acc + views_of(es));
            },
            Expression::Comma(c) => {
                assert(crate::visitor::render_expr(e0) == seq![',']);
                assert(v.rem[0] == token_of(','));
                assert(token_of(',') == Token::Comma);
                let v1 = adv(v);
                assert(v1.rem =~= tailtoks);
                lemma_children_rt(tail, v1, acc.push(ChildV::Sep), rest);
                assert(acc.push(ChildV::Sep) + views_of(tail) =~= acc + views_of(es));
            },
            Expression::PropertyAssignment(pa) => {
                let ns = pa.name.name@;
                let valtext = crate::visitor::render_value(pa.value.value);
                assert(crate::visitor::render_expr(e0) == (seq!['"'] + ns + seq!['"']) + seq![
                    ':',
                    ' ',
                ] + valtext);
                assert(v.rem[0] == token_of('"'));
                assert(token_of('"') == Token::Quote);
                let v1 = adv(v);
                assert(v1.rem =~= tokens_of(ns) + seq![
                    Token::Quote,
                    Token::Colon,
                    Token::Whitespace(' '),
                ] + tokens_of(valtext) + tailtoks) by {
                    assert(tokens_of(crate::visitor::render_expr(e0)).drop_first() =~= tokens_of(
                        ns,
                    ) + seq![Token::Quote, Token::Colon, Token::Whitespace(' ')] + tokens_of(
                        valtext,
                    ));
                }
                if needs_terminator(pa.value.value) {
                    assert(assign_needs_term(es[0]));
                    if tail.len() == 0 {
                        assert(tailtoks[0] == Token::CloseCurlyBrace);
                    } else {
                        assert(es[1] == Expression::Comma(crate::ast::CommaExpression {}));
                        assert(tail[0] == es[1]);
                        assert(crate::visitor::render_children(tail)
                            == crate::visitor::render_expr(tail[0])
                            + crate::visitor::render_children(tail.drop_first()));
                        assert(crate::visitor::render_children(tail)[0] == ',');
                        assert(tailtoks[0] == token_of(','));
                    }
                }
                lemma_assignment_rt(pa, v1, tailtoks);
                let a = ChildV::Assign(ns, val_view(pa.value.value));
                let v2 = assignment_step(v1).end();
                assert(v2.rem == tailtoks);
                lemma_children_rt(tail, v2, acc.push(a), rest);
                assert(acc.push(a) + views_of(tail) =~= acc + views_of(es));
            },
            _ => {
                assert(false);
            },
        }
    }
}

/// Tokenizing and parsing the rendering of a well-formed flat object
/// succeeds and recovers exactly the object's children.
pub proof fn lemma_flat_object_parses_back(t: Expression)
    requires
        wf_flat_object(t),
    ensures
        doc_step(start_view(tokens_of(crate::visitor::render_expr(t)))) is Done,
        (match t {
            Expression::Object(ob) => doc_step(
                start_view(tokens_of(crate::visitor::render_expr(t))),
            ).value() == DocV::Obj(views_of(ob.expressions@)),
            _ => false,
        }),
{
    match t {
        Expression::Object(ob) => {
            let es = ob.expressions@;
            let body = crate::visitor::render_children(es);
            assert(crate::visitor::render_expr(t) == seq!['{'] + body + seq!['}']);
            let v = start_view(tokens_of(crate::visitor::render_expr(t)));
            assert(v.rem[0] == token_of('{'));
            assert(token_of('{') == Token::OpenCurlyBrace);
            let w = adv(v);
            assert(w.rem =~= tokens_of(body) + seq![Token::CloseCurlyBrace]
                + Seq::<Token>::empty()) by {
                assert(tokens_of(crate::visitor::render_expr(t)).drop_first() =~= tokens_of(body)
                    + seq![Token::CloseCurlyBrace]);
            }
            lemma_children_rt(es, w, Seq::empty(), Seq::empty());
            assert(Seq::<ChildV>::empty() + views_of(es) =~= views_of(es));
        },
        _ => {
            assert(false);
        },
    }
}

/// Scalars with the same view print the same text.
proof fn lemma_render_value_by_view(a: JsonValue, b: JsonValue)
    requires
        val_view(a) == val_view(b),
    ensures
        crate::visitor::render_value(a) == crate::visitor::render_value(b),
{
}

/// A tree whose children match the views of a well-formed child sequence
/// prints the same text as that sequence.
proof fn lemma_matched_children_render(es: Seq<Expression>, ts: Seq<Expression>)
    requires
        wf_children(ts),
        crate::ast::children_match(es, views_of(ts)),
    ensures
        crate::visitor::render_children(es) == crate::visitor::render_children(ts),
    decreases ts.len(),
{
    if ts.len() == 0 {
        assert(es.len() == 0);
    } else {
        assert(crate::ast::child_matches(es[0], views_of(ts)[0]));
        assert(views_of(ts)[0] == child_view_of(ts[0]));
        assert(wf_child(ts[0]));
        match ts[0] {
            Expression::Whitespace(w) => {
                assert(es[0] == Expression::Whitespace(crate::ast::WhitespaceExpression {
                    c: w.c,
                }));
            },
            Expression::Comma(c) => {
                assert(es[0] == Expression::Comma(crate::ast::CommaExpression {}));
            },
            Expression::PropertyAssignment(pa) => {
                match es[0] {
                    Expression::PropertyAssignment(pb) => {
                        assert(pb.name.name@ == pa.name.name@);
                        lemma_render_value_by_view(pb.value.value, pa.value.value);
                        assert(crate::visitor::render_expr(es[0])
                            == crate::visitor::render_expr(ts[0]));
                    },
                    _ => {
                        assert(false);
                    },
                }
            },
            _ => {
                assert(false);
            },
        }
        assert(wf_children(ts.drop_first())) by {
            assert(forall|i: int|
                0 <= i < ts.drop_first().len() ==> ts.drop_first()[i] == ts[i + 1]);
        }
        assert(crate::ast::children_match(es.drop_first(), views_of(ts.drop_first()))) by {
            assert(views_of(ts).drop_first() =~= views_of(ts.drop_first()));
            assert(forall|i: int|
                0 <= i < es.drop_first().len() ==> es.drop_first()[i] == es[i + 1]);
        }
        lemma_matched_children_render(es.drop_first(), ts.drop_first());
    }
}

/// The round-trip law for well-formed flat objects: any tree that `parse`
/// can return for the tokens of `render_expr(t)` prints back to exactly
/// the same text, so rendering the parse of such a source reproduces the
/// source character for character.
pub proof fn lemma_flat_object_round_trip(t: Expression, e: Expression)
    requires
        wf_flat_object(t),
        (match (e, doc_step(start_view(tokens_of(crate::visitor::render_expr(t))))) {
            (Expression::Object(o), Outcome::Done { val, end }) => match val {
                DocV::Obj(cs) => crate::ast::children_match(o.expressions@, cs),
                _ => false,
            },
            _ => false,
        }),
    ensures
        crate::visitor::render_expr(e) == crate::visitor::render_expr(t),
{
    lemma_flat_object_parses_back(t);
    match (e, t) {
        (Expression::Object(o), Expression::Object(ob)) => {
            lemma_matched_children_render(o.expressions@, ob.expressions@);
        },
        _ => {
            assert(false);
        },
    }
}

} // verus!
