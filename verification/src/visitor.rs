//! Rendering a tree back to JSON text. `render_expr` is the mathematical
//! statement of what each node prints as; the visitor walks the tree and
//! appends exactly that to its buffer, so rendering is a pure function of
//! the tree. The renderer validates nothing: it trusts the tree, an
//! invariant the parser guarantees.

use vstd::prelude::*;
use vstd::string::StringExecFns;
use crate::ast::{
    CommaExpression, Expression, JsonArrayExpression, JsonObjectExpression, JsonValue,
    NameExpression, PropertyAssignmentExpression, ValueExpression, WhitespaceExpression,
};
use crate::decimal::{dec_digits, push_char, push_u64_decimal};

verus! {

/// The decimal text of a 64-bit signed integer.
pub open spec fn render_i64(n: i64) -> Seq<char> {
    if n < 0 {
        seq!['-'] + dec_digits((-(n as int)) as nat)
    } else {
        dec_digits(n as nat)
    }
}

/// What a scalar prints as: a string in quotes verbatim (no re-escaping),
/// an integer in decimal, a boolean as its literal word.
pub open spec fn render_value(v: JsonValue) -> Seq<char> {
    match v {
        JsonValue::Number(n) => render_i64(n),
        JsonValue::String(s) => seq!['"'] + s@ + seq!['"'],
        JsonValue::Boolean(b) => if b {
            seq!['t', 'r', 'u', 'e']
        } else {
            seq!['f', 'a', 'l', 's', 'e']
        },
    }
}

/// What a name prints as: its text in double quotes.
pub open spec fn render_name(n: NameExpression) -> Seq<char> {
    seq!['"'] + n.name@ + seq!['"']
}

/// What one node prints as. An object prints its children in insertion
/// order between braces; an assignment prints its name, then exactly
/// `: ` whatever the source spacing was, then its value.
pub open spec fn render_expr(e: Expression) -> Seq<char>
    decreases e,
{
    match e {
        Expression::Object(o) => seq!['{'] + render_children(o.expressions@) + seq!['}'],
        Expression::Array(a) => seq!['[', ']'],
        Expression::PropertyAssignment(pa) => render_name(pa.name) + seq![':', ' ']
            + render_value(pa.value.value),
        Expression::Name(n) => render_name(n),
        Expression::Value(v) => render_value(v.value),
        Expression::Whitespace(w) => seq![w.c],
        Expression::Comma(c) => seq![','],
    }
}

/// What a child sequence prints as: each child in order.
pub open spec fn render_children(s: Seq<Expression>) -> Seq<char>
    decreases s,
{
    if s.len() == 0 {
        Seq::empty()
    } else {
        render_expr(s[0]) + render_children(s.drop_first())
    }
}

/// Appending one child renders after the rest: the unrolling of
/// `render_children` from the back.
pub proof fn lemma_render_children_push(s: Seq<Expression>, e: Expression)
    ensures
        render_children(s.push(e)) == render_children(s) + render_expr(e),
    decreases s.len(),
{
    if s.len() == 0 {
        assert(s.push(e)[0] == e);
        assert(s.push(e).drop_first() =~= Seq::<Expression>::empty());
        assert(render_children(s.push(e)) == render_expr(e) + render_children(
            Seq::<Expression>::empty(),
        ));
        assert(render_children(Seq::<Expression>::empty()) == Seq::<char>::empty());
        assert(render_children(s.push(e)) =~= render_children(s) + render_expr(e));
    } else {
        assert(s.push(e)[0] == s[0]);
        assert(s.push(e).drop_first() =~= s.drop_first().push(e));
        lemma_render_children_push(s.drop_first(), e);
        assert(render_children(s.push(e)) == render_expr(s[0]) + render_children(
            s.drop_first().push(e),
        ));
        assert(render_children(s.push(e)) =~= render_children(s) + render_expr(e));
    }
}

/// A traversal with one handling method per node kind. `Expression::accept`
/// dispatches to the method matching the node; `JsonExpressionVisitor` is
/// the one renderer implementing it.
pub trait ExpressionVisitor {
    fn visit_array(&mut self, expr: &JsonArrayExpression);

    fn visit_object(&mut self, expr: &JsonObjectExpression);

    fn visit_name(&mut self, expr: &NameExpression);

    fn visit_property_assignment(&mut self, expr: &PropertyAssignmentExpression);

    fn visit_comma_expression(&mut self, expr: &CommaExpression);

    fn visit_value(&mut self, expr: &ValueExpression);

    fn visit_whitespace_expression(&mut self, expr: &WhitespaceExpression);

    fn get_json(&self) -> &str;
}

/// The renderer: accumulates output in `json` and hands the finished text
/// out through `get_json`.
pub struct JsonExpressionVisitor {
    pub json: String,
}

impl JsonExpressionVisitor {
    /// A fresh renderer with an empty buffer.
    pub fn new() -> (r: JsonExpressionVisitor)
        ensures
            r.json@ == Seq::<char>::empty(),
    {
        JsonExpressionVisitor { json: String::new() }
    }
}

impl ExpressionVisitor for JsonExpressionVisitor {
    /// The text rendered so far.
    fn get_json(&self) -> (r: &str)
        ensures
            r@ == self.json@,
    {
        self.json.as_str()
    }

    /// Renders `[]`; no production fills an array, so there is nothing
    /// more to walk.
    fn visit_array(&mut self, expr: &JsonArrayExpression)
        ensures
            final(self).json@ == old(self).json@ + seq!['[', ']'],
    {
        push_char(&mut self.json, '[');
        push_char(&mut self.json, ']');
    }

    /// Renders `{`, each child in insertion order, then `}`.
    fn visit_object(&mut self, expr: &JsonObjectExpression)
        ensures
            final(self).json@ == old(self).json@ + render_expr(Expression::Object(*expr)),
        decreases *expr,
    {
        push_char(&mut self.json, '{');
        let ghost entry = self.json@;
        let mut i: usize = 0;
        while i < expr.expressions.len()
            invariant
                i <= expr.expressions@.len(),
                self.json@ == entry + render_children(expr.expressions@.take(i as int)),
            decreases expr.expressions@.len() - i,
        {
            proof {
                assert(decreases_to!(*expr => expr.expressions@[i as int]));
            }
            expr.expressions[i].accept(self);
            proof {
                lemma_render_children_push(expr.expressions@.take(i as int), expr.expressions@[
                    i as int
                ]);
                assert(expr.expressions@.take(i as int + 1) =~= expr.expressions@.take(
                    i as int,
                ).push(expr.expressions@[i as int]));
                assert(self.json@ =~= entry + render_children(
                    expr.expressions@.take(i as int + 1),
                ));
            }
            i = i + 1;
        }
        push_char(&mut self.json, '}');
        proof {
            assert(expr.expressions@.take(expr.expressions@.len() as int) =~= expr.expressions@);
            assert(self.json@ =~= old(self).json@ + render_expr(Expression::Object(*expr)));
        }
    }

    /// Renders the name in double quotes.
    fn visit_name(&mut self, expr: &NameExpression)
        ensures
            final(self).json@ == old(self).json@ + render_name(*expr),
    {
        push_char(&mut self.json, '"');
        self.json.append(expr.name.as_str());
        push_char(&mut self.json, '"');
        proof {
            assert(self.json@ =~= old(self).json@ + render_name(*expr));
        }
    }

    /// Renders the name, the literal `: `, then the value.
    fn visit_property_assignment(&mut self, expr: &PropertyAssignmentExpression)
        ensures
            final(self).json@ == old(self).json@ + render_expr(
                Expression::PropertyAssignment(*expr),
            ),
    {
        self.visit_name(&expr.name);
        push_char(&mut self.json, ':');
        push_char(&mut self.json, ' ');
        self.visit_value(&expr.value);
        proof {
            assert(self.json@ =~= old(self).json@ + render_expr(
                Expression::PropertyAssignment(*expr),
            ));
        }
    }

    /// Renders the literal `,`.
    fn visit_comma_expression(&mut self, expr: &CommaExpression)
        ensures
            final(self).json@ == old(self).json@ + seq![','],
    {
        push_char(&mut self.json, ',');
    }

    /// Renders the scalar per its kind.
    fn visit_value(&mut self, expr: &ValueExpression)
        ensures
            final(self).json@ == old(self).json@ + render_value(expr.value),
    {
        match &expr.value {
            JsonValue::String(s) => {
                push_char(&mut self.json, '"');
                self.json.append(s.as_str());
                push_char(&mut self.json, '"');
                proof {
                    assert(self.json@ =~= old(self).json@ + render_value(expr.value));
                }
            },
            JsonValue::Number(d) => {
                let n: i64 = *d;
                if n < 0 {
                    push_char(&mut self.json, '-');
                    let m: u64 = ((-(n + 1)) as u64) + 1;
                    push_u64_decimal(&mut self.json, m);
                } else {
                    push_u64_decimal(&mut self.json, n as u64);
                }
                proof {
                    assert(self.json@ =~= old(self).json@ + render_value(expr.value));
                }
            },
            JsonValue::Boolean(b) => {
                if *b {
                    self.json.append("true");
                } else {
                    self.json.append("false");
                }
                proof {
                    reveal_strlit("true");
                    reveal_strlit("false");
                    assert(self.json@ =~= old(self).json@ + render_value(expr.value));
                }
            },
        }
    }

    /// Renders the one literal whitespace character.
    fn visit_whitespace_expression(&mut self, expr: &WhitespaceExpression)
        ensures
            final(self).json@ == old(self).json@ + seq![expr.c],
    {
        push_char(&mut self.json, expr.get_char());
    }
}

impl Expression {
    /// Double dispatch: hand this node to the visitor method matching its
    /// kind. Appends exactly `render_expr(*self)` to the visitor's buffer.
    pub fn accept(&self, visitor: &mut JsonExpressionVisitor)
        ensures
            final(visitor).json@ == old(visitor).json@ + render_expr(*self),
        decreases *self,
    {
        match self {
            Expression::Object(o) => visitor.visit_object(o),
            Expression::Array(a) => visitor.visit_array(a),
            Expression::PropertyAssignment(pa) => visitor.visit_property_assignment(pa),
            Expression::Name(n) => visitor.visit_name(n),
            Expression::Value(v) => visitor.visit_value(v),
            Expression::Whitespace(w) => visitor.visit_whitespace_expression(w),
            Expression::Comma(c) => visitor.visit_comma_expression(c),
        }
    }
}

/// Rendering is a pure function of the tree: two renderings of the same
/// tree from fresh visitors are character-for-character identical. This is
/// what `accept` promises; stated here over the texts themselves.
pub proof fn lemma_rendering_idempotent(e: Expression, first: Seq<char>, second: Seq<char>)
    requires
        first == Seq::<char>::empty() + render_expr(e),
        second == Seq::<char>::empty() + render_expr(e),
    ensures
        first == second,
{
}

} // verus!
