//! The syntax-tree node set. A parsed document is a tree of nodes in which
//! whitespace and commas are first-class children of an object, so that the
//! renderer can reproduce the source layout. Composite nodes own their
//! children outright: the tree has no sharing and no cycles.

use vstd::prelude::*;

verus! {

/// A JSON scalar: a 64-bit signed integer, a string (no escape decoding),
/// or a boolean. Floating point and null are not representable.
#[derive(Debug, Clone, PartialEq)]
pub enum JsonValue {
    Number(i64),
    String(String),
    Boolean(bool),
}

/// The mathematical shape of a scalar: strings as character sequences.
pub enum ValV {
    Num(i64),
    Str(Seq<char>),
    Bool(bool),
}

/// The view of a scalar.
pub open spec fn val_view(v: JsonValue) -> ValV {
    match v {
        JsonValue::Number(n) => ValV::Num(n),
        JsonValue::String(s) => ValV::Str(s@),
        JsonValue::Boolean(b) => ValV::Bool(b),
    }
}

/// A property key, stored unquoted.
#[derive(Debug, Clone, PartialEq)]
pub struct NameExpression {
    pub name: String,
}

impl NameExpression {
    pub fn new(name: String) -> (r: NameExpression)
        ensures
            r.name == name,
    {
        NameExpression { name }
    }
}

/// A scalar value node.
#[derive(Debug, Clone, PartialEq)]
pub struct ValueExpression {
    pub value: JsonValue,
}

impl ValueExpression {
    pub fn new(value: JsonValue) -> (r: ValueExpression)
        ensures
            r.value == value,
    {
        ValueExpression { value }
    }
}

/// One literal whitespace character (space, tab, or newline), preserved
/// verbatim from the input.
#[derive(Debug, Clone, PartialEq)]
pub struct WhitespaceExpression {
    pub c: char,
}

impl WhitespaceExpression {
    pub fn new(c: char) -> (r: WhitespaceExpression)
        ensures
            r.c == c,
    {
        WhitespaceExpression { c }
    }

    pub fn get_char(&self) -> (r: char)
        ensures
            r == self.c,
    {
        self.c
    }
}

/// A structural separator between properties; carries nothing.
#[derive(Debug, Clone, PartialEq)]
pub struct CommaExpression;

impl CommaExpression {
    pub fn new() -> (r: CommaExpression)
        ensures
            r == (CommaExpression {}),
    {
        CommaExpression {}
    }
}

/// A marker for a literal newline. The parser builds `WhitespaceExpression`
/// nodes carrying `'\n'` instead; this node stands apart from the tree.
#[derive(Debug, Clone, PartialEq)]
pub struct NewlineExpression;

impl NewlineExpression {
    pub fn new() -> (r: NewlineExpression)
        ensures
            r == (NewlineExpression {}),
    {
        NewlineExpression {}
    }
}

/// One `name: value` pair.
#[derive(Debug, Clone, PartialEq)]
pub struct PropertyAssignmentExpression {
    pub name: NameExpression,
    pub value: ValueExpression,
}

impl PropertyAssignmentExpression {
    pub fn new(name: NameExpression, value: ValueExpression) -> (r:
        PropertyAssignmentExpression)
        ensures
            r.name == name,
            r.value == value,
    {
        PropertyAssignmentExpression { name, value }
    }
}

/// An object: its children in document order, a mix of whitespace, comma,
/// and property-assignment nodes. Insertion order is rendering order.
#[derive(Debug, PartialEq)]
pub struct JsonObjectExpression {
    pub expressions: Vec<Expression>,
}

impl JsonObjectExpression {
    pub fn new() -> (r: JsonObjectExpression)
        ensures
            r.expressions@ == Seq::<Expression>::empty(),
    {
        JsonObjectExpression { expressions: Vec::new() }
    }

    /// Append one child; children are only ever appended, never reordered.
    pub fn add_expr(&mut self, expr: Expression)
        ensures
            final(self).expressions@ == old(self).expressions@.push(expr),
    {
        self.expressions.push(expr);
    }
}

/// An array. The array production is a stub: no parser production fills it,
/// so the node carries nothing.
#[derive(Debug, Clone, PartialEq)]
pub struct JsonArrayExpression {}

impl JsonArrayExpression {
    pub fn new() -> (r: JsonArrayExpression)
        ensures
            r == (JsonArrayExpression {}),
    {
        JsonArrayExpression {}
    }
}

/// A tree node: the closed sum of every node kind. A traversal matches on
/// the kind, so the compiler checks that every kind is handled.
#[derive(Debug, PartialEq)]
pub enum Expression {
    Object(JsonObjectExpression),
    Array(JsonArrayExpression),
    PropertyAssignment(PropertyAssignmentExpression),
    Name(NameExpression),
    Value(ValueExpression),
    Whitespace(WhitespaceExpression),
    Comma(CommaExpression),
}

/// The mathematical shape of one child of a parsed object: a whitespace
/// character, a separator, or a `name: value` pair.
pub enum ChildV {
    Ws(char),
    Sep,
    Assign(Seq<char>, ValV),
}

/// Whether the node `e` is exactly the child that `c` describes.
pub open spec fn child_matches(e: Expression, c: ChildV) -> bool {
    match c {
        ChildV::Ws(ch) => e == Expression::Whitespace(WhitespaceExpression { c: ch }),
        ChildV::Sep => e == Expression::Comma(CommaExpression {}),
        ChildV::Assign(n, v) => match e {
            Expression::PropertyAssignment(pa) => pa.name.name@ == n && val_view(
                pa.value.value,
            ) == v,
            _ => false,
        },
    }
}

/// Whether the children of an object are exactly those that `cs` describes,
/// in the same order.
pub open spec fn children_match(es: Seq<Expression>, cs: Seq<ChildV>) -> bool {
    es.len() == cs.len() && (forall|i: int|
        0 <= i < es.len() ==> child_matches(#[trigger] es[i], cs[i]))
}

} // verus!
