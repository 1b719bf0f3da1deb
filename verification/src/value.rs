use crate::ast::{copy_node, node_equal, Ast, Node};
use vstd::prelude::*;

verus! {

/// A value at run time.
#[derive(Debug, PartialEq)]
pub enum Value {
    String(String),
    Array(Vec<Value>),
    Number(i32),
    Bool(bool),
    /// The handle of a variable; never the result of an evaluation.
    Identifier(u64),
    /// A function: its parameters, each the handle of a variable with the
    /// default expression where it has one, and its body. It captures no
    /// variables.
    Function { params: Vec<(u64, Option<Node>)>, body: Box<Node> },
}

/// The mathematical value of a [`Value`].
pub enum ValueView {
    String(Seq<char>),
    Array(Seq<ValueView>),
    Number(int),
    Bool(bool),
    Identifier(u64),
    Function { params: Seq<(u64, Option<Ast>)>, body: Ast },
}

/// The value of one parameter.
pub open spec fn param_view(p: (u64, Option<Node>)) -> (u64, Option<Ast>) {
    (
        p.0,
        match p.1 {
            Some(node) => Some(node@),
            None => None,
        },
    )
}

/// The values of a list of parameters, one by one.
pub open spec fn params_view(params: Seq<(u64, Option<Node>)>) -> Seq<(u64, Option<Ast>)> {
    Seq::new(params.len(), |i: int| param_view(params[i]))
}

/// The values of a sequence of run-time values, one by one.
pub open spec fn values_view(values: Seq<Value>) -> Seq<ValueView>
    decreases values,
{
    Seq::new(
        values.len(),
        |i: int|
            if 0 <= i < values.len() {
                value_view(values[i])
            } else {
                ValueView::Bool(false)
            },
    )
}

/// The value of a run-time value.
pub open spec fn value_view(value: Value) -> ValueView
    decreases value,
{
    match value {
        Value::String(s) => ValueView::String(s@),
        Value::Array(items) => ValueView::Array(values_view(items@)),
        Value::Number(n) => ValueView::Number(n as int),
        Value::Bool(b) => ValueView::Bool(b),
        Value::Identifier(id) => ValueView::Identifier(id),
        Value::Function { params, body } => ValueView::Function {
            params: params_view(params@),
            body: (*body)@,
        },
    }
}

impl View for Value {
    type V = ValueView;

    open spec fn view(&self) -> ValueView {
        value_view(*self)
    }
}

/// Copies a list of parameters.
pub fn copy_params(params: &Vec<(u64, Option<Node>)>) -> (r: Vec<(u64, Option<Node>)>)
    ensures
        params_view(r@) == params_view(params@),
{
    let mut out: Vec<(u64, Option<Node>)> = Vec::new();
    let mut i: usize = 0;
    while i < params.len()
        invariant
            i <= params.len(),
            out@.len() == i,
            forall|j: int| 0 <= j < i ==> param_view(#[trigger] out@[j]) == param_view(params@[j]),
        decreases params.len() - i,
    {
        let default = match &params[i].1 {
            Some(node) => Some(copy_node(node)),
            None => None,
        };
        out.push((params[i].0, default));
        i += 1;
    }
    assert(params_view(out@) =~= params_view(params@));
    out
}

/// Copies a sequence of values, each in full depth.
pub fn copy_values(values: &Vec<Value>) -> (r: Vec<Value>)
    ensures
        values_view(r@) == values_view(values@),
    decreases values,
{
    let mut out: Vec<Value> = Vec::new();
    let mut i: usize = 0;
    while i < values.len()
        invariant
            i <= values.len(),
            out@.len() == i,
            forall|j: int| 0 <= j < i ==> value_view(#[trigger] out@[j]) == value_view(values@[j]),
        decreases values.len() - i,
    {
        let c = copy_value(&values[i]);
        out.push(c);
        i += 1;
    }
    assert(values_view(out@) =~= values_view(values@));
    out
}

/// Copies a value in full depth: the copy shares nothing with `value`.
pub fn copy_value(value: &Value) -> (r: Value)
    ensures
        r@ == value@,
    decreases value,
{
    match value {
        Value::String(s) => Value::String(s.clone()),
        Value::Array(items) => Value::Array(copy_values(items)),
        Value::Number(n) => Value::Number(*n),
        Value::Bool(b) => Value::Bool(*b),
        Value::Identifier(id) => Value::Identifier(*id),
        Value::Function { params, body } => Value::Function {
            params: copy_params(params),
            body: Box::new(copy_node(body)),
        },
    }
}

impl Clone for Value {
    fn clone(&self) -> (r: Self)
        ensures
            r@ == self@,
    {
        copy_value(self)
    }
}

/// Whether two strings hold the same text.
pub fn text_equal(a: &String, b: &String) -> (r: bool)
    ensures
        r == (a@ == b@),
{
    *a == *b
}

/// Whether two lists of parameters are the same.
pub fn params_equal(a: &Vec<(u64, Option<Node>)>, b: &Vec<(u64, Option<Node>)>) -> (r: bool)
    ensures
        r == (params_view(a@) == params_view(b@)),
{
    if a.len() != b.len() {
        assert(params_view(a@).len() != params_view(b@).len());
        return false;
    }
    let mut i: usize = 0;
    while i < a.len()
        invariant
            i <= a.len(),
            a.len() == b.len(),
            forall|j: int| 0 <= j < i ==> param_view(#[trigger] a@[j]) == param_view(b@[j]),
        decreases a.len() - i,
    {
        let same = a[i].0 == b[i].0 && match (&a[i].1, &b[i].1) {
            (Some(x), Some(y)) => node_equal(x, y),
            (None, None) => true,
            _ => false,
        };
        if !same {
            assert(params_view(a@)[i as int] != params_view(b@)[i as int]);
            return false;
        }
        i += 1;
    }
    assert(params_view(a@) =~= params_view(b@));
    true
}

/// Whether two sequences of values are the same, value by value.
pub fn values_equal(a: &Vec<Value>, b: &Vec<Value>) -> (r: bool)
    ensures
        r == (values_view(a@) == values_view(b@)),
    decreases a,
{
    if a.len() != b.len() {
        assert(values_view(a@).len() != values_view(b@).len());
        return false;
    }
    let mut i: usize = 0;
    while i < a.len()
        invariant
            i <= a.len(),
            a.len() == b.len(),
            forall|j: int| 0 <= j < i ==> value_view(#[trigger] a@[j]) == value_view(b@[j]),
        decreases a.len() - i,
    {
        if !value_equal(&a[i], &b[i]) {
            assert(values_view(a@)[i as int] != values_view(b@)[i as int]);
            return false;
        }
        i += 1;
    }
    assert(values_view(a@) =~= values_view(b@));
    true
}

/// Whether two values are the same in shape and content.
pub fn value_equal(a: &Value, b: &Value) -> (r: bool)
    ensures
        r == (a@ == b@),
    decreases a,
{
    match (a, b) {
        (Value::String(x), Value::String(y)) => text_equal(x, y),
        (Value::Array(x), Value::Array(y)) => values_equal(x, y),
        (Value::Number(x), Value::Number(y)) => *x == *y,
        (Value::Bool(x), Value::Bool(y)) => *x == *y,
        (Value::Identifier(x), Value::Identifier(y)) => *x == *y,
        (Value::Function { params: p1, body: b1 }, Value::Function { params: p2, body: b2 }) => {
            let n1: &Node = &**b1;
            let n2: &Node = &**b2;
            params_equal(p1, p2) && node_equal(n1, n2)
        },
        _ => false,
    }
}

} // verus!
