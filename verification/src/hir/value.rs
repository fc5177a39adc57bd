use vstd::prelude::*;

use super::dict::{dict_entries, Dict};
use crate::lexer::token::FloatLit;

verus! {

/// A single value.
#[derive(Clone, Debug, PartialEq)]
pub enum Primitive {
    Boolean(bool),
    Integer(i32),
    Float(FloatLit),
    String(String),
    Null,
    Undefined,
}

/// A value that holds other values; a dictionary keeps its keys in the order
/// in which they were first inserted.
#[derive(Debug, PartialEq)]
pub enum Collection {
    Tuple(Vec<Value>),
    List(Vec<Value>),
    Dict(Dict),
}

/// A value of the language.
#[derive(Debug, PartialEq)]
pub enum Value {
    Primitive(Primitive),
    Collection(Collection),
    Error,
}

/// The mathematical view of a primitive.
pub enum PrimitiveV {
    Boolean(bool),
    Integer(i32),
    Float(Seq<char>),
    String(Seq<char>),
    Null,
    Undefined,
}

/// The mathematical view of a value: collections become sequences, a
/// dictionary the sequence of its entries in order.
pub enum ValueV {
    Primitive(PrimitiveV),
    Tuple(Seq<ValueV>),
    List(Seq<ValueV>),
    Dict(Seq<(Seq<char>, ValueV)>),
    Error,
}

/// The undefined value, which a variable holds before it is set.
pub open spec fn undefined() -> ValueV {
    ValueV::Primitive(PrimitiveV::Undefined)
}

impl View for Primitive {
    type V = PrimitiveV;

    open spec fn view(&self) -> PrimitiveV {
        match self {
            Primitive::Boolean(b) => PrimitiveV::Boolean(*b),
            Primitive::Integer(x) => PrimitiveV::Integer(*x),
            Primitive::Float(f) => PrimitiveV::Float(f.digits@),
            Primitive::String(s) => PrimitiveV::String(s@),
            Primitive::Null => PrimitiveV::Null,
            Primitive::Undefined => PrimitiveV::Undefined,
        }
    }
}

/// The view of a value.
pub open spec fn value_view(v: Value) -> ValueV
    decreases v,
{
    match v {
        Value::Primitive(p) => ValueV::Primitive(p@),
        Value::Collection(Collection::Tuple(xs)) => ValueV::Tuple(values_view(xs@)),
        Value::Collection(Collection::List(xs)) => ValueV::List(values_view(xs@)),
        Value::Collection(Collection::Dict(d)) => ValueV::Dict(dict_entries(d)),
        Value::Error => ValueV::Error,
    }
}

/// The views of a sequence of values.
pub open spec fn values_view(s: Seq<Value>) -> Seq<ValueV>
    decreases s,
{
    if s.len() == 0 {
        Seq::empty()
    } else {
        values_view(s.subrange(0, s.len() - 1)).push(value_view(s[s.len() - 1]))
    }
}

/// `values_view` views each value in its place.
pub proof fn lemma_values_view(s: Seq<Value>)
    ensures
        values_view(s).len() == s.len(),
        forall|a: int| 0 <= a < s.len() ==> #[trigger] values_view(s)[a] == value_view(s[a]),
    decreases s.len(),
{
    if s.len() > 0 {
        let t = s.subrange(0, s.len() - 1);
        lemma_values_view(t);
        assert forall|a: int| 0 <= a < s.len() implies #[trigger] values_view(s)[a] == value_view(s[a]) by {
            if a < s.len() - 1 {
                assert(t[a] == s[a]);
            }
        }
    }
}

/// Values with the same views, in the same places, have the same views.
pub proof fn lemma_values_view_eq(s: Seq<Value>, t: Seq<Value>)
    requires
        s.len() == t.len(),
        forall|a: int| 0 <= a < s.len() ==> value_view(#[trigger] s[a]) == value_view(t[a]),
    ensures
        values_view(s) == values_view(t),
{
    lemma_values_view(s);
    lemma_values_view(t);
    assert(values_view(s) =~= values_view(t));
}

impl Primitive {
    /// A copy of the primitive.
    pub fn copy(&self) -> (r: Primitive)
        ensures
            r@ == self@,
    {
        match self {
            Primitive::Boolean(b) => Primitive::Boolean(*b),
            Primitive::Integer(x) => Primitive::Integer(*x),
            Primitive::Float(f) => Primitive::Float(f.copy()),
            Primitive::String(s) => Primitive::String(s.clone()),
            Primitive::Null => Primitive::Null,
            Primitive::Undefined => Primitive::Undefined,
        }
    }
}

/// Copies of the values in `xs`, in order.
pub fn copy_values(xs: &Vec<Value>) -> (r: Vec<Value>)
    ensures
        r@.len() == xs@.len(),
        forall|a: int| 0 <= a < xs@.len() ==> (#[trigger] r@[a])@ == xs@[a]@,
    decreases xs@, 0int,
{
    let mut out: Vec<Value> = Vec::new();
    let mut i: usize = 0;
    while i < xs.len()
        invariant
            i <= xs@.len(),
            out@.len() == i,
            forall|a: int| 0 <= a < i ==> (#[trigger] out@[a])@ == xs@[a]@,
        decreases xs@.len() - i,
    {
        out.push(xs[i].copy());
        i = i + 1;
    }
    out
}

impl Value {
    /// A copy of the value.
    pub fn copy(&self) -> (r: Value)
        ensures
            r@ == self@,
        decreases self, 1int,
    {
        match self {
            Value::Primitive(p) => Value::Primitive(p.copy()),
            Value::Collection(Collection::Tuple(xs)) => {
                let ys = copy_values(xs);
                proof {
                    lemma_values_view_eq(ys@, xs@);
                }
                Value::Collection(Collection::Tuple(ys))
            },
            Value::Collection(Collection::List(xs)) => {
                let ys = copy_values(xs);
                proof {
                    lemma_values_view_eq(ys@, xs@);
                }
                Value::Collection(Collection::List(ys))
            },
            Value::Collection(Collection::Dict(d)) => Value::Collection(Collection::Dict(d.copy())),
            Value::Error => Value::Error,
        }
    }
}

impl Primitive {
    /// The primitive that a value is, if it is one.
    pub fn try_from_value(val: Value) -> (r: Result<Primitive, ()>)
        ensures
            match val {
                Value::Primitive(p) => r == Ok::<Primitive, ()>(p),
                _ => r is Err,
            },
    {
        match val {
            Value::Primitive(x) => Ok(x),
            Value::Collection(_) => Err(()),
            Value::Error => Err(()),
        }
    }
}

impl Default for Value {
    fn default() -> (r: Value)
        ensures
            r@ == undefined(),
    {
        Value::Primitive(Primitive::Undefined)
    }
}

impl View for Value {
    type V = ValueV;

    open spec fn view(&self) -> ValueV {
        value_view(*self)
    }
}

impl Clone for Value {
    fn clone(&self) -> (r: Value)
        ensures
            r@ == self@,
    {
        self.copy()
    }
}

} // verus!
