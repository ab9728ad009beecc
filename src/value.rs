//! Record values as the engines see them, with their mathematical model.
use vstd::prelude::*;

verus! {

/// The model of a `Value`: the same tree over mathematical integers and
/// sequences.
pub enum Val {
    Absent,
    Present(Box<Val>),
    Int(int),
    Bool(bool),
    Text(Seq<char>),
    Variant(Seq<char>),
    Opaque,
    List(Seq<Val>),
    Dict(Seq<(Seq<char>, Val)>),
    Record(Seq<Val>),
}

/// The value of a field.
///
/// An optional field holds `Absent` or `Present`; a sequence holds `List`; an
/// associative map holds `Dict`, whose keys are distinct; a nested record holds
/// `Record`, with one value per declared field in declaration order. Values
/// without structure that the engines read (floats, timestamps) are `Opaque`.
#[derive(Debug)]
pub enum Value {
    Absent,
    Present(Box<Value>),
    Int(i128),
    Bool(bool),
    Text(String),
    /// A variant of an enumeration, by name.
    Variant(String),
    Opaque,
    List(Vec<Value>),
    Dict(Vec<(String, Value)>),
    Record(Vec<Value>),
}

impl Value {
    pub open spec fn model(&self) -> Val
        decreases self,
    {
        match self {
            Value::Absent => Val::Absent,
            Value::Present(b) => Val::Present(Box::new(b.model())),
            Value::Int(i) => Val::Int(*i as int),
            Value::Bool(b) => Val::Bool(*b),
            Value::Text(s) => Val::Text(s@),
            Value::Variant(s) => Val::Variant(s@),
            Value::Opaque => Val::Opaque,
            Value::List(vs) => Val::List(
                Seq::new(
                    vs.len() as nat,
                    |i: int|
                        if 0 <= i < vs.len() {
                            vs@[i].model()
                        } else {
                            Val::Absent
                        },
                ),
            ),
            Value::Dict(es) => Val::Dict(
                Seq::new(
                    es.len() as nat,
                    |i: int|
                        if 0 <= i < es.len() {
                            (es@[i].0@, es@[i].1.model())
                        } else {
                            (Seq::empty(), Val::Absent)
                        },
                ),
            ),
            Value::Record(vs) => Val::Record(
                Seq::new(
                    vs.len() as nat,
                    |i: int|
                        if 0 <= i < vs.len() {
                            vs@[i].model()
                        } else {
                            Val::Absent
                        },
                ),
            ),
        }
    }
}

} // verus!
