//! The generic intermediate tree produced by projection: a typed-JSON-like
//! value that a renderer later serializes into concrete syntax.

use vstd::prelude::*;

verus! {

/// A generic representation of a type expression, agnostic to any target
/// notation.
///
/// `Object` is an ordered name-to-value mapping: insertion order is preserved
/// and drives the output order of record fields.
#[derive(Debug, PartialEq, Eq)]
pub enum Value {
    /// The null marker.
    Null,
    /// A static primitive-name string.
    Str(&'static str),
    /// An owned string, carrying e.g. an opaque type token verbatim.
    Text(String),
    /// An ordered sequence of values.
    Array(Vec<Value>),
    /// An ordered name-to-value mapping with insertion order preserved.
    Object(Vec<(String, Value)>),
}

/// The mathematical model of a `Value`.
#[verifier::ext_equal]
pub enum ValueModel {
    Null,
    Str(Seq<char>),
    Text(Seq<char>),
    Array(Seq<ValueModel>),
    Object(Seq<(Seq<char>, ValueModel)>),
}

/// The model of a `Value`.
pub open spec fn value_model(v: &Value) -> ValueModel
    decreases v,
{
    match v {
        Value::Null => ValueModel::Null,
        Value::Str(s) => ValueModel::Str(s@),
        Value::Text(s) => ValueModel::Text(s@),
        Value::Array(items) => ValueModel::Array(
            Seq::new(
                items@.len(),
                |i: int|
                    if 0 <= i < items@.len() {
                        value_model(&items@[i])
                    } else {
                        ValueModel::Null
                    },
            ),
        ),
        Value::Object(entries) => ValueModel::Object(
            Seq::new(
                entries@.len(),
                |i: int|
                    if 0 <= i < entries@.len() {
                        (entries@[i].0@, value_model(&entries@[i].1))
                    } else {
                        (Seq::<char>::empty(), ValueModel::Null)
                    },
            ),
        ),
    }
}

impl View for Value {
    type V = ValueModel;

    open spec fn view(&self) -> ValueModel {
        value_model(self)
    }
}

/// The models of a sequence of values, member by member.
pub open spec fn value_models(s: Seq<Value>) -> Seq<ValueModel> {
    Seq::new(
        s.len(),
        |i: int|
            if 0 <= i < s.len() {
                value_model(&s[i])
            } else {
                ValueModel::Null
            },
    )
}

/// The models of a sequence of object entries, entry by entry.
pub open spec fn entry_models(s: Seq<(String, Value)>) -> Seq<(Seq<char>, ValueModel)> {
    Seq::new(
        s.len(),
        |i: int|
            if 0 <= i < s.len() {
                (s[i].0@, value_model(&s[i].1))
            } else {
                (Seq::<char>::empty(), ValueModel::Null)
            },
    )
}

} // verus!
