//! The value tree that a body resolves to.
use crate::specs::body::number::Number;
use vstd::prelude::*;

verus! {

/// A resolved value: what is sent, once it is serialised.
#[derive(Debug, PartialEq, Eq)]
pub enum Value {
    Null,
    Bool(bool),
    Number(Number),
    String(String),
    Sequence(Vec<Value>),
    /// The entries of a mapping, in order. Two keys may be equal: the
    /// serialiser lets the later value stand at the place of the earlier key.
    Mapping(Vec<(Value, Value)>),
    Tagged(String, Box<Value>),
}

/// A `Value` with its strings and sequences as mathematical sequences.
pub enum ValueView {
    Null,
    Bool(bool),
    Number(Number),
    String(Seq<char>),
    Sequence(Seq<ValueView>),
    Mapping(Seq<(ValueView, ValueView)>),
    Tagged(Seq<char>, Box<ValueView>),
}

impl Value {
    /// The value as a mathematical tree.
    pub open spec fn model(self) -> ValueView
        decreases self,
    {
        match self {
            Value::Null => ValueView::Null,
            Value::Bool(b) => ValueView::Bool(b),
            Value::Number(n) => ValueView::Number(n),
            Value::String(s) => ValueView::String(s@),
            Value::Sequence(items) => ValueView::Sequence(
                Seq::new(
                    items@.len(),
                    |i: int|
                        if 0 <= i < items@.len() {
                            items@[i].model()
                        } else {
                            ValueView::Null
                        },
                ),
            ),
            Value::Mapping(entries) => ValueView::Mapping(
                Seq::new(
                    entries@.len(),
                    |i: int|
                        if 0 <= i < entries@.len() {
                            (entries@[i].0.model(), entries@[i].1.model())
                        } else {
                            (ValueView::Null, ValueView::Null)
                        },
                ),
            ),
            Value::Tagged(tag, value) => ValueView::Tagged(tag@, Box::new(value.model())),
        }
    }
}

impl View for Value {
    type V = ValueView;

    open spec fn view(&self) -> ValueView {
        self.model()
    }
}

} // verus!
