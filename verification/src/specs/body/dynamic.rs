//! A string with placeholders, as the pieces it is made of.
use crate::text::push_text;
use vstd::prelude::*;

verus! {

/// One piece of a string with placeholders.
#[derive(Debug, PartialEq, Eq, Clone)]
pub enum DynamicValue {
    /// Literal text.
    Static(String),
    /// The captured variable of this name.
    Var(String),
    /// A value generated by the generator of this name.
    Fake(String),
    /// The template of this name.
    Ref(String),
}

/// A `DynamicValue` with its string as a sequence of characters.
pub enum DynamicValueView {
    Static(Seq<char>),
    Var(Seq<char>),
    Fake(Seq<char>),
    Ref(Seq<char>),
}

impl View for DynamicValue {
    type V = DynamicValueView;

    open spec fn view(&self) -> DynamicValueView {
        match self {
            DynamicValue::Static(s) => DynamicValueView::Static(s@),
            DynamicValue::Var(s) => DynamicValueView::Var(s@),
            DynamicValue::Fake(s) => DynamicValueView::Fake(s@),
            DynamicValue::Ref(s) => DynamicValueView::Ref(s@),
        }
    }
}

/// A string with placeholders: its pieces, in order.
#[derive(Debug, PartialEq, Eq, Clone)]
pub struct Dynamic {
    pub values: Vec<DynamicValue>,
}

impl View for Dynamic {
    type V = Seq<DynamicValueView>;

    open spec fn view(&self) -> Seq<DynamicValueView> {
        self.values@.map_values(|v: DynamicValue| v@)
    }
}

impl DynamicValue {
    /// Whether the two pieces are the same.
    pub fn same(&self, other: &DynamicValue) -> (r: bool)
        ensures
            r == (self@ == other@),
    {
        match (self, other) {
            (DynamicValue::Static(a), DynamicValue::Static(b)) => a.as_str().eq(b.as_str()),
            (DynamicValue::Var(a), DynamicValue::Var(b)) => a.as_str().eq(b.as_str()),
            (DynamicValue::Fake(a), DynamicValue::Fake(b)) => a.as_str().eq(b.as_str()),
            (DynamicValue::Ref(a), DynamicValue::Ref(b)) => a.as_str().eq(b.as_str()),
            _ => false,
        }
    }
}

impl DynamicValueView {
    /// The piece as it is written in a configuration. A placeholder is
    /// written with braces.
    pub open spec fn written(self) -> Seq<char> {
        match self {
            DynamicValueView::Static(text) => text,
            DynamicValueView::Var(name) => "${"@ + name + "}"@,
            DynamicValueView::Fake(attr) => "${fake."@ + attr + "}"@,
            DynamicValueView::Ref(name) => "${ref."@ + name + "}"@,
        }
    }
}

/// The first `n` pieces as they are written in a configuration, one after
/// the other.
pub open spec fn written_pieces(pieces: Seq<DynamicValueView>, n: nat) -> Seq<char>
    decreases n,
{
    if n == 0 {
        Seq::empty()
    } else {
        written_pieces(pieces, (n - 1) as nat) + pieces[n - 1].written()
    }
}

impl Dynamic {
    /// The string as it is written in a configuration.
    pub fn to_string(&self) -> (s: String)
        ensures
            s@ == written_pieces(self@, self@.len()),
    {
        let mut s = String::new();
        let mut i: usize = 0;
        while i < self.values.len()
            invariant
                i <= self.values.len(),
                s@ == written_pieces(self@, i as nat),
            decreases self.values.len() - i,
        {
            let ghost before = s@;
            assert(self@[i as int] == self.values[i as int]@);
            match &self.values[i] {
                DynamicValue::Static(text) => {
                    push_text(&mut s, text.as_str());
                },
                DynamicValue::Var(name) => {
                    push_text(&mut s, "${");
                    push_text(&mut s, name.as_str());
                    push_text(&mut s, "}");
                },
                DynamicValue::Fake(attr) => {
                    push_text(&mut s, "${fake.");
                    push_text(&mut s, attr.as_str());
                    push_text(&mut s, "}");
                },
                DynamicValue::Ref(name) => {
                    push_text(&mut s, "${ref.");
                    push_text(&mut s, name.as_str());
                    push_text(&mut s, "}");
                },
            }
            assert(s@ =~= before + self@[i as int].written());
            i += 1;
        }
        s
    }

    /// Whether the two strings are made of the same pieces.
    pub fn same(&self, other: &Dynamic) -> (r: bool)
        ensures
            r == (self@ == other@),
    {
        if self.values.len() != other.values.len() {
            assert(self@.len() != other@.len());
            return false;
        }
        let mut i: usize = 0;
        while i < self.values.len()
            invariant
                i <= self.values.len(),
                self.values.len() == other.values.len(),
                forall|k: int| 0 <= k < i ==> self@[k] == other@[k],
            decreases self.values.len() - i,
        {
            if !self.values[i].same(&other.values[i]) {
                assert(self@[i as int] != other@[i as int]);
                return false;
            }
            i += 1;
        }
        assert(self@ =~= other@);
        true
    }

    /// The string made of the given pieces.
    pub fn new(values: Vec<DynamicValue>) -> (dynamic: Self)
        ensures
            dynamic.values == values,
    {
        Dynamic { values }
    }
}

} // verus!
