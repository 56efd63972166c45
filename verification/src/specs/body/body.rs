//! The body of a response as it is written in a configuration.
use crate::specs::body::dynamic::{Dynamic, DynamicValueView};
use crate::specs::body::equality::{
    has_distinct_keys, key_index, lemma_put_keeps_keys_distinct, mapping_put,
};
use crate::specs::body::number::Number;
use vstd::prelude::*;

verus! {

/// A sequence of bodies.
pub type Sequence = Vec<Body>;

/// The body of a response: a value tree in which a string may hold
/// placeholders.
#[derive(Debug, Default)]
pub enum Body {
    #[default]
    Null,
    Bool(bool),
    Number(Number),
    String(String),
    Sequence(Sequence),
    Mapping(Mapping),
    Tagged(Box<TaggedValue>),
    Dynamic(Dynamic),
}

/// A mapping from bodies to bodies that keeps the order of insertion. No
/// two of its keys are the same.
#[derive(Debug)]
pub struct Mapping {
    entries: Vec<(Body, Body)>,
}

/// A body under a tag.
#[derive(Debug)]
pub struct TaggedValue {
    pub tag: String,
    pub value: Body,
}

/// A `Body` as a mathematical tree.
pub enum BodyView {
    Null,
    Bool(bool),
    Number(Number),
    String(Seq<char>),
    Sequence(Seq<BodyView>),
    Mapping(Seq<(BodyView, BodyView)>),
    Tagged(Seq<char>, Box<BodyView>),
    Dynamic(Seq<DynamicValueView>),
}

impl Body {
    /// The body as a mathematical tree.
    pub open spec fn model(self) -> BodyView
        decreases self,
    {
        match self {
            Body::Null => BodyView::Null,
            Body::Bool(b) => BodyView::Bool(b),
            Body::Number(n) => BodyView::Number(n),
            Body::String(s) => BodyView::String(s@),
            Body::Sequence(items) => BodyView::Sequence(
                Seq::new(
                    items@.len(),
                    |i: int|
                        if 0 <= i < items@.len() {
                            items@[i].model()
                        } else {
                            BodyView::Null
                        },
                ),
            ),
            Body::Mapping(mapping) => BodyView::Mapping(mapping.model()),
            Body::Tagged(tagged) => BodyView::Tagged(tagged.tag@, Box::new(tagged.value.model())),
            Body::Dynamic(dynamic) => BodyView::Dynamic(dynamic@),
        }
    }
}

impl View for Body {
    type V = BodyView;

    open spec fn view(&self) -> BodyView {
        self.model()
    }
}

impl Mapping {
    /// The entries of the mapping as pairs of mathematical trees, in order.
    pub closed spec fn model(self) -> Seq<(BodyView, BodyView)>
        decreases self,
    {
        Seq::new(
            self.entries@.len(),
            |i: int|
                if 0 <= i < self.entries@.len() {
                    (self.entries@[i].0.model(), self.entries@[i].1.model())
                } else {
                    (BodyView::Null, BodyView::Null)
                },
        )
    }

    #[verifier::type_invariant]
    closed spec fn has_no_key_twice(self) -> bool {
        has_distinct_keys(self.model())
    }

    /// A mapping without entries.
    pub fn new() -> (mapping: Self)
        ensures
            mapping@ == Seq::<(BodyView, BodyView)>::empty(),
    {
        let mapping = Mapping { entries: Vec::new() };
        assert(mapping@ =~= Seq::<(BodyView, BodyView)>::empty());
        mapping
    }

    /// The number of entries. No two of their keys are the same.
    pub fn len(&self) -> (n: usize)
        ensures
            n == self@.len(),
            has_distinct_keys(self@),
    {
        proof {
            use_type_invariant(self);
        }
        self.entries.len()
    }

    /// The key and the value of the entry at place `i`.
    pub fn entry(&self, i: usize) -> (e: (&Body, &Body))
        requires
            i < self@.len(),
        ensures
            e.0@ == self@[i as int].0,
            e.1@ == self@[i as int].1,
            decreases_to!(self => e.0),
            decreases_to!(self => e.1),
    {
        (&self.entries[i].0, &self.entries[i].1)
    }

    /// Stores `v` under `k`. The value of an entry whose key is the same as
    /// `k` is replaced and handed back, and the entry keeps its key and its
    /// place; without such an entry a new one is appended.
    pub fn insert(&mut self, k: Body, v: Body) -> (prev: Option<Body>)
        ensures
            final(self)@ == mapping_put(old(self)@, k@, v@),
            match prev {
                Some(p) => key_index(old(self)@, k@) matches Some(i) && p@ == old(self)@[i].1,
                None => key_index(old(self)@, k@) is None,
            },
    {
        proof {
            use_type_invariant(&*self);
            lemma_put_keeps_keys_distinct(self@, k@, v@);
        }
        let found = self.position(&k);
        let mut taken = Mapping::new();
        std::mem::swap(self, &mut taken);
        let Mapping { mut entries } = taken;
        let ghost before = old(self)@;
        let prev = match found {
            Some(i) => {
                let mut held = v;
                std::mem::swap(&mut entries[i].1, &mut held);
                Some(held)
            },
            None => {
                entries.push((k, v));
                None
            },
        };
        proof {
            let made = Mapping { entries };
            assert(made.model() =~= mapping_put(before, k@, v@));
        }
        *self = Mapping { entries };
        prev
    }
}

impl Default for Mapping {
    /// The mapping without entries.
    fn default() -> (mapping: Self)
        ensures
            mapping@ == Seq::<(BodyView, BodyView)>::empty(),
    {
        Mapping::new()
    }
}

impl View for Mapping {
    type V = Seq<(BodyView, BodyView)>;

    open spec fn view(&self) -> Seq<(BodyView, BodyView)> {
        self.model()
    }
}

} // verus!
