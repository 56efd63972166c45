//! When two bodies are the same.
//!
//! Two mappings are the same when they hold the same entries, in whatever
//! order; everything else is compared part by part.
use crate::specs::body::body::{Body, BodyView, Mapping, TaggedValue};
use vstd::prelude::*;

verus! {

/// Whether the two bodies are the same.
pub open spec fn same_body(a: BodyView, b: BodyView) -> bool
    decreases a, 0nat,
{
    match (a, b) {
        (BodyView::Null, BodyView::Null) => true,
        (BodyView::Bool(x), BodyView::Bool(y)) => x == y,
        (BodyView::Number(x), BodyView::Number(y)) => x == y,
        (BodyView::String(x), BodyView::String(y)) => x == y,
        (BodyView::Sequence(xs), BodyView::Sequence(ys)) => {
            &&& xs.len() == ys.len()
            &&& forall|i: int| 0 <= i < xs.len() ==> same_body(#[trigger] xs[i], ys[i])
        },
        (BodyView::Mapping(xs), BodyView::Mapping(ys)) => {
            &&& xs.len() == ys.len()
            &&& forall|i: int| 0 <= i < xs.len() ==> has_entry(ys, #[trigger] xs[i])
        },
        (BodyView::Tagged(s, x), BodyView::Tagged(t, y)) => s == t && same_body(*x, *y),
        (BodyView::Dynamic(p), BodyView::Dynamic(q)) => p == q,
        _ => false,
    }
}

/// Whether the entries hold the key of `entry` with the value of `entry`.
pub open spec fn has_entry(entries: Seq<(BodyView, BodyView)>, entry: (BodyView, BodyView)) -> bool
    decreases entry, 2nat,
{
    match key_from(entries, entry.0, 0) {
        Some(j) => 0 <= j < entries.len() && same_body(entry.1, entries[j].1),
        None => false,
    }
}

/// The first place from `from` on at which a key that is the same as `key`
/// stands.
pub open spec fn key_from(entries: Seq<(BodyView, BodyView)>, key: BodyView, from: int) -> Option<
    int,
>
    decreases key, 1nat, entries.len() - from,
{
    if from < 0 || from >= entries.len() {
        None
    } else if same_body(key, entries[from].0) {
        Some(from)
    } else {
        key_from(entries, key, from + 1)
    }
}

/// The place of the entry whose key is the same as `key`.
pub open spec fn key_index(entries: Seq<(BodyView, BodyView)>, key: BodyView) -> Option<int> {
    key_from(entries, key, 0)
}

/// The entries after `value` was stored under `key`: the value of the entry
/// with that key is replaced, and without such an entry a new one is
/// appended.
pub open spec fn mapping_put(entries: Seq<(BodyView, BodyView)>, key: BodyView, value: BodyView)
    -> Seq<(BodyView, BodyView)> {
    match key_index(entries, key) {
        Some(i) => entries.update(i, (entries[i].0, value)),
        None => entries.push((key, value)),
    }
}

/// Whether no two keys of the entries are the same.
pub open spec fn has_distinct_keys(entries: Seq<(BodyView, BodyView)>) -> bool {
    forall|i: int, j: int|
        0 <= i < j < entries.len() ==> !same_body(
            (#[trigger] entries[j]).0,
            (#[trigger] entries[i]).0,
        )
}

pub proof fn lemma_key_from_found(entries: Seq<(BodyView, BodyView)>, key: BodyView, from: int)
    requires
        0 <= from,
    ensures
        match key_from(entries, key, from) {
            Some(i) => from <= i < entries.len() && same_body(key, entries[i].0) && forall|k: int|
                from <= k < i ==> !same_body(key, (#[trigger] entries[k]).0),
            None => forall|k: int|
                from <= k < entries.len() ==> !same_body(key, (#[trigger] entries[k]).0),
        },
    decreases entries.len() - from,
{
    if from < entries.len() && !same_body(key, entries[from].0) {
        lemma_key_from_found(entries, key, from + 1);
    }
}

/// Storing a value under a key keeps the keys distinct.
pub proof fn lemma_put_keeps_keys_distinct(
    entries: Seq<(BodyView, BodyView)>,
    key: BodyView,
    value: BodyView,
)
    requires
        has_distinct_keys(entries),
    ensures
        has_distinct_keys(mapping_put(entries, key, value)),
{
    lemma_key_from_found(entries, key, 0);
    let after = mapping_put(entries, key, value);
    assert forall|i: int, j: int| 0 <= i < j < after.len() implies !same_body(
        (#[trigger] after[j]).0,
        (#[trigger] after[i]).0,
    ) by {
        match key_index(entries, key) {
            Some(at) => {
                assert(after[i].0 == entries[i].0);
                assert(after[j].0 == entries[j].0);
            },
            None => {
                assert(after[i] == entries[i]);
                if j < entries.len() {
                    assert(after[j] == entries[j]);
                }
            },
        }
    }
}

impl Mapping {
    /// The place of the entry whose key is the same as `key`.
    pub fn position(&self, key: &Body) -> (r: Option<usize>)
        ensures
            match r {
                Some(i) => key_index(self@, key@) == Some(i as int) && i < self@.len(),
                None => key_index(self@, key@) is None,
            },
        decreases key, 1nat,
    {
        let n = self.len();
        let mut i: usize = 0;
        while i < n
            invariant
                i <= n,
                n == self@.len(),
                forall|k: int| 0 <= k < i ==> !same_body(key@, (#[trigger] self@[k]).0),
            decreases n - i,
        {
            if key.same(self.entry(i).0) {
                proof {
                    lemma_key_from_found(self@, key@, 0);
                }
                return Some(i);
            }
            i += 1;
        }
        proof {
            lemma_key_from_found(self@, key@, 0);
        }
        None
    }

    /// Whether the two mappings hold the same entries, in whatever order.
    pub fn same(&self, other: &Mapping) -> (r: bool)
        ensures
            r == same_body(BodyView::Mapping(self@), BodyView::Mapping(other@)),
        decreases self, 3nat,
    {
        let n = self.len();
        if n != other.len() {
            return false;
        }
        let mut i: usize = 0;
        while i < n
            invariant
                i <= n,
                n == self@.len(),
                n == other@.len(),
                forall|k: int| 0 <= k < i ==> has_entry(other@, #[trigger] self@[k]),
            decreases n - i,
        {
            let (key, value) = self.entry(i);
            let here = match other.position(key) {
                Some(j) => value.same(other.entry(j).1),
                None => false,
            };
            if !here {
                assert(!has_entry(other@, self@[i as int]));
                return false;
            }
            i += 1;
        }
        true
    }
}

impl Body {
    /// Whether the two bodies are the same.
    pub fn same(&self, other: &Body) -> (r: bool)
        ensures
            r == same_body(self@, other@),
        decreases self, 0nat,
    {
        match (self, other) {
            (Body::Null, Body::Null) => true,
            (Body::Bool(a), Body::Bool(b)) => *a == *b,
            (Body::Number(a), Body::Number(b)) => *a == *b,
            (Body::String(a), Body::String(b)) => a.as_str().eq(b.as_str()),
            (Body::Sequence(xs), Body::Sequence(ys)) => {
                if xs.len() != ys.len() {
                    return false;
                }
                let ghost xv = self@->Sequence_0;
                let ghost yv = other@->Sequence_0;
                let mut i: usize = 0;
                while i < xs.len()
                    invariant
                        i <= xs.len(),
                        xs.len() == ys.len(),
                        *self == Body::Sequence(*xs),
                        self@ == BodyView::Sequence(xv),
                        other@ == BodyView::Sequence(yv),
                        *other == Body::Sequence(*ys),
                        forall|k: int| 0 <= k < i ==> same_body(#[trigger] xv[k], yv[k]),
                    decreases xs.len() - i,
                {
                    assert(xv[i as int] == xs[i as int]@);
                    assert(yv[i as int] == ys[i as int]@);
                    if !xs[i].same(&ys[i]) {
                        return false;
                    }
                    i += 1;
                }
                true
            },
            (Body::Mapping(xs), Body::Mapping(ys)) => {
                assert(self@->Mapping_0 =~= xs@);
                assert(other@->Mapping_0 =~= ys@);
                xs.same(ys)
            },
            (Body::Tagged(a), Body::Tagged(b)) => {
                a.tag.as_str().eq(b.tag.as_str()) && a.value.same(&b.value)
            },
            (Body::Dynamic(a), Body::Dynamic(b)) => a.same(b),
            _ => false,
        }
    }
}

impl PartialEq for Body {
    fn eq(&self, other: &Self) -> (r: bool) {
        self.same(other)
    }
}

impl vstd::std_specs::cmp::PartialEqSpecImpl for Body {
    open spec fn obeys_eq_spec() -> bool {
        true
    }

    open spec fn eq_spec(&self, other: &Self) -> bool {
        same_body(self@, other@)
    }
}

impl PartialEq for Mapping {
    fn eq(&self, other: &Self) -> (r: bool) {
        self.same(other)
    }
}

impl vstd::std_specs::cmp::PartialEqSpecImpl for Mapping {
    open spec fn obeys_eq_spec() -> bool {
        true
    }

    open spec fn eq_spec(&self, other: &Self) -> bool {
        same_body(BodyView::Mapping(self@), BodyView::Mapping(other@))
    }
}

impl PartialEq for TaggedValue {
    fn eq(&self, other: &Self) -> (r: bool) {
        self.tag.as_str().eq(other.tag.as_str()) && self.value.same(&other.value)
    }
}

impl vstd::std_specs::cmp::PartialEqSpecImpl for TaggedValue {
    open spec fn obeys_eq_spec() -> bool {
        true
    }

    open spec fn eq_spec(&self, other: &Self) -> bool {
        self.tag@ == other.tag@ && same_body(self.value@, other.value@)
    }
}

} // verus!
