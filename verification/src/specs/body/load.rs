//! Making a body out of a plain value tree: the strings of the tree are
//! looked through for placeholders once, when a configuration is loaded.
use crate::server::url::error::{UrlError, UrlErrorView};
use crate::specs::body::body::{Body, BodyView, Mapping, TaggedValue};
use crate::specs::body::equality::mapping_put;
use crate::specs::body::placeholder::parse_text;
use crate::specs::body::value::{Value, ValueView};
use vstd::prelude::*;

verus! {

/// The body that a value tree stands for. A string becomes what its text
/// stands for; everything else is copied. The entries of a mapping are
/// stored one after the other, so that of two entries with the same key the
/// later value stands at the place of the earlier. The first string with a
/// syntax error, in the order of the tree, makes the whole tree fail.
pub open spec fn body_of(value: ValueView) -> Result<BodyView, UrlErrorView>
    decreases value, 0nat,
{
    match value {
        ValueView::Null => Ok(BodyView::Null),
        ValueView::Bool(b) => Ok(BodyView::Bool(b)),
        ValueView::Number(n) => Ok(BodyView::Number(n)),
        ValueView::String(s) => parse_text(s),
        ValueView::Sequence(items) => match bodies_of(items, items.len()) {
            Ok(bodies) => Ok(BodyView::Sequence(bodies)),
            Err(e) => Err(e),
        },
        ValueView::Mapping(entries) => match entries_of(entries, entries.len()) {
            Ok(bodies) => Ok(BodyView::Mapping(bodies)),
            Err(e) => Err(e),
        },
        ValueView::Tagged(tag, inner) => match body_of(*inner) {
            Ok(body) => Ok(BodyView::Tagged(tag, Box::new(body))),
            Err(e) => Err(e),
        },
    }
}

/// The bodies of the first `n` items of a sequence.
pub open spec fn bodies_of(items: Seq<ValueView>, n: nat) -> Result<Seq<BodyView>, UrlErrorView>
    decreases items, n,
{
    if n == 0 || n > items.len() {
        Ok(Seq::empty())
    } else {
        match bodies_of(items, (n - 1) as nat) {
            Err(e) => Err(e),
            Ok(before) => match body_of(items[n - 1]) {
                Err(e) => Err(e),
                Ok(body) => Ok(before.push(body)),
            },
        }
    }
}

/// The entries of a mapping after the first `n` entries of a value tree were
/// stored in it, each key before its value.
pub open spec fn entries_of(entries: Seq<(ValueView, ValueView)>, n: nat) -> Result<
    Seq<(BodyView, BodyView)>,
    UrlErrorView,
>
    decreases entries, n,
{
    if n == 0 || n > entries.len() {
        Ok(Seq::empty())
    } else {
        match entries_of(entries, (n - 1) as nat) {
            Err(e) => Err(e),
            Ok(before) => match body_of(entries[n - 1].0) {
                Err(e) => Err(e),
                Ok(key) => match body_of(entries[n - 1].1) {
                    Err(e) => Err(e),
                    Ok(value) => Ok(mapping_put(before, key, value)),
                },
            },
        }
    }
}

/// An error among the first items is the error of the whole sequence.
proof fn lemma_bodies_error_stays(items: Seq<ValueView>, n: nat, m: nat)
    requires
        n <= m <= items.len(),
        bodies_of(items, n) is Err,
    ensures
        bodies_of(items, m) == bodies_of(items, n),
    decreases m - n,
{
    if n < m {
        lemma_bodies_error_stays(items, n, (m - 1) as nat);
    }
}

/// An error among the first entries is the error of the whole mapping.
proof fn lemma_entries_error_stays(entries: Seq<(ValueView, ValueView)>, n: nat, m: nat)
    requires
        n <= m <= entries.len(),
        entries_of(entries, n) is Err,
    ensures
        entries_of(entries, m) == entries_of(entries, n),
    decreases m - n,
{
    if n < m {
        lemma_entries_error_stays(entries, n, (m - 1) as nat);
    }
}

impl Body {
    /// The body that a value tree stands for.
    pub fn new(value: Value) -> (r: Result<Body, UrlError>)
        ensures
            match body_of(value@) {
                Err(e) => r matches Err(x) && x@ == e,
                Ok(body) => r matches Ok(b) && b@ == body,
            },
        decreases value,
    {
        match value {
            Value::Null => Ok(Body::Null),
            Value::Bool(b) => Ok(Body::Bool(b)),
            Value::Number(n) => Ok(Body::Number(n)),
            Value::String(s) => Body::parse(s),
            Value::Sequence(items) => {
                let ghost views = value@->Sequence_0;
                let mut bodies: Vec<Body> = Vec::new();
                let ghost mut done: Seq<BodyView> = Seq::empty();
                for item in it: items
                    invariant
                        value == Value::Sequence(items),
                        value@ == ValueView::Sequence(views),
                        it.seq() == items@,
                        views.len() == items@.len(),
                        bodies@.len() == it.index(),
                        done.len() == it.index(),
                        forall|k: int| 0 <= k < done.len() ==> done[k] == (#[trigger] bodies@[k])@,
                        bodies_of(views, it.index() as nat) == Ok::<Seq<BodyView>, UrlErrorView>(
                            done,
                        ),
                {
                    assert(views[it.index() as int] == item@);
                    match Body::new(item) {
                        Ok(body) => {
                            proof {
                                done = done.push(body@);
                            }
                            bodies.push(body);
                        },
                        Err(e) => {
                            proof {
                                lemma_bodies_error_stays(
                                    views,
                                    (it.index() + 1) as nat,
                                    views.len(),
                                );
                            }
                            return Err(e);
                        },
                    }
                }
                let body = Body::Sequence(bodies);
                assert(body@->Sequence_0 =~= done);
                Ok(body)
            },
            Value::Mapping(entries) => {
                let ghost views = value@->Mapping_0;
                let mut mapping = Mapping::new();
                for entry in it: entries
                    invariant
                        value == Value::Mapping(entries),
                        value@ == ValueView::Mapping(views),
                        it.seq() == entries@,
                        views.len() == entries@.len(),
                        entries_of(views, it.index() as nat) == Ok::<
                            Seq<(BodyView, BodyView)>,
                            UrlErrorView,
                        >(mapping@),
                {
                    assert(views[it.index() as int] == (entry.0@, entry.1@));
                    let (k, v) = entry;
                    let key = match Body::new(k) {
                        Ok(key) => key,
                        Err(e) => {
                            proof {
                                lemma_entries_error_stays(
                                    views,
                                    (it.index() + 1) as nat,
                                    views.len(),
                                );
                            }
                            return Err(e);
                        },
                    };
                    let val = match Body::new(v) {
                        Ok(val) => val,
                        Err(e) => {
                            proof {
                                lemma_entries_error_stays(
                                    views,
                                    (it.index() + 1) as nat,
                                    views.len(),
                                );
                            }
                            return Err(e);
                        },
                    };
                    mapping.insert(key, val);
                }
                let body = Body::Mapping(mapping);
                assert(body@->Mapping_0 =~= mapping@);
                Ok(body)
            },
            Value::Tagged(tag, inner) => {
                match Body::new(*inner) {
                    Ok(body) => Ok(Body::Tagged(Box::new(TaggedValue { tag, value: body }))),
                    Err(e) => Err(e),
                }
            },
        }
    }
}

} // verus!
