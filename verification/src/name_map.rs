//! A small map from names to values that keeps the order of insertion.
use vstd::prelude::*;

verus! {

/// A map keyed by strings. No name occurs twice, and a name keeps the place
/// at which it was first inserted.
#[derive(Debug, PartialEq, Eq)]
pub struct NameMap<V> {
    names: Vec<String>,
    values: Vec<V>,
}

impl<V> NameMap<V> {
    #[verifier::type_invariant]
    closed spec fn inv(self) -> bool {
        &&& self.names.len() == self.values.len()
        &&& forall|i: int, j: int|
            0 <= i < j < self.names.len() ==> (#[trigger] self.names[i])@ != (
            #[trigger] self.names[j])@
    }

    /// Whether `key` is one of the names.
    closed spec fn has(self, key: Seq<char>) -> bool {
        exists|i: int| 0 <= i < self.names.len() && (#[trigger] self.names[i])@ == key
    }

    /// The place of `key` among the names.
    closed spec fn place(self, key: Seq<char>) -> int {
        choose|i: int| 0 <= i < self.names.len() && (#[trigger] self.names[i])@ == key
    }

    /// The value stored under `key`.
    closed spec fn at(self, key: Seq<char>) -> V {
        self.values[self.place(key)]
    }

    /// The number of entries, in contracts.
    pub closed spec fn count(self) -> nat {
        self.names@.len()
    }

    /// The name at place `i`, in contracts.
    pub closed spec fn name_of(self, i: int) -> Seq<char> {
        self.names[i]@
    }

}

impl<V: View> NameMap<V> {
    pub fn new() -> (m: Self)
        ensures
            m.count() == 0,
            m@ == Map::<Seq<char>, V::V>::empty(),
    {
        let m = NameMap { names: Vec::new(), values: Vec::new() };
        assert(m@ =~= Map::<Seq<char>, V::V>::empty());
        m
    }

    /// The number of entries.
    pub fn len(&self) -> (n: usize)
        ensures
            n == self.count(),
    {
        self.names.len()
    }

    /// The name and the value at place `i`.
    pub fn entry(&self, i: usize) -> (e: (&String, &V))
        requires
            i < self.count(),
        ensures
            e.0@ == self.name_of(i as int),
            self@.contains_key(e.0@),
            self@[e.0@] == e.1@,
    {
        proof {
            use_type_invariant(self);
        }
        (&self.names[i], &self.values[i])
    }

    /// The value stored under `key`, if there is one.
    pub fn get(&self, key: &str) -> (r: Option<&V>)
        ensures
            r is Some <==> self@.contains_key(key@),
            r matches Some(v) ==> v@ == self@[key@],
    {
        proof {
            use_type_invariant(self);
        }
        let mut i: usize = 0;
        while i < self.names.len()
            invariant
                i <= self.names.len(),
                self.names.len() == self.values.len(),
                forall|j: int| 0 <= j < i ==> (#[trigger] self.names[j])@ != key@,
                forall|a: int, b: int|
                    0 <= a < b < self.names.len() ==> (#[trigger] self.names[a])@ != (
                    #[trigger] self.names[b])@,
            decreases self.names.len() - i,
        {
            if self.names[i].as_str().eq(key) {
                assert(self.names[i as int]@ == key@);
                return Some(&self.values[i]);
            }
            i += 1;
        }
        None
    }

    /// Stores `value` under `name`. A value already stored under that name is
    /// replaced and handed back; the name keeps its place.
    pub fn insert(&mut self, name: String, value: V) -> (prev: Option<V>)
        ensures
            final(self)@ == old(self)@.insert(name@, value@),
            prev is Some <==> old(self)@.contains_key(name@),
            prev matches Some(p) ==> p@ == old(self)@[name@],
            final(self).count() == old(self).count() + (if old(self)@.contains_key(name@) {
                0nat
            } else {
                1nat
            }),
    {
        proof {
            use_type_invariant(&*self);
        }
        let mut taken = NameMap::new();
        std::mem::swap(self, &mut taken);
        let NameMap { mut names, mut values } = taken;
        let ghost old_self = *old(self);
        let mut i: usize = 0;
        while i < names.len()
            invariant
                i <= names.len(),
                old_self == *old(self),
                names == old_self.names,
                values == old_self.values,
                names.len() == values.len(),
                forall|j: int| 0 <= j < i ==> (#[trigger] names[j])@ != name@,
                forall|a: int, b: int|
                    0 <= a < b < names.len() ==> (#[trigger] names[a])@ != (#[trigger] names[b])@,
            decreases names.len() - i,
        {
            if names[i].as_str().eq(name.as_str()) {
                let mut held = value;
                std::mem::swap(&mut values[i], &mut held);
                *self = NameMap { names, values };
                proof {
                    let new_self = *self;
                    assert(new_self.names == old_self.names);
                    assert(old_self.names[i as int]@ == name@);
                    assert(old_self.place(name@) == i);
                    assert(new_self.place(name@) == i);
                    assert forall|k: Seq<char>| new_self.has(k) <==> (k == name@ || old_self.has(k)) by {
                        assert(new_self.has(k) == old_self.has(k));
                    }
                    assert forall|k: Seq<char>| k != name@ && old_self.has(k) implies new_self.at(k)
                        == old_self.at(k) by {
                        let j = old_self.place(k);
                        assert(old_self.names[j]@ == k);
                        assert(old_self.place(k) == new_self.place(k));
                        assert(j != i);
                    }
                    assert(new_self@ =~= old_self@.insert(name@, value@));
                }
                return Some(held);
            }
            i += 1;
        }
        names.push(name);
        values.push(value);
        *self = NameMap { names, values };
        proof {
            let new_self = *self;
            let n = old_self.names.len() as int;
            assert(new_self.names[n]@ == name@);
            assert(new_self.place(name@) == n);
            assert forall|k: Seq<char>| new_self.has(k) <==> (k == name@ || old_self.has(k)) by {
                if old_self.has(k) {
                    let j = old_self.place(k);
                    assert(new_self.names[j]@ == k);
                }
                if new_self.has(k) && k != name@ {
                    let j = new_self.place(k);
                    assert(old_self.names[j]@ == k);
                }
            }
            assert forall|k: Seq<char>| k != name@ && old_self.has(k) implies new_self.at(k)
                == old_self.at(k) by {
                let j = old_self.place(k);
                assert(new_self.names[j]@ == k);
                assert(new_self.place(k) == j);
            }
            assert(new_self@ =~= old_self@.insert(name@, value@));
        }
        None
    }
}

impl<V: View> View for NameMap<V> {
    type V = Map<Seq<char>, V::V>;

    /// The map from each name to the view of its value.
    closed spec fn view(&self) -> Map<Seq<char>, V::V> {
        Map::new(|k: Seq<char>| self.has(k), |k: Seq<char>| self.at(k)@)
    }
}

} // verus!
