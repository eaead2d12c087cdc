//! A map from text to text whose entries stand in the order of their keys.
use vstd::prelude::*;
use crate::order::{precedes, text_precedes, precedes_irreflexive, precedes_total, precedes_transitive};

verus! {

/// Entries whose keys come strictly one after the other.
pub open spec fn keys_ascend(s: Seq<(Seq<char>, Seq<char>)>) -> bool {
    forall|i: int, j: int| 0 <= i < j < s.len() ==> precedes(#[trigger] s[i].0, #[trigger] s[j].0)
}

/// An entry with that key.
pub open spec fn has_key(s: Seq<(Seq<char>, Seq<char>)>, k: Seq<char>) -> bool {
    exists|i: int| 0 <= i < s.len() && #[trigger] s[i].0 == k
}

/// The value of the entry with that key.
pub open spec fn value_of(s: Seq<(Seq<char>, Seq<char>)>, k: Seq<char>) -> Seq<char>
    recommends
        has_key(s, k),
{
    s[choose|i: int| 0 <= i < s.len() && #[trigger] s[i].0 == k].1
}

/// The entries as a map.
pub open spec fn as_map(s: Seq<(Seq<char>, Seq<char>)>) -> Map<Seq<char>, Seq<char>> {
    Map::new(|k: Seq<char>| has_key(s, k), |k: Seq<char>| value_of(s, k))
}

/// The value under a key, where there is one.
pub open spec fn lookup(s: Seq<(Seq<char>, Seq<char>)>, k: Seq<char>) -> Option<Seq<char>> {
    if has_key(s, k) {
        Some(value_of(s, k))
    } else {
        None
    }
}

/// The keys in order.
pub open spec fn keys_of(s: Seq<(Seq<char>, Seq<char>)>) -> Seq<Seq<char>> {
    Seq::new(s.len(), |i: int| s[i].0)
}

/// The values in the order of their keys.
pub open spec fn values_of(s: Seq<(Seq<char>, Seq<char>)>) -> Seq<Seq<char>> {
    Seq::new(s.len(), |i: int| s[i].1)
}

/// The value at an index is the value under the key at that index.
pub proof fn value_at(s: Seq<(Seq<char>, Seq<char>)>, i: int)
    requires
        keys_ascend(s),
        0 <= i < s.len(),
    ensures
        has_key(s, s[i].0),
        value_of(s, s[i].0) == s[i].1,
        lookup(s, s[i].0) == Some(s[i].1),
{
    let k = s[i].0;
    let j = choose|j: int| 0 <= j < s.len() && #[trigger] s[j].0 == k;
    precedes_irreflexive(k);
    if i < j {
        assert(precedes(s[i].0, s[j].0));
    } else if j < i {
        assert(precedes(s[j].0, s[i].0));
    }
}

/// A map from text to text, ordered by key.
#[derive(Debug)]
pub struct TextMap {
    entries: Vec<(String, String)>,
}

impl View for TextMap {
    type V = Seq<(Seq<char>, Seq<char>)>;

    closed spec fn view(&self) -> Seq<(Seq<char>, Seq<char>)> {
        Seq::new(self.entries@.len(), |i: int| (self.entries@[i].0@, self.entries@[i].1@))
    }
}

impl TextMap {
    #[verifier::type_invariant]
    spec fn ordered(&self) -> bool {
        keys_ascend(self@)
    }

    /// A map with no entry.
    pub fn new() -> (r: Self)
        ensures
            r@ == Seq::<(Seq<char>, Seq<char>)>::empty(),
    {
        let r = TextMap { entries: Vec::new() };
        assert(r@ =~= Seq::empty());
        r
    }

    /// A map with the same entries.
    pub fn copy(&self) -> (r: Self)
        ensures
            r@ == self@,
    {
        proof {
            use_type_invariant(self);
        }
        let mut entries: Vec<(String, String)> = Vec::new();
        let mut i: usize = 0;
        while i < self.entries.len()
            invariant
                0 <= i <= self.entries.len(),
                entries.len() == i,
                forall|j: int|
                    0 <= j < i ==> (#[trigger] entries@[j]).0@ == self.entries@[j].0@
                        && entries@[j].1@ == self.entries@[j].1@,
            decreases self.entries.len() - i,
        {
            entries.push((self.entries[i].0.clone(), self.entries[i].1.clone()));
            i += 1;
        }
        proof {
            let copied: Seq<(Seq<char>, Seq<char>)> = Seq::new(
                entries@.len(),
                |k: int| (entries@[k].0@, entries@[k].1@),
            );
            assert(copied =~= self@);
        }
        TextMap { entries }
    }

    /// How many entries the map has.
    pub fn len(&self) -> (n: usize)
        ensures
            n == self@.len(),
            keys_ascend(self@),
    {
        proof {
            use_type_invariant(self);
        }
        self.entries.len()
    }

    /// Whether the map has no entry.
    pub fn is_empty(&self) -> (r: bool)
        ensures
            r == (self@.len() == 0),
    {
        self.entries.len() == 0
    }

    /// The key at an index.
    pub fn key(&self, i: usize) -> (r: &str)
        requires
            i < self@.len(),
        ensures
            r@ == self@[i as int].0,
    {
        self.entries[i].0.as_str()
    }

    /// The value at an index.
    pub fn value(&self, i: usize) -> (r: &str)
        requires
            i < self@.len(),
        ensures
            r@ == self@[i as int].1,
    {
        self.entries[i].1.as_str()
    }

    /// The value under a key.
    pub fn get(&self, k: &str) -> (r: Option<&str>)
        ensures
            r is Some <==> has_key(self@, k@),
            r is Some ==> r->0@ == value_of(self@, k@),
            keys_ascend(self@),
    {
        proof {
            use_type_invariant(self);
        }
        let key = k.to_owned();
        let mut i: usize = 0;
        while i < self.entries.len()
            invariant
                0 <= i <= self.entries.len(),
                self.entries.len() == self@.len(),
                key@ == k@,
                keys_ascend(self@),
                forall|j: int| 0 <= j < i ==> #[trigger] self@[j].0 != k@,
            decreases self.entries.len() - i,
        {
            if self.entries[i].0 == key {
                proof {
                    assert(self@[i as int].0 == k@);
                    value_at(self@, i as int);
                }
                return Some(self.entries[i].1.as_str());
            }
            proof {
                assert(self@[i as int].0 != k@);
            }
            i += 1;
        }
        None
    }

    /// Puts a value under a key, in place of the one that was there.
    pub fn insert(&mut self, k: String, v: String)
        ensures
            as_map(final(self)@) == as_map(old(self)@).insert(k@, v@),
            keys_ascend(final(self)@),
    {
        proof {
            use_type_invariant(&*self);
        }
        let ghost before = self@;
        let mut entries: Vec<(String, String)> = Vec::new();
        std::mem::swap(&mut entries, &mut self.entries);
        let mut at: usize = 0;
        while at < entries.len() && text_precedes(entries[at].0.as_str(), k.as_str())
            invariant
                0 <= at <= entries.len(),
                entries.len() == before.len(),
                forall|j: int|
                    0 <= j < entries.len() ==> before[j] == (
                        (#[trigger] entries@[j]).0@,
                        entries@[j].1@,
                    ),
                forall|j: int| 0 <= j < at ==> precedes(#[trigger] before[j].0, k@),
            decreases entries.len() - at,
        {
            at += 1;
        }
        let ghost found = at < entries.len() && before[at as int].0 == k@;
        let ghost key = k@;
        let ghost val = v@;
        if at < entries.len() && entries[at].0 == k {
            entries.remove(at);
        }
        entries.insert(at, (k, v));
        let ghost after: Seq<(Seq<char>, Seq<char>)> = Seq::new(
            entries@.len(),
            |i: int| (entries@[i].0@, entries@[i].1@),
        );
        proof {
            if found {
                assert(after =~= before.update(at as int, (key, val)));
            } else {
                assert(after =~= before.insert(at as int, (key, val)));
                if at < before.len() {
                    precedes_total(before[at as int].0, key);
                }
            }
            assert forall|i: int, j: int| 0 <= i < j < after.len() implies precedes(
                #[trigger] after[i].0,
                #[trigger] after[j].0,
            ) by {
                let shift: int = if found { 0 } else { 1 };
                let i0 = if i <= at { i } else { i - shift };
                let j0 = if j <= at { j } else { j - shift };
                if i == at {
                    assert(after[j] == before[j0]);
                    if found {
                        assert(precedes(before[at as int].0, before[j0].0));
                    } else if j0 > at {
                        assert(precedes(before[at as int].0, before[j0].0));
                        precedes_transitive(key, before[at as int].0, before[j0].0);
                    }
                } else if j == at {
                    assert(after[i] == before[i0]);
                } else {
                    assert(after[i] == before[i0]);
                    assert(after[j] == before[j0]);
                    assert(precedes(before[i0].0, before[j0].0));
                }
            }
            assert(as_map(after) =~= as_map(before).insert(key, val)) by {
                assert(after[at as int] == (key, val));
                value_at(after, at as int);
                assert forall|q: Seq<char>| q != key implies (has_key(after, q) <==> has_key(before, q))
                    && (has_key(before, q) ==> value_of(after, q) == value_of(before, q)) by {
                    let shift: int = if found { 0 } else { 1 };
                    if has_key(before, q) {
                        let b = choose|b: int| 0 <= b < before.len() && #[trigger] before[b].0 == q;
                        let a = if b < at || found { b } else { b + shift };
                        assert(after[a] == before[b]);
                        value_at(after, a);
                        value_at(before, b);
                    }
                    if has_key(after, q) {
                        let a = choose|a: int| 0 <= a < after.len() && #[trigger] after[a].0 == q;
                        let b = if a < at || found { a } else { a - shift };
                        assert(after[a] == before[b]);
                        assert(before[b].0 == q);
                    }
                }
            }
        }
        *self = TextMap { entries };
        proof {
            assert(self@ =~= after);
        }
    }
}

} // verus!
