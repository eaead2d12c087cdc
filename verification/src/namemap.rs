//! A map from names to values whose entries stand in the order of their names.
use vstd::prelude::*;
use crate::order::{precedes, precedes_irreflexive, precedes_total, precedes_transitive, text_precedes};

verus! {

/// Entries whose names come strictly one after the other.
pub open spec fn names_ascend<T>(s: Seq<(Seq<char>, T)>) -> bool {
    forall|i: int, j: int| 0 <= i < j < s.len() ==> precedes((#[trigger] s[i]).0, (#[trigger] s[j]).0)
}

/// There is an entry of that name.
pub open spec fn holds_name<T>(s: Seq<(Seq<char>, T)>, name: Seq<char>) -> bool {
    exists|i: int| 0 <= i < s.len() && (#[trigger] s[i]).0 == name
}

/// The value under a name, where there is one.
pub open spec fn held<T>(s: Seq<(Seq<char>, T)>, name: Seq<char>) -> Option<T> {
    if holds_name(s, name) {
        Some(s[choose|i: int| 0 <= i < s.len() && (#[trigger] s[i]).0 == name].1)
    } else {
        None
    }
}

/// Where a name stands last among others.
pub open spec fn last_named(names: Seq<Seq<char>>, name: Seq<char>) -> Option<int>
    decreases names.len(),
{
    if names.len() == 0 {
        None
    } else if names.last() == name {
        Some(names.len() - 1)
    } else {
        last_named(names.drop_last(), name)
    }
}

/// A name that stands last somewhere stands there.
pub proof fn last_named_is_there(names: Seq<Seq<char>>, name: Seq<char>)
    ensures
        last_named(names, name) matches Some(i) ==> 0 <= i < names.len() && names[i] == name,
        last_named(names, name) is Some <==> names.contains(name),
    decreases names.len(),
{
    if names.len() > 0 {
        let rest = names.drop_last();
        last_named_is_there(rest, name);
        if names.last() == name {
            assert(names[names.len() - 1] == name);
        } else if names.contains(name) {
            let i = choose|i: int| 0 <= i < names.len() && names[i] == name;
            assert(rest[i] == name);
        } else if rest.contains(name) {
            let i = choose|i: int| 0 <= i < rest.len() && rest[i] == name;
            assert(names[i] == name);
        }
    }
}

/// The value at an index is the one under the name at that index.
pub proof fn held_at<T>(s: Seq<(Seq<char>, T)>, i: int)
    requires
        names_ascend(s),
        0 <= i < s.len(),
    ensures
        held(s, s[i].0) == Some(s[i].1),
{
    let name = s[i].0;
    assert(holds_name(s, name));
    let j = choose|j: int| 0 <= j < s.len() && (#[trigger] s[j]).0 == name;
    precedes_irreflexive(name);
    if i < j {
        assert(precedes(s[i].0, s[j].0));
    } else if j < i {
        assert(precedes(s[j].0, s[i].0));
    }
}

/// No name occurs twice.
pub proof fn names_are_distinct<T>(s: Seq<(Seq<char>, T)>, i: int, j: int)
    requires
        names_ascend(s),
        0 <= i < s.len(),
        0 <= j < s.len(),
        s[i].0 == s[j].0,
    ensures
        i == j,
{
    precedes_irreflexive(s[i].0);
    if i < j {
        assert(precedes(s[i].0, s[j].0));
    } else if j < i {
        assert(precedes(s[j].0, s[i].0));
    }
}

/// A map from names to values, ordered by name.
#[derive(Debug)]
pub struct NameMap<T> {
    entries: Vec<(String, T)>,
}

impl<T> View for NameMap<T> {
    type V = Seq<(Seq<char>, T)>;

    closed spec fn view(&self) -> Seq<(Seq<char>, T)> {
        Seq::new(self.entries@.len(), |i: int| (self.entries@[i].0@, self.entries@[i].1))
    }
}

impl<T> NameMap<T> {
    #[verifier::type_invariant]
    spec fn ordered(&self) -> bool {
        names_ascend(self@)
    }

    /// A map with no entry.
    pub fn new() -> (r: Self)
        ensures
            r@ == Seq::<(Seq<char>, T)>::empty(),
    {
        let r = NameMap { entries: Vec::new() };
        assert(r@ =~= Seq::empty());
        r
    }

    /// How many entries the map has.
    pub fn len(&self) -> (n: usize)
        ensures
            n == self@.len(),
            names_ascend(self@),
    {
        proof {
            use_type_invariant(self);
        }
        self.entries.len()
    }

    /// The name at an index.
    pub fn name(&self, i: usize) -> (r: &str)
        requires
            i < self@.len(),
        ensures
            r@ == self@[i as int].0,
    {
        self.entries[i].0.as_str()
    }

    /// The value at an index.
    pub fn value(&self, i: usize) -> (r: &T)
        requires
            i < self@.len(),
        ensures
            *r == self@[i as int].1,
    {
        &self.entries[i].1
    }

    /// The value under a name.
    pub fn get(&self, name: &str) -> (r: Option<&T>)
        ensures
            match r {
                Some(v) => held(self@, name@) == Some(*v),
                None => held(self@, name@) is None,
            },
            names_ascend(self@),
    {
        proof {
            use_type_invariant(self);
        }
        let wanted = name.to_owned();
        let mut i: usize = 0;
        while i < self.entries.len()
            invariant
                0 <= i <= self.entries.len(),
                self.entries.len() == self@.len(),
                wanted@ == name@,
                names_ascend(self@),
                forall|j: int| 0 <= j < i ==> (#[trigger] self@[j]).0 != name@,
            decreases self.entries.len() - i,
        {
            if self.entries[i].0 == wanted {
                proof {
                    assert(self@[i as int].0 == name@);
                    held_at(self@, i as int);
                }
                return Some(&self.entries[i].1);
            }
            assert(self@[i as int].0 != name@);
            i += 1;
        }
        None
    }

    /// Puts a value under a name, in place of the one that was there.
    pub fn insert(&mut self, name: String, value: T)
        ensures
            held(final(self)@, name@) == Some(value),
            forall|other: Seq<char>|
                other != name@ ==> #[trigger] held(final(self)@, other) == held(old(self)@, other),
            names_ascend(final(self)@),
    {
        proof {
            use_type_invariant(&*self);
        }
        let ghost before = self@;
        let mut entries: Vec<(String, T)> = Vec::new();
        std::mem::swap(&mut entries, &mut self.entries);
        let mut at: usize = 0;
        while at < entries.len() && text_precedes(entries[at].0.as_str(), name.as_str())
            invariant
                0 <= at <= entries.len(),
                entries.len() == before.len(),
                forall|j: int|
                    0 <= j < entries.len() ==> before[j] == (
                        (#[trigger] entries@[j]).0@,
                        entries@[j].1,
                    ),
                forall|j: int| 0 <= j < at ==> precedes((#[trigger] before[j]).0, name@),
            decreases entries.len() - at,
        {
            at += 1;
        }
        let ghost found = at < entries.len() && before[at as int].0 == name@;
        let ghost key = name@;
        let ghost val = value;
        if at < entries.len() && entries[at].0 == name {
            entries.remove(at);
        }
        entries.insert(at, (name, value));
        let ghost after: Seq<(Seq<char>, T)> = Seq::new(
            entries@.len(),
            |i: int| (entries@[i].0@, entries@[i].1),
        );
        proof {
            if found {
                assert(after =~= before.update(at as int, (key, val)));
            } else {
                assert(after =~= before.insert(at as int, (key, val)));
                if at < before.len() {
                    precedes_total(before[at as int].0, key);
                }
            }
            placed(before, after, at as int, key, val, found);
        }
        *self = NameMap { entries };
        proof {
            assert(self@ =~= after);
        }
    }
}

/// An entry put at its place leaves the names in order and the other values
/// under theirs.
proof fn placed<T>(
    before: Seq<(Seq<char>, T)>,
    after: Seq<(Seq<char>, T)>,
    at: int,
    key: Seq<char>,
    val: T,
    found: bool,
)
    requires
        names_ascend(before),
        0 <= at <= before.len(),
        forall|j: int| 0 <= j < at ==> precedes((#[trigger] before[j]).0, key),
        if found {
            at < before.len() && before[at].0 == key && after == before.update(at, (key, val))
        } else {
            (at < before.len() ==> precedes(key, before[at].0)) && after == before.insert(
                at,
                (key, val),
            )
        },
    ensures
        names_ascend(after),
        held(after, key) == Some(val),
        forall|other: Seq<char>| other != key ==> #[trigger] held(after, other) == held(before, other),
{
    let shift: int = if found { 0 } else { 1 };
    assert forall|i: int, j: int| 0 <= i < j < after.len() implies precedes(
        (#[trigger] after[i]).0,
        (#[trigger] after[j]).0,
    ) by {
        let i0 = if i <= at { i } else { i - shift };
        let j0 = if j <= at { j } else { j - shift };
        if i == at {
            assert(after[j] == before[j0]);
            if found {
                assert(precedes(before[at].0, before[j0].0));
            } else if j0 > at {
                assert(precedes(before[at].0, before[j0].0));
                precedes_transitive(key, before[at].0, before[j0].0);
            }
        } else if j == at {
            assert(after[i] == before[i0]);
        } else {
            assert(after[i] == before[i0]);
            assert(after[j] == before[j0]);
            assert(precedes(before[i0].0, before[j0].0));
        }
    }
    assert(after[at] == (key, val));
    held_at(after, at);
    assert forall|other: Seq<char>| other != key implies #[trigger] held(after, other) == held(
        before,
        other,
    ) by {
        if holds_name(before, other) {
            let b = choose|b: int| 0 <= b < before.len() && (#[trigger] before[b]).0 == other;
            let a = if b < at || found { b } else { b + shift };
            assert(after[a] == before[b]);
            held_at(after, a);
            held_at(before, b);
        }
        if holds_name(after, other) {
            let a = choose|a: int| 0 <= a < after.len() && (#[trigger] after[a]).0 == other;
            let b = if a < at || found { a } else { a - shift };
            assert(after[a] == before[b]);
            assert(before[b].0 == other);
        }
    }
}

} // verus!
