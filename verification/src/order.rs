//! The order of texts, and the two ordered collections the drill keeps: a
//! sorted list and a map whose keys come out in order.
use vstd::prelude::*;
use crate::text::chars_of;

verus! {

/// `a` comes strictly before `b`, character by character.
pub open spec fn precedes(a: Seq<char>, b: Seq<char>) -> bool
    decreases a.len(),
{
    if b.len() == 0 {
        false
    } else if a.len() == 0 {
        true
    } else if a[0] != b[0] {
        a[0] < b[0]
    } else {
        precedes(a.drop_first(), b.drop_first())
    }
}

/// No text comes before itself.
pub proof fn precedes_irreflexive(a: Seq<char>)
    ensures
        !precedes(a, a),
    decreases a.len(),
{
    if a.len() > 0 {
        precedes_irreflexive(a.drop_first());
    }
}

/// Of two different texts one comes before the other, and not both.
pub proof fn precedes_total(a: Seq<char>, b: Seq<char>)
    ensures
        a != b ==> (precedes(a, b) <==> !precedes(b, a)),
        a == b ==> !precedes(a, b) && !precedes(b, a),
    decreases a.len(),
{
    if a.len() == 0 {
        if b.len() == 0 {
            assert(a =~= b);
        }
    } else if b.len() > 0 {
        precedes_total(a.drop_first(), b.drop_first());
        if a[0] == b[0] && a.drop_first() == b.drop_first() {
            assert(a =~= seq![a[0]] + a.drop_first());
            assert(b =~= seq![b[0]] + b.drop_first());
        }
    }
}

/// What comes before a text comes before all that the text comes before.
pub proof fn precedes_transitive(a: Seq<char>, b: Seq<char>, c: Seq<char>)
    requires
        precedes(a, b),
        precedes(b, c),
    ensures
        precedes(a, c),
    decreases a.len(),
{
    if a.len() > 0 && a[0] == b[0] && b[0] == c[0] {
        precedes_transitive(a.drop_first(), b.drop_first(), c.drop_first());
    }
}

/// Whether `a` comes strictly before `b`.
pub fn text_precedes(a: &str, b: &str) -> (r: bool)
    ensures
        r == precedes(a@, b@),
{
    let x = chars_of(a);
    let y = chars_of(b);
    let mut i: usize = 0;
    proof {
        assert(a@.subrange(0, x.len() as int) =~= a@);
        assert(b@.subrange(0, y.len() as int) =~= b@);
    }
    while i < x.len() && i < y.len()
        invariant
            0 <= i <= x.len(),
            i <= y.len(),
            x@ == a@,
            y@ == b@,
            precedes(a@, b@) == precedes(
                a@.subrange(i as int, x.len() as int),
                b@.subrange(i as int, y.len() as int),
            ),
        decreases x.len() - i,
    {
        proof {
            assert(a@.subrange(i as int, x.len() as int).drop_first() =~= a@.subrange(
                i + 1,
                x.len() as int,
            ));
            assert(b@.subrange(i as int, y.len() as int).drop_first() =~= b@.subrange(
                i + 1,
                y.len() as int,
            ));
        }
        if x[i] != y[i] {
            return x[i] < y[i];
        }
        i += 1;
    }
    i < y.len()
}

/// No text of the list comes before an earlier one.
pub open spec fn sorted(s: Seq<Seq<char>>) -> bool {
    forall|i: int, j: int| 0 <= i < j < s.len() ==> !precedes(#[trigger] s[j], #[trigger] s[i])
}

/// The texts of `s` in order.
pub open spec fn is_sort_of(r: Seq<Seq<char>>, s: Seq<Seq<char>>) -> bool {
    sorted(r) && r.to_multiset() == s.to_multiset()
}

/// Two sorted lists of the same texts are the same list.
pub proof fn sort_is_unique(a: Seq<Seq<char>>, b: Seq<Seq<char>>)
    requires
        sorted(a),
        sorted(b),
        a.to_multiset() == b.to_multiset(),
    ensures
        a == b,
    decreases a.len(),
{
    broadcast use vstd::seq_lib::group_to_multiset_ensures;

    assert(a.len() == b.len()) by {
        vstd::seq_lib::to_multiset_len(a);
        vstd::seq_lib::to_multiset_len(b);
    }
    if a.len() == 0 {
        assert(a =~= b);
    } else {
        let la = a.last();
        let lb = b.last();
        assert(a.contains(la)) by {
            assert(a[a.len() - 1] == la);
        }
        assert(b.contains(lb)) by {
            assert(b[b.len() - 1] == lb);
        }
        assert(b.contains(la)) by {
            vstd::seq_lib::to_multiset_contains(a, la);
            vstd::seq_lib::to_multiset_contains(b, la);
        }
        assert(a.contains(lb)) by {
            vstd::seq_lib::to_multiset_contains(a, lb);
            vstd::seq_lib::to_multiset_contains(b, lb);
        }
        precedes_total(la, lb);
        precedes_irreflexive(la);
        let ia = choose|i: int| 0 <= i < a.len() && a[i] == lb;
        let ib = choose|i: int| 0 <= i < b.len() && b[i] == la;
        assert(!precedes(la, lb)) by {
            if ia < a.len() - 1 {
                assert(!precedes(a[a.len() - 1], a[ia]));
            }
        }
        assert(!precedes(lb, la)) by {
            if ib < b.len() - 1 {
                assert(!precedes(b[b.len() - 1], b[ib]));
            }
        }
        assert(la == lb);
        vstd::seq_lib::to_multiset_remove(a, a.len() - 1);
        vstd::seq_lib::to_multiset_remove(b, b.len() - 1);
        assert(a.remove(a.len() - 1) =~= a.drop_last());
        assert(b.remove(b.len() - 1) =~= b.drop_last());
        sort_is_unique(a.drop_last(), b.drop_last());
        assert(a =~= a.drop_last().push(la));
        assert(b =~= b.drop_last().push(lb));
    }
}

/// Sorts a list of texts.
pub fn sort_texts(v: Vec<String>) -> (r: Vec<String>)
    ensures
        is_sort_of(crate::text::texts(r@), crate::text::texts(v@)),
{
    let mut out: Vec<String> = Vec::new();
    let mut i: usize = 0;
    proof {
        assert(crate::text::texts(out@) =~= Seq::empty());
        assert(crate::text::texts(v@).take(0) =~= Seq::empty());
    }
    while i < v.len()
        invariant
            0 <= i <= v.len(),
            sorted(crate::text::texts(out@)),
            crate::text::texts(out@).to_multiset() == crate::text::texts(v@).take(
                i as int,
            ).to_multiset(),
        decreases v.len() - i,
    {
        let ghost before = crate::text::texts(out@);
        let mut at: usize = 0;
        while at < out.len() && !text_precedes(v[i].as_str(), out[at].as_str())
            invariant
                0 <= i < v.len(),
                0 <= at <= out.len(),
                before == crate::text::texts(out@),
                forall|j: int| 0 <= j < at ==> !precedes(v@[i as int]@, #[trigger] before[j]),
            decreases out.len() - at,
        {
            at += 1;
        }
        out.insert(at, v[i].clone());
        proof {
            let x = v@[i as int]@;
            let after = crate::text::texts(out@);
            assert(after =~= before.insert(at as int, x));
            vstd::seq_lib::to_multiset_insert(before, at as int, x);
            vstd::seq_lib::to_multiset_build(crate::text::texts(v@).take(i as int), x);
            assert(crate::text::texts(v@).take(i + 1) =~= crate::text::texts(v@).take(
                i as int,
            ).push(x));
            assert forall|p: int, q: int| 0 <= p < q < after.len() implies !precedes(
                #[trigger] after[q],
                #[trigger] after[p],
            ) by {
                if q == at {
                    assert(after[p] == before[p]);
                } else if p == at {
                    // `x` precedes the element it was put before, and that one
                    // precedes, or equals, everything after it.
                    assert(after[q] == before[q - 1]);
                    let first = before[at as int];
                    assert(precedes(x, first));
                    if precedes(before[q - 1], x) {
                        precedes_transitive(before[q - 1], x, first);
                        if q - 1 > at {
                            assert(!precedes(before[q - 1], before[at as int]));
                        } else {
                            precedes_irreflexive(first);
                        }
                    }
                } else {
                    let p0 = if p < at { p } else { p - 1 };
                    let q0 = if q < at { q } else { q - 1 };
                    assert(after[p] == before[p0]);
                    assert(after[q] == before[q0]);
                }
            }
        }
        i += 1;
    }
    proof {
        assert(crate::text::texts(v@).take(v.len() as int) =~= crate::text::texts(v@));
    }
    out
}

/// One text comes before another exactly where it is an opening of it, or where at
/// the first place at which they differ it has the smaller character.
pub proof fn texts_are_ordered_by_where_they_differ(a: Seq<char>, b: Seq<char>, k: int)
    requires
        0 <= k <= a.len(),
        k <= b.len(),
        a.take(k) == b.take(k),
    ensures
        k < a.len() && k < b.len() && a[k] != b[k] ==> (precedes(a, b) <==> a[k] < b[k]),
        k == a.len() ==> (precedes(a, b) <==> a.len() < b.len()),
        k == b.len() ==> !precedes(a, b),
    decreases k,
{
    if k > 0 {
        let (x, y) = (a.drop_first(), b.drop_first());
        assert(a[0] == a.take(k)[0]);
        assert(b[0] == b.take(k)[0]);
        assert(x.take(k - 1) =~= a.take(k).drop_first());
        assert(y.take(k - 1) =~= b.take(k).drop_first());
        texts_are_ordered_by_where_they_differ(x, y, k - 1);
    }
}

} // verus!
