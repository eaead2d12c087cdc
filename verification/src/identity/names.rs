//! The names of Kubernetes objects, and of the keys in their data.
use vstd::prelude::*;
use crate::text::{chars_of, contains, occurs};

verus! {

/// A lower-case letter or a digit.
pub open spec fn is_lower_alnum(c: char) -> bool {
    'a' <= c <= 'z' || '0' <= c <= '9'
}

/// A letter or a digit.
pub open spec fn is_alnum(c: char) -> bool {
    is_lower_alnum(c) || 'A' <= c <= 'Z'
}

/// One label of a DNS name: up to 63 lower-case letters, digits and hyphens,
/// with a letter or a digit at either end.
pub open spec fn is_dns_label(s: Seq<char>) -> bool {
    &&& 0 < s.len() <= 63
    &&& forall|i: int| 0 <= i < s.len() ==> is_lower_alnum(#[trigger] s[i]) || s[i] == '-'
    &&& s[0] != '-'
    &&& s.last() != '-'
}

/// The parts of a text between its dots.
pub open spec fn dotted(s: Seq<char>) -> Seq<Seq<char>>
    decreases s.len(),
{
    if s.len() == 0 {
        seq![Seq::empty()]
    } else {
        let rest = dotted(s.drop_last());
        if s.last() == '.' {
            rest.push(Seq::empty())
        } else {
            rest.drop_last().push(rest.last().push(s.last()))
        }
    }
}

/// How long a name may be: a namespace is one label long.
pub open spec fn length_limit(label: Seq<char>) -> int {
    if occurs(label, "namespace"@) {
        63
    } else {
        253
    }
}

/// The name of an object: labels between dots, up to a length.
pub open spec fn is_dns_name(label: Seq<char>, s: Seq<char>) -> bool {
    &&& 0 < s.len() <= length_limit(label)
    &&& forall|i: int| 0 <= i < dotted(s).len() ==> is_dns_label(#[trigger] dotted(s)[i])
}

/// Whether a part of a text is a label.
fn label_in(chars: &Vec<char>, from: usize, to: usize) -> (r: bool)
    requires
        from <= to <= chars.len(),
    ensures
        r == is_dns_label(chars@.subrange(from as int, to as int)),
{
    let ghost part = chars@.subrange(from as int, to as int);
    if from == to || to - from > 63 {
        return false;
    }
    let mut i: usize = from;
    while i < to
        invariant
            from <= i <= to <= chars.len(),
            part == chars@.subrange(from as int, to as int),
            forall|j: int|
                0 <= j < i - from ==> is_lower_alnum(#[trigger] part[j]) || part[j] == '-',
        decreases to - i,
    {
        let c = chars[i];
        proof {
            assert(part[i - from] == c);
        }
        if !(('a' <= c && c <= 'z') || ('0' <= c && c <= '9') || c == '-') {
            return false;
        }
        i += 1;
    }
    proof {
        assert(part[0] == chars@[from as int]);
        assert(part.last() == chars@[to - 1]);
    }
    chars[from] != '-' && chars[to - 1] != '-'
}

/// Requires that a name is one that an object can have.
pub fn validate_name(label: &str, value: &str) -> (r: Result<(), String>)
    ensures
        if is_dns_name(label@, value@) {
            r is Ok
        } else {
            r matches Err(e) && e@ == label@ + " name is not a Kubernetes DNS name"@
        },
{
    let mut refusal = label.to_owned();
    refusal.append(" name is not a Kubernetes DNS name");
    let chars = chars_of(value);
    let max: usize = if contains(label, "namespace") {
        63
    } else {
        253
    };
    if chars.len() == 0 || chars.len() > max {
        return Err(refusal);
    }
    let mut start: usize = 0;
    let mut sound: bool = true;
    let mut i: usize = 0;
    proof {
        assert(chars@.take(0) =~= Seq::empty());
        assert(chars@.subrange(0, 0) =~= Seq::empty());
    }
    while i < chars.len()
        invariant
            0 <= start <= i <= chars.len(),
            dotted(chars@.take(i as int)).len() > 0,
            dotted(chars@.take(i as int)).last() == chars@.subrange(start as int, i as int),
            sound == forall|j: int|
                0 <= j < dotted(chars@.take(i as int)).len() - 1 ==> is_dns_label(
                    #[trigger] dotted(chars@.take(i as int))[j],
                ),
        decreases chars.len() - i,
    {
        let ghost before = dotted(chars@.take(i as int));
        let ghost after = dotted(chars@.take(i + 1));
        let ghost was = sound;
        proof {
            assert(chars@.take(i + 1).drop_last() =~= chars@.take(i as int));
            assert(chars@.take(i + 1).last() == chars@[i as int]);
        }
        if chars[i] == '.' {
            sound = sound && label_in(&chars, start, i);
            start = i + 1;
            proof {
                assert(chars@.subrange(start as int, i + 1) =~= Seq::empty());
                assert(after == before.push(Seq::empty()));
                assert(forall|j: int| 0 <= j < before.len() ==> after[j] == before[j]);
                assert(before.last() == before[before.len() - 1]);
                if sound {
                    assert forall|j: int| 0 <= j < after.len() - 1 implies is_dns_label(
                        #[trigger] after[j],
                    ) by {
                        assert(after[j] == before[j]);
                    }
                } else if was {
                    assert(!is_dns_label(after[before.len() - 1]));
                } else {
                    let j = choose|j: int|
                        0 <= j < before.len() - 1 && !is_dns_label(#[trigger] before[j]);
                    assert(!is_dns_label(after[j]));
                }
            }
        } else {
            proof {
                assert(chars@.subrange(start as int, i + 1) =~= chars@.subrange(
                    start as int,
                    i as int,
                ).push(chars@[i as int]));
                assert(after.len() == before.len());
                assert(forall|j: int| 0 <= j < before.len() - 1 ==> after[j] == before[j]);
                if !sound {
                    let j = choose|j: int|
                        0 <= j < before.len() - 1 && !is_dns_label(#[trigger] before[j]);
                    assert(!is_dns_label(after[j]));
                }
            }
        }
        i += 1;
    }
    proof {
        assert(chars@.take(chars.len() as int) =~= value@);
    }
    let ghost parts = dotted(value@);
    let last = label_in(&chars, start, chars.len());
    proof {
        assert(parts.last() == parts[parts.len() - 1]);
    }
    if sound && last {
        Ok(())
    } else {
        proof {
            if last {
                let j = choose|j: int| 0 <= j < parts.len() - 1 && !is_dns_label(
                    #[trigger] parts[j],
                );
                assert(!is_dns_label(parts[j]));
            } else {
                assert(!is_dns_label(parts[parts.len() - 1]));
            }
        }
        Err(refusal)
    }
}

/// The key of an entry in an object's data.
pub open spec fn is_data_key(s: Seq<char>) -> bool {
    &&& 0 < s.len() <= 253
    &&& forall|i: int|
        0 <= i < s.len() ==> is_alnum(#[trigger] s[i]) || s[i] == '.' || s[i] == '_' || s[i] == '-'
}

/// Requires that a key is one that an entry can have.
pub fn validate_data_key(label: &str, value: &str) -> (r: Result<(), String>)
    ensures
        if is_data_key(value@) {
            r is Ok
        } else {
            r matches Err(e) && e@ == label@ + " is not a valid Secret data key"@
        },
{
    let mut refusal = label.to_owned();
    refusal.append(" is not a valid Secret data key");
    let chars = chars_of(value);
    if chars.len() == 0 || chars.len() > 253 {
        return Err(refusal);
    }
    let mut i: usize = 0;
    while i < chars.len()
        invariant
            0 <= i <= chars.len(),
            chars@ == value@,
            refusal@ == label@ + " is not a valid Secret data key"@,
            forall|j: int|
                0 <= j < i ==> is_alnum(#[trigger] value@[j]) || value@[j] == '.' || value@[j]
                    == '_' || value@[j] == '-',
        decreases chars.len() - i,
    {
        let c = chars[i];
        let fine: bool = ('a' <= c && c <= 'z') || ('0' <= c && c <= '9') || ('A' <= c && c <= 'Z')
            || c == '.' || c == '_' || c == '-';
        if !fine {
            proof {
                assert(value@[i as int] == c);
            }
            return Err(refusal);
        }
        i += 1;
    }
    Ok(())
}

/// A text as one part of a JSON pointer.
pub open spec fn pointer_part(s: Seq<char>) -> Seq<char>
    decreases s.len(),
{
    if s.len() == 0 {
        Seq::empty()
    } else {
        let rest = pointer_part(s.drop_last());
        if s.last() == '~' {
            rest + "~0"@
        } else if s.last() == '/' {
            rest + "~1"@
        } else {
            rest.push(s.last())
        }
    }
}

/// A text as one part of a JSON pointer.
pub fn json_pointer_escape(value: &str) -> (r: String)
    ensures
        r@ == pointer_part(value@),
{
    let chars = chars_of(value);
    let mut out = "".to_owned();
    let mut i: usize = 0;
    proof {
        reveal_strlit("");
        assert(chars@.take(0) =~= Seq::empty());
        assert(out@ =~= Seq::<char>::empty());
    }
    while i < chars.len()
        invariant
            0 <= i <= chars.len(),
            out@ == pointer_part(chars@.take(i as int)),
        decreases chars.len() - i,
    {
        proof {
            assert(chars@.take(i + 1).drop_last() =~= chars@.take(i as int));
            assert(chars@.take(i + 1).last() == chars@[i as int]);
        }
        if chars[i] == '~' {
            out.append("~0");
        } else if chars[i] == '/' {
            out.append("~1");
        } else {
            out.push(chars[i]);
        }
        i += 1;
    }
    proof {
        assert(chars@.take(chars.len() as int) =~= value@);
    }
    out
}

/// A name that an object can have stands for itself in an address: it holds no
/// character that separates one part of an address from the next.
pub proof fn a_name_is_one_part_of_an_address(label: Seq<char>, s: Seq<char>)
    requires
        is_dns_name(label, s),
    ensures
        forall|i: int| 0 <= i < s.len() ==> is_lower_alnum(#[trigger] s[i]) || s[i] == '-' || s[i] == '.',
        !s.contains('/'),
{
    dotted_holds_all(s);
    assert forall|i: int| 0 <= i < s.len() implies is_lower_alnum(#[trigger] s[i]) || s[i] == '-'
        || s[i] == '.' by {
        if s[i] != '.' {
            let (p, k) = choose|p: int, k: int|
                0 <= p < dotted(s).len() && 0 <= k < dotted(s)[p].len() && #[trigger] dotted(s)[p][k]
                    == s[i];
            assert(is_dns_label(dotted(s)[p]));
        }
    }
}

/// A text without a dot is its only part.
pub proof fn undotted_is_one_part(s: Seq<char>)
    requires
        !s.contains('.'),
    ensures
        dotted(s) == seq![s],
    decreases s.len(),
{
    if s.len() == 0 {
        assert(s =~= Seq::empty());
    } else {
        let rest = s.drop_last();
        assert(!rest.contains('.')) by {
            assert forall|i: int| 0 <= i < rest.len() implies rest[i] != '.' by {
                assert(rest[i] == s[i]);
            }
        }
        undotted_is_one_part(rest);
        assert(s.last() == s[s.len() - 1]);
        assert(rest.push(s.last()) =~= s);
        assert(dotted(s) =~= seq![s]);
    }
}

/// Every character of a text but its dots stands in one of its parts.
proof fn dotted_holds_all(s: Seq<char>)
    ensures
        dotted(s).len() > 0,
        forall|i: int|
            #![trigger s[i]]
            0 <= i < s.len() && s[i] != '.' ==> exists|p: int, k: int|
                0 <= p < dotted(s).len() && 0 <= k < dotted(s)[p].len() && #[trigger] dotted(s)[p][k]
                    == s[i],
    decreases s.len(),
{
    if s.len() > 0 {
        let rest = s.drop_last();
        dotted_holds_all(rest);
        let before = dotted(rest);
        let after = dotted(s);
        assert forall|i: int| #![trigger s[i]] 0 <= i < s.len() && s[i] != '.' implies exists|
            p: int,
            k: int,
        |
            0 <= p < after.len() && 0 <= k < after[p].len() && #[trigger] after[p][k] == s[i] by {
            if i < rest.len() {
                assert(rest[i] == s[i]);
                let (p, k) = choose|p: int, k: int|
                    0 <= p < before.len() && 0 <= k < before[p].len() && #[trigger] before[p][k]
                        == rest[i];
                assert(before.last() == before[before.len() - 1]);
                assert(after[p][k] == s[i]);
            } else {
                let p = after.len() - 1;
                let k = after[p].len() - 1;
                assert(after[p][k] == s[i]);
            }
        }
    }
}

} // verus!
