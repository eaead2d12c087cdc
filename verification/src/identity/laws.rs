//! What is promised of the installation's identity: which names are taken, what is
//! read of a record, and which key signs in the end.
use vstd::prelude::*;
use vstd::utf8::{decode_utf8, encode_utf8, valid_utf8};
use crate::drill::step::Step;
use crate::encoding::{base64_in, base64_of};
use crate::identity::api::{
    base_of, bootstrap_fault, connect_is, distribution_fault, ConnectReads, ConnectStep,
};
use crate::identity::bootstrap::{
    bootstrap_is, published_is, BootstrapArgs, BootstrapQuestion, BootstrapReads, BootstrapStep,
    InitializeResult, Inspected, Origin,
};
use crate::identity::certificates::{bundled, found_is_within, unspaced, BEGIN, END};
use crate::identity::distribute::{distribute_is, DistributeArgs, DistributeReads, DistributeStep};
use crate::identity::names::{
    dotted, is_data_key, is_dns_label, is_dns_name, pointer_part, undotted_is_one_part,
};
use crate::identity::records::{
    entry, patch_model, private_is, public_is, publishes, secret_text, text_under, KubeObject,
    PatchModel, PatchValueModel, PrivateRecord, PublicMaterial, PublicRecord,
};
use crate::text::{first_at, occurs, occurs_at, occurs_has_first, texts, trimmed};

verus! {

// ---- names -----------------------------------------------------------------

/// The parts of a name are what its dots part: a name made of two with a dot
/// between them has the parts of the one and then those of the other.
pub proof fn a_dot_parts_a_name(a: Seq<char>, b: Seq<char>)
    ensures
        dotted(a + seq!['.'] + b) == dotted(a) + dotted(b),
        !a.contains('.') ==> dotted(a) == seq![a],
    decreases b.len(),
{
    if !a.contains('.') {
        undotted_is_one_part(a);
    }
    let whole = a + seq!['.'] + b;
    has_a_part(b);
    if b.len() == 0 {
        assert(whole.drop_last() =~= a);
        assert(whole.last() == '.');
        assert(dotted(a).push(Seq::empty()) =~= dotted(a) + dotted(b));
    } else {
        let rest = b.drop_last();
        a_dot_parts_a_name(a, rest);
        has_a_part(rest);
        assert(whole.drop_last() =~= a + seq!['.'] + rest);
        assert(whole.last() == b.last());
        let (p, q) = (dotted(a), dotted(rest));
        assert((p + q).last() == q.last());
        assert((p + q).drop_last() =~= p + q.drop_last());
        if b.last() == '.' {
            assert((p + q).push(Seq::empty()) =~= p + q.push(Seq::empty()));
        } else {
            let last = q.last().push(b.last());
            assert((p + q.drop_last()).push(last) =~= p + q.drop_last().push(last));
        }
    }
}

proof fn has_a_part(s: Seq<char>)
    ensures
        dotted(s).len() > 0,
    decreases s.len(),
{
    if s.len() > 0 {
        has_a_part(s.drop_last());
    }
}

/// A label is made of small letters, digits and hyphens, with none of these at
/// either end, and has up to 63 of them. A name has up to 253, but for that of a
/// namespace, which has no more than a label.
pub proof fn a_name_is_made_of_labels(label: Seq<char>, s: Seq<char>, i: int)
    ensures
        is_dns_label(s) <==> {
            &&& 1 <= s.len() <= 63
            &&& forall|k: int|
                0 <= k < s.len() ==> ('a' <= #[trigger] s[k] <= 'z' || '0' <= s[k] <= '9' || s[k]
                    == '-')
            &&& s[0] != '-' && s[s.len() - 1] != '-'
        },
        is_dns_name(label, s) && 0 <= i < dotted(s).len() ==> is_dns_label(dotted(s)[i]),
        is_dns_name(label, s) ==> 1 <= s.len() <= 253,
        is_dns_name(label, s) && occurs(label, "namespace"@) ==> s.len() <= 63,
        is_dns_label(s) && !s.contains('.') ==> is_dns_name(label, s),
        is_data_key(s) <==> {
            &&& 1 <= s.len() <= 253
            &&& forall|k: int|
                0 <= k < s.len() ==> ('a' <= #[trigger] s[k] <= 'z' || 'A' <= s[k] <= 'Z' || '0'
                    <= s[k] <= '9' || s[k] == '.' || s[k] == '_' || s[k] == '-')
        },
{
    if !s.contains('.') {
        undotted_is_one_part(s);
    }
}

/// Two names that are names make one with a dot between them, as far as it is
/// not too long.
pub proof fn names_can_be_joined_by_a_dot(label: Seq<char>, a: Seq<char>, b: Seq<char>)
    requires
        !occurs(label, "namespace"@),
        a.len() + b.len() < 253,
    ensures
        is_dns_name(label, a + seq!['.'] + b) <==> is_dns_name(label, a) && is_dns_name(label, b),
{
    a_dot_parts_a_name(a, b);
    let (p, q) = (dotted(a), dotted(b));
    let all = dotted(a + seq!['.'] + b);
    has_a_part(a);
    has_a_part(b);
    assert(forall|i: int| 0 <= i < p.len() ==> #[trigger] all[i] == p[i]);
    assert(forall|i: int| 0 <= i < q.len() ==> #[trigger] q[i] == all[i + p.len()]);
    if is_dns_name(label, a + seq!['.'] + b) {
        assert forall|i: int| 0 <= i < p.len() implies is_dns_label(#[trigger] p[i]) by {
            assert(is_dns_label(all[i]));
        }
        assert forall|i: int| 0 <= i < q.len() implies is_dns_label(#[trigger] q[i]) by {
            assert(is_dns_label(all[i + p.len()]));
        }
        if a.len() == 0 {
            assert(is_dns_label(p[0]));
        }
        if b.len() == 0 {
            assert(is_dns_label(q[0]));
        }
    }
    if is_dns_name(label, a) && is_dns_name(label, b) {
        assert forall|i: int| 0 <= i < all.len() implies is_dns_label(#[trigger] all[i]) by {
            if i < p.len() {
                assert(is_dns_label(p[i]));
            } else {
                assert(is_dns_label(q[i - p.len()]));
            }
        }
    }
}

/// In a pointer a tilde and a slash are written in two characters, and everything
/// else stands as it is, one after the other.
pub proof fn a_pointer_part_is_written_sign_by_sign(a: Seq<char>, b: Seq<char>, c: char)
    ensures
        pointer_part(a + b) == pointer_part(a) + pointer_part(b),
        pointer_part(seq![c]) == if c == '~' {
            seq!['~', '0']
        } else if c == '/' {
            seq!['~', '1']
        } else {
            seq![c]
        },
        !pointer_part(a).contains('/'),
    decreases a.len() + b.len(), b.len(),
{
    reveal_strlit("~0");
    reveal_strlit("~1");
    assert(seq![c].drop_last() =~= Seq::<char>::empty());
    assert(pointer_part(Seq::<char>::empty()) =~= Seq::<char>::empty());
    assert("~0"@ =~= seq!['~', '0']);
    assert("~1"@ =~= seq!['~', '1']);
    assert(pointer_part(seq![c]) =~= if c == '~' {
        seq!['~', '0']
    } else if c == '/' {
        seq!['~', '1']
    } else {
        seq![c]
    });
    if b.len() == 0 {
        assert(a + b =~= a);
        assert(pointer_part(a) + pointer_part(b) =~= pointer_part(a));
    } else {
        assert((a + b).drop_last() =~= a + b.drop_last());
        assert((a + b).last() == b.last());
        a_pointer_part_is_written_sign_by_sign(a, b.drop_last(), c);
        assert(pointer_part(a + b) =~= pointer_part(a) + pointer_part(b));
    }
    if a.len() > 0 {
        a_pointer_part_is_written_sign_by_sign(a.drop_last(), Seq::empty(), c);
        let (rest, all) = (pointer_part(a.drop_last()), pointer_part(a));
        assert forall|i: int| 0 <= i < all.len() implies all[i] != '/' by {
            if i < rest.len() {
                assert(all[i] == rest[i]);
                assert(rest.contains(rest[i]));
            }
        }
    }
}

/// An installation is established only under names that the cluster takes.
pub proof fn every_name_is_checked(a: BootstrapArgs, d: DistributeArgs)
    ensures
        bootstrap_fault(a) is None <==> {
            &&& is_dns_name("namespace"@, a.namespace@)
            &&& is_dns_name("Secret"@, a.secret_name@)
            &&& is_dns_name("ConfigMap"@, a.public_configmap_name@)
            &&& is_data_key(a.secret_key@)
            &&& a.external_secret matches Some(e) ==> is_dns_name("external Secret"@, e.0@)
                && is_data_key(e.1@)
        },
        distribution_fault(d) is None <==> {
            &&& is_dns_name("source namespace"@, d.source_namespace@)
            &&& is_dns_name("target namespace"@, d.target_namespace@)
            &&& is_dns_name("Secret"@, d.secret_name@)
            &&& is_data_key(d.secret_key@)
        },
{
}

// ---- the cluster -----------------------------------------------------------

/// The cluster is reached by `https`, at its port or at the usual one; an address
/// with colons stands in brackets, once.
pub proof fn an_address_with_colons_is_bracketed(host: Seq<char>, port: Seq<char>)
    ensures
        occurs(host, ":"@) && host[0] != '[' ==> base_of(host, Some(port)) == "https://["@ + host
            + "]:"@ + port,
        !occurs(host, ":"@) ==> base_of(host, Some(port)) == "https://"@ + host + ":"@ + port,
        host.len() > 0 && host[0] == '[' ==> base_of(host, Some(port)) == "https://"@ + host + ":"@
            + port,
        base_of(host, None) == base_of(host, Some("443"@)),
{
    reveal_strlit("[");
    reveal_strlit("]");
    reveal_strlit(":");
    reveal_strlit("https://");
    reveal_strlit("https://[");
    reveal_strlit("]:");
    assert("https://["@ =~= "https://"@ + "["@);
    assert("]:"@ =~= "]"@ + ":"@);
    if host.len() > 0 {
        assert(host.subrange(0, 1)[0] == host[0]);
        assert("["@.is_prefix_of(host) <==> host[0] == '[');
    }
    assert("https://["@ + host + "]:"@ + port =~= "https://"@ + ("["@ + host + "]"@) + ":"@ + port);
}

/// The cluster is in reach exactly where every name is one, the cluster's address
/// is known, its token and its certificates can be read, there is at least one
/// certificate, and it can be trusted; the token then has nothing around it.
pub proof fn the_cluster_is_in_reach(
    r: ConnectStep,
    args: BootstrapArgs,
    host: Option<Seq<char>>,
    port: Option<Seq<char>>,
    reads: ConnectReads,
)
    requires
        connect_is(r, args, host, port, reads),
    ensures
        (r matches Step::Done(Ok(_))) <==> {
            &&& bootstrap_fault(args) is None
            &&& host is Some
            &&& reads.token matches Some(Ok(_))
            &&& reads.ca matches Some(Ok(ca))
            &&& valid_utf8(ca@)
            &&& bundled(decode_utf8(ca@), 0) matches Ok(all) && all.len() > 0
            &&& reads.trusted matches Some(Ok(_))
            &&& reads.configured matches Some(Ok(_))
        },
        r matches Step::Done(Ok(c)) ==> c.base_url@ == base_of(host->0, port) && c.token@ == trimmed(
            reads.token->0->Ok_0@,
        ),
{
}

/// A text without a certificate holds none, and one that can be read holds at
/// least one where one begins. Nothing of a certificate's body but its spaces is
/// left out.
pub proof fn a_certificate_that_begins_is_read(s: Seq<char>, i: int, c: char)
    ensures
        bundled(s, 0) matches Ok(all) ==> (all.len() > 0 <==> occurs(s, BEGIN@)),
        !occurs(s, BEGIN@) ==> bundled(s, 0) == Ok::<Seq<Seq<u8>>, Seq<char>>(Seq::empty()),
        unspaced(s).contains(c) <==> s.contains(c) && !(c == ' ' || c == '\t' || c == '\n' || c
            == '\x0C' || c == '\r'),
{
    occurs_has_first(s, BEGIN@, 0);
    if occurs(s, BEGIN@) {
        let k = choose|k: int| occurs_at(s, BEGIN@, k);
        assert(0 <= k && occurs_at(s, BEGIN@, k));
    }
    let keep = |c: char| !crate::identity::certificates::is_ascii_space(c);
    assert(unspaced(s) == s.filter(keep));
    if unspaced(s).contains(c) {
        let k = choose|k: int| 0 <= k < unspaced(s).len() && unspaced(s)[k] == c;
        s.lemma_filter_pred(keep, k);
        s.lemma_filter_contains_rev(keep, c);
    }
    if s.contains(c) && keep(c) {
        let k = choose|k: int| 0 <= k < s.len() && s[k] == c;
        s.lemma_filter_contains(keep, k);
    }
}

// ---- records ---------------------------------------------------------------

/// What is read under a key is what stands first under it, and where nothing
/// stands under it there is nothing.
pub proof fn what_stands_first_is_read(v: Seq<(String, Option<String>)>, key: Seq<char>, i: int)
    ensures
        0 <= i < v.len() && v[i].0@ == key && (forall|j: int|
            0 <= j < i ==> (#[trigger] v[j]).0@ != key) ==> entry(v, key) == Some(v[i].1),
        (forall|j: int| 0 <= j < v.len() ==> (#[trigger] v[j]).0@ != key) ==> entry(v, key) is None,
    decreases v.len(),
{
    if v.len() > 0 {
        let rest = v.drop_last();
        what_stands_first_is_read(rest, key, i);
        assert(v[v.len() - 1] == v.last());
        assert(forall|j: int| 0 <= j < rest.len() ==> #[trigger] rest[j] == v[j]);
    }
}

/// The text of a key in a Secret is what its base 64 spells, as text, and nothing
/// else.
pub proof fn a_secret_is_read_as_it_was_written(value: Option<String>, label: Seq<char>)
    ensures
        secret_text(value, label) is Ok <==> (value matches Some(t) && (base64_in(t@) matches Some(
            bytes,
        ) && valid_utf8(bytes))),
        secret_text(value, label) matches Ok(text) ==> text == decode_utf8(
            base64_in(value->0@)->0,
        ),
{
}

/// A record of the private key tells what its object holds: the key under its
/// name, the mark, and whether there is anything else.
pub proof fn a_private_record_tells_what_is_there(
    r: Result<PrivateRecord, String>,
    object: KubeObject,
    name: Seq<char>,
    key: Seq<char>,
)
    requires
        private_is(r, object, name, key),
    ensures
        object.resource_version is None ==> r is Err,
        r matches Ok(p) ==> {
            &&& p.resource_version@ == object.resource_version->0@
            &&& p.state == text_under(object.annotations, "logweir.dev/identity-state"@)
            &&& p.has_any_data <==> (object.data matches Some(v) && v@.len() > 0)
            &&& p.has_annotations <==> object.annotations is Some
            &&& p.pem is Some <==> (object.data matches Some(v) && entry(v@, key) is Some)
            &&& p.pem matches Some(pem) ==> (object.data matches Some(v) && (entry(v@, key) matches Some(
                Some(t),
            ) && (base64_in(t@) matches Some(bytes) && pem@ == decode_utf8(bytes))))
        },
        r is Err ==> object.resource_version is None || (object.data matches Some(v) && entry(
            v@,
            key,
        ) is Some),
{
}

/// A record of the public half tells what its object holds under each of its
/// names.
pub proof fn a_public_record_tells_what_is_there(
    r: Result<PublicRecord, String>,
    object: KubeObject,
    name: Seq<char>,
    i: int,
)
    requires
        public_is(r, object, name),
    ensures
        r is Ok <==> object.resource_version is Some,
        r matches Ok(p) ==> {
            &&& p.resource_version@ == object.resource_version->0@
            &&& p.state == text_under(object.annotations, "logweir.dev/identity-state"@)
            &&& p.key_id == text_under(object.data, "key-id"@)
            &&& p.spki_pem == text_under(object.data, "signing.pub.pem"@)
            &&& p.algorithm == text_under(object.data, "algorithm"@)
            &&& p.trust_reference == text_under(object.data, "trust-reference"@)
            &&& p.has_any_data <==> (object.data matches Some(v) && v@.len() > 0)
            &&& p.has_annotations <==> object.annotations is Some
            &&& object.data matches Some(v) ==> p.data_keys@.len() == v@.len() && (0 <= i < v@.len()
                ==> p.data_keys@[i]@ == v@[i].0@)
        },
{
    if let Ok(p) = r {
        if let Some(v) = object.data {
            assert(texts(p.data_keys@).len() == p.data_keys@.len());
            if 0 <= i < v@.len() {
                assert(texts(p.data_keys@)[i] == p.data_keys@[i]@);
            }
        }
    }
}

/// A public record is the signer's exactly where it is marked as established,
/// each of its entries is the signer's, and it holds no other.
pub proof fn a_public_record_is_the_signers(record: PublicRecord, m: PublicMaterial)
    ensures
        publishes(record, m) <==> {
            let keys = texts(record.data_keys@);
            &&& record.state matches Some(s) && s@ == "established"@
            &&& record.key_id matches Some(s) && s@ == m.key_id@
            &&& record.spki_pem matches Some(s) && s@ == m.spki_pem@
            &&& record.algorithm matches Some(s) && s@ == m.algorithm@
            &&& record.trust_reference matches Some(s) && s@
                == "logweir.dev/v1alpha1/TrustRoster/default#spec.signingKeys"@
            &&& keys.contains("key-id"@) && keys.contains("signing.pub.pem"@)
            &&& keys.contains("algorithm"@) && keys.contains("trust-reference"@)
            &&& forall|i: int|
                0 <= i < keys.len() ==> (#[trigger] keys[i] == "key-id"@ || keys[i]
                    == "signing.pub.pem"@ || keys[i] == "algorithm"@ || keys[i]
                    == "trust-reference"@)
        },
        record.carries() <==> (record.state matches Some(s) && s@ == "established"@)
            || record.key_id is Some || record.spki_pem is Some || record.algorithm is Some
            || record.trust_reference is Some,
{
}

// ---- the key that signs ----------------------------------------------------

/// A public record that says anything is left as it is, and counts only where it
/// is the signer's; one that says nothing and holds nothing is written, and where
/// another was faster, what was written counts only where it is the signer's.
pub proof fn a_public_record_is_kept_or_written(
    r: BootstrapStep,
    record: PublicRecord,
    m: PublicMaterial,
    origin: Origin,
    reads: BootstrapReads,
)
    requires
        published_is(r, record, m, origin, reads),
    ensures
        (r matches Step::Done(Ok(_))) <==> {
            ||| record.carries() && publishes(record, m)
            ||| !record.carries() && !record.has_any_data && (reads.public_written matches Some(
                Ok(written),
            ) && match written {
                InitializeResult::Written => true,
                InitializeResult::Contended(_) => reads.public_winner matches Some(Ok(winner))
                    && publishes(winner, m),
            })
        },
        r matches Step::Done(Ok(o)) ==> o.key_id@ == m.key_id@ && o.origin == origin,
        r matches Step::Ask(BootstrapQuestion::WritePublic(_)) ==> !record.carries()
            && !record.has_any_data,
{
}

/// Where there is a private key, it is the one that signs: nothing is generated
/// and no private record is written, and where a key is to be adopted it has to
/// be that one.
pub proof fn a_key_that_is_there_signs(
    r: BootstrapStep,
    args: BootstrapArgs,
    reads: BootstrapReads,
)
    requires
        bootstrap_is(r, args, reads),
        reads.private matches Some(Ok(private)) && private.pem is Some,
    ensures
        r matches Step::Done(Ok(o)) ==> {
            &&& reads.managed_key matches Some(Inspected::Key(Ok(m)))
            &&& o.key_id@ == m.key_id@
            &&& o.origin == Origin::Existing
            &&& args.external_secret is Some ==> (reads.external_key matches Some(
                Inspected::Key(Ok(adopted)),
            ) && adopted.key_id@ == m.key_id@)
        },
        !(r matches Step::Ask(BootstrapQuestion::WritePrivate(_))),
        !(r matches Step::Ask(BootstrapQuestion::Generate)),
        r matches Step::Ask(BootstrapQuestion::InspectManaged(pem)) ==> pem@
            == reads.private->0->Ok_0.pem->0@,
{
}

/// Where there is no private key, and nothing says that there ever was one, a key
/// is adopted or made; it signs where it was written, and where another was
/// faster, the key of that one signs.
pub proof fn a_key_is_made_only_where_there_never_was_one(
    r: BootstrapStep,
    args: BootstrapArgs,
    reads: BootstrapReads,
)
    requires
        bootstrap_is(r, args, reads),
        reads.private matches Some(Ok(private)) && private.pem is None,
        reads.public matches Some(Ok(_)),
    ensures
        ({
            let private = reads.private->0->Ok_0;
            let public = reads.public->0->Ok_0;
            let new = !private.has_any_data && !(private.state matches Some(s) && s@
                == "established"@) && !public.carries();
            &&& !new ==> (r matches Step::Done(Err(_)))
            &&& r matches Step::Done(Ok(o)) ==> {
                &&& o.origin != Origin::Existing
                &&& reads.private_written matches Some(Ok(written))
                &&& match written {
                    InitializeResult::Written => {
                        &&& o.origin == Origin::Adopted <==> args.external_secret is Some
                        &&& o.origin == Origin::Generated <==> args.external_secret is None
                        &&& args.external_secret is Some ==> (reads.external_key matches Some(
                            Inspected::Key(Ok(m)),
                        ) && o.key_id@ == m.key_id@)
                        &&& args.external_secret is None ==> (reads.generated matches Some(
                            Ok((_, Ok(m))),
                        ) && o.key_id@ == m.key_id@)
                    },
                    InitializeResult::Contended(status) => {
                        &&& o.origin == Origin::ConcurrentWinner(status)
                        &&& reads.winner_key matches Some(Inspected::Key(Ok(m))) && o.key_id@
                            == m.key_id@
                        &&& reads.winner matches Some(Ok(winner)) && winner.pem is Some && (
                        winner.state matches Some(s) && s@ == "established"@)
                    },
                }
            }
            &&& r matches Step::Ask(BootstrapQuestion::WritePrivate(patch)) ==> {
                let pem = if args.external_secret is Some {
                    reads.external->0->Ok_0@
                } else {
                    reads.generated->0->Ok_0.0@
                };
                let ops = patch_model(patch@);
                &&& new
                &&& ops.len() == 3
                &&& ops[0] == (PatchModel {
                    op: "test"@,
                    path: "/metadata/resourceVersion"@,
                    value: PatchValueModel::Text(private.resource_version@),
                })
                &&& ops[1] == (PatchModel {
                    op: "add"@,
                    path: "/data"@,
                    value: PatchValueModel::Entries(
                        seq![(args.secret_key@, base64_of(encode_utf8(pem)))],
                    ),
                })
                &&& ops[2].op == "add"@
            }
        }),
{
}

/// A key is handed on exactly where there is one to hand on and the target holds
/// that one, or holds nothing and takes it; a target that holds another, or what
/// is left of one, is never written.
pub proof fn a_target_takes_the_key_or_has_it(
    r: DistributeStep,
    args: DistributeArgs,
    reads: DistributeReads,
)
    requires
        distribute_is(r, args, reads),
    ensures
        (r matches Step::Done(Ok(_))) <==> {
            &&& reads.source matches Some(Ok(source)) && source.pem is Some
            &&& reads.source_key matches Some(Inspected::Key(Ok(m)))
            &&& reads.target matches Some(Ok(target))
            &&& if target.pem is Some {
                reads.target_key matches Some(Inspected::Key(Ok(t))) && t.key_id@ == m.key_id@
            } else {
                &&& !target.has_any_data
                &&& !(target.state matches Some(s) && s@ == "established"@)
                &&& reads.target_written matches Some(Ok(written))
                &&& match written {
                    InitializeResult::Written => true,
                    InitializeResult::Contended(_) => {
                        &&& reads.winner matches Some(Ok(winner))
                        &&& winner.state matches Some(s) && s@ == "established"@
                        &&& winner.pem is Some
                        &&& reads.winner_key matches Some(Inspected::Key(Ok(w))) && w.key_id@
                            == m.key_id@
                    },
                }
            }
        },
        r matches Step::Done(Ok(o)) ==> {
            &&& reads.source_key matches Some(Inspected::Key(Ok(m))) && o.key_id@ == m.key_id@
            &&& o.origin == Origin::Existing <==> reads.target->0->Ok_0.pem is Some
            &&& o.origin == Origin::Adopted <==> reads.target->0->Ok_0.pem is None
                && reads.target_written->0->Ok_0 is Written
        },
{
}

/// Certificates are read one after the other: what stands between the first
/// beginning and the end that follows it, and then those of the rest of the text.
pub proof fn certificates_are_read_one_after_the_other(body: Seq<char>, rest: Seq<char>)
    requires
        first_at(body + END@, END@, 0) == Some(body.len() as int),
    ensures
        bundled(BEGIN@ + body + END@ + rest, 0) == match base64_in(unspaced(body)) {
            None => Err::<Seq<Seq<u8>>, Seq<char>>("certificate body is not valid base64"@),
            Some(der) => match bundled(rest, 0) {
                Err(why) => Err(why),
                Ok(more) => Ok(seq![der] + more),
            },
        },
{
    let (begin, end) = (BEGIN@, END@);
    let s = begin + body + end + rest;
    assert(occurs_at(s, begin, 0)) by {
        assert(s.subrange(0, begin.len() as int) =~= begin);
    }
    assert(first_at(s, begin, 0) == Some(0int));
    let tail = body + end + rest;
    assert(s =~= begin + tail);
    finding_is_moved(begin, tail, end, 0);
    what_stands_first_is_found_first(body + end, rest, end, 0);
    assert(body + end + rest == tail);
    assert(first_at(tail, end, 0) == Some(body.len() as int));
    let at = begin.len() as int;
    assert(first_at(s, end, at) == Some(at + body.len()));
    assert(s.subrange(at, at + body.len()) =~= body);
    let done = begin + body + end;
    assert(done + rest =~= s);
    reading_is_moved(done, rest, 0);
}

/// What is found in a text is found in it behind another, as far behind.
proof fn finding_is_moved(a: Seq<char>, b: Seq<char>, needle: Seq<char>, k: int)
    requires
        0 <= k,
    ensures
        first_at(a + b, needle, a.len() + k) == match first_at(b, needle, k) {
            Some(i) => Some(a.len() + i),
            None => None,
        },
    decreases b.len() + 1 - k,
{
    if k <= b.len() {
        if k + needle.len() <= b.len() {
            assert((a + b).subrange(a.len() + k, a.len() + k + needle.len()) =~= b.subrange(
                k,
                k + needle.len(),
            ));
        }
        assert(occurs_at(a + b, needle, a.len() + k) <==> occurs_at(b, needle, k));
        if !occurs_at(b, needle, k) {
            finding_is_moved(a, b, needle, k + 1);
        }
    }
}

/// What is found in a text is found in it with more behind it.
proof fn what_stands_first_is_found_first(a: Seq<char>, more: Seq<char>, needle: Seq<char>, k: int)
    requires
        0 <= k,
        first_at(a, needle, k) == Some(a.len() - needle.len()),
    ensures
        first_at(a + more, needle, k) == first_at(a, needle, k),
    decreases a.len() + 1 - k,
{
    found_is_within(a, needle, k);
    assert((a + more).subrange(k, k + needle.len()) =~= a.subrange(k, k + needle.len()));
    assert(occurs_at(a + more, needle, k) <==> occurs_at(a, needle, k));
    if !occurs_at(a, needle, k) {
        what_stands_first_is_found_first(a, more, needle, k + 1);
    }
}

/// Certificates behind a text are read as they are without it.
proof fn reading_is_moved(a: Seq<char>, b: Seq<char>, k: int)
    requires
        0 <= k,
    ensures
        bundled(a + b, a.len() + k) == bundled(b, k),
    decreases b.len() - k,
{
    finding_is_moved(a, b, BEGIN@, k);
    reveal_strlit("-----BEGIN CERTIFICATE-----");
    if let Some(start) = first_at(b, BEGIN@, k) {
        found_is_within(b, BEGIN@, k);
        let body = start + BEGIN@.len();
        finding_is_moved(a, b, END@, body);
        if let Some(end) = first_at(b, END@, body) {
            found_is_within(b, END@, body);
            assert((a + b).subrange(a.len() + body, a.len() + end) =~= b.subrange(body, end));
            reading_is_moved(a, b, end + END@.len());
        }
    }
}

} // verus!
