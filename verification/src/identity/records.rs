//! What the cluster holds of an identity, and how an identity is written into
//! it.
use vstd::prelude::*;
use vstd::utf8::{decode_utf8, encode_utf8, encode_utf8_decode_utf8, encode_utf8_valid_utf8, valid_utf8};
use crate::drill::phase8_score::text_of;
use crate::encoding::{base64_bytes, base64_in, base64_of, base64_text, utf8_text};
use crate::identity::names::pointer_part;
use crate::text::texts;

verus! {

/// The annotation that says whether an object holds an identity.
pub const IDENTITY_STATE_ANNOTATION: &'static str = "logweir.dev/identity-state";

/// What that annotation says of an object that does.
pub const ESTABLISHED: &'static str = "established";

/// The entry of the key's id in the public record.
pub const PUBLIC_KEY_ID: &'static str = "key-id";

/// The entry of the public key in the public record.
pub const PUBLIC_KEY_PEM: &'static str = "signing.pub.pem";

/// The entry of the key's algorithm in the public record.
pub const PUBLIC_ALGORITHM: &'static str = "algorithm";

/// The entry of where the key is trusted in the public record.
pub const TRUST_REFERENCE: &'static str = "trust-reference";

/// Where the key is trusted.
pub const DEFAULT_TRUST_REFERENCE: &'static str = "logweir.dev/v1alpha1/TrustRoster/default#spec.signingKeys";

/// The entries of a part of an object: each key with its text, where what it
/// stands for is one.
pub type Entries = Vec<(String, Option<String>)>;

/// What is read of an object of the cluster.
#[derive(Debug)]
pub struct KubeObject {
    pub resource_version: Option<String>,
    pub annotations: Option<Entries>,
    pub data: Option<Entries>,
}

/// What stands first under a key, where anything does.
pub open spec fn entry(v: Seq<(String, Option<String>)>, key: Seq<char>) -> Option<Option<String>>
    decreases v.len(),
{
    if v.len() == 0 {
        None
    } else {
        match entry(v.drop_last(), key) {
            Some(found) => Some(found),
            None => if v.last().0@ == key {
                Some(v.last().1)
            } else {
                None
            },
        }
    }
}

/// What was found among the first entries is found among all.
proof fn entry_stays(v: Seq<(String, Option<String>)>, n: int, key: Seq<char>)
    requires
        0 <= n <= v.len(),
        entry(v.take(n), key) is Some,
    ensures
        entry(v, key) == entry(v.take(n), key),
    decreases v.len() - n,
{
    if n < v.len() {
        assert(v.take(n + 1).drop_last() =~= v.take(n));
        entry_stays(v, n + 1, key);
    } else {
        assert(v.take(n) =~= v);
    }
}

/// What stands under a key of a part that may be absent.
pub open spec fn entry_in(part: Option<Entries>, key: Seq<char>) -> Option<Option<String>> {
    match part {
        Some(v) => entry(v@, key),
        None => None,
    }
}

/// The text under a key of a part that may be absent.
pub open spec fn text_under(part: Option<Entries>, key: Seq<char>) -> Option<String> {
    match entry_in(part, key) {
        Some(t) => t,
        None => None,
    }
}

/// Finds what stands first under a key.
fn find_entry<'a>(part: &'a Option<Entries>, key: &str) -> (r: Option<&'a Option<String>>)
    ensures
        match r {
            Some(t) => entry_in(*part, key@) == Some(*t),
            None => entry_in(*part, key@) is None,
        },
{
    let v = match part {
        None => {
            return None;
        },
        Some(v) => v,
    };
    let wanted = key.to_owned();
    let mut i: usize = 0;
    proof {
        assert(v@.take(0) =~= Seq::empty());
    }
    while i < v.len()
        invariant
            0 <= i <= v.len(),
            *part == Some(*v),
            wanted@ == key@,
            entry(v@.take(i as int), key@) is None,
        decreases v.len() - i,
    {
        proof {
            assert(v@.take(i + 1).drop_last() =~= v@.take(i as int));
            assert(v@.take(i + 1).last() == v@[i as int]);
        }
        if v[i].0 == wanted {
            proof {
                entry_stays(v@, i + 1, key@);
            }
            return Some(&v[i].1);
        }
        i += 1;
    }
    proof {
        assert(v@.take(v.len() as int) =~= v@);
    }
    None
}

/// Finds the text under a key.
fn find_text(part: &Option<Entries>, key: &str) -> (r: Option<String>)
    ensures
        r == text_under(*part, key@),
{
    match find_entry(part, key) {
        Some(Some(t)) => Some(t.clone()),
        _ => None,
    }
}

/// A part that holds an entry.
pub open spec fn holds_entries(part: Option<Entries>) -> bool {
    part matches Some(v) && v@.len() > 0
}

/// Whether a part holds an entry.
fn has_entries(part: &Option<Entries>) -> (r: bool)
    ensures
        r == holds_entries(*part),
{
    match part {
        Some(v) => v.len() > 0,
        None => false,
    }
}

/// The failure of an object without a version.
pub open spec fn no_version_text(kind: Seq<char>, name: Seq<char>) -> Seq<char> {
    "Kubernetes "@ + kind + " "@ + name + " has no metadata.resourceVersion"@
}

/// The version of an object.
fn resource_version(object: &KubeObject, kind: &str, name: &str) -> (r: Result<String, String>)
    ensures
        match object.resource_version {
            Some(v) => r matches Ok(s) && s@ == v@,
            None => r matches Err(e) && e@ == no_version_text(kind@, name@),
        },
{
    match &object.resource_version {
        Some(v) => Ok(v.clone()),
        None => {
            let mut m = "Kubernetes ".to_owned();
            m.append(kind);
            m.append(" ");
            m.append(name);
            m.append(" has no metadata.resourceVersion");
            Err(m)
        },
    }
}

// ---- a key in a Secret -----------------------------------------------------------------

/// What a Secret's entry holds: text, written in base64.
pub open spec fn secret_text(value: Option<String>, label: Seq<char>) -> Result<Seq<char>, Seq<char>> {
    match value {
        None => Err(label + " is not a base64 string"@),
        Some(t) => match base64_in(t@) {
            None => Err(label + " is not valid base64"@),
            Some(bytes) => if valid_utf8(bytes) {
                Ok(decode_utf8(bytes))
            } else {
                Err(label + " is not UTF-8 PEM text"@)
            },
        },
    }
}

/// A text behind a label.
fn labelled(label: &str, rest: &str) -> (r: String)
    ensures
        r@ == label@ + rest@,
{
    let mut s = label.to_owned();
    s.append(rest);
    s
}

/// What a Secret's entry holds.
fn decode_base64_string(value: &Option<String>, label: &str) -> (r: Result<String, String>)
    ensures
        match secret_text(*value, label@) {
            Ok(t) => r matches Ok(s) && s@ == t,
            Err(why) => r matches Err(e) && e@ == why,
        },
{
    let encoded = match value {
        None => {
            return Err(labelled(label, " is not a base64 string"));
        },
        Some(t) => t,
    };
    match base64_bytes(encoded.as_str()) {
        None => Err(labelled(label, " is not valid base64")),
        Some(bytes) => match utf8_text(&bytes) {
            Ok(s) => Ok(s),
            Err(_) => Err(labelled(label, " is not UTF-8 PEM text")),
        },
    }
}

/// What a Secret holds of an identity.
#[derive(Debug, Clone)]
pub struct PrivateRecord {
    pub resource_version: String,
    pub state: Option<String>,
    pub pem: Option<String>,
    pub has_any_data: bool,
    pub has_annotations: bool,
}

/// The label of a Secret's entry in an error.
pub open spec fn secret_label(name: Seq<char>, key: Seq<char>) -> Seq<char> {
    "Secret "@ + name + "/"@ + key
}

/// What a Secret holds of an identity, under that key.
pub open spec fn private_is(
    r: Result<PrivateRecord, String>,
    object: KubeObject,
    name: Seq<char>,
    key: Seq<char>,
) -> bool {
    let found = entry_in(object.data, key);
    match object.resource_version {
        None => r matches Err(e) && e@ == no_version_text("Secret"@, name),
        Some(version) => {
            let recorded = |pem: Option<Seq<char>>|
                {
                    &&& r matches Ok(p)
                    &&& p.resource_version@ == version@
                    &&& p.state == text_under(object.annotations, IDENTITY_STATE_ANNOTATION@)
                    &&& text_of(p.pem) == pem
                    &&& p.has_any_data == holds_entries(object.data)
                    &&& p.has_annotations == object.annotations is Some
                };
            match found {
                None => recorded(None),
                Some(value) => match secret_text(value, secret_label(name, key)) {
                    Ok(t) => recorded(Some(t)),
                    Err(why) => r matches Err(e) && e@ == why,
                },
            }
        },
    }
}

/// Reads what a Secret holds of an identity, under that key.
pub fn private_record(object: &KubeObject, name: &str, key: &str) -> (r: Result<
    PrivateRecord,
    String,
>)
    ensures
        private_is(r, *object, name@, key@),
{
    let version = match resource_version(object, "Secret", name) {
        Err(e) => {
            return Err(e);
        },
        Ok(v) => v,
    };
    let mut pem: Option<String> = None;
    if let Some(value) = find_entry(&object.data, key) {
        let mut label = "Secret ".to_owned();
        label.append(name);
        label.append("/");
        label.append(key);
        match decode_base64_string(value, label.as_str()) {
            Err(e) => {
                return Err(e);
            },
            Ok(s) => {
                pem = Some(s);
            },
        }
    }
    Ok(
        PrivateRecord {
            resource_version: version,
            state: find_text(&object.annotations, IDENTITY_STATE_ANNOTATION),
            pem,
            has_any_data: has_entries(&object.data),
            has_annotations: object.annotations.is_some(),
        },
    )
}

/// What a Secret holds under that key.
pub fn decode_secret_key(object: &KubeObject, key: &str) -> (r: Result<String, String>)
    ensures
        match entry_in(object.data, key@) {
            None => r matches Err(e) && e@ == "required data key is absent"@,
            Some(value) => match secret_text(value, "Secret data"@) {
                Ok(t) => r matches Ok(s) && s@ == t,
                Err(why) => r matches Err(e) && e@ == why,
            },
        },
{
    match find_entry(&object.data, key) {
        None => Err("required data key is absent".to_owned()),
        Some(value) => decode_base64_string(value, "Secret data"),
    }
}

// ---- the public record -------------------------------------------------------------------

/// What a ConfigMap holds of an identity.
#[derive(Debug, Clone)]
pub struct PublicRecord {
    pub resource_version: String,
    pub state: Option<String>,
    pub key_id: Option<String>,
    pub spki_pem: Option<String>,
    pub algorithm: Option<String>,
    pub trust_reference: Option<String>,
    pub data_keys: Vec<String>,
    pub has_any_data: bool,
    pub has_annotations: bool,
}

/// The public half of an identity.
#[derive(Debug, PartialEq, Eq)]
pub struct PublicMaterial {
    pub key_id: String,
    pub spki_pem: String,
    pub algorithm: String,
}

impl Clone for PublicMaterial {
    fn clone(&self) -> (r: Self)
        ensures
            r == *self,
    {
        PublicMaterial {
            key_id: self.key_id.clone(),
            spki_pem: self.spki_pem.clone(),
            algorithm: self.algorithm.clone(),
        }
    }
}

/// The text says that.
pub open spec fn says(s: Option<String>, t: Seq<char>) -> bool {
    text_of(s) == Some(t)
}

/// Whether the text says that.
pub fn text_says(s: &Option<String>, t: &str) -> (r: bool)
    ensures
        r == says(*s, t@),
{
    match s {
        Some(v) => *v == t.to_owned(),
        None => false,
    }
}

impl PublicRecord {
    /// The record holds anything of an identity.
    pub open spec fn carries(self) -> bool {
        ||| says(self.state, "established"@)
        ||| self.key_id is Some
        ||| self.spki_pem is Some
        ||| self.algorithm is Some
        ||| self.trust_reference is Some
    }

    /// Whether the record holds anything of an identity.
    pub fn carries_identity(&self) -> (r: bool)
        ensures
            r == self.carries(),
    {
        text_says(&self.state, ESTABLISHED) || self.key_id.is_some() || self.spki_pem.is_some()
            || self.algorithm.is_some() || self.trust_reference.is_some()
    }
}

/// The keys of a part of an object, in order.
pub open spec fn keys_in(part: Option<Entries>) -> Seq<Seq<char>> {
    match part {
        Some(v) => Seq::new(v@.len(), |i: int| v@[i].0@),
        None => Seq::empty(),
    }
}

/// The keys of a part of an object.
fn list_keys(part: &Option<Entries>) -> (r: Vec<String>)
    ensures
        texts(r@) == keys_in(*part),
{
    let mut out: Vec<String> = Vec::new();
    if let Some(v) = part {
        let mut i: usize = 0;
        while i < v.len()
            invariant
                0 <= i <= v.len(),
                out.len() == i,
                forall|j: int| 0 <= j < i ==> (#[trigger] out@[j])@ == v@[j].0@,
            decreases v.len() - i,
        {
            out.push(v[i].0.clone());
            i += 1;
        }
    }
    proof {
        assert(texts(out@) =~= keys_in(*part));
    }
    out
}

/// What a ConfigMap holds of an identity.
pub open spec fn public_is(r: Result<PublicRecord, String>, object: KubeObject, name: Seq<char>) -> bool {
    match object.resource_version {
        None => r matches Err(e) && e@ == no_version_text("ConfigMap"@, name),
        Some(version) => {
            &&& r matches Ok(p)
            &&& p.resource_version@ == version@
            &&& p.state == text_under(object.annotations, IDENTITY_STATE_ANNOTATION@)
            &&& p.key_id == text_under(object.data, PUBLIC_KEY_ID@)
            &&& p.spki_pem == text_under(object.data, PUBLIC_KEY_PEM@)
            &&& p.algorithm == text_under(object.data, PUBLIC_ALGORITHM@)
            &&& p.trust_reference == text_under(object.data, TRUST_REFERENCE@)
            &&& texts(p.data_keys@) == keys_in(object.data)
            &&& p.has_any_data == holds_entries(object.data)
            &&& p.has_annotations == object.annotations is Some
        },
    }
}

/// Reads what a ConfigMap holds of an identity.
pub fn public_record(object: &KubeObject, name: &str) -> (r: Result<PublicRecord, String>)
    ensures
        public_is(r, *object, name@),
{
    let version = match resource_version(object, "ConfigMap", name) {
        Err(e) => {
            return Err(e);
        },
        Ok(v) => v,
    };
    Ok(
        PublicRecord {
            resource_version: version,
            state: find_text(&object.annotations, IDENTITY_STATE_ANNOTATION),
            key_id: find_text(&object.data, PUBLIC_KEY_ID),
            spki_pem: find_text(&object.data, PUBLIC_KEY_PEM),
            algorithm: find_text(&object.data, PUBLIC_ALGORITHM),
            trust_reference: find_text(&object.data, TRUST_REFERENCE),
            data_keys: list_keys(&object.data),
            has_any_data: has_entries(&object.data),
            has_annotations: object.annotations.is_some(),
        },
    )
}

/// One of the four entries of a public record.
pub open spec fn is_public_entry(key: Seq<char>) -> bool {
    key == "key-id"@ || key == "signing.pub.pem"@ || key == "algorithm"@ || key
        == "trust-reference"@
}

/// The entries of a public record, and no other.
pub open spec fn exactly_public_entries(keys: Seq<Seq<char>>) -> bool {
    &&& forall|i: int| 0 <= i < keys.len() ==> is_public_entry(#[trigger] keys[i])
    &&& keys.contains("key-id"@)
    &&& keys.contains("signing.pub.pem"@)
    &&& keys.contains("algorithm"@)
    &&& keys.contains("trust-reference"@)
}

/// Whether a key is among keys.
fn has_key(keys: &Vec<String>, key: &str) -> (r: bool)
    ensures
        r == texts(keys@).contains(key@),
{
    let wanted = key.to_owned();
    let mut i: usize = 0;
    while i < keys.len()
        invariant
            0 <= i <= keys.len(),
            wanted@ == key@,
            forall|j: int| 0 <= j < i ==> (#[trigger] texts(keys@)[j]) != key@,
        decreases keys.len() - i,
    {
        if keys[i] == wanted {
            proof {
                assert(texts(keys@)[i as int] == key@);
            }
            return true;
        }
        i += 1;
    }
    false
}

/// Whether the entries are those of a public record, and no other.
fn only_public_entries(keys: &Vec<String>) -> (r: bool)
    ensures
        r == exactly_public_entries(texts(keys@)),
{
    let mut i: usize = 0;
    while i < keys.len()
        invariant
            0 <= i <= keys.len(),
            forall|j: int| 0 <= j < i ==> is_public_entry(#[trigger] texts(keys@)[j]),
        decreases keys.len() - i,
    {
        let k = &keys[i];
        let known: bool = *k == "key-id".to_owned() || *k == "signing.pub.pem".to_owned() || *k
            == "algorithm".to_owned() || *k == "trust-reference".to_owned();
        if !known {
            proof {
                assert(!is_public_entry(texts(keys@)[i as int]));
            }
            return false;
        }
        i += 1;
    }
    has_key(keys, "key-id") && has_key(keys, "signing.pub.pem") && has_key(keys, "algorithm")
        && has_key(keys, "trust-reference")
}

/// A public record that publishes exactly that identity.
pub open spec fn publishes(record: PublicRecord, m: PublicMaterial) -> bool {
    &&& exactly_public_entries(texts(record.data_keys@))
    &&& says(record.state, "established"@)
    &&& says(record.key_id, m.key_id@)
    &&& says(record.spki_pem, m.spki_pem@)
    &&& says(record.algorithm, m.algorithm@)
    &&& says(record.trust_reference, DEFAULT_TRUST_REFERENCE@)
}

/// The refusal of a public record of anything else.
pub open spec fn mismatch_text(key_id: Seq<char>) -> Seq<char> {
    "public trust ConfigMap does not exactly match established identity "@ + key_id
        + "; refusing to overwrite verification material needed by existing archives"@
}

/// Requires that a public record publishes exactly that identity.
pub fn validate_public(record: &PublicRecord, material: &PublicMaterial) -> (r: Result<(), String>)
    ensures
        if publishes(*record, *material) {
            r is Ok
        } else {
            r matches Err(e) && e@ == mismatch_text(material.key_id@)
        },
{
    let matches = only_public_entries(&record.data_keys) && text_says(&record.state, ESTABLISHED)
        && text_says(&record.key_id, material.key_id.as_str()) && text_says(
        &record.spki_pem,
        material.spki_pem.as_str(),
    ) && text_says(&record.algorithm, material.algorithm.as_str()) && text_says(
        &record.trust_reference,
        DEFAULT_TRUST_REFERENCE,
    );
    if matches {
        return Ok(());
    }
    let mut m = "public trust ConfigMap does not exactly match established identity ".to_owned();
    m.append(material.key_id.as_str());
    m.append("; refusing to overwrite verification material needed by existing archives");
    Err(m)
}

// ---- writing -----------------------------------------------------------------------------

/// A value of a patch.
#[derive(Debug)]
pub enum PatchValue {
    Text(String),
    Entries(Vec<(String, String)>),
}

/// One operation of a patch.
#[derive(Debug)]
pub struct PatchOp {
    pub op: String,
    pub path: String,
    pub value: PatchValue,
}

/// What a patch does, in order.
pub ghost struct PatchModel {
    pub op: Seq<char>,
    pub path: Seq<char>,
    pub value: PatchValueModel,
}

/// A value of a patch.
pub ghost enum PatchValueModel {
    Text(Seq<char>),
    Entries(Seq<(Seq<char>, Seq<char>)>),
}

/// Entries as texts.
pub open spec fn entry_texts(v: Seq<(String, String)>) -> Seq<(Seq<char>, Seq<char>)> {
    Seq::new(v.len(), |i: int| (v[i].0@, v[i].1@))
}

impl View for PatchOp {
    type V = PatchModel;

    open spec fn view(&self) -> PatchModel {
        PatchModel {
            op: self.op@,
            path: self.path@,
            value: match self.value {
                PatchValue::Text(t) => PatchValueModel::Text(t@),
                PatchValue::Entries(v) => PatchValueModel::Entries(entry_texts(v@)),
            },
        }
    }
}

/// A patch as a whole.
pub open spec fn patch_model(v: Seq<PatchOp>) -> Seq<PatchModel> {
    Seq::new(v.len(), |i: int| v[i]@)
}

/// The patch goes through only where the object is at that version.
pub open spec fn version_test(version: Seq<char>) -> PatchModel {
    PatchModel {
        op: "test"@,
        path: "/metadata/resourceVersion"@,
        value: PatchValueModel::Text(version),
    }
}

/// The patch writes those entries.
pub open spec fn data_added(entries: Seq<(Seq<char>, Seq<char>)>) -> PatchModel {
    PatchModel { op: "add"@, path: "/data"@, value: PatchValueModel::Entries(entries) }
}

/// The patch marks the object as holding an identity.
pub open spec fn state_added(has_annotations: bool) -> PatchModel {
    if has_annotations {
        PatchModel {
            op: "add"@,
            path: "/metadata/annotations/logweir.dev~1identity-state"@,
            value: PatchValueModel::Text("established"@),
        }
    } else {
        PatchModel {
            op: "add"@,
            path: "/metadata/annotations"@,
            value: PatchValueModel::Entries(
                seq![("logweir.dev/identity-state"@, "established"@)],
            ),
        }
    }
}

/// The operation that marks an object as holding an identity.
fn annotation_patch(has_annotations: bool) -> (r: PatchOp)
    ensures
        r@ == state_added(has_annotations),
{
    if has_annotations {
        PatchOp {
            op: "add".to_owned(),
            path: "/metadata/annotations/logweir.dev~1identity-state".to_owned(),
            value: PatchValue::Text("established".to_owned()),
        }
    } else {
        let mut v: Vec<(String, String)> = Vec::new();
        v.push(("logweir.dev/identity-state".to_owned(), "established".to_owned()));
        proof {
            assert(entry_texts(v@) =~= seq![("logweir.dev/identity-state"@, "established"@)]);
        }
        PatchOp {
            op: "add".to_owned(),
            path: "/metadata/annotations".to_owned(),
            value: PatchValue::Entries(v),
        }
    }
}

/// The operation that lets a patch through only at that version.
fn version_op(version: &str) -> (r: PatchOp)
    ensures
        r@ == version_test(version@),
{
    PatchOp {
        op: "test".to_owned(),
        path: "/metadata/resourceVersion".to_owned(),
        value: PatchValue::Text(version.to_owned()),
    }
}

/// The patch that writes a key into a Secret, where the Secret is still at the
/// version that was read. What it writes reads back as the key.
pub fn private_initialization_patch(
    expected_resource_version: &str,
    has_annotations: bool,
    key: &str,
    pem: &str,
) -> (r: Vec<PatchOp>)
    ensures
        patch_model(r@) == seq![
            version_test(expected_resource_version@),
            data_added(seq![(key@, base64_of(encode_utf8(pem@)))]),
            state_added(has_annotations),
        ],
        r@[1].value matches PatchValue::Entries(v) && v@.len() == 1 && forall|label: Seq<char>|
            #[trigger] secret_text(Some(v@[0].1), label) == Ok::<Seq<char>, Seq<char>>(pem@),
{
    let encoded = base64_text(pem.as_bytes());
    proof {
        encode_utf8_valid_utf8(pem@);
        encode_utf8_decode_utf8(pem@);
    }
    let mut v: Vec<(String, String)> = Vec::new();
    v.push((key.to_owned(), encoded));
    let mut out: Vec<PatchOp> = Vec::new();
    out.push(version_op(expected_resource_version));
    proof {
        assert(entry_texts(v@) =~= seq![(key@, base64_of(encode_utf8(pem@)))]);
    }
    out.push(
        PatchOp { op: "add".to_owned(), path: "/data".to_owned(), value: PatchValue::Entries(v) },
    );
    out.push(annotation_patch(has_annotations));
    proof {
        assert(patch_model(out@) =~= seq![
            version_test(expected_resource_version@),
            data_added(seq![(key@, base64_of(encode_utf8(pem@)))]),
            state_added(has_annotations),
        ]);
    }
    out
}

/// The four entries of a public record.
pub open spec fn public_entries(m: PublicMaterial) -> Seq<(Seq<char>, Seq<char>)> {
    seq![
        ("key-id"@, m.key_id@),
        ("signing.pub.pem"@, m.spki_pem@),
        ("algorithm"@, m.algorithm@),
        ("trust-reference"@, DEFAULT_TRUST_REFERENCE@),
    ]
}

/// The patch that writes the public half of an identity into a ConfigMap, where
/// it is still at the version that was read.
pub fn public_initialization_patch(
    expected_resource_version: &str,
    has_annotations: bool,
    material: &PublicMaterial,
) -> (r: Vec<PatchOp>)
    ensures
        patch_model(r@) == seq![
            version_test(expected_resource_version@),
            data_added(public_entries(*material)),
            state_added(has_annotations),
        ],
{
    let mut v: Vec<(String, String)> = Vec::new();
    v.push(("key-id".to_owned(), material.key_id.clone()));
    v.push(("signing.pub.pem".to_owned(), material.spki_pem.clone()));
    v.push(("algorithm".to_owned(), material.algorithm.clone()));
    v.push(("trust-reference".to_owned(), DEFAULT_TRUST_REFERENCE.to_owned()));
    proof {
        assert(entry_texts(v@) =~= public_entries(*material));
    }
    let mut out: Vec<PatchOp> = Vec::new();
    out.push(version_op(expected_resource_version));
    out.push(
        PatchOp { op: "add".to_owned(), path: "/data".to_owned(), value: PatchValue::Entries(v) },
    );
    out.push(annotation_patch(has_annotations));
    proof {
        assert(patch_model(out@) =~= seq![
            version_test(expected_resource_version@),
            data_added(public_entries(*material)),
            state_added(has_annotations),
        ]);
    }
    out
}

/// The data of an object are the four entries of that public record.
pub open spec fn holds_public(v: Seq<(String, Option<String>)>, m: PublicMaterial) -> bool {
    &&& v.len() == 4
    &&& forall|i: int|
        0 <= i < 4 ==> (#[trigger] v[i]).0@ == public_entries(m)[i].0 && says(
            v[i].1,
            public_entries(m)[i].1,
        )
}

/// The names of the four entries differ.
proof fn entry_names_differ()
    ensures
        "key-id"@ != "signing.pub.pem"@,
        "key-id"@ != "algorithm"@,
        "key-id"@ != "trust-reference"@,
        "signing.pub.pem"@ != "algorithm"@,
        "signing.pub.pem"@ != "trust-reference"@,
        "algorithm"@ != "trust-reference"@,
{
    reveal_strlit("key-id");
    reveal_strlit("signing.pub.pem");
    reveal_strlit("algorithm");
    reveal_strlit("trust-reference");
    assert("key-id"@[0] == 'k');
    assert("signing.pub.pem"@[0] == 's');
    assert("algorithm"@[0] == 'a');
    assert("trust-reference"@[0] == 't');
}

/// A public record that was written is recognised as publishing the identity
/// that it was written for.
pub proof fn what_was_published_is_recognised(
    r: Result<PublicRecord, String>,
    object: KubeObject,
    name: Seq<char>,
    m: PublicMaterial,
)
    requires
        public_is(r, object, name),
        object.resource_version is Some,
        object.data matches Some(v) && holds_public(v@, m),
        says(text_under(object.annotations, IDENTITY_STATE_ANNOTATION@), "established"@),
    ensures
        r matches Ok(p) && publishes(p, m),
{
    entry_names_differ();
    let v = object.data->0@;
    let p = r->Ok_0;
    reveal_with_fuel(entry, 5);
    assert(v.drop_last().last() == v[2]);
    assert(v.drop_last().drop_last().last() == v[1]);
    assert(v.drop_last().drop_last().drop_last().last() == v[0]);
    assert(v.last() == v[3]);
    let keys = texts(p.data_keys@);
    assert(keys[0] == "key-id"@);
    assert(keys[1] == "signing.pub.pem"@);
    assert(keys[2] == "algorithm"@);
    assert(keys[3] == "trust-reference"@);
    assert forall|i: int| 0 <= i < keys.len() implies is_public_entry(#[trigger] keys[i]) by {
        assert(v[i].0@ == public_entries(m)[i].0);
    }
}

/// The mark that a patch adds to an object with annotations stands where the
/// mark is read.
pub proof fn the_mark_is_written_where_it_is_read()
    ensures
        state_added(true).path == "/metadata/annotations/"@ + pointer_part(
            IDENTITY_STATE_ANNOTATION@,
        ),
{
    reveal_strlit("/metadata/annotations/logweir.dev~1identity-state");
    reveal_strlit("/metadata/annotations/");
    reveal_strlit("logweir.dev/identity-state");
    reveal_strlit("logweir.dev~1identity-state");
    reveal_strlit("~1");
    reveal_strlit("~0");
    let s = IDENTITY_STATE_ANNOTATION@;
    plain_pointer_part(s, 11);
    assert(s.take(12).drop_last() =~= s.take(11));
    plain_rest(s, 12, 26);
    assert(s.take(26) =~= s);
    assert(pointer_part(s) =~= "logweir.dev~1identity-state"@);
    assert(state_added(true).path =~= "/metadata/annotations/"@ + pointer_part(s));
}

/// Characters that need no escape stand for themselves.
proof fn plain_pointer_part(s: Seq<char>, n: int)
    requires
        0 <= n <= s.len(),
        forall|i: int| 0 <= i < n ==> s[i] != '~' && s[i] != '/',
    ensures
        pointer_part(s.take(n)) == s.take(n),
    decreases n,
{
    if n > 0 {
        plain_pointer_part(s, n - 1);
        assert(s.take(n).drop_last() =~= s.take(n - 1));
        assert(s.take(n - 1).push(s[n - 1]) =~= s.take(n));
    } else {
        assert(s.take(0) =~= Seq::empty());
    }
}

/// Characters that need no escape stand for themselves behind what comes
/// before them.
proof fn plain_rest(s: Seq<char>, from: int, n: int)
    requires
        0 <= from <= n <= s.len(),
        forall|i: int| from <= i < n ==> s[i] != '~' && s[i] != '/',
    ensures
        pointer_part(s.take(n)) == pointer_part(s.take(from)) + s.subrange(from, n),
    decreases n,
{
    if n > from {
        plain_rest(s, from, n - 1);
        assert(s.take(n).drop_last() =~= s.take(n - 1));
        assert(s.subrange(from, n) =~= s.subrange(from, n - 1).push(s[n - 1]));
        assert((pointer_part(s.take(from)) + s.subrange(from, n - 1)).push(s[n - 1])
            =~= pointer_part(s.take(from)) + s.subrange(from, n));
    } else {
        assert(s.subrange(from, n) =~= Seq::empty());
        assert(pointer_part(s.take(from)) + s.subrange(from, n) =~= pointer_part(s.take(from)));
    }
}

} // verus!
