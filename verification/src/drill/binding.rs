//! What binds a plan before anything is touched: the recovery point that it
//! names, and the standing authorization that it runs under.
//!
//! The archive that does not answer is a failure of the run. Bytes that are not
//! the bytes that were approved are a refusal of the plan.
use vstd::prelude::*;
use crate::drill::error::{refuse, DrillError, ErrorModel};
use crate::drill::spec::{DrillSpec, PointBinding};
use crate::drill::step::Step;
use crate::encoding::{quoted, quoted_text};
use crate::text::{
    blank, chars_of, decimal, is_blank, join, joined, occurs, occurs_at, strip_prefix, texts,
    u64_text, without_opening,
};

verus! {

/// What a refusal of a recovery point opens with.
pub const POINT_BINDING_MISMATCH: &'static str = "PointBindingMismatch";

/// What a refusal of a plan outside its authorization's scope opens with.
pub const REHEARSAL_SCOPE_VIOLATION: &'static str = "RehearsalScopeViolation";

// ---- the recovery point: its form ------------------------------------------------------

/// A hexadecimal digit in lower case.
pub open spec fn is_lower_hex(c: char) -> bool {
    '0' <= c <= '9' || 'a' <= c <= 'f'
}

/// A hexadecimal digit.
pub open spec fn is_hex(c: char) -> bool {
    is_lower_hex(c) || 'A' <= c <= 'F'
}

/// A recovery point's id: the opening, and 32 lower-case hexadecimal digits.
pub open spec fn is_point_id(id: Seq<char>, opening: Seq<char>) -> bool {
    match without_opening(id, opening) {
        Some(rest) => rest.len() == 32 && forall|i: int|
            0 <= i < rest.len() ==> is_lower_hex(#[trigger] rest[i]),
        None => false,
    }
}

/// A digest: `sha256:` and 64 hexadecimal digits.
pub open spec fn is_digest(s: Seq<char>) -> bool {
    match without_opening(s, "sha256:"@) {
        Some(rest) => rest.len() == 64 && forall|i: int|
            0 <= i < rest.len() ==> is_hex(#[trigger] rest[i]),
        None => false,
    }
}

/// Whether a text is of that many hexadecimal digits, in lower case where that
/// is asked for.
fn all_hex(s: &str, count: usize, lower: bool) -> (r: bool)
    ensures
        r == (s@.len() == count && forall|i: int|
            0 <= i < s@.len() ==> if lower {
                is_lower_hex(#[trigger] s@[i])
            } else {
                is_hex(s@[i])
            }),
{
    let chars = chars_of(s);
    if chars.len() != count {
        return false;
    }
    let mut i: usize = 0;
    while i < chars.len()
        invariant
            0 <= i <= chars.len(),
            chars@ == s@,
            s@.len() == count,
            forall|j: int|
                0 <= j < i ==> if lower {
                    is_lower_hex(#[trigger] s@[j])
                } else {
                    is_hex(s@[j])
                },
        decreases chars.len() - i,
    {
        let c = chars[i];
        let fine: bool = ('0' <= c && c <= '9') || ('a' <= c && c <= 'f') || (!lower && 'A' <= c
            && c <= 'F');
        if !fine {
            proof {
                assert(s@[i as int] == c);
            }
            return false;
        }
        i += 1;
    }
    true
}

/// What is wrong with a point's id.
pub open spec fn id_fault(id: Seq<char>, opening: Seq<char>) -> Seq<Seq<char>> {
    if is_point_id(id, opening) {
        Seq::empty()
    } else {
        seq![
            "`source.point.point_id` is "@ + quoted(id) + ", not `"@ + opening
                + "` plus 32 lowercase hex characters"@,
        ]
    }
}

/// What is wrong with a receipt's key.
pub open spec fn key_fault(key: Seq<char>) -> Seq<Seq<char>> {
    if blank(key) {
        seq!["`source.point.receipt_key` is empty"@]
    } else {
        Seq::empty()
    }
}

/// What is wrong with a digest.
pub open spec fn digest_fault(field: Seq<char>, value: Seq<char>) -> Seq<Seq<char>> {
    if is_digest(value) {
        Seq::empty()
    } else {
        seq![
            "`source.point."@ + field + "` is "@ + quoted(value)
                + ", not `sha256:` plus 64 hex characters"@,
        ]
    }
}

/// What is wrong with a binding, in order.
pub open spec fn point_faults(p: PointBinding, opening: Seq<char>) -> Seq<Seq<char>> {
    id_fault(p.point_id@, opening) + key_fault(p.receipt_key@) + digest_fault(
        "receipt_sha256"@,
        p.receipt_sha256@,
    ) + digest_fault("manifest_sha256"@, p.manifest_sha256@)
}

/// The refusal of a binding with those faults.
pub open spec fn malformed_text(faults: Seq<Seq<char>>) -> Seq<char> {
    "PointBindingMismatch. The plan's recovery point binding is malformed: "@ + joined(
        faults,
        "; "@,
    ) + "; no data operation was started."@
}

/// Adds what is wrong with a digest.
fn note_digest(faults: &mut Vec<String>, field: &str, value: &str)
    ensures
        texts(final(faults)@) == texts(old(faults)@) + digest_fault(field@, value@),
{
    let fine: bool = match strip_prefix(value, "sha256:") {
        Some(rest) => all_hex(rest.as_str(), 64, false),
        None => false,
    };
    if !fine {
        let mut s = "`source.point.".to_owned();
        s.append(field);
        s.append("` is ");
        s.append(quoted_text(value).as_str());
        s.append(", not `sha256:` plus 64 hex characters");
        faults.push(s);
    }
    proof {
        assert(texts(faults@) =~= texts(old(faults)@) + digest_fault(field@, value@));
    }
}

/// Refuses a binding that is malformed on its face, and names every fault.
pub fn check_point_shape(point: &PointBinding, id_opening: &str) -> (r: Result<(), DrillError>)
    ensures
        if point_faults(*point, id_opening@).len() == 0 {
            r is Ok
        } else {
            r matches Err(e) && e@ == ErrorModel::Guard(
                malformed_text(point_faults(*point, id_opening@)),
            )
        },
{
    let mut faults: Vec<String> = Vec::new();
    let fine: bool = match strip_prefix(point.point_id.as_str(), id_opening) {
        Some(rest) => all_hex(rest.as_str(), 32, true),
        None => false,
    };
    if !fine {
        let mut s = "`source.point.point_id` is ".to_owned();
        s.append(quoted_text(point.point_id.as_str()).as_str());
        s.append(", not `");
        s.append(id_opening);
        s.append("` plus 32 lowercase hex characters");
        faults.push(s);
    }
    proof {
        assert(texts(faults@) =~= id_fault(point.point_id@, id_opening@));
    }
    let ghost first = texts(faults@);
    if is_blank(point.receipt_key.as_str()) {
        faults.push("`source.point.receipt_key` is empty".to_owned());
    }
    proof {
        assert(texts(faults@) =~= first + key_fault(point.receipt_key@));
    }
    note_digest(&mut faults, "receipt_sha256", point.receipt_sha256.as_str());
    note_digest(&mut faults, "manifest_sha256", point.manifest_sha256.as_str());
    proof {
        assert(texts(faults@) == point_faults(*point, id_opening@));
        assert(texts(faults@).len() == faults@.len());
    }
    if faults.len() == 0 {
        return Ok(());
    }
    let mut m = "PointBindingMismatch. The plan's recovery point binding is malformed: ".to_owned();
    m.append(join(&faults, "; ").as_str());
    m.append("; no data operation was started.");
    Err(refuse(m))
}

// ---- the recovery point: the archive ---------------------------------------------------

/// Why the archive did not give an object.
#[derive(Debug)]
pub enum StoreFault {
    NotFound,
    Other(String),
}

/// What a receipt says of the archive.
#[derive(Debug)]
pub struct ReceiptArchive {
    pub manifest_key: String,
    pub manifest_sha256: String,
}

/// What was found out of a recovery point so far.
#[derive(Debug)]
pub struct PointReads {
    /// The digest of the receipt.
    pub receipt_sha256: Option<Result<String, StoreFault>>,
    /// The id that the receipt's bytes derive.
    pub derived_id: Option<String>,
    /// What the receipt says, or why it is none.
    pub receipt: Option<Result<ReceiptArchive, String>>,
    /// The digest of the manifest.
    pub manifest_sha256: Option<Result<String, StoreFault>>,
}

/// What is needed next to check a recovery point.
#[derive(Debug)]
pub enum PointQuestion {
    /// The digest of the object at that key.
    FetchReceipt(String),
    /// The id that the bytes just read derive.
    DeriveId,
    /// What the bytes just read say.
    ParseReceipt,
    /// The digest of the object at that key.
    FetchManifest(String),
}

/// The failure where the archive does not give the receipt.
pub open spec fn receipt_failure(id: Seq<char>, key: Seq<char>, f: StoreFault) -> ErrorModel {
    ErrorModel::Operational(
        match f {
            StoreFault::NotFound => "the plan is bound to recovery point "@ + id
                + " but its receipt "@ + key
                + " is not in the archive; no data operation was started"@,
            StoreFault::Other(why) => "the plan is bound to recovery point "@ + id
                + " and its receipt "@ + key + " could not be read: "@ + why@
                + "; no data operation was started"@,
        },
    )
}

/// The failure where the archive does not give the manifest.
pub open spec fn manifest_failure(id: Seq<char>, key: Seq<char>, f: StoreFault) -> ErrorModel {
    ErrorModel::Operational(
        match f {
            StoreFault::NotFound => "recovery point "@ + id + "'s manifest "@ + key
                + " is not in the archive; no data operation was started"@,
            StoreFault::Other(why) => "recovery point "@ + id + "'s manifest "@ + key
                + " could not be read: "@ + why@ + "; no data operation was started"@,
        },
    )
}

/// The failure where the archive does not give the receipt.
fn receipt_error(id: &str, key: &str, f: &StoreFault) -> (r: DrillError)
    ensures
        r@ == receipt_failure(id@, key@, *f),
{
    let mut m = "the plan is bound to recovery point ".to_owned();
    m.append(id);
    match f {
        StoreFault::NotFound => {
            m.append(" but its receipt ");
            m.append(key);
            m.append(" is not in the archive; no data operation was started");
        },
        StoreFault::Other(why) => {
            m.append(" and its receipt ");
            m.append(key);
            m.append(" could not be read: ");
            m.append(why.as_str());
            m.append("; no data operation was started");
        },
    }
    DrillError::Operational(m)
}

/// The failure where the archive does not give the manifest.
fn manifest_error(id: &str, key: &str, f: &StoreFault) -> (r: DrillError)
    ensures
        r@ == manifest_failure(id@, key@, *f),
{
    let mut m = "recovery point ".to_owned();
    m.append(id);
    m.append("'s manifest ");
    m.append(key);
    match f {
        StoreFault::NotFound => {
            m.append(" is not in the archive; no data operation was started");
        },
        StoreFault::Other(why) => {
            m.append(" could not be read: ");
            m.append(why.as_str());
            m.append("; no data operation was started");
        },
    }
    DrillError::Operational(m)
}

/// The refusal of a receipt of another digest.
pub open spec fn receipt_swapped(p: PointBinding, actual: Seq<char>) -> Seq<char> {
    "PointBindingMismatch. The plan is bound to recovery point "@ + p.point_id@
        + " whose receipt must hash to "@ + p.receipt_sha256@ + ", but "@ + p.receipt_key@
        + " hashes to "@ + actual
        + ". The archive does not hold the point this plan was approved for; no data operation was started."@
}

/// The refusal of a receipt that derives another id.
pub open spec fn point_relabelled(p: PointBinding, derived: Seq<char>) -> Seq<char> {
    "PointBindingMismatch. The receipt at "@ + p.receipt_key@ + " derives recovery point id "@
        + derived + ", but the plan is bound to "@ + p.point_id@
        + "; no data operation was started."@
}

/// The refusal of bytes that are no receipt.
pub open spec fn no_receipt(p: PointBinding, why: Seq<char>) -> Seq<char> {
    "PointBindingMismatch. The bytes bound as recovery point "@ + p.point_id@
        + " are not a backup receipt: "@ + why + "; no data operation was started."@
}

/// The refusal of a receipt for another manifest.
pub open spec fn manifest_contradicted(p: PointBinding, attested: Seq<char>) -> Seq<char> {
    "PointBindingMismatch. Recovery point "@ + p.point_id@ + "'s receipt attests manifest digest "@
        + attested + ", but the plan is bound to "@ + p.manifest_sha256@
        + "; no data operation was started."@
}

/// The refusal of a manifest of another digest.
pub open spec fn manifest_swapped(p: PointBinding, key: Seq<char>, actual: Seq<char>) -> Seq<char> {
    "PointBindingMismatch. Recovery point "@ + p.point_id@ + "'s manifest "@ + key + " hashes to "@
        + actual + ", not the bound "@ + p.manifest_sha256@ + "; no data operation was started."@
}

/// The check ends with that failure.
pub open spec fn point_fails(r: Step<PointQuestion, Result<Option<String>, DrillError>>, e: ErrorModel) -> bool {
    r matches Step::Done(Err(d)) && d@ == e
}

/// The next step of checking a recovery point whose binding is well formed.
pub open spec fn point_is(
    r: Step<PointQuestion, Result<Option<String>, DrillError>>,
    p: PointBinding,
    reads: PointReads,
) -> bool {
    match reads.receipt_sha256 {
        None => r matches Step::Ask(PointQuestion::FetchReceipt(k)) && k@ == p.receipt_key@,
        Some(Err(f)) => point_fails(r, receipt_failure(p.point_id@, p.receipt_key@, f)),
        Some(Ok(actual)) => if actual@ != p.receipt_sha256@ {
            point_fails(r, ErrorModel::Guard(receipt_swapped(p, actual@)))
        } else {
            match reads.derived_id {
                None => r matches Step::Ask(PointQuestion::DeriveId),
                Some(derived) => if derived@ != p.point_id@ {
                    point_fails(r, ErrorModel::Guard(point_relabelled(p, derived@)))
                } else {
                    match reads.receipt {
                        None => r matches Step::Ask(PointQuestion::ParseReceipt),
                        Some(Err(why)) => point_fails(r, ErrorModel::Guard(no_receipt(p, why@))),
                        Some(Ok(receipt)) => receipt_is(r, p, receipt, reads),
                    }
                },
            }
        },
    }
}

/// The next step of checking a recovery point whose receipt is known.
pub open spec fn receipt_is(
    r: Step<PointQuestion, Result<Option<String>, DrillError>>,
    p: PointBinding,
    receipt: ReceiptArchive,
    reads: PointReads,
) -> bool {
    if receipt.manifest_sha256@ != p.manifest_sha256@ {
        point_fails(r, ErrorModel::Guard(manifest_contradicted(p, receipt.manifest_sha256@)))
    } else {
        match reads.manifest_sha256 {
            None => r matches Step::Ask(PointQuestion::FetchManifest(k)) && k@
                == receipt.manifest_key@,
            Some(Err(f)) => point_fails(
                r,
                manifest_failure(p.point_id@, receipt.manifest_key@, f),
            ),
            Some(Ok(actual)) => if actual@ != p.manifest_sha256@ {
                point_fails(
                    r,
                    ErrorModel::Guard(manifest_swapped(p, receipt.manifest_key@, actual@)),
                )
            } else {
                r matches Step::Done(Ok(Some(id))) && id@ == p.point_id@
            },
        }
    }
}

/// The next step of checking what a plan is bound to.
pub open spec fn binding_is(
    r: Step<PointQuestion, Result<Option<String>, DrillError>>,
    plan: DrillSpec,
    id_opening: Seq<char>,
    reads: PointReads,
) -> bool {
    match plan.source.point {
        None => r matches Step::Done(Ok(None)),
        Some(p) => if point_faults(p, id_opening).len() > 0 {
            point_fails(r, ErrorModel::Guard(malformed_text(point_faults(p, id_opening))))
        } else {
            point_is(r, p, reads)
        },
    }
}

/// Checks the recovery point that a plan is bound to, where it is bound to one:
/// the receipt's digest before any of it is believed, then what it says, then
/// the manifest that it names.
pub fn verify_point_binding(plan: &DrillSpec, id_opening: &str, reads: &PointReads) -> (r: Step<
    PointQuestion,
    Result<Option<String>, DrillError>,
>)
    ensures
        binding_is(r, *plan, id_opening@, *reads),
{
    let p = match &plan.source.point {
        None => {
            return Step::Done(Ok(None));
        },
        Some(p) => p,
    };
    match check_point_shape(p, id_opening) {
        Err(e) => {
            return Step::Done(Err(e));
        },
        Ok(_) => {},
    }
    match &reads.receipt_sha256 {
        None => {
            return Step::Ask(PointQuestion::FetchReceipt(p.receipt_key.clone()));
        },
        Some(Err(f)) => {
            return Step::Done(Err(receipt_error(p.point_id.as_str(), p.receipt_key.as_str(), f)));
        },
        Some(Ok(actual)) => {
            if *actual != p.receipt_sha256 {
                let mut m = "PointBindingMismatch. The plan is bound to recovery point ".to_owned();
                m.append(p.point_id.as_str());
                m.append(" whose receipt must hash to ");
                m.append(p.receipt_sha256.as_str());
                m.append(", but ");
                m.append(p.receipt_key.as_str());
                m.append(" hashes to ");
                m.append(actual.as_str());
                m.append(
                    ". The archive does not hold the point this plan was approved for; no data operation was started.",
                );
                return Step::Done(Err(refuse(m)));
            }
        },
    }
    match &reads.derived_id {
        None => {
            return Step::Ask(PointQuestion::DeriveId);
        },
        Some(derived) => {
            if *derived != p.point_id {
                let mut m = "PointBindingMismatch. The receipt at ".to_owned();
                m.append(p.receipt_key.as_str());
                m.append(" derives recovery point id ");
                m.append(derived.as_str());
                m.append(", but the plan is bound to ");
                m.append(p.point_id.as_str());
                m.append("; no data operation was started.");
                return Step::Done(Err(refuse(m)));
            }
        },
    }
    let receipt = match &reads.receipt {
        None => {
            return Step::Ask(PointQuestion::ParseReceipt);
        },
        Some(Err(why)) => {
            let mut m = "PointBindingMismatch. The bytes bound as recovery point ".to_owned();
            m.append(p.point_id.as_str());
            m.append(" are not a backup receipt: ");
            m.append(why.as_str());
            m.append("; no data operation was started.");
            return Step::Done(Err(refuse(m)));
        },
        Some(Ok(receipt)) => receipt,
    };
    if receipt.manifest_sha256 != p.manifest_sha256 {
        let mut m = "PointBindingMismatch. Recovery point ".to_owned();
        m.append(p.point_id.as_str());
        m.append("'s receipt attests manifest digest ");
        m.append(receipt.manifest_sha256.as_str());
        m.append(", but the plan is bound to ");
        m.append(p.manifest_sha256.as_str());
        m.append("; no data operation was started.");
        return Step::Done(Err(refuse(m)));
    }
    match &reads.manifest_sha256 {
        None => Step::Ask(PointQuestion::FetchManifest(receipt.manifest_key.clone())),
        Some(Err(f)) => Step::Done(
            Err(manifest_error(p.point_id.as_str(), receipt.manifest_key.as_str(), f)),
        ),
        Some(Ok(actual)) => {
            if *actual != p.manifest_sha256 {
                let mut m = "PointBindingMismatch. Recovery point ".to_owned();
                m.append(p.point_id.as_str());
                m.append("'s manifest ");
                m.append(receipt.manifest_key.as_str());
                m.append(" hashes to ");
                m.append(actual.as_str());
                m.append(", not the bound ");
                m.append(p.manifest_sha256.as_str());
                m.append("; no data operation was started.");
                return Step::Done(Err(refuse(m)));
            }
            Step::Done(Ok(Some(p.point_id.clone())))
        },
    }
}

/// A point is proven only where the receipt, what it says, and the manifest in
/// the archive all are what the plan names.
pub proof fn a_proven_point_is_the_approved_one(
    r: Step<PointQuestion, Result<Option<String>, DrillError>>,
    plan: DrillSpec,
    id_opening: Seq<char>,
    reads: PointReads,
)
    requires
        binding_is(r, plan, id_opening, reads),
        r matches Step::Done(Ok(Some(_))),
    ensures
        plan.source.point matches Some(p) && {
            &&& reads.receipt_sha256 matches Some(Ok(digest))
            &&& digest@ == p.receipt_sha256@
            &&& reads.derived_id matches Some(id)
            &&& id@ == p.point_id@
            &&& reads.receipt matches Some(Ok(receipt))
            &&& receipt.manifest_sha256@ == p.manifest_sha256@
            &&& reads.manifest_sha256 matches Some(Ok(manifest))
            &&& manifest@ == p.manifest_sha256@
        },
{
}

/// The archive that does not answer never refuses the plan.
pub proof fn an_outage_is_no_refusal(
    r: Step<PointQuestion, Result<Option<String>, DrillError>>,
    plan: DrillSpec,
    id_opening: Seq<char>,
    reads: PointReads,
)
    requires
        binding_is(r, plan, id_opening, reads),
        plan.source.point matches Some(p) && point_faults(p, id_opening).len() == 0,
        reads.receipt_sha256 matches Some(Err(_)),
    ensures
        r matches Step::Done(Err(e)) && e@ is Operational,
{
}

/// Nothing of a receipt is read before its digest matched, and no archive is
/// asked for a point that is malformed.
pub proof fn the_digest_comes_before_the_receipt(
    r: Step<PointQuestion, Result<Option<String>, DrillError>>,
    plan: DrillSpec,
    id_opening: Seq<char>,
    reads: PointReads,
)
    requires
        binding_is(r, plan, id_opening, reads),
        r is Ask,
    ensures
        plan.source.point matches Some(p) && {
            &&& point_faults(p, id_opening).len() == 0
            &&& r->Ask_0 is FetchReceipt || {
                &&& reads.receipt_sha256 matches Some(Ok(digest))
                &&& digest@ == p.receipt_sha256@
            }
        },
{
}

// ---- the standing authorization ----------------------------------------------------------

/// A key that the bundle pins.
#[derive(Debug)]
pub struct AuthorizationKey {
    pub key_id: String,
    /// The names of what the key may be used for.
    pub usages: Vec<String>,
    /// Whether one of those is to authorise a rehearsal.
    pub may_authorize: bool,
}

/// What trying a key on the signature came to.
#[derive(Debug)]
pub enum KeyTrial {
    /// The key made the signature.
    Signed,
    /// The key did not make the signature.
    NotSigner,
    /// The key cannot be used, and why.
    Unusable(String),
    /// The signature's data is broken.
    Malformed(String),
}

/// What a standing authorization is for.
#[derive(Debug)]
pub struct StandingAuthorization {
    pub schedule_name: String,
    pub schedule_uid: String,
}

impl Clone for StandingAuthorization {
    fn clone(&self) -> (r: Self)
        ensures
            r == *self,
    {
        StandingAuthorization {
            schedule_name: self.schedule_name.clone(),
            schedule_uid: self.schedule_uid.clone(),
        }
    }
}

/// A standing authorization that holds, and the key that made its signature.
#[derive(Debug)]
pub struct VerifiedStandingAuthorization {
    pub key_id: String,
    pub document: StandingAuthorization,
}

/// The names that the authorization's rules fix.
#[derive(Debug)]
pub struct AuthorizationNames {
    /// What a refusal of an authorization opens with.
    pub invalid: String,
    /// The fault of a key that may not be used for this.
    pub usage_mismatch: String,
    /// The usage that authorises a rehearsal.
    pub governed_approval: String,
}

/// What was found out of a standing authorization so far.
#[derive(Debug)]
pub struct StandingReads {
    /// The keys that the bundle pins, or why they do not parse.
    pub keyring: Option<Result<Vec<AuthorizationKey>, String>>,
    /// Whether the signature's file parses, or why not.
    pub sidecar: Option<Result<(), String>>,
    /// What trying the keys came to, in order.
    pub trials: Vec<KeyTrial>,
    /// The authorization, or why the signed bytes are none.
    pub document: Option<Result<StandingAuthorization, String>>,
    /// Whether the authorization is for this schedule and in force, or why not.
    pub admitted: Option<Result<(), String>>,
    /// Whether the plan is within the authorization's scope, or why not.
    pub scope: Option<Result<(), String>>,
}

/// What is needed next to check a standing authorization.
#[derive(Debug)]
pub enum StandingQuestion {
    ParseKeyring,
    ParseSidecar,
    /// Try the key at that place of the keyring on the signature.
    TryKey(usize),
    ParseDocument,
    CheckAdmission,
    CheckScope,
}

/// What trying keys in order came to.
pub ghost enum Scan {
    /// None made the signature; those that cannot be used are named.
    NoneYet(Seq<Seq<char>>),
    /// The key at that place made it.
    Found(int),
    /// The signature's data is broken.
    Broken(Seq<char>),
}

/// A key that cannot be used, and why.
pub open spec fn unusable_note(key_id: Seq<char>, why: Seq<char>) -> Seq<char> {
    key_id + " ("@ + why + ")"@
}

/// What trying keys in order came to: the first that made the signature ends
/// it, and so does broken data.
pub open spec fn scan(keys: Seq<AuthorizationKey>, trials: Seq<KeyTrial>) -> Scan
    decreases trials.len(),
{
    if trials.len() == 0 {
        Scan::NoneYet(Seq::empty())
    } else {
        match scan(keys, trials.drop_last()) {
            Scan::NoneYet(unusable) => match trials.last() {
                KeyTrial::Signed => Scan::Found(trials.len() - 1),
                KeyTrial::NotSigner => Scan::NoneYet(unusable),
                KeyTrial::Unusable(why) => Scan::NoneYet(
                    unusable.push(unusable_note(keys[trials.len() - 1].key_id@, why@)),
                ),
                KeyTrial::Malformed(why) => Scan::Broken(why@),
            },
            ended => ended,
        }
    }
}

/// What trying keys ended with stays, whatever is tried after.
proof fn scan_stays(keys: Seq<AuthorizationKey>, trials: Seq<KeyTrial>, n: int)
    requires
        0 <= n <= trials.len(),
        !(scan(keys, trials.take(n)) is NoneYet),
    ensures
        scan(keys, trials) == scan(keys, trials.take(n)),
    decreases trials.len() - n,
{
    if n < trials.len() {
        assert(trials.take(n + 1).drop_last() =~= trials.take(n));
        scan_stays(keys, trials, n + 1);
    } else {
        assert(trials.take(n) =~= trials);
    }
}

/// The key that made the signature is one of those that were tried, and every
/// key before it was tried and did not.
proof fn found_in_range(keys: Seq<AuthorizationKey>, trials: Seq<KeyTrial>)
    ensures
        scan(keys, trials) matches Scan::Found(i) ==> 0 <= i < trials.len() && trials[i] is Signed
            && forall|j: int| 0 <= j < i ==> !((#[trigger] trials[j]) is Signed),
        scan(keys, trials) is NoneYet ==> forall|j: int|
            0 <= j < trials.len() ==> !((#[trigger] trials[j]) is Signed),
    decreases trials.len(),
{
    if trials.len() > 0 {
        let rest = trials.drop_last();
        found_in_range(keys, rest);
        assert forall|j: int| 0 <= j < rest.len() implies rest[j] == trials[j] by {}
        assert(trials.last() == trials[trials.len() - 1]);
        if let Scan::Found(i) = scan(keys, trials) {
            assert forall|j: int| 0 <= j < i implies !((#[trigger] trials[j]) is Signed) by {
                assert(rest[j] == trials[j]);
            }
            if i < rest.len() {
                assert(rest[i] == trials[i]);
            }
        }
        if scan(keys, trials) is NoneYet {
            assert forall|j: int| 0 <= j < trials.len() implies !((
            #[trigger] trials[j]) is Signed) by {
                if j < rest.len() {
                    assert(rest[j] == trials[j]);
                }
            }
        }
    }
}

/// The refusal of a bundle that pins no key.
pub open spec fn no_key_text(n: AuthorizationNames) -> Seq<char> {
    n.invalid@
        + ". The bundle presents no trusted public key, so a signature over the standing authorization could anchor in nothing; no data operation was started."@
}

/// The keys that cannot be used, where there are any.
pub open spec fn unusable_text(unusable: Seq<Seq<char>>) -> Seq<char> {
    if unusable.len() == 0 {
        Seq::empty()
    } else {
        " (unusable: "@ + joined(unusable, ", "@) + ")"@
    }
}

/// The refusal of a signature that no pinned key made.
pub open spec fn unsigned_text(n: AuthorizationNames, keys: nat, unusable: Seq<Seq<char>>) -> Seq<
    char,
> {
    n.invalid@ + ". The standing authorization's signature does not verify under any of the "@
        + decimal(keys) + " trusted public keys the bundle pins"@ + unusable_text(unusable)
        + ". The document is not the one a human signed, or it was signed by a key this installation does not trust; no data operation was started."@
}

/// The refusal of a signature by a key that may not authorise.
pub open spec fn usage_text(n: AuthorizationNames, key: AuthorizationKey) -> Seq<char> {
    n.invalid@ + ". "@ + n.usage_mismatch@
        + ": the standing authorization verifies under key "@ + key.key_id@ + ", whose usages are ["@
        + joined(texts(key.usages@), ", "@)
        + "]. A rehearsal in the current format may be authorised only by a key carrying "@
        + n.governed_approval@
        + "; ConsoleConfirmation requires PLAT-19.2's immutable policy-mode binding, and the installation's own evidence-signing identity never authorises (D3 §7.3); no data operation was started."@
}

/// The refusal of signed bytes that are no authorization.
pub open spec fn not_standing_text(n: AuthorizationNames, why: Seq<char>) -> Seq<char> {
    n.invalid@ + ". The signed bytes are not a standing rehearsal authorization: "@ + why
        + "; no data operation was started."@
}

/// The refusal of a plan outside the scope.
pub open spec fn scope_text(why: Seq<char>, key_id: Seq<char>, doc: StandingAuthorization) -> Seq<
    char,
> {
    "RehearsalScopeViolation. "@ + why + ". The standing authorization key "@ + key_id
        + " signed for RehearsalSchedule "@ + doc.schedule_name@ + " ("@ + doc.schedule_uid@
        + ") does not cover this plan; no data operation was started."@
}

/// What a check of a standing authorization came to.
pub type StandingStep = Step<StandingQuestion, Result<VerifiedStandingAuthorization, DrillError>>;

/// The check ends with that failure.
pub open spec fn standing_fails(r: StandingStep, e: ErrorModel) -> bool {
    r matches Step::Done(Err(d)) && d@ == e
}

/// The trials that count: one for each key.
pub open spec fn counted(keys: Seq<AuthorizationKey>, trials: Seq<KeyTrial>) -> Seq<KeyTrial> {
    if trials.len() <= keys.len() {
        trials
    } else {
        trials.take(keys.len() as int)
    }
}

/// The next step once the key that made the signature is known.
pub open spec fn found_key_is(
    r: StandingStep,
    n: AuthorizationNames,
    key: AuthorizationKey,
    reads: StandingReads,
) -> bool {
    if !key.may_authorize {
        standing_fails(r, ErrorModel::Guard(usage_text(n, key)))
    } else {
        match reads.document {
            None => r matches Step::Ask(StandingQuestion::ParseDocument),
            Some(Err(why)) => standing_fails(r, ErrorModel::Guard(not_standing_text(n, why@))),
            Some(Ok(doc)) => match reads.admitted {
                None => r matches Step::Ask(StandingQuestion::CheckAdmission),
                Some(Err(why)) => standing_fails(
                    r,
                    ErrorModel::Guard(why@ + "; no data operation was started."@),
                ),
                Some(Ok(_)) => match reads.scope {
                    None => r matches Step::Ask(StandingQuestion::CheckScope),
                    Some(Err(why)) => standing_fails(
                        r,
                        ErrorModel::Guard(scope_text(why@, key.key_id@, doc)),
                    ),
                    Some(Ok(_)) => r matches Step::Done(Ok(v)) && v.key_id@ == key.key_id@
                        && v.document == doc,
                },
            },
        }
    }
}

/// The next step of checking a standing authorization.
pub open spec fn standing_is(r: StandingStep, n: AuthorizationNames, reads: StandingReads) -> bool {
    match reads.keyring {
        None => r matches Step::Ask(StandingQuestion::ParseKeyring),
        Some(Err(why)) => standing_fails(
            r,
            ErrorModel::Operational(
                "the mounted authorization keyring does not parse: "@ + why@,
            ),
        ),
        Some(Ok(keys)) => if keys@.len() == 0 {
            standing_fails(r, ErrorModel::Guard(no_key_text(n)))
        } else {
            match reads.sidecar {
                None => r matches Step::Ask(StandingQuestion::ParseSidecar),
                Some(Err(why)) => standing_fails(
                    r,
                    ErrorModel::Operational(
                        "the standing authorization DSSE sidecar does not parse: "@ + why@,
                    ),
                ),
                Some(Ok(_)) => {
                    let trials = counted(keys@, reads.trials@);
                    match scan(keys@, trials) {
                        Scan::Broken(why) => standing_fails(
                            r,
                            ErrorModel::Operational(
                                "standing authorization sidecar signature data is malformed: "@
                                    + why,
                            ),
                        ),
                        Scan::NoneYet(unusable) => if trials.len() < keys@.len() {
                            r matches Step::Ask(StandingQuestion::TryKey(i)) && i == trials.len()
                        } else {
                            standing_fails(
                                r,
                                ErrorModel::Guard(unsigned_text(n, keys@.len(), unusable)),
                            )
                        },
                        Scan::Found(i) => found_key_is(r, n, keys@[i], reads),
                    }
                },
            }
        },
    }
}

/// What trying the keys came to.
enum Tried {
    NoneYet(Vec<String>),
    Found(usize),
    Broken(String),
}

/// What trying the keys came to.
fn try_keys(keys: &Vec<AuthorizationKey>, trials: &Vec<KeyTrial>) -> (r: Tried)
    ensures
        match scan(keys@, counted(keys@, trials@)) {
            Scan::NoneYet(unusable) => r matches Tried::NoneYet(v) && texts(v@) == unusable,
            Scan::Found(i) => r matches Tried::Found(j) && j == i && j < keys@.len(),
            Scan::Broken(why) => r matches Tried::Broken(s) && s@ == why,
        },
{
    let ghost all = counted(keys@, trials@);
    let n: usize = if trials.len() <= keys.len() {
        trials.len()
    } else {
        keys.len()
    };
    let mut unusable: Vec<String> = Vec::new();
    let mut i: usize = 0;
    proof {
        assert(all.take(0) =~= Seq::empty());
        assert(texts(unusable@) =~= Seq::empty());
        found_in_range(keys@, all);
    }
    while i < n
        invariant
            0 <= i <= n,
            n == all.len(),
            n <= keys@.len(),
            n <= trials@.len(),
            all == counted(keys@, trials@),
            scan(keys@, all.take(i as int)) == Scan::NoneYet(texts(unusable@)),
        decreases n - i,
    {
        let ghost before = texts(unusable@);
        proof {
            assert(all.take(i + 1).drop_last() =~= all.take(i as int));
            assert(all.take(i + 1).last() == trials@[i as int]);
        }
        match &trials[i] {
            KeyTrial::Signed => {
                proof {
                    scan_stays(keys@, all, i + 1);
                }
                return Tried::Found(i);
            },
            KeyTrial::Malformed(why) => {
                proof {
                    scan_stays(keys@, all, i + 1);
                }
                return Tried::Broken(why.clone());
            },
            KeyTrial::NotSigner => {},
            KeyTrial::Unusable(why) => {
                let mut s = keys[i].key_id.clone();
                s.append(" (");
                s.append(why.as_str());
                s.append(")");
                unusable.push(s);
                proof {
                    assert(texts(unusable@) =~= before.push(
                        unusable_note(keys@[i as int].key_id@, why@),
                    ));
                }
            },
        }
        i += 1;
    }
    proof {
        assert(all.take(n as int) =~= all);
    }
    Tried::NoneYet(unusable)
}

/// Judges an authorization whose signature a known key made.
fn judge_found(n: &AuthorizationNames, key: &AuthorizationKey, reads: &StandingReads) -> (r:
    StandingStep)
    ensures
        found_key_is(r, *n, *key, *reads),
{
    if !key.may_authorize {
        let mut m = n.invalid.clone();
        m.append(". ");
        m.append(n.usage_mismatch.as_str());
        m.append(": the standing authorization verifies under key ");
        m.append(key.key_id.as_str());
        m.append(", whose usages are [");
        m.append(join(&key.usages, ", ").as_str());
        m.append("]. A rehearsal in the current format may be authorised only by a key carrying ");
        m.append(n.governed_approval.as_str());
        m.append(
            "; ConsoleConfirmation requires PLAT-19.2's immutable policy-mode binding, and the installation's own evidence-signing identity never authorises (D3 §7.3); no data operation was started.",
        );
        return Step::Done(Err(refuse(m)));
    }
    let doc = match &reads.document {
        None => {
            return Step::Ask(StandingQuestion::ParseDocument);
        },
        Some(Err(why)) => {
            let mut m = n.invalid.clone();
            m.append(". The signed bytes are not a standing rehearsal authorization: ");
            m.append(why.as_str());
            m.append("; no data operation was started.");
            return Step::Done(Err(refuse(m)));
        },
        Some(Ok(doc)) => doc,
    };
    match &reads.admitted {
        None => {
            return Step::Ask(StandingQuestion::CheckAdmission);
        },
        Some(Err(why)) => {
            let mut m = why.clone();
            m.append("; no data operation was started.");
            return Step::Done(Err(refuse(m)));
        },
        Some(Ok(_)) => {},
    }
    match &reads.scope {
        None => Step::Ask(StandingQuestion::CheckScope),
        Some(Err(why)) => {
            let mut m = "RehearsalScopeViolation. ".to_owned();
            m.append(why.as_str());
            m.append(". The standing authorization key ");
            m.append(key.key_id.as_str());
            m.append(" signed for RehearsalSchedule ");
            m.append(doc.schedule_name.as_str());
            m.append(" (");
            m.append(doc.schedule_uid.as_str());
            m.append(") does not cover this plan; no data operation was started.");
            Step::Done(Err(refuse(m)))
        },
        Some(Ok(_)) => Step::Done(
            Ok(
                VerifiedStandingAuthorization {
                    key_id: key.key_id.clone(),
                    document: doc.clone(),
                },
            ),
        ),
    }
}

/// Checks a standing authorization: that a pinned key made its signature, that
/// this very key may authorise, that the authorization is for this schedule and
/// in force, and that the plan is within its scope.
pub fn verify_standing_authorization(n: &AuthorizationNames, reads: &StandingReads) -> (r:
    StandingStep)
    ensures
        standing_is(r, *n, *reads),
{
    let keys = match &reads.keyring {
        None => {
            return Step::Ask(StandingQuestion::ParseKeyring);
        },
        Some(Err(why)) => {
            let mut m = "the mounted authorization keyring does not parse: ".to_owned();
            m.append(why.as_str());
            return Step::Done(Err(DrillError::Operational(m)));
        },
        Some(Ok(keys)) => keys,
    };
    if keys.len() == 0 {
        let mut m = n.invalid.clone();
        m.append(
            ". The bundle presents no trusted public key, so a signature over the standing authorization could anchor in nothing; no data operation was started.",
        );
        return Step::Done(Err(refuse(m)));
    }
    match &reads.sidecar {
        None => {
            return Step::Ask(StandingQuestion::ParseSidecar);
        },
        Some(Err(why)) => {
            let mut m = "the standing authorization DSSE sidecar does not parse: ".to_owned();
            m.append(why.as_str());
            return Step::Done(Err(DrillError::Operational(m)));
        },
        Some(Ok(_)) => {},
    }
    match try_keys(keys, &reads.trials) {
        Tried::Broken(why) => {
            let mut m = "standing authorization sidecar signature data is malformed: ".to_owned();
            m.append(why.as_str());
            Step::Done(Err(DrillError::Operational(m)))
        },
        Tried::NoneYet(unusable) => {
            if reads.trials.len() < keys.len() {
                return Step::Ask(StandingQuestion::TryKey(reads.trials.len()));
            }
            let mut m = n.invalid.clone();
            m.append(
                ". The standing authorization's signature does not verify under any of the ",
            );
            m.append(u64_text(keys.len() as u64).as_str());
            m.append(" trusted public keys the bundle pins");
            proof {
                assert(texts(unusable@).len() == unusable@.len());
            }
            if unusable.len() > 0 {
                let mut u = " (unusable: ".to_owned();
                u.append(join(&unusable, ", ").as_str());
                u.append(")");
                m.append(u.as_str());
            } else {
                proof {
                    assert(m@ + unusable_text(texts(unusable@)) =~= m@);
                }
            }
            m.append(
                ". The document is not the one a human signed, or it was signed by a key this installation does not trust; no data operation was started.",
            );
            Step::Done(Err(refuse(m)))
        },
        Tried::Found(i) => judge_found(n, &keys[i], reads),
    }
}

/// An authorization holds only under a pinned key that made its signature and
/// that may authorise itself: what any other key of the ring may do counts for
/// nothing.
pub proof fn the_key_that_signed_authorises(r: StandingStep, n: AuthorizationNames, reads: StandingReads)
    requires
        standing_is(r, n, reads),
        r matches Step::Done(Ok(_)),
    ensures
        ({
            let keys = reads.keyring->0->Ok_0@;
            exists|i: int|
                0 <= i < keys.len() && i < reads.trials@.len() && (#[trigger] reads.trials@[i]) is Signed
                    && keys[i].may_authorize && keys[i].key_id@ == r->Done_0->Ok_0.key_id@
        }),
        reads.admitted matches Some(Ok(_)),
        reads.scope matches Some(Ok(_)),
{
    let keys = reads.keyring->0->Ok_0@;
    let trials = counted(keys, reads.trials@);
    found_in_range(keys, trials);
    if let Scan::Found(i) = scan(keys, trials) {
        assert(trials[i] == reads.trials@[i]);
    }
}

/// Where the signature ends the trying of keys, it is the first key that made
/// it that is found.
proof fn the_signer_is_found(keys: Seq<AuthorizationKey>, trials: Seq<KeyTrial>, i: int)
    requires
        0 <= i < trials.len(),
        trials[i] is Signed,
        forall|j: int|
            0 <= j < i ==> (#[trigger] trials[j]) is NotSigner || trials[j] is Unusable,
    ensures
        scan(keys, trials) == Scan::Found(i),
{
    none_signed_before(keys, trials, i);
    assert(trials.take(i + 1).drop_last() =~= trials.take(i));
    assert(trials.take(i + 1).last() == trials[i]);
    scan_stays(keys, trials, i + 1);
}

/// Keys that did not make the signature leave the question open.
proof fn none_signed_before(keys: Seq<AuthorizationKey>, trials: Seq<KeyTrial>, n: int)
    requires
        0 <= n <= trials.len(),
        forall|j: int|
            0 <= j < n ==> (#[trigger] trials[j]) is NotSigner || trials[j] is Unusable,
    ensures
        scan(keys, trials.take(n)) is NoneYet,
    decreases n,
{
    if n > 0 {
        none_signed_before(keys, trials, n - 1);
        assert(trials.take(n).drop_last() =~= trials.take(n - 1));
        assert(trials.take(n).last() == trials[n - 1]);
    }
}

/// The key that made the signature is the one that is judged, wherever in the
/// ring it stands: without the usage the authorization is refused for the
/// usages of that key, whatever another key may do; and with it an
/// authorization that is in force and covers the plan is accepted under that
/// key, whatever another key may not do.
pub proof fn the_signer_alone_is_judged(
    r: StandingStep,
    n: AuthorizationNames,
    reads: StandingReads,
    keys: Vec<AuthorizationKey>,
    i: int,
)
    requires
        standing_is(r, n, reads),
        reads.keyring == Some::<Result<Vec<AuthorizationKey>, String>>(Ok(keys)),
        reads.sidecar matches Some(Ok(_)),
        0 <= i < keys@.len(),
        i < reads.trials@.len(),
        reads.trials@[i] is Signed,
        forall|j: int|
            0 <= j < i ==> (#[trigger] reads.trials@[j]) is NotSigner || reads.trials@[j] is Unusable,
    ensures
        !keys@[i].may_authorize ==> standing_fails(r, ErrorModel::Guard(usage_text(n, keys@[i]))),
        keys@[i].may_authorize ==> (reads.document matches Some(Ok(doc)) ==> (
        reads.admitted matches Some(Ok(_)) ==> (reads.scope matches Some(Ok(_)) ==> (
        r matches Step::Done(Ok(v)) && v.key_id@ == keys@[i].key_id@ && v.document == doc)))),
{
    let trials = counted(keys@, reads.trials@);
    assert forall|j: int| 0 <= j < trials.len() implies #[trigger] trials[j]
        == reads.trials@[j] by {}
    the_signer_is_found(keys@, trials, i);
}

/// A refusal for the usage names the fault and the usages of the key, and is
/// never the refusal of a signature that no key made.
pub proof fn a_usage_fault_is_no_forgery(
    n: AuthorizationNames,
    key: AuthorizationKey,
    keys: nat,
    unusable: Seq<Seq<char>>,
)
    requires
        n.usage_mismatch@.len() > 0,
        n.usage_mismatch@[0] != 'T',
    ensures
        usage_text(n, key) != unsigned_text(n, keys, unusable),
        occurs(usage_text(n, key), n.usage_mismatch@),
        occurs(usage_text(n, key), joined(texts(key.usages@), ", "@)),
{
    reveal_strlit(". ");
    reveal_strlit(". The standing authorization's signature does not verify under any of the ");
    let a = usage_text(n, key);
    let b = unsigned_text(n, keys, unusable);
    let at: int = n.invalid@.len() as int + 2;
    assert(a[at] == n.usage_mismatch@[0]);
    assert(b[at] == 'T');
    assert(a.subrange(at, at + n.usage_mismatch@.len()) =~= n.usage_mismatch@);
    assert(occurs_at(a, n.usage_mismatch@, at));
    let used = joined(texts(key.usages@), ", "@);
    let from = (n.invalid@ + ". "@ + n.usage_mismatch@
        + ": the standing authorization verifies under key "@ + key.key_id@
        + ", whose usages are ["@).len() as int;
    assert(a.subrange(from, from + used.len()) =~= used);
    assert(occurs_at(a, used, from));
}

/// From an index on, a text begins nowhere within another: its first character
/// stands there before a wrong one, or not at all.
pub open spec fn begins_nowhere(s: Seq<char>, needle: Seq<char>, from: int) -> bool
    decreases s.len() - from,
{
    from >= s.len() || (!(s[from] == needle[0] && (from + 1 < s.len() ==> s[from + 1] == needle[1]))
        && begins_nowhere(s, needle, from + 1))
}

/// A text that begins nowhere within another begins at no index of it.
proof fn begins_not_at(s: Seq<char>, needle: Seq<char>, from: int, i: int)
    requires
        begins_nowhere(s, needle, from),
        from <= i < s.len(),
    ensures
        !(s[i] == needle[0] && (i + 1 < s.len() ==> s[i + 1] == needle[1])),
    decreases i - from,
{
    if from < i {
        begins_not_at(s, needle, from + 1, i);
    }
}

/// A text that occurs in neither of two others occurs in them together only
/// where it reaches into what stands between them.
proof fn does_not_straddle(a: Seq<char>, between: Seq<char>, b: Seq<char>, needle: Seq<char>)
    requires
        !occurs(a, needle),
        !occurs(b, needle),
        needle.len() >= 2,
        between.len() > 0,
        !needle.contains(between[0]),
        begins_nowhere(between, needle, 0),
    ensures
        !occurs(a + between + b, needle),
{
    let c = a + between + b;
    if occurs(c, needle) {
        let i = choose|i: int| occurs_at(c, needle, i);
        let n = needle.len() as int;
        assert forall|k: int| 0 <= k < n implies #[trigger] needle[k] == c[i + k] by {
            assert(needle[k] == c.subrange(i, i + n)[k]);
        }
        let l = a.len() as int;
        let m = l + between.len();
        if i >= m {
            assert(b.subrange(i - m, i - m + n) =~= needle);
            assert(occurs_at(b, needle, i - m));
        } else if i >= l {
            begins_not_at(between, needle, 0, i - l);
            assert(needle[0] == between[i - l]);
            if i - l + 1 < between.len() {
                assert(needle[1] == between[i - l + 1]);
            }
        } else if i + n <= l {
            assert(a.subrange(i, i + n) =~= needle);
            assert(occurs_at(a, needle, i));
        } else {
            assert(needle[l - i] == between[0]);
        }
    }
}

/// A text that occurs in none of several occurs in none of their enumerations.
proof fn does_not_straddle_commas(parts: Seq<Seq<char>>, needle: Seq<char>)
    requires
        forall|i: int| 0 <= i < parts.len() ==> !occurs(#[trigger] parts[i], needle),
        needle.len() >= 2,
        !needle.contains(','),
        needle[0] != ' ',
    ensures
        !occurs(joined(parts, ", "@), needle),
    decreases parts.len(),
{
    if parts.len() == 0 {
        assert forall|i: int| !occurs_at(Seq::<char>::empty(), needle, i) by {}
    } else if parts.len() > 1 {
        reveal_strlit(", ");
        let rest = parts.drop_last();
        assert forall|i: int| 0 <= i < rest.len() implies !occurs(#[trigger] rest[i], needle) by {
            assert(rest[i] == parts[i]);
        }
        does_not_straddle_commas(rest, needle);
        assert(", "@[0] == ',');
        assert(needle.contains(needle[0]));
        reveal_with_fuel(begins_nowhere, 3);
        does_not_straddle(joined(rest, ", "@), ", "@, parts.last(), needle);
    }
}

/// A refusal for the usage never speaks of a signature that does not verify,
/// unless the key, its usages or the names that it is put together from do.
pub proof fn a_usage_fault_speaks_of_no_forgery(n: AuthorizationNames, key: AuthorizationKey)
    requires
        !occurs(n.invalid@, "does not verify"@),
        !occurs(n.usage_mismatch@, "does not verify"@),
        !occurs(n.governed_approval@, "does not verify"@),
        !occurs(key.key_id@, "does not verify"@),
        forall|i: int|
            0 <= i < key.usages@.len() ==> !occurs(
                #[trigger] texts(key.usages@)[i],
                "does not verify"@,
            ),
    ensures
        !occurs(usage_text(n, key), "does not verify"@),
{
    let needle = "does not verify"@;
    reveal_strlit("does not verify");
    reveal_strlit(". ");
    reveal_strlit(": the standing authorization verifies under key ");
    reveal_strlit(", whose usages are [");
    reveal_strlit(
        "]. A rehearsal in the current format may be authorised only by a key carrying ",
    );
    reveal_strlit(
        "; ConsoleConfirmation requires PLAT-19.2's immutable policy-mode binding, and the installation's own evidence-signing identity never authorises (D3 §7.3); no data operation was started.",
    );
    let under = ": the standing authorization verifies under key "@;
    let usages = ", whose usages are ["@;
    let only = "]. A rehearsal in the current format may be authorised only by a key carrying "@;
    let never = "; ConsoleConfirmation requires PLAT-19.2's immutable policy-mode binding, and the installation's own evidence-signing identity never authorises (D3 §7.3); no data operation was started."@;
    reveal_with_fuel(begins_nowhere, 90);
    assert(begins_nowhere(". "@, needle, 0));
    assert(begins_nowhere(under, needle, 0));
    assert(begins_nowhere(usages, needle, 0));
    assert(begins_nowhere(only, needle, 0));
    assert(never.len() == 185);
    assert(begins_nowhere(never, needle, 160));
    assert(begins_nowhere(never, needle, 120));
    assert(begins_nowhere(never, needle, 80));
    assert(begins_nowhere(never, needle, 40));
    assert(begins_nowhere(never, needle, 0));
    let a = n.invalid@ + ". "@ + n.usage_mismatch@;
    does_not_straddle(n.invalid@, ". "@, n.usage_mismatch@, needle);
    let b = a + under + key.key_id@;
    does_not_straddle(a, under, key.key_id@, needle);
    let used = joined(texts(key.usages@), ", "@);
    does_not_straddle_commas(texts(key.usages@), needle);
    let c = b + usages + used;
    does_not_straddle(b, usages, used, needle);
    let d = c + only + n.governed_approval@;
    does_not_straddle(c, only, n.governed_approval@, needle);
    assert forall|i: int| !occurs_at(Seq::<char>::empty(), needle, i) by {}
    does_not_straddle(d, never, Seq::empty(), needle);
    assert(d + never + Seq::<char>::empty() =~= usage_text(n, key));
}

/// Nothing of an authorization is read before a pinned key that may authorise
/// is known to have made its signature.
pub proof fn a_signature_comes_before_the_authorization(
    r: StandingStep,
    n: AuthorizationNames,
    reads: StandingReads,
)
    requires
        standing_is(r, n, reads),
        r matches Step::Ask(q) && (q is ParseDocument || q is CheckAdmission || q is CheckScope),
    ensures
        ({
            let keys = reads.keyring->0->Ok_0@;
            scan(keys, counted(keys, reads.trials@)) matches Scan::Found(i) && keys[i].may_authorize
        }),
{
}

} // verus!
