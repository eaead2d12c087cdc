//! Checking that the plan that runs is the plan that was approved, and by
//! whom.
//!
//! A signature that does not verify, and an approval of another plan, are
//! refusals of the plan. A bundle that cannot be read is a failure of the run.
use vstd::prelude::*;
use vstd::utf8::{decode_utf8, valid_utf8};
use crate::clock::Timestamp;
use crate::drill::error::{refuse, DrillError, ErrorModel};
use crate::drill::scorecard::ApprovalInfo;
use crate::drill::step::Step;
use crate::encoding::{utf8_fault, utf8_text};
use crate::text::{join, joined, texts};

verus! {

/// The payload type that an approval is signed under.
pub const PAYLOAD_TYPE_APPROVAL: &'static str = "application/vnd.logweir.drill-approval+json;version=1.0.0";

/// How a signature fails.
#[derive(Debug, Clone)]
pub enum EvidenceError {
    /// The signature's data is broken.
    Malformed(String),
    /// The signature was not made by that key over those bytes.
    Verify(String),
    /// The key is unusable.
    Key(String),
}

/// What an approver wrote.
#[derive(Debug, Clone)]
pub struct ApprovalDoc {
    pub approver: String,
    pub ticket: String,
    pub plan_hash: String,
    pub approved_at: Timestamp,
}

/// An approval that holds for the plan that runs.
#[derive(Debug)]
pub struct Approved {
    pub approval: ApprovalInfo,
    /// When both the signature and the plan's hash were found to hold.
    pub validated_at: Timestamp,
}

impl Clone for Approved {
    fn clone(&self) -> (r: Self)
        ensures
            r == *self,
    {
        Approved { approval: self.approval.clone(), validated_at: self.validated_at }
    }
}

// ---- the pinned approvers ----------------------------------------------------

/// The refusal of an approver outside the pinned set.
pub open spec fn unpinned_text(key_id: Seq<char>, pinned: Seq<Seq<char>>) -> Seq<char> {
    "approver key id "@ + key_id + " is not in the pinned set {"@ + joined(pinned, ", "@)
        + "}; --approver-key-ids pins which approvers this run accepts, and an approval outside it is refused before phase 0 dials anything"@
}

/// The refusal of an approver outside the pinned set.
pub fn pinned_set_refusal(key_id: &str, pinned: &Vec<String>) -> (r: String)
    ensures
        r@ == unpinned_text(key_id@, texts(pinned@)),
{
    let mut s = "approver key id ".to_owned();
    s.append(key_id);
    s.append(" is not in the pinned set {");
    s.append(join(pinned, ", ").as_str());
    s.append(
        "}; --approver-key-ids pins which approvers this run accepts, and an approval outside it is refused before phase 0 dials anything",
    );
    s
}

/// What a key's id comes to under a pinned set.
pub open spec fn pin_is(
    r: Result<(), DrillError>,
    key_id: Result<String, String>,
    pinned: Seq<Seq<char>>,
) -> bool {
    match key_id {
        Err(why) => r matches Err(e) && e@ == ErrorModel::Operational(why@),
        Ok(id) => if pinned.contains(id@) {
            r is Ok
        } else {
            r matches Err(e) && e@ == ErrorModel::Guard(unpinned_text(id@, pinned))
        },
    }
}

/// Admits a key whose id is in the pinned set.
fn admit_key_id(key_id: &Result<String, String>, pinned: &Vec<String>) -> (r: Result<(), DrillError>)
    ensures
        pin_is(r, *key_id, texts(pinned@)),
{
    let id = match key_id {
        Err(why) => {
            return Err(DrillError::Operational(why.clone()));
        },
        Ok(id) => id,
    };
    let mut i: usize = 0;
    while i < pinned.len()
        invariant
            0 <= i <= pinned.len(),
            *key_id == Ok::<String, String>(*id),
            forall|j: int| 0 <= j < i ==> (#[trigger] texts(pinned@)[j]) != id@,
        decreases pinned.len() - i,
    {
        if *id == pinned[i] {
            proof {
                assert(texts(pinned@)[i as int] == id@);
            }
            return Ok(());
        }
        i += 1;
    }
    Err(refuse(pinned_set_refusal(id.as_str(), pinned)))
}

/// Admits an approver key by the pinned set. Where nothing is pinned, the key
/// is not looked at; otherwise its id is asked for, which comes as a text, or
/// as the reason why the key cannot be read.
pub fn admit_pinned_approver_key_id(
    pinned: &Vec<String>,
    key_id: &Option<Result<String, String>>,
) -> (r: Step<(), Result<(), DrillError>>)
    ensures
        if pinned@.len() == 0 {
            r matches Step::Done(Ok(_))
        } else {
            match key_id {
                None => r matches Step::Ask(_),
                Some(k) => r matches Step::Done(d) && pin_is(d, *k, texts(pinned@)),
            }
        },
        (r matches Step::Done(Ok(_))) <==> (pinned@.len() == 0 || (key_id matches Some(Ok(id)) && texts(
            pinned@,
        ).contains(id@))),
{
    if pinned.len() == 0 {
        return Step::Done(Ok(()));
    }
    match key_id {
        None => Step::Ask(()),
        Some(k) => Step::Done(admit_key_id(k, pinned)),
    }
}

/// The failure where the approver's key is no text.
pub open spec fn key_not_text(label: Seq<char>, bytes: Seq<u8>) -> ErrorModel {
    ErrorModel::Operational(label + " is not UTF-8: "@ + utf8_fault(bytes))
}

/// A key's text, or the failure where it is none.
fn key_pem(label: &str, bytes: &Vec<u8>) -> (r: Result<String, DrillError>)
    ensures
        match r {
            Ok(s) => valid_utf8(bytes@) && s@ == decode_utf8(bytes@),
            Err(e) => !valid_utf8(bytes@) && e@ == key_not_text(label@, bytes@),
        },
{
    match utf8_text(bytes) {
        Ok(s) => Ok(s),
        Err(why) => {
            let mut m = label.to_owned();
            m.append(" is not UTF-8: ");
            m.append(why.as_str());
            Err(DrillError::Operational(m))
        },
    }
}

/// Admits an approver key, given as bytes, by the pinned set. Where nothing is
/// pinned, the bytes are not looked at; otherwise the id of the key that they
/// spell is asked for.
pub fn admit_pinned_approver_key_bytes(
    approver_key: &Vec<u8>,
    pinned: &Vec<String>,
    key_id: &Option<Result<String, String>>,
) -> (r: Step<String, Result<(), DrillError>>)
    ensures
        if pinned@.len() == 0 {
            r matches Step::Done(Ok(_))
        } else if !valid_utf8(approver_key@) {
            r matches Step::Done(Err(e)) && e@ == key_not_text(
                "approver public key"@,
                approver_key@,
            )
        } else {
            match key_id {
                None => r matches Step::Ask(pem) && pem@ == decode_utf8(approver_key@),
                Some(k) => r matches Step::Done(d) && pin_is(d, *k, texts(pinned@)),
            }
        },
        (r matches Step::Done(Ok(_))) <==> (pinned@.len() == 0 || (valid_utf8(approver_key@)
            && (key_id matches Some(Ok(id)) && texts(pinned@).contains(id@)))),
{
    if pinned.len() == 0 {
        return Step::Done(Ok(()));
    }
    match key_pem("approver public key", approver_key) {
        Err(e) => Step::Done(Err(e)),
        Ok(pem) => match key_id {
            None => Step::Ask(pem),
            Some(k) => Step::Done(admit_key_id(k, pinned)),
        },
    }
}

// ---- an approval ---------------------------------------------------------------

/// What was found out of an approval so far.
#[derive(Debug)]
pub struct ApprovalReads {
    /// Whether the signature's file parses.
    pub sidecar_parses: Option<bool>,
    /// The id of the approver's key, or why it cannot be read.
    pub key_id: Option<Result<String, String>>,
    /// What the signature over the approval comes to under that key.
    pub signature: Option<Result<(), EvidenceError>>,
    /// The approval, or why it is none.
    pub document: Option<Result<ApprovalDoc, String>>,
    /// The digest of the plan that runs.
    pub plan_hash: Option<String>,
    /// The id of the key that the scorecard will be signed with.
    pub signing_key_id: Option<String>,
    pub now: Option<Timestamp>,
}

/// What is needed next to check an approval.
#[derive(Debug)]
pub enum ApprovalQuestion {
    ParseSidecar,
    /// The id of the key that this text spells.
    ParseKey(String),
    CheckSignature,
    ParseDocument,
    HashPlan,
    SigningKeyId,
    Now,
}

/// The refusal of an approval of another plan.
pub open spec fn other_plan_text(approved: Seq<char>, running: Seq<char>) -> Seq<char> {
    "plan_hash mismatch: the approval names "@ + approved + " but this spec hashes to "@ + running
        + ". Re-approve the exact plan you intend to run."@
}

/// What a signature that fails means.
pub open spec fn signature_failure(e: EvidenceError) -> ErrorModel {
    match e {
        EvidenceError::Malformed(m) => ErrorModel::Operational(
            "approval sidecar signature data is malformed: "@ + m@,
        ),
        EvidenceError::Verify(m) => ErrorModel::Guard(
            "approval signature does not verify: "@ + m@,
        ),
        EvidenceError::Key(m) => ErrorModel::Operational(m@),
    }
}

/// What a signature that fails means.
fn signature_error(e: &EvidenceError) -> (r: DrillError)
    ensures
        r@ == signature_failure(*e),
{
    match e {
        EvidenceError::Malformed(m) => {
            let mut s = "approval sidecar signature data is malformed: ".to_owned();
            s.append(m.as_str());
            DrillError::Operational(s)
        },
        EvidenceError::Verify(m) => {
            let mut s = "approval signature does not verify: ".to_owned();
            s.append(m.as_str());
            refuse(s)
        },
        EvidenceError::Key(m) => DrillError::Operational(m.clone()),
    }
}

/// An approval that holds: what the approver wrote, under the key that signed
/// it, and whether that is the key that the result is signed with too.
pub open spec fn approved_is(
    a: Approved,
    doc: ApprovalDoc,
    key_id: Seq<char>,
    signing_key_id: Seq<char>,
    now: Timestamp,
) -> bool {
    &&& a.validated_at == now
    &&& a.approval.approver@ == doc.approver@
    &&& a.approval.ticket@ == doc.ticket@
    &&& a.approval.plan_hash@ == doc.plan_hash@
    &&& a.approval.approved_at == doc.approved_at
    &&& a.approval.key_id@ == key_id
    &&& a.approval.self_attested == (key_id == signing_key_id)
}

/// A step that ends with that failure.
pub open spec fn ends<Q>(r: Step<Q, Result<Approved, DrillError>>, e: ErrorModel) -> bool {
    r matches Step::Done(Err(d)) && d@ == e
}

/// The next step of checking an approval.
pub open spec fn approval_is(
    r: Step<ApprovalQuestion, Result<Approved, DrillError>>,
    key_bytes: Seq<u8>,
    reads: ApprovalReads,
) -> bool {
    match reads.sidecar_parses {
        None => r matches Step::Ask(ApprovalQuestion::ParseSidecar),
        Some(false) => ends(r, ErrorModel::Operational("approval DSSE sidecar does not parse"@)),
        Some(true) => if !valid_utf8(key_bytes) {
            ends(r, key_not_text("approver public key"@, key_bytes))
        } else {
            match reads.key_id {
                None => r matches Step::Ask(ApprovalQuestion::ParseKey(pem)) && pem@ == decode_utf8(
                    key_bytes,
                ),
                Some(Err(why)) => ends(r, ErrorModel::Operational(why@)),
                Some(Ok(key_id)) => match reads.signature {
                    None => r matches Step::Ask(ApprovalQuestion::CheckSignature),
                    Some(Err(e)) => ends(r, signature_failure(e)),
                    Some(Ok(_)) => signed_approval_is(r, key_id@, reads),
                },
            }
        },
    }
}

/// The next step of checking an approval whose signature holds.
pub open spec fn signed_approval_is(
    r: Step<ApprovalQuestion, Result<Approved, DrillError>>,
    key_id: Seq<char>,
    reads: ApprovalReads,
) -> bool {
    match reads.document {
        None => r matches Step::Ask(ApprovalQuestion::ParseDocument),
        Some(Err(why)) => ends(
            r,
            ErrorModel::Operational("approval is not an ApprovalDoc: "@ + why@),
        ),
        Some(Ok(doc)) => match reads.plan_hash {
            None => r matches Step::Ask(ApprovalQuestion::HashPlan),
            Some(actual) => if actual@ != doc.plan_hash@ {
                ends(r, ErrorModel::Guard(other_plan_text(doc.plan_hash@, actual@)))
            } else {
                match reads.signing_key_id {
                    None => r matches Step::Ask(ApprovalQuestion::SigningKeyId),
                    Some(signing) => match reads.now {
                        None => r matches Step::Ask(ApprovalQuestion::Now),
                        Some(now) => r matches Step::Done(Ok(a)) && approved_is(
                            a,
                            doc,
                            key_id,
                            signing@,
                            now,
                        ),
                    },
                }
            },
        },
    }
}

/// Checks an approval, given as bytes, from what was found out so far: the
/// signature before anything in the document is believed, and the plan's hash
/// before the approval holds.
pub fn verify_bytes(approver_key_bytes: &Vec<u8>, reads: &ApprovalReads) -> (r: Step<
    ApprovalQuestion,
    Result<Approved, DrillError>,
>)
    ensures
        approval_is(r, approver_key_bytes@, *reads),
{
    match reads.sidecar_parses {
        None => {
            return Step::Ask(ApprovalQuestion::ParseSidecar);
        },
        Some(parses) => if !parses {
            return Step::Done(
                Err(DrillError::Operational("approval DSSE sidecar does not parse".to_owned())),
            );
        },
    }
    let pem = match key_pem("approver public key", approver_key_bytes) {
        Err(e) => {
            return Step::Done(Err(e));
        },
        Ok(pem) => pem,
    };
    let key_id = match &reads.key_id {
        None => {
            return Step::Ask(ApprovalQuestion::ParseKey(pem));
        },
        Some(Err(why)) => {
            return Step::Done(Err(DrillError::Operational(why.clone())));
        },
        Some(Ok(key_id)) => key_id,
    };
    match &reads.signature {
        None => {
            return Step::Ask(ApprovalQuestion::CheckSignature);
        },
        Some(Err(e)) => {
            return Step::Done(Err(signature_error(e)));
        },
        Some(Ok(_)) => {},
    }
    let doc = match &reads.document {
        None => {
            return Step::Ask(ApprovalQuestion::ParseDocument);
        },
        Some(Err(why)) => {
            let mut m = "approval is not an ApprovalDoc: ".to_owned();
            m.append(why.as_str());
            return Step::Done(Err(DrillError::Operational(m)));
        },
        Some(Ok(doc)) => doc,
    };
    match &reads.plan_hash {
        None => {
            return Step::Ask(ApprovalQuestion::HashPlan);
        },
        Some(actual) => if *actual != doc.plan_hash {
            let mut m = "plan_hash mismatch: the approval names ".to_owned();
            m.append(doc.plan_hash.as_str());
            m.append(" but this spec hashes to ");
            m.append(actual.as_str());
            m.append(". Re-approve the exact plan you intend to run.");
            return Step::Done(Err(refuse(m)));
        },
    }
    let signing = match &reads.signing_key_id {
        None => {
            return Step::Ask(ApprovalQuestion::SigningKeyId);
        },
        Some(signing) => signing,
    };
    match reads.now {
        None => Step::Ask(ApprovalQuestion::Now),
        Some(validated_at) => Step::Done(
            Ok(
                Approved {
                    validated_at,
                    approval: ApprovalInfo {
                        approver: doc.approver.clone(),
                        ticket: doc.ticket.clone(),
                        plan_hash: doc.plan_hash.clone(),
                        approved_at: doc.approved_at,
                        key_id: key_id.clone(),
                        self_attested: *key_id == *signing,
                    },
                },
            ),
        ),
    }
}

/// An approval holds only where its signature verified and it names the plan
/// that runs.
pub proof fn an_approval_is_signed_and_names_the_plan(
    r: Step<ApprovalQuestion, Result<Approved, DrillError>>,
    key_bytes: Seq<u8>,
    reads: ApprovalReads,
)
    requires
        approval_is(r, key_bytes, reads),
        r matches Step::Done(Ok(_)),
    ensures
        reads.signature matches Some(Ok(_)),
        reads.plan_hash matches Some(h) && r->Done_0->Ok_0.approval.plan_hash@ == h@,
{
}

/// Nothing in an approval is read before its signature verified.
pub proof fn the_signature_comes_before_the_document(
    r: Step<ApprovalQuestion, Result<Approved, DrillError>>,
    key_bytes: Seq<u8>,
    reads: ApprovalReads,
)
    requires
        approval_is(r, key_bytes, reads),
        r matches Step::Ask(ApprovalQuestion::ParseDocument),
    ensures
        reads.signature matches Some(Ok(_)),
{
}

/// A bundle that cannot be read is never a refusal of the plan: only a
/// signature that does not verify, and an approval of another plan, are.
pub proof fn a_broken_bundle_is_no_refusal(
    r: Step<ApprovalQuestion, Result<Approved, DrillError>>,
    key_bytes: Seq<u8>,
    reads: ApprovalReads,
)
    requires
        approval_is(r, key_bytes, reads),
        r matches Step::Done(Err(e)) && e@ is Guard,
    ensures
        reads.signature matches Some(Err(EvidenceError::Verify(_))) || {
            &&& reads.document matches Some(Ok(doc))
            &&& reads.plan_hash matches Some(h)
            &&& h@ != doc.plan_hash@
        },
{
}

/// Where an approval and what proves it are kept.
#[derive(Debug)]
pub struct ApprovalPaths {
    pub approval: String,
    pub sidecar: String,
    pub approver_key: String,
}

/// What has been read of an approval's files.
#[derive(Debug)]
pub struct ApprovalFiles {
    pub approval: Option<Result<Vec<u8>, String>>,
    pub sidecar: Option<Result<Vec<u8>, String>>,
    pub approver_key: Option<Result<Vec<u8>, String>>,
}

/// What is done next with an approval that is kept in files.
#[derive(Debug)]
pub enum ApprovalFileQuestion {
    ReadApproval,
    ReadSidecar,
    ReadApproverKey,
    /// What the check of the bytes asks.
    Bytes(ApprovalQuestion),
}

/// How the check of an approval in files stands: the files are read in order,
/// and then their bytes are checked.
pub open spec fn filed_approval_is(
    r: Step<ApprovalFileQuestion, Result<Approved, DrillError>>,
    paths: ApprovalPaths,
    files: ApprovalFiles,
    reads: ApprovalReads,
) -> bool {
    match (files.approval, files.sidecar, files.approver_key) {
        (None, _, _) => r matches Step::Ask(ApprovalFileQuestion::ReadApproval),
        (Some(Err(why)), _, _) => r matches Step::Done(Err(e)) && e@ == ErrorModel::Operational(
            paths.approval@ + ": "@ + why@,
        ),
        (_, None, _) => r matches Step::Ask(ApprovalFileQuestion::ReadSidecar),
        (_, Some(Err(_)), _) => r matches Step::Done(Err(e)) && e@ == ErrorModel::Operational(
            "no DSSE sidecar at "@ + paths.sidecar@,
        ),
        (_, _, None) => r matches Step::Ask(ApprovalFileQuestion::ReadApproverKey),
        (_, _, Some(Err(why))) => r matches Step::Done(Err(e)) && e@ == ErrorModel::Operational(
            paths.approver_key@ + ": "@ + why@,
        ),
        (_, _, Some(Ok(key))) => {
            exists|q: Step<ApprovalQuestion, Result<Approved, DrillError>>|
                {
                    &&& #[trigger] approval_is(q, key@, reads)
                    &&& match q {
                        Step::Ask(asked) => r == Step::<
                            ApprovalFileQuestion,
                            Result<Approved, DrillError>,
                        >::Ask(ApprovalFileQuestion::Bytes(asked)),
                        Step::Done(done) => r == Step::<
                            ApprovalFileQuestion,
                            Result<Approved, DrillError>,
                        >::Done(done),
                    }
                }
        },
    }
}

/// A file that could not be read.
fn unread(path: &str, why: &str) -> (e: DrillError)
    ensures
        e@ == ErrorModel::Operational(path@ + ": "@ + why@),
{
    let mut m = path.to_owned();
    m.append(": ");
    m.append(why);
    DrillError::Operational(m)
}

/// Verifies an approval that is kept in files, from what has been read and
/// found out so far.
pub fn verify(paths: &ApprovalPaths, files: &ApprovalFiles, reads: &ApprovalReads) -> (r: Step<
    ApprovalFileQuestion,
    Result<Approved, DrillError>,
>)
    ensures
        filed_approval_is(r, *paths, *files, *reads),
{
    match &files.approval {
        None => {
            return Step::Ask(ApprovalFileQuestion::ReadApproval);
        },
        Some(Err(why)) => {
            return Step::Done(Err(unread(paths.approval.as_str(), why.as_str())));
        },
        Some(Ok(_)) => {},
    }
    match &files.sidecar {
        None => {
            return Step::Ask(ApprovalFileQuestion::ReadSidecar);
        },
        Some(Err(_)) => {
            let mut m = "no DSSE sidecar at ".to_owned();
            m.append(paths.sidecar.as_str());
            return Step::Done(Err(DrillError::Operational(m)));
        },
        Some(Ok(_)) => {},
    }
    let key = match &files.approver_key {
        None => {
            return Step::Ask(ApprovalFileQuestion::ReadApproverKey);
        },
        Some(Err(why)) => {
            return Step::Done(Err(unread(paths.approver_key.as_str(), why.as_str())));
        },
        Some(Ok(key)) => key,
    };
    let step = verify_bytes(key, reads);
    assert(approval_is(step, key@, *reads));
    match step {
        Step::Ask(asked) => Step::Ask(ApprovalFileQuestion::Bytes(asked)),
        Step::Done(done) => Step::Done(done),
    }
}

// ---- an authorization ----------------------------------------------------------

/// The restore that the run's execution contract names.
#[derive(Debug)]
pub struct ContractSubject {
    pub namespace: String,
    pub name: String,
    pub uid: String,
}

impl Clone for ContractSubject {
    fn clone(&self) -> (r: Self)
        ensures
            r == *self,
    {
        ContractSubject {
            namespace: self.namespace.clone(),
            name: self.name.clone(),
            uid: self.uid.clone(),
        }
    }
}

/// Who has to sign for a run.
#[derive(Clone, Copy, Debug, PartialEq, Eq, Structural)]
pub enum ApprovalMode {
    /// The console's confirmation is the whole authorization.
    Ordinary,
    /// A separate approver signs too.
    Governed,
}

/// The policy that a run was admitted under.
#[derive(Debug, Clone)]
pub struct ApprovalPolicy {
    pub name: String,
    pub mode: ApprovalMode,
}

/// What an authorization says.
#[derive(Debug, Clone)]
pub struct RestoreAuthorization {
    /// The principal who asked for the run.
    pub requester: String,
    pub ticket: Option<String>,
    pub plan_hash: String,
    pub issued_at: Timestamp,
}

/// What was found out of an authorization so far.
#[derive(Debug)]
pub struct AuthorizationReads {
    /// Whether the signatures' file parses.
    pub sidecar_parses: Option<bool>,
    /// The policy, or why the snapshot is none.
    pub policy: Option<Result<ApprovalPolicy, String>>,
    /// The id of the console's key, or why it cannot be read.
    pub confirmation_key_id: Option<Result<String, String>>,
    /// The id of the approver's key, or why it cannot be read.
    pub approver_key_id: Option<Result<String, String>>,
    /// What the console's signature comes to.
    pub confirmation_signature: Option<Result<String, EvidenceError>>,
    /// The authorization, or why it is none.
    pub document: Option<Result<RestoreAuthorization, String>>,
    /// The digest of the plan that runs.
    pub plan_hash: Option<String>,
    /// Whether the authorization is for this restore, this plan and this
    /// policy, and within the policy's window.
    pub binding: Option<Result<(), String>>,
    /// What the approver's signature comes to.
    pub approver_signature: Option<Result<String, EvidenceError>>,
    /// The id of the key that the scorecard will be signed with.
    pub signing_key_id: Option<String>,
    pub now: Option<Timestamp>,
}

/// What is needed next to check an authorization.
#[derive(Debug)]
pub enum AuthorizationQuestion {
    ParseSidecar,
    ParsePolicy,
    /// The id of the key that this text spells.
    ParseConfirmationKey(String),
    /// The id of the key that this text spells.
    ParseApproverKey(String),
    CheckConfirmation,
    ParseDocument,
    HashPlan,
    /// Whether the authorization is for that restore and a plan of that hash.
    CheckBinding { subject: ContractSubject, plan_hash: String },
    CheckApprover,
    SigningKeyId,
    Now,
}

/// What one of an authorization's signatures means where it fails.
pub open spec fn authorization_failure(e: EvidenceError, which: Seq<char>) -> ErrorModel {
    match e {
        EvidenceError::Malformed(m) => ErrorModel::Operational(
            "authorization sidecar signature data is malformed: "@ + m@,
        ),
        EvidenceError::Verify(m) => ErrorModel::Guard(
            "the "@ + which + " signature over the authorization document does not verify: "@ + m@
                + "; no data operation was started"@,
        ),
        EvidenceError::Key(m) => ErrorModel::Operational(m@),
    }
}

/// The id of the key that one of an authorization's signatures verified under,
/// or what its failure means.
pub fn verify_under(signature: &Result<String, EvidenceError>, which: &str) -> (r: Result<
    String,
    DrillError,
>)
    ensures
        match signature {
            Ok(id) => r matches Ok(s) && s@ == id@,
            Err(e) => r matches Err(d) && d@ == authorization_failure(*e, which@),
        },
{
    match signature {
        Ok(id) => Ok(id.clone()),
        Err(EvidenceError::Malformed(m)) => {
            let mut s = "authorization sidecar signature data is malformed: ".to_owned();
            s.append(m.as_str());
            Err(DrillError::Operational(s))
        },
        Err(EvidenceError::Verify(m)) => {
            let mut s = "the ".to_owned();
            s.append(which);
            s.append(" signature over the authorization document does not verify: ");
            s.append(m.as_str());
            s.append("; no data operation was started");
            Err(refuse(s))
        },
        Err(EvidenceError::Key(m)) => Err(DrillError::Operational(m.clone())),
    }
}

/// A refusal for that reason, before anything was started.
pub open spec fn not_started(why: Seq<char>) -> ErrorModel {
    ErrorModel::Guard(why + "; no data operation was started"@)
}

/// A refusal for that reason, before anything was started.
fn refuse_unstarted(why: &str) -> (r: DrillError)
    ensures
        r@ == not_started(why@),
{
    let mut s = why.to_owned();
    s.append("; no data operation was started");
    refuse(s)
}

/// The refusal of an ordinary run that names an approver of its own.
pub open spec fn not_ordinary(policy: Seq<char>, approver: Seq<char>, confirmation: Seq<char>) -> Seq<
    char,
> {
    "policy "@ + policy
        + " is Ordinary, so the console's confirmation is the whole authorization, but the bundle names approver key "@
        + approver + " and confirmation key "@ + confirmation
}

/// The refusal of a governed run that names no approver of its own.
pub open spec fn not_governed(policy: Seq<char>, confirmation: Seq<char>) -> Seq<char> {
    "policy "@ + policy + " is Governed, and the bundle names the console key "@ + confirmation
        + " as the approver; a governed run needs a separate approver signature"@
}

/// Who the authorization is by.
pub open spec fn authoriser(
    mode: ApprovalMode,
    doc: RestoreAuthorization,
    approver: Seq<char>,
) -> Seq<char> {
    match mode {
        ApprovalMode::Ordinary => doc.requester@,
        ApprovalMode::Governed => "governed approver key "@ + approver,
    }
}

/// A text, or nothing where it is absent.
pub open spec fn or_nothing(s: Option<String>) -> Seq<char> {
    match s {
        Some(t) => t@,
        None => Seq::empty(),
    }
}

/// The next step once the keys are known.
pub open spec fn keyed_authorization_is(
    r: Step<AuthorizationQuestion, Result<Approved, DrillError>>,
    subject: ContractSubject,
    policy: ApprovalPolicy,
    confirmation: Seq<char>,
    approver: Seq<char>,
    reads: AuthorizationReads,
) -> bool {
    match reads.confirmation_signature {
        None => r matches Step::Ask(AuthorizationQuestion::CheckConfirmation),
        Some(Err(e)) => ends(r, authorization_failure(e, "console confirmation"@)),
        Some(Ok(_)) => match reads.document {
            None => r matches Step::Ask(AuthorizationQuestion::ParseDocument),
            Some(Err(why)) => ends(r, not_started(why@)),
            Some(Ok(doc)) => match reads.plan_hash {
                None => r matches Step::Ask(AuthorizationQuestion::HashPlan),
                Some(hash) => match reads.binding {
                    None => r matches Step::Ask(
                        AuthorizationQuestion::CheckBinding { subject: asked, plan_hash },
                    ) && asked == subject && plan_hash@ == hash@,
                    Some(Err(why)) => ends(r, not_started(why@)),
                    Some(Ok(_)) => bound_authorization_is(
                        r,
                        policy,
                        confirmation,
                        approver,
                        doc,
                        reads,
                    ),
                },
            },
        },
    }
}

/// The next step once the authorization is known to be for this run.
pub open spec fn bound_authorization_is(
    r: Step<AuthorizationQuestion, Result<Approved, DrillError>>,
    policy: ApprovalPolicy,
    confirmation: Seq<char>,
    approver: Seq<char>,
    doc: RestoreAuthorization,
    reads: AuthorizationReads,
) -> bool {
    if policy.mode == ApprovalMode::Ordinary && approver != confirmation {
        ends(r, not_started(not_ordinary(policy.name@, approver, confirmation)))
    } else if policy.mode == ApprovalMode::Governed && approver == confirmation {
        ends(r, not_started(not_governed(policy.name@, confirmation)))
    } else if policy.mode == ApprovalMode::Governed && reads.approver_signature is None {
        r matches Step::Ask(AuthorizationQuestion::CheckApprover)
    } else if policy.mode == ApprovalMode::Governed && reads.approver_signature->0 is Err {
        ends(
            r,
            authorization_failure(reads.approver_signature->0->Err_0, "governed approver"@),
        )
    } else {
        match reads.signing_key_id {
            None => r matches Step::Ask(AuthorizationQuestion::SigningKeyId),
            Some(signing) => match reads.now {
                None => r matches Step::Ask(AuthorizationQuestion::Now),
                Some(now) => {
                    &&& r matches Step::Done(Ok(a))
                    &&& a.validated_at == now
                    &&& a.approval.approver@ == authoriser(policy.mode, doc, approver)
                    &&& a.approval.ticket@ == or_nothing(doc.ticket)
                    &&& a.approval.plan_hash@ == doc.plan_hash@
                    &&& a.approval.approved_at == doc.issued_at
                    &&& a.approval.key_id@ == approver
                    &&& a.approval.self_attested == (approver == signing@)
                },
            },
        }
    }
}

/// The next step of checking an authorization.
pub open spec fn authorization_is(
    r: Step<AuthorizationQuestion, Result<Approved, DrillError>>,
    approver_key: Seq<u8>,
    confirmation_key: Seq<u8>,
    subject: ContractSubject,
    reads: AuthorizationReads,
) -> bool {
    match reads.sidecar_parses {
        None => r matches Step::Ask(AuthorizationQuestion::ParseSidecar),
        Some(false) => ends(
            r,
            ErrorModel::Operational("authorization DSSE sidecar does not parse"@),
        ),
        Some(true) => match reads.policy {
            None => r matches Step::Ask(AuthorizationQuestion::ParsePolicy),
            Some(Err(why)) => ends(r, not_started(why@)),
            Some(Ok(policy)) => if !valid_utf8(confirmation_key) {
                ends(r, key_not_text("confirmation-issuer public key"@, confirmation_key))
            } else {
                match reads.confirmation_key_id {
                    None => r matches Step::Ask(AuthorizationQuestion::ParseConfirmationKey(pem))
                        && pem@ == decode_utf8(confirmation_key),
                    Some(Err(why)) => ends(r, ErrorModel::Operational(why@)),
                    Some(Ok(confirmation)) => if !valid_utf8(approver_key) {
                        ends(r, key_not_text("approver public key"@, approver_key))
                    } else {
                        match reads.approver_key_id {
                            None => r matches Step::Ask(
                                AuthorizationQuestion::ParseApproverKey(pem),
                            ) && pem@ == decode_utf8(approver_key),
                            Some(Err(why)) => ends(r, ErrorModel::Operational(why@)),
                            Some(Ok(approver)) => keyed_authorization_is(
                                r,
                                subject,
                                policy,
                                confirmation@,
                                approver@,
                                reads,
                            ),
                        }
                    },
                }
            },
        },
    }
}

/// Checks who authorises a run whose authorization is known to be for it.
fn authorised(
    policy: &ApprovalPolicy,
    confirmation: &String,
    approver: &String,
    doc: &RestoreAuthorization,
    reads: &AuthorizationReads,
) -> (r: Step<AuthorizationQuestion, Result<Approved, DrillError>>)
    ensures
        bound_authorization_is(r, *policy, confirmation@, approver@, *doc, *reads),
{
    let label = match policy.mode {
        ApprovalMode::Ordinary => {
            if *approver != *confirmation {
                let mut m = "policy ".to_owned();
                m.append(policy.name.as_str());
                m.append(
                    " is Ordinary, so the console's confirmation is the whole authorization, but the bundle names approver key ",
                );
                m.append(approver.as_str());
                m.append(" and confirmation key ");
                m.append(confirmation.as_str());
                return Step::Done(Err(refuse_unstarted(m.as_str())));
            }
            doc.requester.clone()
        },
        ApprovalMode::Governed => {
            if *approver == *confirmation {
                let mut m = "policy ".to_owned();
                m.append(policy.name.as_str());
                m.append(" is Governed, and the bundle names the console key ");
                m.append(confirmation.as_str());
                m.append(
                    " as the approver; a governed run needs a separate approver signature",
                );
                return Step::Done(Err(refuse_unstarted(m.as_str())));
            }
            match &reads.approver_signature {
                None => {
                    return Step::Ask(AuthorizationQuestion::CheckApprover);
                },
                Some(signature) => match verify_under(signature, "governed approver") {
                    Err(e) => {
                        return Step::Done(Err(e));
                    },
                    Ok(_) => {},
                },
            }
            let mut s = "governed approver key ".to_owned();
            s.append(approver.as_str());
            s
        },
    };
    let signing = match &reads.signing_key_id {
        None => {
            return Step::Ask(AuthorizationQuestion::SigningKeyId);
        },
        Some(signing) => signing,
    };
    match reads.now {
        None => Step::Ask(AuthorizationQuestion::Now),
        Some(validated_at) => Step::Done(
            Ok(
                Approved {
                    validated_at,
                    approval: ApprovalInfo {
                        approver: label,
                        ticket: match &doc.ticket {
                            Some(t) => t.clone(),
                            None => {
                                proof {
                                    reveal_strlit("");
                                    assert(""@ =~= Seq::<char>::empty());
                                }
                                "".to_owned()
                            },
                        },
                        plan_hash: doc.plan_hash.clone(),
                        approved_at: doc.issued_at,
                        key_id: approver.clone(),
                        self_attested: *approver == *signing,
                    },
                },
            ),
        ),
    }
}

/// Checks an authorization of the second version, given as bytes, from what was
/// found out so far. When it expires is not looked at: the run was admitted
/// while it held.
pub fn verify_authorization_v2_bytes(
    approver_key_bytes: &Vec<u8>,
    confirmation_key_bytes: &Vec<u8>,
    subject: &ContractSubject,
    reads: &AuthorizationReads,
) -> (r: Step<AuthorizationQuestion, Result<Approved, DrillError>>)
    ensures
        authorization_is(r, approver_key_bytes@, confirmation_key_bytes@, *subject, *reads),
{
    match reads.sidecar_parses {
        None => {
            return Step::Ask(AuthorizationQuestion::ParseSidecar);
        },
        Some(parses) => if !parses {
            return Step::Done(
                Err(
                    DrillError::Operational("authorization DSSE sidecar does not parse".to_owned()),
                ),
            );
        },
    }
    let policy = match &reads.policy {
        None => {
            return Step::Ask(AuthorizationQuestion::ParsePolicy);
        },
        Some(Err(why)) => {
            return Step::Done(Err(refuse_unstarted(why.as_str())));
        },
        Some(Ok(policy)) => policy,
    };
    let confirmation_pem = match key_pem("confirmation-issuer public key", confirmation_key_bytes) {
        Err(e) => {
            return Step::Done(Err(e));
        },
        Ok(pem) => pem,
    };
    let confirmation = match &reads.confirmation_key_id {
        None => {
            return Step::Ask(AuthorizationQuestion::ParseConfirmationKey(confirmation_pem));
        },
        Some(Err(why)) => {
            return Step::Done(Err(DrillError::Operational(why.clone())));
        },
        Some(Ok(id)) => id,
    };
    let approver_pem = match key_pem("approver public key", approver_key_bytes) {
        Err(e) => {
            return Step::Done(Err(e));
        },
        Ok(pem) => pem,
    };
    let approver = match &reads.approver_key_id {
        None => {
            return Step::Ask(AuthorizationQuestion::ParseApproverKey(approver_pem));
        },
        Some(Err(why)) => {
            return Step::Done(Err(DrillError::Operational(why.clone())));
        },
        Some(Ok(id)) => id,
    };
    match &reads.confirmation_signature {
        None => {
            return Step::Ask(AuthorizationQuestion::CheckConfirmation);
        },
        Some(signature) => match verify_under(signature, "console confirmation") {
            Err(e) => {
                return Step::Done(Err(e));
            },
            Ok(_) => {},
        },
    }
    let doc = match &reads.document {
        None => {
            return Step::Ask(AuthorizationQuestion::ParseDocument);
        },
        Some(Err(why)) => {
            return Step::Done(Err(refuse_unstarted(why.as_str())));
        },
        Some(Ok(doc)) => doc,
    };
    let plan_hash = match &reads.plan_hash {
        None => {
            return Step::Ask(AuthorizationQuestion::HashPlan);
        },
        Some(hash) => hash,
    };
    match &reads.binding {
        None => {
            return Step::Ask(
                AuthorizationQuestion::CheckBinding {
                    subject: subject.clone(),
                    plan_hash: plan_hash.clone(),
                },
            );
        },
        Some(Err(why)) => {
            return Step::Done(Err(refuse_unstarted(why.as_str())));
        },
        Some(Ok(_)) => {},
    }
    authorised(policy, confirmation, approver, doc, reads)
}

/// Under either policy the console's signature verified and the authorization
/// is for this run. An ordinary run is authorised by the console alone; a
/// governed one by a key of its own, whose signature verified too.
pub proof fn an_authorization_has_its_signatures(
    r: Step<AuthorizationQuestion, Result<Approved, DrillError>>,
    approver_key: Seq<u8>,
    confirmation_key: Seq<u8>,
    subject: ContractSubject,
    reads: AuthorizationReads,
)
    requires
        authorization_is(r, approver_key, confirmation_key, subject, reads),
        r matches Step::Done(Ok(_)),
    ensures
        reads.confirmation_signature matches Some(Ok(_)),
        reads.binding matches Some(Ok(_)),
        ({
            let policy = reads.policy->0->Ok_0;
            let confirmation = reads.confirmation_key_id->0->Ok_0@;
            let key = r->Done_0->Ok_0.approval.key_id@;
            match policy.mode {
                ApprovalMode::Ordinary => key == confirmation,
                ApprovalMode::Governed => key != confirmation && (
                reads.approver_signature matches Some(Ok(_))),
            }
        }),
{
}

} // verus!
