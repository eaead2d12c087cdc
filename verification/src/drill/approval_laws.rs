//! What is promised of an approval: which one counts, whom it names, and what of
//! a run it is bound to.
use vstd::prelude::*;
use vstd::utf8::valid_utf8;
use crate::drill::binding::{
    binding_is, counted, is_hex, is_lower_hex, point_faults, scan, standing_is, AuthorizationKey,
    AuthorizationNames, KeyTrial, PointQuestion, PointReads, Scan, StandingReads, StandingStep,
};
use crate::drill::context::{context_is, ContextReads, ContextStep};
use crate::drill::contract::{
    contract_is, invocation_is, ContractNames, ContractValues, ExecutionContract,
};
use crate::drill::credentials::{credentials_are, password_of, EnvValue, PasswordModel, PasswordVar};
use crate::drill::error::{DrillError, GuardRefusal};
use crate::drill::phase1_approval::{
    approval_is, authorization_is, filed_approval_is, ApprovalFileQuestion, ApprovalFiles,
    ApprovalMode, ApprovalPaths, ApprovalQuestion, ApprovalReads, Approved, AuthorizationQuestion,
    AuthorizationReads, ContractSubject,
};
use crate::drill::plan::workdir_of;
use crate::drill::spec::{DrillSpec, PointBinding};
use crate::drill::step::Step;
use crate::text::{blank, decimal};

verus! {

/// An approval counts exactly where its signature holds, its document can be
/// read and names the plan that is run; it is then the document's, under the key
/// that signed it, and self-attested exactly where that key is the run's own.
pub proof fn an_approval_counts_where_all_of_it_holds(
    r: Step<ApprovalQuestion, Result<Approved, DrillError>>,
    key_bytes: Seq<u8>,
    reads: ApprovalReads,
)
    requires
        approval_is(r, key_bytes, reads),
    ensures
        (r matches Step::Done(Ok(_))) <==> {
            &&& reads.sidecar_parses == Some(true)
            &&& valid_utf8(key_bytes)
            &&& reads.key_id matches Some(Ok(_))
            &&& reads.signature matches Some(Ok(_))
            &&& reads.document matches Some(Ok(doc))
            &&& reads.plan_hash matches Some(hash)
            &&& hash@ == doc.plan_hash@
            &&& reads.signing_key_id is Some
            &&& reads.now is Some
        },
        r matches Step::Done(Ok(a)) ==> {
            let doc = reads.document->0->Ok_0;
            &&& a.validated_at == reads.now->0
            &&& a.approval.approver@ == doc.approver@
            &&& a.approval.ticket@ == doc.ticket@
            &&& a.approval.plan_hash@ == doc.plan_hash@
            &&& a.approval.approved_at == doc.approved_at
            &&& a.approval.key_id@ == reads.key_id->0->Ok_0@
            &&& a.approval.self_attested <==> reads.key_id->0->Ok_0@ == reads.signing_key_id->0@
        },
{
}

/// An authorization counts exactly where the console's confirmation holds and is
/// bound to this run, and where its policy is kept: under an ordinary policy the
/// console's key is the only one, and under a governed policy another key has
/// signed as well. It names the requester, or the key that approved.
pub proof fn an_authorization_counts_where_its_policy_is_kept(
    r: Step<AuthorizationQuestion, Result<Approved, DrillError>>,
    approver_key: Seq<u8>,
    confirmation_key: Seq<u8>,
    subject: ContractSubject,
    reads: AuthorizationReads,
)
    requires
        authorization_is(r, approver_key, confirmation_key, subject, reads),
    ensures
        (r matches Step::Done(Ok(_))) <==> {
            &&& reads.sidecar_parses == Some(true)
            &&& reads.policy matches Some(Ok(policy))
            &&& valid_utf8(confirmation_key)
            &&& reads.confirmation_key_id matches Some(Ok(confirmation))
            &&& valid_utf8(approver_key)
            &&& reads.approver_key_id matches Some(Ok(approver))
            &&& reads.confirmation_signature matches Some(Ok(_))
            &&& reads.document matches Some(Ok(_))
            &&& reads.plan_hash is Some
            &&& reads.binding matches Some(Ok(_))
            &&& match policy.mode {
                ApprovalMode::Ordinary => approver@ == confirmation@,
                ApprovalMode::Governed => approver@ != confirmation@ && (
                reads.approver_signature matches Some(Ok(_))),
            }
            &&& reads.signing_key_id is Some
            &&& reads.now is Some
        },
        r matches Step::Done(Ok(a)) ==> {
            let doc = reads.document->0->Ok_0;
            let approver = reads.approver_key_id->0->Ok_0@;
            &&& a.validated_at == reads.now->0
            &&& reads.policy->0->Ok_0.mode == ApprovalMode::Ordinary ==> a.approval.approver@
                == doc.requester@
            &&& reads.policy->0->Ok_0.mode == ApprovalMode::Governed ==> a.approval.approver@
                == "governed approver key "@ + approver
            &&& doc.ticket matches Some(t) ==> a.approval.ticket@ == t@
            &&& doc.ticket is None ==> a.approval.ticket@.len() == 0
            &&& a.approval.plan_hash@ == doc.plan_hash@
            &&& a.approval.approved_at == doc.issued_at
            &&& a.approval.key_id@ == approver
            &&& a.approval.self_attested <==> approver == reads.signing_key_id->0@
        },
        r matches Step::Ask(AuthorizationQuestion::CheckBinding { subject: asked, plan_hash })
            ==> asked == subject && plan_hash@ == reads.plan_hash->0@,
{
}

/// A contract that has every value, in the version that is spoken here, is taken
/// as it was given; one of which any value is missing or blank is refused; and
/// where nothing of one is there, there is none.
pub proof fn a_contract_is_taken_as_it_was_given(
    r: Result<Option<ExecutionContract>, DrillError>,
    n: ContractNames,
    v: ContractValues,
)
    requires
        contract_is(r, n, v),
    ensures
        (r matches Ok(Some(_))) <==> {
            &&& v.version matches Some(version) && !blank(version@) && version@ == n.version@
            &&& v.subject_api_version matches Some(s) && !blank(s@)
            &&& v.subject_kind matches Some(s) && !blank(s@)
            &&& v.subject_name matches Some(s) && !blank(s@)
            &&& v.subject_namespace matches Some(s) && !blank(s@)
            &&& v.subject_uid matches Some(s) && !blank(s@)
            &&& v.approval_name matches Some(s) && !blank(s@)
            &&& v.approval_uid matches Some(s) && !blank(s@)
            &&& v.plan_sha256 matches Some(s) && !blank(s@)
            &&& v.approval_sha256 matches Some(s) && !blank(s@)
            &&& v.approval_sidecar_sha256 matches Some(s) && !blank(s@)
            &&& v.approver_key_sha256 matches Some(s) && !blank(s@)
            &&& v.allowed_clusters_sha256 matches Some(s) && !blank(s@)
        },
        (r matches Ok(None)) <==> {
            &&& v.version is None
            &&& v.subject_api_version is None
            &&& v.subject_kind is None
            &&& v.subject_name is None
            &&& v.subject_namespace is None
            &&& v.subject_uid is None
            &&& v.approval_name is None
            &&& v.approval_uid is None
            &&& v.plan_sha256 is None
            &&& v.approval_sha256 is None
            &&& v.approval_sidecar_sha256 is None
            &&& v.approver_key_sha256 is None
            &&& v.allowed_clusters_sha256 is None
        },
        r matches Err(e) ==> e@ is Guard,
        r matches Ok(Some(c)) ==> {
            &&& v.subject_api_version == Some(c.subject_api_version)
            &&& v.subject_kind == Some(c.subject_kind)
            &&& v.subject_name == Some(c.subject_name)
            &&& v.subject_namespace == Some(c.subject_namespace)
            &&& v.subject_uid == Some(c.subject_uid)
            &&& v.approval_name == Some(c.approval_name)
            &&& v.approval_uid == Some(c.approval_uid)
            &&& v.plan_sha256 == Some(c.plan_sha256)
            &&& v.approval_sha256 == Some(c.approval_sha256)
            &&& v.approval_sidecar_sha256 == Some(c.approval_sidecar_sha256)
            &&& v.approver_key_sha256 == Some(c.approver_key_sha256)
            &&& v.allowed_clusters_sha256 == Some(c.allowed_clusters_sha256)
        },
{
}

/// An invocation has a contract exactly where it asks for one, in the version
/// that is spoken here, and the environment holds it.
pub proof fn an_invocation_and_its_environment_agree(
    r: Result<Option<ExecutionContract>, DrillError>,
    taken: Result<Option<ExecutionContract>, DrillError>,
    cli_version: Option<Seq<char>>,
    n: ContractNames,
    v: ContractValues,
)
    requires
        invocation_is(r, cli_version, n, v),
        contract_is(taken, n, v),
    ensures
        (r matches Ok(Some(_))) <==> (cli_version == Some(n.version@) && (taken matches Ok(
            Some(_),
        ))),
        (r matches Ok(None)) <==> (cli_version is None && (taken matches Ok(None))),
        r matches Err(e) ==> e@ is Guard,
{
}

/// A recovery point is well formed exactly where its identity has its opening and
/// 32 small hexadecimal digits, its receipt has a key, and both of its digests
/// are 64 hexadecimal digits behind their algorithm.
pub proof fn a_point_is_well_formed(p: PointBinding, opening: Seq<char>)
    ensures
        point_faults(p, opening).len() == 0 <==> {
            &&& opening.is_prefix_of(p.point_id@)
            &&& p.point_id@.len() == opening.len() + 32
            &&& forall|i: int|
                opening.len() <= i < p.point_id@.len() ==> '0' <= #[trigger] p.point_id@[i] <= '9'
                    || 'a' <= p.point_id@[i] <= 'f'
            &&& !blank(p.receipt_key@)
            &&& "sha256:"@.is_prefix_of(p.receipt_sha256@)
            &&& p.receipt_sha256@.len() == 71
            &&& forall|i: int|
                7 <= i < p.receipt_sha256@.len() ==> '0' <= #[trigger] p.receipt_sha256@[i] <= '9'
                    || 'a' <= p.receipt_sha256@[i] <= 'f' || 'A' <= p.receipt_sha256@[i] <= 'F'
            &&& "sha256:"@.is_prefix_of(p.manifest_sha256@)
            &&& p.manifest_sha256@.len() == 71
            &&& forall|i: int|
                7 <= i < p.manifest_sha256@.len() ==> '0' <= #[trigger] p.manifest_sha256@[i] <= '9'
                    || 'a' <= p.manifest_sha256@[i] <= 'f' || 'A' <= p.manifest_sha256@[i] <= 'F'
        },
{
    reveal_strlit("sha256:");
    behind_an_opening(p.point_id@, opening);
    behind_an_opening(p.receipt_sha256@, "sha256:"@);
    behind_an_opening(p.manifest_sha256@, "sha256:"@);
}

proof fn behind_an_opening(s: Seq<char>, opening: Seq<char>)
    ensures
        opening.is_prefix_of(s) ==> {
            let rest = s.skip(opening.len() as int);
            &&& (forall|i: int| 0 <= i < rest.len() ==> is_hex(#[trigger] rest[i])) <==> forall|
                i: int,
            |
                opening.len() <= i < s.len() ==> '0' <= #[trigger] s[i] <= '9' || 'a' <= s[i] <= 'f'
                    || 'A' <= s[i] <= 'F'
            &&& (forall|i: int| 0 <= i < rest.len() ==> is_lower_hex(#[trigger] rest[i]))
                <==> forall|i: int|
                opening.len() <= i < s.len() ==> '0' <= #[trigger] s[i] <= '9' || 'a' <= s[i] <= 'f'
        },
{
    if opening.is_prefix_of(s) {
        let rest = s.skip(opening.len() as int);
        assert(forall|i: int|
            opening.len() <= i < s.len() ==> #[trigger] s[i] == rest[i - opening.len()]);
        assert(forall|i: int| 0 <= i < rest.len() ==> #[trigger] rest[i] == s[i + opening.len()]);
    }
}

/// A plan that is bound to a recovery point goes on exactly where the archive
/// holds the point's receipt and manifest, byte for byte, and the receipt is of
/// that point and that manifest.
pub proof fn a_bound_point_is_the_one_in_the_archive(
    r: Step<PointQuestion, Result<Option<String>, DrillError>>,
    plan: DrillSpec,
    id_opening: Seq<char>,
    reads: PointReads,
)
    requires
        binding_is(r, plan, id_opening, reads),
    ensures
        plan.source.point is None <==> (r matches Step::Done(Ok(None))),
        (r matches Step::Done(Ok(Some(_)))) <==> {
            &&& plan.source.point matches Some(p)
            &&& point_faults(p, id_opening).len() == 0
            &&& reads.receipt_sha256 matches Some(Ok(receipt)) && receipt@ == p.receipt_sha256@
            &&& reads.derived_id matches Some(derived) && derived@ == p.point_id@
            &&& reads.receipt matches Some(Ok(told)) && told.manifest_sha256@ == p.manifest_sha256@
            &&& reads.manifest_sha256 matches Some(Ok(manifest)) && manifest@ == p.manifest_sha256@
        },
        r matches Step::Done(Ok(Some(id))) ==> id@ == plan.source.point->0.point_id@,
        r matches Step::Ask(PointQuestion::FetchReceipt(key)) ==> key@
            == plan.source.point->0.receipt_key@,
        r matches Step::Ask(PointQuestion::FetchManifest(key)) ==> key@
            == reads.receipt->0->Ok_0.manifest_key@,
{
}

proof fn the_scan_ends_at_the_first_answer(keys: Seq<AuthorizationKey>, trials: Seq<KeyTrial>)
    ensures
        match scan(keys, trials) {
            Scan::Found(i) => 0 <= i < trials.len() && trials[i] is Signed && forall|j: int|
                0 <= j < i ==> (#[trigger] trials[j]) is NotSigner || trials[j] is Unusable,
            Scan::Broken(why) => exists|i: int|
                0 <= i < trials.len() && (#[trigger] trials[i]) is Malformed && (forall|j: int|
                    0 <= j < i ==> (#[trigger] trials[j]) is NotSigner || trials[j] is Unusable),
            Scan::NoneYet(_) => forall|j: int|
                0 <= j < trials.len() ==> (#[trigger] trials[j]) is NotSigner
                    || trials[j] is Unusable,
        },
    decreases trials.len(),
{
    if trials.len() > 0 {
        let rest = trials.drop_last();
        the_scan_ends_at_the_first_answer(keys, rest);
        assert(trials[trials.len() - 1] == trials.last());
        assert(forall|i: int| 0 <= i < rest.len() ==> #[trigger] trials[i] == rest[i]);
        match scan(keys, rest) {
            Scan::Found(i) => {
                assert forall|j: int| 0 <= j < i implies (#[trigger] trials[j]) is NotSigner
                    || trials[j] is Unusable by {
                    assert(rest[j] == trials[j]);
                }
                assert(trials[i] == rest[i]);
            },
            Scan::Broken(why) => {
                let i = choose|i: int|
                    0 <= i < rest.len() && (#[trigger] rest[i]) is Malformed && (forall|j: int|
                        0 <= j < i ==> (#[trigger] rest[j]) is NotSigner || rest[j] is Unusable);
                assert(trials[i] is Malformed);
                assert forall|j: int| 0 <= j < i implies (#[trigger] trials[j]) is NotSigner
                    || trials[j] is Unusable by {
                    assert(rest[j] == trials[j]);
                }
            },
            Scan::NoneYet(_) => {
                assert forall|j: int| 0 <= j < rest.len() implies (#[trigger] trials[j]) is NotSigner
                    || trials[j] is Unusable by {
                    assert(rest[j] == trials[j]);
                }
            },
        }
    }
}

/// A standing authorization stands exactly where one of the trusted keys signed
/// it, with nothing malformed before it; that key may authorize; and the document
/// is admitted and covers the plan.
pub proof fn a_standing_authorization_stands_by_its_first_signer(
    r: StandingStep,
    n: AuthorizationNames,
    reads: StandingReads,
)
    requires
        standing_is(r, n, reads),
    ensures
        (r matches Step::Done(Ok(_))) <==> {
            &&& reads.keyring matches Some(Ok(keys))
            &&& reads.sidecar matches Some(Ok(_))
            &&& exists|i: int|
                {
                    &&& 0 <= i < keys@.len()
                    &&& i < reads.trials@.len()
                    &&& (#[trigger] reads.trials@[i]) is Signed
                    &&& keys@[i].may_authorize
                    &&& forall|j: int|
                        0 <= j < i ==> (#[trigger] reads.trials@[j]) is NotSigner
                            || reads.trials@[j] is Unusable
                }
            &&& reads.document matches Some(Ok(_))
            &&& reads.admitted matches Some(Ok(_))
            &&& reads.scope matches Some(Ok(_))
        },
        r matches Step::Done(Ok(v)) ==> v.document == reads.document->0->Ok_0,
        r matches Step::Ask(q) ==> (q matches crate::drill::binding::StandingQuestion::TryKey(i)
            ==> i == reads.trials@.len()),
{
    if let Some(Ok(keys)) = reads.keyring {
        let trials = counted(keys@, reads.trials@);
        the_scan_ends_at_the_first_answer(keys@, trials);
        assert(forall|i: int| 0 <= i < trials.len() ==> trials[i] == #[trigger] reads.trials@[i]);
        if let Scan::Found(i) = scan(keys@, trials) {
            assert(reads.trials@[i] is Signed);
            assert forall|j: int| 0 <= j < i implies (#[trigger] reads.trials@[j]) is NotSigner
                || reads.trials@[j] is Unusable by {
                assert(trials[j] == reads.trials@[j]);
            }
        }
        if exists|i: int|
            {
                &&& 0 <= i < keys@.len()
                &&& i < reads.trials@.len()
                &&& (#[trigger] reads.trials@[i]) is Signed
                &&& keys@[i].may_authorize
                &&& forall|j: int|
                    0 <= j < i ==> (#[trigger] reads.trials@[j]) is NotSigner
                        || reads.trials@[j] is Unusable
            } {
            let i = choose|i: int|
                {
                    &&& 0 <= i < keys@.len()
                    &&& i < reads.trials@.len()
                    &&& (#[trigger] reads.trials@[i]) is Signed
                    &&& keys@[i].may_authorize
                    &&& forall|j: int|
                        0 <= j < i ==> (#[trigger] reads.trials@[j]) is NotSigner
                            || reads.trials@[j] is Unusable
                };
            assert(trials[i] is Signed);
            match scan(keys@, trials) {
                Scan::Found(k) => {
                    if k < i {
                        assert(reads.trials@[k] is Signed);
                    }
                    assert(k == i);
                },
                Scan::Broken(why) => {
                    let k = choose|k: int|
                        0 <= k < trials.len() && (#[trigger] trials[k]) is Malformed && (forall|
                            j: int,
                        |
                            0 <= j < k ==> (#[trigger] trials[j]) is NotSigner
                                || trials[j] is Unusable);
                    assert(reads.trials@[k] is Malformed);
                },
                Scan::NoneYet(_) => {},
            }
        }
    }
}

/// A password is used exactly as it stands in the environment, where the engine
/// can be given it; one that is not there is none; and one that is no text, or
/// cannot be given, is refused.
pub proof fn a_password_is_used_as_it_stands(
    state: Seq<char>,
    var: Seq<char>,
    value: EnvValue,
    renderable: Option<Result<(), String>>,
)
    ensures
        value is Absent <==> password_of(state, var, value, renderable) == PasswordModel::Read(None),
        value is NotText ==> password_of(state, var, value, renderable) is Refused,
        value matches EnvValue::Text(secret) ==> {
            &&& renderable matches Some(Ok(_)) ==> password_of(state, var, value, renderable)
                == PasswordModel::Read(Some(secret@))
            &&& renderable matches Some(Err(_)) ==> password_of(
                state,
                var,
                value,
                renderable,
            ) is Refused
            &&& renderable is None ==> password_of(state, var, value, renderable) is Unknown
        },
{
}

/// A run has its clients exactly where everything that it needs was read, made
/// and reached, and the password could be used.
pub proof fn a_run_has_all_of_its_clients(
    r: ContextStep,
    state: Seq<char>,
    password: EnvValue,
    temp_dir: Seq<char>,
    pid: u32,
    reads: ContextReads,
)
    requires
        context_is(r, state, password, temp_dir, pid, reads),
    ensures
        (r matches Step::Done(Ok(_))) <==> {
            &&& reads.plan matches Some(Ok(_))
            &&& reads.allowed matches Some(Ok(_))
            &&& password is Absent || (password is Text && (reads.renderable matches Some(Ok(_))))
            &&& reads.authenticated matches Some(Ok(_))
            &&& reads.connected matches Some(Ok(_))
            &&& reads.confined is Some
            &&& (reads.confined matches Some(Ok(_))) || (reads.connected_again matches Some(Ok(_)))
            &&& reads.evidence matches Some(Ok(_))
            &&& reads.archive matches Some(Ok(_))
            &&& reads.engine_archive matches Some(Ok(_))
            &&& reads.workdir matches Some(Ok(_))
        },
        r matches Step::Done(Err(e)) ==> (e@ is Guard <==> {
            &&& reads.plan matches Some(Ok(_))
            &&& reads.allowed matches Some(Ok(_))
            &&& password is NotText || (password is Text && (reads.renderable matches Some(Err(_))))
        }),
        r matches Step::Done(Err(e)) ==> !(e@ is NotPass) && !(e@ is SigningOrLock),
        r matches Step::Done(Ok(clients)) ==> clients.workdir@ == workdir_of(
            temp_dir,
            decimal(pid as nat),
        ) && (clients.may_delete <==> (reads.confined matches Some(Ok(_)))),
        r matches Step::Ask(crate::drill::context::ContextQuestion::Authenticate(given)) ==> (
        password matches EnvValue::Text(secret) ==> (given matches Some(g) && g@ == secret@)),
{
}

/// The passwords of a run can be used exactly where each of them can, and the
/// source's is looked at first.
pub proof fn both_passwords_can_be_used(
    r: Step<PasswordVar, Result<(), GuardRefusal>>,
    state: Seq<char>,
    source: EnvValue,
    source_renderable: Option<Result<(), String>>,
    target: EnvValue,
    target_renderable: Option<Result<(), String>>,
)
    requires
        credentials_are(
            r,
            password_of(state, "LOGWEIR_SOURCE_PASSWORD"@, source, source_renderable),
            password_of(state, "LOGWEIR_TARGET_PASSWORD"@, target, target_renderable),
        ),
    ensures
        (r matches Step::Done(Ok(_))) <==> {
            &&& source is Absent || (source is Text && (source_renderable matches Some(Ok(_))))
            &&& target is Absent || (target is Text && (target_renderable matches Some(Ok(_))))
        },
        source is NotText || (source is Text && (source_renderable matches Some(Err(_)))) ==> (
        r matches Step::Done(Err(_))),
        (r matches Step::Ask(PasswordVar::Source)) <==> source is Text && source_renderable is None,
{
}

/// An approval that is read from files counts only where all of them could be
/// read, and is then what their bytes say.
pub proof fn an_approval_is_read_from_all_of_its_files(
    r: Step<ApprovalFileQuestion, Result<Approved, DrillError>>,
    paths: ApprovalPaths,
    files: ApprovalFiles,
    reads: ApprovalReads,
)
    requires
        filed_approval_is(r, paths, files, reads),
    ensures
        r matches Step::Done(Ok(a)) ==> {
            &&& files.approval matches Some(Ok(_))
            &&& files.sidecar matches Some(Ok(_))
            &&& files.approver_key matches Some(Ok(_))
            &&& reads.signature matches Some(Ok(_))
            &&& reads.document matches Some(Ok(doc)) && a.approval.plan_hash@ == doc.plan_hash@
            &&& reads.plan_hash matches Some(hash) && a.approval.plan_hash@ == hash@
        },
        files.approval matches Some(Err(_)) ==> (r matches Step::Done(Err(e)) && e@ is Operational),
        (files.approval matches Some(Ok(_))) && (files.sidecar matches Some(Err(_))) ==> (
        r matches Step::Done(Err(e)) && e@ is Operational),
{
}

} // verus!
