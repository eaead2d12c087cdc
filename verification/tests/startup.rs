//! What has to hold before a run touches anything.
use logweir::cli::{external_secret, standing_refusal, usage_code};
use logweir::clock::Timestamp;
use logweir::drill::context::{context, Clients, ContextQuestion, ContextReads};
use logweir::drill::contract::{
    execution_contract_for_invocation, execution_contract_from, validate_execution_contract,
    ApprovalBundleBytes, BundleDigests, ContractNames, ContractValues, ExecutionContract,
};
use logweir::drill::credentials::{
    check_projected_credentials, naming_the_password_var, validated_password, EnvValue,
    PasswordVar, TARGET_PASSWORD_VAR,
};
use logweir::drill::error::{DrillError, GuardRefusal, KafkaError};
use logweir::drill::notify::{redact_ureq_error, PostFault};
use logweir::drill::phase1_approval::{
    admit_pinned_approver_key_bytes, admit_pinned_approver_key_id, pinned_set_refusal,
    verify, verify_authorization_v2_bytes, verify_bytes, verify_under, ApprovalDoc,
    ApprovalFileQuestion, ApprovalFiles, ApprovalMode, ApprovalPaths,
    ApprovalPolicy, ApprovalQuestion, ApprovalReads, Approved, AuthorizationQuestion,
    AuthorizationReads, ContractSubject, EvidenceError, RestoreAuthorization,
};
use logweir::drill::startup::{
    approval_checked, bundle_read, credentials_checked, digests_taken, key_bytes_checked,
    key_checked, load_startup_inputs, plan_parsed, signer_loaded, start, Gate, MountedInput,
    MountedRead, MountedReads,
};
use logweir::drill::step::Step;
use logweir::exit::ExitCode;

fn at(secs: i64) -> Timestamp {
    Timestamp::new(secs, 0).unwrap()
}

fn names() -> ContractNames {
    let n = |s: &str| format!("LOGWEIR_EXECUTION_{s}");
    ContractNames {
        version_env: n("VERSION"),
        subject_api_version_env: n("SUBJECT_API_VERSION"),
        subject_kind_env: n("SUBJECT_KIND"),
        subject_name_env: n("SUBJECT_NAME"),
        subject_namespace_env: n("SUBJECT_NAMESPACE"),
        subject_uid_env: n("SUBJECT_UID"),
        approval_name_env: n("APPROVAL_NAME"),
        approval_uid_env: n("APPROVAL_UID"),
        plan_sha256_env: n("PLAN_SHA256"),
        approval_sha256_env: n("APPROVAL_SHA256"),
        approval_sidecar_sha256_env: n("APPROVAL_SIDECAR_SHA256"),
        approver_key_sha256_env: n("APPROVER_KEY_SHA256"),
        allowed_clusters_sha256_env: n("ALLOWED_CLUSTERS_SHA256"),
        version: "1".into(),
        version_arg: "--execution-contract-version".into(),
    }
}

fn values() -> ContractValues {
    let v = |s: &str| Some(s.to_string());
    ContractValues {
        version: v("1"),
        subject_api_version: v("logweir.dev/v1alpha1"),
        subject_kind: v("Restore"),
        subject_name: v("r"),
        subject_namespace: v("ns"),
        subject_uid: v("u"),
        approval_name: v("a"),
        approval_uid: v("au"),
        plan_sha256: v("p"),
        approval_sha256: v("q"),
        approval_sidecar_sha256: v("s"),
        approver_key_sha256: v("k"),
        allowed_clusters_sha256: v("c"),
    }
}

fn no_values() -> ContractValues {
    ContractValues {
        version: None,
        subject_api_version: None,
        subject_kind: None,
        subject_name: None,
        subject_namespace: None,
        subject_uid: None,
        approval_name: None,
        approval_uid: None,
        plan_sha256: None,
        approval_sha256: None,
        approval_sidecar_sha256: None,
        approver_key_sha256: None,
        allowed_clusters_sha256: None,
    }
}

fn digests() -> BundleDigests {
    BundleDigests {
        plan: "p".into(),
        approval: "q".into(),
        approval_sidecar: "s".into(),
        approver_key: "k".into(),
        allowed_clusters: "c".into(),
    }
}

fn a_contract() -> ExecutionContract {
    execution_contract_from(&names(), &values()).unwrap().unwrap()
}

fn guard_message(e: DrillError) -> String {
    match e {
        DrillError::Guard(GuardRefusal(m)) => m,
        other => panic!("expected a guard refusal, got {other:?}"),
    }
}

#[test]
fn a_contract_is_read_whole_or_not_at_all() {
    assert!(execution_contract_from(&names(), &no_values()).unwrap().is_none());
    let c = a_contract();
    assert_eq!(c.subject_kind, "Restore");
    assert_eq!(c.allowed_clusters_sha256, "c");
    let mut partial = values();
    partial.approval_uid = Some("  ".into());
    assert_eq!(
        guard_message(execution_contract_from(&names(), &partial).unwrap_err()),
        "incomplete Restore execution contract: LOGWEIR_EXECUTION_APPROVAL_UID is missing; no data \
         operation was started"
    );
    let mut stray = no_values();
    stray.plan_sha256 = Some("p".into());
    assert!(execution_contract_from(&names(), &stray).is_err());
    let mut newer = values();
    newer.version = Some("2".into());
    assert_eq!(
        guard_message(execution_contract_from(&names(), &newer).unwrap_err()),
        "unsupported Restore execution contract version \"2\"; expected \"1\"; no data operation was \
         started"
    );
}

#[test]
fn the_command_line_and_the_environment_agree_on_a_contract() {
    let call = |cli: Option<&str>, v: &ContractValues| {
        execution_contract_for_invocation(cli, &names(), v)
    };
    assert!(call(None, &no_values()).unwrap().is_none());
    assert!(call(Some("1"), &values()).unwrap().is_some());
    assert!(guard_message(call(None, &values()).unwrap_err())
        .contains("--execution-contract-version is missing"));
    assert!(guard_message(call(Some("1"), &no_values()).unwrap_err())
        .contains("was supplied without the required contract environment"));
    assert!(guard_message(call(Some("9"), &values()).unwrap_err()).contains("argv version \"9\""));
    let mut untold = values();
    untold.version = None;
    let m = guard_message(call(Some("1"), &untold).unwrap_err());
    assert!(m.contains("carries None but --execution-contract-version carries \"1\""), "{m}");
}

#[test]
fn a_pinned_input_that_was_swapped_is_refused_by_name() {
    let c = a_contract();
    assert!(validate_execution_contract(&c, Some("approval/a"), &digests()).is_ok());
    let mut swapped = digests();
    swapped.plan = "other".into();
    let m = guard_message(
        validate_execution_contract(&c, Some("approval/a"), &swapped).unwrap_err(),
    );
    assert!(m.contains("bytes hash to other, not the controller-pinned p"), "{m}");
    let m = guard_message(validate_execution_contract(&c, Some("manual"), &digests()).unwrap_err());
    assert!(m.contains("names Approval a but --triggered-by is Some(\"manual\")"), "{m}");
    let mut other = a_contract();
    other.subject_kind = "Backup".into();
    let m =
        guard_message(validate_execution_contract(&other, Some("approval/a"), &digests()).unwrap_err());
    assert!(m.contains("does not identify a logweir.dev/v1alpha1 Restore"), "{m}");
}

#[test]
fn a_password_is_refused_by_its_variable_and_never_by_its_value() {
    let secret = EnvValue::Text("hunter2: {".into());
    match validated_password("CredentialUnrenderable", TARGET_PASSWORD_VAR, &secret, &None) {
        Step::Ask(()) => {}
        other => panic!("{other:?}"),
    }
    let bad = Some(Err("a password may not hold a colon".to_string()));
    match validated_password("CredentialUnrenderable", TARGET_PASSWORD_VAR, &secret, &bad) {
        Step::Done(Err(GuardRefusal(m))) => {
            assert_eq!(
                m,
                "CredentialUnrenderable: a password may not hold a colon (projected into \
                 `LOGWEIR_TARGET_PASSWORD`)"
            );
            assert!(!m.contains("hunter2"));
        }
        other => panic!("{other:?}"),
    }
    let good = Some(Ok(()));
    match check_projected_credentials("C", &EnvValue::Absent, &None, &secret, &None) {
        Step::Ask(PasswordVar::Target) => {}
        other => panic!("{other:?}"),
    }
    match check_projected_credentials("C", &EnvValue::NotText, &None, &secret, &good) {
        Step::Done(Err(GuardRefusal(m))) => assert!(m.contains("LOGWEIR_SOURCE_PASSWORD"), "{m}"),
        other => panic!("{other:?}"),
    }
    match check_projected_credentials("C", &EnvValue::Absent, &None, &secret, &good) {
        Step::Done(Ok(())) => {}
        other => panic!("{other:?}"),
    }
}

#[test]
fn only_a_client_that_could_not_be_made_is_blamed_on_the_variable() {
    match naming_the_password_var(KafkaError::Client("x".into()), "V") {
        KafkaError::Client(m) => assert!(m.contains("$V is unset"), "{m}"),
        other => panic!("{other:?}"),
    }
    match naming_the_password_var(KafkaError::Unreachable("x".into()), "V") {
        KafkaError::Unreachable(m) => assert_eq!(m, "x"),
        other => panic!("{other:?}"),
    }
}

#[test]
fn only_a_pinned_approver_is_accepted() {
    let pinned = vec!["k1".to_string(), "k2".to_string()];
    assert!(matches!(
        admit_pinned_approver_key_id(&vec![], &None),
        Step::Done(Ok(()))
    ));
    assert!(matches!(admit_pinned_approver_key_id(&pinned, &None), Step::Ask(())));
    assert!(matches!(
        admit_pinned_approver_key_id(&pinned, &Some(Ok("k2".into()))),
        Step::Done(Ok(()))
    ));
    match admit_pinned_approver_key_id(&pinned, &Some(Ok("k3".into()))) {
        Step::Done(Err(e)) => {
            assert_eq!(e.exit_code(), ExitCode::GuardRefused);
            assert_eq!(guard_message(e), pinned_set_refusal("k3", &pinned));
        }
        other => panic!("{other:?}"),
    }
    match admit_pinned_approver_key_bytes(&b"PEM".to_vec(), &pinned, &None) {
        Step::Ask(pem) => assert_eq!(pem, "PEM"),
        other => panic!("{other:?}"),
    }
    match admit_pinned_approver_key_bytes(&vec![0xff], &pinned, &None) {
        Step::Done(Err(e)) => {
            assert_eq!(e.exit_code(), ExitCode::Operational);
            assert!(e.message().contains("invalid utf-8"), "{e:?}");
        }
        other => panic!("{other:?}"),
    }
}

fn no_reads() -> ApprovalReads {
    ApprovalReads {
        sidecar_parses: None,
        key_id: None,
        signature: None,
        document: None,
        plan_hash: None,
        signing_key_id: None,
        now: None,
    }
}

/// Approves with a signature, a plan's hash and the id of the signing key.
fn approve(
    signature: Result<(), EvidenceError>,
    plan_hash: &str,
    signing: &str,
) -> Result<Approved, DrillError> {
    let mut reads = no_reads();
    let mut signature = Some(signature);
    loop {
        match verify_bytes(&b"PEM".to_vec(), &reads) {
            Step::Done(r) => return r,
            Step::Ask(ApprovalQuestion::ParseSidecar) => reads.sidecar_parses = Some(true),
            Step::Ask(ApprovalQuestion::ParseKey(pem)) => {
                assert_eq!(pem, "PEM");
                reads.key_id = Some(Ok("k1".into()));
            }
            Step::Ask(ApprovalQuestion::CheckSignature) => reads.signature = signature.take(),
            Step::Ask(ApprovalQuestion::ParseDocument) => {
                reads.document = Some(Ok(ApprovalDoc {
                    approver: "ann".into(),
                    ticket: "T-1".into(),
                    plan_hash: "sha256:aa".into(),
                    approved_at: at(5),
                }))
            }
            Step::Ask(ApprovalQuestion::HashPlan) => reads.plan_hash = Some(plan_hash.into()),
            Step::Ask(ApprovalQuestion::SigningKeyId) => reads.signing_key_id = Some(signing.into()),
            Step::Ask(ApprovalQuestion::Now) => reads.now = Some(at(9)),
        }
    }
}

#[test]
fn an_approval_is_of_the_plan_that_runs() {
    let a = approve(Ok(()), "sha256:aa", "other").unwrap();
    assert_eq!(a.approval.approver, "ann");
    assert_eq!(a.approval.key_id, "k1");
    assert!(!a.approval.self_attested);
    assert_eq!(a.validated_at, at(9));
    assert!(approve(Ok(()), "sha256:aa", "k1").unwrap().approval.self_attested);

    let e = approve(Ok(()), "sha256:bb", "other").unwrap_err();
    assert!(guard_message(e).contains("plan_hash mismatch: the approval names sha256:aa"));
    let e = approve(Err(EvidenceError::Verify("bad".into())), "sha256:aa", "x").unwrap_err();
    assert_eq!(e.exit_code(), ExitCode::GuardRefused);
    let e = approve(Err(EvidenceError::Malformed("cut".into())), "sha256:aa", "x").unwrap_err();
    assert_eq!(e.exit_code(), ExitCode::Operational);
    let e = approve(Err(EvidenceError::Key("rsa".into())), "sha256:aa", "x").unwrap_err();
    assert_eq!(e.exit_code(), ExitCode::Operational);
}

/// Authorises under a mode, with the ids of the two keys.
fn authorise(mode: ApprovalMode, approver: &str, confirmation: &str) -> Result<Approved, DrillError> {
    let subject = ContractSubject {
        namespace: "ns".into(),
        name: "r".into(),
        uid: "u".into(),
    };
    let mut reads = AuthorizationReads {
        sidecar_parses: None,
        policy: None,
        confirmation_key_id: None,
        approver_key_id: None,
        confirmation_signature: None,
        document: None,
        plan_hash: None,
        binding: None,
        approver_signature: None,
        signing_key_id: None,
        now: None,
    };
    loop {
        match verify_authorization_v2_bytes(
            &b"APPROVER".to_vec(),
            &b"CONSOLE".to_vec(),
            &subject,
            &reads,
        ) {
            Step::Done(r) => return r,
            Step::Ask(q) => match q {
                AuthorizationQuestion::ParseSidecar => reads.sidecar_parses = Some(true),
                AuthorizationQuestion::ParsePolicy => {
                    reads.policy = Some(Ok(ApprovalPolicy {
                        name: "p".into(),
                        mode,
                    }))
                }
                AuthorizationQuestion::ParseConfirmationKey(pem) => {
                    assert_eq!(pem, "CONSOLE");
                    reads.confirmation_key_id = Some(Ok(confirmation.into()));
                }
                AuthorizationQuestion::ParseApproverKey(pem) => {
                    assert_eq!(pem, "APPROVER");
                    reads.approver_key_id = Some(Ok(approver.into()));
                }
                AuthorizationQuestion::CheckConfirmation => {
                    reads.confirmation_signature = Some(Ok(confirmation.into()))
                }
                AuthorizationQuestion::ParseDocument => {
                    reads.document = Some(Ok(RestoreAuthorization {
                        requester: "bob".into(),
                        ticket: None,
                        plan_hash: "sha256:aa".into(),
                        issued_at: at(5),
                    }))
                }
                AuthorizationQuestion::HashPlan => reads.plan_hash = Some("sha256:aa".into()),
                AuthorizationQuestion::CheckBinding { subject, plan_hash } => {
                    assert_eq!((subject.uid.as_str(), plan_hash.as_str()), ("u", "sha256:aa"));
                    reads.binding = Some(Ok(()));
                }
                AuthorizationQuestion::CheckApprover => {
                    reads.approver_signature = Some(Ok(approver.into()))
                }
                AuthorizationQuestion::SigningKeyId => reads.signing_key_id = Some("s".into()),
                AuthorizationQuestion::Now => reads.now = Some(at(9)),
            },
        }
    }
}

#[test]
fn an_authorization_carries_the_signatures_that_its_policy_asks_for() {
    let a = authorise(ApprovalMode::Ordinary, "c", "c").unwrap();
    assert_eq!(a.approval.approver, "bob");
    assert_eq!(a.approval.ticket, "");
    let a = authorise(ApprovalMode::Governed, "g", "c").unwrap();
    assert_eq!(a.approval.approver, "governed approver key g");
    assert_eq!(a.approval.key_id, "g");
    assert!(guard_message(authorise(ApprovalMode::Ordinary, "g", "c").unwrap_err())
        .contains("is Ordinary"));
    assert!(guard_message(authorise(ApprovalMode::Governed, "c", "c").unwrap_err())
        .contains("needs a separate approver signature"));
    let e = verify_under(&Err(EvidenceError::Verify("bad".into())), "governed approver").unwrap_err();
    assert!(guard_message(e).contains("the governed approver signature"));
}

fn a_bundle() -> ApprovalBundleBytes {
    ApprovalBundleBytes {
        plan: b"plan: {}".to_vec(),
        approval: b"{}".to_vec(),
        approval_sidecar: b"{}".to_vec(),
        approver_key: b"PEM".to_vec(),
        allowed_clusters: b"[]".to_vec(),
    }
}

/// Goes through the gates, with what each is answered.
fn open(cli: Option<&str>, v: &ContractValues, digests: &BundleDigests, signer: Result<(), String>) -> Gate {
    let mut g = start(cli, &names(), v);
    let mut signer = Some(signer);
    loop {
        g = match g {
            Gate::Credentials { contract } => credentials_checked(contract, Ok(())),
            Gate::PinnedKey { contract } => key_checked(contract, Ok(())),
            Gate::Signer { contract } => signer_loaded(contract, signer.take().unwrap()),
            Gate::Bundle { contract } => bundle_read(contract, Ok(a_bundle())),
            Gate::Digests { contract, bundle } => {
                digests_taken(&contract, bundle, Some("approval/a"), digests)
            }
            Gate::PinnedBytes { bundle } => key_bytes_checked(bundle, Ok(())),
            Gate::Approval {
                spec_text,
                allowed_text,
                ..
            } => approval_checked(spec_text, allowed_text, approve(Ok(()), "sha256:aa", "x")),
            Gate::Parse { inputs } => plan_parsed(inputs, Ok(())),
            done => return done,
        };
    }
}

#[test]
fn a_run_starts_once_every_gate_is_passed() {
    for (cli, v) in [(None, no_values()), (Some("1"), values())] {
        match open(cli, &v, &digests(), Ok(())) {
            Gate::Open { inputs } => {
                assert_eq!(inputs.spec_text, "plan: {}");
                assert_eq!(inputs.allowed_text, "[]");
                assert_eq!(inputs.approved.approval.approver, "ann");
            }
            other => panic!("{other:?}"),
        }
    }
}

#[test]
fn a_run_that_a_gate_turns_away_does_not_start() {
    match open(None, &no_values(), &digests(), Err("no key".into())) {
        Gate::Refused(e) => {
            assert!(matches!(e, DrillError::SigningPrerequisite(_)));
            assert_eq!(e.exit_code(), ExitCode::SigningOrLock);
        }
        other => panic!("{other:?}"),
    }
    let mut swapped = digests();
    swapped.approver_key = "other".into();
    match open(Some("1"), &values(), &swapped, Ok(())) {
        Gate::Refused(e) => assert_eq!(e.exit_code(), ExitCode::GuardRefused),
        other => panic!("{other:?}"),
    }
}

#[test]
fn a_usage_error_is_operational_and_help_is_not_an_error() {
    assert_eq!(usage_code(true).code(), 1);
    assert_eq!(usage_code(false).code(), 0);
}

#[test]
fn a_schedule_is_approved_by_a_standing_authorization_alone() {
    let why = standing_refusal(true, false).unwrap();
    assert!(why.starts_with("--subject-kind RehearsalSchedule requires --standing"), "{why}");
    assert_eq!(standing_refusal(true, true), None);
    assert_eq!(standing_refusal(false, false), None);
    assert_eq!(standing_refusal(false, true), None);
}

#[test]
fn an_external_secret_takes_a_name_and_a_key() {
    let both = external_secret(Some("s".into()), Some("k".into()));
    assert_eq!(both, Some(("s".to_string(), "k".to_string())));
    assert_eq!(external_secret(Some("s".into()), None), None);
    assert_eq!(external_secret(None, Some("k".into())), None);
}

#[test]
fn a_failed_post_names_no_url() {
    assert_eq!(redact_ureq_error(PostFault::Status(503)), "status code 503");
    assert_eq!(redact_ureq_error(PostFault::Transport), "transport error");
}

fn nothing_read() -> ContextReads {
    ContextReads {
        plan: None,
        allowed: None,
        renderable: None,
        authenticated: None,
        connected: None,
        confined: None,
        connected_again: None,
        evidence: None,
        archive: None,
        engine_archive: None,
        workdir: None,
    }
}

/// Makes the clients of a run, each step as it is answered in `reads`; what is
/// still open is answered well.
fn clients(mut reads: ContextReads, asked: &mut Vec<String>) -> Result<Clients, DrillError> {
    let password = EnvValue::Text("pw".into());
    loop {
        match context("Refused", &password, "/tmp", 41, &reads) {
            Step::Done(r) => return r,
            Step::Ask(q) => {
                asked.push(format!("{q:?}"));
                match q {
                    ContextQuestion::ParsePlan => reads.plan = Some(Ok(())),
                    ContextQuestion::ParseAllowed => reads.allowed = Some(Ok(())),
                    ContextQuestion::Renderable => reads.renderable = Some(Ok(())),
                    ContextQuestion::Authenticate(given) => {
                        assert_eq!(given.as_deref(), Some("pw"));
                        reads.authenticated = Some(Ok(()))
                    }
                    ContextQuestion::Connect => reads.connected = Some(Ok(())),
                    ContextQuestion::Confine => reads.confined = Some(Ok(())),
                    ContextQuestion::ConnectAgain => reads.connected_again = Some(Ok(())),
                    ContextQuestion::OpenEvidence => reads.evidence = Some(Ok(())),
                    ContextQuestion::OpenArchive => reads.archive = Some(Ok(())),
                    ContextQuestion::OpenEngineArchive => reads.engine_archive = Some(Ok(())),
                    ContextQuestion::MakeWorkdir(dir) => {
                        assert_eq!(dir, "/tmp/logweir-41");
                        reads.workdir = Some(Ok(()))
                    }
                }
            }
        }
    }
}

#[test]
fn the_clients_of_a_run_are_made_in_order() {
    let mut asked = Vec::new();
    let made = clients(nothing_read(), &mut asked).unwrap();
    assert!(made.may_delete);
    assert_eq!(made.workdir, "/tmp/logweir-41");
    assert_eq!(asked.len(), 10);
    assert_eq!(asked[2], "Renderable");
    assert_eq!(asked[4], "Connect");
}

#[test]
fn a_prefix_that_confines_nothing_takes_deletion_away() {
    let mut reads = nothing_read();
    reads.confined = Some(Err("empty prefix".into()));
    let mut asked = Vec::new();
    let made = clients(reads, &mut asked).unwrap();
    assert!(!made.may_delete);
    assert!(asked.contains(&"ConnectAgain".to_string()), "{asked:?}");
}

#[test]
fn a_client_that_cannot_be_made_ends_the_start() {
    let failure = |reads: ContextReads| clients(reads, &mut Vec::new()).unwrap_err();
    let mut reads = nothing_read();
    reads.plan = Some(Err("line 1".into()));
    assert_eq!(failure(reads).message(), "operational: drill spec does not parse: line 1");
    let mut reads = nothing_read();
    reads.allowed = Some(Err("line 2".into()));
    assert_eq!(failure(reads).message(), "operational: allowed-clusters does not parse: line 2");
    let mut reads = nothing_read();
    reads.renderable = Some(Err("a control character".into()));
    assert_eq!(failure(reads).exit_code(), ExitCode::GuardRefused);
    let mut reads = nothing_read();
    reads.authenticated = Some(Err(KafkaError::Client("no password".into())));
    let unset = failure(reads);
    assert!(unset.message().contains("$LOGWEIR_TARGET_PASSWORD is unset"));
    assert_eq!(unset.exit_code(), ExitCode::Operational);
    let mut reads = nothing_read();
    reads.connected = Some(Err(KafkaError::Unreachable("no broker".into())));
    assert!(failure(reads).message().contains("no broker"));
    let mut reads = nothing_read();
    reads.workdir = Some(Err("read-only".into()));
    assert_eq!(failure(reads).message(), "operational: /tmp/logweir-41: read-only");
}

fn mounted(path: &str, bytes: Option<Result<Vec<u8>, String>>) -> MountedRead {
    MountedRead {
        path: path.into(),
        bytes,
    }
}

#[test]
fn the_mounted_inputs_are_read_in_order_each_once() {
    let mut m = MountedReads {
        plan: mounted("plan.yaml", None),
        approval: mounted("a.json", None),
        approval_sidecar: mounted("a.sig", None),
        approver_key: mounted("key.pem", None),
        allowed_clusters: mounted("allowed.json", None),
    };
    let mut order = Vec::new();
    let bundle = loop {
        match load_startup_inputs(&m) {
            Step::Done(r) => break r.unwrap(),
            Step::Ask(input) => {
                order.push(input);
                let read = match input {
                    MountedInput::Plan => &mut m.plan,
                    MountedInput::Approval => &mut m.approval,
                    MountedInput::ApprovalSidecar => &mut m.approval_sidecar,
                    MountedInput::ApproverKey => &mut m.approver_key,
                    MountedInput::AllowedClusters => &mut m.allowed_clusters,
                };
                read.bytes = Some(Ok(read.path.clone().into_bytes()));
            }
        }
    };
    assert_eq!(
        order,
        [
            MountedInput::Plan,
            MountedInput::Approval,
            MountedInput::ApprovalSidecar,
            MountedInput::ApproverKey,
            MountedInput::AllowedClusters,
        ]
    );
    assert_eq!(bundle.plan, b"plan.yaml");
    assert_eq!(bundle.approval_sidecar, b"a.sig");
    assert_eq!(bundle.allowed_clusters, b"allowed.json");
    m.approval_sidecar.bytes = Some(Err("not found".into()));
    match load_startup_inputs(&m) {
        Step::Done(Err(e)) => assert_eq!(e, "approval sidecar a.sig: not found"),
        other => panic!("{other:?}"),
    }
}

#[test]
fn an_approval_in_files_fails_on_the_first_that_cannot_be_read() {
    let paths = ApprovalPaths {
        approval: "a.json".into(),
        sidecar: "a.sig".into(),
        approver_key: "key.pem".into(),
    };
    let reads = ApprovalReads {
        sidecar_parses: None,
        key_id: None,
        signature: None,
        document: None,
        plan_hash: None,
        signing_key_id: None,
        now: None,
    };
    let mut files = ApprovalFiles {
        approval: None,
        sidecar: Some(Err("gone".into())),
        approver_key: Some(Err("gone".into())),
    };
    let failure = |files: &ApprovalFiles| match verify(&paths, files, &reads) {
        Step::Done(Err(e)) => e.message(),
        other => panic!("{other:?}"),
    };
    assert!(matches!(
        verify(&paths, &files, &reads),
        Step::Ask(ApprovalFileQuestion::ReadApproval)
    ));
    files.approval = Some(Err("gone".into()));
    assert_eq!(failure(&files), "operational: a.json: gone");
    files.approval = Some(Ok(vec![]));
    assert_eq!(failure(&files), "operational: no DSSE sidecar at a.sig");
    files.sidecar = Some(Ok(vec![]));
    assert_eq!(failure(&files), "operational: key.pem: gone");
    files.approver_key = Some(Ok(vec![]));
    assert!(matches!(
        verify(&paths, &files, &reads),
        Step::Ask(ApprovalFileQuestion::Bytes(ApprovalQuestion::ParseSidecar))
    ));
}
