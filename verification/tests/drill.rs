//! How a run ends, what it says, and who is told.
use logweir::clock::Timestamp;
use logweir::drill::draft::{assert_engine_identity, new_scorecard, target_info, EngineId};
use logweir::drill::error::{DrillError, GuardRefusal};
use logweir::drill::facts::BackupSetRef;
use logweir::drill::notify::{
    dedup_key, failure_dedup_key, notify, notify_body, notify_failure, pagerduty_endpoint, Page,
    PageDetails, PAGERDUTY_US_ENDPOINT,
};
use logweir::drill::phase0_admit::{topic_mapping, Admitted, TopicPreflight};
use logweir::drill::plan::pick_backup_set;
use logweir::drill::report::{
    artifact_path, exiting, log_directive, print_deprecation_to, report, summary_line, InvokedAs,
    MetricsRecord, Report, DEFAULT_LOG_DIRECTIVE, DRILL_RUN_DEPRECATION,
};
use logweir::drill::run::{EvidenceKeys, RestoreOutcome};
use logweir::drill::scorecard::{Outcome, PhaseRecord, Scorecard};
use logweir::drill::spec::{
    Anchor, AuthSpec, DrillSpec, Notifications, ObjectivesSpec, SampleSpec, SourceSpec, TargetMode,
    TargetSpec,
};
use logweir::exit::ExitCode;

fn ts(s: &str) -> Timestamp {
    let t = chrono::DateTime::parse_from_rfc3339(s).unwrap();
    Timestamp::new(t.timestamp(), t.timestamp_subsec_nanos()).unwrap()
}

fn a_spec() -> DrillSpec {
    DrillSpec {
        name: None,
        source: SourceSpec {
            storage: "filesystem:/a".into(),
            backup: "latestCompleted".into(),
            topics: vec!["orders".into()],
            point: None,
        },
        target: TargetSpec {
            bootstrap_servers: vec!["x:9092".into()],
            auth: AuthSpec::Plaintext,
            mode: TargetMode::Scratch,
            marker_topic: "logweir.scratch".into(),
            topic_mapping_prefix: "drill-".into(),
            default_replication_factor: 1,
            teardown: "delete".into(),
        },
        sample: SampleSpec {
            window_start: ts("2026-01-01T00:00:00Z"),
            window_end: ts("2026-01-02T00:00:00Z"),
            records_per_partition: 25,
            anchor: Anchor::Head,
            max_partitions: None,
        },
        point_in_time: None,
        objectives: ObjectivesSpec {
            rto_seconds: None,
            rpo_seconds: None,
            pass_rate_bits: None,
        },
        notifications: Notifications {
            webhooks: vec![],
            slack_webhook: None,
            pagerduty_routing_key: None,
            pagerduty_endpoint: None,
        },
    }
}

fn spec_with_a_routing_key() -> DrillSpec {
    let mut spec = a_spec();
    spec.name = Some("nightly".into());
    spec.notifications.pagerduty_routing_key = Some("R0FAKEFAKEFAKEFAKEFAKEFAKEFAKE0".into());
    spec
}

fn an_engine() -> EngineId {
    EngineId {
        id: "oso".into(),
        version: "0.21.0".into(),
        digest: "sha256:ee".into(),
    }
}

fn a_phase(phase: i8, outcome: &str, notes: Vec<String>) -> PhaseRecord {
    PhaseRecord {
        phase,
        name: "p".into(),
        at: ts("2026-01-03T00:00:00Z"),
        outcome: outcome.into(),
        duration_ms: 1,
        notes,
    }
}

fn a_scorecard() -> Scorecard {
    let mut sc = new_scorecard(
        "01TEST",
        "1.0.0",
        &None,
        &an_engine(),
        &a_spec(),
        ts("2026-01-03T00:00:00Z"),
    );
    sc.outcome = Outcome::Pass;
    for phase in 0..8 {
        sc.phases.push(a_phase(phase, "ok", vec![]));
    }
    sc.last_phase_completed = 7;
    sc
}

fn a_preflight() -> TopicPreflight {
    TopicPreflight {
        timestamp_type: "CreateTime".into(),
        retention_ms: "-1".into(),
        timestamp_bound_ms: None,
        configs_set: Vec::new(),
        topics_created: Vec::new(),
    }
}

fn an_outcome() -> RestoreOutcome {
    let sc = a_scorecard();
    let run_id = sc.run_id.clone();
    RestoreOutcome {
        scorecard: sc,
        topic_preflight: a_preflight(),
        evidence: EvidenceKeys {
            scorecard_key: format!("logweir/drills/{run_id}.json"),
            sidecar_key: format!("logweir/drills/{run_id}.sig"),
            offset_report_key: Some(format!("logweir/drills/{run_id}.offsets.json")),
        },
    }
}

fn not_pass() -> DrillError {
    let mut sc = a_scorecard();
    sc.outcome = Outcome::FailIntegrity;
    DrillError::NotPass(Box::new(sc))
}

fn representative(code: ExitCode) -> Result<RestoreOutcome, DrillError> {
    match code {
        ExitCode::Success => Ok(an_outcome()),
        ExitCode::DrillNotPass => Err(not_pass()),
        ExitCode::Operational => Err(DrillError::Operational("x".into())),
        ExitCode::GuardRefused => Err(DrillError::Guard(GuardRefusal("x".into()))),
        ExitCode::SigningOrLock => Err(DrillError::SigningOrLock("x".into())),
    }
}

const CODES: [ExitCode; 5] = [
    ExitCode::Success,
    ExitCode::Operational,
    ExitCode::DrillNotPass,
    ExitCode::GuardRefused,
    ExitCode::SigningOrLock,
];

/// The file that a report records to, where it records anything.
fn recorded(r: &Report) -> Option<&str> {
    match &r.metrics {
        None => None,
        Some(MetricsRecord::Document(p)) | Some(MetricsRecord::Minimal(p)) => Some(p.as_str()),
    }
}

#[test]
fn finish_writes_no_metrics_file_when_the_flag_is_absent() {
    let r = report(&None, &Ok(an_outcome()), false);
    assert!(
        recorded(&r).is_none(),
        "no --metrics-file means no file, not a default path"
    );
}

#[test]
fn no_terminal_path_invents_a_metrics_file_when_the_flag_is_absent() {
    for code in CODES {
        let r = report(&None, &representative(code), false);
        assert!(recorded(&r).is_none());
    }
}

#[test]
fn a_failed_metrics_write_is_swallowed_and_never_moves_the_exit_code() {
    for code in CODES {
        let with = report(&Some("not-a-directory/logweir.prom".into()), &representative(code), false);
        let without = report(&None, &representative(code), false);
        assert_eq!(with.code, code);
        assert_eq!(
            with.code, without.code,
            "the code is decided before anything is written, and the write has no way back"
        );
    }
}

#[test]
fn the_summary_line_names_the_run_the_outcome_and_the_last_phase() {
    let mut sc = a_scorecard();
    sc.outcome = Outcome::PreflightFailed;
    sc.phases.truncate(6);
    sc.last_phase_completed = 5;
    let line = summary_line(&sc);
    assert!(line.contains(&sc.run_id), "{line}");
    assert!(line.contains("preflight-failed"), "{line}");
    assert!(line.contains("5"), "{line}");
}

#[test]
fn a_drill_result_reports_exit_2_and_an_operational_failure_reports_exit_1() {
    let file = |name: &str| Some(name.to_string());

    let pass = report(&file("pass.prom"), &Ok(an_outcome()), false);
    assert_eq!(pass.code, ExitCode::Success);
    assert!(
        matches!(&pass.metrics, Some(MetricsRecord::Document(p)) if p == "pass.prom"),
        "a pass writes its metrics"
    );

    let notpass = report(&file("notpass.prom"), &Err(not_pass()), false);
    assert_eq!(
        notpass.code,
        ExitCode::DrillNotPass,
        "a drill that ran and did not pass is exit 2, never exit 1: the \
         signed scorecard exists and an operator has to be told to read it"
    );
    assert!(
        matches!(&notpass.metrics, Some(MetricsRecord::Document(p)) if p == "notpass.prom"),
        "exit 2 owes the same metrics a pass does — it is a real result"
    );

    let op = report(
        &file("operational.prom"),
        &Err(DrillError::Operational("broker unreachable".into())),
        false,
    );
    assert_eq!(op.code, ExitCode::Operational);
    assert!(
        matches!(&op.metrics, Some(MetricsRecord::Minimal(p)) if p == "operational.prom"),
        "exit 1 must leave a minimal textfile"
    );

    for (e, want, name) in [
        (
            DrillError::Guard(GuardRefusal("x".into())),
            ExitCode::GuardRefused,
            "guard.prom",
        ),
        (
            DrillError::SigningOrLock("x".into()),
            ExitCode::SigningOrLock,
            "signing.prom",
        ),
    ] {
        let r = report(&file(name), &Err(e), false);
        assert_eq!(r.code, want);
        assert!(
            matches!(&r.metrics, Some(MetricsRecord::Minimal(p)) if p == name),
            "exit {} leaves no scorecard, which is exactly why it owes a record",
            want.code()
        );
    }
}

/// The exit code that the minimal record of an ending carries.
fn minimal_record(file: &str, e: DrillError) -> u8 {
    let r = report(&Some(file.to_string()), &Err(e), false);
    assert!(
        matches!(&r.metrics, Some(MetricsRecord::Minimal(p)) if p == file),
        "{:?}",
        r.metrics
    );
    r.code.code()
}

#[test]
fn metrics_written_on_operational_failure() {
    let e = DrillError::Operational("broker unreachable".into());
    assert_eq!(e.exit_code(), ExitCode::Operational);
    assert_eq!(minimal_record("op.prom", e), 1, "exit 1 must leave a minimal textfile");
}

#[test]
fn metrics_written_on_guard_refusal() {
    let e = DrillError::Guard(GuardRefusal("x".into()));
    assert_eq!(e.exit_code(), ExitCode::GuardRefused);
    assert_eq!(minimal_record("guard.prom", e), 3, "exit 3 must leave a minimal textfile");
}

#[test]
fn metrics_written_on_signing_failure() {
    let e = DrillError::SigningOrLock("x".into());
    assert_eq!(e.exit_code(), ExitCode::SigningOrLock);
    assert_eq!(minimal_record("signing.prom", e), 4, "exit 4 must leave a minimal textfile");
}

#[test]
fn metrics_terminal_paths_are_exhaustive() {
    for code in CODES {
        let p = format!("exit-{}.prom", code.code());
        let r = report(&Some(p.clone()), &representative(code), false);
        assert_eq!(r.code, code);
        assert_eq!(
            recorded(&r),
            Some(p.as_str()),
            "exit {} is a terminal path and left no metrics record at all",
            code.code()
        );
    }
}

#[test]
fn a_pinned_backup_id_the_archive_does_not_hold_is_refused_never_substituted() {
    let sets: Vec<BackupSetRef> = ["older", "newest"]
        .iter()
        .map(|b| BackupSetRef {
            backup_id: (*b).into(),
            manifest_key: format!("{b}/manifest"),
        })
        .collect();

    assert_eq!(
        pick_backup_set(&sets, &"latestCompleted".to_string()).unwrap().backup_id,
        "newest",
        "latestCompleted takes the last set list_backup_sets returns"
    );
    assert_eq!(
        pick_backup_set(&sets, &"older".to_string()).unwrap().backup_id,
        "older"
    );
    let e = pick_backup_set(&sets, &"a-backup-that-was-deleted".to_string()).unwrap_err();
    assert!(
        matches!(&e, DrillError::Operational(m)
                 if m.contains("a-backup-that-was-deleted") && m.contains("refusing to fall back")),
        "the refusal must name the missing id: {e:?}"
    );
}

#[test]
fn every_exit_code_logs_a_distinct_meaning() {
    let mut seen: Vec<u8> = Vec::new();
    let mut meanings: Vec<&str> = Vec::new();
    for c in CODES {
        seen.push(c.code());
        meanings.push(c.meaning());
    }
    seen.sort_unstable();
    seen.dedup();
    assert_eq!(seen, vec![0, 1, 2, 3, 4]);
    meanings.sort_unstable();
    meanings.dedup();
    assert_eq!(meanings.len(), 5);
    assert_eq!(
        ExitCode::SigningOrLock.meaning(),
        "signing readiness failed or the drill result is unattested; nothing uploaded"
    );
}

/// What is sent, where anything is.
fn pages(spec: Option<&DrillSpec>, outcome: &Result<RestoreOutcome, DrillError>) -> (ExitCode, Vec<Page>) {
    let r = report(&None, outcome, spec.is_some());
    let mut posts = Vec::new();
    if let (true, Some(message), Some(s)) = (r.tell, &r.failure, spec) {
        let p = notify_failure(&s.notifications, s.name.as_deref(), "01TEST", r.code, message);
        if matches!(p, Page::Send { .. }) {
            posts.push(p);
        }
    }
    (r.code, posts)
}

#[test]
fn report_pages_on_an_operational_failure() {
    let spec = spec_with_a_routing_key();
    let (code, posts) = pages(
        Some(&spec),
        &Err(DrillError::Operational("broker unreachable".into())),
    );
    assert_eq!(
        code,
        ExitCode::Operational,
        "the notification must not touch the exit code"
    );
    assert_eq!(posts.len(), 1, "exit 1 left no page: {posts:?}");
    match &posts[0] {
        Page::Send { url, event } => {
            assert_eq!(url, PAGERDUTY_US_ENDPOINT);
            assert_eq!(event.event_action, "trigger");
            assert_eq!(event.dedup_key, failure_dedup_key(Some("nightly")));
            assert_eq!(event.routing_key, "R0FAKEFAKEFAKEFAKEFAKEFAKEFAKE0");
            match &event.custom_details {
                PageDetails::Failure {
                    run_id, exit_code, ..
                } => assert_eq!((run_id.as_str(), *exit_code), ("01TEST", 1)),
                other => panic!("{other:?}"),
            }
        }
        other => panic!("{other:?}"),
    }
}

#[test]
fn report_pages_only_where_there_is_no_scorecard() {
    let spec = spec_with_a_routing_key();
    for outcome in [
        Ok(an_outcome()),
        Err(DrillError::NotPass(Box::new(a_scorecard()))),
    ] {
        let (_, posts) = pages(Some(&spec), &outcome);
        assert!(
            posts.is_empty(),
            "a drill RESULT was paged from `report`; phase 8 already notified with the \
             scorecard in hand, and this would be a second, scorecard-less page for one \
             drill"
        );
    }

    let (code, posts) = pages(None, &Err(DrillError::Operational("spec unreadable".into())));
    assert_eq!(code, ExitCode::Operational);
    assert!(posts.is_empty());

    let (code, posts) = pages(
        Some(&spec),
        &Err(DrillError::SigningPrerequisite("invalid key".into())),
    );
    assert_eq!(code, ExitCode::SigningOrLock);
    assert!(
        posts.is_empty(),
        "signer prerequisite diagnostics are local-only even if a caller incorrectly supplies \
         notification configuration"
    );
}

#[test]
fn the_target_block_carries_the_mode_and_the_marker_topic_only_in_scratch() {
    let mut spec = a_spec();
    let admitted = Admitted {
        target_cluster_id: "CLUSTER00000000000000AA".into(),
        topic_mapping: topic_mapping(&vec!["orders".to_string()], "drill-"),
        topic_mapping_prefix: "drill-".into(),
        topic_preflight: a_preflight(),
    };
    let digest: Result<String, String> = Ok("sha256:00".into());

    let t = target_info(&spec, &admitted, &digest).expect("the scratch target block");
    assert_eq!(t.mode, TargetMode::Scratch);
    assert_eq!(t.marker_topic.as_deref(), Some("logweir.scratch"));
    assert_eq!(t.cluster_id, "CLUSTER00000000000000AA");
    assert_eq!(t.topic_mapping_entries, 1);

    spec.target.mode = TargetMode::NewTopic;
    let t = target_info(&spec, &admitted, &digest).expect("the newTopic target block");
    assert_eq!(t.mode, TargetMode::NewTopic);
    assert_eq!(
        t.marker_topic, None,
        "a newTopic run verified no marker topic, so its document names none"
    );
}

#[test]
fn late_plan_replacement_cannot_change_the_notification_destination() {
    let mut authenticated = spec_with_a_routing_key();
    authenticated.notifications.pagerduty_endpoint =
        Some("https://trusted-notify.example/events".into());
    let mut substituted = spec_with_a_routing_key();
    substituted.notifications.pagerduty_endpoint =
        Some("https://substituted.example/events".into());
    let (code, posts) = pages(
        Some(&authenticated),
        &Err(DrillError::Operational("post-auth startup failure".into())),
    );
    assert_eq!(code, ExitCode::Operational);
    assert_eq!(posts.len(), 1);
    match &posts[0] {
        Page::Send { url, .. } => {
            assert_eq!(url, "https://trusted-notify.example/events");
            assert_ne!(Some(url), substituted.notifications.pagerduty_endpoint.as_ref());
        }
        other => panic!("{other:?}"),
    }
}

// ---- the rest of what is said ------------------------------------------------------------

#[test]
fn only_the_older_name_prints_its_line() {
    let mut w = String::from("before\n");
    print_deprecation_to(&mut w, InvokedAs::Restore);
    assert_eq!(w, "before\n");
    print_deprecation_to(&mut w, InvokedAs::DrillAlias);
    assert_eq!(w, format!("before\n{DRILL_RUN_DEPRECATION}\n"));
}

#[test]
fn only_a_pass_names_its_keys_and_names_them_last() {
    let keys = an_outcome().evidence;
    assert_eq!(
        exiting(ExitCode::Success, "", Some("topic-preflight=x"), Some(&keys)),
        [
            "topic-preflight=x",
            "scorecard-key=logweir/drills/01TEST.json",
            "sidecar-key=logweir/drills/01TEST.sig",
            "offset-report-key=logweir/drills/01TEST.offsets.json"
        ]
    );
    assert_eq!(
        exiting(ExitCode::GuardRefused, "refusal-reason=GuardRefused", None, None),
        ["refusal-reason=GuardRefused"]
    );
    assert!(exiting(ExitCode::Operational, "", None, Some(&keys)).is_empty());
}

#[test]
fn a_summary_speaks_of_what_a_teardown_left() {
    let mut sc = a_scorecard();
    sc.phases.push(a_phase(8, "ok", vec![]));
    assert!(summary_line(&sc).contains("last phase completed 7 (as signed"));
    assert!(!summary_line(&sc).contains("teardown left"));
}

#[test]
fn a_blank_log_filter_is_no_log_filter() {
    assert_eq!(log_directive(None), DEFAULT_LOG_DIRECTIVE);
    assert_eq!(log_directive(Some(" \t")), DEFAULT_LOG_DIRECTIVE);
    assert_eq!(log_directive(Some("debug")), "debug");
    assert!(DEFAULT_LOG_DIRECTIVE.starts_with("info,"));
    assert!(DEFAULT_LOG_DIRECTIVE.split(',').skip(1).all(|d| d.ends_with("=warn")));
}

#[test]
fn an_artifact_stands_where_it_was_asked_for() {
    assert_eq!(artifact_path(&Some("out/s.json".into()), "r"), "out/s.json");
    assert_eq!(artifact_path(&None, "r"), "./logweir-r.json");
}

#[test]
fn a_page_goes_only_over_tls() {
    let mut n = spec_with_a_routing_key().notifications;
    assert_eq!(pagerduty_endpoint(&n).as_deref(), Ok(PAGERDUTY_US_ENDPOINT));
    n.pagerduty_endpoint = Some("http://plain.example/secret-path".into());
    let why = pagerduty_endpoint(&n).unwrap_err();
    assert!(why.contains("`http`"), "{why}");
    assert!(!why.contains("secret-path"), "{why}");
    match notify_failure(&n, Some("nightly"), "01TEST", ExitCode::Operational, "m") {
        Page::Silenced { dedup_key, .. } => assert_eq!(dedup_key, failure_dedup_key(Some("nightly"))),
        other => panic!("{other:?}"),
    }
    n.pagerduty_routing_key = None;
    assert!(matches!(
        notify_failure(&n, None, "01TEST", ExitCode::Operational, "m"),
        Page::NotAsked
    ));
}

#[test]
fn a_refused_page_address_shows_its_scheme_and_nothing_else() {
    let refused = |address: &str| {
        let mut n = spec_with_a_routing_key().notifications;
        n.pagerduty_endpoint = Some(address.into());
        pagerduty_endpoint(&n).unwrap_err()
    };
    for (address, shown) in [
        ("http://hooks.example/k3y", "`http`"),
        ("svn+ssh://k3y", "`svn+ssh`"),
        ("hooks.example/k3y?next=http://x", "`<no scheme>`"),
        ("k3y@hooks.example://x", "`<no scheme>`"),
        ("9k3y://x", "`<no scheme>`"),
        ("://k3y", "`<no scheme>`"),
        ("hooks.example/k3y", "`<no scheme>`"),
        ("", "`<no scheme>`"),
    ] {
        let why = refused(address);
        assert!(why.contains(shown), "{address}: {why}");
        assert!(!why.contains("k3y"), "{address}: {why}");
    }
}

#[test]
fn an_unnamed_drill_goes_by_twelve_characters_of_its_digest() {
    let key = |digest: &str| {
        let mut sc = a_scorecard();
        sc.target.cluster_id = "C".into();
        sc.approval.plan_hash = digest.into();
        dedup_key(None, &sc)
    };
    assert_eq!(key("sha256:0123456789abcdef"), key("sha256:0123456789abffff"));
    assert!(key("sha256:0123456789abcdef").contains("0123456789ab"));
    assert_ne!(key("sha256:0123456789abcdef"), key("sha256:0123456789aacdef"));
    let unnamed = key("sha256:");
    assert!(unnamed.contains("unnamed"), "{unnamed}");
    assert_eq!(key("sha256:0123456789a"), unnamed);
    assert_eq!(key("sha256:éééééé"), unnamed, "six characters, however many bytes");
    assert!(key("sha256:éééééééééééé").contains("éééééééééééé"));
}

#[test]
fn a_drill_and_its_failure_are_different_incidents() {
    let mut sc = a_scorecard();
    sc.target.cluster_id = "CLUSTER00000000000000AA".into();
    let a = dedup_key(Some("nightly"), &sc);
    assert_ne!(a, failure_dedup_key(Some("nightly")));
    assert_ne!(a, dedup_key(Some("weekly"), &sc));
    assert_ne!(failure_dedup_key(Some("nightly")), failure_dedup_key(Some("weekly")));
}

#[test]
fn a_result_is_told_to_everyone_that_the_plan_names() {
    let mut spec = spec_with_a_routing_key();
    spec.notifications.webhooks = vec!["https://a.example".into()];
    spec.notifications.slack_webhook = Some("https://s.example".into());
    let mut sc = a_scorecard();
    sc.outcome = Outcome::FailObjective;
    let r = notify(&spec.notifications, spec.name.as_deref(), &sc);
    assert_eq!(r.sinks, ["https://a.example", "https://s.example"]);
    assert_eq!(r.body.outcome, Outcome::FailObjective);
    assert_eq!(notify_body(&sc).run_id, "01TEST");
    assert!(matches!(r.page, Page::Send { .. }), "{:?}", r.page);
}

#[test]
fn an_engine_that_does_not_name_its_image_is_refused() {
    assert!(assert_engine_identity(&an_engine()).is_ok());
    let mut unnamed = an_engine();
    unnamed.version = " ".into();
    assert!(assert_engine_identity(&unnamed)
        .unwrap_err()
        .message()
        .contains("LOGWEIR_ENGINE_VERSION"));
    let mut undigested = an_engine();
    undigested.digest = String::new();
    assert!(assert_engine_identity(&undigested)
        .unwrap_err()
        .message()
        .contains("LOGWEIR_ENGINE_DIGEST"));
}

#[test]
fn every_error_has_its_code_and_its_words() {
    for (e, code) in [
        (DrillError::Operational("m".into()), ExitCode::Operational),
        (DrillError::Guard(GuardRefusal("m".into())), ExitCode::GuardRefused),
        (DrillError::SigningOrLock("m".into()), ExitCode::SigningOrLock),
        (DrillError::SigningPrerequisite("m".into()), ExitCode::SigningOrLock),
        (
            DrillError::Kafka(logweir::drill::error::KafkaError::Unreachable("m".into())),
            ExitCode::Operational,
        ),
        (
            DrillError::Engine(logweir::drill::error::EngineError::Unsupported("m".into())),
            ExitCode::Operational,
        ),
        (not_pass(), ExitCode::DrillNotPass),
    ] {
        assert_eq!(e.exit_code(), code, "{e:?}");
        assert!(!e.message().is_empty());
        assert_eq!(ExitCode::from(e), code);
    }
}

struct Nowhere;

impl tracing::Callsite for Nowhere {
    fn set_interest(&self, _: tracing::subscriber::Interest) {}

    fn metadata(&self) -> &tracing::Metadata<'_> {
        unreachable!()
    }
}

/// Whether an event passes the filter of the default directive.
fn passes(target: &str, level: tracing::Level) -> bool {
    let filter = tracing_subscriber::EnvFilter::new(DEFAULT_LOG_DIRECTIVE);
    let subscriber = tracing_subscriber::fmt()
        .json()
        .with_env_filter(filter)
        .finish();
    let fields = tracing::field::FieldSet::new(&[], tracing::callsite::Identifier(&Nowhere));
    let event = tracing::Metadata::new(
        "event",
        target,
        level,
        None,
        None,
        None,
        fields,
        tracing::metadata::Kind::EVENT,
    );
    tracing::Subscriber::enabled(&subscriber, &event)
}

#[test]
fn a_dependency_info_event_is_filtered_at_the_default_directive() {
    for target in [
        "h2::client",
        "object_store::aws",
        "hyper_util::client::pool",
        "rustls::client::hs",
        "rdkafka::client",
        "ureq::stream",
    ] {
        assert!(
            !passes(target, tracing::Level::INFO),
            "an INFO event of {target} reached the default stream"
        );
    }
    assert!(
        passes("logweir::drill", tracing::Level::INFO),
        "narrowing must not silence our own INFO lines"
    );
    assert!(
        passes("h2::client", tracing::Level::WARN),
        "a dependency at WARN is quieted, not muted"
    );
}
