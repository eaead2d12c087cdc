//! The phases between a plan and its verdict, one by one.
use logweir::clock::Timestamp;
use logweir::drill::error::{DrillError, EngineError, GuardRefusal, KafkaError};
use logweir::drill::facts::{
    BackupSetFacts, BackupSetRef, PartitionFacts, SegmentFacts, TopicFacts, TopicMeta,
};
use logweir::drill::persist::{persist, PersistQuestion, PersistReads};
use logweir::drill::phase0_admit::topic_mapping;
use logweir::drill::phase2_target::{
    self, TargetQuestion, TargetReads, TargetState, TopicRead, TopicState,
};
use logweir::drill::phase3_diff::{self, restore_partition_count};
use logweir::drill::phase4_sample;
use logweir::drill::phase5_preflight::{
    adjudicate, check_floor, check_rendered_window_floor, CoverageState, PartitionCoverage,
    PreflightReport, Verdict,
};
use logweir::drill::phase6_restore::{
    self, assert_post_condition, RestoreFacts, RestoreQuestion, RestoreReads,
};
use logweir::drill::phase8_score::{
    compute_measured, decide, matrix_verdict_for, persist_put_receipt, put_receipt_at, Signed,
    Timeline,
};
use logweir::drill::phase9_teardown::{
    failed_topic_names, failure_notes, run_at, teardown_warning,
};
use logweir::drill::plan::{
    build_plan, build_plan_with_floor, earliest_covered_timestamp_ms, run_workdir, WindowFloor,
    WindowFloorSource,
};
use logweir::drill::record::{phase_duration, record, record_phase, set_notes, Stamp};
use logweir::drill::scorecard::{
    Integrity, IntegrityLevel, IntegrityResult, MatrixVerdict, Measured, Outcome, PassRate,
    Scorecard,
};
use logweir::drill::spec::{
    Anchor, AuthSpec, DrillSpec, Notifications, ObjectivesSpec, SampleSpec, SourceSpec, TargetMode,
    TargetSpec,
};
use logweir::drill::step::Step;
use logweir::namemap::NameMap;
use logweir::textmap::TextMap;

fn at(secs: i64) -> Timestamp {
    Timestamp::new(secs, 0).unwrap()
}

fn a_spec() -> DrillSpec {
    DrillSpec {
        name: None,
        source: SourceSpec {
            storage: "filesystem:/a".into(),
            backup: "latestCompleted".into(),
            topics: vec!["orders".into()],
            point: None,
        },
        target: TargetSpec {
            bootstrap_servers: vec!["x:9092".into()],
            auth: AuthSpec::Plaintext,
            mode: TargetMode::Scratch,
            marker_topic: "logweir.scratch".into(),
            topic_mapping_prefix: "drill-".into(),
            default_replication_factor: 1,
            teardown: "delete".into(),
        },
        sample: SampleSpec {
            window_start: at(0),
            window_end: at(100),
            records_per_partition: 25,
            anchor: Anchor::Head,
            max_partitions: None,
        },
        point_in_time: None,
        objectives: ObjectivesSpec {
            rto_seconds: None,
            rpo_seconds: None,
            pass_rate_bits: None,
        },
        notifications: Notifications {
            webhooks: vec![],
            slack_webhook: None,
            pagerduty_routing_key: None,
            pagerduty_endpoint: None,
        },
    }
}

fn segment(start: i64, end: i64, records: i64) -> SegmentFacts {
    SegmentFacts {
        key: format!("k{start}"),
        start_offset: start,
        end_offset: end,
        start_timestamp: start * 1000,
        end_timestamp: end * 1000,
        record_count: records,
        sha256: String::new(),
    }
}

fn partition(id: i32, segments: Vec<SegmentFacts>) -> PartitionFacts {
    PartitionFacts {
        partition_id: id,
        segments,
        gaps: vec![],
        pruned: vec![],
    }
}

fn facts_with(partitions: Vec<PartitionFacts>) -> BackupSetFacts {
    BackupSetFacts {
        backup_id: "b".into(),
        manifest_sha256: "sha256:0".into(),
        manifest_version_id: None,
        topics: vec![TopicFacts {
            name: "orders".into(),
            original_partition_count: None,
            source_replication_factor: None,
            configurations: TextMap::new(),
            partitions,
        }],
    }
}

fn a_set() -> BackupSetRef {
    BackupSetRef {
        backup_id: "b".into(),
        manifest_key: "b/m".into(),
    }
}

fn named<T>(entries: Vec<(&str, T)>) -> NameMap<T> {
    let mut map = NameMap::new();
    for (name, value) in entries {
        map.insert(name.to_string(), value);
    }
    map
}

fn orders() -> TextMap {
    topic_mapping(&vec!["orders".to_string()], "drill-")
}

#[test]
fn only_topics_of_interest_that_are_there_are_read() {
    let listed = vec![
        TopicMeta {
            name: "drill-orders".into(),
            partitions: 2,
            error: None,
        },
        TopicMeta {
            name: "other".into(),
            partitions: 1,
            error: None,
        },
    ];
    let wanted = vec!["drill-absent".to_string(), "drill-orders".to_string()];
    match phase2_target::state_of("C", &wanted, &listed, &vec![]) {
        Step::Ask(name) => assert_eq!(name, "drill-orders"),
        other => panic!("{other:?}"),
    }
    let reads = vec![TopicRead {
        end_offsets: vec![(0, 3), (1, 4)],
        configs: TextMap::new(),
    }];
    match phase2_target::state_of("C", &wanted, &listed, &reads) {
        Step::Done(Ok(state)) => {
            assert_eq!(state.cluster_id, "C");
            assert_eq!(state.topics.len(), 1);
            assert_eq!(state.topics.name(0), "drill-orders");
            assert_eq!(state.topics.value(0).end_offsets, vec![(0, 3), (1, 4)]);
        }
        other => panic!("{other:?}"),
    }
}

#[test]
fn a_topic_that_is_asked_for_twice_is_there_once_as_it_was_read_last() {
    let listed = vec![
        TopicMeta {
            name: "b".into(),
            partitions: 2,
            error: None,
        },
        TopicMeta {
            name: "a".into(),
            partitions: 1,
            error: None,
        },
    ];
    let wanted = vec!["b".to_string(), "a".to_string(), "b".to_string()];
    let read = |end: i64| TopicRead {
        end_offsets: vec![(0, end)],
        configs: TextMap::new(),
    };
    match phase2_target::state_of("C", &wanted, &listed, &vec![read(1), read(2)]) {
        Step::Ask(name) => assert_eq!(name, "b"),
        other => panic!("{other:?}"),
    }
    match phase2_target::state_of("C", &wanted, &listed, &vec![read(1), read(2), read(3)]) {
        Step::Done(Ok(state)) => {
            assert_eq!(state.topics.len(), 2);
            assert_eq!((state.topics.name(0), state.topics.name(1)), ("a", "b"));
            assert_eq!(state.topics.value(0).end_offsets, vec![(0, 2)]);
            assert_eq!(state.topics.value(1).end_offsets, vec![(0, 3)]);
            assert_eq!(state.topics.get("b").map(|t| t.partitions), Some(2));
            assert!(state.topics.get("c").is_none());
        }
        other => panic!("{other:?}"),
    }
    let mut shared = TextMap::new();
    shared.insert("x".into(), "t".into());
    shared.insert("y".into(), "t".into());
    let facts = RestoreFacts {
        started_at: at(1),
        finished_at: at(2),
        unknown_key_warnings: vec![],
    };
    match phase6_restore::judge(&shared, &facts, &vec![vec![(0, 4)], vec![(0, 5)]]) {
        Step::Done(Ok(r)) => {
            assert_eq!(r.restored_end_offsets.len(), 1);
            assert_eq!(r.restored_end_offsets.get("t"), Some(&vec![(0, 5)]));
        }
        other => panic!("{other:?}"),
    }
}

#[test]
fn a_topic_that_cannot_be_read_is_never_passed_over() {
    let meta = |name: &str, error: Option<&str>| TopicMeta {
        name: name.into(),
        partitions: 1,
        error: error.map(|e| e.into()),
    };
    let read = || TopicRead {
        end_offsets: vec![(0, 1)],
        configs: TextMap::new(),
    };
    let wanted = vec!["drill-a".to_string(), "drill-b".to_string(), "other".to_string()];
    let listed = vec![
        meta("drill-a", None),
        meta("drill-b", Some("no leader")),
        meta("drill-c", Some("not of interest")),
    ];
    match phase2_target::state_of("C", &wanted, &listed, &vec![]) {
        Step::Ask(name) => assert_eq!(name, "drill-a"),
        other => panic!("{other:?}"),
    }
    for reads in [vec![read()], vec![read(), read()], vec![read(), read(), read()]] {
        match phase2_target::state_of("C", &wanted, &listed, &reads) {
            Step::Done(Err(e)) => {
                assert!(e.message().contains("drill-b"), "{e:?}");
                assert!(e.message().contains("no leader"), "{e:?}");
            }
            other => panic!("{other:?}"),
        }
    }
}

#[test]
fn a_failure_of_the_cluster_ends_the_reading_of_the_target() {
    let wanted = vec!["drill-orders".to_string()];
    let mut reads = TargetReads {
        cluster_id: Some(Err(KafkaError::Unreachable("no broker".into()))),
        listed: None,
        topics: vec![],
        failed: None,
    };
    let failure = |reads: &TargetReads| match phase2_target::run(&wanted, reads) {
        Step::Done(Err(e)) => e.message(),
        other => panic!("{other:?}"),
    };
    assert!(failure(&reads).contains("no broker"));
    reads.cluster_id = Some(Ok("C".into()));
    assert!(matches!(
        phase2_target::run(&wanted, &reads),
        Step::Ask(TargetQuestion::Topics)
    ));
    reads.listed = Some(Err(KafkaError::Client("listing".into())));
    assert!(failure(&reads).contains("listing"));
    reads.listed = Some(Ok(vec![TopicMeta {
        name: "drill-orders".into(),
        partitions: 1,
        error: None,
    }]));
    assert!(matches!(
        phase2_target::run(&wanted, &reads),
        Step::Ask(TargetQuestion::Topic(name)) if name == "drill-orders"
    ));
    reads.failed = Some(KafkaError::Other("offsets".into()));
    assert!(failure(&reads).contains("offsets"));
}

#[test]
fn a_failure_of_the_engine_or_the_cluster_ends_a_restore() {
    let mut reads = RestoreReads {
        restored: None,
        ends: vec![],
        failed: None,
    };
    assert!(matches!(
        phase6_restore::run(&orders(), &reads),
        Step::Ask(RestoreQuestion::Restore)
    ));
    reads.restored = Some(Err(EngineError::Operational("exit 2".into())));
    match phase6_restore::run(&orders(), &reads) {
        Step::Done(Err(e)) => assert_eq!(e.message(), "engine: exit 2"),
        other => panic!("{other:?}"),
    }
    reads.restored = Some(Ok(RestoreFacts {
        started_at: at(1),
        finished_at: at(2),
        unknown_key_warnings: vec![],
    }));
    reads.failed = Some(KafkaError::Other("offsets".into()));
    match phase6_restore::run(&orders(), &reads) {
        Step::Done(Err(e)) => assert!(e.message().contains("offsets")),
        other => panic!("{other:?}"),
    }
}

#[test]
fn a_target_topic_that_is_there_collides_and_one_that_is_not_is_created() {
    let facts = facts_with(vec![partition(0, vec![]), partition(4, vec![])]);
    assert_eq!(restore_partition_count(&facts.topics[0]), 5);
    let empty = TargetState {
        cluster_id: "C".into(),
        topics: NameMap::new(),
    };
    let d = phase3_diff::run(&empty, &facts, &orders());
    assert_eq!(d.absent, ["drill-orders"]);
    assert_eq!(d.would_create, [("drill-orders".to_string(), 5)]);
    let there = TargetState {
        cluster_id: "C".into(),
        topics: named(vec![(
            "drill-orders",
            TopicState {
                partitions: 2,
                end_offsets: vec![(0, 3), (1, 4)],
                configs: TextMap::new(),
            },
        )]),
    };
    let d = phase3_diff::run(&there, &facts, &orders());
    assert_eq!(d.collisions.len(), 1);
    assert_eq!(d.collisions[0].existing_partitions, 2);
    assert_eq!(d.collisions[0].existing_end_offsets, 7);
    assert!(d.would_create.is_empty());
    let summary = d.summarise();
    assert_eq!(summary.collisions.len(), 1);
}

#[test]
fn only_what_a_run_creates_has_to_be_countable() {
    let mut facts = facts_with(vec![partition(0, vec![])]);
    let mut unmapped = facts_with(vec![partition(i32::MAX, vec![])]).topics.remove(0);
    unmapped.name = "archived-only".into();
    facts.topics.push(unmapped);
    let state = |ends: Vec<(i32, i64)>| TopicState {
        partitions: 2,
        end_offsets: ends,
        configs: TextMap::new(),
    };
    let there = TargetState {
        cluster_id: "C".into(),
        topics: named(vec![
            ("elsewhere", state(vec![(0, i64::MAX), (1, i64::MAX)])),
            ("drill-orders", state(vec![(0, 3), (1, 4)])),
        ]),
    };
    let d = phase3_diff::run(&there, &facts, &orders());
    assert_eq!(d.collisions.len(), 1);
    assert_eq!(d.collisions[0].existing_end_offsets, 7);
}

#[test]
fn a_limit_keeps_the_first_partitions_of_a_sample() {
    let mut facts = facts_with(vec![
        partition(0, vec![segment(0, 9, 10)]),
        partition(1, vec![segment(0, 9, 10)]),
        partition(2, vec![segment(0, 9, i64::MAX), segment(10, 19, i64::MAX)]),
        partition(3, vec![segment(0, 9, i64::MAX)]),
    ]);
    facts.topics[0].partitions[1].gaps = vec![(4, 6)];
    facts.topics[0].partitions[3].gaps = vec![(4, 6)];
    let topics = vec!["orders".to_string()];
    let take = |n: Option<u32>, facts: &BackupSetFacts| {
        let mut spec = a_spec().sample;
        spec.max_partitions = n;
        phase4_sample::run(facts, &spec, &topics).unwrap()
    };
    let two = take(Some(2), &facts);
    assert_eq!((two.records_expected, two.partitions), (20, 2));
    facts.topics[0].partitions.truncate(2);
    let all = take(None, &facts);
    let ids = |s: &phase4_sample::Selection| -> Vec<(String, i32, usize)> {
        let p = s.per_partition.iter();
        p.map(|p| (p.topic.clone(), p.partition, p.count)).collect()
    };
    assert_eq!(ids(&two), ids(&all));
    assert_eq!(two.notes, all.notes);
    assert_eq!(two.notes.len(), 1);
    assert_eq!(two.records_expected, all.records_expected);
    assert_eq!(two.topics, all.topics);
    assert_eq!(ids(&take(Some(9), &facts)), ids(&all));
}

#[test]
fn a_sample_is_taken_of_every_partition_that_the_window_touches() {
    let facts = facts_with(vec![
        partition(0, vec![segment(0, 9, 10), segment(10, 19, 10)]),
        partition(1, vec![segment(500, 509, 10)]),
        partition(2, vec![segment(20, 29, 7)]),
    ]);
    let topics = vec!["orders".to_string()];
    let s = phase4_sample::run(&facts, &a_spec().sample, &topics).unwrap();
    let ids: Vec<i32> = s.per_partition.iter().map(|p| p.partition).collect();
    assert_eq!(ids, [0, 2]);
    assert_eq!(s.records_expected, 27);
    assert_eq!((s.topics, s.partitions), (1, 2));
    assert_eq!(s.per_partition[0].window, (0, 100_000));

    let mut capped = a_spec().sample;
    capped.max_partitions = Some(1);
    let s = phase4_sample::run(&facts, &capped, &topics).unwrap();
    assert_eq!(s.per_partition.len(), 1);
    assert_eq!(s.records_expected, 20);
    assert!(s.notes.is_empty());

    let mut holed = facts_with(vec![partition(0, vec![segment(0, 9, 10)])]);
    holed.topics[0].partitions[0].gaps = vec![(4, 6), (40, 41)];
    let s = phase4_sample::run(&holed, &a_spec().sample, &topics).unwrap();
    assert_eq!(s.notes.len(), 1);
    assert!(s.notes[0].starts_with("orders/0") && s.notes[0].contains("4..6"), "{:?}", s.notes);

    let mut none = a_spec().sample;
    none.records_per_partition = 0;
    let e = phase4_sample::run(&facts, &none, &topics).unwrap_err();
    assert!(e.message().contains("records_per_partition is 0"), "{e:?}");
    let mut elsewhere = a_spec().sample;
    elsewhere.window_start = at(5000);
    elsewhere.window_end = at(6000);
    let e = phase4_sample::run(&facts, &elsewhere, &topics).unwrap_err();
    assert!(
        e.message().contains("1970-01-01T01:23:20+00:00 .. 1970-01-01T01:40:00+00:00"),
        "{e:?}"
    );
}

#[test]
fn a_plan_starts_at_the_earliest_record_of_the_archive() {
    let facts = facts_with(vec![
        partition(0, vec![segment(7, 9, 1), segment(3, 5, 1)]),
        partition(1, vec![segment(9, 11, 1)]),
    ]);
    assert_eq!(earliest_covered_timestamp_ms(&facts, &orders()), Some(3000));
    let plan = build_plan(&a_spec(), &a_set(), &orders(), &facts, "r1", "/tmp", None).unwrap();
    assert_eq!(plan.time_window.0, at(3));
    assert_eq!(plan.time_window.1, at(100));
    assert_eq!(plan.window_floor_source, WindowFloorSource::ArchiveManifest);
    assert_eq!(plan.checkpoint_state, "/tmp/logweir-r1/checkpoint.json");
    assert_eq!(plan.offset_report, "/tmp/logweir-r1/offsets.json");
    assert_eq!(run_workdir("/tmp/", "r1"), "/tmp/logweir-r1");

    let none = facts_with(vec![partition(0, vec![])]);
    let e = build_plan(&a_spec(), &a_set(), &orders(), &none, "r1", "/tmp", None).unwrap_err();
    assert!(matches!(&e, DrillError::Guard(GuardRefusal(m)) if m.contains("records no segment")));

    let mut early = a_spec();
    early.point_in_time = Some(at(3));
    let e = build_plan(&early, &a_set(), &orders(), &facts, "r1", "/tmp", None).unwrap_err();
    assert!(
        matches!(&e, DrillError::Guard(GuardRefusal(m))
                 if m.contains("restore.point_in_time") && m.contains("[3000, 3000]")),
        "{e:?}"
    );
    let lie = WindowFloor {
        start: at(4),
        source: WindowFloorSource::ArchiveManifest,
        manifest_floor_ms: 3000,
    };
    let e = build_plan_with_floor(&a_spec(), &a_set(), &orders(), "r1", "/tmp", lie, None).unwrap_err();
    assert!(e.message().contains("epoch-ms 4000 while the manifest floor is epoch-ms 3000"));
}

#[test]
fn a_rendered_plan_starts_where_the_archive_does() {
    let facts = facts_with(vec![partition(0, vec![segment(3, 5, 1)])]);
    let plan = build_plan(&a_spec(), &a_set(), &orders(), &facts, "r1", "/tmp", None).unwrap();
    let rendered = |ms: &str| Ok(format!("restore:\n  time_window_start: {ms}\n  x: 1\n"));
    assert!(check_rendered_window_floor(&plan, &facts, &rendered("3000")).is_ok());
    assert!(matches!(
        check_rendered_window_floor(&plan, &facts, &rendered("0")),
        Err(DrillError::Guard(_))
    ));
    assert!(matches!(
        check_rendered_window_floor(&plan, &facts, &Ok("restore: {}\n".into())),
        Err(DrillError::Operational(_))
    ));
    assert!(matches!(
        check_floor("b", Some(3000), &Err("no disk".into())),
        Err(DrillError::Operational(m)) if m == "rendering restore.yaml: no disk"
    ));
    assert!(matches!(check_floor("b", None, &rendered("1")), Err(DrillError::Guard(_))));
}

fn coverage(state: CoverageState) -> PreflightReport {
    PreflightReport {
        header_preflight_honoured: true,
        unknown_key_warnings: vec![],
        partitions: vec![PartitionCoverage {
            topic: "orders".into(),
            partition: 3,
            state,
            detail: "why".into(),
        }],
        errors: vec![],
        valid: true,
    }
}

#[test]
fn a_preflight_blocks_on_anything_that_it_cannot_vouch_for() {
    let states = |r: &PreflightReport| match adjudicate(r) {
        Verdict::Block { findings } => findings.iter().map(|f| f.state.clone()).collect(),
        Verdict::Proceed { .. } => Vec::new(),
    };
    assert!(states(&coverage(CoverageState::Full)).is_empty());
    match adjudicate(&coverage(CoverageState::Missing)) {
        Verdict::Proceed { warnings } => assert_eq!(warnings[0].state, "header-coverage"),
        other => panic!("{other:?}"),
    }
    assert_eq!(states(&coverage(CoverageState::DataMissing)), ["data_missing"]);
    assert_eq!(states(&coverage(CoverageState::Corrupt)), ["corrupt"]);
    assert_eq!(states(&coverage(CoverageState::Empty)), ["empty"]);
    assert_eq!(states(&coverage(CoverageState::Indeterminate)), ["indeterminate"]);
    assert_eq!(states(&coverage(CoverageState::Unknown("new".into()))).len(), 1);
    let mut ignored = coverage(CoverageState::Full);
    ignored.header_preflight_honoured = false;
    assert_eq!(states(&ignored), ["lever-ignored"]);
    let mut failed = coverage(CoverageState::Full);
    failed.errors = vec!["e".into()];
    assert_eq!(states(&failed), ["engine-error"]);
    let mut invalid = coverage(CoverageState::Full);
    invalid.valid = false;
    assert_eq!(states(&invalid), ["engine-invalid"]);
}

#[test]
fn a_restore_that_left_every_topic_empty_restored_nothing() {
    assert!(assert_post_condition(&named(vec![("t", vec![(0, 1)])])).is_ok());
    assert!(matches!(
        assert_post_condition(&named(vec![("t", vec![(0, 0)])])),
        Err(DrillError::RestoreNoOp(_))
    ));
    let facts = RestoreFacts {
        started_at: at(1),
        finished_at: at(2),
        unknown_key_warnings: vec!["w".into()],
    };
    match phase6_restore::judge(&orders(), &facts, &vec![]) {
        Step::Ask(topic) => assert_eq!(topic, "drill-orders"),
        other => panic!("{other:?}"),
    }
    match phase6_restore::judge(&orders(), &facts, &vec![vec![(0, 5)]]) {
        Step::Done(Ok(r)) => {
            assert_eq!(r.restored_end_offsets.len(), 1);
            assert_eq!(r.restored_end_offsets.get("drill-orders"), Some(&vec![(0, 5)]));
            assert_eq!(r.unknown_key_warnings, ["w"]);
        }
        other => panic!("{other:?}"),
    }
}

fn measured() -> Measured {
    compute_measured(
        &Timeline {
            requested_at: at(0),
            approval_validated_at: at(100),
            restore_started_at: at(110),
            restore_finished_at: at(170),
            phase5_duration_ms: 5_999,
            verified_at: at(200),
        },
        90_000,
        60_500,
    )
}

fn integrity(result: IntegrityResult, rate: Option<PassRate>) -> Integrity {
    Integrity {
        level: IntegrityLevel::ByteFingerprint,
        result,
        partial_reason: None,
        records_sampled: 0,
        records_sampled_matching: 0,
        mismatches: 0,
        pass_rate_measured: rate,
        restored_principal_could_consume: None,
    }
}

#[test]
fn the_times_and_the_gap_are_measured_in_whole_seconds() {
    let m = measured();
    assert_eq!(m.rto_seconds, Some(100));
    assert_eq!(m.rto_requested_to_verified_seconds, Some(200));
    assert_eq!(m.rto_restore_only_seconds, Some(60));
    assert_eq!(m.rto_excluding_preflight_seconds, Some(95));
    assert_eq!(m.rpo_seconds, Some(29));
    assert_eq!(m.rpo_source_relative_seconds, None);
}

#[test]
fn an_objective_is_met_only_by_what_was_measured() {
    let spec = |rto: Option<u64>, rpo: Option<i64>, rate: Option<f64>| ObjectivesSpec {
        rto_seconds: rto,
        rpo_seconds: rpo,
        pass_rate_bits: rate.map(f64::to_bits),
    };
    let pass = integrity(IntegrityResult::Pass, None);
    let m = measured();
    let (o, met) = decide(&m, &spec(None, None, None), &pass, false);
    assert_eq!((o, met.met), (Outcome::Pass, None));
    let (o, met) = decide(&m, &spec(Some(95), Some(29), None), &pass, false);
    assert_eq!((o, met.met), (Outcome::Pass, Some(true)));
    let (o, met) = decide(&m, &spec(Some(94), None, None), &pass, false);
    assert_eq!((o, met.met), (Outcome::FailObjective, Some(false)));
    let (o, met) = decide(&m, &spec(None, None, Some(1.0)), &pass, true);
    assert_eq!((o, met.met), (Outcome::Pass, None), "no rate was measured");
    let rated = integrity(
        IntegrityResult::Pass,
        Some(PassRate {
            matching: 9,
            sampled: 10,
        }),
    );
    let (o, met) = decide(&m, &spec(None, None, Some(1.0)), &rated, false);
    assert_eq!((o, met.met), (Outcome::FailObjective, Some(false)));
    let fail = integrity(IntegrityResult::Partial, None);
    assert_eq!(decide(&m, &spec(None, None, None), &fail, false).0, Outcome::FailIntegrity);
}

#[test]
fn a_row_of_the_matrix_is_never_raised() {
    let row = |o, l, m| matrix_verdict_for(o, l, m).0;
    assert_eq!(row(Outcome::Pass, IntegrityLevel::ByteFingerprint, MatrixVerdict::Pass), MatrixVerdict::Pass);
    assert_eq!(row(Outcome::Pass, IntegrityLevel::ConsumeOnly, MatrixVerdict::Pass), MatrixVerdict::PassDegraded);
    assert_eq!(row(Outcome::FailIntegrity, IntegrityLevel::ByteFingerprint, MatrixVerdict::Pass), MatrixVerdict::Fail);
    assert_eq!(
        row(Outcome::Pass, IntegrityLevel::ByteFingerprint, MatrixVerdict::FailLeverNotHonoured),
        MatrixVerdict::FailLeverNotHonoured
    );
    assert_eq!(
        matrix_verdict_for(Outcome::FailObjective, IntegrityLevel::ByteFingerprint, MatrixVerdict::Pass)
            .1
            .as_deref(),
        Some("the drill ran and did not pass: outcome fail-objective")
    );
}

#[test]
fn a_document_is_signed_before_it_is_stored() {
    let mut reads = PersistReads {
        document: None,
        sidecar: None,
        document_put: None,
        sidecar_put: None,
    };
    let mut log = Vec::new();
    let r = loop {
        match persist("r1", ".teardown.json", ".teardown.sig", &reads) {
            Step::Done(r) => break r,
            Step::Ask(PersistQuestion::Serialise) => {
                log.push("serialise".to_string());
                reads.document = Some(Ok(vec![1]));
            }
            Step::Ask(PersistQuestion::Sign(bytes)) => {
                assert_eq!(bytes, [1]);
                log.push("sign".to_string());
                reads.sidecar = Some(Ok(vec![2]));
            }
            Step::Ask(PersistQuestion::Put { key, bytes }) => {
                log.push(key);
                if bytes == [1] {
                    reads.document_put = Some(Ok(()));
                } else {
                    reads.sidecar_put = Some(Err("denied".into()));
                }
            }
        }
    };
    assert!(matches!(r, Err(DrillError::SigningOrLock(_))), "{r:?}");
    assert_eq!(log.len(), 4);
    assert_eq!(&log[..2], ["serialise", "sign"]);
    assert!(log[2].ends_with("r1.teardown.json"), "{log:?}");
    assert!(log[3].ends_with("r1.teardown.sig"), "{log:?}");
}

fn a_draft() -> Scorecard {
    logweir::drill::draft::new_scorecard(
        "r1",
        "1.0.0",
        &None,
        &logweir::drill::draft::EngineId {
            id: "oso".into(),
            version: "1".into(),
            digest: "d".into(),
        },
        &a_spec(),
        at(0),
    )
}

#[test]
fn a_receipt_says_what_the_store_did() {
    let mut sc = a_draft();
    sc.evidence.create_only_enforced = true;
    sc.evidence.version_id = Some("v9".into());
    let signed = Signed {
        scorecard: sc,
        bytes: vec![1],
        sidecar: vec![2],
        key: "logweir/drills/r1.json".into(),
        sidecar_key: "logweir/drills/r1.sig".into(),
        offset_report_key: None,
    };
    let r = put_receipt_at(&signed, "sha256:1", at(7));
    assert_eq!(r.run_id, "r1");
    assert_eq!(r.scorecard_key, "logweir/drills/r1.json");
    assert_eq!(r.scorecard_sha256, "sha256:1");
    assert!(r.create_only_enforced && !r.immutable);
    assert_eq!(r.version_id.as_deref(), Some("v9"));
    assert_eq!(r.observed_at, at(7));
    let reads = PersistReads {
        document: None,
        sidecar: None,
        document_put: None,
        sidecar_put: None,
    };
    assert!(matches!(
        persist_put_receipt(&r, &reads),
        Step::Ask(PersistQuestion::Serialise)
    ));
}

#[test]
fn a_teardown_deletes_scratch_topics_and_owns_up_to_what_it_left() {
    let mapping = topic_mapping(&vec!["a".to_string(), "b".to_string()], "x-");
    let go = |policy: &str, mode: TargetMode, answer| {
        run_at(&mapping, policy, mode, "r1", "sha256:1", &answer, at(3))
    };
    match go("delete", TargetMode::Scratch, None) {
        Step::Ask(names) => assert_eq!(names, ["x-a", "x-b"]),
        other => panic!("{other:?}"),
    }
    for (policy, mode) in [("keep", TargetMode::Scratch), ("delete", TargetMode::NewTopic)] {
        match go(policy, mode, None) {
            Step::Done(att) => assert!(att.topics_deleted.is_empty() && att.topics_failed.is_empty()),
            other => panic!("{other:?}"),
        }
    }
    let answer = Some(Ok(vec![
        ("x-a".to_string(), Ok(())),
        ("x-b".to_string(), Err("denied".to_string())),
    ]));
    match go("delete", TargetMode::Scratch, answer) {
        Step::Done(att) => {
            assert_eq!(att.topics_deleted, ["x-a"]);
            assert_eq!(failed_topic_names(&att), ["x-b"]);
            assert!(teardown_warning(&att).unwrap().contains("x-b"));
            assert_eq!(failure_notes(&att).len(), 1);
        }
        other => panic!("{other:?}"),
    }
    match go("delete", TargetMode::Scratch, Some(Err(KafkaError::Unreachable("gone".into())))) {
        Step::Done(att) => assert_eq!(failed_topic_names(&att), ["x-a", "x-b"]),
        other => panic!("{other:?}"),
    }
}

#[test]
fn a_phase_is_recorded_as_it_went() {
    let mut sc = a_draft();
    record_phase(
        &mut sc,
        0,
        "admit-plan",
        Stamp {
            at: at(4),
            duration_ms: 12,
        },
        None,
    );
    assert_eq!(sc.last_phase_completed, 0);
    assert_eq!(sc.phases[0].outcome, "ok");
    assert_eq!(phase_duration(&sc, 0), 12);
    assert_eq!(phase_duration(&sc, 5), 0);
    let failed = DrillError::Operational("no".into());
    record_phase(
        &mut sc,
        1,
        "approval",
        Stamp {
            at: at(5),
            duration_ms: 1,
        },
        Some(&failed),
    );
    assert_eq!(sc.last_phase_completed, 0);
    assert_ne!(sc.phases[1].outcome, "ok");
    set_notes(&mut sc, 1, vec!["n".into()]);
    assert_eq!(sc.phases[1].notes, ["n"]);
    let r: Result<u8, DrillError> = record(&mut sc, 2, "target", || Ok(7));
    assert_eq!(r.unwrap(), 7);
    assert_eq!(sc.last_phase_completed, 2);
    assert_eq!(sc.phases.len(), 3);
}
