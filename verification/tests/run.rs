//! A run from its plan to its end.
use logweir::clock::Timestamp;
use logweir::drill::draft::EngineId;
use logweir::drill::error::{DrillError, EngineError, GuardRefusal};
use logweir::drill::facts::{
    BackupSetFacts, BackupSetRef, PartitionFacts, SegmentFacts, TopicFacts, TopicMeta,
};
use logweir::drill::phase0_admit::{topic_mapping, Admitted, TopicPreflight};
use logweir::drill::phase1_approval::Approved;
use logweir::drill::phase2_target::{self, TargetQuestion, TargetReads, TargetState};
use logweir::drill::phase5_preflight::{CoverageState, PartitionCoverage, PreflightReport};
use logweir::drill::phase6_restore::{
    self, RestoreFacts, RestoreQuestion, RestoreReads, Restored,
};
use logweir::drill::phase7_verify::VerifyOutcome;
use logweir::drill::phase8_score::{PutOutcome, ScoreQuestion, ScoreReads, Signed};
use logweir::drill::phase9_teardown;
use logweir::drill::record::Stamp;
use logweir::drill::report::{signed_last_phase_completed, summary_line};
use logweir::drill::run::{
    admitted, approved, begin, dirs_made, preflighted, published, rendered, restored,
    set_described, sets_listed, sign, signed, target_read, topics_created, topics_mapped,
    torn_down, verified, Ending, Progress, RestoreOutcome,
};
use logweir::drill::scorecard::{
    ApprovalInfo, Integrity, IntegrityLevel, IntegrityResult, MatrixVerdict, Outcome, PassRate,
    Scorecard, TopicParity,
};
use logweir::drill::spec::{
    Anchor, AuthSpec, DrillSpec, Notifications, ObjectivesSpec, SampleSpec, SourceSpec, TargetMode,
    TargetSpec,
};
use logweir::drill::step::Step;
use logweir::textmap::TextMap;

fn ts(s: &str) -> Timestamp {
    let t = chrono::DateTime::parse_from_rfc3339(s).unwrap();
    Timestamp::new(t.timestamp(), t.timestamp_subsec_nanos()).unwrap()
}

fn stamp() -> Stamp {
    Stamp {
        at: ts("2026-01-03T00:00:05Z"),
        duration_ms: 1500,
    }
}

fn a_spec() -> DrillSpec {
    DrillSpec {
        name: Some("nightly".into()),
        source: SourceSpec {
            storage: "filesystem:/a".into(),
            backup: "latestCompleted".into(),
            topics: vec!["orders".into()],
            point: None,
        },
        target: TargetSpec {
            bootstrap_servers: vec!["x:9092".into()],
            auth: AuthSpec::Plaintext,
            mode: TargetMode::Scratch,
            marker_topic: "logweir.scratch".into(),
            topic_mapping_prefix: "drill-".into(),
            default_replication_factor: 1,
            teardown: "delete".into(),
        },
        sample: SampleSpec {
            window_start: ts("2026-01-01T00:00:00Z"),
            window_end: ts("2026-01-02T00:00:00Z"),
            records_per_partition: 25,
            anchor: Anchor::Head,
            max_partitions: None,
        },
        point_in_time: None,
        objectives: ObjectivesSpec {
            rto_seconds: Some(3600),
            rpo_seconds: None,
            pass_rate_bits: None,
        },
        notifications: Notifications {
            webhooks: vec![],
            slack_webhook: None,
            pagerduty_routing_key: None,
            pagerduty_endpoint: None,
        },
    }
}

fn an_engine() -> EngineId {
    EngineId {
        id: "oso".into(),
        version: "0.21.0".into(),
        digest: "sha256:ee".into(),
    }
}

fn some_facts() -> BackupSetFacts {
    let start = ts("2026-01-01T01:00:00Z").millis();
    BackupSetFacts {
        backup_id: "newest".into(),
        manifest_sha256: "sha256:0".into(),
        manifest_version_id: None,
        topics: vec![TopicFacts {
            name: "orders".into(),
            original_partition_count: Some(1),
            source_replication_factor: Some(3),
            configurations: TextMap::new(),
            partitions: vec![PartitionFacts {
                partition_id: 0,
                segments: vec![SegmentFacts {
                    key: "k".into(),
                    start_offset: 0,
                    end_offset: 9,
                    start_timestamp: start,
                    end_timestamp: start + 1000,
                    record_count: 10,
                    sha256: "ab".into(),
                }],
                gaps: vec![],
                pruned: vec![],
            }],
        }],
    }
}

/// What the outside answers in one run.
struct World {
    preflight: Result<PreflightReport, EngineError>,
    restored: bool,
    verdict: IntegrityResult,
    put_fails: bool,
    taken: Result<Option<String>, String>,
    delete_fails: bool,
    asked: Vec<&'static str>,
}

fn healthy() -> World {
    World {
        preflight: Ok(PreflightReport {
            header_preflight_honoured: true,
            unknown_key_warnings: vec![],
            partitions: vec![PartitionCoverage {
                topic: "orders".into(),
                partition: 0,
                state: CoverageState::Full,
                detail: String::new(),
            }],
            errors: vec![],
            valid: true,
        }),
        restored: true,
        verdict: IntegrityResult::Pass,
        put_fails: false,
        taken: Ok(None),
        delete_fails: false,
        asked: vec![],
    }
}

fn is_admitted() -> Admitted {
    Admitted {
        target_cluster_id: "CLUSTER00000000000000AA".into(),
        topic_mapping: topic_mapping(&vec!["orders".to_string()], "drill-"),
        topic_mapping_prefix: "drill-".into(),
        topic_preflight: TopicPreflight {
            timestamp_type: "CreateTime".into(),
            retention_ms: "-1".into(),
            timestamp_bound_ms: None,
            configs_set: vec![],
            topics_created: vec![],
        },
    }
}

fn is_approved() -> Approved {
    Approved {
        approval: ApprovalInfo {
            approver: "ann".into(),
            ticket: "T-1".into(),
            plan_hash: "sha256:aa".into(),
            approved_at: ts("2026-01-02T00:00:00Z"),
            key_id: "k1".into(),
            self_attested: false,
        },
        validated_at: ts("2026-01-03T00:00:10Z"),
    }
}

fn target_state() -> TargetState {
    let mut reads = TargetReads {
        cluster_id: None,
        listed: None,
        topics: vec![],
        failed: None,
    };
    loop {
        match phase2_target::run(&vec!["drill-orders".to_string()], &reads) {
            Step::Done(r) => return r.unwrap(),
            Step::Ask(TargetQuestion::ClusterId) => reads.cluster_id = Some(Ok("C".into())),
            Step::Ask(TargetQuestion::Topics) => {
                reads.listed = Some(Ok(vec![TopicMeta {
                    name: "logweir.scratch".into(),
                    partitions: 1,
                    error: None,
                }]))
            }
            Step::Ask(other) => panic!("no topic of interest is there: {other:?}"),
        }
    }
}

fn restore(mapping: &TextMap, any: bool) -> Result<Restored, DrillError> {
    let mut reads = RestoreReads {
        restored: None,
        ends: vec![],
        failed: None,
    };
    loop {
        match phase6_restore::run(mapping, &reads) {
            Step::Done(r) => return r,
            Step::Ask(RestoreQuestion::Restore) => {
                reads.restored = Some(Ok(RestoreFacts {
                    started_at: ts("2026-01-03T00:01:00Z"),
                    finished_at: ts("2026-01-03T00:02:00Z"),
                    unknown_key_warnings: vec![],
                }))
            }
            Step::Ask(RestoreQuestion::EndOffsets(topic)) => {
                assert_eq!(topic, "drill-orders");
                reads.ends.push(vec![(0, if any { 10 } else { 0 })]);
            }
        }
    }
}

fn outcome_of(result: IntegrityResult) -> VerifyOutcome {
    VerifyOutcome {
        integrity: Integrity {
            level: IntegrityLevel::ByteFingerprint,
            result,
            partial_reason: None,
            records_sampled: 10,
            records_sampled_matching: 10,
            mismatches: 0,
            pass_rate_measured: Some(PassRate {
                matching: 10,
                sampled: 10,
            }),
            restored_principal_could_consume: Some(true),
        },
        topic_parity: TopicParity {
            intentionally_deviated: vec![],
            unexpected_divergence: vec![],
        },
        records_restored: 10,
        newest_restored_ts_ms: ts("2026-01-01T23:00:00Z").millis(),
        verified_at: ts("2026-01-03T00:03:00Z"),
        verdicts: vec![],
    }
}

fn score(sc: &Scorecard, ending: &Ending, world: &mut World) -> Result<Signed, DrillError> {
    let mut reads = ScoreReads {
        report_keys: None,
        report: None,
        offsets: None,
        valid: None,
        bytes: None,
        sidecar: None,
        taken: None,
        scorecard_put: None,
        sidecar_put: None,
        offsets_put: None,
        lock: None,
    };
    loop {
        match sign(sc, ending, &reads) {
            Step::Done(r) => return r,
            Step::Ask(q) => match q {
                ScoreQuestion::ListReports(_) => reads.report_keys = Some(Ok(vec![])),
                ScoreQuestion::FetchReport(_) => panic!("there is no report"),
                ScoreQuestion::ReadOffsets(_) => reads.offsets = Some(None),
                ScoreQuestion::Validate(_) => reads.valid = Some(Ok(())),
                ScoreQuestion::Serialise(_) => reads.bytes = Some(Ok(b"document".to_vec())),
                ScoreQuestion::Sign(bytes) => {
                    world.asked.push("sign");
                    assert_eq!(bytes, b"document");
                    reads.sidecar = Some(Ok(b"signature".to_vec()));
                }
                ScoreQuestion::FindTaken(keys) => {
                    assert_eq!(keys[0], "logweir/drills/01RUN.json");
                    assert_eq!(keys[1], "logweir/drills/01RUN.sig");
                    reads.taken = Some(world.taken.clone());
                }
                ScoreQuestion::PutScorecard { bytes, .. } => {
                    world.asked.push("put");
                    assert_eq!(bytes, b"document");
                    reads.scorecard_put = Some(if world.put_fails {
                        Err("the bucket refused".into())
                    } else {
                        Ok(PutOutcome {
                            create_only_enforced: true,
                            version_id: None,
                        })
                    });
                }
                ScoreQuestion::PutSidecar { .. } => reads.sidecar_put = Some(Ok(())),
                ScoreQuestion::PutOffsets { .. } => reads.offsets_put = Some(Ok(())),
                ScoreQuestion::ReadLock(_) => reads.lock = Some(None),
            },
        }
    }
}

fn drive(world: &mut World) -> Result<RestoreOutcome, DrillError> {
    let spec = a_spec();
    let id = an_engine();
    let mut at = begin(
        "01RUN",
        "1.0.0",
        &Some("manual".to_string()),
        &id,
        &spec,
        ts("2026-01-03T00:00:00Z"),
    );
    loop {
        at = match at {
            Progress::Admit { sc } => admitted(sc, stamp(), Ok(is_admitted())),
            Progress::MapTopics { sc, admitted } => {
                topics_mapped(sc, admitted, &spec, &id, &Ok("sha256:map".to_string()))
            }
            Progress::Approve { sc, admitted } => approved(sc, admitted, stamp(), Ok(is_approved())),
            Progress::ListSets {
                sc,
                admitted,
                validated_at,
            } => sets_listed(
                sc,
                admitted,
                validated_at,
                &spec,
                Ok(vec![
                    BackupSetRef {
                        backup_id: "older".into(),
                        manifest_key: "older/m".into(),
                    },
                    BackupSetRef {
                        backup_id: "newest".into(),
                        manifest_key: "newest/m".into(),
                    },
                ]),
            ),
            Progress::Describe {
                sc,
                admitted,
                validated_at,
                set,
            } => {
                assert_eq!(set.backup_id, "newest");
                set_described(sc, admitted, validated_at, set, Ok(some_facts()))
            }
            Progress::ReadTarget {
                sc,
                admitted,
                validated_at,
                set,
                facts,
            } => target_read(
                sc,
                admitted,
                validated_at,
                set,
                facts,
                &spec,
                "/tmp",
                None,
                stamp(),
                Ok(target_state()),
            ),
            Progress::MakeDirs { sc, work } => {
                assert_eq!(work.sel.per_partition.len(), 1);
                assert_eq!(work.sel.records_expected, 10);
                dirs_made(sc, work, Ok(()))
            }
            Progress::Render { sc, work } => {
                let text = format!(
                    "restore:\n  time_window_start: {}\n",
                    work.plan.time_window.0.millis()
                );
                rendered(sc, work, &Ok(text))
            }
            Progress::Preflight { sc, work } => {
                let answer = std::mem::replace(
                    &mut world.preflight,
                    Err(EngineError::Operational("asked twice".into())),
                );
                preflighted(sc, work, stamp(), answer)
            }
            Progress::CreateTopics { sc, work } => {
                world.asked.push("create");
                topics_created(sc, work, Ok(()))
            }
            Progress::Restore { sc, work } => {
                world.asked.push("restore");
                let r = restore(&work.admitted.topic_mapping, world.restored);
                restored(sc, work, stamp(), r)
            }
            Progress::Verify {
                sc,
                work,
                started_at,
                finished_at,
            } => verified(
                sc,
                work,
                started_at,
                finished_at,
                &spec,
                stamp(),
                Ok(outcome_of(world.verdict)),
                true,
            ),
            Progress::Sign { sc, ending } => {
                let r = score(&sc, &ending, world);
                signed(ending, r)
            }
            Progress::Publish { signed, ending } => {
                published(signed, ending, "sha256:doc".to_string())
            }
            Progress::Teardown {
                sc,
                scorecard_sha256,
                evidence,
                ending,
            } => {
                let mapping = topic_mapping(&vec!["orders".to_string()], "drill-");
                let mut answer = None;
                let att = loop {
                    match phase9_teardown::run(
                        &mapping,
                        "delete",
                        TargetMode::Scratch,
                        "01RUN",
                        &scorecard_sha256,
                        &answer,
                    ) {
                        Step::Done(att) => break att,
                        Step::Ask(names) => {
                            world.asked.push("delete");
                            let failed = world.delete_fails;
                            answer = Some(Ok(names
                                .into_iter()
                                .map(|n| {
                                    let r = if failed {
                                        Err("not authorized".to_string())
                                    } else {
                                        Ok(())
                                    };
                                    (n, r)
                                })
                                .collect()));
                        }
                    }
                };
                torn_down(sc, evidence, ending, stamp(), &att)
            }
            Progress::Ended(r) => return r,
        };
    }
}

#[test]
fn a_healthy_run_passes_and_names_where_its_evidence_is() {
    let mut world = healthy();
    let o = drive(&mut world).unwrap();
    assert_eq!(o.scorecard.outcome, Outcome::Pass);
    assert_eq!(o.evidence.scorecard_key, "logweir/drills/01RUN.json");
    assert_eq!(o.evidence.sidecar_key, "logweir/drills/01RUN.sig");
    assert!(o.evidence.offset_report_key.is_none());
    let phases: Vec<i8> = o.scorecard.phases.iter().map(|p| p.phase).collect();
    assert_eq!(phases, [0, 1, 2, 3, 4, 5, 6, 7, 9]);
    assert_eq!(world.asked, ["create", "restore", "sign", "put", "delete"]);
    assert_eq!(o.scorecard.measured.rto_restore_only_seconds, Some(60));
    assert_eq!(o.scorecard.objectives.met, Some(true));
    assert_eq!(o.scorecard.source.backup_id, "newest");
    assert_eq!(o.scorecard.target.topic_mapping_sha256, "sha256:map");
    assert_eq!(o.scorecard.approval.approver, "ann");
}

#[test]
fn a_blocked_preflight_is_signed_and_nothing_is_restored() {
    let mut world = healthy();
    if let Ok(r) = &mut world.preflight {
        r.partitions[0].state = CoverageState::Corrupt;
        r.valid = false;
    }
    match drive(&mut world).unwrap_err() {
        DrillError::NotPass(sc) => {
            assert_eq!(sc.outcome, Outcome::PreflightFailed);
            assert_eq!(sc.last_phase_completed, 5);
            assert!(!sc.phases[5].notes.is_empty());
        }
        other => panic!("{other:?}"),
    }
    assert_eq!(world.asked, ["sign", "put"]);
}

#[test]
fn a_restore_that_restored_nothing_is_a_signed_failure() {
    let mut world = healthy();
    world.restored = false;
    match drive(&mut world).unwrap_err() {
        DrillError::NotPass(sc) => {
            assert_eq!(sc.outcome, Outcome::FailIntegrity);
            assert_eq!(signed_last_phase_completed(&sc), 5);
            assert_ne!(sc.phases[6].outcome, "ok");
            assert_eq!(sc.phases[6].notes.len(), 1);
            assert_ne!(sc.engine.matrix_verdict, MatrixVerdict::Pass);
        }
        other => panic!("{other:?}"),
    }
    assert_eq!(world.asked, ["create", "restore", "sign", "put", "delete"]);
}

#[test]
fn a_failed_verification_is_torn_down_and_reported() {
    let mut world = healthy();
    world.verdict = IntegrityResult::Fail;
    world.delete_fails = true;
    match drive(&mut world).unwrap_err() {
        DrillError::NotPass(sc) => {
            assert_eq!(sc.outcome, Outcome::FailIntegrity);
            let line = summary_line(&sc);
            assert!(line.contains("teardown left 1 scratch topic behind (drill-orders)"), "{line}");
        }
        other => panic!("{other:?}"),
    }
}

#[test]
fn a_document_that_could_not_be_stored_ends_unattested() {
    let mut world = healthy();
    world.put_fails = true;
    match drive(&mut world).unwrap_err() {
        DrillError::SigningOrLock(m) => assert!(m.contains("the bucket refused"), "{m}"),
        other => panic!("{other:?}"),
    }
    assert_eq!(world.asked, ["create", "restore", "sign", "put"]);
}

#[test]
fn a_key_that_is_taken_leaves_the_store_as_it_was() {
    let mut world = healthy();
    world.taken = Ok(Some("object already exists: logweir/drills/01RUN.sig".into()));
    match drive(&mut world).unwrap_err() {
        DrillError::SigningOrLock(m) => {
            assert_eq!(m, "object already exists: logweir/drills/01RUN.sig")
        }
        other => panic!("{other:?}"),
    }
    assert_eq!(world.asked, ["create", "restore", "sign"]);
}

#[test]
fn a_store_that_cannot_tell_its_keys_is_written_to_all_the_same() {
    let mut world = healthy();
    world.taken = Err("access denied".into());
    assert!(drive(&mut world).is_ok());
    assert!(world.asked.contains(&"put"), "{:?}", world.asked);
    let mut world = healthy();
    world.taken = Err("access denied".into());
    world.put_fails = true;
    match drive(&mut world).unwrap_err() {
        DrillError::SigningOrLock(m) => assert!(m.contains("the bucket refused"), "{m}"),
        other => panic!("{other:?}"),
    }
}

#[test]
fn an_engine_that_fails_ends_the_run_there() {
    let mut world = healthy();
    world.preflight = Err(EngineError::Operational("exit 1".into()));
    assert!(matches!(drive(&mut world), Err(DrillError::Engine(_))));
    assert!(world.asked.is_empty());
}

#[test]
fn a_refused_plan_ends_before_anything_is_read() {
    let spec = a_spec();
    let at = begin("r", "1.0.0", &None, &an_engine(), &spec, ts("2026-01-03T00:00:00Z"));
    match at {
        Progress::Admit { sc } => {
            let next = admitted(
                sc,
                stamp(),
                Err(DrillError::Guard(GuardRefusal("no".into()))),
            );
            assert!(matches!(next, Progress::Ended(Err(DrillError::Guard(_)))));
        }
        other => panic!("{other:?}"),
    }
}
