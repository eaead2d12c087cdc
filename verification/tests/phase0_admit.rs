//! Admitting a plan.
use logweir::clock::Timestamp;
use logweir::drill::error::{DrillError, GuardRefusal, KafkaError};
use logweir::drill::facts::{BackupSetFacts, PartitionFacts, TopicFacts, TopicMeta};
use logweir::drill::phase0_admit::{
    check_cluster, create_target_topics, oldest_accepted, read_broker, run, topic_mapping,
    AdmitQuestion, AdmitReads, Admitted, TargetRules,
};
use logweir::drill::spec::{
    AllowedClusters, Anchor, AuthSpec, DrillSpec, Notifications, ObjectivesSpec, SampleSpec,
    SourceSpec, TargetMode, TargetSpec,
};
use logweir::drill::step::Step;
use logweir::exit::ExitCode;
use logweir::textmap::TextMap;

fn ts(s: &str) -> Timestamp {
    let t = chrono::DateTime::parse_from_rfc3339(s).unwrap();
    Timestamp::new(t.timestamp(), t.timestamp_subsec_nanos()).unwrap()
}

fn spec_with(topics: &[&str], prefix: &str) -> DrillSpec {
    DrillSpec {
        name: None,
        source: SourceSpec {
            storage: "filesystem:/tmp/src".into(),
            backup: "latestCompleted".into(),
            topics: topics.iter().map(|t| t.to_string()).collect(),
            point: None,
        },
        target: TargetSpec {
            bootstrap_servers: vec!["localhost:9092".into()],
            auth: AuthSpec::Plaintext,
            mode: TargetMode::Scratch,
            marker_topic: "logweir.scratch".into(),
            topic_mapping_prefix: prefix.into(),
            default_replication_factor: 1,
            teardown: "delete".into(),
        },
        sample: SampleSpec {
            window_start: ts("2026-08-29T00:00:00Z"),
            window_end: ts("2026-08-30T00:00:00Z"),
            records_per_partition: 25,
            anchor: Anchor::Head,
            max_partitions: None,
        },
        point_in_time: None,
        objectives: ObjectivesSpec {
            rto_seconds: None,
            rpo_seconds: None,
            pass_rate_bits: None,
        },
        notifications: Notifications {
            webhooks: vec![],
            slack_webhook: None,
            pagerduty_routing_key: None,
            pagerduty_endpoint: None,
        },
    }
}

fn allowed(ids: &[&str], source: Option<&str>) -> AllowedClusters {
    AllowedClusters {
        allowed_cluster_ids: ids.iter().map(|s| s.to_string()).collect(),
        source_cluster_id: source.map(str::to_string),
    }
}

fn rules() -> TargetRules {
    TargetRules {
        glob_metacharacters: "* ? [ ]".to_string(),
        pinned_configs: vec![("message.timestamp.type".to_string(), "CreateTime".to_string())],
    }
}

fn text_map(pairs: &[(&str, &str)]) -> TextMap {
    let mut m = TextMap::new();
    for (k, v) in pairs {
        m.insert(k.to_string(), v.to_string());
    }
    m
}

/// A cluster whose every answer a test sets.
struct StubReader {
    cluster_id: Result<String, KafkaError>,
    topics: Result<Vec<&'static str>, KafkaError>,
    errored: Option<(&'static str, &'static str)>,
    forbidden: Vec<&'static str>,
    source_glob: Option<&'static str>,
    broker: Vec<(&'static str, &'static str)>,
    override_honoured: bool,
    delete_fails: bool,
    now: &'static str,
    log: Vec<String>,
}

fn healthy_reader(cluster_id: &str, marker_topic: &'static str) -> StubReader {
    StubReader {
        cluster_id: Ok(cluster_id.to_string()),
        topics: Ok(vec![marker_topic]),
        errored: None,
        forbidden: vec![],
        source_glob: None,
        broker: vec![],
        override_honoured: true,
        delete_fails: false,
        now: "2026-08-31T00:00:00Z",
        log: vec![],
    }
}

const MARKER: &str = "logweir.scratch";

impl StubReader {
    fn unreachable<T>() -> Result<T, KafkaError> {
        Err(KafkaError::Unreachable("no broker answered".into()))
    }

    fn judge(
        &mut self,
        spec: &DrillSpec,
        allowed: &AllowedClusters,
    ) -> Result<Admitted, DrillError> {
        let mut reads = AdmitReads {
            forbidden: None,
            coverage: None,
            source_glob: None,
            target_glob: None,
            cluster_id: None,
            topics: None,
            broker_configs: None,
            now: None,
            probe_created: None,
            probe_configs: None,
            probe_deleted: None,
        };
        loop {
            match run(spec, allowed, &rules(), &reads) {
                Step::Done(r) => return r,
                Step::Ask(q) => {
                    self.log.push(format!("{q:?}"));
                    match q {
                        AdmitQuestion::ForbiddenKeys => {
                            reads.forbidden = Some(Ok(self
                                .forbidden
                                .iter()
                                .map(|k| k.to_string())
                                .collect()))
                        }
                        AdmitQuestion::MappingCoverage => reads.coverage = Some(Ok(())),
                        AdmitQuestion::SourceGlob => {
                            reads.source_glob = Some(self.source_glob.map(str::to_string))
                        }
                        AdmitQuestion::TargetGlob => reads.target_glob = Some(None),
                        AdmitQuestion::ClusterId => {
                            reads.cluster_id = Some(self.cluster_id.clone())
                        }
                        AdmitQuestion::Topics => {
                            reads.topics = Some(match &self.topics {
                                Err(e) => Err(e.clone()),
                                Ok(names) => {
                                    let mut v: Vec<TopicMeta> = names
                                        .iter()
                                        .map(|n| TopicMeta {
                                            name: n.to_string(),
                                            partitions: 1,
                                            error: None,
                                        })
                                        .collect();
                                    if let Some((name, error)) = self.errored {
                                        v.push(TopicMeta {
                                            name: name.to_string(),
                                            partitions: 0,
                                            error: Some(error.to_string()),
                                        });
                                    }
                                    Ok(v)
                                }
                            })
                        }
                        AdmitQuestion::BrokerConfigs => {
                            reads.broker_configs = Some(Ok(text_map(&self.broker)))
                        }
                        AdmitQuestion::Now => reads.now = Some(ts(self.now)),
                        AdmitQuestion::CreateProbe(topic) => {
                            reads.probe_created = Some(Ok(vec![(topic.name, Ok(()))]))
                        }
                        AdmitQuestion::ProbeConfigs(_) => {
                            let v = if self.override_honoured {
                                "CreateTime"
                            } else {
                                "LogAppendTime"
                            };
                            reads.probe_configs =
                                Some(Ok(text_map(&[("message.timestamp.type", v)])))
                        }
                        AdmitQuestion::DeleteProbe(name) => {
                            reads.probe_deleted = Some(Ok(vec![(
                                name,
                                if self.delete_fails {
                                    Err("not authorized".to_string())
                                } else {
                                    Ok(())
                                },
                            )]))
                        }
                    }
                }
            }
        }
    }
}

#[test]
fn a_healthy_target_is_admitted() {
    let spec = spec_with(&["orders"], "drill-");
    let mut reader = healthy_reader("ALLOWED0000000000000000", MARKER);
    let admitted = reader
        .judge(&spec, &allowed(&["ALLOWED0000000000000000"], None))
        .unwrap();
    assert_eq!(admitted.target_cluster_id, "ALLOWED0000000000000000");
    assert_eq!(admitted.topic_mapping.get("orders"), Some("drill-orders"));
    assert!(
        !reader.log.iter().any(|q| q.contains("Probe")),
        "nothing is created or deleted on a broker that is not LogAppendTime: {:?}",
        reader.log
    );
}

#[test]
fn a_target_cluster_not_in_allowed_cluster_ids_is_a_guard_refusal() {
    let spec = spec_with(&["orders"], "drill-");
    let mut reader = healthy_reader("WRONG0000000000000000000", MARKER);
    let err = reader
        .judge(&spec, &allowed(&["ALLOWED0000000000000000"], None))
        .unwrap_err();
    match err {
        DrillError::Guard(GuardRefusal(msg)) => {
            assert!(msg.contains("not in allowedClusterIds"), "{msg}")
        }
        other => panic!("expected a guard refusal (exit 3), got {other:?}"),
    }
}

#[test]
fn a_target_cluster_equal_to_the_source_cluster_is_a_guard_refusal() {
    let spec = spec_with(&["orders"], "drill-");
    let mut reader = healthy_reader("SAME0000000000000000000A", MARKER);
    let err = reader
        .judge(
            &spec,
            &allowed(&["SAME0000000000000000000A"], Some("SAME0000000000000000000A")),
        )
        .unwrap_err();
    match err {
        DrillError::Guard(GuardRefusal(msg)) => {
            assert!(msg.contains("equals the source cluster id"), "{msg}")
        }
        other => panic!("expected a guard refusal (exit 3), got {other:?}"),
    }
}

#[test]
fn a_missing_marker_topic_is_a_guard_refusal_naming_it() {
    let spec = spec_with(&["orders"], "drill-");
    let mut reader = healthy_reader("ALLOWED0000000000000000", MARKER);
    reader.topics = Ok(vec![]);
    let err = reader
        .judge(&spec, &allowed(&["ALLOWED0000000000000000"], None))
        .unwrap_err();
    match err {
        DrillError::Guard(GuardRefusal(msg)) => {
            assert!(msg.contains(&spec.target.marker_topic), "{msg}");
            assert!(msg.contains("does not exist"), "{msg}");
        }
        other => panic!("expected a guard refusal (exit 3), got {other:?}"),
    }
}

#[test]
fn a_marker_topic_present_but_errored_is_a_guard_refusal_naming_the_error() {
    let spec = spec_with(&["orders"], "drill-");
    let mut reader = healthy_reader("ALLOWED0000000000000000", MARKER);
    reader.topics = Ok(vec![]);
    reader.errored = Some((MARKER, "leader election in progress"));
    let err = reader
        .judge(&spec, &allowed(&["ALLOWED0000000000000000"], None))
        .unwrap_err();
    match err {
        DrillError::Guard(GuardRefusal(msg)) => {
            assert!(msg.contains("leader election in progress"), "{msg}");
        }
        other => panic!("expected a guard refusal (exit 3), got {other:?}"),
    }
}

#[test]
fn a_sample_anchor_other_than_head_is_a_guard_refusal_naming_the_limitation() {
    for anchor in [Anchor::Tail, Anchor::Random] {
        let mut spec = spec_with(&["orders"], "drill-");
        spec.sample.anchor = anchor;
        let mut reader = healthy_reader("ALLOWED0000000000000000", MARKER);
        let err = reader
            .judge(&spec, &allowed(&["ALLOWED0000000000000000"], None))
            .unwrap_err();
        match err {
            DrillError::Guard(GuardRefusal(msg)) => {
                assert!(msg.contains("sample.anchor"), "{msg}");
                assert!(msg.contains(anchor.as_str()), "{msg}");
                assert!(msg.contains("head"), "{msg}");
            }
            other => panic!("expected a guard refusal (exit 3) for {anchor:?}, got {other:?}"),
        }
    }
}

#[test]
fn the_anchor_refusal_message_is_single_spaced_prose_not_source_indentation() {
    let mut spec = spec_with(&["orders"], "drill-");
    spec.sample.anchor = Anchor::Random;
    let mut reader = healthy_reader("ALLOWED0000000000000000", MARKER);
    let msg = match reader
        .judge(&spec, &allowed(&["ALLOWED0000000000000000"], None))
        .unwrap_err()
    {
        DrillError::Guard(GuardRefusal(m)) => m,
        other => panic!("expected a guard refusal, got {other:?}"),
    };
    assert!(
        !msg.contains("  "),
        "the refusal message carries a run of spaces from the source \
         indentation of its own string literal:\n{msg}"
    );
    assert!(!msg.contains('\n'), "it is one line: {msg}");
    for needle in [
        "sample.anchor `random`",
        "only `head` is",
        "`sample.anchor: head`",
        "report a healthy backup as a failure",
    ] {
        assert!(msg.contains(needle), "missing {needle:?} in:\n{msg}");
    }
}

#[test]
fn the_anchor_refusal_does_not_need_a_reachable_broker() {
    let mut spec = spec_with(&["orders"], "drill-");
    spec.sample.anchor = Anchor::Random;
    let mut reader = healthy_reader("", MARKER);
    reader.cluster_id = StubReader::unreachable();
    reader.topics = StubReader::unreachable();
    match reader
        .judge(&spec, &allowed(&["ALLOWED0000000000000000"], None))
        .unwrap_err()
    {
        DrillError::Guard(GuardRefusal(msg)) => assert!(msg.contains("sample.anchor"), "{msg}"),
        other => panic!("expected a guard refusal (exit 3), got {other:?}"),
    }
}

#[test]
fn a_cluster_id_read_failure_is_operational_not_a_guard_refusal() {
    let spec = spec_with(&["orders"], "drill-");
    let mut reader = healthy_reader("", MARKER);
    reader.cluster_id = StubReader::unreachable();
    reader.topics = Ok(vec![]);
    let err = reader
        .judge(&spec, &allowed(&["ALLOWED0000000000000000"], None))
        .unwrap_err();
    assert_eq!(err.exit_code(), ExitCode::Operational);
    match err {
        DrillError::Kafka(_) => {}
        other => panic!("expected DrillError::Kafka (exit 1), got {other:?}"),
    }
}

#[test]
fn a_list_topics_read_failure_is_operational_not_a_guard_refusal() {
    let spec = spec_with(&["orders"], "drill-");
    let mut reader = healthy_reader("ALLOWED0000000000000000", MARKER);
    reader.topics = StubReader::unreachable();
    let err = reader
        .judge(&spec, &allowed(&["ALLOWED0000000000000000"], None))
        .unwrap_err();
    match err {
        DrillError::Kafka(_) => {}
        other => panic!("expected DrillError::Kafka (exit 1), got {other:?}"),
    }
}

// ---- the rest of what is refused ---------------------------------------------------------

fn refusal(reader: &mut StubReader, spec: &DrillSpec) -> String {
    match reader
        .judge(spec, &allowed(&["ALLOWED0000000000000000"], None))
        .unwrap_err()
    {
        DrillError::Guard(GuardRefusal(m)) => m,
        other => panic!("expected a guard refusal, got {other:?}"),
    }
}

#[test]
fn a_forbidden_key_is_refused_before_any_broker_is_asked() {
    let spec = spec_with(&["orders"], "drill-");
    let mut reader = healthy_reader("ALLOWED0000000000000000", MARKER);
    reader.forbidden = vec!["purge_topics", "dry_run"];
    let msg = refusal(&mut reader, &spec);
    assert!(msg.contains("at any value: purge_topics, dry_run."), "{msg}");
    assert!(!reader.log.iter().any(|q| q.contains("ClusterId")), "{:?}", reader.log);
}

#[test]
fn a_topic_that_would_be_expanded_or_matched_is_refused() {
    let mut reader = healthy_reader("ALLOWED0000000000000000", MARKER);
    let msg = refusal(&mut reader, &spec_with(&["orders", "${HOME}"], "drill-"));
    assert!(msg.contains("`${HOME}` contains `${`"), "{msg}");
    let mut reader = healthy_reader("ALLOWED0000000000000000", MARKER);
    reader.source_glob = Some("orders*");
    let msg = refusal(&mut reader, &spec_with(&["orders*"], "drill-"));
    assert!(msg.contains("glob metacharacter (one of * ? [ ])"), "{msg}");
}

#[test]
fn a_target_topic_that_exists_is_refused() {
    let spec = spec_with(&["orders"], "drill-");
    let mut reader = healthy_reader("ALLOWED0000000000000000", MARKER);
    reader.topics = Ok(vec![MARKER, "drill-orders"]);
    let msg = refusal(&mut reader, &spec);
    assert!(msg.contains("`drill-orders`"), "{msg}");
}

#[test]
fn a_broker_that_overwrites_timestamps_is_tried_and_cleaned_up() {
    let spec = spec_with(&["orders"], "drill-");
    let mut reader = healthy_reader("ALLOWED0000000000000000", MARKER);
    reader.broker = vec![("log.message.timestamp.type", "LogAppendTime")];
    let admitted = reader
        .judge(&spec, &allowed(&["ALLOWED0000000000000000"], None))
        .unwrap();
    assert_eq!(admitted.topic_preflight.timestamp_type, "LogAppendTime");
    assert_eq!(reader.log.iter().filter(|q| q.contains("DeleteProbe")).count(), 1);

    let mut refused = healthy_reader("ALLOWED0000000000000000", MARKER);
    refused.broker = vec![("log.message.timestamp.type", "LogAppendTime")];
    refused.override_honoured = false;
    let msg = refusal(&mut refused, &spec);
    assert!(msg.starts_with("TargetTopicConfigRefused: "), "{msg}");
    assert!(msg.contains("REFUSED a per-topic"), "{msg}");
    assert_eq!(refused.log.iter().filter(|q| q.contains("DeleteProbe")).count(), 1);

    let mut left = healthy_reader("ALLOWED0000000000000000", MARKER);
    left.broker = vec![("log.message.timestamp.type", "LogAppendTime")];
    left.delete_fails = true;
    let msg = refusal(&mut left, &spec);
    assert!(msg.contains("could not delete it again: not authorized"), "{msg}");
}

#[test]
fn a_window_older_than_the_broker_accepts_is_refused() {
    let spec = spec_with(&["orders"], "drill-");
    let mut reader = healthy_reader("ALLOWED0000000000000000", MARKER);
    reader.broker = vec![("log.message.timestamp.before.max.ms", " 3600000 ")];
    let msg = refusal(&mut reader, &spec);
    assert!(msg.contains("(3600000 ms"), "{msg}");
    assert!(msg.contains("sample.window_end"), "{msg}");
    let mut wide = healthy_reader("ALLOWED0000000000000000", MARKER);
    wide.broker = vec![("log.message.timestamp.before.max.ms", "9223372036854775807")];
    assert!(wide
        .judge(&spec, &allowed(&["ALLOWED0000000000000000"], None))
        .is_ok());
    assert_eq!(oldest_accepted(1_000, 400), 600);
    assert_eq!(oldest_accepted(-2, i64::MAX), i64::MIN);
}

#[test]
fn what_the_broker_says_is_kept_for_the_document() {
    let p = read_broker(
        &text_map(&[
            ("log.message.timestamp.type", "CreateTime"),
            ("log.retention.ms", "604800000"),
            ("log.message.timestamp.difference.max.ms", "5"),
        ]),
        &rules().pinned_configs,
    );
    assert_eq!(p.timestamp_type, "CreateTime");
    assert_eq!(p.retention_ms, "604800000");
    assert_eq!(p.timestamp_bound_ms, Some(5));
}

#[test]
fn every_topic_is_mapped_under_the_prefix() {
    let m = topic_mapping(&vec!["b".to_string(), "a".to_string(), "b".to_string()], "x-");
    assert_eq!(m.len(), 2);
    assert_eq!((m.key(0), m.value(0)), ("a", "x-a"));
    assert_eq!((m.key(1), m.value(1)), ("b", "x-b"));
    assert!(check_cluster(&allowed(&["A"], Some("B")), "A").is_ok());
}

#[test]
fn target_topics_are_created_as_the_archive_has_them() {
    let facts = BackupSetFacts {
        backup_id: "b1".to_string(),
        manifest_sha256: "sha256:00".to_string(),
        manifest_version_id: None,
        topics: vec![TopicFacts {
            name: "orders".to_string(),
            original_partition_count: Some(3),
            source_replication_factor: None,
            configurations: TextMap::new(),
            partitions: vec![PartitionFacts {
                partition_id: 0,
                segments: vec![],
                gaps: vec![],
                pruned: vec![],
            }],
        }],
    };
    let mapping = topic_mapping(&vec!["orders".to_string()], "drill-");
    let mut preflight = read_broker(&TextMap::new(), &rules().pinned_configs);
    let asked = match create_target_topics(
        &mapping,
        &facts,
        2,
        &rules().pinned_configs,
        &None,
        &mut preflight,
    ) {
        Step::Ask(topics) => topics,
        other => panic!("{other:?}"),
    };
    assert_eq!(asked.len(), 1);
    assert_eq!(asked[0].name, "drill-orders");
    assert_eq!(asked[0].num_partitions, 3);
    assert_eq!(asked[0].replication_factor, 2);
    match create_target_topics(
        &mapping,
        &facts,
        2,
        &rules().pinned_configs,
        &Some(Err(KafkaError::Unreachable("no broker".into()))),
        &mut preflight,
    ) {
        Step::Done(Err(e)) => assert!(e.message().contains("no broker")),
        other => panic!("{other:?}"),
    }
    assert!(preflight.topics_created.is_empty());
    match create_target_topics(
        &mapping,
        &facts,
        2,
        &rules().pinned_configs,
        &Some(Ok(vec![("drill-orders".to_string(), Ok(()))])),
        &mut preflight,
    ) {
        Step::Done(r) => assert!(r.is_ok()),
        other => panic!("{other:?}"),
    }
    assert_eq!(preflight.topics_created, ["drill-orders"]);
}
