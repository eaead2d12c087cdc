//! Verifying what was restored.
use std::collections::BTreeMap;

use logweir::clock::Timestamp;
use logweir::drill::error::{DrillError, EngineError, KafkaError};
use logweir::drill::facts::{
    BackupSetFacts, BackupSetRef, ConsumedRecord, PartitionFacts, RecordFingerprint,
    SampleSelection, SegmentFacts, TopicFacts,
};
use logweir::drill::phase7_verify::{
    classify_parity, classify_parity_all, compare, newest_ts, offset_at_source,
    probe_archive_modes, run, sampled_segments_for, segment_evidence, verdict_for_selection,
    NewestQuestion, NewestRead, ParityRead, ReadFault, SelectionArchive, SelectionQuestion, SelectionReads,
    VerifyQuestion, VerifyReads,
};
use logweir::drill::scorecard::{IntegrityLevel, IntegrityResult, PassRate};
use logweir::drill::spec::Anchor;
use logweir::drill::step::Step;
use logweir::drill::verdict::{roll_up, Evidence, SelectionVerdict};
use logweir::textmap::TextMap;

fn digest(bytes: &[u8]) -> String {
    let mut out = String::from("sha256:");
    for lane in 0u64..4 {
        let mut h: u64 = 0xcbf2_9ce4_8422_2325 ^ (lane.wrapping_mul(0x9e37_79b9_7f4a_7c15));
        for b in bytes {
            h = (h ^ u64::from(*b)).wrapping_mul(0x0000_0100_0000_01b3);
        }
        out.push_str(&format!("{h:016x}"));
    }
    out
}

/// The digits alone.
fn hex_of(bytes: &[u8]) -> String {
    digest(bytes)["sha256:".len()..].to_string()
}

fn facts_one_segment() -> BackupSetFacts {
    BackupSetFacts {
        backup_id: "b".into(),
        manifest_sha256: "sha256:0".into(),
        manifest_version_id: None,
        topics: vec![TopicFacts {
            name: "orders".into(),
            original_partition_count: Some(1),
            source_replication_factor: Some(3),
            configurations: TextMap::new(),
            partitions: vec![PartitionFacts {
                partition_id: 0,
                segments: vec![SegmentFacts {
                    key: "logweir/k".into(),
                    start_offset: 0,
                    end_offset: 9,
                    start_timestamp: 0,
                    end_timestamp: 100,
                    record_count: 10,
                    sha256: "sha256:whatever".into(),
                }],
                gaps: vec![],
                pruned: vec![],
            }],
        }],
    }
}

fn sel_for(topic: &str, partition: i32, window: (i64, i64)) -> SampleSelection {
    SampleSelection {
        set: BackupSetRef {
            backup_id: "b".into(),
            manifest_key: "b/manifest".into(),
        },
        topic: topic.into(),
        partition,
        anchor: Anchor::Head,
        count: 10,
        window,
    }
}

type Store = BTreeMap<String, Vec<u8>>;

fn store_with(key: &str, bytes: &[u8]) -> (Store, String) {
    let mut store = Store::new();
    store.insert(key.to_string(), bytes.to_vec());
    (store, digest(bytes))
}

fn evidence(store: &Store, segs: &Vec<&SegmentFacts>) -> Evidence {
    let mut digests = Vec::new();
    loop {
        match segment_evidence(segs, &digests) {
            Step::Done(e) => return e,
            Step::Ask(key) => digests.push(hex_of(&store[&key])),
        }
    }
}

fn verdict(id: &str, segments: Evidence, records: Evidence) -> SelectionVerdict {
    SelectionVerdict {
        id: id.into(),
        claimed: 10,
        segments,
        records,
        records_restored: 10,
        reconciled: Some((10, 10)),
        downgrade: None,
    }
}

fn low_level() -> String {
    ["kbak level below the", "gate"].join(" ")
}

fn verified(checked: u64) -> Evidence {
    Evidence::Verified { checked }
}

fn mapping_of(pairs: &[(&str, &str)]) -> TextMap {
    let mut m = TextMap::new();
    for (k, v) in pairs {
        m.insert(k.to_string(), v.to_string());
    }
    m
}

#[test]
fn sampled_segments_for_a_partition_the_facts_lack_matches_nothing_and_is_unverified() {
    let facts = facts_one_segment();
    let segs = sampled_segments_for(&facts, &sel_for("orders", 7, (0, 100)));
    assert!(segs.is_empty());
    let (store, _) = store_with("logweir/k", b"anything");
    let ev = evidence(&store, &segs);
    assert!(
        ev.is_unverified(),
        "zero matched segments must be Unverified, never Verified: {ev:?}"
    );
    assert!(ev.why().unwrap().contains("no archive segment matches"));
}

#[test]
fn sampled_segments_for_finds_the_real_match() {
    let facts = facts_one_segment();
    let segs = sampled_segments_for(&facts, &sel_for("orders", 0, (0, 100)));
    assert_eq!(segs.len(), 1);
    assert_eq!(segs[0].key, "logweir/k");
}

#[test]
fn sampled_segments_for_excludes_a_segment_outside_the_requested_window() {
    let facts = facts_one_segment();
    let segs = sampled_segments_for(&facts, &sel_for("orders", 0, (200, 300)));
    assert!(segs.is_empty());
    let (store, _) = store_with("logweir/k", b"anything");
    assert!(evidence(&store, &segs).is_unverified());
}

#[test]
fn one_selection_matching_no_segment_cannot_hide_behind_a_healthy_sibling() {
    let facts = facts_one_segment();
    let healthy = sampled_segments_for(&facts, &sel_for("orders", 0, (0, 100)));
    let empty = sampled_segments_for(&facts, &sel_for("orders", 7, (0, 100)));
    assert_eq!(healthy.len(), 1);
    assert!(empty.is_empty());

    let (store, _) = store_with("logweir/k", b"anything");
    let integrity = roll_up(&vec![
        verdict("orders/0", verified(1), verified(10)),
        verdict("orders/7", evidence(&store, &empty), verified(10)),
    ]);
    assert_eq!(
        integrity.result,
        IntegrityResult::Partial,
        "a selection whose segments matched nothing must forbid a Pass no matter what a \
         sibling selection contributed"
    );
    assert!(integrity.partial_reason.unwrap().contains("orders/7"));
}

#[test]
fn roll_up_on_an_empty_ledger_is_partial_never_pass() {
    let integrity = roll_up(&vec![]);
    assert_ne!(
        integrity.result,
        IntegrityResult::Pass,
        "all() over an empty slice is vacuously true; a verification that examined \
         nothing must never report a pass"
    );
    assert_eq!(integrity.result, IntegrityResult::Partial);
    assert_eq!(integrity.level, IntegrityLevel::NotAttempted);
    assert!(integrity.partial_reason.is_some());
    assert_eq!(integrity.records_sampled, 0);
    assert!(integrity.pass_rate_measured.is_none());
}

#[test]
fn roll_up_reaches_pass_only_with_positive_evidence_on_both_lanes() {
    let both = roll_up(&vec![verdict("orders/0", verified(1), verified(10))]);
    assert_eq!(both.result, IntegrityResult::Pass);

    let seg_silent = roll_up(&vec![verdict(
        "orders/0",
        Evidence::Unverified {
            why: "no sha256".into(),
        },
        verified(10),
    )]);
    assert_eq!(seg_silent.result, IntegrityResult::Partial);

    let rec_silent = roll_up(&vec![verdict(
        "orders/0",
        verified(1),
        Evidence::Unverified {
            why: "nothing came back".into(),
        },
    )]);
    assert_eq!(rec_silent.result, IntegrityResult::Partial);

    let failed = roll_up(&vec![verdict(
        "orders/0",
        verified(1),
        Evidence::Failed {
            why: "mismatch".into(),
        },
    )]);
    assert_eq!(failed.result, IntegrityResult::Fail);
}

#[test]
fn a_failed_selection_reports_fail_on_every_lane_including_a_downgraded_one() {
    let mismatch = || Evidence::Failed {
        why: "segment sha256 mismatch against the manifest".into(),
    };
    let mut segment_failed = verdict("orders/0", mismatch(), verified(10));
    segment_failed.downgrade = Some(low_level());
    segment_failed.reconciled = None;
    let integrity = roll_up(&vec![segment_failed]);
    assert_eq!(
        integrity.result,
        IntegrityResult::Fail,
        "a downgraded selection that was EXAMINED AND FOUND WRONG is a Fail, not a \
         Partial; `Partial` would tell an auditor the drill could not check this, which \
         is the opposite of what happened — got {integrity:?}"
    );
    assert_eq!(integrity.level, IntegrityLevel::ConsumeOnly);

    let mut record_failed = verdict(
        "orders/0",
        verified(1),
        Evidence::Failed {
            why: "records did not reconcile".into(),
        },
    );
    record_failed.downgrade = Some(low_level());
    record_failed.reconciled = None;
    assert_eq!(roll_up(&vec![record_failed]).result, IntegrityResult::Fail);

    let mut mixed = verdict("orders/0", mismatch(), verified(10));
    mixed.downgrade = Some(low_level());
    mixed.reconciled = None;
    let integrity = roll_up(&vec![
        mixed,
        verdict("payments/0", verified(1), verified(10)),
    ]);
    assert_eq!(integrity.result, IntegrityResult::Fail);
}

#[test]
fn the_signed_counters_key_on_reconciled_alone_never_on_the_downgrade_flag() {
    let mut downgraded_but_reconciled = verdict("orders/0", verified(1), verified(10));
    downgraded_but_reconciled.downgrade = Some(low_level());
    downgraded_but_reconciled.reconciled = Some((7, 5));

    let integrity = roll_up(&vec![downgraded_but_reconciled]);
    assert_eq!(
        integrity.records_sampled, 7,
        "a selection carrying reconciliation counts contributes them to the signed \
         counters; the downgrade flag governs the LEVEL, never what was counted"
    );
    assert_eq!(integrity.records_sampled_matching, 5);
    assert_eq!(integrity.mismatches, 2);
}

#[test]
fn roll_up_applies_the_same_obligation_to_the_consume_only_lane() {
    let mut downgraded = verdict(
        "orders/0",
        verified(1),
        Evidence::Unverified {
            why: "the target partition gave back zero records".into(),
        },
    );
    downgraded.downgrade = Some(low_level());
    downgraded.reconciled = None;
    downgraded.records_restored = 0;

    let integrity = roll_up(&vec![downgraded]);
    assert_eq!(integrity.level, IntegrityLevel::ConsumeOnly);
    assert_ne!(
        integrity.result,
        IntegrityResult::Pass,
        "consume-only is a weaker CLAIM, never a weaker CHECK"
    );
    assert_eq!(integrity.result, IntegrityResult::Partial);
    assert!(integrity.pass_rate_measured.is_none());
}

#[test]
fn roll_up_names_the_selections_whose_byte_level_claim_survives_a_downgrade() {
    let mut downgraded = verdict("orders/0", verified(1), verified(10));
    downgraded.downgrade = Some(low_level());
    downgraded.reconciled = None;

    let integrity = roll_up(&vec![
        downgraded,
        verdict("payments/0", verified(1), verified(10)),
    ]);
    assert_eq!(integrity.level, IntegrityLevel::ConsumeOnly);
    assert_eq!(integrity.result, IntegrityResult::Pass);
    assert_eq!(
        integrity.records_sampled, 10,
        "payments' genuine reconciliation must survive orders' downgrade"
    );
    assert!(integrity.partial_reason.as_deref().unwrap().contains("payments/0"));
    assert!(
        integrity.pass_rate_measured.is_none(),
        "the level is not byte-fingerprint, so a measured rate would violate the \
         scorecard's own invariant"
    );
}

#[test]
fn roll_up_withholds_a_pass_rate_when_any_selection_never_reconciled() {
    let mut short = verdict(
        "orders/0",
        verified(1),
        Evidence::Unverified {
            why: "1 fingerprint where the manifest claims 25".into(),
        },
    );
    short.reconciled = Some((1, 1));

    let integrity = roll_up(&vec![
        short,
        verdict("payments/0", verified(1), verified(10)),
    ]);
    assert_eq!(integrity.result, IntegrityResult::Partial);
    assert!(
        integrity.pass_rate_measured.is_none(),
        "Some(1.0) beside a partial verdict is the fourth door's exact false assurance"
    );
}

#[test]
fn a_rate_is_measured_over_the_whole_sample() {
    let mut a = verdict("orders/0", verified(1), verified(10));
    a.reconciled = Some((10, 10));
    let mut b = verdict(
        "orders/1",
        verified(1),
        Evidence::Failed {
            why: "1 of 5 did not match".into(),
        },
    );
    b.reconciled = Some((5, 4));
    let integrity = roll_up(&vec![a, b]);
    let rate: PassRate = integrity.pass_rate_measured.unwrap();
    assert_eq!((rate.matching, rate.sampled), (14, 15));
    assert_eq!(integrity.level, IntegrityLevel::ByteFingerprint);
}

#[test]
fn a_segment_with_no_sha256_is_unverified_never_verified() {
    let (store, _) = store_with("logweir/k", b"anything");
    let mut facts = facts_one_segment();
    facts.topics[0].partitions[0].segments[0].sha256 = String::new();
    let segs = sampled_segments_for(&facts, &sel_for("orders", 0, (0, 100)));
    assert_eq!(segs.len(), 1);
    let ev = evidence(&store, &segs);
    assert!(ev.is_unverified(), "{ev:?}");
    assert!(ev.why().unwrap().contains("before 0.21"));
}

#[test]
fn segment_evidence_verifies_a_matching_segment_and_fails_a_mismatching_one() {
    let (store, sha) = store_with("logweir/k", b"real segment bytes");

    let mut good = facts_one_segment();
    good.topics[0].partitions[0].segments[0].sha256 = sha;
    let ev = evidence(
        &store,
        &sampled_segments_for(&good, &sel_for("orders", 0, (0, 100))),
    );
    assert!(matches!(ev, Evidence::Verified { checked: 1 }), "{ev:?}");

    let bad = facts_one_segment(); // sha256 is "sha256:whatever"
    let ev = evidence(
        &store,
        &sampled_segments_for(&bad, &sel_for("orders", 0, (0, 100))),
    );
    assert!(ev.is_failed(), "{ev:?}");
    assert!(ev.why().unwrap().contains("mismatch"));
}

#[test]
fn probe_archive_modes_refuses_an_empty_selection_list() {
    let err = probe_archive_modes(&vec![], vec![]).unwrap_err();
    assert!(matches!(err, EngineError::Operational(_)));
}

fn fingerprint(topic: &str, partition: i32, offset: i64, sha256: &str) -> RecordFingerprint {
    RecordFingerprint {
        topic: topic.to_string(),
        partition,
        offset,
        sha256: sha256.to_string(),
    }
}

#[test]
fn probe_archive_modes_downgrades_only_the_unsupported_selection() {
    let sel = vec![sel_for("orders", 0, (0, 100)), sel_for("orders", 1, (0, 100))];
    let answers = vec![
        Err(EngineError::Unsupported("kbak level 1".into())),
        Ok(vec![fingerprint("orders", 1, 0, "sha256:x")]),
    ];
    let modes = probe_archive_modes(&sel, answers).unwrap();
    assert_eq!(
        modes.len(),
        sel.len(),
        "exactly one answer per selection, in sel's own order"
    );
    assert!(matches!(modes[0], SelectionArchive::Unsupported(_)));
    match &modes[1] {
        SelectionArchive::Fingerprints(fp) => assert_eq!(fp.len(), 1),
        other => panic!("partition 1 is supported and must keep its fingerprints: {other:?}"),
    }
    let stopped = probe_archive_modes(
        &sel,
        vec![Err(EngineError::Operational("exit 1".into())), Ok(vec![])],
    );
    assert!(matches!(stopped, Err(EngineError::Operational(m)) if m == "exit 1"));
    let stopped = probe_archive_modes(&sel, vec![Err(EngineError::Operational("exit 1".into()))]);
    assert!(matches!(stopped, Err(EngineError::Operational(m)) if m == "exit 1"));
}

#[test]
fn every_selection_is_answered_once() {
    let sel = vec![sel_for("orders", 0, (0, 100)), sel_for("orders", 1, (0, 100))];
    for n in [0, 1, 3] {
        match probe_archive_modes(&sel, (0..n).map(|_| Ok(vec![])).collect()) {
            Err(EngineError::Operational(m)) => {
                assert!(m.contains(&format!("answered for {n} of 2 selections")), "{m}")
            }
            other => panic!("{other:?}"),
        }
    }
    assert_eq!(probe_archive_modes(&sel, vec![Ok(vec![]), Ok(vec![])]).unwrap().len(), 2);
}

#[test]
fn verdict_for_selection_refuses_a_topic_with_no_mapping_entry() {
    let facts = facts_one_segment();
    let archive = SelectionArchive::Unsupported("n/a".into());
    let reads = SelectionReads {
        digests: vec![],
        consumed: None,
    };
    match verdict_for_selection(
        &facts,
        &sel_for("orders", 0, (0, 100)),
        &TextMap::new(),
        &archive,
        &reads,
    ) {
        Step::Done(Err(err)) => {
            assert!(matches!(err, DrillError::Operational(_)));
            assert!(err.message().contains("no target-side mapping"));
        }
        other => panic!("the store and the broker must not be asked: {other:?}"),
    }
}

/// Answers from a store and from what the target gives back.
fn judged(
    store: &Store,
    facts: &BackupSetFacts,
    s: &SampleSelection,
    archive: &SelectionArchive,
    target: Vec<ConsumedRecord>,
) -> SelectionVerdict {
    let mapping = mapping_of(&[("orders", "drill-orders")]);
    let mut reads = SelectionReads {
        digests: vec![],
        consumed: None,
    };
    let mut target = Some(target);
    loop {
        match verdict_for_selection(facts, s, &mapping, archive, &reads) {
            Step::Done(v) => return v.unwrap(),
            Step::Ask(SelectionQuestion::Segment(key)) => reads.digests.push(hex_of(&store[&key])),
            Step::Ask(SelectionQuestion::Records {
                topic,
                partition,
                count,
            }) => {
                assert_eq!((topic.as_str(), partition, count), ("drill-orders", 0, s.count));
                reads.consumed = target.take();
            }
        }
    }
}

#[test]
fn claimed_is_the_manifest_window_sum_capped_by_the_selections_own_count() {
    let (store, sha) = store_with("logweir/k", b"real segment bytes");
    let mut facts = facts_one_segment();
    facts.topics[0].partitions[0].segments[0].sha256 = sha;
    let archive = SelectionArchive::Unsupported("n/a".into());

    let mut small = sel_for("orders", 0, (0, 100));
    small.count = 4;
    let v = judged(&store, &facts, &small, &archive, vec![]);
    assert_eq!(v.claimed, 4, "the selection's own count must cap the claim");

    let mut large = sel_for("orders", 0, (0, 100));
    large.count = 40;
    let v = judged(&store, &facts, &large, &archive, vec![]);
    assert_eq!(
        v.claimed, 10,
        "the manifest's own in-window record_count must cap the claim when it is smaller"
    );

    let outside = sel_for("orders", 0, (200, 300));
    let v = judged(&store, &facts, &outside, &archive, vec![]);
    assert_eq!(v.claimed, 10);
    assert!(v.segments.is_unverified());
}

#[test]
fn classify_parity_all_refuses_an_empty_mapping() {
    let facts = facts_one_segment();
    match classify_parity_all(&facts, &TextMap::new(), 1, &vec![]) {
        Step::Done(Err(err)) => {
            assert!(matches!(err, DrillError::Operational(_)));
            assert!(err.message().contains("zero mapped topics"));
        }
        other => panic!("the target must not be asked: {other:?}"),
    }
}

#[test]
fn classify_parity_all_refuses_a_mapped_topic_with_no_archive_facts() {
    let facts = facts_one_segment();
    let mapping = mapping_of(&[("payments", "drill-payments")]);
    match classify_parity_all(&facts, &mapping, 1, &vec![]) {
        Step::Done(Err(err)) => {
            assert!(matches!(err, DrillError::Operational(_)));
            assert!(err.message().contains("no archive facts"));
        }
        other => panic!("the target must not be asked: {other:?}"),
    }
}

/// Finds the newest record, with the ends and the last timestamp that a test
/// gives each partition.
fn newest(
    mapping: &TextMap,
    ends: &[(i32, i64)],
    last: &dyn Fn(i32) -> Option<i64>,
) -> Result<i64, DrillError> {
    let mut reads: Vec<NewestRead> = Vec::new();
    loop {
        match newest_ts(mapping, &reads) {
            Step::Done(r) => return r,
            Step::Ask(NewestQuestion::EndOffsets(_)) => reads.push(NewestRead {
                end_offsets: ends.to_vec(),
                last: vec![],
            }),
            Step::Ask(NewestQuestion::Last { partition, .. }) => {
                reads.last_mut().unwrap().last.push(last(partition))
            }
        }
    }
}

#[test]
fn newest_ts_refuses_an_empty_mapping() {
    let err = newest(&TextMap::new(), &[], &|_| panic!("nothing is read")).unwrap_err();
    assert!(matches!(err, DrillError::Operational(_)));
    assert!(err.message().contains("nothing to measure"));
}

#[test]
fn newest_ts_refuses_when_every_mapped_partition_is_empty() {
    let m = mapping_of(&[("orders", "drill-orders")]);
    let err = newest(&m, &[(0, 0)], &|_| {
        panic!("no partition has a positive end offset; nothing must be read")
    })
    .unwrap_err();
    assert!(matches!(err, DrillError::Operational(_)));
    assert!(err.message().contains("no restored records"));
}

#[test]
fn newest_ts_returns_the_maximum_not_the_minimum_across_partitions() {
    let m = mapping_of(&[("orders", "drill-orders")]);
    // Partition 0's last record is OLDER; partition 1's is NEWER.
    let found = newest(&m, &[(0, 1), (1, 1)], &|p| Some(if p == 0 { 100 } else { 900 })).unwrap();
    assert_eq!(
        found, 900,
        "must be the MAXIMUM restored timestamp across every mapped partition, \
         never the minimum or merely the first one seen"
    );
}

// ---- records, settings, and the verification as a whole ----------------------------------

fn record(offset: i64, original: Option<&str>, fingerprint: &str) -> ConsumedRecord {
    ConsumedRecord {
        partition: 0,
        offset,
        timestamp_ms: 50,
        headers: match original {
            Some(o) => vec![("x-original-offset".to_string(), Some(o.as_bytes().to_vec()))],
            None => vec![],
        },
        fingerprint: fingerprint.to_string(),
    }
}

#[test]
fn a_record_is_compared_at_the_offset_it_had_at_the_source() {
    assert_eq!(offset_at_source(&record(3, Some("17"), "x")), 17);
    assert_eq!(offset_at_source(&record(3, None, "x")), 3);
    assert_eq!(offset_at_source(&record(3, Some("no number"), "x")), 3);
    let archive = vec![
        fingerprint("orders", 0, 17, "sha256:a"),
        fingerprint("orders", 0, 18, "sha256:b"),
        fingerprint("orders", 0, 19, "sha256:c"),
    ];
    let consumed = vec![record(0, Some("17"), "sha256:a"), record(1, Some("18"), "sha256:z")];
    let (compared, matching, complaints) = compare(&archive, &consumed);
    assert_eq!((compared, matching), (3, 1));
    assert_eq!(complaints.len(), 2);
}

#[test]
fn a_setting_that_differs_is_a_deviation_and_one_that_agrees_is_none() {
    let source = mapping_of(&[("cleanup.policy", "compact"), ("retention.ms", "1000")]);
    let same = classify_parity(&source, &source, 3, 3, 3, 3);
    assert!(same.1.is_empty(), "{same:?}");
    let target = mapping_of(&[("cleanup.policy", "delete"), ("retention.ms", "1000")]);
    let differs = classify_parity(&source, &target, 3, 2, 3, 3);
    assert!(
        differs.1.iter().any(|k| k.contains("cleanup.policy"))
            || differs.0.iter().any(|k| k.contains("cleanup.policy")),
        "{differs:?}"
    );
}

#[test]
fn a_whole_verification_passes_on_records_that_came_back() {
    let (store, sha) = store_with("logweir/k", b"real segment bytes");
    let mut facts = facts_one_segment();
    facts.topics[0].partitions[0].segments[0].sha256 = sha;
    facts.topics[0].partitions[0].segments[0].record_count = 2;
    let sel = vec![sel_for("orders", 0, (0, 100))];
    let mapping = mapping_of(&[("orders", "drill-orders")]);
    let archives = || {
        probe_archive_modes(
            &sel,
            vec![Ok(vec![
                fingerprint("orders", 0, 0, "sha256:a"),
                fingerprint("orders", 0, 1, "sha256:b"),
            ])],
        )
    };
    let verify = |second: &str, validated: Result<i32, EngineError>| {
        let mut validation = None;
        let mut probed = None;
        let mut reads = VerifyReads {
            selections: vec![SelectionReads {
                digests: vec![],
                consumed: None,
            }],
            parity: vec![],
            newest: vec![],
            verified_at: None,
            failed: None,
        };
        loop {
            match run(&facts, &sel, &mapping, 1, &validation, &probed, &reads) {
                Step::Done(r) => return r.unwrap(),
                Step::Ask(VerifyQuestion::ValidationRun) => validation = Some(validated.clone()),
                Step::Ask(VerifyQuestion::Probe) => probed = Some(archives()),
                Step::Ask(VerifyQuestion::Selection(i, SelectionQuestion::Segment(key))) => {
                    reads.selections[i].digests.push(hex_of(&store[&key]))
                }
                Step::Ask(VerifyQuestion::Selection(i, SelectionQuestion::Records { .. })) => {
                    reads.selections[i].consumed =
                        Some(vec![record(0, None, "sha256:a"), record(1, None, second)])
                }
                Step::Ask(VerifyQuestion::Parity(topic)) => {
                    assert_eq!(topic, "drill-orders");
                    reads.parity.push(ParityRead {
                        configs: TextMap::new(),
                        end_offsets: vec![(0, 2)],
                    })
                }
                Step::Ask(VerifyQuestion::Newest(NewestQuestion::EndOffsets(_))) => {
                    reads.newest.push(NewestRead {
                        end_offsets: vec![(0, 2)],
                        last: vec![],
                    })
                }
                Step::Ask(VerifyQuestion::Newest(NewestQuestion::Last { offset, .. })) => {
                    assert_eq!(offset, 1);
                    reads.newest[0].last.push(Some(77))
                }
                Step::Ask(VerifyQuestion::Now) => {
                    reads.verified_at = Some(Timestamp::new(9, 0).unwrap())
                }
            }
        }
    };
    let good = verify("sha256:b", Ok(0));
    assert_eq!(good.integrity.result, IntegrityResult::Pass);
    assert_eq!(good.integrity.level, IntegrityLevel::ByteFingerprint);
    assert_eq!(good.records_restored, 2);
    assert_eq!(good.newest_restored_ts_ms, 77);
    let rate = good.pass_rate().unwrap();
    assert_eq!((rate.matching, rate.sampled), (2, 2));
    let bad = verify("sha256:z", Ok(0));
    assert_eq!(bad.integrity.result, IntegrityResult::Fail);
    assert_eq!(bad.integrity.mismatches, 1);
    let unvalidated = verify("sha256:b", Err(EngineError::Operational("exit 1".into())));
    assert_eq!(unvalidated.integrity.result, IntegrityResult::Pass);
    assert_eq!(unvalidated.records_restored, 2);
    for said in [Ok(1), Err(EngineError::Unsupported("none".into()))] {
        let again = verify("sha256:z", said);
        assert_eq!(format!("{:?}", again.integrity), format!("{:?}", bad.integrity));
        assert_eq!(format!("{:?}", again.topic_parity), format!("{:?}", bad.topic_parity));
        assert_eq!(again.records_restored, bad.records_restored);
        assert_eq!(again.newest_restored_ts_ms, bad.newest_restored_ts_ms);
    }
}

#[test]
fn an_archive_that_cannot_be_probed_ends_the_verification() {
    let facts = facts_one_segment();
    let sel = vec![sel_for("orders", 0, (0, 100))];
    let mapping = mapping_of(&[("orders", "drill-orders")]);
    let mut reads = VerifyReads {
        selections: vec![],
        parity: vec![],
        newest: vec![],
        verified_at: None,
        failed: None,
    };
    let failed = Some(Err(EngineError::Operational("disk full".into())));
    match run(&facts, &sel, &mapping, 1, &Some(Ok(0)), &failed, &reads) {
        Step::Done(Err(e)) => assert_eq!(e.message(), "engine: disk full"),
        other => panic!("{other:?}"),
    }
    match run(&facts, &vec![], &mapping, 1, &None, &None, &reads) {
        Step::Done(Err(e)) => assert!(e.message().contains("zero sample selections")),
        other => panic!("{other:?}"),
    }
    let probed = Some(Ok(vec![SelectionArchive::Unsupported("none".into())]));
    reads.failed = Some(ReadFault::Archive(EngineError::Operational("no such segment".into())));
    match run(&facts, &sel, &mapping, 1, &Some(Ok(0)), &probed, &reads) {
        Step::Done(Err(e)) => assert_eq!(e.message(), "engine: no such segment"),
        other => panic!("{other:?}"),
    }
    reads.failed = Some(ReadFault::Cluster(KafkaError::Other("not the leader".into())));
    match run(&facts, &sel, &mapping, 1, &Some(Ok(0)), &probed, &reads) {
        Step::Done(Err(e)) => assert!(e.message().contains("not the leader")),
        other => panic!("{other:?}"),
    }
}
