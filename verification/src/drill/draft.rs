//! What the document says before anything was measured, and what each phase
//! puts into it.
use vstd::prelude::*;
use crate::clock::{Moment, Timestamp};
use crate::drill::error::{refuse, DrillError, ErrorModel};
use crate::drill::facts::{BackupSetFacts, SampleSelection};
use crate::drill::phase0_admit::Admitted;
use crate::drill::phase4_sample::Selection;
use crate::drill::phase8_score::text_of;
use crate::drill::scorecard::{
    copy_text, ApprovalInfo, AuthSummary, EngineInfo, EvidenceInfo, Integrity, IntegrityLevel,
    IntegrityResult, LeverState, Levers, MatrixVerdict, Measured, Objectives, Outcome, SampleInfo,
    Scorecard, SourceInfo, TargetDiffSummary, TargetInfo, TopicParity,
};
use crate::drill::spec::{DrillSpec, SampleSpec, TargetMode};
use crate::text::{blank, is_blank, join, joined, texts};

verus! {

/// The engine as it names itself.
#[derive(Debug)]
pub struct EngineId {
    pub id: String,
    pub version: String,
    pub digest: String,
}

/// The failure where the engine does not name its image.
pub open spec fn unnamed_engine(field: Seq<char>, var: Seq<char>) -> ErrorModel {
    ErrorModel::Operational(
        field + " is empty; a signed scorecard must name the engine image it ran. Set "@ + var
            + " to the value of the digest-pinned image this binary was extracted from."@,
    )
}

/// What is missing from the engine's name.
pub open spec fn identity_failure(id: EngineId) -> Option<ErrorModel> {
    if blank(id.version@) {
        Some(unnamed_engine("engine.version"@, "LOGWEIR_ENGINE_VERSION"@))
    } else if blank(id.digest@) {
        Some(unnamed_engine("engine.digest"@, "LOGWEIR_ENGINE_DIGEST"@))
    } else {
        None
    }
}

/// The failure where the engine does not name its image.
fn unnamed(field: &str, var: &str) -> (r: DrillError)
    ensures
        r@ == unnamed_engine(field@, var@),
{
    let mut s = field.to_owned();
    s.append(" is empty; a signed scorecard must name the engine image it ran. Set ");
    s.append(var);
    s.append(" to the value of the digest-pinned image this binary was extracted from.");
    DrillError::Operational(s)
}

/// Requires that the engine names the version and the digest of its image.
pub fn assert_engine_identity(id: &EngineId) -> (r: Result<(), DrillError>)
    ensures
        match identity_failure(*id) {
            None => r is Ok,
            Some(m) => r matches Err(e) && e@ == m,
        },
        r is Ok <==> !blank(id.version@) && !blank(id.digest@),
{
    if is_blank(id.version.as_str()) {
        return Err(unnamed("engine.version", "LOGWEIR_ENGINE_VERSION"));
    }
    if is_blank(id.digest.as_str()) {
        return Err(unnamed("engine.digest", "LOGWEIR_ENGINE_DIGEST"));
    }
    Ok(())
}

/// The marker topic that a document names: the plan's, where the target was
/// checked for it, and none where it was not.
pub open spec fn marker_of(spec: DrillSpec) -> Option<Seq<char>> {
    match spec.target.mode {
        TargetMode::Scratch => Some(spec.target.marker_topic@),
        TargetMode::NewTopic => None,
    }
}

/// The marker topic that a document names.
pub fn marker_topic_for(spec: &DrillSpec) -> (r: Option<String>)
    ensures
        text_of(r) == marker_of(*spec),
{
    match spec.target.mode {
        TargetMode::Scratch => Some(spec.target.marker_topic.clone()),
        TargetMode::NewTopic => None,
    }
}

/// The document claims nothing of the engine but its name.
pub open spec fn engine_unproven(e: EngineInfo, id: EngineId) -> bool {
    &&& e.id@ == id.id@
    &&& e.version@ == id.version@
    &&& e.digest@ == id.digest@
    &&& e.execution@ == "subprocess"@
    &&& e.levers.header_preflight == LeverState::Ignored
    &&& e.levers.dry_run_check_segments == LeverState::UnknownNotObservable
    &&& e.levers.unknown_key_warnings@.len() == 0
    &&& e.matrix_verdict == MatrixVerdict::FailLeverNotHonoured
    &&& e.matrix_verdict_reason is None
}

/// The document claims nothing of where it was restored to.
pub open spec fn target_unproven(t: TargetInfo, spec: DrillSpec) -> bool {
    &&& t.cluster_id@.len() == 0
    &&& t.mode == spec.target.mode
    &&& text_of(t.marker_topic) == marker_of(spec)
    &&& t.topic_mapping_prefix@ == spec.target.topic_mapping_prefix@
    &&& t.topic_mapping_sha256@.len() == 0
    &&& t.topic_mapping_entries == 0
    &&& t.auth is None
}

/// The document holds no approval.
pub open spec fn unapproved(a: ApprovalInfo) -> bool {
    &&& a.approver@.len() == 0
    &&& a.ticket@.len() == 0
    &&& a.plan_hash@.len() == 0
    &&& a.approved_at@ == (Moment { secs: 0, nanos: 0 })
    &&& a.key_id@.len() == 0
    &&& !a.self_attested
}

/// Nothing was measured.
pub open spec fn unmeasured(m: Measured) -> bool {
    &&& m.rto_seconds is None
    &&& m.rto_requested_to_verified_seconds is None
    &&& m.rto_restore_only_seconds is None
    &&& m.rto_excluding_preflight_seconds is None
    &&& m.rpo_seconds is None
    &&& m.rpo_source_relative_seconds is None
    &&& text_of(m.rpo_source_relative_unmeasured_reason) == Some("source cluster never contacted"@)
}

/// Nothing was sampled.
pub open spec fn unsampled(s: SampleInfo, spec: SampleSpec) -> bool {
    &&& s.window_start == spec.window_start
    &&& s.window_end == spec.window_end
    &&& s.topics == 0
    &&& s.partitions == 0
    &&& s.records_expected == 0
    &&& s.records_restored == 0
    &&& s.anchor@ == spec.anchor.name()
    &&& s.coverage_note@ == "phase 4 has not run"@
}

/// Nothing was verified.
pub open spec fn unverified(i: Integrity) -> bool {
    &&& i.level == IntegrityLevel::NotAttempted
    &&& i.result == IntegrityResult::Fail
    &&& i.partial_reason is None
    &&& i.records_sampled == 0
    &&& i.records_sampled_matching == 0
    &&& i.mismatches == 0
    &&& i.pass_rate_measured is None
    &&& i.restored_principal_could_consume is None
}

/// Nothing was stored.
pub open spec fn unstored(e: EvidenceInfo) -> bool {
    &&& e.version_id is None
    &&& e.retain_until is None
    &&& !e.immutable
    &&& !e.create_only_enforced
    &&& e.offset_report_key is None
    &&& e.offset_report_sha256 is None
}

/// A document before anything was measured: it names the run and what is asked
/// for, and claims nothing else.
pub open spec fn is_draft(
    sc: Scorecard,
    run_id: Seq<char>,
    format_version: Seq<char>,
    triggered_by: Option<String>,
    id: EngineId,
    spec: DrillSpec,
    requested_at: Timestamp,
) -> bool {
    &&& sc.format_version@ == format_version
    &&& sc.run_id@ == run_id
    &&& sc.requested_at == requested_at
    &&& sc.triggered_by == triggered_by
    &&& sc.outcome == Outcome::FailIntegrity
    &&& sc.last_phase_completed == -1
    &&& sc.approval_validated_at is None
    &&& engine_unproven(sc.engine, id)
    &&& sc.source.backup_id@.len() == 0
    &&& sc.source.manifest_sha256@.len() == 0
    &&& sc.source.manifest_version_id is None
    &&& !sc.source.captured_by_logweir
    &&& target_unproven(sc.target, spec)
    &&& unapproved(sc.approval)
    &&& sc.phases@.len() == 0
    &&& unmeasured(sc.measured)
    &&& sc.objectives.rto_seconds == spec.objectives.rto_seconds
    &&& sc.objectives.rpo_seconds == spec.objectives.rpo_seconds
    &&& sc.objectives.pass_rate_bits == spec.objectives.pass_rate_bits
    &&& sc.objectives.met is None
    &&& unsampled(sc.sample, spec.sample)
    &&& sc.target_diff.collisions@.len() == 0
    &&& sc.target_diff.absent@.len() == 0
    &&& sc.target_diff.would_create@.len() == 0
    &&& sc.target_diff.level@.len() == 0
    &&& unverified(sc.integrity)
    &&& sc.topic_parity.intentionally_deviated@.len() == 0
    &&& sc.topic_parity.unexpected_divergence@.len() == 0
    &&& sc.engine_subreport is None
    &&& unstored(sc.evidence)
    &&& sc.redactions@.len() == 0
}

/// A text of no characters.
fn empty() -> (r: String)
    ensures
        r@.len() == 0,
{
    proof {
        reveal_strlit("");
    }
    "".to_owned()
}

/// A document before anything was measured.
pub fn new_scorecard(
    run_id: &str,
    format_version: &str,
    triggered_by: &Option<String>,
    id: &EngineId,
    spec: &DrillSpec,
    requested_at: Timestamp,
) -> (sc: Scorecard)
    ensures
        is_draft(sc, run_id@, format_version@, *triggered_by, *id, *spec, requested_at),
{
    Scorecard {
        format_version: format_version.to_owned(),
        run_id: run_id.to_owned(),
        requested_at,
        triggered_by: copy_text(triggered_by),
        outcome: Outcome::FailIntegrity,
        last_phase_completed: -1,
        approval_validated_at: None,
        engine: EngineInfo {
            id: id.id.clone(),
            version: id.version.clone(),
            digest: id.digest.clone(),
            execution: "subprocess".to_owned(),
            levers: Levers {
                header_preflight: LeverState::Ignored,
                dry_run_check_segments: LeverState::UnknownNotObservable,
                unknown_key_warnings: Vec::new(),
            },
            matrix_verdict: MatrixVerdict::FailLeverNotHonoured,
            matrix_verdict_reason: None,
        },
        source: SourceInfo {
            backup_id: empty(),
            manifest_sha256: empty(),
            manifest_version_id: None,
            captured_by_logweir: false,
        },
        target: TargetInfo {
            cluster_id: empty(),
            mode: spec.target.mode,
            marker_topic: marker_topic_for(spec),
            topic_mapping_prefix: spec.target.topic_mapping_prefix.clone(),
            topic_mapping_sha256: empty(),
            topic_mapping_entries: 0,
            auth: None,
        },
        approval: ApprovalInfo {
            approver: empty(),
            ticket: empty(),
            plan_hash: empty(),
            approved_at: Timestamp::epoch(),
            key_id: empty(),
            self_attested: false,
        },
        phases: Vec::new(),
        measured: Measured {
            rto_seconds: None,
            rto_requested_to_verified_seconds: None,
            rto_restore_only_seconds: None,
            rto_excluding_preflight_seconds: None,
            rpo_seconds: None,
            rpo_source_relative_seconds: None,
            rpo_source_relative_unmeasured_reason: Some(
                "source cluster never contacted".to_owned(),
            ),
        },
        objectives: Objectives {
            rto_seconds: spec.objectives.rto_seconds,
            rpo_seconds: spec.objectives.rpo_seconds,
            pass_rate_bits: spec.objectives.pass_rate_bits,
            met: None,
        },
        sample: SampleInfo {
            window_start: spec.sample.window_start,
            window_end: spec.sample.window_end,
            topics: 0,
            partitions: 0,
            records_expected: 0,
            records_restored: 0,
            anchor: spec.sample.anchor.as_str().to_owned(),
            coverage_note: "phase 4 has not run".to_owned(),
        },
        target_diff: TargetDiffSummary {
            collisions: Vec::new(),
            absent: Vec::new(),
            would_create: Vec::new(),
            level: empty(),
        },
        integrity: Integrity {
            level: IntegrityLevel::NotAttempted,
            result: IntegrityResult::Fail,
            partial_reason: None,
            records_sampled: 0,
            records_sampled_matching: 0,
            mismatches: 0,
            pass_rate_measured: None,
            restored_principal_could_consume: None,
        },
        topic_parity: TopicParity {
            intentionally_deviated: Vec::new(),
            unexpected_divergence: Vec::new(),
        },
        engine_subreport: None,
        evidence: EvidenceInfo {
            version_id: None,
            retain_until: None,
            immutable: false,
            create_only_enforced: false,
            offset_report_key: None,
            offset_report_sha256: None,
        },
        redactions: Vec::new(),
    }
}

/// What the document says of the backup set.
pub open spec fn source_is(r: SourceInfo, facts: BackupSetFacts) -> bool {
    &&& r.backup_id@ == facts.backup_id@
    &&& r.manifest_sha256@ == facts.manifest_sha256@
    &&& r.manifest_version_id == facts.manifest_version_id
    &&& !r.captured_by_logweir
}

/// What the document says of the backup set.
pub fn source_info(facts: &BackupSetFacts) -> (r: SourceInfo)
    ensures
        source_is(r, *facts),
{
    SourceInfo {
        backup_id: facts.backup_id.clone(),
        manifest_sha256: facts.manifest_sha256.clone(),
        manifest_version_id: copy_text(&facts.manifest_version_id),
        captured_by_logweir: false,
    }
}

/// What the document says of the target, once the plan was admitted.
pub open spec fn target_is(t: TargetInfo, spec: DrillSpec, admitted: Admitted, digest: Seq<char>) -> bool {
    &&& t.cluster_id@ == admitted.target_cluster_id@
    &&& t.mode == spec.target.mode
    &&& text_of(t.marker_topic) == marker_of(spec)
    &&& t.topic_mapping_prefix@ == admitted.topic_mapping_prefix@
    &&& t.topic_mapping_sha256@ == digest
    &&& t.topic_mapping_entries == admitted.topic_mapping@.len()
    &&& t.auth matches Some(a) && a.mode@ == spec.target.auth.mode_name() && a.username
        == spec.target.auth.principal()
}

/// What the document says of the target, once the plan was admitted. `digest`
/// is the digest of the topic mapping as it is rendered for the engine, or why
/// it cannot be rendered.
pub fn target_info(spec: &DrillSpec, admitted: &Admitted, digest: &Result<String, String>) -> (r:
    Result<TargetInfo, DrillError>)
    requires
        admitted.topic_mapping@.len() <= u32::MAX,
    ensures
        match digest {
            Ok(d) => r matches Ok(t) && target_is(t, *spec, *admitted, d@),
            Err(why) => r matches Err(e) && e@ == ErrorModel::Guard(why@),
        },
{
    match digest {
        Err(why) => Err(refuse(why.clone())),
        Ok(d) => Ok(
            TargetInfo {
                cluster_id: admitted.target_cluster_id.clone(),
                mode: spec.target.mode,
                marker_topic: marker_topic_for(spec),
                topic_mapping_prefix: admitted.topic_mapping_prefix.clone(),
                topic_mapping_sha256: d.clone(),
                topic_mapping_entries: admitted.topic_mapping.len() as u32,
                auth: Some(
                    AuthSummary {
                        mode: spec.target.auth.mode_str().to_owned(),
                        username: spec.target.auth.username(),
                    },
                ),
            },
        ),
    }
}

/// How many records a selection asks for.
pub open spec fn asked_for(sel: Seq<SampleSelection>) -> nat
    decreases sel.len(),
{
    if sel.len() == 0 {
        0
    } else {
        asked_for(sel.drop_last()) + sel.last().count as nat
    }
}

/// The records that the first selections ask for are no more than all.
proof fn asked_for_grows(sel: Seq<SampleSelection>, n: int)
    requires
        0 <= n <= sel.len(),
    ensures
        asked_for(sel.take(n)) <= asked_for(sel),
    decreases sel.len() - n,
{
    if n < sel.len() {
        assert(sel.take(n + 1).drop_last() =~= sel.take(n));
        asked_for_grows(sel, n + 1);
    } else {
        assert(sel.take(n) =~= sel);
    }
}

/// What is missing from the sampled window, in words.
pub open spec fn coverage_text(notes: Seq<Seq<char>>) -> Seq<char> {
    if notes.len() == 0 {
        "no capture gap or retention-pruned range overlaps the sampled window"@
    } else {
        joined(notes, "; "@)
    }
}

/// What the document says of the sample: how many records were asked for, and
/// not how many the window holds.
pub open spec fn sample_is(s: SampleInfo, spec: SampleSpec, sel: Selection) -> bool {
    &&& s.window_start == sel.window.0
    &&& s.window_end == sel.window.1
    &&& s.topics == sel.topics
    &&& s.partitions == sel.partitions
    &&& s.records_expected == asked_for(sel.per_partition@)
    &&& s.records_restored == 0
    &&& s.anchor@ == spec.anchor.name()
    &&& s.coverage_note@ == coverage_text(texts(sel.notes@))
}

/// What the document says of the sample.
pub fn sample_info(spec: &SampleSpec, sel: &Selection) -> (s: SampleInfo)
    requires
        asked_for(sel.per_partition@) <= u64::MAX,
    ensures
        sample_is(s, *spec, *sel),
{
    let mut records_expected: u64 = 0;
    let mut i: usize = 0;
    proof {
        assert(sel.per_partition@.take(0) =~= Seq::empty());
    }
    while i < sel.per_partition.len()
        invariant
            0 <= i <= sel.per_partition.len(),
            asked_for(sel.per_partition@) <= u64::MAX,
            records_expected == asked_for(sel.per_partition@.take(i as int)),
        decreases sel.per_partition.len() - i,
    {
        proof {
            assert(sel.per_partition@.take(i + 1).drop_last() =~= sel.per_partition@.take(
                i as int,
            ));
            asked_for_grows(sel.per_partition@, i + 1);
        }
        records_expected = records_expected + sel.per_partition[i].count as u64;
        i += 1;
    }
    proof {
        assert(sel.per_partition@.take(i as int) =~= sel.per_partition@);
        assert(texts(sel.notes@).len() == sel.notes@.len());
    }
    SampleInfo {
        window_start: sel.window.0,
        window_end: sel.window.1,
        topics: sel.topics,
        partitions: sel.partitions,
        records_expected,
        records_restored: 0,
        anchor: spec.anchor.as_str().to_owned(),
        coverage_note: if sel.notes.len() == 0 {
            "no capture gap or retention-pruned range overlaps the sampled window".to_owned()
        } else {
            join(&sel.notes, "; ")
        },
    }
}

} // verus!
