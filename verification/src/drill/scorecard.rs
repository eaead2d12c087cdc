//! The document a drill signs.
use vstd::prelude::*;
use crate::clock::Timestamp;
use crate::drill::spec::TargetMode;
use crate::text::copy_texts;

verus! {

/// How a drill came out.
#[derive(Clone, Copy, Debug, PartialEq, Eq, Structural)]
pub enum Outcome {
    Pass,
    FailIntegrity,
    FailObjective,
    PreflightFailed,
}

impl Outcome {
    /// The outcome's name in the document.
    pub open spec fn name(self) -> Seq<char> {
        match self {
            Outcome::Pass => "pass"@,
            Outcome::FailIntegrity => "fail-integrity"@,
            Outcome::FailObjective => "fail-objective"@,
            Outcome::PreflightFailed => "preflight-failed"@,
        }
    }

    /// The outcome's name in the document.
    pub fn as_str(self) -> (r: &'static str)
        ensures
            r@ == self.name(),
    {
        match self {
            Outcome::Pass => "pass",
            Outcome::FailIntegrity => "fail-integrity",
            Outcome::FailObjective => "fail-objective",
            Outcome::PreflightFailed => "preflight-failed",
        }
    }

    /// The outcome's name in a page's summary.
    pub open spec fn label(self) -> Seq<char> {
        match self {
            Outcome::Pass => "Pass"@,
            Outcome::FailIntegrity => "FailIntegrity"@,
            Outcome::FailObjective => "FailObjective"@,
            Outcome::PreflightFailed => "PreflightFailed"@,
        }
    }

    /// The outcome's name in a page's summary.
    pub fn label_str(self) -> (r: &'static str)
        ensures
            r@ == self.label(),
    {
        match self {
            Outcome::Pass => "Pass",
            Outcome::FailIntegrity => "FailIntegrity",
            Outcome::FailObjective => "FailObjective",
            Outcome::PreflightFailed => "PreflightFailed",
        }
    }
}

/// The strongest claim the verification could make of every selection.
#[derive(Clone, Copy, Debug, PartialEq, Eq, Structural)]
pub enum IntegrityLevel {
    ByteFingerprint,
    ConsumeOnly,
    NotAttempted,
}

impl IntegrityLevel {
    /// The level's name in the document.
    pub open spec fn name(self) -> Seq<char> {
        match self {
            IntegrityLevel::ByteFingerprint => "byte-fingerprint"@,
            IntegrityLevel::ConsumeOnly => "consume-only"@,
            IntegrityLevel::NotAttempted => "not-attempted"@,
        }
    }

    /// The level's name in the document.
    pub fn as_str(self) -> (r: &'static str)
        ensures
            r@ == self.name(),
    {
        match self {
            IntegrityLevel::ByteFingerprint => "byte-fingerprint",
            IntegrityLevel::ConsumeOnly => "consume-only",
            IntegrityLevel::NotAttempted => "not-attempted",
        }
    }
}

/// What the verification concluded.
#[derive(Clone, Copy, Debug, PartialEq, Eq, Structural)]
pub enum IntegrityResult {
    Pass,
    Partial,
    Fail,
}

impl IntegrityResult {
    /// The result's name in the document.
    pub open spec fn name(self) -> Seq<char> {
        match self {
            IntegrityResult::Pass => "pass"@,
            IntegrityResult::Partial => "partial"@,
            IntegrityResult::Fail => "fail"@,
        }
    }

    /// The result's name in the document.
    pub fn as_str(self) -> (r: &'static str)
        ensures
            r@ == self.name(),
    {
        match self {
            IntegrityResult::Pass => "pass",
            IntegrityResult::Partial => "partial",
            IntegrityResult::Fail => "fail",
        }
    }
}

/// Whether the engine acted on a setting it was given.
#[derive(Clone, Copy, Debug, PartialEq, Eq, Structural)]
pub enum LeverState {
    Honoured,
    Ignored,
    UnknownNotObservable,
}

/// The row of the engine matrix that a run establishes.
#[derive(Clone, Copy, Debug, PartialEq, Eq, Structural)]
pub enum MatrixVerdict {
    Pass,
    PassDegraded,
    Fail,
    FailLeverNotHonoured,
}

/// A rate as the two counts it is taken from.
#[derive(Clone, Copy, Debug, PartialEq, Eq, Structural)]
pub struct PassRate {
    pub matching: u64,
    pub sampled: u64,
}

/// What the verification concluded, and over how much.
#[derive(Debug)]
pub struct Integrity {
    pub level: IntegrityLevel,
    pub result: IntegrityResult,
    pub partial_reason: Option<String>,
    pub records_sampled: u64,
    pub records_sampled_matching: u64,
    pub mismatches: u64,
    pub pass_rate_measured: Option<PassRate>,
    pub restored_principal_could_consume: Option<bool>,
}

impl Clone for Integrity {
    fn clone(&self) -> (r: Self)
        ensures
            r == *self,
    {
        Integrity {
            level: self.level,
            result: self.result,
            partial_reason: copy_text(&self.partial_reason),
            records_sampled: self.records_sampled,
            records_sampled_matching: self.records_sampled_matching,
            mismatches: self.mismatches,
            pass_rate_measured: self.pass_rate_measured,
            restored_principal_could_consume: self.restored_principal_could_consume,
        }
    }
}

/// Copies a text that may be absent.
pub fn copy_text(s: &Option<String>) -> (r: Option<String>)
    ensures
        r == *s,
{
    match s {
        Some(t) => Some(t.clone()),
        None => None,
    }
}

/// Which settings the engine acted on.
#[derive(Debug)]
pub struct Levers {
    pub header_preflight: LeverState,
    pub dry_run_check_segments: LeverState,
    pub unknown_key_warnings: Vec<String>,
}

/// The engine that ran.
#[derive(Debug)]
pub struct EngineInfo {
    pub id: String,
    pub version: String,
    pub digest: String,
    pub execution: String,
    pub levers: Levers,
    pub matrix_verdict: MatrixVerdict,
    pub matrix_verdict_reason: Option<String>,
}

/// The backup set that was restored.
#[derive(Debug)]
pub struct SourceInfo {
    pub backup_id: String,
    pub manifest_sha256: String,
    pub manifest_version_id: Option<String>,
    pub captured_by_logweir: bool,
}

impl Clone for SourceInfo {
    fn clone(&self) -> (r: Self)
        ensures
            r == *self,
    {
        SourceInfo {
            backup_id: self.backup_id.clone(),
            manifest_sha256: self.manifest_sha256.clone(),
            manifest_version_id: copy_text(&self.manifest_version_id),
            captured_by_logweir: self.captured_by_logweir,
        }
    }
}

/// How the target was authenticated to.
#[derive(Debug)]
pub struct AuthSummary {
    pub mode: String,
    pub username: Option<String>,
}

impl Clone for AuthSummary {
    fn clone(&self) -> (r: Self)
        ensures
            r == *self,
    {
        AuthSummary {
            mode: self.mode.clone(),
            username: copy_text(&self.username),
        }
    }
}

/// The cluster that was restored to.
#[derive(Debug)]
pub struct TargetInfo {
    pub cluster_id: String,
    pub mode: TargetMode,
    pub marker_topic: Option<String>,
    pub topic_mapping_prefix: String,
    pub topic_mapping_sha256: String,
    pub topic_mapping_entries: u32,
    pub auth: Option<AuthSummary>,
}

impl Clone for TargetInfo {
    fn clone(&self) -> (r: Self)
        ensures
            r == *self,
    {
        TargetInfo {
            cluster_id: self.cluster_id.clone(),
            mode: self.mode,
            marker_topic: copy_text(&self.marker_topic),
            topic_mapping_prefix: self.topic_mapping_prefix.clone(),
            topic_mapping_sha256: self.topic_mapping_sha256.clone(),
            topic_mapping_entries: self.topic_mapping_entries,
            auth: match &self.auth {
                Some(a) => Some(a.clone()),
                None => None,
            },
        }
    }
}

/// Who approved the plan.
#[derive(Debug)]
pub struct ApprovalInfo {
    pub approver: String,
    pub ticket: String,
    pub plan_hash: String,
    pub approved_at: Timestamp,
    pub key_id: String,
    pub self_attested: bool,
}

impl Clone for ApprovalInfo {
    fn clone(&self) -> (r: Self)
        ensures
            r == *self,
    {
        ApprovalInfo {
            approver: self.approver.clone(),
            ticket: self.ticket.clone(),
            plan_hash: self.plan_hash.clone(),
            approved_at: self.approved_at,
            key_id: self.key_id.clone(),
            self_attested: self.self_attested,
        }
    }
}

/// How one phase went.
#[derive(Debug)]
pub struct PhaseRecord {
    pub phase: i8,
    pub name: String,
    pub at: Timestamp,
    pub outcome: String,
    pub duration_ms: u64,
    pub notes: Vec<String>,
}

/// The times and the gap that were measured.
#[derive(Debug)]
pub struct Measured {
    pub rto_seconds: Option<u64>,
    pub rto_requested_to_verified_seconds: Option<u64>,
    pub rto_restore_only_seconds: Option<u64>,
    pub rto_excluding_preflight_seconds: Option<u64>,
    pub rpo_seconds: Option<i64>,
    pub rpo_source_relative_seconds: Option<i64>,
    pub rpo_source_relative_unmeasured_reason: Option<String>,
}

impl Clone for Measured {
    fn clone(&self) -> (r: Self)
        ensures
            r == *self,
    {
        Measured {
            rto_seconds: self.rto_seconds,
            rto_requested_to_verified_seconds: self.rto_requested_to_verified_seconds,
            rto_restore_only_seconds: self.rto_restore_only_seconds,
            rto_excluding_preflight_seconds: self.rto_excluding_preflight_seconds,
            rpo_seconds: self.rpo_seconds,
            rpo_source_relative_seconds: self.rpo_source_relative_seconds,
            rpo_source_relative_unmeasured_reason: copy_text(&self.rpo_source_relative_unmeasured_reason),
        }
    }
}

/// What was asked for, and whether it was met.
#[derive(Clone, Copy, Debug)]
pub struct Objectives {
    pub rto_seconds: Option<u64>,
    pub rpo_seconds: Option<i64>,
    pub pass_rate_bits: Option<u64>,
    pub met: Option<bool>,
}

/// What was sampled.
#[derive(Debug)]
pub struct SampleInfo {
    pub window_start: Timestamp,
    pub window_end: Timestamp,
    pub topics: u32,
    pub partitions: u32,
    pub records_expected: u64,
    pub records_restored: u64,
    pub anchor: String,
    pub coverage_note: String,
}

impl Clone for SampleInfo {
    fn clone(&self) -> (r: Self)
        ensures
            r == *self,
    {
        SampleInfo {
            window_start: self.window_start,
            window_end: self.window_end,
            topics: self.topics,
            partitions: self.partitions,
            records_expected: self.records_expected,
            records_restored: self.records_restored,
            anchor: self.anchor.clone(),
            coverage_note: self.coverage_note.clone(),
        }
    }
}

/// How the target differed before the restore.
#[derive(Debug)]
pub struct TargetDiffSummary {
    pub collisions: Vec<String>,
    pub absent: Vec<String>,
    pub would_create: Vec<(String, i32)>,
    pub level: String,
}

/// How the restored topics differ from their sources.
#[derive(Debug)]
pub struct TopicParity {
    pub intentionally_deviated: Vec<String>,
    pub unexpected_divergence: Vec<String>,
}

/// The engine's own report, kept as it was.
#[derive(Debug)]
pub struct EngineSubreport {
    pub retained_verbatim: bool,
    pub retrieved_from: String,
    pub caveat: String,
    pub body_b64: String,
    pub body_sha256: String,
}

impl Clone for EngineSubreport {
    fn clone(&self) -> (r: Self)
        ensures
            r == *self,
    {
        EngineSubreport {
            retained_verbatim: self.retained_verbatim,
            retrieved_from: self.retrieved_from.clone(),
            caveat: self.caveat.clone(),
            body_b64: self.body_b64.clone(),
            body_sha256: self.body_sha256.clone(),
        }
    }
}

/// Where the evidence is, and what protects it.
#[derive(Debug)]
pub struct EvidenceInfo {
    pub version_id: Option<String>,
    pub retain_until: Option<Timestamp>,
    pub immutable: bool,
    pub create_only_enforced: bool,
    pub offset_report_key: Option<String>,
    pub offset_report_sha256: Option<String>,
}

impl Clone for EvidenceInfo {
    fn clone(&self) -> (r: Self)
        ensures
            r == *self,
    {
        EvidenceInfo {
            version_id: copy_text(&self.version_id),
            retain_until: self.retain_until,
            immutable: self.immutable,
            create_only_enforced: self.create_only_enforced,
            offset_report_key: copy_text(&self.offset_report_key),
            offset_report_sha256: copy_text(&self.offset_report_sha256),
        }
    }
}

/// A part of the document that was taken out, and why.
#[derive(Debug)]
pub struct Redaction {
    pub path: String,
    pub reason: String,
}

impl Clone for Redaction {
    fn clone(&self) -> (r: Self)
        ensures
            r == *self,
    {
        Redaction {
            path: self.path.clone(),
            reason: self.reason.clone(),
        }
    }
}

/// The document a drill signs.
#[derive(Debug)]
pub struct Scorecard {
    pub format_version: String,
    pub run_id: String,
    pub requested_at: Timestamp,
    pub triggered_by: Option<String>,
    pub outcome: Outcome,
    pub last_phase_completed: i8,
    pub approval_validated_at: Option<Timestamp>,
    pub engine: EngineInfo,
    pub source: SourceInfo,
    pub target: TargetInfo,
    pub approval: ApprovalInfo,
    pub phases: Vec<PhaseRecord>,
    pub measured: Measured,
    pub objectives: Objectives,
    pub sample: SampleInfo,
    pub target_diff: TargetDiffSummary,
    pub integrity: Integrity,
    pub topic_parity: TopicParity,
    pub engine_subreport: Option<EngineSubreport>,
    pub evidence: EvidenceInfo,
    pub redactions: Vec<Redaction>,
}

/// Two records of a phase say the same.
pub open spec fn same_record(a: PhaseRecord, b: PhaseRecord) -> bool {
    a == (PhaseRecord { notes: a.notes, ..b }) && a.notes@ == b.notes@
}

/// Two lists of records say the same.
pub open spec fn same_records(a: Seq<PhaseRecord>, b: Seq<PhaseRecord>) -> bool {
    a.len() == b.len() && forall|i: int| 0 <= i < a.len() ==> same_record(#[trigger] a[i], b[i])
}

/// Two documents say the same of the engine.
pub open spec fn same_engine(a: EngineInfo, b: EngineInfo) -> bool {
    &&& a == (EngineInfo { levers: a.levers, ..b })
    &&& a.levers == (Levers { unknown_key_warnings: a.levers.unknown_key_warnings, ..b.levers })
    &&& a.levers.unknown_key_warnings@ == b.levers.unknown_key_warnings@
}

/// Two documents say the same.
pub open spec fn same_document(a: Scorecard, b: Scorecard) -> bool {
    &&& a == (Scorecard {
        engine: a.engine,
        phases: a.phases,
        target_diff: a.target_diff,
        topic_parity: a.topic_parity,
        redactions: a.redactions,
        ..b
    })
    &&& same_engine(a.engine, b.engine)
    &&& same_records(a.phases@, b.phases@)
    &&& a.target_diff.collisions@ == b.target_diff.collisions@
    &&& a.target_diff.absent@ == b.target_diff.absent@
    &&& a.target_diff.would_create@ == b.target_diff.would_create@
    &&& a.target_diff.level == b.target_diff.level
    &&& a.topic_parity.intentionally_deviated@ == b.topic_parity.intentionally_deviated@
    &&& a.topic_parity.unexpected_divergence@ == b.topic_parity.unexpected_divergence@
    &&& a.redactions@ == b.redactions@
}

fn copy_records(v: &Vec<PhaseRecord>) -> (r: Vec<PhaseRecord>)
    ensures
        same_records(r@, v@),
{
    let mut out: Vec<PhaseRecord> = Vec::new();
    let mut i: usize = 0;
    while i < v.len()
        invariant
            0 <= i <= v.len(),
            out.len() == i,
            forall|j: int| 0 <= j < i ==> same_record(#[trigger] out@[j], v@[j]),
        decreases v.len() - i,
    {
        let p = &v[i];
        let notes = copy_texts(&p.notes);
        out.push(
            PhaseRecord {
                phase: p.phase,
                name: p.name.clone(),
                at: p.at,
                outcome: p.outcome.clone(),
                duration_ms: p.duration_ms,
                notes,
            },
        );
        i += 1;
    }
    out
}

fn copy_creations(v: &Vec<(String, i32)>) -> (r: Vec<(String, i32)>)
    ensures
        r@ == v@,
{
    let mut out: Vec<(String, i32)> = Vec::new();
    let mut i: usize = 0;
    while i < v.len()
        invariant
            0 <= i <= v.len(),
            out.len() == i,
            forall|j: int| 0 <= j < i ==> #[trigger] out@[j] == v@[j],
        decreases v.len() - i,
    {
        out.push((v[i].0.clone(), v[i].1));
        i += 1;
    }
    assert(out@ =~= v@);
    out
}

fn copy_redactions(v: &Vec<Redaction>) -> (r: Vec<Redaction>)
    ensures
        r@ == v@,
{
    let mut out: Vec<Redaction> = Vec::new();
    let mut i: usize = 0;
    while i < v.len()
        invariant
            0 <= i <= v.len(),
            out.len() == i,
            forall|j: int| 0 <= j < i ==> #[trigger] out@[j] == v@[j],
        decreases v.len() - i,
    {
        out.push(v[i].clone());
        i += 1;
    }
    assert(out@ =~= v@);
    out
}

impl Clone for Scorecard {
    /// A copy of the document, which says the same.
    fn clone(&self) -> (r: Self)
        ensures
            same_document(r, *self),
    {
        Scorecard {
            format_version: self.format_version.clone(),
            run_id: self.run_id.clone(),
            requested_at: self.requested_at,
            triggered_by: copy_text(&self.triggered_by),
            outcome: self.outcome,
            last_phase_completed: self.last_phase_completed,
            approval_validated_at: self.approval_validated_at,
            engine: EngineInfo {
                id: self.engine.id.clone(),
                version: self.engine.version.clone(),
                digest: self.engine.digest.clone(),
                execution: self.engine.execution.clone(),
                levers: Levers {
                    header_preflight: self.engine.levers.header_preflight,
                    dry_run_check_segments: self.engine.levers.dry_run_check_segments,
                    unknown_key_warnings: copy_texts(&self.engine.levers.unknown_key_warnings),
                },
                matrix_verdict: self.engine.matrix_verdict,
                matrix_verdict_reason: copy_text(&self.engine.matrix_verdict_reason),
            },
            source: self.source.clone(),
            target: self.target.clone(),
            approval: self.approval.clone(),
            phases: copy_records(&self.phases),
            measured: self.measured.clone(),
            objectives: self.objectives,
            sample: self.sample.clone(),
            target_diff: TargetDiffSummary {
                collisions: copy_texts(&self.target_diff.collisions),
                absent: copy_texts(&self.target_diff.absent),
                would_create: copy_creations(&self.target_diff.would_create),
                level: self.target_diff.level.clone(),
            },
            integrity: self.integrity.clone(),
            topic_parity: TopicParity {
                intentionally_deviated: copy_texts(&self.topic_parity.intentionally_deviated),
                unexpected_divergence: copy_texts(&self.topic_parity.unexpected_divergence),
            },
            engine_subreport: match &self.engine_subreport {
                Some(s) => Some(s.clone()),
                None => None,
            },
            evidence: self.evidence.clone(),
            redactions: copy_redactions(&self.redactions),
        }
    }
}

/// The first record of a phase.
pub open spec fn phase_at(phases: Seq<PhaseRecord>, phase: int) -> Option<int>
    decreases phases.len(),
{
    if phases.len() == 0 {
        None
    } else {
        match phase_at(phases.drop_last(), phase) {
            Some(i) => Some(i),
            None => if phases.last().phase == phase {
                Some(phases.len() - 1)
            } else {
                None
            },
        }
    }
}

/// The first record of a phase stands among the records, and is of that phase.
pub proof fn phase_at_is_first(phases: Seq<PhaseRecord>, phase: int)
    ensures
        match phase_at(phases, phase) {
            Some(i) => 0 <= i < phases.len() && phases[i].phase == phase && forall|j: int|
                0 <= j < i ==> (#[trigger] phases[j]).phase != phase,
            None => forall|j: int| 0 <= j < phases.len() ==> (#[trigger] phases[j]).phase != phase,
        },
    decreases phases.len(),
{
    if phases.len() > 0 {
        phase_at_is_first(phases.drop_last(), phase);
        match phase_at(phases.drop_last(), phase) {
            Some(i) => {
                assert(phases.drop_last()[i] == phases[i]);
                assert forall|j: int| 0 <= j < i implies (#[trigger] phases[j]).phase != phase by {
                    assert(phases.drop_last()[j] == phases[j]);
                }
            },
            None => {
                assert forall|j: int| 0 <= j < phases.len() - 1 implies (
                #[trigger] phases[j]).phase != phase by {
                    assert(phases.drop_last()[j] == phases[j]);
                }
            },
        }
    }
}

/// A record found among the first records is the first found among all.
pub proof fn phase_at_stays(phases: Seq<PhaseRecord>, n: int, phase: int)
    requires
        0 <= n <= phases.len(),
        phase_at(phases.take(n), phase) is Some,
    ensures
        phase_at(phases, phase) == phase_at(phases.take(n), phase),
    decreases phases.len() - n,
{
    if n < phases.len() {
        assert(phases.take(n + 1).drop_last() =~= phases.take(n));
        phase_at_stays(phases, n + 1, phase);
    } else {
        assert(phases.take(n) =~= phases);
    }
}

/// Finds the first record of a phase.
pub fn find_phase(phases: &Vec<PhaseRecord>, phase: i8) -> (r: Option<usize>)
    ensures
        match r {
            Some(i) => i < phases.len() && phase_at(phases@, phase as int) == Some(i as int),
            None => phase_at(phases@, phase as int) is None,
        },
{
    let mut i: usize = 0;
    proof {
        assert(phases@.take(0) =~= Seq::empty());
    }
    while i < phases.len()
        invariant
            0 <= i <= phases.len(),
            phase_at(phases@.take(i as int), phase as int) is None,
        decreases phases.len() - i,
    {
        proof {
            assert(phases@.take(i + 1).drop_last() =~= phases@.take(i as int));
            assert(phases@.take(i + 1).last() == phases@[i as int]);
        }
        if phases[i].phase == phase {
            proof {
                phase_at_stays(phases@, i + 1, phase as int);
            }
            return Some(i);
        }
        i += 1;
    }
    proof {
        assert(phases@.take(phases.len() as int) =~= phases@);
    }
    None
}

/// The notes of the first record of a phase.
pub open spec fn phase_notes(phases: Seq<PhaseRecord>, phase: int) -> Seq<String> {
    match phase_at(phases, phase) {
        Some(i) => phases[i].notes@,
        None => Seq::empty(),
    }
}

/// A copy of a document says what the document says.
pub proof fn a_copy_says_the_same(a: Scorecard, b: Scorecard, i: int)
    requires
        same_document(a, b),
    ensures
        a.run_id == b.run_id && a.outcome == b.outcome && a.integrity == b.integrity,
        a.measured == b.measured && a.objectives == b.objectives && a.approval == b.approval,
        a.source == b.source && a.target == b.target && a.sample == b.sample,
        a.evidence == b.evidence && a.last_phase_completed == b.last_phase_completed,
        a.engine.matrix_verdict == b.engine.matrix_verdict && a.engine.version == b.engine.version,
        a.engine.levers.header_preflight == b.engine.levers.header_preflight,
        a.phases@.len() == b.phases@.len(),
        0 <= i < b.phases@.len() ==> a.phases@[i].phase == b.phases@[i].phase && a.phases@[i].outcome
            == b.phases@[i].outcome && a.phases@[i].notes@ == b.phases@[i].notes@
            && a.phases@[i].duration_ms == b.phases@[i].duration_ms,
        a.redactions@ == b.redactions@,
        a.topic_parity.unexpected_divergence@ == b.topic_parity.unexpected_divergence@,
        a.target_diff.collisions@ == b.target_diff.collisions@,
{
    if 0 <= i < b.phases@.len() {
        assert(same_record(a.phases@[i], b.phases@[i]));
    }
}

} // verus!
