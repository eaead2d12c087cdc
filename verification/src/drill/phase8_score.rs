//! Scoring a drill, and signing and storing its document.
use vstd::prelude::*;
use crate::clock::{now, secs_between, Timestamp};
use crate::drill::error::{DrillError, ErrorModel};
use crate::drill::persist::{
    copy_bytes, evidence_key, key_for, persist_agrees, persist_step, PersistQuestion, PersistReads,
};
use crate::drill::scorecard::{
    copy_text, find_phase, phase_at, EngineInfo, EngineSubreport, EvidenceInfo, Integrity,
    IntegrityLevel, IntegrityResult, MatrixVerdict, Measured, Objectives, Outcome, PhaseRecord,
    Scorecard,
};
use crate::drill::spec::ObjectivesSpec;
use crate::drill::step::Step;
use crate::encoding::{base64_of, base64_text};
use crate::text::{decimal, text_in, texts, u64_text};

verus! {

/// The sentence that goes with any engine report that is kept.
pub const CAVEAT_ENGINE_SUBREPORT: &'static str = "The engine's own integrity.checksums_valid is a hardcoded constant true and its restore start_time/end_time/duration_seconds are all null; this sub-report corroborates nothing Logweir claims.";

/// The instants that the measured times are taken from.
#[derive(Clone, Copy, Debug)]
pub struct Timeline {
    pub requested_at: Timestamp,
    pub approval_validated_at: Timestamp,
    pub restore_started_at: Timestamp,
    pub restore_finished_at: Timestamp,
    pub phase5_duration_ms: u64,
    pub verified_at: Timestamp,
}

/// What is left of a time, and nothing where more is taken away than there is.
pub open spec fn less(total: int, taken: int) -> int {
    if total >= taken {
        total - taken
    } else {
        0
    }
}

/// How many whole seconds the newest restored record falls short of the
/// recovery point, and nothing where it does not fall short.
pub open spec fn shortfall(requested_ms: int, newest_ms: int) -> int {
    if requested_ms > newest_ms {
        (requested_ms - newest_ms) / 1000
    } else {
        0
    }
}

/// What is measured of a drill.
pub open spec fn measures(m: Measured, t: Timeline, requested_ms: int, newest_ms: int) -> bool {
    let rto = secs_between(t.approval_validated_at@, t.verified_at@);
    &&& m.rto_seconds matches Some(n) && n == rto
    &&& m.rto_requested_to_verified_seconds matches Some(n) && n == secs_between(
        t.requested_at@,
        t.verified_at@,
    )
    &&& m.rto_restore_only_seconds matches Some(n) && n == secs_between(
        t.restore_started_at@,
        t.restore_finished_at@,
    )
    &&& m.rto_excluding_preflight_seconds matches Some(n) && n == less(
        rto,
        t.phase5_duration_ms as int / 1000,
    )
    &&& m.rpo_seconds matches Some(n) && n == shortfall(requested_ms, newest_ms)
    &&& m.rpo_source_relative_seconds is None
    &&& m.rpo_source_relative_unmeasured_reason matches Some(s) && s@
        == "source cluster never contacted"@
}

/// Measures a drill.
pub fn compute_measured(
    t: &Timeline,
    requested_point_in_time_ms: i64,
    newest_restored_record_ts_ms: i64,
) -> (m: Measured)
    requires
        i64::MIN <= requested_point_in_time_ms - newest_restored_record_ts_ms <= i64::MAX,
    ensures
        measures(m, *t, requested_point_in_time_ms as int, newest_restored_record_ts_ms as int),
{
    let rto: u64 = t.approval_validated_at.secs_until(&t.verified_at);
    let preflight: u64 = t.phase5_duration_ms / 1000;
    let gap: i64 = requested_point_in_time_ms - newest_restored_record_ts_ms;
    Measured {
        rto_seconds: Some(rto),
        rto_requested_to_verified_seconds: Some(t.requested_at.secs_until(&t.verified_at)),
        rto_restore_only_seconds: Some(t.restore_started_at.secs_until(&t.restore_finished_at)),
        rto_excluding_preflight_seconds: Some(
            if rto >= preflight {
                rto - preflight
            } else {
                0
            },
        ),
        rpo_seconds: Some(
            if gap > 0 {
                gap / 1000
            } else {
                0
            },
        ),
        rpo_source_relative_seconds: None,
        rpo_source_relative_unmeasured_reason: Some("source cluster never contacted".to_owned()),
    }
}

/// Whether a time that was asked for was kept. What was not measured was not
/// kept.
pub open spec fn time_kept(want: Option<u64>, got: Option<u64>) -> Option<bool> {
    match want {
        None => None,
        Some(w) => match got {
            Some(g) => Some(g <= w),
            None => Some(false),
        },
    }
}

/// Whether a gap that was asked for was kept. What was not measured was not
/// kept.
pub open spec fn gap_kept(want: Option<i64>, got: Option<i64>) -> Option<bool> {
    match want {
        None => None,
        Some(w) => match got {
            Some(g) => Some(g <= w),
            None => Some(false),
        },
    }
}

/// Whether what was asked for was met. Nothing can be said where a rate was
/// asked for and none was measured, and where nothing was asked for at all.
pub open spec fn objectives_met(
    spec: ObjectivesSpec,
    m: Measured,
    integ: Integrity,
    rate_reached: bool,
) -> Option<bool> {
    if spec.pass_rate_bits is Some && integ.pass_rate_measured is None {
        None
    } else if spec.rto_seconds is None && spec.rpo_seconds is None && spec.pass_rate_bits is None {
        None
    } else {
        Some(
            time_kept(spec.rto_seconds, m.rto_excluding_preflight_seconds) != Some(false)
                && gap_kept(spec.rpo_seconds, m.rpo_seconds) != Some(false) && (
            spec.pass_rate_bits is Some ==> rate_reached),
        )
    }
}

/// How a drill came out.
pub open spec fn outcome_of(result: IntegrityResult, met: Option<bool>) -> Outcome {
    if result != IntegrityResult::Pass {
        Outcome::FailIntegrity
    } else if met == Some(false) {
        Outcome::FailObjective
    } else {
        Outcome::Pass
    }
}

/// How a drill came out, and what was asked of it.
pub open spec fn decided(
    r: (Outcome, Objectives),
    m: Measured,
    spec: ObjectivesSpec,
    integ: Integrity,
    rate_reached: bool,
) -> bool {
    &&& r.1.met == objectives_met(spec, m, integ, rate_reached)
    &&& r.0 == outcome_of(integ.result, r.1.met)
    &&& r.1.rto_seconds == spec.rto_seconds
    &&& r.1.rpo_seconds == spec.rpo_seconds
    &&& r.1.pass_rate_bits == spec.pass_rate_bits
}

/// Decides how a drill came out, from what the verification concluded and from
/// what was asked for. `rate_reached` says whether the measured rate reaches
/// the rate that was asked for; it counts only where there is one of each. The
/// objectives handed back are those asked for.
pub fn decide(m: &Measured, spec: &ObjectivesSpec, integ: &Integrity, rate_reached: bool) -> (r: (
    Outcome,
    Objectives,
))
    ensures
        decided(r, *m, *spec, *integ, rate_reached),
        ({
            let late = spec.rto_seconds matches Some(want) && !(
            m.rto_excluding_preflight_seconds matches Some(got) && got <= want);
            let lost = spec.rpo_seconds matches Some(want) && !(m.rpo_seconds matches Some(got)
                && got <= want);
            let low = spec.pass_rate_bits is Some && !rate_reached;
            let open = spec.pass_rate_bits is Some && integ.pass_rate_measured is None;
            let asked = spec.rto_seconds is Some || spec.rpo_seconds is Some
                || spec.pass_rate_bits is Some;
            &&& r.1.met == Some(false) <==> !open && (late || lost || low)
            &&& r.1.met == Some(true) <==> !open && asked && !late && !lost && !low
            &&& r.0 == Outcome::FailIntegrity <==> integ.result != IntegrityResult::Pass
            &&& r.0 == Outcome::FailObjective <==> integ.result == IntegrityResult::Pass && !open
                && (late || lost || low)
            &&& r.0 == Outcome::Pass <==> integ.result == IntegrityResult::Pass && (open || (!late
                && !lost && !low))
        }),
        r.1.rto_seconds == spec.rto_seconds,
        r.1.rpo_seconds == spec.rpo_seconds,
        r.1.pass_rate_bits == spec.pass_rate_bits,
{
    let rto_ok: Option<bool> = match (spec.rto_seconds, m.rto_excluding_preflight_seconds) {
        (Some(want), Some(got)) => Some(got <= want),
        (Some(_), None) => Some(false),
        _ => None,
    };
    let rpo_ok: Option<bool> = match (spec.rpo_seconds, m.rpo_seconds) {
        (Some(want), Some(got)) => Some(got <= want),
        (Some(_), None) => Some(false),
        _ => None,
    };
    let rate_ok: Option<bool> = match (spec.pass_rate_bits, integ.pass_rate_measured) {
        (Some(_), Some(_)) => Some(rate_reached),
        _ => None,
    };
    let met: Option<bool> = if spec.pass_rate_bits.is_some() && integ.pass_rate_measured.is_none() {
        None
    } else if rto_ok.is_none() && rpo_ok.is_none() && rate_ok.is_none() {
        None
    } else {
        Some(held(rto_ok) && held(rpo_ok) && held(rate_ok))
    };
    let outcome = match integ.result {
        IntegrityResult::Pass => match met {
            Some(false) => Outcome::FailObjective,
            _ => Outcome::Pass,
        },
        _ => Outcome::FailIntegrity,
    };
    (
        outcome,
        Objectives {
            rto_seconds: spec.rto_seconds,
            rpo_seconds: spec.rpo_seconds,
            pass_rate_bits: spec.pass_rate_bits,
            met,
        },
    )
}

/// An answer that does not say no.
fn held(answer: Option<bool>) -> (r: bool)
    ensures
        r == (answer != Some(false)),
{
    match answer {
        Some(b) => b,
        None => true,
    }
}

/// A drill passes only where the verification passed and nothing that was
/// asked for was missed.
pub proof fn a_pass_is_earned(
    spec: ObjectivesSpec,
    m: Measured,
    integ: Integrity,
    rate_reached: bool,
)
    requires
        outcome_of(integ.result, objectives_met(spec, m, integ, rate_reached)) == Outcome::Pass,
    ensures
        integ.result == IntegrityResult::Pass,
        objectives_met(spec, m, integ, rate_reached) != Some(false),
{
}

/// Objectives are never reported as met where none was asked for, nor where a
/// rate was asked for and part of the sample was never reconciled.
pub proof fn nothing_is_met_by_default(
    spec: ObjectivesSpec,
    m: Measured,
    integ: Integrity,
    rate_reached: bool,
)
    requires
        objectives_met(spec, m, integ, rate_reached) == Some(true),
    ensures
        spec.rto_seconds is Some || spec.rpo_seconds is Some || spec.pass_rate_bits is Some,
        spec.pass_rate_bits is Some ==> integ.pass_rate_measured is Some && rate_reached,
        spec.rto_seconds matches Some(want) ==> {
            &&& m.rto_excluding_preflight_seconds matches Some(got)
            &&& got <= want
        },
        spec.rpo_seconds matches Some(want) ==> {
            &&& m.rpo_seconds matches Some(got)
            &&& got <= want
        },
{
}

/// The row of the engine matrix that a run establishes. What the preflight
/// lowered is never raised.
pub open spec fn matrix_row(outcome: Outcome, level: IntegrityLevel, observed: MatrixVerdict) -> (
    MatrixVerdict,
    Option<Seq<char>>,
) {
    if observed != MatrixVerdict::Pass {
        (observed, None)
    } else if outcome != Outcome::Pass {
        (
            MatrixVerdict::Fail,
            Some("the drill ran and did not pass: outcome "@ + outcome.name()),
        )
    } else if level == IntegrityLevel::ByteFingerprint {
        (MatrixVerdict::Pass, None)
    } else {
        (MatrixVerdict::PassDegraded, None)
    }
}

/// A text that may be absent, as characters.
pub open spec fn text_of(s: Option<String>) -> Option<Seq<char>> {
    match s {
        Some(t) => Some(t@),
        None => None,
    }
}

/// The row of the engine matrix that a run establishes.
pub fn matrix_verdict_for(outcome: Outcome, level: IntegrityLevel, observed: MatrixVerdict) -> (r: (
    MatrixVerdict,
    Option<String>,
))
    ensures
        (r.0, text_of(r.1)) == matrix_row(outcome, level, observed),
{
    if observed != MatrixVerdict::Pass {
        return (observed, None);
    }
    if outcome != Outcome::Pass {
        let mut why = "the drill ran and did not pass: outcome ".to_owned();
        why.append(outcome.as_str());
        return (MatrixVerdict::Fail, Some(why));
    }
    if level == IntegrityLevel::ByteFingerprint {
        (MatrixVerdict::Pass, None)
    } else {
        (MatrixVerdict::PassDegraded, None)
    }
}

/// A run that did not pass never establishes a passing row, and a failing row
/// that the run itself establishes carries its reason.
pub proof fn a_failed_run_passes_no_row(
    outcome: Outcome,
    level: IntegrityLevel,
    observed: MatrixVerdict,
)
    ensures
        matrix_row(outcome, level, observed).0 == MatrixVerdict::Pass ==> outcome == Outcome::Pass
            && level == IntegrityLevel::ByteFingerprint && observed == MatrixVerdict::Pass,
        observed == MatrixVerdict::Pass && matrix_row(outcome, level, observed).0
            == MatrixVerdict::Fail ==> matrix_row(outcome, level, observed).1 is Some,
{
}

/// A document whose bytes were signed and stored.
#[derive(Debug)]
pub struct Signed {
    /// The document, with what the store reported of it.
    pub scorecard: Scorecard,
    /// What was signed, and what was stored.
    pub bytes: Vec<u8>,
    /// The signature, as it was stored.
    pub sidecar: Vec<u8>,
    pub key: String,
    pub sidecar_key: String,
    pub offset_report_key: Option<String>,
}

/// Bytes that were read, and their digest.
#[derive(Debug, Clone)]
pub struct Report {
    pub bytes: Vec<u8>,
    pub sha256: String,
}

/// How the store took an object.
#[derive(Debug, Clone)]
pub struct PutOutcome {
    /// Whether the store itself refused to replace an object.
    pub create_only_enforced: bool,
    pub version_id: Option<String>,
}

/// What the store says of an object's lock.
#[derive(Debug, Clone)]
pub struct ObjectLock {
    pub immutable: bool,
    pub retain_until: Option<Timestamp>,
}

/// What was answered so far while a document was signed and stored.
#[derive(Debug, Clone)]
pub struct ScoreReads {
    /// The keys of the engine's own reports, sorted.
    pub report_keys: Option<Result<Vec<String>, String>>,
    /// The first of those reports.
    pub report: Option<Result<Report, String>>,
    /// The engine's offset report, where there is one to read.
    pub offsets: Option<Option<Report>>,
    /// Whether the document contradicts itself.
    pub valid: Option<Result<(), String>>,
    /// The document's bytes.
    pub bytes: Option<Result<Vec<u8>, String>>,
    /// The bytes of the signature over them.
    pub sidecar: Option<Result<Vec<u8>, String>>,
    /// How the store refuses the first of the keys that are to be written that
    /// holds something already, where one does.
    pub taken: Option<Result<Option<String>, String>>,
    pub scorecard_put: Option<Result<PutOutcome, String>>,
    pub sidecar_put: Option<Result<(), String>>,
    pub offsets_put: Option<Result<(), String>>,
    /// What the store says of the lock on the document.
    pub lock: Option<Option<ObjectLock>>,
}

/// What is needed next to sign and store a document.
#[derive(Debug)]
pub enum ScoreQuestion {
    /// The keys under that prefix.
    ListReports(String),
    /// The object at that key.
    FetchReport(String),
    /// The offset report at that path.
    ReadOffsets(String),
    /// Whether that document contradicts itself.
    Validate(Scorecard),
    /// The bytes of that document.
    Serialise(Scorecard),
    /// A signature over those bytes.
    Sign(Vec<u8>),
    /// Which of those keys hold something already.
    FindTaken(Vec<String>),
    /// That those bytes are put at that key, where nothing is yet.
    PutScorecard { key: String, bytes: Vec<u8> },
    /// That those bytes are put at that key, where nothing is yet.
    PutSidecar { key: String, bytes: Vec<u8> },
    /// That those bytes are put at that key, where nothing is yet.
    PutOffsets { key: String, bytes: Vec<u8> },
    /// What the store says of the lock on the object at that key.
    ReadLock(String),
}

/// The prefix of the engine's own reports on a run.
pub open spec fn report_prefix(run_id: Seq<char>) -> Seq<char> {
    "logweir/"@ + run_id + "/engine-validation/"@
}

/// The engine's own report to keep, where the store lists one.
pub open spec fn report_to_keep(keys: Result<Vec<String>, String>) -> Option<Seq<char>> {
    match keys {
        Ok(v) => if v@.len() > 0 {
            Some(v@[0]@)
        } else {
            None
        },
        Err(_) => None,
    }
}

/// The note that the engine's own reports call for.
pub open spec fn report_note(keys: Result<Vec<String>, String>) -> Option<Seq<char>> {
    match report_to_keep(keys) {
        None => Some("no engine validation report under the per-run prefix"@),
        Some(key) => if keys->Ok_0@.len() > 1 {
            Some(
                "engine-validation prefix held "@ + decimal(keys->Ok_0@.len()) + " objects; retained "@
                    + key + " and dropped the rest"@,
            )
        } else {
            None
        },
    }
}

/// The phases with a note added to the scoring phase's record, where there is
/// one.
pub open spec fn noted(
    before: Seq<PhaseRecord>,
    after: Seq<PhaseRecord>,
    note: Option<Seq<char>>,
) -> bool {
    if note is None || phase_at(before, 8) is None {
        after == before
    } else {
        let i = phase_at(before, 8)->0;
        &&& after.len() == before.len()
        &&& forall|j: int| 0 <= j < before.len() && j != i ==> #[trigger] after[j] == before[j]
        &&& after[i] == (PhaseRecord { notes: after[i].notes, ..before[i] })
        &&& texts(after[i].notes@) == texts(before[i].notes@).push(note->0)
    }
}

/// The engine's own report as the document keeps it: byte for byte, under the
/// key that it was read from.
pub open spec fn keeps_report(
    kept: Option<EngineSubreport>,
    keys: Result<Vec<String>, String>,
    report: Option<Result<Report, String>>,
) -> bool {
    match report_to_keep(keys) {
        None => kept is None,
        Some(key) => {
            &&& report matches Some(Ok(got))
            &&& kept matches Some(sub)
            &&& sub.retained_verbatim
            &&& sub.retrieved_from@ == key
            &&& sub.caveat@ == CAVEAT_ENGINE_SUBREPORT@
            &&& sub.body_b64@ == base64_of(got.bytes@)
            &&& sub.body_sha256@ == got.sha256@
        },
    }
}

/// What the document says of its own storage: nothing that the store has not
/// been asked yet, and the offset report's key and digest together.
pub open spec fn evidence_at_signing(e: EvidenceInfo, run_id: Seq<char>, offsets: Option<Report>) -> bool {
    &&& !e.create_only_enforced
    &&& !e.immutable
    &&& e.retain_until is None
    &&& e.version_id is None
    &&& match offsets {
        Some(o) => {
            &&& text_of(e.offset_report_key) == Some(evidence_key(run_id, ".offsets.json"@))
            &&& text_of(e.offset_report_sha256) == Some(o.sha256@)
        },
        None => e.offset_report_key is None && e.offset_report_sha256 is None,
    }
}

/// The offset report that a document binds: none where the plan named none.
pub open spec fn bound_offsets(named: bool, reads: ScoreReads) -> Option<Report> {
    if named {
        reads.offsets->0
    } else {
        None
    }
}

/// The document that is signed.
pub open spec fn is_document(d: Scorecard, sc: Scorecard, named: bool, reads: ScoreReads) -> bool {
    let keys = reads.report_keys->0;
    &&& d == (Scorecard {
        phases: d.phases,
        engine_subreport: d.engine_subreport,
        engine: d.engine,
        evidence: d.evidence,
        ..sc
    })
    &&& noted(sc.phases@, d.phases@, report_note(keys))
    &&& keeps_report(d.engine_subreport, keys, reads.report)
    &&& d.engine == (EngineInfo {
        matrix_verdict: d.engine.matrix_verdict,
        matrix_verdict_reason: d.engine.matrix_verdict_reason,
        ..sc.engine
    })
    &&& (d.engine.matrix_verdict, text_of(d.engine.matrix_verdict_reason)) == matrix_row(
        sc.outcome,
        sc.integrity.level,
        sc.engine.matrix_verdict,
    )
    &&& evidence_at_signing(d.evidence, sc.run_id@, bound_offsets(named, reads))
}

/// Adds a note to the scoring phase's record, where there is one.
fn note(sc: &mut Scorecard, msg: String)
    ensures
        noted(old(sc).phases@, final(sc).phases@, Some(msg@)),
        *final(sc) == (Scorecard { phases: final(sc).phases, ..*old(sc) }),
{
    match find_phase(&sc.phases, 8) {
        Some(i) => {
            let ghost before = sc.phases@;
            let mut record = sc.phases.remove(i);
            let ghost notes = texts(record.notes@);
            record.notes.push(msg);
            proof {
                assert(texts(record.notes@) =~= notes.push(msg@));
            }
            sc.phases.insert(i, record);
            proof {
                assert forall|j: int| 0 <= j < before.len() && j != i implies
                    #[trigger] sc.phases@[j] == before[j] by {}
            }
        },
        None => {},
    }
}

/// The document to sign, from what was read.
fn document(
    sc: Scorecard,
    keys: &Result<Vec<String>, String>,
    report: &Option<Result<Report, String>>,
    offsets: Option<&Report>,
    named: Ghost<bool>,
    reads: Ghost<ScoreReads>,
) -> (d: Scorecard)
    requires
        reads@.report_keys == Some(*keys),
        reads@.report == *report,
        match offsets {
            Some(o) => bound_offsets(named@, reads@) == Some(*o),
            None => bound_offsets(named@, reads@) is None,
        },
        report_to_keep(*keys) is Some ==> report matches Some(Ok(_)),
    ensures
        is_document(d, sc, named@, reads@),
{
    let mut d = sc;
    let mut kept: Option<EngineSubreport> = None;
    let mut said: Option<String> = None;
    let mut found: bool = false;
    if let Ok(v) = keys {
        if v.len() > 0 {
            found = true;
            if let Some(Ok(got)) = report {
                kept = Some(
                    EngineSubreport {
                        retained_verbatim: true,
                        retrieved_from: v[0].clone(),
                        caveat: CAVEAT_ENGINE_SUBREPORT.to_owned(),
                        body_b64: base64_text(got.bytes.as_slice()),
                        body_sha256: got.sha256.clone(),
                    },
                );
            }
            if v.len() > 1 {
                let mut s = "engine-validation prefix held ".to_owned();
                s.append(u64_text(v.len() as u64).as_str());
                s.append(" objects; retained ");
                s.append(v[0].as_str());
                s.append(" and dropped the rest");
                said = Some(s);
            }
        }
    }
    if !found {
        said = Some("no engine validation report under the per-run prefix".to_owned());
    }
    d.engine_subreport = kept;
    if let Some(msg) = said {
        note(&mut d, msg);
    }
    let (verdict, reason) = matrix_verdict_for(
        d.outcome,
        d.integrity.level,
        d.engine.matrix_verdict,
    );
    d.engine.matrix_verdict = verdict;
    d.engine.matrix_verdict_reason = reason;
    d.evidence = EvidenceInfo {
        version_id: None,
        retain_until: None,
        immutable: false,
        create_only_enforced: false,
        offset_report_key: match offsets {
            Some(_) => Some(key_for(d.run_id.as_str(), ".offsets.json")),
            None => None,
        },
        offset_report_sha256: match offsets {
            Some(o) => Some(o.sha256.clone()),
            None => None,
        },
    };
    d
}

/// A step that ends unattested, with that reason.
pub open spec fn unattested(r: Step<ScoreQuestion, Result<Signed, DrillError>>, why: Seq<char>) -> bool {
    r matches Step::Done(Err(e)) && e@ == ErrorModel::SigningOrLock(why)
}

/// What is handed back once everything is stored.
pub open spec fn is_signed(s: Signed, sc: Scorecard, named: bool, reads: ScoreReads) -> bool {
    let out = reads.scorecard_put->0->Ok_0;
    let lock = reads.lock->0;
    let e = s.scorecard.evidence;
    &&& is_document(
        Scorecard {
            evidence: EvidenceInfo {
                create_only_enforced: false,
                immutable: false,
                retain_until: None,
                version_id: None,
                ..e
            },
            ..s.scorecard
        },
        sc,
        named,
        reads,
    )
    &&& e.create_only_enforced == out.create_only_enforced
    &&& e.version_id == out.version_id
    &&& e.immutable == (lock matches Some(l) && l.immutable)
    &&& e.retain_until == match lock {
        Some(l) => l.retain_until,
        None => None,
    }
    &&& s.bytes@ == reads.bytes->0->Ok_0@
    &&& s.sidecar@ == reads.sidecar->0->Ok_0@
    &&& s.key@ == evidence_key(sc.run_id@, ".json"@)
    &&& s.sidecar_key@ == evidence_key(sc.run_id@, ".sig"@)
    &&& text_of(s.offset_report_key) == if bound_offsets(named, reads) is Some {
        Some(evidence_key(sc.run_id@, ".offsets.json"@))
    } else {
        None
    }
}

/// The keys that a document, its signature and its offset report are put at.
pub open spec fn keys_to_write(run_id: Seq<char>, with_offsets: bool) -> Seq<Seq<char>> {
    let both = seq![evidence_key(run_id, ".json"@), evidence_key(run_id, ".sig"@)];
    if with_offsets {
        both.push(evidence_key(run_id, ".offsets.json"@))
    } else {
        both
    }
}

/// The next step once no key to be written was found taken.
pub open spec fn stored(
    sc: Scorecard,
    named: bool,
    reads: ScoreReads,
    r: Step<ScoreQuestion, Result<Signed, DrillError>>,
) -> bool {
    match reads.scorecard_put {
        None => r matches Step::Ask(ScoreQuestion::PutScorecard { key, bytes }) && key@
            == evidence_key(sc.run_id@, ".json"@) && bytes@ == reads.bytes->0->Ok_0@,
        Some(Err(e)) => unattested(r, e@),
        Some(Ok(_)) => match reads.sidecar_put {
            None => r matches Step::Ask(ScoreQuestion::PutSidecar { key, bytes }) && key@
                == evidence_key(sc.run_id@, ".sig"@) && bytes@ == reads.sidecar->0->Ok_0@,
            Some(Err(e)) => unattested(r, e@),
            Some(Ok(_)) => if bound_offsets(named, reads) is Some && reads.offsets_put is None {
                r matches Step::Ask(ScoreQuestion::PutOffsets { key, bytes }) && key@
                    == evidence_key(sc.run_id@, ".offsets.json"@) && bytes@ == bound_offsets(
                    named,
                    reads,
                )->0.bytes@
            } else if bound_offsets(named, reads) is Some && reads.offsets_put->0 is Err {
                unattested(r, reads.offsets_put->0->Err_0@)
            } else if reads.lock is None {
                r matches Step::Ask(ScoreQuestion::ReadLock(key)) && key@ == evidence_key(
                    sc.run_id@,
                    ".json"@,
                )
            } else {
                r matches Step::Done(Ok(s)) && is_signed(s, sc, named, reads)
            },
        },
    }
}

/// The next step once the document's bytes are signed: nothing is put before
/// the store was asked of every key that is to be written, nor where one is
/// taken. A store that cannot say is left to refuse a taken key itself.
pub open spec fn cleared(
    sc: Scorecard,
    named: bool,
    reads: ScoreReads,
    r: Step<ScoreQuestion, Result<Signed, DrillError>>,
) -> bool {
    match reads.taken {
        None => r matches Step::Ask(ScoreQuestion::FindTaken(keys)) && texts(keys@)
            == keys_to_write(sc.run_id@, bound_offsets(named, reads) is Some),
        Some(Ok(Some(why))) => unattested(r, why@),
        Some(_) => stored(sc, named, reads, r),
    }
}

/// The next step of signing and storing a document.
pub open spec fn scored(
    sc: Scorecard,
    offset_report: Option<Seq<char>>,
    reads: ScoreReads,
    r: Step<ScoreQuestion, Result<Signed, DrillError>>,
) -> bool {
    let named = offset_report is Some;
    if reads.report_keys is None {
        r matches Step::Ask(ScoreQuestion::ListReports(prefix)) && prefix@ == report_prefix(
            sc.run_id@,
        )
    } else if report_to_keep(reads.report_keys->0) is Some && reads.report is None {
        r matches Step::Ask(ScoreQuestion::FetchReport(key)) && Some(key@) == report_to_keep(
            reads.report_keys->0,
        )
    } else if report_to_keep(reads.report_keys->0) is Some && reads.report->0 is Err {
        unattested(r, reads.report->0->Err_0@)
    } else if named && reads.offsets is None {
        r matches Step::Ask(ScoreQuestion::ReadOffsets(path)) && Some(path@) == offset_report
    } else {
        match reads.valid {
            None => r matches Step::Ask(ScoreQuestion::Validate(d)) && is_document(
                d,
                sc,
                named,
                reads,
            ),
            Some(Err(e)) => unattested(r, e@),
            Some(Ok(_)) => match reads.bytes {
                None => r matches Step::Ask(ScoreQuestion::Serialise(d)) && is_document(
                    d,
                    sc,
                    named,
                    reads,
                ),
                Some(Err(e)) => unattested(r, e@),
                Some(Ok(b)) => match reads.sidecar {
                    None => r matches Step::Ask(ScoreQuestion::Sign(bytes)) && bytes@ == b@,
                    Some(Err(e)) => unattested(r, e@),
                    Some(Ok(_)) => cleared(sc, named, reads, r),
                },
            },
        }
    }
}

/// A result that could not be attested.
fn sig<T>(e: &String) -> (r: Step<ScoreQuestion, Result<T, DrillError>>)
    ensures
        r matches Step::Done(Err(d)) && d@ == ErrorModel::SigningOrLock(e@),
{
    Step::Done(Err(DrillError::SigningOrLock(e.clone())))
}

/// The next step of signing and storing a document. Every failure leaves the
/// run unattested, and nothing is put before the document is checked, its bytes
/// are signed, and the store was asked whether a key to be written is taken.
pub fn run(sc: Scorecard, offset_report: Option<&str>, reads: &ScoreReads) -> (r: Step<
    ScoreQuestion,
    Result<Signed, DrillError>,
>)
    ensures
        scored(
            sc,
            text_in(offset_report),
            *reads,
            r,
        ),
{
    let keys = match &reads.report_keys {
        None => {
            let mut prefix = "logweir/".to_owned();
            prefix.append(sc.run_id.as_str());
            prefix.append("/engine-validation/");
            return Step::Ask(ScoreQuestion::ListReports(prefix));
        },
        Some(keys) => keys,
    };
    if let Ok(v) = keys {
        if v.len() > 0 {
            match &reads.report {
                None => {
                    return Step::Ask(ScoreQuestion::FetchReport(v[0].clone()));
                },
                Some(Err(e)) => {
                    return sig(e);
                },
                Some(Ok(_)) => {},
            }
        }
    }
    let mut offsets: Option<&Report> = None;
    if let Some(path) = offset_report {
        match &reads.offsets {
            None => {
                return Step::Ask(ScoreQuestion::ReadOffsets(path.to_owned()));
            },
            Some(Some(o)) => {
                offsets = Some(o);
            },
            Some(None) => {},
        }
    }
    let named = Ghost(offset_report is Some);
    match &reads.valid {
        None => {
            return Step::Ask(
                ScoreQuestion::Validate(
                    document(sc, keys, &reads.report, offsets, named, Ghost(*reads)),
                ),
            );
        },
        Some(Err(e)) => {
            return sig(e);
        },
        Some(Ok(_)) => {},
    }
    let bytes = match &reads.bytes {
        None => {
            return Step::Ask(
                ScoreQuestion::Serialise(
                    document(sc, keys, &reads.report, offsets, named, Ghost(*reads)),
                ),
            );
        },
        Some(Err(e)) => {
            return sig(e);
        },
        Some(Ok(bytes)) => bytes,
    };
    let sidecar = match &reads.sidecar {
        None => {
            return Step::Ask(ScoreQuestion::Sign(copy_bytes(bytes)));
        },
        Some(Err(e)) => {
            return sig(e);
        },
        Some(Ok(sidecar)) => sidecar,
    };
    let key = key_for(sc.run_id.as_str(), ".json");
    let sidecar_key = key_for(sc.run_id.as_str(), ".sig");
    match &reads.taken {
        None => {
            let mut wanted: Vec<String> = Vec::new();
            wanted.push(key);
            wanted.push(sidecar_key);
            if offsets.is_some() {
                wanted.push(key_for(sc.run_id.as_str(), ".offsets.json"));
            }
            proof {
                assert(texts(wanted@) =~= keys_to_write(
                    sc.run_id@,
                    bound_offsets(named@, *reads) is Some,
                ));
            }
            return Step::Ask(ScoreQuestion::FindTaken(wanted));
        },
        Some(Ok(Some(why))) => {
            return sig(why);
        },
        Some(_) => {},
    }
    let out = match &reads.scorecard_put {
        None => {
            return Step::Ask(ScoreQuestion::PutScorecard { key, bytes: copy_bytes(bytes) });
        },
        Some(Err(e)) => {
            return sig(e);
        },
        Some(Ok(out)) => out,
    };
    match &reads.sidecar_put {
        None => {
            return Step::Ask(
                ScoreQuestion::PutSidecar { key: sidecar_key, bytes: copy_bytes(sidecar) },
            );
        },
        Some(Err(e)) => {
            return sig(e);
        },
        Some(Ok(_)) => {},
    }
    let mut offset_report_key: Option<String> = None;
    if let Some(o) = offsets {
        let offsets_key = key_for(sc.run_id.as_str(), ".offsets.json");
        match &reads.offsets_put {
            None => {
                return Step::Ask(
                    ScoreQuestion::PutOffsets { key: offsets_key, bytes: copy_bytes(&o.bytes) },
                );
            },
            Some(Err(e)) => {
                return sig(e);
            },
            Some(Ok(_)) => {
                offset_report_key = Some(offsets_key);
            },
        }
    }
    let lock = match &reads.lock {
        None => {
            return Step::Ask(ScoreQuestion::ReadLock(key));
        },
        Some(lock) => lock,
    };
    let mut d = document(sc, keys, &reads.report, offsets, named, Ghost(*reads));
    d.evidence.create_only_enforced = out.create_only_enforced;
    d.evidence.version_id = copy_text(&out.version_id);
    match lock {
        Some(l) => {
            d.evidence.retain_until = l.retain_until;
            d.evidence.immutable = l.immutable;
        },
        None => {},
    }
    Step::Done(
        Ok(
            Signed {
                scorecard: d,
                bytes: copy_bytes(bytes),
                sidecar: copy_bytes(sidecar),
                key,
                sidecar_key,
                offset_report_key,
            },
        ),
    )
}

/// Nothing is put before the document was found consistent, serialised and
/// signed, nor where a key to be written was found taken.
pub proof fn puts_wait_for_the_signature(
    sc: Scorecard,
    offset_report: Option<Seq<char>>,
    reads: ScoreReads,
    r: Step<ScoreQuestion, Result<Signed, DrillError>>,
)
    requires
        scored(sc, offset_report, reads, r),
        r matches Step::Ask(q) && (q is PutScorecard || q is PutSidecar || q is PutOffsets),
    ensures
        reads.valid matches Some(Ok(_)),
        reads.bytes matches Some(Ok(_)),
        reads.sidecar matches Some(Ok(_)),
        reads.taken is Some,
        !(reads.taken matches Some(Ok(Some(_)))),
{
}

/// Where a key that is to be written holds something already, the run ends
/// unattested, and nothing is ever put: the store is left as it was.
pub proof fn a_taken_key_leaves_the_store_as_it_was(
    sc: Scorecard,
    offset_report: Option<Seq<char>>,
    reads: ScoreReads,
    r: Step<ScoreQuestion, Result<Signed, DrillError>>,
)
    requires
        scored(sc, offset_report, reads, r),
        reads.taken matches Some(Ok(Some(_))),
    ensures
        r matches Step::Ask(q) ==> q is ListReports || q is FetchReport || q is ReadOffsets
            || q is Validate || q is Serialise || q is Sign,
        r matches Step::Done(done) ==> (done matches Err(e) && e is SigningOrLock),
{
}

/// What is put is put at a key that was asked about, and at no other.
pub proof fn puts_go_to_keys_asked_about(
    sc: Scorecard,
    offset_report: Option<Seq<char>>,
    reads: ScoreReads,
    r: Step<ScoreQuestion, Result<Signed, DrillError>>,
)
    requires
        scored(sc, offset_report, reads, r),
    ensures
        ({
            let keys = keys_to_write(
                sc.run_id@,
                bound_offsets(offset_report is Some, reads) is Some,
            );
            &&& r matches Step::Ask(ScoreQuestion::PutScorecard { key, .. }) ==> keys.contains(key@)
            &&& r matches Step::Ask(ScoreQuestion::PutSidecar { key, .. }) ==> keys.contains(key@)
            &&& r matches Step::Ask(ScoreQuestion::PutOffsets { key, .. }) ==> keys.contains(key@)
        }),
{
    let keys = keys_to_write(sc.run_id@, bound_offsets(offset_report is Some, reads) is Some);
    assert(keys[0] == evidence_key(sc.run_id@, ".json"@));
    assert(keys[1] == evidence_key(sc.run_id@, ".sig"@));
    if bound_offsets(offset_report is Some, reads) is Some {
        assert(keys[2] == evidence_key(sc.run_id@, ".offsets.json"@));
    }
}

/// The document is checked, and serialised, with nothing claimed of its own
/// storage, whatever was claimed before.
pub proof fn the_document_claims_no_storage(
    sc: Scorecard,
    offset_report: Option<Seq<char>>,
    reads: ScoreReads,
    r: Step<ScoreQuestion, Result<Signed, DrillError>>,
)
    requires
        scored(sc, offset_report, reads, r),
    ensures
        forall|d: Scorecard|
            r == Step::<ScoreQuestion, Result<Signed, DrillError>>::Ask(ScoreQuestion::Validate(d))
                || r == Step::<ScoreQuestion, Result<Signed, DrillError>>::Ask(
                ScoreQuestion::Serialise(d),
            ) ==> !(#[trigger] d.evidence).create_only_enforced && !d.evidence.immutable
                && d.evidence.retain_until is None && d.evidence.version_id is None
                && d.evidence.offset_report_key is Some
                == d.evidence.offset_report_sha256 is Some,
{
}

/// Whatever fails here, the run is unattested, and nothing else.
pub proof fn a_failure_here_is_unattested(
    sc: Scorecard,
    offset_report: Option<Seq<char>>,
    reads: ScoreReads,
    r: Step<ScoreQuestion, Result<Signed, DrillError>>,
)
    requires
        scored(sc, offset_report, reads, r),
    ensures
        r matches Step::Done(Err(e)) ==> e@.code() == Some(crate::exit::ExitCode::SigningOrLock),
{
}

/// A run whose document did not pass is signed with no passing matrix row, and
/// what is handed back has the outcome and the verdict of the verification
/// that it was handed.
pub proof fn scoring_raises_nothing(
    sc: Scorecard,
    offset_report: Option<Seq<char>>,
    reads: ScoreReads,
    r: Step<ScoreQuestion, Result<Signed, DrillError>>,
)
    requires
        scored(sc, offset_report, reads, r),
    ensures
        r matches Step::Done(Ok(s)) ==> {
            &&& s.scorecard.outcome == sc.outcome
            &&& s.scorecard.integrity == sc.integrity
            &&& s.scorecard.objectives == sc.objectives
            &&& s.scorecard.engine.matrix_verdict == MatrixVerdict::Pass ==> sc.outcome
                == Outcome::Pass
        },
{
}

/// What the store reported of a document, once it was stored.
#[derive(Debug)]
pub struct PutReceipt {
    pub run_id: String,
    /// The digest of the signed bytes.
    pub scorecard_sha256: String,
    pub scorecard_key: String,
    pub create_only_enforced: bool,
    pub version_id: Option<String>,
    pub immutable: bool,
    pub retain_until: Option<Timestamp>,
    pub observed_at: Timestamp,
}

/// A receipt says what the store reported, under the key that was put.
pub open spec fn receipt_is(r: PutReceipt, signed: Signed, sha256: Seq<char>) -> bool {
    let e = signed.scorecard.evidence;
    &&& r.run_id@ == signed.scorecard.run_id@
    &&& r.scorecard_sha256@ == sha256
    &&& r.scorecard_key@ == signed.key@
    &&& r.create_only_enforced == e.create_only_enforced
    &&& r.version_id == e.version_id
    &&& r.immutable == e.immutable
    &&& r.retain_until == e.retain_until
}

/// The receipt of a stored document, observed at an instant. `sha256` is the
/// digest of the bytes that were signed.
pub fn put_receipt_at(signed: &Signed, sha256: &str, observed_at: Timestamp) -> (r: PutReceipt)
    ensures
        receipt_is(r, *signed, sha256@),
        r.observed_at == observed_at,
{
    let e = &signed.scorecard.evidence;
    PutReceipt {
        run_id: signed.scorecard.run_id.clone(),
        scorecard_sha256: sha256.to_owned(),
        scorecard_key: signed.key.clone(),
        create_only_enforced: e.create_only_enforced,
        version_id: copy_text(&e.version_id),
        immutable: e.immutable,
        retain_until: e.retain_until,
        observed_at,
    }
}

/// The receipt of a stored document, observed now.
pub fn put_receipt(signed: &Signed, sha256: &str) -> (r: PutReceipt)
    ensures
        receipt_is(r, *signed, sha256@),
{
    put_receipt_at(signed, sha256, now())
}

/// The next step of storing a receipt.
pub fn persist_put_receipt(r: &PutReceipt, reads: &PersistReads) -> (step: Step<
    PersistQuestion,
    Result<(), DrillError>,
>)
    ensures
        persist_agrees(
            step,
            persist_step(r.run_id@, ".receipt.json"@, ".receipt.sig"@, *reads),
        ),
{
    crate::drill::persist::persist(r.run_id.as_str(), ".receipt.json", ".receipt.sig", reads)
}

} // verus!
