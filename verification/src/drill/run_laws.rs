//! What is promised of a run as a whole: what its document starts from and what it
//! may claim, what is stored of it, and who hears of it.
use vstd::prelude::*;
use crate::clock::{millis_of, secs_between, Timestamp};
use crate::drill::draft::{asked_for, is_draft, sample_is, source_is, target_is, EngineId};
use crate::drill::error::{DrillError, ErrorModel};
use crate::drill::facts::{BackupSetFacts, BackupSetRef, SampleSelection};
use crate::drill::notify::{
    bare_digest, body_is, endpoint_of, failure_event_is, failure_incident_of, identity_of,
    incident_of, is_scheme, result_event_is, sinks_of, NotifyBody, PageDetails, PageEvent,
};
use crate::drill::persist::{persist_step, PersistAsk, PersistReads};
use crate::drill::phase0_admit::Admitted;
use crate::drill::phase4_sample::Selection;
use crate::drill::phase5_preflight::{FindingModel, PreflightReport};
use crate::drill::phase7_verify::VerifyOutcome;
use crate::drill::phase8_score::{
    noted, receipt_is, report_note, report_to_keep, scored, PutReceipt, ScoreQuestion, ScoreReads,
    Signed, CAVEAT_ENGINE_SUBREPORT,
};
use crate::drill::phase9_teardown::{named_failures, notes_of, TeardownAttestation};
use crate::drill::record::{duration_of, phase_added, recorded, renoted, Stamp};
use crate::drill::report::{
    highest_signed, last_lines, report_is, signed_last, summary_of, MetricsRecord, Report,
};
use crate::drill::plan::{is_earliest, plan_is, RestorePlan};
use crate::drill::plan_laws::{
    a_restore_leaves_no_segment_out, a_restore_stops_at_its_recovery_point,
};
use crate::drill::run::{
    finding_note, finding_notes, planned, preflight_read, prepared, said, scored_result, signable,
    stamped, timeline_of, torn_down_document, unverified_result, with_new, Ending, EvidenceKeys,
    RestoreOutcome, Work,
};
use crate::drill::scorecard::{
    phase_at, phase_at_is_first, phase_notes, EngineInfo, IntegrityLevel, IntegrityResult,
    LeverState, MatrixVerdict, Outcome, PhaseRecord, SampleInfo, Scorecard, SourceInfo,
    TargetInfo,
};
use crate::drill::spec::{DrillSpec, Notifications, SampleSpec, TargetMode};
use crate::drill::step::Step;
use crate::encoding::base64_of;
use crate::exit::ExitCode;
use crate::text::{a_piece_is_found_again, found_within, joined, occurs, occurs_at, texts};

verus! {

// ---- what a document starts from -------------------------------------------

/// A document that is begun claims nothing: it is a failure until a run has
/// earned better.
pub proof fn a_document_begins_as_a_failure(
    sc: Scorecard,
    run_id: Seq<char>,
    format_version: Seq<char>,
    triggered_by: Option<String>,
    id: EngineId,
    spec: DrillSpec,
    requested_at: Timestamp,
)
    requires
        is_draft(sc, run_id, format_version, triggered_by, id, spec, requested_at),
    ensures
        sc.outcome == Outcome::FailIntegrity,
        sc.integrity.result == IntegrityResult::Fail,
        sc.integrity.level == IntegrityLevel::NotAttempted,
        sc.integrity.records_sampled == 0 && sc.integrity.records_sampled_matching == 0,
        sc.engine.matrix_verdict == MatrixVerdict::FailLeverNotHonoured,
        sc.engine.levers.header_preflight == LeverState::Ignored,
        sc.objectives.met is None,
        sc.measured.rto_seconds is None && sc.measured.rpo_seconds is None,
        sc.last_phase_completed == -1 && sc.phases@.len() == 0,
        sc.approval_validated_at is None && !sc.approval.self_attested,
        !sc.evidence.immutable && !sc.evidence.create_only_enforced,
        !sc.source.captured_by_logweir,
        sc.run_id@ == run_id,
        sc.requested_at == requested_at,
        sc.objectives.rto_seconds == spec.objectives.rto_seconds,
        sc.objectives.rpo_seconds == spec.objectives.rpo_seconds,
        sc.engine.version@ == id.version@ && sc.engine.digest@ == id.digest@,
        sc.sample.records_expected == 0 && sc.sample.records_restored == 0,
        sc.format_version@ == format_version,
        sc.triggered_by == triggered_by,
        sc.objectives.pass_rate_bits == spec.objectives.pass_rate_bits,
        sc.engine_subreport is None,
        sc.evidence.version_id is None && sc.evidence.retain_until is None,
        sc.evidence.offset_report_key is None && sc.evidence.offset_report_sha256 is None,
        sc.redactions@.len() == 0,
        sc.source.backup_id@.len() == 0 && sc.target.cluster_id@.len() == 0,
        sc.approval.approver@.len() == 0 && sc.approval.plan_hash@.len() == 0,
        sc.topic_parity.unexpected_divergence@.len() == 0,
        sc.target.mode == spec.target.mode,
{
}

/// The records that a sample asks for are the counts of its partitions, added
/// up.
pub proof fn what_is_asked_for_is_added_up(sel: Seq<SampleSelection>)
    ensures
        asked_for(sel) == sel.fold_left(0int, |n: int, s: SampleSelection| n + s.count),
    decreases sel.len(),
{
    reveal_with_fuel(Seq::fold_left, 2);
    if sel.len() > 0 {
        what_is_asked_for_is_added_up(sel.drop_last());
    }
}

/// The document tells of a sample what was selected, with every note on what the
/// archive lacks, and says so where it lacks nothing.
pub proof fn a_document_tells_its_sample(s: SampleInfo, spec: SampleSpec, sel: Selection, i: int)
    requires
        sample_is(s, spec, sel),
    ensures
        s.window_start == sel.window.0 && s.window_end == sel.window.1,
        s.topics == sel.topics && s.partitions == sel.partitions,
        s.records_restored == 0,
        s.records_expected == sel.per_partition@.fold_left(
            0int,
            |n: int, p: SampleSelection| n + p.count,
        ),
        0 <= i < sel.notes@.len() ==> occurs(s.coverage_note@, sel.notes@[i]@),
        sel.notes@.len() == 0 ==> s.coverage_note@
            == "no capture gap or retention-pruned range overlaps the sampled window"@,
{
    what_is_asked_for_is_added_up(sel.per_partition@);
    if 0 <= i < sel.notes@.len() {
        a_piece_is_found_again(texts(sel.notes@), "; "@, i);
        assert(texts(sel.notes@)[i] == sel.notes@[i]@);
    }
}

// ---- what is recorded of a phase -------------------------------------------

/// A phase is recorded behind those before it, none of which changes. A phase
/// that failed completes nothing, and its record says why.
pub proof fn a_failed_phase_completes_nothing(
    before: Scorecard,
    after: Scorecard,
    phase: i8,
    name: Seq<char>,
    failure: Option<ErrorModel>,
    i: int,
)
    requires
        recorded(before, after, phase, name, failure),
    ensures
        after.phases@.len() == before.phases@.len() + 1,
        0 <= i < before.phases@.len() ==> after.phases@[i] == before.phases@[i],
        after.phases@.last().phase == phase,
        after.phases@.last().name@ == name,
        failure is None ==> after.last_phase_completed == phase && after.phases@.last().outcome@
            == "ok"@,
        failure is Some ==> after.last_phase_completed == before.last_phase_completed
            && after.phases@.last().outcome@ == "failed: "@ + failure->0.message(),
        after.outcome == before.outcome,
        after.integrity == before.integrity,
        after.objectives == before.objectives,
        after.measured == before.measured,
{
    if 0 <= i < before.phases@.len() {
        assert(after.phases@.drop_last()[i] == before.phases@[i]);
    }
}

/// Notes go to the first record of their phase and to no other.
pub proof fn notes_go_to_their_phase(
    before: Seq<PhaseRecord>,
    after: Seq<PhaseRecord>,
    phase: int,
    notes: Seq<Seq<char>>,
    i: int,
)
    requires
        renoted(before, after, phase, notes),
        0 <= i < before.len(),
    ensures
        after.len() == before.len(),
        before[i].phase != phase ==> after[i] == before[i],
        before[i].phase == phase && (forall|j: int|
            0 <= j < i ==> (#[trigger] before[j]).phase != phase) ==> texts(after[i].notes@) == notes,
        after[i].outcome == before[i].outcome && after[i].phase == before[i].phase,
{
    phase_at_is_first(before, phase);
}

/// Every warning that was told is kept, and none is told twice that was not.
pub proof fn every_warning_is_kept_once(known: Seq<Seq<char>>, more: Seq<Seq<char>>, w: Seq<char>)
    ensures
        with_new(known, more).contains(w) <==> known.contains(w) || more.contains(w),
        known.is_prefix_of(with_new(known, more)),
        known.no_duplicates() ==> with_new(known, more).no_duplicates(),
    decreases more.len(),
{
    if more.len() > 0 {
        let rest = more.drop_last();
        every_warning_is_kept_once(known, rest, w);
        every_warning_is_kept_once(known, rest, more.last());
        let so_far = with_new(known, rest);
        let all = with_new(known, more);
        assert(more[more.len() - 1] == more.last());
        if rest.contains(w) {
            let i = choose|i: int| 0 <= i < rest.len() && rest[i] == w;
            assert(more[i] == w);
        }
        if more.contains(w) {
            let i = choose|i: int| 0 <= i < more.len() && more[i] == w;
            if i < rest.len() {
                assert(rest[i] == w);
            }
        }
        if so_far.contains(w) {
            let i = choose|i: int| 0 <= i < so_far.len() && so_far[i] == w;
            assert(all[i] == w);
        }
        if !so_far.contains(more.last()) {
            assert(all[all.len() - 1] == more.last());
        }
    }
}

/// Every finding of a preflight is noted, with its topic, its state and what was
/// found.
pub proof fn every_finding_is_noted(v: Seq<FindingModel>, i: int)
    requires
        0 <= i < v.len(),
    ensures
        finding_notes(v).len() == v.len(),
        occurs(finding_notes(v)[i], v[i].topic),
        occurs(finding_notes(v)[i], v[i].state),
        occurs(finding_notes(v)[i], v[i].detail),
{
    let f = v[i];
    let note = finding_note(f);
    assert(occurs_at(f.topic, f.topic, 0)) by {
        assert(f.topic.subrange(0, f.topic.len() as int) =~= f.topic);
    }
    assert(occurs_at(f.state, f.state, 0)) by {
        assert(f.state.subrange(0, f.state.len() as int) =~= f.state);
    }
    assert(occurs_at(f.detail, f.detail, 0)) by {
        assert(f.detail.subrange(0, f.detail.len() as int) =~= f.detail);
    }
    let number = crate::text::decimal_int(f.partition as int);
    let opening = f.topic + "/"@ + number + " "@;
    found_within(Seq::empty(), f.topic, "/"@ + number + " "@ + f.state + ": "@ + f.detail, f.topic);
    assert(Seq::<char>::empty() + f.topic + ("/"@ + number + " "@ + f.state + ": "@ + f.detail)
        =~= note);
    found_within(opening, f.state, ": "@ + f.detail, f.state);
    assert(opening + f.state + (": "@ + f.detail) =~= note);
    found_within(opening + f.state + ": "@, f.detail, Seq::empty(), f.detail);
    assert(opening + f.state + ": "@ + f.detail + Seq::<char>::empty() =~= note);
}

/// A preflight raises the engine's verdict only where the engine honoured the
/// scan of headers.
pub proof fn a_lever_is_honoured_only_where_it_was(
    before: EngineInfo,
    after: EngineInfo,
    report: PreflightReport,
)
    requires
        preflight_read(before, after, report),
    ensures
        after.levers.header_preflight == LeverState::Honoured <==> report.header_preflight_honoured,
        report.header_preflight_honoured ==> after.matrix_verdict == MatrixVerdict::Pass,
        !report.header_preflight_honoured ==> after.matrix_verdict == before.matrix_verdict
            && after.levers.header_preflight == LeverState::Ignored,
        after.levers.unknown_key_warnings == report.unknown_key_warnings,
        after.version == before.version && after.digest == before.digest,
{
}

// ---- what is signed and stored ---------------------------------------------

/// A document is signed and stored exactly where every step of it succeeded: a
/// listed report was fetched, the document contradicts nothing, its bytes were
/// signed, its keys were free, and every object was put.
pub proof fn a_document_is_stored_where_every_step_succeeded(
    sc: Scorecard,
    offset_report: Option<Seq<char>>,
    reads: ScoreReads,
    r: Step<ScoreQuestion, Result<Signed, DrillError>>,
)
    requires
        scored(sc, offset_report, reads, r),
    ensures
        (r matches Step::Done(Ok(_))) <==> {
            let listed = reads.report_keys matches Some(Ok(keys)) && keys@.len() > 0;
            let offsets = offset_report is Some && (reads.offsets matches Some(Some(_)));
            &&& reads.report_keys is Some
            &&& listed ==> (reads.report matches Some(Ok(_)))
            &&& offset_report is Some ==> reads.offsets is Some
            &&& reads.valid matches Some(Ok(_))
            &&& reads.bytes matches Some(Ok(_))
            &&& reads.sidecar matches Some(Ok(_))
            &&& reads.taken is Some
            &&& !(reads.taken matches Some(Ok(Some(_))))
            &&& reads.scorecard_put matches Some(Ok(_))
            &&& reads.sidecar_put matches Some(Ok(_))
            &&& offsets ==> (reads.offsets_put matches Some(Ok(_)))
            &&& reads.lock is Some
        },
        r matches Step::Done(Ok(s)) ==> {
            let e = s.scorecard.evidence;
            &&& s.bytes@ == reads.bytes->0->Ok_0@
            &&& s.sidecar@ == reads.sidecar->0->Ok_0@
            &&& s.key@ == "logweir/drills/"@ + sc.run_id@ + ".json"@
            &&& s.sidecar_key@ == "logweir/drills/"@ + sc.run_id@ + ".sig"@
            &&& s.offset_report_key is Some <==> offset_report is Some && (
            reads.offsets matches Some(Some(_)))
            &&& e.create_only_enforced == reads.scorecard_put->0->Ok_0.create_only_enforced
            &&& e.version_id == reads.scorecard_put->0->Ok_0.version_id
            &&& e.immutable <==> (reads.lock matches Some(Some(lock)) && lock.immutable)
            &&& reads.lock matches Some(Some(lock)) ==> e.retain_until == lock.retain_until
            &&& s.scorecard.outcome == sc.outcome
            &&& s.scorecard.integrity == sc.integrity
            &&& s.scorecard.objectives == sc.objectives
            &&& s.scorecard.measured == sc.measured
            &&& s.scorecard.approval == sc.approval
            &&& s.scorecard.engine_subreport is Some <==> (
            reads.report_keys matches Some(Ok(keys)) && keys@.len() > 0)
            &&& s.scorecard.engine_subreport matches Some(sub) ==> {
                &&& sub.retained_verbatim
                &&& sub.retrieved_from@ == reads.report_keys->0->Ok_0@[0]@
                &&& sub.caveat@ == CAVEAT_ENGINE_SUBREPORT@
                &&& sub.body_sha256@ == reads.report->0->Ok_0.sha256@
                &&& sub.body_b64@ == base64_of(reads.report->0->Ok_0.bytes@)
            }
        },
        r matches Step::Ask(ScoreQuestion::Sign(bytes)) ==> bytes@ == reads.bytes->0->Ok_0@,
        r matches Step::Ask(ScoreQuestion::PutScorecard { key, bytes }) ==> bytes@
            == reads.bytes->0->Ok_0@ && key@ == "logweir/drills/"@ + sc.run_id@ + ".json"@,
        r matches Step::Ask(ScoreQuestion::PutSidecar { key, bytes }) ==> bytes@
            == reads.sidecar->0->Ok_0@ && key@ == "logweir/drills/"@ + sc.run_id@ + ".sig"@,
        r matches Step::Ask(ScoreQuestion::PutOffsets { key, bytes }) ==> bytes@
            == reads.offsets->0->0.bytes@,
{
}

/// A record is stored exactly where it was written out, signed and put, and its
/// signature was put as well: what is put is what was signed.
pub proof fn a_record_is_stored_with_its_signature(
    run_id: Seq<char>,
    document_ending: Seq<char>,
    sidecar_ending: Seq<char>,
    reads: PersistReads,
)
    ensures
        ({
            let m = persist_step(run_id, document_ending, sidecar_ending, reads);
            &&& (m matches Step::Done(Ok(_))) <==> {
                &&& reads.document matches Some(Ok(_))
                &&& reads.sidecar matches Some(Ok(_))
                &&& reads.document_put matches Some(Ok(_))
                &&& reads.sidecar_put matches Some(Ok(_))
            }
            &&& m matches Step::Done(Err(e)) ==> e is SigningOrLock
            &&& m matches Step::Ask(PersistAsk::Sign(bytes)) ==> bytes == reads.document->0->Ok_0@
            &&& m matches Step::Ask(PersistAsk::Put { key, bytes }) ==> {
                ||| key == "logweir/drills/"@ + run_id + document_ending && bytes
                    == reads.document->0->Ok_0@ && reads.document_put is None
                ||| key == "logweir/drills/"@ + run_id + sidecar_ending && bytes
                    == reads.sidecar->0->Ok_0@ && reads.sidecar_put is None
            }
        }),
{
}

// ---- what is told of a run -------------------------------------------------

proof fn the_highest_is_a_signed_phase(phases: Seq<PhaseRecord>)
    ensures
        forall|i: int|
            0 <= i < phases.len() && (#[trigger] phases[i]).phase < 8 && phases[i].outcome@ == "ok"@
                ==> highest_signed(phases) is Some && phases[i].phase
                <= highest_signed(phases)->0,
        highest_signed(phases) matches Some(p) ==> exists|i: int|
            0 <= i < phases.len() && (#[trigger] phases[i]).phase == p && p < 8
                && phases[i].outcome@ == "ok"@,
    decreases phases.len(),
{
    if phases.len() > 0 {
        let rest = phases.drop_last();
        the_highest_is_a_signed_phase(rest);
        assert(phases[phases.len() - 1] == phases.last());
        assert forall|i: int|
            0 <= i < phases.len() && (#[trigger] phases[i]).phase < 8 && phases[i].outcome@
                == "ok"@ implies highest_signed(phases) is Some
            && phases[i].phase <= highest_signed(phases)->0 by {
            if i < rest.len() {
                assert(rest[i] == phases[i]);
            }
        }
        if let Some(p) = highest_signed(rest) {
            let i = choose|i: int|
                0 <= i < rest.len() && (#[trigger] rest[i]).phase == p && p < 8
                    && rest[i].outcome@ == "ok"@;
            assert(phases[i] == rest[i]);
        }
    }
}

/// The last phase that a summary tells is the highest, of those before the
/// signing, that ended well; and it is the one before the first where none did.
pub proof fn a_summary_tells_the_highest_phase_that_ended_well(phases: Seq<PhaseRecord>, i: int)
    ensures
        0 <= i < phases.len() && phases[i].phase < 8 && phases[i].outcome@ == "ok"@
            ==> phases[i].phase <= signed_last(phases),
        (exists|k: int|
            0 <= k < phases.len() && (#[trigger] phases[k]).phase == signed_last(phases)
                && phases[k].phase < 8 && phases[k].outcome@ == "ok"@) || signed_last(phases) == -1,
{
    the_highest_is_a_signed_phase(phases);
}

/// A summary names the run, its outcome, and every topic that was left behind.
pub proof fn a_summary_names_what_was_left_behind(sc: Scorecard, i: int)
    ensures
        occurs(summary_of(sc), sc.run_id@),
        ({
            let left = named_failures(texts(phase_notes(sc.phases@, 9)));
            0 <= i < left.len() ==> occurs(summary_of(sc), left[i])
        }),
{
    let left = named_failures(texts(phase_notes(sc.phases@, 9)));
    let whole = summary_of(sc);
    assert(occurs_at(whole, sc.run_id@, "run "@.len() as int)) by {
        assert(whole.subrange("run "@.len() as int, "run "@.len() as int + sc.run_id@.len())
            =~= sc.run_id@);
    }
    if 0 <= i < left.len() {
        a_piece_is_found_again(left, ", "@, i);
        let told = joined(left, ", "@);
        let before = whole.take(whole.len() - told.len() - ")"@.len());
        found_within(before, told, ")"@, left[i]);
        assert(before + told + ")"@ =~= whole);
    }
}

/// A run exits with success only where it passed. What was refused is told on a
/// line of its own; a failure that left no document is told by its message, and
/// to others only where the run was authenticated and could sign.
pub proof fn a_run_tells_how_it_ended(
    r: Report,
    file: Option<String>,
    outcome: Result<RestoreOutcome, DrillError>,
    authenticated: bool,
)
    requires
        report_is(r, file, outcome, authenticated),
    ensures
        r.code == ExitCode::Success <==> outcome is Ok,
        r.code == ExitCode::GuardRefused <==> (outcome matches Err(e) && e is Guard),
        r.code == ExitCode::DrillNotPass <==> (outcome matches Err(e) && e is NotPass),
        r.refusal is Some <==> (outcome matches Err(e) && e is Guard),
        outcome matches Err(DrillError::Guard(g)) ==> r.refusal->0@ == g.0@,
        r.summary is Some <==> outcome is Ok || (outcome matches Err(e) && e is NotPass),
        outcome matches Ok(o) ==> r.summary->0@ == summary_of(o.scorecard),
        outcome matches Err(DrillError::NotPass(sc)) ==> r.summary->0@ == summary_of(*sc),
        r.failure is Some <==> r.summary is None,
        r.failure is Some ==> r.failure->0@ == outcome->Err_0@.message(),
        r.tell <==> r.failure is Some && authenticated && !(outcome matches Err(e)
            && e is SigningPrerequisite),
        file is None ==> r.metrics is None,
        file matches Some(path) ==> match r.metrics {
            Some(MetricsRecord::Document(p)) => p@ == path@ && r.summary is Some,
            Some(MetricsRecord::Minimal(p)) => p@ == path@ && r.summary is None,
            None => false,
        },
{
}

/// The last lines of a run: the refusal where it was refused, the keys of what it
/// stored where it passed, and nothing else.
pub proof fn the_last_lines_name_what_was_stored(
    code: ExitCode,
    refusal_line: Seq<char>,
    preflight_line: Option<Seq<char>>,
    evidence: Option<EvidenceKeys>,
    line: Seq<char>,
)
    ensures
        last_lines(code, refusal_line, preflight_line, evidence).contains(line) <==> {
            ||| code == ExitCode::GuardRefused && line == refusal_line
            ||| code == ExitCode::Success && preflight_line == Some(line)
            ||| code == ExitCode::Success && (evidence matches Some(e) && (line
                == "scorecard-key="@ + e.scorecard_key@ || line == "sidecar-key="@ + e.sidecar_key@
                || (e.offset_report_key matches Some(k) && line == "offset-report-key="@ + k@)))
        },
{
    let all = last_lines(code, refusal_line, preflight_line, evidence);
    if code == ExitCode::GuardRefused {
        assert(all[0] == refusal_line);
    } else if code == ExitCode::Success {
        let first = match preflight_line {
            Some(l) => seq![l],
            None => Seq::empty(),
        };
        if let Some(l) = preflight_line {
            assert(all[0] == l);
        }
        if let Some(e) = evidence {
            let n = first.len() as int;
            assert(all[n] == "scorecard-key="@ + e.scorecard_key@);
            assert(all[n + 1] == "sidecar-key="@ + e.sidecar_key@);
            if let Some(k) = e.offset_report_key {
                assert(all[n + 2] == "offset-report-key="@ + k@);
            }
        }
    }
}

/// A page on a document resolves its incident exactly where the drill passed; it
/// carries the document's own outcome and measures.
pub proof fn only_a_pass_resolves_an_incident(
    e: PageEvent,
    key: Seq<char>,
    spec_name: Option<Seq<char>>,
    sc: Scorecard,
)
    requires
        result_event_is(e, key, spec_name, sc),
    ensures
        e.event_action@ == "resolve"@ <==> sc.outcome == Outcome::Pass,
        e.event_action@ == "trigger"@ <==> sc.outcome != Outcome::Pass,
        e.routing_key@ == key,
        e.dedup_key@ == incident_of(spec_name, sc.approval.plan_hash@, sc.target.cluster_id@),
        e.source@ == sc.target.cluster_id@,
        e.severity@ == "warning"@,
        e.custom_details matches PageDetails::Document(b) && b.outcome == sc.outcome && b.run_id@
            == sc.run_id@ && b.integrity_result == sc.integrity.result,
{
    reveal_strlit("resolve");
    reveal_strlit("trigger");
    assert("resolve"@[0] != "trigger"@[0]);
}

/// What is told of a document are its own outcome, measures and marks, and the
/// path of everything that was left out of it.
pub proof fn what_is_told_is_the_documents(b: NotifyBody, sc: Scorecard, i: int)
    requires
        body_is(b, sc),
    ensures
        b.run_id@ == sc.run_id@,
        b.outcome == sc.outcome,
        b.rto_excluding_preflight_seconds == sc.measured.rto_excluding_preflight_seconds,
        b.rpo_seconds == sc.measured.rpo_seconds,
        b.integrity_level == sc.integrity.level,
        b.integrity_result == sc.integrity.result,
        b.self_attested == sc.approval.self_attested,
        b.redactions@.len() == sc.redactions@.len(),
        0 <= i < sc.redactions@.len() ==> b.redactions@[i]@ == sc.redactions@[i].path@,
{
    assert(texts(b.redactions@).len() == b.redactions@.len());
    if 0 <= i < sc.redactions@.len() {
        assert(texts(b.redactions@)[i] == b.redactions@[i]@);
    }
}

/// A page on a run that left no document opens an incident. It is grave, but for
/// a plan that was refused, which touched nothing.
pub proof fn only_a_refusal_is_no_emergency(
    e: PageEvent,
    key: Seq<char>,
    spec_name: Option<Seq<char>>,
    run_id: Seq<char>,
    code: ExitCode,
    message: Seq<char>,
)
    requires
        failure_event_is(e, key, spec_name, run_id, code, message),
    ensures
        e.event_action@ == "trigger"@,
        e.severity@ == "warning"@ <==> code == ExitCode::GuardRefused,
        e.severity@ == "critical"@ <==> code != ExitCode::GuardRefused,
        e.routing_key@ == key,
        e.dedup_key@ == failure_incident_of(spec_name),
        spec_name matches Some(name) ==> e.source@ == name,
        e.custom_details matches PageDetails::Failure { run_id: r, exit_code, error } && r@ == run_id
            && error@ == message && (exit_code == 0 <==> code == ExitCode::Success),
        occurs(e.summary@, run_id) && occurs(e.summary@, message),
{
    reveal_strlit("warning");
    reveal_strlit("critical");
    assert("warning"@.len() != "critical"@.len());
    let whole = e.summary@;
    let at = "logweir drill "@.len() as int;
    assert(occurs_at(whole, run_id, at)) by {
        assert(whole.subrange(at, at + run_id.len()) =~= run_id);
    }
    let end = whole.len() - message.len();
    assert(occurs_at(whole, message, end)) by {
        assert(whole.subrange(end, end + message.len()) =~= message);
    }
}

/// Every address that was asked for hears of a document, and no other does.
pub proof fn every_address_hears(n: Notifications, address: Seq<char>)
    ensures
        sinks_of(n).contains(address) <==> texts(n.webhooks@).contains(address) || (
        n.slack_webhook matches Some(u) && u@ == address),
        sinks_of(n).len() == n.webhooks@.len() + (if n.slack_webhook is Some {
            1int
        } else {
            0
        }),
{
    let hooks = texts(n.webhooks@);
    let all = sinks_of(n);
    if hooks.contains(address) {
        let i = choose|i: int| 0 <= i < hooks.len() && hooks[i] == address;
        assert(all[i] == address);
    }
    if let Some(u) = n.slack_webhook {
        assert(all[all.len() - 1] == u@);
    }
    if all.contains(address) {
        let i = choose|i: int| 0 <= i < all.len() && all[i] == address;
        if i < hooks.len() {
            assert(hooks[i] == address);
        }
    }
}

/// A page goes only where it cannot be read on its way: to the address that was
/// asked for, where it is an `https` one, and to no address of the library's own
/// choosing in its place.
pub proof fn a_page_goes_where_it_was_asked_to(n: Notifications)
    ensures
        n.pagerduty_endpoint matches Some(u) ==> (endpoint_of(n) is Ok <==> "https://"@.is_prefix_of(
            u@,
        )) && (endpoint_of(n) is Ok ==> endpoint_of(n)->Ok_0 == u@),
        n.pagerduty_endpoint is None ==> endpoint_of(n) is Ok,
{
}

/// A digest is told without its algorithm, however often that stands before it.
pub proof fn a_digest_is_told_bare(s: Seq<char>)
    ensures
        !"sha256:"@.is_prefix_of(bare_digest(s)),
        bare_digest("sha256:"@ + s) == bare_digest(s),
        !"sha256:"@.is_prefix_of(s) ==> bare_digest(s) == s,
    decreases s.len(),
{
    reveal_strlit("sha256:");
    let opening = "sha256:"@;
    assert((opening + s).skip(opening.len() as int) =~= s);
    assert(opening.is_prefix_of(opening + s));
    if opening.is_prefix_of(s) {
        a_digest_is_told_bare(s.skip(opening.len() as int));
    }
}

/// An incident is named by the plan where it has a name, and otherwise by the
/// first twelve digits of its digest; the same plan on the same cluster is always
/// the same incident.
pub proof fn an_incident_is_named_by_its_plan(
    plan_hash: Seq<char>,
    cluster_id: Seq<char>,
    name: Seq<char>,
)
    ensures
        identity_of(Some(name), plan_hash) == name,
        bare_digest(plan_hash).len() >= 12 ==> identity_of(None, plan_hash).len() == 12
            && identity_of(None, plan_hash).is_prefix_of(bare_digest(plan_hash)),
        bare_digest(plan_hash).len() < 12 ==> identity_of(None, plan_hash) == "unnamed"@,
        incident_of(Some(name), plan_hash, cluster_id) == "logweir-drill-"@ + name + "-"@
            + cluster_id,
        failure_incident_of(Some(name)) == "logweir-drill-"@ + name + "-preflight"@,
{
    let h = bare_digest(plan_hash);
    if h.len() >= 12 {
        assert(h.take(12).is_prefix_of(h));
        if h.len() == 12 {
            assert(h.take(12) =~= h);
        }
    }
}

// ---- how a run is scored ---------------------------------------------------

/// How long a phase took is what its first record says, and nothing where it has
/// none.
pub proof fn a_duration_is_the_phases_own(phases: Seq<PhaseRecord>, phase: int, i: int)
    ensures
        0 <= i < phases.len() && phases[i].phase == phase && (forall|j: int|
            0 <= j < i ==> (#[trigger] phases[j]).phase != phase) ==> duration_of(phases, phase)
            == phases[i].duration_ms,
        (forall|j: int| 0 <= j < phases.len() ==> (#[trigger] phases[j]).phase != phase)
            ==> duration_of(phases, phase) == 0,
{
    phase_at_is_first(phases, phase);
}

/// A document that was verified carries what was verified, is measured by the
/// run's own instants, and passes only where the verification passed and every
/// objective that the plan sets was kept.
pub proof fn a_verified_document_is_scored_by_what_was_read(
    before: Scorecard,
    after: Scorecard,
    work: Work,
    started_at: Timestamp,
    finished_at: Timestamp,
    spec: DrillSpec,
    v: VerifyOutcome,
    rate_reached: bool,
)
    requires
        scored_result(
            before,
            after,
            work,
            timeline_of(before, work, started_at, finished_at, v.verified_at),
            spec,
            v,
            rate_reached,
        ),
    ensures
        after.integrity == v.integrity,
        after.topic_parity == v.topic_parity,
        after.sample.records_restored == v.records_restored,
        after.sample.records_expected == before.sample.records_expected,
        after.approval == before.approval,
        after.objectives.rto_seconds == spec.objectives.rto_seconds,
        after.objectives.rpo_seconds == spec.objectives.rpo_seconds,
        after.objectives.pass_rate_bits == spec.objectives.pass_rate_bits,
        after.measured.rto_seconds matches Some(n) && n == secs_between(
            work.validated_at@,
            v.verified_at@,
        ),
        after.measured.rto_requested_to_verified_seconds matches Some(n) && n == secs_between(
            before.requested_at@,
            v.verified_at@,
        ),
        after.measured.rto_restore_only_seconds matches Some(n) && n == secs_between(
            started_at@,
            finished_at@,
        ),
        after.measured.rto_excluding_preflight_seconds matches Some(n) && n
            <= after.measured.rto_seconds->0 && (duration_of(before.phases@, 5) < 1000 ==> n
            == after.measured.rto_seconds->0),
        after.measured.rpo_seconds matches Some(n) && (v.newest_restored_ts_ms <= millis_of(
            work.plan.time_window.1@,
        ) ==> n * 1000 <= millis_of(work.plan.time_window.1@) - v.newest_restored_ts_ms < (n + 1)
            * 1000),
        after.outcome == Outcome::FailIntegrity <==> v.integrity.result != IntegrityResult::Pass,
        after.outcome == Outcome::Pass && (spec.objectives.pass_rate_bits is Some
            ==> v.integrity.pass_rate_measured is Some) ==> {
            &&& spec.objectives.rto_seconds matches Some(want)
                ==> after.measured.rto_excluding_preflight_seconds->0 <= want
            &&& spec.objectives.rpo_seconds matches Some(want) ==> after.measured.rpo_seconds->0
                <= want
            &&& spec.objectives.pass_rate_bits is Some ==> rate_reached
        },
        after.outcome != Outcome::PreflightFailed,
{
}

/// A document of a run that was stopped before anything was verified claims no
/// integrity and no time.
pub proof fn what_was_not_verified_is_not_claimed(before: Scorecard, after: Scorecard, outcome: Outcome)
    requires
        unverified_result(before, after, outcome),
    ensures
        after.outcome == outcome,
        after.integrity.level == IntegrityLevel::NotAttempted,
        after.integrity.result == IntegrityResult::Fail,
        after.measured.rto_seconds is None,
        after.objectives == before.objectives,
        after.approval == before.approval,
{
}

/// Taking the topics away changes nothing that was signed. A topic that could not
/// be taken away is noted with its name and the reason, in the order of the
/// attestation.
pub proof fn a_teardown_changes_no_result(
    before: Scorecard,
    after: Scorecard,
    stamp: Stamp,
    att: TeardownAttestation,
    i: int,
)
    requires
        torn_down_document(before, after, stamp, att),
        forall|j: int| 0 <= j < before.phases@.len() ==> (#[trigger] before.phases@[j]).phase != 9,
    ensures
        after.outcome == before.outcome,
        after.integrity == before.integrity,
        after.measured == before.measured,
        after.objectives == before.objectives,
        after.last_phase_completed == 9,
        after.phases@.len() == before.phases@.len() + 1,
        0 <= i < before.phases@.len() ==> after.phases@[i] == before.phases@[i],
        after.phases@.last().notes@.len() == att.topics_failed@.len(),
        0 <= i < att.topics_failed@.len() ==> occurs(
            after.phases@.last().notes@[i]@,
            att.topics_failed@[i].0@,
        ) && occurs(after.phases@.last().notes@[i]@, att.topics_failed@[i].1@),
{
    let mid = choose|mid: Seq<PhaseRecord>|
        #![trigger stamped(mid, stamp)]
        phase_added(before.phases@, mid, 9, "teardown"@, None) && stamped(mid, stamp) && if
            att.topics_failed@.len() == 0 {
            after.phases@ == mid
        } else {
            renoted(mid, after.phases@, 9, notes_of(att.topics_failed@))
        };
    let n = before.phases@.len() as int;
    phase_at_is_first(mid, 9);
    assert(mid[n] == mid.last());
    assert forall|j: int| 0 <= j < n implies mid[j] == #[trigger] before.phases@[j] by {
        assert(mid.drop_last()[j] == mid[j]);
    }
    assert(phase_at(mid, 9) == Some(n)) by {
        assert(mid[n].phase == 9);
        let k = phase_at(mid, 9)->0;
        if k < n {
            assert(before.phases@[k].phase != 9);
        }
    }
    let notes = after.phases@[n].notes@;
    if att.topics_failed@.len() > 0 {
        assert(texts(notes) == notes_of(att.topics_failed@));
        assert(texts(notes).len() == notes.len());
        if 0 <= i < att.topics_failed@.len() {
            let (topic, why) = (att.topics_failed@[i].0@, att.topics_failed@[i].1@);
            let note = notes[i]@;
            assert(texts(notes)[i] == note);
            let at = "teardown-failed: "@.len() as int;
            assert(occurs_at(note, topic, at)) by {
                assert(note.subrange(at, at + topic.len()) =~= topic);
            }
            let end = note.len() - why.len();
            assert(occurs_at(note, why, end)) by {
                assert(note.subrange(end, end + why.len()) =~= why);
            }
        }
    }
}

/// What is reported of a stored document is what the store said of it.
pub proof fn a_receipt_tells_what_the_store_said(
    r: PutReceipt,
    signed: Signed,
    sha256: Seq<char>,
)
    requires
        receipt_is(r, signed, sha256),
    ensures
        r.run_id@ == signed.scorecard.run_id@,
        r.scorecard_sha256@ == sha256,
        r.scorecard_key@ == signed.key@,
        r.immutable <==> signed.scorecard.evidence.immutable,
        r.create_only_enforced <==> signed.scorecard.evidence.create_only_enforced,
        r.version_id == signed.scorecard.evidence.version_id,
        r.retain_until == signed.scorecard.evidence.retain_until,
{
}

/// The target that a document names is the one that was admitted, with every
/// topic of the plan counted; it names the marker topic only on a scratch
/// cluster, and the user only where there is one.
pub proof fn a_document_names_the_target_that_was_admitted(
    t: TargetInfo,
    spec: DrillSpec,
    admitted: Admitted,
    digest: Seq<char>,
)
    requires
        target_is(t, spec, admitted, digest),
    ensures
        t.cluster_id@ == admitted.target_cluster_id@,
        t.mode == spec.target.mode,
        t.marker_topic is Some <==> spec.target.mode == TargetMode::Scratch,
        t.marker_topic is Some ==> t.marker_topic->0@ == spec.target.marker_topic@,
        t.topic_mapping_entries == admitted.topic_mapping@.len(),
        t.topic_mapping_prefix@ == admitted.topic_mapping_prefix@,
        t.topic_mapping_sha256@ == digest,
        t.auth is Some,
        t.auth->0.username is Some <==> spec.target.auth is ScramSha512,
{
}

/// The engine's own report is noted where there is none to keep and where more
/// than one would have to be dropped, and not otherwise.
pub proof fn a_report_that_is_not_kept_is_noted(keys: Result<Vec<String>, String>)
    ensures
        report_note(keys) is None <==> (keys matches Ok(v) && v@.len() == 1),
        report_to_keep(keys) is Some <==> (keys matches Ok(v) && v@.len() > 0),
        keys matches Ok(v) ==> (v@.len() > 0 ==> report_to_keep(keys) == Some(v@[0]@)),
        keys matches Ok(v) ==> (v@.len() > 1 ==> occurs(report_note(keys)->0, v@[0]@)),
{
    if let Ok(v) = keys {
        if v@.len() > 1 {
            let key = v@[0]@;
            let whole = report_note(keys)->0;
            let end = " and dropped the rest"@;
            let at = whole.len() - end.len() - key.len();
            assert(occurs_at(whole, key, at)) by {
                assert(whole.subrange(at, at + key.len()) =~= key);
            }
        }
    }
}

/// A note on a phase is added behind those that it has; no other record changes.
pub proof fn a_note_is_added_to_its_phase(
    before: Seq<PhaseRecord>,
    after: Seq<PhaseRecord>,
    note: Option<Seq<char>>,
    i: int,
)
    requires
        noted(before, after, note),
        0 <= i < before.len(),
    ensures
        after.len() == before.len(),
        before[i].phase != 8 || note is None ==> after[i] == before[i],
        before[i].phase == 8 && note is Some && (forall|j: int|
            0 <= j < i ==> (#[trigger] before[j]).phase != 8) ==> texts(after[i].notes@) == texts(
            before[i].notes@,
        ).push(note->0),
        after[i].outcome == before[i].outcome,
{
    phase_at_is_first(before, 8);
}

/// The three phases before a restore are recorded one after the other, each as
/// one that ended well.
pub proof fn the_preparation_is_recorded(
    before: Seq<PhaseRecord>,
    after: Seq<PhaseRecord>,
    stamp: Stamp,
    i: int,
)
    requires
        prepared(before, after, stamp),
    ensures
        after.len() == before.len() + 3,
        0 <= i < before.len() ==> after[i] == before[i],
        0 <= i < 3 ==> after[before.len() + i].phase == i + 2 && after[before.len() + i].outcome@
            == "ok"@,
        after[before.len() as int].at == stamp.at,
        after[before.len() as int].duration_ms == stamp.duration_ms,
{
    let n = before.len() as int;
    let two = after.take(n + 1);
    let three = after.take(n + 2);
    assert(two.last() == after[n]);
    assert(three.last() == after[n + 1]);
    assert(after.last() == after[n + 2]);
    if 0 <= i < n {
        assert(two.drop_last()[i] == before[i]);
        assert(two[i] == after[i]);
    }
}

/// What is signed of a run is what it came to: one that the preflight stopped has
/// six phases that ended well and says so; one that restored nothing has a failed
/// restore and fails; and one that was scored has every phase up to the
/// verification.
pub proof fn what_is_signed_is_what_ran(sc: Scorecard, ending: Ending, i: int)
    requires
        signable(sc, ending),
    ensures
        ending is Blocked ==> sc.outcome == Outcome::PreflightFailed && sc.phases@.len() == 6
            && sc.last_phase_completed == 5,
        ending is NoOp ==> sc.outcome == Outcome::FailIntegrity && sc.phases@.len() == 7
            && sc.last_phase_completed == 5 && sc.phases@[6].phase == 6 && sc.phases@[6].outcome@
            != "ok"@,
        ending is Scored ==> sc.phases@.len() == 8 && sc.last_phase_completed == 7,
        0 <= i < 6 ==> sc.phases@[i].phase == i && sc.phases@[i].outcome@ == "ok"@,
        ending is Scored && 0 <= i < 8 ==> sc.phases@[i].phase == i && sc.phases@[i].outcome@
            == "ok"@,
{
    if ending is NoOp && 0 <= i < 6 {
        assert(sc.phases@.drop_last()[i] == sc.phases@[i]);
    }
}

/// The plan of a run stops where its spec says, and starts no later than any
/// segment of a topic that it restores.
pub proof fn the_plan_of_a_run_is_its_specs(
    plan: RestorePlan,
    spec: DrillSpec,
    set: BackupSetRef,
    mapping: Seq<(Seq<char>, Seq<char>)>,
    facts: BackupSetFacts,
    run_id: Seq<char>,
    temp_dir: Seq<char>,
    offset_report_out: Option<Seq<char>>,
    a: int,
    b: int,
    c: int,
    k: int,
)
    requires
        planned(Ok(plan), spec, set, mapping, facts, run_id, temp_dir, offset_report_out),
    ensures
        plan.set == set,
        plan.topic_mapping@ == mapping,
        plan.time_window.1@ == (match spec.point_in_time {
            Some(t) => t@,
            None => spec.sample.window_end@,
        }),
        0 <= a < facts.topics@.len() && 0 <= b < facts.topics@[a].partitions@.len() && 0 <= c
            < facts.topics@[a].partitions@[b].segments@.len() && 0 <= k < mapping.len()
            && mapping[k].0 == facts.topics@[a].name@ ==> plan.time_window.0@.secs * 1000
            + plan.time_window.0@.nanos / 1_000_000
            <= facts.topics@[a].partitions@[b].segments@[c].start_timestamp,
{
    let (earliest, d) = choose|earliest: Option<i64>, d: Result<RestorePlan, DrillError>|
        {
            &&& #[trigger] is_earliest(earliest, facts.topics@, mapping)
            &&& #[trigger] plan_is(
                d,
                spec,
                set,
                mapping,
                earliest,
                run_id,
                temp_dir,
                offset_report_out,
            )
            &&& Ok::<RestorePlan, ErrorModel>(plan) == said(d)
        };
    assert(d == Ok::<RestorePlan, DrillError>(plan));
    a_restore_stops_at_its_recovery_point(
        plan,
        spec,
        set,
        mapping,
        earliest,
        run_id,
        temp_dir,
        offset_report_out,
    );
    if 0 <= a < facts.topics@.len() && 0 <= b < facts.topics@[a].partitions@.len() && 0 <= c
        < facts.topics@[a].partitions@[b].segments@.len() && 0 <= k < mapping.len() && mapping[k].0
        == facts.topics@[a].name@ {
        a_restore_leaves_no_segment_out(
            plan,
            spec,
            set,
            mapping,
            facts.topics@,
            earliest,
            run_id,
            temp_dir,
            offset_report_out,
            a,
            b,
            c,
            k,
        );
    }
}

/// What is told of a refused address is no more than its scheme: a letter, and
/// then letters, digits, and the three signs that a scheme may have.
pub proof fn a_scheme_is_letters_digits_and_three_signs(s: Seq<char>)
    ensures
        is_scheme(s) <==> {
            &&& s.len() > 0
            &&& 'a' <= s[0] <= 'z' || 'A' <= s[0] <= 'Z'
            &&& forall|i: int|
                0 <= i < s.len() ==> ('a' <= #[trigger] s[i] <= 'z' || 'A' <= s[i] <= 'Z' || '0'
                    <= s[i] <= '9' || s[i] == '+' || s[i] == '-' || s[i] == '.')
        },
{
}

/// The source that a document names is the backup set that was described, and it
/// is not claimed to have been captured here.
pub proof fn a_document_names_the_set_that_was_described(r: SourceInfo, facts: BackupSetFacts)
    requires
        source_is(r, facts),
    ensures
        r.backup_id@ == facts.backup_id@,
        r.manifest_sha256@ == facts.manifest_sha256@,
        r.manifest_version_id == facts.manifest_version_id,
        !r.captured_by_logweir,
{
}

} // verus!
