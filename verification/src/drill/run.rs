//! The sequence of a drill: which phase comes next, and what each phase's
//! result means for the document and for the run.
//!
//! Each function takes the document and what was gathered so far, and the
//! result of what was done outside, and says how the run goes on.
use vstd::prelude::*;
use crate::clock::{millis_of, now, start_watch, watched_ms, Timestamp};
use crate::drill::draft::{
    asked_for, assert_engine_identity, identity_failure, is_draft, new_scorecard, sample_info,
    sample_is, source_info, source_is, target_info, target_is, EngineId,
};
use crate::drill::error::{DrillError, EngineError, ErrorModel};
use crate::drill::facts::{BackupSetFacts, BackupSetRef, SampleSelection};
use crate::drill::phase0_admit::{Admitted, TopicPreflight};
use crate::drill::phase1_approval::Approved;
use crate::drill::phase2_target::TargetState;
use crate::drill::phase3_diff::{
    colliding, collisions_fit, diff_is, mapped, partitions_fit, summarises, TargetDiff,
};
use crate::drill::phase4_sample::{
    bound, candidates, kept, selection_is, total_expected, window_ms, Selection,
};
use crate::drill::phase5_preflight::{
    adjudicate, check_rendered_window_floor, floor_check_is, grounds, models, Finding,
    FindingModel, PreflightReport, Verdict,
};
use crate::drill::phase6_restore::Restored;
use crate::drill::phase7_verify::VerifyOutcome;
use crate::drill::phase8_score::{
    compute_measured, decide, measures, objectives_met, outcome_of, scored, ScoreQuestion,
    ScoreReads, Signed, Timeline,
};
use crate::drill::phase9_teardown::{failure_notes, notes_of, TeardownAttestation};
use crate::drill::plan::{
    build_plan, first_with_id, is_earliest, key_texts, no_such_set, pick_backup_set,
    plan_is, RestorePlan,
};
use crate::drill::record::{
    completed_up_to, counts_last_completed, duration_of, last_completed, phase_added,
    phase_duration, record_phase, recorded, renoted, set_notes, Stamp,
};
use crate::drill::scorecard::{
    phase_at, phase_at_is_first, same_document, same_record, EngineInfo, Integrity,
    IntegrityLevel, IntegrityResult, LeverState, Levers, MatrixVerdict, Measured, Outcome,
    PhaseRecord, SampleInfo, Scorecard,
};
use crate::drill::spec::DrillSpec;
use crate::drill::step::Step;
use crate::text::{decimal_int, i64_text, text_in, texts};
use crate::textmap::{keys_of, TextMap};

verus! {

/// What was gathered before the engine is asked for anything.
#[derive(Debug)]
pub struct Work {
    pub admitted: Admitted,
    pub validated_at: Timestamp,
    pub facts: BackupSetFacts,
    pub sel: Selection,
    pub plan: RestorePlan,
}

/// How a document came to be signed.
#[derive(Debug)]
pub enum Ending {
    /// The preflight blocked the restore.
    Blocked,
    /// The restore restored nothing.
    NoOp { mapping: TextMap },
    /// The restore was verified and scored.
    Scored { mapping: TextMap, topic_preflight: TopicPreflight, offset_report: String },
}

/// The keys of a run's evidence.
#[derive(Debug)]
pub struct EvidenceKeys {
    pub scorecard_key: String,
    pub sidecar_key: String,
    pub offset_report_key: Option<String>,
}

/// What a run that passed leaves behind.
#[derive(Debug)]
pub struct RestoreOutcome {
    pub scorecard: Scorecard,
    pub topic_preflight: TopicPreflight,
    pub evidence: EvidenceKeys,
}

/// Where a run stands, named by what is done next.
#[derive(Debug)]
pub enum Progress {
    /// Admit the plan.
    Admit { sc: Scorecard },
    /// Render the topic mapping, and take its digest.
    MapTopics { sc: Scorecard, admitted: Admitted },
    /// Verify the approval.
    Approve { sc: Scorecard, admitted: Admitted },
    /// List the archive's backup sets.
    ListSets { sc: Scorecard, admitted: Admitted, validated_at: Timestamp },
    /// Read the manifest of that set.
    Describe {
        sc: Scorecard,
        admitted: Admitted,
        validated_at: Timestamp,
        set: BackupSetRef,
    },
    /// Read the target topics' state.
    ReadTarget {
        sc: Scorecard,
        admitted: Admitted,
        validated_at: Timestamp,
        set: BackupSetRef,
        facts: BackupSetFacts,
    },
    /// Make the directories of the plan's two files.
    MakeDirs { sc: Scorecard, work: Work },
    /// Render the plan for the engine.
    Render { sc: Scorecard, work: Work },
    /// Have the engine check the archive against the plan.
    Preflight { sc: Scorecard, work: Work },
    /// Create the target topics.
    CreateTopics { sc: Scorecard, work: Work },
    /// Restore.
    Restore { sc: Scorecard, work: Work },
    /// Verify what was restored.
    Verify { sc: Scorecard, work: Work, started_at: Timestamp, finished_at: Timestamp },
    /// Sign the document and store it.
    Sign { sc: Scorecard, ending: Ending },
    /// Write the signed bytes out, store the receipt, and tell who is to be
    /// told.
    Publish { signed: Signed, ending: Ending },
    /// Take the scratch topics away, and attest it.
    Teardown {
        sc: Scorecard,
        scorecard_sha256: String,
        evidence: EvidenceKeys,
        ending: Ending,
    },
    /// The run is over.
    Ended(Result<RestoreOutcome, DrillError>),
}

// ---- what holds wherever a run stands ------------------------------------------

/// The phases up to that one completed, and the document counts that one as
/// the last.
pub open spec fn completed(sc: Scorecard, last: int) -> bool {
    &&& completed_up_to(sc.phases@, last)
    &&& sc.last_phase_completed == last
}

/// The phases up to the preflight completed, and the restore is recorded as
/// failed.
pub open spec fn restored_nothing(sc: Scorecard) -> bool {
    &&& completed_up_to(sc.phases@.drop_last(), 5)
    &&& sc.phases@.len() == 7
    &&& sc.phases@[6].phase == 6
    &&& sc.phases@[6].outcome@ != "ok"@
    &&& sc.last_phase_completed == 5
}

/// What a document to be signed, or signed, records, by how it came to be so.
pub open spec fn signable(sc: Scorecard, ending: Ending) -> bool {
    match ending {
        Ending::Blocked => completed(sc, 5) && sc.outcome == Outcome::PreflightFailed,
        Ending::NoOp { .. } => restored_nothing(sc) && sc.outcome == Outcome::FailIntegrity,
        Ending::Scored { .. } => completed(sc, 7),
    }
}

/// What holds wherever a run stands: the document records exactly the phases
/// that were gone through; only a run whose restore ran tears anything down; a
/// run passes only with a passing document, is reported as not passed only
/// with one that is not, and never ends on an unscored restore.
pub open spec fn in_step(p: Progress) -> bool {
    match p {
        Progress::Admit { sc } => completed(sc, -1),
        Progress::MapTopics { sc, .. } => completed(sc, 0),
        Progress::Approve { sc, .. } => completed(sc, 0),
        Progress::ListSets { sc, .. } => completed(sc, 1),
        Progress::Describe { sc, .. } => completed(sc, 1),
        Progress::ReadTarget { sc, .. } => completed(sc, 1),
        Progress::MakeDirs { sc, .. } => completed(sc, 4),
        Progress::Render { sc, .. } => completed(sc, 4),
        Progress::Preflight { sc, .. } => completed(sc, 4),
        Progress::CreateTopics { sc, .. } => completed(sc, 5),
        Progress::Restore { sc, .. } => completed(sc, 5),
        Progress::Verify { sc, .. } => completed(sc, 6),
        Progress::Sign { sc, ending } => signable(sc, ending),
        Progress::Publish { signed, ending } => signable(signed.scorecard, ending),
        Progress::Teardown { sc, ending, .. } => signable(sc, ending) && !(ending is Blocked),
        Progress::Ended(Ok(o)) => o.scorecard.outcome == Outcome::Pass,
        Progress::Ended(Err(e)) => match e@ {
            ErrorModel::NotPass(sc) => sc.outcome != Outcome::Pass,
            ErrorModel::RestoreNoOp(_) => false,
            _ => true,
        },
    }
}

/// The run ends with that failure.
pub open spec fn stops(p: Progress, e: ErrorModel) -> bool {
    p matches Progress::Ended(Err(d)) && d@ == e
}

/// A failure that ends a run as it is: not a scored result, and not a restore
/// that restored nothing.
pub open spec fn ends_a_run(e: DrillError) -> bool {
    !(e is RestoreNoOp) && !(e is NotPass)
}

/// The last record bears that stamp.
pub open spec fn stamped(phases: Seq<PhaseRecord>, stamp: Stamp) -> bool {
    phases.last().at == stamp.at && phases.last().duration_ms == stamp.duration_ms
}

/// One more phase completed.
proof fn one_more(before: Scorecard, after: Scorecard, phase: i8, name: Seq<char>)
    requires
        completed(before, phase - 1),
        phase_added(before.phases@, after.phases@, phase, name, None),
        after.last_phase_completed == phase,
    ensures
        completed(after, phase as int),
{
    assert forall|i: int| 0 <= i <= phase implies (#[trigger] after.phases@[i]).phase == i
        && after.phases@[i].outcome@ == "ok"@ by {
        if i < phase {
            assert(after.phases@.drop_last()[i] == after.phases@[i]);
        }
    }
}

// ---- the gates: admission and approval ---------------------------------------------

/// Begins a run.
pub fn begin(
    run_id: &str,
    format_version: &str,
    triggered_by: &Option<String>,
    id: &EngineId,
    spec: &DrillSpec,
    requested_at: Timestamp,
) -> (next: Progress)
    ensures
        in_step(next),
        next matches Progress::Admit { sc } && is_draft(
            sc,
            run_id@,
            format_version@,
            *triggered_by,
            *id,
            *spec,
            requested_at,
        ),
{
    Progress::Admit {
        sc: new_scorecard(run_id, format_version, triggered_by, id, spec, requested_at),
    }
}

/// The plan was admitted, or not.
pub fn admitted(sc: Scorecard, stamp: Stamp, r: Result<Admitted, DrillError>) -> (next: Progress)
    requires
        completed(sc, -1),
        r matches Err(e) ==> ends_a_run(e),
    ensures
        in_step(next),
        match r {
            Err(e) => stops(next, e@),
            Ok(a) => next matches Progress::MapTopics { sc: after, admitted } && admitted == a
                && recorded(sc, after, 0, "admit"@, None) && stamped(after.phases@, stamp),
        },
{
    match r {
        Err(e) => Progress::Ended(Err(e)),
        Ok(a) => {
            let mut after = sc;
            record_phase(&mut after, 0, "admit", stamp, None);
            proof {
                one_more(sc, after, 0, "admit"@);
            }
            Progress::MapTopics { sc: after, admitted: a }
        },
    }
}

/// The topic mapping was rendered, or not. The engine has to name itself before
/// the run goes on.
pub fn topics_mapped(
    sc: Scorecard,
    admitted: Admitted,
    spec: &DrillSpec,
    id: &EngineId,
    digest: &Result<String, String>,
) -> (next: Progress)
    requires
        completed(sc, 0),
        admitted.topic_mapping@.len() <= u32::MAX,
    ensures
        in_step(next),
        match digest {
            Err(why) => stops(next, ErrorModel::Guard(why@)),
            Ok(d) => match identity_failure(*id) {
                Some(e) => stops(next, e),
                None => {
                    &&& next matches Progress::Approve { sc: after, admitted: a }
                    &&& a == admitted
                    &&& after == (Scorecard { target: after.target, ..sc })
                    &&& target_is(after.target, *spec, admitted, d@)
                },
            },
        },
{
    let target = match target_info(spec, &admitted, digest) {
        Err(e) => {
            return Progress::Ended(Err(e));
        },
        Ok(t) => t,
    };
    match assert_engine_identity(id) {
        Err(e) => Progress::Ended(Err(e)),
        Ok(_) => {
            let mut after = sc;
            after.target = target;
            Progress::Approve { sc: after, admitted }
        },
    }
}

/// The approval was found to hold, or not.
pub fn approved(sc: Scorecard, admitted: Admitted, stamp: Stamp, r: Result<Approved, DrillError>) -> (
next: Progress)
    requires
        completed(sc, 0),
        r matches Err(e) ==> ends_a_run(e),
    ensures
        in_step(next),
        match r {
            Err(e) => stops(next, e@),
            Ok(a) => {
                &&& next matches Progress::ListSets { sc: after, admitted: b, validated_at }
                &&& b == admitted
                &&& validated_at == a.validated_at
                &&& after.approval == a.approval
                &&& after.approval_validated_at == Some(a.validated_at)
                &&& recorded(
                    sc,
                    Scorecard {
                        approval: sc.approval,
                        approval_validated_at: sc.approval_validated_at,
                        ..after
                    },
                    1,
                    "approval"@,
                    None,
                )
                &&& stamped(after.phases@, stamp)
            },
        },
{
    match r {
        Err(e) => Progress::Ended(Err(e)),
        Ok(a) => {
            let mut after = sc;
            record_phase(&mut after, 1, "approval", stamp, None);
            after.approval = a.approval;
            after.approval_validated_at = Some(a.validated_at);
            proof {
                one_more(sc, after, 1, "approval"@);
            }
            Progress::ListSets { sc: after, admitted, validated_at: a.validated_at }
        },
    }
}

// ---- what is restored, and onto what -----------------------------------------------

/// The archive's backup sets were listed, or not.
pub fn sets_listed(
    sc: Scorecard,
    admitted: Admitted,
    validated_at: Timestamp,
    spec: &DrillSpec,
    r: Result<Vec<BackupSetRef>, EngineError>,
) -> (next: Progress)
    requires
        completed(sc, 1),
    ensures
        in_step(next),
        match r {
            Err(e) => stops(next, ErrorModel::Engine(e)),
            Ok(sets) => {
                let going_on = |set: BackupSetRef|
                    next == (Progress::Describe { sc, admitted, validated_at, set });
                if sets@.len() == 0 {
                    stops(
                        next,
                        ErrorModel::Operational(
                            "the archive holds no backup set at the configured source storage location"@,
                        ),
                    )
                } else if spec.source.backup@ == "latestCompleted"@ {
                    going_on(sets@.last())
                } else {
                    match first_with_id(sets@, spec.source.backup@) {
                        Some(set) => going_on(set),
                        None => stops(next, no_such_set(spec.source.backup@)),
                    }
                }
            },
        },
{
    match r {
        Err(e) => Progress::Ended(Err(DrillError::Engine(e))),
        Ok(sets) => match pick_backup_set(&sets, &spec.source.backup) {
            Err(e) => Progress::Ended(Err(e)),
            Ok(set) => Progress::Describe { sc, admitted, validated_at, set },
        },
    }
}

/// The manifest of the backup set was read, or not.
pub fn set_described(
    sc: Scorecard,
    admitted: Admitted,
    validated_at: Timestamp,
    set: BackupSetRef,
    r: Result<BackupSetFacts, EngineError>,
) -> (next: Progress)
    requires
        completed(sc, 1),
    ensures
        in_step(next),
        match r {
            Err(e) => stops(next, ErrorModel::Engine(e)),
            Ok(f) => {
                &&& next matches Progress::ReadTarget {
                    sc: after,
                    admitted: a,
                    validated_at: v,
                    set: s,
                    facts,
                }
                &&& a == admitted
                &&& v == validated_at
                &&& s == set
                &&& facts == f
                &&& after == (Scorecard { source: after.source, ..sc })
                &&& source_is(after.source, f)
            },
        },
{
    match r {
        Err(e) => Progress::Ended(Err(DrillError::Engine(e))),
        Ok(facts) => {
            let mut after = sc;
            after.source = source_info(&facts);
            Progress::ReadTarget { sc: after, admitted, validated_at, set, facts }
        },
    }
}

/// The records of the three phases from the target's state to the sample were
/// added.
pub open spec fn prepared(before: Seq<PhaseRecord>, after: Seq<PhaseRecord>, stamp: Stamp) -> bool {
    let two = after.take(before.len() as int + 1);
    let three = after.take(before.len() as int + 2);
    &&& after.len() == before.len() + 3
    &&& phase_added(before, two, 2, "target-ready"@, None)
    &&& stamped(two, stamp)
    &&& phase_added(two, three, 3, "target-diff"@, None)
    &&& phase_added(three, after, 4, "sample-select"@, None)
}

/// A result with its error as what it says.
pub open spec fn said<T>(r: Result<T, DrillError>) -> Result<T, ErrorModel> {
    match r {
        Ok(v) => Ok(v),
        Err(e) => Err(e@),
    }
}

/// A plan was made, or not.
pub open spec fn planned(
    r: Result<RestorePlan, ErrorModel>,
    spec: DrillSpec,
    set: BackupSetRef,
    mapping: Seq<(Seq<char>, Seq<char>)>,
    facts: BackupSetFacts,
    run_id: Seq<char>,
    temp_dir: Seq<char>,
    offset_report_out: Option<Seq<char>>,
) -> bool {
    exists|earliest: Option<i64>, d: Result<RestorePlan, DrillError>|
        {
            &&& #[trigger] is_earliest(earliest, facts.topics@, mapping)
            &&& #[trigger] plan_is(
                d,
                spec,
                set,
                mapping,
                earliest,
                run_id,
                temp_dir,
                offset_report_out,
            )
            &&& r == said(d)
        }
}

/// The records that a sample asks for are as many for each partition.
proof fn asked_for_each(sel: Seq<SampleSelection>, each: nat)
    requires
        forall|i: int| 0 <= i < sel.len() ==> (#[trigger] sel[i]).count == each,
    ensures
        asked_for(sel) == sel.len() * each,
    decreases sel.len(),
{
    if sel.len() > 0 {
        let rest = sel.drop_last();
        assert forall|i: int| 0 <= i < rest.len() implies (#[trigger] rest[i]).count == each by {
            assert(rest[i] == sel[i]);
        }
        asked_for_each(rest, each);
        assert(sel.last() == sel[sel.len() - 1]);
        assert((sel.len() - 1) * each + each == sel.len() * each) by (nonlinear_arith)
            requires
                sel.len() > 0,
        ;
    }
}

/// A sample asks for no more than its candidates allow.
proof fn sample_fits(raw: Selection, sel: Selection, set: BackupSetRef, facts: BackupSetFacts, spec: DrillSpec, selected: Seq<Seq<char>>)
    requires
        selection_is(Ok(raw), facts, spec.sample, selected),
        bound(raw, sel, set),
        kept(
            candidates(facts.topics@, selected, window_ms(spec.sample)),
            spec.sample.max_partitions,
        ).len() * spec.sample.records_per_partition <= u64::MAX,
    ensures
        asked_for(sel.per_partition@) <= u64::MAX,
{
    let all = kept(
        candidates(facts.topics@, selected, window_ms(spec.sample)),
        spec.sample.max_partitions,
    );
    let each = spec.sample.records_per_partition as nat;
    assert forall|i: int| 0 <= i < sel.per_partition@.len() implies (
    #[trigger] sel.per_partition@[i]).count == each by {
        assert(raw.per_partition@[i].count == each);
    }
    asked_for_each(sel.per_partition@, each);
    let n = sel.per_partition@.len();
    assert(n * each <= all.len() * each) by (nonlinear_arith)
        requires
            n <= all.len(),
    ;
}

/// The target's state was read, or not. The run then compares it with the
/// archive, chooses the sample, and makes the plan.
pub fn target_read(
    sc: Scorecard,
    admitted: Admitted,
    validated_at: Timestamp,
    set: BackupSetRef,
    facts: BackupSetFacts,
    spec: &DrillSpec,
    temp_dir: &str,
    offset_report_out: Option<&str>,
    stamp: Stamp,
    r: Result<TargetState, DrillError>,
) -> (next: Progress)
    requires
        completed(sc, 1),
        match r {
            Err(e) => ends_a_run(e),
            Ok(target) => {
                let wanted = mapped(facts.topics@, admitted.topic_mapping@);
                let chosen = kept(
                    candidates(
                        facts.topics@,
                        keys_of(admitted.topic_mapping@),
                        window_ms(spec.sample),
                    ),
                    spec.sample.max_partitions,
                );
                &&& partitions_fit(wanted)
                &&& collisions_fit(colliding(wanted, target.topics@))
                &&& spec.sample.records_per_partition > 0 ==> total_expected(chosen) <= u64::MAX
                &&& chosen.len() * spec.sample.records_per_partition <= u64::MAX
            },
        },
    ensures
        in_step(next),
        match r {
            Err(e) => stops(next, e@),
            Ok(target) => exists|chosen: Result<Selection, DrillError>|
                {
                    &&& #[trigger] selection_is(
                        chosen,
                        facts,
                        spec.sample,
                        keys_of(admitted.topic_mapping@),
                    )
                    &&& match chosen {
                        Err(e) => stops(next, e@),
                        Ok(raw) => exists|plan: Result<RestorePlan, ErrorModel>|
                            {
                                &&& #[trigger] planned(
                                    plan,
                                    *spec,
                                    set,
                                    admitted.topic_mapping@,
                                    facts,
                                    sc.run_id@,
                                    temp_dir@,
                                    text_in(offset_report_out),
                                )
                                &&& match plan {
                                    Err(e) => stops(next, e),
                                    Ok(p) => {
                                        &&& next matches Progress::MakeDirs { sc: after, work }
                                        &&& work.admitted == admitted
                                        &&& work.validated_at == validated_at
                                        &&& work.facts == facts
                                        &&& bound(raw, work.sel, set)
                                        &&& work.plan == p
                                        &&& after == (Scorecard {
                                            phases: after.phases,
                                            last_phase_completed: after.last_phase_completed,
                                            target_diff: after.target_diff,
                                            sample: after.sample,
                                            ..sc
                                        })
                                        &&& prepared(sc.phases@, after.phases@, stamp)
                                        &&& exists|d: TargetDiff| #[trigger]
                                            summarises(after.target_diff, d) && diff_is(
                                                d,
                                                target,
                                                facts,
                                                admitted.topic_mapping@,
                                            )
                                        &&& sample_is(after.sample, spec.sample, work.sel)
                                    },
                                }
                            },
                    }
                },
        },
{
    let target = match r {
        Err(e) => {
            return Progress::Ended(Err(e));
        },
        Ok(target) => target,
    };
    let mut after = sc;
    record_phase(&mut after, 2, "target-ready", stamp, None);
    let ghost two = after;
    proof {
        one_more(sc, after, 2, "target-ready"@);
    }
    let (at, watch) = (now(), start_watch());
    let diff = crate::drill::phase3_diff::run(&target, &facts, &admitted.topic_mapping);
    let diff_stamp = Stamp { at, duration_ms: watched_ms(&watch) };
    record_phase(&mut after, 3, "target-diff", diff_stamp, None);
    let ghost three = after;
    proof {
        one_more(two, after, 3, "target-diff"@);
    }
    after.target_diff = diff.summarise();
    let src_topics = key_texts(&admitted.topic_mapping);
    let ghost summarised = after;
    let (at, watch) = (now(), start_watch());
    let chosen = crate::drill::phase4_sample::run(&facts, &spec.sample, &src_topics);
    let sample_stamp = Stamp { at, duration_ms: watched_ms(&watch) };
    let ghost was_chosen = chosen;
    let mut sel = match chosen {
        Err(e) => {
            return Progress::Ended(Err(e));
        },
        Ok(sel) => sel,
    };
    record_phase(&mut after, 4, "sample-select", sample_stamp, None);
    proof {
        one_more(summarised, after, 4, "sample-select"@);
        assert(after.phases@.take(sc.phases@.len() as int + 2) =~= three.phases@);
        assert(after.phases@.take(sc.phases@.len() as int + 1) =~= two.phases@);
    }
    sel.bind_backup_set(&set);
    proof {
        sample_fits(was_chosen->Ok_0, sel, set, facts, *spec, keys_of(admitted.topic_mapping@));
    }
    after.sample = sample_info(&spec.sample, &sel);
    let made = build_plan(
        spec,
        &set,
        &admitted.topic_mapping,
        &facts,
        after.run_id.as_str(),
        temp_dir,
        offset_report_out,
    );
    let ghost plan = said(made);
    proof {
        assert(planned(
            plan,
            *spec,
            set,
            admitted.topic_mapping@,
            facts,
            sc.run_id@,
            temp_dir@,
            text_in(offset_report_out),
        ));
    }
    match made {
        Err(e) => Progress::Ended(Err(e)),
        Ok(p) => Progress::MakeDirs {
            sc: after,
            work: Work { admitted, validated_at, facts, sel, plan: p },
        },
    }
}

// ---- the engine ------------------------------------------------------------------------

/// The directories of the plan's files were made, or not.
pub fn dirs_made(sc: Scorecard, work: Work, r: Result<(), String>) -> (next: Progress)
    requires
        completed(sc, 4),
    ensures
        in_step(next),
        match r {
            Err(why) => stops(next, ErrorModel::Operational(why@)),
            Ok(_) => next == (Progress::Render { sc, work }),
        },
{
    match r {
        Err(why) => Progress::Ended(Err(DrillError::Operational(why))),
        Ok(_) => Progress::Render { sc, work },
    }
}

/// The plan was rendered, or not. What was rendered has to start where the
/// archive does before the engine sees any of it.
pub fn rendered(sc: Scorecard, work: Work, r: &Result<String, String>) -> (next: Progress)
    requires
        completed(sc, 4),
    ensures
        in_step(next),
        exists|earliest: Option<i64>, checked: Result<(), DrillError>|
            {
                &&& #[trigger] is_earliest(
                    earliest,
                    work.facts.topics@,
                    work.plan.topic_mapping@,
                )
                &&& #[trigger] floor_check_is(checked, work.plan.set.backup_id@, earliest, *r)
                &&& match checked {
                    Err(e) => stops(next, e@),
                    Ok(_) => next == (Progress::Preflight { sc, work }),
                }
            },
{
    match check_rendered_window_floor(&work.plan, &work.facts, r) {
        Err(e) => Progress::Ended(Err(e)),
        Ok(_) => Progress::Preflight { sc, work },
    }
}

/// A finding as a note.
pub open spec fn finding_note(f: FindingModel) -> Seq<char> {
    f.topic + "/"@ + decimal_int(f.partition as int) + " "@ + f.state + ": "@ + f.detail
}

/// The findings as notes.
pub open spec fn finding_notes(v: Seq<FindingModel>) -> Seq<Seq<char>> {
    Seq::new(v.len(), |i: int| finding_note(v[i]))
}

/// The findings as notes.
fn note_findings(findings: &Vec<Finding>) -> (r: Vec<String>)
    ensures
        texts(r@) == finding_notes(models(findings@)),
{
    let mut out: Vec<String> = Vec::new();
    let mut i: usize = 0;
    while i < findings.len()
        invariant
            0 <= i <= findings.len(),
            out.len() == i,
            forall|j: int| 0 <= j < i ==> (#[trigger] out@[j])@ == finding_note(findings@[j]@),
        decreases findings.len() - i,
    {
        let f = &findings[i];
        let mut s = f.topic.clone();
        s.append("/");
        s.append(i64_text(f.partition as i64).as_str());
        s.append(" ");
        s.append(f.state.as_str());
        s.append(": ");
        s.append(f.detail.as_str());
        out.push(s);
        i += 1;
    }
    proof {
        assert(texts(out@) =~= finding_notes(models(findings@)));
    }
    out
}

/// What the document says of the engine once its preflight was read back.
pub open spec fn preflight_read(before: EngineInfo, after: EngineInfo, report: PreflightReport) -> bool {
    &&& after == (EngineInfo {
        levers: after.levers,
        matrix_verdict: after.matrix_verdict,
        ..before
    })
    &&& after.levers == (Levers {
        header_preflight: if report.header_preflight_honoured {
            LeverState::Honoured
        } else {
            LeverState::Ignored
        },
        unknown_key_warnings: report.unknown_key_warnings,
        ..before.levers
    })
    &&& after.matrix_verdict == if report.header_preflight_honoured {
        MatrixVerdict::Pass
    } else {
        before.matrix_verdict
    }
}

/// The document of a result without a verification: the outcome, nothing
/// attempted, and no recovery time.
pub open spec fn unverified_result(before: Scorecard, after: Scorecard, outcome: Outcome) -> bool {
    &&& after == (Scorecard {
        outcome,
        integrity: Integrity {
            level: IntegrityLevel::NotAttempted,
            result: IntegrityResult::Fail,
            ..before.integrity
        },
        measured: Measured { rto_seconds: None, ..before.measured },
        phases: after.phases,
        last_phase_completed: after.last_phase_completed,
        engine: after.engine,
        ..before
    })
}

/// The engine checked the archive against the plan, or could not. A finding
/// blocks the restore: the document goes to be signed, and nothing is
/// restored.
pub fn preflighted(
    sc: Scorecard,
    work: Work,
    stamp: Stamp,
    r: Result<PreflightReport, EngineError>,
) -> (next: Progress)
    requires
        completed(sc, 4),
    ensures
        in_step(next),
        match r {
            Err(e) => stops(next, ErrorModel::Engine(e)),
            Ok(report) => if grounds(report).len() == 0 {
                &&& next matches Progress::CreateTopics { sc: after, work: w }
                &&& w == work
                &&& recorded(sc, Scorecard { engine: sc.engine, ..after }, 5, "preflight"@, None)
                &&& stamped(after.phases@, stamp)
                &&& preflight_read(sc.engine, after.engine, report)
            } else {
                &&& next matches Progress::Sign { sc: after, ending: Ending::Blocked }
                &&& unverified_result(sc, after, Outcome::PreflightFailed)
                &&& exists|mid: Seq<PhaseRecord>|
                    #![trigger stamped(mid, stamp)]
                    phase_added(sc.phases@, mid, 5, "preflight"@, None) && stamped(mid, stamp)
                        && renoted(mid, after.phases@, 5, finding_notes(grounds(report)))
                &&& after.last_phase_completed == 5
                &&& preflight_read(sc.engine, after.engine, report)
            },
        },
{
    let report = match r {
        Err(e) => {
            return Progress::Ended(Err(DrillError::Engine(e)));
        },
        Ok(report) => report,
    };
    let verdict = adjudicate(&report);
    let mut after = sc;
    record_phase(&mut after, 5, "preflight", stamp, None);
    let ghost mid = after.phases@;
    proof {
        one_more(sc, after, 5, "preflight"@);
        assert(stamped(mid, stamp));
    }
    if report.header_preflight_honoured {
        after.engine.levers.header_preflight = LeverState::Honoured;
        after.engine.matrix_verdict = MatrixVerdict::Pass;
    } else {
        after.engine.levers.header_preflight = LeverState::Ignored;
    }
    after.engine.levers.unknown_key_warnings = report.unknown_key_warnings;
    match verdict {
        Verdict::Block { findings } => {
            after.outcome = Outcome::PreflightFailed;
            after.integrity.level = IntegrityLevel::NotAttempted;
            after.integrity.result = IntegrityResult::Fail;
            after.measured.rto_seconds = None;
            let ghost noting = after;
            set_notes(&mut after, 5, note_findings(&findings));
            proof {
                renoting_keeps(noting.phases@, after.phases@, 5, 5, finding_notes(grounds(report)));
            }
            Progress::Sign { sc: after, ending: Ending::Blocked }
        },
        Verdict::Proceed { .. } => Progress::CreateTopics { sc: after, work },
    }
}

/// Notes change nothing of which phases completed.
proof fn renoting_keeps(
    before: Seq<PhaseRecord>,
    after: Seq<PhaseRecord>,
    phase: int,
    last: int,
    notes: Seq<Seq<char>>,
)
    requires
        completed_up_to(before, last),
        renoted(before, after, phase, notes),
    ensures
        completed_up_to(after, last),
{
    phase_at_is_first(before, phase);
    assert forall|i: int| 0 <= i <= last implies (#[trigger] after[i]).phase == i
        && after[i].outcome@ == "ok"@ by {
        assert(before[i].phase == i);
    }
}

/// The target topics were created, or not.
pub fn topics_created(sc: Scorecard, work: Work, r: Result<(), DrillError>) -> (next: Progress)
    requires
        completed(sc, 5),
        r matches Err(e) ==> ends_a_run(e),
    ensures
        in_step(next),
        match r {
            Err(e) => stops(next, e@),
            Ok(_) => next == (Progress::Restore { sc, work }),
        },
{
    match r {
        Err(e) => Progress::Ended(Err(e)),
        Ok(_) => Progress::Restore { sc, work },
    }
}

/// Texts, and those of others that are not among them yet, in order.
pub open spec fn with_new(known: Seq<Seq<char>>, more: Seq<Seq<char>>) -> Seq<Seq<char>>
    decreases more.len(),
{
    if more.len() == 0 {
        known
    } else {
        let so_far = with_new(known, more.drop_last());
        if so_far.contains(more.last()) {
            so_far
        } else {
            so_far.push(more.last())
        }
    }
}

/// Adds the texts that are not among the known ones yet.
fn add_new(known: &mut Vec<String>, more: &Vec<String>)
    ensures
        texts(final(known)@) == with_new(texts(old(known)@), texts(more@)),
{
    let ghost start = texts(known@);
    let ghost all = texts(more@);
    let mut i: usize = 0;
    proof {
        assert(all.take(0) =~= Seq::empty());
    }
    while i < more.len()
        invariant
            0 <= i <= more.len(),
            all == texts(more@),
            texts(known@) == with_new(start, all.take(i as int)),
        decreases more.len() - i,
    {
        let ghost before = texts(known@);
        proof {
            assert(all.take(i + 1).drop_last() =~= all.take(i as int));
            assert(all.take(i + 1).last() == more@[i as int]@);
        }
        if !crate::drill::phase4_sample::is_among(known, &more[i]) {
            known.push(more[i].clone());
            proof {
                assert(texts(known@) =~= before.push(more@[i as int]@));
            }
        }
        i += 1;
    }
    proof {
        assert(all.take(more.len() as int) =~= all);
    }
}

/// The restore ran, or could not. One that ran and restored nothing is a
/// result: its document goes to be signed. Any other failure ends the run.
pub fn restored(sc: Scorecard, work: Work, stamp: Stamp, r: Result<Restored, DrillError>) -> (next:
    Progress)
    requires
        completed(sc, 5),
        r matches Err(e) ==> !(e is NotPass),
    ensures
        in_step(next),
        match r {
            Ok(done) => {
                &&& next matches Progress::Verify { sc: after, work: w, started_at, finished_at }
                &&& w == work
                &&& started_at == done.started_at
                &&& finished_at == done.finished_at
                &&& recorded(sc, Scorecard { engine: sc.engine, ..after }, 6, "restore"@, None)
                &&& stamped(after.phases@, stamp)
                &&& after.engine == (EngineInfo { levers: after.engine.levers, ..sc.engine })
                &&& after.engine.levers == (Levers {
                    unknown_key_warnings: after.engine.levers.unknown_key_warnings,
                    ..sc.engine.levers
                })
                &&& texts(after.engine.levers.unknown_key_warnings@) == with_new(
                    texts(sc.engine.levers.unknown_key_warnings@),
                    texts(done.unknown_key_warnings@),
                )
            },
            Err(e) => match e@ {
                ErrorModel::RestoreNoOp(why) => {
                    &&& next matches Progress::Sign { sc: after, ending: Ending::NoOp { mapping } }
                    &&& mapping == work.admitted.topic_mapping
                    &&& unverified_result(sc, after, Outcome::FailIntegrity)
                    &&& after.engine == sc.engine
                    &&& exists|mid: Seq<PhaseRecord>|
                        #![trigger stamped(mid, stamp)]
                        phase_added(sc.phases@, mid, 6, "restore"@, Some(e@)) && stamped(mid, stamp)
                            && renoted(mid, after.phases@, 6, seq![why])
                    &&& after.last_phase_completed == 5
                },
                _ => stops(next, e@),
            },
        },
{
    match r {
        Ok(done) => {
            let mut after = sc;
            record_phase(&mut after, 6, "restore", stamp, None);
            proof {
                one_more(sc, after, 6, "restore"@);
            }
            add_new(&mut after.engine.levers.unknown_key_warnings, &done.unknown_key_warnings);
            Progress::Verify {
                sc: after,
                work,
                started_at: done.started_at,
                finished_at: done.finished_at,
            }
        },
        Err(DrillError::RestoreNoOp(why)) => {
            let mut after = sc;
            let e = DrillError::RestoreNoOp(why.clone());
            record_phase(&mut after, 6, "restore", stamp, Some(&e));
            let ghost mid = after.phases@;
            after.outcome = Outcome::FailIntegrity;
            after.integrity.level = IntegrityLevel::NotAttempted;
            after.integrity.result = IntegrityResult::Fail;
            after.measured.rto_seconds = None;
            let mut notes: Vec<String> = Vec::new();
            notes.push(why);
            proof {
                assert(stamped(mid, stamp));
                assert(texts(notes@) =~= seq![why@]);
                only_the_last(sc.phases@, mid, e@);
            }
            set_notes(&mut after, 6, notes);
            proof {
                assert(after.phases@.drop_last() =~= sc.phases@) by {
                    assert forall|i: int| 0 <= i < sc.phases@.len() implies
                        after.phases@.drop_last()[i] == sc.phases@[i] by {
                        assert(after.phases@[i] == mid[i]);
                        assert(mid.drop_last()[i] == mid[i]);
                    }
                }
            }
            Progress::Sign {
                sc: after,
                ending: Ending::NoOp { mapping: work.admitted.topic_mapping },
            }
        },
        Err(e) => Progress::Ended(Err(e)),
    }
}

/// The record of a restore that restored nothing is the only one of its phase,
/// and it does not say that the phase completed.
proof fn only_the_last(before: Seq<PhaseRecord>, after: Seq<PhaseRecord>, e: ErrorModel)
    requires
        completed_up_to(before, 5),
        phase_added(before, after, 6, "restore"@, Some(e)),
    ensures
        phase_at(after, 6) == Some(6int),
        after.len() == 7,
        after[6].outcome@ != "ok"@,
{
    phase_at_is_first(before, 6);
    reveal_strlit("failed: ");
    reveal_strlit("ok");
    let m = e.message();
    assert(("failed: "@ + m)[0] == 'f');
    assert forall|j: int| 0 <= j < before.len() implies (#[trigger] before[j]).phase != 6 by {}
}

// ---- the result --------------------------------------------------------------------------

/// The instants that a verified restore is scored by.
pub open spec fn timeline_of(
    sc: Scorecard,
    work: Work,
    started_at: Timestamp,
    finished_at: Timestamp,
    verified_at: Timestamp,
) -> Timeline {
    Timeline {
        requested_at: sc.requested_at,
        approval_validated_at: work.validated_at,
        restore_started_at: started_at,
        restore_finished_at: finished_at,
        phase5_duration_ms: duration_of(sc.phases@, 5),
        verified_at,
    }
}

/// The document of a verified restore: what the verification concluded, what
/// was measured, and how the drill came out.
pub open spec fn scored_result(
    before: Scorecard,
    after: Scorecard,
    work: Work,
    timeline: Timeline,
    spec: DrillSpec,
    v: VerifyOutcome,
    rate_reached: bool,
) -> bool {
    &&& after == (Scorecard {
        phases: after.phases,
        last_phase_completed: after.last_phase_completed,
        integrity: v.integrity,
        topic_parity: v.topic_parity,
        sample: SampleInfo { records_restored: v.records_restored, ..before.sample },
        measured: after.measured,
        outcome: after.outcome,
        objectives: after.objectives,
        ..before
    })
    &&& measures(
        after.measured,
        timeline,
        millis_of(work.plan.time_window.1@),
        v.newest_restored_ts_ms as int,
    )
    &&& after.objectives.met == objectives_met(
        spec.objectives,
        after.measured,
        v.integrity,
        rate_reached,
    )
    &&& after.objectives.rto_seconds == spec.objectives.rto_seconds
    &&& after.objectives.rpo_seconds == spec.objectives.rpo_seconds
    &&& after.objectives.pass_rate_bits == spec.objectives.pass_rate_bits
    &&& after.outcome == outcome_of(v.integrity.result, after.objectives.met)
}

/// What was restored was verified, or could not be. What was verified is
/// scored before it goes to be signed.
pub fn verified(
    sc: Scorecard,
    work: Work,
    started_at: Timestamp,
    finished_at: Timestamp,
    spec: &DrillSpec,
    stamp: Stamp,
    r: Result<VerifyOutcome, DrillError>,
    rate_reached: bool,
) -> (next: Progress)
    requires
        completed(sc, 6),
        r matches Err(e) ==> ends_a_run(e),
        r matches Ok(v) ==> i64::MIN <= millis_of(work.plan.time_window.1@)
            - v.newest_restored_ts_ms <= i64::MAX,
    ensures
        in_step(next),
        match r {
            Err(e) => stops(next, e@),
            Ok(v) => {
                &&& next matches Progress::Sign {
                    sc: after,
                    ending: Ending::Scored { mapping, topic_preflight, offset_report },
                }
                &&& mapping == work.admitted.topic_mapping
                &&& topic_preflight == work.admitted.topic_preflight
                &&& offset_report == work.plan.offset_report
                &&& phase_added(sc.phases@, after.phases@, 7, "verify"@, None)
                &&& stamped(after.phases@, stamp)
                &&& after.last_phase_completed == 7
                &&& scored_result(
                    sc,
                    after,
                    work,
                    timeline_of(sc, work, started_at, finished_at, v.verified_at),
                    *spec,
                    v,
                    rate_reached,
                )
            },
        },
{
    let v = match r {
        Err(e) => {
            return Progress::Ended(Err(e));
        },
        Ok(v) => v,
    };
    let mut after = sc;
    let timeline = Timeline {
        requested_at: after.requested_at,
        approval_validated_at: work.validated_at,
        restore_started_at: started_at,
        restore_finished_at: finished_at,
        phase5_duration_ms: phase_duration(&after, 5),
        verified_at: v.verified_at,
    };
    record_phase(&mut after, 7, "verify", stamp, None);
    proof {
        one_more(sc, after, 7, "verify"@);
    }
    after.integrity = v.integrity;
    after.topic_parity = v.topic_parity;
    after.sample.records_restored = v.records_restored;
    after.measured = compute_measured(
        &timeline,
        work.plan.time_window.1.millis(),
        v.newest_restored_ts_ms,
    );
    let (outcome, objectives) = decide(
        &after.measured,
        &spec.objectives,
        &after.integrity,
        rate_reached,
    );
    after.outcome = outcome;
    after.objectives = objectives;
    Progress::Sign {
        sc: after,
        ending: Ending::Scored {
            mapping: work.admitted.topic_mapping,
            topic_preflight: work.admitted.topic_preflight,
            offset_report: work.plan.offset_report,
        },
    }
}

/// The offset report that a document to be signed binds: only a restore that
/// was verified has one.
pub open spec fn report_of(ending: Ending) -> Option<Seq<char>> {
    match ending {
        Ending::Scored { offset_report, .. } => Some(offset_report@),
        _ => None,
    }
}

/// The offset report that a document to be signed binds.
pub fn offset_report_for(ending: &Ending) -> (r: Option<&str>)
    ensures
        text_in(r) == report_of(*ending),
{
    match ending {
        Ending::Scored { offset_report, .. } => Some(offset_report.as_str()),
        _ => None,
    }
}

/// The next step of signing and storing that document.
pub open spec fn signing_is(
    r: Step<ScoreQuestion, Result<Signed, DrillError>>,
    sc: Scorecard,
    ending: Ending,
    reads: ScoreReads,
) -> bool {
    exists|copy: Scorecard| #[trigger]
        same_document(copy, sc) && scored(copy, report_of(ending), reads, r)
}

/// Signing changes nothing of which phases completed, nor of the outcome.
pub proof fn signing_keeps(
    r: Step<ScoreQuestion, Result<Signed, DrillError>>,
    sc: Scorecard,
    ending: Ending,
    reads: ScoreReads,
)
    requires
        signable(sc, ending),
        signing_is(r, sc, ending, reads),
    ensures
        r matches Step::Done(Ok(signed)) ==> signable(signed.scorecard, ending),
{
    let copy = choose|copy: Scorecard| #[trigger]
        same_document(copy, sc) && scored(copy, report_of(ending), reads, r);
    phase_at_is_first(copy.phases@, 8);
    assert forall|i: int| 0 <= i < sc.phases@.len() implies (#[trigger] copy.phases@[i]).phase
        == sc.phases@[i].phase && copy.phases@[i].outcome == sc.phases@[i].outcome by {
        assert(same_record(copy.phases@[i], sc.phases@[i]));
    }
    if ending is NoOp {
        assert forall|i: int| 0 <= i <= 5 implies (
        #[trigger] copy.phases@.drop_last()[i]).phase == i
            && copy.phases@.drop_last()[i].outcome@ == "ok"@ by {
            assert(sc.phases@.drop_last()[i] == sc.phases@[i]);
            assert(copy.phases@.drop_last()[i] == copy.phases@[i]);
        }
    }
    assert(signable(copy, ending));
    if phase_at(copy.phases@, 8) is Some {
        let i = phase_at(copy.phases@, 8)->0;
        if ending is NoOp && i < 6 {
            assert(copy.phases@.drop_last()[i] == copy.phases@[i]);
        }
    }
}

/// Signs the document that a run has come to and stores it, from what has been
/// answered so far.
pub fn sign(sc: &Scorecard, ending: &Ending, reads: &ScoreReads) -> (r: Step<
    ScoreQuestion,
    Result<Signed, DrillError>,
>)
    requires
        signable(*sc, *ending),
    ensures
        signing_is(r, *sc, *ending, *reads),
        match r {
            Step::Ask(_) => true,
            Step::Done(Err(e)) => e is SigningOrLock,
            Step::Done(Ok(signed)) => signable(signed.scorecard, *ending),
        },
{
    let copy = sc.clone();
    let ghost copied = copy;
    let r = crate::drill::phase8_score::run(copy, offset_report_for(ending), reads);
    proof {
        assert(same_document(copied, *sc) && scored(copied, report_of(*ending), *reads, r));
        signing_keeps(r, *sc, *ending, *reads);
    }
    r
}

/// The document was signed and stored, or not.
pub fn signed(ending: Ending, r: Result<Signed, DrillError>) -> (next: Progress)
    requires
        match r {
            Err(e) => ends_a_run(e),
            Ok(s) => signable(s.scorecard, ending),
        },
    ensures
        in_step(next),
        match r {
            Err(e) => stops(next, e@),
            Ok(s) => next == (Progress::Publish { signed: s, ending }),
        },
{
    match r {
        Err(e) => Progress::Ended(Err(e)),
        Ok(s) => Progress::Publish { signed: s, ending },
    }
}

/// The run ends as a result that is not a pass, with that document.
pub open spec fn not_passed(p: Progress, sc: Scorecard) -> bool {
    stops(p, ErrorModel::NotPass(sc))
}

/// The signed document was made known. Where nothing was restored because the
/// preflight blocked it, there is nothing to take away, and the run is over.
pub fn published(signed: Signed, ending: Ending, scorecard_sha256: String) -> (next: Progress)
    requires
        signable(signed.scorecard, ending),
    ensures
        in_step(next),
        if ending is Blocked {
            not_passed(next, signed.scorecard)
        } else {
            &&& next matches Progress::Teardown {
                sc,
                scorecard_sha256: digest,
                evidence,
                ending: e,
            }
            &&& sc == signed.scorecard
            &&& digest == scorecard_sha256
            &&& evidence.scorecard_key == signed.key
            &&& evidence.sidecar_key == signed.sidecar_key
            &&& evidence.offset_report_key == signed.offset_report_key
            &&& e == ending
        },
{
    match ending {
        Ending::Blocked => Progress::Ended(Err(DrillError::NotPass(Box::new(signed.scorecard)))),
        _ => Progress::Teardown {
            sc: signed.scorecard,
            scorecard_sha256,
            evidence: EvidenceKeys {
                scorecard_key: signed.key,
                sidecar_key: signed.sidecar_key,
                offset_report_key: signed.offset_report_key,
            },
            ending,
        },
    }
}

/// The document once the teardown is recorded, with a note for each topic that
/// is still there.
pub open spec fn torn_down_document(
    before: Scorecard,
    after: Scorecard,
    stamp: Stamp,
    att: TeardownAttestation,
) -> bool {
    &&& after == (Scorecard {
        phases: after.phases,
        last_phase_completed: after.last_phase_completed,
        ..before
    })
    &&& after.last_phase_completed == 9
    &&& exists|mid: Seq<PhaseRecord>|
        #![trigger stamped(mid, stamp)]
        phase_added(before.phases@, mid, 9, "teardown"@, None) && stamped(mid, stamp) && if
            att.topics_failed@.len() == 0 {
            after.phases@ == mid
        } else {
            renoted(mid, after.phases@, 9, notes_of(att.topics_failed@))
        }
}

/// The scratch topics were taken away, as far as they could be. What could not
/// be taken away changes nothing of how the run ends: it passed where its
/// document did.
pub fn torn_down(
    sc: Scorecard,
    evidence: EvidenceKeys,
    ending: Ending,
    stamp: Stamp,
    att: &TeardownAttestation,
) -> (next: Progress)
    requires
        signable(sc, ending),
        !(ending is Blocked),
    ensures
        in_step(next),
        if sc.outcome == Outcome::Pass {
            &&& next matches Progress::Ended(Ok(o))
            &&& torn_down_document(sc, o.scorecard, stamp, *att)
            &&& ending matches Ending::Scored { topic_preflight, .. }
            &&& o.topic_preflight == topic_preflight
            &&& o.evidence == evidence
        } else {
            &&& next matches Progress::Ended(Err(e))
            &&& e@ matches ErrorModel::NotPass(after)
            &&& torn_down_document(sc, after, stamp, *att)
        },
{
    let mut after = sc;
    record_phase(&mut after, 9, "teardown", stamp, None);
    let ghost mid = after.phases@;
    let notes = failure_notes(att);
    proof {
        assert(stamped(mid, stamp));
        assert(texts(notes@).len() == notes@.len());
    }
    if notes.len() > 0 {
        set_notes(&mut after, 9, notes);
    }
    match ending {
        Ending::Scored { topic_preflight, .. } => {
            if after.outcome != Outcome::Pass {
                Progress::Ended(Err(DrillError::NotPass(Box::new(after))))
            } else {
                Progress::Ended(Ok(RestoreOutcome { scorecard: after, topic_preflight, evidence }))
            }
        },
        _ => Progress::Ended(Err(DrillError::NotPass(Box::new(after)))),
    }
}

// ---- what follows for every run ------------------------------------------------------------

/// The document of a run that is not over.
pub open spec fn document_of(p: Progress) -> Option<Scorecard> {
    match p {
        Progress::Admit { sc } => Some(sc),
        Progress::MapTopics { sc, .. } => Some(sc),
        Progress::Approve { sc, .. } => Some(sc),
        Progress::ListSets { sc, .. } => Some(sc),
        Progress::Describe { sc, .. } => Some(sc),
        Progress::ReadTarget { sc, .. } => Some(sc),
        Progress::MakeDirs { sc, .. } => Some(sc),
        Progress::Render { sc, .. } => Some(sc),
        Progress::Preflight { sc, .. } => Some(sc),
        Progress::CreateTopics { sc, .. } => Some(sc),
        Progress::Restore { sc, .. } => Some(sc),
        Progress::Verify { sc, .. } => Some(sc),
        Progress::Sign { sc, .. } => Some(sc),
        Progress::Publish { signed, .. } => Some(signed.scorecard),
        Progress::Teardown { sc, .. } => Some(sc),
        Progress::Ended(_) => None,
    }
}

/// Wherever a run stands, the phase that its document counts as the last
/// completed is the last that it records as completed.
pub proof fn a_document_counts_what_it_records(p: Progress)
    requires
        in_step(p),
    ensures
        document_of(p) matches Some(sc) ==> counts_last_completed(sc),
{
    reveal_with_fuel(last_completed, 3);
    if let Some(sc) = document_of(p) {
        let phases = sc.phases@;
        if phases.len() > 0 {
            assert(phases.last() == phases[phases.len() - 1]);
        }
        if restored_nothing(sc) {
            let before = phases.drop_last();
            assert(before.last() == before[5]);
        }
    }
}

/// A run that is over has an exit code, and the code says whether it passed: 0
/// with a passing document only, and the code of a result that is not a pass
/// with a document that is not.
pub proof fn a_run_ends_with_its_code(r: Result<RestoreOutcome, DrillError>)
    requires
        in_step(Progress::Ended(r)),
    ensures
        match r {
            Ok(o) => o.scorecard.outcome == Outcome::Pass,
            Err(e) => {
                &&& e@.code() is Some
                &&& e@.code() != Some(crate::exit::ExitCode::Success)
                &&& e@.code() == Some(crate::exit::ExitCode::DrillNotPass) ==> (
                e@ matches ErrorModel::NotPass(sc) && sc.outcome != Outcome::Pass)
            },
        },
{
}

/// Scratch topics are taken away only after a restore ran.
pub proof fn only_a_restore_is_torn_down(p: Progress)
    requires
        in_step(p),
        p is Teardown,
    ensures
        p matches Progress::Teardown { sc, .. } && phase_at(sc.phases@, 6) is Some,
{
    if let Progress::Teardown { sc, .. } = p {
        phase_at_is_first(sc.phases@, 6);
        assert(sc.phases@[6].phase == 6);
    }
}

} // verus!
