//! What a run says once it is over.
use vstd::prelude::*;
use crate::drill::error::{DrillError, ErrorModel};
use crate::drill::phase9_teardown::{
    failed_count, failed_topic_names_from_notes, named_failures, topic_word,
};
use crate::drill::record::{completed_up_to, phase_added};
use crate::drill::run::{completed, signable, Ending, EvidenceKeys, RestoreOutcome};
use crate::drill::scorecard::{phase_notes, PhaseRecord, Scorecard};
use crate::exit::ExitCode;
use crate::text::{decimal, decimal_int, i64_text, join, joined, text_in, texts, u64_text};

verus! {

// ---- the two names of the command ---------------------------------------------------

/// Which of the command's two names was typed.
#[derive(Clone, Copy, Debug, PartialEq, Eq, Structural)]
pub enum InvokedAs {
    Restore,
    DrillAlias,
}

/// The line that the older name prints.
pub const DRILL_RUN_DEPRECATION: &'static str = "logweir drill run is the tag-0 name for logweir restore run and will be removed in tag 2";

/// What the name that was typed adds to the error stream.
pub open spec fn deprecation_of(invoked_as: InvokedAs) -> Seq<char> {
    match invoked_as {
        InvokedAs::DrillAlias => DRILL_RUN_DEPRECATION@ + "\n"@,
        InvokedAs::Restore => Seq::empty(),
    }
}

/// Writes the line that the older name prints, and nothing for the other.
pub fn print_deprecation_to(w: &mut String, invoked_as: InvokedAs)
    ensures
        final(w)@ == old(w)@ + deprecation_of(invoked_as),
{
    match invoked_as {
        InvokedAs::DrillAlias => {
            w.append(DRILL_RUN_DEPRECATION);
            w.append("\n");
            proof {
                assert(w@ =~= old(w)@ + deprecation_of(invoked_as));
            }
        },
        InvokedAs::Restore => {
            proof {
                assert(w@ =~= old(w)@ + deprecation_of(invoked_as));
            }
        },
    }
}

// ---- the summary ---------------------------------------------------------------------

/// The highest phase that completed, of those that a signed document can hold.
pub open spec fn highest_signed(phases: Seq<PhaseRecord>) -> Option<i8>
    decreases phases.len(),
{
    if phases.len() == 0 {
        None
    } else {
        let rest = highest_signed(phases.drop_last());
        let p = phases.last();
        if p.phase < 8 && p.outcome@ == "ok"@ && (rest is None || rest->0 < p.phase) {
            Some(p.phase)
        } else {
            rest
        }
    }
}

/// The last phase that a signed document counts as completed.
pub open spec fn signed_last(phases: Seq<PhaseRecord>) -> i8 {
    match highest_signed(phases) {
        Some(p) => p,
        None => -1i8,
    }
}

/// The last phase that a signed document counts as completed: what was recorded
/// after it was signed is not in it.
pub fn signed_last_phase_completed(sc: &Scorecard) -> (r: i8)
    ensures
        r == signed_last(sc.phases@),
{
    let mut best: Option<i8> = None;
    let mut i: usize = 0;
    proof {
        assert(sc.phases@.take(0) =~= Seq::empty());
    }
    while i < sc.phases.len()
        invariant
            0 <= i <= sc.phases.len(),
            best == highest_signed(sc.phases@.take(i as int)),
        decreases sc.phases.len() - i,
    {
        proof {
            assert(sc.phases@.take(i + 1).drop_last() =~= sc.phases@.take(i as int));
            assert(sc.phases@.take(i + 1).last() == sc.phases@[i as int]);
        }
        let p = &sc.phases[i];
        if p.phase < 8 && p.outcome == "ok".to_owned() {
            let higher: bool = match best {
                None => true,
                Some(b) => b < p.phase,
            };
            if higher {
                best = Some(p.phase);
            }
        }
        i += 1;
    }
    proof {
        assert(sc.phases@.take(sc.phases.len() as int) =~= sc.phases@);
    }
    match best {
        Some(p) => p,
        None => -1,
    }
}

/// The highest of the phases that completed in order is the last of them.
proof fn highest_of_completed(phases: Seq<PhaseRecord>, last: int)
    requires
        completed_up_to(phases, last),
        -1 <= last < 8,
    ensures
        last == -1 ==> highest_signed(phases) is None,
        last >= 0 ==> (highest_signed(phases) matches Some(p) && p == last),
    decreases phases.len(),
{
    if last >= 0 {
        let rest = phases.drop_last();
        assert(completed_up_to(rest, last - 1)) by {
            assert forall|i: int| 0 <= i <= last - 1 implies (#[trigger] rest[i]).phase == i
                && rest[i].outcome@ == "ok"@ by {
                assert(rest[i] == phases[i]);
            }
        }
        highest_of_completed(rest, last - 1);
        assert(phases.last() == phases[last]);
    }
}

/// The summary quotes the document that was signed: at the point where a
/// document is signed, the phase it counts as the last completed is the one
/// that the summary will name.
pub proof fn the_summary_quotes_the_signed_document(sc: Scorecard, ending: Ending)
    requires
        signable(sc, ending),
    ensures
        signed_last(sc.phases@) == sc.last_phase_completed,
{
    match ending {
        Ending::Blocked => highest_of_completed(sc.phases@, 5),
        Ending::NoOp { .. } => {
            highest_of_completed(sc.phases@.drop_last(), 5);
            assert(sc.phases@.last() == sc.phases@[6]);
        },
        Ending::Scored { .. } => highest_of_completed(sc.phases@, 7),
    }
}

/// A record of the teardown changes nothing of what the summary names.
pub proof fn a_teardown_is_not_summarised(
    before: Seq<PhaseRecord>,
    after: Seq<PhaseRecord>,
    name: Seq<char>,
    failure: Option<ErrorModel>,
)
    requires
        phase_added(before, after, 9, name, failure),
    ensures
        signed_last(after) == signed_last(before),
{
}

/// The line that a run with a document ends with.
pub open spec fn summary_of(sc: Scorecard) -> Seq<char> {
    let left = named_failures(texts(phase_notes(sc.phases@, 9)));
    let line = "run "@ + sc.run_id@ + " — outcome "@ + sc.outcome.name()
        + " — last phase completed "@ + decimal_int(signed_last(sc.phases@) as int)
        + " (as signed; phase 8's own record and phase 9's teardown are written after the bytes are frozen, and teardown is attested separately)"@;
    if left.len() == 0 {
        line
    } else {
        line + " — teardown left "@ + decimal(left.len()) + " scratch "@ + topic_word(left.len())
            + " behind ("@ + joined(left, ", "@) + ")"@
    }
}

/// The line that a run with a document ends with. Of the teardown it speaks
/// only where a topic is still there.
pub fn summary_line(sc: &Scorecard) -> (r: String)
    ensures
        r@ == summary_of(*sc),
{
    let mut line = "run ".to_owned();
    line.append(sc.run_id.as_str());
    line.append(" — outcome ");
    line.append(sc.outcome.as_str());
    line.append(" — last phase completed ");
    line.append(i64_text(signed_last_phase_completed(sc) as i64).as_str());
    line.append(
        " (as signed; phase 8's own record and phase 9's teardown are written after the bytes are frozen, and teardown is attested separately)",
    );
    let failed: u64 = failed_count(sc);
    if failed > 0 {
        line.append(" — teardown left ");
        line.append(u64_text(failed).as_str());
        line.append(" scratch ");
        if failed == 1 {
            line.append("topic");
        } else {
            line.append("topics");
        }
        line.append(" behind (");
        line.append(join(&failed_topic_names_from_notes(sc), ", ").as_str());
        line.append(")");
    }
    line
}

// ---- the report ----------------------------------------------------------------------

/// What is recorded of a run beside its document, and where.
#[derive(Debug)]
pub enum MetricsRecord {
    /// What the document says.
    Document(String),
    /// That the run ended, when, and with which code.
    Minimal(String),
}

/// What a run that is over owes the outside.
#[derive(Debug)]
pub struct Report {
    pub code: ExitCode,
    /// What is recorded, where the operator named a file for it. That it could
    /// not be written changes nothing else.
    pub metrics: Option<MetricsRecord>,
    /// The failure in words, where there is no document.
    pub failure: Option<String>,
    /// The refusal's own words, where the plan was refused.
    pub refusal: Option<String>,
    /// The summary, where there is a document.
    pub summary: Option<String>,
    /// Whether whom the plan names is told of the failure.
    pub tell: bool,
}

/// The document that a run leaves, where it leaves one.
pub open spec fn document_left(outcome: Result<RestoreOutcome, DrillError>) -> Option<Scorecard> {
    match outcome {
        Ok(o) => Some(o.scorecard),
        Err(e) => match e@ {
            ErrorModel::NotPass(sc) => Some(sc),
            _ => None,
        },
    }
}

/// What is recorded of a run: nothing, where no file was named.
pub open spec fn records(
    r: Option<MetricsRecord>,
    file: Option<String>,
    outcome: Result<RestoreOutcome, DrillError>,
) -> bool {
    match file {
        None => r is None,
        Some(path) => match document_left(outcome) {
            Some(_) => r matches Some(MetricsRecord::Document(p)) && p@ == path@,
            None => r matches Some(MetricsRecord::Minimal(p)) && p@ == path@,
        },
    }
}

/// What is recorded of a run that leaves a document, or that leaves none.
fn metrics_record(file: &Option<String>, document: bool) -> (r: Option<MetricsRecord>)
    ensures
        match *file {
            None => r is None,
            Some(path) => if document {
                r matches Some(MetricsRecord::Document(p)) && p@ == path@
            } else {
                r matches Some(MetricsRecord::Minimal(p)) && p@ == path@
            },
        },
{
    match file {
        None => None,
        Some(path) => if document {
            Some(MetricsRecord::Document(path.clone()))
        } else {
            Some(MetricsRecord::Minimal(path.clone()))
        },
    }
}

/// What a run that is over owes the outside.
pub open spec fn report_is(
    r: Report,
    file: Option<String>,
    outcome: Result<RestoreOutcome, DrillError>,
    authenticated: bool,
) -> bool {
    &&& records(r.metrics, file, outcome)
    &&& Some(r.code) == match outcome {
        Ok(_) => Some(ExitCode::Success),
        Err(e) => e@.code(),
    }
    &&& match document_left(outcome) {
        Some(sc) => {
            &&& r.summary matches Some(s)
            &&& s@ == summary_of(sc)
            &&& r.failure is None
            &&& !r.tell
        },
        None => {
            &&& r.summary is None
            &&& r.failure matches Some(s)
            &&& s@ == outcome->Err_0@.message()
            &&& r.tell == (authenticated && !(outcome->Err_0@ is SigningPrerequisite))
        },
    }
    &&& match outcome {
        Err(e) => match e@ {
            ErrorModel::Guard(why) => r.refusal matches Some(s) && s@ == why,
            _ => r.refusal is None,
        },
        Ok(_) => r.refusal is None,
    }
}

/// What a run that is over owes the outside. Whom the plan names is told of a
/// failure only where the plan was authenticated, and never where signing was
/// not ready.
pub fn report(
    metrics_file: &Option<String>,
    outcome: &Result<RestoreOutcome, DrillError>,
    authenticated: bool,
) -> (r: Report)
    requires
        !(outcome matches Err(e) && e is RestoreNoOp),
    ensures
        report_is(r, *metrics_file, *outcome, authenticated),
{
    match outcome {
        Ok(o) => Report {
            code: ExitCode::Success,
            metrics: metrics_record(metrics_file, true),
            failure: None,
            refusal: None,
            summary: Some(summary_line(&o.scorecard)),
            tell: false,
        },
        Err(e) => {
            let code = e.exit_code();
            match e {
                DrillError::NotPass(sc) => Report {
                    code,
                    metrics: metrics_record(metrics_file, true),
                    failure: None,
                    refusal: None,
                    summary: Some(summary_line(sc)),
                    tell: false,
                },
                DrillError::Guard(g) => Report {
                    code,
                    metrics: metrics_record(metrics_file, false),
                    failure: Some(e.message()),
                    refusal: Some(g.0.clone()),
                    summary: None,
                    tell: authenticated,
                },
                DrillError::SigningPrerequisite(_) => Report {
                    code,
                    metrics: metrics_record(metrics_file, false),
                    failure: Some(e.message()),
                    refusal: None,
                    summary: None,
                    tell: false,
                },
                _ => Report {
                    code,
                    metrics: metrics_record(metrics_file, false),
                    failure: Some(e.message()),
                    refusal: None,
                    summary: None,
                    tell: authenticated,
                },
            }
        },
    }
}

/// Every ending leaves a record where a file was named for it, and none where
/// none was; only an ending with a document is recorded by what the document
/// says.
pub proof fn every_ending_is_recorded(
    r: Report,
    file: Option<String>,
    outcome: Result<RestoreOutcome, DrillError>,
    authenticated: bool,
)
    requires
        report_is(r, file, outcome, authenticated),
    ensures
        r.metrics is Some <==> file is Some,
        r.metrics matches Some(MetricsRecord::Document(_)) ==> r.summary is Some,
        r.metrics matches Some(MetricsRecord::Minimal(_)) ==> r.failure is Some,
{
}

/// Where a record is kept, and who is told, changes neither the code nor what is
/// said.
pub proof fn a_report_stands_by_itself(
    r: Report,
    s: Report,
    file: Option<String>,
    other: Option<String>,
    outcome: Result<RestoreOutcome, DrillError>,
    authenticated: bool,
    also: bool,
)
    requires
        report_is(r, file, outcome, authenticated),
        report_is(s, other, outcome, also),
    ensures
        r.code == s.code,
        r.summary is Some <==> s.summary is Some,
        r.summary is Some ==> r.summary->0@ == s.summary->0@,
        r.failure is Some <==> s.failure is Some,
        r.failure is Some ==> r.failure->0@ == s.failure->0@,
{
}

/// Whom the plan names is told only of a run that leaves no document, only by a
/// plan that was authenticated, and never that signing was not ready.
pub proof fn a_document_is_not_told_twice(
    r: Report,
    file: Option<String>,
    outcome: Result<RestoreOutcome, DrillError>,
    authenticated: bool,
)
    requires
        report_is(r, file, outcome, authenticated),
        r.tell,
    ensures
        authenticated,
        document_left(outcome) is None,
        outcome matches Err(e) && !(e@ is SigningPrerequisite),
{
}

/// The last lines on the output: a refusal's reason, or what a run that passed
/// found and stored, and nothing otherwise.
pub open spec fn last_lines(
    code: ExitCode,
    refusal_line: Seq<char>,
    preflight_line: Option<Seq<char>>,
    evidence: Option<EvidenceKeys>,
) -> Seq<Seq<char>> {
    if code == ExitCode::GuardRefused {
        seq![refusal_line]
    } else if code == ExitCode::Success {
        (match preflight_line {
            Some(line) => seq![line],
            None => Seq::empty(),
        }) + match evidence {
            Some(e) => seq!["scorecard-key="@ + e.scorecard_key@, "sidecar-key="@ + e.sidecar_key@]
                + match e.offset_report_key {
                Some(k) => seq!["offset-report-key="@ + k@],
                None => Seq::empty(),
            },
            None => Seq::empty(),
        }
    } else {
        Seq::empty()
    }
}

/// A key under its name.
fn keyed(name: &str, key: &str) -> (r: String)
    ensures
        r@ == name@ + key@,
{
    let mut s = name.to_owned();
    s.append(key);
    s
}

/// The last lines on the output. What a run stored comes last, the document
/// first.
pub fn exiting(
    code: ExitCode,
    refusal_line: &str,
    preflight_line: Option<&str>,
    evidence: Option<&EvidenceKeys>,
) -> (r: Vec<String>)
    ensures
        texts(r@) == last_lines(
            code,
            refusal_line@,
            text_in(preflight_line),
            match evidence {
                Some(e) => Some(*e),
                None => None,
            },
        ),
{
    let mut out: Vec<String> = Vec::new();
    match code {
        ExitCode::GuardRefused => {
            out.push(refusal_line.to_owned());
        },
        ExitCode::Success => {
            if let Some(line) = preflight_line {
                out.push(line.to_owned());
            }
            if let Some(e) = evidence {
                out.push(keyed("scorecard-key=", e.scorecard_key.as_str()));
                out.push(keyed("sidecar-key=", e.sidecar_key.as_str()));
                if let Some(k) = &e.offset_report_key {
                    out.push(keyed("offset-report-key=", k.as_str()));
                }
            }
        },
        _ => {},
    }
    proof {
        assert(texts(out@) =~= last_lines(
            code,
            refusal_line@,
            text_in(preflight_line),
            match evidence {
                Some(e) => Some(*e),
                None => None,
            },
        ));
    }
    out
}

/// A key is named on the output only by a run that passed.
pub proof fn only_a_pass_names_its_keys(
    code: ExitCode,
    refusal_line: Seq<char>,
    preflight_line: Option<Seq<char>>,
    evidence: Option<EvidenceKeys>,
)
    requires
        code != ExitCode::Success,
        code != ExitCode::GuardRefused,
    ensures
        last_lines(code, refusal_line, preflight_line, evidence).len() == 0,
{
}

/// The file that the signed bytes are written to.
pub open spec fn artifact_of(out: Option<String>, run_id: Seq<char>) -> Seq<char> {
    match out {
        Some(path) => path@,
        None => "./logweir-"@ + run_id + ".json"@,
    }
}

/// The file that the signed bytes are written to.
pub fn artifact_path(out: &Option<String>, run_id: &str) -> (r: String)
    ensures
        r@ == artifact_of(*out, run_id@),
{
    match out {
        Some(path) => path.clone(),
        None => {
            let mut s = "./logweir-".to_owned();
            s.append(run_id);
            s.append(".json");
            s
        },
    }
}

/// The log filter where the environment sets none.
pub const DEFAULT_LOG_DIRECTIVE: &'static str = "info,h2=warn,hyper_rustls=warn,hyper_util=warn,iana_time_zone=warn,kube_client=warn,kube_runtime=warn,object_store=warn,rdkafka=warn,reqwest=warn,rustls=warn,rustls_platform_verifier=warn,tower=warn,tower_http=warn,ureq=warn";

/// The log filter: what the environment sets, unless that says nothing.
pub fn log_directive(rust_log: Option<&str>) -> (r: String)
    ensures
        r@ == match rust_log {
            Some(v) => if crate::text::blank(v@) {
                DEFAULT_LOG_DIRECTIVE@
            } else {
                v@
            },
            None => DEFAULT_LOG_DIRECTIVE@,
        },
{
    if let Some(v) = rust_log {
        if !crate::text::is_blank(v) {
            return v.to_owned();
        }
    }
    DEFAULT_LOG_DIRECTIVE.to_owned()
}

} // verus!
