//! What the score of a drill promises, in terms of what was measured and what
//! was asked for.
use vstd::prelude::*;
use crate::clock::{secs_between, Moment};
use crate::drill::phase8_score::{decided, matrix_row, measures, Timeline};
use crate::drill::scorecard::{
    Integrity, IntegrityLevel, IntegrityResult, MatrixVerdict, Measured, Objectives, Outcome,
};
use crate::drill::spec::ObjectivesSpec;

verus! {

/// An objective that was asked for and not kept fails the drill: a time or a gap
/// that is greater than asked for or was not measured, and a rate that was not
/// reached. Only where a rate was asked for and none was measured is nothing
/// said of the objectives. A drill whose verification did not pass fails for
/// that, whatever was kept; and a drill passes nowhere else than where its
/// verification passed and nothing was missed.
pub proof fn a_missed_objective_fails_the_drill(
    r: (Outcome, Objectives),
    m: Measured,
    spec: ObjectivesSpec,
    integ: Integrity,
    rate_reached: bool,
)
    requires
        decided(r, m, spec, integ, rate_reached),
    ensures
        ({
            let late = spec.rto_seconds matches Some(want) && !(
            m.rto_excluding_preflight_seconds matches Some(got) && got <= want);
            let lost = spec.rpo_seconds matches Some(want) && !(m.rpo_seconds matches Some(got)
                && got <= want);
            let low = spec.pass_rate_bits is Some && !rate_reached;
            let open = spec.pass_rate_bits is Some && integ.pass_rate_measured is None;
            let asked = spec.rto_seconds is Some || spec.rpo_seconds is Some
                || spec.pass_rate_bits is Some;
            &&& r.1.met == Some(false) <==> !open && (late || lost || low)
            &&& r.1.met == Some(true) <==> !open && asked && !late && !lost && !low
            &&& r.0 == Outcome::FailIntegrity <==> integ.result != IntegrityResult::Pass
            &&& r.0 == Outcome::FailObjective <==> integ.result == IntegrityResult::Pass && !open
                && (late || lost || low)
            &&& r.0 == Outcome::Pass <==> integ.result == IntegrityResult::Pass && (open || (!late
                && !lost && !low))
        }),
{
}

/// Nothing that was kept fails a drill: measuring less time, or a smaller gap,
/// never turns a pass into a failure.
pub proof fn doing_better_loses_nothing(
    r: (Outcome, Objectives),
    s: (Outcome, Objectives),
    m: Measured,
    n: Measured,
    spec: ObjectivesSpec,
    integ: Integrity,
    rate_reached: bool,
)
    requires
        decided(r, m, spec, integ, rate_reached),
        decided(s, n, spec, integ, rate_reached),
        m.rto_excluding_preflight_seconds matches Some(x) && n.rto_excluding_preflight_seconds
            matches Some(y) && y <= x,
        m.rpo_seconds matches Some(x) && n.rpo_seconds matches Some(y) && y <= x,
        r.0 == Outcome::Pass,
    ensures
        s.0 == Outcome::Pass,
        r.1.met == Some(true) ==> s.1.met == Some(true),
{
}

/// The whole seconds between two instants: the nanoseconds between them, cut
/// down to seconds, and none where the second is not after the first.
pub proof fn seconds_are_cut_down(from: Moment, to: Moment)
    requires
        0 <= from.nanos < 1_000_000_000,
        0 <= to.nanos < 1_000_000_000,
    ensures
        ({
            let apart = (to.secs - from.secs) * 1_000_000_000 + to.nanos - from.nanos;
            let n = secs_between(from, to);
            &&& apart <= 0 ==> n == 0
            &&& apart >= 0 ==> n * 1_000_000_000 <= apart < (n + 1) * 1_000_000_000
        }),
{
}

/// The time to recover is counted from the approval to the end of the
/// verification, less what the preflight took; the gap is how far the newest
/// restored record is from the recovery point, in whole seconds.
pub proof fn a_drill_is_measured_by_its_own_instants(
    m: Measured,
    t: Timeline,
    requested_ms: int,
    newest_ms: int,
)
    requires
        measures(m, t, requested_ms, newest_ms),
    ensures
        m.rto_seconds matches Some(n) && n == secs_between(t.approval_validated_at@, t.verified_at@),
        m.rto_requested_to_verified_seconds matches Some(n) && n == secs_between(
            t.requested_at@,
            t.verified_at@,
        ),
        m.rto_restore_only_seconds matches Some(n) && n == secs_between(
            t.restore_started_at@,
            t.restore_finished_at@,
        ),
        m.rto_excluding_preflight_seconds matches Some(n) && m.rto_seconds matches Some(all) && n
            <= all && (n > 0 ==> (all - n) * 1000 <= t.phase5_duration_ms < (all - n + 1) * 1000)
            && (n == 0 ==> all * 1000 <= t.phase5_duration_ms || all == 0),
        m.rpo_seconds matches Some(n) && n >= 0 && (requested_ms <= newest_ms ==> n == 0) && (
        requested_ms >= newest_ms ==> n * 1000 <= requested_ms - newest_ms < (n + 1) * 1000),
        m.rpo_source_relative_seconds is None,
        m.rpo_source_relative_unmeasured_reason is Some,
{
}

/// A row of the matrix passes only for a drill that passed with the records
/// compared byte by byte; a pass without that is degraded, a failure is a
/// failure, and what was lowered before is left alone.
pub proof fn a_row_claims_what_the_drill_earned(
    outcome: Outcome,
    level: IntegrityLevel,
    observed: MatrixVerdict,
)
    ensures
        observed != MatrixVerdict::Pass ==> matrix_row(outcome, level, observed).0 == observed,
        observed == MatrixVerdict::Pass ==> {
            &&& matrix_row(outcome, level, observed).0 == MatrixVerdict::Fail <==> outcome
                != Outcome::Pass
            &&& matrix_row(outcome, level, observed).0 == MatrixVerdict::Pass <==> outcome
                == Outcome::Pass && level == IntegrityLevel::ByteFingerprint
            &&& matrix_row(outcome, level, observed).0 == MatrixVerdict::PassDegraded <==> outcome
                == Outcome::Pass && level != IntegrityLevel::ByteFingerprint
        },
{
}

} // verus!
