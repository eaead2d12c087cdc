//! What the command line alone decides.
use vstd::prelude::*;
use crate::exit::ExitCode;

verus! {

/// The code of an invocation that did not parse. What was asked for help or the
/// version goes to the output, and is no failure; what goes to the error stream
/// is one, and never reads as a drill that ran.
pub fn usage_code(to_error_stream: bool) -> (r: ExitCode)
    ensures
        r == if to_error_stream {
            ExitCode::Operational
        } else {
            ExitCode::Success
        },
        r != ExitCode::DrillNotPass,
{
    if to_error_stream {
        ExitCode::Operational
    } else {
        ExitCode::Success
    }
}

/// The refusal to approve a schedule as a single restore.
pub open spec fn standing_text() -> Seq<char> {
    "--subject-kind RehearsalSchedule requires --standing: a RehearsalSchedule is authorised by a STANDING rehearsal authorization, signed under its own payload type, and the Approval controller refuses an ordinary approval for that referent"@
}

/// Refuses to approve a schedule as a single restore.
pub fn standing_refusal(of_a_schedule: bool, standing: bool) -> (r: Option<String>)
    ensures
        r is Some <==> of_a_schedule && !standing,
        r is Some ==> r->0@ == standing_text(),
{
    if of_a_schedule && !standing {
        Some(
            "--subject-kind RehearsalSchedule requires --standing: a RehearsalSchedule is authorised by a STANDING rehearsal authorization, signed under its own payload type, and the Approval controller refuses an ordinary approval for that referent".to_owned(),
        )
    } else {
        None
    }
}

/// The Secret to adopt: both its name and its key, or neither.
pub fn external_secret(name: Option<String>, key: Option<String>) -> (r: Option<(String, String)>)
    ensures
        match (name, key) {
            (Some(n), Some(k)) => r == Some((n, k)),
            _ => r is None,
        },
{
    match (name, key) {
        (Some(n), Some(k)) => Some((n, k)),
        _ => None,
    }
}

} // verus!
