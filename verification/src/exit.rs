//! The five exit codes of a run.
use vstd::prelude::*;

verus! {

/// What a run tells the process that started it.
#[derive(Clone, Copy, Debug, PartialEq, Eq, Structural)]
pub enum ExitCode {
    /// The drill passed.
    Success,
    /// The drill could not be attempted or continued; there is no scorecard.
    Operational,
    /// A drill ran and did not pass; its scorecard is signed and uploaded.
    DrillNotPass,
    /// A guard refused the plan before anything ran.
    GuardRefused,
    /// Signing was not ready, or the result is unattested: nothing was uploaded.
    /// A put that fails after the first cannot undo it; what was put before it
    /// then stays in the store.
    SigningOrLock,
}

impl ExitCode {
    /// The number of this code.
    pub open spec fn number(self) -> u8 {
        match self {
            ExitCode::Success => 0,
            ExitCode::Operational => 1,
            ExitCode::DrillNotPass => 2,
            ExitCode::GuardRefused => 3,
            ExitCode::SigningOrLock => 4,
        }
    }

    /// The process exit status of this code.
    pub fn code(self) -> (r: u8)
        ensures
            r == self.number(),
    {
        match self {
            ExitCode::Success => 0,
            ExitCode::Operational => 1,
            ExitCode::DrillNotPass => 2,
            ExitCode::GuardRefused => 3,
            ExitCode::SigningOrLock => 4,
        }
    }

    /// What the code means to whoever reads the log.
    pub open spec fn meaning_text(self) -> Seq<char> {
        match self {
            ExitCode::Success => "the drill passed"@,
            ExitCode::Operational => "logweir could not do its job; NO scorecard was written"@,
            ExitCode::DrillNotPass =>
                "a drill ran and did not pass; a SIGNED scorecard was written"@,
            ExitCode::GuardRefused => "the plan was refused before anything ran; no scorecard"@,
            ExitCode::SigningOrLock =>
                "signing readiness failed or the drill result is unattested; nothing uploaded"@,
        }
    }

    /// What the code means to whoever reads the log.
    pub fn meaning(self) -> (r: &'static str)
        ensures
            r@ == self.meaning_text(),
    {
        match self {
            ExitCode::Success => "the drill passed",
            ExitCode::Operational => "logweir could not do its job; NO scorecard was written",
            ExitCode::DrillNotPass => "a drill ran and did not pass; a SIGNED scorecard was written",
            ExitCode::GuardRefused => "the plan was refused before anything ran; no scorecard",
            ExitCode::SigningOrLock =>
                "signing readiness failed or the drill result is unattested; nothing uploaded",
        }
    }
}

/// Different codes have different numbers.
pub proof fn numbers_are_distinct(a: ExitCode, b: ExitCode)
    ensures
        a.number() == b.number() <==> a == b,
{
}

/// Different codes are explained in different words.
pub proof fn meanings_are_distinct(a: ExitCode, b: ExitCode)
    ensures
        a.meaning_text() == b.meaning_text() <==> a == b,
{
    reveal_strlit("the drill passed");
    reveal_strlit("logweir could not do its job; NO scorecard was written");
    reveal_strlit("a drill ran and did not pass; a SIGNED scorecard was written");
    reveal_strlit("the plan was refused before anything ran; no scorecard");
    reveal_strlit("signing readiness failed or the drill result is unattested; nothing uploaded");
    assert(ExitCode::Success.meaning_text().len() == 16);
    assert(ExitCode::Operational.meaning_text().len() == 54);
    assert(ExitCode::DrillNotPass.meaning_text().len() == 60);
    assert(ExitCode::GuardRefused.meaning_text().len() == 54);
    assert(ExitCode::GuardRefused.meaning_text()[0] == 't');
    assert(ExitCode::Operational.meaning_text()[0] == 'l');
    assert(ExitCode::SigningOrLock.meaning_text().len() == 76);
}

} // verus!
