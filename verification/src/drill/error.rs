//! How a drill ends early, and which exit code each ending has.
use vstd::prelude::*;
use crate::drill::scorecard::Scorecard;
use crate::exit::ExitCode;

verus! {

/// A plan that a guard refused, with the reason.
#[derive(Debug)]
pub struct GuardRefusal(pub String);

/// What the target cluster's client reports.
#[derive(Debug)]
pub enum KafkaError {
    /// The client could not be configured.
    Client(String),
    /// No broker answered.
    Unreachable(String),
    /// Any other failure.
    Other(String),
}

/// What the data engine reports.
#[derive(Debug)]
pub enum EngineError {
    /// The engine could not do what it was asked.
    Operational(String),
    /// The archive cannot be fingerprinted.
    Unsupported(String),
}

impl Clone for GuardRefusal {
    fn clone(&self) -> (r: Self)
        ensures
            r == *self,
    {
        GuardRefusal(self.0.clone())
    }
}

impl Clone for KafkaError {
    fn clone(&self) -> (r: Self)
        ensures
            r == *self,
    {
        match self {
            KafkaError::Client(m) => KafkaError::Client(m.clone()),
            KafkaError::Unreachable(m) => KafkaError::Unreachable(m.clone()),
            KafkaError::Other(m) => KafkaError::Other(m.clone()),
        }
    }
}

impl Clone for EngineError {
    fn clone(&self) -> (r: Self)
        ensures
            r == *self,
    {
        match self {
            EngineError::Operational(m) => EngineError::Operational(m.clone()),
            EngineError::Unsupported(m) => EngineError::Unsupported(m.clone()),
        }
    }
}

/// Why a drill did not come to a pass.
#[derive(Debug)]
pub enum DrillError {
    /// The drill could not be attempted or continued, for a reason that says
    /// nothing about the archive.
    Operational(String),
    /// A guard refused the plan before anything ran.
    Guard(GuardRefusal),
    /// The target cluster could not be read or written.
    Kafka(KafkaError),
    /// The engine failed.
    Engine(EngineError),
    /// The restore ran and restored nothing: a result, not a failure.
    RestoreNoOp(String),
    /// A drill result that is not a pass, with its signed scorecard.
    NotPass(Box<Scorecard>),
    /// The result could not be signed, or could not be stored.
    SigningOrLock(String),
    /// Signing was not ready before anything started.
    SigningPrerequisite(String),
}

/// What a drill error says.
#[verifier::ext_equal]
pub ghost enum ErrorModel {
    Operational(Seq<char>),
    Guard(Seq<char>),
    Kafka(KafkaError),
    Engine(EngineError),
    RestoreNoOp(Seq<char>),
    NotPass(Scorecard),
    SigningOrLock(Seq<char>),
    SigningPrerequisite(Seq<char>),
}

impl View for DrillError {
    type V = ErrorModel;

    open spec fn view(&self) -> ErrorModel {
        match self {
            DrillError::Operational(m) => ErrorModel::Operational(m@),
            DrillError::Guard(g) => ErrorModel::Guard(g.0@),
            DrillError::Kafka(e) => ErrorModel::Kafka(*e),
            DrillError::Engine(e) => ErrorModel::Engine(*e),
            DrillError::RestoreNoOp(m) => ErrorModel::RestoreNoOp(m@),
            DrillError::NotPass(sc) => ErrorModel::NotPass(**sc),
            DrillError::SigningOrLock(m) => ErrorModel::SigningOrLock(m@),
            DrillError::SigningPrerequisite(m) => ErrorModel::SigningPrerequisite(m@),
        }
    }
}

impl KafkaError {
    /// What the client said.
    pub open spec fn said(self) -> Seq<char> {
        match self {
            KafkaError::Client(m) => m@,
            KafkaError::Unreachable(m) => m@,
            KafkaError::Other(m) => m@,
        }
    }

    /// What the client said.
    pub fn text(&self) -> (r: &str)
        ensures
            r@ == self.said(),
    {
        match self {
            KafkaError::Client(m) => m.as_str(),
            KafkaError::Unreachable(m) => m.as_str(),
            KafkaError::Other(m) => m.as_str(),
        }
    }
}

impl EngineError {
    /// What the engine said.
    pub open spec fn said(self) -> Seq<char> {
        match self {
            EngineError::Operational(m) => m@,
            EngineError::Unsupported(m) => m@,
        }
    }

    /// What the engine said.
    pub fn text(&self) -> (r: &str)
        ensures
            r@ == self.said(),
    {
        match self {
            EngineError::Operational(m) => m.as_str(),
            EngineError::Unsupported(m) => m.as_str(),
        }
    }
}

impl ErrorModel {
    /// The code that a run ending this way exits with. A restore that restored
    /// nothing has none: it becomes a scored result first.
    pub open spec fn code(self) -> Option<ExitCode> {
        match self {
            ErrorModel::Guard(_) => Some(ExitCode::GuardRefused),
            ErrorModel::NotPass(_) => Some(ExitCode::DrillNotPass),
            ErrorModel::SigningOrLock(_) => Some(ExitCode::SigningOrLock),
            ErrorModel::SigningPrerequisite(_) => Some(ExitCode::SigningOrLock),
            ErrorModel::RestoreNoOp(_) => None,
            ErrorModel::Operational(_) => Some(ExitCode::Operational),
            ErrorModel::Kafka(_) => Some(ExitCode::Operational),
            ErrorModel::Engine(_) => Some(ExitCode::Operational),
        }
    }

    /// The error in words.
    pub open spec fn message(self) -> Seq<char> {
        match self {
            ErrorModel::Operational(m) => "operational: "@ + m,
            ErrorModel::Guard(m) => "guard: plan refused by the admission guard: "@ + m,
            ErrorModel::Kafka(e) => "kafka: "@ + e.said(),
            ErrorModel::Engine(e) => "engine: "@ + e.said(),
            ErrorModel::RestoreNoOp(m) => "drill-not-pass: "@ + m,
            ErrorModel::NotPass(_) => "drill did not pass"@,
            ErrorModel::SigningOrLock(m) => "signing or lock proof failed: "@ + m,
            ErrorModel::SigningPrerequisite(m) => "signing or lock proof failed: "@ + m,
        }
    }
}

/// A text behind a fixed opening.
fn opened(opening: &str, rest: &str) -> (r: String)
    ensures
        r@ == opening@ + rest@,
{
    let mut s = opening.to_owned();
    s.append(rest);
    s
}

impl DrillError {
    /// The code that a run ending this way exits with.
    pub fn exit_code(&self) -> (r: ExitCode)
        requires
            !(self is RestoreNoOp),
        ensures
            Some(r) == self@.code(),
    {
        match self {
            DrillError::Guard(_) => ExitCode::GuardRefused,
            DrillError::NotPass(_) => ExitCode::DrillNotPass,
            DrillError::SigningOrLock(_) => ExitCode::SigningOrLock,
            DrillError::SigningPrerequisite(_) => ExitCode::SigningOrLock,
            _ => ExitCode::Operational,
        }
    }

    /// The error in words.
    pub fn message(&self) -> (r: String)
        ensures
            r@ == self@.message(),
    {
        match self {
            DrillError::Operational(m) => opened("operational: ", m.as_str()),
            DrillError::Guard(g) => opened(
                "guard: plan refused by the admission guard: ",
                g.0.as_str(),
            ),
            DrillError::Kafka(e) => opened("kafka: ", e.text()),
            DrillError::Engine(e) => opened("engine: ", e.text()),
            DrillError::RestoreNoOp(m) => opened("drill-not-pass: ", m.as_str()),
            DrillError::NotPass(_) => "drill did not pass".to_owned(),
            DrillError::SigningOrLock(m) => opened("signing or lock proof failed: ", m.as_str()),
            DrillError::SigningPrerequisite(m) => opened(
                "signing or lock proof failed: ",
                m.as_str(),
            ),
        }
    }
}

impl From<DrillError> for ExitCode {
    /// The code that a run ending this way exits with. A restore that restored
    /// nothing is scored, and so replaced, before a run ends; as it stands its
    /// result is one that nothing attests.
    fn from(e: DrillError) -> (r: Self) {
        match e {
            DrillError::RestoreNoOp(_) => ExitCode::SigningOrLock,
            _ => e.exit_code(),
        }
    }
}

impl vstd::std_specs::convert::FromSpecImpl<DrillError> for ExitCode {
    open spec fn obeys_from_spec() -> bool {
        true
    }

    open spec fn from_spec(e: DrillError) -> ExitCode {
        match e@.code() {
            Some(code) => code,
            None => ExitCode::SigningOrLock,
        }
    }
}

/// A failure that ends a run exits with the code that its kind has, whether it
/// is looked at or handed over, and never with that of a pass.
pub proof fn a_failure_has_one_code(e: DrillError)
    requires
        !(e is RestoreNoOp),
    ensures
        e@.code() == Some(<ExitCode as vstd::std_specs::convert::FromSpec<DrillError>>::from_spec(e)),
        e@.code() != Some(ExitCode::Success),
        e is Guard <==> e@.code() == Some(ExitCode::GuardRefused),
        e is NotPass <==> e@.code() == Some(ExitCode::DrillNotPass),
        e is SigningOrLock || e is SigningPrerequisite <==> e@.code() == Some(
            ExitCode::SigningOrLock,
        ),
        e is Operational || e is Kafka || e is Engine <==> e@.code() == Some(ExitCode::Operational),
{
}

/// A refusal with that reason.
pub fn refuse(reason: String) -> (r: DrillError)
    ensures
        r@ == ErrorModel::Guard(reason@),
{
    DrillError::Guard(GuardRefusal(reason))
}

} // verus!
