//! The clients of a run: what they are made from, in what order, and what it
//! means that one of them cannot be made.
use vstd::prelude::*;
use crate::drill::credentials::{
    naming_the_password_var, password_of, unset_text, validated_password, EnvValue, PasswordModel,
    TARGET_PASSWORD_VAR,
};
use crate::drill::error::{DrillError, ErrorModel, KafkaError};
use crate::drill::plan::{run_workdir, workdir_of};
use crate::drill::step::Step;
use crate::text::{decimal, u64_text};

verus! {

/// What has been found out so far.
#[derive(Debug)]
pub struct ContextReads {
    /// Whether the plan parses.
    pub plan: Option<Result<(), String>>,
    /// Whether the list of allowed clusters parses.
    pub allowed: Option<Result<(), String>>,
    /// Whether the target's password can be rendered.
    pub renderable: Option<Result<(), String>>,
    /// Whether the target's authentication could be put together.
    pub authenticated: Option<Result<(), KafkaError>>,
    pub connected: Option<Result<(), KafkaError>>,
    /// Whether deletion could be confined to the plan's prefix.
    pub confined: Option<Result<(), String>>,
    /// A connection of its own, where deletion could not be confined.
    pub connected_again: Option<Result<(), KafkaError>>,
    pub evidence: Option<Result<(), String>>,
    pub archive: Option<Result<(), String>>,
    /// The engine's own handle on the archive.
    pub engine_archive: Option<Result<(), String>>,
    /// Whether the engine's directory could be made.
    pub workdir: Option<Result<(), String>>,
}

/// What is done next.
#[derive(Debug)]
pub enum ContextQuestion {
    ParsePlan,
    ParseAllowed,
    /// Whether the target's password can be rendered.
    Renderable,
    /// Put the target's authentication together, from the password that is there.
    Authenticate(Option<String>),
    Connect,
    /// Confine deletion to the plan's prefix.
    Confine,
    ConnectAgain,
    OpenEvidence,
    OpenArchive,
    OpenEngineArchive,
    MakeWorkdir(String),
}

/// What a run has its clients for.
#[derive(Debug)]
pub struct Clients {
    /// Whether anything can be deleted on the target.
    pub may_delete: bool,
    /// The engine's directory.
    pub workdir: String,
}

pub type ContextStep = Step<ContextQuestion, Result<Clients, DrillError>>;

/// The clients cannot be made, for that reason.
pub open spec fn unmade(r: ContextStep, e: ErrorModel) -> bool {
    r matches Step::Done(Err(d)) && d@ == e
}

/// A failure of the authentication, which names the variable that is unset.
pub open spec fn auth_failure(r: ContextStep, e: KafkaError) -> bool {
    match e {
        KafkaError::Client(_) => {
            &&& r matches Step::Done(Err(DrillError::Kafka(KafkaError::Client(m))))
            &&& m@ == unset_text("LOGWEIR_TARGET_PASSWORD"@)
        },
        _ => unmade(r, ErrorModel::Kafka(e)),
    }
}

/// The engine's directory.
pub open spec fn engine_dir(temp_dir: Seq<char>, pid: u32) -> Seq<char> {
    workdir_of(temp_dir, decimal(pid as nat))
}

/// How the stores and the engine's directory stand.
pub open spec fn stores_are(
    r: ContextStep,
    may_delete: bool,
    temp_dir: Seq<char>,
    pid: u32,
    reads: ContextReads,
) -> bool {
    let dir = engine_dir(temp_dir, pid);
    match (reads.evidence, reads.archive, reads.engine_archive, reads.workdir) {
        (None, _, _, _) => r matches Step::Ask(ContextQuestion::OpenEvidence),
        (Some(Err(e)), _, _, _) => unmade(r, ErrorModel::Operational(e@)),
        (_, None, _, _) => r matches Step::Ask(ContextQuestion::OpenArchive),
        (_, Some(Err(e)), _, _) => unmade(r, ErrorModel::Operational(e@)),
        (_, _, None, _) => r matches Step::Ask(ContextQuestion::OpenEngineArchive),
        (_, _, Some(Err(e)), _) => unmade(r, ErrorModel::Operational(e@)),
        (_, _, _, None) => r matches Step::Ask(ContextQuestion::MakeWorkdir(d)) && d@ == dir,
        (_, _, _, Some(Err(e))) => unmade(r, ErrorModel::Operational(dir + ": "@ + e@)),
        (_, _, _, Some(Ok(_))) => {
            &&& r matches Step::Done(Ok(clients))
            &&& clients.may_delete == may_delete
            &&& clients.workdir@ == dir
        },
    }
}

/// How the client of the target stands. A prefix that deletion cannot be
/// confined to takes deletion away, and nothing else: the plan is refused for
/// it later.
pub open spec fn client_is(
    r: ContextStep,
    temp_dir: Seq<char>,
    pid: u32,
    reads: ContextReads,
) -> bool {
    match (reads.connected, reads.confined, reads.connected_again) {
        (None, _, _) => r matches Step::Ask(ContextQuestion::Connect),
        (Some(Err(e)), _, _) => unmade(r, ErrorModel::Kafka(e)),
        (_, None, _) => r matches Step::Ask(ContextQuestion::Confine),
        (_, Some(Ok(_)), _) => stores_are(r, true, temp_dir, pid, reads),
        (_, Some(Err(_)), None) => r matches Step::Ask(ContextQuestion::ConnectAgain),
        (_, Some(Err(_)), Some(Err(e))) => unmade(r, ErrorModel::Kafka(e)),
        (_, Some(Err(_)), Some(Ok(_))) => stores_are(r, false, temp_dir, pid, reads),
    }
}

/// How the authentication stands: the password is checked before anything is
/// made from it.
pub open spec fn authentication_is(
    r: ContextStep,
    state: Seq<char>,
    password: EnvValue,
    temp_dir: Seq<char>,
    pid: u32,
    reads: ContextReads,
) -> bool {
    match password_of(state, "LOGWEIR_TARGET_PASSWORD"@, password, reads.renderable) {
        PasswordModel::Unknown => r matches Step::Ask(ContextQuestion::Renderable),
        PasswordModel::Refused(why) => unmade(r, ErrorModel::Guard(why)),
        PasswordModel::Read(secret) => match reads.authenticated {
            None => {
                &&& r matches Step::Ask(ContextQuestion::Authenticate(given))
                &&& match secret {
                    None => given is None,
                    Some(s) => given matches Some(g) && g@ == s,
                }
            },
            Some(Err(e)) => auth_failure(r, e),
            Some(Ok(_)) => client_is(r, temp_dir, pid, reads),
        },
    }
}

/// How the making of a run's clients stands.
pub open spec fn context_is(
    r: ContextStep,
    state: Seq<char>,
    password: EnvValue,
    temp_dir: Seq<char>,
    pid: u32,
    reads: ContextReads,
) -> bool {
    match (reads.plan, reads.allowed) {
        (None, _) => r matches Step::Ask(ContextQuestion::ParsePlan),
        (Some(Err(e)), _) => unmade(r, ErrorModel::Operational("drill spec does not parse: "@ + e@)),
        (_, None) => r matches Step::Ask(ContextQuestion::ParseAllowed),
        (_, Some(Err(e))) => unmade(
            r,
            ErrorModel::Operational("allowed-clusters does not parse: "@ + e@),
        ),
        (_, Some(Ok(_))) => authentication_is(r, state, password, temp_dir, pid, reads),
    }
}

/// A failure with a text in front of it.
fn operational(opening: &str, why: &String) -> (r: ContextStep)
    ensures
        unmade(r, ErrorModel::Operational(opening@ + why@)),
{
    let mut m = opening.to_owned();
    m.append(why.as_str());
    Step::Done(Err(DrillError::Operational(m)))
}

/// Opens the stores, and makes the engine's directory.
fn stores(may_delete: bool, temp_dir: &str, pid: u32, reads: &ContextReads) -> (r: ContextStep)
    ensures
        stores_are(r, may_delete, temp_dir@, pid, *reads),
{
    match &reads.evidence {
        None => {
            return Step::Ask(ContextQuestion::OpenEvidence);
        },
        Some(Err(e)) => {
            return Step::Done(Err(DrillError::Operational(e.clone())));
        },
        Some(Ok(_)) => {},
    }
    match &reads.archive {
        None => {
            return Step::Ask(ContextQuestion::OpenArchive);
        },
        Some(Err(e)) => {
            return Step::Done(Err(DrillError::Operational(e.clone())));
        },
        Some(Ok(_)) => {},
    }
    match &reads.engine_archive {
        None => {
            return Step::Ask(ContextQuestion::OpenEngineArchive);
        },
        Some(Err(e)) => {
            return Step::Done(Err(DrillError::Operational(e.clone())));
        },
        Some(Ok(_)) => {},
    }
    let workdir = run_workdir(temp_dir, u64_text(pid as u64).as_str());
    match &reads.workdir {
        None => Step::Ask(ContextQuestion::MakeWorkdir(workdir)),
        Some(Err(e)) => {
            let mut m = workdir;
            m.append(": ");
            m.append(e.as_str());
            Step::Done(Err(DrillError::Operational(m)))
        },
        Some(Ok(_)) => Step::Done(Ok(Clients { may_delete, workdir })),
    }
}

/// Connects to the target, and goes on to the stores.
fn client(temp_dir: &str, pid: u32, reads: &ContextReads) -> (r: ContextStep)
    ensures
        client_is(r, temp_dir@, pid, *reads),
{
    match &reads.connected {
        None => {
            return Step::Ask(ContextQuestion::Connect);
        },
        Some(Err(e)) => {
            return Step::Done(Err(DrillError::Kafka(e.clone())));
        },
        Some(Ok(_)) => {},
    }
    match &reads.confined {
        None => Step::Ask(ContextQuestion::Confine),
        Some(Ok(_)) => stores(true, temp_dir, pid, reads),
        Some(Err(_)) => match &reads.connected_again {
            None => Step::Ask(ContextQuestion::ConnectAgain),
            Some(Err(e)) => Step::Done(Err(DrillError::Kafka(e.clone()))),
            Some(Ok(_)) => stores(false, temp_dir, pid, reads),
        },
    }
}

/// Makes the clients of a run, from what has been found out so far. `state`
/// opens the refusal of a password.
pub fn context(
    state: &str,
    password: &EnvValue,
    temp_dir: &str,
    pid: u32,
    reads: &ContextReads,
) -> (r: ContextStep)
    ensures
        context_is(r, state@, *password, temp_dir@, pid, *reads),
{
    match &reads.plan {
        None => {
            return Step::Ask(ContextQuestion::ParsePlan);
        },
        Some(Err(e)) => {
            return operational("drill spec does not parse: ", e);
        },
        Some(Ok(_)) => {},
    }
    match &reads.allowed {
        None => {
            return Step::Ask(ContextQuestion::ParseAllowed);
        },
        Some(Err(e)) => {
            return operational("allowed-clusters does not parse: ", e);
        },
        Some(Ok(_)) => {},
    }
    let secret = match validated_password(state, TARGET_PASSWORD_VAR, password, &reads.renderable) {
        Step::Ask(_) => {
            return Step::Ask(ContextQuestion::Renderable);
        },
        Step::Done(Err(g)) => {
            return Step::Done(Err(DrillError::Guard(g)));
        },
        Step::Done(Ok(secret)) => secret,
    };
    match &reads.authenticated {
        None => Step::Ask(ContextQuestion::Authenticate(secret)),
        Some(Err(e)) => Step::Done(
            Err(DrillError::Kafka(naming_the_password_var(e.clone(), TARGET_PASSWORD_VAR))),
        ),
        Some(Ok(_)) => client(temp_dir, pid, reads),
    }
}

// ---- laws ------------------------------------------------------------------

/// A prefix that deletion cannot be confined to stops no run: the clients are
/// made all the same, and nothing can be deleted through them.
pub proof fn an_unusable_prefix_takes_deletion_away(
    r: ContextStep,
    state: Seq<char>,
    password: EnvValue,
    temp_dir: Seq<char>,
    pid: u32,
    reads: ContextReads,
)
    requires
        context_is(r, state, password, temp_dir, pid, reads),
        r matches Step::Done(Ok(_)),
    ensures
        r->Done_0->Ok_0.may_delete <==> reads.confined matches Some(Ok(_)),
        !(reads.confined matches Some(Ok(_))) ==> reads.connected_again matches Some(Ok(_)),
{
}

/// No client is made of the target, and no store is opened, before the password
/// has been found fit to use.
pub proof fn clients_wait_for_the_password(
    r: ContextStep,
    state: Seq<char>,
    password: EnvValue,
    temp_dir: Seq<char>,
    pid: u32,
    reads: ContextReads,
)
    requires
        context_is(r, state, password, temp_dir, pid, reads),
        !(password_of(state, "LOGWEIR_TARGET_PASSWORD"@, password, reads.renderable) is Read),
    ensures
        r matches Step::Ask(q) ==> q is ParsePlan || q is ParseAllowed || q is Renderable,
        !(r matches Step::Done(Ok(_))),
{
}

} // verus!
