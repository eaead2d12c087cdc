//! The passwords that reach a run through its environment.
use vstd::prelude::*;
use crate::drill::error::{GuardRefusal, KafkaError};
use crate::drill::step::Step;

verus! {

/// The variable that carries the source cluster's password.
pub const SOURCE_PASSWORD_VAR: &'static str = "LOGWEIR_SOURCE_PASSWORD";

/// The variable that carries the target cluster's password.
pub const TARGET_PASSWORD_VAR: &'static str = "LOGWEIR_TARGET_PASSWORD";

/// What the environment holds under a name.
#[derive(Debug)]
pub enum EnvValue {
    Absent,
    /// Something that is no text.
    NotText,
    Text(String),
}

/// The refusal of a password that is no text. It names the variable and never
/// the value.
pub open spec fn not_text_refusal(state: Seq<char>, var: Seq<char>) -> Seq<char> {
    state + ": the value projected into `"@ + var
        + "` is not valid UTF-8, so it cannot be substituted into the engine's config text at all. The refusal names the variable and never the value."@
}

/// The refusal of a password that cannot be rendered, for that reason.
pub open spec fn unrenderable_refusal(state: Seq<char>, why: Seq<char>, var: Seq<char>) -> Seq<
    char,
> {
    state + ": "@ + why + " (projected into `"@ + var + "`)"@
}

/// What a password comes to.
pub ghost enum PasswordModel {
    /// Whether it can be rendered has to be known first.
    Unknown,
    Refused(Seq<char>),
    Read(Option<Seq<char>>),
}

/// What a password comes to. `state` opens a refusal; `renderable` says whether
/// the engine's configuration can carry the text, and why not.
pub open spec fn password_of(
    state: Seq<char>,
    var: Seq<char>,
    value: EnvValue,
    renderable: Option<Result<(), String>>,
) -> PasswordModel {
    match value {
        EnvValue::Absent => PasswordModel::Read(None),
        EnvValue::NotText => PasswordModel::Refused(not_text_refusal(state, var)),
        EnvValue::Text(secret) => match renderable {
            None => PasswordModel::Unknown,
            Some(Err(why)) => PasswordModel::Refused(unrenderable_refusal(state, why@, var)),
            Some(Ok(_)) => PasswordModel::Read(Some(secret@)),
        },
    }
}

/// Reads one password. One that is not there is no refusal; whether one is
/// needed is decided elsewhere.
pub fn validated_password(
    state: &str,
    var: &str,
    value: &EnvValue,
    renderable: &Option<Result<(), String>>,
) -> (r: Step<(), Result<Option<String>, GuardRefusal>>)
    ensures
        match password_of(state@, var@, *value, *renderable) {
            PasswordModel::Unknown => r matches Step::Ask(_),
            PasswordModel::Refused(why) => r matches Step::Done(Err(g)) && g.0@ == why,
            PasswordModel::Read(None) => r matches Step::Done(Ok(None)),
            PasswordModel::Read(Some(secret)) => r matches Step::Done(Ok(Some(s))) && s@ == secret,
        },
{
    match value {
        EnvValue::Absent => Step::Done(Ok(None)),
        EnvValue::NotText => {
            let mut m = state.to_owned();
            m.append(": the value projected into `");
            m.append(var);
            m.append(
                "` is not valid UTF-8, so it cannot be substituted into the engine's config text at all. The refusal names the variable and never the value.",
            );
            Step::Done(Err(GuardRefusal(m)))
        },
        EnvValue::Text(secret) => match renderable {
            None => Step::Ask(()),
            Some(Err(why)) => {
                let mut m = state.to_owned();
                m.append(": ");
                m.append(why.as_str());
                m.append(" (projected into `");
                m.append(var);
                m.append("`)");
                Step::Done(Err(GuardRefusal(m)))
            },
            Some(Ok(_)) => Step::Done(Ok(Some(secret.clone()))),
        },
    }
}

/// Which password has to be looked at.
#[derive(Clone, Copy, Debug, PartialEq, Eq, Structural)]
pub enum PasswordVar {
    Source,
    Target,
}

/// What the check of both passwords comes to.
pub open spec fn credentials_are(
    r: Step<PasswordVar, Result<(), GuardRefusal>>,
    source: PasswordModel,
    target: PasswordModel,
) -> bool {
    match source {
        PasswordModel::Unknown => r matches Step::Ask(PasswordVar::Source),
        PasswordModel::Refused(why) => r matches Step::Done(Err(g)) && g.0@ == why,
        PasswordModel::Read(_) => match target {
            PasswordModel::Unknown => r matches Step::Ask(PasswordVar::Target),
            PasswordModel::Refused(why) => r matches Step::Done(Err(g)) && g.0@ == why,
            PasswordModel::Read(_) => r matches Step::Done(Ok(_)),
        },
    }
}

/// Checks every password that the environment holds, whatever the plan asks
/// for: the source cluster's first, then the target's.
pub fn check_projected_credentials(
    state: &str,
    source: &EnvValue,
    source_renderable: &Option<Result<(), String>>,
    target: &EnvValue,
    target_renderable: &Option<Result<(), String>>,
) -> (r: Step<PasswordVar, Result<(), GuardRefusal>>)
    ensures
        credentials_are(
            r,
            password_of(state@, "LOGWEIR_SOURCE_PASSWORD"@, *source, *source_renderable),
            password_of(state@, "LOGWEIR_TARGET_PASSWORD"@, *target, *target_renderable),
        ),
{
    let a = validated_password(state, SOURCE_PASSWORD_VAR, source, source_renderable);
    let b = validated_password(state, TARGET_PASSWORD_VAR, target, target_renderable);
    match a {
        Step::Ask(_) => Step::Ask(PasswordVar::Source),
        Step::Done(Err(g)) => Step::Done(Err(g)),
        Step::Done(Ok(_)) => match b {
            Step::Ask(_) => Step::Ask(PasswordVar::Target),
            Step::Done(Err(g)) => Step::Done(Err(g)),
            Step::Done(Ok(_)) => Step::Done(Ok(())),
        },
    }
}

/// A refusal says nothing of the password: two values that are refused for one
/// reason are refused in the same words.
pub proof fn a_refusal_hides_the_password(
    state: Seq<char>,
    var: Seq<char>,
    one: String,
    other: String,
    why: String,
)
    ensures
        password_of(state, var, EnvValue::Text(one), Some(Err(why))) == password_of(
            state,
            var,
            EnvValue::Text(other),
            Some(Err(why)),
        ),
{
}

/// The failure where the plan needs a password and the variable is not set.
pub open spec fn unset_text(var: Seq<char>) -> Seq<char> {
    "auth.mode is scramSha512 but $"@ + var
        + " is unset. Nothing was refused: this is operational (exit 1), not a guard refusal (exit 3) — project the Secret and re-run. The engine would otherwise substitute the EMPTY STRING for the placeholder behind nothing but a warning [U:crates/kafka-backup-cli/src/commands/config.rs:20-27, verified by execution against the pinned engine] and attempt an unauthenticated connection, which is why this is checked before the engine is spawned."@
}

/// Names the variable in a client's complaint about its configuration; what a
/// broker said stays as it was.
pub fn naming_the_password_var(e: KafkaError, var: &str) -> (r: KafkaError)
    ensures
        match e {
            KafkaError::Client(_) => r matches KafkaError::Client(m) && m@ == unset_text(var@),
            _ => r == e,
        },
{
    match e {
        KafkaError::Client(_) => {
            let mut m = "auth.mode is scramSha512 but $".to_owned();
            m.append(var);
            m.append(
                " is unset. Nothing was refused: this is operational (exit 1), not a guard refusal (exit 3) — project the Secret and re-run. The engine would otherwise substitute the EMPTY STRING for the placeholder behind nothing but a warning [U:crates/kafka-backup-cli/src/commands/config.rs:20-27, verified by execution against the pinned engine] and attempt an unauthenticated connection, which is why this is checked before the engine is spawned.",
            );
            KafkaError::Client(m)
        },
        other => other,
    }
}

} // verus!
