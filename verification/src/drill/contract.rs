//! The execution contract that a controller pins a run to.
//!
//! It comes through the environment and the command line together, all of it
//! or none of it.
use vstd::prelude::*;
use crate::drill::error::{refuse, DrillError, ErrorModel};
use crate::encoding::{quoted, quoted_option, quoted_option_text, quoted_text};
use crate::text::{blank, is_blank, text_in};

verus! {

/// What a run is pinned to.
#[derive(Debug)]
pub struct ExecutionContract {
    pub subject_api_version: String,
    pub subject_kind: String,
    pub subject_name: String,
    pub subject_namespace: String,
    pub subject_uid: String,
    pub approval_name: String,
    pub approval_uid: String,
    pub plan_sha256: String,
    pub approval_sha256: String,
    pub approval_sidecar_sha256: String,
    pub approver_key_sha256: String,
    pub allowed_clusters_sha256: String,
}

/// The names that the contract comes under, and its version.
#[derive(Debug)]
pub struct ContractNames {
    pub version_env: String,
    pub subject_api_version_env: String,
    pub subject_kind_env: String,
    pub subject_name_env: String,
    pub subject_namespace_env: String,
    pub subject_uid_env: String,
    pub approval_name_env: String,
    pub approval_uid_env: String,
    pub plan_sha256_env: String,
    pub approval_sha256_env: String,
    pub approval_sidecar_sha256_env: String,
    pub approver_key_sha256_env: String,
    pub allowed_clusters_sha256_env: String,
    /// The version that is understood.
    pub version: String,
    /// The argument that the version comes under.
    pub version_arg: String,
}

/// What the environment holds of the contract.
#[derive(Debug)]
pub struct ContractValues {
    pub version: Option<String>,
    pub subject_api_version: Option<String>,
    pub subject_kind: Option<String>,
    pub subject_name: Option<String>,
    pub subject_namespace: Option<String>,
    pub subject_uid: Option<String>,
    pub approval_name: Option<String>,
    pub approval_uid: Option<String>,
    pub plan_sha256: Option<String>,
    pub approval_sha256: Option<String>,
    pub approval_sidecar_sha256: Option<String>,
    pub approver_key_sha256: Option<String>,
    pub allowed_clusters_sha256: Option<String>,
}

impl ContractValues {
    /// Nothing of the contract is there.
    pub open spec fn absent(self) -> bool {
        &&& self.version is None
        &&& self.subject_api_version is None
        &&& self.subject_kind is None
        &&& self.subject_name is None
        &&& self.subject_namespace is None
        &&& self.subject_uid is None
        &&& self.approval_name is None
        &&& self.approval_uid is None
        &&& self.plan_sha256 is None
        &&& self.approval_sha256 is None
        &&& self.approval_sidecar_sha256 is None
        &&& self.approver_key_sha256 is None
        &&& self.allowed_clusters_sha256 is None
    }

    /// Whether nothing of the contract is there.
    pub fn is_absent(&self) -> (r: bool)
        ensures
            r == self.absent(),
    {
        self.version.is_none() && self.subject_api_version.is_none() && self.subject_kind.is_none()
            && self.subject_name.is_none() && self.subject_namespace.is_none()
            && self.subject_uid.is_none() && self.approval_name.is_none()
            && self.approval_uid.is_none() && self.plan_sha256.is_none()
            && self.approval_sha256.is_none() && self.approval_sidecar_sha256.is_none()
            && self.approver_key_sha256.is_none() && self.allowed_clusters_sha256.is_none()
    }
}

/// The value is missing, or says nothing.
pub open spec fn missing(value: Option<String>) -> bool {
    match value {
        None => true,
        Some(v) => blank(v@),
    }
}

/// The refusal of a contract without that value.
pub open spec fn missing_text(name: Seq<char>) -> Seq<char> {
    "incomplete Restore execution contract: "@ + name
        + " is missing; no data operation was started"@
}

/// The refusal of a version that is not understood.
pub open spec fn version_text(version: Seq<char>, expected: Seq<char>) -> Seq<char> {
    "unsupported Restore execution contract version "@ + quoted(version) + "; expected "@ + quoted(
        expected,
    ) + "; no data operation was started"@
}

/// The first value, but for the version, that is missing.
pub open spec fn first_missing(n: ContractNames, v: ContractValues) -> Option<Seq<char>> {
    if missing(v.subject_api_version) {
        Some(n.subject_api_version_env@)
    } else if missing(v.subject_kind) {
        Some(n.subject_kind_env@)
    } else if missing(v.subject_name) {
        Some(n.subject_name_env@)
    } else if missing(v.subject_namespace) {
        Some(n.subject_namespace_env@)
    } else if missing(v.subject_uid) {
        Some(n.subject_uid_env@)
    } else if missing(v.approval_name) {
        Some(n.approval_name_env@)
    } else if missing(v.approval_uid) {
        Some(n.approval_uid_env@)
    } else if missing(v.plan_sha256) {
        Some(n.plan_sha256_env@)
    } else if missing(v.approval_sha256) {
        Some(n.approval_sha256_env@)
    } else if missing(v.approval_sidecar_sha256) {
        Some(n.approval_sidecar_sha256_env@)
    } else if missing(v.approver_key_sha256) {
        Some(n.approver_key_sha256_env@)
    } else if missing(v.allowed_clusters_sha256) {
        Some(n.allowed_clusters_sha256_env@)
    } else {
        None
    }
}

/// The contract holds the values of the environment.
pub open spec fn holds(c: ExecutionContract, v: ContractValues) -> bool {
    &&& v.subject_api_version == Some(c.subject_api_version)
    &&& v.subject_kind == Some(c.subject_kind)
    &&& v.subject_name == Some(c.subject_name)
    &&& v.subject_namespace == Some(c.subject_namespace)
    &&& v.subject_uid == Some(c.subject_uid)
    &&& v.approval_name == Some(c.approval_name)
    &&& v.approval_uid == Some(c.approval_uid)
    &&& v.plan_sha256 == Some(c.plan_sha256)
    &&& v.approval_sha256 == Some(c.approval_sha256)
    &&& v.approval_sidecar_sha256 == Some(c.approval_sidecar_sha256)
    &&& v.approver_key_sha256 == Some(c.approver_key_sha256)
    &&& v.allowed_clusters_sha256 == Some(c.allowed_clusters_sha256)
}

/// What the environment's contract comes to.
pub open spec fn contract_is(
    r: Result<Option<ExecutionContract>, DrillError>,
    n: ContractNames,
    v: ContractValues,
) -> bool {
    if v.absent() {
        r matches Ok(None)
    } else if missing(v.version) {
        r matches Err(e) && e@ == ErrorModel::Guard(missing_text(n.version_env@))
    } else if v.version->0@ != n.version@ {
        r matches Err(e) && e@ == ErrorModel::Guard(version_text(v.version->0@, n.version@))
    } else {
        match first_missing(n, v) {
            Some(name) => r matches Err(e) && e@ == ErrorModel::Guard(missing_text(name)),
            None => r matches Ok(Some(c)) && holds(c, v),
        }
    }
}

/// A value that has to be there.
fn required(name: &String, value: &Option<String>) -> (r: Result<String, DrillError>)
    ensures
        if missing(*value) {
            r matches Err(e) && e@ == ErrorModel::Guard(missing_text(name@))
        } else {
            r matches Ok(s) && Some(s) == *value
        },
{
    if let Some(v) = value {
        if !is_blank(v.as_str()) {
            return Ok(v.clone());
        }
    }
    let mut m = "incomplete Restore execution contract: ".to_owned();
    m.append(name.as_str());
    m.append(" is missing; no data operation was started");
    Err(refuse(m))
}

/// Reads the contract from what the environment holds of it: nothing at all is
/// a run of its own; anything less than all of it is refused.
pub fn execution_contract_from(n: &ContractNames, v: &ContractValues) -> (r: Result<
    Option<ExecutionContract>,
    DrillError,
>)
    ensures
        contract_is(r, *n, *v),
{
    if v.is_absent() {
        return Ok(None);
    }
    match required(&n.version_env, &v.version) {
        Err(e) => {
            return Err(e);
        },
        Ok(version) => {
            if version != n.version {
                let mut m = "unsupported Restore execution contract version ".to_owned();
                m.append(quoted_text(version.as_str()).as_str());
                m.append("; expected ");
                m.append(quoted_text(n.version.as_str()).as_str());
                m.append("; no data operation was started");
                return Err(refuse(m));
            }
        },
    }
    let subject_api_version = match required(&n.subject_api_version_env, &v.subject_api_version) {
        Ok(s) => s,
        Err(e) => {
            return Err(e);
        },
    };
    let subject_kind = match required(&n.subject_kind_env, &v.subject_kind) {
        Ok(s) => s,
        Err(e) => {
            return Err(e);
        },
    };
    let subject_name = match required(&n.subject_name_env, &v.subject_name) {
        Ok(s) => s,
        Err(e) => {
            return Err(e);
        },
    };
    let subject_namespace = match required(&n.subject_namespace_env, &v.subject_namespace) {
        Ok(s) => s,
        Err(e) => {
            return Err(e);
        },
    };
    let subject_uid = match required(&n.subject_uid_env, &v.subject_uid) {
        Ok(s) => s,
        Err(e) => {
            return Err(e);
        },
    };
    let approval_name = match required(&n.approval_name_env, &v.approval_name) {
        Ok(s) => s,
        Err(e) => {
            return Err(e);
        },
    };
    let approval_uid = match required(&n.approval_uid_env, &v.approval_uid) {
        Ok(s) => s,
        Err(e) => {
            return Err(e);
        },
    };
    let plan_sha256 = match required(&n.plan_sha256_env, &v.plan_sha256) {
        Ok(s) => s,
        Err(e) => {
            return Err(e);
        },
    };
    let approval_sha256 = match required(&n.approval_sha256_env, &v.approval_sha256) {
        Ok(s) => s,
        Err(e) => {
            return Err(e);
        },
    };
    let approval_sidecar_sha256 = match required(
        &n.approval_sidecar_sha256_env,
        &v.approval_sidecar_sha256,
    ) {
        Ok(s) => s,
        Err(e) => {
            return Err(e);
        },
    };
    let approver_key_sha256 = match required(&n.approver_key_sha256_env, &v.approver_key_sha256) {
        Ok(s) => s,
        Err(e) => {
            return Err(e);
        },
    };
    let allowed_clusters_sha256 = match required(
        &n.allowed_clusters_sha256_env,
        &v.allowed_clusters_sha256,
    ) {
        Ok(s) => s,
        Err(e) => {
            return Err(e);
        },
    };
    Ok(
        Some(
            ExecutionContract {
                subject_api_version,
                subject_kind,
                subject_name,
                subject_namespace,
                subject_uid,
                approval_name,
                approval_uid,
                plan_sha256,
                approval_sha256,
                approval_sidecar_sha256,
                approver_key_sha256,
                allowed_clusters_sha256,
            },
        ),
    )
}

/// The version that the environment holds, where it says anything.
pub open spec fn told_version(v: ContractValues) -> Option<Seq<char>> {
    if missing(v.version) {
        None
    } else {
        Some(v.version->0@)
    }
}

/// The refusal of a contract that comes only through the environment.
pub open spec fn no_argument_text(arg: Seq<char>) -> Seq<char> {
    "incomplete Restore execution contract: "@ + arg
        + " is missing while contract environment is present; no data operation was started"@
}

/// The refusal of a contract that comes only through the command line.
pub open spec fn no_environment_text(arg: Seq<char>) -> Seq<char> {
    "incomplete Restore execution contract: "@ + arg
        + " was supplied without the required contract environment; no data operation was started"@
}

/// The refusal of a version on the command line that is not understood.
pub open spec fn argument_version_text(version: Seq<char>, expected: Seq<char>) -> Seq<char> {
    "unsupported Restore execution contract argv version "@ + quoted(version) + "; expected "@
        + quoted(expected) + "; no data operation was started"@
}

/// The refusal of two versions that differ.
pub open spec fn two_versions_text(
    env: Seq<char>,
    told: Option<Seq<char>>,
    arg: Seq<char>,
    version: Seq<char>,
) -> Seq<char> {
    "Restore execution contract version mismatch: "@ + env + " carries "@ + quoted_option(told)
        + " but "@ + arg + " carries "@ + quoted(version) + "; no data operation was started"@
}

/// What the contract of an invocation comes to.
pub open spec fn invocation_is(
    r: Result<Option<ExecutionContract>, DrillError>,
    cli_version: Option<Seq<char>>,
    n: ContractNames,
    v: ContractValues,
) -> bool {
    match cli_version {
        None => if v.absent() {
            r matches Ok(None)
        } else {
            r matches Err(e) && e@ == ErrorModel::Guard(no_argument_text(n.version_arg@))
        },
        Some(cli) => if v.absent() {
            r matches Err(e) && e@ == ErrorModel::Guard(no_environment_text(n.version_arg@))
        } else if cli != n.version@ {
            r matches Err(e) && e@ == ErrorModel::Guard(argument_version_text(cli, n.version@))
        } else if told_version(v) != Some(cli) {
            r matches Err(e) && e@ == ErrorModel::Guard(
                two_versions_text(n.version_env@, told_version(v), n.version_arg@, cli),
            )
        } else {
            contract_is(r, n, v)
        },
    }
}

/// Reads the contract of an invocation: through the command line and the
/// environment both, in one version, or through neither.
pub fn execution_contract_for_invocation(
    cli_version: Option<&str>,
    n: &ContractNames,
    v: &ContractValues,
) -> (r: Result<Option<ExecutionContract>, DrillError>)
    ensures
        invocation_is(
            r,
            text_in(cli_version),
            *n,
            *v,
        ),
{
    let cli = match cli_version {
        None => {
            if v.is_absent() {
                return Ok(None);
            }
            let mut m = "incomplete Restore execution contract: ".to_owned();
            m.append(n.version_arg.as_str());
            m.append(
                " is missing while contract environment is present; no data operation was started",
            );
            return Err(refuse(m));
        },
        Some(cli) => cli,
    };
    if v.is_absent() {
        let mut m = "incomplete Restore execution contract: ".to_owned();
        m.append(n.version_arg.as_str());
        m.append(
            " was supplied without the required contract environment; no data operation was started",
        );
        return Err(refuse(m));
    }
    if cli.to_owned() != n.version {
        let mut m = "unsupported Restore execution contract argv version ".to_owned();
        m.append(quoted_text(cli).as_str());
        m.append("; expected ");
        m.append(quoted_text(n.version.as_str()).as_str());
        m.append("; no data operation was started");
        return Err(refuse(m));
    }
    let mut told: Option<&str> = None;
    if let Some(version) = &v.version {
        if !is_blank(version.as_str()) {
            told = Some(version.as_str());
        }
    }
    let agrees: bool = match told {
        Some(t) => t.to_owned() == cli.to_owned(),
        None => false,
    };
    if !agrees {
        let mut m = "Restore execution contract version mismatch: ".to_owned();
        m.append(n.version_env.as_str());
        m.append(" carries ");
        m.append(quoted_option_text(told).as_str());
        m.append(" but ");
        m.append(n.version_arg.as_str());
        m.append(" carries ");
        m.append(quoted_text(cli).as_str());
        m.append("; no data operation was started");
        return Err(refuse(m));
    }
    execution_contract_from(n, v)
}

/// A contract is pinned only where the command line and the environment carry
/// it both, complete and in the version that is understood.
pub proof fn a_contract_comes_whole(
    r: Result<Option<ExecutionContract>, DrillError>,
    cli_version: Option<Seq<char>>,
    n: ContractNames,
    v: ContractValues,
)
    requires
        invocation_is(r, cli_version, n, v),
        r matches Ok(_),
    ensures
        match r->Ok_0 {
            None => cli_version is None && v.absent(),
            Some(_) => cli_version == Some(n.version@) && told_version(v) == Some(n.version@)
                && first_missing(n, v) is None,
        },
{
}

/// Nothing of a contract is ever ignored: an invocation without one is refused
/// where any of it is in the environment.
pub proof fn a_stray_value_is_refused(
    r: Result<Option<ExecutionContract>, DrillError>,
    n: ContractNames,
    v: ContractValues,
)
    requires
        invocation_is(r, None, n, v),
        !v.absent(),
    ensures
        r matches Err(e) && e@ is Guard,
{
}

/// The bytes of a run's mounted inputs.
#[derive(Debug)]
pub struct ApprovalBundleBytes {
    pub plan: Vec<u8>,
    pub approval: Vec<u8>,
    pub approval_sidecar: Vec<u8>,
    pub approver_key: Vec<u8>,
    pub allowed_clusters: Vec<u8>,
}

/// The digests of a run's mounted inputs.
#[derive(Debug)]
pub struct BundleDigests {
    pub plan: String,
    pub approval: String,
    pub approval_sidecar: String,
    pub approver_key: String,
    pub allowed_clusters: String,
}

/// The refusal of a contract for anything but a restore.
pub open spec fn subject_text() -> Seq<char> {
    "the execution contract does not identify a logweir.dev/v1alpha1 Restore; no data operation was started"@
}

/// The refusal of a run that another approval triggered.
pub open spec fn trigger_text(approval: Seq<char>, triggered_by: Option<Seq<char>>) -> Seq<char> {
    "the execution contract names Approval "@ + approval + " but --triggered-by is "@
        + quoted_option(triggered_by) + "; no data operation was started"@
}

/// The refusal of an input that is not the pinned one.
pub open spec fn pin_text(label: Seq<char>, actual: Seq<char>, expected: Seq<char>) -> Seq<char> {
    "the mounted "@ + label + " bytes hash to "@ + actual + ", not the controller-pinned "@
        + expected + "; no data operation was started"@
}

/// The first input that is not the pinned one.
pub open spec fn first_swapped(c: ExecutionContract, d: BundleDigests) -> Option<Seq<char>> {
    if d.plan@ != c.plan_sha256@ {
        Some(pin_text("plan"@, d.plan@, c.plan_sha256@))
    } else if d.approval@ != c.approval_sha256@ {
        Some(pin_text("approval"@, d.approval@, c.approval_sha256@))
    } else if d.approval_sidecar@ != c.approval_sidecar_sha256@ {
        Some(pin_text("approval sidecar"@, d.approval_sidecar@, c.approval_sidecar_sha256@))
    } else if d.approver_key@ != c.approver_key_sha256@ {
        Some(pin_text("approver public key"@, d.approver_key@, c.approver_key_sha256@))
    } else if d.allowed_clusters@ != c.allowed_clusters_sha256@ {
        Some(pin_text("allowed-clusters"@, d.allowed_clusters@, c.allowed_clusters_sha256@))
    } else {
        None
    }
}

/// Why a run is not the one that its contract pins.
pub open spec fn contract_refusal(
    c: ExecutionContract,
    triggered_by: Option<Seq<char>>,
    d: BundleDigests,
) -> Option<Seq<char>> {
    if c.subject_api_version@ != "logweir.dev/v1alpha1"@ || c.subject_kind@ != "Restore"@ {
        Some(subject_text())
    } else if triggered_by != Some("approval/"@ + c.approval_name@) {
        Some(trigger_text(c.approval_name@, triggered_by))
    } else {
        first_swapped(c, d)
    }
}

/// Whether an input is the pinned one.
fn pinned(label: &str, actual: &String, expected: &String) -> (r: Result<(), DrillError>)
    ensures
        if actual@ == expected@ {
            r is Ok
        } else {
            r matches Err(e) && e@ == ErrorModel::Guard(pin_text(label@, actual@, expected@))
        },
{
    if *actual == *expected {
        return Ok(());
    }
    let mut m = "the mounted ".to_owned();
    m.append(label);
    m.append(" bytes hash to ");
    m.append(actual.as_str());
    m.append(", not the controller-pinned ");
    m.append(expected.as_str());
    m.append("; no data operation was started");
    Err(refuse(m))
}

/// Checks that a run is the one that its contract pins: a restore, triggered by
/// the approval that the contract names, with every mounted input of the pinned
/// digest.
pub fn validate_execution_contract(
    contract: &ExecutionContract,
    triggered_by: Option<&str>,
    digests: &BundleDigests,
) -> (r: Result<(), DrillError>)
    ensures
        match contract_refusal(
            *contract,
            text_in(triggered_by),
            *digests,
        ) {
            None => r is Ok,
            Some(why) => r matches Err(e) && e@ == ErrorModel::Guard(why),
        },
        r is Ok <==> {
            &&& contract.subject_api_version@ == "logweir.dev/v1alpha1"@
            &&& contract.subject_kind@ == "Restore"@
            &&& text_in(triggered_by) == Some("approval/"@ + contract.approval_name@)
            &&& digests.plan@ == contract.plan_sha256@
            &&& digests.approval@ == contract.approval_sha256@
            &&& digests.approval_sidecar@ == contract.approval_sidecar_sha256@
            &&& digests.approver_key@ == contract.approver_key_sha256@
            &&& digests.allowed_clusters@ == contract.allowed_clusters_sha256@
        },
{
    if contract.subject_api_version != "logweir.dev/v1alpha1".to_owned() || contract.subject_kind
        != "Restore".to_owned() {
        return Err(
            refuse(
                "the execution contract does not identify a logweir.dev/v1alpha1 Restore; no data operation was started".to_owned(),
            ),
        );
    }
    let mut expected = "approval/".to_owned();
    expected.append(contract.approval_name.as_str());
    let triggered: bool = match triggered_by {
        Some(t) => t.to_owned() == expected,
        None => false,
    };
    if !triggered {
        let mut m = "the execution contract names Approval ".to_owned();
        m.append(contract.approval_name.as_str());
        m.append(" but --triggered-by is ");
        m.append(quoted_option_text(triggered_by).as_str());
        m.append("; no data operation was started");
        return Err(refuse(m));
    }
    match pinned("plan", &digests.plan, &contract.plan_sha256) {
        Err(e) => {
            return Err(e);
        },
        Ok(_) => {},
    }
    match pinned("approval", &digests.approval, &contract.approval_sha256) {
        Err(e) => {
            return Err(e);
        },
        Ok(_) => {},
    }
    match pinned(
        "approval sidecar",
        &digests.approval_sidecar,
        &contract.approval_sidecar_sha256,
    ) {
        Err(e) => {
            return Err(e);
        },
        Ok(_) => {},
    }
    match pinned("approver public key", &digests.approver_key, &contract.approver_key_sha256) {
        Err(e) => {
            return Err(e);
        },
        Ok(_) => {},
    }
    pinned("allowed-clusters", &digests.allowed_clusters, &contract.allowed_clusters_sha256)
}

} // verus!
