//! What has to hold before a run touches anything: no client is made, and no
//! file is read as what it claims to be, before its gate is passed.
use vstd::prelude::*;
use vstd::utf8::{decode_utf8, valid_utf8};
use crate::drill::contract::{
    contract_refusal, execution_contract_for_invocation, invocation_is,
    validate_execution_contract, ApprovalBundleBytes, BundleDigests, ContractNames,
    ContractValues, ExecutionContract,
};
use crate::drill::error::{DrillError, ErrorModel, GuardRefusal};
use crate::drill::persist::copy_bytes;
use crate::drill::phase1_approval::Approved;
use crate::drill::step::Step;
use crate::encoding::{utf8_fault, utf8_text};
use crate::text::text_in;

verus! {

/// What a run is started with. Paths are as they were given.
#[derive(Debug)]
pub struct RunArgs {
    pub execution_contract_version: Option<String>,
    pub spec: String,
    pub approval: String,
    pub approver_key: String,
    pub allowed_clusters: String,
    pub signing_key: String,
    pub triggered_by: Option<String>,
    pub out: Option<String>,
    pub metrics_file: Option<String>,
    pub offset_report_out: Option<String>,
    /// The approvers that are accepted; any, where there is none.
    pub approver_key_ids: Vec<String>,
}

/// The texts that a run goes by, and the approval of the plan among them.
#[derive(Debug)]
pub struct StartupInputs {
    pub spec_text: String,
    pub allowed_text: String,
    pub approved: Approved,
}

/// Where a start stands, named by what is done next.
#[derive(Debug)]
#[allow(inconsistent_fields)]
pub enum Gate {
    /// Check the passwords in the environment.
    Credentials { contract: Option<ExecutionContract> },
    /// Check the approver's key against the pinned set.
    PinnedKey { contract: Option<ExecutionContract> },
    /// Load the signing key, and try it.
    Signer { contract: Option<ExecutionContract> },
    /// Read the mounted inputs, each once.
    Bundle { contract: Option<ExecutionContract> },
    /// Take the digests of the mounted inputs.
    Digests { contract: ExecutionContract, bundle: ApprovalBundleBytes },
    /// Check the approver's key that was read against the pinned set.
    PinnedBytes { bundle: ApprovalBundleBytes },
    /// Verify the approval.
    Approval { bundle: ApprovalBundleBytes, spec_text: String, allowed_text: String },
    /// Parse the plan.
    Parse { inputs: StartupInputs },
    /// The run may make its clients, and may tell whom the plan names.
    Open { inputs: StartupInputs },
    /// The run does not start.
    Refused(DrillError),
}

/// The run does not start, for that reason.
pub open spec fn turned_away(g: Gate, e: ErrorModel) -> bool {
    g matches Gate::Refused(d) && d@ == e
}

/// Starts with the contract of the invocation.
pub fn start(cli_version: Option<&str>, n: &ContractNames, v: &ContractValues) -> (g: Gate)
    ensures
        exists|r: Result<Option<ExecutionContract>, DrillError>|
            {
                &&& #[trigger] invocation_is(
                    r,
                    text_in(cli_version),
                    *n,
                    *v,
                )
                &&& match r {
                    Err(e) => turned_away(g, e@),
                    Ok(contract) => g == (Gate::Credentials { contract }),
                }
            },
{
    match execution_contract_for_invocation(cli_version, n, v) {
        Err(e) => Gate::Refused(e),
        Ok(contract) => Gate::Credentials { contract },
    }
}

/// The passwords were checked.
pub fn credentials_checked(contract: Option<ExecutionContract>, r: Result<(), GuardRefusal>) -> (g:
    Gate)
    ensures
        match r {
            Err(refusal) => turned_away(g, ErrorModel::Guard(refusal.0@)),
            Ok(_) => g == (Gate::PinnedKey { contract }),
        },
{
    match r {
        Err(refusal) => Gate::Refused(DrillError::Guard(refusal)),
        Ok(_) => Gate::PinnedKey { contract },
    }
}

/// The approver's key was checked against the pinned set.
pub fn key_checked(contract: Option<ExecutionContract>, r: Result<(), DrillError>) -> (g: Gate)
    ensures
        match r {
            Err(e) => turned_away(g, e@),
            Ok(_) => g == (Gate::Signer { contract }),
        },
{
    match r {
        Err(e) => Gate::Refused(e),
        Ok(_) => Gate::Signer { contract },
    }
}

/// The signing key was tried.
pub fn signer_loaded(contract: Option<ExecutionContract>, r: Result<(), String>) -> (g: Gate)
    ensures
        match r {
            Err(why) => turned_away(g, ErrorModel::SigningPrerequisite(why@)),
            Ok(_) => g == (Gate::Bundle { contract }),
        },
{
    match r {
        Err(why) => Gate::Refused(DrillError::SigningPrerequisite(why)),
        Ok(_) => Gate::Bundle { contract },
    }
}

/// The mounted inputs, in the order in which they are read.
#[derive(Debug, Clone, Copy, PartialEq, Eq, Structural)]
pub enum MountedInput {
    Plan,
    Approval,
    ApprovalSidecar,
    ApproverKey,
    AllowedClusters,
}

/// What an input is called where it cannot be read.
pub open spec fn label_of(input: MountedInput) -> Seq<char> {
    match input {
        MountedInput::Plan => "restore plan"@,
        MountedInput::Approval => "approval"@,
        MountedInput::ApprovalSidecar => "approval sidecar"@,
        MountedInput::ApproverKey => "approver public key"@,
        MountedInput::AllowedClusters => "allowed-clusters"@,
    }
}

/// What is read of one input: its path, and its bytes once they were asked for.
#[derive(Debug)]
pub struct MountedRead {
    pub path: String,
    pub bytes: Option<Result<Vec<u8>, String>>,
}

/// What has been read of the mounted inputs.
#[derive(Debug)]
pub struct MountedReads {
    pub plan: MountedRead,
    pub approval: MountedRead,
    pub approval_sidecar: MountedRead,
    pub approver_key: MountedRead,
    pub allowed_clusters: MountedRead,
}

/// The step that an input calls for, where its bytes are not there.
pub open spec fn unread(input: MountedInput, read: MountedRead) -> Option<
    Result<MountedInput, Seq<char>>,
> {
    match read.bytes {
        None => Some(Ok(input)),
        Some(Err(why)) => Some(Err(label_of(input) + " "@ + read.path@ + ": "@ + why@)),
        Some(Ok(_)) => None,
    }
}

/// The first step that the inputs call for, where bytes are not there.
pub open spec fn first_unread(m: MountedReads) -> Option<Result<MountedInput, Seq<char>>> {
    if let Some(s) = unread(MountedInput::Plan, m.plan) {
        Some(s)
    } else if let Some(s) = unread(MountedInput::Approval, m.approval) {
        Some(s)
    } else if let Some(s) = unread(MountedInput::ApprovalSidecar, m.approval_sidecar) {
        Some(s)
    } else if let Some(s) = unread(MountedInput::ApproverKey, m.approver_key) {
        Some(s)
    } else {
        unread(MountedInput::AllowedClusters, m.allowed_clusters)
    }
}

/// The bytes that were read of an input.
pub open spec fn bytes_in(read: MountedRead) -> Seq<u8> {
    read.bytes->0->Ok_0@
}

/// Takes the bytes of an input, where they are there.
fn bytes_of(input: MountedInput, read: &MountedRead) -> (r: Result<
    Vec<u8>,
    Step<MountedInput, String>,
>)
    ensures
        match (r, unread(input, *read)) {
            (Ok(bytes), None) => bytes@ == bytes_in(*read),
            (Err(Step::Ask(i)), Some(Ok(j))) => i == j,
            (Err(Step::Done(why)), Some(Err(text))) => why@ == text,
            _ => false,
        },
{
    match &read.bytes {
        None => Err(Step::Ask(input)),
        Some(Ok(bytes)) => Ok(copy_bytes(bytes)),
        Some(Err(why)) => {
            let mut m = match input {
                MountedInput::Plan => "restore plan".to_owned(),
                MountedInput::Approval => "approval".to_owned(),
                MountedInput::ApprovalSidecar => "approval sidecar".to_owned(),
                MountedInput::ApproverKey => "approver public key".to_owned(),
                MountedInput::AllowedClusters => "allowed-clusters".to_owned(),
            };
            m.append(" ");
            m.append(read.path.as_str());
            m.append(": ");
            m.append(why.as_str());
            Err(Step::Done(m))
        },
    }
}

/// What an input that is not there comes to.
fn not_there(s: Step<MountedInput, String>) -> (r: Step<
    MountedInput,
    Result<ApprovalBundleBytes, String>,
>)
    ensures
        match s {
            Step::Ask(i) => r == Step::<MountedInput, Result<ApprovalBundleBytes, String>>::Ask(i),
            Step::Done(why) => r == Step::<
                MountedInput,
                Result<ApprovalBundleBytes, String>,
            >::Done(Err(why)),
        },
{
    match s {
        Step::Ask(i) => Step::Ask(i),
        Step::Done(why) => Step::Done(Err(why)),
    }
}

/// Reads the mounted inputs, each once, from what has been read so far.
pub fn load_startup_inputs(m: &MountedReads) -> (r: Step<
    MountedInput,
    Result<ApprovalBundleBytes, String>,
>)
    ensures
        match first_unread(*m) {
            Some(Ok(input)) => r matches Step::Ask(i) && i == input,
            Some(Err(why)) => r matches Step::Done(Err(e)) && e@ == why,
            None => {
                &&& r matches Step::Done(Ok(bundle))
                &&& bundle.plan@ == bytes_in(m.plan)
                &&& bundle.approval@ == bytes_in(m.approval)
                &&& bundle.approval_sidecar@ == bytes_in(m.approval_sidecar)
                &&& bundle.approver_key@ == bytes_in(m.approver_key)
                &&& bundle.allowed_clusters@ == bytes_in(m.allowed_clusters)
            },
        },
        (r matches Step::Done(Ok(_))) <==> {
            &&& m.plan.bytes matches Some(Ok(_))
            &&& m.approval.bytes matches Some(Ok(_))
            &&& m.approval_sidecar.bytes matches Some(Ok(_))
            &&& m.approver_key.bytes matches Some(Ok(_))
            &&& m.allowed_clusters.bytes matches Some(Ok(_))
        },
        r matches Step::Done(Ok(bundle)) ==> {
            &&& m.plan.bytes matches Some(Ok(bytes)) && bundle.plan@ == bytes@
            &&& m.approval.bytes matches Some(Ok(bytes)) && bundle.approval@ == bytes@
            &&& m.approval_sidecar.bytes matches Some(Ok(bytes)) && bundle.approval_sidecar@
                == bytes@
            &&& m.approver_key.bytes matches Some(Ok(bytes)) && bundle.approver_key@ == bytes@
            &&& m.allowed_clusters.bytes matches Some(Ok(bytes)) && bundle.allowed_clusters@
                == bytes@
        },
{
    let plan = match bytes_of(MountedInput::Plan, &m.plan) {
        Err(s) => {
            return not_there(s);
        },
        Ok(bytes) => bytes,
    };
    let approval = match bytes_of(MountedInput::Approval, &m.approval) {
        Err(s) => {
            return not_there(s);
        },
        Ok(bytes) => bytes,
    };
    let approval_sidecar = match bytes_of(MountedInput::ApprovalSidecar, &m.approval_sidecar) {
        Err(s) => {
            return not_there(s);
        },
        Ok(bytes) => bytes,
    };
    let approver_key = match bytes_of(MountedInput::ApproverKey, &m.approver_key) {
        Err(s) => {
            return not_there(s);
        },
        Ok(bytes) => bytes,
    };
    let allowed_clusters = match bytes_of(MountedInput::AllowedClusters, &m.allowed_clusters) {
        Err(s) => {
            return not_there(s);
        },
        Ok(bytes) => bytes,
    };
    Step::Done(
        Ok(
            ApprovalBundleBytes {
                plan,
                approval,
                approval_sidecar,
                approver_key,
                allowed_clusters,
            },
        ),
    )
}

/// The mounted inputs were read. Under a contract their digests come next, and
/// without one the pinned approvers.
pub fn bundle_read(contract: Option<ExecutionContract>, r: Result<ApprovalBundleBytes, String>) -> (
g: Gate)
    ensures
        match r {
            Err(why) => turned_away(g, ErrorModel::Operational(why@)),
            Ok(bundle) => match contract {
                Some(c) => g == (Gate::Digests { contract: c, bundle }),
                None => g == (Gate::PinnedBytes { bundle }),
            },
        },
{
    match r {
        Err(why) => Gate::Refused(DrillError::Operational(why)),
        Ok(bundle) => match contract {
            Some(contract) => Gate::Digests { contract, bundle },
            None => Gate::PinnedBytes { bundle },
        },
    }
}

/// The digests of the mounted inputs were taken.
pub fn digests_taken(
    contract: &ExecutionContract,
    bundle: ApprovalBundleBytes,
    triggered_by: Option<&str>,
    digests: &BundleDigests,
) -> (g: Gate)
    ensures
        match contract_refusal(
            *contract,
            text_in(triggered_by),
            *digests,
        ) {
            Some(why) => turned_away(g, ErrorModel::Guard(why)),
            None => g == (Gate::PinnedBytes { bundle }),
        },
        g matches Gate::PinnedBytes { bundle: b } ==> {
            &&& b == bundle
            &&& digests.plan@ == contract.plan_sha256@
            &&& digests.approval@ == contract.approval_sha256@
            &&& digests.approval_sidecar@ == contract.approval_sidecar_sha256@
            &&& digests.approver_key@ == contract.approver_key_sha256@
            &&& digests.allowed_clusters@ == contract.allowed_clusters_sha256@
        },
{
    match validate_execution_contract(contract, triggered_by, digests) {
        Err(e) => Gate::Refused(e),
        Ok(_) => Gate::PinnedBytes { bundle },
    }
}

/// The approver's key that was read was checked against the pinned set. The
/// plan and the list of clusters have to be texts.
pub fn key_bytes_checked(bundle: ApprovalBundleBytes, r: Result<(), DrillError>) -> (g: Gate)
    ensures
        match r {
            Err(e) => turned_away(g, e@),
            Ok(_) => if !valid_utf8(bundle.plan@) {
                turned_away(
                    g,
                    ErrorModel::Operational("restore plan is not UTF-8: "@ + utf8_fault(
                        bundle.plan@,
                    )),
                )
            } else if !valid_utf8(bundle.allowed_clusters@) {
                turned_away(
                    g,
                    ErrorModel::Operational("allowed-clusters is not UTF-8: "@ + utf8_fault(
                        bundle.allowed_clusters@,
                    )),
                )
            } else {
                &&& g matches Gate::Approval { bundle: b, spec_text, allowed_text }
                &&& b == bundle
                &&& spec_text@ == decode_utf8(bundle.plan@)
                &&& allowed_text@ == decode_utf8(bundle.allowed_clusters@)
            },
        },
{
    match r {
        Err(e) => {
            return Gate::Refused(e);
        },
        Ok(_) => {},
    }
    let spec_text = match utf8_text(&bundle.plan) {
        Err(why) => {
            let mut m = "restore plan is not UTF-8: ".to_owned();
            m.append(why.as_str());
            return Gate::Refused(DrillError::Operational(m));
        },
        Ok(s) => s,
    };
    match utf8_text(&bundle.allowed_clusters) {
        Err(why) => {
            let mut m = "allowed-clusters is not UTF-8: ".to_owned();
            m.append(why.as_str());
            Gate::Refused(DrillError::Operational(m))
        },
        Ok(allowed_text) => Gate::Approval { bundle, spec_text, allowed_text },
    }
}

/// The approval was verified.
pub fn approval_checked(spec_text: String, allowed_text: String, r: Result<Approved, DrillError>) -> (
g: Gate)
    ensures
        match r {
            Err(e) => turned_away(g, e@),
            Ok(approved) => g == (Gate::Parse {
                inputs: StartupInputs { spec_text, allowed_text, approved },
            }),
        },
{
    match r {
        Err(e) => Gate::Refused(e),
        Ok(approved) => Gate::Parse {
            inputs: StartupInputs { spec_text, allowed_text, approved },
        },
    }
}

/// The plan was parsed. Only then is it known whom to tell of a failure.
pub fn plan_parsed(inputs: StartupInputs, r: Result<(), String>) -> (g: Gate)
    ensures
        match r {
            Err(why) => turned_away(
                g,
                ErrorModel::Operational("drill spec does not parse: "@ + why@),
            ),
            Ok(_) => g == (Gate::Open { inputs }),
        },
{
    match r {
        Err(why) => {
            let mut m = "drill spec does not parse: ".to_owned();
            m.append(why.as_str());
            Gate::Refused(DrillError::Operational(m))
        },
        Ok(_) => Gate::Open { inputs },
    }
}

} // verus!
