//! Handing the installation's identity on to another namespace.
//!
//! The target gets the source's key or none: whatever stands there already is
//! kept, and refused where it is another one.
use vstd::prelude::*;
use vstd::utf8::encode_utf8;
use crate::drill::step::Step;
use crate::encoding::base64_of;
use crate::identity::bootstrap::{
    contention_error, contention_text, inspect, material_of, no_key_text,
    InitializeResult, Inspected, Origin, Outcome,
};
use crate::identity::records::{
    data_added, patch_model, private_initialization_patch, says, state_added, text_says,
    version_test, PatchOp, PrivateRecord, PublicMaterial,
};

verus! {

/// What hands an identity on.
#[derive(Debug)]
pub struct DistributeArgs {
    pub source_namespace: String,
    pub target_namespace: String,
    pub secret_name: String,
    pub secret_key: String,
}

/// What was answered so far.
#[derive(Debug)]
pub struct DistributeReads {
    pub source: Option<Result<PrivateRecord, String>>,
    pub source_key: Option<Inspected>,
    pub target: Option<Result<PrivateRecord, String>>,
    pub target_key: Option<Inspected>,
    pub target_written: Option<Result<InitializeResult, String>>,
    /// The target after a contended write.
    pub winner: Option<Result<PrivateRecord, String>>,
    pub winner_key: Option<Inspected>,
}

/// What is needed next.
#[derive(Debug)]
pub enum DistributeQuestion {
    ReadSource,
    /// Look at that private key.
    InspectSource(String),
    ReadTarget,
    /// Look at that private key.
    InspectTarget(String),
    /// Apply that patch to the target.
    WriteTarget(Vec<PatchOp>),
    ReadWinner,
    /// Look at that private key.
    InspectWinner(String),
}

/// What a distribution came to so far.
pub type DistributeStep = Step<DistributeQuestion, Result<Outcome, String>>;

/// The refusal to hand on an identity that is not there.
pub open spec fn no_source_text(namespace: Seq<char>, name: Seq<char>) -> Seq<char> {
    "source signing Secret "@ + namespace + "/"@ + name
        + " is not established; let the primary identity bootstrap finish before distribution"@
}

/// The refusal to replace another key.
pub open spec fn other_signer_text(
    namespace: Seq<char>,
    there: Seq<char>,
    ours: Seq<char>,
) -> Seq<char> {
    "target namespace "@ + namespace + " already contains a different signer "@ + there
        + "; restore the installation signer "@ + ours
        + " there—distribution never overwrites an established identity"@
}

/// The refusal to complete what something else began.
pub open spec fn incomplete_text(namespace: Seq<char>) -> Seq<char> {
    "target namespace "@ + namespace
        + " has an incomplete retained signing Secret; restore the installation identity there before retrying"@
}

/// What is wrong with a winner that is not established.
pub open spec fn no_winner_text(namespace: Seq<char>) -> Seq<char> {
    "target signing Secret in namespace "@ + namespace
        + " did not contain an established concurrent winner"@
}

/// What is wrong with a winner that holds no key.
pub open spec fn no_winner_key_text(namespace: Seq<char>) -> Seq<char> {
    "target signing Secret in namespace "@ + namespace + " still contains no key"@
}

/// What is wrong with a winner that holds another key.
pub open spec fn other_winner_text(
    namespace: Seq<char>,
    there: Seq<char>,
    ours: Seq<char>,
) -> Seq<char> {
    "target namespace "@ + namespace + " concurrently established a different signer "@ + there
        + "; refusing to replace it with installation identity "@ + ours
}

/// The distribution fails with that.
pub open spec fn refuses(r: DistributeStep, why: Seq<char>) -> bool {
    r matches Step::Done(Err(e)) && e@ == why
}

/// The distribution ends with that identity.
pub open spec fn hands_on(r: DistributeStep, m: PublicMaterial, origin: Origin) -> bool {
    r matches Step::Done(Ok(o)) && o.key_id@ == m.key_id@ && o.origin == origin
}

/// The next step where someone else wrote the target first.
pub open spec fn target_contended_is(
    r: DistributeStep,
    args: DistributeArgs,
    status: u16,
    m: PublicMaterial,
    reads: DistributeReads,
) -> bool {
    match reads.winner {
        None => r matches Step::Ask(DistributeQuestion::ReadWinner),
        Some(Err(e)) => refuses(r, contention_text(status, e@)),
        Some(Ok(winner)) => if !says(winner.state, "established"@) {
            refuses(r, contention_text(status, no_winner_text(args.target_namespace@)))
        } else {
            match winner.pem {
                None => refuses(
                    r,
                    contention_text(status, no_winner_key_text(args.target_namespace@)),
                ),
                Some(pem) => match reads.winner_key {
                    None => r matches Step::Ask(DistributeQuestion::InspectWinner(p)) && p@ == pem@,
                    Some(Inspected::NotAKey) => refuses(
                        r,
                        contention_text(status, no_key_text("concurrent target runner signer"@)),
                    ),
                    Some(Inspected::Key(Err(why))) => refuses(r, why@),
                    Some(Inspected::Key(Ok(w))) => if w.key_id@ != m.key_id@ {
                        refuses(
                            r,
                            contention_text(
                                status,
                                other_winner_text(args.target_namespace@, w.key_id@, m.key_id@),
                            ),
                        )
                    } else {
                        hands_on(r, m, Origin::ConcurrentWinner(status))
                    },
                },
            }
        },
    }
}

/// The next step once the source's key is known.
pub open spec fn target_is(
    r: DistributeStep,
    args: DistributeArgs,
    pem: Seq<char>,
    m: PublicMaterial,
    reads: DistributeReads,
) -> bool {
    match reads.target {
        None => r matches Step::Ask(DistributeQuestion::ReadTarget),
        Some(Err(e)) => refuses(r, e@),
        Some(Ok(target)) => match target.pem {
            Some(there) => match reads.target_key {
                None => r matches Step::Ask(DistributeQuestion::InspectTarget(p)) && p@ == there@,
                Some(k) => match material_of(k, "target runner signing Secret"@) {
                    Err(why) => refuses(r, why),
                    Ok(t) => if t.key_id@ != m.key_id@ {
                        refuses(r, other_signer_text(args.target_namespace@, t.key_id@, m.key_id@))
                    } else {
                        hands_on(r, m, Origin::Existing)
                    },
                },
            },
            None => if target.has_any_data || says(target.state, "established"@) {
                refuses(r, incomplete_text(args.target_namespace@))
            } else {
                match reads.target_written {
                    None => r matches Step::Ask(DistributeQuestion::WriteTarget(patch))
                        && patch_model(patch@) == seq![
                        version_test(target.resource_version@),
                        data_added(seq![(args.secret_key@, base64_of(encode_utf8(pem)))]),
                        state_added(target.has_annotations),
                    ],
                    Some(Err(e)) => refuses(r, e@),
                    Some(Ok(InitializeResult::Written)) => hands_on(r, m, Origin::Adopted),
                    Some(Ok(InitializeResult::Contended(status))) => target_contended_is(
                        r,
                        args,
                        status,
                        m,
                        reads,
                    ),
                }
            },
        },
    }
}

/// The next step of handing the identity on.
pub open spec fn distribute_is(
    r: DistributeStep,
    args: DistributeArgs,
    reads: DistributeReads,
) -> bool {
    match reads.source {
        None => r matches Step::Ask(DistributeQuestion::ReadSource),
        Some(Err(e)) => refuses(r, e@),
        Some(Ok(source)) => match source.pem {
            None => refuses(r, no_source_text(args.source_namespace@, args.secret_name@)),
            Some(pem) => match reads.source_key {
                None => r matches Step::Ask(DistributeQuestion::InspectSource(p)) && p@ == pem@,
                Some(k) => match material_of(k, "source installation signing Secret"@) {
                    Err(why) => refuses(r, why),
                    Ok(m) => target_is(r, args, pem@, m, reads),
                },
            },
        },
    }
}

/// The next step where someone else wrote the target first.
fn accept_target_winner(
    args: &DistributeArgs,
    status: u16,
    m: &PublicMaterial,
    reads: &DistributeReads,
) -> (r: DistributeStep)
    ensures
        target_contended_is(r, *args, status, *m, *reads),
{
    let winner = match &reads.winner {
        None => {
            return Step::Ask(DistributeQuestion::ReadWinner);
        },
        Some(Err(e)) => {
            return Step::Done(Err(contention_error(status, e.as_str())));
        },
        Some(Ok(winner)) => winner,
    };
    if !text_says(&winner.state, "established") {
        let mut why = "target signing Secret in namespace ".to_owned();
        why.append(args.target_namespace.as_str());
        why.append(" did not contain an established concurrent winner");
        return Step::Done(Err(contention_error(status, why.as_str())));
    }
    let pem = match &winner.pem {
        None => {
            let mut why = "target signing Secret in namespace ".to_owned();
            why.append(args.target_namespace.as_str());
            why.append(" still contains no key");
            return Step::Done(Err(contention_error(status, why.as_str())));
        },
        Some(pem) => pem,
    };
    let w = match &reads.winner_key {
        None => {
            return Step::Ask(DistributeQuestion::InspectWinner(pem.clone()));
        },
        Some(k) => match (k, inspect(k, "concurrent target runner signer")) {
            (Inspected::NotAKey, Err(e)) => {
                return Step::Done(Err(contention_error(status, e.as_str())));
            },
            (_, Err(e)) => {
                return Step::Done(Err(e));
            },
            (_, Ok(w)) => w,
        },
    };
    if w.key_id != m.key_id {
        let mut why = "target namespace ".to_owned();
        why.append(args.target_namespace.as_str());
        why.append(" concurrently established a different signer ");
        why.append(w.key_id.as_str());
        why.append("; refusing to replace it with installation identity ");
        why.append(m.key_id.as_str());
        return Step::Done(Err(contention_error(status, why.as_str())));
    }
    Step::Done(Ok(Outcome { key_id: m.key_id.clone(), origin: Origin::ConcurrentWinner(status) }))
}

/// The next step once the source's key is known.
fn fill_target(
    args: &DistributeArgs,
    pem: &String,
    m: &PublicMaterial,
    reads: &DistributeReads,
) -> (r: DistributeStep)
    ensures
        target_is(r, *args, pem@, *m, *reads),
{
    let target = match &reads.target {
        None => {
            return Step::Ask(DistributeQuestion::ReadTarget);
        },
        Some(Err(e)) => {
            return Step::Done(Err(e.clone()));
        },
        Some(Ok(target)) => target,
    };
    if let Some(there) = &target.pem {
        let t = match &reads.target_key {
            None => {
                return Step::Ask(DistributeQuestion::InspectTarget(there.clone()));
            },
            Some(k) => match inspect(k, "target runner signing Secret") {
                Err(e) => {
                    return Step::Done(Err(e));
                },
                Ok(t) => t,
            },
        };
        if t.key_id != m.key_id {
            let mut why = "target namespace ".to_owned();
            why.append(args.target_namespace.as_str());
            why.append(" already contains a different signer ");
            why.append(t.key_id.as_str());
            why.append("; restore the installation signer ");
            why.append(m.key_id.as_str());
            why.append(" there—distribution never overwrites an established identity");
            return Step::Done(Err(why));
        }
        return Step::Done(Ok(Outcome { key_id: m.key_id.clone(), origin: Origin::Existing }));
    }
    if target.has_any_data || text_says(&target.state, "established") {
        let mut why = "target namespace ".to_owned();
        why.append(args.target_namespace.as_str());
        why.append(
            " has an incomplete retained signing Secret; restore the installation identity there before retrying",
        );
        return Step::Done(Err(why));
    }
    match &reads.target_written {
        None => Step::Ask(
            DistributeQuestion::WriteTarget(
                private_initialization_patch(
                    target.resource_version.as_str(),
                    target.has_annotations,
                    args.secret_key.as_str(),
                    pem.as_str(),
                ),
            ),
        ),
        Some(Err(e)) => Step::Done(Err(e.clone())),
        Some(Ok(InitializeResult::Written)) => Step::Done(
            Ok(Outcome { key_id: m.key_id.clone(), origin: Origin::Adopted }),
        ),
        Some(Ok(InitializeResult::Contended(status))) => accept_target_winner(
            args,
            *status,
            m,
            reads,
        ),
    }
}

/// The next step of handing the identity on.
pub fn distribute(args: &DistributeArgs, reads: &DistributeReads) -> (r: DistributeStep)
    ensures
        distribute_is(r, *args, *reads),
{
    let source = match &reads.source {
        None => {
            return Step::Ask(DistributeQuestion::ReadSource);
        },
        Some(Err(e)) => {
            return Step::Done(Err(e.clone()));
        },
        Some(Ok(source)) => source,
    };
    let pem = match &source.pem {
        None => {
            let mut why = "source signing Secret ".to_owned();
            why.append(args.source_namespace.as_str());
            why.append("/");
            why.append(args.secret_name.as_str());
            why.append(
                " is not established; let the primary identity bootstrap finish before distribution",
            );
            return Step::Done(Err(why));
        },
        Some(pem) => pem,
    };
    match &reads.source_key {
        None => Step::Ask(DistributeQuestion::InspectSource(pem.clone())),
        Some(k) => match inspect(k, "source installation signing Secret") {
            Err(e) => Step::Done(Err(e)),
            Ok(m) => fill_target(args, pem, &m, reads),
        },
    }
}

// ---- what follows for every distribution -------------------------------------------------

/// The target is written only where it holds no key, nothing else, and no mark
/// that it ever held one; what is written is the source's key, and only at the
/// version that was read.
pub proof fn a_target_is_never_overwritten(
    r: DistributeStep,
    args: DistributeArgs,
    reads: DistributeReads,
)
    requires
        distribute_is(r, args, reads),
        r matches Step::Ask(DistributeQuestion::WriteTarget(_)),
    ensures
        ({
            let patch = patch_model(r->Ask_0->WriteTarget_0@);
            let pem = reads.source->0->Ok_0.pem;
            &&& reads.target matches Some(Ok(target))
            &&& target.pem is None
            &&& !target.has_any_data
            &&& !says(target.state, "established"@)
            &&& pem is Some
            &&& patch[0] == version_test(target.resource_version@)
            &&& patch[1] == data_added(
                seq![(args.secret_key@, base64_of(encode_utf8(pem->0@)))],
            )
        }),
{
}

/// Where a distribution ends well, the target's identity is the source's.
pub proof fn both_namespaces_sign_alike(
    r: DistributeStep,
    args: DistributeArgs,
    reads: DistributeReads,
)
    requires
        distribute_is(r, args, reads),
        r matches Step::Done(Ok(_)),
    ensures
        reads.source_key matches Some(Inspected::Key(Ok(m))) && r->Done_0->Ok_0.key_id@ == m.key_id@
            && match r->Done_0->Ok_0.origin {
            Origin::Existing => reads.target_key matches Some(Inspected::Key(Ok(t))) && t.key_id@
                == m.key_id@,
            Origin::ConcurrentWinner(status) => reads.target_written == Some(
                Ok::<InitializeResult, String>(InitializeResult::Contended(status)),
            ) && (reads.winner_key matches Some(Inspected::Key(Ok(w))) && w.key_id@ == m.key_id@),
            _ => reads.target_written == Some(
                Ok::<InitializeResult, String>(InitializeResult::Written),
            ),
        },
{
}

/// Nothing that a distribution reports depends on the text of the key that it
/// hands on: two distributions that differ in nothing else report the same.
pub proof fn a_report_hides_the_key(
    r: DistributeStep,
    s: DistributeStep,
    args: DistributeArgs,
    reads: DistributeReads,
    other: String,
)
    requires
        reads.source matches Some(Ok(source)) && source.pem is Some,
        distribute_is(r, args, reads),
        distribute_is(
            s,
            args,
            DistributeReads {
                source: Some(Ok(PrivateRecord { pem: Some(other), ..reads.source->0->Ok_0 })),
                ..reads
            },
        ),
    ensures
        r matches Step::Done(Err(e)) ==> (s matches Step::Done(Err(f)) && f@ == e@),
        r matches Step::Done(Ok(a)) ==> (s matches Step::Done(Ok(b)) && b.key_id@ == a.key_id@
            && b.origin == a.origin),
{
}

} // verus!
