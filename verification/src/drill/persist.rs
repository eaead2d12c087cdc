//! Storing a signed document beside the scorecard.
use vstd::prelude::*;
use crate::drill::error::{DrillError, ErrorModel};
use crate::drill::step::Step;

verus! {

/// The key of an object of a run's evidence.
pub open spec fn evidence_key(run_id: Seq<char>, ending: Seq<char>) -> Seq<char> {
    "logweir/drills/"@ + run_id + ending
}

/// The key of an object of a run's evidence.
pub fn key_for(run_id: &str, ending: &str) -> (r: String)
    ensures
        r@ == evidence_key(run_id@, ending@),
{
    let mut s = "logweir/drills/".to_owned();
    s.append(run_id);
    s.append(ending);
    s
}

/// Copies bytes.
pub fn copy_bytes(bytes: &Vec<u8>) -> (r: Vec<u8>)
    ensures
        r@ == bytes@,
{
    let mut out: Vec<u8> = Vec::new();
    let mut i: usize = 0;
    while i < bytes.len()
        invariant
            0 <= i <= bytes.len(),
            out@ == bytes@.take(i as int),
        decreases bytes.len() - i,
    {
        out.push(bytes[i]);
        i += 1;
        proof {
            assert(bytes@.take(i as int) =~= bytes@.take(i - 1).push(bytes@[i - 1]));
        }
    }
    proof {
        assert(bytes@.take(bytes.len() as int) =~= bytes@);
    }
    out
}

/// What was answered so far while storing a document.
#[derive(Debug)]
pub struct PersistReads {
    /// The document's bytes.
    pub document: Option<Result<Vec<u8>, String>>,
    /// The bytes of the signature over them.
    pub sidecar: Option<Result<Vec<u8>, String>>,
    pub document_put: Option<Result<(), String>>,
    pub sidecar_put: Option<Result<(), String>>,
}

/// What is needed next to store a document.
#[derive(Debug)]
pub enum PersistQuestion {
    /// The document's bytes.
    Serialise,
    /// A signature over those bytes.
    Sign(Vec<u8>),
    /// That those bytes are put at that key, where nothing is yet.
    Put { key: String, bytes: Vec<u8> },
}

/// What is needed next to store a document.
#[verifier::ext_equal]
pub ghost enum PersistAsk {
    Serialise,
    Sign(Seq<u8>),
    Put { key: Seq<char>, bytes: Seq<u8> },
}

impl View for PersistQuestion {
    type V = PersistAsk;

    open spec fn view(&self) -> PersistAsk {
        match self {
            PersistQuestion::Serialise => PersistAsk::Serialise,
            PersistQuestion::Sign(b) => PersistAsk::Sign(b@),
            PersistQuestion::Put { key, bytes } => PersistAsk::Put { key: key@, bytes: bytes@ },
        }
    }
}

/// The next step of storing a document of a run under two endings.
pub open spec fn persist_step(
    run_id: Seq<char>,
    document_ending: Seq<char>,
    sidecar_ending: Seq<char>,
    reads: PersistReads,
) -> Step<PersistAsk, Result<(), ErrorModel>> {
    match reads.document {
        None => Step::Ask(PersistAsk::Serialise),
        Some(Err(e)) => Step::Done(Err(ErrorModel::SigningOrLock(e@))),
        Some(Ok(document)) => match reads.sidecar {
            None => Step::Ask(PersistAsk::Sign(document@)),
            Some(Err(e)) => Step::Done(Err(ErrorModel::SigningOrLock(e@))),
            Some(Ok(sidecar)) => match reads.document_put {
                None => Step::Ask(
                    PersistAsk::Put {
                        key: evidence_key(run_id, document_ending),
                        bytes: document@,
                    },
                ),
                Some(Err(e)) => Step::Done(Err(ErrorModel::SigningOrLock(e@))),
                Some(Ok(_)) => match reads.sidecar_put {
                    None => Step::Ask(
                        PersistAsk::Put {
                            key: evidence_key(run_id, sidecar_ending),
                            bytes: sidecar@,
                        },
                    ),
                    Some(Err(e)) => Step::Done(Err(ErrorModel::SigningOrLock(e@))),
                    Some(Ok(_)) => Step::Done(Ok(())),
                },
            },
        },
    }
}

/// Two steps say the same.
pub open spec fn persist_agrees(
    r: Step<PersistQuestion, Result<(), DrillError>>,
    m: Step<PersistAsk, Result<(), ErrorModel>>,
) -> bool {
    match r {
        Step::Ask(q) => m == Step::<PersistAsk, Result<(), ErrorModel>>::Ask(q@),
        Step::Done(Ok(_)) => m matches Step::Done(Ok(_)),
        Step::Done(Err(e)) => m == Step::<PersistAsk, Result<(), ErrorModel>>::Done(Err(e@)),
    }
}

/// The next step of storing a document of a run under two endings.
pub fn persist(
    run_id: &str,
    document_ending: &str,
    sidecar_ending: &str,
    reads: &PersistReads,
) -> (r: Step<PersistQuestion, Result<(), DrillError>>)
    ensures
        persist_agrees(r, persist_step(run_id@, document_ending@, sidecar_ending@, *reads)),
{
    let document = match &reads.document {
        None => {
            return Step::Ask(PersistQuestion::Serialise);
        },
        Some(Err(e)) => {
            return Step::Done(Err(DrillError::SigningOrLock(e.clone())));
        },
        Some(Ok(document)) => document,
    };
    let sidecar = match &reads.sidecar {
        None => {
            return Step::Ask(PersistQuestion::Sign(copy_bytes(document)));
        },
        Some(Err(e)) => {
            return Step::Done(Err(DrillError::SigningOrLock(e.clone())));
        },
        Some(Ok(sidecar)) => sidecar,
    };
    match &reads.document_put {
        None => {
            return Step::Ask(
                PersistQuestion::Put {
                    key: key_for(run_id, document_ending),
                    bytes: copy_bytes(document),
                },
            );
        },
        Some(Err(e)) => {
            return Step::Done(Err(DrillError::SigningOrLock(e.clone())));
        },
        Some(Ok(_)) => {},
    }
    match &reads.sidecar_put {
        None => Step::Ask(
            PersistQuestion::Put {
                key: key_for(run_id, sidecar_ending),
                bytes: copy_bytes(sidecar),
            },
        ),
        Some(Err(e)) => Step::Done(Err(DrillError::SigningOrLock(e.clone()))),
        Some(Ok(_)) => Step::Done(Ok(())),
    }
}

/// Nothing is stored before it is signed, and only what was signed, or the
/// signature, is stored.
pub proof fn signing_precedes_storing(
    run_id: Seq<char>,
    document_ending: Seq<char>,
    sidecar_ending: Seq<char>,
    reads: PersistReads,
)
    ensures
        persist_step(run_id, document_ending, sidecar_ending, reads) matches Step::Ask(
            PersistAsk::Put { key, bytes },
        ) ==> {
            &&& reads.document matches Some(Ok(document))
            &&& reads.sidecar matches Some(Ok(sidecar))
            &&& bytes == document@ || bytes == sidecar@
        },
{
}

/// Whatever fails while a document is stored, the run is unattested: never a
/// refusal, and never an ordinary failure.
pub proof fn a_failed_store_is_unattested(
    run_id: Seq<char>,
    document_ending: Seq<char>,
    sidecar_ending: Seq<char>,
    reads: PersistReads,
)
    ensures
        persist_step(run_id, document_ending, sidecar_ending, reads) matches Step::Done(
            Err(e),
        ) ==> e is SigningOrLock && e.code() == Some(crate::exit::ExitCode::SigningOrLock),
{
}

} // verus!
