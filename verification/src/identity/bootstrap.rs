//! Establishing the installation's identity.
//!
//! A private key that is there stays. One is made, or adopted, only where
//! nothing says that there ever was one, and the public record follows the
//! private key that won.
use vstd::prelude::*;
use vstd::utf8::encode_utf8;
use crate::drill::step::Step;
use crate::encoding::base64_of;
use crate::identity::records::{
    data_added, mismatch_text, patch_model, private_initialization_patch, public_entries,
    public_initialization_patch, publishes, says, state_added, text_says, validate_public,
    version_test, PatchOp, PrivateRecord, PublicMaterial, PublicRecord,
};
use crate::text::{decimal, u64_text};

verus! {

/// What establishes an identity.
#[derive(Debug)]
pub struct BootstrapArgs {
    pub namespace: String,
    pub secret_name: String,
    pub secret_key: String,
    pub public_configmap_name: String,
    /// The Secret and its key to adopt, where one is to be adopted.
    pub external_secret: Option<(String, String)>,
}

/// Where an identity came from.
#[derive(Clone, Copy, Debug, PartialEq, Eq, Structural)]
pub enum Origin {
    Generated,
    Adopted,
    Existing,
    /// Another bootstrap won; the status is the one that said so.
    ConcurrentWinner(u16),
}

impl Origin {
    /// The origin's name.
    pub open spec fn name(self) -> Seq<char> {
        match self {
            Origin::Generated => "generated"@,
            Origin::Adopted => "adopted"@,
            Origin::Existing => "existing"@,
            Origin::ConcurrentWinner(_) => "concurrent-existing"@,
        }
    }

    /// The origin's name.
    pub fn as_str(self) -> (r: &'static str)
        ensures
            r@ == self.name(),
    {
        match self {
            Origin::Generated => "generated",
            Origin::Adopted => "adopted",
            Origin::Existing => "existing",
            Origin::ConcurrentWinner(_) => "concurrent-existing",
        }
    }

    /// The status that said that another bootstrap won.
    pub fn contention_status(self) -> (r: Option<u16>)
        ensures
            r == match self {
                Origin::ConcurrentWinner(status) => Some(status),
                _ => None,
            },
    {
        match self {
            Origin::ConcurrentWinner(status) => Some(status),
            _ => None,
        }
    }
}

/// An identity that is established.
#[derive(Debug)]
pub struct Outcome {
    pub key_id: String,
    pub origin: Origin,
}

/// The line that says which identity is established.
pub open spec fn outcome_text(prefix: Seq<char>, o: Outcome) -> Seq<char> {
    let line = prefix + " key-id="@ + o.key_id@ + " source="@ + o.origin.name();
    match o.origin {
        Origin::ConcurrentWinner(status) => line + " contention-http="@ + decimal(status as nat),
        _ => line,
    }
}

/// The line that says which identity is established.
pub fn outcome_line(prefix: &str, outcome: &Outcome) -> (r: String)
    ensures
        r@ == outcome_text(prefix@, *outcome),
{
    let mut s = prefix.to_owned();
    s.append(" key-id=");
    s.append(outcome.key_id.as_str());
    s.append(" source=");
    s.append(outcome.origin.as_str());
    if let Some(status) = outcome.origin.contention_status() {
        s.append(" contention-http=");
        s.append(u64_text(status as u64).as_str());
    }
    s
}

/// What a conditional write came to.
#[derive(Clone, Copy, Debug, PartialEq, Eq, Structural)]
pub enum InitializeResult {
    Written,
    /// The object had changed; the status is the one that said so.
    Contended(u16),
}

/// The algorithms that a key may be of.
#[derive(Clone, Copy, Debug, PartialEq, Eq, Structural)]
pub enum KeyAlg {
    EcdsaP256Sha256,
    Ed25519,
}

impl KeyAlg {
    /// The algorithm's name.
    pub open spec fn name(self) -> Seq<char> {
        match self {
            KeyAlg::EcdsaP256Sha256 => "ecdsa-p256-sha256"@,
            KeyAlg::Ed25519 => "ed25519"@,
        }
    }
}

/// The failure of a key whose public half cannot be written.
pub open spec fn unencodable_text(why: Seq<char>) -> Seq<char> {
    "could not encode public verification material: "@ + why
}

/// A key's public half, by its name, by its written form, or why there is none,
/// and by its algorithm.
pub fn public_material(key_id: String, spki_pem: Result<String, String>, alg: KeyAlg) -> (r: Result<
    PublicMaterial,
    String,
>)
    ensures
        match spki_pem {
            Ok(pem) => r matches Ok(m) && m.key_id@ == key_id@ && m.spki_pem@ == pem@
                && m.algorithm@ == alg.name(),
            Err(why) => r matches Err(e) && e@ == unencodable_text(why@),
        },
{
    match spki_pem {
        Ok(pem) => {
            let name = match alg {
                KeyAlg::EcdsaP256Sha256 => "ecdsa-p256-sha256",
                KeyAlg::Ed25519 => "ed25519",
            };
            Ok(PublicMaterial { key_id, spki_pem: pem, algorithm: name.to_owned() })
        },
        Err(why) => {
            let mut m = "could not encode public verification material: ".to_owned();
            m.append(why.as_str());
            Err(m)
        },
    }
}

/// What looking at a private key came to.
#[derive(Debug)]
pub enum Inspected {
    /// It is no key that can be used.
    NotAKey,
    /// Its public half, or why there is none.
    Key(Result<PublicMaterial, String>),
}

/// The failure of a text that is no key.
pub open spec fn no_key_text(source: Seq<char>) -> Seq<char> {
    source + " is not a P-256 or Ed25519 PKCS#8 PEM private key"@
}

/// The public half of a key, or why there is none.
pub open spec fn material_of(k: Inspected, source: Seq<char>) -> Result<PublicMaterial, Seq<char>> {
    match k {
        Inspected::NotAKey => Err(no_key_text(source)),
        Inspected::Key(Err(why)) => Err(why@),
        Inspected::Key(Ok(m)) => Ok(m),
    }
}

/// The public half of a key, or why there is none.
pub fn inspect(k: &Inspected, source: &str) -> (r: Result<PublicMaterial, String>)
    ensures
        match material_of(*k, source@) {
            Ok(m) => r matches Ok(v) && v == m,
            Err(why) => r matches Err(e) && e@ == why,
        },
{
    match k {
        Inspected::NotAKey => {
            let mut m = source.to_owned();
            m.append(" is not a P-256 or Ed25519 PKCS#8 PEM private key");
            Err(m)
        },
        Inspected::Key(Err(why)) => Err(why.clone()),
        Inspected::Key(Ok(m)) => Ok(m.clone()),
    }
}

/// The failure where a write was contended and no winner is acceptable.
pub open spec fn contention_text(status: u16, detail: Seq<char>) -> Seq<char> {
    "conditional Kubernetes patch returned HTTP "@ + decimal(status as nat)
        + ", and no compatible established winner was found: "@ + detail
}

/// The failure where a write was contended and no winner is acceptable.
pub fn contention_error(status: u16, detail: &str) -> (r: String)
    ensures
        r@ == contention_text(status, detail@),
{
    let mut m = "conditional Kubernetes patch returned HTTP ".to_owned();
    m.append(u64_text(status as u64).as_str());
    m.append(", and no compatible established winner was found: ");
    m.append(detail);
    m
}

/// Why the winner of a contended write is not acceptable: it has to be
/// established, and to hold a key.
pub open spec fn winner_text(status: u16, record: PrivateRecord) -> Option<Seq<char>> {
    if !says(record.state, "established"@) {
        Some(
            contention_text(
                status,
                "the signing Secret did not contain an established concurrent winner"@,
            ),
        )
    } else if record.pem is None {
        Some(contention_text(status, "the signing Secret still contains no private key"@))
    } else {
        None
    }
}

/// What was answered so far.
#[derive(Debug)]
pub struct BootstrapReads {
    pub private: Option<Result<PrivateRecord, String>>,
    pub public: Option<Result<PublicRecord, String>>,
    /// The managed key.
    pub managed_key: Option<Inspected>,
    /// The key to adopt, as text.
    pub external: Option<Result<String, String>>,
    pub external_key: Option<Inspected>,
    /// A new key, as text, and its public half.
    pub generated: Option<Result<(String, Result<PublicMaterial, String>), String>>,
    pub private_written: Option<Result<InitializeResult, String>>,
    /// The private record after a contended write.
    pub winner: Option<Result<PrivateRecord, String>>,
    pub winner_key: Option<Inspected>,
    /// The public record once the private key is settled.
    pub public_again: Option<Result<PublicRecord, String>>,
    pub public_written: Option<Result<InitializeResult, String>>,
    /// The public record after a contended write.
    pub public_winner: Option<Result<PublicRecord, String>>,
}

/// What is needed next.
#[derive(Debug)]
pub enum BootstrapQuestion {
    ReadPrivate,
    ReadPublic,
    /// Look at that private key.
    InspectManaged(String),
    ReadExternal { name: String, key: String },
    /// Look at that private key.
    InspectExternal(String),
    /// Make a key.
    Generate,
    /// Apply that patch to the private record.
    WritePrivate(Vec<PatchOp>),
    ReadWinner,
    /// Look at that private key.
    InspectWinner(String),
    ReadPublicAgain,
    /// Apply that patch to the public record.
    WritePublic(Vec<PatchOp>),
    ReadPublicWinner,
}

/// What a bootstrap came to so far.
pub type BootstrapStep = Step<BootstrapQuestion, Result<Outcome, String>>;

/// The bootstrap fails with that.
pub open spec fn fails(r: BootstrapStep, why: Seq<char>) -> bool {
    r matches Step::Done(Err(e)) && e@ == why
}

/// The bootstrap ends with that identity.
pub open spec fn establishes(r: BootstrapStep, m: PublicMaterial, origin: Origin) -> bool {
    r matches Step::Done(Ok(o)) && o.key_id@ == m.key_id@ && o.origin == origin
}

/// The failure of a public record that holds something else.
pub open spec fn unrelated_text() -> Seq<char> {
    "the public trust ConfigMap contains unrelated data; refusing to overwrite a nonempty retained object"@
}

/// The next step of publishing an identity.
pub open spec fn published_is(
    r: BootstrapStep,
    record: PublicRecord,
    m: PublicMaterial,
    origin: Origin,
    reads: BootstrapReads,
) -> bool {
    if record.carries() {
        if publishes(record, m) {
            establishes(r, m, origin)
        } else {
            fails(r, mismatch_text(m.key_id@))
        }
    } else if record.has_any_data {
        fails(r, unrelated_text())
    } else {
        match reads.public_written {
            None => r matches Step::Ask(BootstrapQuestion::WritePublic(patch)) && patch_model(patch@)
                == seq![
                version_test(record.resource_version@),
                data_added(public_entries(m)),
                state_added(record.has_annotations),
            ],
            Some(Err(e)) => fails(r, e@),
            Some(Ok(InitializeResult::Written)) => establishes(r, m, origin),
            Some(Ok(InitializeResult::Contended(status))) => match reads.public_winner {
                None => r matches Step::Ask(BootstrapQuestion::ReadPublicWinner),
                Some(Err(e)) => fails(r, contention_text(status, e@)),
                Some(Ok(winner)) => if publishes(winner, m) {
                    establishes(r, m, origin)
                } else {
                    fails(r, contention_text(status, mismatch_text(m.key_id@)))
                },
            },
        }
    }
}

/// Publishes an identity: a record that carries one has to be this one exactly,
/// and a record that holds anything else is left alone.
fn ensure_public(
    record: &PublicRecord,
    m: &PublicMaterial,
    origin: Origin,
    reads: &BootstrapReads,
) -> (r: BootstrapStep)
    ensures
        published_is(r, *record, *m, origin, *reads),
{
    if record.carries_identity() {
        return match validate_public(record, m) {
            Ok(_) => Step::Done(Ok(Outcome { key_id: m.key_id.clone(), origin })),
            Err(e) => Step::Done(Err(e)),
        };
    }
    if record.has_any_data {
        return Step::Done(
            Err(
                "the public trust ConfigMap contains unrelated data; refusing to overwrite a nonempty retained object".to_owned(),
            ),
        );
    }
    match &reads.public_written {
        None => Step::Ask(
            BootstrapQuestion::WritePublic(
                public_initialization_patch(
                    record.resource_version.as_str(),
                    record.has_annotations,
                    m,
                ),
            ),
        ),
        Some(Err(e)) => Step::Done(Err(e.clone())),
        Some(Ok(InitializeResult::Written)) => Step::Done(
            Ok(Outcome { key_id: m.key_id.clone(), origin }),
        ),
        Some(Ok(InitializeResult::Contended(status))) => match &reads.public_winner {
            None => Step::Ask(BootstrapQuestion::ReadPublicWinner),
            Some(Err(e)) => Step::Done(Err(contention_error(*status, e.as_str()))),
            Some(Ok(winner)) => match validate_public(winner, m) {
                Ok(_) => Step::Done(Ok(Outcome { key_id: m.key_id.clone(), origin })),
                Err(e) => Step::Done(Err(contention_error(*status, e.as_str()))),
            },
        },
    }
}

/// The refusal to replace an established identity by an adopted one.
pub open spec fn rotation_text(name: Seq<char>, key: Seq<char>, key_id: Seq<char>) -> Seq<char> {
    "configured external Secret "@ + name + "/"@ + key
        + " does not match the established installation identity "@ + key_id
        + "; explicit adoption never rotates an existing signer"@
}

/// The next step where there is a private key.
pub open spec fn existing_is(
    r: BootstrapStep,
    args: BootstrapArgs,
    pem: Seq<char>,
    public: PublicRecord,
    reads: BootstrapReads,
) -> bool {
    match reads.managed_key {
        None => r matches Step::Ask(BootstrapQuestion::InspectManaged(p)) && p@ == pem,
        Some(k) => match material_of(k, "managed signing Secret"@) {
            Err(why) => fails(r, why),
            Ok(m) => match args.external_secret {
                None => published_is(r, public, m, Origin::Existing, reads),
                Some((name, key)) => match reads.external {
                    None => r matches Step::Ask(
                        BootstrapQuestion::ReadExternal { name: n, key: d },
                    ) && n@ == name@ && d@ == key@,
                    Some(Err(e)) => fails(r, e@),
                    Some(Ok(external)) => match reads.external_key {
                        None => r matches Step::Ask(BootstrapQuestion::InspectExternal(p)) && p@
                            == external@,
                        Some(x) => match material_of(x, "configured external signing Secret"@) {
                            Err(why) => fails(r, why),
                            Ok(other) => if other.key_id@ != m.key_id@ {
                                fails(r, rotation_text(name@, key@, m.key_id@))
                            } else {
                                published_is(r, public, m, Origin::Existing, reads)
                            },
                        },
                    },
                },
            },
        },
    }
}

/// The next step where there is a private key.
fn keep_existing(
    args: &BootstrapArgs,
    pem: &String,
    public: &PublicRecord,
    reads: &BootstrapReads,
) -> (r: BootstrapStep)
    ensures
        existing_is(r, *args, pem@, *public, *reads),
{
    let m = match &reads.managed_key {
        None => {
            return Step::Ask(BootstrapQuestion::InspectManaged(pem.clone()));
        },
        Some(k) => match inspect(k, "managed signing Secret") {
            Err(e) => {
                return Step::Done(Err(e));
            },
            Ok(m) => m,
        },
    };
    if let Some((name, key)) = &args.external_secret {
        let external = match &reads.external {
            None => {
                return Step::Ask(
                    BootstrapQuestion::ReadExternal { name: name.clone(), key: key.clone() },
                );
            },
            Some(Err(e)) => {
                return Step::Done(Err(e.clone()));
            },
            Some(Ok(external)) => external,
        };
        let other = match &reads.external_key {
            None => {
                return Step::Ask(BootstrapQuestion::InspectExternal(external.clone()));
            },
            Some(k) => match inspect(k, "configured external signing Secret") {
                Err(e) => {
                    return Step::Done(Err(e));
                },
                Ok(m) => m,
            },
        };
        if other.key_id != m.key_id {
            let mut why = "configured external Secret ".to_owned();
            why.append(name.as_str());
            why.append("/");
            why.append(key.as_str());
            why.append(" does not match the established installation identity ");
            why.append(m.key_id.as_str());
            why.append("; explicit adoption never rotates an existing signer");
            return Step::Done(Err(why));
        }
    }
    ensure_public(public, &m, Origin::Existing, reads)
}

/// The refusal to write into a Secret that holds something else.
pub open spec fn wrong_entry_text(key: Seq<char>) -> Seq<char> {
    "the managed signing Secret contains data but not the required key "@ + key
        + "; refusing to overwrite an existing Secret"@
}

/// The refusal to replace a private key that is lost.
pub open spec fn lost_key_text() -> Seq<char> {
    "the public trust record says an installation identity is established, but the retained private key is absent; restore logweir-signing-key from backup or perform an explicit trust rotation—bootstrap will not silently replace it"@
}

/// What a new identity is made of: the key to adopt, or a new one.
pub ghost enum Candidate {
    /// Something is needed first.
    Needs(CandidateNeed),
    Fails(Seq<char>),
    /// The key, as text, and its public half.
    Ready(Seq<char>, PublicMaterial),
}

/// What is needed for a new identity.
pub ghost enum CandidateNeed {
    External(Seq<char>, Seq<char>),
    Inspection(Seq<char>),
    Key,
}

/// What a new identity is made of.
pub open spec fn candidate_of(args: BootstrapArgs, reads: BootstrapReads) -> Candidate {
    match args.external_secret {
        Some((name, key)) => match reads.external {
            None => Candidate::Needs(CandidateNeed::External(name@, key@)),
            Some(Err(e)) => Candidate::Fails(e@),
            Some(Ok(pem)) => match reads.external_key {
                None => Candidate::Needs(CandidateNeed::Inspection(pem@)),
                Some(k) => match material_of(k, "configured external signing Secret"@) {
                    Err(why) => Candidate::Fails(why),
                    Ok(m) => Candidate::Ready(pem@, m),
                },
            },
        },
        None => match reads.generated {
            None => Candidate::Needs(CandidateNeed::Key),
            Some(Err(e)) => Candidate::Fails(
                "could not encode a generated installation key: "@ + e@,
            ),
            Some(Ok((_, Err(e)))) => Candidate::Fails(e@),
            Some(Ok((pem, Ok(m)))) => Candidate::Ready(pem@, m),
        },
    }
}

/// The next step of settling which private key won: the candidate, where the
/// write went through, or whoever was there first.
pub open spec fn fresh_is(
    r: BootstrapStep,
    args: BootstrapArgs,
    private: PrivateRecord,
    public: PublicRecord,
    reads: BootstrapReads,
) -> bool {
    if private.has_any_data {
        fails(r, wrong_entry_text(args.secret_key@))
    } else if says(private.state, "established"@) || public.carries() {
        fails(r, lost_key_text())
    } else {
        match candidate_of(args, reads) {
            Candidate::Needs(CandidateNeed::External(name, key)) => r matches Step::Ask(
                BootstrapQuestion::ReadExternal { name: n, key: d },
            ) && n@ == name && d@ == key,
            Candidate::Needs(CandidateNeed::Inspection(pem)) => r matches Step::Ask(
                BootstrapQuestion::InspectExternal(p),
            ) && p@ == pem,
            Candidate::Needs(CandidateNeed::Key) => r matches Step::Ask(BootstrapQuestion::Generate),
            Candidate::Fails(why) => fails(r, why),
            Candidate::Ready(pem, m) => match reads.private_written {
                None => r matches Step::Ask(BootstrapQuestion::WritePrivate(patch)) && patch_model(
                    patch@,
                ) == seq![
                    version_test(private.resource_version@),
                    data_added(seq![(args.secret_key@, base64_of(encode_utf8(pem)))]),
                    state_added(private.has_annotations),
                ],
                Some(Err(e)) => fails(r, e@),
                Some(Ok(InitializeResult::Written)) => settled_is(
                    r,
                    m,
                    if args.external_secret is Some {
                        Origin::Adopted
                    } else {
                        Origin::Generated
                    },
                    reads,
                ),
                Some(Ok(InitializeResult::Contended(status))) => contended_is(
                    r,
                    args,
                    status,
                    m,
                    reads,
                ),
            },
        }
    }
}

/// The next step once the private key is settled.
pub open spec fn settled_is(
    r: BootstrapStep,
    m: PublicMaterial,
    origin: Origin,
    reads: BootstrapReads,
) -> bool {
    match reads.public_again {
        None => r matches Step::Ask(BootstrapQuestion::ReadPublicAgain),
        Some(Err(e)) => fails(r, e@),
        Some(Ok(record)) => published_is(r, record, m, origin, reads),
    }
}

/// The refusal of another winner where a key is adopted.
pub open spec fn other_winner_text(winner: Seq<char>, candidate: Seq<char>) -> Seq<char> {
    "another bootstrap established identity "@ + winner + " while external identity "@ + candidate
        + " was being adopted; refusing to rotate either identity"@
}

/// The next step where another bootstrap was first.
pub open spec fn contended_is(
    r: BootstrapStep,
    args: BootstrapArgs,
    status: u16,
    candidate: PublicMaterial,
    reads: BootstrapReads,
) -> bool {
    match reads.winner {
        None => r matches Step::Ask(BootstrapQuestion::ReadWinner),
        Some(Err(e)) => fails(r, contention_text(status, e@)),
        Some(Ok(record)) => match winner_text(status, record) {
            Some(why) => fails(r, why),
            None => match reads.winner_key {
                None => r matches Step::Ask(BootstrapQuestion::InspectWinner(p)) && p@
                    == record.pem->0@,
                Some(Inspected::NotAKey) => fails(
                    r,
                    contention_text(
                        status,
                        no_key_text("concurrently initialized signing Secret"@),
                    ),
                ),
                Some(Inspected::Key(Err(why))) => fails(r, why@),
                Some(Inspected::Key(Ok(m))) => if args.external_secret is Some && m.key_id@
                    != candidate.key_id@ {
                    fails(
                        r,
                        contention_text(
                            status,
                            other_winner_text(m.key_id@, candidate.key_id@),
                        ),
                    )
                } else {
                    settled_is(r, m, Origin::ConcurrentWinner(status), reads)
                },
            },
        },
    }
}

/// The next step once the private key is settled.
fn settle(m: &PublicMaterial, origin: Origin, reads: &BootstrapReads) -> (r: BootstrapStep)
    ensures
        settled_is(r, *m, origin, *reads),
{
    match &reads.public_again {
        None => Step::Ask(BootstrapQuestion::ReadPublicAgain),
        Some(Err(e)) => Step::Done(Err(e.clone())),
        Some(Ok(record)) => ensure_public(record, m, origin, reads),
    }
}

/// The next step where another bootstrap was first.
fn accept_winner(
    args: &BootstrapArgs,
    status: u16,
    candidate: &PublicMaterial,
    reads: &BootstrapReads,
) -> (r: BootstrapStep)
    ensures
        contended_is(r, *args, status, *candidate, *reads),
{
    let record = match &reads.winner {
        None => {
            return Step::Ask(BootstrapQuestion::ReadWinner);
        },
        Some(Err(e)) => {
            return Step::Done(Err(contention_error(status, e.as_str())));
        },
        Some(Ok(record)) => record,
    };
    if !text_says(&record.state, "established") {
        return Step::Done(
            Err(
                contention_error(
                    status,
                    "the signing Secret did not contain an established concurrent winner",
                ),
            ),
        );
    }
    let pem = match &record.pem {
        None => {
            return Step::Done(
                Err(contention_error(status, "the signing Secret still contains no private key")),
            );
        },
        Some(pem) => pem,
    };
    let m = match &reads.winner_key {
        None => {
            return Step::Ask(BootstrapQuestion::InspectWinner(pem.clone()));
        },
        Some(k) => match (k, inspect(k, "concurrently initialized signing Secret")) {
            (Inspected::NotAKey, Err(e)) => {
                return Step::Done(Err(contention_error(status, e.as_str())));
            },
            (_, Err(e)) => {
                return Step::Done(Err(e));
            },
            (_, Ok(m)) => m,
        },
    };
    if args.external_secret.is_some() && m.key_id != candidate.key_id {
        let mut why = "another bootstrap established identity ".to_owned();
        why.append(m.key_id.as_str());
        why.append(" while external identity ");
        why.append(candidate.key_id.as_str());
        why.append(" was being adopted; refusing to rotate either identity");
        return Step::Done(Err(contention_error(status, why.as_str())));
    }
    settle(&m, Origin::ConcurrentWinner(status), reads)
}

/// The next step where there is no private key.
fn make_fresh(
    args: &BootstrapArgs,
    private: &PrivateRecord,
    public: &PublicRecord,
    reads: &BootstrapReads,
) -> (r: BootstrapStep)
    ensures
        fresh_is(r, *args, *private, *public, *reads),
{
    if private.has_any_data {
        let mut m =
            "the managed signing Secret contains data but not the required key ".to_owned();
        m.append(args.secret_key.as_str());
        m.append("; refusing to overwrite an existing Secret");
        return Step::Done(Err(m));
    }
    if text_says(&private.state, "established") || public.carries_identity() {
        return Step::Done(
            Err(
                "the public trust record says an installation identity is established, but the retained private key is absent; restore logweir-signing-key from backup or perform an explicit trust rotation—bootstrap will not silently replace it".to_owned(),
            ),
        );
    }
    let material: PublicMaterial;
    let pem: &String;
    match &args.external_secret {
        Some((name, key)) => {
            match &reads.external {
                None => {
                    return Step::Ask(
                        BootstrapQuestion::ReadExternal { name: name.clone(), key: key.clone() },
                    );
                },
                Some(Err(e)) => {
                    return Step::Done(Err(e.clone()));
                },
                Some(Ok(external)) => {
                    pem = external;
                },
            }
            match &reads.external_key {
                None => {
                    return Step::Ask(BootstrapQuestion::InspectExternal(pem.clone()));
                },
                Some(k) => match inspect(k, "configured external signing Secret") {
                    Err(e) => {
                        return Step::Done(Err(e));
                    },
                    Ok(m) => {
                        material = m;
                    },
                },
            }
        },
        None => match &reads.generated {
            None => {
                return Step::Ask(BootstrapQuestion::Generate);
            },
            Some(Err(e)) => {
                let mut m = "could not encode a generated installation key: ".to_owned();
                m.append(e.as_str());
                return Step::Done(Err(m));
            },
            Some(Ok((made, half))) => {
                pem = made;
                match half {
                    Err(e) => {
                        return Step::Done(Err(e.clone()));
                    },
                    Ok(m) => {
                        material = m.clone();
                    },
                }
            },
        },
    }
    match &reads.private_written {
        None => Step::Ask(
            BootstrapQuestion::WritePrivate(
                private_initialization_patch(
                    private.resource_version.as_str(),
                    private.has_annotations,
                    args.secret_key.as_str(),
                    pem.as_str(),
                ),
            ),
        ),
        Some(Err(e)) => Step::Done(Err(e.clone())),
        Some(Ok(InitializeResult::Written)) => {
            let origin = if args.external_secret.is_some() {
                Origin::Adopted
            } else {
                Origin::Generated
            };
            settle(&material, origin, reads)
        },
        Some(Ok(InitializeResult::Contended(status))) => accept_winner(
            args,
            *status,
            &material,
            reads,
        ),
    }
}

/// The next step of establishing the installation's identity.
pub open spec fn bootstrap_is(r: BootstrapStep, args: BootstrapArgs, reads: BootstrapReads) -> bool {
    match reads.private {
        None => r matches Step::Ask(BootstrapQuestion::ReadPrivate),
        Some(Err(e)) => fails(r, e@),
        Some(Ok(private)) => match reads.public {
            None => r matches Step::Ask(BootstrapQuestion::ReadPublic),
            Some(Err(e)) => fails(r, e@),
            Some(Ok(public)) => match private.pem {
                Some(pem) => existing_is(r, args, pem@, public, reads),
                None => fresh_is(r, args, private, public, reads),
            },
        },
    }
}

/// The next step of establishing the installation's identity.
pub fn bootstrap(args: &BootstrapArgs, reads: &BootstrapReads) -> (r: BootstrapStep)
    ensures
        bootstrap_is(r, *args, *reads),
{
    let private = match &reads.private {
        None => {
            return Step::Ask(BootstrapQuestion::ReadPrivate);
        },
        Some(Err(e)) => {
            return Step::Done(Err(e.clone()));
        },
        Some(Ok(private)) => private,
    };
    let public = match &reads.public {
        None => {
            return Step::Ask(BootstrapQuestion::ReadPublic);
        },
        Some(Err(e)) => {
            return Step::Done(Err(e.clone()));
        },
        Some(Ok(public)) => public,
    };
    match &private.pem {
        Some(pem) => keep_existing(args, pem, public, reads),
        None => make_fresh(args, private, public, reads),
    }
}

// ---- what follows for every bootstrap ----------------------------------------------------

/// A private key is written only where there is none, nothing stands in its
/// place, and nothing says that there ever was one; and only at the version
/// that was read.
pub proof fn an_identity_is_never_replaced(
    r: BootstrapStep,
    args: BootstrapArgs,
    reads: BootstrapReads,
)
    requires
        bootstrap_is(r, args, reads),
        r matches Step::Ask(BootstrapQuestion::WritePrivate(_)),
    ensures
        reads.private matches Some(Ok(private)) && {
            &&& private.pem is None
            &&& !private.has_any_data
            &&& !says(private.state, "established"@)
            &&& reads.public matches Some(Ok(public))
            &&& !public.carries()
            &&& patch_model(r->Ask_0->WritePrivate_0@)[0] == version_test(private.resource_version@)
        },
{
}

/// A public record is written only where it holds nothing at all, and what is
/// written is the public half of the private key that is there, or that won.
pub proof fn only_the_settled_key_is_published(
    r: BootstrapStep,
    args: BootstrapArgs,
    reads: BootstrapReads,
)
    requires
        bootstrap_is(r, args, reads),
        r matches Step::Ask(BootstrapQuestion::WritePublic(_)),
    ensures
        ({
            let patch = patch_model(r->Ask_0->WritePublic_0@);
            let private = reads.private->0->Ok_0;
            let record = if private.pem is Some {
                reads.public->0->Ok_0
            } else {
                reads.public_again->0->Ok_0
            };
            &&& !record.carries()
            &&& !record.has_any_data
            &&& patch[0] == version_test(record.resource_version@)
            &&& exists|m: PublicMaterial| #[trigger]
                data_added(public_entries(m)) == patch[1] && if private.pem is Some {
                    reads.managed_key == Some(Inspected::Key(Ok(m)))
                } else if reads.private_written == Some(
                    Ok::<InitializeResult, String>(InitializeResult::Written),
                ) {
                    candidate_of(args, reads) matches Candidate::Ready(_, c) && c == m
                } else {
                    reads.winner_key == Some(Inspected::Key(Ok(m)))
                }
        }),
{
    let private = reads.private->0->Ok_0;
    let patch = patch_model(r->Ask_0->WritePublic_0@);
    if private.pem is Some {
        let m = reads.managed_key->0->Key_0->Ok_0;
        assert(data_added(public_entries(m)) == patch[1]);
    } else if reads.private_written == Some(
        Ok::<InitializeResult, String>(InitializeResult::Written),
    ) {
        let m = candidate_of(args, reads)->Ready_1;
        assert(data_added(public_entries(m)) == patch[1]);
    } else {
        let m = reads.winner_key->0->Key_0->Ok_0;
        assert(data_added(public_entries(m)) == patch[1]);
    }
}

/// A key is made only where none is to be adopted.
pub proof fn adoption_never_falls_back(r: BootstrapStep, args: BootstrapArgs, reads: BootstrapReads)
    requires
        bootstrap_is(r, args, reads),
        r matches Step::Ask(BootstrapQuestion::Generate),
    ensures
        args.external_secret is None,
{
}

/// Where the private key and the public record agree, nothing is made and
/// nothing is written, and the identity is the one that was there: at once,
/// where none is to be adopted, and once the key to adopt is known to be the
/// same one, where one is.
pub proof fn a_second_bootstrap_changes_nothing(
    r: BootstrapStep,
    args: BootstrapArgs,
    reads: BootstrapReads,
    m: PublicMaterial,
)
    requires
        bootstrap_is(r, args, reads),
        reads.private matches Some(Ok(private)) && private.pem is Some,
        reads.public matches Some(Ok(public)) && publishes(public, m),
        reads.managed_key == Some(Inspected::Key(Ok(m))),
    ensures
        r matches Step::Ask(q) ==> q is ReadExternal || q is InspectExternal,
        r matches Step::Done(Ok(_)) ==> establishes(r, m, Origin::Existing),
        args.external_secret is None ==> establishes(r, m, Origin::Existing),
        reads.external matches Some(Ok(_)) ==> (reads.external_key matches Some(
            Inspected::Key(Ok(adopted)),
        ) ==> (adopted.key_id@ == m.key_id@ ==> establishes(r, m, Origin::Existing))),
{
}

/// Where a key is adopted, the identity that ends up established is the
/// adopted one, whoever was first.
pub proof fn adoption_ends_with_the_adopted_key(
    r: BootstrapStep,
    args: BootstrapArgs,
    reads: BootstrapReads,
)
    requires
        bootstrap_is(r, args, reads),
        args.external_secret is Some,
        r matches Step::Done(Ok(_)),
    ensures
        reads.external_key matches Some(Inspected::Key(Ok(m))) && r->Done_0->Ok_0.key_id@ == m.key_id@,
{
}

/// Nothing that a bootstrap reports depends on the private key's text: two
/// bootstraps that differ in nothing else report the same.
pub proof fn a_report_hides_the_key(
    r: BootstrapStep,
    s: BootstrapStep,
    args: BootstrapArgs,
    reads: BootstrapReads,
    pem: String,
    other: String,
)
    requires
        reads.private matches Some(Ok(private)) && private.pem == Some(pem),
        bootstrap_is(r, args, reads),
        bootstrap_is(
            s,
            args,
            BootstrapReads {
                private: Some(
                    Ok(PrivateRecord { pem: Some(other), ..reads.private->0->Ok_0 }),
                ),
                ..reads
            },
        ),
    ensures
        r matches Step::Done(Err(e)) ==> (s matches Step::Done(Err(f)) && f@ == e@),
        r matches Step::Done(Ok(a)) ==> (s matches Step::Done(Ok(b)) && outcome_text("identity-ready"@, b)
            == outcome_text("identity-ready"@, a)),
{
}

} // verus!
