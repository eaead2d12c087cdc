//! One verdict for each sampled selection, and the one conclusion that is
//! drawn from all of them.
//!
//! A check concludes with a value: verified, failed, or not verified. There is
//! no way to say nothing, so a selection that was not checked cannot be taken
//! for one that was.
use vstd::prelude::*;
use crate::drill::scorecard::{Integrity, IntegrityLevel, IntegrityResult, PassRate};
use crate::text::{
    a_piece_is_found_again, found_within, join, joined, occurs, texts,
    what_a_piece_holds_is_found_again,
};

verus! {

/// What one check concluded about one selection.
#[derive(Debug)]
pub enum Evidence {
    /// So many units of the selection's claim were examined, and held.
    Verified { checked: u64 },
    /// Examined, and found wrong.
    Failed { why: String },
    /// Not examined, or examined over less than the claim.
    Unverified { why: String },
}

/// What a check concluded.
#[verifier::ext_equal]
pub ghost enum EvidenceModel {
    Verified(int),
    Failed(Seq<char>),
    Unverified(Seq<char>),
}

impl View for Evidence {
    type V = EvidenceModel;

    open spec fn view(&self) -> EvidenceModel {
        match self {
            Evidence::Verified { checked } => EvidenceModel::Verified(*checked as int),
            Evidence::Failed { why } => EvidenceModel::Failed(why@),
            Evidence::Unverified { why } => EvidenceModel::Unverified(why@),
        }
    }
}

impl Evidence {
    /// The reason that a check gave for not verifying.
    pub open spec fn reason(self) -> Option<Seq<char>> {
        match self {
            Evidence::Verified { .. } => None,
            Evidence::Failed { why } => Some(why@),
            Evidence::Unverified { why } => Some(why@),
        }
    }

    /// Whether the check found what it looked for.
    pub fn is_verified(&self) -> (r: bool)
        ensures
            r == (self is Verified),
    {
        matches!(self, Evidence::Verified { .. })
    }

    /// Whether the check found something wrong.
    pub fn is_failed(&self) -> (r: bool)
        ensures
            r == (self is Failed),
    {
        matches!(self, Evidence::Failed { .. })
    }

    /// Whether the check reached no conclusion.
    pub fn is_unverified(&self) -> (r: bool)
        ensures
            r == (self is Unverified),
    {
        matches!(self, Evidence::Unverified { .. })
    }

    /// The reason that the check gave for not verifying.
    pub fn why(&self) -> (r: Option<&str>)
        ensures
            r is Some <==> self.reason() is Some,
            r is Some ==> Some(r->0@) == self.reason(),
    {
        match self {
            Evidence::Verified { .. } => None,
            Evidence::Failed { why } => Some(why.as_str()),
            Evidence::Unverified { why } => Some(why.as_str()),
        }
    }
}

/// What was concluded about one selection.
#[derive(Debug)]
pub struct SelectionVerdict {
    /// The topic and the partition, with a slash between.
    pub id: String,
    /// How many records the manifest claims of the selection, at most as many
    /// as were asked for.
    pub claimed: u64,
    /// Whether the archive's segments are those that the manifest names.
    pub segments: Evidence,
    /// Whether the restored records are those of the archive.
    pub records: Evidence,
    /// How many records were read back from the target.
    pub records_restored: u64,
    /// How many records were compared and how many of them matched, where any
    /// were compared.
    pub reconciled: Option<(u64, u64)>,
    /// Why the archive's records could not be fingerprinted, where they could
    /// not.
    pub downgrade: Option<String>,
}

/// The note for a check's reason, where it gave one.
pub open spec fn reason_note(id: Seq<char>, e: Evidence) -> Seq<Seq<char>> {
    match e.reason() {
        Some(why) => seq![id + ": "@ + why],
        None => Seq::empty(),
    }
}

/// The note for a selection that could not be fingerprinted.
pub open spec fn downgrade_note(id: Seq<char>, downgrade: Option<String>) -> Seq<Seq<char>> {
    match downgrade {
        Some(reason) => seq![
            id + ": archive fingerprints unavailable ("@ + reason@
                + "); this selection makes no per-record integrity claim"@,
        ],
        None => Seq::empty(),
    }
}

impl SelectionVerdict {
    /// Some check found something wrong.
    pub open spec fn is_failure(self) -> bool {
        self.segments is Failed || self.records is Failed
    }

    /// Both checks found what they looked for.
    pub open spec fn is_proof(self) -> bool {
        self.segments is Verified && self.records is Verified
    }

    /// The records were found right or wrong.
    pub open spec fn is_conclusive(self) -> bool {
        !(self.records is Unverified)
    }

    /// What there is to say about the selection.
    pub open spec fn own_notes(self) -> Seq<Seq<char>> {
        downgrade_note(self.id@, self.downgrade) + reason_note(self.id@, self.segments)
            + reason_note(self.id@, self.records)
    }

    /// Whether some check found something wrong.
    pub fn failed(&self) -> (r: bool)
        ensures
            r == self.is_failure(),
    {
        self.segments.is_failed() || self.records.is_failed()
    }

    /// Whether both checks found what they looked for.
    pub fn fully_verified(&self) -> (r: bool)
        ensures
            r == self.is_proof(),
    {
        self.segments.is_verified() && self.records.is_verified()
    }

    /// Whether the records were found right or wrong.
    pub fn records_conclusive(&self) -> (r: bool)
        ensures
            r == self.is_conclusive(),
    {
        !self.records.is_unverified()
    }

    /// What there is to say about the selection.
    pub fn notes(&self) -> (r: Vec<String>)
        ensures
            texts(r@) == self.own_notes(),
    {
        let mut out: Vec<String> = Vec::new();
        proof {
            assert(texts(out@) =~= Seq::empty());
        }
        if let Some(reason) = &self.downgrade {
            let mut note = self.id.clone();
            note.append(": archive fingerprints unavailable (");
            note.append(reason.as_str());
            note.append("); this selection makes no per-record integrity claim");
            out.push(note);
        }
        proof {
            assert(texts(out@) =~= downgrade_note(self.id@, self.downgrade));
        }
        if let Some(why) = self.segments.why() {
            let mut note = self.id.clone();
            note.append(": ");
            note.append(why);
            out.push(note);
        }
        proof {
            assert(texts(out@) =~= downgrade_note(self.id@, self.downgrade) + reason_note(
                self.id@,
                self.segments,
            ));
        }
        if let Some(why) = self.records.why() {
            let mut note = self.id.clone();
            note.append(": ");
            note.append(why);
            out.push(note);
        }
        proof {
            assert(texts(out@) =~= self.own_notes());
        }
        out
    }
}

/// The strongest claim that every selection supports.
pub open spec fn level_of(v: Seq<SelectionVerdict>) -> IntegrityLevel {
    if v.len() == 0 {
        IntegrityLevel::NotAttempted
    } else if exists|i: int| 0 <= i < v.len() && (#[trigger] v[i]).downgrade is Some {
        IntegrityLevel::ConsumeOnly
    } else {
        IntegrityLevel::ByteFingerprint
    }
}

/// What follows from the verdicts: a failure where any selection failed, a pass
/// where there is a selection and every one of them is proven, and otherwise
/// neither.
pub open spec fn result_of(v: Seq<SelectionVerdict>) -> IntegrityResult {
    if exists|i: int| 0 <= i < v.len() && (#[trigger] v[i]).is_failure() {
        IntegrityResult::Fail
    } else if v.len() > 0 && forall|i: int| 0 <= i < v.len() ==> (#[trigger] v[i]).is_proof() {
        IntegrityResult::Pass
    } else {
        IntegrityResult::Partial
    }
}

/// How many records were compared in all.
pub open spec fn compared_total(v: Seq<SelectionVerdict>) -> nat
    decreases v.len(),
{
    if v.len() == 0 {
        0
    } else {
        compared_total(v.drop_last()) + match v.last().reconciled {
            Some(c) => c.0 as nat,
            None => 0,
        }
    }
}

/// How many of the compared records matched in all.
pub open spec fn matching_total(v: Seq<SelectionVerdict>) -> nat
    decreases v.len(),
{
    if v.len() == 0 {
        0
    } else {
        matching_total(v.drop_last()) + match v.last().reconciled {
            Some(c) => c.1 as nat,
            None => 0,
        }
    }
}

/// The rate of matching records, over the whole sample or not at all.
pub open spec fn rate_of(v: Seq<SelectionVerdict>) -> Option<PassRate> {
    if level_of(v) == IntegrityLevel::ByteFingerprint && compared_total(v) > 0 && forall|i: int|
        0 <= i < v.len() ==> (#[trigger] v[i]).is_conclusive() {
        Some(PassRate { matching: matching_total(v) as u64, sampled: compared_total(v) as u64 })
    } else {
        None
    }
}

/// The notes of all selections, in order.
pub open spec fn ledger_notes(v: Seq<SelectionVerdict>) -> Seq<Seq<char>>
    decreases v.len(),
{
    if v.len() == 0 {
        Seq::empty()
    } else {
        ledger_notes(v.drop_last()) + v.last().own_notes()
    }
}

/// The selections whose records were compared with the archive's fingerprints.
pub open spec fn byte_level_ids(v: Seq<SelectionVerdict>) -> Seq<Seq<char>>
    decreases v.len(),
{
    if v.len() == 0 {
        Seq::empty()
    } else if v.last().downgrade is None && v.last().reconciled is Some {
        byte_level_ids(v.drop_last()).push(v.last().id@)
    } else {
        byte_level_ids(v.drop_last())
    }
}

/// The note that names what was compared in spite of a downgrade elsewhere.
pub open spec fn byte_level_note(ids: Seq<Seq<char>>) -> Seq<char> {
    "byte-fingerprint reconciliation WAS established for "@ + joined(ids, ", "@)
        + " — one selection's unsupported archive does not erase that; `level` reports the weakest claim any selection could support, never the strongest"@
}

/// All there is to say about a ledger that has a verdict.
pub open spec fn all_notes(v: Seq<SelectionVerdict>) -> Seq<Seq<char>> {
    let told = if level_of(v) == IntegrityLevel::ConsumeOnly && byte_level_ids(v).len() > 0 {
        ledger_notes(v).push(byte_level_note(byte_level_ids(v)))
    } else {
        ledger_notes(v)
    };
    if result_of(v) == IntegrityResult::Partial && told.len() == 0 {
        told.push("at least one selection produced no positive evidence"@)
    } else {
        told
    }
}

/// What the document says beside the result, where it says anything.
pub open spec fn reason_of(v: Seq<SelectionVerdict>) -> Option<Seq<char>> {
    if v.len() == 0 {
        Some(
            "no selection produced a verdict; a verification that examined nothing can never report a pass"@,
        )
    } else if all_notes(v).len() == 0 {
        None
    } else {
        Some(joined(all_notes(v), "; "@))
    }
}

/// Totals grow with the ledger.
proof fn totals_grow(v: Seq<SelectionVerdict>, n: int)
    requires
        0 <= n <= v.len(),
    ensures
        compared_total(v.take(n)) <= compared_total(v),
        matching_total(v.take(n)) <= matching_total(v),
    decreases v.len() - n,
{
    if n < v.len() {
        totals_grow(v, n + 1);
        assert(v.take(n + 1).drop_last() =~= v.take(n));
    } else {
        assert(v.take(n) =~= v);
    }
}

/// The names of the selections whose records were compared with the archive's
/// fingerprints.
fn byte_level(verdicts: &Vec<SelectionVerdict>) -> (r: Vec<String>)
    ensures
        texts(r@) == byte_level_ids(verdicts@),
{
    let mut out: Vec<String> = Vec::new();
    let mut i: usize = 0;
    proof {
        assert(texts(out@) =~= Seq::empty());
        assert(verdicts@.take(0) =~= Seq::empty());
    }
    while i < verdicts.len()
        invariant
            0 <= i <= verdicts.len(),
            texts(out@) == byte_level_ids(verdicts@.take(i as int)),
        decreases verdicts.len() - i,
    {
        let ghost before = texts(out@);
        proof {
            assert(verdicts@.take(i + 1).drop_last() =~= verdicts@.take(i as int));
        }
        if verdicts[i].downgrade.is_none() && verdicts[i].reconciled.is_some() {
            out.push(verdicts[i].id.clone());
            proof {
                assert(texts(out@) =~= before.push(verdicts@[i as int].id@));
            }
        }
        i += 1;
    }
    proof {
        assert(verdicts@.take(verdicts.len() as int) =~= verdicts@);
    }
    out
}

/// All that is to be said about a ledger.
fn told(
    verdicts: &Vec<SelectionVerdict>,
    level: IntegrityLevel,
    result: IntegrityResult,
) -> (r: Vec<String>)
    requires
        level == level_of(verdicts@),
        result == result_of(verdicts@),
    ensures
        texts(r@) == all_notes(verdicts@),
{
    let mut notes: Vec<String> = Vec::new();
    let mut i: usize = 0;
    proof {
        assert(texts(notes@) =~= Seq::empty());
        assert(verdicts@.take(0) =~= Seq::empty());
    }
    while i < verdicts.len()
        invariant
            0 <= i <= verdicts.len(),
            texts(notes@) == ledger_notes(verdicts@.take(i as int)),
        decreases verdicts.len() - i,
    {
        let ghost before = notes@;
        let mut own = verdicts[i].notes();
        let ghost added = own@;
        notes.append(&mut own);
        proof {
            assert(texts(notes@) =~= texts(before) + texts(added));
            assert(verdicts@.take(i + 1).drop_last() =~= verdicts@.take(i as int));
        }
        i += 1;
    }
    proof {
        assert(verdicts@.take(verdicts.len() as int) =~= verdicts@);
    }
    if level == IntegrityLevel::ConsumeOnly {
        let ids = byte_level(verdicts);
        proof {
            assert(byte_level_ids(verdicts@).len() == ids@.len());
        }
        if ids.len() > 0 {
            let ghost before = texts(notes@);
            let mut note = "byte-fingerprint reconciliation WAS established for ".to_owned();
            note.append(join(&ids, ", ").as_str());
            note.append(
                " — one selection's unsupported archive does not erase that; `level` reports the weakest claim any selection could support, never the strongest",
            );
            notes.push(note);
            proof {
                assert(texts(notes@) =~= before.push(byte_level_note(byte_level_ids(verdicts@))));
            }
        }
    }
    if result == IntegrityResult::Partial && notes.len() == 0 {
        notes.push("at least one selection produced no positive evidence".to_owned());
        proof {
            assert(texts(notes@) =~= all_notes(verdicts@));
        }
    }
    notes
}

/// Draws the one conclusion from all verdicts.
pub fn roll_up(verdicts: &Vec<SelectionVerdict>) -> (r: Integrity)
    requires
        compared_total(verdicts@) <= u64::MAX,
        matching_total(verdicts@) <= u64::MAX,
    ensures
        r.level == level_of(verdicts@),
        r.result == result_of(verdicts@),
        r.records_sampled == compared_total(verdicts@),
        r.records_sampled_matching == matching_total(verdicts@),
        r.mismatches == if compared_total(verdicts@) >= matching_total(verdicts@) {
            compared_total(verdicts@) - matching_total(verdicts@)
        } else {
            0
        },
        r.pass_rate_measured == rate_of(verdicts@),
        r.partial_reason is Some <==> reason_of(verdicts@) is Some,
        r.partial_reason is Some ==> Some(r.partial_reason->0@) == reason_of(verdicts@),
        r.restored_principal_could_consume is None,
        r.result == IntegrityResult::Fail <==> exists|i: int|
            0 <= i < verdicts@.len() && ((#[trigger] verdicts@[i]).segments is Failed
                || verdicts@[i].records is Failed),
        r.result == IntegrityResult::Pass <==> verdicts@.len() > 0 && forall|i: int|
            0 <= i < verdicts@.len() ==> (#[trigger] verdicts@[i]).segments is Verified
                && verdicts@[i].records is Verified,
{
    proof {
        a_ledger_is_read_by_its_evidence(verdicts@);
    }
    if verdicts.len() == 0 {
        return Integrity {
            level: IntegrityLevel::NotAttempted,
            result: IntegrityResult::Partial,
            partial_reason: Some(
                "no selection produced a verdict; a verification that examined nothing can never report a pass".to_owned(),
            ),
            records_sampled: 0,
            records_sampled_matching: 0,
            mismatches: 0,
            pass_rate_measured: None,
            restored_principal_could_consume: None,
        };
    }
    let mut downgraded: bool = false;
    let mut failed: bool = false;
    let mut proven: bool = true;
    let mut conclusive: bool = true;
    let mut sampled: u64 = 0;
    let mut matching: u64 = 0;
    let mut i: usize = 0;
    proof {
        assert(verdicts@.take(0) =~= Seq::empty());
    }
    while i < verdicts.len()
        invariant
            0 <= i <= verdicts.len(),
            compared_total(verdicts@) <= u64::MAX,
            matching_total(verdicts@) <= u64::MAX,
            downgraded <==> exists|j: int| 0 <= j < i && (#[trigger] verdicts@[j]).downgrade is Some,
            failed <==> exists|j: int| 0 <= j < i && (#[trigger] verdicts@[j]).is_failure(),
            proven <==> forall|j: int| 0 <= j < i ==> (#[trigger] verdicts@[j]).is_proof(),
            conclusive <==> forall|j: int| 0 <= j < i ==> (#[trigger] verdicts@[j]).is_conclusive(),
            sampled == compared_total(verdicts@.take(i as int)),
            matching == matching_total(verdicts@.take(i as int)),
        decreases verdicts.len() - i,
    {
        let v = &verdicts[i];
        proof {
            assert(verdicts@.take(i + 1).drop_last() =~= verdicts@.take(i as int));
            assert(verdicts@.take(i + 1).last() == verdicts@[i as int]);
            totals_grow(verdicts@, i + 1);
        }
        if v.downgrade.is_some() {
            downgraded = true;
        }
        if v.failed() {
            failed = true;
        }
        if !v.fully_verified() {
            proven = false;
        }
        if !v.records_conclusive() {
            conclusive = false;
        }
        if let Some((compared, matched)) = v.reconciled {
            sampled = sampled + compared;
            matching = matching + matched;
        }
        i += 1;
    }
    proof {
        assert(verdicts@.take(verdicts.len() as int) =~= verdicts@);
    }
    let level = if downgraded {
        IntegrityLevel::ConsumeOnly
    } else {
        IntegrityLevel::ByteFingerprint
    };
    let result = if failed {
        IntegrityResult::Fail
    } else if proven {
        IntegrityResult::Pass
    } else {
        IntegrityResult::Partial
    };
    let pass_rate_measured = if level == IntegrityLevel::ByteFingerprint && conclusive && sampled
        > 0 {
        Some(PassRate { matching, sampled })
    } else {
        None
    };
    let notes = told(verdicts, level, result);
    proof {
        assert(texts(notes@).len() == notes@.len());
    }
    let partial_reason = if notes.len() == 0 {
        None
    } else {
        Some(join(&notes, "; "))
    };
    let mismatches: u64 = if sampled >= matching {
        sampled - matching
    } else {
        0
    };
    Integrity {
        level,
        result,
        partial_reason,
        records_sampled: sampled,
        records_sampled_matching: matching,
        mismatches,
        pass_rate_measured,
        restored_principal_could_consume: None,
    }
}

/// One check that found something wrong fails the ledger; it passes exactly where
/// there is a selection and both checks of every one verified what they looked
/// for. The claim is byte by byte exactly where there is a selection and the
/// archive of none was unsupported. A rate is given exactly there, where a record
/// was compared and the records of no selection stayed undecided.
pub proof fn a_ledger_is_read_by_its_evidence(v: Seq<SelectionVerdict>)
    ensures
        result_of(v) == IntegrityResult::Fail <==> exists|i: int|
            0 <= i < v.len() && ((#[trigger] v[i]).segments is Failed || v[i].records is Failed),
        result_of(v) == IntegrityResult::Pass <==> v.len() > 0 && forall|i: int|
            0 <= i < v.len() ==> (#[trigger] v[i]).segments is Verified && v[i].records is Verified,
        level_of(v) == IntegrityLevel::NotAttempted <==> v.len() == 0,
        level_of(v) == IntegrityLevel::ConsumeOnly <==> exists|i: int|
            0 <= i < v.len() && (#[trigger] v[i]).downgrade is Some,
        level_of(v) == IntegrityLevel::ByteFingerprint <==> v.len() > 0 && forall|i: int|
            0 <= i < v.len() ==> (#[trigger] v[i]).downgrade is None,
        rate_of(v) is Some <==> (forall|i: int|
            0 <= i < v.len() ==> (#[trigger] v[i]).downgrade is None && !(v[i].records
                is Unverified)) && exists|i: int|
            0 <= i < v.len() && ((#[trigger] v[i]).reconciled matches Some(c) && c.0 > 0),
{
    if exists|i: int|
        0 <= i < v.len() && ((#[trigger] v[i]).segments is Failed || v[i].records is Failed) {
        let i = choose|i: int|
            0 <= i < v.len() && ((#[trigger] v[i]).segments is Failed || v[i].records is Failed);
        assert(v[i].is_failure());
    }
    if result_of(v) == IntegrityResult::Fail {
        let i = choose|i: int| 0 <= i < v.len() && (#[trigger] v[i]).is_failure();
        assert(v[i].segments is Failed || v[i].records is Failed);
    }
    if v.len() > 0 && forall|i: int|
        0 <= i < v.len() ==> (#[trigger] v[i]).segments is Verified && v[i].records is Verified {
        assert forall|i: int| 0 <= i < v.len() implies (#[trigger] v[i]).is_proof()
            && !v[i].is_failure() by {
            assert(v[i].segments is Verified);
        }
    }
    if result_of(v) == IntegrityResult::Pass {
        assert forall|i: int| 0 <= i < v.len() implies (#[trigger] v[i]).segments is Verified
            && v[i].records is Verified by {
            assert(v[i].is_proof());
        }
    }
    something_was_compared(v);
    if (forall|i: int|
        0 <= i < v.len() ==> (#[trigger] v[i]).downgrade is None && !(v[i].records is Unverified))
        && compared_total(v) > 0 {
        assert forall|i: int| 0 <= i < v.len() implies (#[trigger] v[i]).is_conclusive() by {
            assert(v[i].downgrade is None);
        }
    }
    if rate_of(v) is Some {
        assert forall|i: int| 0 <= i < v.len() implies (#[trigger] v[i]).downgrade is None && !(
        v[i].records is Unverified) by {
            assert(v[i].is_conclusive());
        }
    }
}

proof fn something_was_compared(v: Seq<SelectionVerdict>)
    ensures
        compared_total(v) > 0 <==> exists|i: int|
            0 <= i < v.len() && ((#[trigger] v[i]).reconciled matches Some(c) && c.0 > 0),
    decreases v.len(),
{
    if v.len() > 0 {
        let rest = v.drop_last();
        something_was_compared(rest);
        if compared_total(rest) > 0 {
            let i = choose|i: int|
                0 <= i < rest.len() && ((#[trigger] rest[i]).reconciled matches Some(c) && c.0 > 0);
            assert(v[i] == rest[i]);
        } else if compared_total(v) > 0 {
            assert(v[v.len() - 1].reconciled is Some);
        }
        if exists|i: int|
            0 <= i < v.len() && ((#[trigger] v[i]).reconciled matches Some(c) && c.0 > 0) {
            let i = choose|i: int|
                0 <= i < v.len() && ((#[trigger] v[i]).reconciled matches Some(c) && c.0 > 0);
            if i < rest.len() {
                assert(rest[i] == v[i]);
            }
        }
    }
}

/// The counts are those of the selections, added up; where every selection's
/// compared records all matched, so do all, and otherwise they do not.
pub proof fn the_counts_are_added_up(v: Seq<SelectionVerdict>)
    requires
        forall|i: int|
            0 <= i < v.len() ==> ((#[trigger] v[i]).reconciled matches Some(c) ==> c.1 <= c.0),
    ensures
        compared_total(v) == v.fold_left(
            0int,
            |n: int, s: SelectionVerdict|
                n + match s.reconciled {
                    Some(c) => c.0 as int,
                    None => 0,
                },
        ),
        matching_total(v) == v.fold_left(
            0int,
            |n: int, s: SelectionVerdict|
                n + match s.reconciled {
                    Some(c) => c.1 as int,
                    None => 0,
                },
        ),
        matching_total(v) <= compared_total(v),
        matching_total(v) == compared_total(v) <==> forall|i: int|
            0 <= i < v.len() ==> ((#[trigger] v[i]).reconciled matches Some(c) ==> c.1 == c.0),
    decreases v.len(),
{
    reveal_with_fuel(Seq::fold_left, 2);
    if v.len() > 0 {
        let rest = v.drop_last();
        let last = v.len() - 1;
        assert forall|i: int| 0 <= i < rest.len() implies ((#[trigger] rest[i]).reconciled matches Some(c)
            ==> c.1 <= c.0) by {
            assert(rest[i] == v[i]);
        }
        the_counts_are_added_up(rest);
        assert(v[last] == v.last());
        assert(v[last].reconciled matches Some(c) ==> c.1 <= c.0);
        if forall|i: int|
            0 <= i < v.len() ==> ((#[trigger] v[i]).reconciled matches Some(c) ==> c.1 == c.0) {
            assert forall|i: int| 0 <= i < rest.len() implies ((
            #[trigger] rest[i]).reconciled matches Some(c) ==> c.1 == c.0) by {
                assert(rest[i] == v[i]);
            }
            assert(v[last].reconciled matches Some(c) ==> c.1 == c.0);
        }
        if matching_total(v) == compared_total(v) {
            assert forall|i: int| 0 <= i < v.len() implies ((#[trigger] v[i]).reconciled matches Some(c)
                ==> c.1 == c.0) by {
                if i < last {
                    assert(rest[i] == v[i]);
                }
            }
        }
    }
}

/// Why a check did not verify a selection is told, under the selection's name;
/// and so is why its archive could not be fingerprinted.
pub proof fn every_reason_is_told(v: Seq<SelectionVerdict>, i: int)
    requires
        0 <= i < v.len(),
    ensures
        v[i].segments matches Evidence::Failed { why } ==> reason_of(v) is Some && occurs(
            reason_of(v)->0,
            v[i].id@ + ": "@ + why@,
        ),
        v[i].segments matches Evidence::Unverified { why } ==> reason_of(v) is Some && occurs(
            reason_of(v)->0,
            v[i].id@ + ": "@ + why@,
        ),
        v[i].records matches Evidence::Failed { why } ==> reason_of(v) is Some && occurs(
            reason_of(v)->0,
            v[i].id@ + ": "@ + why@,
        ),
        v[i].records matches Evidence::Unverified { why } ==> reason_of(v) is Some && occurs(
            reason_of(v)->0,
            v[i].id@ + ": "@ + why@,
        ),
        v[i].downgrade matches Some(why) ==> reason_of(v) is Some && occurs(
            reason_of(v)->0,
            v[i].id@ + ": archive fingerprints unavailable ("@ + why@
                + "); this selection makes no per-record integrity claim"@,
        ),
{
    let own = v[i].own_notes();
    let down = downgrade_note(v[i].id@, v[i].downgrade);
    let segs = reason_note(v[i].id@, v[i].segments);
    let recs = reason_note(v[i].id@, v[i].records);
    if down.len() > 0 {
        assert(own[0] == down[0]);
        a_note_is_told(v, i, 0);
    }
    if segs.len() > 0 {
        assert(own[down.len() as int] == segs[0]);
        a_note_is_told(v, i, down.len() as int);
    }
    if recs.len() > 0 {
        assert(own[(down.len() + segs.len()) as int] == recs[0]);
        a_note_is_told(v, i, (down.len() + segs.len()) as int);
    }
}

proof fn a_note_is_told(v: Seq<SelectionVerdict>, i: int, n: int)
    requires
        0 <= i < v.len(),
        0 <= n < v[i].own_notes().len(),
    ensures
        reason_of(v) is Some,
        occurs(reason_of(v)->0, v[i].own_notes()[n]),
{
    a_note_is_in_the_ledger(v, i, n);
    let note = v[i].own_notes()[n];
    let ledger = ledger_notes(v);
    let all = all_notes(v);
    let k = choose|k: int| 0 <= k < ledger.len() && ledger[k] == note;
    assert(all[k] == note);
    a_piece_is_found_again(all, "; "@, k);
}

proof fn a_note_is_in_the_ledger(v: Seq<SelectionVerdict>, i: int, n: int)
    requires
        0 <= i < v.len(),
        0 <= n < v[i].own_notes().len(),
    ensures
        ledger_notes(v).contains(v[i].own_notes()[n]),
    decreases v.len(),
{
    let all = ledger_notes(v);
    let was = ledger_notes(v.drop_last());
    let note = v[i].own_notes()[n];
    if i < v.len() - 1 {
        a_note_is_in_the_ledger(v.drop_last(), i, n);
        assert(v.drop_last()[i] == v[i]);
        let k = choose|k: int| 0 <= k < was.len() && was[k] == note;
        assert(all[k] == note);
    } else {
        assert(all[was.len() + n] == note);
    }
}

/// A pass means that there was a selection, and that every selection was
/// examined in both ways and held.
pub proof fn pass_is_positive_evidence(v: Seq<SelectionVerdict>)
    ensures
        result_of(v) == IntegrityResult::Pass <==> v.len() > 0 && (forall|i: int|
            0 <= i < v.len() ==> (#[trigger] v[i]).is_proof()),
{
    if v.len() > 0 && forall|i: int| 0 <= i < v.len() ==> (#[trigger] v[i]).is_proof() {
        assert forall|i: int| 0 <= i < v.len() implies !(#[trigger] v[i]).is_failure() by {
            assert(v[i].is_proof());
        }
    }
}

/// One selection that was not proven forbids a pass, whatever its siblings
/// contribute.
pub proof fn one_unproven_forbids_a_pass(v: Seq<SelectionVerdict>, i: int)
    requires
        0 <= i < v.len(),
        !v[i].is_proof(),
    ensures
        result_of(v) != IntegrityResult::Pass,
{
    pass_is_positive_evidence(v);
}

/// One selection that was found wrong fails the drill, on either check and
/// whether or not its archive could be fingerprinted.
pub proof fn one_failure_fails(v: Seq<SelectionVerdict>, i: int)
    requires
        0 <= i < v.len(),
        v[i].is_failure(),
    ensures
        result_of(v) == IntegrityResult::Fail,
{
}

/// The result rests on the evidence alone: neither a downgrade nor the counts
/// can move it.
pub proof fn result_ignores_the_level(v: Seq<SelectionVerdict>, w: Seq<SelectionVerdict>)
    requires
        v.len() == w.len(),
        forall|i: int|
            0 <= i < v.len() ==> (#[trigger] v[i]).segments == (#[trigger] w[i]).segments
                && v[i].records == w[i].records,
    ensures
        result_of(v) == result_of(w),
{
    assert forall|i: int| 0 <= i < v.len() implies (#[trigger] v[i]).is_failure()
        == w[i].is_failure() && v[i].is_proof() == w[i].is_proof() by {
        assert(v[i].segments == w[i].segments);
    }
    if exists|i: int| 0 <= i < v.len() && (#[trigger] v[i]).is_failure() {
        let i = choose|i: int| 0 <= i < v.len() && (#[trigger] v[i]).is_failure();
        assert(w[i].is_failure());
    }
    if exists|i: int| 0 <= i < w.len() && (#[trigger] w[i]).is_failure() {
        let i = choose|i: int| 0 <= i < w.len() && (#[trigger] w[i]).is_failure();
        assert(v[i].is_failure());
    }
    pass_is_positive_evidence(v);
    pass_is_positive_evidence(w);
    if forall|i: int| 0 <= i < v.len() ==> (#[trigger] v[i]).is_proof() {
        assert forall|i: int| 0 <= i < w.len() implies (#[trigger] w[i]).is_proof() by {
            assert(v[i].is_proof());
        }
    }
    if forall|i: int| 0 <= i < w.len() ==> (#[trigger] w[i]).is_proof() {
        assert forall|i: int| 0 <= i < v.len() implies (#[trigger] v[i]).is_proof() by {
            assert(w[i].is_proof());
        }
    }
}

/// The counts rest on what was compared alone: the downgrade of a selection
/// takes nothing out of them.
pub proof fn counts_ignore_the_downgrade(v: Seq<SelectionVerdict>, w: Seq<SelectionVerdict>)
    requires
        v.len() == w.len(),
        forall|i: int|
            0 <= i < v.len() ==> (#[trigger] v[i]).reconciled == (#[trigger] w[i]).reconciled,
    ensures
        compared_total(v) == compared_total(w),
        matching_total(v) == matching_total(w),
    decreases v.len(),
{
    if v.len() > 0 {
        assert(v[v.len() - 1].reconciled == w[w.len() - 1].reconciled);
        assert forall|i: int| 0 <= i < v.len() - 1 implies (#[trigger] v.drop_last()[i]).reconciled
            == (#[trigger] w.drop_last()[i]).reconciled by {
            assert(v[i].reconciled == w[i].reconciled);
        }
        counts_ignore_the_downgrade(v.drop_last(), w.drop_last());
    }
}

/// A rate is only given beside a byte-level claim, and never while a selection's
/// records are undecided.
pub proof fn a_rate_covers_the_whole_sample(v: Seq<SelectionVerdict>)
    ensures
        rate_of(v) is Some ==> level_of(v) == IntegrityLevel::ByteFingerprint && (forall|i: int|
            0 <= i < v.len() ==> !((#[trigger] v[i]).records is Unverified)),
{
    if rate_of(v) is Some {
        assert forall|i: int| 0 <= i < v.len() implies !((#[trigger] v[i]).records is Unverified) by {
            assert(v[i].is_conclusive());
        }
    }
}

/// What is neither a pass nor a failure always says why.
pub proof fn partial_has_a_reason(v: Seq<SelectionVerdict>)
    ensures
        result_of(v) == IntegrityResult::Partial ==> reason_of(v) is Some,
{
}

/// The rate that is measured is how many records came back of those that were
/// compared, over all selections.
pub proof fn a_rate_is_what_came_back(v: Seq<SelectionVerdict>)
    requires
        compared_total(v) <= u64::MAX,
        matching_total(v) <= u64::MAX,
    ensures
        rate_of(v) matches Some(rate) ==> rate.matching == matching_total(v) && rate.sampled
            == compared_total(v) && rate.sampled > 0,
{
}

/// Where every selection is verified and none makes a weaker claim, there is
/// nothing to give a reason for.
pub proof fn a_full_pass_has_no_reason(v: Seq<SelectionVerdict>)
    requires
        v.len() > 0,
        forall|i: int|
            0 <= i < v.len() ==> (#[trigger] v[i]).segments is Verified && v[i].records is Verified
                && v[i].downgrade is None,
    ensures
        reason_of(v) is None,
{
    verified_selections_note_nothing(v);
    a_ledger_is_read_by_its_evidence(v);
}

proof fn verified_selections_note_nothing(v: Seq<SelectionVerdict>)
    requires
        forall|i: int|
            0 <= i < v.len() ==> (#[trigger] v[i]).segments is Verified && v[i].records is Verified
                && v[i].downgrade is None,
    ensures
        ledger_notes(v).len() == 0,
    decreases v.len(),
{
    if v.len() > 0 {
        let rest = v.drop_last();
        assert(v[v.len() - 1] == v.last());
        assert forall|i: int| 0 <= i < rest.len() implies (#[trigger] rest[i]).segments is Verified
            && rest[i].records is Verified && rest[i].downgrade is None by {
            assert(rest[i] == v[i]);
        }
        verified_selections_note_nothing(rest);
    }
}

/// What was established byte by byte is told where another selection lowers the
/// claim of all.
pub proof fn what_was_established_is_still_told(v: Seq<SelectionVerdict>, i: int, j: int)
    requires
        0 <= i < v.len(),
        v[i].downgrade is None,
        v[i].reconciled is Some,
        0 <= j < v.len(),
        v[j].downgrade is Some,
    ensures
        reason_of(v) is Some && occurs(reason_of(v)->0, v[i].id@),
{
    let ids = byte_level_ids(v);
    byte_levels_are_kept(v, i);
    let k = choose|k: int| 0 <= k < ids.len() && ids[k] == v[i].id@;
    a_piece_is_found_again(ids, ", "@, k);
    a_ledger_is_read_by_its_evidence(v);
    a_list_of_names_is_told(ids, v[i].id@);
    let all = all_notes(v);
    let n = ledger_notes(v).len() as int;
    assert(all[n] == byte_level_note(ids));
    what_a_piece_holds_is_found_again(all, "; "@, n, v[i].id@);
}

proof fn a_list_of_names_is_told(ids: Seq<Seq<char>>, id: Seq<char>)
    requires
        occurs(joined(ids, ", "@), id),
    ensures
        occurs(byte_level_note(ids), id),
{
    let note = byte_level_note(ids);
    let opening = "byte-fingerprint reconciliation WAS established for "@;
    let told = joined(ids, ", "@);
    let after = note.skip((opening.len() + told.len()) as int);
    found_within(opening, told, after, id);
    assert(opening + told + after =~= note);
}

proof fn byte_levels_are_kept(v: Seq<SelectionVerdict>, i: int)
    requires
        0 <= i < v.len(),
        v[i].downgrade is None,
        v[i].reconciled is Some,
    ensures
        byte_level_ids(v).contains(v[i].id@),
    decreases v.len(),
{
    let (all, was) = (byte_level_ids(v), byte_level_ids(v.drop_last()));
    if i < v.len() - 1 {
        assert(v.drop_last()[i] == v[i]);
        byte_levels_are_kept(v.drop_last(), i);
        let k = choose|k: int| 0 <= k < was.len() && was[k] == v[i].id@;
        assert(all[k] == was[k]);
    } else {
        assert(all[all.len() - 1] == v[i].id@);
    }
}

} // verus!
