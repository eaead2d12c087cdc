//! The record of each phase, as the document carries it.
use vstd::prelude::*;
use crate::clock::{now, start_watch, watched_ms, Timestamp};
use crate::drill::error::{DrillError, ErrorModel};
use crate::drill::scorecard::{find_phase, phase_at, PhaseRecord, Scorecard};
use crate::text::texts;

verus! {

/// When a phase started, and how long it took.
#[derive(Clone, Copy, Debug)]
pub struct Stamp {
    pub at: Timestamp,
    pub duration_ms: u64,
}

/// How a phase ended, in the record's words.
pub open spec fn ending_text(failure: Option<ErrorModel>) -> Seq<char> {
    match failure {
        None => "ok"@,
        Some(e) => "failed: "@ + e.message(),
    }
}

/// The failure of a result, where it is one.
pub open spec fn failure_of<T>(r: Result<T, DrillError>) -> Option<ErrorModel> {
    match r {
        Ok(_) => None,
        Err(e) => Some(e@),
    }
}

/// A record of a phase was added at the end.
pub open spec fn phase_added(
    before: Seq<PhaseRecord>,
    after: Seq<PhaseRecord>,
    phase: i8,
    name: Seq<char>,
    failure: Option<ErrorModel>,
) -> bool {
    &&& after.len() == before.len() + 1
    &&& after.drop_last() == before
    &&& after.last().phase == phase
    &&& after.last().name@ == name
    &&& after.last().outcome@ == ending_text(failure)
    &&& after.last().notes@.len() == 0
}

/// A record was added for a phase, and nothing else changed but the last phase
/// that completed.
pub open spec fn recorded(
    before: Scorecard,
    after: Scorecard,
    phase: i8,
    name: Seq<char>,
    failure: Option<ErrorModel>,
) -> bool {
    &&& after == (Scorecard {
        phases: after.phases,
        last_phase_completed: after.last_phase_completed,
        ..before
    })
    &&& phase_added(before.phases@, after.phases@, phase, name, failure)
    &&& after.last_phase_completed == if failure is None {
        phase
    } else {
        before.last_phase_completed
    }
}

/// Adds the record of a phase that ended one way or the other.
pub fn record_phase(
    sc: &mut Scorecard,
    phase: i8,
    name: &str,
    stamp: Stamp,
    failure: Option<&DrillError>,
)
    ensures
        recorded(
            *old(sc),
            *final(sc),
            phase,
            name@,
            match failure {
                None => None,
                Some(e) => Some(e@),
            },
        ),
        final(sc).phases@.last().at == stamp.at,
        final(sc).phases@.last().duration_ms == stamp.duration_ms,
{
    let outcome = match failure {
        None => "ok".to_owned(),
        Some(e) => {
            let mut s = "failed: ".to_owned();
            s.append(e.message().as_str());
            s
        },
    };
    let ghost before = sc.phases@;
    sc.phases.push(
        PhaseRecord {
            phase,
            name: name.to_owned(),
            at: stamp.at,
            outcome,
            duration_ms: stamp.duration_ms,
            notes: Vec::new(),
        },
    );
    proof {
        assert(sc.phases@.drop_last() =~= before);
    }
    if failure.is_none() {
        sc.last_phase_completed = phase;
    }
}

/// Runs one phase and adds its record, whether it succeeds or fails.
pub fn record<T, F: FnOnce() -> Result<T, DrillError>>(
    sc: &mut Scorecard,
    phase: i8,
    name: &str,
    f: F,
) -> (r: Result<T, DrillError>)
    requires
        f.requires(()),
    ensures
        f.ensures((), r),
        recorded(*old(sc), *final(sc), phase, name@, failure_of(r)),
{
    let at = now();
    let watch = start_watch();
    let r = f();
    let stamp = Stamp { at, duration_ms: watched_ms(&watch) };
    match &r {
        Ok(_) => record_phase(sc, phase, name, stamp, None),
        Err(e) => record_phase(sc, phase, name, stamp, Some(e)),
    }
    r
}

/// The notes of a phase's first record were replaced, where there is one, and
/// nothing else changed.
pub open spec fn renoted(
    before: Seq<PhaseRecord>,
    after: Seq<PhaseRecord>,
    phase: int,
    notes: Seq<Seq<char>>,
) -> bool {
    match phase_at(before, phase) {
        None => after == before,
        Some(i) => {
            &&& after.len() == before.len()
            &&& forall|j: int| 0 <= j < before.len() && j != i ==> #[trigger] after[j] == before[j]
            &&& after[i] == (PhaseRecord { notes: after[i].notes, ..before[i] })
            &&& texts(after[i].notes@) == notes
        },
    }
}

/// Replaces the notes of a phase's first record, where there is one.
pub fn set_notes(sc: &mut Scorecard, phase: i8, notes: Vec<String>)
    ensures
        renoted(old(sc).phases@, final(sc).phases@, phase as int, texts(notes@)),
        *final(sc) == (Scorecard { phases: final(sc).phases, ..*old(sc) }),
{
    match find_phase(&sc.phases, phase) {
        Some(i) => {
            let ghost before = sc.phases@;
            let mut record = sc.phases.remove(i);
            record.notes = notes;
            sc.phases.insert(i, record);
            proof {
                assert forall|j: int| 0 <= j < before.len() && j != i implies
                    #[trigger] sc.phases@[j] == before[j] by {}
            }
        },
        None => {},
    }
}

/// How long a phase took, by its first record, and 0 where it has none.
pub open spec fn duration_of(phases: Seq<PhaseRecord>, phase: int) -> u64 {
    match phase_at(phases, phase) {
        Some(i) => phases[i].duration_ms,
        None => 0,
    }
}

/// How long a phase took, by its first record, and 0 where it has none.
pub fn phase_duration(sc: &Scorecard, phase: i8) -> (r: u64)
    ensures
        r == duration_of(sc.phases@, phase as int),
{
    match find_phase(&sc.phases, phase) {
        Some(i) => sc.phases[i].duration_ms,
        None => 0,
    }
}

/// The phases from the first on, each completed, up to and with the last.
pub open spec fn completed_up_to(phases: Seq<PhaseRecord>, last: int) -> bool {
    &&& phases.len() == last + 1
    &&& forall|i: int|
        0 <= i <= last ==> (#[trigger] phases[i]).phase == i && phases[i].outcome@ == "ok"@
}

/// The phase that a document counts as the last completed is the last whose
/// record says so, however many phases are recorded and however they end.
pub proof fn the_last_completed_phase_is_recorded(
    before: Scorecard,
    after: Scorecard,
    phase: i8,
    name: Seq<char>,
    failure: Option<ErrorModel>,
)
    requires
        recorded(before, after, phase, name, failure),
        counts_last_completed(before),
    ensures
        counts_last_completed(after),
{
    let i = last_completed(before.phases@);
    if failure is Some {
        let m = failure->0.message();
        reveal_strlit("failed: ");
        reveal_strlit("ok");
        assert(("failed: "@ + m)[0] == 'f');
        assert(after.phases@.last().outcome@ != "ok"@);
    }
}

/// The last record of a phase that completed.
pub open spec fn last_completed(phases: Seq<PhaseRecord>) -> Option<i8>
    decreases phases.len(),
{
    if phases.len() == 0 {
        None
    } else if phases.last().outcome@ == "ok"@ {
        Some(phases.last().phase)
    } else {
        last_completed(phases.drop_last())
    }
}

/// The phase that a document counts as the last completed is the last whose
/// record says so; -1 stands for none.
pub open spec fn counts_last_completed(sc: Scorecard) -> bool {
    match last_completed(sc.phases@) {
        Some(p) => sc.last_phase_completed == p,
        None => sc.last_phase_completed == -1,
    }
}

} // verus!
