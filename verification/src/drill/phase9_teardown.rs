//! Taking the scratch topics away again, and saying what could not be taken
//! away.
use vstd::prelude::*;
use crate::clock::{now, Timestamp};
use crate::drill::error::{DrillError, KafkaError};
use crate::drill::persist::{persist_agrees, persist_step, PersistQuestion, PersistReads};
use crate::drill::phase0_admit::PerTopic;
use crate::drill::scorecard::{find_phase, phase_notes, Scorecard};
use crate::drill::spec::TargetMode;
use crate::drill::step::Step;
use crate::text::{
    chars_of, decimal, find_from, first_at, join, joined, occurs_at, string_of, strip_prefix,
    texts, u64_text, without_opening,
};
use crate::textmap::{values_of, TextMap};

verus! {

/// What was taken away, and what was not.
#[derive(Debug)]
pub struct TeardownAttestation {
    pub run_id: String,
    pub target_mode: TargetMode,
    /// The digest of the signed document that this one accompanies.
    pub scorecard_sha256: String,
    pub teardown_policy: String,
    pub topics_deleted: Vec<String>,
    /// Each topic that is still there, and why.
    pub topics_failed: Vec<(String, String)>,
    pub deleted_at: Timestamp,
}

/// Topics are taken away only where they were scratch topics and the policy
/// says so.
pub open spec fn deletes(mode: TargetMode, policy: Seq<char>) -> bool {
    mode == TargetMode::Scratch && policy == "delete"@
}

/// The topics that the broker deleted, in order.
pub open spec fn deleted_names(results: Seq<(String, Result<(), String>)>) -> Seq<Seq<char>>
    decreases results.len(),
{
    if results.len() == 0 {
        Seq::empty()
    } else if results.last().1 is Ok {
        deleted_names(results.drop_last()).push(results.last().0@)
    } else {
        deleted_names(results.drop_last())
    }
}

/// The topics that the broker did not delete, in order, and why.
pub open spec fn undeleted(results: Seq<(String, Result<(), String>)>) -> Seq<
    (Seq<char>, Seq<char>),
>
    decreases results.len(),
{
    if results.len() == 0 {
        Seq::empty()
    } else {
        match results.last().1 {
            Ok(_) => undeleted(results.drop_last()),
            Err(e) => undeleted(results.drop_last()).push((results.last().0@, e@)),
        }
    }
}

/// The names and reasons of a list of failures.
pub open spec fn failures(v: Seq<(String, String)>) -> Seq<(Seq<char>, Seq<char>)> {
    Seq::new(v.len(), |i: int| (v[i].0@, v[i].1@))
}

/// Every target topic failed, for one reason.
pub open spec fn all_failed(targets: Seq<Seq<char>>, why: Seq<char>) -> Seq<(Seq<char>, Seq<char>)> {
    Seq::new(targets.len(), |i: int| (targets[i], why))
}

/// What an attestation says, given the broker's answer where one was asked
/// for.
pub open spec fn attested(
    a: TeardownAttestation,
    targets: Seq<Seq<char>>,
    policy: Seq<char>,
    mode: TargetMode,
    run_id: Seq<char>,
    scorecard_sha256: Seq<char>,
    answer: Option<Result<PerTopic, KafkaError>>,
) -> bool {
    &&& a.run_id@ == run_id
    &&& a.target_mode == mode
    &&& a.scorecard_sha256@ == scorecard_sha256
    &&& a.teardown_policy@ == policy
    &&& if !deletes(mode, policy) {
        a.topics_deleted@.len() == 0 && a.topics_failed@.len() == 0
    } else {
        match answer {
            Some(Ok(results)) => texts(a.topics_deleted@) == deleted_names(results@) && failures(
                a.topics_failed@,
            ) == undeleted(results@),
            Some(Err(e)) => a.topics_deleted@.len() == 0 && failures(a.topics_failed@)
                == all_failed(targets, e.said()),
            None => false,
        }
    }
}

/// Takes the scratch topics away, at an instant. Where topics are to be
/// deleted, the broker is asked to delete every target topic of the mapping;
/// what it does not delete is attested as failed and never as deleted.
pub fn run_at(
    mapping: &TextMap,
    policy: &str,
    mode: TargetMode,
    run_id: &str,
    scorecard_sha256: &str,
    answer: &Option<Result<PerTopic, KafkaError>>,
    deleted_at: Timestamp,
) -> (r: Step<Vec<String>, TeardownAttestation>)
    ensures
        if deletes(mode, policy@) && answer is None {
            r matches Step::Ask(names) && texts(names@) == values_of(mapping@)
        } else {
            &&& r matches Step::Done(a)
            &&& attested(
                a,
                values_of(mapping@),
                policy@,
                mode,
                run_id@,
                scorecard_sha256@,
                *answer,
            )
            &&& a.deleted_at == deleted_at
        },
{
    let mut topics_deleted: Vec<String> = Vec::new();
    let mut topics_failed: Vec<(String, String)> = Vec::new();
    if mode == TargetMode::Scratch && policy.to_owned() == "delete".to_owned() {
        match answer {
            None => {
                return Step::Ask(target_names(mapping));
            },
            Some(Ok(results)) => {
                let mut i: usize = 0;
                proof {
                    assert(results@.take(0) =~= Seq::empty());
                    assert(texts(topics_deleted@) =~= Seq::empty());
                    assert(failures(topics_failed@) =~= Seq::empty());
                }
                while i < results.len()
                    invariant
                        0 <= i <= results.len(),
                        texts(topics_deleted@) == deleted_names(results@.take(i as int)),
                        failures(topics_failed@) == undeleted(results@.take(i as int)),
                    decreases results.len() - i,
                {
                    let ghost (was_d, was_f) = (texts(topics_deleted@), failures(topics_failed@));
                    proof {
                        assert(results@.take(i + 1).drop_last() =~= results@.take(i as int));
                        assert(results@.take(i + 1).last() == results@[i as int]);
                    }
                    match &results[i].1 {
                        Ok(_) => {
                            topics_deleted.push(results[i].0.clone());
                            proof {
                                assert(texts(topics_deleted@) =~= was_d.push(
                                    results@[i as int].0@,
                                ));
                            }
                        },
                        Err(e) => {
                            topics_failed.push((results[i].0.clone(), e.clone()));
                            proof {
                                assert(failures(topics_failed@) =~= was_f.push(
                                    (results@[i as int].0@, e@),
                                ));
                            }
                        },
                    }
                    i += 1;
                }
                proof {
                    assert(results@.take(results.len() as int) =~= results@);
                }
            },
            Some(Err(e)) => {
                let n: usize = mapping.len();
                let mut i: usize = 0;
                while i < n
                    invariant
                        0 <= i <= n == mapping@.len(),
                        topics_failed.len() == i,
                        forall|j: int|
                            0 <= j < i ==> (#[trigger] topics_failed@[j]).0@ == mapping@[j].1
                                && topics_failed@[j].1@ == e.said(),
                    decreases n - i,
                {
                    topics_failed.push((mapping.value(i).to_owned(), e.text().to_owned()));
                    i += 1;
                }
                proof {
                    assert(failures(topics_failed@) =~= all_failed(
                        values_of(mapping@),
                        e.said(),
                    ));
                }
            },
        }
    }
    Step::Done(
        TeardownAttestation {
            run_id: run_id.to_owned(),
            target_mode: mode,
            scorecard_sha256: scorecard_sha256.to_owned(),
            teardown_policy: policy.to_owned(),
            topics_deleted,
            topics_failed,
            deleted_at,
        },
    )
}

/// The target topics of a mapping.
pub fn target_names(mapping: &TextMap) -> (r: Vec<String>)
    ensures
        texts(r@) == values_of(mapping@),
{
    let mut out: Vec<String> = Vec::new();
    let n: usize = mapping.len();
    let mut i: usize = 0;
    while i < n
        invariant
            0 <= i <= n == mapping@.len(),
            out.len() == i,
            forall|j: int| 0 <= j < i ==> (#[trigger] out@[j])@ == mapping@[j].1,
        decreases n - i,
    {
        out.push(mapping.value(i).to_owned());
        i += 1;
    }
    proof {
        assert(texts(out@) =~= values_of(mapping@));
    }
    out
}

/// Takes the scratch topics away, now.
pub fn run(
    mapping: &TextMap,
    policy: &str,
    mode: TargetMode,
    run_id: &str,
    scorecard_sha256: &str,
    answer: &Option<Result<PerTopic, KafkaError>>,
) -> (r: Step<Vec<String>, TeardownAttestation>)
    ensures
        if deletes(mode, policy@) && answer is None {
            r matches Step::Ask(names) && texts(names@) == values_of(mapping@)
        } else {
            r matches Step::Done(a) && attested(
                a,
                values_of(mapping@),
                policy@,
                mode,
                run_id@,
                scorecard_sha256@,
                *answer,
            )
        },
{
    run_at(mapping, policy, mode, run_id, scorecard_sha256, answer, now())
}

/// The opening of a note on a topic that could not be taken away.
pub const TEARDOWN_FAILED_NOTE_PREFIX: &'static str = "teardown-failed: ";

/// The names of a list of failures.
pub open spec fn failed_names(v: Seq<(String, String)>) -> Seq<Seq<char>> {
    Seq::new(v.len(), |i: int| v[i].0@)
}

/// The topics that could not be taken away.
pub fn failed_topic_names(att: &TeardownAttestation) -> (r: Vec<String>)
    ensures
        texts(r@) == failed_names(att.topics_failed@),
{
    let mut out: Vec<String> = Vec::new();
    let mut i: usize = 0;
    while i < att.topics_failed.len()
        invariant
            0 <= i <= att.topics_failed.len(),
            out.len() == i,
            forall|j: int| 0 <= j < i ==> (#[trigger] out@[j])@ == att.topics_failed@[j].0@,
        decreases att.topics_failed.len() - i,
    {
        out.push(att.topics_failed[i].0.clone());
        i += 1;
    }
    proof {
        assert(texts(out@) =~= failed_names(att.topics_failed@));
    }
    out
}

/// One topic, or several.
pub open spec fn topic_word(n: nat) -> Seq<char> {
    if n == 1 {
        "topic"@
    } else {
        "topics"@
    }
}

/// What there is to warn of, where a topic could not be taken away.
pub open spec fn warning_text(names: Seq<Seq<char>>) -> Option<Seq<char>> {
    if names.len() == 0 {
        None
    } else {
        Some(
            "teardown left "@ + decimal(names.len()) + " scratch "@ + topic_word(names.len())
                + " behind on the target cluster: "@ + joined(names, ", "@),
        )
    }
}

/// What there is to warn of, where a topic could not be taken away.
pub fn teardown_warning(att: &TeardownAttestation) -> (r: Option<String>)
    ensures
        match warning_text(failed_names(att.topics_failed@)) {
            Some(t) => r matches Some(s) && s@ == t,
            None => r is None,
        },
{
    let names = failed_topic_names(att);
    proof {
        assert(texts(names@).len() == names@.len());
    }
    if names.len() == 0 {
        return None;
    }
    let mut s = "teardown left ".to_owned();
    s.append(u64_text(names.len() as u64).as_str());
    s.append(" scratch ");
    if names.len() == 1 {
        s.append("topic");
    } else {
        s.append("topics");
    }
    s.append(" behind on the target cluster: ");
    s.append(join(&names, ", ").as_str());
    Some(s)
}

/// The note on a topic that could not be taken away.
pub open spec fn failure_note(topic: Seq<char>, why: Seq<char>) -> Seq<char> {
    "teardown-failed: "@ + topic + ": "@ + why
}

/// The notes on the topics that could not be taken away.
pub open spec fn notes_of(v: Seq<(String, String)>) -> Seq<Seq<char>> {
    Seq::new(v.len(), |i: int| failure_note(v[i].0@, v[i].1@))
}

/// The notes on the topics that could not be taken away.
pub fn failure_notes(att: &TeardownAttestation) -> (r: Vec<String>)
    ensures
        texts(r@) == notes_of(att.topics_failed@),
{
    let mut out: Vec<String> = Vec::new();
    let mut i: usize = 0;
    while i < att.topics_failed.len()
        invariant
            0 <= i <= att.topics_failed.len(),
            out.len() == i,
            forall|j: int|
                0 <= j < i ==> (#[trigger] out@[j])@ == failure_note(
                    att.topics_failed@[j].0@,
                    att.topics_failed@[j].1@,
                ),
        decreases att.topics_failed.len() - i,
    {
        let mut s = "teardown-failed: ".to_owned();
        s.append(att.topics_failed[i].0.as_str());
        s.append(": ");
        s.append(att.topics_failed[i].1.as_str());
        out.push(s);
        i += 1;
    }
    proof {
        assert(texts(out@) =~= notes_of(att.topics_failed@));
    }
    out
}

/// What stands before the first `: `, or all of the text where there is none.
pub open spec fn before_colon(s: Seq<char>) -> Seq<char> {
    match first_at(s, ": "@, 0) {
        Some(i) => s.take(i),
        None => s,
    }
}

/// What stands before the first `: `.
fn name_in(s: &str) -> (r: String)
    ensures
        r@ == before_colon(s@),
{
    let chars = chars_of(s);
    let mark = chars_of(": ");
    match find_from(&chars, &mark, 0) {
        Some(i) => {
            proof {
                assert(s@.take(i as int) =~= s@.subrange(0, i as int));
            }
            string_of(&chars, 0, i)
        },
        None => s.to_owned(),
    }
}

/// The topics that notes name as not taken away, in order.
pub open spec fn named_failures(notes: Seq<Seq<char>>) -> Seq<Seq<char>>
    decreases notes.len(),
{
    if notes.len() == 0 {
        Seq::empty()
    } else {
        let rest = named_failures(notes.drop_last());
        match without_opening(notes.last(), "teardown-failed: "@) {
            Some(text) => rest.push(before_colon(text)),
            None => rest,
        }
    }
}

/// The topics that notes name as not taken away.
fn names_in_notes(notes: &Vec<String>) -> (r: Vec<String>)
    ensures
        texts(r@) == named_failures(texts(notes@)),
{
    let ghost all = texts(notes@);
    let mut out: Vec<String> = Vec::new();
    let mut i: usize = 0;
    proof {
        assert(all.take(0) =~= Seq::empty());
        assert(texts(out@) =~= Seq::empty());
    }
    while i < notes.len()
        invariant
            0 <= i <= notes.len(),
            all == texts(notes@),
            texts(out@) == named_failures(all.take(i as int)),
        decreases notes.len() - i,
    {
        let ghost before = texts(out@);
        proof {
            assert(all.take(i + 1).drop_last() =~= all.take(i as int));
            assert(all.take(i + 1).last() == notes@[i as int]@);
        }
        if let Some(text) = strip_prefix(notes[i].as_str(), TEARDOWN_FAILED_NOTE_PREFIX) {
            out.push(name_in(text.as_str()));
            proof {
                assert(texts(out@) =~= before.push(before_colon(text@)));
            }
        }
        i += 1;
    }
    proof {
        assert(all.take(notes.len() as int) =~= all);
    }
    out
}

/// How many topics the document's teardown record names as not taken away.
pub fn failed_count(sc: &Scorecard) -> (r: u64)
    ensures
        r == named_failures(texts(phase_notes(sc.phases@, 9))).len(),
{
    match find_phase(&sc.phases, 9) {
        Some(i) => {
            let names = names_in_notes(&sc.phases[i].notes);
            proof {
                assert(texts(names@).len() == names@.len());
            }
            names.len() as u64
        },
        None => {
            proof {
                assert(texts(phase_notes(sc.phases@, 9)) =~= Seq::empty());
            }
            0
        },
    }
}

/// The topics that the document's teardown record names as not taken away.
pub fn failed_topic_names_from_notes(sc: &Scorecard) -> (r: Vec<String>)
    ensures
        texts(r@) == named_failures(texts(phase_notes(sc.phases@, 9))),
{
    match find_phase(&sc.phases, 9) {
        Some(i) => names_in_notes(&sc.phases[i].notes),
        None => {
            let none: Vec<String> = Vec::new();
            proof {
                assert(texts(phase_notes(sc.phases@, 9)) =~= Seq::empty());
                assert(texts(none@) =~= Seq::empty());
            }
            none
        },
    }
}

/// The notes give back the topics that they were written for, in order, as long
/// as no topic's name holds a colon and a space.
pub proof fn notes_name_the_topics(v: Seq<(String, String)>)
    requires
        forall|i: int|
            #![trigger v[i]]
            0 <= i < v.len() ==> forall|k: int| !occurs_at(v[i].0@ + ":"@, ": "@, k),
    ensures
        named_failures(notes_of(v)) == failed_names(v),
    decreases v.len(),
{
    if v.len() == 0 {
        assert(notes_of(v) =~= Seq::empty());
        assert(failed_names(v) =~= Seq::empty());
    } else {
        let rest = v.drop_last();
        assert forall|i: int| #![trigger rest[i]] 0 <= i < rest.len() implies forall|k: int|
            !occurs_at(rest[i].0@ + ":"@, ": "@, k) by {
            assert(rest[i] == v[i]);
        }
        notes_name_the_topics(rest);
        assert(notes_of(v).drop_last() =~= notes_of(rest));
        assert(failed_names(v) =~= failed_names(rest).push(v.last().0@));
        let (topic, why) = (v.last().0@, v.last().1@);
        assert(v[v.len() - 1] == v.last());
        let opening = "teardown-failed: "@;
        let note = failure_note(topic, why);
        let text = topic + ": "@ + why;
        assert(note =~= opening + text);
        assert(note.subrange(0, opening.len() as int) =~= opening);
        assert(note.skip(opening.len() as int) =~= text);
        first_colon(topic, why);
        assert(text.take(topic.len() as int) =~= topic);
    }
}

/// The first colon and space behind a name without one.
proof fn first_colon(topic: Seq<char>, why: Seq<char>)
    requires
        forall|k: int| !occurs_at(topic + ":"@, ": "@, k),
    ensures
        first_at(topic + ": "@ + why, ": "@, 0) == Some(topic.len() as int),
{
    reveal_strlit(": ");
    reveal_strlit(":");
    let text = topic + ": "@ + why;
    assert(occurs_at(text, ": "@, topic.len() as int)) by {
        assert(text.subrange(topic.len() as int, topic.len() as int + 2) =~= ": "@);
    }
    assert forall|k: int| 0 <= k < topic.len() implies !occurs_at(text, ": "@, k) by {
        if occurs_at(text, ": "@, k) {
            let short = topic + ":"@;
            assert(text.subrange(k, k + 2)[0] == text[k]);
            assert(text.subrange(k, k + 2)[1] == text[k + 1]);
            assert(short.subrange(k, k + 2) =~= ": "@);
            assert(occurs_at(short, ": "@, k));
        }
    }
    first_at_is(text, ": "@, 0, topic.len() as int);
}

/// The first index is the one before which there is none.
proof fn first_at_is(s: Seq<char>, needle: Seq<char>, from: int, at: int)
    requires
        0 <= from <= at,
        occurs_at(s, needle, at),
        forall|k: int| from <= k < at ==> !occurs_at(s, needle, k),
    ensures
        first_at(s, needle, from) == Some(at),
    decreases at - from,
{
    if from < at {
        first_at_is(s, needle, from + 1, at);
    }
}

/// A topic is attested, as taken away or as still there, only where scratch
/// topics were to be deleted and the broker answered.
pub proof fn nothing_is_deleted_unless_asked(
    a: TeardownAttestation,
    targets: Seq<Seq<char>>,
    policy: Seq<char>,
    mode: TargetMode,
    run_id: Seq<char>,
    scorecard_sha256: Seq<char>,
    answer: Option<Result<PerTopic, KafkaError>>,
)
    requires
        attested(a, targets, policy, mode, run_id, scorecard_sha256, answer),
        a.topics_deleted@.len() > 0 || a.topics_failed@.len() > 0,
    ensures
        mode == TargetMode::Scratch,
        policy == "delete"@,
        answer is Some,
{
}

/// Every topic that the broker answered for is attested once: as taken away, or
/// as still there.
pub proof fn every_topic_is_accounted_for(results: Seq<(String, Result<(), String>)>)
    ensures
        deleted_names(results).len() + undeleted(results).len() == results.len(),
    decreases results.len(),
{
    if results.len() > 0 {
        every_topic_is_accounted_for(results.drop_last());
    }
}

/// The next step of storing an attestation.
pub fn persist(att: &TeardownAttestation, reads: &PersistReads) -> (r: Step<
    PersistQuestion,
    Result<(), DrillError>,
>)
    ensures
        persist_agrees(
            r,
            persist_step(att.run_id@, ".teardown.json"@, ".teardown.sig"@, *reads),
        ),
{
    crate::drill::persist::persist(
        att.run_id.as_str(),
        ".teardown.json",
        ".teardown.sig",
        reads,
    )
}

} // verus!
