//! Judging what a restore left on the target.
use vstd::prelude::*;
use crate::clock::Timestamp;
use crate::drill::error::{DrillError, EngineError, ErrorModel, KafkaError};
use crate::drill::phase2_target::copy_offsets;
use crate::drill::step::Step;
use crate::text::{copy_texts, texts};
use crate::namemap::{held, last_named, names_ascend, NameMap};
use crate::textmap::{values_of, TextMap};

verus! {

/// What the engine reports of a restore that it completed.
#[derive(Debug)]
pub struct RestoreFacts {
    pub started_at: Timestamp,
    pub finished_at: Timestamp,
    /// The settings that the engine did not know.
    pub unknown_key_warnings: Vec<String>,
}

/// A restore that left something on the target.
#[derive(Debug)]
pub struct Restored {
    pub started_at: Timestamp,
    pub finished_at: Timestamp,
    /// The end offsets of each target topic's partitions.
    pub restored_end_offsets: NameMap<Vec<(i32, i64)>>,
    pub unknown_key_warnings: Vec<String>,
}

/// Some partition of a topic holds a record.
pub open spec fn holds_a_record(ends: Seq<(i32, i64)>) -> bool {
    exists|i: int| 0 <= i < ends.len() && (#[trigger] ends[i]).1 > 0
}

/// Some partition of some topic holds a record.
pub open spec fn any_record(topics: Seq<(Seq<char>, Vec<(i32, i64)>)>) -> bool {
    exists|i: int| 0 <= i < topics.len() && holds_a_record((#[trigger] topics[i]).1@)
}

/// What a restore's end offsets say of it: nothing, where no topic was
/// restored; that it did nothing, where no partition holds a record.
pub open spec fn post_condition(topics: Seq<(Seq<char>, Vec<(i32, i64)>)>) -> Result<(), ErrorModel> {
    if topics.len() == 0 {
        Err(
            ErrorModel::Operational(
                "post-condition inconclusive: no destination topic was selected for restore (the topic mapping is empty), so nothing can be concluded about whether the restore ran. This is an upstream guard/spec defect, not a finding about the restore itself."@,
            ),
        )
    } else if any_record(topics) {
        Ok(())
    } else {
        Err(
            ErrorModel::RestoreNoOp(
                "post-condition failed: every selected partition on the target has end offset 0 after the restore. The restore was a no-op (a `dry_run` reached the engine, or the selected window held no records). Refusing to score as a pass."@,
            ),
        )
    }
}

/// Judges a restore by the end offsets that it left.
pub fn assert_post_condition(end_offsets: &NameMap<Vec<(i32, i64)>>) -> (r: Result<
    (),
    DrillError,
>)
    ensures
        match post_condition(end_offsets@) {
            Ok(_) => r is Ok,
            Err(m) => r matches Err(e) && e@ == m,
        },
{
    let n: usize = end_offsets.len();
    if n == 0 {
        return Err(
            DrillError::Operational(
                "post-condition inconclusive: no destination topic was selected for restore (the topic mapping is empty), so nothing can be concluded about whether the restore ran. This is an upstream guard/spec defect, not a finding about the restore itself.".to_owned(),
            ),
        );
    }
    let mut i: usize = 0;
    while i < n
        invariant
            0 <= i <= n == end_offsets@.len(),
            n > 0,
            forall|j: int| 0 <= j < i ==> !holds_a_record((#[trigger] end_offsets@[j]).1@),
        decreases n - i,
    {
        let ends = end_offsets.value(i);
        let mut k: usize = 0;
        while k < ends.len()
            invariant
                0 <= i < n == end_offsets@.len(),
                *ends == end_offsets@[i as int].1,
                0 <= k <= ends.len(),
                forall|j: int| 0 <= j < k ==> (#[trigger] ends@[j]).1 <= 0,
            decreases ends.len() - k,
        {
            if ends[k].1 > 0 {
                proof {
                    assert(ends@[k as int].1 > 0);
                    assert(holds_a_record(end_offsets@[i as int].1@));
                }
                return Ok(());
            }
            k += 1;
        }
        i += 1;
    }
    Err(
        DrillError::RestoreNoOp(
            "post-condition failed: every selected partition on the target has end offset 0 after the restore. The restore was a no-op (a `dry_run` reached the engine, or the selected window held no records). Refusing to score as a pass.".to_owned(),
        ),
    )
}

/// The end offsets of each target topic, under its name, as they were read last.
pub open spec fn offsets_are(
    topics: Seq<(Seq<char>, Vec<(i32, i64)>)>,
    targets: Seq<Seq<char>>,
    ends: Seq<Vec<(i32, i64)>>,
) -> bool {
    &&& names_ascend(topics)
    &&& forall|name: Seq<char>|
        match last_named(targets, name) {
            Some(i) => #[trigger] held(topics, name) matches Some(e) && e@ == ends[i]@,
            None => held(topics, name) is None,
        }
}

/// What a completed restore comes to: each target topic's end offsets are asked
/// for in turn, and then the restore is judged by them.
pub open spec fn restore_is(
    r: Step<String, Result<Restored, DrillError>>,
    targets: Seq<Seq<char>>,
    facts: RestoreFacts,
    ends: Seq<Vec<(i32, i64)>>,
) -> bool {
    if ends.len() < targets.len() {
        r matches Step::Ask(topic) && topic@ == targets[ends.len() as int]
    } else {
        exists|topics: Seq<(Seq<char>, Vec<(i32, i64)>)>|
            {
                &&& #[trigger] offsets_are(topics, targets, ends)
                &&& match post_condition(topics) {
                    Err(m) => r matches Step::Done(Err(e)) && e@ == m,
                    Ok(_) => {
                        &&& r matches Step::Done(Ok(restored))
                        &&& restored.started_at == facts.started_at
                        &&& restored.finished_at == facts.finished_at
                        &&& restored.restored_end_offsets@ == topics
                        &&& texts(restored.unknown_key_warnings@) == texts(
                            facts.unknown_key_warnings@,
                        )
                    },
                }
            }
    }
}

/// A topic that was read again stands as it was read then.
proof fn one_more_topic(
    before: Seq<(Seq<char>, Vec<(i32, i64)>)>,
    after: Seq<(Seq<char>, Vec<(i32, i64)>)>,
    targets: Seq<Seq<char>>,
    next: Seq<char>,
    read: Vec<(i32, i64)>,
    ends: Seq<Vec<(i32, i64)>>,
)
    requires
        offsets_are(before, targets, ends),
        names_ascend(after),
        held(after, next) == Some(read),
        forall|other: Seq<char>|
            other != next ==> #[trigger] held(after, other) == held(before, other),
        read@ == ends[targets.len() as int]@,
    ensures
        offsets_are(after, targets.push(next), ends),
{
    assert(targets.push(next).drop_last() =~= targets);
    assert forall|name: Seq<char>|
        match last_named(targets.push(next), name) {
            Some(i) => #[trigger] held(after, name) matches Some(e) && e@ == ends[i]@,
            None => held(after, name) is None,
        } by {
        if name != next {
            assert(held(after, name) == held(before, name));
        }
    }
}

/// Judges a restore that the engine completed, from the end offsets read so
/// far.
pub fn judge(mapping: &TextMap, facts: &RestoreFacts, ends: &Vec<Vec<(i32, i64)>>) -> (r: Step<
    String,
    Result<Restored, DrillError>,
>)
    ensures
        restore_is(r, values_of(mapping@), *facts, ends@),
{
    let n: usize = mapping.len();
    if ends.len() < n {
        return Step::Ask(mapping.value(ends.len()).to_owned());
    }
    let ghost targets = values_of(mapping@);
    let mut restored_end_offsets: NameMap<Vec<(i32, i64)>> = NameMap::new();
    let mut i: usize = 0;
    proof {
        assert(targets.take(0) =~= Seq::empty());
    }
    while i < n
        invariant
            0 <= i <= n == mapping@.len(),
            n <= ends.len(),
            targets == values_of(mapping@),
            offsets_are(restored_end_offsets@, targets.take(i as int), ends@),
        decreases n - i,
    {
        let ghost before = restored_end_offsets@;
        let read = copy_offsets(&ends[i]);
        restored_end_offsets.insert(mapping.value(i).to_owned(), read);
        proof {
            assert(targets.take(i + 1) =~= targets.take(i as int).push(targets[i as int]));
            one_more_topic(
                before,
                restored_end_offsets@,
                targets.take(i as int),
                targets[i as int],
                read,
                ends@,
            );
        }
        i += 1;
    }
    proof {
        assert(targets.take(n as int) =~= targets);
    }
    let ghost topics = restored_end_offsets@;
    assert(offsets_are(topics, targets, ends@));
    match assert_post_condition(&restored_end_offsets) {
        Err(e) => Step::Done(Err(e)),
        Ok(_) => Step::Done(
            Ok(
                Restored {
                    started_at: facts.started_at,
                    finished_at: facts.finished_at,
                    restored_end_offsets,
                    unknown_key_warnings: copy_texts(&facts.unknown_key_warnings),
                },
            ),
        ),
    }
}

/// What has been asked of a restore so far.
#[derive(Debug)]
pub struct RestoreReads {
    /// What the engine said of it.
    pub restored: Option<Result<RestoreFacts, EngineError>>,
    /// The end offsets of the target topics, in order.
    pub ends: Vec<Vec<(i32, i64)>>,
    /// Why the read that was asked for last failed, where it did.
    pub failed: Option<KafkaError>,
}

/// What is asked of a restore next.
#[derive(Debug)]
pub enum RestoreQuestion {
    /// To restore, as planned.
    Restore,
    EndOffsets(String),
}

/// How a restore stands: the engine restores once, and a failure of the engine
/// or of the cluster ends it.
pub open spec fn restoring_is(
    r: Step<RestoreQuestion, Result<Restored, DrillError>>,
    targets: Seq<Seq<char>>,
    reads: RestoreReads,
) -> bool {
    match (reads.restored, reads.failed) {
        (None, _) => r matches Step::Ask(RestoreQuestion::Restore),
        (Some(Err(e)), _) => r matches Step::Done(Err(d)) && d@ == ErrorModel::Engine(e),
        (Some(Ok(_)), Some(e)) => r matches Step::Done(Err(d)) && d@ == ErrorModel::Kafka(e),
        (Some(Ok(facts)), None) => {
            exists|q: Step<String, Result<Restored, DrillError>>|
                {
                    &&& #[trigger] restore_is(q, targets, facts, reads.ends@)
                    &&& match q {
                        Step::Ask(topic) => r == Step::<
                            RestoreQuestion,
                            Result<Restored, DrillError>,
                        >::Ask(RestoreQuestion::EndOffsets(topic)),
                        Step::Done(done) => r == Step::<
                            RestoreQuestion,
                            Result<Restored, DrillError>,
                        >::Done(done),
                    }
                }
        },
    }
}

/// Restores, from what has been asked so far.
pub fn run(mapping: &TextMap, reads: &RestoreReads) -> (r: Step<
    RestoreQuestion,
    Result<Restored, DrillError>,
>)
    ensures
        restoring_is(r, values_of(mapping@), *reads),
{
    let facts = match &reads.restored {
        None => {
            return Step::Ask(RestoreQuestion::Restore);
        },
        Some(Err(e)) => {
            return Step::Done(Err(DrillError::Engine(e.clone())));
        },
        Some(Ok(facts)) => facts,
    };
    if let Some(e) = &reads.failed {
        return Step::Done(Err(DrillError::Kafka(e.clone())));
    }
    let step = judge(mapping, facts, &reads.ends);
    assert(restore_is(step, values_of(mapping@), *facts, reads.ends@));
    match step {
        Step::Ask(topic) => Step::Ask(RestoreQuestion::EndOffsets(topic)),
        Step::Done(done) => Step::Done(done),
    }
}

} // verus!
