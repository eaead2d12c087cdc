//! Reading the target's state before anything is written to it.
use vstd::prelude::*;
use crate::drill::error::{DrillError, ErrorModel, KafkaError};
use crate::drill::facts::TopicMeta;
use crate::drill::phase0_admit::{find_listed, first_listed};
use crate::drill::step::Step;
use crate::namemap::{held, last_named, last_named_is_there, names_ascend, NameMap};
use crate::textmap::TextMap;

verus! {

/// What a target topic held before the restore.
#[derive(Debug)]
pub struct TopicState {
    pub partitions: i32,
    pub end_offsets: Vec<(i32, i64)>,
    pub configs: TextMap,
}

/// What the target held before the restore: its topics of interest that exist,
/// each once.
#[derive(Debug)]
pub struct TargetState {
    pub cluster_id: String,
    pub topics: NameMap<TopicState>,
}

/// What was read of one topic of interest that exists.
#[derive(Debug)]
pub struct TopicRead {
    pub end_offsets: Vec<(i32, i64)>,
    pub configs: TextMap,
}

/// The refusal to guess what an unreadable topic held.
pub open spec fn unreadable(name: Seq<char>, error: Seq<char>) -> ErrorModel {
    ErrorModel::Operational(
        "target topic `"@ + name + "` exists but its metadata could not be read cleanly ("@ + error
            + "); its before-state is UNKNOWN, and recording it as absent (safe to create) or empty (zero records) would misstate what the restore is about to do to it"@,
    )
}

/// The topics of interest that exist, in order.
pub open spec fn existing(names: Seq<String>, listed: Seq<TopicMeta>) -> Seq<(Seq<char>, TopicMeta)>
    decreases names.len(),
{
    if names.len() == 0 {
        Seq::empty()
    } else {
        let rest = existing(names.drop_last(), listed);
        match first_listed(listed, names.last()@) {
            Some(t) => rest.push((names.last()@, t)),
            None => rest,
        }
    }
}

/// The names of the topics that were found.
pub open spec fn names_of(found: Seq<(Seq<char>, TopicMeta)>) -> Seq<Seq<char>> {
    Seq::new(found.len(), |i: int| found[i].0)
}

/// One topic of interest that exists, as it was read.
pub open spec fn state_is(s: TopicState, found: TopicMeta, read: TopicRead) -> bool {
    &&& s.partitions == found.partitions
    &&& s.end_offsets@ == read.end_offsets@
    &&& s.configs@ == read.configs@
}

/// Each topic that was found is there once, as it was read last.
pub open spec fn states_are(
    topics: Seq<(Seq<char>, TopicState)>,
    found: Seq<(Seq<char>, TopicMeta)>,
    reads: Seq<TopicRead>,
) -> bool {
    &&& names_ascend(topics)
    &&& forall|name: Seq<char>|
        match last_named(names_of(found), name) {
            Some(i) => #[trigger] held(topics, name) matches Some(s) && state_is(
                s,
                found[i].1,
                reads[i],
            ),
            None => held(topics, name) is None,
        }
}

/// The topics that exist among the first names are the first of those that
/// exist among all.
proof fn existing_grows(names: Seq<String>, listed: Seq<TopicMeta>, n: int)
    requires
        0 <= n <= names.len(),
    ensures
        existing(names.take(n), listed).is_prefix_of(existing(names, listed)),
    decreases names.len() - n,
{
    let c = existing(names, listed);
    if n < names.len() {
        existing_grows(names, listed, n + 1);
        assert(names.take(n + 1).drop_last() =~= names.take(n));
        let a = existing(names.take(n), listed);
        let b = existing(names.take(n + 1), listed);
        assert(a =~= b.subrange(0, a.len() as int));
        assert(a =~= c.subrange(0, a.len() as int));
    } else {
        assert(names.take(n) =~= names);
        assert(c =~= c.subrange(0, c.len() as int));
    }
}

/// The first of the topics whose metadata could not be read.
pub open spec fn first_errored(found: Seq<(Seq<char>, TopicMeta)>) -> Option<int>
    decreases found.len(),
{
    if found.len() == 0 {
        None
    } else {
        match first_errored(found.drop_last()) {
            Some(i) => Some(i),
            None => if found.last().1.error is Some {
                Some(found.len() - 1)
            } else {
                None
            },
        }
    }
}

/// The first errored topic is one of the topics, is errored, and has none in
/// front of it that is.
proof fn first_errored_is_first(found: Seq<(Seq<char>, TopicMeta)>)
    ensures
        match first_errored(found) {
            Some(i) => 0 <= i < found.len() && found[i].1.error is Some && forall|j: int|
                0 <= j < i ==> (#[trigger] found[j]).1.error is None,
            None => forall|j: int| 0 <= j < found.len() ==> (#[trigger] found[j]).1.error is None,
        },
    decreases found.len(),
{
    if found.len() > 0 {
        let rest = found.drop_last();
        first_errored_is_first(rest);
        assert forall|j: int| 0 <= j < rest.len() implies rest[j] == #[trigger] found[j] by {}
    }
}

/// An errored topic among the first is the first among all.
proof fn first_errored_stays(
    part: Seq<(Seq<char>, TopicMeta)>,
    found: Seq<(Seq<char>, TopicMeta)>,
)
    requires
        part.is_prefix_of(found),
    ensures
        first_errored(part) is Some ==> first_errored(found) == first_errored(part),
        first_errored(part) is None ==> (first_errored(found) matches Some(k) ==> k >= part.len()),
{
    first_errored_is_first(part);
    first_errored_is_first(found);
    assert forall|j: int| 0 <= j < part.len() implies #[trigger] part[j] == found[j] by {
        assert(part[j] == found.subrange(0, part.len() as int)[j]);
    }
    if let Some(i) = first_errored(part) {
        assert(found[i].1.error is Some);
        let k = first_errored(found)->0;
        if k < i {
            assert(part[k].1.error is None);
        }
    } else if let Some(k) = first_errored(found) {
        if k < part.len() {
            assert(part[k].1.error is None);
        }
    }
}

/// Which topic of interest is to be read next: none, where all that exist were
/// read; and a refusal, where the metadata of the next one, or of one before
/// it, could not be read. `read` topics were read so far.
pub fn next_topic(of_interest: &Vec<String>, listed: &Vec<TopicMeta>, read: usize) -> (r: Result<
    Option<usize>,
    DrillError,
>)
    ensures
        ({
            let found = existing(of_interest@, listed@);
            match first_errored(found) {
                Some(k) if k <= read => r matches Err(d) && d@ == unreadable(
                    found[k].0,
                    found[k].1.error->0@,
                ),
                _ => if read >= found.len() {
                    r matches Ok(None)
                } else {
                    r matches Ok(Some(i)) && i < of_interest@.len() && of_interest@[i as int]@
                        == found[read as int].0
                },
            }
        }),
{
    let ghost found = existing(of_interest@, listed@);
    let mut seen: usize = 0;
    let mut i: usize = 0;
    proof {
        assert(of_interest@.take(0) =~= Seq::empty());
    }
    while i < of_interest.len()
        invariant
            0 <= i <= of_interest.len(),
            found == existing(of_interest@, listed@),
            seen == existing(of_interest@.take(i as int), listed@).len(),
            seen <= read,
            seen <= i,
            first_errored(existing(of_interest@.take(i as int), listed@)) is None,
        decreases of_interest.len() - i,
    {
        proof {
            assert(of_interest@.take(i + 1).drop_last() =~= of_interest@.take(i as int));
            assert(of_interest@.take(i + 1).last() == of_interest@[i as int]);
            existing_grows(of_interest@, listed@, i + 1);
        }
        if let Some(at) = find_listed(listed, of_interest[i].as_str()) {
            proof {
                let part = existing(of_interest@.take(i + 1), listed@);
                assert(part[seen as int] == found.subrange(0, part.len() as int)[seen as int]);
                assert(part.drop_last() =~= existing(of_interest@.take(i as int), listed@));
                first_errored_stays(part, found);
            }
            if let Some(error) = &listed[at].error {
                let mut why = "target topic `".to_owned();
                why.append(of_interest[i].as_str());
                why.append("` exists but its metadata could not be read cleanly (");
                why.append(error.as_str());
                why.append(
                    "); its before-state is UNKNOWN, and recording it as absent (safe to create) or empty (zero records) would misstate what the restore is about to do to it",
                );
                return Err(DrillError::Operational(why));
            }
            if seen == read {
                return Ok(Some(i));
            }
            seen += 1;
        }
        i += 1;
    }
    proof {
        assert(of_interest@.take(of_interest.len() as int) =~= of_interest@);
    }
    Ok(None)
}

/// Copies the end offsets of partitions.
pub fn copy_offsets(v: &Vec<(i32, i64)>) -> (r: Vec<(i32, i64)>)
    ensures
        r@ == v@,
{
    let mut out: Vec<(i32, i64)> = Vec::new();
    let mut i: usize = 0;
    while i < v.len()
        invariant
            0 <= i <= v.len(),
            out@ == v@.take(i as int),
        decreases v.len() - i,
    {
        out.push(v[i]);
        proof {
            assert(v@.take(i + 1) =~= v@.take(i as int).push(v@[i as int]));
        }
        i += 1;
    }
    proof {
        assert(v@.take(v.len() as int) =~= v@);
    }
    out
}

/// The state of the target, from the reads of its topics of interest.
pub open spec fn target_is(
    r: Step<String, Result<TargetState, DrillError>>,
    cluster_id: Seq<char>,
    of_interest: Seq<String>,
    listed: Seq<TopicMeta>,
    reads: Seq<TopicRead>,
) -> bool {
    let found = existing(of_interest, listed);
    let n = reads.len() as int;
    match first_errored(found) {
        Some(k) if k <= n => r matches Step::Done(Err(d)) && d@ == unreadable(
            found[k].0,
            found[k].1.error->0@,
        ),
        _ => if n < found.len() {
            r matches Step::Ask(name) && name@ == found[n].0
        } else {
            &&& r matches Step::Done(Ok(state))
            &&& state.cluster_id@ == cluster_id
            &&& states_are(state.topics@, found, reads)
        },
    }
}

/// A topic that was read again stands as it was read then.
proof fn one_more_state(
    before: Seq<(Seq<char>, TopicState)>,
    after: Seq<(Seq<char>, TopicState)>,
    found: Seq<(Seq<char>, TopicMeta)>,
    next: (Seq<char>, TopicMeta),
    state: TopicState,
    reads: Seq<TopicRead>,
)
    requires
        states_are(before, found, reads),
        names_ascend(after),
        held(after, next.0) == Some(state),
        forall|other: Seq<char>|
            other != next.0 ==> #[trigger] held(after, other) == held(before, other),
        state_is(state, next.1, reads[found.len() as int]),
    ensures
        states_are(after, found.push(next), reads),
{
    let names = names_of(found.push(next));
    assert(names.drop_last() =~= names_of(found));
    assert forall|name: Seq<char>|
        match last_named(names, name) {
            Some(i) => #[trigger] held(after, name) matches Some(s) && state_is(
                s,
                found.push(next)[i].1,
                reads[i],
            ),
            None => held(after, name) is None,
        } by {
        last_named_is_there(names_of(found), name);
        if name != next.0 {
            assert(held(after, name) == held(before, name));
        }
    }
}

/// Puts the target's state together, from what has been read of its topics of
/// interest so far; the next one is asked for by its name. A topic that is not
/// listed is left out: it is absent. One that is listed with an error is
/// neither absent nor empty, and ends the run.
pub fn state_of(
    cluster_id: &str,
    of_interest: &Vec<String>,
    listed: &Vec<TopicMeta>,
    reads: &Vec<TopicRead>,
) -> (r: Step<String, Result<TargetState, DrillError>>)
    ensures
        target_is(r, cluster_id@, of_interest@, listed@, reads@),
{
    match next_topic(of_interest, listed, reads.len()) {
        Err(e) => {
            return Step::Done(Err(e));
        },
        Ok(Some(i)) => {
            return Step::Ask(of_interest[i].clone());
        },
        Ok(None) => {},
    }
    let ghost found = existing(of_interest@, listed@);
    let mut topics: NameMap<TopicState> = NameMap::new();
    let mut seen: usize = 0;
    let mut i: usize = 0;
    proof {
        assert(of_interest@.take(0) =~= Seq::empty());
        assert(states_are(topics@, existing(of_interest@.take(0), listed@), reads@));
    }
    while i < of_interest.len()
        invariant
            0 <= i <= of_interest.len(),
            found == existing(of_interest@, listed@),
            found.len() <= reads.len(),
            seen == existing(of_interest@.take(i as int), listed@).len(),
            states_are(topics@, existing(of_interest@.take(i as int), listed@), reads@),
        decreases of_interest.len() - i,
    {
        proof {
            assert(of_interest@.take(i + 1).drop_last() =~= of_interest@.take(i as int));
            assert(of_interest@.take(i + 1).last() == of_interest@[i as int]);
            existing_grows(of_interest@, listed@, i + 1);
        }
        if let Some(at) = find_listed(listed, of_interest[i].as_str()) {
            let read = &reads[seen];
            let state = TopicState {
                partitions: listed[at].partitions,
                end_offsets: copy_offsets(&read.end_offsets),
                configs: read.configs.copy(),
            };
            let ghost before = topics@;
            topics.insert(of_interest[i].clone(), state);
            proof {
                one_more_state(
                    before,
                    topics@,
                    existing(of_interest@.take(i as int), listed@),
                    (of_interest@[i as int]@, listed@[at as int]),
                    state,
                    reads@,
                );
            }
            seen += 1;
        }
        i += 1;
    }
    proof {
        assert(of_interest@.take(of_interest.len() as int) =~= of_interest@);
    }
    Step::Done(Ok(TargetState { cluster_id: cluster_id.to_owned(), topics }))
}

/// What has been asked of the target so far.
#[derive(Debug)]
pub struct TargetReads {
    pub cluster_id: Option<Result<String, KafkaError>>,
    pub listed: Option<Result<Vec<TopicMeta>, KafkaError>>,
    /// Of the topics of interest that are there, in order.
    pub topics: Vec<TopicRead>,
    /// Why the read that was asked for last failed, where it did.
    pub failed: Option<KafkaError>,
}

/// What is asked of the target next.
#[derive(Debug)]
pub enum TargetQuestion {
    ClusterId,
    /// The topics that are there.
    Topics,
    /// The end offsets and the settings of a topic.
    Topic(String),
}

/// How the reading of a target stands: a failure of the cluster ends it.
pub open spec fn reading_is(
    r: Step<TargetQuestion, Result<TargetState, DrillError>>,
    of_interest: Seq<String>,
    reads: TargetReads,
) -> bool {
    match (reads.cluster_id, reads.listed, reads.failed) {
        (None, _, _) => r matches Step::Ask(TargetQuestion::ClusterId),
        (Some(Err(e)), _, _) => r matches Step::Done(Err(d)) && d@ == ErrorModel::Kafka(e),
        (Some(Ok(_)), None, _) => r matches Step::Ask(TargetQuestion::Topics),
        (Some(Ok(_)), Some(Err(e)), _) => r matches Step::Done(Err(d)) && d@ == ErrorModel::Kafka(
            e,
        ),
        (Some(Ok(_)), Some(Ok(_)), Some(e)) => r matches Step::Done(Err(d)) && d@
            == ErrorModel::Kafka(e),
        (Some(Ok(id)), Some(Ok(listed)), None) => {
            exists|q: Step<String, Result<TargetState, DrillError>>|
                {
                    &&& #[trigger] target_is(q, id@, of_interest, listed@, reads.topics@)
                    &&& match q {
                        Step::Ask(name) => r == Step::<
                            TargetQuestion,
                            Result<TargetState, DrillError>,
                        >::Ask(TargetQuestion::Topic(name)),
                        Step::Done(done) => r == Step::<
                            TargetQuestion,
                            Result<TargetState, DrillError>,
                        >::Done(done),
                    }
                }
        },
    }
}

/// Reads the target, from what has been asked so far.
pub fn run(of_interest: &Vec<String>, reads: &TargetReads) -> (r: Step<
    TargetQuestion,
    Result<TargetState, DrillError>,
>)
    ensures
        reading_is(r, of_interest@, *reads),
{
    let id = match &reads.cluster_id {
        None => {
            return Step::Ask(TargetQuestion::ClusterId);
        },
        Some(Err(e)) => {
            return Step::Done(Err(DrillError::Kafka(e.clone())));
        },
        Some(Ok(id)) => id,
    };
    let listed = match &reads.listed {
        None => {
            return Step::Ask(TargetQuestion::Topics);
        },
        Some(Err(e)) => {
            return Step::Done(Err(DrillError::Kafka(e.clone())));
        },
        Some(Ok(listed)) => listed,
    };
    if let Some(e) = &reads.failed {
        return Step::Done(Err(DrillError::Kafka(e.clone())));
    }
    let step = state_of(id.as_str(), of_interest, listed, &reads.topics);
    assert(target_is(step, id@, of_interest@, listed@, reads.topics@));
    match step {
        Step::Ask(name) => Step::Ask(TargetQuestion::Topic(name)),
        Step::Done(done) => Step::Done(done),
    }
}

/// A state is never given for a target on which a topic of interest is listed
/// with an error, however much was read.
pub proof fn an_unreadable_topic_is_never_passed_over(
    r: Step<TargetQuestion, Result<TargetState, DrillError>>,
    of_interest: Seq<String>,
    reads: TargetReads,
    listed: Vec<TopicMeta>,
    i: int,
)
    requires
        reading_is(r, of_interest, reads),
        reads.listed == Some::<Result<Vec<TopicMeta>, KafkaError>>(Ok(listed)),
        0 <= i < existing(of_interest, listed@).len(),
        existing(of_interest, listed@)[i].1.error is Some,
    ensures
        !(r matches Step::Done(Ok(_))),
{
    first_errored_is_first(existing(of_interest, listed@));
}

} // verus!
