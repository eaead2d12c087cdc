//! Verifying a restore: the archive's segments against the manifest, the
//! restored records against the archive, and the restored topics' settings
//! against the source's.
use vstd::prelude::*;
use crate::clock::Timestamp;
use crate::drill::error::{DrillError, EngineError, ErrorModel, KafkaError};
use crate::drill::facts::{
    BackupSetFacts, ConsumedRecord, PartitionFacts, RecordFingerprint, SampleSelection,
    SegmentFacts, TopicFacts,
};
use crate::drill::phase8_score::text_of;
use crate::drill::scorecard::{Integrity, IntegrityResult, PassRate, TopicParity};
use crate::drill::step::Step;
use crate::drill::verdict::{
    byte_level_ids, compared_total, ledger_notes, level_of, matching_total,
    pass_is_positive_evidence, rate_of, reason_of, result_of, roll_up, Evidence, EvidenceModel,
    SelectionVerdict,
};
use crate::order::{is_sort_of, sort_is_unique, sort_texts};
use crate::text::{
    decimal, decimal_int, i64_text, join, joined, latin, parse_i64_bytes, spelled_i64, strip_prefix,
    texts, u64_text, without_opening,
};
use crate::textmap::{lookup, values_of, TextMap};

verus! {

// ---- records ---------------------------------------------------------------

/// The first header of a record that is named so.
pub open spec fn first_header(
    headers: Seq<(String, Option<Vec<u8>>)>,
    name: Seq<char>,
) -> Option<Option<Vec<u8>>>
    decreases headers.len(),
{
    if headers.len() == 0 {
        None
    } else if headers[0].0@ == name {
        Some(headers[0].1)
    } else {
        first_header(headers.drop_first(), name)
    }
}

/// The offset that a restored record had where it was backed up: the one that
/// its header names, where it names one, and otherwise its own.
pub open spec fn original_offset(c: ConsumedRecord) -> i64 {
    match first_header(c.headers@, "x-original-offset"@) {
        Some(Some(v)) => match spelled_i64(latin(v@)) {
            Some(n) => n,
            None => c.offset,
        },
        _ => c.offset,
    }
}

/// The offset that a restored record had where it was backed up.
pub fn offset_at_source(c: &ConsumedRecord) -> (r: i64)
    ensures
        r == original_offset(*c),
{
    let name = "x-original-offset".to_owned();
    let mut i: usize = 0;
    proof {
        assert(c.headers@.subrange(0, c.headers@.len() as int) =~= c.headers@);
    }
    while i < c.headers.len()
        invariant
            0 <= i <= c.headers.len(),
            name@ == "x-original-offset"@,
            first_header(c.headers@, name@) == first_header(
                c.headers@.subrange(i as int, c.headers@.len() as int),
                name@,
            ),
        decreases c.headers.len() - i,
    {
        let ghost rest = c.headers@.subrange(i as int, c.headers@.len() as int);
        proof {
            assert(rest[0] == c.headers@[i as int]);
            assert(rest.drop_first() =~= c.headers@.subrange(i + 1, c.headers@.len() as int));
        }
        if c.headers[i].0 == name {
            return match &c.headers[i].1 {
                Some(v) => match parse_i64_bytes(v) {
                    Some(n) => n,
                    None => c.offset,
                },
                None => c.offset,
            };
        }
        i += 1;
    }
    c.offset
}

/// The restored record that stands for an offset of the source; where several
/// do, the last one read.
pub open spec fn landed(consumed: Seq<ConsumedRecord>, offset: i64) -> Option<ConsumedRecord>
    decreases consumed.len(),
{
    if consumed.len() == 0 {
        None
    } else if original_offset(consumed.last()) == offset {
        Some(consumed.last())
    } else {
        landed(consumed.drop_last(), offset)
    }
}

/// An archived record came back as it was.
pub open spec fn came_back(a: RecordFingerprint, consumed: Seq<ConsumedRecord>) -> bool {
    match landed(consumed, a.offset) {
        Some(c) => c.fingerprint@ == a.sha256@,
        None => false,
    }
}

/// How many of the archived records came back as they were.
pub open spec fn came_back_count(
    archive: Seq<RecordFingerprint>,
    consumed: Seq<ConsumedRecord>,
) -> nat
    decreases archive.len(),
{
    if archive.len() == 0 {
        0
    } else {
        came_back_count(archive.drop_last(), consumed) + if came_back(archive.last(), consumed) {
            1nat
        } else {
            0nat
        }
    }
}

/// Where an archived record is.
pub open spec fn place(a: RecordFingerprint) -> Seq<char> {
    a.topic@ + "/"@ + decimal_int(a.partition as int) + " offset "@ + decimal_int(a.offset as int)
}

/// What is wrong with an archived record that did not come back as it was.
pub open spec fn complaint(a: RecordFingerprint, consumed: Seq<ConsumedRecord>) -> Seq<char> {
    match landed(consumed, a.offset) {
        None => place(a) + ": present in the archive, absent from the target"@,
        Some(_) => place(a) + ": fingerprint mismatch"@,
    }
}

/// What is wrong with each archived record that did not come back as it was.
pub open spec fn complaints(
    archive: Seq<RecordFingerprint>,
    consumed: Seq<ConsumedRecord>,
) -> Seq<Seq<char>>
    decreases archive.len(),
{
    if archive.len() == 0 {
        Seq::empty()
    } else if came_back(archive.last(), consumed) {
        complaints(archive.drop_last(), consumed)
    } else {
        complaints(archive.drop_last(), consumed).push(complaint(archive.last(), consumed))
    }
}

/// The index of the last restored record that stands for an offset.
fn landing(offsets: &Vec<i64>, offset: i64, Ghost(consumed): Ghost<Seq<ConsumedRecord>>) -> (r:
    Option<usize>)
    requires
        offsets.len() == consumed.len(),
        forall|i: int|
            0 <= i < consumed.len() ==> offsets@[i] == original_offset(#[trigger] consumed[i]),
    ensures
        r is Some ==> r->0 < consumed.len() && landed(consumed, offset) == Some(
            consumed[r->0 as int],
        ),
        r is None ==> landed(consumed, offset) is None,
{
    let mut n: usize = offsets.len();
    proof {
        assert(consumed.take(n as int) =~= consumed);
    }
    while n > 0
        invariant
            0 <= n <= offsets.len(),
            offsets.len() == consumed.len(),
            forall|i: int|
                0 <= i < consumed.len() ==> offsets@[i] == original_offset(#[trigger] consumed[i]),
            landed(consumed, offset) == landed(consumed.take(n as int), offset),
        decreases n,
    {
        proof {
            assert(consumed.take(n as int).last() == consumed[n - 1]);
            assert(consumed.take(n as int).drop_last() =~= consumed.take(n - 1));
        }
        if offsets[n - 1] == offset {
            return Some(n - 1);
        }
        n -= 1;
    }
    None
}

/// Compares the archived records of one selection with the records read back
/// for it: how many there were, how many came back as they were, and what is
/// wrong with the others.
pub fn compare(
    archive: &Vec<RecordFingerprint>,
    consumed: &Vec<ConsumedRecord>,
) -> (r: (u64, u64, Vec<String>))
    ensures
        r.0 == archive@.len(),
        r.1 == came_back_count(archive@, consumed@),
        texts(r.2@) == complaints(archive@, consumed@),
        r.1 + r.2@.len() == r.0,
{
    let mut offsets: Vec<i64> = Vec::new();
    let mut i: usize = 0;
    while i < consumed.len()
        invariant
            0 <= i <= consumed.len(),
            offsets.len() == i,
            forall|j: int|
                0 <= j < i ==> offsets@[j] == original_offset(#[trigger] consumed@[j]),
        decreases consumed.len() - i,
    {
        offsets.push(offset_at_source(&consumed[i]));
        i += 1;
    }
    let mut matching: u64 = 0;
    let mut mismatches: Vec<String> = Vec::new();
    let mut k: usize = 0;
    proof {
        assert(archive@.take(0) =~= Seq::empty());
        assert(texts(mismatches@) =~= Seq::empty());
    }
    while k < archive.len()
        invariant
            0 <= k <= archive.len(),
            offsets.len() == consumed.len(),
            forall|j: int|
                0 <= j < consumed.len() ==> offsets@[j] == original_offset(#[trigger] consumed@[j]),
            matching == came_back_count(archive@.take(k as int), consumed@),
            matching <= k,
            matching + mismatches.len() == k,
            texts(mismatches@) == complaints(archive@.take(k as int), consumed@),
        decreases archive.len() - k,
    {
        let a = &archive[k];
        let ghost before = texts(mismatches@);
        proof {
            assert(archive@.take(k + 1).drop_last() =~= archive@.take(k as int));
            assert(archive@.take(k + 1).last() == *a);
        }
        let at = landing(&offsets, a.offset, Ghost(consumed@));
        let same: bool = match at {
            Some(j) => consumed[j].fingerprint == a.sha256,
            None => false,
        };
        if same {
            matching = matching + 1;
        } else {
            let mut text = a.topic.clone();
            text.append("/");
            text.append(i64_text(a.partition as i64).as_str());
            text.append(" offset ");
            text.append(i64_text(a.offset).as_str());
            match at {
                None => text.append(": present in the archive, absent from the target"),
                Some(_) => text.append(": fingerprint mismatch"),
            }
            mismatches.push(text);
            proof {
                assert(texts(mismatches@) =~= before.push(complaint(*a, consumed@)));
            }
        }
        k += 1;
    }
    proof {
        assert(archive@.take(archive.len() as int) =~= archive@);
    }
    (archive.len() as u64, matching, mismatches)
}


// ---- topic settings --------------------------------------------------------

/// A scratch topic is created with settings of its own; these two are expected
/// to differ from the source's.
pub open spec fn is_intended(key: Seq<char>) -> bool {
    key == "cleanup.policy"@ || key == "retention.ms"@
}

/// The settings of the source that the target does not have the same value
/// for: those that are expected to differ, or those that are not.
pub open spec fn deviations(
    source: Seq<(Seq<char>, Seq<char>)>,
    target: Seq<(Seq<char>, Seq<char>)>,
    intended: bool,
) -> Seq<Seq<char>>
    decreases source.len(),
{
    if source.len() == 0 {
        Seq::empty()
    } else {
        let rest = deviations(source.drop_last(), target, intended);
        let (key, value) = source.last();
        if lookup(target, key) != Some(value) && is_intended(key) == intended {
            rest.push(key)
        } else {
            rest
        }
    }
}

/// What is expected to differ: settings, the number of partitions and the
/// replication factor.
pub open spec fn intended_deviations(
    source: Seq<(Seq<char>, Seq<char>)>,
    target: Seq<(Seq<char>, Seq<char>)>,
    partitions_differ: bool,
    replication_differs: bool,
) -> Seq<Seq<char>> {
    let keys = deviations(source, target, true);
    let counted = if partitions_differ {
        keys.push("partition_count"@)
    } else {
        keys
    };
    if replication_differs {
        counted.push("replication_factor"@)
    } else {
        counted
    }
}

/// The ways in which a restored topic differs from its source, told apart.
pub open spec fn classified(
    r: (Vec<String>, Vec<String>),
    source: Seq<(Seq<char>, Seq<char>)>,
    target: Seq<(Seq<char>, Seq<char>)>,
    partitions_differ: bool,
    replication_differs: bool,
) -> bool {
    &&& is_sort_of(
        texts(r.0@),
        intended_deviations(source, target, partitions_differ, replication_differs),
    )
    &&& is_sort_of(texts(r.1@), deviations(source, target, false))
}

/// Sorts the ways in which a restored topic differs from its source into those
/// that were intended and those that were not.
pub fn classify_parity(
    source_cfg: &TextMap,
    target_cfg: &TextMap,
    src_partitions: i32,
    tgt_partitions: i32,
    src_rf: i16,
    tgt_rf: i16,
) -> (r: (Vec<String>, Vec<String>))
    ensures
        classified(
            r,
            source_cfg@,
            target_cfg@,
            src_partitions != tgt_partitions,
            src_rf != tgt_rf,
        ),
{
    let cleanup = "cleanup.policy".to_owned();
    let retention = "retention.ms".to_owned();
    let mut intended: Vec<String> = Vec::new();
    let mut unexpected: Vec<String> = Vec::new();
    let n: usize = source_cfg.len();
    let mut i: usize = 0;
    proof {
        assert(texts(intended@) =~= Seq::empty());
        assert(texts(unexpected@) =~= Seq::empty());
        assert(source_cfg@.take(0) =~= Seq::empty());
    }
    while i < n
        invariant
            0 <= i <= n == source_cfg@.len(),
            cleanup@ == "cleanup.policy"@,
            retention@ == "retention.ms"@,
            texts(intended@) == deviations(source_cfg@.take(i as int), target_cfg@, true),
            texts(unexpected@) == deviations(source_cfg@.take(i as int), target_cfg@, false),
        decreases n - i,
    {
        let key = source_cfg.key(i).to_owned();
        let value = source_cfg.value(i).to_owned();
        let ghost before = (texts(intended@), texts(unexpected@));
        proof {
            assert(source_cfg@.take(i + 1).drop_last() =~= source_cfg@.take(i as int));
            assert(source_cfg@.take(i + 1).last() == source_cfg@[i as int]);
        }
        let differs: bool = match target_cfg.get(key.as_str()) {
            Some(t) => t.to_owned() != value,
            None => true,
        };
        if differs {
            if key == cleanup || key == retention {
                intended.push(key);
                proof {
                    assert(texts(intended@) =~= before.0.push(source_cfg@[i as int].0));
                }
            } else {
                unexpected.push(key);
                proof {
                    assert(texts(unexpected@) =~= before.1.push(source_cfg@[i as int].0));
                }
            }
        }
        i += 1;
    }
    proof {
        assert(source_cfg@.take(n as int) =~= source_cfg@);
    }
    let ghost keys = texts(intended@);
    if src_partitions != tgt_partitions {
        intended.push("partition_count".to_owned());
        proof {
            assert(texts(intended@) =~= keys.push("partition_count"@));
        }
    }
    let ghost counted = texts(intended@);
    if src_rf != tgt_rf {
        intended.push("replication_factor".to_owned());
        proof {
            assert(texts(intended@) =~= counted.push("replication_factor"@));
        }
    }
    (sort_texts(intended), sort_texts(unexpected))
}

/// What was read of one restored topic.
#[derive(Debug)]
pub struct ParityRead {
    pub configs: TextMap,
    pub end_offsets: Vec<(i32, i64)>,
}

/// The first topic of that name in the manifest.
pub open spec fn topic_index(topics: Seq<TopicFacts>, name: Seq<char>) -> Option<int>
    decreases topics.len(),
{
    if topics.len() == 0 {
        None
    } else {
        match topic_index(topics.drop_last(), name) {
            Some(i) => Some(i),
            None => if topics.last().name@ == name {
                Some(topics.len() - 1)
            } else {
                None
            },
        }
    }
}

/// Finds the first topic of that name in the manifest.
pub fn find_topic(topics: &Vec<TopicFacts>, name: &str) -> (r: Option<usize>)
    ensures
        r is Some ==> r->0 < topics.len() && topic_index(topics@, name@) == Some(r->0 as int),
        r is None ==> topic_index(topics@, name@) is None,
{
    let wanted = name.to_owned();
    let mut i: usize = 0;
    proof {
        assert(topics@.take(0) =~= Seq::empty());
    }
    while i < topics.len()
        invariant
            0 <= i <= topics.len(),
            wanted@ == name@,
            topic_index(topics@.take(i as int), name@) is None,
        decreases topics.len() - i,
    {
        proof {
            assert(topics@.take(i + 1).drop_last() =~= topics@.take(i as int));
            assert(topics@.take(i + 1).last() == topics@[i as int]);
        }
        if topics[i].name == wanted {
            proof {
                topic_index_stays(topics@, i + 1, name@);
            }
            return Some(i);
        }
        i += 1;
    }
    proof {
        assert(topics@.take(topics.len() as int) =~= topics@);
    }
    None
}

/// A topic that is found among the first topics is the one found among all.
proof fn topic_index_stays(topics: Seq<TopicFacts>, n: int, name: Seq<char>)
    requires
        0 <= n <= topics.len(),
        topic_index(topics.take(n), name) is Some,
    ensures
        topic_index(topics, name) == topic_index(topics.take(n), name),
    decreases topics.len() - n,
{
    if n < topics.len() {
        assert(topics.take(n + 1).drop_last() =~= topics.take(n));
        topic_index_stays(topics, n + 1, name);
    } else {
        assert(topics.take(n) =~= topics);
    }
}

/// Each difference with the name of the topic that has it.
pub open spec fn named(topic: Seq<char>, keys: Seq<Seq<char>>) -> Seq<Seq<char>> {
    Seq::new(keys.len(), |i: int| topic + ": "@ + keys[i])
}

/// A number of the source, or the target's own where the manifest holds none.
pub open spec fn known_or<T>(source: Option<T>, target: T) -> T {
    match source {
        Some(n) => n,
        None => target,
    }
}

/// The differences of the first topics, each under its topic: those intended,
/// or those not. A set of differences within one topic has no order here.
pub open spec fn all_deviations(
    facts: Seq<TopicFacts>,
    mapping: Seq<(Seq<char>, Seq<char>)>,
    reads: Seq<ParityRead>,
    rf: i16,
    intended: bool,
) -> Seq<Seq<char>>
    decreases mapping.len(),
{
    if mapping.len() == 0 {
        Seq::empty()
    } else {
        let rest = all_deviations(facts, mapping.drop_last(), reads, rf, intended);
        let (src, tgt) = mapping.last();
        let t = facts[topic_index(facts, src)->0];
        let read = reads[mapping.len() - 1];
        let count = read.end_offsets@.len() as i32;
        let keys = if intended {
            intended_deviations(
                t.configurations@,
                read.configs@,
                known_or(t.original_partition_count, count) != count,
                known_or(t.source_replication_factor, rf) != rf,
            )
        } else {
            deviations(t.configurations@, read.configs@, false)
        };
        rest + named(tgt, keys)
    }
}

/// The first mapped topic, among the first `n`, that the manifest does not
/// hold.
pub open spec fn first_unknown(
    facts: Seq<TopicFacts>,
    mapping: Seq<(Seq<char>, Seq<char>)>,
) -> Option<int>
    decreases mapping.len(),
{
    if mapping.len() == 0 {
        None
    } else {
        match first_unknown(facts, mapping.drop_last()) {
            Some(i) => Some(i),
            None => if topic_index(facts, mapping.last().0) is None {
                Some(mapping.len() - 1)
            } else {
                None
            },
        }
    }
}

/// A set of differences sorted within each topic, sorted over all topics.
proof fn naming_keeps_the_texts(topic: Seq<char>, a: Seq<Seq<char>>, b: Seq<Seq<char>>)
    requires
        a.to_multiset() == b.to_multiset(),
    ensures
        named(topic, a).to_multiset() == named(topic, b).to_multiset(),
    decreases a.len(),
{
    broadcast use vstd::seq_lib::group_to_multiset_ensures;

    vstd::seq_lib::to_multiset_len(a);
    vstd::seq_lib::to_multiset_len(b);
    if a.len() == 0 {
        assert(named(topic, a) =~= named(topic, b));
    } else {
        let x = a.last();
        assert(a[a.len() - 1] == x);
        assert(a.contains(x));
        vstd::seq_lib::to_multiset_contains(a, x);
        vstd::seq_lib::to_multiset_contains(b, x);
        assert(b.contains(x));
        let j = choose|j: int| 0 <= j < b.len() && b[j] == x;
        vstd::seq_lib::to_multiset_remove(a, a.len() - 1);
        vstd::seq_lib::to_multiset_remove(b, j);
        assert(a.remove(a.len() - 1) =~= a.drop_last());
        naming_keeps_the_texts(topic, a.drop_last(), b.remove(j));
        let na = named(topic, a);
        let nb = named(topic, b);
        assert(na.remove(a.len() - 1) =~= named(topic, a.drop_last()));
        assert(nb.remove(j) =~= named(topic, b.remove(j)));
        vstd::seq_lib::to_multiset_remove(na, a.len() - 1);
        vstd::seq_lib::to_multiset_remove(nb, j);
        let y = topic + ": "@ + x;
        assert(na[a.len() - 1] == y);
        assert(nb[j] == y);
        assert(na.contains(y));
        assert(nb.contains(y));
        vstd::seq_lib::to_multiset_contains(na, y);
        vstd::seq_lib::to_multiset_contains(nb, y);
        assert(na.to_multiset() =~= na.to_multiset().remove(y).insert(y));
        assert(nb.to_multiset() =~= nb.to_multiset().remove(y).insert(y));
    }
}

/// Puts the topic's name before each difference.
fn with_topic(topic: &str, keys: &Vec<String>) -> (r: Vec<String>)
    ensures
        texts(r@) == named(topic@, texts(keys@)),
{
    let mut out: Vec<String> = Vec::new();
    let mut i: usize = 0;
    while i < keys.len()
        invariant
            0 <= i <= keys.len(),
            out.len() == i,
            forall|j: int| 0 <= j < i ==> (#[trigger] out@[j])@ == topic@ + ": "@ + keys@[j]@,
        decreases keys.len() - i,
    {
        let mut s = topic.to_owned();
        s.append(": ");
        s.append(keys[i].as_str());
        out.push(s);
        i += 1;
    }
    proof {
        assert(texts(out@) =~= named(topic@, texts(keys@)));
    }
    out
}


/// An unknown topic among the first topics is the first unknown among all.
proof fn first_unknown_stays(
    facts: Seq<TopicFacts>,
    mapping: Seq<(Seq<char>, Seq<char>)>,
    n: int,
)
    requires
        0 <= n <= mapping.len(),
        first_unknown(facts, mapping.take(n)) is Some,
    ensures
        first_unknown(facts, mapping) == first_unknown(facts, mapping.take(n)),
    decreases mapping.len() - n,
{
    if n < mapping.len() {
        assert(mapping.take(n + 1).drop_last() =~= mapping.take(n));
        first_unknown_stays(facts, mapping, n + 1);
    } else {
        assert(mapping.take(n) =~= mapping);
    }
}

/// The mapped topics that a parity check looks at, when so many have been read:
/// those, and the next one.
pub open spec fn looked_at(
    mapping: Seq<(Seq<char>, Seq<char>)>,
    read: nat,
) -> Seq<(Seq<char>, Seq<char>)> {
    if read < mapping.len() {
        mapping.take(read as int + 1)
    } else {
        mapping
    }
}

/// What a parity check comes to, after so many topics were read: it is refused
/// where no topic is mapped or one of them is not in the manifest, it asks for
/// the next topic while there is one, and else it reports what differs.
pub open spec fn parity_is(
    r: Step<String, Result<TopicParity, DrillError>>,
    facts: Seq<TopicFacts>,
    mapping: Seq<(Seq<char>, Seq<char>)>,
    reads: Seq<ParityRead>,
    rf: i16,
) -> bool {
    if mapping.len() == 0 {
        r matches Step::Done(Err(e)) && e@ == ErrorModel::Operational(
            "topic parity check ran with zero mapped topics; refusing to report agreement over an empty set"@,
        )
    } else {
        match first_unknown(facts, looked_at(mapping, reads.len())) {
            Some(i) => r matches Step::Done(Err(e)) && e@ == ErrorModel::Operational(
                "topic parity check: no archive facts for mapped source topic `"@ + mapping[i].0
                    + "`"@,
            ),
            None => if reads.len() < mapping.len() {
                r matches Step::Ask(topic) && topic@ == mapping[reads.len() as int].1
            } else {
                &&& r matches Step::Done(Ok(parity))
                &&& is_sort_of(
                    texts(parity.intentionally_deviated@),
                    all_deviations(facts, mapping, reads, rf, true),
                )
                &&& is_sort_of(
                    texts(parity.unexpected_divergence@),
                    all_deviations(facts, mapping, reads, rf, false),
                )
            },
        }
    }
}

/// Sorts the ways in which the restored topics differ from their sources into
/// those that were intended and those that were not. `reads` holds what was
/// read of the mapped topics so far, in their order; the next one is asked for
/// by its name on the target.
pub fn classify_parity_all(
    facts: &BackupSetFacts,
    mapping: &TextMap,
    default_replication_factor: i16,
    reads: &Vec<ParityRead>,
) -> (r: Step<String, Result<TopicParity, DrillError>>)
    ensures
        parity_is(r, facts.topics@, mapping@, reads@, default_replication_factor),
{
    if mapping.is_empty() {
        return Step::Done(
            Err(
                DrillError::Operational(
                    "topic parity check ran with zero mapped topics; refusing to report agreement over an empty set".to_owned(),
                ),
            ),
        );
    }
    let ghost topics = facts.topics@;
    let n: usize = mapping.len();
    let mut intended_all: Vec<String> = Vec::new();
    let mut unexpected_all: Vec<String> = Vec::new();
    let mut i: usize = 0;
    proof {
        assert(mapping@.take(0) =~= Seq::empty());
        assert(texts(intended_all@) =~= Seq::empty());
        assert(texts(unexpected_all@) =~= Seq::empty());
    }
    while i < n
        invariant
            0 <= i <= n == mapping@.len(),
            i <= reads.len(),
            topics == facts.topics@,
            first_unknown(topics, mapping@.take(i as int)) is None,
            texts(intended_all@).to_multiset() == all_deviations(
                topics,
                mapping@.take(i as int),
                reads@,
                default_replication_factor,
                true,
            ).to_multiset(),
            texts(unexpected_all@).to_multiset() == all_deviations(
                topics,
                mapping@.take(i as int),
                reads@,
                default_replication_factor,
                false,
            ).to_multiset(),
        decreases n - i,
    {
        proof {
            assert(mapping@.take(i + 1).drop_last() =~= mapping@.take(i as int));
            assert(mapping@.take(i + 1).last() == mapping@[i as int]);
        }
        let at: usize = match find_topic(&facts.topics, mapping.key(i)) {
            Some(at) => at,
            None => {
                let mut why =
                    "topic parity check: no archive facts for mapped source topic `".to_owned();
                why.append(mapping.key(i));
                why.append("`");
                proof {
                    let seen = looked_at(mapping@, reads@.len());
                    assert(seen.take(i + 1) =~= mapping@.take(i + 1));
                    first_unknown_stays(topics, seen, i + 1);
                }
                return Step::Done(Err(DrillError::Operational(why)));
            },
        };
        if i == reads.len() {
            return Step::Ask(mapping.value(i).to_owned());
        }
        let t = &facts.topics[at];
        let read = &reads[i];
        let tgt_partitions: i32 = read.end_offsets.len() as i32;
        let tgt_rf: i16 = default_replication_factor;
        let src_partitions: i32 = match t.original_partition_count {
            Some(c) => c,
            None => tgt_partitions,
        };
        let src_rf: i16 = match t.source_replication_factor {
            Some(c) => c,
            None => tgt_rf,
        };
        let (intended, unexpected) = classify_parity(
            &t.configurations,
            &read.configs,
            src_partitions,
            tgt_partitions,
            src_rf,
            tgt_rf,
        );
        let ghost (before_intended, before_unexpected) = (
            texts(intended_all@),
            texts(unexpected_all@),
        );
        let tgt = mapping.value(i);
        let mut named_intended = with_topic(tgt, &intended);
        let mut named_unexpected = with_topic(tgt, &unexpected);
        let ghost (add_intended, add_unexpected) = (
            texts(named_intended@),
            texts(named_unexpected@),
        );
        intended_all.append(&mut named_intended);
        unexpected_all.append(&mut named_unexpected);
        proof {
            assert(texts(intended_all@) =~= before_intended + add_intended);
            assert(texts(unexpected_all@) =~= before_unexpected + add_unexpected);
            let part = mapping@.take(i + 1);
            let prev = mapping@.take(i as int);
            let rf = default_replication_factor;
            let keys_intended = intended_deviations(
                t.configurations@,
                read.configs@,
                src_partitions != tgt_partitions,
                src_rf != tgt_rf,
            );
            let keys_unexpected = deviations(t.configurations@, read.configs@, false);
            naming_keeps_the_texts(tgt@, texts(intended@), keys_intended);
            naming_keeps_the_texts(tgt@, texts(unexpected@), keys_unexpected);
            assert(all_deviations(topics, part, reads@, rf, true) == all_deviations(
                topics,
                prev,
                reads@,
                rf,
                true,
            ) + named(tgt@, keys_intended));
            assert(all_deviations(topics, part, reads@, rf, false) == all_deviations(
                topics,
                prev,
                reads@,
                rf,
                false,
            ) + named(tgt@, keys_unexpected));
            vstd::seq_lib::lemma_multiset_commutative(before_intended, add_intended);
            vstd::seq_lib::lemma_multiset_commutative(before_unexpected, add_unexpected);
            vstd::seq_lib::lemma_multiset_commutative(
                all_deviations(topics, prev, reads@, rf, true),
                named(tgt@, keys_intended),
            );
            vstd::seq_lib::lemma_multiset_commutative(
                all_deviations(topics, prev, reads@, rf, false),
                named(tgt@, keys_unexpected),
            );
        }
        i += 1;
    }
    proof {
        assert(mapping@.take(n as int) =~= mapping@);
        assert(looked_at(mapping@, reads@.len()) =~= mapping@);
    }
    Step::Done(
        Ok(
            TopicParity {
                intentionally_deviated: sort_texts(intended_all),
                unexpected_divergence: sort_texts(unexpected_all),
            },
        ),
    )
}


// ---- segments --------------------------------------------------------------

/// The segment holds records of the window.
pub open spec fn in_window(seg: SegmentFacts, window: (i64, i64)) -> bool {
    seg.start_timestamp <= window.1 && seg.end_timestamp >= window.0
}

/// The segments that hold records of the window.
pub open spec fn window_segments(segs: Seq<SegmentFacts>, window: (i64, i64)) -> Seq<SegmentFacts>
    decreases segs.len(),
{
    if segs.len() == 0 {
        Seq::empty()
    } else if in_window(segs.last(), window) {
        window_segments(segs.drop_last(), window).push(segs.last())
    } else {
        window_segments(segs.drop_last(), window)
    }
}

/// The segments of a partition that hold records of the window.
pub open spec fn partition_segments(
    parts: Seq<PartitionFacts>,
    partition: i32,
    window: (i64, i64),
) -> Seq<SegmentFacts>
    decreases parts.len(),
{
    if parts.len() == 0 {
        Seq::empty()
    } else if parts.last().partition_id == partition {
        partition_segments(parts.drop_last(), partition, window) + window_segments(
            parts.last().segments@,
            window,
        )
    } else {
        partition_segments(parts.drop_last(), partition, window)
    }
}

/// The segments that a selection samples.
pub open spec fn sampled_segments(topics: Seq<TopicFacts>, s: SampleSelection) -> Seq<SegmentFacts>
    decreases topics.len(),
{
    if topics.len() == 0 {
        Seq::empty()
    } else if topics.last().name@ == s.topic@ {
        sampled_segments(topics.drop_last(), s) + partition_segments(
            topics.last().partitions@,
            s.partition,
            s.window,
        )
    } else {
        sampled_segments(topics.drop_last(), s)
    }
}

/// The segments behind references.
pub open spec fn referred(v: Seq<&SegmentFacts>) -> Seq<SegmentFacts> {
    Seq::new(v.len(), |i: int| *v[i])
}

/// Adds the segments that hold records of the window.
fn add_window_segments<'a>(
    out: &mut Vec<&'a SegmentFacts>,
    segs: &'a Vec<SegmentFacts>,
    window: (i64, i64),
)
    ensures
        referred(final(out)@) == referred(old(out)@) + window_segments(segs@, window),
{
    let ghost before = referred(out@);
    let mut i: usize = 0;
    proof {
        assert(segs@.take(0) =~= Seq::empty());
        assert(referred(out@) =~= before + Seq::empty());
    }
    while i < segs.len()
        invariant
            0 <= i <= segs.len(),
            referred(out@) == before + window_segments(segs@.take(i as int), window),
        decreases segs.len() - i,
    {
        let ghost so_far = referred(out@);
        proof {
            assert(segs@.take(i + 1).drop_last() =~= segs@.take(i as int));
            assert(segs@.take(i + 1).last() == segs@[i as int]);
        }
        let seg = &segs[i];
        if seg.start_timestamp <= window.1 && seg.end_timestamp >= window.0 {
            out.push(seg);
            proof {
                assert(referred(out@) =~= so_far.push(*seg));
                assert(referred(out@) =~= before + window_segments(segs@.take(i + 1), window));
            }
        }
        i += 1;
    }
    proof {
        assert(segs@.take(segs.len() as int) =~= segs@);
    }
}

/// Adds the segments of a partition that hold records of the window.
fn add_partition_segments<'a>(
    out: &mut Vec<&'a SegmentFacts>,
    parts: &'a Vec<PartitionFacts>,
    partition: i32,
    window: (i64, i64),
)
    ensures
        referred(final(out)@) == referred(old(out)@) + partition_segments(
            parts@,
            partition,
            window,
        ),
{
    let ghost before = referred(out@);
    let mut i: usize = 0;
    proof {
        assert(parts@.take(0) =~= Seq::empty());
        assert(referred(out@) =~= before + Seq::empty());
    }
    while i < parts.len()
        invariant
            0 <= i <= parts.len(),
            referred(out@) == before + partition_segments(
                parts@.take(i as int),
                partition,
                window,
            ),
        decreases parts.len() - i,
    {
        proof {
            assert(parts@.take(i + 1).drop_last() =~= parts@.take(i as int));
            assert(parts@.take(i + 1).last() == parts@[i as int]);
        }
        if parts[i].partition_id == partition {
            add_window_segments(out, &parts[i].segments, window);
            proof {
                assert(referred(out@) =~= before + partition_segments(
                    parts@.take(i + 1),
                    partition,
                    window,
                ));
            }
        }
        i += 1;
    }
    proof {
        assert(parts@.take(parts.len() as int) =~= parts@);
    }
}

/// Every archive segment that a selection samples.
pub fn sampled_segments_for<'a>(
    facts: &'a BackupSetFacts,
    s: &SampleSelection,
) -> (r: Vec<&'a SegmentFacts>)
    ensures
        referred(r@) == sampled_segments(facts.topics@, *s),
{
    let mut out: Vec<&'a SegmentFacts> = Vec::new();
    let mut i: usize = 0;
    proof {
        assert(facts.topics@.take(0) =~= Seq::empty());
        assert(referred(out@) =~= Seq::empty());
    }
    while i < facts.topics.len()
        invariant
            0 <= i <= facts.topics.len(),
            referred(out@) == sampled_segments(facts.topics@.take(i as int), *s),
        decreases facts.topics.len() - i,
    {
        proof {
            assert(facts.topics@.take(i + 1).drop_last() =~= facts.topics@.take(i as int));
            assert(facts.topics@.take(i + 1).last() == facts.topics@[i as int]);
        }
        if facts.topics[i].name == s.topic {
            add_partition_segments(&mut out, &facts.topics[i].partitions, s.partition, s.window);
        }
        i += 1;
    }
    proof {
        assert(facts.topics@.take(facts.topics.len() as int) =~= facts.topics@);
    }
    out
}

/// The keys of the segments whose bytes have to be read: those that the
/// manifest has a digest of.
pub open spec fn reading_keys(segs: Seq<SegmentFacts>) -> Seq<Seq<char>>
    decreases segs.len(),
{
    if segs.len() == 0 {
        Seq::empty()
    } else if segs.last().sha256@.len() > 0 {
        reading_keys(segs.drop_last()).push(segs.last().key@)
    } else {
        reading_keys(segs.drop_last())
    }
}

/// The keys of the segments that the manifest has no digest of.
pub open spec fn skipped_keys(segs: Seq<SegmentFacts>) -> Seq<Seq<char>>
    decreases segs.len(),
{
    if segs.len() == 0 {
        Seq::empty()
    } else if segs.last().sha256@.len() == 0 {
        skipped_keys(segs.drop_last()).push(segs.last().key@)
    } else {
        skipped_keys(segs.drop_last())
    }
}

/// The digest that the manifest has of a segment, as bare hexadecimal.
pub open spec fn wanted_digest(seg: SegmentFacts) -> Seq<char> {
    match without_opening(seg.sha256@, "sha256:"@) {
        Some(hex) => hex,
        None => seg.sha256@,
    }
}

/// The keys of the segments whose bytes are not those that the manifest
/// names. `digests` holds the digests of the bytes read, in order.
pub open spec fn failed_keys(segs: Seq<SegmentFacts>, digests: Seq<String>) -> Seq<Seq<char>>
    decreases segs.len(),
{
    if segs.len() == 0 {
        Seq::empty()
    } else {
        let seg = segs.last();
        let at = reading_keys(segs.drop_last()).len() as int;
        if seg.sha256@.len() > 0 && digests[at]@ != wanted_digest(seg) {
            failed_keys(segs.drop_last(), digests).push(seg.key@)
        } else {
            failed_keys(segs.drop_last(), digests)
        }
    }
}

/// What the segments' bytes prove.
pub open spec fn segments_prove(segs: Seq<SegmentFacts>, digests: Seq<String>) -> EvidenceModel {
    if segs.len() == 0 {
        EvidenceModel::Unverified(
            "no archive segment matches this selection in the sampled window, so the segment sha256 check examined nothing for it"@,
        )
    } else if failed_keys(segs, digests).len() > 0 {
        EvidenceModel::Failed(
            "segment sha256 mismatch against the manifest for "@ + joined(
                failed_keys(segs, digests),
                ", "@,
            ),
        )
    } else if skipped_keys(segs).len() > 0 {
        EvidenceModel::Unverified(
            decimal(skipped_keys(segs).len()) + " of "@ + decimal(segs.len())
                + " sampled segments carry no sha256 (written before 0.21) and could not be verified: "@
                + joined(skipped_keys(segs), ", "@),
        )
    } else {
        EvidenceModel::Verified(segs.len() as int)
    }
}

/// How the check of a selection's segments stands.
pub open spec fn segments_are(
    r: Step<String, Evidence>,
    segs: Seq<SegmentFacts>,
    digests: Seq<String>,
) -> bool {
    if digests.len() < reading_keys(segs).len() {
        r matches Step::Ask(key) && key@ == reading_keys(segs)[digests.len() as int]
    } else {
        r matches Step::Done(e) && e@ == segments_prove(segs, digests)
    }
}

/// The keys to be read of the first segments are the first of those to be read.
proof fn reading_keys_grow(segs: Seq<SegmentFacts>, n: int)
    requires
        0 <= n <= segs.len(),
    ensures
        reading_keys(segs.take(n)).is_prefix_of(reading_keys(segs)),
    decreases segs.len() - n,
{
    if n < segs.len() {
        reading_keys_grow(segs, n + 1);
        assert(segs.take(n + 1).drop_last() =~= segs.take(n));
        let a = reading_keys(segs.take(n));
        let b = reading_keys(segs.take(n + 1));
        let c = reading_keys(segs);
        assert(a =~= b.subrange(0, a.len() as int));
        assert(a =~= c.subrange(0, a.len() as int));
    } else {
        assert(segs.take(n) =~= segs);
        let c = reading_keys(segs);
        assert(c =~= c.subrange(0, c.len() as int));
    }
}

/// Checks a selection's segments against the manifest. `digests` holds the
/// digests, in bare hexadecimal, of the segments read so far; the next one is
/// asked for by its key.
pub fn segment_evidence(segs: &Vec<&SegmentFacts>, digests: &Vec<String>) -> (r: Step<
    String,
    Evidence,
>)
    ensures
        segments_are(r, referred(segs@), digests@),
{
    let ghost s = referred(segs@);
    if segs.len() == 0 {
        return Step::Done(
            Evidence::Unverified {
                why:
                    "no archive segment matches this selection in the sampled window, so the segment sha256 check examined nothing for it".to_owned(),
            },
        );
    }
    let mut skipped: Vec<String> = Vec::new();
    let mut failed: Vec<String> = Vec::new();
    let mut read: usize = 0;
    let mut i: usize = 0;
    proof {
        assert(s.take(0) =~= Seq::empty());
        assert(texts(skipped@) =~= Seq::empty());
        assert(texts(failed@) =~= Seq::empty());
    }
    while i < segs.len()
        invariant
            0 <= i <= segs.len(),
            s == referred(segs@),
            read == reading_keys(s.take(i as int)).len(),
            read <= digests.len(),
            read <= i,
            texts(skipped@) == skipped_keys(s.take(i as int)),
            texts(failed@) == failed_keys(s.take(i as int), digests@),
        decreases segs.len() - i,
    {
        let seg = segs[i];
        let ghost (was_skipped, was_failed) = (texts(skipped@), texts(failed@));
        proof {
            assert(s.take(i + 1).drop_last() =~= s.take(i as int));
            assert(s.take(i + 1).last() == *seg);
            reading_keys_grow(s, i + 1);
        }
        if seg.sha256.as_str().is_empty() {
            skipped.push(seg.key.clone());
            proof {
                assert(texts(skipped@) =~= was_skipped.push(seg.key@));
            }
        } else {
            if read == digests.len() {
                proof {
                    let a = reading_keys(s.take(i + 1));
                    let c = reading_keys(s);
                    assert(a[read as int] == c.subrange(0, a.len() as int)[read as int]);
                }
                return Step::Ask(seg.key.clone());
            }
            let want: String = match strip_prefix(seg.sha256.as_str(), "sha256:") {
                Some(hex) => hex,
                None => seg.sha256.clone(),
            };
            if digests[read] != want {
                failed.push(seg.key.clone());
                proof {
                    assert(texts(failed@) =~= was_failed.push(seg.key@));
                }
            }
            read += 1;
        }
        i += 1;
    }
    proof {
        assert(s.take(segs.len() as int) =~= s);
        assert(texts(failed@).len() == failed@.len());
        assert(texts(skipped@).len() == skipped@.len());
    }
    if failed.len() > 0 {
        let mut why = "segment sha256 mismatch against the manifest for ".to_owned();
        why.append(join(&failed, ", ").as_str());
        return Step::Done(Evidence::Failed { why });
    }
    if skipped.len() > 0 {
        let mut why = u64_text(skipped.len() as u64);
        why.append(" of ");
        why.append(u64_text(segs.len() as u64).as_str());
        why.append(
            " sampled segments carry no sha256 (written before 0.21) and could not be verified: ",
        );
        why.append(join(&skipped, ", ").as_str());
        return Step::Done(Evidence::Unverified { why });
    }
    Step::Done(Evidence::Verified { checked: segs.len() as u64 })
}


// ---- one selection ---------------------------------------------------------

/// What the archive offered for one selection.
#[derive(Debug)]
pub enum SelectionArchive {
    /// The fingerprints of its records.
    Fingerprints(Vec<RecordFingerprint>),
    /// Its records cannot be fingerprinted, for this reason.
    Unsupported(String),
}

/// The name on the target of a topic of the archive.
pub fn mapped_topic<'a>(mapping: &'a TextMap, topic: &str) -> (r: Result<&'a str, DrillError>)
    ensures
        match lookup(mapping@, topic@) {
            Some(target) => r matches Ok(t) && t@ == target,
            None => r matches Err(e) && e@ == unmapped(topic@),
        },
{
    match mapping.get(topic) {
        Some(t) => Ok(t),
        None => {
            let mut why = "no target-side mapping for archive topic `".to_owned();
            why.append(topic);
            why.append("`; refusing to read the wrong topic");
            Err(DrillError::Operational(why))
        },
    }
}

/// The refusal of a topic that has no name on the target.
pub open spec fn unmapped(topic: Seq<char>) -> ErrorModel {
    ErrorModel::Operational(
        "no target-side mapping for archive topic `"@ + topic
            + "`; refusing to read the wrong topic"@,
    )
}

/// How many records the manifest says that the segments hold.
pub open spec fn records_held(segs: Seq<SegmentFacts>) -> nat
    decreases segs.len(),
{
    if segs.len() == 0 {
        0
    } else {
        records_held(segs.drop_last()) + if segs.last().record_count > 0 {
            segs.last().record_count as nat
        } else {
            0
        }
    }
}

/// How many records are claimed of a selection: those that the manifest says
/// its segments hold, and never more than were asked for.
pub open spec fn claim(segs: Seq<SegmentFacts>, asked: nat) -> nat {
    if segs.len() == 0 || asked <= records_held(segs) {
        asked
    } else {
        records_held(segs)
    }
}

/// How many records are claimed of a selection.
fn claimed_records(segs: &Vec<&SegmentFacts>, asked: u64) -> (r: u64)
    ensures
        r == claim(referred(segs@), asked as nat),
{
    let ghost s = referred(segs@);
    if segs.len() == 0 {
        return asked;
    }
    let mut held: u64 = 0;
    let mut i: usize = 0;
    proof {
        assert(s.take(0) =~= Seq::empty());
    }
    while i < segs.len()
        invariant
            0 <= i <= segs.len(),
            s == referred(segs@),
            held == if records_held(s.take(i as int)) <= u64::MAX {
                records_held(s.take(i as int))
            } else {
                u64::MAX as nat
            },
        decreases segs.len() - i,
    {
        proof {
            assert(s.take(i + 1).drop_last() =~= s.take(i as int));
            assert(s.take(i + 1).last() == *segs@[i as int]);
        }
        let count: u64 = if segs[i].record_count > 0 {
            segs[i].record_count as u64
        } else {
            0
        };
        held = if held > u64::MAX - count {
            u64::MAX
        } else {
            held + count
        };
        i += 1;
    }
    proof {
        assert(s.take(segs.len() as int) =~= s);
    }
    if asked <= held {
        asked
    } else {
        held
    }
}

/// What the records read back prove, where the archive has their fingerprints.
pub open spec fn fingerprints_prove(
    archive: Seq<RecordFingerprint>,
    consumed: Seq<ConsumedRecord>,
    claimed: nat,
) -> EvidenceModel {
    let compared = archive.len();
    let matching = came_back_count(archive, consumed);
    if matching < compared {
        EvidenceModel::Failed(
            decimal((compared - matching) as nat) + " of "@ + decimal(compared)
                + " sampled records did not reconcile against the archive"@,
        )
    } else if compared == 0 {
        EvidenceModel::Unverified(
            "zero archive fingerprints were available to reconcile against; a byte-fingerprint comparison cannot verify anything it never sampled, even when other selections in the same drill produced real matches"@,
        )
    } else if compared < claimed {
        EvidenceModel::Unverified(
            "the archive returned "@ + decimal(compared)
                + " fingerprints where the manifest claims "@ + decimal(claimed)
                + " for this selection; a short sample is coverage the drill did not obtain, not a smaller successful sample"@,
        )
    } else {
        EvidenceModel::Verified(matching as int)
    }
}

/// What the records read back prove, where the archive has no fingerprints:
/// that they are there, and no more than that.
pub open spec fn read_back_proves(restored: nat, claimed: nat) -> EvidenceModel {
    if restored == 0 {
        EvidenceModel::Unverified(
            "the target partition gave back zero records, so consume-only verification proved nothing about this selection"@,
        )
    } else if restored < claimed {
        EvidenceModel::Unverified(
            "the target partition gave back "@ + decimal(restored)
                + " records where the manifest claims "@ + decimal(claimed)
                + " for this selection; a short read-back is coverage the drill did not obtain"@,
        )
    } else {
        EvidenceModel::Verified(restored as int)
    }
}

/// What the records read back prove.
pub open spec fn records_prove(
    archive: SelectionArchive,
    consumed: Seq<ConsumedRecord>,
    claimed: nat,
) -> EvidenceModel {
    match archive {
        SelectionArchive::Fingerprints(fp) => fingerprints_prove(fp@, consumed, claimed),
        SelectionArchive::Unsupported(_) => read_back_proves(consumed.len(), claimed),
    }
}

/// The verdict on a selection, from its segments' digests and the records read
/// back for it.
pub open spec fn verdict_is(
    v: SelectionVerdict,
    topics: Seq<TopicFacts>,
    s: SampleSelection,
    archive: SelectionArchive,
    digests: Seq<String>,
    consumed: Seq<ConsumedRecord>,
) -> bool {
    let segs = sampled_segments(topics, s);
    let claimed = claim(segs, s.count as nat);
    &&& v.id@ == s.topic@ + "/"@ + decimal_int(s.partition as int)
    &&& v.claimed == claimed
    &&& v.segments@ == segments_prove(segs, digests)
    &&& v.records@ == records_prove(archive, consumed, claimed)
    &&& v.records_restored == consumed.len()
    &&& match archive {
        SelectionArchive::Fingerprints(fp) => {
            &&& v.downgrade is None
            &&& v.reconciled == if fp@.len() > 0 {
                Some((fp@.len() as u64, came_back_count(fp@, consumed) as u64))
            } else {
                None
            }
        },
        SelectionArchive::Unsupported(reason) => {
            &&& v.downgrade == Some(reason)
            &&& v.reconciled is None
        },
    }
}

/// What has been read for one selection so far.
#[derive(Debug)]
pub struct SelectionReads {
    /// The digests of its segments, in order.
    pub digests: Vec<String>,
    /// The records of its partition on the target.
    pub consumed: Option<Vec<ConsumedRecord>>,
}

/// What has to be read for one selection.
#[derive(Debug)]
pub enum SelectionQuestion {
    /// The digest of the segment with this key.
    Segment(String),
    /// So many records of a partition of the target, from its first offset.
    Records { topic: String, partition: i32, count: usize },
}

/// What the verification of one selection comes to: it is refused where its
/// topic has no name on the target, it asks for its segments and then for its
/// records on the target, and else it has a verdict.
pub open spec fn selection_is(
    r: Step<SelectionQuestion, Result<SelectionVerdict, DrillError>>,
    topics: Seq<TopicFacts>,
    s: SampleSelection,
    mapping: Seq<(Seq<char>, Seq<char>)>,
    archive: SelectionArchive,
    reads: SelectionReads,
) -> bool {
    let keys = reading_keys(sampled_segments(topics, s));
    match lookup(mapping, s.topic@) {
        None => r matches Step::Done(Err(e)) && e@ == unmapped(s.topic@),
        Some(target) => if reads.digests@.len() < keys.len() {
            r matches Step::Ask(SelectionQuestion::Segment(key)) && key@
                == keys[reads.digests@.len() as int]
        } else {
            match reads.consumed {
                None => r matches Step::Ask(SelectionQuestion::Records { topic, partition, count })
                    && topic@ == target && partition == s.partition && count == s.count,
                Some(consumed) => r matches Step::Done(Ok(v)) && verdict_is(
                    v,
                    topics,
                    s,
                    archive,
                    reads.digests@,
                    consumed@,
                ),
            }
        },
    }
}

/// Whether the records read back are those of the archive's fingerprints.
fn fingerprint_evidence(compared: u64, matching: u64, claimed: u64) -> (r: Evidence)
    requires
        matching <= compared,
    ensures
        forall|archive: Seq<RecordFingerprint>, consumed: Seq<ConsumedRecord>|
            archive.len() == compared && came_back_count(archive, consumed) == matching ==> r@
                == #[trigger] fingerprints_prove(archive, consumed, claimed as nat),
{
    if compared > 0 && compared >= claimed && matching == compared {
        Evidence::Verified { checked: matching }
    } else if matching < compared {
        let mut why = u64_text(compared - matching);
        why.append(" of ");
        why.append(u64_text(compared).as_str());
        why.append(" sampled records did not reconcile against the archive");
        Evidence::Failed { why }
    } else if compared == 0 {
        Evidence::Unverified {
            why:
                "zero archive fingerprints were available to reconcile against; a byte-fingerprint comparison cannot verify anything it never sampled, even when other selections in the same drill produced real matches".to_owned(),
        }
    } else {
        let mut why = "the archive returned ".to_owned();
        why.append(u64_text(compared).as_str());
        why.append(" fingerprints where the manifest claims ");
        why.append(u64_text(claimed).as_str());
        why.append(
            " for this selection; a short sample is coverage the drill did not obtain, not a smaller successful sample",
        );
        Evidence::Unverified { why }
    }
}

/// Whether as many records came back as are claimed.
fn read_back_evidence(restored: u64, claimed: u64) -> (r: Evidence)
    ensures
        r@ == read_back_proves(restored as nat, claimed as nat),
{
    if restored > 0 && restored >= claimed {
        Evidence::Verified { checked: restored }
    } else if restored == 0 {
        Evidence::Unverified {
            why:
                "the target partition gave back zero records, so consume-only verification proved nothing about this selection".to_owned(),
        }
    } else {
        let mut why = "the target partition gave back ".to_owned();
        why.append(u64_text(restored).as_str());
        why.append(" records where the manifest claims ");
        why.append(u64_text(claimed).as_str());
        why.append(
            " for this selection; a short read-back is coverage the drill did not obtain",
        );
        Evidence::Unverified { why }
    }
}

/// Judges one selection, from what has been read for it so far.
pub fn verdict_for_selection(
    facts: &BackupSetFacts,
    s: &SampleSelection,
    mapping: &TextMap,
    archive: &SelectionArchive,
    reads: &SelectionReads,
) -> (r: Step<SelectionQuestion, Result<SelectionVerdict, DrillError>>)
    ensures
        selection_is(r, facts.topics@, *s, mapping@, *archive, *reads),
{
    let mut id = s.topic.clone();
    id.append("/");
    id.append(i64_text(s.partition as i64).as_str());
    let mapped = match mapped_topic(mapping, s.topic.as_str()) {
        Ok(t) => t,
        Err(e) => {
            return Step::Done(Err(e));
        },
    };
    let segs = sampled_segments_for(facts, s);
    let claimed: u64 = claimed_records(&segs, s.count as u64);
    let segments = match segment_evidence(&segs, &reads.digests) {
        Step::Ask(key) => {
            return Step::Ask(SelectionQuestion::Segment(key));
        },
        Step::Done(e) => e,
    };
    let consumed = match &reads.consumed {
        Some(c) => c,
        None => {
            return Step::Ask(
                SelectionQuestion::Records {
                    topic: mapped.to_owned(),
                    partition: s.partition,
                    count: s.count,
                },
            );
        },
    };
    let records_restored: u64 = consumed.len() as u64;
    match archive {
        SelectionArchive::Fingerprints(fp) => {
            let (compared, matching, _) = compare(fp, consumed);
            let records = fingerprint_evidence(compared, matching, claimed);
            proof {
                assert(records@ == fingerprints_prove(fp@, consumed@, claimed as nat));
            }
            let reconciled = if compared > 0 {
                Some((compared, matching))
            } else {
                None
            };
            Step::Done(
                Ok(
                    SelectionVerdict {
                        id,
                        claimed,
                        segments,
                        records,
                        records_restored,
                        reconciled,
                        downgrade: None,
                    },
                ),
            )
        },
        SelectionArchive::Unsupported(reason) => {
            let records = read_back_evidence(records_restored, claimed);
            Step::Done(
                Ok(
                    SelectionVerdict {
                        id,
                        claimed,
                        segments,
                        records,
                        records_restored,
                        reconciled: None,
                        downgrade: Some(reason.clone()),
                    },
                ),
            )
        },
    }
}


// ---- what the archive offers -----------------------------------------------

/// An engine's answer that ends the verification: any failure but that the
/// archive cannot be fingerprinted.
pub open spec fn ends_probe(a: Result<Vec<RecordFingerprint>, EngineError>) -> bool {
    a is Err && !(a->Err_0 is Unsupported)
}

/// What an engine's answer means for its selection.
pub open spec fn offered(a: Result<Vec<RecordFingerprint>, EngineError>) -> SelectionArchive {
    match a {
        Ok(fp) => SelectionArchive::Fingerprints(fp),
        Err(e) => SelectionArchive::Unsupported(e->Unsupported_0),
    }
}

/// The refusal of answers that are not one for each selection.
pub open spec fn miscounted(answered: nat, selected: nat) -> Seq<char> {
    "probe_archive_modes was answered for "@ + decimal(answered) + " of "@ + decimal(selected)
        + " selections; refusing to compare fingerprints over another set than the one that was selected"@
}

/// What the engine's answers come to.
pub open spec fn probed(
    r: Result<Vec<SelectionArchive>, EngineError>,
    selected: nat,
    answers: Seq<Result<Vec<RecordFingerprint>, EngineError>>,
) -> bool {
    if selected == 0 {
        r matches Err(EngineError::Operational(m)) && m@
            == "probe_archive_modes called with zero sample selections; refusing to compare fingerprints over an empty set"@
    } else if exists|i: int| 0 <= i < answers.len() && ends_probe(#[trigger] answers[i]) {
        exists|i: int|
            0 <= i < answers.len() && ends_probe(#[trigger] answers[i]) && r == Err::<
                Vec<SelectionArchive>,
                EngineError,
            >(answers[i]->Err_0) && forall|j: int|
                0 <= j < i ==> !ends_probe(#[trigger] answers[j])
    } else if answers.len() != selected {
        r matches Err(EngineError::Operational(m)) && m@ == miscounted(answers.len(), selected)
    } else {
        &&& r matches Ok(v)
        &&& v@.len() == selected
        &&& forall|i: int| 0 <= i < selected ==> #[trigger] v@[i] == offered(answers[i])
    }
}

/// Takes the engine's answers for the selections, in order, up to the first
/// that ends the verification; there is one for each selection otherwise. An
/// archive that cannot be fingerprinted takes the byte-level claim from its own
/// selection and from no other.
pub fn probe_archive_modes(
    sel: &Vec<SampleSelection>,
    answers: Vec<Result<Vec<RecordFingerprint>, EngineError>>,
) -> (r: Result<Vec<SelectionArchive>, EngineError>)
    ensures
        probed(r, sel@.len(), answers@),
{
    if sel.len() == 0 {
        return Err(
            EngineError::Operational(
                "probe_archive_modes called with zero sample selections; refusing to compare fingerprints over an empty set".to_owned(),
            ),
        );
    }
    let ghost all = answers@;
    let mut rest = answers;
    let mut out: Vec<SelectionArchive> = Vec::new();
    while rest.len() > 0
        invariant
            sel@.len() > 0,
            all == answers@,
            out@.len() + rest@.len() == all.len(),
            rest@ == all.skip(out@.len() as int),
            forall|i: int|
                0 <= i < out@.len() ==> !ends_probe(#[trigger] all[i]) && out@[i] == offered(
                    all[i],
                ),
        decreases rest.len(),
    {
        let ghost at = out@.len() as int;
        proof {
            assert(all.skip(at)[0] == all[at]);
            assert(all.skip(at).remove(0) =~= all.skip(at + 1));
        }
        match rest.remove(0) {
            Ok(fp) => out.push(SelectionArchive::Fingerprints(fp)),
            Err(EngineError::Unsupported(reason)) => out.push(
                SelectionArchive::Unsupported(reason),
            ),
            Err(e) => {
                proof {
                    assert(ends_probe(all[at]));
                }
                return Err(e);
            },
        }
    }
    if out.len() != sel.len() {
        let mut m = "probe_archive_modes was answered for ".to_owned();
        m.append(u64_text(out.len() as u64).as_str());
        m.append(" of ");
        m.append(u64_text(sel.len() as u64).as_str());
        m.append(
            " selections; refusing to compare fingerprints over another set than the one that was selected",
        );
        return Err(EngineError::Operational(m));
    }
    Ok(out)
}

// ---- the newest record -----------------------------------------------------

/// What was read of one restored topic to find its newest record.
#[derive(Debug)]
pub struct NewestRead {
    /// The end offset of each partition.
    pub end_offsets: Vec<(i32, i64)>,
    /// The timestamp of the last record of each partition that has one, in
    /// order; absent where nothing came back.
    pub last: Vec<Option<i64>>,
}

/// What has to be read to find the newest record.
#[derive(Debug)]
pub enum NewestQuestion {
    /// The end offsets of a topic.
    EndOffsets(String),
    /// The one record of a partition at an offset.
    Last { topic: String, partition: i32, offset: i64 },
}

/// The last record of each partition that has one: its partition and offset.
pub open spec fn last_records(ends: Seq<(i32, i64)>) -> Seq<(i32, i64)>
    decreases ends.len(),
{
    if ends.len() == 0 {
        Seq::empty()
    } else if ends.last().1 > 0 {
        last_records(ends.drop_last()).push((ends.last().0, (ends.last().1 - 1) as i64))
    } else {
        last_records(ends.drop_last())
    }
}

/// The last record of each partition that has one: its partition and offset.
pub fn last_positions(ends: &Vec<(i32, i64)>) -> (r: Vec<(i32, i64)>)
    ensures
        r@ == last_records(ends@),
{
    let mut out: Vec<(i32, i64)> = Vec::new();
    let mut i: usize = 0;
    proof {
        assert(ends@.take(0) =~= Seq::empty());
    }
    while i < ends.len()
        invariant
            0 <= i <= ends.len(),
            out@ == last_records(ends@.take(i as int)),
        decreases ends.len() - i,
    {
        proof {
            assert(ends@.take(i + 1).drop_last() =~= ends@.take(i as int));
        }
        let (partition, hi) = ends[i];
        if hi > 0 {
            out.push((partition, hi - 1));
        }
        i += 1;
    }
    proof {
        assert(ends@.take(ends.len() as int) =~= ends@);
    }
    out
}

/// The timestamps that came back.
pub open spec fn stamps(reads: Seq<NewestRead>) -> Set<i64> {
    Set::new(
        |t: i64|
            exists|i: int, j: int|
                0 <= i < reads.len() && 0 <= j < reads[i].last@.len() && #[trigger] reads[i].last@[j]
                    == Some(t),
    )
}

/// The search for the newest restored record: it is refused where no topic is
/// mapped, it asks for each topic's end offsets and then for the last record of
/// each of its partitions, and else it gives the greatest timestamp that came
/// back, or is refused where none did.
pub open spec fn newest_is(
    r: Step<NewestQuestion, Result<i64, DrillError>>,
    targets: Seq<Seq<char>>,
    reads: Seq<NewestRead>,
) -> bool {
    let n = reads.len() as int;
    if targets.len() == 0 {
        r matches Step::Done(Err(e)) && e@ == ErrorModel::Operational(
            "newest_ts called with zero mapped topics; there is nothing to measure"@,
        )
    } else if 0 < n <= targets.len() && reads[n - 1].last@.len() < last_records(
        reads[n - 1].end_offsets@,
    ).len() {
        let (partition, offset) = last_records(
            reads[n - 1].end_offsets@,
        )[reads[n - 1].last@.len() as int];
        r matches Step::Ask(NewestQuestion::Last { topic, partition: p, offset: o }) && topic@
            == targets[n - 1] && p == partition && o == offset
    } else if n < targets.len() {
        r matches Step::Ask(NewestQuestion::EndOffsets(topic)) && topic@ == targets[n]
    } else {
        match r {
            Step::Done(Ok(newest)) => stamps(reads).contains(newest) && forall|t: i64|
                stamps(reads).contains(t) ==> t <= newest,
            Step::Done(Err(e)) => stamps(reads) == Set::<i64>::empty() && e@
                == ErrorModel::Operational(
                "no restored records found on any mapped target topic; cannot measure the newest restored timestamp"@,
            ),
            Step::Ask(_) => false,
        }
    }
}

/// The greatest of two timestamps, either of which may be absent.
fn later(a: Option<i64>, b: Option<i64>) -> (r: Option<i64>)
    ensures
        r is None <==> a is None && b is None,
        r is Some ==> (r == a || r == b),
        a is Some ==> r->0 >= a->0,
        b is Some ==> r->0 >= b->0,
{
    match (a, b) {
        (Some(x), Some(y)) => if x >= y {
            Some(x)
        } else {
            Some(y)
        },
        (Some(x), None) => Some(x),
        (None, y) => y,
    }
}

/// Finds the timestamp of the newest restored record, from what has been read
/// of the mapped topics so far.
pub fn newest_ts(mapping: &TextMap, reads: &Vec<NewestRead>) -> (r: Step<
    NewestQuestion,
    Result<i64, DrillError>,
>)
    ensures
        newest_is(r, values_of(mapping@), reads@),
{
    let topics: usize = mapping.len();
    let n: usize = reads.len();
    if topics == 0 {
        return Step::Done(
            Err(
                DrillError::Operational(
                    "newest_ts called with zero mapped topics; there is nothing to measure".to_owned(),
                ),
            ),
        );
    }
    if n > 0 && n <= topics {
        let asked = last_positions(&reads[n - 1].end_offsets);
        let answered: usize = reads[n - 1].last.len();
        if answered < asked.len() {
            let (partition, offset) = asked[answered];
            return Step::Ask(
                NewestQuestion::Last {
                    topic: mapping.value(n - 1).to_owned(),
                    partition,
                    offset,
                },
            );
        }
    }
    if n < topics {
        return Step::Ask(NewestQuestion::EndOffsets(mapping.value(n).to_owned()));
    }
    let mut newest: Option<i64> = None;
    let mut i: usize = 0;
    while i < n
        invariant
            0 <= i <= n == reads.len(),
            newest is Some ==> exists|a: int, b: int|
                0 <= a < i && 0 <= b < reads@[a].last@.len() && #[trigger] reads@[a].last@[b]
                    == newest,
            forall|a: int, b: int|
                0 <= a < i && 0 <= b < reads@[a].last@.len() && (
                #[trigger] reads@[a].last@[b]) is Some ==> newest is Some
                    && reads@[a].last@[b]->0 <= newest->0,
        decreases n - i,
    {
        let read = &reads[i];
        let mut j: usize = 0;
        while j < read.last.len()
            invariant
                0 <= i < n == reads.len(),
                *read == reads@[i as int],
                0 <= j <= read.last.len(),
                newest is Some ==> exists|a: int, b: int|
                    0 <= a <= i && 0 <= b < reads@[a].last@.len() && #[trigger] reads@[a].last@[b]
                        == newest,
                forall|a: int, b: int|
                    0 <= a < i && 0 <= b < reads@[a].last@.len() && (
                    #[trigger] reads@[a].last@[b]) is Some ==> newest is Some
                        && reads@[a].last@[b]->0 <= newest->0,
                forall|b: int|
                    0 <= b < j && (#[trigger] reads@[i as int].last@[b]) is Some ==> newest is Some
                        && reads@[i as int].last@[b]->0 <= newest->0,
            decreases read.last.len() - j,
        {
            let before = newest;
            newest = later(newest, read.last[j]);
            proof {
                assert(reads@[i as int].last@[j as int] == read.last@[j as int]);
            }
            j += 1;
        }
        i += 1;
    }
    match newest {
        Some(t) => {
            proof {
                assert(stamps(reads@).contains(t));
            }
            Step::Done(Ok(t))
        },
        None => {
            proof {
                assert(stamps(reads@) =~= Set::empty());
            }
            Step::Done(
                Err(
                    DrillError::Operational(
                        "no restored records found on any mapped target topic; cannot measure the newest restored timestamp".to_owned(),
                    ),
                ),
            )
        },
    }
}


// ---- the whole verification ------------------------------------------------

/// What the verification found.
#[derive(Debug)]
pub struct VerifyOutcome {
    pub integrity: Integrity,
    pub topic_parity: TopicParity,
    pub records_restored: u64,
    pub newest_restored_ts_ms: i64,
    pub verified_at: Timestamp,
    /// The verdict on each selection, in order.
    pub verdicts: Vec<SelectionVerdict>,
}

impl VerifyOutcome {
    /// The measured rate of matching records, where there is one.
    pub fn pass_rate(&self) -> (r: Option<PassRate>)
        ensures
            r == self.integrity.pass_rate_measured,
    {
        self.integrity.pass_rate_measured
    }
}

/// What has been read for the verification so far.
#[derive(Debug)]
pub struct VerifyReads {
    /// For the selections, in order.
    pub selections: Vec<SelectionReads>,
    /// Of the mapped topics' settings, in order.
    pub parity: Vec<ParityRead>,
    /// Of the mapped topics' newest records, in order.
    pub newest: Vec<NewestRead>,
    /// When the verification ended.
    pub verified_at: Option<Timestamp>,
    /// Why the read that was asked for last failed, where it did.
    pub failed: Option<ReadFault>,
}

/// Why something could not be read.
#[derive(Debug)]
pub enum ReadFault {
    /// A segment, of the archive.
    Archive(EngineError),
    /// Records, settings or offsets, of the cluster.
    Cluster(KafkaError),
}

/// The failure that a read's failure comes to.
pub open spec fn read_failure(f: ReadFault) -> ErrorModel {
    match f {
        ReadFault::Archive(e) => ErrorModel::Engine(e),
        ReadFault::Cluster(e) => ErrorModel::Kafka(e),
    }
}

/// What has to be read for the verification.
#[derive(Debug)]
pub enum VerifyQuestion {
    /// The engine's own validation run, whatever it finds.
    ValidationRun,
    /// What the archive offers for each selection.
    Probe,
    /// Something for the selection with this index.
    Selection(usize, SelectionQuestion),
    /// The settings and the end offsets of a topic of the target.
    Parity(String),
    /// Something about the newest records.
    Newest(NewestQuestion),
    /// The time.
    Now,
}

/// What has been read for a selection: nothing yet, where it is not its turn.
pub open spec fn reads_for(reads: Seq<SelectionReads>, i: int) -> (Seq<String>, Option<
    Vec<ConsumedRecord>,
>) {
    if i < reads.len() {
        (reads[i].digests@, reads[i].consumed)
    } else {
        (Seq::empty(), None)
    }
}

/// The verdicts on the selections, each from its own reads alone.
pub open spec fn ledger_is(
    v: Seq<SelectionVerdict>,
    topics: Seq<TopicFacts>,
    sel: Seq<SampleSelection>,
    archives: Seq<SelectionArchive>,
    reads: Seq<SelectionReads>,
) -> bool {
    &&& v.len() == sel.len()
    &&& forall|i: int|
        0 <= i < sel.len() ==> judged(
            #[trigger] v[i],
            topics,
            sel[i],
            archives[i],
            reads_for(reads, i),
        )
}

/// The verdict on a selection that all was read for.
pub open spec fn judged(
    v: SelectionVerdict,
    topics: Seq<TopicFacts>,
    s: SampleSelection,
    archive: SelectionArchive,
    reads: (Seq<String>, Option<Vec<ConsumedRecord>>),
) -> bool {
    match reads.1 {
        Some(consumed) => verdict_is(v, topics, s, archive, reads.0, consumed@),
        None => false,
    }
}

/// A selection is settled: it is mapped, and all was read for it.
pub open spec fn settled(
    topics: Seq<TopicFacts>,
    s: SampleSelection,
    mapping: Seq<(Seq<char>, Seq<char>)>,
    reads: (Seq<String>, Option<Vec<ConsumedRecord>>),
) -> bool {
    &&& lookup(mapping, s.topic@) is Some
    &&& reads.0.len() >= reading_keys(sampled_segments(topics, s)).len()
    &&& reads.1 is Some
}

/// How many records were read back in all.
pub open spec fn restored_total(v: Seq<SelectionVerdict>) -> nat
    decreases v.len(),
{
    if v.len() == 0 {
        0
    } else {
        restored_total(v.drop_last()) + v.last().records_restored as nat
    }
}

/// The first selection that is not settled, or that the archive did not answer
/// for.
pub open spec fn first_open(
    topics: Seq<TopicFacts>,
    sel: Seq<SampleSelection>,
    mapping: Seq<(Seq<char>, Seq<char>)>,
    answered: nat,
    reads: Seq<SelectionReads>,
) -> Option<int>
    decreases sel.len(),
{
    if sel.len() == 0 {
        None
    } else {
        match first_open(topics, sel.drop_last(), mapping, answered, reads) {
            Some(i) => Some(i),
            None => if sel.len() <= answered && settled(
                topics,
                sel.last(),
                mapping,
                reads_for(reads, sel.len() - 1),
            ) {
                None
            } else {
                Some(sel.len() - 1)
            },
        }
    }
}

/// The refusal of a ledger that the archive's answers do not cover.
pub open spec fn uncovered(answered: nat, asked: nat, s: SampleSelection) -> ErrorModel {
    ErrorModel::Operational(
        "probe_archive_modes answered for "@ + decimal(answered) + " of "@ + decimal(asked)
            + " selections; refusing to verify a ledger that cannot cover "@ + s.topic@ + "/"@
            + decimal_int(s.partition as int),
    )
}

/// What the verification comes to. Each selection is judged in turn, from its
/// own reads alone; then the topics' settings are compared and the newest
/// record is found.
pub open spec fn verify_is(
    r: Step<VerifyQuestion, Result<VerifyOutcome, DrillError>>,
    topics: Seq<TopicFacts>,
    sel: Seq<SampleSelection>,
    mapping: Seq<(Seq<char>, Seq<char>)>,
    rf: i16,
    archives: Seq<SelectionArchive>,
    reads: VerifyReads,
) -> bool {
    if sel.len() == 0 {
        r matches Step::Done(Err(e)) && e@ == ErrorModel::Operational(
            "phase7_verify::run called with zero sample selections; a fingerprint comparison over an empty set would report a pass that means nothing"@,
        )
    } else {
        match first_open(topics, sel, mapping, archives.len(), reads.selections@) {
            Some(i) => if i >= archives.len() {
                r matches Step::Done(Err(e)) && e@ == uncovered(archives.len(), sel.len(), sel[i])
            } else {
                exists|q: Step<SelectionQuestion, Result<SelectionVerdict, DrillError>>,
                    own: SelectionReads|
                    {
                        &&& (own.digests@, own.consumed) == reads_for(reads.selections@, i)
                        &&& #[trigger] selection_is(q, topics, sel[i], mapping, archives[i], own)
                        &&& match q {
                            Step::Ask(question) => r == Step::<
                                VerifyQuestion,
                                Result<VerifyOutcome, DrillError>,
                            >::Ask(VerifyQuestion::Selection(i as usize, question)),
                            Step::Done(Err(e)) => r == Step::<
                                VerifyQuestion,
                                Result<VerifyOutcome, DrillError>,
                            >::Done(Err(e)),
                            Step::Done(Ok(_)) => false,
                        }
                    }
            },
            None => concluded(r, topics, sel, mapping, rf, archives, reads),
        }
    }
}

/// Where a verification stands once every selection was examined, from how the
/// parity of the topics and the newest record stand.
pub open spec fn concluding(
    r: Step<VerifyQuestion, Result<VerifyOutcome, DrillError>>,
    parity: Step<String, Result<TopicParity, DrillError>>,
    newest: Step<NewestQuestion, Result<i64, DrillError>>,
    topics: Seq<TopicFacts>,
    sel: Seq<SampleSelection>,
    mapping: Seq<(Seq<char>, Seq<char>)>,
    rf: i16,
    archives: Seq<SelectionArchive>,
    reads: VerifyReads,
) -> bool {
    &&& parity_is(parity, topics, mapping, reads.parity@, rf)
    &&& newest_is(newest, values_of(mapping), reads.newest@)
    &&& match parity {
        Step::Ask(topic) => r == Step::<
            VerifyQuestion,
            Result<VerifyOutcome, DrillError>,
        >::Ask(VerifyQuestion::Parity(topic)),
        Step::Done(Err(e)) => r == Step::<
            VerifyQuestion,
            Result<VerifyOutcome, DrillError>,
        >::Done(Err(e)),
        Step::Done(Ok(topic_parity)) => match newest {
            Step::Ask(q) => r == Step::<
                VerifyQuestion,
                Result<VerifyOutcome, DrillError>,
            >::Ask(VerifyQuestion::Newest(q)),
            Step::Done(Err(e)) => r == Step::<
                VerifyQuestion,
                Result<VerifyOutcome, DrillError>,
            >::Done(Err(e)),
            Step::Done(Ok(ts)) => match reads.verified_at {
                None => r == Step::<
                    VerifyQuestion,
                    Result<VerifyOutcome, DrillError>,
                >::Ask(VerifyQuestion::Now),
                Some(at) => {
                    &&& r matches Step::Done(Ok(outcome))
                    &&& ledger_is(
                        outcome.verdicts@,
                        topics,
                        sel,
                        archives,
                        reads.selections@,
                    )
                    &&& integrity_is(outcome.integrity, outcome.verdicts@)
                    &&& outcome.topic_parity == topic_parity
                    &&& outcome.records_restored == restored_total(outcome.verdicts@)
                    &&& outcome.newest_restored_ts_ms == ts
                    &&& outcome.verified_at == at
                },
            },
        },
    }
}

/// What the verification comes to, once each selection has its verdict.
pub open spec fn concluded(
    r: Step<VerifyQuestion, Result<VerifyOutcome, DrillError>>,
    topics: Seq<TopicFacts>,
    sel: Seq<SampleSelection>,
    mapping: Seq<(Seq<char>, Seq<char>)>,
    rf: i16,
    archives: Seq<SelectionArchive>,
    reads: VerifyReads,
) -> bool {
    exists|
        parity: Step<String, Result<TopicParity, DrillError>>,
        newest: Step<NewestQuestion, Result<i64, DrillError>>,
    |
        #[trigger]
        concluding(r, parity, newest, topics, sel, mapping, rf, archives, reads)
}

/// The conclusion that follows from a ledger.
pub open spec fn integrity_is(r: Integrity, v: Seq<SelectionVerdict>) -> bool {
    &&& r.level == level_of(v)
    &&& r.result == result_of(v)
    &&& r.records_sampled == compared_total(v)
    &&& r.records_sampled_matching == matching_total(v)
    &&& r.mismatches == compared_total(v) - matching_total(v)
    &&& r.pass_rate_measured == rate_of(v)
    &&& r.partial_reason is Some <==> reason_of(v) is Some
    &&& r.partial_reason is Some ==> Some(r.partial_reason->0@) == reason_of(v)
    &&& r.restored_principal_could_consume is None
}

/// How many fingerprints the archive offers in all.
pub open spec fn offered_total(archives: Seq<SelectionArchive>) -> nat
    decreases archives.len(),
{
    if archives.len() == 0 {
        0
    } else {
        offered_total(archives.drop_last()) + match archives.last() {
            SelectionArchive::Fingerprints(fp) => fp@.len(),
            SelectionArchive::Unsupported(_) => 0,
        }
    }
}

/// How many records have been read back in all.
pub open spec fn consumed_total(reads: Seq<SelectionReads>) -> nat
    decreases reads.len(),
{
    if reads.len() == 0 {
        0
    } else {
        consumed_total(reads.drop_last()) + match reads.last().consumed {
            Some(c) => c@.len(),
            None => 0,
        }
    }
}


/// No more records match than were compared.
proof fn matches_are_compared(archive: Seq<RecordFingerprint>, consumed: Seq<ConsumedRecord>)
    ensures
        came_back_count(archive, consumed) <= archive.len(),
    decreases archive.len(),
{
    if archive.len() > 0 {
        matches_are_compared(archive.drop_last(), consumed);
    }
}

/// Totals grow with the list.
proof fn offered_grows(archives: Seq<SelectionArchive>, n: int)
    requires
        0 <= n <= archives.len(),
    ensures
        offered_total(archives.take(n)) <= offered_total(archives),
    decreases archives.len() - n,
{
    if n < archives.len() {
        offered_grows(archives, n + 1);
        assert(archives.take(n + 1).drop_last() =~= archives.take(n));
    } else {
        assert(archives.take(n) =~= archives);
    }
}

/// Totals grow with the list.
proof fn consumed_grows(reads: Seq<SelectionReads>, n: int)
    requires
        0 <= n <= reads.len(),
    ensures
        consumed_total(reads.take(n)) <= consumed_total(reads),
    decreases reads.len() - n,
{
    if n < reads.len() {
        consumed_grows(reads, n + 1);
        assert(reads.take(n + 1).drop_last() =~= reads.take(n));
    } else {
        assert(reads.take(n) =~= reads);
    }
}

/// An open selection among the first selections is the first open among all.
proof fn first_open_stays(
    topics: Seq<TopicFacts>,
    sel: Seq<SampleSelection>,
    n: int,
    mapping: Seq<(Seq<char>, Seq<char>)>,
    answered: nat,
    reads: Seq<SelectionReads>,
)
    requires
        0 <= n <= sel.len(),
        first_open(topics, sel.take(n), mapping, answered, reads) is Some,
    ensures
        first_open(topics, sel, mapping, answered, reads) == first_open(
            topics,
            sel.take(n),
            mapping,
            answered,
            reads,
        ),
    decreases sel.len() - n,
{
    if n < sel.len() {
        assert(sel.take(n + 1).drop_last() =~= sel.take(n));
        first_open_stays(topics, sel, n + 1, mapping, answered, reads);
    } else {
        assert(sel.take(n) =~= sel);
    }
}

/// Verifies a restore against what the archive offers, from what has been
/// read so far.
pub fn verify_selections(
    facts: &BackupSetFacts,
    sel: &Vec<SampleSelection>,
    mapping: &TextMap,
    default_replication_factor: i16,
    archives: &Vec<SelectionArchive>,
    reads: &VerifyReads,
) -> (r: Step<VerifyQuestion, Result<VerifyOutcome, DrillError>>)
    requires
        offered_total(archives@) <= u64::MAX,
        consumed_total(reads.selections@) <= u64::MAX,
    ensures
        verify_is(
            r,
            facts.topics@,
            sel@,
            mapping@,
            default_replication_factor,
            archives@,
            *reads,
        ),
{
    if sel.len() == 0 {
        return Step::Done(
            Err(
                DrillError::Operational(
                    "phase7_verify::run called with zero sample selections; a fingerprint comparison over an empty set would report a pass that means nothing".to_owned(),
                ),
            ),
        );
    }
    let none_yet = SelectionReads { digests: Vec::new(), consumed: None };
    let ghost topics = facts.topics@;
    let ghost read = reads.selections@;
    let mut verdicts: Vec<SelectionVerdict> = Vec::new();
    let mut records_restored: u64 = 0;
    let mut i: usize = 0;
    proof {
        assert(sel@.take(0) =~= Seq::empty());
        assert(archives@.take(0) =~= Seq::empty());
        assert(read.take(0) =~= Seq::empty());
    }
    while i < sel.len()
        invariant
            0 <= i <= sel.len(),
            i <= archives.len(),
            i <= reads.selections.len(),
            topics == facts.topics@,
            read == reads.selections@,
            none_yet.digests@ == Seq::<String>::empty(),
            none_yet.consumed is None,
            offered_total(archives@) <= u64::MAX,
            consumed_total(read) <= u64::MAX,
            first_open(topics, sel@.take(i as int), mapping@, archives@.len(), read) is None,
            verdicts.len() == i,
            forall|j: int|
                0 <= j < i ==> judged(
                    #[trigger] verdicts@[j],
                    topics,
                    sel@[j],
                    archives@[j],
                    reads_for(read, j),
                ),
            compared_total(verdicts@) == offered_total(archives@.take(i as int)),
            matching_total(verdicts@) <= compared_total(verdicts@),
            restored_total(verdicts@) == consumed_total(read.take(i as int)),
            records_restored == restored_total(verdicts@),
        decreases sel.len() - i,
    {
        let s = &sel[i];
        proof {
            assert(sel@.take(i + 1).drop_last() =~= sel@.take(i as int));
            assert(sel@.take(i + 1).last() == *s);
        }
        if i == archives.len() {
            let mut why = "probe_archive_modes answered for ".to_owned();
            why.append(u64_text(archives.len() as u64).as_str());
            why.append(" of ");
            why.append(u64_text(sel.len() as u64).as_str());
            why.append(" selections; refusing to verify a ledger that cannot cover ");
            why.append(s.topic.as_str());
            why.append("/");
            why.append(i64_text(s.partition as i64).as_str());
            proof {
                first_open_stays(topics, sel@, i + 1, mapping@, archives@.len(), read);
            }
            return Step::Done(Err(DrillError::Operational(why)));
        }
        let own = if i < reads.selections.len() {
            &reads.selections[i]
        } else {
            &none_yet
        };
        let step = verdict_for_selection(facts, s, mapping, &archives[i], own);
        let ghost asked = step;
        proof {
            assert((own.digests@, own.consumed) == reads_for(read, i as int));
            assert(selection_is(asked, topics, sel@[i as int], mapping@, archives@[i as int], *own));
            if !settled(topics, *s, mapping@, reads_for(read, i as int)) {
                first_open_stays(topics, sel@, i + 1, mapping@, archives@.len(), read);
            }
        }
        let v = match step {
            Step::Ask(q) => {
                return Step::Ask(VerifyQuestion::Selection(i, q));
            },
            Step::Done(Err(e)) => {
                return Step::Done(Err(e));
            },
            Step::Done(Ok(v)) => v,
        };
        proof {
            assert(i < read.len());
            offered_grows(archives@, i + 1);
            consumed_grows(read, i + 1);
            assert(archives@.take(i + 1).drop_last() =~= archives@.take(i as int));
            assert(read.take(i + 1).drop_last() =~= read.take(i as int));
            if let SelectionArchive::Fingerprints(fp) = archives@[i as int] {
                matches_are_compared(fp@, own.consumed->0@);
            }
        }
        let ghost before = verdicts@;
        records_restored = records_restored + v.records_restored;
        verdicts.push(v);
        proof {
            assert(verdicts@.drop_last() =~= before);
            assert(verdicts@.last() == v);
            assert(judged(
                v,
                topics,
                sel@[i as int],
                archives@[i as int],
                reads_for(read, i as int),
            ));
        }
        i += 1;
    }
    proof {
        assert(sel@.take(sel.len() as int) =~= sel@);
        offered_grows(archives@, sel.len() as int);
        assert(ledger_is(verdicts@, topics, sel@, archives@, read));
    }
    let integrity = roll_up(&verdicts);
    assert(integrity_is(integrity, verdicts@));
    let parity = classify_parity_all(facts, mapping, default_replication_factor, &reads.parity);
    let newest = newest_ts(mapping, &reads.newest);
    let ghost parity_was = parity;
    let ghost newest_was = newest;
    let r = match parity {
        Step::Ask(topic) => Step::Ask(VerifyQuestion::Parity(topic)),
        Step::Done(Err(e)) => Step::Done(Err(e)),
        Step::Done(Ok(topic_parity)) => match newest {
            Step::Ask(q) => Step::Ask(VerifyQuestion::Newest(q)),
            Step::Done(Err(e)) => Step::Done(Err(e)),
            Step::Done(Ok(newest_restored_ts_ms)) => match reads.verified_at {
                None => Step::Ask(VerifyQuestion::Now),
                Some(verified_at) => Step::Done(
                    Ok(
                        VerifyOutcome {
                            integrity,
                            topic_parity,
                            records_restored,
                            newest_restored_ts_ms,
                            verified_at,
                            verdicts,
                        },
                    ),
                ),
            },
        },
    };
    assert(concluding(
        r,
        parity_was,
        newest_was,
        topics,
        sel@,
        mapping@,
        default_replication_factor,
        archives@,
        *reads,
    ));
    r
}

/// How a verification stands: the engine's own validation is run first, and the
/// archive is probed; what the first finds is not looked at.
pub open spec fn run_is(
    r: Step<VerifyQuestion, Result<VerifyOutcome, DrillError>>,
    topics: Seq<TopicFacts>,
    sel: Seq<SampleSelection>,
    mapping: Seq<(Seq<char>, Seq<char>)>,
    rf: i16,
    validation: Option<Result<i32, EngineError>>,
    archives: Option<Result<Vec<SelectionArchive>, EngineError>>,
    reads: VerifyReads,
) -> bool {
    match (validation, archives) {
        _ if sel.len() == 0 => verify_is(r, topics, sel, mapping, rf, Seq::empty(), reads),
        (None, _) => r == Step::<VerifyQuestion, Result<VerifyOutcome, DrillError>>::Ask(
            VerifyQuestion::ValidationRun,
        ),
        (Some(_), None) => r == Step::<VerifyQuestion, Result<VerifyOutcome, DrillError>>::Ask(
            VerifyQuestion::Probe,
        ),
        (Some(_), Some(Err(e))) => r matches Step::Done(Err(d)) && d@ == ErrorModel::Engine(e),
        (Some(_), Some(Ok(a))) => match reads.failed {
            Some(f) => r matches Step::Done(Err(d)) && d@ == read_failure(f),
            None => verify_is(r, topics, sel, mapping, rf, a@, reads),
        },
    }
}

/// Verifies a restore, from what has been asked so far.
pub fn run(
    facts: &BackupSetFacts,
    sel: &Vec<SampleSelection>,
    mapping: &TextMap,
    default_replication_factor: i16,
    validation: &Option<Result<i32, EngineError>>,
    archives: &Option<Result<Vec<SelectionArchive>, EngineError>>,
    reads: &VerifyReads,
) -> (r: Step<VerifyQuestion, Result<VerifyOutcome, DrillError>>)
    requires
        archives matches Some(Ok(a)) ==> offered_total(a@) <= u64::MAX,
        consumed_total(reads.selections@) <= u64::MAX,
    ensures
        run_is(
            r,
            facts.topics@,
            sel@,
            mapping@,
            default_replication_factor,
            *validation,
            *archives,
            *reads,
        ),
{
    if sel.len() == 0 {
        return verify_selections(
            facts,
            sel,
            mapping,
            default_replication_factor,
            &Vec::new(),
            reads,
        );
    }
    match (validation, archives) {
        (None, _) => Step::Ask(VerifyQuestion::ValidationRun),
        (Some(_), None) => Step::Ask(VerifyQuestion::Probe),
        (Some(_), Some(Err(e))) => Step::Done(Err(DrillError::Engine(e.clone()))),
        (Some(_), Some(Ok(a))) => match &reads.failed {
            Some(ReadFault::Archive(e)) => Step::Done(Err(DrillError::Engine(e.clone()))),
            Some(ReadFault::Cluster(e)) => Step::Done(Err(DrillError::Kafka(e.clone()))),
            None => verify_selections(
                facts,
                sel,
                mapping,
                default_replication_factor,
                a,
                reads,
            ),
        },
    }
}

/// Two verdicts on a selection say the same.
pub open spec fn same_verdict(a: SelectionVerdict, b: SelectionVerdict) -> bool {
    &&& a.id@ == b.id@
    &&& a.claimed == b.claimed
    &&& a.segments@ == b.segments@
    &&& a.records@ == b.records@
    &&& a.records_restored == b.records_restored
    &&& a.reconciled == b.reconciled
    &&& a.downgrade == b.downgrade
}

/// Two ledgers say the same.
pub open spec fn same_ledger(a: Seq<SelectionVerdict>, b: Seq<SelectionVerdict>) -> bool {
    a.len() == b.len() && forall|i: int| 0 <= i < a.len() ==> same_verdict(#[trigger] a[i], b[i])
}

/// Two verifications came to the same, whenever they ended.
pub open spec fn same_outcome(a: VerifyOutcome, b: VerifyOutcome) -> bool {
    &&& a.integrity == (Integrity { partial_reason: a.integrity.partial_reason, ..b.integrity })
    &&& text_of(a.integrity.partial_reason) == text_of(b.integrity.partial_reason)
    &&& texts(a.topic_parity.intentionally_deviated@) == texts(
        b.topic_parity.intentionally_deviated@,
    )
    &&& texts(a.topic_parity.unexpected_divergence@) == texts(
        b.topic_parity.unexpected_divergence@,
    )
    &&& a.records_restored == b.records_restored
    &&& a.newest_restored_ts_ms == b.newest_restored_ts_ms
    &&& same_ledger(a.verdicts@, b.verdicts@)
}

/// Two questions ask the same.
pub open spec fn same_question(a: VerifyQuestion, b: VerifyQuestion) -> bool {
    match (a, b) {
        (VerifyQuestion::ValidationRun, VerifyQuestion::ValidationRun) => true,
        (VerifyQuestion::Probe, VerifyQuestion::Probe) => true,
        (VerifyQuestion::Now, VerifyQuestion::Now) => true,
        (VerifyQuestion::Parity(x), VerifyQuestion::Parity(y)) => x@ == y@,
        (VerifyQuestion::Selection(i, p), VerifyQuestion::Selection(j, q)) => i == j && match (
            p,
            q,
        ) {
            (SelectionQuestion::Segment(x), SelectionQuestion::Segment(y)) => x@ == y@,
            (
                SelectionQuestion::Records { topic: x, partition: m, count: k },
                SelectionQuestion::Records { topic: y, partition: n, count: l },
            ) => x@ == y@ && m == n && k == l,
            _ => false,
        },
        (VerifyQuestion::Newest(p), VerifyQuestion::Newest(q)) => match (p, q) {
            (NewestQuestion::EndOffsets(x), NewestQuestion::EndOffsets(y)) => x@ == y@,
            (
                NewestQuestion::Last { topic: x, partition: m, offset: k },
                NewestQuestion::Last { topic: y, partition: n, offset: l },
            ) => x@ == y@ && m == n && k == l,
            _ => false,
        },
        _ => false,
    }
}

/// Two verifications stand at the same point.
pub open spec fn same_step(
    a: Step<VerifyQuestion, Result<VerifyOutcome, DrillError>>,
    b: Step<VerifyQuestion, Result<VerifyOutcome, DrillError>>,
) -> bool {
    match (a, b) {
        (Step::Ask(p), Step::Ask(q)) => same_question(p, q),
        (Step::Done(Err(d)), Step::Done(Err(e))) => d@ == e@,
        (Step::Done(Ok(v)), Step::Done(Ok(w))) => same_outcome(v, w),
        _ => false,
    }
}

/// Ledgers that say the same come to the same totals and notes.
proof fn same_ledgers_add_up(a: Seq<SelectionVerdict>, b: Seq<SelectionVerdict>)
    requires
        same_ledger(a, b),
    ensures
        compared_total(a) == compared_total(b),
        matching_total(a) == matching_total(b),
        restored_total(a) == restored_total(b),
        ledger_notes(a) == ledger_notes(b),
        byte_level_ids(a) == byte_level_ids(b),
    decreases a.len(),
{
    if a.len() > 0 {
        let x = a.drop_last();
        let y = b.drop_last();
        assert forall|i: int| 0 <= i < x.len() implies same_verdict(#[trigger] x[i], y[i]) by {
            assert(same_verdict(a[i], b[i]));
        }
        same_ledgers_add_up(x, y);
        assert(same_verdict(a[a.len() - 1], b[b.len() - 1]));
        assert(a.last().segments.reason() == b.last().segments.reason());
        assert(a.last().records.reason() == b.last().records.reason());
        assert(a.last().own_notes() == b.last().own_notes());
    }
}

/// Ledgers that say the same come to the same conclusion.
proof fn same_ledgers_conclude_alike(a: Seq<SelectionVerdict>, b: Seq<SelectionVerdict>)
    requires
        same_ledger(a, b),
    ensures
        level_of(a) == level_of(b),
        result_of(a) == result_of(b),
        rate_of(a) == rate_of(b),
        reason_of(a) == reason_of(b),
{
    same_ledgers_add_up(a, b);
    assert forall|i: int| 0 <= i < a.len() implies same_verdict(#[trigger] a[i], b[i]) && (
    a[i].is_failure() <==> b[i].is_failure()) && (a[i].is_proof() <==> b[i].is_proof()) && (
    a[i].is_conclusive() <==> b[i].is_conclusive()) by {}
    assert forall|i: int| 0 <= i < b.len() implies same_verdict(a[i], #[trigger] b[i]) && (
    a[i].is_failure() <==> b[i].is_failure()) && (a[i].is_proof() <==> b[i].is_proof()) && (
    a[i].is_conclusive() <==> b[i].is_conclusive()) by {
        assert(same_verdict(a[i], b[i]));
    }
}

/// A conclusion is fixed by what was read, but for when it was drawn.
proof fn conclusions_are_alike(
    r: Step<VerifyQuestion, Result<VerifyOutcome, DrillError>>,
    s: Step<VerifyQuestion, Result<VerifyOutcome, DrillError>>,
    topics: Seq<TopicFacts>,
    sel: Seq<SampleSelection>,
    mapping: Seq<(Seq<char>, Seq<char>)>,
    rf: i16,
    archives: Seq<SelectionArchive>,
    reads: VerifyReads,
    again: VerifyReads,
)
    requires
        concluded(r, topics, sel, mapping, rf, archives, reads),
        concluded(s, topics, sel, mapping, rf, archives, again),
        again == (VerifyReads { verified_at: again.verified_at, ..reads }),
        again.verified_at is Some <==> reads.verified_at is Some,
    ensures
        same_step(r, s),
{
    let (parity, newest) = choose|
        parity: Step<String, Result<TopicParity, DrillError>>,
        newest: Step<NewestQuestion, Result<i64, DrillError>>,
    |
        concluding(r, parity, newest, topics, sel, mapping, rf, archives, reads);
    let (parity2, newest2) = choose|
        parity: Step<String, Result<TopicParity, DrillError>>,
        newest: Step<NewestQuestion, Result<i64, DrillError>>,
    |
        concluding(s, parity, newest, topics, sel, mapping, rf, archives, again);
    if let (Step::Done(Ok(p)), Step::Done(Ok(q))) = (parity, parity2) {
        sort_is_unique(texts(p.intentionally_deviated@), texts(q.intentionally_deviated@));
        sort_is_unique(texts(p.unexpected_divergence@), texts(q.unexpected_divergence@));
        if let (Step::Done(Ok(_)), Step::Done(Ok(_))) = (r, s) {
            let v = r->Done_0->Ok_0.verdicts@;
            let w = s->Done_0->Ok_0.verdicts@;
            assert forall|i: int| 0 <= i < v.len() implies same_verdict(#[trigger] v[i], w[i]) by {
                assert(judged(v[i], topics, sel[i], archives[i], reads_for(reads.selections@, i)));
                assert(judged(w[i], topics, sel[i], archives[i], reads_for(reads.selections@, i)));
            }
            same_ledgers_add_up(v, w);
            same_ledgers_conclude_alike(v, w);
        }
    }
}

/// What the engine says of its own restore is no evidence: two verifications on
/// which it said different things, or could not be asked, and which read the
/// same of everything else, ask the same, fail alike, and come to the same
/// result, whenever they end.
pub proof fn the_engines_verdict_is_no_evidence(
    r: Step<VerifyQuestion, Result<VerifyOutcome, DrillError>>,
    s: Step<VerifyQuestion, Result<VerifyOutcome, DrillError>>,
    topics: Seq<TopicFacts>,
    sel: Seq<SampleSelection>,
    mapping: Seq<(Seq<char>, Seq<char>)>,
    rf: i16,
    found: Result<i32, EngineError>,
    other: Result<i32, EngineError>,
    archives: Option<Result<Vec<SelectionArchive>, EngineError>>,
    reads: VerifyReads,
    again: VerifyReads,
)
    requires
        run_is(r, topics, sel, mapping, rf, Some(found), archives, reads),
        run_is(s, topics, sel, mapping, rf, Some(other), archives, again),
        again == (VerifyReads { verified_at: again.verified_at, ..reads }),
        again.verified_at is Some <==> reads.verified_at is Some,
    ensures
        same_step(r, s),
{
    if sel.len() > 0 {
        if let Some(Ok(a)) = archives {
            if reads.failed is None && first_open(
                topics,
                sel,
                mapping,
                a@.len(),
                reads.selections@,
            ) is None {
                conclusions_are_alike(r, s, topics, sel, mapping, rf, a@, reads, again);
            }
        }
    }
}

/// A pass means that every selection was examined: its window holds a segment,
/// every one of its segments is the one that the manifest names, and at least
/// as many records as are claimed came back, each of them as it was wherever
/// the archive can be fingerprinted.
pub proof fn pass_means_every_selection_was_checked(
    v: Seq<SelectionVerdict>,
    topics: Seq<TopicFacts>,
    sel: Seq<SampleSelection>,
    archives: Seq<SelectionArchive>,
    reads: Seq<SelectionReads>,
    i: int,
)
    requires
        ledger_is(v, topics, sel, archives, reads),
        result_of(v) == IntegrityResult::Pass,
        0 <= i < sel.len(),
    ensures
        sampled_segments(topics, sel[i]).len() > 0,
        skipped_keys(sampled_segments(topics, sel[i])).len() == 0,
        failed_keys(sampled_segments(topics, sel[i]), reads_for(reads, i).0).len() == 0,
        ({
            let claimed = claim(sampled_segments(topics, sel[i]), sel[i].count as nat);
            let consumed = reads_for(reads, i).1->0@;
            match archives[i] {
                SelectionArchive::Fingerprints(fp) => {
                    &&& fp@.len() > 0
                    &&& fp@.len() >= claimed
                    &&& forall|k: int|
                        0 <= k < fp@.len() ==> came_back(#[trigger] fp@[k], consumed)
                },
                SelectionArchive::Unsupported(_) => consumed.len() > 0 && consumed.len() >= claimed,
            }
        }),
{
    pass_is_positive_evidence(v);
    assert(v[i].is_proof());
    assert(judged(v[i], topics, sel[i], archives[i], reads_for(reads, i)));
    let consumed = reads_for(reads, i).1->0@;
    if let SelectionArchive::Fingerprints(fp) = archives[i] {
        matches_are_compared(fp@, consumed);
        assert forall|k: int| 0 <= k < fp@.len() implies came_back(#[trigger] fp@[k], consumed) by {
            all_came_back(fp@, consumed, k);
        }
    }
}

/// Where as many records came back as were archived, each of them did.
proof fn all_came_back(archive: Seq<RecordFingerprint>, consumed: Seq<ConsumedRecord>, k: int)
    requires
        came_back_count(archive, consumed) == archive.len(),
        0 <= k < archive.len(),
    ensures
        came_back(archive[k], consumed),
    decreases archive.len(),
{
    matches_are_compared(archive.drop_last(), consumed);
    if k < archive.len() - 1 {
        all_came_back(archive.drop_last(), consumed, k);
        assert(archive.drop_last()[k] == archive[k]);
    }
}

} // verus!
