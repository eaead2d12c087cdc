//! Choosing the records that are sampled.
use vstd::prelude::*;
use crate::clock::{millis_of, rfc3339_text, Timestamp};
use crate::drill::error::{DrillError, ErrorModel};
use crate::drill::facts::{
    BackupSetFacts, BackupSetRef, PartitionFacts, SampleSelection, SegmentFacts, TopicFacts,
};
use crate::drill::phase7_verify::window_segments;
use crate::drill::spec::SampleSpec;
use crate::text::{decimal_int, i64_text, texts};

verus! {

/// What is sampled of which partitions.
#[derive(Debug)]
pub struct Selection {
    pub window: (Timestamp, Timestamp),
    pub per_partition: Vec<SampleSelection>,
    /// How many records the manifest says that the window holds.
    pub records_expected: u64,
    pub topics: u32,
    pub partitions: u32,
    /// What is missing from the window.
    pub notes: Vec<String>,
}

/// A selection whose records are read from that backup set, and which is
/// otherwise the same.
pub open spec fn bound(before: Selection, after: Selection, set: BackupSetRef) -> bool {
    &&& after.per_partition@.len() == before.per_partition@.len()
    &&& forall|i: int|
        0 <= i < before.per_partition@.len() ==> #[trigger] after.per_partition@[i] == (
        SampleSelection { set, ..before.per_partition@[i] })
    &&& after == (Selection { per_partition: after.per_partition, ..before })
}

impl Selection {
    /// Names the backup set that the sampled records are read from.
    pub fn bind_backup_set(&mut self, set: &BackupSetRef)
        ensures
            bound(*old(self), *final(self), *set),
    {
        let ghost before = self.per_partition@;
        let mut i: usize = 0;
        while i < self.per_partition.len()
            invariant
                0 <= i <= self.per_partition.len(),
                before == old(self).per_partition@,
                self.per_partition@.len() == before.len(),
                forall|j: int|
                    0 <= j < i ==> #[trigger] self.per_partition@[j] == (SampleSelection {
                        set: *set,
                        ..before[j]
                    }),
                forall|j: int|
                    i <= j < before.len() ==> #[trigger] self.per_partition@[j] == before[j],
                *self == (Selection { per_partition: self.per_partition, ..*old(self) }),
            decreases self.per_partition.len() - i,
        {
            self.per_partition[i].set = set.clone();
            i += 1;
        }
    }
}

/// A count as an unsigned number, as the machine reads its bits.
pub open spec fn unsigned(n: int) -> int {
    if n < 0 {
        n + 0x1_0000_0000_0000_0000
    } else {
        n
    }
}

/// A count as an unsigned number.
fn as_unsigned(n: i64) -> (r: u64)
    ensures
        r == unsigned(n as int),
{
    if n < 0 {
        u64::MAX - (-(n + 1)) as u64
    } else {
        n as u64
    }
}

/// How many records the segments hold together.
pub open spec fn expected(segs: Seq<SegmentFacts>) -> int
    decreases segs.len(),
{
    if segs.len() == 0 {
        0
    } else {
        expected(segs.drop_last()) + unsigned(segs.last().record_count as int)
    }
}

/// The lowest first offset of the segments.
pub open spec fn lowest(segs: Seq<SegmentFacts>) -> i64
    decreases segs.len(),
{
    if segs.len() <= 1 {
        segs[0].start_offset
    } else if lowest(segs.drop_last()) <= segs.last().start_offset {
        lowest(segs.drop_last())
    } else {
        segs.last().start_offset
    }
}

/// The highest last offset of the segments.
pub open spec fn highest(segs: Seq<SegmentFacts>) -> i64
    decreases segs.len(),
{
    if segs.len() <= 1 {
        segs[0].end_offset
    } else if highest(segs.drop_last()) >= segs.last().end_offset {
        highest(segs.drop_last())
    } else {
        segs.last().end_offset
    }
}

/// A range of offsets in words, in front of and behind fixed texts.
pub open spec fn range_note(
    topic: Seq<char>,
    partition: i32,
    before: Seq<char>,
    range: (i64, i64),
    after: Seq<char>,
) -> Seq<char> {
    topic + "/"@ + decimal_int(partition as int) + before + decimal_int(range.0 as int) + ".."@
        + decimal_int(range.1 as int) + after
}

/// A note for each range that overlaps the offsets from `lo` to `hi`.
pub open spec fn overlap_notes(
    ranges: Seq<(i64, i64)>,
    lo: i64,
    hi: i64,
    topic: Seq<char>,
    partition: i32,
    before: Seq<char>,
    after: Seq<char>,
) -> Seq<Seq<char>>
    decreases ranges.len(),
{
    if ranges.len() == 0 {
        Seq::empty()
    } else {
        let rest = overlap_notes(ranges.drop_last(), lo, hi, topic, partition, before, after);
        if ranges.last().0 <= hi && ranges.last().1 >= lo {
            rest.push(range_note(topic, partition, before, ranges.last(), after))
        } else {
            rest
        }
    }
}

/// Adds a note for each range that overlaps the offsets from `lo` to `hi`.
fn add_overlap_notes(
    notes: &mut Vec<String>,
    ranges: &Vec<(i64, i64)>,
    lo: i64,
    hi: i64,
    topic: &str,
    partition: i32,
    before: &str,
    after: &str,
)
    ensures
        texts(final(notes)@) == texts(old(notes)@) + overlap_notes(
            ranges@,
            lo,
            hi,
            topic@,
            partition,
            before@,
            after@,
        ),
{
    let ghost was = texts(notes@);
    let mut i: usize = 0;
    proof {
        assert(ranges@.take(0) =~= Seq::empty());
        assert(was + Seq::<Seq<char>>::empty() =~= was);
    }
    while i < ranges.len()
        invariant
            0 <= i <= ranges.len(),
            texts(notes@) == was + overlap_notes(
                ranges@.take(i as int),
                lo,
                hi,
                topic@,
                partition,
                before@,
                after@,
            ),
        decreases ranges.len() - i,
    {
        let (g0, g1) = ranges[i];
        let ghost so_far = texts(notes@);
        proof {
            assert(ranges@.take(i + 1).drop_last() =~= ranges@.take(i as int));
        }
        if g0 <= hi && g1 >= lo {
            let mut n = topic.to_owned();
            n.append("/");
            n.append(i64_text(partition as i64).as_str());
            n.append(before);
            n.append(i64_text(g0).as_str());
            n.append("..");
            n.append(i64_text(g1).as_str());
            n.append(after);
            notes.push(n);
            proof {
                assert(texts(notes@) =~= so_far.push(
                    range_note(topic@, partition, before@, ranges@[i as int], after@),
                ));
                assert(texts(notes@) =~= was + overlap_notes(
                    ranges@.take(i + 1),
                    lo,
                    hi,
                    topic@,
                    partition,
                    before@,
                    after@,
                ));
            }
        }
        i += 1;
    }
    proof {
        assert(ranges@.take(ranges.len() as int) =~= ranges@);
    }
}

/// A partition that holds records of the window.
pub ghost struct CandidateModel {
    pub topic: Seq<char>,
    pub partition: i32,
    pub expected: int,
    pub notes: Seq<Seq<char>>,
}

/// A partition as a candidate, where it holds records of the window.
pub open spec fn candidate(topic: Seq<char>, p: PartitionFacts, window: (i64, i64)) -> Option<
    CandidateModel,
> {
    let segs = window_segments(p.segments@, window);
    if segs.len() == 0 {
        None
    } else {
        let lo = lowest(segs);
        let hi = highest(segs);
        Some(
            CandidateModel {
                topic,
                partition: p.partition_id,
                expected: expected(segs),
                notes: overlap_notes(
                    p.gaps@,
                    lo,
                    hi,
                    topic,
                    p.partition_id,
                    ": capture gap "@,
                    " overlaps the sampled window"@,
                ) + overlap_notes(
                    p.pruned@,
                    lo,
                    hi,
                    topic,
                    p.partition_id,
                    ": retention pruned "@,
                    " inside the sampled window"@,
                ),
            },
        )
    }
}

/// The candidates among partitions, in order.
pub open spec fn partition_candidates(
    topic: Seq<char>,
    parts: Seq<PartitionFacts>,
    window: (i64, i64),
) -> Seq<CandidateModel>
    decreases parts.len(),
{
    if parts.len() == 0 {
        Seq::empty()
    } else {
        let rest = partition_candidates(topic, parts.drop_last(), window);
        match candidate(topic, parts.last(), window) {
            Some(c) => rest.push(c),
            None => rest,
        }
    }
}

/// The candidates among the selected topics, in order.
pub open spec fn candidates(
    topics: Seq<TopicFacts>,
    selected: Seq<Seq<char>>,
    window: (i64, i64),
) -> Seq<CandidateModel>
    decreases topics.len(),
{
    if topics.len() == 0 {
        Seq::empty()
    } else {
        let rest = candidates(topics.drop_last(), selected, window);
        if selected.contains(topics.last().name@) {
            rest + partition_candidates(topics.last().name@, topics.last().partitions@, window)
        } else {
            rest
        }
    }
}

/// The candidates that are kept, where their number is limited.
pub open spec fn kept(all: Seq<CandidateModel>, max: Option<u32>) -> Seq<CandidateModel> {
    match max {
        Some(n) => if n < all.len() {
            all.take(n as int)
        } else {
            all
        },
        None => all,
    }
}

/// How many records the candidates hold together.
pub open spec fn total_expected(c: Seq<CandidateModel>) -> int
    decreases c.len(),
{
    if c.len() == 0 {
        0
    } else {
        total_expected(c.drop_last()) + c.last().expected
    }
}

/// The notes of the candidates, in order.
pub open spec fn all_notes(c: Seq<CandidateModel>) -> Seq<Seq<char>>
    decreases c.len(),
{
    if c.len() == 0 {
        Seq::empty()
    } else {
        all_notes(c.drop_last()) + c.last().notes
    }
}

/// The topics of the candidates.
pub open spec fn topics_of(c: Seq<CandidateModel>) -> Set<Seq<char>> {
    Seq::new(c.len(), |i: int| c[i].topic).to_set()
}

/// A candidate's sample.
pub open spec fn sample_is(
    s: SampleSelection,
    c: CandidateModel,
    backup_id: Seq<char>,
    spec: SampleSpec,
) -> bool {
    &&& s.set.backup_id@ == backup_id
    &&& s.set.manifest_key@.len() == 0
    &&& s.topic@ == c.topic
    &&& s.partition == c.partition
    &&& s.anchor == spec.anchor
    &&& s.count == spec.records_per_partition
    &&& s.window.0 == millis_of(spec.window_start@)
    &&& s.window.1 == millis_of(spec.window_end@)
}

/// The window in milliseconds.
pub open spec fn window_ms(spec: SampleSpec) -> (i64, i64) {
    (millis_of(spec.window_start@) as i64, millis_of(spec.window_end@) as i64)
}

/// The failure of a window that holds nothing.
pub open spec fn empty_window(backup_id: Seq<char>, spec: SampleSpec) -> ErrorModel {
    ErrorModel::Operational(
        "no segment in backup "@ + backup_id + " overlaps the window "@ + rfc3339_text(
            spec.window_start@.secs,
            spec.window_start@.nanos,
        ) + " .. "@ + rfc3339_text(spec.window_end@.secs, spec.window_end@.nanos)
            + "; a drill over an empty window would report a pass that means nothing"@,
    )
}

/// What the selection comes to.
pub open spec fn selection_is(
    r: Result<Selection, DrillError>,
    facts: BackupSetFacts,
    spec: SampleSpec,
    selected: Seq<Seq<char>>,
) -> bool {
    let all = candidates(facts.topics@, selected, window_ms(spec));
    let chosen = kept(all, spec.max_partitions);
    if spec.records_per_partition == 0 {
        r matches Err(e) && e@ == ErrorModel::Operational(
            "sample.records_per_partition is 0; a canary sample of zero records per partition can never establish integrity and must not reach a SampleSelection"@,
        )
    } else if all.len() == 0 {
        r matches Err(e) && e@ == empty_window(facts.backup_id@, spec)
    } else {
        &&& r matches Ok(s)
        &&& s.window == (spec.window_start, spec.window_end)
        &&& s.per_partition@.len() == chosen.len()
        &&& forall|i: int|
            0 <= i < chosen.len() ==> sample_is(
                #[trigger] s.per_partition@[i],
                chosen[i],
                facts.backup_id@,
                spec,
            )
        &&& s.records_expected == total_expected(chosen)
        &&& s.topics == topics_of(chosen).len() as u32
        &&& s.partitions == chosen.len() as u32
        &&& texts(s.notes@) == all_notes(chosen)
    }
}

/// Segments hold no less than none.
proof fn expected_is_sound(segs: Seq<SegmentFacts>)
    ensures
        expected(segs) >= 0,
    decreases segs.len(),
{
    if segs.len() > 0 {
        expected_is_sound(segs.drop_last());
    }
}

/// Candidates that hold no less than none.
spec fn sound(c: Seq<CandidateModel>) -> bool {
    forall|i: int| 0 <= i < c.len() ==> (#[trigger] c[i]).expected >= 0
}

/// The candidates among partitions hold no less than none.
proof fn partition_candidates_sound(
    topic: Seq<char>,
    parts: Seq<PartitionFacts>,
    window: (i64, i64),
)
    ensures
        sound(partition_candidates(topic, parts, window)),
    decreases parts.len(),
{
    if parts.len() > 0 {
        partition_candidates_sound(topic, parts.drop_last(), window);
        let segs = window_segments(parts.last().segments@, window);
        expected_is_sound(segs);
    }
}

/// The candidates among topics hold no less than none.
proof fn candidates_sound(topics: Seq<TopicFacts>, selected: Seq<Seq<char>>, window: (i64, i64))
    ensures
        sound(candidates(topics, selected, window)),
    decreases topics.len(),
{
    if topics.len() > 0 {
        candidates_sound(topics.drop_last(), selected, window);
        partition_candidates_sound(topics.last().name@, topics.last().partitions@, window);
    }
}

/// A part holds no more than the whole.
proof fn totals_grow(c: Seq<CandidateModel>, n: int)
    requires
        sound(c),
        0 <= n <= c.len(),
    ensures
        0 <= total_expected(c.take(n)) <= total_expected(c),
    decreases c.len(),
{
    if c.len() == 0 {
        assert(c.take(n) =~= c);
    } else {
        assert(c[c.len() - 1].expected >= 0);
        assert(sound(c.drop_last())) by {
            assert forall|i: int| 0 <= i < c.drop_last().len() implies (
            #[trigger] c.drop_last()[i]).expected >= 0 by {
                assert(c[i].expected >= 0);
            }
        }
        if n < c.len() {
            totals_grow(c.drop_last(), n);
            assert(c.drop_last().take(n) =~= c.take(n));
        } else {
            totals_grow(c.drop_last(), n - 1);
            assert(c.drop_last().take(n - 1) =~= c.drop_last());
            assert(c.take(n) =~= c);
        }
    }
}

/// The candidates among the first topics are the first of all candidates.
proof fn candidates_grow(
    topics: Seq<TopicFacts>,
    selected: Seq<Seq<char>>,
    window: (i64, i64),
    n: int,
)
    requires
        0 <= n <= topics.len(),
    ensures
        candidates(topics.take(n), selected, window).is_prefix_of(
            candidates(topics, selected, window),
        ),
    decreases topics.len() - n,
{
    let c = candidates(topics, selected, window);
    if n < topics.len() {
        candidates_grow(topics, selected, window, n + 1);
        assert(topics.take(n + 1).drop_last() =~= topics.take(n));
        let a = candidates(topics.take(n), selected, window);
        let b = candidates(topics.take(n + 1), selected, window);
        assert(a =~= b.subrange(0, a.len() as int));
        assert(a =~= c.subrange(0, a.len() as int));
    } else {
        assert(topics.take(n) =~= topics);
        assert(c =~= c.subrange(0, c.len() as int));
    }
}

/// The candidates among the first partitions are the first of a topic's.
proof fn partition_candidates_grow(
    topic: Seq<char>,
    parts: Seq<PartitionFacts>,
    window: (i64, i64),
    n: int,
)
    requires
        0 <= n <= parts.len(),
    ensures
        partition_candidates(topic, parts.take(n), window).is_prefix_of(
            partition_candidates(topic, parts, window),
        ),
    decreases parts.len() - n,
{
    let c = partition_candidates(topic, parts, window);
    if n < parts.len() {
        partition_candidates_grow(topic, parts, window, n + 1);
        assert(parts.take(n + 1).drop_last() =~= parts.take(n));
        let a = partition_candidates(topic, parts.take(n), window);
        let b = partition_candidates(topic, parts.take(n + 1), window);
        assert(a =~= b.subrange(0, a.len() as int));
        assert(a =~= c.subrange(0, a.len() as int));
    } else {
        assert(parts.take(n) =~= parts);
        assert(c =~= c.subrange(0, c.len() as int));
    }
}

/// One partition that may be sampled.
struct Candidate {
    sel: SampleSelection,
    expected: u64,
    notes: Vec<String>,
}

/// A candidate that is as its model has it.
spec fn candidate_is(
    c: Candidate,
    m: CandidateModel,
    backup_id: Seq<char>,
    spec: SampleSpec,
) -> bool {
    &&& sample_is(c.sel, m, backup_id, spec)
    &&& m.expected <= u64::MAX ==> c.expected == m.expected
    &&& texts(c.notes@) == m.notes
}

/// The offsets of a partition's segments in the window, and their record count
/// where it can be counted.
fn survey(segs: &Vec<SegmentFacts>, window: (i64, i64)) -> (r: Option<(i64, i64, u64)>)
    ensures
        ({
            let w = window_segments(segs@, window);
            if w.len() == 0 {
                r is None
            } else {
                r matches Some((lo, hi, n)) && lo == lowest(w) && hi == highest(w) && (expected(w)
                    <= u64::MAX ==> n == expected(w))
            }
        }),
{
    let mut found: bool = false;
    let mut lo: i64 = 0;
    let mut hi: i64 = 0;
    let mut count: u64 = 0;
    let mut i: usize = 0;
    proof {
        assert(segs@.take(0) =~= Seq::empty());
    }
    while i < segs.len()
        invariant
            0 <= i <= segs.len(),
            ({
                let w = window_segments(segs@.take(i as int), window);
                &&& found <==> w.len() > 0
                &&& found ==> lo == lowest(w) && hi == highest(w)
                &&& expected(w) <= u64::MAX ==> count == expected(w)
            }),
        decreases segs.len() - i,
    {
        let seg = &segs[i];
        let ghost w = window_segments(segs@.take(i as int), window);
        proof {
            assert(segs@.take(i + 1).drop_last() =~= segs@.take(i as int));
            assert(segs@.take(i + 1).last() == *seg);
        }
        if seg.start_timestamp <= window.1 && seg.end_timestamp >= window.0 {
            proof {
                assert(w.push(*seg).drop_last() =~= w);
            }
            if !found || seg.start_offset < lo {
                lo = seg.start_offset;
            }
            if !found || seg.end_offset > hi {
                hi = seg.end_offset;
            }
            let more: u64 = as_unsigned(seg.record_count);
            count = if more <= u64::MAX - count {
                count + more
            } else {
                u64::MAX
            };
            found = true;
        }
        i += 1;
    }
    proof {
        assert(segs@.take(segs.len() as int) =~= segs@);
    }
    if found {
        Some((lo, hi, count))
    } else {
        None
    }
}

/// A partition as a candidate, where it holds records of the window.
fn consider(
    backup_id: &String,
    topic: &String,
    p: &PartitionFacts,
    spec: &SampleSpec,
    window: (i64, i64),
) -> (r: Option<Candidate>)
    requires
        window == window_ms(*spec),
        window.0 == millis_of(spec.window_start@),
        window.1 == millis_of(spec.window_end@),
    ensures
        match candidate(topic@, *p, window) {
            Some(m) => r matches Some(c) && candidate_is(c, m, backup_id@, *spec),
            None => r is None,
        },
{
    match survey(&p.segments, window) {
        None => None,
        Some((lo, hi, expected)) => {
            let mut notes: Vec<String> = Vec::new();
            proof {
                assert(texts(notes@) =~= Seq::empty());
            }
            add_overlap_notes(
                &mut notes,
                &p.gaps,
                lo,
                hi,
                topic.as_str(),
                p.partition_id,
                ": capture gap ",
                " overlaps the sampled window",
            );
            proof {
                assert(texts(notes@) =~= overlap_notes(
                    p.gaps@,
                    lo,
                    hi,
                    topic@,
                    p.partition_id,
                    ": capture gap "@,
                    " overlaps the sampled window"@,
                ));
            }
            add_overlap_notes(
                &mut notes,
                &p.pruned,
                lo,
                hi,
                topic.as_str(),
                p.partition_id,
                ": retention pruned ",
                " inside the sampled window",
            );
            Some(
                Candidate {
                    sel: SampleSelection {
                        set: BackupSetRef {
                            backup_id: backup_id.clone(),
                            manifest_key: String::new(),
                        },
                        topic: topic.clone(),
                        partition: p.partition_id,
                        anchor: spec.anchor,
                        count: spec.records_per_partition,
                        window,
                    },
                    expected,
                    notes,
                },
            )
        },
    }
}

/// Candidates that are as their models have them.
spec fn candidates_are(
    c: Seq<Candidate>,
    m: Seq<CandidateModel>,
    backup_id: Seq<char>,
    spec: SampleSpec,
) -> bool {
    &&& c.len() == m.len()
    &&& forall|i: int| 0 <= i < m.len() ==> candidate_is(#[trigger] c[i], m[i], backup_id, spec)
}

/// Whether a text is among others.
pub fn is_among(names: &Vec<String>, name: &String) -> (r: bool)
    ensures
        r == texts(names@).contains(name@),
{
    let ghost all = texts(names@);
    let mut i: usize = 0;
    while i < names.len()
        invariant
            0 <= i <= names.len(),
            all == texts(names@),
            forall|j: int| 0 <= j < i ==> all[j] != name@,
        decreases names.len() - i,
    {
        if names[i] == *name {
            proof {
                assert(all[i as int] == name@);
            }
            return true;
        }
        proof {
            assert(all[i as int] != name@);
        }
        i += 1;
    }
    false
}

/// Every partition of the selected topics that holds records of the window.
fn gather(
    facts: &BackupSetFacts,
    spec: &SampleSpec,
    topics: &Vec<String>,
    window: (i64, i64),
) -> (r: Vec<Candidate>)
    requires
        window == window_ms(*spec),
        window.0 == millis_of(spec.window_start@),
        window.1 == millis_of(spec.window_end@),
    ensures
        candidates_are(
            r@,
            candidates(facts.topics@, texts(topics@), window),
            facts.backup_id@,
            *spec,
        ),
{
    let ghost selected = texts(topics@);
    let ghost all = candidates(facts.topics@, selected, window);
    let mut out: Vec<Candidate> = Vec::new();
    let mut i: usize = 0;
    proof {
        assert(facts.topics@.take(0) =~= Seq::empty());
    }
    while i < facts.topics.len()
        invariant
            0 <= i <= facts.topics.len(),
            selected == texts(topics@),
            all == candidates(facts.topics@, selected, window),
            window == window_ms(*spec),
            window.0 == millis_of(spec.window_start@),
            window.1 == millis_of(spec.window_end@),
            candidates_are(
                out@,
                candidates(facts.topics@.take(i as int), selected, window),
                facts.backup_id@,
                *spec,
            ),
        decreases facts.topics.len() - i,
    {
        let t = &facts.topics[i];
        let ghost prev = candidates(facts.topics@.take(i as int), selected, window);
        proof {
            assert(facts.topics@.take(i + 1).drop_last() =~= facts.topics@.take(i as int));
            assert(facts.topics@.take(i + 1).last() == *t);
            candidates_grow(facts.topics@, selected, window, i + 1);
        }
        if is_among(topics, &t.name) {
            let ghost own = partition_candidates(t.name@, t.partitions@, window);
            let ghost next = prev + own;
            let mut k: usize = 0;
            proof {
                assert(candidates(facts.topics@.take(i + 1), selected, window) == next);
                assert(t.partitions@.take(0) =~= Seq::empty());
                assert(prev + Seq::<CandidateModel>::empty() =~= prev);
            }
            while k < t.partitions.len()
                invariant
                    0 <= k <= t.partitions.len(),
                    own == partition_candidates(t.name@, t.partitions@, window),
                    next == prev + own,
                    next.is_prefix_of(all),
                    window == window_ms(*spec),
                    window.0 == millis_of(spec.window_start@),
                    window.1 == millis_of(spec.window_end@),
                    candidates_are(
                        out@,
                        prev + partition_candidates(t.name@, t.partitions@.take(k as int), window),
                        facts.backup_id@,
                        *spec,
                    ),
                decreases t.partitions.len() - k,
            {
                let p = &t.partitions[k];
                let ghost before = out@;
                let ghost so_far = prev + partition_candidates(
                    t.name@,
                    t.partitions@.take(k as int),
                    window,
                );
                proof {
                    assert(t.partitions@.take(k + 1).drop_last() =~= t.partitions@.take(k as int));
                    assert(t.partitions@.take(k + 1).last() == *p);
                    match candidate(t.name@, *p, window) {
                        Some(m) => {
                            partition_candidates_grow(t.name@, t.partitions@, window, k + 1);
                            let part = partition_candidates(
                                t.name@,
                                t.partitions@.take(k + 1),
                                window,
                            );
                            let at = so_far.len();
                            assert(part.last() == m);
                            assert(part =~= own.subrange(0, part.len() as int));
                            assert(own[part.len() - 1] == m);
                            assert(next[at as int] == m);
                            assert(all.subrange(0, next.len() as int)[at as int] == m);
                            assert(all[at as int] == m);
                            assert(so_far.push(m) =~= prev + part);
                        },
                        None => {},
                    }
                }
                if let Some(c) = consider(&facts.backup_id, &t.name, p, spec, window) {
                    out.push(c);
                    proof {
                        let m = candidate(t.name@, *p, window)->0;
                        assert(prev + partition_candidates(
                            t.name@,
                            t.partitions@.take(k + 1),
                            window,
                        ) =~= so_far.push(m));
                    }
                }
                k += 1;
            }
            proof {
                assert(t.partitions@.take(t.partitions.len() as int) =~= t.partitions@);
            }
        }
        i += 1;
    }
    proof {
        assert(facts.topics@.take(facts.topics.len() as int) =~= facts.topics@);
    }
    out
}

/// One candidate holds no more than all.
proof fn one_is_within(c: Seq<CandidateModel>, i: int)
    requires
        sound(c),
        0 <= i < c.len(),
    ensures
        0 <= c[i].expected <= total_expected(c),
{
    totals_grow(c, i + 1);
    totals_grow(c, i);
    assert(c.take(i + 1).drop_last() =~= c.take(i));
    assert(c.take(i + 1).last() == c[i]);
}


/// The topics of one more candidate.
proof fn topics_of_push(c: Seq<CandidateModel>, m: CandidateModel)
    ensures
        topics_of(c.push(m)) == topics_of(c).insert(m.topic),
{
    let a = Seq::new(c.len(), |i: int| c[i].topic);
    let b = Seq::new(c.push(m).len(), |i: int| c.push(m)[i].topic);
    assert(b =~= a.push(m.topic));
    assert forall|t: Seq<char>| b.to_set().contains(t) <==> a.to_set().insert(m.topic).contains(
        t,
    ) by {
        if b.contains(t) {
            let i = choose|i: int| 0 <= i < b.len() && b[i] == t;
            if i < a.len() {
                assert(a[i] == t);
            }
        }
        if a.contains(t) {
            let i = choose|i: int| 0 <= i < a.len() && a[i] == t;
            assert(b[i] == t);
        }
        assert(b[a.len() as int] == m.topic);
    }
    assert(b.to_set() =~= a.to_set().insert(m.topic));
}

/// Chooses the records to sample: the partitions of the selected topics that
/// hold records of the window, at most as many of them as the plan allows.
pub fn run(facts: &BackupSetFacts, spec: &SampleSpec, topics: &Vec<String>) -> (r: Result<
    Selection,
    DrillError,
>)
    requires
        spec.records_per_partition > 0 ==> total_expected(
            kept(
                candidates(facts.topics@, texts(topics@), window_ms(*spec)),
                spec.max_partitions,
            ),
        ) <= u64::MAX,
    ensures
        selection_is(r, *facts, *spec, texts(topics@)),
{
    if spec.records_per_partition == 0 {
        return Err(
            DrillError::Operational(
                "sample.records_per_partition is 0; a canary sample of zero records per partition can never establish integrity and must not reach a SampleSelection".to_owned(),
            ),
        );
    }
    let window = (spec.window_start.millis(), spec.window_end.millis());
    let ghost all = candidates(facts.topics@, texts(topics@), window);
    let mut rest = gather(facts, spec, topics, window);
    if rest.len() == 0 {
        let mut why = "no segment in backup ".to_owned();
        why.append(facts.backup_id.as_str());
        why.append(" overlaps the window ");
        why.append(spec.window_start.rfc3339().as_str());
        why.append(" .. ");
        why.append(spec.window_end.rfc3339().as_str());
        why.append("; a drill over an empty window would report a pass that means nothing");
        return Err(DrillError::Operational(why));
    }
    if let Some(max) = spec.max_partitions {
        if (max as u64) < rest.len() as u64 {
            rest.truncate(max as usize);
        }
    }
    let ghost chosen = kept(all, spec.max_partitions);
    proof {
        candidates_sound(facts.topics@, texts(topics@), window);
        assert(sound(chosen)) by {
            assert forall|i: int| 0 <= i < chosen.len() implies (#[trigger] chosen[i]).expected
                >= 0 by {
                assert(all[i].expected >= 0);
            }
        }
        assert(candidates_are(rest@, chosen, facts.backup_id@, *spec));
    }
    let partitions: u32 = rest.len() as u32;
    let mut per_partition: Vec<SampleSelection> = Vec::new();
    let mut notes: Vec<String> = Vec::new();
    let mut seen: Vec<String> = Vec::new();
    let mut records_expected: u64 = 0;
    let ghost mut done: int = 0;
    proof {
        assert(chosen.skip(0) =~= chosen);
        assert(chosen.take(0) =~= Seq::empty());
        assert(texts(notes@) =~= Seq::empty());
        assert(texts(seen@).to_set() =~= topics_of(chosen.take(0)));
    }
    while rest.len() > 0
        invariant
            0 <= done <= chosen.len(),
            sound(chosen),
            total_expected(chosen) <= u64::MAX,
            candidates_are(rest@, chosen.skip(done), facts.backup_id@, *spec),
            per_partition@.len() == done,
            forall|j: int|
                0 <= j < done ==> sample_is(
                    #[trigger] per_partition@[j],
                    chosen[j],
                    facts.backup_id@,
                    *spec,
                ),
            records_expected == total_expected(chosen.take(done)),
            texts(notes@) == all_notes(chosen.take(done)),
            texts(seen@).no_duplicates(),
            texts(seen@).to_set() == topics_of(chosen.take(done)),
        decreases rest.len(),
    {
        let ghost m = chosen[done];
        proof {
            assert(chosen.skip(done)[0] == m);
            assert(chosen.take(done + 1).drop_last() =~= chosen.take(done));
            assert(chosen.take(done + 1) =~= chosen.take(done).push(m));
            totals_grow(chosen, done + 1);
            one_is_within(chosen, done);
            topics_of_push(chosen.take(done), m);
        }
        let ghost before = rest@;
        let c = rest.remove(0);
        proof {
            assert(candidate_is(before[0], chosen.skip(done)[0], facts.backup_id@, *spec));
            assert forall|j: int| 0 <= j < chosen.skip(done + 1).len() implies candidate_is(
                #[trigger] rest@[j],
                chosen.skip(done + 1)[j],
                facts.backup_id@,
                *spec,
            ) by {
                assert(rest@[j] == before[j + 1]);
                assert(chosen.skip(done + 1)[j] == chosen.skip(done)[j + 1]);
            }
        }
        records_expected = records_expected + c.expected;
        let ghost was_notes = notes@;
        let mut own = c.notes;
        let ghost added = own@;
        notes.append(&mut own);
        proof {
            assert(texts(notes@) =~= texts(was_notes) + texts(added));
        }
        let ghost was_seen = texts(seen@);
        if !is_among(&seen, &c.sel.topic) {
            seen.push(c.sel.topic.clone());
            proof {
                let now = texts(seen@);
                assert(now =~= was_seen.push(m.topic));
                assert forall|t: Seq<char>| now.to_set().contains(t) <==> was_seen.to_set().insert(
                    m.topic,
                ).contains(t) by {
                    if now.contains(t) {
                        let i = choose|i: int| 0 <= i < now.len() && now[i] == t;
                        if i < was_seen.len() {
                            assert(was_seen[i] == t);
                        }
                    }
                    if was_seen.contains(t) {
                        let i = choose|i: int| 0 <= i < was_seen.len() && was_seen[i] == t;
                        assert(now[i] == t);
                    }
                    assert(now[was_seen.len() as int] == m.topic);
                }
                assert(now.to_set() =~= was_seen.to_set().insert(m.topic));
            }
        } else {
            proof {
                assert(was_seen.to_set() =~= was_seen.to_set().insert(m.topic));
            }
        }
        per_partition.push(c.sel);
        proof {
            done = done + 1;
        }
    }
    proof {
        assert(chosen.take(done) =~= chosen);
        texts(seen@).unique_seq_to_set();
        assert(texts(seen@).len() == seen@.len());
    }
    Ok(
        Selection {
            window: (spec.window_start, spec.window_end),
            per_partition,
            records_expected,
            topics: seen.len() as u32,
            partitions,
            notes,
        },
    )
}

/// Two samples read the same records.
pub open spec fn same_sample(a: SampleSelection, b: SampleSelection) -> bool {
    &&& a.set.backup_id@ == b.set.backup_id@
    &&& a.set.manifest_key@ == b.set.manifest_key@
    &&& a.topic@ == b.topic@
    &&& a.partition == b.partition
    &&& a.anchor == b.anchor
    &&& a.count == b.count
    &&& a.window == b.window
}

/// The notes of the first candidates are the first of all notes.
proof fn notes_grow(c: Seq<CandidateModel>, n: int)
    requires
        0 <= n <= c.len(),
    ensures
        all_notes(c.take(n)).is_prefix_of(all_notes(c)),
    decreases c.len() - n,
{
    let whole = all_notes(c);
    if n < c.len() {
        notes_grow(c, n + 1);
        assert(c.take(n + 1).drop_last() =~= c.take(n));
        let a = all_notes(c.take(n));
        let b = all_notes(c.take(n + 1));
        assert(a =~= b.subrange(0, a.len() as int));
        assert(a =~= whole.subrange(0, a.len() as int));
    } else {
        assert(c.take(n) =~= c);
        assert(whole =~= whole.subrange(0, whole.len() as int));
    }
}

/// A limit on the partitions keeps the first of them, and whatever the sample
/// says of itself it says of those alone: its counts are theirs, its notes are
/// the first of the notes, and it holds no more records.
pub proof fn a_limit_keeps_the_first(
    facts: BackupSetFacts,
    spec: SampleSpec,
    selected: Seq<Seq<char>>,
    full: Selection,
    limit: u32,
    r: Result<Selection, DrillError>,
)
    requires
        selection_is(
            Ok(full),
            facts,
            SampleSpec { max_partitions: None, ..spec },
            selected,
        ),
        selection_is(
            r,
            facts,
            SampleSpec { max_partitions: Some(limit), ..spec },
            selected,
        ),
    ensures
        ({
            let n = if limit < full.per_partition@.len() {
                limit as int
            } else {
                full.per_partition@.len() as int
            };
            let first = candidates(facts.topics@, selected, window_ms(spec)).take(n);
            &&& r matches Ok(s)
            &&& s.window == full.window
            &&& s.per_partition@.len() == n
            &&& forall|i: int|
                0 <= i < n ==> same_sample(#[trigger] s.per_partition@[i], full.per_partition@[i])
            &&& s.partitions == n as u32
            &&& s.topics == topics_of(first).len() as u32
            &&& s.records_expected == total_expected(first)
            &&& s.records_expected <= full.records_expected
            &&& texts(s.notes@) == all_notes(first)
            &&& texts(s.notes@).is_prefix_of(texts(full.notes@))
        }),
{
    let all = candidates(facts.topics@, selected, window_ms(spec));
    let n = if limit < all.len() {
        limit as int
    } else {
        all.len() as int
    };
    let first = all.take(n);
    assert(window_ms(SampleSpec { max_partitions: None, ..spec }) == window_ms(spec));
    assert(window_ms(SampleSpec { max_partitions: Some(limit), ..spec }) == window_ms(spec));
    assert(kept(all, Some(limit)) =~= first);
    candidates_sound(facts.topics@, selected, window_ms(spec));
    totals_grow(all, n);
    notes_grow(all, n);
    assert(r is Ok);
    let s = r->Ok_0;
    assert forall|i: int| 0 <= i < n implies same_sample(
        #[trigger] s.per_partition@[i],
        full.per_partition@[i],
    ) by {
        assert(first[i] == all[i]);
        assert(sample_is(
            s.per_partition@[i],
            first[i],
            facts.backup_id@,
            SampleSpec { max_partitions: Some(limit), ..spec },
        ));
        assert(sample_is(
            full.per_partition@[i],
            all[i],
            facts.backup_id@,
            SampleSpec { max_partitions: None, ..spec },
        ));
        assert(s.per_partition@[i].set.manifest_key@ =~= full.per_partition@[i].set.manifest_key@);
    }
}

} // verus!
