//! What the choice of a sample promises, in terms of the archive and the plan.
use vstd::prelude::*;
use crate::clock::millis_of;
use crate::drill::error::DrillError;
use crate::drill::facts::{
    BackupSetFacts, BackupSetRef, PartitionFacts, SampleSelection, SegmentFacts, TopicFacts,
};
use crate::drill::phase4_sample::{
    all_notes, bound, candidate, candidates, expected, highest, kept, lowest, overlap_notes,
    partition_candidates, range_note, sample_is, selection_is, total_expected, window_ms,
    CandidateModel, Selection,
};
use crate::drill::phase7_verify::window_segments;
use crate::drill::spec::SampleSpec;
use crate::drill::verify_laws::{
    a_segment_shares_an_instant_with_its_window, a_window_leaves_out_what_is_before_and_after,
};
use crate::text::texts;

verus! {

/// A candidate of that partition of that topic.
spec fn stands_for(m: CandidateModel, topic: Seq<char>, partition: i32) -> bool {
    m.topic == topic && m.partition == partition
}

/// Some candidate stands for that partition of that topic.
spec fn has_candidate(c: Seq<CandidateModel>, topic: Seq<char>, partition: i32) -> bool {
    exists|k: int| 0 <= k < c.len() && stands_for(#[trigger] c[k], topic, partition)
}

/// A partition that holds a segment of the window is a candidate.
proof fn a_partition_is_found(
    topic: Seq<char>,
    parts: Seq<PartitionFacts>,
    window: (i64, i64),
    b: int,
)
    requires
        0 <= b < parts.len(),
        window_segments(parts[b].segments@, window).len() > 0,
    ensures
        has_candidate(partition_candidates(topic, parts, window), topic, parts[b].partition_id),
    decreases parts.len(),
{
    let all = partition_candidates(topic, parts, window);
    let rest = parts.drop_last();
    let was = partition_candidates(topic, rest, window);
    if b < rest.len() {
        a_partition_is_found(topic, rest, window, b);
        let k = choose|k: int|
            0 <= k < was.len() && stands_for(#[trigger] was[k], topic, rest[b].partition_id);
        assert(all[k] == was[k]);
        assert(stands_for(all[k], topic, parts[b].partition_id));
    } else {
        assert(stands_for(all[all.len() - 1], topic, parts[b].partition_id));
    }
}

/// A candidate is a partition that holds a segment of the window.
proof fn a_found_partition_is_there(
    topic: Seq<char>,
    parts: Seq<PartitionFacts>,
    window: (i64, i64),
    k: int,
)
    requires
        0 <= k < partition_candidates(topic, parts, window).len(),
    ensures
        exists|b: int|
            0 <= b < parts.len() && candidate(topic, #[trigger] parts[b], window) == Some(
                partition_candidates(topic, parts, window)[k],
            ),
    decreases parts.len(),
{
    let all = partition_candidates(topic, parts, window);
    let rest = parts.drop_last();
    let was = partition_candidates(topic, rest, window);
    if k < was.len() {
        a_found_partition_is_there(topic, rest, window, k);
        let b = choose|b: int|
            0 <= b < rest.len() && candidate(topic, #[trigger] rest[b], window) == Some(was[k]);
        assert(parts[b] == rest[b]);
    } else {
        assert(candidate(topic, parts[parts.len() - 1], window) == Some(all[k]));
    }
}

/// The candidates of a selected topic are among all.
proof fn a_topic_is_found(
    topics: Seq<TopicFacts>,
    selected: Seq<Seq<char>>,
    window: (i64, i64),
    a: int,
    b: int,
)
    requires
        0 <= a < topics.len(),
        selected.contains(topics[a].name@),
        0 <= b < topics[a].partitions@.len(),
        window_segments(topics[a].partitions@[b].segments@, window).len() > 0,
    ensures
        has_candidate(
            candidates(topics, selected, window),
            topics[a].name@,
            topics[a].partitions@[b].partition_id,
        ),
    decreases topics.len(),
{
    let all = candidates(topics, selected, window);
    let rest = topics.drop_last();
    let was = candidates(rest, selected, window);
    let name = topics[a].name@;
    let id = topics[a].partitions@[b].partition_id;
    if a < rest.len() {
        a_topic_is_found(rest, selected, window, a, b);
        assert(rest[a] == topics[a]);
        let k = choose|k: int| 0 <= k < was.len() && stands_for(#[trigger] was[k], name, id);
        assert(all[k] == was[k]);
        assert(stands_for(all[k], name, id));
    } else {
        a_partition_is_found(name, topics[a].partitions@, window, b);
        let own = partition_candidates(name, topics[a].partitions@, window);
        let k = choose|k: int| 0 <= k < own.len() && stands_for(#[trigger] own[k], name, id);
        assert(all[was.len() + k] == own[k]);
        assert(stands_for(all[was.len() + k], name, id));
    }
}

/// A candidate is a partition of a selected topic.
proof fn a_found_topic_is_there(
    topics: Seq<TopicFacts>,
    selected: Seq<Seq<char>>,
    window: (i64, i64),
    k: int,
)
    requires
        0 <= k < candidates(topics, selected, window).len(),
    ensures
        exists|a: int, b: int|
            0 <= a < topics.len() && selected.contains(topics[a].name@) && 0 <= b
                < topics[a].partitions@.len() && candidate(
                topics[a].name@,
                #[trigger] topics[a].partitions@[b],
                window,
            ) == Some(candidates(topics, selected, window)[k]),
    decreases topics.len(),
{
    let all = candidates(topics, selected, window);
    let rest = topics.drop_last();
    let was = candidates(rest, selected, window);
    if k < was.len() {
        a_found_topic_is_there(rest, selected, window, k);
        let (a, b) = choose|a: int, b: int|
            0 <= a < rest.len() && selected.contains(rest[a].name@) && 0 <= b
                < rest[a].partitions@.len() && candidate(
                rest[a].name@,
                #[trigger] rest[a].partitions@[b],
                window,
            ) == Some(was[k]);
        assert(topics[a] == rest[a]);
        assert(candidate(topics[a].name@, topics[a].partitions@[b], window) == Some(all[k]));
    } else {
        let a = topics.len() - 1;
        let parts = topics[a].partitions@;
        a_found_partition_is_there(topics[a].name@, parts, window, k - was.len());
        let own = partition_candidates(topics[a].name@, parts, window);
        let b = choose|b: int|
            0 <= b < parts.len() && candidate(topics[a].name@, #[trigger] parts[b], window) == Some(
                own[k - was.len()],
            );
        assert(own[k - was.len()] == all[k]);
        assert(candidate(topics[a].name@, topics[a].partitions@[b], window) == Some(all[k]));
    }
}

/// A partition of a selected topic that holds a segment with an instant of the
/// plan's window is sampled: there is a sample at all, and where the plan sets
/// no limit that partition is in it.
pub proof fn a_partition_that_the_window_meets_is_sampled(
    r: Result<Selection, DrillError>,
    facts: BackupSetFacts,
    spec: SampleSpec,
    selected: Seq<Seq<char>>,
    a: int,
    b: int,
    c: int,
    t: int,
)
    requires
        selection_is(r, facts, spec, selected),
        spec.records_per_partition > 0,
        i64::MIN <= millis_of(spec.window_start@),
        millis_of(spec.window_end@) <= i64::MAX,
        0 <= a < facts.topics@.len(),
        selected.contains(facts.topics@[a].name@),
        0 <= b < facts.topics@[a].partitions@.len(),
        0 <= c < facts.topics@[a].partitions@[b].segments@.len(),
        facts.topics@[a].partitions@[b].segments@[c].start_timestamp <= t
            <= facts.topics@[a].partitions@[b].segments@[c].end_timestamp,
        millis_of(spec.window_start@) <= t <= millis_of(spec.window_end@),
    ensures
        r is Ok,
        spec.max_partitions is None ==> exists|k: int|
            0 <= k < r->Ok_0.per_partition@.len() && (#[trigger] r->Ok_0.per_partition@[k]).topic@
                == facts.topics@[a].name@ && r->Ok_0.per_partition@[k].partition
                == facts.topics@[a].partitions@[b].partition_id,
{
    let window = window_ms(spec);
    let segs = facts.topics@[a].partitions@[b].segments@;
    a_segment_shares_an_instant_with_its_window(segs, window, c, t);
    let w = window_segments(segs, window);
    assert(w.len() > 0);
    a_topic_is_found(facts.topics@, selected, window, a, b);
    let all = candidates(facts.topics@, selected, window);
    let name = facts.topics@[a].name@;
    let id = facts.topics@[a].partitions@[b].partition_id;
    let k = choose|k: int| 0 <= k < all.len() && stands_for(#[trigger] all[k], name, id);
    if spec.max_partitions is None {
        assert(kept(all, spec.max_partitions) == all);
        assert(sample_is(r->Ok_0.per_partition@[k], all[k], facts.backup_id@, spec));
    }
}

/// Whatever is sampled is a partition of a selected topic and holds a segment
/// that neither ends before the plan's window nor starts after it; as many of
/// its records are asked for as the plan says, from the end that it says, and
/// in its window. No more partitions are sampled than the plan allows.
pub proof fn a_sampled_partition_meets_the_window(
    r: Result<Selection, DrillError>,
    facts: BackupSetFacts,
    spec: SampleSpec,
    selected: Seq<Seq<char>>,
    k: int,
)
    requires
        selection_is(r, facts, spec, selected),
        r is Ok,
        i64::MIN <= millis_of(spec.window_start@) <= i64::MAX,
        i64::MIN <= millis_of(spec.window_end@) <= i64::MAX,
        0 <= k < r->Ok_0.per_partition@.len(),
    ensures
        spec.max_partitions matches Some(n) ==> r->Ok_0.per_partition@.len() <= n,
        r->Ok_0.partitions == r->Ok_0.per_partition@.len() as u32,
        ({
            let s = r->Ok_0.per_partition@[k];
            &&& s.set.backup_id@ == facts.backup_id@
            &&& s.anchor == spec.anchor
            &&& s.count == spec.records_per_partition
            &&& s.count > 0
            &&& s.window.0 == millis_of(spec.window_start@)
            &&& s.window.1 == millis_of(spec.window_end@)
            &&& selected.contains(s.topic@)
            &&& exists|a: int, b: int, c: int|
                0 <= a < facts.topics@.len() && facts.topics@[a].name@ == s.topic@ && 0 <= b
                    < facts.topics@[a].partitions@.len()
                    && facts.topics@[a].partitions@[b].partition_id == s.partition && 0 <= c
                    < facts.topics@[a].partitions@[b].segments@.len() && (
                #[trigger] facts.topics@[a].partitions@[b].segments@[c]).start_timestamp
                    <= millis_of(spec.window_end@)
                    && facts.topics@[a].partitions@[b].segments@[c].end_timestamp >= millis_of(
                    spec.window_start@,
                )
        }),
{
    let window = window_ms(spec);
    let all = candidates(facts.topics@, selected, window);
    let chosen = kept(all, spec.max_partitions);
    let s = r->Ok_0.per_partition@[k];
    assert(sample_is(s, chosen[k], facts.backup_id@, spec));
    assert(chosen[k] == all[k]);
    a_found_topic_is_there(facts.topics@, selected, window, k);
    let (a, b) = choose|a: int, b: int|
        0 <= a < facts.topics@.len() && selected.contains(facts.topics@[a].name@) && 0 <= b
            < facts.topics@[a].partitions@.len() && candidate(
            facts.topics@[a].name@,
            #[trigger] facts.topics@[a].partitions@[b],
            window,
        ) == Some(all[k]);
    let segs = facts.topics@[a].partitions@[b].segments@;
    let w = window_segments(segs, window);
    a_window_leaves_out_what_is_before_and_after(segs, window);
    let inside = |x: SegmentFacts| !(x.end_timestamp < window.0 || x.start_timestamp > window.1);
    assert(w == segs.filter(inside));
    segs.lemma_filter_pred(inside, 0);
    assert(segs.filter(inside).contains(w[0]));
    segs.lemma_filter_contains_rev(inside, w[0]);
    let c = choose|c: int| 0 <= c < segs.len() && segs[c] == w[0];
    assert(facts.topics@[a].partitions@[b].segments@[c] == w[0]);
}

/// How many records a segment is said to hold, as an unsigned number.
pub open spec fn said_to_hold(s: SegmentFacts) -> int {
    if s.record_count >= 0 {
        s.record_count as int
    } else {
        s.record_count + 18_446_744_073_709_551_616
    }
}

/// A candidate's records are those of its segments in the window, added up.
pub proof fn a_candidate_adds_its_segments_up(
    topic: Seq<char>,
    p: PartitionFacts,
    window: (i64, i64),
)
    ensures
        candidate(topic, p, window) matches Some(m) ==> m.topic == topic && m.partition
            == p.partition_id && m.expected == p.segments@.filter(
            |s: SegmentFacts| !(s.end_timestamp < window.0 || s.start_timestamp > window.1),
        ).fold_left(0int, |n: int, s: SegmentFacts| n + said_to_hold(s)),
{
    a_window_leaves_out_what_is_before_and_after(p.segments@, window);
    added_up(window_segments(p.segments@, window));
}

proof fn added_up(segs: Seq<SegmentFacts>)
    ensures
        expected(segs) == segs.fold_left(0int, |n: int, s: SegmentFacts| n + said_to_hold(s)),
    decreases segs.len(),
{
    reveal_with_fuel(Seq::fold_left, 2);
    if segs.len() > 0 {
        added_up(segs.drop_last());
    }
}

/// A sample's records are those of its partitions, added up: of the partitions
/// that were kept, and of no other.
pub proof fn a_sample_adds_its_partitions_up(c: Seq<CandidateModel>)
    ensures
        total_expected(c) == c.fold_left(0int, |n: int, m: CandidateModel| n + m.expected),
    decreases c.len(),
{
    reveal_with_fuel(Seq::fold_left, 2);
    if c.len() > 0 {
        a_sample_adds_its_partitions_up(c.drop_last());
    }
}

/// The first and the last offset that segments hold.
proof fn bounds_are_kept(segs: Seq<SegmentFacts>)
    requires
        segs.len() > 0,
    ensures
        forall|i: int| 0 <= i < segs.len() ==> lowest(segs) <= (#[trigger] segs[i]).start_offset,
        forall|i: int| 0 <= i < segs.len() ==> highest(segs) >= (#[trigger] segs[i]).end_offset,
        exists|i: int| 0 <= i < segs.len() && lowest(segs) == (#[trigger] segs[i]).start_offset,
        exists|i: int| 0 <= i < segs.len() && highest(segs) == (#[trigger] segs[i]).end_offset,
    decreases segs.len(),
{
    if segs.len() > 1 {
        let rest = segs.drop_last();
        bounds_are_kept(rest);
        assert forall|i: int| 0 <= i < segs.len() implies lowest(segs) <= (
        #[trigger] segs[i]).start_offset && highest(segs) >= segs[i].end_offset by {
            if i < rest.len() {
                assert(rest[i] == segs[i]);
            }
        }
        let x = choose|i: int| 0 <= i < rest.len() && lowest(rest) == (#[trigger] rest[i]).start_offset;
        let y = choose|i: int| 0 <= i < rest.len() && highest(rest) == (#[trigger] rest[i]).end_offset;
        assert(rest[x] == segs[x]);
        assert(rest[y] == segs[y]);
        assert(segs[segs.len() - 1] == segs.last());
    } else {
        assert(segs[0] == segs[segs.len() - 1]);
    }
}

/// The notes on ranges.
proof fn noted_ranges(
    ranges: Seq<(i64, i64)>,
    lo: i64,
    hi: i64,
    topic: Seq<char>,
    partition: i32,
    before: Seq<char>,
    after: Seq<char>,
)
    ensures
        forall|i: int|
            0 <= i < ranges.len() && (#[trigger] ranges[i]).0 <= hi && ranges[i].1 >= lo
                ==> overlap_notes(ranges, lo, hi, topic, partition, before, after).contains(
                range_note(topic, partition, before, ranges[i], after),
            ),
        forall|k: int|
            0 <= k < overlap_notes(ranges, lo, hi, topic, partition, before, after).len()
                ==> exists|i: int|
                0 <= i < ranges.len() && (#[trigger] ranges[i]).0 <= hi && ranges[i].1 >= lo
                    && #[trigger] overlap_notes(
                    ranges,
                    lo,
                    hi,
                    topic,
                    partition,
                    before,
                    after,
                )[k] == range_note(topic, partition, before, ranges[i], after),
    decreases ranges.len(),
{
    if ranges.len() > 0 {
        let rest = ranges.drop_last();
        noted_ranges(rest, lo, hi, topic, partition, before, after);
        let all = overlap_notes(ranges, lo, hi, topic, partition, before, after);
        let was = overlap_notes(rest, lo, hi, topic, partition, before, after);
        assert forall|i: int|
            0 <= i < ranges.len() && (#[trigger] ranges[i]).0 <= hi && ranges[i].1
                >= lo implies all.contains(
            range_note(topic, partition, before, ranges[i], after),
        ) by {
            let note = range_note(topic, partition, before, ranges[i], after);
            if i < rest.len() {
                assert(rest[i] == ranges[i]);
                let k = choose|k: int| 0 <= k < was.len() && was[k] == note;
                assert(all[k] == note);
            } else {
                assert(all[all.len() - 1] == note);
            }
        }
        assert forall|k: int| 0 <= k < all.len() implies exists|i: int|
            0 <= i < ranges.len() && (#[trigger] ranges[i]).0 <= hi && ranges[i].1 >= lo
                && #[trigger] all[k] == range_note(topic, partition, before, ranges[i], after) by {
            if k < was.len() {
                assert(was[k] == all[k]);
                let i = choose|i: int|
                    0 <= i < rest.len() && (#[trigger] rest[i]).0 <= hi && rest[i].1 >= lo && was[k]
                        == range_note(topic, partition, before, rest[i], after);
                assert(ranges[i] == rest[i]);
            } else {
                assert(ranges[ranges.len() - 1] == ranges.last());
            }
        }
    }
}

/// A gap in what was captured is noted on its partition where it starts no
/// later than some segment of the window ends, and ends no earlier than some
/// such segment starts; and so is a range that retention took away.
pub proof fn what_is_missing_is_noted(
    topic: Seq<char>,
    p: PartitionFacts,
    window: (i64, i64),
    first: int,
    last: int,
    i: int,
)
    requires
        0 <= first < p.segments@.len(),
        0 <= last < p.segments@.len(),
        p.segments@[first].end_timestamp >= window.0,
        p.segments@[first].start_timestamp <= window.1,
        p.segments@[last].end_timestamp >= window.0,
        p.segments@[last].start_timestamp <= window.1,
    ensures
        candidate(topic, p, window) is Some,
        0 <= i < p.gaps@.len() && p.gaps@[i].0 <= p.segments@[last].end_offset && p.gaps@[i].1
            >= p.segments@[first].start_offset ==> candidate(topic, p, window)->0.notes.contains(
            range_note(
                topic,
                p.partition_id,
                ": capture gap "@,
                p.gaps@[i],
                " overlaps the sampled window"@,
            ),
        ),
        0 <= i < p.pruned@.len() && p.pruned@[i].0 <= p.segments@[last].end_offset && p.pruned@[i].1
            >= p.segments@[first].start_offset ==> candidate(topic, p, window)->0.notes.contains(
            range_note(
                topic,
                p.partition_id,
                ": retention pruned "@,
                p.pruned@[i],
                " inside the sampled window"@,
            ),
        ),
{
    let segs = p.segments@;
    let w = window_segments(segs, window);
    a_window_leaves_out_what_is_before_and_after(segs, window);
    let inside = |s: SegmentFacts| !(s.end_timestamp < window.0 || s.start_timestamp > window.1);
    assert(w == segs.filter(inside));
    segs.lemma_filter_contains(inside, first);
    segs.lemma_filter_contains(inside, last);
    bounds_are_kept(w);
    let x = choose|x: int| 0 <= x < w.len() && w[x] == segs[first];
    let y = choose|y: int| 0 <= y < w.len() && w[y] == segs[last];
    assert(lowest(w) <= w[x].start_offset);
    assert(highest(w) >= w[y].end_offset);
    let gap = (": capture gap "@, " overlaps the sampled window"@);
    let cut = (": retention pruned "@, " inside the sampled window"@);
    noted_ranges(p.gaps@, lowest(w), highest(w), topic, p.partition_id, gap.0, gap.1);
    noted_ranges(p.pruned@, lowest(w), highest(w), topic, p.partition_id, cut.0, cut.1);
    let gaps = overlap_notes(p.gaps@, lowest(w), highest(w), topic, p.partition_id, gap.0, gap.1);
    let cuts = overlap_notes(p.pruned@, lowest(w), highest(w), topic, p.partition_id, cut.0, cut.1);
    let notes = candidate(topic, p, window)->0.notes;
    assert(notes == gaps + cuts);
    if 0 <= i < p.gaps@.len() && p.gaps@[i].0 <= segs[last].end_offset && p.gaps@[i].1
        >= segs[first].start_offset {
        let note = range_note(topic, p.partition_id, gap.0, p.gaps@[i], gap.1);
        assert(gaps.contains(note));
        let k = choose|k: int| 0 <= k < gaps.len() && gaps[k] == note;
        assert(notes[k] == note);
    }
    if 0 <= i < p.pruned@.len() && p.pruned@[i].0 <= segs[last].end_offset && p.pruned@[i].1
        >= segs[first].start_offset {
        let note = range_note(topic, p.partition_id, cut.0, p.pruned@[i], cut.1);
        assert(cuts.contains(note));
        let k = choose|k: int| 0 <= k < cuts.len() && cuts[k] == note;
        assert(notes[gaps.len() + k] == note);
    }
}

/// Nothing is noted as missing but a gap or a removed range that overlaps the
/// offsets of the window's segments.
pub proof fn what_is_noted_is_missing(
    topic: Seq<char>,
    p: PartitionFacts,
    window: (i64, i64),
    k: int,
)
    requires
        candidate(topic, p, window) is Some,
        0 <= k < candidate(topic, p, window)->0.notes.len(),
    ensures
        exists|first: int, last: int, g: (i64, i64)|
            0 <= first < p.segments@.len() && 0 <= last < p.segments@.len() && !((
            #[trigger] p.segments@[first]).end_timestamp < window.0
                || p.segments@[first].start_timestamp > window.1) && !((
            #[trigger] p.segments@[last]).end_timestamp < window.0
                || p.segments@[last].start_timestamp > window.1) && g.0
                <= p.segments@[last].end_offset && g.1 >= p.segments@[first].start_offset && ((
            p.gaps@.contains(g) && candidate(topic, p, window)->0.notes[k] == #[trigger] range_note(
                topic,
                p.partition_id,
                ": capture gap "@,
                g,
                " overlaps the sampled window"@,
            )) || (p.pruned@.contains(g) && candidate(topic, p, window)->0.notes[k] == range_note(
                topic,
                p.partition_id,
                ": retention pruned "@,
                g,
                " inside the sampled window"@,
            ))),
{
    let segs = p.segments@;
    let w = window_segments(segs, window);
    a_window_leaves_out_what_is_before_and_after(segs, window);
    let inside = |s: SegmentFacts| !(s.end_timestamp < window.0 || s.start_timestamp > window.1);
    assert(w == segs.filter(inside));
    bounds_are_kept(w);
    let x = choose|x: int| 0 <= x < w.len() && lowest(w) == (#[trigger] w[x]).start_offset;
    let y = choose|y: int| 0 <= y < w.len() && highest(w) == (#[trigger] w[y]).end_offset;
    segs.lemma_filter_pred(inside, x);
    segs.lemma_filter_pred(inside, y);
    segs.lemma_filter_contains_rev(inside, w[x]);
    segs.lemma_filter_contains_rev(inside, w[y]);
    let first = choose|i: int| 0 <= i < segs.len() && segs[i] == w[x];
    let last = choose|i: int| 0 <= i < segs.len() && segs[i] == w[y];
    let gap = (": capture gap "@, " overlaps the sampled window"@);
    let cut = (": retention pruned "@, " inside the sampled window"@);
    noted_ranges(p.gaps@, lowest(w), highest(w), topic, p.partition_id, gap.0, gap.1);
    noted_ranges(p.pruned@, lowest(w), highest(w), topic, p.partition_id, cut.0, cut.1);
    let gaps = overlap_notes(p.gaps@, lowest(w), highest(w), topic, p.partition_id, gap.0, gap.1);
    let cuts = overlap_notes(p.pruned@, lowest(w), highest(w), topic, p.partition_id, cut.0, cut.1);
    let notes = candidate(topic, p, window)->0.notes;
    assert(notes == gaps + cuts);
    if k < gaps.len() {
        assert(notes[k] == gaps[k]);
        let i = choose|i: int|
            0 <= i < p.gaps@.len() && (#[trigger] p.gaps@[i]).0 <= highest(w) && p.gaps@[i].1
                >= lowest(w) && gaps[k] == range_note(
                topic,
                p.partition_id,
                gap.0,
                p.gaps@[i],
                gap.1,
            );
        let g = p.gaps@[i];
        assert(p.gaps@.contains(g));
        assert(segs[first].start_offset <= g.1 && segs[last].end_offset >= g.0);
        assert(notes[k] == range_note(topic, p.partition_id, ": capture gap "@, g, gap.1));
    } else {
        assert(notes[k] == cuts[k - gaps.len()]);
        let i = choose|i: int|
            0 <= i < p.pruned@.len() && (#[trigger] p.pruned@[i]).0 <= highest(w) && p.pruned@[i].1
                >= lowest(w) && cuts[k - gaps.len()] == range_note(
                topic,
                p.partition_id,
                cut.0,
                p.pruned@[i],
                cut.1,
            );
        let g = p.pruned@[i];
        assert(p.pruned@.contains(g));
        assert(segs[first].start_offset <= g.1 && segs[last].end_offset >= g.0);
        let other = range_note(topic, p.partition_id, ": capture gap "@, g, gap.1);
    }
}

/// Whatever a sampled partition has noted, the sample tells.
pub proof fn a_sample_tells_every_note(
    r: Result<Selection, DrillError>,
    facts: BackupSetFacts,
    spec: SampleSpec,
    selected: Seq<Seq<char>>,
    k: int,
    n: int,
)
    requires
        selection_is(r, facts, spec, selected),
        r is Ok,
        0 <= k < r->Ok_0.per_partition@.len(),
        0 <= n < candidates(facts.topics@, selected, window_ms(spec))[k].notes.len(),
    ensures
        texts(r->Ok_0.notes@).contains(
            candidates(facts.topics@, selected, window_ms(spec))[k].notes[n],
        ),
{
    let all = candidates(facts.topics@, selected, window_ms(spec));
    let chosen = kept(all, spec.max_partitions);
    assert(chosen[k] == all[k]);
    a_note_is_kept(chosen, k, n);
}

proof fn a_note_is_kept(c: Seq<CandidateModel>, k: int, n: int)
    requires
        0 <= k < c.len(),
        0 <= n < c[k].notes.len(),
    ensures
        all_notes(c).contains(c[k].notes[n]),
    decreases c.len(),
{
    let all = all_notes(c);
    let was = all_notes(c.drop_last());
    if k < c.len() - 1 {
        a_note_is_kept(c.drop_last(), k, n);
        assert(c.drop_last()[k] == c[k]);
        let i = choose|i: int| 0 <= i < was.len() && was[i] == c[k].notes[n];
        assert(all[i] == was[i]);
    } else {
        assert(all[was.len() + n] == c[k].notes[n]);
    }
}

/// The topics that a sample is said to hold are those of its partitions, each
/// counted once.
pub proof fn every_sampled_topic_is_counted_once(
    r: Result<Selection, DrillError>,
    facts: BackupSetFacts,
    spec: SampleSpec,
    selected: Seq<Seq<char>>,
)
    requires
        selection_is(r, facts, spec, selected),
        r is Ok,
    ensures
        r->Ok_0.topics == Seq::new(
            r->Ok_0.per_partition@.len(),
            |i: int| r->Ok_0.per_partition@[i].topic@,
        ).to_set().len() as u32,
        r->Ok_0.window.0 == spec.window_start && r->Ok_0.window.1 == spec.window_end,
{
    let chosen = kept(candidates(facts.topics@, selected, window_ms(spec)), spec.max_partitions);
    let s = r->Ok_0;
    assert(Seq::new(s.per_partition@.len(), |i: int| s.per_partition@[i].topic@) =~= Seq::new(
        chosen.len(),
        |i: int| chosen[i].topic,
    )) by {
        assert forall|i: int| 0 <= i < chosen.len() implies s.per_partition@[i].topic@
            == chosen[i].topic by {
            assert(sample_is(s.per_partition@[i], chosen[i], facts.backup_id@, spec));
        }
    }
}

/// A sample that is bound to a backup set is read from that set, and is the same
/// sample otherwise.
pub proof fn a_sample_is_read_from_its_set(
    before: Selection,
    after: Selection,
    set: BackupSetRef,
    i: int,
)
    requires
        bound(before, after, set),
        0 <= i < before.per_partition@.len(),
    ensures
        after.per_partition@.len() == before.per_partition@.len(),
        after.per_partition@[i].set == set,
        after.per_partition@[i].topic == before.per_partition@[i].topic,
        after.per_partition@[i].partition == before.per_partition@[i].partition,
        after.per_partition@[i].count == before.per_partition@[i].count,
        after.per_partition@[i].window == before.per_partition@[i].window,
        after.records_expected == before.records_expected,
        after.notes == before.notes,
{
    assert(after.per_partition@[i] == (SampleSelection { set, ..before.per_partition@[i] }));
}

} // verus!
