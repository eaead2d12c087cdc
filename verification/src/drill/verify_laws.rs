//! What a verification promises, in terms of what was archived and what was
//! read back.
use vstd::prelude::*;
use crate::drill::error::{DrillError, EngineError};
use crate::drill::facts::{
    ConsumedRecord, PartitionFacts, RecordFingerprint, SampleSelection, SegmentFacts, TopicFacts,
};
use crate::drill::phase7_verify::{
    all_deviations, came_back, came_back_count, claim, classified, complaint, complaints, concluded,
    concluding, deviations, failed_keys, fingerprints_prove, first_header, first_open,
    first_unknown, integrity_is, intended_deviations, judged, known_or, landed, last_records,
    ledger_is, looked_at, named, newest_is, original_offset, parity_is, partition_segments, probed,
    read_back_proves, reading_keys, reads_for, records_held, restored_total, sampled_segments,
    segments_are, segments_prove, selection_is, skipped_keys, stamps, topic_index, verdict_is,
    verify_is, window_segments, NewestQuestion, NewestRead, ParityRead, SelectionArchive,
    SelectionQuestion, SelectionReads, VerifyOutcome, VerifyQuestion, VerifyReads,
};
use crate::drill::scorecard::{IntegrityResult, TopicParity};
use crate::drill::step::Step;
use crate::drill::verdict::{
    a_ledger_is_read_by_its_evidence, compared_total, level_of, matching_total, one_failure_fails,
    pass_is_positive_evidence, rate_of, reason_of, Evidence, EvidenceModel, SelectionVerdict,
};
use crate::text::{
    a_number_reads_back, a_piece_is_found_again, decimal_int, found_within, joined, latin, occurs,
    texts,
};
use crate::textmap::{keys_ascend, lookup, value_at, values_of};

verus! {

// ---- segments --------------------------------------------------------------

/// How many of the segments before an index the manifest has a digest of: where
/// the digest that was read of that segment stands among those read.
pub open spec fn digested_before(segs: Seq<SegmentFacts>, i: int) -> int {
    segs.take(i).filter(|s: SegmentFacts| s.sha256@.len() > 0).len() as int
}

/// The manifest names that digest, with or without the name of the algorithm
/// before it.
pub open spec fn manifest_names(seg: SegmentFacts, digest: Seq<char>) -> bool {
    if "sha256:"@.is_prefix_of(seg.sha256@) {
        seg.sha256@ == "sha256:"@ + digest
    } else {
        seg.sha256@ == digest
    }
}

/// As many keys are to be read as segments have a digest.
proof fn keys_are_counted(segs: Seq<SegmentFacts>)
    ensures
        reading_keys(segs).len() == digested_before(segs, segs.len() as int),
    decreases segs.len(),
{
    reveal(Seq::filter);
    assert(segs.take(segs.len() as int) =~= segs);
    if segs.len() > 0 {
        let rest = segs.drop_last();
        keys_are_counted(rest);
        assert(rest.take(rest.len() as int) =~= rest);
    }
}

/// A segment is read at its turn.
proof fn a_key_has_its_turn(segs: Seq<SegmentFacts>, i: int)
    requires
        0 <= i < segs.len(),
        segs[i].sha256@.len() > 0,
    ensures
        0 <= digested_before(segs, i) < reading_keys(segs).len(),
        reading_keys(segs)[digested_before(segs, i)] == segs[i].key@,
    decreases segs.len(),
{
    let rest = segs.drop_last();
    if i == rest.len() {
        keys_are_counted(rest);
        assert(rest.take(i) =~= segs.take(i));
    } else {
        a_key_has_its_turn(rest, i);
        assert(rest.take(i) =~= segs.take(i));
    }
}

/// Each key that is to be read is that of a segment.
proof fn a_turn_has_its_segment(segs: Seq<SegmentFacts>, n: int)
    requires
        0 <= n < reading_keys(segs).len(),
    ensures
        exists|i: int|
            0 <= i < segs.len() && (#[trigger] segs[i]).sha256@.len() > 0 && digested_before(segs, i)
                == n && reading_keys(segs)[n] == segs[i].key@,
    decreases segs.len(),
{
    let rest = segs.drop_last();
    if n < reading_keys(rest).len() {
        a_turn_has_its_segment(rest, n);
        let i = choose|i: int|
            0 <= i < rest.len() && (#[trigger] rest[i]).sha256@.len() > 0 && digested_before(rest, i)
                == n && reading_keys(rest)[n] == rest[i].key@;
        assert(segs[i] == rest[i]);
        assert(rest.take(i) =~= segs.take(i));
    } else {
        let i = segs.len() - 1;
        keys_are_counted(rest);
        assert(rest.take(rest.len() as int) =~= rest);
        assert(rest =~= segs.take(i));
        assert(segs[i].sha256@.len() > 0);
    }
}

/// The segments that failed are those whose digest the manifest does not name.
proof fn failures_are_wrong_digests(segs: Seq<SegmentFacts>, digests: Seq<String>)
    ensures
        forall|i: int|
            0 <= i < segs.len() && (#[trigger] segs[i]).sha256@.len() > 0 && !manifest_names(
                segs[i],
                digests[digested_before(segs, i)]@,
            ) ==> failed_keys(segs, digests).contains(segs[i].key@),
        failed_keys(segs, digests).len() > 0 ==> exists|i: int|
            0 <= i < segs.len() && (#[trigger] segs[i]).sha256@.len() > 0 && !manifest_names(
                segs[i],
                digests[digested_before(segs, i)]@,
            ),
    decreases segs.len(),
{
    if segs.len() > 0 {
        let rest = segs.drop_last();
        let last = segs.len() - 1;
        failures_are_wrong_digests(rest, digests);
        keys_are_counted(rest);
        assert(rest.take(rest.len() as int) =~= rest);
        assert(rest =~= segs.take(last));
        let now = failed_keys(segs, digests);
        let was = failed_keys(rest, digests);
        let sha = segs[last].sha256@;
        let digest = digests[digested_before(segs, last)]@;
        if "sha256:"@.is_prefix_of(sha) {
            assert(sha =~= "sha256:"@ + sha.skip("sha256:"@.len() as int));
            assert(("sha256:"@ + digest).skip("sha256:"@.len() as int) =~= digest);
        }
        assert forall|i: int|
            0 <= i < segs.len() && (#[trigger] segs[i]).sha256@.len() > 0 && !manifest_names(
                segs[i],
                digests[digested_before(segs, i)]@,
            ) implies now.contains(segs[i].key@) by {
            if i < last {
                assert(rest[i] == segs[i]);
                assert(rest.take(i) =~= segs.take(i));
                let k = choose|k: int| 0 <= k < was.len() && was[k] == segs[i].key@;
                assert(now[k] == segs[i].key@);
            } else {
                assert(now[now.len() - 1] == segs[i].key@);
            }
        }
        if was.len() > 0 {
            let i = choose|i: int|
                0 <= i < rest.len() && (#[trigger] rest[i]).sha256@.len() > 0 && !manifest_names(
                    rest[i],
                    digests[digested_before(rest, i)]@,
                );
            assert(segs[i] == rest[i]);
            assert(rest.take(i) =~= segs.take(i));
        }
    }
}

/// The segments that are passed over are those that the manifest has no digest
/// of.
proof fn skips_are_undigested(segs: Seq<SegmentFacts>)
    ensures
        forall|i: int|
            0 <= i < segs.len() && (#[trigger] segs[i]).sha256@.len() == 0 ==> skipped_keys(
                segs,
            ).contains(segs[i].key@),
        skipped_keys(segs).len() > 0 ==> exists|i: int|
            0 <= i < segs.len() && (#[trigger] segs[i]).sha256@.len() == 0,
    decreases segs.len(),
{
    if segs.len() > 0 {
        let rest = segs.drop_last();
        skips_are_undigested(rest);
        let now = skipped_keys(segs);
        let was = skipped_keys(rest);
        assert forall|i: int| 0 <= i < segs.len() && (#[trigger] segs[i]).sha256@.len()
            == 0 implies now.contains(segs[i].key@) by {
            if i < rest.len() {
                assert(rest[i] == segs[i]);
                let k = choose|k: int| 0 <= k < was.len() && was[k] == segs[i].key@;
                assert(now[k] == segs[i].key@);
            } else {
                assert(now[now.len() - 1] == segs[i].key@);
            }
        }
        if was.len() > 0 {
            let i = choose|i: int| 0 <= i < rest.len() && (#[trigger] rest[i]).sha256@.len() == 0;
            assert(segs[i] == rest[i]);
        } else if now.len() > 0 {
            assert(segs[segs.len() - 1].sha256@.len() == 0);
        }
    }
}

/// Segments are verified only where the manifest has a digest of every one of
/// them and the bytes of every one of them have that digest. Where the bytes of
/// any one have another, the check fails and names that segment; and it fails
/// nowhere else. Where it neither verifies nor fails there was no segment, or
/// one without a digest, which is then named. Whatever is still to be read is
/// asked for by the key of the segment whose turn it is.
pub proof fn every_segment_answers_for_itself(
    r: Step<String, Evidence>,
    segs: Seq<SegmentFacts>,
    digests: Seq<String>,
)
    requires
        segments_are(r, segs, digests),
    ensures
        r matches Step::Done(Evidence::Verified { checked }) ==> segs.len() > 0 && checked
            == segs.len() && forall|i: int|
            0 <= i < segs.len() ==> (#[trigger] segs[i]).sha256@.len() > 0 && manifest_names(
                segs[i],
                digests[digested_before(segs, i)]@,
            ),
        r is Done ==> forall|i: int|
            0 <= i < segs.len() && (#[trigger] segs[i]).sha256@.len() > 0 && !manifest_names(
                segs[i],
                digests[digested_before(segs, i)]@,
            ) ==> (r->Done_0 matches Evidence::Failed { why } && occurs(why@, segs[i].key@)),
        r matches Step::Done(Evidence::Failed { why }) ==> exists|i: int|
            0 <= i < segs.len() && (#[trigger] segs[i]).sha256@.len() > 0 && !manifest_names(
                segs[i],
                digests[digested_before(segs, i)]@,
            ),
        r matches Step::Done(Evidence::Unverified { why }) ==> segs.len() == 0 || exists|i: int|
            0 <= i < segs.len() && (#[trigger] segs[i]).sha256@.len() == 0,
        r matches Step::Done(Evidence::Unverified { why }) ==> forall|i: int|
            0 <= i < segs.len() && (#[trigger] segs[i]).sha256@.len() == 0 ==> occurs(
                why@,
                segs[i].key@,
            ),
        r matches Step::Ask(key) ==> exists|i: int|
            0 <= i < segs.len() && (#[trigger] segs[i]).sha256@.len() > 0 && key@ == segs[i].key@
                && digested_before(segs, i) == digests.len(),
        r is Done ==> forall|i: int|
            0 <= i < segs.len() && (#[trigger] segs[i]).sha256@.len() > 0 ==> 0 <= digested_before(
                segs,
                i,
            ) < digests.len(),
{
    failures_are_wrong_digests(segs, digests);
    skips_are_undigested(segs);
    let failed = failed_keys(segs, digests);
    let skipped = skipped_keys(segs);
    match r {
        Step::Ask(key) => {
            a_turn_has_its_segment(segs, digests.len() as int);
        },
        Step::Done(e) => {
            assert(e@ == segments_prove(segs, digests));
            assert forall|i: int| 0 <= i < segs.len() && (#[trigger] segs[i]).sha256@.len()
                > 0 implies 0 <= digested_before(segs, i) < digests.len() by {
                a_key_has_its_turn(segs, i);
            }
            assert forall|i: int|
                0 <= i < segs.len() && (#[trigger] segs[i]).sha256@.len() > 0 && !manifest_names(
                    segs[i],
                    digests[digested_before(segs, i)]@,
                ) implies (e matches Evidence::Failed { why } && occurs(why@, segs[i].key@)) by {
                assert(failed.contains(segs[i].key@));
                let k = choose|k: int| 0 <= k < failed.len() && failed[k] == segs[i].key@;
                a_piece_is_found_again(failed, ", "@, k);
                let opening = "segment sha256 mismatch against the manifest for "@;
                found_within(opening, joined(failed, ", "@), Seq::empty(), segs[i].key@);
                assert(opening + joined(failed, ", "@) + Seq::<char>::empty() =~= opening
                    + joined(failed, ", "@));
            }
            if let Evidence::Unverified { why } = e {
                assert forall|i: int| 0 <= i < segs.len() && (#[trigger] segs[i]).sha256@.len()
                    == 0 implies occurs(why@, segs[i].key@) by {
                    assert(skipped.contains(segs[i].key@));
                    let k = choose|k: int| 0 <= k < skipped.len() && skipped[k] == segs[i].key@;
                    a_piece_is_found_again(skipped, ", "@, k);
                    let told = joined(skipped, ", "@);
                    let opening = why@.take(why@.len() - told.len());
                    assert(opening + told + Seq::<char>::empty() =~= why@);
                    found_within(opening, told, Seq::empty(), segs[i].key@);
                }
            }
            if e is Verified {
                assert forall|i: int| 0 <= i < segs.len() implies (#[trigger] segs[i]).sha256@.len()
                    > 0 && manifest_names(segs[i], digests[digested_before(segs, i)]@) by {
                    if segs[i].sha256@.len() == 0 {
                        assert(skipped.contains(segs[i].key@));
                    } else if !manifest_names(segs[i], digests[digested_before(segs, i)]@) {
                        assert(failed.contains(segs[i].key@));
                    }
                }
            }
        },
    }
}

// ---- windows ---------------------------------------------------------------

/// The segments of a window are, in order, those that neither end before it nor
/// start after it.
pub proof fn a_window_leaves_out_what_is_before_and_after(
    segs: Seq<SegmentFacts>,
    window: (i64, i64),
)
    ensures
        window_segments(segs, window) == segs.filter(
            |s: SegmentFacts| !(s.end_timestamp < window.0 || s.start_timestamp > window.1),
        ),
    decreases segs.len(),
{
    reveal(Seq::filter);
    if segs.len() > 0 {
        a_window_leaves_out_what_is_before_and_after(segs.drop_last(), window);
    }
}

/// A segment is in a window exactly where they share an instant: one instant
/// that both hold puts it there, and where it is there the later of their
/// starts is such an instant.
pub proof fn a_segment_shares_an_instant_with_its_window(
    segs: Seq<SegmentFacts>,
    window: (i64, i64),
    i: int,
    t: int,
)
    requires
        0 <= i < segs.len(),
        segs[i].start_timestamp <= segs[i].end_timestamp,
        window.0 <= window.1,
    ensures
        segs[i].start_timestamp <= t <= segs[i].end_timestamp && window.0 <= t <= window.1
            ==> window_segments(segs, window).contains(segs[i]),
        window_segments(segs, window).contains(segs[i]) ==> ({
            let shared = if segs[i].start_timestamp >= window.0 {
                segs[i].start_timestamp
            } else {
                window.0
            };
            segs[i].start_timestamp <= shared <= segs[i].end_timestamp && window.0 <= shared
                <= window.1
        }),
{
    a_window_leaves_out_what_is_before_and_after(segs, window);
    let inside = |s: SegmentFacts| !(s.end_timestamp < window.0 || s.start_timestamp > window.1);
    if inside(segs[i]) {
        segs.lemma_filter_contains(inside, i);
    }
    let w = segs.filter(inside);
    if w.contains(segs[i]) {
        let k = choose|k: int| 0 <= k < w.len() && w[k] == segs[i];
        segs.lemma_filter_pred(inside, k);
    }
}

/// The segments of a partition in a window.
proof fn partition_members(parts: Seq<PartitionFacts>, partition: i32, window: (i64, i64), g: SegmentFacts)
    ensures
        partition_segments(parts, partition, window).contains(g) <==> exists|b: int|
            0 <= b < parts.len() && (#[trigger] parts[b]).partition_id == partition
                && window_segments(parts[b].segments@, window).contains(g),
    decreases parts.len(),
{
    let all = partition_segments(parts, partition, window);
    if parts.len() > 0 {
        let rest = parts.drop_last();
        let last = parts.len() - 1;
        partition_members(rest, partition, window, g);
        let was = partition_segments(rest, partition, window);
        let more = window_segments(parts[last].segments@, window);
        if was.contains(g) {
            let b = choose|b: int|
                0 <= b < rest.len() && (#[trigger] rest[b]).partition_id == partition
                    && window_segments(rest[b].segments@, window).contains(g);
            assert(parts[b] == rest[b]);
            let k = choose|k: int| 0 <= k < was.len() && was[k] == g;
            assert(all[k] == g);
        }
        if parts[last].partition_id == partition && more.contains(g) {
            let k = choose|k: int| 0 <= k < more.len() && more[k] == g;
            assert(all[was.len() + k] == g);
        }
        if all.contains(g) {
            let k = choose|k: int| 0 <= k < all.len() && all[k] == g;
            if k < was.len() {
                assert(was[k] == g);
            } else {
                assert(more[k - was.len()] == g);
            }
        }
        if exists|b: int|
            0 <= b < parts.len() && (#[trigger] parts[b]).partition_id == partition
                && window_segments(parts[b].segments@, window).contains(g) {
            let b = choose|b: int|
                0 <= b < parts.len() && (#[trigger] parts[b]).partition_id == partition
                    && window_segments(parts[b].segments@, window).contains(g);
            if b < last {
                assert(rest[b] == parts[b]);
            }
        }
    }
}

/// The segments that a selection samples.
proof fn sampled_members(topics: Seq<TopicFacts>, s: SampleSelection, g: SegmentFacts)
    ensures
        sampled_segments(topics, s).contains(g) <==> exists|a: int|
            0 <= a < topics.len() && (#[trigger] topics[a]).name@ == s.topic@ && partition_segments(
                topics[a].partitions@,
                s.partition,
                s.window,
            ).contains(g),
    decreases topics.len(),
{
    let all = sampled_segments(topics, s);
    if topics.len() > 0 {
        let rest = topics.drop_last();
        let last = topics.len() - 1;
        sampled_members(rest, s, g);
        let was = sampled_segments(rest, s);
        let more = partition_segments(topics[last].partitions@, s.partition, s.window);
        if was.contains(g) {
            let a = choose|a: int|
                0 <= a < rest.len() && (#[trigger] rest[a]).name@ == s.topic@
                    && partition_segments(rest[a].partitions@, s.partition, s.window).contains(g);
            assert(topics[a] == rest[a]);
            let k = choose|k: int| 0 <= k < was.len() && was[k] == g;
            assert(all[k] == g);
        }
        if topics[last].name@ == s.topic@ && more.contains(g) {
            let k = choose|k: int| 0 <= k < more.len() && more[k] == g;
            assert(all[was.len() + k] == g);
        }
        if all.contains(g) {
            let k = choose|k: int| 0 <= k < all.len() && all[k] == g;
            if k < was.len() {
                assert(was[k] == g);
            } else {
                assert(more[k - was.len()] == g);
            }
        }
        if exists|a: int|
            0 <= a < topics.len() && (#[trigger] topics[a]).name@ == s.topic@ && partition_segments(
                topics[a].partitions@,
                s.partition,
                s.window,
            ).contains(g) {
            let a = choose|a: int|
                0 <= a < topics.len() && (#[trigger] topics[a]).name@ == s.topic@
                    && partition_segments(topics[a].partitions@, s.partition, s.window).contains(g);
            if a < last {
                assert(rest[a] == topics[a]);
            }
        }
    }
}

/// A selection samples every segment of its partition of its topic that shares
/// an instant with its window.
pub proof fn a_selection_samples_its_own_segments(
    topics: Seq<TopicFacts>,
    s: SampleSelection,
    a: int,
    b: int,
    c: int,
    t: int,
)
    requires
        0 <= a < topics.len(),
        0 <= b < topics[a].partitions@.len(),
        0 <= c < topics[a].partitions@[b].segments@.len(),
        topics[a].name@ == s.topic@,
        topics[a].partitions@[b].partition_id == s.partition,
        topics[a].partitions@[b].segments@[c].start_timestamp <= t
            <= topics[a].partitions@[b].segments@[c].end_timestamp,
        s.window.0 <= t <= s.window.1,
    ensures
        sampled_segments(topics, s).contains(topics[a].partitions@[b].segments@[c]),
{
    let g = topics[a].partitions@[b].segments@[c];
    a_segment_shares_an_instant_with_its_window(
        topics[a].partitions@[b].segments@,
        s.window,
        c,
        t,
    );
    partition_members(topics[a].partitions@, s.partition, s.window, g);
    sampled_members(topics, s, g);
}

/// A selection samples no segment of another topic or partition, and none that
/// lies before or after its window.
pub proof fn a_selection_samples_no_other_segment(
    topics: Seq<TopicFacts>,
    s: SampleSelection,
    g: SegmentFacts,
)
    requires
        sampled_segments(topics, s).contains(g),
    ensures
        g.start_timestamp <= s.window.1,
        g.end_timestamp >= s.window.0,
        exists|a: int, b: int, c: int|
            0 <= a < topics.len() && topics[a].name@ == s.topic@ && 0 <= b
                < topics[a].partitions@.len() && topics[a].partitions@[b].partition_id
                == s.partition && 0 <= c < topics[a].partitions@[b].segments@.len()
                && #[trigger] topics[a].partitions@[b].segments@[c] == g,
{
    sampled_members(topics, s, g);
    let a = choose|a: int|
        0 <= a < topics.len() && (#[trigger] topics[a]).name@ == s.topic@ && partition_segments(
            topics[a].partitions@,
            s.partition,
            s.window,
        ).contains(g);
    let parts = topics[a].partitions@;
    partition_members(parts, s.partition, s.window, g);
    let b = choose|b: int|
        0 <= b < parts.len() && (#[trigger] parts[b]).partition_id == s.partition
            && window_segments(parts[b].segments@, s.window).contains(g);
    let segs = parts[b].segments@;
    a_window_leaves_out_what_is_before_and_after(segs, s.window);
    let inside = |x: SegmentFacts|
        !(x.end_timestamp < s.window.0 || x.start_timestamp > s.window.1);
    let w = segs.filter(inside);
    let k = choose|k: int| 0 <= k < w.len() && w[k] == g;
    segs.lemma_filter_pred(inside, k);
    segs.lemma_filter_contains_rev(inside, g);
    let c = choose|c: int| 0 <= c < segs.len() && segs[c] == g;
    assert(topics[a].partitions@[b].segments@[c] == g);
}

// ---- settings --------------------------------------------------------------

/// A map holds a setting with that value exactly where it holds that entry.
proof fn held_with_that_value(m: Seq<(Seq<char>, Seq<char>)>, k: Seq<char>, v: Seq<char>)
    requires
        keys_ascend(m),
    ensures
        lookup(m, k) == Some(v) <==> m.contains((k, v)),
{
    if m.contains((k, v)) {
        let i = choose|i: int| 0 <= i < m.len() && m[i] == (k, v);
        value_at(m, i);
    }
    if lookup(m, k) == Some(v) {
        let i = choose|i: int| 0 <= i < m.len() && #[trigger] m[i].0 == k;
        value_at(m, i);
        assert(m[i] == (k, v));
    }
}

/// The settings that differ, of either sort.
proof fn deviation_members(
    source: Seq<(Seq<char>, Seq<char>)>,
    target: Seq<(Seq<char>, Seq<char>)>,
    intended: bool,
    k: Seq<char>,
)
    requires
        keys_ascend(target),
    ensures
        deviations(source, target, intended).contains(k) <==> (intended == (k == "cleanup.policy"@
            || k == "retention.ms"@)) && exists|i: int|
            0 <= i < source.len() && (#[trigger] source[i]).0 == k && !target.contains(source[i]),
    decreases source.len(),
{
    let all = deviations(source, target, intended);
    if source.len() > 0 {
        let rest = source.drop_last();
        let last = source.len() - 1;
        deviation_members(rest, target, intended, k);
        held_with_that_value(target, source[last].0, source[last].1);
        let was = deviations(rest, target, intended);
        if was.contains(k) {
            let i = choose|i: int|
                0 <= i < rest.len() && (#[trigger] rest[i]).0 == k && !target.contains(rest[i]);
            assert(source[i] == rest[i]);
            let n = choose|n: int| 0 <= n < was.len() && was[n] == k;
            assert(all[n] == k);
        }
        if all.contains(k) {
            let n = choose|n: int| 0 <= n < all.len() && all[n] == k;
            if n < was.len() {
                assert(was[n] == k);
            } else {
                assert(source[last].0 == k);
            }
        }
        if (intended == (k == "cleanup.policy"@ || k == "retention.ms"@)) && exists|i: int|
            0 <= i < source.len() && (#[trigger] source[i]).0 == k && !target.contains(source[i]) {
            let i = choose|i: int|
                0 <= i < source.len() && (#[trigger] source[i]).0 == k && !target.contains(
                    source[i],
                );
            if i < last {
                assert(rest[i] == source[i]);
            } else {
                assert(all[all.len() - 1] == k);
            }
        }
    }
}

/// Sorting changes nothing of what a list holds.
proof fn sorted_members(r: Seq<Seq<char>>, s: Seq<Seq<char>>, k: Seq<char>)
    requires
        r.to_multiset() == s.to_multiset(),
    ensures
        r.contains(k) <==> s.contains(k),
{
    vstd::seq_lib::to_multiset_contains(r, k);
    vstd::seq_lib::to_multiset_contains(s, k);
}

/// A setting of the source that the target has no equal entry for is reported:
/// as intended where it is the cleanup policy or the retention time, and as
/// unexpected where it is any other; and nothing else is reported as unexpected.
/// A partition count or a replication factor that differs is intended.
pub proof fn only_scratch_settings_may_differ(
    r: (Vec<String>, Vec<String>),
    source: Seq<(Seq<char>, Seq<char>)>,
    target: Seq<(Seq<char>, Seq<char>)>,
    partitions_differ: bool,
    replication_differs: bool,
    k: Seq<char>,
)
    requires
        classified(r, source, target, partitions_differ, replication_differs),
        keys_ascend(target),
    ensures
        texts(r.1@).contains(k) <==> k != "cleanup.policy"@ && k != "retention.ms"@ && exists|i: int|
            0 <= i < source.len() && (#[trigger] source[i]).0 == k && !target.contains(source[i]),
        texts(r.0@).contains(k) <==> (partitions_differ && k == "partition_count"@) || (
        replication_differs && k == "replication_factor"@) || ((k == "cleanup.policy"@ || k
            == "retention.ms"@) && exists|i: int|
            0 <= i < source.len() && (#[trigger] source[i]).0 == k && !target.contains(source[i])),
{
    let keys = deviations(source, target, true);
    let all = intended_deviations(source, target, partitions_differ, replication_differs);
    deviation_members(source, target, true, k);
    deviation_members(source, target, false, k);
    sorted_members(texts(r.0@), all, k);
    sorted_members(texts(r.1@), deviations(source, target, false), k);
    if keys.contains(k) {
        let n = choose|n: int| 0 <= n < keys.len() && keys[n] == k;
        assert(all[n] == k);
    }
    if partitions_differ {
        assert(all[keys.len() as int] == "partition_count"@);
    }
    if replication_differs {
        assert(all[all.len() - 1] == "replication_factor"@);
    }
    if all.contains(k) {
        let n = choose|n: int| 0 <= n < all.len() && all[n] == k;
        if n < keys.len() {
            assert(keys[n] == k);
        }
    }
}

/// The first header of a name.
proof fn the_first_header_is_found(
    headers: Seq<(String, Option<Vec<u8>>)>,
    name: Seq<char>,
    h: int,
)
    requires
        0 <= h <= headers.len(),
        forall|j: int| 0 <= j < h ==> (#[trigger] headers[j]).0@ != name,
    ensures
        h < headers.len() && headers[h].0@ == name ==> first_header(headers, name) == Some(
            headers[h].1,
        ),
        h == headers.len() ==> first_header(headers, name) is None,
    decreases h,
{
    if h > 0 {
        assert(headers[0].0@ != name);
        let rest = headers.drop_first();
        assert forall|j: int| 0 <= j < h - 1 implies (#[trigger] rest[j]).0@ != name by {
            assert(rest[j] == headers[j + 1]);
        }
        the_first_header_is_found(rest, name, h - 1);
    }
}

/// A restored record stands for the offset that the first header of that name
/// spells, and for its own offset where there is no such header or it holds
/// nothing.
pub proof fn a_record_stands_for_the_offset_in_its_header(c: ConsumedRecord, h: int, n: i64)
    requires
        0 <= h <= c.headers@.len(),
        forall|j: int| 0 <= j < h ==> (#[trigger] c.headers@[j]).0@ != "x-original-offset"@,
    ensures
        h == c.headers@.len() ==> original_offset(c) == c.offset,
        h < c.headers@.len() && c.headers@[h].0@ == "x-original-offset"@ ==> match c.headers@[h].1 {
            None => original_offset(c) == c.offset,
            Some(v) => latin(v@) == decimal_int(n as int) ==> original_offset(c) == n,
        },
{
    the_first_header_is_found(c.headers@, "x-original-offset"@, h);
    a_number_reads_back(n);
}

/// The last restored record that stands for an offset is the one that landed.
proof fn the_last_one_landed(consumed: Seq<ConsumedRecord>, offset: i64, j: int)
    requires
        -1 <= j < consumed.len(),
        j >= 0 ==> original_offset(consumed[j]) == offset,
        forall|k: int| j < k < consumed.len() ==> original_offset(#[trigger] consumed[k]) != offset,
    ensures
        j >= 0 ==> landed(consumed, offset) == Some(consumed[j]),
        j < 0 ==> landed(consumed, offset) is None,
    decreases consumed.len(),
{
    if consumed.len() > 0 && j < consumed.len() - 1 {
        let rest = consumed.drop_last();
        assert(original_offset(consumed[consumed.len() - 1]) != offset);
        assert forall|k: int| j < k < rest.len() implies original_offset(#[trigger] rest[k])
            != offset by {
            assert(rest[k] == consumed[k]);
        }
        the_last_one_landed(rest, offset, j);
    }
}

/// An archived record came back exactly where the last restored record that
/// stands for its offset has its fingerprint; where none stands for it, it did
/// not come back.
pub proof fn a_record_comes_back_as_the_last_one_read(
    a: RecordFingerprint,
    consumed: Seq<ConsumedRecord>,
    j: int,
)
    requires
        -1 <= j < consumed.len(),
        j >= 0 ==> original_offset(consumed[j]) == a.offset,
        forall|k: int|
            j < k < consumed.len() ==> original_offset(#[trigger] consumed[k]) != a.offset,
    ensures
        came_back(a, consumed) <==> j >= 0 && consumed[j].fingerprint@ == a.sha256@,
{
    the_last_one_landed(consumed, a.offset, j);
}

/// Every archived record is counted once: as one that came back, or with a
/// complaint that is its own.
pub proof fn every_record_is_counted(
    archive: Seq<RecordFingerprint>,
    consumed: Seq<ConsumedRecord>,
)
    ensures
        came_back_count(archive, consumed) == archive.filter(
            |a: RecordFingerprint| came_back(a, consumed),
        ).len(),
        came_back_count(archive, consumed) + complaints(archive, consumed).len() == archive.len(),
        came_back_count(archive, consumed) == archive.len() <==> forall|k: int|
            0 <= k < archive.len() ==> came_back(#[trigger] archive[k], consumed),
        forall|k: int|
            0 <= k < archive.len() && !came_back(#[trigger] archive[k], consumed) ==> complaints(
                archive,
                consumed,
            ).contains(complaint(archive[k], consumed)),
    decreases archive.len(),
{
    reveal(Seq::filter);
    if archive.len() > 0 {
        let rest = archive.drop_last();
        let last = archive.len() - 1;
        every_record_is_counted(rest, consumed);
        assert(archive[last] == archive.last());
        let now = complaints(archive, consumed);
        let was = complaints(rest, consumed);
        assert forall|k: int|
            0 <= k < archive.len() && !came_back(#[trigger] archive[k], consumed) implies now.contains(
            complaint(archive[k], consumed)) by {
            if k < last {
                assert(rest[k] == archive[k]);
                let i = choose|i: int|
                    0 <= i < was.len() && was[i] == complaint(archive[k], consumed);
                assert(now[i] == was[i]);
            } else {
                assert(now[now.len() - 1] == complaint(archive[k], consumed));
            }
        }
        if forall|k: int| 0 <= k < archive.len() ==> came_back(#[trigger] archive[k], consumed) {
            assert forall|k: int| 0 <= k < rest.len() implies came_back(
                #[trigger] rest[k],
                consumed,
            ) by {
                assert(rest[k] == archive[k]);
            }
        }
        if came_back_count(archive, consumed) == archive.len() {
            assert forall|k: int| 0 <= k < archive.len() implies came_back(
                #[trigger] archive[k],
                consumed,
            ) by {
                if k < last {
                    assert(rest[k] == archive[k]);
                }
            }
        }
    }
}

/// Records that the archive has fingerprints of are verified exactly where there
/// is one, there are at least as many as are claimed, and every one came back;
/// and they fail exactly where one did not.
pub proof fn one_record_that_did_not_come_back_fails(
    archive: Seq<RecordFingerprint>,
    consumed: Seq<ConsumedRecord>,
    claimed: nat,
)
    ensures
        fingerprints_prove(archive, consumed, claimed) is Verified <==> archive.len() > 0
            && archive.len() >= claimed && forall|k: int|
            0 <= k < archive.len() ==> came_back(#[trigger] archive[k], consumed),
        fingerprints_prove(archive, consumed, claimed) is Failed <==> exists|k: int|
            0 <= k < archive.len() && !came_back(#[trigger] archive[k], consumed),
        fingerprints_prove(archive, consumed, claimed) matches EvidenceModel::Verified(n) ==> n
            == archive.len(),
{
    every_record_is_counted(archive, consumed);
}

/// Records that the archive has no fingerprints of are verified exactly where
/// one was read back and no fewer were than are claimed, and they never fail.
pub proof fn a_short_reading_verifies_nothing(restored: nat, claimed: nat)
    ensures
        read_back_proves(restored, claimed) is Verified <==> restored > 0 && restored >= claimed,
        !(read_back_proves(restored, claimed) is Failed),
        read_back_proves(restored, claimed) matches EvidenceModel::Verified(n) ==> n == restored,
{
}

/// What is claimed of a selection is what was asked for, or what the manifest
/// says that its segments hold if that is less; a segment that is said to hold
/// less than nothing adds nothing.
pub proof fn no_more_is_claimed_than_the_manifest_holds(segs: Seq<SegmentFacts>, asked: nat)
    ensures
        records_held(segs) == segs.fold_left(
            0int,
            |n: int, s: SegmentFacts|
                n + if s.record_count > 0 {
                    s.record_count as int
                } else {
                    0
                },
        ),
        claim(segs, asked) <= asked,
        segs.len() > 0 ==> claim(segs, asked) <= records_held(segs),
        claim(segs, asked) == asked || (segs.len() > 0 && claim(segs, asked) == records_held(segs)),
    decreases segs.len(),
{
    reveal_with_fuel(Seq::fold_left, 2);
    if segs.len() > 0 {
        no_more_is_claimed_than_the_manifest_holds(segs.drop_last(), asked);
    }
}

/// The engine's answers are taken one for each selection: its fingerprints where
/// it gave them, and the reason where the archive cannot be fingerprinted. Any
/// other failure ends the verification, and so does an answer too many or too
/// few.
pub proof fn each_selection_keeps_its_own_answer(
    r: Result<Vec<SelectionArchive>, EngineError>,
    selected: nat,
    answers: Seq<Result<Vec<RecordFingerprint>, EngineError>>,
)
    requires
        probed(r, selected, answers),
    ensures
        r is Ok <==> selected > 0 && answers.len() == selected && forall|i: int|
            0 <= i < answers.len() ==> !(#[trigger] answers[i] matches Err(
                EngineError::Operational(_),
            )),
        r matches Ok(v) ==> v@.len() == selected && forall|i: int|
            0 <= i < selected ==> match #[trigger] answers[i] {
                Ok(fp) => v@[i] == SelectionArchive::Fingerprints(fp),
                Err(EngineError::Unsupported(why)) => v@[i] == SelectionArchive::Unsupported(why),
                Err(EngineError::Operational(_)) => false,
            },
        r matches Err(e) ==> e is Operational,
{
    if selected > 0 {
        if exists|i: int|
            0 <= i < answers.len() && crate::drill::phase7_verify::ends_probe(
                #[trigger] answers[i],
            ) {
            let i = choose|i: int|
                0 <= i < answers.len() && crate::drill::phase7_verify::ends_probe(
                    #[trigger] answers[i],
                );
            assert(answers[i] matches Err(EngineError::Operational(_)));
        } else {
            assert forall|i: int| 0 <= i < answers.len() implies !(#[trigger] answers[i] matches Err(
                EngineError::Operational(_),
            )) by {
                assert(!crate::drill::phase7_verify::ends_probe(answers[i]));
            }
            if r is Ok {
                assert forall|i: int| 0 <= i < selected implies match #[trigger] answers[i] {
                    Ok(fp) => r->Ok_0@[i] == SelectionArchive::Fingerprints(fp),
                    Err(EngineError::Unsupported(why)) => r->Ok_0@[i]
                        == SelectionArchive::Unsupported(why),
                    Err(EngineError::Operational(_)) => false,
                } by {
                    assert(!crate::drill::phase7_verify::ends_probe(answers[i]));
                    assert(r->Ok_0@[i] == crate::drill::phase7_verify::offered(answers[i]));
                }
            }
        }
    }
}

/// The last record of a partition is at the offset before its end, and a
/// partition has one exactly where its end is above zero.
pub proof fn the_last_record_is_before_the_end(ends: Seq<(i32, i64)>, p: i32, o: i64)
    ensures
        last_records(ends).contains((p, o)) <==> o >= 0 && o < i64::MAX && exists|i: int|
            0 <= i < ends.len() && #[trigger] ends[i] == (p, (o + 1) as i64),
        last_records(ends).len() == ends.filter(|e: (i32, i64)| e.1 > 0).len(),
    decreases ends.len(),
{
    reveal(Seq::filter);
    let all = last_records(ends);
    if ends.len() > 0 {
        let rest = ends.drop_last();
        let last = ends.len() - 1;
        the_last_record_is_before_the_end(rest, p, o);
        let was = last_records(rest);
        assert(ends[last] == ends.last());
        if was.contains((p, o)) {
            let k = choose|k: int| 0 <= k < was.len() && was[k] == (p, o);
            assert(all[k] == (p, o));
            let i = choose|i: int|
                0 <= i < rest.len() && #[trigger] rest[i] == (p, (o + 1) as i64);
            assert(ends[i] == rest[i]);
        }
        if all.contains((p, o)) {
            let k = choose|k: int| 0 <= k < all.len() && all[k] == (p, o);
            if k < was.len() {
                assert(was[k] == (p, o));
            } else {
                assert(ends[last] == (p, (o + 1) as i64));
            }
        }
        if o >= 0 && o < i64::MAX && exists|i: int|
            0 <= i < ends.len() && #[trigger] ends[i] == (p, (o + 1) as i64) {
            let i = choose|i: int|
                0 <= i < ends.len() && #[trigger] ends[i] == (p, (o + 1) as i64);
            if i < last {
                assert(rest[i] == ends[i]);
            } else {
                assert(all[all.len() - 1] == (p, o));
            }
        }
    }
}

/// The newest record is one that was read, and none that was read is newer.
/// Where nothing came back there is none.
pub proof fn no_record_is_newer_than_the_newest(
    r: Step<NewestQuestion, Result<i64, DrillError>>,
    targets: Seq<Seq<char>>,
    reads: Seq<NewestRead>,
    a: int,
    b: int,
)
    requires
        newest_is(r, targets, reads),
        r is Done,
    ensures
        r->Done_0 is Ok && 0 <= a < reads.len() && 0 <= b < reads[a].last@.len() && reads[a].last@[b]
            is Some ==> reads[a].last@[b]->0 <= r->Done_0->Ok_0,
        r->Done_0 is Ok ==> exists|x: int, y: int|
            0 <= x < reads.len() && 0 <= y < reads[x].last@.len() && #[trigger] reads[x].last@[y]
                == Some(r->Done_0->Ok_0),
        r->Done_0 is Err && targets.len() > 0 && 0 <= a < reads.len() && 0 <= b
            < reads[a].last@.len() ==> reads[a].last@[b] is None,
        targets.len() == 0 ==> r->Done_0 is Err,
        targets.len() > 0 ==> reads.len() >= targets.len(),
{
    if targets.len() > 0 && 0 <= a < reads.len() && 0 <= b < reads[a].last@.len() {
        if reads[a].last@[b] is Some {
            let t = reads[a].last@[b]->0;
            assert(reads[a].last@[b] == Some(t));
            assert(stamps(reads).contains(t));
        }
    }
}

// ---- the parity of all topics ----------------------------------------------

/// The first topic of a name.
proof fn the_first_topic_is_found(topics: Seq<TopicFacts>, name: Seq<char>, a: int)
    requires
        0 <= a < topics.len(),
        topics[a].name@ == name,
        forall|j: int| 0 <= j < a ==> (#[trigger] topics[j]).name@ != name,
    ensures
        topic_index(topics, name) == Some(a),
    decreases topics.len(),
{
    let rest = topics.drop_last();
    if a < rest.len() {
        assert forall|j: int| 0 <= j < a implies (#[trigger] rest[j]).name@ != name by {
            assert(rest[j] == topics[j]);
        }
        the_first_topic_is_found(rest, name, a);
    } else {
        no_topic_is_found(rest, name);
    }
}

proof fn no_topic_is_found(topics: Seq<TopicFacts>, name: Seq<char>)
    requires
        forall|j: int| 0 <= j < topics.len() ==> (#[trigger] topics[j]).name@ != name,
    ensures
        topic_index(topics, name) is None,
    decreases topics.len(),
{
    if topics.len() > 0 {
        let rest = topics.drop_last();
        assert forall|j: int| 0 <= j < rest.len() implies (#[trigger] rest[j]).name@ != name by {
            assert(rest[j] == topics[j]);
        }
        assert(topics[topics.len() - 1].name@ != name);
        no_topic_is_found(rest, name);
    }
}

/// The differences of a topic are among those of all.
proof fn a_topics_differences_are_told(
    facts: Seq<TopicFacts>,
    mapping: Seq<(Seq<char>, Seq<char>)>,
    reads: Seq<ParityRead>,
    rf: i16,
    intended: bool,
    i: int,
    key: Seq<char>,
)
    requires
        0 <= i < mapping.len(),
        ({
            let t = facts[topic_index(facts, mapping[i].0)->0];
            let count = reads[i].end_offsets@.len() as i32;
            if intended {
                intended_deviations(
                    t.configurations@,
                    reads[i].configs@,
                    known_or(t.original_partition_count, count) != count,
                    known_or(t.source_replication_factor, rf) != rf,
                ).contains(key)
            } else {
                deviations(t.configurations@, reads[i].configs@, false).contains(key)
            }
        }),
    ensures
        all_deviations(facts, mapping, reads, rf, intended).contains(mapping[i].1 + ": "@ + key),
    decreases mapping.len(),
{
    let all = all_deviations(facts, mapping, reads, rf, intended);
    let rest = mapping.drop_last();
    let was = all_deviations(facts, rest, reads, rf, intended);
    let told = mapping[i].1 + ": "@ + key;
    if i < rest.len() {
        assert(rest[i] == mapping[i]);
        a_topics_differences_are_told(facts, rest, reads, rf, intended, i, key);
        let k = choose|k: int| 0 <= k < was.len() && was[k] == told;
        assert(all[k] == told);
    } else {
        let t = facts[topic_index(facts, mapping[i].0)->0];
        let count = reads[i].end_offsets@.len() as i32;
        let keys = if intended {
            intended_deviations(
                t.configurations@,
                reads[i].configs@,
                known_or(t.original_partition_count, count) != count,
                known_or(t.source_replication_factor, rf) != rf,
            )
        } else {
            deviations(t.configurations@, reads[i].configs@, false)
        };
        let k = choose|k: int| 0 <= k < keys.len() && keys[k] == key;
        assert(named(mapping[i].1, keys)[k] == told);
        assert(all[was.len() + k] == told);
    }
}

/// A setting of a mapped topic whose entry the restored topic does not have is
/// told under the restored topic's name: as unexpected, unless it is the cleanup
/// policy or the retention time.
pub proof fn a_changed_setting_is_told_under_its_topic(
    r: Step<String, Result<TopicParity, DrillError>>,
    facts: Seq<TopicFacts>,
    mapping: Seq<(Seq<char>, Seq<char>)>,
    reads: Seq<ParityRead>,
    rf: i16,
    i: int,
    a: int,
    k: int,
)
    requires
        parity_is(r, facts, mapping, reads, rf),
        r matches Step::Done(Ok(_)),
        0 <= i < mapping.len(),
        0 <= a < facts.len(),
        facts[a].name@ == mapping[i].0,
        forall|j: int| 0 <= j < a ==> (#[trigger] facts[j]).name@ != mapping[i].0,
        0 <= k < facts[a].configurations@.len(),
        keys_ascend(reads[i].configs@),
        !reads[i].configs@.contains(facts[a].configurations@[k]),
    ensures
        ({
            let parity = r->Done_0->Ok_0;
            let key = facts[a].configurations@[k].0;
            let told = mapping[i].1 + ": "@ + key;
            if key == "cleanup.policy"@ || key == "retention.ms"@ {
                texts(parity.intentionally_deviated@).contains(told)
            } else {
                texts(parity.unexpected_divergence@).contains(told)
            }
        }),
{
    let parity = r->Done_0->Ok_0;
    let source = facts[a].configurations@;
    let target = reads[i].configs@;
    let key = source[k].0;
    let told = mapping[i].1 + ": "@ + key;
    let kept = key == "cleanup.policy"@ || key == "retention.ms"@;
    the_first_topic_is_found(facts, mapping[i].0, a);
    deviation_members(source, target, kept, key);
    assert(source[k].0 == key && !target.contains(source[k]));
    let count = reads[i].end_offsets@.len() as i32;
    let keys = deviations(source, target, true);
    let all = intended_deviations(
        source,
        target,
        known_or(facts[a].original_partition_count, count) != count,
        known_or(facts[a].source_replication_factor, rf) != rf,
    );
    if kept {
        let n = choose|n: int| 0 <= n < keys.len() && keys[n] == key;
        assert(all[n] == key);
    }
    a_topics_differences_are_told(facts, mapping, reads, rf, kept, i, key);
    sorted_members(
        texts(parity.intentionally_deviated@),
        all_deviations(facts, mapping, reads, rf, true),
        told,
    );
    sorted_members(
        texts(parity.unexpected_divergence@),
        all_deviations(facts, mapping, reads, rf, false),
        told,
    );
}

/// What is told as unexpected is such a setting.
proof fn what_is_told_differs(
    facts: Seq<TopicFacts>,
    mapping: Seq<(Seq<char>, Seq<char>)>,
    reads: Seq<ParityRead>,
    rf: i16,
    n: int,
)
    requires
        0 <= n < all_deviations(facts, mapping, reads, rf, false).len(),
        forall|i: int| 0 <= i < mapping.len() ==> keys_ascend((#[trigger] reads[i]).configs@),
    ensures
        exists|i: int, k: int|
            0 <= i < mapping.len() && 0 <= k < facts[topic_index(
                facts,
                mapping[i].0,
            )->0].configurations@.len() && !reads[i].configs@.contains(
                #[trigger] facts[topic_index(facts, mapping[i].0)->0].configurations@[k],
            ) && facts[topic_index(facts, mapping[i].0)->0].configurations@[k].0
                != "cleanup.policy"@ && facts[topic_index(
                facts,
                mapping[i].0,
            )->0].configurations@[k].0 != "retention.ms"@ && all_deviations(
                facts,
                mapping,
                reads,
                rf,
                false,
            )[n] == mapping[i].1 + ": "@ + facts[topic_index(
                facts,
                mapping[i].0,
            )->0].configurations@[k].0,
    decreases mapping.len(),
{
    let all = all_deviations(facts, mapping, reads, rf, false);
    let rest = mapping.drop_last();
    let was = all_deviations(facts, rest, reads, rf, false);
    if n < was.len() {
        assert(all[n] == was[n]);
        what_is_told_differs(facts, rest, reads, rf, n);
        let (i, k) = choose|i: int, k: int|
            0 <= i < rest.len() && 0 <= k < facts[topic_index(
                facts,
                rest[i].0,
            )->0].configurations@.len() && !reads[i].configs@.contains(
                #[trigger] facts[topic_index(facts, rest[i].0)->0].configurations@[k],
            ) && facts[topic_index(facts, rest[i].0)->0].configurations@[k].0 != "cleanup.policy"@
                && facts[topic_index(facts, rest[i].0)->0].configurations@[k].0 != "retention.ms"@
                && was[n] == rest[i].1 + ": "@ + facts[topic_index(
                facts,
                rest[i].0,
            )->0].configurations@[k].0;
        assert(rest[i] == mapping[i]);
        let found = facts[topic_index(facts, mapping[i].0)->0].configurations@[k];
        assert(all[n] == mapping[i].1 + ": "@ + found.0);
    } else {
        let i = mapping.len() - 1;
        let t = facts[topic_index(facts, mapping[i].0)->0];
        let keys = deviations(t.configurations@, reads[i].configs@, false);
        let key = keys[n - was.len()];
        assert(all[n] == named(mapping[i].1, keys)[n - was.len()]);
        assert(keys_ascend(reads[i].configs@));
        deviation_members(t.configurations@, reads[i].configs@, false, key);
        assert(keys.contains(key));
        let k = choose|k: int|
            0 <= k < t.configurations@.len() && (#[trigger] t.configurations@[k]).0 == key
                && !reads[i].configs@.contains(t.configurations@[k]);
        let found = facts[topic_index(facts, mapping[i].0)->0].configurations@[k];
        assert(all[n] == mapping[i].1 + ": "@ + found.0);
    }
}

/// Nothing is told as unexpected but a setting of a mapped topic that the
/// restored topic has no equal entry for, and neither the cleanup policy nor the
/// retention time.
pub proof fn nothing_else_is_unexpected(
    r: Step<String, Result<TopicParity, DrillError>>,
    facts: Seq<TopicFacts>,
    mapping: Seq<(Seq<char>, Seq<char>)>,
    reads: Seq<ParityRead>,
    rf: i16,
    told: Seq<char>,
)
    requires
        parity_is(r, facts, mapping, reads, rf),
        r matches Step::Done(Ok(_)),
        forall|i: int| 0 <= i < mapping.len() ==> keys_ascend((#[trigger] reads[i]).configs@),
        texts(r->Done_0->Ok_0.unexpected_divergence@).contains(told),
    ensures
        exists|i: int, k: int|
            0 <= i < mapping.len() && 0 <= k < facts[topic_index(
                facts,
                mapping[i].0,
            )->0].configurations@.len() && !reads[i].configs@.contains(
                #[trigger] facts[topic_index(facts, mapping[i].0)->0].configurations@[k],
            ) && facts[topic_index(facts, mapping[i].0)->0].configurations@[k].0
                != "cleanup.policy"@ && facts[topic_index(
                facts,
                mapping[i].0,
            )->0].configurations@[k].0 != "retention.ms"@ && told == mapping[i].1 + ": "@
                + facts[topic_index(facts, mapping[i].0)->0].configurations@[k].0,
{
    let parity = r->Done_0->Ok_0;
    let all = all_deviations(facts, mapping, reads, rf, false);
    sorted_members(texts(parity.unexpected_divergence@), all, told);
    let n = choose|n: int| 0 <= n < all.len() && all[n] == told;
    what_is_told_differs(facts, mapping, reads, rf, n);
}

// ---- the whole verification ------------------------------------------------

/// A verification that passes has, of every selection, a segment in the window;
/// of every such segment the digest that the manifest names; and of every
/// record that the archive has a fingerprint of the last reading with that
/// fingerprint, and no fewer than are claimed.
pub proof fn a_pass_rests_on_what_was_read(
    o: VerifyOutcome,
    topics: Seq<TopicFacts>,
    sel: Seq<SampleSelection>,
    mapping: Seq<(Seq<char>, Seq<char>)>,
    rf: i16,
    archives: Seq<SelectionArchive>,
    reads: VerifyReads,
    i: int,
)
    requires
        concluded(Step::Done(Ok(o)), topics, sel, mapping, rf, archives, reads),
        o.integrity.result == IntegrityResult::Pass,
        0 <= i < sel.len(),
    ensures
        i < reads.selections@.len(),
        reads_for(reads.selections@, i) == (
            reads.selections@[i].digests@,
            reads.selections@[i].consumed,
        ),
        ({
            let segs = sampled_segments(topics, sel[i]);
            let digests = reads_for(reads.selections@, i).0;
            &&& segs.len() > 0
            &&& forall|n: int|
                0 <= n < segs.len() ==> (#[trigger] segs[n]).sha256@.len() > 0 && manifest_names(
                    segs[n],
                    digests[digested_before(segs, n)]@,
                )
        }),
        reads_for(reads.selections@, i).1 is Some,
        ({
            let claimed = claim(sampled_segments(topics, sel[i]), sel[i].count as nat);
            let consumed = reads_for(reads.selections@, i).1->0@;
            match archives[i] {
                SelectionArchive::Fingerprints(fp) => fp@.len() > 0 && fp@.len() >= claimed
                    && forall|k: int|
                    0 <= k < fp@.len() ==> came_back(#[trigger] fp@[k], consumed),
                SelectionArchive::Unsupported(_) => consumed.len() > 0 && consumed.len() >= claimed,
            }
        }),
{
    let v = o.verdicts@;
    let (parity, newest) = choose|
        parity: Step<String, Result<TopicParity, DrillError>>,
        newest: Step<NewestQuestion, Result<i64, DrillError>>,
    |
        concluding(
            Step::Done(Ok(o)),
            parity,
            newest,
            topics,
            sel,
            mapping,
            rf,
            archives,
            reads,
        );
    assert(ledger_is(v, topics, sel, archives, reads.selections@));
    assert(integrity_is(o.integrity, v));
    pass_is_positive_evidence(v);
    assert(v[i].is_proof());
    assert(judged(v[i], topics, sel[i], archives[i], reads_for(reads.selections@, i)));
    let segs = sampled_segments(topics, sel[i]);
    let digests = reads_for(reads.selections@, i).0;
    failures_are_wrong_digests(segs, digests);
    skips_are_undigested(segs);
    assert(v[i].segments@ == segments_prove(segs, digests));
    assert forall|n: int| 0 <= n < segs.len() implies (#[trigger] segs[n]).sha256@.len() > 0
        && manifest_names(segs[n], digests[digested_before(segs, n)]@) by {
        if segs[n].sha256@.len() == 0 {
            assert(skipped_keys(segs).contains(segs[n].key@));
        } else if !manifest_names(segs[n], digests[digested_before(segs, n)]@) {
            assert(failed_keys(segs, digests).contains(segs[n].key@));
        }
    }
    let claimed = claim(segs, sel[i].count as nat);
    let consumed = reads_for(reads.selections@, i).1->0@;
    match archives[i] {
        SelectionArchive::Fingerprints(fp) => {
            one_record_that_did_not_come_back_fails(fp@, consumed, claimed);
        },
        SelectionArchive::Unsupported(_) => {
            a_short_reading_verifies_nothing(consumed.len(), claimed);
        },
    }
}

/// One segment whose bytes are not those that the manifest names, or one record
/// that did not come back as the archive has it, fails the verification,
/// whatever else was found.
pub proof fn one_wrong_byte_fails_the_verification(
    o: VerifyOutcome,
    topics: Seq<TopicFacts>,
    sel: Seq<SampleSelection>,
    mapping: Seq<(Seq<char>, Seq<char>)>,
    rf: i16,
    archives: Seq<SelectionArchive>,
    reads: VerifyReads,
    i: int,
    n: int,
)
    requires
        concluded(Step::Done(Ok(o)), topics, sel, mapping, rf, archives, reads),
        0 <= i < sel.len(),
        ({
            let segs = sampled_segments(topics, sel[i]);
            let digests = reads_for(reads.selections@, i).0;
            ||| 0 <= n < segs.len() && segs[n].sha256@.len() > 0 && !manifest_names(
                segs[n],
                digests[digested_before(segs, n)]@,
            )
            ||| archives[i] matches SelectionArchive::Fingerprints(fp) && 0 <= n < fp@.len()
                && !came_back(fp@[n], reads_for(reads.selections@, i).1->0@)
        }),
    ensures
        i < reads.selections@.len(),
        reads_for(reads.selections@, i) == (
            reads.selections@[i].digests@,
            reads.selections@[i].consumed,
        ),
        o.integrity.result == IntegrityResult::Fail,
{
    let v = o.verdicts@;
    let (parity, newest) = choose|
        parity: Step<String, Result<TopicParity, DrillError>>,
        newest: Step<NewestQuestion, Result<i64, DrillError>>,
    |
        concluding(
            Step::Done(Ok(o)),
            parity,
            newest,
            topics,
            sel,
            mapping,
            rf,
            archives,
            reads,
        );
    assert(ledger_is(v, topics, sel, archives, reads.selections@));
    assert(integrity_is(o.integrity, v));
    assert(judged(v[i], topics, sel[i], archives[i], reads_for(reads.selections@, i)));
    let segs = sampled_segments(topics, sel[i]);
    let digests = reads_for(reads.selections@, i).0;
    failures_are_wrong_digests(segs, digests);
    assert(v[i].segments@ == segments_prove(segs, digests));
    if 0 <= n < segs.len() && segs[n].sha256@.len() > 0 && !manifest_names(
        segs[n],
        digests[digested_before(segs, n)]@,
    ) {
        assert(failed_keys(segs, digests).contains(segs[n].key@));
        assert(v[i].segments is Failed);
    } else if let SelectionArchive::Fingerprints(fp) = archives[i] {
        let claimed = claim(segs, sel[i].count as nat);
        one_record_that_did_not_come_back_fails(
            fp@,
            reads_for(reads.selections@, i).1->0@,
            claimed,
        );
        assert(v[i].records is Failed);
    }
    assert(v[i].is_failure());
    one_failure_fails(v, i);
}

/// A restore of which everything that was read is right passes.
pub proof fn a_sound_restore_passes(
    o: VerifyOutcome,
    topics: Seq<TopicFacts>,
    sel: Seq<SampleSelection>,
    mapping: Seq<(Seq<char>, Seq<char>)>,
    rf: i16,
    archives: Seq<SelectionArchive>,
    reads: VerifyReads,
)
    requires
        concluded(Step::Done(Ok(o)), topics, sel, mapping, rf, archives, reads),
        0 < sel.len() <= reads.selections@.len(),
        forall|i: int|
            0 <= i < sel.len() ==> {
                let segs = sampled_segments(topics, #[trigger] sel[i]);
                let digests = reads.selections@[i].digests@;
                &&& segs.len() > 0
                &&& forall|n: int|
                    0 <= n < segs.len() ==> (#[trigger] segs[n]).sha256@.len() > 0
                        && manifest_names(segs[n], digests[digested_before(segs, n)]@)
            },
        forall|i: int|
            0 <= i < sel.len() ==> {
                let claimed = claim(sampled_segments(topics, #[trigger] sel[i]), sel[i].count as nat);
                let consumed = reads.selections@[i].consumed->0@;
                match archives[i] {
                    SelectionArchive::Fingerprints(fp) => fp@.len() > 0 && fp@.len() >= claimed
                        && forall|k: int|
                        0 <= k < fp@.len() ==> came_back(#[trigger] fp@[k], consumed),
                    SelectionArchive::Unsupported(_) => consumed.len() > 0 && consumed.len()
                        >= claimed,
                }
            },
    ensures
        o.integrity.result == IntegrityResult::Pass,
{
    let v = o.verdicts@;
    let (parity, newest) = choose|
        parity: Step<String, Result<TopicParity, DrillError>>,
        newest: Step<NewestQuestion, Result<i64, DrillError>>,
    |
        concluding(
            Step::Done(Ok(o)),
            parity,
            newest,
            topics,
            sel,
            mapping,
            rf,
            archives,
            reads,
        );
    assert(ledger_is(v, topics, sel, archives, reads.selections@));
    assert(integrity_is(o.integrity, v));
    assert forall|i: int| 0 <= i < v.len() implies (#[trigger] v[i]).segments is Verified
        && v[i].records is Verified by {
        assert(judged(v[i], topics, sel[i], archives[i], reads_for(reads.selections@, i)));
        let segs = sampled_segments(topics, sel[i]);
        let digests = reads.selections@[i].digests@;
        let consumed = reads.selections@[i].consumed->0@;
        failures_are_wrong_digests(segs, digests);
        skips_are_undigested(segs);
        assert(v[i].segments@ == segments_prove(segs, digests));
        if let SelectionArchive::Fingerprints(fp) = archives[i] {
            one_record_that_did_not_come_back_fails(
                fp@,
                consumed,
                claim(segs, sel[i].count as nat),
            );
        }
        assert(v[i].segments@ is Verified);
        assert(v[i].records@ is Verified);
    }
    a_ledger_is_read_by_its_evidence(v);
}

/// A verdict on a selection carries its topic and partition, how many records
/// were read back, and, where the archive has fingerprints, how many of them came
/// back; where it has none, it says why.
pub proof fn a_verdict_tells_what_was_read(
    v: SelectionVerdict,
    topics: Seq<TopicFacts>,
    s: SampleSelection,
    archive: SelectionArchive,
    digests: Seq<String>,
    consumed: Seq<ConsumedRecord>,
)
    requires
        verdict_is(v, topics, s, archive, digests, consumed),
        consumed.len() <= u64::MAX,
        archive matches SelectionArchive::Fingerprints(fp) ==> fp@.len() <= u64::MAX,
    ensures
        v.id@ == s.topic@ + "/"@ + decimal_int(s.partition as int),
        v.records_restored == consumed.len(),
        v.downgrade is Some <==> archive is Unsupported,
        archive matches SelectionArchive::Unsupported(why) ==> v.downgrade == Some(why)
            && v.reconciled is None,
        archive matches SelectionArchive::Fingerprints(fp) ==> {
            let back = fp@.filter(|a: RecordFingerprint| came_back(a, consumed));
            &&& fp@.len() == 0 ==> v.reconciled is None
            &&& fp@.len() > 0 ==> (v.reconciled matches Some(c) && c.0 == fp@.len() && c.1
                == back.len())
        },
{
    if let SelectionArchive::Fingerprints(fp) = archive {
        every_record_is_counted(fp@, consumed);
        fp@.lemma_filter_len(|a: RecordFingerprint| came_back(a, consumed));
    }
}

/// Records are read back from the topic that their own was restored to, from
/// their own partition, and as many as were asked for; and every segment is read
/// before them.
pub proof fn records_are_read_where_they_were_restored(
    r: Step<SelectionQuestion, Result<SelectionVerdict, DrillError>>,
    topics: Seq<TopicFacts>,
    s: SampleSelection,
    mapping: Seq<(Seq<char>, Seq<char>)>,
    archive: SelectionArchive,
    reads: SelectionReads,
    k: int,
)
    requires
        selection_is(r, topics, s, mapping, archive, reads),
        keys_ascend(mapping),
    ensures
        r matches Step::Ask(SelectionQuestion::Records { topic, partition, count }) ==> partition
            == s.partition && count == s.count && (0 <= k < mapping.len() && mapping[k].0 == s.topic@
            ==> topic@ == mapping[k].1),
        (forall|j: int| 0 <= j < mapping.len() ==> (#[trigger] mapping[j]).0 != s.topic@) ==> (
        r matches Step::Done(Err(e)) && e@ is Operational),
        !(r matches Step::Ask(SelectionQuestion::Segment(_))) && 0 <= k < mapping.len()
            && mapping[k].0 == s.topic@ ==> reads.digests@.len() >= digested_before(
            sampled_segments(topics, s),
            sampled_segments(topics, s).len() as int,
        ),
{
    keys_are_counted(sampled_segments(topics, s));
    if 0 <= k < mapping.len() {
        value_at(mapping, k);
    }
}

/// An outcome tells its own counts: the records that were read back of all
/// selections, the newest of the restored records, and when it was verified.
pub proof fn an_outcome_tells_its_own_counts(
    o: VerifyOutcome,
    topics: Seq<TopicFacts>,
    sel: Seq<SampleSelection>,
    mapping: Seq<(Seq<char>, Seq<char>)>,
    rf: i16,
    archives: Seq<SelectionArchive>,
    reads: VerifyReads,
    a: int,
    b: int,
)
    requires
        concluded(Step::Done(Ok(o)), topics, sel, mapping, rf, archives, reads),
    ensures
        reads.verified_at == Some(o.verified_at),
        o.verdicts@.len() == sel.len(),
        o.records_restored == o.verdicts@.fold_left(
            0int,
            |n: int, v: SelectionVerdict| n + v.records_restored,
        ),
        0 <= a < reads.newest@.len() && 0 <= b < reads.newest@[a].last@.len() && (
        reads.newest@[a].last@[b] matches Some(t)) ==> reads.newest@[a].last@[b]->0
            <= o.newest_restored_ts_ms,
        exists|x: int, y: int|
            0 <= x < reads.newest@.len() && 0 <= y < reads.newest@[x].last@.len()
                && #[trigger] reads.newest@[x].last@[y] == Some(o.newest_restored_ts_ms),
        o.integrity.mismatches == o.integrity.records_sampled - o.integrity.records_sampled_matching,
        o.integrity.records_sampled == compared_total(o.verdicts@),
        o.integrity.records_sampled_matching == matching_total(o.verdicts@),
        o.integrity.level == level_of(o.verdicts@),
        o.integrity.pass_rate_measured == rate_of(o.verdicts@),
        o.integrity.partial_reason is Some <==> reason_of(o.verdicts@) is Some,
        o.integrity.partial_reason matches Some(why) ==> why@ == reason_of(o.verdicts@)->0,
        parity_is(Step::Done(Ok(o.topic_parity)), topics, mapping, reads.parity@, rf),
{
    let (parity, newest) = choose|
        parity: Step<String, Result<TopicParity, DrillError>>,
        newest: Step<NewestQuestion, Result<i64, DrillError>>,
    |
        concluding(
            Step::Done(Ok(o)),
            parity,
            newest,
            topics,
            sel,
            mapping,
            rf,
            archives,
            reads,
        );
    no_record_is_newer_than_the_newest(newest, values_of(mapping), reads.newest@, a, b);
    restored_records_are_added_up(o.verdicts@);
}

proof fn restored_records_are_added_up(v: Seq<SelectionVerdict>)
    ensures
        restored_total(v) == v.fold_left(0int, |n: int, s: SelectionVerdict| n + s.records_restored),
    decreases v.len(),
{
    reveal_with_fuel(Seq::fold_left, 2);
    if v.len() > 0 {
        restored_records_are_added_up(v.drop_last());
    }
}

proof fn an_open_selection_is_one(
    topics: Seq<TopicFacts>,
    sel: Seq<SampleSelection>,
    mapping: Seq<(Seq<char>, Seq<char>)>,
    answered: nat,
    reads: Seq<SelectionReads>,
)
    ensures
        first_open(topics, sel, mapping, answered, reads) matches Some(i) ==> 0 <= i < sel.len(),
    decreases sel.len(),
{
    if sel.len() > 0 {
        an_open_selection_is_one(topics, sel.drop_last(), mapping, answered, reads);
    }
}

/// What is asked about a selection is asked for that selection: of its own
/// partition, in the topic that its own was restored to, and only where it was
/// not read yet.
pub proof fn each_selection_is_asked_about_itself(
    r: Step<VerifyQuestion, Result<VerifyOutcome, DrillError>>,
    topics: Seq<TopicFacts>,
    sel: Seq<SampleSelection>,
    mapping: Seq<(Seq<char>, Seq<char>)>,
    rf: i16,
    archives: Seq<SelectionArchive>,
    reads: VerifyReads,
    i: usize,
    question: SelectionQuestion,
    k: int,
)
    requires
        verify_is(r, topics, sel, mapping, rf, archives, reads),
        keys_ascend(mapping),
        sel.len() <= usize::MAX,
        r == Step::<VerifyQuestion, Result<VerifyOutcome, DrillError>>::Ask(
            VerifyQuestion::Selection(i, question),
        ),
    ensures
        i < sel.len() && i < archives.len(),
        question matches SelectionQuestion::Records { topic, partition, count } ==> {
            &&& partition == sel[i as int].partition
            &&& count == sel[i as int].count
            &&& 0 <= k < mapping.len() && mapping[k].0 == sel[i as int].topic@ ==> topic@
                == mapping[k].1
            &&& i < reads.selections@.len() ==> reads.selections@[i as int].consumed is None
        },
        question matches SelectionQuestion::Segment(_) ==> (i < reads.selections@.len()
            ==> reads.selections@[i as int].digests@.len() < digested_before(
            sampled_segments(topics, sel[i as int]),
            sampled_segments(topics, sel[i as int]).len() as int,
        )),
{
    an_open_selection_is_one(topics, sel, mapping, archives.len(), reads.selections@);
    let n = first_open(topics, sel, mapping, archives.len(), reads.selections@)->0;
    let (q, own) = choose|
        q: Step<SelectionQuestion, Result<SelectionVerdict, DrillError>>,
        own: SelectionReads,
    |
        {
            &&& (own.digests@, own.consumed) == reads_for(reads.selections@, n)
            &&& #[trigger] selection_is(q, topics, sel[n], mapping, archives[n], own)
            &&& match q {
                Step::Ask(question) => r == Step::<
                    VerifyQuestion,
                    Result<VerifyOutcome, DrillError>,
                >::Ask(VerifyQuestion::Selection(n as usize, question)),
                Step::Done(Err(e)) => r == Step::<
                    VerifyQuestion,
                    Result<VerifyOutcome, DrillError>,
                >::Done(Err(e)),
                Step::Done(Ok(_)) => false,
            }
        };
    assert(i == n);
    records_are_read_where_they_were_restored(q, topics, sel[n], mapping, archives[n], own, k);
    keys_are_counted(sampled_segments(topics, sel[n]));
}

proof fn a_found_topic_has_its_name(topics: Seq<TopicFacts>, name: Seq<char>)
    ensures
        topic_index(topics, name) matches Some(a) ==> 0 <= a < topics.len() && topics[a].name@
            == name,
    decreases topics.len(),
{
    if topics.len() > 0 {
        let rest = topics.drop_last();
        a_found_topic_has_its_name(rest, name);
        if let Some(a) = topic_index(rest, name) {
            assert(topics[a] == rest[a]);
        }
    }
}

proof fn no_topic_is_unknown(facts: Seq<TopicFacts>, mapping: Seq<(Seq<char>, Seq<char>)>, i: int)
    ensures
        first_unknown(facts, mapping) is None && 0 <= i < mapping.len() ==> topic_index(
            facts,
            mapping[i].0,
        ) is Some,
    decreases mapping.len(),
{
    if mapping.len() > 0 {
        let rest = mapping.drop_last();
        no_topic_is_unknown(facts, rest, i);
        if 0 <= i < rest.len() {
            assert(rest[i] == mapping[i]);
        }
    }
}

/// Parity is told only where every mapped topic has facts in the archive and was
/// read, and nothing is told of an empty mapping.
pub proof fn parity_is_told_of_every_mapped_topic(
    r: Step<String, Result<TopicParity, DrillError>>,
    facts: Seq<TopicFacts>,
    mapping: Seq<(Seq<char>, Seq<char>)>,
    reads: Seq<ParityRead>,
    rf: i16,
    i: int,
)
    requires
        parity_is(r, facts, mapping, reads, rf),
    ensures
        r matches Step::Done(Ok(_)) ==> mapping.len() > 0 && reads.len() >= mapping.len() && (0 <= i
            < mapping.len() ==> exists|a: int|
            0 <= a < facts.len() && (#[trigger] facts[a]).name@ == mapping[i].0),
        r matches Step::Ask(topic) ==> reads.len() < mapping.len() && topic@
            == mapping[reads.len() as int].1 && (0 <= i <= reads.len() ==> exists|a: int|
            0 <= a < facts.len() && (#[trigger] facts[a]).name@ == mapping[i].0),
        r matches Step::Done(Err(e)) ==> e@ is Operational,
{
    let seen = looked_at(mapping, reads.len());
    no_topic_is_unknown(facts, seen, i);
    if 0 <= i < seen.len() {
        assert(seen[i] == mapping[i]);
        a_found_topic_has_its_name(facts, mapping[i].0);
    }
}

} // verus!
