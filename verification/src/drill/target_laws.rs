//! What is promised of the target: what is found on it, what is made on it, what
//! is judged of it, and what is taken away from it.
use vstd::prelude::*;
use crate::drill::error::{DrillError, ErrorModel, KafkaError};
use crate::drill::facts::{BackupSetFacts, PartitionFacts, TopicFacts, TopicMeta};
use crate::drill::phase0_admit::{first_listed, PerTopic};
use crate::drill::phase2_target::{
    existing, first_errored, names_of, reading_is, target_is, TargetQuestion, TargetReads,
    TargetState, TopicRead, TopicState,
};
use crate::drill::phase3_diff::{
    colliding, collision_is, diff_is, differing, greatest_partition, mapped, partitions_wanted,
    creations, records_present, summarises, to_create, TargetDiff,
};
use crate::drill::phase6_restore::{
    any_record, holds_a_record, offsets_are, post_condition, restore_is, restoring_is, RestoreFacts,
    RestoreQuestion, RestoreReads, Restored,
};
use crate::drill::phase9_teardown::{
    attested, deleted_names, failed_names, failures, undeleted, warning_text, TeardownAttestation,
};
use crate::drill::scorecard::TargetDiffSummary;
use crate::drill::spec::TargetMode;
use crate::drill::step::Step;
use crate::namemap::{held, held_at, holds_name, last_named, last_named_is_there, names_ascend};
use crate::text::{a_piece_is_found_again, found_within, joined, occurs, occurs_at, texts};
use crate::textmap::{keys_ascend, lookup, value_at};

verus! {

// ---- what the restore is about to do ---------------------------------------

/// A topic has as many partitions as its source had, where the manifest says
/// so; and otherwise just enough that every partition of the archive has its
/// place.
pub proof fn every_partition_has_its_place(t: TopicFacts, i: int)
    ensures
        t.original_partition_count matches Some(n) ==> partitions_wanted(t) == n,
        t.original_partition_count is None && t.partitions@.len() == 0 ==> partitions_wanted(t) == 0,
        t.original_partition_count is None && 0 <= i < t.partitions@.len()
            ==> t.partitions@[i].partition_id < partitions_wanted(t),
        t.original_partition_count is None && t.partitions@.len() > 0 ==> exists|k: int|
            0 <= k < t.partitions@.len() && (#[trigger] t.partitions@[k]).partition_id + 1
                == partitions_wanted(t),
{
    if t.partitions@.len() > 0 {
        the_greatest_is_there(t.partitions@);
        if 0 <= i < t.partitions@.len() {
            assert(t.partitions@[i].partition_id <= greatest_partition(t.partitions@));
        }
        let k = choose|k: int|
            0 <= k < t.partitions@.len() && (#[trigger] t.partitions@[k]).partition_id
                == greatest_partition(t.partitions@);
        assert(t.partitions@[k].partition_id + 1 == greatest_partition(t.partitions@) + 1);
    }
}

proof fn the_greatest_is_there(parts: Seq<PartitionFacts>)
    requires
        parts.len() > 0,
    ensures
        forall|i: int|
            0 <= i < parts.len() ==> (#[trigger] parts[i]).partition_id <= greatest_partition(parts),
        exists|i: int|
            0 <= i < parts.len() && (#[trigger] parts[i]).partition_id == greatest_partition(parts),
    decreases parts.len(),
{
    if parts.len() > 1 {
        let rest = parts.drop_last();
        the_greatest_is_there(rest);
        assert forall|i: int| 0 <= i < parts.len() implies (#[trigger] parts[i]).partition_id
            <= greatest_partition(parts) by {
            if i < rest.len() {
                assert(rest[i] == parts[i]);
            }
        }
        let k = choose|k: int|
            0 <= k < rest.len() && (#[trigger] rest[k]).partition_id == greatest_partition(rest);
        assert(parts[k] == rest[k]);
        assert(parts[parts.len() - 1] == parts.last());
    } else {
        assert(parts[0].partition_id == greatest_partition(parts));
    }
}

/// The records that are there already are the end offsets, added up.
pub proof fn end_offsets_are_added_up(ends: Seq<(i32, i64)>)
    ensures
        records_present(ends) == ends.fold_left(0int, |n: int, e: (i32, i64)| n + e.1),
    decreases ends.len(),
{
    reveal_with_fuel(Seq::fold_left, 2);
    if ends.len() > 0 {
        end_offsets_are_added_up(ends.drop_last());
    }
}

/// A topic of the archive goes to the name that it is mapped to, and one that is
/// not mapped goes nowhere.
pub proof fn a_topic_goes_where_it_is_mapped(
    topics: Seq<TopicFacts>,
    mapping: Seq<(Seq<char>, Seq<char>)>,
    target: Seq<char>,
    t: TopicFacts,
)
    requires
        keys_ascend(mapping),
    ensures
        mapped(topics, mapping).contains((target, t)) <==> mapping.contains((t.name@, target))
            && topics.contains(t),
    decreases topics.len(),
{
    let all = mapped(topics, mapping);
    if topics.len() > 0 {
        let rest = topics.drop_last();
        let last = topics.len() - 1;
        a_topic_goes_where_it_is_mapped(rest, mapping, target, t);
        let was = mapped(rest, mapping);
        an_entry_is_looked_up(mapping, topics[last].name@, target);
        if was.contains((target, t)) {
            let k = choose|k: int| 0 <= k < was.len() && was[k] == (target, t);
            assert(all[k] == (target, t));
            let i = choose|i: int| 0 <= i < rest.len() && rest[i] == t;
            assert(topics[i] == t);
        }
        if all.contains((target, t)) {
            let k = choose|k: int| 0 <= k < all.len() && all[k] == (target, t);
            if k < was.len() {
                assert(was[k] == (target, t));
            } else {
                assert(topics[last] == t);
            }
        }
        if mapping.contains((t.name@, target)) && topics.contains(t) {
            let i = choose|i: int| 0 <= i < topics.len() && topics[i] == t;
            if i < last {
                assert(rest[i] == t);
            } else {
                assert(all[all.len() - 1] == (target, t));
            }
        }
    }
}

proof fn an_entry_is_looked_up(m: Seq<(Seq<char>, Seq<char>)>, k: Seq<char>, v: Seq<char>)
    requires
        keys_ascend(m),
    ensures
        lookup(m, k) == Some(v) <==> m.contains((k, v)),
{
    if m.contains((k, v)) {
        let i = choose|i: int| 0 <= i < m.len() && m[i] == (k, v);
        value_at(m, i);
    }
    if lookup(m, k) == Some(v) {
        let i = choose|i: int| 0 <= i < m.len() && #[trigger] m[i].0 == k;
        value_at(m, i);
        assert(m[i] == (k, v));
    }
}

proof fn created_members(
    wanted: Seq<(Seq<char>, TopicFacts)>,
    state: Seq<(Seq<char>, TopicState)>,
    i: int,
    n: int,
)
    ensures
        0 <= i < wanted.len() && held(state, wanted[i].0) is None ==> to_create(
            wanted,
            state,
        ).contains((wanted[i].0, partitions_wanted(wanted[i].1))),
        0 <= n < to_create(wanted, state).len() ==> exists|k: int|
            0 <= k < wanted.len() && held(state, (#[trigger] wanted[k]).0) is None && to_create(
                wanted,
                state,
            )[n] == (wanted[k].0, partitions_wanted(wanted[k].1)),
        0 <= i < wanted.len() && held(state, wanted[i].0) is Some ==> colliding(
            wanted,
            state,
        ).contains((wanted[i].0, wanted[i].1, held(state, wanted[i].0)->0)),
        0 <= n < colliding(wanted, state).len() ==> exists|k: int|
            0 <= k < wanted.len() && held(state, (#[trigger] wanted[k]).0) is Some && colliding(
                wanted,
                state,
            )[n] == (wanted[k].0, wanted[k].1, held(state, wanted[k].0)->0),
    decreases wanted.len(),
{
    if wanted.len() > 0 {
        let rest = wanted.drop_last();
        let last = wanted.len() - 1;
        created_members(rest, state, i, n);
        let (made, was) = (to_create(wanted, state), to_create(rest, state));
        let (met, had) = (colliding(wanted, state), colliding(rest, state));
        assert(wanted[last] == wanted.last());
        if 0 <= i < wanted.len() {
            if i < last {
                assert(rest[i] == wanted[i]);
                if held(state, wanted[i].0) is None {
                    let x = (wanted[i].0, partitions_wanted(wanted[i].1));
                    let k = choose|k: int| 0 <= k < was.len() && was[k] == x;
                    assert(made[k] == x);
                } else {
                    let x = (wanted[i].0, wanted[i].1, held(state, wanted[i].0)->0);
                    let k = choose|k: int| 0 <= k < had.len() && had[k] == x;
                    assert(met[k] == x);
                }
            } else if held(state, wanted[i].0) is None {
                assert(made[made.len() - 1] == (wanted[i].0, partitions_wanted(wanted[i].1)));
            } else {
                assert(met[met.len() - 1] == (
                    wanted[i].0,
                    wanted[i].1,
                    held(state, wanted[i].0)->0,
                ));
            }
        }
        if 0 <= n < was.len() {
            let k = choose|k: int|
                0 <= k < rest.len() && held(state, (#[trigger] rest[k]).0) is None && was[n] == (
                    rest[k].0,
                    partitions_wanted(rest[k].1),
                );
            assert(wanted[k] == rest[k]);
        }
        if 0 <= n < had.len() {
            let k = choose|k: int|
                0 <= k < rest.len() && held(state, (#[trigger] rest[k]).0) is Some && had[n] == (
                    rest[k].0,
                    rest[k].1,
                    held(state, rest[k].0)->0,
                );
            assert(wanted[k] == rest[k]);
        }
    }
}

/// A topic that is mapped is either to be created, with the partitions that it
/// has to have, or there already, with the partitions and the records that it
/// has: whichever of the two the target says.
pub proof fn a_mapped_topic_is_created_or_met(
    d: TargetDiff,
    target: TargetState,
    facts: BackupSetFacts,
    mapping: Seq<(Seq<char>, Seq<char>)>,
    a: int,
    k: int,
    j: int,
)
    requires
        diff_is(d, target, facts, mapping),
        keys_ascend(mapping),
        names_ascend(target.topics@),
        0 <= a < facts.topics@.len(),
        0 <= k < mapping.len(),
        mapping[k].0 == facts.topics@[a].name@,
    ensures
        (forall|i: int|
            0 <= i < target.topics@.len() ==> (#[trigger] target.topics@[i]).0 != mapping[k].1)
            ==> (exists|n: int|
            0 <= n < d.would_create@.len() && (#[trigger] d.would_create@[n]).0@ == mapping[k].1
                && d.would_create@[n].1 == partitions_wanted(facts.topics@[a])) && texts(
            d.absent@,
        ).contains(mapping[k].1),
        0 <= j < target.topics@.len() && target.topics@[j].0 == mapping[k].1 ==> exists|n: int|
            0 <= n < d.collisions@.len() && (#[trigger] d.collisions@[n]).topic@ == mapping[k].1
                && d.collisions@[n].existing_partitions == target.topics@[j].1.partitions
                && d.collisions@[n].existing_end_offsets
                == target.topics@[j].1.end_offsets@.fold_left(
                0int,
                |s: int, e: (i32, i64)| s + e.1,
            ) && texts(d.collisions@[n].existing_configs_differing@) == differing(
                facts.topics@[a].configurations@,
                target.topics@[j].1.configs@,
            ),
{
    let wanted = mapped(facts.topics@, mapping);
    let state = target.topics@;
    let t = facts.topics@[a];
    let name = mapping[k].1;
    assert(mapping.contains((t.name@, name)));
    assert(facts.topics@.contains(t));
    a_topic_goes_where_it_is_mapped(facts.topics@, mapping, name, t);
    let i = choose|i: int| 0 <= i < wanted.len() && wanted[i] == (name, t);
    created_members(wanted, state, i, 0);
    let made = to_create(wanted, state);
    let met = colliding(wanted, state);
    if forall|x: int| 0 <= x < state.len() ==> (#[trigger] state[x]).0 != name {
        assert(!holds_name(state, name));
        let n = choose|n: int| 0 <= n < made.len() && made[n] == (name, partitions_wanted(t));
        assert(d.would_create@[n].0@ == name);
        assert(d.absent@[n]@ == made[n].0);
        assert(texts(d.absent@)[n] == name);
    }
    if 0 <= j < state.len() && state[j].0 == name {
        held_at(state, j);
        let x = (name, t, state[j].1);
        let n = choose|n: int| 0 <= n < met.len() && met[n] == x;
        assert(collision_is(d.collisions@[n], met[n].0, met[n].1, met[n].2));
        end_offsets_are_added_up(state[j].1.end_offsets@);
    }
}

/// Nothing is to be created but a topic that is mapped and not there, and
/// nothing is met but one that is mapped and there.
pub proof fn nothing_else_is_created_or_met(
    d: TargetDiff,
    target: TargetState,
    facts: BackupSetFacts,
    mapping: Seq<(Seq<char>, Seq<char>)>,
    n: int,
)
    requires
        diff_is(d, target, facts, mapping),
        keys_ascend(mapping),
        names_ascend(target.topics@),
    ensures
        0 <= n < d.would_create@.len() ==> (forall|i: int|
            0 <= i < target.topics@.len() ==> (#[trigger] target.topics@[i]).0
                != d.would_create@[n].0@) && exists|a: int|
            0 <= a < facts.topics@.len() && mapping.contains(
                ((#[trigger] facts.topics@[a]).name@, d.would_create@[n].0@),
            ) && d.would_create@[n].1 == partitions_wanted(facts.topics@[a]),
        0 <= n < d.collisions@.len() ==> (exists|i: int|
            0 <= i < target.topics@.len() && (#[trigger] target.topics@[i]).0
                == d.collisions@[n].topic@) && exists|a: int|
            0 <= a < facts.topics@.len() && mapping.contains(
                ((#[trigger] facts.topics@[a]).name@, d.collisions@[n].topic@),
            ),
        d.absent@.len() == d.would_create@.len(),
{
    let wanted = mapped(facts.topics@, mapping);
    let state = target.topics@;
    created_members(wanted, state, 0, n);
    let made = to_create(wanted, state);
    let met = colliding(wanted, state);
    if 0 <= n < made.len() {
        let k = choose|k: int|
            0 <= k < wanted.len() && held(state, (#[trigger] wanted[k]).0) is None && made[n] == (
                wanted[k].0,
                partitions_wanted(wanted[k].1),
            );
        assert(wanted.contains(wanted[k]));
        a_topic_goes_where_it_is_mapped(facts.topics@, mapping, wanted[k].0, wanted[k].1);
        assert(d.would_create@[n].0@ == made[n].0);
        assert forall|i: int| 0 <= i < state.len() implies (#[trigger] state[i]).0
            != d.would_create@[n].0@ by {
            if state[i].0 == wanted[k].0 {
                assert(holds_name(state, wanted[k].0));
            }
        }
        let a = choose|a: int| 0 <= a < facts.topics@.len() && facts.topics@[a] == wanted[k].1;
        assert(mapping.contains((facts.topics@[a].name@, d.would_create@[n].0@)));
    }
    if 0 <= n < met.len() {
        let k = choose|k: int|
            0 <= k < wanted.len() && held(state, (#[trigger] wanted[k]).0) is Some && met[n] == (
                wanted[k].0,
                wanted[k].1,
                held(state, wanted[k].0)->0,
            );
        assert(wanted.contains(wanted[k]));
        a_topic_goes_where_it_is_mapped(facts.topics@, mapping, wanted[k].0, wanted[k].1);
        assert(collision_is(d.collisions@[n], met[n].0, met[n].1, met[n].2));
        assert(holds_name(state, wanted[k].0));
        let a = choose|a: int| 0 <= a < facts.topics@.len() && facts.topics@[a] == wanted[k].1;
        assert(mapping.contains((facts.topics@[a].name@, d.collisions@[n].topic@)));
    }
}

/// A setting is told to differ exactly where the target has it with another
/// value.
pub proof fn a_setting_differs_where_both_have_it(
    source: Seq<(Seq<char>, Seq<char>)>,
    target: Seq<(Seq<char>, Seq<char>)>,
    key: Seq<char>,
)
    requires
        keys_ascend(target),
    ensures
        differing(source, target).contains(key) <==> exists|i: int, j: int|
            0 <= i < source.len() && 0 <= j < target.len() && (#[trigger] source[i]).0 == key && (
            #[trigger] target[j]).0 == key && source[i].1 != target[j].1,
    decreases source.len(),
{
    let all = differing(source, target);
    if source.len() > 0 {
        let rest = source.drop_last();
        let last = source.len() - 1;
        a_setting_differs_where_both_have_it(rest, target, key);
        let was = differing(rest, target);
        assert(source[last] == source.last());
        if was.contains(key) {
            let k = choose|k: int| 0 <= k < was.len() && was[k] == key;
            assert(all[k] == key);
            let (i, j) = choose|i: int, j: int|
                0 <= i < rest.len() && 0 <= j < target.len() && (#[trigger] rest[i]).0 == key && (
                #[trigger] target[j]).0 == key && rest[i].1 != target[j].1;
            assert(source[i] == rest[i]);
        }
        if all.contains(key) {
            let k = choose|k: int| 0 <= k < all.len() && all[k] == key;
            if k < was.len() {
                assert(was[k] == key);
            } else {
                let j = choose|j: int| 0 <= j < target.len() && #[trigger] target[j].0 == key;
                value_at(target, j);
                assert(source[last].1 != target[j].1);
            }
        }
        if exists|i: int, j: int|
            0 <= i < source.len() && 0 <= j < target.len() && (#[trigger] source[i]).0 == key && (
            #[trigger] target[j]).0 == key && source[i].1 != target[j].1 {
            let (i, j) = choose|i: int, j: int|
                0 <= i < source.len() && 0 <= j < target.len() && (#[trigger] source[i]).0 == key
                    && (#[trigger] target[j]).0 == key && source[i].1 != target[j].1;
            value_at(target, j);
            if i < last {
                assert(rest[i] == source[i]);
            } else {
                assert(all[all.len() - 1] == key);
            }
        }
    }
}

/// The document tells every topic that is met by its name, every topic that is
/// absent, and every topic that is to be created with its partitions.
pub proof fn a_summary_leaves_no_topic_out(r: TargetDiffSummary, d: TargetDiff, i: int)
    requires
        summarises(r, d),
    ensures
        r.level@ == "full"@,
        r.collisions@.len() == d.collisions@.len(),
        r.absent@.len() == d.absent@.len(),
        r.would_create@.len() == d.would_create@.len(),
        0 <= i < d.collisions@.len() ==> occurs(r.collisions@[i]@, d.collisions@[i].topic@),
        0 <= i < d.absent@.len() ==> r.absent@[i]@ == d.absent@[i]@,
        0 <= i < d.would_create@.len() ==> r.would_create@[i].0@ == d.would_create@[i].0@
            && r.would_create@[i].1 == d.would_create@[i].1,
{
    assert(texts(r.absent@).len() == r.absent@.len());
    assert(creations(r.would_create@).len() == r.would_create@.len());
    if 0 <= i < d.absent@.len() {
        assert(texts(r.absent@)[i] == r.absent@[i]@);
    }
    if 0 <= i < d.would_create@.len() {
        assert(creations(r.would_create@)[i] == (r.would_create@[i].0@, r.would_create@[i].1));
        assert(creations(d.would_create@)[i] == (d.would_create@[i].0@, d.would_create@[i].1));
    }
    if 0 <= i < d.collisions@.len() {
        let (whole, name) = (r.collisions@[i]@, d.collisions@[i].topic@);
        assert(occurs_at(whole, name, 0)) by {
            assert(whole.subrange(0, name.len() as int) =~= name);
        }
    }
}

// ---- what is found on the target -------------------------------------------

/// The topics of interest that exist.
proof fn existing_members(names: Seq<String>, listed: Seq<TopicMeta>, name: Seq<char>)
    ensures
        names_of(existing(names, listed)).contains(name) <==> first_listed(listed, name) is Some
            && exists|i: int| 0 <= i < names.len() && (#[trigger] names[i])@ == name,
        forall|k: int|
            0 <= k < existing(names, listed).len() ==> first_listed(
                listed,
                (#[trigger] existing(names, listed)[k]).0,
            ) == Some(existing(names, listed)[k].1),
    decreases names.len(),
{
    let all = existing(names, listed);
    let told = names_of(all);
    if names.len() > 0 {
        let rest = names.drop_last();
        let last = names.len() - 1;
        existing_members(rest, listed, name);
        let was = existing(rest, listed);
        let had = names_of(was);
        assert(names[last] == names.last());
        if had.contains(name) {
            let k = choose|k: int| 0 <= k < had.len() && had[k] == name;
            assert(told[k] == name);
            let i = choose|i: int| 0 <= i < rest.len() && (#[trigger] rest[i])@ == name;
            assert(names[i]@ == name);
        }
        if told.contains(name) {
            let k = choose|k: int| 0 <= k < told.len() && told[k] == name;
            if k < had.len() {
                assert(had[k] == name);
            } else {
                assert(names[last]@ == name);
            }
        }
        if first_listed(listed, name) is Some && exists|i: int|
            0 <= i < names.len() && (#[trigger] names[i])@ == name {
            let i = choose|i: int| 0 <= i < names.len() && (#[trigger] names[i])@ == name;
            if i < last {
                assert(rest[i]@ == name);
            } else {
                assert(told[told.len() - 1] == name);
            }
        }
        assert forall|k: int| 0 <= k < all.len() implies first_listed(
            listed,
            (#[trigger] all[k]).0,
        ) == Some(all[k].1) by {
            if k < was.len() {
                assert(all[k] == was[k]);
            }
        }
    }
}

/// A topic is taken as it is listed first, and is missing where nothing of its
/// name is listed.
pub proof fn the_first_listing(listed: Seq<TopicMeta>, name: Seq<char>)
    ensures
        match first_listed(listed, name) {
            Some(t) => exists|i: int|
                0 <= i < listed.len() && #[trigger] listed[i] == t && t.name@ == name && forall|
                    j: int,
                |
                    0 <= j < i ==> (#[trigger] listed[j]).name@ != name,
            None => forall|i: int| 0 <= i < listed.len() ==> (#[trigger] listed[i]).name@ != name,
        },
    decreases listed.len(),
{
    if listed.len() > 0 {
        let rest = listed.drop_last();
        let last = listed.len() - 1;
        the_first_listing(rest, name);
        assert(listed[last] == listed.last());
        match first_listed(rest, name) {
            Some(t) => {
                let i = choose|i: int|
                    0 <= i < rest.len() && #[trigger] rest[i] == t && t.name@ == name && forall|
                        j: int,
                    |
                        0 <= j < i ==> (#[trigger] rest[j]).name@ != name;
                assert(listed[i] == t);
                assert forall|j: int| 0 <= j < i implies (#[trigger] listed[j]).name@ != name by {
                    assert(rest[j] == listed[j]);
                }
            },
            None => {
                assert forall|j: int| 0 <= j < last implies (#[trigger] listed[j]).name@ != name by {
                    assert(rest[j] == listed[j]);
                }
            },
        }
    }
}

/// A topic is in the state of the target exactly where it was asked for and is
/// listed; it has the partitions of its first listing, and the end offsets and
/// settings that were read of it last.
pub proof fn the_state_holds_what_was_asked_for_and_is_there(
    r: Step<String, Result<TargetState, DrillError>>,
    cluster_id: Seq<char>,
    of_interest: Seq<String>,
    listed: Seq<TopicMeta>,
    reads: Seq<TopicRead>,
    name: Seq<char>,
)
    requires
        target_is(r, cluster_id, of_interest, listed, reads),
        r matches Step::Done(Ok(_)),
    ensures
        ({
            let state = r->Done_0->Ok_0;
            &&& state.cluster_id@ == cluster_id
            &&& names_ascend(state.topics@)
            &&& held(state.topics@, name) is Some <==> (exists|i: int|
                0 <= i < of_interest.len() && (#[trigger] of_interest[i])@ == name) && (exists|
                i: int,
            |
                0 <= i < listed.len() && (#[trigger] listed[i]).name@ == name)
            &&& held(state.topics@, name) is Some ==> {
                &&& exists|i: int|
                    0 <= i < listed.len() && (#[trigger] listed[i]).name@ == name
                        && listed[i].partitions == held(state.topics@, name)->0.partitions
                        && forall|j: int| 0 <= j < i ==> (#[trigger] listed[j]).name@ != name
                &&& exists|n: int|
                    0 <= n < reads.len() && (#[trigger] reads[n]).end_offsets@ == held(
                        state.topics@,
                        name,
                    )->0.end_offsets@ && reads[n].configs@ == held(
                        state.topics@,
                        name,
                    )->0.configs@
            }
        }),
{
    let state = r->Done_0->Ok_0;
    let found = existing(of_interest, listed);
    existing_members(of_interest, listed, name);
    the_first_listing(listed, name);
    last_named_is_there(names_of(found), name);
    let held_now = held(state.topics@, name);
    if let Some(n) = last_named(names_of(found), name) {
        assert(held_now is Some);
        assert(first_listed(listed, found[n].0) == Some(found[n].1));
        assert(reads[n].end_offsets@ == held_now->0.end_offsets@);
    } else {
        assert(held_now is None);
    }
}

/// A topic that was asked for and is listed with an error is never taken to be
/// read, and where none is the reading does not fail.
pub proof fn an_error_in_a_listing_is_never_passed_over(
    r: Step<String, Result<TargetState, DrillError>>,
    cluster_id: Seq<char>,
    of_interest: Seq<String>,
    listed: Seq<TopicMeta>,
    reads: Seq<TopicRead>,
    i: int,
    j: int,
)
    requires
        target_is(r, cluster_id, of_interest, listed, reads),
    ensures
        0 <= i < of_interest.len() && 0 <= j < listed.len() && listed[j].name@ == of_interest[i]@
            && listed[j].error is Some && (forall|k: int|
            0 <= k < j ==> (#[trigger] listed[k]).name@ != of_interest[i]@) ==> !(
        r matches Step::Done(Ok(_))),
        (forall|k: int| 0 <= k < listed.len() ==> (#[trigger] listed[k]).error is None) ==> !(
        r matches Step::Done(Err(_))),
        r matches Step::Ask(name) ==> (exists|k: int|
            0 <= k < of_interest.len() && (#[trigger] of_interest[k])@ == name@) && (exists|k: int|
            0 <= k < listed.len() && (#[trigger] listed[k]).name@ == name@ && listed[k].error is None
                && forall|m: int| 0 <= m < k ==> (#[trigger] listed[m]).name@ != name@),
        reads.len() >= of_interest.len() ==> r is Done,
{
    let found = existing(of_interest, listed);
    errors_are_found(found);
    found_are_asked_for(of_interest, listed);
    if let Step::Ask(name) = r {
        let n = reads.len() as int;
        assert(found[n].0 == name@);
        assert(names_of(found)[n] == name@);
        existing_members(of_interest, listed, name@);
        the_first_listing(listed, name@);
        errors_come_first(found, n);
    }
    if 0 <= i < of_interest.len() && 0 <= j < listed.len() && listed[j].name@ == of_interest[i]@
        && listed[j].error is Some && (forall|k: int|
        0 <= k < j ==> (#[trigger] listed[k]).name@ != of_interest[i]@) {
        let name = of_interest[i]@;
        the_first_listing(listed, name);
        let t = first_listed(listed, name)->0;
        let n = choose|n: int|
            0 <= n < listed.len() && #[trigger] listed[n] == t && t.name@ == name && forall|k: int|
                0 <= k < n ==> (#[trigger] listed[k]).name@ != name;
        assert(n == j);
        existing_members(of_interest, listed, name);
        let names = names_of(found);
        let k = choose|k: int| 0 <= k < names.len() && names[k] == name;
        assert(first_listed(listed, found[k].0) == Some(found[k].1));
        assert(found[k].1.error is Some);
    }
    if forall|k: int| 0 <= k < listed.len() ==> (#[trigger] listed[k]).error is None {
        if let Some(k) = first_errored(found) {
            existing_members(of_interest, listed, found[k].0);
            the_first_listing(listed, found[k].0);
        }
    }
}

proof fn found_are_asked_for(names: Seq<String>, listed: Seq<TopicMeta>)
    ensures
        existing(names, listed).len() <= names.len(),
    decreases names.len(),
{
    if names.len() > 0 {
        found_are_asked_for(names.drop_last(), listed);
    }
}

/// The first error is no later than any.
proof fn errors_come_first(found: Seq<(Seq<char>, TopicMeta)>, n: int)
    ensures
        0 <= n < found.len() && found[n].1.error is Some ==> (first_errored(found) matches Some(k)
            && k <= n),
    decreases found.len(),
{
    if found.len() > 0 {
        let rest = found.drop_last();
        errors_come_first(rest, n);
        errors_are_found(rest);
        if n < rest.len() && n >= 0 {
            assert(rest[n] == found[n]);
        }
    }
}

proof fn errors_are_found(found: Seq<(Seq<char>, TopicMeta)>)
    ensures
        match first_errored(found) {
            Some(k) => 0 <= k < found.len() && found[k].1.error is Some,
            None => forall|k: int| 0 <= k < found.len() ==> (#[trigger] found[k]).1.error is None,
        },
    decreases found.len(),
{
    if found.len() > 0 {
        let rest = found.drop_last();
        errors_are_found(rest);
        assert(found[found.len() - 1] == found.last());
        assert(forall|k: int| 0 <= k < rest.len() ==> #[trigger] found[k] == rest[k]);
        if let Some(k) = first_errored(rest) {
            assert(found[k] == rest[k]);
        } else {
            assert forall|k: int| 0 <= k < rest.len() implies (#[trigger] found[k]).1.error is None by {
                assert(rest[k] == found[k]);
            }
        }
    }
}

// ---- what a restore left ---------------------------------------------------

/// A restore counts as one exactly where some partition of some target topic was
/// read to end above zero. Where every partition of every topic that it names
/// ends at zero or below it restored nothing, and where it names no topic
/// nothing can be said.
pub proof fn a_restore_leaves_a_record(
    r: Step<String, Result<Restored, DrillError>>,
    targets: Seq<Seq<char>>,
    facts: RestoreFacts,
    ends: Seq<Vec<(i32, i64)>>,
)
    requires
        restore_is(r, targets, facts, ends),
        targets.no_duplicates(),
    ensures
        r is Ask <==> ends.len() < targets.len(),
        r is Done ==> (r->Done_0 is Ok <==> exists|i: int, j: int|
            0 <= i < targets.len() && 0 <= j < ends[i]@.len() && (#[trigger] ends[i]@[j]).1 > 0),
        r is Done && targets.len() == 0 ==> (r->Done_0 matches Err(e) && e@ is Operational),
        r is Done && targets.len() > 0 ==> (r->Done_0 matches Err(e) ==> e@ is RestoreNoOp),
        r matches Step::Done(Ok(done)) ==> {
            &&& done.started_at == facts.started_at
            &&& done.finished_at == facts.finished_at
            &&& texts(done.unknown_key_warnings@) == texts(facts.unknown_key_warnings@)
            &&& forall|i: int|
                0 <= i < targets.len() ==> (held(
                    done.restored_end_offsets@,
                    #[trigger] targets[i],
                ) matches Some(e) && e@ == ends[i]@)
        },
{
    if let Step::Done(done) = r {
        let topics = choose|topics: Seq<(Seq<char>, Vec<(i32, i64)>)>|
            {
                &&& #[trigger] offsets_are(topics, targets, ends)
                &&& match post_condition(topics) {
                    Err(m) => r matches Step::Done(Err(e)) && e@ == m,
                    Ok(_) => {
                        &&& r matches Step::Done(Ok(restored))
                        &&& restored.started_at == facts.started_at
                        &&& restored.finished_at == facts.finished_at
                        &&& restored.restored_end_offsets@ == topics
                        &&& texts(restored.unknown_key_warnings@) == texts(
                            facts.unknown_key_warnings@,
                        )
                    },
                }
            };
        assert forall|i: int| 0 <= i < targets.len() implies (held(
            topics,
            #[trigger] targets[i],
        ) matches Some(e) && e@ == ends[i]@) by {
            last_named_is_there(targets, targets[i]);
            let n = last_named(targets, targets[i])->0;
            assert(n == i);
        }
        if targets.len() > 0 {
            assert(held(topics, targets[0]) is Some);
        } else if topics.len() > 0 {
            held_at(topics, 0);
            assert(last_named(targets, topics[0].0) is None);
        }
        if any_record(topics) {
            let x = choose|x: int|
                0 <= x < topics.len() && holds_a_record((#[trigger] topics[x]).1@);
            held_at(topics, x);
            let name = topics[x].0;
            last_named_is_there(targets, name);
            assert(last_named(targets, name) is Some);
            let n = last_named(targets, name)->0;
            let j = choose|j: int| 0 <= j < topics[x].1@.len() && (#[trigger] topics[x].1@[j]).1 > 0;
            assert(ends[n]@[j].1 > 0);
        }
        if exists|i: int, j: int|
            0 <= i < targets.len() && 0 <= j < ends[i]@.len() && (#[trigger] ends[i]@[j]).1 > 0 {
            let (i, j) = choose|i: int, j: int|
                0 <= i < targets.len() && 0 <= j < ends[i]@.len() && (#[trigger] ends[i]@[j]).1 > 0;
            let e = held(topics, targets[i])->0;
            let x = choose|x: int| 0 <= x < topics.len() && (#[trigger] topics[x]).0 == targets[i];
            assert(topics[x].1@[j].1 > 0);
            assert(holds_a_record(topics[x].1@));
        }
    }
}

// ---- what is taken away ----------------------------------------------------

/// What the broker said of each topic is what is attested of it.
proof fn answers_are_sorted(results: Seq<(String, Result<(), String>)>, i: int, n: int)
    ensures
        0 <= i < results.len() && results[i].1 is Ok ==> deleted_names(results).contains(
            results[i].0@,
        ),
        0 <= i < results.len() && results[i].1 is Err ==> undeleted(results).contains(
            (results[i].0@, results[i].1->Err_0@),
        ),
        0 <= n < deleted_names(results).len() ==> exists|k: int|
            0 <= k < results.len() && (#[trigger] results[k]).1 is Ok && results[k].0@
                == deleted_names(results)[n],
        0 <= n < undeleted(results).len() ==> exists|k: int|
            0 <= k < results.len() && (#[trigger] results[k]).1 is Err && (
                results[k].0@,
                results[k].1->Err_0@,
            ) == undeleted(results)[n],
    decreases results.len(),
{
    if results.len() > 0 {
        let rest = results.drop_last();
        let last = results.len() - 1;
        answers_are_sorted(rest, i, n);
        assert(results[last] == results.last());
        let (gone, was) = (deleted_names(results), deleted_names(rest));
        let (left, had) = (undeleted(results), undeleted(rest));
        if 0 <= i < results.len() {
            if i < last {
                assert(rest[i] == results[i]);
                if results[i].1 is Ok {
                    let k = choose|k: int| 0 <= k < was.len() && was[k] == results[i].0@;
                    assert(gone[k] == was[k]);
                } else {
                    let x = (results[i].0@, results[i].1->Err_0@);
                    let k = choose|k: int| 0 <= k < had.len() && had[k] == x;
                    assert(left[k] == x);
                }
            } else if results[i].1 is Ok {
                assert(gone[gone.len() - 1] == results[i].0@);
            } else {
                assert(left[left.len() - 1] == (results[i].0@, results[i].1->Err_0@));
            }
        }
        if 0 <= n < was.len() {
            let k = choose|k: int|
                0 <= k < rest.len() && (#[trigger] rest[k]).1 is Ok && rest[k].0@ == was[n];
            assert(results[k] == rest[k]);
        }
        if 0 <= n < had.len() {
            let k = choose|k: int|
                0 <= k < rest.len() && (#[trigger] rest[k]).1 is Err && (
                    rest[k].0@,
                    rest[k].1->Err_0@,
                ) == had[n];
            assert(results[k] == rest[k]);
        }
    }
}

/// A topic is attested as deleted only where the broker said that it deleted it,
/// and as failed where it said otherwise, with its words. Where the broker gave
/// no answer for the topics at all, every topic is attested as failed. Topics
/// that were not scratch topics, or that the policy keeps, are not spoken of.
pub proof fn only_the_broker_deletes_a_topic(
    a: TeardownAttestation,
    targets: Seq<Seq<char>>,
    policy: Seq<char>,
    mode: TargetMode,
    run_id: Seq<char>,
    scorecard_sha256: Seq<char>,
    answer: Option<Result<PerTopic, KafkaError>>,
    i: int,
    n: int,
)
    requires
        attested(a, targets, policy, mode, run_id, scorecard_sha256, answer),
    ensures
        a.run_id@ == run_id,
        a.scorecard_sha256@ == scorecard_sha256,
        a.teardown_policy@ == policy,
        a.target_mode == mode,
        mode != TargetMode::Scratch || policy != "delete"@ ==> a.topics_deleted@.len() == 0
            && a.topics_failed@.len() == 0,
        mode == TargetMode::Scratch && policy == "delete"@ ==> {
            &&& answer is Some
            &&& answer matches Some(Ok(results)) ==> {
                &&& 0 <= i < results@.len() && results@[i].1 is Ok ==> texts(
                    a.topics_deleted@,
                ).contains(results@[i].0@)
                &&& 0 <= i < results@.len() && results@[i].1 is Err ==> failures(
                    a.topics_failed@,
                ).contains((results@[i].0@, results@[i].1->Err_0@))
                &&& 0 <= n < a.topics_deleted@.len() ==> exists|k: int|
                    0 <= k < results@.len() && (#[trigger] results@[k]).1 is Ok && results@[k].0@
                        == a.topics_deleted@[n]@
                &&& 0 <= n < a.topics_failed@.len() ==> exists|k: int|
                    0 <= k < results@.len() && (#[trigger] results@[k]).1 is Err && results@[k].0@
                        == a.topics_failed@[n].0@
            }
            &&& answer matches Some(Err(e)) ==> a.topics_deleted@.len() == 0
                && a.topics_failed@.len() == targets.len() && (0 <= i < targets.len()
                ==> a.topics_failed@[i].0@ == targets[i])
        },
{
    if let Some(Ok(results)) = answer {
        answers_are_sorted(results@, i, n);
        if 0 <= n < a.topics_deleted@.len() {
            assert(texts(a.topics_deleted@)[n] == a.topics_deleted@[n]@);
        }
        if 0 <= n < a.topics_failed@.len() {
            assert(failures(a.topics_failed@)[n].0 == a.topics_failed@[n].0@);
        }
    }
    if let Some(Err(e)) = answer {
        if mode == TargetMode::Scratch && policy == "delete"@ {
            assert(failures(a.topics_failed@).len() == a.topics_failed@.len());
            if 0 <= i < targets.len() {
                assert(failures(a.topics_failed@)[i].0 == targets[i]);
            }
        }
    }
}

/// A topic that was left behind is warned of by its name, and where none was
/// there is no warning.
pub proof fn a_topic_left_behind_is_warned_of(v: Seq<(String, String)>, i: int)
    ensures
        warning_text(failed_names(v)) is None <==> v.len() == 0,
        0 <= i < v.len() ==> occurs(warning_text(failed_names(v))->0, v[i].0@),
{
    let names = failed_names(v);
    if 0 <= i < v.len() {
        assert(names[i] == v[i].0@);
        a_piece_is_found_again(names, ", "@, i);
        let whole = warning_text(names)->0;
        let told = joined(names, ", "@);
        let before = whole.take(whole.len() - told.len());
        found_within(before, told, Seq::empty(), v[i].0@);
        assert(before + told + Seq::<char>::empty() =~= whole);
    }
}

/// A cluster that cannot be read is a failure of the run and no finding; what
/// was read of one is what its answers say.
pub proof fn a_target_is_read_from_its_answers(
    r: Step<TargetQuestion, Result<TargetState, DrillError>>,
    of_interest: Seq<String>,
    reads: TargetReads,
    name: Seq<char>,
)
    requires
        reading_is(r, of_interest, reads),
    ensures
        reads.cluster_id matches Some(Err(e)) ==> (r matches Step::Done(Err(d)) && d@
            == ErrorModel::Kafka(e)),
        r matches Step::Done(Err(d)) ==> d@ is Kafka || d@ is Operational,
        r matches Step::Done(Ok(state)) ==> {
            &&& reads.cluster_id matches Some(Ok(id)) && state.cluster_id@ == id@
            &&& reads.listed matches Some(Ok(listed)) && (held(state.topics@, name) is Some <==> (
            exists|i: int| 0 <= i < of_interest.len() && (#[trigger] of_interest[i])@ == name) && (
            exists|i: int| 0 <= i < listed@.len() && (#[trigger] listed@[i]).name@ == name))
            &&& reads.failed is None
        },
{
    if let (Some(Ok(id)), Some(Ok(listed))) = (reads.cluster_id, reads.listed) {
        if reads.failed is None {
            let q = choose|q: Step<String, Result<TargetState, DrillError>>|
                {
                    &&& #[trigger] target_is(q, id@, of_interest, listed@, reads.topics@)
                    &&& match q {
                        Step::Ask(name) => r == Step::<
                            TargetQuestion,
                            Result<TargetState, DrillError>,
                        >::Ask(TargetQuestion::Topic(name)),
                        Step::Done(done) => r == Step::<
                            TargetQuestion,
                            Result<TargetState, DrillError>,
                        >::Done(done),
                    }
                };
            if q matches Step::Done(Ok(_)) {
                the_state_holds_what_was_asked_for_and_is_there(
                    q,
                    id@,
                    of_interest,
                    listed@,
                    reads.topics@,
                    name,
                );
            }
        }
    }
}

/// A restore that the engine could not do is the engine's failure, and one whose
/// result could not be read the cluster's; what is judged of one is what was read.
pub proof fn a_restore_is_judged_by_what_was_read(
    r: Step<RestoreQuestion, Result<Restored, DrillError>>,
    targets: Seq<Seq<char>>,
    reads: RestoreReads,
)
    requires
        restoring_is(r, targets, reads),
        targets.no_duplicates(),
    ensures
        reads.restored matches Some(Err(_)) ==> (r matches Step::Done(Err(d)) && d@ is Engine),
        (reads.restored matches Some(Ok(_))) && reads.failed is Some ==> (
        r matches Step::Done(Err(d)) && d@ is Kafka),
        r matches Step::Done(Ok(done)) ==> {
            &&& reads.restored matches Some(Ok(facts)) && done.started_at == facts.started_at
                && done.finished_at == facts.finished_at
            &&& reads.ends@.len() >= targets.len()
            &&& exists|i: int, j: int|
                0 <= i < targets.len() && 0 <= j < reads.ends@[i]@.len() && (
                #[trigger] reads.ends@[i]@[j]).1 > 0
        },
        r matches Step::Done(Err(d)) && d@ is RestoreNoOp ==> targets.len() > 0 && forall|
            i: int,
            j: int,
        |
            0 <= i < targets.len() && 0 <= j < reads.ends@[i]@.len() ==> (
            #[trigger] reads.ends@[i]@[j]).1 <= 0,
{
    if let (Some(Ok(facts)), None) = (reads.restored, reads.failed) {
        let q = choose|q: Step<String, Result<Restored, DrillError>>|
            {
                &&& #[trigger] restore_is(q, targets, facts, reads.ends@)
                &&& match q {
                    Step::Ask(topic) => r == Step::<
                        RestoreQuestion,
                        Result<Restored, DrillError>,
                    >::Ask(RestoreQuestion::EndOffsets(topic)),
                    Step::Done(done) => r == Step::<
                        RestoreQuestion,
                        Result<Restored, DrillError>,
                    >::Done(done),
                }
            };
        a_restore_leaves_a_record(q, targets, facts, reads.ends@);
    }
}

} // verus!
