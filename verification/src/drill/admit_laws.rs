//! What is promised of an admission: what a plan that is admitted is like, which
//! plan has to be admitted, and what is then created.
use vstd::prelude::*;
use crate::clock::millis_of;
use crate::drill::facts::TopicMeta;
use crate::drill::phase0_admit::{
    admit_is, all_ticked, bound_of, created_names, every_failure_is_seen, first_expansion,
    first_failure, first_listed, forbidden_text, held_difference, is_plan_mapping, lists, pairs,
    planned, present_targets, present_text, trial_is, AdmitQuestion, AdmitReads, AdmitStep,
    PreflightStep, TargetRules,
};
use crate::drill::spec::{AllowedClusters, Anchor, DrillSpec};
use crate::drill::step::Step;
use crate::drill::target_laws::the_first_listing;
use crate::text::{
    a_piece_is_found_again, found_within, joined, occurs, spelled_i64, texts, trimmed,
};
use crate::textmap::{as_map, keys_of, lookup, value_at, value_of, values_of};

verus! {

proof fn planned_members(topics: Seq<String>, prefix: Seq<char>, name: Seq<char>)
    ensures
        planned(topics, prefix).dom().contains(name) <==> exists|i: int|
            0 <= i < topics.len() && (#[trigger] topics[i])@ == name,
        planned(topics, prefix).dom().contains(name) ==> planned(topics, prefix)[name] == prefix
            + name,
    decreases topics.len(),
{
    if topics.len() > 0 {
        let rest = topics.drop_last();
        planned_members(rest, prefix, name);
        assert(topics[topics.len() - 1] == topics.last());
        if planned(rest, prefix).dom().contains(name) {
            let i = choose|i: int| 0 <= i < rest.len() && (#[trigger] rest[i])@ == name;
            assert(topics[i]@ == name);
        }
        if exists|i: int| 0 <= i < topics.len() && (#[trigger] topics[i])@ == name {
            let i = choose|i: int| 0 <= i < topics.len() && (#[trigger] topics[i])@ == name;
            if i < rest.len() {
                assert(rest[i]@ == name);
            }
        }
    }
}

/// Every topic of a plan is restored under its name behind the prefix, and
/// nothing else is restored.
pub proof fn every_topic_is_mapped_behind_the_prefix(
    mapping: Seq<(Seq<char>, Seq<char>)>,
    spec: DrillSpec,
    i: int,
    k: int,
)
    requires
        is_plan_mapping(mapping, spec),
    ensures
        0 <= i < spec.source.topics@.len() ==> mapping.contains(
            (
                spec.source.topics@[i]@,
                spec.target.topic_mapping_prefix@ + spec.source.topics@[i]@,
            ),
        ),
        0 <= k < mapping.len() ==> texts(spec.source.topics@).contains(mapping[k].0)
            && mapping[k].1 == spec.target.topic_mapping_prefix@ + mapping[k].0,
{
    let topics = spec.source.topics@;
    let prefix = spec.target.topic_mapping_prefix@;
    if 0 <= i < topics.len() {
        let name = topics[i]@;
        planned_members(topics, prefix, name);
        assert(as_map(mapping).dom().contains(name));
        assert(as_map(mapping)[name] == prefix + name);
        let x = choose|x: int| 0 <= x < mapping.len() && #[trigger] mapping[x].0 == name;
        value_at(mapping, x);
        assert(mapping[x] == (name, prefix + name));
    }
    if 0 <= k < mapping.len() {
        value_at(mapping, k);
        let name = mapping[k].0;
        assert(as_map(mapping).dom().contains(name));
        assert(as_map(mapping)[name] == value_of(mapping, name));
        planned_members(topics, prefix, name);
        let x = choose|x: int| 0 <= x < topics.len() && (#[trigger] topics[x])@ == name;
        assert(texts(topics)[x] == name);
    }
}

/// A name that the engine would expand is seen wherever it stands.
pub proof fn every_expansion_is_seen(names: Seq<Seq<char>>)
    ensures
        first_expansion(names) is None <==> forall|i: int|
            0 <= i < names.len() ==> !occurs(#[trigger] names[i], "${"@),
        first_expansion(names) matches Some(n) ==> names.contains(n) && occurs(n, "${"@),
    decreases names.len(),
{
    if names.len() > 0 {
        let rest = names.drop_last();
        every_expansion_is_seen(rest);
        assert(names[names.len() - 1] == names.last());
        assert(forall|i: int| 0 <= i < rest.len() ==> #[trigger] names[i] == rest[i]);
        if let Some(n) = first_expansion(rest) {
            let i = choose|i: int| 0 <= i < rest.len() && rest[i] == n;
            assert(names[i] == n);
            assert(occurs(names[i], "${"@));
        } else {
            assert forall|i: int| 0 <= i < rest.len() implies !occurs(#[trigger] names[i], "${"@) by {
                assert(rest[i] == names[i]);
            }
        }
    }
}

proof fn every_present_target_is_seen(targets: Seq<Seq<char>>, topics: Seq<TopicMeta>)
    ensures
        present_targets(targets, topics).len() == 0 <==> forall|i: int|
            0 <= i < targets.len() ==> !lists(topics, #[trigger] targets[i]),
    decreases targets.len(),
{
    if targets.len() > 0 {
        let rest = targets.drop_last();
        every_present_target_is_seen(rest, topics);
        assert(targets[targets.len() - 1] == targets.last());
        assert(forall|i: int| 0 <= i < rest.len() ==> #[trigger] targets[i] == rest[i]);
        if present_targets(rest, topics).len() == 0 {
            assert forall|i: int| 0 <= i < rest.len() implies !lists(topics, #[trigger] targets[i]) by {
                assert(rest[i] == targets[i]);
            }
        }
    }
}

/// How far back the broker takes a record, by its settings: the newer setting
/// counts before the older one, and one that is no number bounds nothing.
pub proof fn the_newer_bound_counts_first(broker: Seq<(Seq<char>, Seq<char>)>)
    ensures
        lookup(broker, "log.message.timestamp.before.max.ms"@) matches Some(v) ==> bound_of(broker)
            == spelled_i64(trimmed(v)),
        lookup(broker, "log.message.timestamp.before.max.ms"@) is None && (lookup(
            broker,
            "log.message.timestamp.difference.max.ms"@,
        ) matches Some(v)) ==> bound_of(broker) == spelled_i64(
            trimmed(lookup(broker, "log.message.timestamp.difference.max.ms"@)->0),
        ),
        lookup(broker, "log.message.timestamp.before.max.ms"@) is None && lookup(
            broker,
            "log.message.timestamp.difference.max.ms"@,
        ) is None ==> bound_of(broker) is None,
{
}

/// A plan that is admitted names a cluster that is allowed and is not the
/// source. The marker topic is there, and healthy; no target topic is. The end of
/// what the plan asks for is recent enough for the broker, and the broker keeps
/// the timestamps that it is given.
pub proof fn what_is_admitted_is_safe(
    r: AdmitStep,
    spec: DrillSpec,
    allowed: AllowedClusters,
    rules: TargetRules,
    mapping: Seq<(Seq<char>, Seq<char>)>,
    reads: AdmitReads,
    i: int,
    j: int,
)
    requires
        admit_is(r, spec, allowed, rules, mapping, reads),
        is_plan_mapping(mapping, spec),
        r matches Step::Done(Ok(_)),
    ensures
        ({
            let a = r->Done_0->Ok_0;
            let topics = reads.topics->0->Ok_0@;
            let broker = reads.broker_configs->0->Ok_0@;
            &&& reads.cluster_id matches Some(Ok(id)) && id@ == a.target_cluster_id@
            &&& texts(allowed.allowed_cluster_ids@).contains(a.target_cluster_id@)
            &&& allowed.source_cluster_id matches Some(source) ==> source@ != a.target_cluster_id@
            &&& reads.forbidden matches Some(Ok(bad)) && bad@.len() == 0
            &&& reads.coverage matches Some(Ok(_))
            &&& reads.source_glob matches Some(None)
            &&& reads.target_glob matches Some(None)
            &&& spec.sample.anchor == Anchor::Head
            &&& reads.topics matches Some(Ok(_))
            &&& exists|n: int|
                0 <= n < topics.len() && (#[trigger] topics[n]).name@ == spec.target.marker_topic@
                    && topics[n].error is None
            &&& 0 <= i < spec.source.topics@.len() ==> {
                let target = spec.target.topic_mapping_prefix@ + spec.source.topics@[i]@;
                &&& 0 <= j < topics.len() ==> topics[j].name@ != target
                &&& !occurs(spec.source.topics@[i]@, "${"@)
                &&& !occurs(target, "${"@)
                &&& a.topic_mapping@.contains((spec.source.topics@[i]@, target))
            }
            &&& a.topic_mapping_prefix@ == spec.target.topic_mapping_prefix@
            &&& reads.broker_configs matches Some(Ok(_))
            &&& a.topic_preflight.timestamp_bound_ms == bound_of(broker)
            &&& lookup(broker, "log.message.timestamp.type"@) matches Some(v)
                ==> a.topic_preflight.timestamp_type@ == v
            &&& lookup(broker, "log.message.timestamp.type"@) is None
                ==> a.topic_preflight.timestamp_type@ == "CreateTime"@
            &&& lookup(broker, "log.retention.ms"@) matches Some(v)
                ==> a.topic_preflight.retention_ms@ == v
            &&& pairs(a.topic_preflight.configs_set@) == pairs(rules.pinned_configs@)
            &&& a.topic_preflight.topics_created@.len() == 0
            &&& bound_of(broker) matches Some(bound) ==> {
                let end = match spec.point_in_time {
                    Some(t) => millis_of(t@),
                    None => millis_of(spec.sample.window_end@),
                };
                &&& reads.now is Some
                &&& end >= millis_of(reads.now->0@) - bound || end >= i64::MAX
            }
            &&& lookup(broker, "log.message.timestamp.type"@) == Some("LogAppendTime"@)
                && mapping.len() > 0 ==> {
                &&& reads.probe_configs matches Some(Ok(configs))
                &&& lookup(configs@, "message.timestamp.type"@) matches Some(effective)
                &&& effective != "LogAppendTime"@
                &&& reads.probe_deleted matches Some(Ok(gone))
                &&& 0 <= j < gone@.len() ==> gone@[j].1 is Ok
            }
        }),
{
    let topics = reads.topics->0->Ok_0@;
    let targets = values_of(mapping);
    let marker = spec.target.marker_topic@;
    the_first_listing(topics, marker);
    every_present_target_is_seen(targets, topics);
    every_expansion_is_seen(keys_of(mapping));
    every_expansion_is_seen(targets);
    if 0 <= i < spec.source.topics@.len() {
        every_topic_is_mapped_behind_the_prefix(mapping, spec, i, -1);
        let name = spec.source.topics@[i]@;
        let target = spec.target.topic_mapping_prefix@ + name;
        let k = choose|k: int| 0 <= k < mapping.len() && mapping[k] == (name, target);
        assert(keys_of(mapping)[k] == name);
        assert(targets[k] == target);
        assert(!lists(topics, targets[k]));
    }
    if let Some(Ok(gone)) = reads.probe_deleted {
        every_failure_is_seen(gone@);
    }
    assert(targets.len() == mapping.len());
}

/// Of a trial on a broker that stamps records itself, the answer is the
/// broker's: it goes on exactly where the topic was created and deleted and kept
/// the setting that it was given.
pub proof fn the_broker_decides_the_trial(
    r: PreflightStep,
    broker: Seq<(Seq<char>, Seq<char>)>,
    targets: Seq<Seq<char>>,
    replication_factor: i16,
    pinned: Seq<(String, String)>,
    reads: AdmitReads,
)
    requires
        trial_is(r, broker, targets, replication_factor, pinned, reads),
        lookup(broker, "log.message.timestamp.type"@) == Some("LogAppendTime"@),
        targets.len() > 0,
        reads.probe_created matches Some(Ok(_)),
        reads.probe_configs matches Some(Ok(_)),
        reads.probe_deleted matches Some(Ok(_)),
    ensures
        r is Done,
        r->Done_0 is Ok <==> {
            let created = reads.probe_created->0->Ok_0@;
            let deleted = reads.probe_deleted->0->Ok_0@;
            let kept = lookup(reads.probe_configs->0->Ok_0@, "message.timestamp.type"@);
            &&& forall|i: int| 0 <= i < created.len() ==> (#[trigger] created[i]).1 is Ok
            &&& forall|i: int| 0 <= i < deleted.len() ==> (#[trigger] deleted[i]).1 is Ok
            &&& kept is Some
            &&& kept != Some("LogAppendTime"@)
        },
{
    every_failure_is_seen(reads.probe_created->0->Ok_0@);
    every_failure_is_seen(reads.probe_deleted->0->Ok_0@);
}

/// A plan that breaks no rule is not refused, on a cluster that is allowed, with
/// its marker topic and without the target topics, whose broker keeps the
/// timestamps that it is given and goes far enough back.
pub proof fn what_is_safe_is_not_refused(
    r: AdmitStep,
    spec: DrillSpec,
    allowed: AllowedClusters,
    rules: TargetRules,
    mapping: Seq<(Seq<char>, Seq<char>)>,
    reads: AdmitReads,
    healthy: int,
)
    requires
        admit_is(r, spec, allowed, rules, mapping, reads),
        is_plan_mapping(mapping, spec),
        reads.forbidden matches Some(answer) ==> answer matches Ok(bad) && bad@.len() == 0,
        reads.coverage matches Some(answer) ==> answer is Ok,
        reads.source_glob matches Some(found) ==> found is None,
        reads.target_glob matches Some(found) ==> found is None,
        spec.sample.anchor == Anchor::Head,
        forall|i: int|
            0 <= i < spec.source.topics@.len() ==> !occurs(
                (#[trigger] spec.source.topics@[i])@,
                "${"@,
            ) && !occurs(
                spec.target.topic_mapping_prefix@ + spec.source.topics@[i]@,
                "${"@,
            ),
        reads.cluster_id matches Some(answer) ==> answer matches Ok(id) && texts(
            allowed.allowed_cluster_ids@,
        ).contains(id@) && (allowed.source_cluster_id matches Some(source) ==> source@ != id@),
        reads.topics matches Some(answer) ==> {
            &&& answer matches Ok(topics)
            &&& 0 <= healthy < topics@.len()
            &&& topics@[healthy].name@ == spec.target.marker_topic@
            &&& topics@[healthy].error is None
            &&& forall|i: int|
                0 <= i < healthy ==> (#[trigger] topics@[i]).name@ != spec.target.marker_topic@
            &&& forall|i: int, j: int|
                0 <= i < spec.source.topics@.len() && 0 <= j < topics@.len() ==> (
                #[trigger] topics@[j]).name@ != spec.target.topic_mapping_prefix@ + (
                #[trigger] spec.source.topics@[i])@
        },
        reads.broker_configs matches Some(answer) ==> {
            &&& answer matches Ok(broker)
            &&& lookup(broker@, "log.message.timestamp.type"@) != Some("LogAppendTime"@)
            &&& bound_of(broker@) matches Some(bound) ==> (reads.now matches Some(now) ==> {
                let end = match spec.point_in_time {
                    Some(t) => millis_of(t@),
                    None => millis_of(spec.sample.window_end@),
                };
                end >= millis_of(now@) - bound && end >= i64::MIN
            })
        },
    ensures
        !(r matches Step::Done(Err(_))),
{
    let sources = keys_of(mapping);
    let targets = values_of(mapping);
    every_expansion_is_seen(sources);
    every_expansion_is_seen(targets);
    assert forall|k: int| 0 <= k < mapping.len() implies !occurs(#[trigger] sources[k], "${"@)
        && !occurs(targets[k], "${"@) by {
        every_topic_is_mapped_behind_the_prefix(mapping, spec, -1, k);
        let i = choose|i: int|
            0 <= i < texts(spec.source.topics@).len() && texts(spec.source.topics@)[i]
                == mapping[k].0;
        assert(spec.source.topics@[i]@ == mapping[k].0);
    }
    assert forall|k: int| 0 <= k < mapping.len() implies !occurs(#[trigger] targets[k], "${"@) by {
        assert(!occurs(sources[k], "${"@));
    }
    if let Some(Ok(topics)) = reads.topics {
        every_present_target_is_seen(targets, topics@);
        the_first_listing(topics@, spec.target.marker_topic@);
        assert forall|k: int| 0 <= k < mapping.len() implies !lists(
            topics@,
            #[trigger] targets[k],
        ) by {
            every_topic_is_mapped_behind_the_prefix(mapping, spec, -1, k);
            let i = choose|i: int|
                0 <= i < texts(spec.source.topics@).len() && texts(spec.source.topics@)[i]
                    == mapping[k].0;
            assert(spec.source.topics@[i]@ == mapping[k].0);
        }
        let t = first_listed(topics@, spec.target.marker_topic@)->0;
        assert(topics@[healthy].name@ == spec.target.marker_topic@);
        let n = choose|n: int|
            0 <= n < topics@.len() && #[trigger] topics@[n] == t && t.name@
                == spec.target.marker_topic@ && forall|j: int|
                0 <= j < n ==> (#[trigger] topics@[j]).name@ != spec.target.marker_topic@;
        assert(n == healthy);
    }
    reveal_strlit("CreateTime");
    reveal_strlit("LogAppendTime");
    assert("CreateTime"@.len() != "LogAppendTime"@.len());
}

/// The topics that are noted as created are those that were, up to the first
/// that was not.
pub proof fn what_was_created_is_noted(results: Seq<(String, Result<(), String>)>, i: int)
    ensures
        created_names(results).len() <= results.len(),
        0 <= i < created_names(results).len() ==> created_names(results)[i] == results[i].0@
            && results[i].1 is Ok,
        created_names(results).len() < results.len() ==> results[created_names(
            results,
        ).len() as int].1 is Err,
        first_failure(results) is None <==> created_names(results).len() == results.len(),
    decreases results.len(),
{
    if results.len() > 0 {
        let rest = results.drop_last();
        what_was_created_is_noted(rest, i);
        every_failure_is_seen(results);
        every_failure_is_seen(rest);
        let n = created_names(rest).len() as int;
        if n < rest.len() {
            assert(rest[n] == results[n]);
        }
        if 0 <= i < rest.len() {
            assert(rest[i] == results[i]);
        }
        if first_failure(rest) is Some {
            assert(first_failure(results) is Some);
        }
        assert(results[results.len() - 1] == results.last());
    }
}

/// A refusal names everything that is wrong of its kind: every key that is
/// forbidden, and every target topic that is there already.
pub proof fn a_refusal_names_what_is_wrong(keys: Seq<Seq<char>>, id: Seq<char>, i: int)
    requires
        0 <= i < keys.len(),
    ensures
        occurs(forbidden_text(keys), keys[i]),
        occurs(present_text(id, keys), "`"@ + keys[i] + "`"@),
{
    a_piece_is_found_again(keys, ", "@, i);
    let opening = "forbidden key(s) present in the drill spec, at any value: "@;
    let told = joined(keys, ", "@);
    let whole = forbidden_text(keys);
    let rest = whole.skip((opening.len() + told.len()) as int);
    found_within(opening, told, rest, keys[i]);
    assert(opening + told + rest =~= whole);
    let ticks = all_ticked(keys);
    a_piece_is_found_again(ticks, ", "@, i);
    let start = "mapped target topic(s) already exist on cluster "@ + id + ": "@;
    let list = joined(ticks, ", "@);
    let text = present_text(id, keys);
    let after = text.skip((start.len() + list.len()) as int);
    found_within(start, list, after, ticks[i]);
    assert(start + list + after =~= text);
}

/// The targets that are there already are those that are listed, and each of
/// them is told.
pub proof fn every_target_that_is_there_is_told(
    targets: Seq<Seq<char>>,
    topics: Seq<TopicMeta>,
    name: Seq<char>,
)
    ensures
        present_targets(targets, topics).contains(name) <==> targets.contains(name) && exists|j: int|
            0 <= j < topics.len() && (#[trigger] topics[j]).name@ == name,
    decreases targets.len(),
{
    let all = present_targets(targets, topics);
    if targets.len() > 0 {
        let rest = targets.drop_last();
        every_target_that_is_there_is_told(rest, topics, name);
        let was = present_targets(rest, topics);
        assert(targets[targets.len() - 1] == targets.last());
        if was.contains(name) {
            let k = choose|k: int| 0 <= k < was.len() && was[k] == name;
            assert(all[k] == name);
            let i = choose|i: int| 0 <= i < rest.len() && rest[i] == name;
            assert(targets[i] == name);
        }
        if all.contains(name) {
            let k = choose|k: int| 0 <= k < all.len() && all[k] == name;
            if k < was.len() {
                assert(was[k] == name);
            }
        }
        if targets.contains(name) && lists(topics, name) {
            let i = choose|i: int| 0 <= i < targets.len() && targets[i] == name;
            if i < rest.len() {
                assert(rest[i] == name);
            } else {
                assert(all[all.len() - 1] == name);
            }
        }
    }
}

/// The oldest instant that a broker accepts is its bound before now, as far as
/// that can be held.
pub proof fn the_oldest_accepted_instant_is_the_bound_before_now(now: int, bound: int)
    ensures
        i64::MIN <= now - bound <= i64::MAX ==> held_difference(now, bound) == now - bound,
        i64::MIN <= held_difference(now, bound) <= i64::MAX,
        now - bound > i64::MAX ==> held_difference(now, bound) == i64::MAX,
        now - bound < i64::MIN ==> held_difference(now, bound) == i64::MIN,
{
}

/// What is created for a trial is the first target, with one partition and with
/// what every target is created with; and what is read and deleted is that topic.
pub proof fn a_trial_is_of_the_first_target(
    r: PreflightStep,
    broker: Seq<(Seq<char>, Seq<char>)>,
    targets: Seq<Seq<char>>,
    replication_factor: i16,
    pinned: Seq<(String, String)>,
    reads: AdmitReads,
)
    requires
        trial_is(r, broker, targets, replication_factor, pinned, reads),
    ensures
        r is Ask ==> targets.len() > 0 && lookup(broker, "log.message.timestamp.type"@) == Some(
            "LogAppendTime"@,
        ),
        r matches Step::Ask(AdmitQuestion::CreateProbe(topic)) ==> {
            &&& topic.name@ == targets[0]
            &&& topic.num_partitions == 1
            &&& topic.replication_factor == replication_factor
            &&& pairs(topic.configs@) == pairs(pinned)
        },
        r matches Step::Ask(AdmitQuestion::ProbeConfigs(name)) ==> name@ == targets[0],
        r matches Step::Ask(AdmitQuestion::DeleteProbe(name)) ==> name@ == targets[0],
{
    reveal_strlit("CreateTime");
    reveal_strlit("LogAppendTime");
    assert("CreateTime"@.len() != "LogAppendTime"@.len());
}

} // verus!
