//! Admitting a plan: what has to hold of the plan and of the target cluster
//! before anything is restored.
//!
//! The local checks come first, so that a refusal of the plan needs no broker.
//! A broker that cannot be read is a failure of the run and never a refusal.
use vstd::prelude::*;
use crate::clock::{millis_of, Moment, Timestamp};
use crate::drill::error::{refuse, DrillError, ErrorModel, GuardRefusal, KafkaError};
use crate::drill::facts::{BackupSetFacts, NewTopicSpec, TopicFacts, TopicMeta};
use crate::drill::phase3_diff::{
    mapped, mapped_grows, partitions_fit, partitions_wanted, restore_partition_count,
};
use crate::drill::spec::{window_end_of, AllowedClusters, Anchor, DrillSpec};
use crate::drill::step::Step;
use crate::text::{
    contains, decimal_int, i64_text, join, joined, occurs, parse_i64, spelled_i64, texts, trim,
    trimmed,
};
use crate::textmap::{as_map, keys_ascend, keys_of, lookup, values_of, TextMap};

verus! {

/// What the target broker reported, and what is set on every target topic.
#[derive(Debug)]
pub struct TopicPreflight {
    /// The broker's `log.message.timestamp.type`.
    pub timestamp_type: String,
    /// The broker's `log.retention.ms`, as reported.
    pub retention_ms: String,
    /// How far in the past a record's timestamp may be, where the broker bounds
    /// it.
    pub timestamp_bound_ms: Option<i64>,
    /// The settings of every target topic, in order.
    pub configs_set: Vec<(String, String)>,
    /// The target topics that this run created, in the order in which the
    /// broker confirmed them.
    pub topics_created: Vec<String>,
}

/// A plan that was admitted.
#[derive(Debug)]
pub struct Admitted {
    pub target_cluster_id: String,
    pub topic_mapping: TextMap,
    pub topic_mapping_prefix: String,
    pub topic_preflight: TopicPreflight,
}

/// What the cluster's client library and the plan's guard fix.
#[derive(Debug)]
pub struct TargetRules {
    /// The characters that make a topic's name a pattern.
    pub glob_metacharacters: String,
    /// The settings of every target topic, in order.
    pub pinned_configs: Vec<(String, String)>,
}

/// What creating or deleting topics came to, topic by topic.
pub type PerTopic = Vec<(String, Result<(), String>)>;

/// What has been found out so far.
#[derive(Debug)]
pub struct AdmitReads {
    /// The forbidden keys in the plan's text.
    pub forbidden: Option<Result<Vec<String>, GuardRefusal>>,
    /// Whether every selected topic is mapped.
    pub coverage: Option<Result<(), GuardRefusal>>,
    /// The first source topic that is a pattern.
    pub source_glob: Option<Option<String>>,
    /// The first target topic that is a pattern.
    pub target_glob: Option<Option<String>>,
    pub cluster_id: Option<Result<String, KafkaError>>,
    pub topics: Option<Result<Vec<TopicMeta>, KafkaError>>,
    pub broker_configs: Option<Result<TextMap, KafkaError>>,
    pub now: Option<Timestamp>,
    pub probe_created: Option<Result<PerTopic, KafkaError>>,
    pub probe_configs: Option<Result<TextMap, KafkaError>>,
    pub probe_deleted: Option<Result<PerTopic, KafkaError>>,
}

/// What has to be found out.
#[derive(Debug)]
pub enum AdmitQuestion {
    /// Which forbidden keys the plan's text holds.
    ForbiddenKeys,
    /// Whether every selected topic is mapped.
    MappingCoverage,
    /// The first of the source topics that is a pattern.
    SourceGlob,
    /// The first of the target topics that is a pattern.
    TargetGlob,
    ClusterId,
    Topics,
    BrokerConfigs,
    Now,
    /// Create this one topic.
    CreateProbe(NewTopicSpec),
    /// The settings of the topic just created.
    ProbeConfigs(String),
    /// Delete the topic just created.
    DeleteProbe(String),
}

/// What an admission comes to so far.
pub type AdmitStep = Step<AdmitQuestion, Result<Admitted, DrillError>>;

/// The mapping of a plan: each source topic to the same name behind the prefix.
pub open spec fn planned(topics: Seq<String>, prefix: Seq<char>) -> Map<Seq<char>, Seq<char>>
    decreases topics.len(),
{
    if topics.len() == 0 {
        Map::empty()
    } else {
        planned(topics.drop_last(), prefix).insert(
            topics.last()@,
            prefix + topics.last()@,
        )
    }
}

/// Maps each source topic to the same name behind the prefix.
pub fn topic_mapping(topics: &Vec<String>, prefix: &str) -> (r: TextMap)
    ensures
        as_map(r@) == planned(topics@, prefix@),
        keys_ascend(r@),
{
    let mut out = TextMap::new();
    let mut i: usize = 0;
    proof {
        assert(topics@.take(0) =~= Seq::empty());
        assert(as_map(out@) =~= Map::empty());
    }
    while i < topics.len()
        invariant
            0 <= i <= topics.len(),
            as_map(out@) == planned(topics@.take(i as int), prefix@),
            keys_ascend(out@),
        decreases topics.len() - i,
    {
        proof {
            assert(topics@.take(i + 1).drop_last() =~= topics@.take(i as int));
        }
        let mut target = prefix.to_owned();
        target.append(topics[i].as_str());
        out.insert(topics[i].clone(), target);
        i += 1;
    }
    proof {
        assert(topics@.take(topics.len() as int) =~= topics@);
    }
    out
}

// ---- refusals of the plan alone --------------------------------------------

/// The refusal of a plan with forbidden keys.
pub open spec fn forbidden_text(keys: Seq<Seq<char>>) -> Seq<char> {
    "forbidden key(s) present in the drill spec, at any value: "@ + joined(keys, ", "@)
        + ". purge_topics is irreversible, absent from the engine's dry run, has no confirmation gate and truncates EVERY partition of each target topic regardless of partition or time-window filters; dry_run would make the restore a no-op and the measured RTO meaningless; header_preflight_external would silently disable the header scan the drill depends on."@
}

/// The refusal of a topic whose name the engine would expand.
pub open spec fn expansion_text(side: Seq<char>, entry: Seq<char>) -> Seq<char> {
    side + " `"@ + entry
        + "` contains `${`, which the engine expands textually BEFORE the config is parsed [U:crates/kafka-backup-cli/src/commands/config.rs:1-34], replacing an unset name with the empty string behind nothing but a warning. The document logweir hashes would be a TEMPLATE and the document the engine executes its expansion, so the approved plan_hash would not cover what runs."@
}

/// The refusal of a topic whose name is a pattern.
pub open spec fn glob_text(side: Seq<char>, entry: Seq<char>, metacharacters: Seq<char>) -> Seq<
    char,
> {
    side + " `"@ + entry + "` contains a glob metacharacter (one of "@ + metacharacters
        + "); the engine's TopicSelection treats include entries as GLOB PATTERNS [U/kafka-backup/crates/kafka-backup-core/src/config.rs:334-343], so one named entry would silently widen to a set and the drill would restore topics the approved plan never named. GC18(c) rail 1 is a mandatory named-topic allowlist with no wildcard; if the topic is genuinely called that, this build cannot restore it."@
}

/// The refusal of a sample that is not taken from the head of its window.
pub open spec fn anchor_text(anchor: Seq<char>) -> Seq<char> {
    "sample.anchor `"@ + anchor
        + "` is not supported in v0.1; only `head` is. Phase 7 reconciles the restored topic by reading its FIRST sample.records_per_partition records, while `"@
        + anchor
        + "` selects archive records from elsewhere in the window — the two would compare different records and report a healthy backup as a failure. Set `sample.anchor: head`, or omit the field (that is now its default). Refusing rather than silently sampling `head` under a plan that asked for `"@
        + anchor + "`."@
}

fn forbidden_refusal(keys: &Vec<String>) -> (r: DrillError)
    ensures
        r@ == ErrorModel::Guard(forbidden_text(texts(keys@))),
{
    let mut m = "forbidden key(s) present in the drill spec, at any value: ".to_owned();
    m.append(join(keys, ", ").as_str());
    m.append(
        ". purge_topics is irreversible, absent from the engine's dry run, has no confirmation gate and truncates EVERY partition of each target topic regardless of partition or time-window filters; dry_run would make the restore a no-op and the measured RTO meaningless; header_preflight_external would silently disable the header scan the drill depends on.",
    );
    refuse(m)
}

fn expansion_refusal(side: &str, entry: &str) -> (r: DrillError)
    ensures
        r@ == ErrorModel::Guard(expansion_text(side@, entry@)),
{
    let mut m = side.to_owned();
    m.append(" `");
    m.append(entry);
    m.append(
        "` contains `${`, which the engine expands textually BEFORE the config is parsed [U:crates/kafka-backup-cli/src/commands/config.rs:1-34], replacing an unset name with the empty string behind nothing but a warning. The document logweir hashes would be a TEMPLATE and the document the engine executes its expansion, so the approved plan_hash would not cover what runs.",
    );
    refuse(m)
}

fn glob_refusal(side: &str, entry: &str, metacharacters: &str) -> (r: DrillError)
    ensures
        r@ == ErrorModel::Guard(glob_text(side@, entry@, metacharacters@)),
{
    let mut m = side.to_owned();
    m.append(" `");
    m.append(entry);
    m.append("` contains a glob metacharacter (one of ");
    m.append(metacharacters);
    m.append(
        "); the engine's TopicSelection treats include entries as GLOB PATTERNS [U/kafka-backup/crates/kafka-backup-core/src/config.rs:334-343], so one named entry would silently widen to a set and the drill would restore topics the approved plan never named. GC18(c) rail 1 is a mandatory named-topic allowlist with no wildcard; if the topic is genuinely called that, this build cannot restore it.",
    );
    refuse(m)
}

fn anchor_refusal(anchor: Anchor) -> (r: DrillError)
    ensures
        r@ == ErrorModel::Guard(anchor_text(anchor.name())),
{
    let mut m = "sample.anchor `".to_owned();
    m.append(anchor.as_str());
    m.append(
        "` is not supported in v0.1; only `head` is. Phase 7 reconciles the restored topic by reading its FIRST sample.records_per_partition records, while `",
    );
    m.append(anchor.as_str());
    m.append(
        "` selects archive records from elsewhere in the window — the two would compare different records and report a healthy backup as a failure. Set `sample.anchor: head`, or omit the field (that is now its default). Refusing rather than silently sampling `head` under a plan that asked for `",
    );
    m.append(anchor.as_str());
    m.append("`.");
    refuse(m)
}

/// The first name that the engine would expand.
pub open spec fn first_expansion(names: Seq<Seq<char>>) -> Option<Seq<char>>
    decreases names.len(),
{
    if names.len() == 0 {
        None
    } else {
        match first_expansion(names.drop_last()) {
            Some(n) => Some(n),
            None => if occurs(names.last(), "${"@) {
                Some(names.last())
            } else {
                None
            },
        }
    }
}

/// A name found among the first names is the first found among all.
proof fn first_expansion_stays(names: Seq<Seq<char>>, n: int)
    requires
        0 <= n <= names.len(),
        first_expansion(names.take(n)) is Some,
    ensures
        first_expansion(names) == first_expansion(names.take(n)),
    decreases names.len() - n,
{
    if n < names.len() {
        assert(names.take(n + 1).drop_last() =~= names.take(n));
        first_expansion_stays(names, n + 1);
    } else {
        assert(names.take(n) =~= names);
    }
}

/// The first name that the engine would expand, among a mapping's keys or its
/// values.
fn find_expansion(mapping: &TextMap, keys: bool) -> (r: Option<usize>)
    ensures
        ({
            let names = if keys {
                keys_of(mapping@)
            } else {
                values_of(mapping@)
            };
            match r {
                Some(i) => i < mapping@.len() && first_expansion(names) == Some(names[i as int]),
                None => first_expansion(names) is None,
            }
        }),
{
    let ghost names = if keys {
        keys_of(mapping@)
    } else {
        values_of(mapping@)
    };
    let n: usize = mapping.len();
    let mut i: usize = 0;
    proof {
        assert(names.take(0) =~= Seq::empty());
    }
    while i < n
        invariant
            0 <= i <= n == mapping@.len(),
            names.len() == n,
            names == if keys {
                keys_of(mapping@)
            } else {
                values_of(mapping@)
            },
            first_expansion(names.take(i as int)) is None,
        decreases n - i,
    {
        let name = if keys {
            mapping.key(i)
        } else {
            mapping.value(i)
        };
        proof {
            assert(names.take(i + 1).drop_last() =~= names.take(i as int));
            assert(names.take(i + 1).last() == name@);
        }
        if contains(name, "${") {
            proof {
                first_expansion_stays(names, i + 1);
            }
            return Some(i);
        }
        i += 1;
    }
    proof {
        assert(names.take(n as int) =~= names);
    }
    None
}


// ---- refusals of the target cluster ----------------------------------------

/// The refusal of a cluster that may not be written to.
pub open spec fn not_allowed_text(id: Seq<char>) -> Seq<char> {
    "target cluster id "@ + id + " is not in allowedClusterIds"@
}

/// The refusal of the source cluster itself.
pub open spec fn is_source_text(id: Seq<char>) -> Seq<char> {
    "target cluster id "@ + id + " equals the source cluster id"@
}

/// The refusal of a marker topic that is not healthy.
pub open spec fn marker_errored_text(marker: Seq<char>, id: Seq<char>, error: Seq<char>) -> Seq<
    char,
> {
    "marker topic `"@ + marker + "` exists on cluster "@ + id
        + " but its metadata carried an error, so its presence cannot be confirmed healthy: "@
        + error
        + ". Its existence is the v0.1 segregation proof — recreate it healthy on the SCRATCH cluster only."@
}

/// The refusal of a cluster without the marker topic.
pub open spec fn marker_missing_text(marker: Seq<char>, id: Seq<char>) -> Seq<char> {
    "marker topic `"@ + marker + "` does not exist on cluster "@ + id
        + ". Create it on the SCRATCH cluster only — its existence is the v0.1 segregation proof."@
}

/// A name between backticks.
pub open spec fn ticked(name: Seq<char>) -> Seq<char> {
    "`"@ + name + "`"@
}

/// The names between backticks.
pub open spec fn all_ticked(names: Seq<Seq<char>>) -> Seq<Seq<char>> {
    Seq::new(names.len(), |i: int| ticked(names[i]))
}

/// The refusal of target topics that exist.
pub open spec fn present_text(id: Seq<char>, present: Seq<Seq<char>>) -> Seq<char> {
    "mapped target topic(s) already exist on cluster "@ + id + ": "@ + joined(
        all_ticked(present),
        ", "@,
    )
        + ". A restore appends into them, so the drill would reconcile the archive against records it did not write, and their message.timestamp.type and retention.ms are whatever they were created with — this build sets the pinned pair by CREATING each target and cannot alter an existing one. Delete them on the SCRATCH cluster, or restore under a target.topic_mapping_prefix nothing has used yet."@
}

/// The cluster has a topic of that name.
pub open spec fn lists(topics: Seq<TopicMeta>, name: Seq<char>) -> bool {
    exists|i: int| 0 <= i < topics.len() && (#[trigger] topics[i]).name@ == name
}

/// The first topic of that name in the cluster's list.
pub open spec fn first_listed(topics: Seq<TopicMeta>, name: Seq<char>) -> Option<TopicMeta>
    decreases topics.len(),
{
    if topics.len() == 0 {
        None
    } else {
        match first_listed(topics.drop_last(), name) {
            Some(t) => Some(t),
            None => if topics.last().name@ == name {
                Some(topics.last())
            } else {
                None
            },
        }
    }
}

/// A topic found among the first topics is the first found among all.
proof fn first_listed_stays(topics: Seq<TopicMeta>, n: int, name: Seq<char>)
    requires
        0 <= n <= topics.len(),
        first_listed(topics.take(n), name) is Some,
    ensures
        first_listed(topics, name) == first_listed(topics.take(n), name),
    decreases topics.len() - n,
{
    if n < topics.len() {
        assert(topics.take(n + 1).drop_last() =~= topics.take(n));
        first_listed_stays(topics, n + 1, name);
    } else {
        assert(topics.take(n) =~= topics);
    }
}

/// Finds the first topic of that name in the cluster's list.
pub fn find_listed(topics: &Vec<TopicMeta>, name: &str) -> (r: Option<usize>)
    ensures
        match r {
            Some(i) => i < topics.len() && topics@[i as int].name@ == name@ && first_listed(
                topics@,
                name@,
            ) == Some(topics@[i as int]),
            None => first_listed(topics@, name@) is None,
        },
        r is Some <==> lists(topics@, name@),
{
    let wanted = name.to_owned();
    let mut i: usize = 0;
    proof {
        assert(topics@.take(0) =~= Seq::empty());
    }
    while i < topics.len()
        invariant
            0 <= i <= topics.len(),
            wanted@ == name@,
            first_listed(topics@.take(i as int), name@) is None,
            forall|j: int| 0 <= j < i ==> (#[trigger] topics@[j]).name@ != name@,
        decreases topics.len() - i,
    {
        proof {
            assert(topics@.take(i + 1).drop_last() =~= topics@.take(i as int));
            assert(topics@.take(i + 1).last() == topics@[i as int]);
        }
        if topics[i].name == wanted {
            proof {
                first_listed_stays(topics@, i + 1, name@);
            }
            return Some(i);
        }
        i += 1;
    }
    proof {
        assert(topics@.take(topics.len() as int) =~= topics@);
    }
    None
}

/// The target topics that exist, in the order of their sources.
pub open spec fn present_targets(targets: Seq<Seq<char>>, topics: Seq<TopicMeta>) -> Seq<Seq<char>>
    decreases targets.len(),
{
    if targets.len() == 0 {
        Seq::empty()
    } else if lists(topics, targets.last()) {
        present_targets(targets.drop_last(), topics).push(targets.last())
    } else {
        present_targets(targets.drop_last(), topics)
    }
}

/// Whether the cluster may be written to: the refusal, where it may not.
pub open spec fn cluster_refusal(allowed: AllowedClusters, id: Seq<char>) -> Option<Seq<char>> {
    if !texts(allowed.allowed_cluster_ids@).contains(id) {
        Some(not_allowed_text(id))
    } else if allowed.source_cluster_id is Some && allowed.source_cluster_id->0@ == id {
        Some(is_source_text(id))
    } else {
        None
    }
}

/// Whether the cluster's topics let the restore begin: the refusal, where they
/// do not.
pub open spec fn topics_refusal(
    marker: Seq<char>,
    id: Seq<char>,
    targets: Seq<Seq<char>>,
    topics: Seq<TopicMeta>,
) -> Option<Seq<char>> {
    match first_listed(topics, marker) {
        None => Some(marker_missing_text(marker, id)),
        Some(t) => match t.error {
            Some(e) => Some(marker_errored_text(marker, id, e@)),
            None => if present_targets(targets, topics).len() > 0 {
                Some(present_text(id, present_targets(targets, topics)))
            } else {
                None
            },
        },
    }
}

/// Refuses a cluster that may not be written to.
pub fn check_cluster(allowed: &AllowedClusters, id: &str) -> (r: Result<(), DrillError>)
    ensures
        match cluster_refusal(*allowed, id@) {
            Some(m) => r matches Err(e) && e@ == ErrorModel::Guard(m),
            None => r is Ok,
        },
{
    let mine = id.to_owned();
    let mut found: bool = false;
    let mut i: usize = 0;
    let ghost ids = texts(allowed.allowed_cluster_ids@);
    while i < allowed.allowed_cluster_ids.len()
        invariant
            0 <= i <= allowed.allowed_cluster_ids.len(),
            ids == texts(allowed.allowed_cluster_ids@),
            mine@ == id@,
            found <==> exists|j: int| 0 <= j < i && ids[j] == id@,
        decreases allowed.allowed_cluster_ids.len() - i,
    {
        if allowed.allowed_cluster_ids[i] == mine {
            proof {
                assert(ids[i as int] == id@);
            }
            found = true;
        }
        i += 1;
    }
    proof {
        assert(found <==> ids.contains(id@));
    }
    if !found {
        let mut m = "target cluster id ".to_owned();
        m.append(id);
        m.append(" is not in allowedClusterIds");
        return Err(refuse(m));
    }
    if let Some(source) = &allowed.source_cluster_id {
        if *source == mine {
            let mut m = "target cluster id ".to_owned();
            m.append(id);
            m.append(" equals the source cluster id");
            return Err(refuse(m));
        }
    }
    Ok(())
}

/// Refuses a cluster without a healthy marker topic, or with a target topic on
/// it.
pub fn check_topics(marker: &str, id: &str, mapping: &TextMap, topics: &Vec<TopicMeta>) -> (r:
    Result<(), DrillError>)
    ensures
        match topics_refusal(marker@, id@, values_of(mapping@), topics@) {
            Some(m) => r matches Err(e) && e@ == ErrorModel::Guard(m),
            None => r is Ok,
        },
{
    match find_listed(topics, marker) {
        None => {
            let mut m = "marker topic `".to_owned();
            m.append(marker);
            m.append("` does not exist on cluster ");
            m.append(id);
            m.append(
                ". Create it on the SCRATCH cluster only — its existence is the v0.1 segregation proof.",
            );
            return Err(refuse(m));
        },
        Some(at) => {
            if let Some(error) = &topics[at].error {
                let mut m = "marker topic `".to_owned();
                m.append(marker);
                m.append("` exists on cluster ");
                m.append(id);
                m.append(
                    " but its metadata carried an error, so its presence cannot be confirmed healthy: ",
                );
                m.append(error.as_str());
                m.append(
                    ". Its existence is the v0.1 segregation proof — recreate it healthy on the SCRATCH cluster only.",
                );
                return Err(refuse(m));
            }
        },
    }
    let ghost targets = values_of(mapping@);
    let mut present: Vec<String> = Vec::new();
    let ghost mut names: Seq<Seq<char>> = Seq::empty();
    let n: usize = mapping.len();
    let mut i: usize = 0;
    proof {
        assert(targets.take(0) =~= Seq::empty());
    }
    while i < n
        invariant
            0 <= i <= n == mapping@.len(),
            targets == values_of(mapping@),
            names == present_targets(targets.take(i as int), topics@),
            texts(present@) == all_ticked(names),
        decreases n - i,
    {
        let name = mapping.value(i);
        proof {
            assert(targets.take(i + 1).drop_last() =~= targets.take(i as int));
            assert(targets.take(i + 1).last() == name@);
        }
        if find_listed(topics, name).is_some() {
            let mut t = "`".to_owned();
            t.append(name);
            t.append("`");
            let ghost before = texts(present@);
            present.push(t);
            proof {
                assert(texts(present@) =~= before.push(ticked(name@)));
                assert(all_ticked(names.push(name@)) =~= before.push(ticked(name@)));
                names = names.push(name@);
            }
        }
        i += 1;
    }
    proof {
        assert(targets.take(n as int) =~= targets);
        assert(texts(present@).len() == present@.len());
    }
    if present.len() > 0 {
        let mut m = "mapped target topic(s) already exist on cluster ".to_owned();
        m.append(id);
        m.append(": ");
        m.append(join(&present, ", ").as_str());
        m.append(
            ". A restore appends into them, so the drill would reconcile the archive against records it did not write, and their message.timestamp.type and retention.ms are whatever they were created with — this build sets the pinned pair by CREATING each target and cannot alter an existing one. Delete them on the SCRATCH cluster, or restore under a target.topic_mapping_prefix nothing has used yet.",
        );
        return Err(refuse(m));
    }
    Ok(())
}


// ---- the target broker's settings ------------------------------------------

/// The texts of pairs.
pub open spec fn pairs(v: Seq<(String, String)>) -> Seq<(Seq<char>, Seq<char>)> {
    Seq::new(v.len(), |i: int| (v[i].0@, v[i].1@))
}

/// Copies pairs of texts.
pub fn copy_pairs(v: &Vec<(String, String)>) -> (r: Vec<(String, String)>)
    ensures
        pairs(r@) == pairs(v@),
{
    let mut out: Vec<(String, String)> = Vec::new();
    let mut i: usize = 0;
    while i < v.len()
        invariant
            0 <= i <= v.len(),
            out.len() == i,
            forall|j: int|
                0 <= j < i ==> (#[trigger] out@[j]).0@ == v@[j].0@ && out@[j].1@ == v@[j].1@,
        decreases v.len() - i,
    {
        out.push((v[i].0.clone(), v[i].1.clone()));
        i += 1;
    }
    proof {
        assert(pairs(out@) =~= pairs(v@));
    }
    out
}

/// A setting of the broker, or a default.
pub open spec fn setting_or(
    broker: Seq<(Seq<char>, Seq<char>)>,
    key: Seq<char>,
    default: Seq<char>,
) -> Seq<char> {
    match lookup(broker, key) {
        Some(v) => v,
        None => default,
    }
}

/// The type of timestamps that the broker keeps.
pub open spec fn timestamp_type_of(broker: Seq<(Seq<char>, Seq<char>)>) -> Seq<char> {
    setting_or(broker, "log.message.timestamp.type"@, "CreateTime"@)
}

/// How far in the past a record's timestamp may be, where the broker bounds it:
/// the newer setting's value where the broker has it, and else the older one's.
pub open spec fn bound_of(broker: Seq<(Seq<char>, Seq<char>)>) -> Option<i64> {
    match lookup(broker, "log.message.timestamp.before.max.ms"@) {
        Some(v) => spelled_i64(trimmed(v)),
        None => match lookup(broker, "log.message.timestamp.difference.max.ms"@) {
            Some(v) => spelled_i64(trimmed(v)),
            None => None,
        },
    }
}

/// What the broker's settings amount to.
pub open spec fn preflight_is(
    p: TopicPreflight,
    broker: Seq<(Seq<char>, Seq<char>)>,
    pinned: Seq<(String, String)>,
) -> bool {
    &&& p.timestamp_type@ == timestamp_type_of(broker)
    &&& p.retention_ms@ == setting_or(broker, "log.retention.ms"@, Seq::empty())
    &&& p.timestamp_bound_ms == bound_of(broker)
    &&& pairs(p.configs_set@) == pairs(pinned)
    &&& p.topics_created@.len() == 0
}

/// Reads a setting of the broker, or a default.
fn setting(broker: &TextMap, key: &str, default: &str) -> (r: String)
    ensures
        r@ == setting_or(broker@, key@, default@),
{
    match broker.get(key) {
        Some(v) => v.to_owned(),
        None => default.to_owned(),
    }
}

/// Reads what the broker's settings amount to.
pub fn read_broker(broker: &TextMap, pinned: &Vec<(String, String)>) -> (r: TopicPreflight)
    ensures
        preflight_is(r, broker@, pinned@),
{
    let bound = match broker.get("log.message.timestamp.before.max.ms") {
        Some(v) => parse_i64(trim(v).as_str()),
        None => match broker.get("log.message.timestamp.difference.max.ms") {
            Some(v) => parse_i64(trim(v).as_str()),
            None => None,
        },
    };
    proof {
        reveal_strlit("");
        assert(""@ =~= Seq::<char>::empty());
    }
    TopicPreflight {
        timestamp_type: setting(broker, "log.message.timestamp.type", "CreateTime"),
        retention_ms: setting(broker, "log.retention.ms", ""),
        timestamp_bound_ms: bound,
        configs_set: copy_pairs(pinned),
        topics_created: Vec::new(),
    }
}

/// The difference of two numbers, held within 64 bits.
pub open spec fn held_difference(a: int, b: int) -> int {
    if a - b > i64::MAX {
        i64::MAX as int
    } else if a - b < i64::MIN {
        i64::MIN as int
    } else {
        a - b
    }
}

/// The oldest timestamp, in milliseconds, that the broker accepts.
pub fn oldest_accepted(now_ms: i64, bound: i64) -> (r: i64)
    ensures
        r == held_difference(now_ms as int, bound as int),
{
    let d: i128 = now_ms as i128 - bound as i128;
    if d > i64::MAX as i128 {
        i64::MAX
    } else if d < i64::MIN as i128 {
        i64::MIN
    } else {
        d as i64
    }
}

/// The opening of a refusal of the target's settings.
pub open spec fn config_refusal(detail: Seq<char>) -> ErrorModel {
    ErrorModel::Guard("TargetTopicConfigRefused: "@ + detail)
}

/// A refusal of the target's settings.
fn target_topic_refusal(detail: String) -> (r: DrillError)
    ensures
        r@ == config_refusal(detail@),
{
    let mut m = "TargetTopicConfigRefused: ".to_owned();
    m.append(detail.as_str());
    refuse(m)
}

/// The refusal of a window that the broker would reject as too old.
pub open spec fn bound_text(bound: int, oldest: int, field: Seq<char>, end_ms: int) -> Seq<char> {
    "the target broker bounds how far in the past a CreateTime record may be ("@ + decimal_int(
        bound,
    ) + " ms, so nothing older than epoch-ms "@ + decimal_int(oldest)
        + " is accepted), and this plan's "@ + field + " is epoch-ms "@ + decimal_int(end_ms)
        + ". The engine produces every restored record with its ORIGINAL timestamp [U:crates/kafka-backup-core/src/kafka/produce.rs:101-104], so the broker would reject the whole window. Raise message.timestamp.before.max.ms (or, before Kafka 3.6, message.timestamp.difference.max.ms) on the target, or restore a more recent window."@
}

fn bound_refusal(bound: i64, oldest: i64, field: &str, end_ms: i64) -> (r: DrillError)
    ensures
        r@ == config_refusal(bound_text(bound as int, oldest as int, field@, end_ms as int)),
{
    let mut m =
        "the target broker bounds how far in the past a CreateTime record may be (".to_owned();
    m.append(i64_text(bound).as_str());
    m.append(" ms, so nothing older than epoch-ms ");
    m.append(i64_text(oldest).as_str());
    m.append(" is accepted), and this plan's ");
    m.append(field);
    m.append(" is epoch-ms ");
    m.append(i64_text(end_ms).as_str());
    m.append(
        ". The engine produces every restored record with its ORIGINAL timestamp [U:crates/kafka-backup-core/src/kafka/produce.rs:101-104], so the broker would reject the whole window. Raise message.timestamp.before.max.ms (or, before Kafka 3.6, message.timestamp.difference.max.ms) on the target, or restore a more recent window.",
    );
    target_topic_refusal(m)
}

/// The first topic that the broker did not create or delete, and why.
pub open spec fn first_failure(results: Seq<(String, Result<(), String>)>) -> Option<
    (Seq<char>, Seq<char>),
>
    decreases results.len(),
{
    if results.len() == 0 {
        None
    } else {
        match first_failure(results.drop_last()) {
            Some(f) => Some(f),
            None => match results.last().1 {
                Err(e) => Some((results.last().0@, e@)),
                Ok(_) => None,
            },
        }
    }
}

/// A failure found among the first topics is the first found among all.
/// Nothing has failed exactly where every answer is a success; and what is
/// named as failed is the first that did, with its reason.
pub proof fn every_failure_is_seen(results: Seq<(String, Result<(), String>)>)
    ensures
        first_failure(results) is None <==> forall|i: int|
            0 <= i < results.len() ==> (#[trigger] results[i]).1 is Ok,
        first_failure(results) matches Some(f) ==> exists|i: int|
            0 <= i < results.len() && (#[trigger] results[i]).1 is Err && results[i].0@ == f.0
                && results[i].1->Err_0@ == f.1 && forall|j: int|
                0 <= j < i ==> (#[trigger] results[j]).1 is Ok,
    decreases results.len(),
{
    if results.len() > 0 {
        let rest = results.drop_last();
        every_failure_is_seen(rest);
        assert(results[results.len() - 1] == results.last());
        assert(forall|i: int| 0 <= i < rest.len() ==> #[trigger] results[i] == rest[i]);
        match first_failure(rest) {
            Some(f) => {
                let i = choose|i: int|
                    0 <= i < rest.len() && (#[trigger] rest[i]).1 is Err && rest[i].0@ == f.0
                        && rest[i].1->Err_0@ == f.1 && forall|j: int|
                        0 <= j < i ==> (#[trigger] rest[j]).1 is Ok;
                assert(results[i] == rest[i]);
                assert forall|j: int| 0 <= j < i implies (#[trigger] results[j]).1 is Ok by {
                    assert(rest[j] == results[j]);
                }
            },
            None => {
                assert forall|j: int| 0 <= j < rest.len() implies (#[trigger] results[j]).1 is Ok by {
                    assert(rest[j] == results[j]);
                }
            },
        }
    }
}

proof fn first_failure_stays(results: Seq<(String, Result<(), String>)>, n: int)
    requires
        0 <= n <= results.len(),
        first_failure(results.take(n)) is Some,
    ensures
        first_failure(results) == first_failure(results.take(n)),
    decreases results.len() - n,
{
    if n < results.len() {
        assert(results.take(n + 1).drop_last() =~= results.take(n));
        first_failure_stays(results, n + 1);
    } else {
        assert(results.take(n) =~= results);
    }
}

/// Finds the first topic that the broker did not create or delete.
fn find_failure(results: &PerTopic) -> (r: Option<(&str, &str)>)
    ensures
        match r {
            Some((name, why)) => first_failure(results@) == Some((name@, why@)),
            None => first_failure(results@) is None,
        },
{
    let mut i: usize = 0;
    proof {
        assert(results@.take(0) =~= Seq::empty());
    }
    while i < results.len()
        invariant
            0 <= i <= results.len(),
            first_failure(results@.take(i as int)) is None,
        decreases results.len() - i,
    {
        proof {
            assert(results@.take(i + 1).drop_last() =~= results@.take(i as int));
            assert(results@.take(i + 1).last() == results@[i as int]);
        }
        if let Err(why) = &results[i].1 {
            proof {
                first_failure_stays(results@, i + 1);
            }
            return Some((results[i].0.as_str(), why.as_str()));
        }
        i += 1;
    }
    proof {
        assert(results@.take(results.len() as int) =~= results@);
    }
    None
}

/// The refusal where the topic for the trial could not be created.
pub open spec fn probe_failed_text(name: Seq<char>, why: Seq<char>) -> Seq<char> {
    "the target broker reports log.message.timestamp.type=LogAppendTime, which overwrites every restored record's timestamp with the restore's wall clock, and the per-topic override could not be tested because creating `"@
        + name + "` failed: "@ + why
}

/// The refusal where the topic of the trial could not be deleted.
pub open spec fn probe_left_text(name: Seq<char>, why: Seq<char>) -> Seq<char> {
    "the LogAppendTime override probe created target topic `"@ + name
        + "` and could not delete it again: "@ + why + ". Delete `"@ + name
        + "` on the target before re-running: it was created with one partition for the probe and is NOT the topic this restore needs."@
}

/// The refusal where the deletion of the trial's topic could not be asked for.
pub open spec fn probe_undeleted_text(name: Seq<char>, why: Seq<char>) -> Seq<char> {
    "the LogAppendTime override probe created target topic `"@ + name
        + "` and the delete call itself failed: "@ + why + ". Delete `"@ + name
        + "` on the target before re-running: it was created with one partition for the probe and is NOT the topic this restore needs."@
}

/// The refusal where the broker does not honour the topic's own setting.
pub open spec fn override_text(name: Seq<char>, effective: Seq<char>) -> Seq<char> {
    "the target broker reports log.message.timestamp.type=LogAppendTime and REFUSED a per-topic message.timestamp.type=CreateTime override: `"@
        + name + "` read back message.timestamp.type="@ + effective
        + ". Every restored record's timestamp would be replaced by the restore's wall clock, so the drill could not verify a single timestamp and any point-in-time claim over the result would be false. Restore into a cluster whose log.message.timestamp.type is CreateTime."@
}

fn probe_failed(name: &str, why: &str) -> (r: DrillError)
    ensures
        r@ == config_refusal(probe_failed_text(name@, why@)),
{
    let mut m =
        "the target broker reports log.message.timestamp.type=LogAppendTime, which overwrites every restored record's timestamp with the restore's wall clock, and the per-topic override could not be tested because creating `".to_owned();
    m.append(name);
    m.append("` failed: ");
    m.append(why);
    target_topic_refusal(m)
}

fn probe_left(name: &str, why: &str) -> (r: DrillError)
    ensures
        r@ == config_refusal(probe_left_text(name@, why@)),
{
    let mut m = "the LogAppendTime override probe created target topic `".to_owned();
    m.append(name);
    m.append("` and could not delete it again: ");
    m.append(why);
    m.append(". Delete `");
    m.append(name);
    m.append(
        "` on the target before re-running: it was created with one partition for the probe and is NOT the topic this restore needs.",
    );
    target_topic_refusal(m)
}

fn probe_undeleted(name: &str, why: &str) -> (r: DrillError)
    ensures
        r@ == config_refusal(probe_undeleted_text(name@, why@)),
{
    let mut m = "the LogAppendTime override probe created target topic `".to_owned();
    m.append(name);
    m.append("` and the delete call itself failed: ");
    m.append(why);
    m.append(". Delete `");
    m.append(name);
    m.append(
        "` on the target before re-running: it was created with one partition for the probe and is NOT the topic this restore needs.",
    );
    target_topic_refusal(m)
}

fn override_refused(name: &str, effective: &str) -> (r: DrillError)
    ensures
        r@ == config_refusal(override_text(name@, effective@)),
{
    let mut m =
        "the target broker reports log.message.timestamp.type=LogAppendTime and REFUSED a per-topic message.timestamp.type=CreateTime override: `".to_owned();
    m.append(name);
    m.append("` read back message.timestamp.type=");
    m.append(effective);
    m.append(
        ". Every restored record's timestamp would be replaced by the restore's wall clock, so the drill could not verify a single timestamp and any point-in-time claim over the result would be false. Restore into a cluster whose log.message.timestamp.type is CreateTime.",
    );
    target_topic_refusal(m)
}


/// The refusal of a plan whose window the broker would reject as too old.
pub open spec fn too_old(spec: DrillSpec, bound: int, now: Moment) -> Option<ErrorModel> {
    let oldest = held_difference(millis_of(now), bound);
    let (field, end) = window_end_of(spec);
    if millis_of(end) < oldest {
        Some(config_refusal(bound_text(bound, oldest, field, millis_of(end))))
    } else {
        None
    }
}

/// What a preflight of the target's topics comes to so far.
pub type PreflightStep = Step<AdmitQuestion, Result<TopicPreflight, DrillError>>;

/// The trial of whether the broker honours a topic's own timestamp setting,
/// which only a broker that overwrites timestamps calls for: a topic is
/// created, read back and deleted again, and only then judged.
pub open spec fn trial_is(
    r: PreflightStep,
    broker: Seq<(Seq<char>, Seq<char>)>,
    targets: Seq<Seq<char>>,
    replication_factor: i16,
    pinned: Seq<(String, String)>,
    reads: AdmitReads,
) -> bool {
    if timestamp_type_of(broker) != "LogAppendTime"@ || targets.len() == 0 {
        r matches Step::Done(Ok(p)) && preflight_is(p, broker, pinned)
    } else {
        let probe = targets[0];
        match reads.probe_created {
            None => {
                &&& r matches Step::Ask(AdmitQuestion::CreateProbe(topic))
                &&& topic.name@ == probe
                &&& topic.num_partitions == 1
                &&& topic.replication_factor == replication_factor
                &&& pairs(topic.configs@) == pairs(pinned)
            },
            Some(Err(e)) => r matches Step::Done(Err(d)) && d@ == ErrorModel::Kafka(e),
            Some(Ok(created)) => match first_failure(created@) {
                Some((name, why)) => r matches Step::Done(Err(d)) && d@ == config_refusal(
                    probe_failed_text(name, why),
                ),
                None => match (reads.probe_configs, reads.probe_deleted) {
                    (None, _) => r matches Step::Ask(AdmitQuestion::ProbeConfigs(name)) && name@
                        == probe,
                    (Some(_), None) => r matches Step::Ask(AdmitQuestion::DeleteProbe(name))
                        && name@ == probe,
                    (Some(_), Some(Err(e))) => r matches Step::Done(Err(d)) && d@
                        == config_refusal(probe_undeleted_text(probe, e.said())),
                    (Some(readback), Some(Ok(deleted))) => match first_failure(deleted@) {
                        Some((name, why)) => r matches Step::Done(Err(d)) && d@ == config_refusal(
                            probe_left_text(name, why),
                        ),
                        None => match readback {
                            Err(e) => r matches Step::Done(Err(d)) && d@ == ErrorModel::Kafka(e),
                            Ok(configs) => {
                                let effective = setting_or(
                                    configs@,
                                    "message.timestamp.type"@,
                                    timestamp_type_of(broker),
                                );
                                if effective == "LogAppendTime"@ {
                                    r matches Step::Done(Err(d)) && d@ == config_refusal(
                                        override_text(probe, effective),
                                    )
                                } else {
                                    r matches Step::Done(Ok(p)) && preflight_is(p, broker, pinned)
                                }
                            },
                        },
                    },
                },
            },
        }
    }
}

/// The preflight of the target's topics: the broker's settings are read, a
/// window that is too old for them is refused, and a broker that overwrites
/// timestamps is tried.
pub open spec fn preflight_step_is(
    r: PreflightStep,
    spec: DrillSpec,
    targets: Seq<Seq<char>>,
    pinned: Seq<(String, String)>,
    reads: AdmitReads,
) -> bool {
    match reads.broker_configs {
        None => r == PreflightStep::Ask(AdmitQuestion::BrokerConfigs),
        Some(Err(e)) => r matches Step::Done(Err(d)) && d@ == ErrorModel::Kafka(e),
        Some(Ok(broker)) => {
            let rf = spec.target.default_replication_factor;
            match (bound_of(broker@), reads.now) {
                (None, _) => trial_is(r, broker@, targets, rf, pinned, reads),
                (Some(_), None) => r == PreflightStep::Ask(AdmitQuestion::Now),
                (Some(bound), Some(now)) => match too_old(spec, bound as int, now@) {
                    Some(refusal) => r matches Step::Done(Err(d)) && d@ == refusal,
                    None => trial_is(r, broker@, targets, rf, pinned, reads),
                },
            }
        },
    }
}

/// Tries whether the broker honours a topic's own timestamp setting.
fn run_trial(
    broker: &TextMap,
    mapping: &TextMap,
    replication_factor: i16,
    pinned: &Vec<(String, String)>,
    reads: &AdmitReads,
) -> (r: PreflightStep)
    ensures
        trial_is(r, broker@, values_of(mapping@), replication_factor, pinned@, *reads),
{
    let preflight = read_broker(broker, pinned);
    let append_time = "LogAppendTime".to_owned();
    if preflight.timestamp_type != append_time || mapping.is_empty() {
        return Step::Done(Ok(preflight));
    }
    let probe = mapping.value(0);
    let created = match &reads.probe_created {
        None => {
            return Step::Ask(
                AdmitQuestion::CreateProbe(
                    NewTopicSpec {
                        name: probe.to_owned(),
                        num_partitions: 1,
                        replication_factor: replication_factor as i32,
                        configs: copy_pairs(pinned),
                    },
                ),
            );
        },
        Some(Err(e)) => {
            return Step::Done(Err(DrillError::Kafka(e.clone())));
        },
        Some(Ok(created)) => created,
    };
    if let Some((name, why)) = find_failure(created) {
        return Step::Done(Err(probe_failed(name, why)));
    }
    let readback = match &reads.probe_configs {
        None => {
            return Step::Ask(AdmitQuestion::ProbeConfigs(probe.to_owned()));
        },
        Some(readback) => readback,
    };
    let deleted = match &reads.probe_deleted {
        None => {
            return Step::Ask(AdmitQuestion::DeleteProbe(probe.to_owned()));
        },
        Some(Err(e)) => {
            return Step::Done(Err(probe_undeleted(probe, e.text())));
        },
        Some(Ok(deleted)) => deleted,
    };
    if let Some((name, why)) = find_failure(deleted) {
        return Step::Done(Err(probe_left(name, why)));
    }
    let configs = match readback {
        Err(e) => {
            return Step::Done(Err(DrillError::Kafka(e.clone())));
        },
        Ok(configs) => configs,
    };
    let effective = setting(
        configs,
        "message.timestamp.type",
        preflight.timestamp_type.as_str(),
    );
    if effective == append_time {
        return Step::Done(Err(override_refused(probe, effective.as_str())));
    }
    Step::Done(Ok(preflight))
}

/// Decides whether the target broker's settings let the restored records live.
pub fn target_topic_preflight(
    spec: &DrillSpec,
    mapping: &TextMap,
    pinned: &Vec<(String, String)>,
    reads: &AdmitReads,
) -> (r: PreflightStep)
    ensures
        preflight_step_is(r, *spec, values_of(mapping@), pinned@, *reads),
{
    let broker = match &reads.broker_configs {
        None => {
            return Step::Ask(AdmitQuestion::BrokerConfigs);
        },
        Some(Err(e)) => {
            return Step::Done(Err(DrillError::Kafka(e.clone())));
        },
        Some(Ok(broker)) => broker,
    };
    let preflight = read_broker(broker, pinned);
    if let Some(bound) = preflight.timestamp_bound_ms {
        let now = match reads.now {
            None => {
                return Step::Ask(AdmitQuestion::Now);
            },
            Some(now) => now,
        };
        let (field, end) = spec.window_end();
        let end_ms: i64 = end.millis();
        let oldest: i64 = oldest_accepted(now.millis(), bound);
        if end_ms < oldest {
            return Step::Done(Err(bound_refusal(bound, oldest, field, end_ms)));
        }
    }
    run_trial(broker, mapping, spec.target.default_replication_factor, pinned, reads)
}

// ---- the admission ---------------------------------------------------------

/// What is found out of the plan alone: each check in turn, asked for or
/// refused, and nothing where all of them passed.
pub open spec fn local_is(
    r: Option<AdmitStep>,
    spec: DrillSpec,
    rules: TargetRules,
    mapping: Seq<(Seq<char>, Seq<char>)>,
    reads: AdmitReads,
) -> bool {
    match reads.forbidden {
        None => r == Some(AdmitStep::Ask(AdmitQuestion::ForbiddenKeys)),
        Some(Err(g)) => refused(r, g.0@),
        Some(Ok(bad)) => if bad@.len() > 0 {
            refused(r, forbidden_text(texts(bad@)))
        } else {
            match reads.coverage {
                None => r == Some(AdmitStep::Ask(AdmitQuestion::MappingCoverage)),
                Some(Err(g)) => refused(r, g.0@),
                Some(Ok(_)) => sides_are(r, spec, rules, mapping, reads),
            }
        },
    }
}

/// What is found out of the mapping's two sides, and of the sample's anchor.
pub open spec fn sides_are(
    r: Option<AdmitStep>,
    spec: DrillSpec,
    rules: TargetRules,
    mapping: Seq<(Seq<char>, Seq<char>)>,
    reads: AdmitReads,
) -> bool {
    let metacharacters = rules.glob_metacharacters@;
    match (first_expansion(keys_of(mapping)), reads.source_glob) {
        (Some(name), _) => refused(r, expansion_text("source topic"@, name)),
        (None, None) => r == Some(AdmitStep::Ask(AdmitQuestion::SourceGlob)),
        (None, Some(Some(name))) => refused(
            r,
            glob_text("source topic"@, name@, metacharacters),
        ),
        (None, Some(None)) => match (first_expansion(values_of(mapping)), reads.target_glob) {
            (Some(name), _) => refused(r, expansion_text("mapped target"@, name)),
            (None, None) => r == Some(AdmitStep::Ask(AdmitQuestion::TargetGlob)),
            (None, Some(Some(name))) => refused(
                r,
                glob_text("mapped target"@, name@, metacharacters),
            ),
            (None, Some(None)) => if spec.sample.anchor != Anchor::Head {
                refused(r, anchor_text(spec.sample.anchor.name()))
            } else {
                r is None
            },
        },
    }
}

/// A refusal with that text.
pub open spec fn refused(r: Option<AdmitStep>, text: Seq<char>) -> bool {
    r matches Some(Step::Done(Err(e))) && e@ == ErrorModel::Guard(text)
}

/// The plan's own checks have passed.
pub open spec fn locally_sound(
    spec: DrillSpec,
    mapping: Seq<(Seq<char>, Seq<char>)>,
    reads: AdmitReads,
) -> bool {
    &&& reads.forbidden matches Some(Ok(bad))
    &&& bad@.len() == 0
    &&& reads.coverage matches Some(Ok(_))
    &&& first_expansion(keys_of(mapping)) is None
    &&& reads.source_glob == Some(None::<String>)
    &&& first_expansion(values_of(mapping)) is None
    &&& reads.target_glob == Some(None::<String>)
    &&& spec.sample.anchor == Anchor::Head
}

/// What an admission comes to, for a plan with that mapping: the plan's own
/// checks, then the cluster's identity, then its topics, then its settings.
pub open spec fn admit_is(
    r: AdmitStep,
    spec: DrillSpec,
    allowed: AllowedClusters,
    rules: TargetRules,
    mapping: Seq<(Seq<char>, Seq<char>)>,
    reads: AdmitReads,
) -> bool {
    if !locally_sound(spec, mapping, reads) {
        local_is(Some(r), spec, rules, mapping, reads)
    } else {
        match reads.cluster_id {
            None => r == AdmitStep::Ask(AdmitQuestion::ClusterId),
            Some(Err(e)) => r matches Step::Done(Err(d)) && d@ == ErrorModel::Kafka(e),
            Some(Ok(id)) => match cluster_refusal(allowed, id@) {
                Some(text) => refused(Some(r), text),
                None => match reads.topics {
                    None => r == AdmitStep::Ask(AdmitQuestion::Topics),
                    Some(Err(e)) => r matches Step::Done(Err(d)) && d@ == ErrorModel::Kafka(e),
                    Some(Ok(topics)) => match topics_refusal(
                        spec.target.marker_topic@,
                        id@,
                        values_of(mapping),
                        topics@,
                    ) {
                        Some(text) => refused(Some(r), text),
                        None => preflighted(r, spec, rules, mapping, id@, reads),
                    },
                },
            },
        }
    }
}

/// What an admission comes to, once the cluster and its topics are accepted.
pub open spec fn preflighted(
    r: AdmitStep,
    spec: DrillSpec,
    rules: TargetRules,
    mapping: Seq<(Seq<char>, Seq<char>)>,
    id: Seq<char>,
    reads: AdmitReads,
) -> bool {
    match r {
        Step::Ask(q) => preflight_step_is(
            PreflightStep::Ask(q),
            spec,
            values_of(mapping),
            rules.pinned_configs@,
            reads,
        ),
        Step::Done(Err(e)) => preflight_step_is(
            PreflightStep::Done(Err(e)),
            spec,
            values_of(mapping),
            rules.pinned_configs@,
            reads,
        ),
        Step::Done(Ok(a)) => {
            &&& preflight_step_is(
                PreflightStep::Done(Ok(a.topic_preflight)),
                spec,
                values_of(mapping),
                rules.pinned_configs@,
                reads,
            )
            &&& a.target_cluster_id@ == id
            &&& a.topic_mapping@ == mapping
            &&& a.topic_mapping_prefix@ == spec.target.topic_mapping_prefix@
        },
    }
}

/// The mapping that a plan asks for, its sources in order.
pub open spec fn is_plan_mapping(m: Seq<(Seq<char>, Seq<char>)>, spec: DrillSpec) -> bool {
    keys_ascend(m) && as_map(m) == planned(
        spec.source.topics@,
        spec.target.topic_mapping_prefix@,
    )
}

/// Checks the plan alone.
fn check_plan(spec: &DrillSpec, rules: &TargetRules, mapping: &TextMap, reads: &AdmitReads) -> (r:
    Option<AdmitStep>)
    ensures
        local_is(r, *spec, *rules, mapping@, *reads),
        r is None <==> locally_sound(*spec, mapping@, *reads),
{
    match &reads.forbidden {
        None => {
            return Some(Step::Ask(AdmitQuestion::ForbiddenKeys));
        },
        Some(Err(g)) => {
            return Some(Step::Done(Err(DrillError::Guard(g.clone()))));
        },
        Some(Ok(bad)) => {
            if bad.len() > 0 {
                return Some(Step::Done(Err(forbidden_refusal(bad))));
            }
        },
    }
    match &reads.coverage {
        None => {
            return Some(Step::Ask(AdmitQuestion::MappingCoverage));
        },
        Some(Err(g)) => {
            return Some(Step::Done(Err(DrillError::Guard(g.clone()))));
        },
        Some(Ok(_)) => {},
    }
    if let Some(i) = find_expansion(mapping, true) {
        return Some(Step::Done(Err(expansion_refusal("source topic", mapping.key(i)))));
    }
    match &reads.source_glob {
        None => {
            return Some(Step::Ask(AdmitQuestion::SourceGlob));
        },
        Some(Some(name)) => {
            return Some(
                Step::Done(
                    Err(
                        glob_refusal(
                            "source topic",
                            name.as_str(),
                            rules.glob_metacharacters.as_str(),
                        ),
                    ),
                ),
            );
        },
        Some(None) => {},
    }
    if let Some(i) = find_expansion(mapping, false) {
        return Some(Step::Done(Err(expansion_refusal("mapped target", mapping.value(i)))));
    }
    match &reads.target_glob {
        None => {
            return Some(Step::Ask(AdmitQuestion::TargetGlob));
        },
        Some(Some(name)) => {
            return Some(
                Step::Done(
                    Err(
                        glob_refusal(
                            "mapped target",
                            name.as_str(),
                            rules.glob_metacharacters.as_str(),
                        ),
                    ),
                ),
            );
        },
        Some(None) => {},
    }
    if spec.sample.anchor != Anchor::Head {
        return Some(Step::Done(Err(anchor_refusal(spec.sample.anchor))));
    }
    None
}

/// Decides whether a plan is admitted, from what has been found out so far.
pub fn run(
    spec: &DrillSpec,
    allowed: &AllowedClusters,
    rules: &TargetRules,
    reads: &AdmitReads,
) -> (r: AdmitStep)
    ensures
        exists|m: Seq<(Seq<char>, Seq<char>)>|
            is_plan_mapping(m, *spec) && #[trigger] admit_is(r, *spec, *allowed, *rules, m, *reads),
{
    let mapping = topic_mapping(&spec.source.topics, spec.target.topic_mapping_prefix.as_str());
    let ghost m = mapping@;
    let r = admit_mapped(spec, allowed, rules, mapping, reads);
    assert(is_plan_mapping(m, *spec) && admit_is(r, *spec, *allowed, *rules, m, *reads));
    r
}

/// Decides whether a plan with that mapping is admitted.
fn admit_mapped(
    spec: &DrillSpec,
    allowed: &AllowedClusters,
    rules: &TargetRules,
    mapping: TextMap,
    reads: &AdmitReads,
) -> (r: AdmitStep)
    ensures
        admit_is(r, *spec, *allowed, *rules, mapping@, *reads),
{
    if let Some(step) = check_plan(spec, rules, &mapping, reads) {
        return step;
    }
    let id = match &reads.cluster_id {
        None => {
            return Step::Ask(AdmitQuestion::ClusterId);
        },
        Some(Err(e)) => {
            return Step::Done(Err(DrillError::Kafka(e.clone())));
        },
        Some(Ok(id)) => id,
    };
    if let Err(e) = check_cluster(allowed, id.as_str()) {
        return Step::Done(Err(e));
    }
    let topics = match &reads.topics {
        None => {
            return Step::Ask(AdmitQuestion::Topics);
        },
        Some(Err(e)) => {
            return Step::Done(Err(DrillError::Kafka(e.clone())));
        },
        Some(Ok(topics)) => topics,
    };
    if let Err(e) = check_topics(spec.target.marker_topic.as_str(), id.as_str(), &mapping, topics) {
        return Step::Done(Err(e));
    }
    match target_topic_preflight(spec, &mapping, &rules.pinned_configs, reads) {
        Step::Ask(q) => Step::Ask(q),
        Step::Done(Err(e)) => Step::Done(Err(e)),
        Step::Done(Ok(topic_preflight)) => Step::Done(
            Ok(
                Admitted {
                    target_cluster_id: id.clone(),
                    topic_mapping: mapping,
                    topic_mapping_prefix: spec.target.topic_mapping_prefix.clone(),
                    topic_preflight,
                },
            ),
        ),
    }
}


// ---- creating the target topics --------------------------------------------

/// A topic to be created for a mapped topic of the archive.
pub open spec fn new_topic_is(
    n: NewTopicSpec,
    wanted: (Seq<char>, TopicFacts),
    replication_factor: i16,
    pinned: Seq<(String, String)>,
) -> bool {
    &&& n.name@ == wanted.0
    &&& n.num_partitions == partitions_wanted(wanted.1)
    &&& n.replication_factor == replication_factor
    &&& pairs(n.configs@) == pairs(pinned)
}

/// A pair as `key=value`.
pub open spec fn assignments(v: Seq<(String, String)>) -> Seq<Seq<char>> {
    Seq::new(v.len(), |i: int| v[i].0@ + "="@ + v[i].1@)
}

/// The failure to create a target topic.
pub open spec fn not_created(
    name: Seq<char>,
    pinned: Seq<(String, String)>,
    why: Seq<char>,
) -> ErrorModel {
    ErrorModel::Operational(
        "target topic `"@ + name + "` could not be created with the pinned configuration ("@
            + joined(assignments(pinned), ", "@) + "): "@ + why,
    )
}

/// The topics that were created before the first that was not.
pub open spec fn created_names(results: Seq<(String, Result<(), String>)>) -> Seq<Seq<char>>
    decreases results.len(),
{
    if results.len() == 0 {
        Seq::empty()
    } else if first_failure(results) is Some {
        created_names(results.drop_last())
    } else {
        created_names(results.drop_last()).push(results.last().0@)
    }
}

/// A failure among the first topics leaves those created as they are.
proof fn created_names_stay(results: Seq<(String, Result<(), String>)>, n: int)
    requires
        0 <= n <= results.len(),
        first_failure(results.take(n)) is Some,
    ensures
        created_names(results) == created_names(results.take(n)),
    decreases results.len() - n,
{
    if n < results.len() {
        assert(results.take(n + 1).drop_last() =~= results.take(n));
        first_failure_stays(results, n);
        created_names_stay(results, n + 1);
    } else {
        assert(results.take(n) =~= results);
    }
}

/// The settings as `key=value`.
fn assigned(v: &Vec<(String, String)>) -> (r: Vec<String>)
    ensures
        texts(r@) == assignments(v@),
{
    let mut out: Vec<String> = Vec::new();
    let mut i: usize = 0;
    while i < v.len()
        invariant
            0 <= i <= v.len(),
            out.len() == i,
            forall|j: int| 0 <= j < i ==> (#[trigger] out@[j])@ == v@[j].0@ + "="@ + v@[j].1@,
        decreases v.len() - i,
    {
        let mut s = v[i].0.clone();
        s.append("=");
        s.append(v[i].1.as_str());
        out.push(s);
        i += 1;
    }
    proof {
        assert(texts(out@) =~= assignments(v@));
    }
    out
}

/// The topics that a restore needs on the target.
pub fn target_topics(
    topic_mapping: &TextMap,
    facts: &BackupSetFacts,
    default_replication_factor: i16,
    pinned: &Vec<(String, String)>,
) -> (r: Vec<NewTopicSpec>)
    requires
        partitions_fit(mapped(facts.topics@, topic_mapping@)),
    ensures
        r@.len() == mapped(facts.topics@, topic_mapping@).len(),
        forall|i: int|
            0 <= i < r@.len() ==> new_topic_is(
                #[trigger] r@[i],
                mapped(facts.topics@, topic_mapping@)[i],
                default_replication_factor,
                pinned@,
            ),
        forall|i: int|
            0 <= i < r@.len() ==> (#[trigger] r@[i]).replication_factor
                == default_replication_factor && pairs(r@[i].configs@) == pairs(pinned@)
                && r@[i].name@ == mapped(facts.topics@, topic_mapping@)[i].0
                && r@[i].num_partitions == partitions_wanted(
                mapped(facts.topics@, topic_mapping@)[i].1,
            ),
{
    let ghost all = mapped(facts.topics@, topic_mapping@);
    let mut specs: Vec<NewTopicSpec> = Vec::new();
    let mut i: usize = 0;
    proof {
        assert(facts.topics@.take(0) =~= Seq::empty());
    }
    while i < facts.topics.len()
        invariant
            0 <= i <= facts.topics.len(),
            all == mapped(facts.topics@, topic_mapping@),
            partitions_fit(all),
            specs@.len() == mapped(facts.topics@.take(i as int), topic_mapping@).len(),
            forall|j: int|
                0 <= j < specs@.len() ==> new_topic_is(
                    #[trigger] specs@[j],
                    mapped(facts.topics@.take(i as int), topic_mapping@)[j],
                    default_replication_factor,
                    pinned@,
                ),
        decreases facts.topics.len() - i,
    {
        let t = &facts.topics[i];
        proof {
            assert(facts.topics@.take(i + 1).drop_last() =~= facts.topics@.take(i as int));
            assert(facts.topics@.take(i + 1).last() == *t);
        }
        if let Some(dst) = topic_mapping.get(t.name.as_str()) {
            proof {
                let part = mapped(facts.topics@.take(i + 1), topic_mapping@);
                mapped_grows(facts.topics@, topic_mapping@, i + 1);
                assert(part.last() == all.subrange(0, part.len() as int)[part.len() - 1]);
                assert(all[part.len() - 1].1 == *t);
            }
            specs.push(
                NewTopicSpec {
                    name: dst.to_owned(),
                    num_partitions: restore_partition_count(t),
                    replication_factor: default_replication_factor as i32,
                    configs: copy_pairs(pinned),
                },
            );
        }
        i += 1;
    }
    proof {
        assert(facts.topics@.take(facts.topics.len() as int) =~= facts.topics@);
    }
    specs
}

/// Creates every target topic that the restore needs, with the pinned settings.
/// Nothing is asked for where none is needed; once the broker has answered, the
/// topics that it confirmed are added to those that this run created, up to the
/// first that it refused.
pub fn create_target_topics(
    topic_mapping: &TextMap,
    facts: &BackupSetFacts,
    default_replication_factor: i16,
    pinned: &Vec<(String, String)>,
    results: &Option<Result<PerTopic, KafkaError>>,
    preflight: &mut TopicPreflight,
) -> (r: Step<Vec<NewTopicSpec>, Result<(), DrillError>>)
    requires
        partitions_fit(mapped(facts.topics@, topic_mapping@)),
    ensures
        ({
            let wanted = mapped(facts.topics@, topic_mapping@);
            let before = texts(old(preflight).topics_created@);
            let after = texts(final(preflight).topics_created@);
            if wanted.len() == 0 {
                (r matches Step::Done(Ok(_))) && after == before
            } else {
                match results {
                    None => {
                        &&& after == before
                        &&& r matches Step::Ask(specs)
                        &&& specs@.len() == wanted.len()
                        &&& forall|i: int|
                            0 <= i < wanted.len() ==> new_topic_is(
                                #[trigger] specs@[i],
                                wanted[i],
                                default_replication_factor,
                                pinned@,
                            )
                    },
                    Some(Err(e)) => {
                        &&& after == before
                        &&& r matches Step::Done(Err(d))
                        &&& d@ == ErrorModel::Kafka(*e)
                    },
                    Some(Ok(results)) => {
                        &&& after == before + created_names(results@)
                        &&& match first_failure(results@) {
                            None => r matches Step::Done(Ok(_)),
                            Some((name, why)) => r matches Step::Done(Err(e)) && e@ == not_created(
                                name,
                                pinned@,
                                why,
                            ),
                        }
                    },
                }
            }
        }),
        *final(preflight) == (TopicPreflight {
            topics_created: final(preflight).topics_created,
            ..*old(preflight)
        }),
        r matches Step::Ask(specs) ==> forall|i: int|
            0 <= i < specs@.len() ==> (#[trigger] specs@[i]).replication_factor
                == default_replication_factor && pairs(specs@[i].configs@) == pairs(pinned@),
        results matches Some(Ok(answers)) ==> (mapped(facts.topics@, topic_mapping@).len() > 0 ==> (
        (r matches Step::Done(Ok(_))) <==> forall|i: int|
            0 <= i < answers@.len() ==> (#[trigger] answers@[i]).1 is Ok)),
{
    proof {
        if let Some(Ok(answers)) = results {
            every_failure_is_seen(answers@);
        }
    }
    let specs = target_topics(topic_mapping, facts, default_replication_factor, pinned);
    if specs.len() == 0 {
        return Step::Done(Ok(()));
    }
    let answers = match results {
        None => {
            return Step::Ask(specs);
        },
        Some(Err(e)) => {
            return Step::Done(Err(DrillError::Kafka(e.clone())));
        },
        Some(Ok(answers)) => answers,
    };
    let ghost before = texts(preflight.topics_created@);
    let mut i: usize = 0;
    proof {
        assert(answers@.take(0) =~= Seq::empty());
        assert(before + Seq::<Seq<char>>::empty() =~= before);
    }
    while i < answers.len()
        invariant
            0 <= i <= answers.len(),
            *results == Some::<Result<PerTopic, KafkaError>>(Ok(*answers)),
            before == texts(old(preflight).topics_created@),
            mapped(facts.topics@, topic_mapping@).len() > 0,
            first_failure(answers@.take(i as int)) is None,
            texts(preflight.topics_created@) == before + created_names(answers@.take(i as int)),
            *preflight == (TopicPreflight {
                topics_created: preflight.topics_created,
                ..*old(preflight)
            }),
        decreases answers.len() - i,
    {
        proof {
            assert(answers@.take(i + 1).drop_last() =~= answers@.take(i as int));
            assert(answers@.take(i + 1).last() == answers@[i as int]);
        }
        match &answers[i].1 {
            Ok(_) => {
                let ghost so_far = texts(preflight.topics_created@);
                preflight.topics_created.push(answers[i].0.clone());
                proof {
                    assert(texts(preflight.topics_created@) =~= so_far.push(answers@[i as int].0@));
                    assert(texts(preflight.topics_created@) =~= before + created_names(
                        answers@.take(i + 1),
                    ));
                }
            },
            Err(why) => {
                let mut m = "target topic `".to_owned();
                m.append(answers[i].0.as_str());
                m.append("` could not be created with the pinned configuration (");
                m.append(join(&assigned(pinned), ", ").as_str());
                m.append("): ");
                m.append(why.as_str());
                proof {
                    first_failure_stays(answers@, i + 1);
                    created_names_stay(answers@, i + 1);
                }
                return Step::Done(Err(DrillError::Operational(m)));
            },
        }
        i += 1;
    }
    proof {
        assert(answers@.take(answers.len() as int) =~= answers@);
    }
    Step::Done(Ok(()))
}

// ---- laws ------------------------------------------------------------------

/// A topic that no list of present targets names is not on the cluster.
proof fn absent_targets(targets: Seq<Seq<char>>, topics: Seq<TopicMeta>, i: int)
    requires
        present_targets(targets, topics).len() == 0,
        0 <= i < targets.len(),
    ensures
        !lists(topics, targets[i]),
    decreases targets.len(),
{
    if i < targets.len() - 1 {
        absent_targets(targets.drop_last(), topics, i);
        assert(targets.drop_last()[i] == targets[i]);
    }
}

/// A topic is only ever created on a cluster that may be written to and is not
/// the source, that has a healthy marker topic, and that has none of the target
/// topics; and it is a target topic.
pub proof fn writes_wait_for_every_check(
    r: AdmitStep,
    topic: NewTopicSpec,
    spec: DrillSpec,
    allowed: AllowedClusters,
    rules: TargetRules,
    mapping: Seq<(Seq<char>, Seq<char>)>,
    reads: AdmitReads,
)
    requires
        admit_is(r, spec, allowed, rules, mapping, reads),
        r == AdmitStep::Ask(AdmitQuestion::CreateProbe(topic)),
    ensures
        locally_sound(spec, mapping, reads),
        reads.cluster_id matches Some(Ok(id)) && reads.topics matches Some(Ok(topics)) && {
            &&& texts(allowed.allowed_cluster_ids@).contains(id@)
            &&& !(allowed.source_cluster_id is Some && allowed.source_cluster_id->0@ == id@)
            &&& first_listed(topics@, spec.target.marker_topic@) matches Some(t)
            &&& t.error is None
            &&& values_of(mapping).contains(topic.name@)
            &&& forall|i: int|
                0 <= i < mapping.len() ==> !lists(topics@, #[trigger] values_of(mapping)[i])
        },
{
    let topics = reads.topics->0->Ok_0@;
    assert forall|i: int| 0 <= i < mapping.len() implies !lists(
        topics,
        #[trigger] values_of(mapping)[i],
    ) by {
        absent_targets(values_of(mapping), topics, i);
    }
    assert(values_of(mapping)[0] == topic.name@);
}

/// Once a topic was created for the trial, nothing is decided before it was
/// asked to be deleted.
pub proof fn the_trial_cleans_up(
    r: PreflightStep,
    broker: Seq<(Seq<char>, Seq<char>)>,
    targets: Seq<Seq<char>>,
    replication_factor: i16,
    pinned: Seq<(String, String)>,
    reads: AdmitReads,
)
    requires
        trial_is(r, broker, targets, replication_factor, pinned, reads),
        timestamp_type_of(broker) == "LogAppendTime"@,
        targets.len() > 0,
        reads.probe_created matches Some(Ok(created)) && first_failure(created@) is None,
    ensures
        r is Done ==> reads.probe_deleted is Some,
{
}

/// What the plan's own checks decide does not depend on the cluster.
pub proof fn a_local_refusal_needs_no_broker(
    r: AdmitStep,
    spec: DrillSpec,
    allowed: AllowedClusters,
    rules: TargetRules,
    mapping: Seq<(Seq<char>, Seq<char>)>,
    reads: AdmitReads,
    other: AdmitReads,
)
    requires
        admit_is(r, spec, allowed, rules, mapping, reads),
        !locally_sound(spec, mapping, reads),
        other.forbidden == reads.forbidden,
        other.coverage == reads.coverage,
        other.source_glob == reads.source_glob,
        other.target_glob == reads.target_glob,
    ensures
        admit_is(r, spec, allowed, rules, mapping, other),
{
}

/// A cluster that cannot be read is a failure of the run, never a refusal of
/// the plan.
pub proof fn an_unreadable_cluster_is_no_refusal(
    r: AdmitStep,
    spec: DrillSpec,
    allowed: AllowedClusters,
    rules: TargetRules,
    mapping: Seq<(Seq<char>, Seq<char>)>,
    reads: AdmitReads,
    e: KafkaError,
)
    requires
        admit_is(r, spec, allowed, rules, mapping, reads),
        locally_sound(spec, mapping, reads),
        ({
            ||| reads.cluster_id == Some(Err::<String, KafkaError>(e))
            ||| reads.cluster_id matches Some(Ok(id)) && cluster_refusal(allowed, id@) is None
                && reads.topics == Some(Err::<Vec<TopicMeta>, KafkaError>(e))
        }),
    ensures
        r matches Step::Done(Err(d)) && d@ == ErrorModel::Kafka(e),
{
}

} // verus!
