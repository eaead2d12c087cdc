//! The plan that both the engine's preflight and the restore run against.
//!
//! A restore's window starts where the archive starts, never where the
//! operator's sample does, and it is never empty.
use vstd::prelude::*;
use crate::clock::{millis_of, moment_at, representable_millis, Moment, Timestamp};
use crate::drill::error::{refuse, DrillError, ErrorModel};
use crate::drill::facts::{BackupSetFacts, BackupSetRef, PartitionFacts, SegmentFacts, TopicFacts};
use crate::drill::spec::{window_end_of, AuthSpec, DrillSpec};
use crate::text::{copy_texts, decimal_int, i64_text, join, joined, text_in, texts};
use crate::textmap::{has_key, keys_of, TextMap};

verus! {

/// Where the start of a plan's window was taken from.
#[derive(Clone, Copy, Debug, PartialEq, Eq, Structural)]
pub enum WindowFloorSource {
    ArchiveManifest,
    Spec,
}

/// What a restore does.
#[derive(Debug)]
pub struct RestorePlan {
    pub set: BackupSetRef,
    /// Where the archive is, as configured.
    pub storage: String,
    pub target_bootstrap: Vec<String>,
    pub target_auth: AuthSpec,
    pub topic_mapping: TextMap,
    pub time_window: (Timestamp, Timestamp),
    pub window_floor_source: WindowFloorSource,
    pub default_replication_factor: i16,
    /// The file that the engine keeps its checkpoint in.
    pub checkpoint_state: String,
    pub checkpoint_interval_secs: u64,
    /// The file that the engine writes its offset report to.
    pub offset_report: String,
}

/// The start of a window, where it was taken from, and the archive's own start.
#[derive(Clone, Copy, Debug)]
pub struct WindowFloor {
    pub start: Timestamp,
    pub source: WindowFloorSource,
    pub manifest_floor_ms: i64,
}

// ---- paths -----------------------------------------------------------------

/// A file in a directory.
pub open spec fn in_dir(dir: Seq<char>, name: Seq<char>) -> Seq<char> {
    if dir.len() == 0 || dir.last() == '/' {
        dir + name
    } else {
        dir + "/"@ + name
    }
}

/// A file in a directory.
fn within(dir: &str, name: &str) -> (r: String)
    ensures
        r@ == in_dir(dir@, name@),
{
    let mut s = dir.to_owned();
    let n: usize = dir.unicode_len();
    if n > 0 {
        if dir.get_char(n - 1) != '/' {
            s.append("/");
        }
    }
    s.append(name);
    s
}

/// The directory that a run keeps its own files in, below a directory for
/// temporary files.
pub open spec fn workdir_of(temp_dir: Seq<char>, run_id: Seq<char>) -> Seq<char> {
    in_dir(temp_dir, "logweir-"@ + run_id)
}

/// The directory that a run keeps its own files in.
pub fn run_workdir(temp_dir: &str, run_id: &str) -> (r: String)
    ensures
        r@ == workdir_of(temp_dir@, run_id@),
{
    let mut name = "logweir-".to_owned();
    name.append(run_id);
    within(temp_dir, name.as_str())
}

// ---- the archive's start ---------------------------------------------------

/// The segment stands in the manifest under one of the names.
pub open spec fn covers(
    topics: Seq<TopicFacts>,
    names: Seq<(Seq<char>, Seq<char>)>,
    start: i64,
) -> bool {
    exists|t: int, p: int, s: int|
        #![trigger topics[t].partitions@[p].segments@[s]]
        {
            &&& 0 <= t < topics.len()
            &&& has_key(names, topics[t].name@)
            &&& 0 <= p < topics[t].partitions@.len()
            &&& 0 <= s < topics[t].partitions@[p].segments@.len()
            &&& topics[t].partitions@[p].segments@[s].start_timestamp == start
        }
}

/// The earliest start of the segments of the named topics, where there is a
/// segment.
pub open spec fn is_earliest(
    r: Option<i64>,
    topics: Seq<TopicFacts>,
    names: Seq<(Seq<char>, Seq<char>)>,
) -> bool {
    match r {
        Some(ms) => covers(topics, names, ms) && forall|other: i64|
            covers(topics, names, other) ==> ms <= other,
        None => forall|other: i64| !covers(topics, names, other),
    }
}

/// The earlier of two instants, either of which may be absent.
fn earlier(a: Option<i64>, b: i64) -> (r: i64)
    ensures
        a is None ==> r == b,
        a is Some ==> r == if a->0 <= b { a->0 } else { b },
{
    match a {
        Some(x) => if x <= b {
            x
        } else {
            b
        },
        None => b,
    }
}

/// The start is that of one of the segments.
spec fn seg_start(segs: Seq<SegmentFacts>, start: i64) -> bool {
    exists|s: int| 0 <= s < segs.len() && (#[trigger] segs[s]).start_timestamp == start
}

/// The start is that of a segment of one of the partitions.
spec fn part_start(parts: Seq<PartitionFacts>, start: i64) -> bool {
    exists|p: int| 0 <= p < parts.len() && seg_start((#[trigger] parts[p]).segments@, start)
}

/// The start is that of a segment of one of the named topics.
spec fn topic_start(
    topics: Seq<TopicFacts>,
    names: Seq<(Seq<char>, Seq<char>)>,
    start: i64,
) -> bool {
    exists|t: int|
        0 <= t < topics.len() && has_key(names, (#[trigger] topics[t]).name@) && part_start(
            topics[t].partitions@,
            start,
        )
}

/// The two ways to say that a start is covered are the same.
proof fn covers_in_steps(
    topics: Seq<TopicFacts>,
    names: Seq<(Seq<char>, Seq<char>)>,
    start: i64,
)
    ensures
        covers(topics, names, start) <==> topic_start(topics, names, start),
{
    if covers(topics, names, start) {
        let (t, p, s) = choose|t: int, p: int, s: int|
            #![trigger topics[t].partitions@[p].segments@[s]]
            {
                &&& 0 <= t < topics.len()
                &&& has_key(names, topics[t].name@)
                &&& 0 <= p < topics[t].partitions@.len()
                &&& 0 <= s < topics[t].partitions@[p].segments@.len()
                &&& topics[t].partitions@[p].segments@[s].start_timestamp == start
            };
        assert(seg_start(topics[t].partitions@[p].segments@, start));
        assert(part_start(topics[t].partitions@, start));
    }
    if topic_start(topics, names, start) {
        let t = choose|t: int|
            0 <= t < topics.len() && has_key(names, (#[trigger] topics[t]).name@) && part_start(
                topics[t].partitions@,
                start,
            );
        let parts = topics[t].partitions@;
        let p = choose|p: int|
            0 <= p < parts.len() && seg_start((#[trigger] parts[p]).segments@, start);
        let segs = parts[p].segments@;
        let s = choose|s: int|
            0 <= s < segs.len() && (#[trigger] segs[s]).start_timestamp == start;
        assert(topics[t].partitions@[p].segments@[s].start_timestamp == start);
    }
}

/// The earliest start of segments, or of what was found before.
fn earliest_segment(segs: &Vec<SegmentFacts>, found: Option<i64>) -> (r: Option<i64>)
    ensures
        r is Some ==> r == found || seg_start(segs@, r->0),
        found is Some ==> r is Some && r->0 <= found->0,
        forall|o: i64| seg_start(segs@, o) ==> r is Some && r->0 <= o,
{
    let mut best: Option<i64> = found;
    let mut i: usize = 0;
    while i < segs.len()
        invariant
            0 <= i <= segs.len(),
            best is Some ==> best == found || seg_start(segs@, best->0),
            found is Some ==> best is Some && best->0 <= found->0,
            forall|s: int|
                0 <= s < i ==> best is Some && best->0 <= (#[trigger] segs@[s]).start_timestamp,
        decreases segs.len() - i,
    {
        let start: i64 = segs[i].start_timestamp;
        proof {
            assert(segs@[i as int].start_timestamp == start);
            assert(seg_start(segs@, start));
        }
        best = Some(earlier(best, start));
        i += 1;
    }
    best
}

/// The earliest start of partitions, or of what was found before.
fn earliest_partition(parts: &Vec<PartitionFacts>, found: Option<i64>) -> (r: Option<i64>)
    ensures
        r is Some ==> r == found || part_start(parts@, r->0),
        found is Some ==> r is Some && r->0 <= found->0,
        forall|o: i64| part_start(parts@, o) ==> r is Some && r->0 <= o,
{
    let mut best: Option<i64> = found;
    let mut i: usize = 0;
    while i < parts.len()
        invariant
            0 <= i <= parts.len(),
            best is Some ==> best == found || part_start(parts@, best->0),
            found is Some ==> best is Some && best->0 <= found->0,
            forall|p: int, o: i64|
                0 <= p < i && #[trigger] seg_start(parts@[p].segments@, o) ==> best is Some
                    && best->0 <= o,
        decreases parts.len() - i,
    {
        let was = best;
        best = earliest_segment(&parts[i].segments, best);
        proof {
            if best is Some && best != was {
                assert(seg_start(parts@[i as int].segments@, best->0));
                assert(part_start(parts@, best->0));
            }
        }
        i += 1;
    }
    best
}

/// The earliest timestamp that the manifest covers for the named topics.
pub fn earliest_covered_timestamp_ms(facts: &BackupSetFacts, names: &TextMap) -> (r: Option<i64>)
    ensures
        is_earliest(r, facts.topics@, names@),
{
    let mut best: Option<i64> = None;
    let mut i: usize = 0;
    while i < facts.topics.len()
        invariant
            0 <= i <= facts.topics.len(),
            best is Some ==> topic_start(facts.topics@, names@, best->0),
            forall|t: int, o: i64|
                0 <= t < i && has_key(names@, facts.topics@[t].name@) && #[trigger] part_start(
                    facts.topics@[t].partitions@,
                    o,
                ) ==> best is Some && best->0 <= o,
        decreases facts.topics.len() - i,
    {
        let t = &facts.topics[i];
        if names.get(t.name.as_str()).is_some() {
            let was = best;
            best = earliest_partition(&t.partitions, best);
            proof {
                if best is Some && best != was {
                    assert(part_start(facts.topics@[i as int].partitions@, best->0));
                    assert(topic_start(facts.topics@, names@, best->0));
                }
            }
        }
        i += 1;
    }
    proof {
        assert forall|o: i64| covers(facts.topics@, names@, o) implies best is Some && best->0
            <= o by {
            covers_in_steps(facts.topics@, names@, o);
            let t = choose|t: int|
                0 <= t < facts.topics@.len() && has_key(
                    names@,
                    (#[trigger] facts.topics@[t]).name@,
                ) && part_start(facts.topics@[t].partitions@, o);
            assert(part_start(facts.topics@[t].partitions@, o));
        }
        if best is Some {
            covers_in_steps(facts.topics@, names@, best->0);
        }
    }
    best
}


// ---- building the plan -----------------------------------------------------

/// The refusal of a plan that misnames where its window's start came from.
pub open spec fn floor_lie_text(start_ms: int, floor_ms: int) -> Seq<char> {
    "the plan claims its window floor came from the archive manifest, and its time_window start is epoch-ms "@
        + decimal_int(start_ms) + " while the manifest floor is epoch-ms "@ + decimal_int(floor_ms)
        + "; a Restore's window start is the archive set's earliest covered timestamp, never the spec's"@
}

/// The refusal of a plan whose window holds no instant.
pub open spec fn empty_window_text(
    field: Seq<char>,
    end_ms: int,
    set_id: Seq<char>,
    start_ms: int,
) -> Seq<char> {
    "this plan's "@ + field + " is epoch-ms "@ + decimal_int(end_ms)
        + ", at or before the archive set `"@ + set_id
        + "`'s earliest covered timestamp of epoch-ms "@ + decimal_int(start_ms)
        + ", so the restore window ["@ + decimal_int(start_ms) + ", "@ + decimal_int(end_ms)
        + "] holds no instant and would restore nothing; a Restore's window start is the archive set's earliest covered timestamp, never the spec's, so a recovery point must be LATER than epoch-ms "@
        + decimal_int(start_ms)
}

/// The refusal of a plan that the archive holds nothing for.
pub open spec fn no_floor_text(set_id: Seq<char>, names: Seq<Seq<char>>) -> Seq<char> {
    "the archive set `"@ + set_id
        + "` records no segment in its manifest for any of the topics this restore names ("@
        + joined(names, ", "@)
        + "), so it has no earliest covered timestamp; a Restore's window start is the archive set's earliest covered timestamp, never the spec's, so this plan has no floor to bind and is refused before anything runs"@
}

/// The refusal of an archive whose start is no date.
pub open spec fn floor_range_text(set_id: Seq<char>, floor_ms: int) -> Seq<char> {
    "the archive set `"@ + set_id + "` records an earliest covered timestamp of epoch-ms "@
        + decimal_int(floor_ms) + ", which is outside the representable date range"@
}

/// What a plan with that start comes to.
pub open spec fn floored_plan_is(
    r: Result<RestorePlan, DrillError>,
    spec: DrillSpec,
    set: BackupSetRef,
    mapping: Seq<(Seq<char>, Seq<char>)>,
    run_id: Seq<char>,
    temp_dir: Seq<char>,
    start: Moment,
    source: WindowFloorSource,
    manifest_floor_ms: int,
    offset_report_out: Option<Seq<char>>,
) -> bool {
    let (field, end) = window_end_of(spec);
    if source == WindowFloorSource::ArchiveManifest && millis_of(start) != manifest_floor_ms {
        r matches Err(e) && e@ == ErrorModel::Guard(
            floor_lie_text(millis_of(start), manifest_floor_ms),
        )
    } else if !start.before(end) {
        r matches Err(e) && e@ == ErrorModel::Guard(
            empty_window_text(field, millis_of(end), set.backup_id@, millis_of(start)),
        )
    } else {
        &&& r matches Ok(plan)
        &&& plan.set == set
        &&& plan.storage@ == spec.source.storage@
        &&& texts(plan.target_bootstrap@) == texts(spec.target.bootstrap_servers@)
        &&& plan.target_auth == spec.target.auth
        &&& plan.topic_mapping@ == mapping
        &&& plan.time_window.0@ == start
        &&& plan.time_window.1@ == end
        &&& plan.window_floor_source == source
        &&& plan.default_replication_factor == spec.target.default_replication_factor
        &&& plan.checkpoint_state@ == in_dir(workdir_of(temp_dir, run_id), "checkpoint.json"@)
        &&& plan.checkpoint_interval_secs == 30
        &&& plan.offset_report@ == match offset_report_out {
            Some(path) => path,
            None => in_dir(workdir_of(temp_dir, run_id), "offsets.json"@),
        }
    }
}

/// Builds the plan of a restore whose window starts as given.
pub fn build_plan_with_floor(
    spec: &DrillSpec,
    set: &BackupSetRef,
    mapping: &TextMap,
    run_id: &str,
    temp_dir: &str,
    floor: WindowFloor,
    offset_report_out: Option<&str>,
) -> (r: Result<RestorePlan, DrillError>)
    ensures
        floored_plan_is(
            r,
            *spec,
            *set,
            mapping@,
            run_id@,
            temp_dir@,
            floor.start@,
            floor.source,
            floor.manifest_floor_ms as int,
            text_in(offset_report_out),
        ),
        r matches Ok(plan) ==> plan.time_window.0@ == floor.start@ && plan.time_window.1@ == (
        match spec.point_in_time {
            Some(t) => t@,
            None => spec.sample.window_end@,
        }),
{
    let (field, end) = spec.window_end();
    let start_ms: i64 = floor.start.millis();
    let end_ms: i64 = end.millis();
    if floor.source == WindowFloorSource::ArchiveManifest && start_ms != floor.manifest_floor_ms {
        let mut m =
            "the plan claims its window floor came from the archive manifest, and its time_window start is epoch-ms ".to_owned();
        m.append(i64_text(start_ms).as_str());
        m.append(" while the manifest floor is epoch-ms ");
        m.append(i64_text(floor.manifest_floor_ms).as_str());
        m.append(
            "; a Restore's window start is the archive set's earliest covered timestamp, never the spec's",
        );
        return Err(refuse(m));
    }
    if floor.start.at_or_after(&end) {
        let start_text = i64_text(start_ms);
        let end_text = i64_text(end_ms);
        let mut m = "this plan's ".to_owned();
        m.append(field);
        m.append(" is epoch-ms ");
        m.append(end_text.as_str());
        m.append(", at or before the archive set `");
        m.append(set.backup_id.as_str());
        m.append("`'s earliest covered timestamp of epoch-ms ");
        m.append(start_text.as_str());
        m.append(", so the restore window [");
        m.append(start_text.as_str());
        m.append(", ");
        m.append(end_text.as_str());
        m.append(
            "] holds no instant and would restore nothing; a Restore's window start is the archive set's earliest covered timestamp, never the spec's, so a recovery point must be LATER than epoch-ms ",
        );
        m.append(start_text.as_str());
        return Err(refuse(m));
    }
    let workdir = run_workdir(temp_dir, run_id);
    let offset_report = match offset_report_out {
        Some(path) => path.to_owned(),
        None => within(workdir.as_str(), "offsets.json"),
    };
    Ok(
        RestorePlan {
            set: set.clone(),
            storage: spec.source.storage.clone(),
            target_bootstrap: copy_texts(&spec.target.bootstrap_servers),
            target_auth: spec.target.auth.clone(),
            topic_mapping: mapping.copy(),
            time_window: (floor.start, end),
            window_floor_source: floor.source,
            default_replication_factor: spec.target.default_replication_factor,
            checkpoint_state: within(workdir.as_str(), "checkpoint.json"),
            checkpoint_interval_secs: 30,
            offset_report,
        },
    )
}

/// What a plan comes to, where the named topics' earliest start is known.
pub open spec fn plan_is(
    r: Result<RestorePlan, DrillError>,
    spec: DrillSpec,
    set: BackupSetRef,
    mapping: Seq<(Seq<char>, Seq<char>)>,
    earliest: Option<i64>,
    run_id: Seq<char>,
    temp_dir: Seq<char>,
    offset_report_out: Option<Seq<char>>,
) -> bool {
    match earliest {
        None => r matches Err(e) && e@ == ErrorModel::Guard(
            no_floor_text(set.backup_id@, keys_of(mapping)),
        ),
        Some(ms) => if !representable_millis(ms as int) {
            r matches Err(e) && e@ == ErrorModel::Guard(
                floor_range_text(set.backup_id@, ms as int),
            )
        } else {
            floored_plan_is(
                r,
                spec,
                set,
                mapping,
                run_id,
                temp_dir,
                moment_at(ms as int),
                WindowFloorSource::ArchiveManifest,
                ms as int,
                offset_report_out,
            )
        },
    }
}

/// The keys of a map as texts.
pub fn key_texts(m: &TextMap) -> (r: Vec<String>)
    ensures
        texts(r@) == keys_of(m@),
{
    let mut out: Vec<String> = Vec::new();
    let n: usize = m.len();
    let mut i: usize = 0;
    while i < n
        invariant
            0 <= i <= n == m@.len(),
            out.len() == i,
            forall|j: int| 0 <= j < i ==> (#[trigger] out@[j])@ == m@[j].0,
        decreases n - i,
    {
        out.push(m.key(i).to_owned());
        i += 1;
    }
    proof {
        assert(texts(out@) =~= keys_of(m@));
    }
    out
}

/// Builds the plan of a restore. Its window starts where the archive's
/// manifest starts for the topics that the restore names.
pub fn build_plan(
    spec: &DrillSpec,
    set: &BackupSetRef,
    mapping: &TextMap,
    facts: &BackupSetFacts,
    run_id: &str,
    temp_dir: &str,
    offset_report_out: Option<&str>,
) -> (r: Result<RestorePlan, DrillError>)
    ensures
        exists|earliest: Option<i64>| #[trigger]
            is_earliest(earliest, facts.topics@, mapping@) && plan_is(
                r,
                *spec,
                *set,
                mapping@,
                earliest,
                run_id@,
                temp_dir@,
                text_in(offset_report_out),
            ),
        r matches Ok(plan) ==> plan.time_window.1@ == (match spec.point_in_time {
            Some(t) => t@,
            None => spec.sample.window_end@,
        }),
{
    let earliest = earliest_covered_timestamp_ms(facts, mapping);
    assert(is_earliest(earliest, facts.topics@, mapping@));
    let floor_ms: i64 = match earliest {
        None => {
            let mut m = "the archive set `".to_owned();
            m.append(set.backup_id.as_str());
            m.append(
                "` records no segment in its manifest for any of the topics this restore names (",
            );
            m.append(join(&key_texts(mapping), ", ").as_str());
            m.append(
                "), so it has no earliest covered timestamp; a Restore's window start is the archive set's earliest covered timestamp, never the spec's, so this plan has no floor to bind and is refused before anything runs",
            );
            return Err(refuse(m));
        },
        Some(ms) => ms,
    };
    let start = match Timestamp::from_millis(floor_ms) {
        None => {
            let mut m = "the archive set `".to_owned();
            m.append(set.backup_id.as_str());
            m.append("` records an earliest covered timestamp of epoch-ms ");
            m.append(i64_text(floor_ms).as_str());
            m.append(", which is outside the representable date range");
            return Err(refuse(m));
        },
        Some(start) => start,
    };
    build_plan_with_floor(
        spec,
        set,
        mapping,
        run_id,
        temp_dir,
        WindowFloor {
            start,
            source: WindowFloorSource::ArchiveManifest,
            manifest_floor_ms: floor_ms,
        },
        offset_report_out,
    )
}

/// A plan's window holds an instant, and starts at the earliest instant that
/// the manifest covers for the topics that the restore names.
pub proof fn a_plan_starts_where_the_archive_does(
    plan: RestorePlan,
    spec: DrillSpec,
    set: BackupSetRef,
    mapping: Seq<(Seq<char>, Seq<char>)>,
    topics: Seq<TopicFacts>,
    earliest: Option<i64>,
    run_id: Seq<char>,
    temp_dir: Seq<char>,
    offset_report_out: Option<Seq<char>>,
)
    requires
        is_earliest(earliest, topics, mapping),
        plan_is(
            Ok(plan),
            spec,
            set,
            mapping,
            earliest,
            run_id,
            temp_dir,
            offset_report_out,
        ),
    ensures
        plan.time_window.0@.before(plan.time_window.1@),
        plan.time_window.0@ == moment_at(millis_of(plan.time_window.0@)),
        covers(topics, mapping, millis_of(plan.time_window.0@) as i64),
        forall|other: i64|
            covers(topics, mapping, other) ==> millis_of(plan.time_window.0@) <= other,
        plan.target_auth == spec.target.auth,
{
}

// ---- choosing the backup set -----------------------------------------------

/// The first set with that id.
pub open spec fn first_with_id(sets: Seq<BackupSetRef>, id: Seq<char>) -> Option<BackupSetRef>
    decreases sets.len(),
{
    if sets.len() == 0 {
        None
    } else {
        match first_with_id(sets.drop_last(), id) {
            Some(s) => Some(s),
            None => if sets.last().backup_id@ == id {
                Some(sets.last())
            } else {
                None
            },
        }
    }
}

/// A set found among the first sets is the first found among all.
proof fn first_with_id_stays(sets: Seq<BackupSetRef>, n: int, id: Seq<char>)
    requires
        0 <= n <= sets.len(),
        first_with_id(sets.take(n), id) is Some,
    ensures
        first_with_id(sets, id) == first_with_id(sets.take(n), id),
    decreases sets.len() - n,
{
    if n < sets.len() {
        assert(sets.take(n + 1).drop_last() =~= sets.take(n));
        first_with_id_stays(sets, n + 1, id);
    } else {
        assert(sets.take(n) =~= sets);
    }
}

/// The failure where the archive does not hold the set that the plan names.
pub open spec fn no_such_set(id: Seq<char>) -> ErrorModel {
    ErrorModel::Operational(
        "the archive holds no backup set with id `"@ + id
            + "`; refusing to fall back to another set, which would restore something other than the approved plan"@,
    )
}

/// The backup set that a plan names, or why there is none.
pub open spec fn picked(
    r: Result<BackupSetRef, DrillError>,
    sets: Seq<BackupSetRef>,
    wanted: Seq<char>,
) -> bool {
    if sets.len() == 0 {
        r matches Err(e) && e@ == ErrorModel::Operational(
            "the archive holds no backup set at the configured source storage location"@,
        )
    } else if wanted == "latestCompleted"@ {
        r matches Ok(s) && s == sets.last()
    } else {
        match first_with_id(sets, wanted) {
            Some(found) => r matches Ok(s) && s == found,
            None => r matches Err(e) && e@ == no_such_set(wanted),
        }
    }
}

/// Picks the backup set that a plan names: the newest, which is the last of
/// those listed, or the one with the id that the plan pins, and no other in its
/// place.
pub fn pick_backup_set(sets: &Vec<BackupSetRef>, wanted: &String) -> (r: Result<
    BackupSetRef,
    DrillError,
>)
    ensures
        picked(r, sets@, wanted@),
{
    if sets.len() == 0 {
        return Err(
            DrillError::Operational(
                "the archive holds no backup set at the configured source storage location".to_owned(),
            ),
        );
    }
    if *wanted == "latestCompleted".to_owned() {
        return Ok(sets[sets.len() - 1].clone());
    }
    let mut i: usize = 0;
    proof {
        assert(sets@.take(0) =~= Seq::empty());
    }
    while i < sets.len()
        invariant
            0 <= i <= sets.len(),
            sets@.len() > 0,
            wanted@ != "latestCompleted"@,
            first_with_id(sets@.take(i as int), wanted@) is None,
        decreases sets.len() - i,
    {
        proof {
            assert(sets@.take(i + 1).drop_last() =~= sets@.take(i as int));
            assert(sets@.take(i + 1).last() == sets@[i as int]);
        }
        if sets[i].backup_id == *wanted {
            proof {
                first_with_id_stays(sets@, i + 1, wanted@);
            }
            return Ok(sets[i].clone());
        }
        i += 1;
    }
    proof {
        assert(sets@.take(sets.len() as int) =~= sets@);
    }
    let mut m = "the archive holds no backup set with id `".to_owned();
    m.append(wanted.as_str());
    m.append(
        "`; refusing to fall back to another set, which would restore something other than the approved plan",
    );
    Err(DrillError::Operational(m))
}

} // verus!
