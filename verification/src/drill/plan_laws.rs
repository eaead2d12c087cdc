//! What the plan of a restore promises, in terms of the archive and of what was
//! asked for.
use vstd::prelude::*;
use crate::clock::{representable_millis, Moment};
use crate::drill::error::DrillError;
use crate::drill::facts::{BackupSetRef, TopicFacts};
use crate::drill::plan::{
    covers, first_with_id, floored_plan_is, is_earliest, picked, plan_is, workdir_of, RestorePlan,
    WindowFloorSource,
};
use crate::drill::spec::DrillSpec;
use crate::text::texts;
use crate::textmap::has_key;

verus! {

/// A restore stops at the recovery point that the plan asks for, and at the end
/// of the sampled window only where it asks for none.
pub proof fn a_restore_stops_at_its_recovery_point(
    plan: RestorePlan,
    spec: DrillSpec,
    set: BackupSetRef,
    mapping: Seq<(Seq<char>, Seq<char>)>,
    earliest: Option<i64>,
    run_id: Seq<char>,
    temp_dir: Seq<char>,
    offset_report_out: Option<Seq<char>>,
)
    requires
        plan_is(Ok(plan), spec, set, mapping, earliest, run_id, temp_dir, offset_report_out),
    ensures
        spec.point_in_time matches Some(t) ==> plan.time_window.1@ == t@,
        spec.point_in_time is None ==> plan.time_window.1@ == spec.sample.window_end@,
{
}

/// Wherever a restore's window is said to start, it stops at the recovery point
/// that the plan asks for, and a window is planned exactly where its start is
/// before its end and is the archive's own if it is said to be.
pub proof fn a_given_start_moves_no_end(
    r: Result<RestorePlan, DrillError>,
    spec: DrillSpec,
    set: BackupSetRef,
    mapping: Seq<(Seq<char>, Seq<char>)>,
    run_id: Seq<char>,
    temp_dir: Seq<char>,
    start: Moment,
    source: WindowFloorSource,
    manifest_floor_ms: int,
    offset_report_out: Option<Seq<char>>,
)
    requires
        floored_plan_is(
            r,
            spec,
            set,
            mapping,
            run_id,
            temp_dir,
            start,
            source,
            manifest_floor_ms,
            offset_report_out,
        ),
    ensures
        ({
            let end = match spec.point_in_time {
                Some(t) => t@,
                None => spec.sample.window_end@,
            };
            &&& r is Ok <==> (start.secs < end.secs || (start.secs == end.secs && start.nanos
                < end.nanos)) && (source == WindowFloorSource::ArchiveManifest ==> start.secs * 1000
                + start.nanos / 1_000_000 == manifest_floor_ms)
            &&& r matches Ok(plan) ==> plan.time_window.0@ == start && plan.time_window.1@ == end
                && plan.window_floor_source == source
            &&& r matches Err(e) ==> e@ is Guard
        }),
{
}

/// A restore starts no later than any segment of a topic that it names, and at
/// the start of one of them.
pub proof fn a_restore_leaves_no_segment_out(
    plan: RestorePlan,
    spec: DrillSpec,
    set: BackupSetRef,
    mapping: Seq<(Seq<char>, Seq<char>)>,
    topics: Seq<TopicFacts>,
    earliest: Option<i64>,
    run_id: Seq<char>,
    temp_dir: Seq<char>,
    offset_report_out: Option<Seq<char>>,
    a: int,
    b: int,
    c: int,
    k: int,
)
    requires
        is_earliest(earliest, topics, mapping),
        plan_is(Ok(plan), spec, set, mapping, earliest, run_id, temp_dir, offset_report_out),
        0 <= a < topics.len(),
        0 <= b < topics[a].partitions@.len(),
        0 <= c < topics[a].partitions@[b].segments@.len(),
        0 <= k < mapping.len(),
        mapping[k].0 == topics[a].name@,
    ensures
        plan.time_window.0@.secs * 1000 + plan.time_window.0@.nanos / 1_000_000
            <= topics[a].partitions@[b].segments@[c].start_timestamp,
        plan.window_floor_source == WindowFloorSource::ArchiveManifest,
{
    assert(has_key(mapping, topics[a].name@));
    assert(covers(topics, mapping, topics[a].partitions@[b].segments@[c].start_timestamp));
}

/// Where a restore starts, a segment of a topic that it names does.
pub proof fn a_restore_starts_with_a_segment(
    plan: RestorePlan,
    spec: DrillSpec,
    set: BackupSetRef,
    mapping: Seq<(Seq<char>, Seq<char>)>,
    topics: Seq<TopicFacts>,
    earliest: Option<i64>,
    run_id: Seq<char>,
    temp_dir: Seq<char>,
    offset_report_out: Option<Seq<char>>,
)
    requires
        is_earliest(earliest, topics, mapping),
        plan_is(Ok(plan), spec, set, mapping, earliest, run_id, temp_dir, offset_report_out),
    ensures
        exists|a: int, b: int, c: int, k: int|
            0 <= a < topics.len() && 0 <= b < topics[a].partitions@.len() && 0 <= c
                < topics[a].partitions@[b].segments@.len() && 0 <= k < mapping.len() && (
            #[trigger] mapping[k]).0 == topics[a].name@ && (
            #[trigger] topics[a].partitions@[b].segments@[c]).start_timestamp
                == plan.time_window.0@.secs * 1000 + plan.time_window.0@.nanos / 1_000_000,
{
    let ms = earliest->0;
    let (a, b, c) = choose|a: int, b: int, c: int|
        #![trigger topics[a].partitions@[b].segments@[c]]
        {
            &&& 0 <= a < topics.len()
            &&& has_key(mapping, topics[a].name@)
            &&& 0 <= b < topics[a].partitions@.len()
            &&& 0 <= c < topics[a].partitions@[b].segments@.len()
            &&& topics[a].partitions@[b].segments@[c].start_timestamp == ms
        };
    let k = choose|k: int| 0 <= k < mapping.len() && #[trigger] mapping[k].0 == topics[a].name@;
    assert(mapping[k].0 == topics[a].name@);
    assert(topics[a].partitions@[b].segments@[c].start_timestamp == ms);
}

/// A plan is refused, and by a guard, exactly where no named topic has a segment
/// in the manifest, where the earliest is no date, or where the recovery point
/// is not after it; and what is planned is what was asked for.
pub proof fn a_plan_is_made_wherever_it_can_be(
    r: Result<RestorePlan, DrillError>,
    spec: DrillSpec,
    set: BackupSetRef,
    mapping: Seq<(Seq<char>, Seq<char>)>,
    earliest: Option<i64>,
    run_id: Seq<char>,
    temp_dir: Seq<char>,
    offset_report_out: Option<Seq<char>>,
)
    requires
        plan_is(r, spec, set, mapping, earliest, run_id, temp_dir, offset_report_out),
    ensures
        ({
            let end = match spec.point_in_time {
                Some(t) => t@,
                None => spec.sample.window_end@,
            };
            r is Ok <==> earliest is Some && ({
                let ms = earliest->0 as int;
                &&& representable_millis(ms)
                &&& ms / 1000 < end.secs || (ms / 1000 == end.secs && ms % 1000 * 1_000_000
                    < end.nanos)
            })
        }),
        r matches Err(e) ==> e@ is Guard,
        r matches Ok(plan) ==> {
            &&& plan.set == set
            &&& plan.storage@ == spec.source.storage@
            &&& texts(plan.target_bootstrap@) == texts(spec.target.bootstrap_servers@)
            &&& plan.target_auth == spec.target.auth
            &&& plan.topic_mapping@ == mapping
            &&& plan.default_replication_factor == spec.target.default_replication_factor
            &&& offset_report_out matches Some(path) ==> plan.offset_report@ == path
        },
{
}

/// The set that is picked is the last listed where the newest is asked for; and
/// otherwise it has the id that was asked for, no set before it has, and where
/// none has it none is picked.
pub proof fn no_other_set_takes_the_place_of_a_named_one(
    r: Result<BackupSetRef, DrillError>,
    sets: Seq<BackupSetRef>,
    wanted: Seq<char>,
)
    requires
        picked(r, sets, wanted),
    ensures
        wanted == "latestCompleted"@ ==> (r is Ok <==> sets.len() > 0) && (r matches Ok(s) ==> s
            == sets[sets.len() - 1]),
        wanted != "latestCompleted"@ ==> (r is Ok <==> exists|i: int|
            0 <= i < sets.len() && (#[trigger] sets[i]).backup_id@ == wanted),
        wanted != "latestCompleted"@ ==> (r matches Ok(s) ==> exists|i: int|
            0 <= i < sets.len() && s == #[trigger] sets[i] && sets[i].backup_id@ == wanted
                && forall|j: int| 0 <= j < i ==> (#[trigger] sets[j]).backup_id@ != wanted),
        r matches Err(e) ==> e@ is Operational,
{
    first_with_that_id(sets, wanted);
}

proof fn first_with_that_id(sets: Seq<BackupSetRef>, id: Seq<char>)
    ensures
        match first_with_id(sets, id) {
            Some(s) => exists|i: int|
                0 <= i < sets.len() && s == #[trigger] sets[i] && sets[i].backup_id@ == id
                    && forall|j: int| 0 <= j < i ==> (#[trigger] sets[j]).backup_id@ != id,
            None => forall|j: int| 0 <= j < sets.len() ==> (#[trigger] sets[j]).backup_id@ != id,
        },
    decreases sets.len(),
{
    if sets.len() > 0 {
        let rest = sets.drop_last();
        first_with_that_id(rest, id);
        match first_with_id(rest, id) {
            Some(s) => {
                let i = choose|i: int|
                    0 <= i < rest.len() && s == #[trigger] rest[i] && rest[i].backup_id@ == id
                        && forall|j: int| 0 <= j < i ==> (#[trigger] rest[j]).backup_id@ != id;
                assert(sets[i] == rest[i]);
                assert forall|j: int| 0 <= j < i implies (#[trigger] sets[j]).backup_id@ != id by {
                    assert(rest[j] == sets[j]);
                }
            },
            None => {
                let last = sets.len() - 1;
                assert forall|j: int| 0 <= j < last implies (#[trigger] sets[j]).backup_id@
                    != id by {
                    assert(rest[j] == sets[j]);
                }
                assert(sets[last] == sets.last());
            },
        }
    }
}

/// The files of a run lie in a directory of its own, which its name makes
/// different from that of every other run.
pub proof fn each_run_has_its_own_directory(temp_dir: Seq<char>, run_id: Seq<char>, other: Seq<char>)
    ensures
        temp_dir.len() > 0 && temp_dir[temp_dir.len() - 1] == '/' ==> workdir_of(temp_dir, run_id)
            == temp_dir + "logweir-"@ + run_id,
        temp_dir.len() > 0 && temp_dir[temp_dir.len() - 1] != '/' ==> workdir_of(temp_dir, run_id)
            == temp_dir + "/logweir-"@ + run_id,
        workdir_of(temp_dir, run_id) == workdir_of(temp_dir, other) ==> run_id == other,
{
    reveal_strlit("/");
    reveal_strlit("logweir-");
    reveal_strlit("/logweir-");
    assert("/logweir-"@ =~= "/"@ + "logweir-"@);
    let (a, b) = (workdir_of(temp_dir, run_id), workdir_of(temp_dir, other));
    assert(temp_dir + ("logweir-"@ + run_id) =~= temp_dir + "logweir-"@ + run_id);
    assert(temp_dir + "/"@ + ("logweir-"@ + run_id) =~= temp_dir + ("/"@ + "logweir-"@) + run_id);
    if a == b {
        let n = a.len() - run_id.len();
        assert(run_id =~= a.skip(n));
        assert(other =~= b.skip(n));
    }
}

/// A plan keeps the engine's checkpoint and its report in the run's directory,
/// but for a report that was asked for elsewhere.
pub proof fn a_plan_writes_only_where_it_may(
    plan: RestorePlan,
    spec: DrillSpec,
    set: BackupSetRef,
    mapping: Seq<(Seq<char>, Seq<char>)>,
    earliest: Option<i64>,
    run_id: Seq<char>,
    temp_dir: Seq<char>,
    offset_report_out: Option<Seq<char>>,
)
    requires
        plan_is(Ok(plan), spec, set, mapping, earliest, run_id, temp_dir, offset_report_out),
    ensures
        workdir_of(temp_dir, run_id).is_prefix_of(plan.checkpoint_state@),
        offset_report_out is None ==> workdir_of(temp_dir, run_id).is_prefix_of(plan.offset_report@)
            && plan.offset_report@ != plan.checkpoint_state@,
        offset_report_out matches Some(path) ==> plan.offset_report@ == path,
        plan.checkpoint_interval_secs == 30,
{
    let dir = workdir_of(temp_dir, run_id);
    reveal_strlit("checkpoint.json");
    reveal_strlit("offsets.json");
    reveal_strlit("/");
    assert(dir.is_prefix_of(dir + "checkpoint.json"@));
    assert(dir.is_prefix_of(dir + "/"@ + "checkpoint.json"@));
    assert(dir.is_prefix_of(dir + "offsets.json"@));
    assert(dir.is_prefix_of(dir + "/"@ + "offsets.json"@));
    if offset_report_out is None {
        assert(plan.offset_report@.len() != plan.checkpoint_state@.len());
    }
}

} // verus!
