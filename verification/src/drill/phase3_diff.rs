//! What the restore is about to do to the target.
use vstd::prelude::*;
use crate::drill::facts::{BackupSetFacts, PartitionFacts, TopicFacts};
use crate::drill::phase2_target::{TargetState, TopicState};
use crate::drill::scorecard::TargetDiffSummary;
use crate::text::{decimal_int, i64_text, join, joined, texts};
use crate::namemap::held;
use crate::textmap::{lookup, TextMap};

verus! {

/// A target topic that exists already.
#[derive(Debug)]
pub struct Collision {
    pub topic: String,
    pub existing_partitions: i32,
    /// How many records its partitions hold together.
    pub existing_end_offsets: i64,
    /// The settings in which it differs from the source.
    pub existing_configs_differing: Vec<String>,
}

/// What the restore is about to do to the target.
#[derive(Debug)]
pub struct TargetDiff {
    pub collisions: Vec<Collision>,
    /// The target topics that do not exist.
    pub absent: Vec<String>,
    /// The topics to be created, with their partition counts.
    pub would_create: Vec<(String, i32)>,
}

/// A collision in words.
pub open spec fn collision_text(c: Collision) -> Seq<char> {
    c.topic@ + ": "@ + decimal_int(c.existing_partitions as int) + " partition(s), "@ + decimal_int(
        c.existing_end_offsets as int,
    ) + " record(s) already present, differing config: ["@ + joined(
        texts(c.existing_configs_differing@),
        ", "@,
    ) + "]"@
}

/// Puts a collision in words.
fn describe(c: &Collision) -> (r: String)
    ensures
        r@ == collision_text(*c),
{
    let mut s = c.topic.clone();
    s.append(": ");
    s.append(i64_text(c.existing_partitions as i64).as_str());
    s.append(" partition(s), ");
    s.append(i64_text(c.existing_end_offsets).as_str());
    s.append(" record(s) already present, differing config: [");
    s.append(join(&c.existing_configs_differing, ", ").as_str());
    s.append("]");
    s
}

/// The topics to be created, as texts.
pub open spec fn creations(v: Seq<(String, i32)>) -> Seq<(Seq<char>, i32)> {
    Seq::new(v.len(), |i: int| (v[i].0@, v[i].1))
}

/// The difference as the document carries it.
pub open spec fn summarises(r: TargetDiffSummary, d: TargetDiff) -> bool {
    &&& r.collisions@.len() == d.collisions@.len()
    &&& forall|i: int|
        0 <= i < d.collisions@.len() ==> (#[trigger] r.collisions@[i])@ == collision_text(
            d.collisions@[i],
        )
    &&& texts(r.absent@) == texts(d.absent@)
    &&& creations(r.would_create@) == creations(d.would_create@)
    &&& r.level@ == "full"@
}

impl TargetDiff {
    /// The difference as the document carries it.
    pub fn summarise(&self) -> (r: TargetDiffSummary)
        ensures
            summarises(r, *self),
    {
        let mut collisions: Vec<String> = Vec::new();
        let mut i: usize = 0;
        while i < self.collisions.len()
            invariant
                0 <= i <= self.collisions.len(),
                collisions.len() == i,
                forall|j: int|
                    0 <= j < i ==> (#[trigger] collisions@[j])@ == collision_text(
                        self.collisions@[j],
                    ),
            decreases self.collisions.len() - i,
        {
            collisions.push(describe(&self.collisions[i]));
            i += 1;
        }
        let mut would_create: Vec<(String, i32)> = Vec::new();
        let mut k: usize = 0;
        while k < self.would_create.len()
            invariant
                0 <= k <= self.would_create.len(),
                would_create.len() == k,
                forall|j: int|
                    0 <= j < k ==> (#[trigger] would_create@[j]).0@ == self.would_create@[j].0@
                        && would_create@[j].1 == self.would_create@[j].1,
            decreases self.would_create.len() - k,
        {
            would_create.push((self.would_create[k].0.clone(), self.would_create[k].1));
            k += 1;
        }
        proof {
            assert(creations(would_create@) =~= creations(self.would_create@));
        }
        TargetDiffSummary {
            collisions,
            absent: crate::text::copy_texts(&self.absent),
            would_create,
            level: "full".to_owned(),
        }
    }
}

/// The greatest partition id, or -1 where there is none.
pub open spec fn greatest_partition(parts: Seq<PartitionFacts>) -> int
    decreases parts.len(),
{
    if parts.len() == 0 {
        -1
    } else if parts.len() == 1 {
        parts[0].partition_id as int
    } else {
        let rest = greatest_partition(parts.drop_last());
        if rest >= parts.last().partition_id {
            rest
        } else {
            parts.last().partition_id as int
        }
    }
}

/// How many partitions a target topic has to have: as many as its source had,
/// where the manifest says so, and else enough for its greatest partition.
pub open spec fn partitions_wanted(t: TopicFacts) -> int {
    match t.original_partition_count {
        Some(n) => n as int,
        None => greatest_partition(t.partitions@) + 1,
    }
}

/// How many partitions a target topic has to have.
pub fn restore_partition_count(t: &TopicFacts) -> (r: i32)
    requires
        partitions_wanted(*t) <= i32::MAX,
    ensures
        r == partitions_wanted(*t),
{
    if let Some(n) = t.original_partition_count {
        return n;
    }
    if t.partitions.len() == 0 {
        return 0;
    }
    let mut greatest: i32 = t.partitions[0].partition_id;
    let mut i: usize = 1;
    proof {
        assert(t.partitions@.take(1).len() == 1);
        assert(t.partitions@.take(1)[0] == t.partitions@[0]);
    }
    while i < t.partitions.len()
        invariant
            1 <= i <= t.partitions.len(),
            greatest == greatest_partition(t.partitions@.take(i as int)),
        decreases t.partitions.len() - i,
    {
        proof {
            assert(t.partitions@.take(i + 1).drop_last() =~= t.partitions@.take(i as int));
            assert(t.partitions@.take(i + 1).last() == t.partitions@[i as int]);
        }
        if t.partitions[i].partition_id > greatest {
            greatest = t.partitions[i].partition_id;
        }
        i += 1;
    }
    proof {
        assert(t.partitions@.take(t.partitions.len() as int) =~= t.partitions@);
    }
    greatest + 1
}

/// How many records the partitions hold together.
pub open spec fn records_present(ends: Seq<(i32, i64)>) -> int
    decreases ends.len(),
{
    if ends.len() == 0 {
        0
    } else {
        records_present(ends.drop_last()) + ends.last().1
    }
}

/// The settings of the source that the target has another value for.
pub open spec fn differing(
    source: Seq<(Seq<char>, Seq<char>)>,
    target: Seq<(Seq<char>, Seq<char>)>,
) -> Seq<Seq<char>>
    decreases source.len(),
{
    if source.len() == 0 {
        Seq::empty()
    } else {
        let rest = differing(source.drop_last(), target);
        let (key, value) = source.last();
        match lookup(target, key) {
            Some(current) => if current != value {
                rest.push(key)
            } else {
                rest
            },
            None => rest,
        }
    }
}

/// The settings of the source that the target has another value for.
fn differing_keys(source: &TextMap, target: &TextMap) -> (r: Vec<String>)
    ensures
        texts(r@) == differing(source@, target@),
{
    let mut out: Vec<String> = Vec::new();
    let n: usize = source.len();
    let mut i: usize = 0;
    proof {
        assert(source@.take(0) =~= Seq::empty());
        assert(texts(out@) =~= Seq::empty());
    }
    while i < n
        invariant
            0 <= i <= n == source@.len(),
            texts(out@) == differing(source@.take(i as int), target@),
        decreases n - i,
    {
        let ghost before = texts(out@);
        let key = source.key(i);
        proof {
            assert(source@.take(i + 1).drop_last() =~= source@.take(i as int));
            assert(source@.take(i + 1).last() == source@[i as int]);
        }
        if let Some(current) = target.get(key) {
            if current.to_owned() != source.value(i).to_owned() {
                out.push(key.to_owned());
                proof {
                    assert(texts(out@) =~= before.push(key@));
                }
            }
        }
        i += 1;
    }
    proof {
        assert(source@.take(n as int) =~= source@);
    }
    out
}

/// The partial sums of the end offsets fit in 64 bits.
pub open spec fn offsets_fit(ends: Seq<(i32, i64)>) -> bool {
    forall|n: int|
        0 <= n <= ends.len() ==> i64::MIN <= #[trigger] records_present(ends.take(n)) <= i64::MAX
}

/// How many records the partitions hold together.
fn sum_offsets(ends: &Vec<(i32, i64)>) -> (r: i64)
    requires
        offsets_fit(ends@),
    ensures
        r == records_present(ends@),
{
    let mut total: i64 = 0;
    let mut i: usize = 0;
    proof {
        assert(ends@.take(0) =~= Seq::empty());
    }
    while i < ends.len()
        invariant
            0 <= i <= ends.len(),
            offsets_fit(ends@),
            total == records_present(ends@.take(i as int)),
        decreases ends.len() - i,
    {
        proof {
            assert(ends@.take(i + 1).drop_last() =~= ends@.take(i as int));
            assert(i64::MIN <= records_present(ends@.take(i + 1)) <= i64::MAX);
        }
        total = total + ends[i].1;
        i += 1;
    }
    proof {
        assert(ends@.take(ends.len() as int) =~= ends@);
    }
    total
}

/// The target topics of the archive's topics that are mapped, in the archive's
/// order, each with the archive's facts.
pub open spec fn mapped(topics: Seq<TopicFacts>, mapping: Seq<(Seq<char>, Seq<char>)>) -> Seq<
    (Seq<char>, TopicFacts),
>
    decreases topics.len(),
{
    if topics.len() == 0 {
        Seq::empty()
    } else {
        let rest = mapped(topics.drop_last(), mapping);
        match lookup(mapping, topics.last().name@) {
            Some(target) => rest.push((target, topics.last())),
            None => rest,
        }
    }
}

/// The target topics to be created, in order.
pub open spec fn to_create(
    wanted: Seq<(Seq<char>, TopicFacts)>,
    state: Seq<(Seq<char>, TopicState)>,
) -> Seq<(Seq<char>, int)>
    decreases wanted.len(),
{
    if wanted.len() == 0 {
        Seq::empty()
    } else {
        let rest = to_create(wanted.drop_last(), state);
        let (target, t) = wanted.last();
        if held(state, target) is None {
            rest.push((target, partitions_wanted(t)))
        } else {
            rest
        }
    }
}

/// The target topics that exist already, in order, with their states.
pub open spec fn colliding(
    wanted: Seq<(Seq<char>, TopicFacts)>,
    state: Seq<(Seq<char>, TopicState)>,
) -> Seq<(Seq<char>, TopicFacts, TopicState)>
    decreases wanted.len(),
{
    if wanted.len() == 0 {
        Seq::empty()
    } else {
        let rest = colliding(wanted.drop_last(), state);
        let (target, t) = wanted.last();
        match held(state, target) {
            Some(s) => rest.push((target, t, s)),
            None => rest,
        }
    }
}

/// A target topic that exists, as it is reported.
pub open spec fn collision_is(c: Collision, target: Seq<char>, t: TopicFacts, s: TopicState) -> bool {
    &&& c.topic@ == target
    &&& c.existing_partitions == s.partitions
    &&& c.existing_end_offsets == records_present(s.end_offsets@)
    &&& texts(c.existing_configs_differing@) == differing(t.configurations@, s.configs@)
}

/// What the comparison comes to.
pub open spec fn diff_is(
    d: TargetDiff,
    target: TargetState,
    facts: BackupSetFacts,
    mapping: Seq<(Seq<char>, Seq<char>)>,
) -> bool {
    let wanted = mapped(facts.topics@, mapping);
    let made = to_create(wanted, target.topics@);
    let met = colliding(wanted, target.topics@);
    &&& d.would_create@.len() == made.len()
    &&& forall|i: int|
        0 <= i < made.len() ==> (#[trigger] d.would_create@[i]).0@ == made[i].0
            && d.would_create@[i].1 == made[i].1
    &&& d.absent@.len() == made.len()
    &&& forall|i: int| 0 <= i < made.len() ==> (#[trigger] d.absent@[i])@ == made[i].0
    &&& d.collisions@.len() == met.len()
    &&& forall|i: int|
        0 <= i < met.len() ==> collision_is(
            #[trigger] d.collisions@[i],
            met[i].0,
            met[i].1,
            met[i].2,
        )
}

/// The partitions that the mapped topics have to have can be counted.
pub open spec fn partitions_fit(wanted: Seq<(Seq<char>, TopicFacts)>) -> bool {
    forall|i: int| 0 <= i < wanted.len() ==> partitions_wanted((#[trigger] wanted[i]).1) <= i32::MAX
}

/// The records on the target topics that exist already can be counted.
pub open spec fn collisions_fit(met: Seq<(Seq<char>, TopicFacts, TopicState)>) -> bool {
    forall|i: int| 0 <= i < met.len() ==> offsets_fit((#[trigger] met[i]).2.end_offsets@)
}

/// The mapped topics among the first are the first of all.
pub proof fn mapped_grows(
    topics: Seq<TopicFacts>,
    mapping: Seq<(Seq<char>, Seq<char>)>,
    n: int,
)
    requires
        0 <= n <= topics.len(),
    ensures
        mapped(topics.take(n), mapping).is_prefix_of(mapped(topics, mapping)),
    decreases topics.len() - n,
{
    let c = mapped(topics, mapping);
    if n < topics.len() {
        mapped_grows(topics, mapping, n + 1);
        assert(topics.take(n + 1).drop_last() =~= topics.take(n));
        let a = mapped(topics.take(n), mapping);
        let b = mapped(topics.take(n + 1), mapping);
        assert(a =~= b.subrange(0, a.len() as int));
        assert(a =~= c.subrange(0, a.len() as int));
    } else {
        assert(topics.take(n) =~= topics);
        assert(c =~= c.subrange(0, c.len() as int));
    }
}

/// The collisions among the first topics are the first of all.
proof fn colliding_grows(
    wanted: Seq<(Seq<char>, TopicFacts)>,
    state: Seq<(Seq<char>, TopicState)>,
    n: int,
)
    requires
        0 <= n <= wanted.len(),
    ensures
        colliding(wanted.take(n), state).is_prefix_of(colliding(wanted, state)),
    decreases wanted.len() - n,
{
    let c = colliding(wanted, state);
    if n < wanted.len() {
        colliding_grows(wanted, state, n + 1);
        assert(wanted.take(n + 1).drop_last() =~= wanted.take(n));
        let a = colliding(wanted.take(n), state);
        let b = colliding(wanted.take(n + 1), state);
        assert(a =~= b.subrange(0, a.len() as int));
        assert(a =~= c.subrange(0, a.len() as int));
    } else {
        assert(wanted.take(n) =~= wanted);
        assert(c =~= c.subrange(0, c.len() as int));
    }
}

/// Compares what the restore will write with what the target holds.
pub fn run(target: &TargetState, facts: &BackupSetFacts, mapping: &TextMap) -> (r: TargetDiff)
    requires
        partitions_fit(mapped(facts.topics@, mapping@)),
        collisions_fit(colliding(mapped(facts.topics@, mapping@), target.topics@)),
    ensures
        diff_is(r, *target, *facts, mapping@),
{
    let ghost all = mapped(facts.topics@, mapping@);
    let mut d = TargetDiff { collisions: Vec::new(), absent: Vec::new(), would_create: Vec::new() };
    let mut i: usize = 0;
    proof {
        assert(facts.topics@.take(0) =~= Seq::empty());
    }
    while i < facts.topics.len()
        invariant
            0 <= i <= facts.topics.len(),
            all == mapped(facts.topics@, mapping@),
            partitions_fit(all),
            collisions_fit(colliding(all, target.topics@)),
            ({
                let wanted = mapped(facts.topics@.take(i as int), mapping@);
                let made = to_create(wanted, target.topics@);
                let met = colliding(wanted, target.topics@);
                &&& d.would_create@.len() == made.len()
                &&& forall|j: int|
                    0 <= j < made.len() ==> (#[trigger] d.would_create@[j]).0@ == made[j].0
                        && d.would_create@[j].1 == made[j].1
                &&& d.absent@.len() == made.len()
                &&& forall|j: int| 0 <= j < made.len() ==> (#[trigger] d.absent@[j])@ == made[j].0
                &&& d.collisions@.len() == met.len()
                &&& forall|j: int|
                    0 <= j < met.len() ==> collision_is(
                        #[trigger] d.collisions@[j],
                        met[j].0,
                        met[j].1,
                        met[j].2,
                    )
            }),
        decreases facts.topics.len() - i,
    {
        let t = &facts.topics[i];
        let ghost so_far = mapped(facts.topics@.take(i as int), mapping@);
        proof {
            assert(facts.topics@.take(i + 1).drop_last() =~= facts.topics@.take(i as int));
            assert(facts.topics@.take(i + 1).last() == *t);
        }
        if let Some(dst) = mapping.get(t.name.as_str()) {
            let ghost now = so_far.push((dst@, *t));
            proof {
                assert(mapped(facts.topics@.take(i + 1), mapping@) == now);
                assert(now.drop_last() =~= so_far);
                mapped_grows(facts.topics@, mapping@, i + 1);
                assert(now =~= all.take(now.len() as int));
                assert(all[so_far.len() as int] == now.last());
            }
            match target.topics.get(dst) {
                None => {
                    d.absent.push(dst.to_owned());
                    d.would_create.push((dst.to_owned(), restore_partition_count(t)));
                },
                Some(st) => {
                    proof {
                        let met = colliding(all, target.topics@);
                        let part = colliding(now, target.topics@);
                        colliding_grows(all, target.topics@, now.len() as int);
                        assert(part.last().2 == *st);
                        assert(part.last() == met.subrange(0, part.len() as int)[part.len() - 1]);
                        assert(met[part.len() - 1].2 == *st);
                    }
                    let c = Collision {
                        topic: dst.to_owned(),
                        existing_partitions: st.partitions,
                        existing_end_offsets: sum_offsets(&st.end_offsets),
                        existing_configs_differing: differing_keys(&t.configurations, &st.configs),
                    };
                    d.collisions.push(c);
                },
            }
        }
        i += 1;
    }
    proof {
        assert(facts.topics@.take(facts.topics.len() as int) =~= facts.topics@);
    }
    d
}

} // verus!
