//! Judging the engine's own preflight of a restore.
use vstd::prelude::*;
use crate::drill::error::{refuse, DrillError, ErrorModel};
use crate::drill::facts::BackupSetFacts;
use crate::drill::plan::{earliest_covered_timestamp_ms, is_earliest, RestorePlan};
use crate::text::{
    chars_of, decimal_int, found_within, i64_text, occurs, occurs_at, parse_i64, spelled_i64,
    string_of, strip_prefix, trim, trimmed, without_opening,
};

verus! {

// ---- the rendered window ---------------------------------------------------

/// The index at which the line that starts at `from` ends.
pub open spec fn line_end(s: Seq<char>, from: int) -> int
    decreases s.len() - from,
{
    if from >= s.len() || s[from] == '\n' {
        from
    } else {
        line_end(s, from + 1)
    }
}

/// What stands behind an opening on the first line, from `from` on, that has
/// it.
pub open spec fn opened_line(s: Seq<char>, from: int, opening: Seq<char>) -> Option<Seq<char>>
    decreases s.len() + 1 - from,
{
    if from < 0 || from >= s.len() {
        None
    } else {
        proof {
            line_ends_within(s, from);
        }
        let end = line_end(s, from);
        match without_opening(s.subrange(from, end), opening) {
            Some(rest) => Some(rest),
            None => opened_line(s, end + 1, opening),
        }
    }
}

/// A line ends where it starts or later, and no later than the text.
pub proof fn line_ends_within(s: Seq<char>, from: int)
    requires
        0 <= from <= s.len(),
    ensures
        from <= line_end(s, from) <= s.len(),
    decreases s.len() - from,
{
    if from < s.len() && s[from] != '\n' {
        line_ends_within(s, from + 1);
    }
}

/// What stands behind an opening on the first line that has it.
fn find_line(doc: &str, opening: &str) -> (r: Option<String>)
    ensures
        match opened_line(doc@, 0, opening@) {
            Some(rest) => r matches Some(t) && t@ == rest,
            None => r is None,
        },
{
    let chars = chars_of(doc);
    let n: usize = chars.len();
    let mut from: usize = 0;
    while from < n
        invariant
            0 <= from <= n == chars.len(),
            chars@ == doc@,
            opened_line(doc@, 0, opening@) == opened_line(doc@, from as int, opening@),
        decreases n - from,
    {
        let mut end: usize = from;
        while end < n && chars[end] != '\n'
            invariant
                from <= end <= n == chars.len(),
                chars@ == doc@,
                line_end(doc@, from as int) == line_end(doc@, end as int),
            decreases n - end,
        {
            end += 1;
        }
        let line = string_of(&chars, from, end);
        if let Some(rest) = strip_prefix(line.as_str(), opening) {
            return Some(rest);
        }
        proof {
            if end >= n {
                assert(opened_line(doc@, end + 1, opening@) is None);
                assert(opened_line(doc@, n as int, opening@) is None);
            }
        }
        from = if end < n {
            end + 1
        } else {
            n
        };
    }
    None
}

/// What `str::parse::<i64>` says of a text that it cannot read as a number.
pub uninterp spec fn parse_fault(s: Seq<char>) -> Seq<char>;

/// `str::parse::<i64>` on a text that spells no such number gives an error,
/// and the error's words depend on the text alone.
#[verifier::external_body]
fn parse_fault_text(s: &str) -> (r: String)
    requires
        spelled_i64(s@) is None,
    ensures
        r@ == parse_fault(s@),
{
    match s.parse::<i64>() {
        Err(e) => e.to_string(),
        Ok(_) => String::new(),
    }
}

/// The opening of the line that carries the window's start.
pub open spec fn start_opening() -> Seq<char> {
    "  time_window_start: "@
}

/// The failure of a rendered document without a window's start.
pub open spec fn no_start_line() -> ErrorModel {
    ErrorModel::Operational(
        "the rendered restore.yaml carries no `  time_window_start:` line, so the archive floor cannot be checked against it"@,
    )
}

/// What the check of the rendered window comes to, where the named topics'
/// earliest start is known.
pub open spec fn floor_check_is(
    r: Result<(), DrillError>,
    set_id: Seq<char>,
    earliest: Option<i64>,
    rendered: Result<String, String>,
) -> bool {
    match earliest {
        None => r matches Err(e) && e@ == ErrorModel::Guard(
            "the archive set `"@ + set_id
                + "` records no segment in its manifest, so the rendered time_window_start cannot be checked against an archive floor"@,
        ),
        Some(floor) => match rendered {
            Err(why) => r matches Err(e) && e@ == ErrorModel::Operational(
                "rendering restore.yaml: "@ + why@,
            ),
            Ok(doc) => match opened_line(doc@, 0, start_opening()) {
                None => r matches Err(e) && e@ == no_start_line(),
                Some(rest) => match spelled_i64(trimmed(rest)) {
                    None => r matches Err(e) && e@ == ErrorModel::Operational(
                        "the rendered restore.yaml's time_window_start is not an integer: "@
                            + parse_fault(trimmed(rest)),
                    ),
                    Some(start) => if start != floor {
                        r matches Err(e) && e@ == ErrorModel::Guard(
                            "rendered time_window_start "@ + decimal_int(start as int)
                                + " is not the archive floor "@ + decimal_int(floor as int)
                                + "; a Restore's window start is the archive set's earliest covered timestamp, never the spec's"@,
                        )
                    } else {
                        r is Ok
                    },
                },
            },
        },
    }
}

/// Checks that the document which the engine will be handed starts its window
/// where the archive starts for the topics that the plan names. The start is
/// read back off the rendered document, and not off the plan.
pub fn check_rendered_window_floor(
    plan: &RestorePlan,
    facts: &BackupSetFacts,
    rendered: &Result<String, String>,
) -> (r: Result<(), DrillError>)
    ensures
        exists|earliest: Option<i64>| #[trigger]
            is_earliest(earliest, facts.topics@, plan.topic_mapping@) && floor_check_is(
                r,
                plan.set.backup_id@,
                earliest,
                *rendered,
            ),
{
    let earliest = earliest_covered_timestamp_ms(facts, &plan.topic_mapping);
    assert(is_earliest(earliest, facts.topics@, plan.topic_mapping@));
    check_floor(plan.set.backup_id.as_str(), earliest, rendered)
}

/// Checks a rendered document against the archive's start.
pub fn check_floor(set_id: &str, earliest: Option<i64>, rendered: &Result<String, String>) -> (r:
    Result<(), DrillError>)
    ensures
        floor_check_is(r, set_id@, earliest, *rendered),
{
    let floor: i64 = match earliest {
        None => {
            let mut m = "the archive set `".to_owned();
            m.append(set_id);
            m.append(
                "` records no segment in its manifest, so the rendered time_window_start cannot be checked against an archive floor",
            );
            return Err(refuse(m));
        },
        Some(ms) => ms,
    };
    let doc = match rendered {
        Err(why) => {
            let mut m = "rendering restore.yaml: ".to_owned();
            m.append(why.as_str());
            return Err(DrillError::Operational(m));
        },
        Ok(doc) => doc,
    };
    let rest = match find_line(doc.as_str(), "  time_window_start: ") {
        None => {
            return Err(
                DrillError::Operational(
                    "the rendered restore.yaml carries no `  time_window_start:` line, so the archive floor cannot be checked against it".to_owned(),
                ),
            );
        },
        Some(rest) => rest,
    };
    let value = trim(rest.as_str());
    let start: i64 = match parse_i64(value.as_str()) {
        None => {
            let mut m =
                "the rendered restore.yaml's time_window_start is not an integer: ".to_owned();
            m.append(parse_fault_text(value.as_str()).as_str());
            return Err(DrillError::Operational(m));
        },
        Some(start) => start,
    };
    if start != floor {
        let mut m = "rendered time_window_start ".to_owned();
        m.append(i64_text(start).as_str());
        m.append(" is not the archive floor ");
        m.append(i64_text(floor).as_str());
        m.append(
            "; a Restore's window start is the archive set's earliest covered timestamp, never the spec's",
        );
        return Err(refuse(m));
    }
    Ok(())
}

// ---- the engine's findings -------------------------------------------------

/// How much of a partition's window the archive covers.
#[derive(Debug)]
pub enum CoverageState {
    Full,
    Partial,
    Missing,
    DataMissing,
    Corrupt,
    Empty,
    Indeterminate,
    Unknown(String),
}

/// What the engine found of one partition.
#[derive(Debug)]
pub struct PartitionCoverage {
    pub topic: String,
    pub partition: i32,
    pub state: CoverageState,
    pub detail: String,
}

/// What the engine found.
#[derive(Debug)]
pub struct PreflightReport {
    pub header_preflight_honoured: bool,
    pub unknown_key_warnings: Vec<String>,
    pub partitions: Vec<PartitionCoverage>,
    pub errors: Vec<String>,
    pub valid: bool,
}

/// One thing that was found.
#[derive(Debug)]
pub struct Finding {
    pub topic: String,
    pub partition: i32,
    pub state: String,
    pub detail: String,
}

/// Whether the restore may go on.
#[derive(Debug)]
pub enum Verdict {
    Proceed { warnings: Vec<Finding> },
    Block { findings: Vec<Finding> },
}

/// One thing that was found.
pub ghost struct FindingModel {
    pub topic: Seq<char>,
    pub partition: i32,
    pub state: Seq<char>,
    pub detail: Seq<char>,
}

impl View for Finding {
    type V = FindingModel;

    open spec fn view(&self) -> FindingModel {
        FindingModel {
            topic: self.topic@,
            partition: self.partition,
            state: self.state@,
            detail: self.detail@,
        }
    }
}

/// The findings of a list.
pub open spec fn models(v: Seq<Finding>) -> Seq<FindingModel> {
    Seq::new(v.len(), |i: int| v[i]@)
}

/// A finding about the engine as a whole.
pub open spec fn whole(state: Seq<char>, detail: Seq<char>) -> FindingModel {
    FindingModel { topic: "*"@, partition: -1i32, state, detail }
}

/// The warning of a partition without all tracking headers.
pub open spec fn header_warning(name: Seq<char>) -> Seq<char> {
    "tracking-header coverage is "@ + name
        + "; advisory in v0.1 because the drill never requests consumer-offset recovery"@
}

/// What a partition's coverage gives cause to warn of.
pub open spec fn warning_of(p: PartitionCoverage) -> Option<FindingModel> {
    let detail = match p.state {
        CoverageState::Partial => Some(header_warning("Partial"@)),
        CoverageState::Missing => Some(header_warning("Missing"@)),
        _ => None,
    };
    match detail {
        Some(d) => Some(
            FindingModel {
                topic: p.topic@,
                partition: p.partition,
                state: "header-coverage"@,
                detail: d,
            },
        ),
        None => None,
    }
}

/// What of a partition's coverage blocks the restore: its state and why.
pub open spec fn ground_of(p: PartitionCoverage) -> Option<(Seq<char>, Seq<char>)> {
    match p.state {
        CoverageState::Full => None,
        CoverageState::Partial => None,
        CoverageState::Missing => None,
        CoverageState::DataMissing => Some(
            ("data_missing"@, "segments absent from storage: "@ + p.detail@),
        ),
        CoverageState::Corrupt => Some(
            ("corrupt"@, "segment could not be decoded: "@ + p.detail@),
        ),
        CoverageState::Empty => Some(
            ("empty"@, "no records in the selected window for this partition"@),
        ),
        CoverageState::Indeterminate => Some(
            ("indeterminate"@, "coverage undetermined: "@ + p.detail@),
        ),
        CoverageState::Unknown(s) => Some(
            ("unknown"@, "engine reported an unrecognised coverage state `"@ + s@ + "`"@),
        ),
    }
}

/// What of a partition's coverage blocks the restore.
pub open spec fn finding_of(p: PartitionCoverage) -> Option<FindingModel> {
    match ground_of(p) {
        Some((state, detail)) => Some(
            FindingModel { topic: p.topic@, partition: p.partition, state, detail },
        ),
        None => None,
    }
}

/// The warnings of the partitions, in order.
pub open spec fn warnings_of(parts: Seq<PartitionCoverage>) -> Seq<FindingModel>
    decreases parts.len(),
{
    if parts.len() == 0 {
        Seq::empty()
    } else {
        match warning_of(parts.last()) {
            Some(f) => warnings_of(parts.drop_last()).push(f),
            None => warnings_of(parts.drop_last()),
        }
    }
}

/// The findings of the partitions, in order.
pub open spec fn findings_of(parts: Seq<PartitionCoverage>) -> Seq<FindingModel>
    decreases parts.len(),
{
    if parts.len() == 0 {
        Seq::empty()
    } else {
        match finding_of(parts.last()) {
            Some(f) => findings_of(parts.drop_last()).push(f),
            None => findings_of(parts.drop_last()),
        }
    }
}

/// The finding of a setting that the engine did not act on.
pub open spec fn lever_finding() -> FindingModel {
    whole(
        "lever-ignored"@,
        "engine did not honour restore.header_preflight=full (header_preflight absent, or scan_performed false, or mode != full); this engine tag is below the declared floor"@,
    )
}

/// The findings of the engine's own errors, in order.
pub open spec fn error_findings(errors: Seq<String>) -> Seq<FindingModel> {
    Seq::new(errors.len(), |i: int| whole("engine-error"@, errors[i]@))
}

/// All grounds to block the restore.
pub open spec fn grounds(r: PreflightReport) -> Seq<FindingModel> {
    let lever = if r.header_preflight_honoured {
        Seq::empty()
    } else {
        seq![lever_finding()]
    };
    let found = lever + findings_of(r.partitions@) + error_findings(r.errors@);
    if !r.valid && found.len() == 0 {
        found.push(
            whole(
                "engine-invalid"@,
                "engine reported valid: false with no error detail"@,
            ),
        )
    } else {
        found
    }
}

/// A finding with these parts.
fn found(topic: &str, partition: i32, state: &str, detail: String) -> (r: Finding)
    ensures
        r@ == (FindingModel { topic: topic@, partition, state: state@, detail: detail@ }),
{
    Finding { topic: topic.to_owned(), partition, state: state.to_owned(), detail }
}

/// A text behind a fixed opening.
fn opened(opening: &str, rest: &str) -> (r: String)
    ensures
        r@ == opening@ + rest@,
{
    let mut s = opening.to_owned();
    s.append(rest);
    s
}

/// The warning of a partition without all tracking headers.
fn header_warning_text(name: &str) -> (r: String)
    ensures
        r@ == header_warning(name@),
{
    let mut s = opened("tracking-header coverage is ", name);
    s.append("; advisory in v0.1 because the drill never requests consumer-offset recovery");
    s
}

/// Judges one partition's coverage: a finding that blocks, or a warning.
fn judge(p: &PartitionCoverage) -> (r: (Option<Finding>, Option<Finding>))
    ensures
        match finding_of(*p) {
            Some(m) => r.0 matches Some(f) && f@ == m,
            None => r.0 is None,
        },
        match warning_of(*p) {
            Some(m) => r.1 matches Some(f) && f@ == m,
            None => r.1 is None,
        },
{
    let topic = p.topic.as_str();
    match &p.state {
        CoverageState::Full => (None, None),
        CoverageState::Partial => (
            None,
            Some(found(topic, p.partition, "header-coverage", header_warning_text("Partial"))),
        ),
        CoverageState::Missing => (
            None,
            Some(found(topic, p.partition, "header-coverage", header_warning_text("Missing"))),
        ),
        CoverageState::DataMissing => (
            Some(
                found(
                    topic,
                    p.partition,
                    "data_missing",
                    opened("segments absent from storage: ", p.detail.as_str()),
                ),
            ),
            None,
        ),
        CoverageState::Corrupt => (
            Some(
                found(
                    topic,
                    p.partition,
                    "corrupt",
                    opened("segment could not be decoded: ", p.detail.as_str()),
                ),
            ),
            None,
        ),
        CoverageState::Empty => (
            Some(
                found(
                    topic,
                    p.partition,
                    "empty",
                    "no records in the selected window for this partition".to_owned(),
                ),
            ),
            None,
        ),
        CoverageState::Indeterminate => (
            Some(
                found(
                    topic,
                    p.partition,
                    "indeterminate",
                    opened("coverage undetermined: ", p.detail.as_str()),
                ),
            ),
            None,
        ),
        CoverageState::Unknown(s) => {
            let mut detail = opened(
                "engine reported an unrecognised coverage state `",
                s.as_str(),
            );
            detail.append("`");
            (Some(found(topic, p.partition, "unknown", detail)), None)
        },
    }
}

/// Whether the restore may go on, and what there is to say of it.
pub open spec fn adjudicated(v: Verdict, r: PreflightReport) -> bool {
    if grounds(r).len() == 0 {
        v matches Verdict::Proceed { warnings } && models(warnings@) == warnings_of(r.partitions@)
    } else {
        v matches Verdict::Block { findings } && models(findings@) == grounds(r)
    }
}

/// There is a ground to block a restore exactly where the engine did not act on
/// the header preflight, calls the restore invalid or reports an error, or where
/// a partition is neither wholly covered nor short of nothing but headers.
pub proof fn a_restore_goes_on_only_where_nothing_is_wrong(r: PreflightReport)
    ensures
        grounds(r).len() == 0 <==> r.header_preflight_honoured && r.valid && r.errors@.len() == 0
            && forall|i: int|
            0 <= i < r.partitions@.len() ==> ((#[trigger] r.partitions@[i]).state is Full
                || r.partitions@[i].state is Partial || r.partitions@[i].state is Missing),
{
    nothing_is_found_on_covered_partitions(r.partitions@);
}

proof fn nothing_is_found_on_covered_partitions(parts: Seq<PartitionCoverage>)
    ensures
        findings_of(parts).len() == 0 <==> forall|i: int|
            0 <= i < parts.len() ==> ((#[trigger] parts[i]).state is Full || parts[i].state
                is Partial || parts[i].state is Missing),
    decreases parts.len(),
{
    if parts.len() > 0 {
        let rest = parts.drop_last();
        let last = parts.len() - 1;
        nothing_is_found_on_covered_partitions(rest);
        assert(parts[last] == parts.last());
        if forall|i: int|
            0 <= i < parts.len() ==> ((#[trigger] parts[i]).state is Full || parts[i].state
                is Partial || parts[i].state is Missing) {
            assert forall|i: int| 0 <= i < rest.len() implies ((#[trigger] rest[i]).state is Full
                || rest[i].state is Partial || rest[i].state is Missing) by {
                assert(rest[i] == parts[i]);
            }
            assert(parts[last].state is Full || parts[last].state is Partial || parts[last].state
                is Missing);
        }
        if findings_of(parts).len() == 0 {
            assert forall|i: int| 0 <= i < parts.len() implies ((#[trigger] parts[i]).state is Full
                || parts[i].state is Partial || parts[i].state is Missing) by {
                if i < last {
                    assert(rest[i] == parts[i]);
                }
            }
        }
    }
}

/// A partition that blocks a restore is named by its topic and its number, with
/// what the engine said of it; so is each error of the engine; and a partition
/// short of headers alone is warned of under its own name.
pub proof fn what_blocks_is_named(v: Verdict, r: PreflightReport, i: int)
    requires
        adjudicated(v, r),
    ensures
        0 <= i < r.partitions@.len() && !(r.partitions@[i].state is Full || r.partitions@[i].state
            is Partial || r.partitions@[i].state is Missing) ==> (v matches Verdict::Block {
            findings,
        } && exists|k: int|
            0 <= k < findings@.len() && (#[trigger] findings@[k]).topic@ == r.partitions@[i].topic@
                && findings@[k].partition == r.partitions@[i].partition && ((
            r.partitions@[i].state is DataMissing || r.partitions@[i].state is Corrupt
                || r.partitions@[i].state is Indeterminate) ==> occurs(
                findings@[k].detail@,
                r.partitions@[i].detail@,
            ))),
        0 <= i < r.errors@.len() ==> (v matches Verdict::Block { findings } && exists|k: int|
            0 <= k < findings@.len() && (#[trigger] findings@[k]).detail@ == r.errors@[i]@),
        0 <= i < r.partitions@.len() && (r.partitions@[i].state is Partial || r.partitions@[i].state
            is Missing) ==> (v matches Verdict::Proceed { warnings } ==> exists|k: int|
            0 <= k < warnings@.len() && (#[trigger] warnings@[k]).topic@ == r.partitions@[i].topic@
                && warnings@[k].partition == r.partitions@[i].partition),
        v matches Verdict::Proceed { warnings } ==> warnings@.len() <= r.partitions@.len(),
{
    let lever: Seq<FindingModel> = if r.header_preflight_honoured {
        Seq::empty()
    } else {
        seq![lever_finding()]
    };
    let mine = findings_of(r.partitions@);
    let told = error_findings(r.errors@);
    if 0 <= i < r.partitions@.len() && !(r.partitions@[i].state is Full || r.partitions@[i].state
        is Partial || r.partitions@[i].state is Missing) {
        one_finding_blocks(r, i);
        let p = r.partitions@[i];
        let f = finding_of(p)->0;
        let k = choose|k: int| 0 <= k < grounds(r).len() && grounds(r)[k] == f;
        let findings = v->findings;
        assert(models(findings@)[k] == findings@[k]@);
        if p.state is DataMissing || p.state is Corrupt || p.state is Indeterminate {
            let before = f.detail.take(f.detail.len() - p.detail@.len());
            assert(p.detail@.subrange(0, p.detail@.len() as int) =~= p.detail@);
            assert(occurs_at(p.detail@, p.detail@, 0));
            found_within(before, p.detail@, Seq::empty(), p.detail@);
            assert(before + p.detail@ + Seq::<char>::empty() =~= f.detail);
        }
    }
    if 0 <= i < r.errors@.len() {
        let k = lever.len() + mine.len() + i;
        assert((lever + mine + told)[k as int] == told[i]);
        assert(grounds(r)[k as int] == told[i]);
        let findings = v->findings;
        assert(models(findings@)[k as int] == findings@[k as int]@);
        assert(findings@[k as int].detail@ == r.errors@[i]@);
    }
    warnings_are_kept(r.partitions@, i);
    if v is Proceed {
        let warnings = v->warnings;
        let all = warnings_of(r.partitions@);
        assert(models(warnings@).len() == all.len());
        if 0 <= i < r.partitions@.len() && warning_of(r.partitions@[i]) is Some {
            let k = choose|k: int|
                0 <= k < all.len() && all[k] == warning_of(r.partitions@[i])->0;
            assert(models(warnings@)[k] == warnings@[k]@);
        }
    }
}

proof fn warnings_are_kept(parts: Seq<PartitionCoverage>, i: int)
    ensures
        warnings_of(parts).len() <= parts.len(),
        0 <= i < parts.len() && warning_of(parts[i]) is Some ==> warnings_of(parts).contains(
            warning_of(parts[i])->0,
        ),
    decreases parts.len(),
{
    if parts.len() > 0 {
        let all = warnings_of(parts);
        let rest = parts.drop_last();
        let was = warnings_of(rest);
        warnings_are_kept(rest, i);
        if 0 <= i < parts.len() && warning_of(parts[i]) is Some {
            let f = warning_of(parts[i])->0;
            if i < rest.len() {
                assert(rest[i] == parts[i]);
                let k = choose|k: int| 0 <= k < was.len() && was[k] == f;
                assert(all[k] == f);
            } else {
                assert(all[all.len() - 1] == f);
            }
        }
    }
}

/// An opening is found on the first line that has it, up to the end of that
/// line.
proof fn the_first_opened_line_is_found(
    s: Seq<char>,
    opening: Seq<char>,
    from: int,
    at: int,
    end: int,
)
    requires
        0 <= from <= at <= end <= s.len(),
        from == 0 || s[from - 1] == '\n',
        at == 0 || s[at - 1] == '\n',
        at < s.len(),
        end == s.len() || s[end] == '\n',
        forall|k: int| at <= k < end ==> s[k] != '\n',
        opening.is_prefix_of(s.subrange(at, end)),
        !opening.contains('\n'),
        forall|l: int|
            from <= l < at && (l == 0 || s[l - 1] == '\n') ==> !#[trigger] occurs_at(s, opening, l),
    ensures
        opened_line(s, from, opening) == Some(s.subrange(at + opening.len(), end)),
    decreases at - from,
{
    line_ends_within(s, from);
    let stop = line_end(s, from);
    a_line_ends_at_its_newline(s, from);
    if from == at {
        assert(stop == end) by {
            if stop < end {
                assert(s[stop] != '\n');
            } else if end < stop {
                assert(s[end] != '\n');
            }
        }
        assert(s.subrange(at, end).skip(opening.len() as int) =~= s.subrange(
            at + opening.len(),
            end,
        ));
    } else {
        assert(stop < at) by {
            if stop >= at {
                assert(s[at - 1] != '\n');
            }
        }
        if opening.is_prefix_of(s.subrange(from, stop)) {
            let n = opening.len() as int;
            assert(s.subrange(from, stop).subrange(0, n) =~= s.subrange(from, from + n));
            assert(occurs_at(s, opening, from));
        }
        assert(!opening.is_prefix_of(s.subrange(from, stop)));
        assert(s[stop] == '\n');
        the_first_opened_line_is_found(s, opening, stop + 1, at, end);
    }
}

proof fn a_line_ends_at_its_newline(s: Seq<char>, from: int)
    requires
        0 <= from <= s.len(),
    ensures
        from <= line_end(s, from) <= s.len(),
        line_end(s, from) < s.len() ==> s[line_end(s, from)] == '\n',
        forall|k: int| from <= k < line_end(s, from) ==> s[k] != '\n',
    decreases s.len() - from,
{
    if from < s.len() && s[from] != '\n' {
        a_line_ends_at_its_newline(s, from + 1);
    }
}

/// A rendered plan is let through exactly where what stands on its first line
/// that opens with the start of the window spells the archive's own start. A
/// start that is another is refused by a guard.
pub proof fn the_rendered_start_is_the_archives(
    r: Result<(), DrillError>,
    set_id: Seq<char>,
    earliest: Option<i64>,
    doc: String,
    at: int,
    end: int,
)
    requires
        floor_check_is(r, set_id, earliest, Ok(doc)),
        0 <= at <= end <= doc@.len(),
        at < doc@.len(),
        at == 0 || doc@[at - 1] == '\n',
        end == doc@.len() || doc@[end] == '\n',
        forall|k: int| at <= k < end ==> doc@[k] != '\n',
        "  time_window_start: "@.is_prefix_of(doc@.subrange(at, end)),
        forall|l: int|
            0 <= l < at && (l == 0 || doc@[l - 1] == '\n') ==> !#[trigger] occurs_at(
                doc@,
                "  time_window_start: "@,
                l,
            ),
    ensures
        ({
            let told = spelled_i64(
                trimmed(doc@.subrange(at + "  time_window_start: "@.len(), end)),
            );
            &&& r is Ok <==> earliest is Some && told == earliest
            &&& earliest is Some && told is Some && told != earliest ==> (r matches Err(e) && e@
                is Guard)
            &&& earliest is Some && told is None ==> (r matches Err(e) && e@ is Operational)
            &&& earliest is None ==> (r matches Err(e) && e@ is Guard)
        }),
{
    reveal_strlit("  time_window_start: ");
    the_first_opened_line_is_found(doc@, "  time_window_start: "@, 0, at, end);
}

/// Decides whether the restore may go on: it may where the engine acted on the
/// header preflight, no partition is found wanting, and the engine reports no
/// error.
pub fn adjudicate(r: &PreflightReport) -> (v: Verdict)
    ensures
        adjudicated(v, *r),
        v is Proceed <==> r.header_preflight_honoured && r.valid && r.errors@.len() == 0 && forall|
            i: int,
        |
            0 <= i < r.partitions@.len() ==> ((#[trigger] r.partitions@[i]).state is Full
                || r.partitions@[i].state is Partial || r.partitions@[i].state is Missing),
{
    proof {
        a_restore_goes_on_only_where_nothing_is_wrong(*r);
    }
    let mut findings: Vec<Finding> = Vec::new();
    let mut warnings: Vec<Finding> = Vec::new();
    if !r.header_preflight_honoured {
        findings.push(
            found(
                "*",
                -1,
                "lever-ignored",
                "engine did not honour restore.header_preflight=full (header_preflight absent, or scan_performed false, or mode != full); this engine tag is below the declared floor".to_owned(),
            ),
        );
    }
    let ghost lever: Seq<FindingModel> = if r.header_preflight_honoured {
        Seq::empty()
    } else {
        seq![lever_finding()]
    };
    let mut i: usize = 0;
    proof {
        assert(models(findings@) =~= lever);
        assert(models(warnings@) =~= Seq::empty());
        assert(r.partitions@.take(0) =~= Seq::empty());
        assert(lever + Seq::<FindingModel>::empty() =~= lever);
    }
    while i < r.partitions.len()
        invariant
            0 <= i <= r.partitions.len(),
            models(findings@) == lever + findings_of(r.partitions@.take(i as int)),
            models(warnings@) == warnings_of(r.partitions@.take(i as int)),
        decreases r.partitions.len() - i,
    {
        let p = &r.partitions[i];
        let ghost (was_f, was_w) = (models(findings@), models(warnings@));
        proof {
            assert(r.partitions@.take(i + 1).drop_last() =~= r.partitions@.take(i as int));
            assert(r.partitions@.take(i + 1).last() == *p);
        }
        let (blocking, advisory) = judge(p);
        if let Some(f) = blocking {
            findings.push(f);
            proof {
                assert(models(findings@) =~= was_f.push(finding_of(*p)->0));
                assert(models(findings@) =~= lever + findings_of(r.partitions@.take(i + 1)));
            }
        }
        if let Some(f) = advisory {
            warnings.push(f);
            proof {
                assert(models(warnings@) =~= was_w.push(warning_of(*p)->0));
            }
        }
        i += 1;
    }
    let ghost blocked = lever + findings_of(r.partitions@);
    let mut k: usize = 0;
    proof {
        assert(r.partitions@.take(r.partitions.len() as int) =~= r.partitions@);
        assert(models(findings@) =~= blocked + error_findings(r.errors@).take(0));
    }
    while k < r.errors.len()
        invariant
            0 <= k <= r.errors.len(),
            models(findings@) == blocked + error_findings(r.errors@).take(k as int),
        decreases r.errors.len() - k,
    {
        let ghost was = models(findings@);
        findings.push(found("*", -1, "engine-error", r.errors[k].clone()));
        proof {
            let f = whole("engine-error"@, r.errors@[k as int]@);
            assert(models(findings@) =~= was.push(f));
            assert(error_findings(r.errors@).take(k + 1) =~= error_findings(r.errors@).take(
                k as int,
            ).push(f));
            assert(models(findings@) =~= blocked + error_findings(r.errors@).take(k + 1));
        }
        k += 1;
    }
    proof {
        assert(error_findings(r.errors@).take(r.errors.len() as int) =~= error_findings(r.errors@));
        assert(models(findings@).len() == findings@.len());
    }
    if !r.valid && findings.len() == 0 {
        findings.push(
            found(
                "*",
                -1,
                "engine-invalid",
                "engine reported valid: false with no error detail".to_owned(),
            ),
        );
        proof {
            assert(models(findings@) =~= grounds(*r));
        }
    }
    if findings.len() == 0 {
        Verdict::Proceed { warnings }
    } else {
        Verdict::Block { findings }
    }
}

/// Nothing the engine does not vouch for is restored: where it did not act on
/// the header preflight, where it calls the restore invalid, or where it
/// reports an error, the restore is blocked.
pub proof fn an_unvouched_restore_is_blocked(r: PreflightReport)
    ensures
        !r.header_preflight_honoured || !r.valid || r.errors@.len() > 0 ==> grounds(r).len() > 0,
{
}

/// One partition found wanting blocks the restore, and the finding names it.
pub proof fn one_finding_blocks(r: PreflightReport, i: int)
    requires
        0 <= i < r.partitions@.len(),
        finding_of(r.partitions@[i]) is Some,
    ensures
        grounds(r).contains(finding_of(r.partitions@[i])->0),
{
    findings_keep(r.partitions@, i);
    let f = finding_of(r.partitions@[i])->0;
    let lever: Seq<FindingModel> = if r.header_preflight_honoured {
        Seq::empty()
    } else {
        seq![lever_finding()]
    };
    let mine = findings_of(r.partitions@);
    let k = choose|k: int| 0 <= k < mine.len() && mine[k] == f;
    assert((lever + mine + error_findings(r.errors@))[lever.len() + k] == f);
    assert(grounds(r)[lever.len() + k] == f);
}

/// A partition's finding stands among all partitions' findings.
proof fn findings_keep(parts: Seq<PartitionCoverage>, i: int)
    requires
        0 <= i < parts.len(),
        finding_of(parts[i]) is Some,
    ensures
        findings_of(parts).contains(finding_of(parts[i])->0),
    decreases parts.len(),
{
    let all = findings_of(parts);
    let f = finding_of(parts[i])->0;
    if i == parts.len() - 1 {
        assert(all[all.len() - 1] == f);
    } else {
        findings_keep(parts.drop_last(), i);
        assert(parts.drop_last()[i] == parts[i]);
        let rest = findings_of(parts.drop_last());
        let k = choose|k: int| 0 <= k < rest.len() && rest[k] == f;
        assert(all[k] == f);
    }
}

/// What is found of a partition says what the engine said of it: what is absent,
/// what cannot be decoded, what holds nothing and what is not known are told
/// apart.
pub proof fn a_finding_says_what_the_engine_said(p: PartitionCoverage)
    ensures
        finding_of(p) is None <==> p.state is Full || p.state is Partial || p.state is Missing,
        warning_of(p) is Some <==> p.state is Partial || p.state is Missing,
        finding_of(p) matches Some(f) ==> f.topic == p.topic@ && f.partition == p.partition,
        warning_of(p) matches Some(f) ==> f.topic == p.topic@ && f.partition == p.partition,
        p.state is DataMissing ==> finding_of(p)->0.state == "data_missing"@,
        p.state is Corrupt ==> finding_of(p)->0.state == "corrupt"@,
        p.state is Empty ==> finding_of(p)->0.state == "empty"@,
        p.state is Indeterminate ==> finding_of(p)->0.state == "indeterminate"@,
        p.state is Unknown ==> finding_of(p)->0.state == "unknown"@,
{
}

/// Nothing is warned of but a partition whose headers are not all there.
pub proof fn only_missing_headers_are_warned_of(v: Verdict, r: PreflightReport, k: int)
    requires
        adjudicated(v, r),
    ensures
        v matches Verdict::Proceed { warnings } ==> (0 <= k < warnings@.len() ==> exists|i: int|
            0 <= i < r.partitions@.len() && (#[trigger] r.partitions@[i]).topic@
                == warnings@[k].topic@ && r.partitions@[i].partition == warnings@[k].partition && (
            r.partitions@[i].state is Partial || r.partitions@[i].state is Missing)),
{
    if let Verdict::Proceed { warnings } = v {
        if 0 <= k < warnings@.len() {
            assert(models(warnings@)[k] == warnings@[k]@);
            warnings_have_a_partition(r.partitions@, k);
            let i = choose|i: int|
                0 <= i < r.partitions@.len() && warning_of(#[trigger] r.partitions@[i]) == Some(
                    warnings_of(r.partitions@)[k],
                );
            assert(r.partitions@[i].topic@ == warnings@[k].topic@);
        }
    }
}

proof fn warnings_have_a_partition(parts: Seq<PartitionCoverage>, k: int)
    requires
        0 <= k < warnings_of(parts).len(),
    ensures
        exists|i: int|
            0 <= i < parts.len() && warning_of(#[trigger] parts[i]) == Some(warnings_of(parts)[k]),
    decreases parts.len(),
{
    let rest = parts.drop_last();
    assert(parts[parts.len() - 1] == parts.last());
    if k < warnings_of(rest).len() {
        warnings_have_a_partition(rest, k);
        let i = choose|i: int|
            0 <= i < rest.len() && warning_of(#[trigger] rest[i]) == Some(warnings_of(rest)[k]);
        assert(parts[i] == rest[i]);
    }
}

} // verus!
