//! Who is told how a drill went, and what they are told.
//!
//! What is decided here is sent elsewhere; whether it arrives changes nothing
//! of how the run ends.
use vstd::prelude::*;
use crate::drill::scorecard::{IntegrityLevel, IntegrityResult, Outcome, Redaction, Scorecard};
use crate::drill::spec::Notifications;
use crate::exit::ExitCode;
use crate::text::{
    chars_of, copy_texts, decimal, find_from, first_at, starts_with, string_of, text_in, texts,
    u64_text, without_opening,
};

verus! {

/// Where a page goes unless the operator says otherwise.
pub const PAGERDUTY_US_ENDPOINT: &'static str = "https://events.pagerduty.com/v2/enqueue";

/// The line to look for where a page did not arrive.
pub const PAGERDUTY_SILENCED: &'static str = "pagerduty alert NOT delivered";

/// How many seconds a connection to a sink may take.
pub const NOTIFY_CONNECT_TIMEOUT_SECS: u64 = 5;

/// How many seconds one notification may take altogether.
pub const NOTIFY_TIMEOUT_SECS: u64 = 10;

/// What every sink is told of a signed document.
#[derive(Debug)]
pub struct NotifyBody {
    pub run_id: String,
    pub outcome: Outcome,
    pub rto_excluding_preflight_seconds: Option<u64>,
    pub rpo_seconds: Option<i64>,
    pub integrity_level: IntegrityLevel,
    pub integrity_result: IntegrityResult,
    pub self_attested: bool,
    /// The paths of what was taken out of the document.
    pub redactions: Vec<String>,
}

/// The paths of redactions.
pub open spec fn paths(v: Seq<Redaction>) -> Seq<Seq<char>> {
    Seq::new(v.len(), |i: int| v[i].path@)
}

/// What every sink is told of a document.
pub open spec fn body_is(b: NotifyBody, sc: Scorecard) -> bool {
    &&& b.run_id@ == sc.run_id@
    &&& b.outcome == sc.outcome
    &&& b.rto_excluding_preflight_seconds == sc.measured.rto_excluding_preflight_seconds
    &&& b.rpo_seconds == sc.measured.rpo_seconds
    &&& b.integrity_level == sc.integrity.level
    &&& b.integrity_result == sc.integrity.result
    &&& b.self_attested == sc.approval.self_attested
    &&& texts(b.redactions@) == paths(sc.redactions@)
}

/// What every sink is told of a document. Of what was taken out of it the paths
/// are told, and never the reasons.
pub fn notify_body(sc: &Scorecard) -> (b: NotifyBody)
    ensures
        body_is(b, *sc),
{
    let mut redactions: Vec<String> = Vec::new();
    let mut i: usize = 0;
    while i < sc.redactions.len()
        invariant
            0 <= i <= sc.redactions.len(),
            redactions.len() == i,
            forall|j: int| 0 <= j < i ==> (#[trigger] redactions@[j])@ == sc.redactions@[j].path@,
        decreases sc.redactions.len() - i,
    {
        redactions.push(sc.redactions[i].path.clone());
        i += 1;
    }
    proof {
        assert(texts(redactions@) =~= paths(sc.redactions@));
    }
    NotifyBody {
        run_id: sc.run_id.clone(),
        outcome: sc.outcome,
        rto_excluding_preflight_seconds: sc.measured.rto_excluding_preflight_seconds,
        rpo_seconds: sc.measured.rpo_seconds,
        integrity_level: sc.integrity.level,
        integrity_result: sc.integrity.result,
        self_attested: sc.approval.self_attested,
        redactions,
    }
}

/// Why a notice did not arrive.
#[derive(Clone, Copy, Debug, PartialEq, Eq, Structural)]
pub enum PostFault {
    /// It was answered with that status.
    Status(u16),
    /// It did not get through.
    Transport,
}

/// What is said of a notice that did not arrive.
pub open spec fn redacted_fault(f: PostFault) -> Seq<char> {
    match f {
        PostFault::Status(code) => "status code "@ + decimal(code as nat),
        PostFault::Transport => "transport error"@,
    }
}

/// What is said of a notice that did not arrive: nothing of where it was sent,
/// which may be a secret.
pub fn redact_ureq_error(f: PostFault) -> (r: String)
    ensures
        r@ == redacted_fault(f),
{
    match f {
        PostFault::Status(code) => {
            let mut s = "status code ".to_owned();
            s.append(u64_text(code as u64).as_str());
            s
        },
        PostFault::Transport => "transport error".to_owned(),
    }
}

// ---- where a page goes ---------------------------------------------------------------

/// A letter of the Latin alphabet.
pub open spec fn is_letter(c: char) -> bool {
    'a' <= c <= 'z' || 'A' <= c <= 'Z'
}

/// A character that a scheme may hold behind its first.
pub open spec fn in_scheme(c: char) -> bool {
    is_letter(c) || '0' <= c <= '9' || c == '+' || c == '-' || c == '.'
}

/// A text that can be a scheme: a letter, and then letters, digits and the
/// three marks that a scheme may hold.
pub open spec fn is_scheme(s: Seq<char>) -> bool {
    s.len() > 0 && is_letter(s[0]) && forall|i: int| 0 <= i < s.len() ==> in_scheme(#[trigger] s[i])
}

/// The scheme of an address, where it has one: what stands before the first
/// `://`, where that is a scheme.
pub open spec fn scheme_in(url: Seq<char>) -> Option<Seq<char>> {
    match first_at(url, "://"@, 0) {
        Some(i) => if is_scheme(url.take(i)) {
            Some(url.take(i))
        } else {
            None
        },
        None => None,
    }
}

/// What a refusal calls the scheme of an address.
pub open spec fn scheme_of(url: Seq<char>) -> Seq<char> {
    match scheme_in(url) {
        Some(scheme) => scheme,
        None => "<no scheme>"@,
    }
}

/// The refusal of an address that is not a secure one. It names the scheme and
/// nothing else of the address.
pub open spec fn insecure_text(url: Seq<char>) -> Seq<char> {
    "notifications.pagerduty_endpoint must be an https:// URL; refusing scheme `"@ + scheme_of(url)
        + "`"@
}

/// Where a page goes, or why none is sent.
pub open spec fn endpoint_of(n: Notifications) -> Result<Seq<char>, Seq<char>> {
    match n.pagerduty_endpoint {
        None => Ok(PAGERDUTY_US_ENDPOINT@),
        Some(u) => if "https://"@.is_prefix_of(u@) {
            Ok(u@)
        } else {
            Err(insecure_text(u@))
        },
    }
}

/// Whether the first characters can be a scheme.
fn opens_with_scheme(chars: &Vec<char>, n: usize) -> (r: bool)
    requires
        n <= chars.len(),
    ensures
        r == is_scheme(chars@.take(n as int)),
{
    if n == 0 {
        return false;
    }
    let first = chars[0];
    if !(('a' <= first && first <= 'z') || ('A' <= first && first <= 'Z')) {
        return false;
    }
    let mut i: usize = 0;
    while i < n
        invariant
            0 <= i <= n <= chars.len(),
            forall|j: int| 0 <= j < i ==> in_scheme(#[trigger] chars@[j]),
        decreases n - i,
    {
        let c = chars[i];
        if !(('a' <= c && c <= 'z') || ('A' <= c && c <= 'Z') || ('0' <= c && c <= '9') || c == '+'
            || c == '-' || c == '.') {
            assert(!in_scheme(chars@.take(n as int)[i as int]));
            return false;
        }
        i += 1;
    }
    assert forall|j: int| 0 <= j < n implies in_scheme(#[trigger] chars@.take(n as int)[j]) by {
        assert(in_scheme(chars@[j]));
    }
    true
}

/// Where a page goes, or why none is sent.
pub fn pagerduty_endpoint(n: &Notifications) -> (r: Result<String, String>)
    ensures
        match endpoint_of(*n) {
            Ok(url) => r matches Ok(s) && s@ == url,
            Err(why) => r matches Err(s) && s@ == why,
        },
{
    match &n.pagerduty_endpoint {
        None => Ok(PAGERDUTY_US_ENDPOINT.to_owned()),
        Some(u) => {
            if starts_with(u.as_str(), "https://") {
                return Ok(u.clone());
            }
            let chars = chars_of(u.as_str());
            let mark = chars_of("://");
            let scheme = match find_from(&chars, &mark, 0) {
                Some(i) => if opens_with_scheme(&chars, i) {
                    proof {
                        assert(u@.take(i as int) =~= u@.subrange(0, i as int));
                    }
                    string_of(&chars, 0, i)
                } else {
                    "<no scheme>".to_owned()
                },
                None => "<no scheme>".to_owned(),
            };
            let mut m =
                "notifications.pagerduty_endpoint must be an https:// URL; refusing scheme `".to_owned();
            m.append(scheme.as_str());
            m.append("`");
            Err(m)
        },
    }
}

/// A refusal names the scheme of an address and nothing else: addresses of one
/// scheme are refused in the same words, and so are all that have none.
pub proof fn a_refused_address_is_not_quoted(one: Seq<char>, other: Seq<char>)
    requires
        scheme_in(one) == scheme_in(other),
    ensures
        insecure_text(one) == insecure_text(other),
        scheme_in(one) is None ==> insecure_text(one)
            == "notifications.pagerduty_endpoint must be an https:// URL; refusing scheme `"@
            + "<no scheme>"@ + "`"@,
        scheme_in(one) matches Some(scheme) ==> is_scheme(scheme),
{
}

// ---- which incident a page belongs to ------------------------------------------------

/// A digest without the name of its algorithm, however often that is written.
pub open spec fn bare_digest(s: Seq<char>) -> Seq<char>
    decreases s.len(),
{
    match without_opening(s, "sha256:"@) {
        Some(rest) => if rest.len() < s.len() {
            bare_digest(rest)
        } else {
            s
        },
        None => s,
    }
}

/// The first characters of a text.
pub open spec fn first_of(s: Seq<char>, n: int) -> Seq<char> {
    if s.len() <= n {
        s
    } else {
        s.take(n)
    }
}

/// What identifies a drill: its name, or the start of its plan's digest, or
/// nothing where that is too short to identify anything.
pub open spec fn identity_of(spec_name: Option<Seq<char>>, plan_hash: Seq<char>) -> Seq<char> {
    match spec_name {
        Some(n) => n,
        None => {
            let h = first_of(bare_digest(plan_hash), 12);
            if h.len() < 12 {
                "unnamed"@
            } else {
                h
            }
        },
    }
}

/// The incident of a drill that left a document.
pub open spec fn incident_of(
    spec_name: Option<Seq<char>>,
    plan_hash: Seq<char>,
    cluster_id: Seq<char>,
) -> Seq<char> {
    "logweir-drill-"@ + identity_of(spec_name, plan_hash) + "-"@ + cluster_id
}

/// The incident of a drill that left no document.
pub open spec fn failure_incident_of(spec_name: Option<Seq<char>>) -> Seq<char> {
    "logweir-drill-"@ + (match spec_name {
        Some(n) => n,
        None => "unnamed"@,
    }) + "-preflight"@
}

/// A digest without the name of its algorithm.
fn strip_algorithm(s: &str) -> (r: String)
    ensures
        r@ == bare_digest(s@),
    decreases s@.len(),
{
    proof {
        reveal_strlit("sha256:");
    }
    match crate::text::strip_prefix(s, "sha256:") {
        Some(rest) => strip_algorithm(rest.as_str()),
        None => s.to_owned(),
    }
}

/// The incident that a page on a drill that left a document belongs to: one for
/// each drill and cluster, and the same for every run of it.
pub fn dedup_key(spec_name: Option<&str>, sc: &Scorecard) -> (r: String)
    ensures
        r@ == incident_of(text_in(spec_name), sc.approval.plan_hash@, sc.target.cluster_id@),
{
    let ident = match spec_name {
        Some(n) => n.to_owned(),
        None => {
            let bare = strip_algorithm(sc.approval.plan_hash.as_str());
            let chars = chars_of(bare.as_str());
            if chars.len() < 12 {
                "unnamed".to_owned()
            } else {
                proof {
                    assert(first_of(bare@, 12) =~= bare@.subrange(0, 12));
                }
                string_of(&chars, 0, 12)
            }
        },
    };
    let mut s = "logweir-drill-".to_owned();
    s.append(ident.as_str());
    s.append("-");
    s.append(sc.target.cluster_id.as_str());
    s
}

/// The incident that a page on a drill that left no document belongs to.
pub fn failure_dedup_key(spec_name: Option<&str>) -> (r: String)
    ensures
        r@ == failure_incident_of(text_in(spec_name)),
{
    let mut s = "logweir-drill-".to_owned();
    match spec_name {
        Some(n) => s.append(n),
        None => s.append("unnamed"),
    }
    s.append("-preflight");
    s
}

/// Two drills of different names on one cluster have two incidents.
pub proof fn each_drill_has_its_incident(
    one: Seq<char>,
    other: Seq<char>,
    hash: Seq<char>,
    other_hash: Seq<char>,
    cluster_id: Seq<char>,
)
    requires
        one != other,
    ensures
        incident_of(Some(one), hash, cluster_id) != incident_of(Some(other), other_hash, cluster_id),
{
    let a = incident_of(Some(one), hash, cluster_id);
    let b = incident_of(Some(other), other_hash, cluster_id);
    if a == b {
        let p = "logweir-drill-"@.len();
        let rest = "-"@.len() + cluster_id.len();
        assert(a.len() == p + one.len() + rest);
        assert(b.len() == p + other.len() + rest);
        assert(one.len() == other.len());
        assert(one =~= a.subrange(p as int, p as int + one.len()));
        assert(other =~= b.subrange(p as int, p as int + other.len()));
    }
}

/// An incident always has an identity: a digest of fewer than twelve characters
/// gives way to a word that says so.
pub proof fn a_short_digest_names_nothing(plan_hash: Seq<char>, cluster_id: Seq<char>)
    ensures
        identity_of(None, plan_hash).len() > 0,
        bare_digest(plan_hash).len() < 12 ==> incident_of(None, plan_hash, cluster_id)
            == "logweir-drill-"@ + "unnamed"@ + "-"@ + cluster_id,
        bare_digest(plan_hash).len() >= 12 ==> incident_of(None, plan_hash, cluster_id)
            == "logweir-drill-"@ + bare_digest(plan_hash).take(12) + "-"@ + cluster_id,
{
    reveal_strlit("unnamed");
    let h = bare_digest(plan_hash);
    if h.len() >= 12 {
        assert(first_of(h, 12) =~= h.take(12));
    }
}

/// A drill that could not run and a drill that ran are two incidents, so that
/// the one's end never closes the other, on every cluster but one that is
/// called `preflight`.
pub proof fn a_failure_is_its_own_incident(
    spec_name: Option<Seq<char>>,
    plan_hash: Seq<char>,
    cluster_id: Seq<char>,
)
    requires
        cluster_id != "preflight"@,
    ensures
        incident_of(spec_name, plan_hash, cluster_id) != failure_incident_of(spec_name),
{
    reveal_strlit("preflight");
    reveal_strlit("-preflight");
    reveal_strlit("-");
    reveal_strlit("unnamed");
    let a = incident_of(spec_name, plan_hash, cluster_id);
    let b = failure_incident_of(spec_name);
    let ident = identity_of(spec_name, plan_hash);
    let name = match spec_name {
        Some(n) => n,
        None => "unnamed"@,
    };
    let p = "logweir-drill-"@.len() as int;
    if a == b {
        assert(a.len() == p + ident.len() + 1 + cluster_id.len());
        assert(b.len() == p + name.len() + 10);
        assert(a[p + ident.len()] == '-');
        if ident.len() != name.len() {
            assert(spec_name is None);
            assert(ident.len() < name.len() + 10);
            let at = ident.len() as int;
            assert(b[p + at] == '-');
            if at < 7 {
                assert(b[p + at] == "unnamed"@[at]);
            } else {
                assert(b[p + at] == "-preflight"@[at - 7]);
            }
        } else {
            assert(cluster_id =~= a.subrange(p + ident.len() + 1, a.len() as int));
            assert("preflight"@ =~= b.subrange(p + name.len() + 1, b.len() as int));
        }
    }
}

// ---- what is sent ----------------------------------------------------------------------

/// What a page says in full.
#[derive(Debug)]
pub enum PageDetails {
    /// Of a signed document.
    Document(NotifyBody),
    /// Of a run that left none.
    Failure { run_id: String, exit_code: u8, error: String },
}

/// A page.
#[derive(Debug)]
pub struct PageEvent {
    pub routing_key: String,
    pub event_action: String,
    pub dedup_key: String,
    pub summary: String,
    pub source: String,
    pub severity: String,
    pub custom_details: PageDetails,
}

/// Whether a page is sent.
#[derive(Debug)]
pub enum Page {
    /// No one asked for pages.
    NotAsked,
    /// The address was refused, and why; this is logged.
    Silenced { dedup_key: String, reason: String },
    /// The page goes to that address.
    Send { url: String, event: PageEvent },
}

/// A page on its way, or silenced.
fn enqueue_pagerduty(n: &Notifications, event: PageEvent) -> (p: Page)
    ensures
        match endpoint_of(*n) {
            Ok(u) => p matches Page::Send { url, event: e } && url@ == u && e == event,
            Err(why) => p matches Page::Silenced { dedup_key, reason } && dedup_key@
                == event.dedup_key@ && reason@ == why,
        },
{
    match pagerduty_endpoint(n) {
        Ok(url) => Page::Send { url, event },
        Err(reason) => Page::Silenced { dedup_key: event.dedup_key, reason },
    }
}

/// How grave it is that a run left no document. Where the plan was refused,
/// nothing was touched.
pub open spec fn severity_of(code: ExitCode) -> Seq<char> {
    if code == ExitCode::GuardRefused {
        "warning"@
    } else {
        "critical"@
    }
}

/// What the page on a run without a document says.
pub open spec fn failure_event_is(
    e: PageEvent,
    key: Seq<char>,
    spec_name: Option<Seq<char>>,
    run_id: Seq<char>,
    code: ExitCode,
    message: Seq<char>,
) -> bool {
    &&& e.routing_key@ == key
    &&& e.event_action@ == "trigger"@
    &&& e.dedup_key@ == failure_incident_of(spec_name)
    &&& e.summary@ == "logweir drill "@ + run_id + ": no scorecard (exit "@ + decimal(
        code.number() as nat,
    ) + ") — "@ + message
    &&& e.source@ == match spec_name {
        Some(n) => n,
        None => "unnamed"@,
    }
    &&& e.severity@ == severity_of(code)
    &&& e.custom_details matches PageDetails::Failure { run_id: r, exit_code, error }
    &&& r@ == run_id
    &&& exit_code == code.number()
    &&& error@ == message
}

/// The page on a run that left no document. It opens an incident and never
/// closes one.
pub fn notify_failure(
    n: &Notifications,
    spec_name: Option<&str>,
    run_id: &str,
    code: ExitCode,
    message: &str,
) -> (p: Page)
    ensures
        match n.pagerduty_routing_key {
            None => p is NotAsked,
            Some(key) => match endpoint_of(*n) {
                Ok(u) => p matches Page::Send { url, event } && url@ == u && failure_event_is(
                    event,
                    key@,
                    text_in(spec_name),
                    run_id@,
                    code,
                    message@,
                ),
                Err(why) => p matches Page::Silenced { dedup_key, reason } && dedup_key@
                    == failure_incident_of(text_in(spec_name)) && reason@ == why,
            },
        },
{
    let key = match &n.pagerduty_routing_key {
        None => {
            return Page::NotAsked;
        },
        Some(key) => key,
    };
    let mut summary = "logweir drill ".to_owned();
    summary.append(run_id);
    summary.append(": no scorecard (exit ");
    summary.append(u64_text(code.code() as u64).as_str());
    summary.append(") — ");
    summary.append(message);
    let severity = match code {
        ExitCode::GuardRefused => "warning",
        _ => "critical",
    };
    enqueue_pagerduty(
        n,
        PageEvent {
            routing_key: key.clone(),
            event_action: "trigger".to_owned(),
            dedup_key: failure_dedup_key(spec_name),
            summary,
            source: match spec_name {
                Some(name) => name.to_owned(),
                None => "unnamed".to_owned(),
            },
            severity: severity.to_owned(),
            custom_details: PageDetails::Failure {
                run_id: run_id.to_owned(),
                exit_code: code.code(),
                error: message.to_owned(),
            },
        },
    )
}

/// What is sent of a signed document.
#[derive(Debug)]
pub struct Notices {
    /// Where the body goes, in order.
    pub sinks: Vec<String>,
    pub body: NotifyBody,
    pub page: Page,
}

/// Where the body goes: to every webhook, and to the chat's last.
pub open spec fn sinks_of(n: Notifications) -> Seq<Seq<char>> {
    match n.slack_webhook {
        Some(u) => texts(n.webhooks@).push(u@),
        None => texts(n.webhooks@),
    }
}

/// What the page on a signed document says: a pass closes the incident, and
/// anything else opens it.
pub open spec fn result_event_is(
    e: PageEvent,
    key: Seq<char>,
    spec_name: Option<Seq<char>>,
    sc: Scorecard,
) -> bool {
    &&& e.routing_key@ == key
    &&& e.event_action@ == if sc.outcome == Outcome::Pass {
        "resolve"@
    } else {
        "trigger"@
    }
    &&& e.dedup_key@ == incident_of(spec_name, sc.approval.plan_hash@, sc.target.cluster_id@)
    &&& e.summary@ == "logweir drill "@ + sc.run_id@ + ": "@ + sc.outcome.label()
    &&& e.source@ == sc.target.cluster_id@
    &&& e.severity@ == "warning"@
    &&& e.custom_details matches PageDetails::Document(b)
    &&& body_is(b, sc)
}

/// What is sent of a signed document, and where.
pub fn notify(n: &Notifications, spec_name: Option<&str>, sc: &Scorecard) -> (r: Notices)
    ensures
        texts(r.sinks@) == sinks_of(*n),
        body_is(r.body, *sc),
        match n.pagerduty_routing_key {
            None => r.page is NotAsked,
            Some(key) => match endpoint_of(*n) {
                Ok(u) => r.page matches Page::Send { url, event } && url@ == u && result_event_is(
                    event,
                    key@,
                    text_in(spec_name),
                    *sc,
                ),
                Err(why) => r.page matches Page::Silenced { dedup_key, reason } && dedup_key@
                    == incident_of(
                    text_in(spec_name),
                    sc.approval.plan_hash@,
                    sc.target.cluster_id@,
                ) && reason@ == why,
            },
        },
{
    let mut sinks = copy_texts(&n.webhooks);
    let ghost hooks = texts(sinks@);
    if let Some(u) = &n.slack_webhook {
        sinks.push(u.clone());
        proof {
            assert(texts(sinks@) =~= hooks.push(u@));
        }
    }
    let page = match &n.pagerduty_routing_key {
        None => Page::NotAsked,
        Some(key) => {
            let mut summary = "logweir drill ".to_owned();
            summary.append(sc.run_id.as_str());
            summary.append(": ");
            summary.append(sc.outcome.label_str());
            let action = match sc.outcome {
                Outcome::Pass => "resolve",
                _ => "trigger",
            };
            enqueue_pagerduty(
                n,
                PageEvent {
                    routing_key: key.clone(),
                    event_action: action.to_owned(),
                    dedup_key: dedup_key(spec_name, sc),
                    summary,
                    source: sc.target.cluster_id.clone(),
                    severity: "warning".to_owned(),
                    custom_details: PageDetails::Document(notify_body(sc)),
                },
            )
        },
    };
    Notices { sinks, body: notify_body(sc), page }
}

} // verus!
