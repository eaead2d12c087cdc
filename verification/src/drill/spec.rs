//! What the operator asks of a drill.
use vstd::prelude::*;
use crate::clock::{Moment, Timestamp};

verus! {

/// Which end of a partition's window the sample is taken from.
#[derive(Clone, Copy, Debug, PartialEq, Eq, Structural)]
pub enum Anchor {
    Head,
    Tail,
    Random,
}

impl Anchor {
    /// The anchor's name.
    pub open spec fn name(self) -> Seq<char> {
        match self {
            Anchor::Head => "head"@,
            Anchor::Tail => "tail"@,
            Anchor::Random => "random"@,
        }
    }

    /// The anchor's name.
    pub fn as_str(self) -> (r: &'static str)
        ensures
            r@ == self.name(),
    {
        match self {
            Anchor::Head => "head",
            Anchor::Tail => "tail",
            Anchor::Random => "random",
        }
    }
}

/// Whether the restore goes into topics that are thrown away, or into new ones
/// that stay.
#[derive(Clone, Copy, Debug, PartialEq, Eq, Structural)]
pub enum TargetMode {
    Scratch,
    NewTopic,
}

/// How the target cluster is authenticated to.
#[derive(Debug)]
pub enum AuthSpec {
    Plaintext,
    ScramSha512 { username: String },
}

impl Clone for AuthSpec {
    fn clone(&self) -> (r: Self)
        ensures
            r == *self,
    {
        match self {
            AuthSpec::Plaintext => AuthSpec::Plaintext,
            AuthSpec::ScramSha512 { username } => AuthSpec::ScramSha512 {
                username: username.clone(),
            },
        }
    }
}

impl AuthSpec {
    /// The name of the way of authenticating.
    pub open spec fn mode_name(self) -> Seq<char> {
        match self {
            AuthSpec::Plaintext => "plaintext"@,
            AuthSpec::ScramSha512 { .. } => "scramSha512"@,
        }
    }

    /// The name of the way of authenticating.
    pub fn mode_str(&self) -> (r: &'static str)
        ensures
            r@ == self.mode_name(),
    {
        match self {
            AuthSpec::Plaintext => "plaintext",
            AuthSpec::ScramSha512 { .. } => "scramSha512",
        }
    }

    /// Who authenticates, where anyone does.
    pub open spec fn principal(self) -> Option<String> {
        match self {
            AuthSpec::Plaintext => None,
            AuthSpec::ScramSha512 { username } => Some(username),
        }
    }

    /// Who authenticates, where anyone does.
    pub fn username(&self) -> (r: Option<String>)
        ensures
            r == self.principal(),
    {
        match self {
            AuthSpec::Plaintext => None,
            AuthSpec::ScramSha512 { username } => Some(username.clone()),
        }
    }
}

/// The recovery point a plan is bound to.
#[derive(Debug)]
pub struct PointBinding {
    pub point_id: String,
    pub receipt_key: String,
    pub receipt_sha256: String,
    pub manifest_sha256: String,
}

/// What is restored.
#[derive(Debug)]
pub struct SourceSpec {
    /// Where the archive is, as configured.
    pub storage: String,
    /// `latestCompleted`, or the id of one backup set.
    pub backup: String,
    pub topics: Vec<String>,
    pub point: Option<PointBinding>,
}

/// Where it is restored to.
#[derive(Debug)]
pub struct TargetSpec {
    pub bootstrap_servers: Vec<String>,
    pub auth: AuthSpec,
    pub mode: TargetMode,
    pub marker_topic: String,
    pub topic_mapping_prefix: String,
    pub default_replication_factor: i16,
    pub teardown: String,
}

/// Which records are sampled.
#[derive(Debug)]
pub struct SampleSpec {
    pub window_start: Timestamp,
    pub window_end: Timestamp,
    pub records_per_partition: usize,
    pub anchor: Anchor,
    pub max_partitions: Option<u32>,
}

/// What the restore is asked to reach. The rate is kept as the bits of the
/// number that the operator wrote.
#[derive(Clone, Copy, Debug)]
pub struct ObjectivesSpec {
    pub rto_seconds: Option<u64>,
    pub rpo_seconds: Option<i64>,
    pub pass_rate_bits: Option<u64>,
}

/// Who is told how the drill went.
#[derive(Debug)]
pub struct Notifications {
    pub webhooks: Vec<String>,
    pub slack_webhook: Option<String>,
    pub pagerduty_routing_key: Option<String>,
    pub pagerduty_endpoint: Option<String>,
}

/// One drill as its operator wrote it.
#[derive(Debug)]
pub struct DrillSpec {
    pub name: Option<String>,
    pub source: SourceSpec,
    pub target: TargetSpec,
    pub sample: SampleSpec,
    /// The recovery point asked for, where it is not the sample's end.
    pub point_in_time: Option<Timestamp>,
    pub objectives: ObjectivesSpec,
    pub notifications: Notifications,
}

/// The clusters a drill may write to.
#[derive(Debug)]
pub struct AllowedClusters {
    pub allowed_cluster_ids: Vec<String>,
    pub source_cluster_id: Option<String>,
}

/// The end of the window that a plan asks for, and the field it was read from.
pub open spec fn window_end_of(spec: DrillSpec) -> (Seq<char>, Moment) {
    match spec.point_in_time {
        Some(t) => ("restore.point_in_time"@, t@),
        None => ("sample.window_end"@, spec.sample.window_end@),
    }
}

impl DrillSpec {
    /// The end of the window that a plan asks for, and the field it was read
    /// from.
    pub fn window_end(&self) -> (r: (&'static str, Timestamp))
        ensures
            (r.0@, r.1@) == window_end_of(*self),
            self.point_in_time matches Some(t) ==> r.1@ == t@,
            self.point_in_time is None ==> r.1@ == self.sample.window_end@,
    {
        match self.point_in_time {
            Some(t) => ("restore.point_in_time", t),
            None => ("sample.window_end", self.sample.window_end),
        }
    }
}

} // verus!
