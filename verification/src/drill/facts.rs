//! What the archive, the engine and the target cluster report.
use vstd::prelude::*;
use crate::textmap::TextMap;
use crate::drill::spec::Anchor;

verus! {

/// One backup set in the archive.
#[derive(Debug)]
pub struct BackupSetRef {
    pub backup_id: String,
    pub manifest_key: String,
}

impl Clone for BackupSetRef {
    fn clone(&self) -> (r: Self)
        ensures
            r == *self,
    {
        BackupSetRef { backup_id: self.backup_id.clone(), manifest_key: self.manifest_key.clone() }
    }
}

/// One segment of a partition in the archive.
#[derive(Debug)]
pub struct SegmentFacts {
    pub key: String,
    pub start_offset: i64,
    pub end_offset: i64,
    pub start_timestamp: i64,
    pub end_timestamp: i64,
    pub record_count: i64,
    /// Hexadecimal, with or without the `sha256:` prefix; empty where the
    /// manifest holds none.
    pub sha256: String,
}

/// One partition in the archive.
#[derive(Debug)]
pub struct PartitionFacts {
    pub partition_id: i32,
    pub segments: Vec<SegmentFacts>,
    /// Ranges of offsets that were not captured.
    pub gaps: Vec<(i64, i64)>,
    /// Ranges of offsets that retention removed.
    pub pruned: Vec<(i64, i64)>,
}

/// One topic in the archive.
#[derive(Debug)]
pub struct TopicFacts {
    pub name: String,
    pub original_partition_count: Option<i32>,
    pub source_replication_factor: Option<i16>,
    pub configurations: TextMap,
    pub partitions: Vec<PartitionFacts>,
}

/// What the manifest of a backup set says.
#[derive(Debug)]
pub struct BackupSetFacts {
    pub backup_id: String,
    pub manifest_sha256: String,
    pub manifest_version_id: Option<String>,
    pub topics: Vec<TopicFacts>,
}

/// The records that are sampled of one partition.
#[derive(Debug)]
pub struct SampleSelection {
    pub set: BackupSetRef,
    pub topic: String,
    pub partition: i32,
    pub anchor: Anchor,
    pub count: usize,
    pub window: (i64, i64),
}

/// The fingerprint of one record in the archive.
#[derive(Debug)]
pub struct RecordFingerprint {
    pub topic: String,
    pub partition: i32,
    pub offset: i64,
    pub sha256: String,
}

/// One record read back from the target, with its fingerprint.
#[derive(Debug)]
pub struct ConsumedRecord {
    pub partition: i32,
    pub offset: i64,
    pub timestamp_ms: i64,
    pub headers: Vec<(String, Option<Vec<u8>>)>,
    pub fingerprint: String,
}

/// One topic as the target cluster lists it.
#[derive(Debug)]
pub struct TopicMeta {
    pub name: String,
    pub partitions: i32,
    pub error: Option<String>,
}

/// A topic to be created.
#[derive(Debug)]
pub struct NewTopicSpec {
    pub name: String,
    pub num_partitions: i32,
    pub replication_factor: i32,
    pub configs: Vec<(String, String)>,
}

} // verus!
