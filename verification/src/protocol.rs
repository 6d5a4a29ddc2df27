//! Metadata carried by every tool response: protocol version, freshness,
//! indexing state, completeness, ref and schema status.

use vstd::prelude::*;
use crate::constants::PROTOCOL_VERSION;
use crate::types::{FreshnessStatus, IndexingStatus, ResultCompleteness, SchemaStatus};

verus! {

/// Response metadata of a tool call.
#[derive(Debug, Clone)]
pub struct ProtocolMetadata {
    pub codecompass_protocol_version: String,
    pub freshness_status: FreshnessStatus,
    pub indexing_status: IndexingStatus,
    pub result_completeness: ResultCompleteness,
    pub ref_name: String,
    pub schema_status: SchemaStatus,
    pub suppressed_duplicate_count: Option<usize>,
    pub safety_limit_applied: Option<bool>,
}

/// The status part of a metadata value: freshness, indexing, completeness,
/// schema.
pub open spec fn metadata_status(
    m: ProtocolMetadata,
) -> (FreshnessStatus, IndexingStatus, ResultCompleteness, SchemaStatus) {
    (m.freshness_status, m.indexing_status, m.result_completeness, m.schema_status)
}

/// A freshly built metadata value for `ref_name` with the given statuses and
/// no optional fields.
pub open spec fn plain_metadata(
    m: ProtocolMetadata,
    ref_name: Seq<char>,
    status: (FreshnessStatus, IndexingStatus, ResultCompleteness, SchemaStatus),
) -> bool {
    &&& m.codecompass_protocol_version@ == PROTOCOL_VERSION@
    &&& m.ref_name@ == ref_name
    &&& metadata_status(m) == status
    &&& m.suppressed_duplicate_count is None
    &&& m.safety_limit_applied is None
}

fn build(
    ref_name: &str,
    freshness_status: FreshnessStatus,
    indexing_status: IndexingStatus,
    result_completeness: ResultCompleteness,
    schema_status: SchemaStatus,
) -> (r: ProtocolMetadata)
    ensures
        plain_metadata(
            r,
            ref_name@,
            (freshness_status, indexing_status, result_completeness, schema_status),
        ),
{
    ProtocolMetadata {
        codecompass_protocol_version: PROTOCOL_VERSION.to_owned(),
        freshness_status,
        indexing_status,
        result_completeness,
        ref_name: ref_name.to_owned(),
        schema_status,
        suppressed_duplicate_count: None,
        safety_limit_applied: None,
    }
}

impl ProtocolMetadata {
    /// Metadata with default "healthy" values.
    pub fn new(ref_name: &str) -> (r: Self)
        ensures
            plain_metadata(
                r,
                ref_name@,
                (
                    FreshnessStatus::Fresh,
                    IndexingStatus::Ready,
                    ResultCompleteness::Complete,
                    SchemaStatus::Compatible,
                ),
            ),
    {
        build(
            ref_name,
            FreshnessStatus::Fresh,
            IndexingStatus::Ready,
            ResultCompleteness::Complete,
            SchemaStatus::Compatible,
        )
    }

    /// Metadata telling that no index is available.
    pub fn not_indexed(ref_name: &str) -> (r: Self)
        ensures
            plain_metadata(
                r,
                ref_name@,
                (
                    FreshnessStatus::Stale,
                    IndexingStatus::NotIndexed,
                    ResultCompleteness::Partial,
                    SchemaStatus::NotIndexed,
                ),
            ),
    {
        build(
            ref_name,
            FreshnessStatus::Stale,
            IndexingStatus::NotIndexed,
            ResultCompleteness::Partial,
            SchemaStatus::NotIndexed,
        )
    }

    /// Metadata telling that indexing is in progress.
    pub fn syncing(ref_name: &str) -> (r: Self)
        ensures
            plain_metadata(
                r,
                ref_name@,
                (
                    FreshnessStatus::Syncing,
                    IndexingStatus::Indexing,
                    ResultCompleteness::Partial,
                    SchemaStatus::Compatible,
                ),
            ),
    {
        build(
            ref_name,
            FreshnessStatus::Syncing,
            IndexingStatus::Indexing,
            ResultCompleteness::Partial,
            SchemaStatus::Compatible,
        )
    }

    /// Metadata telling that a schema migration is required before querying.
    pub fn reindex_required(ref_name: &str) -> (r: Self)
        ensures
            plain_metadata(
                r,
                ref_name@,
                (
                    FreshnessStatus::Stale,
                    IndexingStatus::Failed,
                    ResultCompleteness::Partial,
                    SchemaStatus::ReindexRequired,
                ),
            ),
    {
        build(
            ref_name,
            FreshnessStatus::Stale,
            IndexingStatus::Failed,
            ResultCompleteness::Partial,
            SchemaStatus::ReindexRequired,
        )
    }

    /// Metadata telling that the index is corrupted and unusable.
    pub fn corrupt_manifest(ref_name: &str) -> (r: Self)
        ensures
            plain_metadata(
                r,
                ref_name@,
                (
                    FreshnessStatus::Stale,
                    IndexingStatus::Failed,
                    ResultCompleteness::Partial,
                    SchemaStatus::CorruptManifest,
                ),
            ),
    {
        build(
            ref_name,
            FreshnessStatus::Stale,
            IndexingStatus::Failed,
            ResultCompleteness::Partial,
            SchemaStatus::CorruptManifest,
        )
    }

    /// With an active job the metadata reports syncing, indexing and partial
    /// results; otherwise it is unchanged.
    pub fn with_active_job(self, has_active_job: bool) -> (r: Self)
        ensures
            has_active_job ==> r == (ProtocolMetadata {
                freshness_status: FreshnessStatus::Syncing,
                indexing_status: IndexingStatus::Indexing,
                result_completeness: ResultCompleteness::Partial,
                ..self
            }),
            !has_active_job ==> r == self,
    {
        let mut m = self;
        if has_active_job {
            m.freshness_status = FreshnessStatus::Syncing;
            m.indexing_status = IndexingStatus::Indexing;
            m.result_completeness = ResultCompleteness::Partial;
        }
        m
    }

    /// Record what shaping the results did: the number of duplicates
    /// suppressed (when any), and a payload cut short by the response limit
    /// (truncated results).
    pub fn with_result_adjustments(self, suppressed_duplicate_count: usize, safety_limit_applied: bool) -> (r: Self)
        ensures
            r.suppressed_duplicate_count == if suppressed_duplicate_count > 0 {
                Some(suppressed_duplicate_count)
            } else {
                self.suppressed_duplicate_count
            },
            r.result_completeness == if safety_limit_applied {
                ResultCompleteness::Truncated
            } else {
                self.result_completeness
            },
            r.safety_limit_applied == if safety_limit_applied {
                Some(true)
            } else {
                self.safety_limit_applied
            },
            r.codecompass_protocol_version == self.codecompass_protocol_version,
            r.freshness_status == self.freshness_status,
            r.indexing_status == self.indexing_status,
            r.ref_name == self.ref_name,
            r.schema_status == self.schema_status,
    {
        let mut m = self;
        if suppressed_duplicate_count > 0 {
            m.suppressed_duplicate_count = Some(suppressed_duplicate_count);
        }
        if safety_limit_applied {
            m.result_completeness = ResultCompleteness::Truncated;
            m.safety_limit_applied = Some(true);
        }
        m
    }
}

/// The metadata a schema status calls for before any freshness check:
/// the healthy value when compatible, the matching degraded value otherwise.
pub open spec fn schema_metadata_status(
    s: SchemaStatus,
) -> (FreshnessStatus, IndexingStatus, ResultCompleteness, SchemaStatus) {
    match s {
        SchemaStatus::Compatible => (
            FreshnessStatus::Fresh,
            IndexingStatus::Ready,
            ResultCompleteness::Complete,
            SchemaStatus::Compatible,
        ),
        SchemaStatus::NotIndexed => (
            FreshnessStatus::Stale,
            IndexingStatus::NotIndexed,
            ResultCompleteness::Partial,
            SchemaStatus::NotIndexed,
        ),
        SchemaStatus::ReindexRequired => (
            FreshnessStatus::Stale,
            IndexingStatus::Failed,
            ResultCompleteness::Partial,
            SchemaStatus::ReindexRequired,
        ),
        SchemaStatus::CorruptManifest => (
            FreshnessStatus::Stale,
            IndexingStatus::Failed,
            ResultCompleteness::Partial,
            SchemaStatus::CorruptManifest,
        ),
    }
}

/// Metadata for request validation errors, built without any freshness scan.
pub fn validation_metadata(ref_name: &str, schema_status: SchemaStatus) -> (r: ProtocolMetadata)
    ensures
        plain_metadata(r, ref_name@, schema_metadata_status(schema_status)),
{
    match schema_status {
        SchemaStatus::Compatible => ProtocolMetadata::new(ref_name),
        SchemaStatus::NotIndexed => ProtocolMetadata::not_indexed(ref_name),
        SchemaStatus::ReindexRequired => ProtocolMetadata::reindex_required(ref_name),
        SchemaStatus::CorruptManifest => ProtocolMetadata::corrupt_manifest(ref_name),
    }
}

/// Metadata once the freshness of a compatible index is known: its freshness
/// status, and indexing with partial results while a sync runs. Degraded
/// schema statuses keep their fixed metadata.
pub open spec fn fresh_metadata_status(
    s: SchemaStatus,
    freshness: FreshnessStatus,
    syncing: bool,
) -> (FreshnessStatus, IndexingStatus, ResultCompleteness, SchemaStatus) {
    match s {
        SchemaStatus::Compatible => (
            freshness,
            if syncing {
                IndexingStatus::Indexing
            } else {
                IndexingStatus::Ready
            },
            if syncing {
                ResultCompleteness::Partial
            } else {
                ResultCompleteness::Complete
            },
            SchemaStatus::Compatible,
        ),
        _ => schema_metadata_status(s),
    }
}

/// Metadata from a schema status and the outcome of a freshness check
/// (`freshness` as reported, `syncing` when the check found a sync running).
pub fn metadata_with_freshness(
    ref_name: &str,
    schema_status: SchemaStatus,
    freshness: FreshnessStatus,
    syncing: bool,
) -> (r: ProtocolMetadata)
    ensures
        plain_metadata(r, ref_name@, fresh_metadata_status(schema_status, freshness, syncing)),
{
    match schema_status {
        SchemaStatus::Compatible => {
            let mut m = ProtocolMetadata::new(ref_name);
            m.freshness_status = freshness;
            if syncing {
                m.indexing_status = IndexingStatus::Indexing;
                m.result_completeness = ResultCompleteness::Partial;
            }
            m
        },
        _ => validation_metadata(ref_name, schema_status),
    }
}

} // verus!
