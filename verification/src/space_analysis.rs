//! The space that an index takes: what is measured, how it is broken down,
//! and what is advised.
use vstd::prelude::*;

verus! {

/// What is known of an index as a whole.
#[derive(Debug, PartialEq)]
pub struct IndexMetadata {
    pub total_docs: u64,
    pub deleted_docs: u64,
    pub schema_size_bytes: u64,
    pub num_fields: usize,
    pub index_settings: Vec<(String, String)>,
}

/// The bytes of an index by what they are used for.
#[derive(Clone, Copy, Debug, PartialEq, Eq, Structural)]
pub struct StorageBreakdown {
    pub postings: u64,
    pub term_dictionary: u64,
    pub fast_fields: u64,
    pub field_norms: u64,
    pub stored_fields: u64,
    pub positions: u64,
    pub delete_bitset: u64,
    pub other: u64,
}

/// What an analysis looks at and keeps.
#[derive(Clone, Copy, Debug, PartialEq, Eq, Structural)]
pub struct AnalysisConfig {
    pub include_file_details: bool,
    pub include_field_breakdown: bool,
    pub cache_results: bool,
    pub cache_ttl_seconds: u64,
}

impl Default for AnalysisConfig {
    fn default() -> (c: AnalysisConfig)
        ensures
            c == (AnalysisConfig {
                include_file_details: true,
                include_field_breakdown: true,
                cache_results: true,
                cache_ttl_seconds: 300,
            }),
    {
        AnalysisConfig {
            include_file_details: true,
            include_field_breakdown: true,
            cache_results: true,
            cache_ttl_seconds: 300,
        }
    }
}

/// Sets what an analysis looks at and keeps.
pub fn space_analysis_configure(
    config: &mut AnalysisConfig,
    include_file_details: bool,
    include_field_breakdown: bool,
    cache_results: bool,
    cache_ttl_seconds: u64,
)
    ensures
        *final(config) == (AnalysisConfig {
            include_file_details,
            include_field_breakdown,
            cache_results,
            cache_ttl_seconds,
        }),
{
    config.include_file_details = include_file_details;
    config.include_field_breakdown = include_field_breakdown;
    config.cache_results = cache_results;
    config.cache_ttl_seconds = cache_ttl_seconds;
}

/// The size that an index is taken to have, in bytes.
pub const INDEX_SIZE_ESTIMATE: u64 = 10_485_760;

/// Estimates the size of an index.
pub fn estimate_index_size() -> (bytes: u64)
    ensures
        bytes == INDEX_SIZE_ESTIMATE,
{
    1024 * 1024 * 10
}

/// The sum of the sizes.
pub open spec fn total_of(sizes: Seq<u64>) -> nat
    decreases sizes.len(),
{
    if sizes.len() == 0 {
        0
    } else {
        total_of(sizes.drop_last()) + sizes.last() as nat
    }
}

/// The sum of the sizes, or the greatest number where the sum is greater.
pub open spec fn capped_total(sizes: Seq<u64>) -> u64 {
    if total_of(sizes) > u64::MAX {
        u64::MAX
    } else {
        total_of(sizes) as u64
    }
}

/// The shares of a total: a third for the postings, a sixth each for the
/// term dictionary, the fast fields and the stored fields, a twelfth each
/// for the field norms and the positions, a twenty-fourth each for the
/// deletions and the rest.
pub open spec fn breakdown_of(total: u64) -> StorageBreakdown {
    StorageBreakdown {
        postings: total / 3,
        term_dictionary: total / 6,
        fast_fields: total / 6,
        field_norms: total / 12,
        stored_fields: total / 6,
        positions: total / 12,
        delete_bitset: total / 24,
        other: total / 24,
    }
}

/// Breaks the size of the segments down by use.
pub fn analyze_storage_breakdown(segment_sizes: &Vec<u64>) -> (b: StorageBreakdown)
    ensures
        b == breakdown_of(capped_total(segment_sizes@)),
{
    let mut total: u64 = 0;
    let mut full = false;
    let mut i: usize = 0;
    proof {
        assert(segment_sizes@.take(0) =~= Seq::<u64>::empty());
    }
    while i < segment_sizes.len()
        invariant
            i <= segment_sizes.len(),
            !full ==> total == total_of(segment_sizes@.take(i as int)),
            full ==> total == u64::MAX && total_of(segment_sizes@.take(i as int)) > u64::MAX,
        decreases segment_sizes.len() - i,
    {
        let size = segment_sizes[i];
        proof {
            assert(segment_sizes@.take(i + 1).drop_last() =~= segment_sizes@.take(i as int));
            assert(segment_sizes@.take(i + 1).last() == size);
        }
        if !full {
            if total > u64::MAX - size {
                total = u64::MAX;
                full = true;
            } else {
                total = total + size;
            }
        }
        i += 1;
    }
    proof {
        assert(segment_sizes@.take(segment_sizes@.len() as int) =~= segment_sizes@);
    }
    StorageBreakdown {
        postings: total / 3,
        term_dictionary: total / 6,
        fast_fields: total / 6,
        field_norms: total / 12,
        stored_fields: total / 6,
        positions: total / 12,
        delete_bitset: total / 24,
        other: total / 24,
    }
}

/// The bytes that merging is taken to save: a tenth of the index where it
/// has more than five segments.
pub open spec fn merge_savings(segment_count: usize, total_size_bytes: u64) -> u64 {
    if segment_count > 5 {
        total_size_bytes / 10
    } else {
        0
    }
}

/// Estimates what merging the segments would save.
pub fn estimate_merge_savings(segment_count: usize, total_size_bytes: u64) -> (bytes: u64)
    ensures
        bytes == merge_savings(segment_count, total_size_bytes),
{
    if segment_count > 5 {
        total_size_bytes / 10
    } else {
        0
    }
}

/// What is advised for an index.
#[derive(Clone, Copy, Debug, PartialEq, Eq, Structural)]
pub enum SpaceAdvice {
    /// Merge the segments; what it is taken to save.
    MergeSegments { potential_savings_bytes: u64 },
    /// Clear out the deleted documents.
    OptimizeDeletes,
}

/// The number of segments above which merging is advised.
pub const MANY_SEGMENTS: usize = 10;

/// Whether more than a tenth of the documents are deleted.
pub open spec fn many_deleted(deleted_docs: u64, total_docs: u64) -> bool {
    deleted_docs * 10 > total_docs
}

/// What is advised: merging where there are more than ten segments, then
/// clearing out where more than a tenth of the documents are deleted.
pub open spec fn space_advice(
    segment_count: usize,
    total_size_bytes: u64,
    deleted_docs: u64,
    total_docs: u64,
) -> Seq<SpaceAdvice> {
    let a = if segment_count > MANY_SEGMENTS {
        seq![
            SpaceAdvice::MergeSegments {
                potential_savings_bytes: merge_savings(segment_count, total_size_bytes),
            },
        ]
    } else {
        Seq::empty()
    };
    if many_deleted(deleted_docs, total_docs) {
        a.push(SpaceAdvice::OptimizeDeletes)
    } else {
        a
    }
}

/// Advises on the space of an index.
pub fn space_analysis_get_recommendations(
    segment_count: usize,
    total_size_bytes: u64,
    metadata: &IndexMetadata,
) -> (advice: Vec<SpaceAdvice>)
    ensures
        advice@ == space_advice(
            segment_count,
            total_size_bytes,
            metadata.deleted_docs,
            metadata.total_docs,
        ),
{
    let mut advice: Vec<SpaceAdvice> = Vec::new();
    if segment_count > MANY_SEGMENTS {
        advice.push(
            SpaceAdvice::MergeSegments {
                potential_savings_bytes: estimate_merge_savings(segment_count, total_size_bytes),
            },
        );
    }
    if (metadata.deleted_docs as u128) * 10 > metadata.total_docs as u128 {
        advice.push(SpaceAdvice::OptimizeDeletes);
    }
    proof {
        assert(advice@ =~= space_advice(
            segment_count,
            total_size_bytes,
            metadata.deleted_docs,
            metadata.total_docs,
        ));
    }
    advice
}

/// How two analyses differ: the second less the first.
#[derive(Clone, Copy, Debug, PartialEq, Eq, Structural)]
pub struct SpaceDifference {
    pub size_difference_bytes: i128,
    pub segment_difference: i128,
    pub document_difference: i128,
}

/// Compares two analyses by size, segments and documents.
pub fn space_analysis_compare(
    size_1: u64,
    segments_1: usize,
    docs_1: u64,
    size_2: u64,
    segments_2: usize,
    docs_2: u64,
) -> (d: SpaceDifference)
    ensures
        d.size_difference_bytes == size_2 - size_1,
        d.segment_difference == segments_2 - segments_1,
        d.document_difference == docs_2 - docs_1,
{
    SpaceDifference {
        size_difference_bytes: size_2 as i128 - size_1 as i128,
        segment_difference: segments_2 as i128 - segments_1 as i128,
        document_difference: docs_2 as i128 - docs_1 as i128,
    }
}

} // verus!
