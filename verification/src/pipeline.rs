//! Statistics of a pipeline run.

use vstd::prelude::*;
use std::time::Duration;
use crate::splitter::Chunk;

verus! {

/// `Duration::clone` returns a duration equal to the one it was given.
pub assume_specification[ <Duration as Clone>::clone ](duration: &Duration) -> (copy: Duration)
    ensures
        copy == *duration,
;

/// The sum of the totals of `chunks`.
pub open spec fn total_of(chunks: Seq<Chunk>) -> nat
    decreases chunks.len(),
{
    if chunks.len() == 0 {
        0
    } else {
        total_of(chunks.drop_last()) + chunks.last().total_tokens as nat
    }
}

/// The largest total among `chunks`; 0 where there is none.
pub open spec fn largest_of(chunks: Seq<Chunk>) -> nat
    decreases chunks.len(),
{
    if chunks.len() == 0 {
        0
    } else {
        let before = largest_of(chunks.drop_last());
        if chunks.last().total_tokens > before {
            chunks.last().total_tokens as nat
        } else {
            before
        }
    }
}

/// The smallest total among `chunks`; 0 where there is none.
pub open spec fn smallest_of(chunks: Seq<Chunk>) -> nat
    decreases chunks.len(),
{
    if chunks.len() == 0 {
        0
    } else if chunks.len() == 1 {
        chunks[0].total_tokens as nat
    } else {
        let before = smallest_of(chunks.drop_last());
        if chunks.last().total_tokens < before {
            chunks.last().total_tokens as nat
        } else {
            before
        }
    }
}

/// Statistics collected during pipeline execution.
#[derive(Debug, Clone)]
pub struct PipelineStats {
    /// Total number of files scanned
    pub total_files: usize,
    /// Number of text files processed
    pub text_files: usize,
    /// Number of binary files found
    pub binary_files: usize,
    /// Total number of chunks created
    pub total_chunks: usize,
    /// Total tokens across all files
    pub total_tokens: usize,
    /// Average tokens per chunk
    pub avg_tokens_per_chunk: usize,
    /// Largest chunk size in tokens
    pub max_chunk_tokens: usize,
    /// Smallest chunk size in tokens
    pub min_chunk_tokens: usize,
    /// Total execution time
    pub duration: Duration,
    /// Time spent scanning
    pub scan_duration: Duration,
    /// Time spent splitting
    pub split_duration: Duration,
    /// Time spent writing
    pub write_duration: Duration,
    /// Output directory path
    pub output_directory: String,
    /// Number of files written
    pub files_written: usize,
}

impl PipelineStats {
    /// Creates statistics from pipeline execution data. The total of the
    /// tokens stops at the largest number that the machine counts to.
    #[must_use]
    pub fn new(
        total_files: usize,
        text_files: usize,
        binary_files: usize,
        chunks: &[Chunk],
        duration: Duration,
        scan_duration: Duration,
        split_duration: Duration,
        write_duration: Duration,
        output_directory: String,
        files_written: usize,
    ) -> (stats: Self)
        ensures
            stats.total_files == total_files,
            stats.text_files == text_files,
            stats.binary_files == binary_files,
            stats.total_chunks == chunks@.len(),
            stats.total_tokens == if total_of(chunks@) <= usize::MAX {
                total_of(chunks@)
            } else {
                usize::MAX as nat
            },
            stats.avg_tokens_per_chunk == if chunks@.len() > 0 {
                stats.total_tokens as nat / chunks@.len()
            } else {
                0
            },
            stats.max_chunk_tokens == largest_of(chunks@),
            stats.min_chunk_tokens == smallest_of(chunks@),
            stats.duration == duration,
            stats.scan_duration == scan_duration,
            stats.split_duration == split_duration,
            stats.write_duration == write_duration,
            stats.output_directory == output_directory,
            stats.files_written == files_written,
    {
        let total_chunks = chunks.len();
        let mut total_tokens: usize = 0;
        let mut max_chunk_tokens: usize = 0;
        let mut min_chunk_tokens: usize = 0;
        let mut i: usize = 0;
        while i < total_chunks
            invariant
                i <= total_chunks,
                total_chunks == chunks@.len(),
                total_tokens == if total_of(chunks@.take(i as int)) <= usize::MAX {
                    total_of(chunks@.take(i as int))
                } else {
                    usize::MAX as nat
                },
                max_chunk_tokens == largest_of(chunks@.take(i as int)),
                min_chunk_tokens == smallest_of(chunks@.take(i as int)),
            decreases total_chunks - i,
        {
            proof {
                assert(chunks@.take(i + 1).drop_last() == chunks@.take(i as int));
            }
            let tokens = chunks[i].total_tokens;
            total_tokens = if tokens <= usize::MAX - total_tokens {
                total_tokens + tokens
            } else {
                usize::MAX
            };
            if tokens > max_chunk_tokens {
                max_chunk_tokens = tokens;
            }
            if i == 0 || tokens < min_chunk_tokens {
                min_chunk_tokens = tokens;
            }
            i = i + 1;
        }
        proof {
            assert(chunks@.take(total_chunks as int) == chunks@);
        }
        let avg_tokens_per_chunk = if total_chunks > 0 {
            total_tokens / total_chunks
        } else {
            0
        };
        Self {
            total_files,
            text_files,
            binary_files,
            total_chunks,
            total_tokens,
            avg_tokens_per_chunk,
            max_chunk_tokens,
            min_chunk_tokens,
            duration,
            scan_duration,
            split_duration,
            write_duration,
            output_directory,
            files_written,
        }
    }
}

/// Nine tenths of `limit`, rounded down: a chunk above it is near the limit.
pub open spec fn near_limit_threshold(limit: nat) -> nat {
    limit * 9 / 10
}

/// How many of `chunks` hold more tokens than nine tenths of `limit`.
pub open spec fn near_limit_count(chunks: Seq<Chunk>, limit: nat) -> nat
    decreases chunks.len(),
{
    if chunks.len() == 0 {
        0
    } else {
        near_limit_count(chunks.drop_last(), limit) + if chunks.last().total_tokens
            > near_limit_threshold(limit) {
            1nat
        } else {
            0nat
        }
    }
}

/// Counts the chunks that are close to the token limit.
pub fn count_near_limit(chunks: &[Chunk], limit: usize) -> (count: usize)
    ensures
        count == near_limit_count(chunks@, limit as nat),
        count <= chunks@.len(),
{
    let threshold: u128 = (limit as u128) * 9 / 10;
    let mut count: usize = 0;
    let mut i: usize = 0;
    while i < chunks.len()
        invariant
            i <= chunks@.len(),
            count <= i,
            threshold == near_limit_threshold(limit as nat),
            count == near_limit_count(chunks@.take(i as int), limit as nat),
        decreases chunks@.len() - i,
    {
        proof {
            assert(chunks@.take(i + 1).drop_last() == chunks@.take(i as int));
        }
        if (chunks[i].total_tokens as u128) > threshold {
            count = count + 1;
        }
        i = i + 1;
    }
    proof {
        assert(chunks@.take(chunks@.len() as int) == chunks@);
    }
    count
}

} // verus!
