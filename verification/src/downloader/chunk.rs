//! Decisions of a per-chunk download worker: when to stream, when to retry, what to request.

use vstd::prelude::*;
use crate::downloader::state::ChunkRange;
use crate::text::{decimal, push_decimal, push_str, string_of};

verus! {

/// Retries of a chunk after its first attempt fails.
pub const MAX_RETRIES: u32 = 3;

/// Attempts per chunk before the whole download is abandoned: the first and its retries.
pub const MAX_ATTEMPTS: u32 = 4;

/// Bytes received between two updates of the shared download state.
pub const FLUSH_BYTES: u64 = 262144;

/// `2^n`.
pub open spec fn two_pow(n: nat) -> nat
    decreases n,
{
    if n == 0 { 1 } else { 2 * two_pow((n - 1) as nat) }
}

/// What a worker does at the top of an attempt.
#[derive(Debug, Clone, Copy, PartialEq, Eq, Structural)]
pub enum ChunkAttempt {
    /// Another worker failed: stop with an error.
    Abort,
    /// Nothing is left to fetch.
    Done,
    /// Fetch the rest of the range.
    Stream,
}

/// Stops when another worker has failed, is done when the chunk is complete, streams otherwise.
pub fn chunk_attempt(failed: bool, chunk: &ChunkRange) -> (r: ChunkAttempt)
    requires
        chunk.len_fits(),
    ensures
        r == (if failed { ChunkAttempt::Abort } else if chunk.complete() { ChunkAttempt::Done } else { ChunkAttempt::Stream }),
{
    if failed {
        ChunkAttempt::Abort
    } else if chunk.is_complete() {
        ChunkAttempt::Done
    } else {
        ChunkAttempt::Stream
    }
}

/// What follows a failed attempt.
#[derive(Debug, Clone, Copy, PartialEq, Eq, Structural)]
pub enum RetryDecision {
    /// Wait this many seconds, then try again.
    Retry(u64),
    /// Give up and fail the download.
    GiveUp,
}

/// After the `failures`-th failed attempt: retry after each of the first three failures, backing
/// off exponentially (1 s, 2 s, then 4 s), and give up after the fourth.
pub fn after_failure(failures: u32) -> (r: RetryDecision)
    requires
        failures >= 1,
    ensures
        failures >= MAX_ATTEMPTS ==> r == RetryDecision::GiveUp,
        failures < MAX_ATTEMPTS ==> r == RetryDecision::Retry(two_pow((failures - 1) as nat) as u64),
{
    if failures >= MAX_ATTEMPTS {
        return RetryDecision::GiveUp;
    }
    let mut secs: u64 = 1;
    let mut k: u32 = 1;
    while k < failures
        invariant
            1 <= k <= failures < MAX_ATTEMPTS,
            secs == two_pow((k - 1) as nat),
            k == 1 ==> secs == 1,
            k == 2 ==> secs == 2,
            k == 3 ==> secs == 4,
        decreases failures - k,
    {
        secs = secs * 2;
        k = k + 1;
    }
    RetryDecision::Retry(secs)
}

/// Whether enough bytes are buffered to update the shared state.
pub fn should_flush(buffered: u64) -> (r: bool)
    ensures
        r == (buffered >= FLUSH_BYTES),
{
    buffered >= FLUSH_BYTES
}

/// The `Range` header for the rest of a chunk: `bytes=<resume offset>-<end>`.
pub fn chunk_range_header(chunk: &ChunkRange) -> (r: String)
    requires
        chunk.resume_at() <= u64::MAX,
    ensures
        r@ == "bytes="@ + decimal(chunk.resume_at() as nat) + "-"@ + decimal(chunk.end as nat),
{
    let mut v: Vec<char> = Vec::new();
    push_str(&mut v, "bytes=");
    push_decimal(&mut v, chunk.resume_offset() as u128);
    push_str(&mut v, "-");
    push_decimal(&mut v, chunk.end as u128);
    string_of(&v)
}

} // verus!
