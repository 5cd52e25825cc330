//! Planning of the fixed eight-way parallel download that tracks progress in `.part.N` files.

use vstd::prelude::*;
use crate::downloader::state::ceil_div;
use crate::paths::{join_path, joined};
use crate::text::{chars_of, decimal, push_decimal, push_str, string_of};

verus! {

/// Number of ranges a parallel download is split into.
pub const PARALLEL_THREADS: u64 = 8;

/// Bytes per range: the total divided by eight, rounded up.
pub open spec fn pchunk_size(total: u64) -> int {
    ceil_div(total as int, 8)
}

/// First byte of range `i`.
pub open spec fn pstart(total: u64, i: int) -> int {
    i * pchunk_size(total)
}

/// Range `i` starts inside the file (for small files the last ranges would start past its end,
/// and are left out).
pub open spec fn in_file(total: u64, i: int) -> bool {
    pstart(total, i) < total
}

/// Last byte of range `i`.
pub open spec fn pend(total: u64, i: int) -> int {
    let next = (i + 1) * pchunk_size(total);
    (if next < total { next } else { total as int }) - 1
}

/// Length of range `i`.
pub open spec fn plen(total: u64, i: int) -> int {
    pend(total, i) - pstart(total, i) + 1
}

/// Bytes of range `i` already fetched: the length of its `.part.i` file (0 when the list has no
/// such entry), at most the range's length; none for a range past the end of the file.
pub open spec fn pdone(total: u64, parts: Seq<u64>, i: int) -> int {
    let p: int = if 0 <= i < parts.len() { parts[i] as int } else { 0 };
    if !in_file(total, i) { 0 } else if p < plen(total, i) { p } else { plen(total, i) }
}

/// A range still to fetch.
#[derive(Debug, Clone, Copy, PartialEq, Eq, Structural)]
pub struct ParallelJob {
    pub index: u64,
    pub start: u64,
    pub resume_from: u64,
    pub end: u64,
    pub len: u64,
    pub done: u64,
}

/// The job for range `i`.
pub open spec fn pjob(total: u64, parts: Seq<u64>, i: int) -> ParallelJob {
    ParallelJob {
        index: i as u64,
        start: pstart(total, i) as u64,
        resume_from: (pstart(total, i) + pdone(total, parts, i)) as u64,
        end: pend(total, i) as u64,
        len: plen(total, i) as u64,
        done: pdone(total, parts, i) as u64,
    }
}

/// The jobs among the first `n` ranges: those inside the file and not yet complete, in order.
pub open spec fn pjobs(total: u64, parts: Seq<u64>, n: int) -> Seq<ParallelJob>
    decreases n,
{
    if n <= 0 {
        seq![]
    } else {
        let r = pjobs(total, parts, n - 1);
        if in_file(total, n - 1) && pdone(total, parts, n - 1) < plen(total, n - 1) {
            r.push(pjob(total, parts, n - 1))
        } else {
            r
        }
    }
}

/// Bytes already fetched in the first `n` ranges.
pub open spec fn pinitial(total: u64, parts: Seq<u64>, n: int) -> int
    decreases n,
{
    if n <= 0 { 0 } else { pinitial(total, parts, n - 1) + pdone(total, parts, n - 1) }
}

/// Bytes the jobs still have to fetch.
pub open spec fn remaining_sum(jobs: Seq<ParallelJob>) -> int
    decreases jobs.len(),
{
    if jobs.len() == 0 { 0 } else { remaining_sum(jobs.drop_last()) + jobs.last().len - jobs.last().done }
}

/// The bytes the first `n` ranges cover: up to the end of range `n - 1`, or the whole file.
pub open spec fn covered(total: u64, n: int) -> int {
    if n * pchunk_size(total) < total { n * pchunk_size(total) } else { total as int }
}

/// The ranges to fetch and the bytes already fetched.
#[derive(Debug, Clone)]
pub struct ParallelPlan {
    pub jobs: Vec<ParallelJob>,
    pub initial_total: u64,
}

proof fn lemma_chunk_size(total: u64)
    ensures
        pchunk_size(total) >= 0,
        8 * pchunk_size(total) >= total,
        pchunk_size(total) <= 2305843009213693952,
        total > 0 ==> pchunk_size(total) > 0,
        total == 0 ==> pchunk_size(total) == 0,
{
    let t = total as int;
    assert(t == 8 * (t / 8) + t % 8);
    assert(0 <= t % 8 < 8);
}

proof fn lemma_range(total: u64, i: int)
    requires
        0 <= i < 8,
    ensures
        0 <= pstart(total, i) <= 7 * pchunk_size(total),
        (i + 1) * pchunk_size(total) == pstart(total, i) + pchunk_size(total),
        in_file(total, i) ==> 0 <= pstart(total, i) <= pend(total, i) < total,
        in_file(total, i) ==> pend(total, i) + 1 == covered(total, i + 1),
        in_file(total, i) ==> covered(total, i) == pstart(total, i),
        !in_file(total, i) ==> covered(total, i) == total && covered(total, i + 1) == total,
{
    let cs = pchunk_size(total);
    lemma_chunk_size(total);
    assert(i * cs <= 7 * cs) by (nonlinear_arith)
        requires
            0 <= i < 8,
            cs >= 0,
    ;
    assert(i * cs >= 0) by (nonlinear_arith)
        requires
            0 <= i,
            cs >= 0,
    ;
    assert((i + 1) * cs == i * cs + cs) by (nonlinear_arith);
    if !in_file(total, i) {
        assert((i + 1) * cs >= i * cs);
    } else {
        assert(cs > 0);
    }
}

proof fn lemma_accounting(total: u64, parts: Seq<u64>, n: int)
    requires
        0 <= n <= 8,
    ensures
        pinitial(total, parts, n) + remaining_sum(pjobs(total, parts, n)) == covered(total, n),
        pinitial(total, parts, n) >= 0,
        pinitial(total, parts, n) <= covered(total, n),
    decreases n,
{
    if n == 0 {
        assert(0 * pchunk_size(total) == 0);
        lemma_chunk_size(total);
    } else {
        lemma_accounting(total, parts, n - 1);
        lemma_range(total, n - 1);
        let r = pjobs(total, parts, n - 1);
        if in_file(total, n - 1) && pdone(total, parts, n - 1) < plen(total, n - 1) {
            assert(pjobs(total, parts, n).drop_last() == r);
        }
    }
}

proof fn lemma_jobs_in_range(total: u64, parts: Seq<u64>, n: int)
    requires
        0 <= n <= 8,
    ensures
        forall|k: int| 0 <= k < pjobs(total, parts, n).len() ==> {
            let j = #[trigger] pjobs(total, parts, n)[k];
            &&& j.start <= j.resume_from <= j.end < total
            &&& j.done < j.len
            &&& j.len == j.end - j.start + 1
            &&& j.resume_from == j.start + j.done
            &&& j.start == j.index * pchunk_size(total)
        },
    decreases n,
{
    if n > 0 {
        lemma_jobs_in_range(total, parts, n - 1);
        lemma_range(total, n - 1);
        let r = pjobs(total, parts, n - 1);
        let q = pjobs(total, parts, n);
        assert forall|k: int| 0 <= k < q.len() implies {
            let j = #[trigger] q[k];
            &&& j.start <= j.resume_from <= j.end < total
            &&& j.done < j.len
            &&& j.len == j.end - j.start + 1
            &&& j.resume_from == j.start + j.done
            &&& j.start == j.index * pchunk_size(total)
        } by {
            if k < r.len() {
                assert(q[k] == r[k]);
            } else {
                assert(q[k] == pjob(total, parts, n - 1));
            }
        }
    }
}

/// The plan accounts for every byte once: what is already fetched plus what the jobs still have
/// to fetch is the file size; each job lies inside the file, starts at its range's first byte
/// and resumes after the bytes already fetched.
pub proof fn law_parallel_plan_accounts(total: u64, parts: Seq<u64>)
    ensures
        pinitial(total, parts, 8) + remaining_sum(pjobs(total, parts, 8)) == total,
        forall|k: int| 0 <= k < pjobs(total, parts, 8).len() ==> {
            let j = #[trigger] pjobs(total, parts, 8)[k];
            &&& j.start <= j.resume_from <= j.end < total
            &&& j.done < j.len
            &&& j.len == j.end - j.start + 1
            &&& j.resume_from == j.start + j.done
            &&& j.start == j.index * pchunk_size(total)
        },
{
    lemma_accounting(total, parts, 8);
    lemma_chunk_size(total);
    lemma_jobs_in_range(total, parts, 8);
}

/// Lays out the eight ranges, leaving out those that would start past the end of the file,
/// counts the bytes their `.part.N` files already hold (`parts[i]` for range `i`) and lists the
/// ranges still to fetch.
pub fn plan_parallel(total: u64, parts: &Vec<u64>) -> (r: ParallelPlan)
    ensures
        r.initial_total == pinitial(total, parts@, 8),
        r.jobs@ == pjobs(total, parts@, 8),
{
    let cs: u64 = total / 8 + if total % 8 == 0 { 0 } else { 1 };
    assert(cs == pchunk_size(total));
    proof {
        lemma_chunk_size(total);
    }
    let mut jobs: Vec<ParallelJob> = Vec::new();
    let mut initial: u64 = 0;
    let mut i: u64 = 0;
    while i < 8
        invariant
            cs == pchunk_size(total),
            cs <= 2305843009213693952,
            i <= 8,
            initial == pinitial(total, parts@, i as int),
            jobs@ == pjobs(total, parts@, i as int),
        decreases 8 - i,
    {
        proof {
            lemma_range(total, i as int);
            lemma_accounting(total, parts@, i as int);
            lemma_accounting(total, parts@, i + 1);
        }
        assert(i * cs <= 7 * 2305843009213693952) by (nonlinear_arith)
            requires
                i < 8,
                cs <= 2305843009213693952,
        ;
        let start = i * cs;
        assert(start == pstart(total, i as int));
        if start < total {
            let stop = if cs < total - start { start + cs } else { total };
            let end = stop - 1;
            let len = end - start + 1;
            let part: u64 = if (i as usize) < parts.len() { parts[i as usize] } else { 0 };
            let done = if part < len { part } else { len };
            initial = initial + done;
            if done < len {
                jobs.push(ParallelJob { index: i, start, resume_from: start + done, end, len, done });
            }
        }
        i = i + 1;
    }
    ParallelPlan { jobs, initial_total: initial }
}

/// The `Range` header of a job: `bytes=<resume offset>-<last byte>`.
pub fn parallel_range_header(job: &ParallelJob) -> (r: String)
    ensures
        r@ == "bytes="@ + decimal(job.resume_from as nat) + "-"@ + decimal(job.end as nat),
{
    let mut v: Vec<char> = Vec::new();
    push_str(&mut v, "bytes=");
    push_decimal(&mut v, job.resume_from as u128);
    push_str(&mut v, "-");
    push_decimal(&mut v, job.end as u128);
    string_of(&v)
}

/// A job's stream is read until the range holds all its bytes: `received` counts the bytes of
/// the range already on disk plus those received since.
pub fn chunk_finished(job: &ParallelJob, received: u64) -> (r: bool)
    ensures
        r == (received >= job.len),
{
    received >= job.len
}

/// Average speed over a whole download: bytes per second, counting at least one second.
pub fn average_speed(total: u64, elapsed_secs: u64) -> (r: u64)
    ensures
        r == total / (if elapsed_secs > 1 { elapsed_secs } else { 1 }),
{
    let secs = if elapsed_secs > 1 { elapsed_secs } else { 1 };
    total / secs
}

/// The file tracking the progress of range `index`: `<file_name>.part.<index>` in the target
/// directory.
pub fn indexed_part_path(target_dir: &str, file_name: &str, index: u64) -> (r: String)
    ensures
        r@ == joined(target_dir@, file_name@ + ".part."@ + decimal(index as nat)),
{
    let mut name = chars_of(file_name);
    push_str(&mut name, ".part.");
    push_decimal(&mut name, index as u128);
    let name = string_of(&name);
    join_path(target_dir, name.as_str())
}

} // verus!
