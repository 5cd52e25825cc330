//! Partitioning of a download into byte ranges and the bookkeeping that resumes it.

use vstd::prelude::*;
use crate::downloader::rate::sat_sub;
use crate::paths::{join_path, joined};
use crate::text::{chars_of, push_str, string_of};

verus! {

/// A slice of the file being downloaded by a single worker.
#[derive(Debug, Clone, PartialEq, Eq, Structural)]
pub struct ChunkRange {
    pub index: usize,
    pub start: u64,
    pub end: u64,
    pub downloaded: u64,
}

impl ChunkRange {
    /// Number of bytes in the range `start..=end` (one when `end < start`).
    pub open spec fn byte_len(&self) -> int {
        sat_sub(self.end as int, self.start as int) + 1
    }

    /// All assigned bytes have been downloaded.
    pub open spec fn complete(&self) -> bool {
        self.downloaded >= self.byte_len()
    }

    /// Absolute byte offset at which the download of this range resumes.
    pub open spec fn resume_at(&self) -> int {
        self.start + self.downloaded
    }

    /// The length fits in a `u64` (it does unless the range is the whole `u64` space).
    pub open spec fn len_fits(&self) -> bool {
        self.byte_len() <= u64::MAX
    }

    /// Total length of this chunk in bytes.
    pub fn len(&self) -> (r: u64)
        requires
            self.len_fits(),
        ensures
            r == self.byte_len(),
    {
        let d = if self.end >= self.start { self.end - self.start } else { 0 };
        d + 1
    }

    /// Whether this chunk has finished downloading all assigned bytes.
    pub fn is_complete(&self) -> (r: bool)
        requires
            self.len_fits(),
        ensures
            r == self.complete(),
    {
        self.downloaded >= self.len()
    }

    /// Absolute byte offset from which to resume download.
    pub fn resume_offset(&self) -> (r: u64)
        requires
            self.resume_at() <= u64::MAX,
        ensures
            r == self.resume_at(),
    {
        self.start + self.downloaded
    }
}

/// Download state persisted in `<file_name>.state.json`.
#[derive(Debug, Clone)]
pub struct DownloadState {
    pub total_size: u64,
    pub chunks: Vec<ChunkRange>,
}

/// Number of workers a state is planned for: `num_threads`, at least one.
pub open spec fn thread_count(num_threads: usize) -> int {
    if num_threads == 0 { 1 } else { num_threads as int }
}

/// `a.div_ceil(b)` for `b > 0`.
pub open spec fn ceil_div(a: int, b: int) -> int {
    a / b + if a % b == 0 { 0int } else { 1int }
}

/// Bytes per chunk: the total divided by the worker count, rounded up.
pub open spec fn chunk_size(total: u64, num_threads: usize) -> int {
    ceil_div(total as int, thread_count(num_threads))
}

/// Offset at which chunk `i` starts.
pub open spec fn chunk_start(i: int, cs: int) -> int {
    i * cs
}

/// Number of chunks: one per worker, but none that would start at or past the end.
pub open spec fn chunk_count(total: u64, num_threads: usize) -> int {
    let cs = chunk_size(total, num_threads);
    if cs == 0 {
        0
    } else {
        let c = ceil_div(total as int, cs);
        if (num_threads as int) < c { num_threads as int } else { c }
    }
}

/// Chunk `i` of the plan for `total` bytes and `num_threads` workers.
pub open spec fn planned_chunk(total: u64, num_threads: usize, i: int) -> ChunkRange {
    let cs = chunk_size(total, num_threads);
    let stop = if chunk_start(i + 1, cs) < total { chunk_start(i + 1, cs) } else { total as int };
    ChunkRange {
        index: i as usize,
        start: chunk_start(i, cs) as u64,
        end: (stop - 1) as u64,
        downloaded: 0,
    }
}

/// The chunks `DownloadState::new` lays out.
pub open spec fn planned_chunks(total: u64, num_threads: usize) -> Seq<ChunkRange> {
    Seq::new(chunk_count(total, num_threads) as nat, |i: int| planned_chunk(total, num_threads, i))
}

/// The arithmetic of `DownloadState::new` stays within `u64`.
pub open spec fn plan_fits(total: u64, num_threads: usize) -> bool {
    let cs = chunk_size(total, num_threads);
    forall|i: int|
        0 <= i < num_threads && #[trigger] chunk_start(i, cs) < total
            ==> chunk_start(i + 1, cs) <= u64::MAX
}

proof fn lemma_ceil_div(a: int, b: int)
    requires
        a >= 0,
        b > 0,
    ensures
        ceil_div(a, b) * b >= a,
        (ceil_div(a, b) - 1) * b < a || a == 0,
        ceil_div(a, b) >= 0,
        a == 0 ==> ceil_div(a, b) == 0,
        a > 0 ==> ceil_div(a, b) > 0,
{
    let q = a / b;
    let r = a % b;
    assert(a == q * b + r && 0 <= r < b) by (nonlinear_arith)
        requires
            b > 0,
            q == a / b,
            r == a % b,
    ;
    assert(q >= 0) by (nonlinear_arith)
        requires
            a >= 0,
            b > 0,
            q == a / b,
    ;
    if r == 0 {
        assert(ceil_div(a, b) == q);
        assert((q - 1) * b == q * b - b) by (nonlinear_arith);
        if a == 0 {
            assert(q == 0) by (nonlinear_arith)
                requires
                    a == q * b,
                    b > 0,
                    a == 0,
            ;
        } else {
            assert(q > 0) by (nonlinear_arith)
                requires
                    a == q * b,
                    b > 0,
                    a > 0,
                    q >= 0,
            ;
        }
    } else {
        assert(ceil_div(a, b) == q + 1);
        assert((q + 1) * b == q * b + b) by (nonlinear_arith);
    }
}

proof fn lemma_mul_le(a: int, b: int, c: int)
    requires
        a <= b,
        c >= 0,
    ensures
        a * c <= b * c,
{
    assert(a * c <= b * c) by (nonlinear_arith)
        requires
            a <= b,
            c >= 0,
    ;
}

proof fn lemma_mul_succ(i: int, c: int)
    ensures
        (i + 1) * c == i * c + c,
{
    assert((i + 1) * c == i * c + c) by (nonlinear_arith);
}

/// Facts about the chunk count: every counted chunk starts before the end, and the count
/// stops at the worker count or at the first start that is not before the end.
proof fn lemma_chunk_count(total: u64, num_threads: usize)
    ensures
        0 <= chunk_count(total, num_threads) <= num_threads,
        chunk_size(total, num_threads) >= 0,
        total > 0 ==> chunk_size(total, num_threads) > 0,
        total == 0 ==> chunk_count(total, num_threads) == 0,
        forall|i: int|
            0 <= i < chunk_count(total, num_threads) ==> chunk_start(
                i,
                chunk_size(total, num_threads),
            ) < total,
        chunk_count(total, num_threads) < num_threads ==> chunk_start(
            chunk_count(total, num_threads),
            chunk_size(total, num_threads),
        ) >= total,
        num_threads >= 1 ==> chunk_start(
            chunk_count(total, num_threads),
            chunk_size(total, num_threads),
        ) >= total,
{
    let t = thread_count(num_threads);
    let cs = chunk_size(total, num_threads);
    lemma_ceil_div(total as int, t);
    if cs > 0 {
        let c = ceil_div(total as int, cs);
        lemma_ceil_div(total as int, cs);
        let k = chunk_count(total, num_threads);
        assert forall|i: int| 0 <= i < k implies chunk_start(i, cs) < total by {
            lemma_mul_le(i, c - 1, cs);
        }
        if num_threads >= 1 && k == num_threads as int {
            assert(t == num_threads as int);
            assert(chunk_start(k, cs) == t * cs);
            assert(t * cs == cs * t) by (nonlinear_arith);
        }
    }
}

impl DownloadState {
    /// The chunks are well formed: each has its own position as index.
    pub open spec fn indexed(&self) -> bool {
        forall|i: int| 0 <= i < self.chunks@.len() ==> (#[trigger] self.chunks@[i]).index == i
    }

    /// Creates a new state with partitioned chunks.
    pub fn new(total_size: u64, num_threads: usize) -> (r: Self)
        requires
            plan_fits(total_size, num_threads),
        ensures
            r.total_size == total_size,
            r.chunks@ == planned_chunks(total_size, num_threads),
    {
        let threads: u64 = if num_threads == 0 { 1 } else { num_threads as u64 };
        let q = total_size / threads;
        let rem = total_size % threads;
        proof {
            if threads == 1 {
                assert(rem == 0);
            } else {
                assert(q < u64::MAX) by (nonlinear_arith)
                    requires
                        threads >= 2,
                        q == total_size / threads,
                        total_size <= u64::MAX,
                ;
            }
        }
        let size: u64 = q + if rem == 0 { 0 } else { 1 };
        let ghost cs = chunk_size(total_size, num_threads);
        assert(size == cs);
        proof {
            lemma_chunk_count(total_size, num_threads);
        }
        let ghost k = chunk_count(total_size, num_threads);
        let mut chunks: Vec<ChunkRange> = Vec::new();
        let mut i: usize = 0;
        while i < num_threads
            invariant
                i <= num_threads,
                i <= k,
                cs == size as int,
                cs == chunk_size(total_size, num_threads),
                k == chunk_count(total_size, num_threads),
                plan_fits(total_size, num_threads),
                0 <= k <= num_threads,
                forall|j: int| 0 <= j < k ==> chunk_start(j, cs) < total_size,
                k < num_threads ==> chunk_start(k, cs) >= total_size,
                chunks@ == planned_chunks(total_size, num_threads).take(i as int),
            ensures
                chunks@ == planned_chunks(total_size, num_threads),
            decreases num_threads - i,
        {
            let ghost gi = i as int;
            proof {
                if gi > 0 {
                    assert(chunk_start(gi - 1, cs) < total_size);
                    lemma_mul_succ(gi - 1, cs);
                    assert(chunk_start(gi, cs) <= u64::MAX);
                } else {
                    assert(chunk_start(0, cs) == 0) by (nonlinear_arith);
                }
            }
            let i64v = i as u64;
            let start = i64v * size;
            assert(start == chunk_start(gi, cs));
            if start >= total_size {
                assert(gi == k) by {
                    if gi < k {
                        assert(chunk_start(gi, cs) < total_size);
                    }
                }
                assert(chunks@ =~= planned_chunks(total_size, num_threads));
                break;
            }
            assert(gi < k) by {
                if gi >= k {
                    assert(gi == k);
                }
            }
            proof {
                lemma_mul_succ(gi, cs);
            }
            let next = start + size;
            assert(next == chunk_start(gi + 1, cs));
            let stop = if next < total_size { next } else { total_size };
            proof {
                if cs > 0 {
                    lemma_mul_le(0, gi, cs);
                }
            }
            let end = stop - 1;
            chunks.push(ChunkRange { index: i, start, end, downloaded: 0 });
            i = i + 1;
            assert(chunks@ =~= planned_chunks(total_size, num_threads).take(i as int));
        }
        DownloadState { total_size, chunks }
    }
}

/// Sum of the downloaded byte counts of the chunks.
pub open spec fn downloaded_sum(cs: Seq<ChunkRange>) -> int
    decreases cs.len(),
{
    if cs.len() == 0 {
        0
    } else {
        downloaded_sum(cs.drop_last()) + cs.last().downloaded
    }
}

/// Sum of the byte lengths of the chunks.
pub open spec fn length_sum(cs: Seq<ChunkRange>) -> int
    decreases cs.len(),
{
    if cs.len() == 0 {
        0
    } else {
        length_sum(cs.drop_last()) + cs.last().byte_len()
    }
}

proof fn lemma_downloaded_sum_prefix(cs: Seq<ChunkRange>, m: int)
    requires
        0 <= m <= cs.len(),
    ensures
        downloaded_sum(cs.take(m)) <= downloaded_sum(cs),
        downloaded_sum(cs.take(m)) >= 0,
    decreases cs.len(),
{
    if m < cs.len() {
        assert(cs.drop_last().take(m) =~= cs.take(m));
        lemma_downloaded_sum_prefix(cs.drop_last(), m);
    } else {
        assert(cs.take(m) =~= cs);
        lemma_downloaded_sum_nonneg(cs);
    }
}

proof fn lemma_downloaded_sum_nonneg(cs: Seq<ChunkRange>)
    ensures
        downloaded_sum(cs) >= 0,
    decreases cs.len(),
{
    if cs.len() > 0 {
        lemma_downloaded_sum_nonneg(cs.drop_last());
    }
}

/// The chunk `c` with its downloaded byte count set to `d`.
pub open spec fn with_downloaded(c: ChunkRange, d: u64) -> ChunkRange {
    ChunkRange { downloaded: d, ..c }
}

/// `min(downloaded + bytes, len)`: the progress a chunk records for `bytes` more bytes.
pub open spec fn capped_progress(c: ChunkRange, bytes: u64) -> int {
    if c.downloaded + bytes < c.byte_len() { c.downloaded + bytes } else { c.byte_len() }
}

/// The state a resumed download continues from: a saved state for the same total size is kept,
/// with its progress cleared when the `.part` file is gone; anything else starts a new plan.
pub open spec fn resumed_state_ok(
    loaded: Option<DownloadState>,
    total_size: u64,
    part_exists: bool,
    num_threads: usize,
    r: DownloadState,
    fresh: bool,
) -> bool {
    match loaded {
        Some(s) if s.total_size == total_size => {
            &&& !fresh
            &&& r.total_size == total_size
            &&& if part_exists {
                r.chunks@ == s.chunks@
            } else {
                r.chunks@ == s.chunks@.map_values(|c: ChunkRange| with_downloaded(c, 0))
            }
        },
        _ => {
            &&& fresh
            &&& r.total_size == total_size
            &&& r.chunks@ == planned_chunks(total_size, num_threads)
        },
    }
}

impl DownloadState {
    /// Returns path to download state JSON file.
    pub fn state_path(target_dir: &str, file_name: &str) -> (r: String)
        ensures
            r@ == joined(target_dir@, file_name@ + ".state.json"@),
    {
        let mut name = chars_of(file_name);
        push_str(&mut name, ".state.json");
        let name = string_of(&name);
        join_path(target_dir, name.as_str())
    }

    /// Returns path to pre-allocated .part file.
    pub fn part_path(target_dir: &str, file_name: &str) -> (r: String)
        ensures
            r@ == joined(target_dir@, file_name@ + ".part"@),
    {
        let mut name = chars_of(file_name);
        push_str(&mut name, ".part");
        let name = string_of(&name);
        join_path(target_dir, name.as_str())
    }

    /// Sum of all downloaded bytes across chunks.
    pub fn total_downloaded(&self) -> (r: u64)
        requires
            downloaded_sum(self.chunks@) <= u64::MAX,
        ensures
            r == downloaded_sum(self.chunks@),
    {
        let mut acc: u64 = 0;
        let mut i: usize = 0;
        while i < self.chunks.len()
            invariant
                i <= self.chunks@.len(),
                downloaded_sum(self.chunks@) <= u64::MAX,
                acc == downloaded_sum(self.chunks@.take(i as int)),
            decreases self.chunks@.len() - i,
        {
            let ghost cur = self.chunks@.take(i + 1);
            assert(cur.drop_last() =~= self.chunks@.take(i as int));
            proof {
                lemma_downloaded_sum_prefix(self.chunks@, i + 1);
            }
            acc = acc + self.chunks[i].downloaded;
            i = i + 1;
        }
        assert(self.chunks@.take(self.chunks@.len() as int) =~= self.chunks@);
        acc
    }

    /// Records `bytes` more downloaded bytes for one chunk, never past its length.
    pub fn record_progress(&mut self, chunk_index: usize, bytes: u64)
        requires
            chunk_index < old(self).chunks@.len(),
            old(self).chunks@[chunk_index as int].len_fits(),
            old(self).chunks@[chunk_index as int].downloaded + bytes <= u64::MAX,
        ensures
            final(self).total_size == old(self).total_size,
            final(self).chunks@ == old(self).chunks@.update(
                chunk_index as int,
                with_downloaded(
                    old(self).chunks@[chunk_index as int],
                    capped_progress(old(self).chunks@[chunk_index as int], bytes) as u64,
                ),
            ),
    {
        let c = &self.chunks[chunk_index];
        let index = c.index;
        let start = c.start;
        let end = c.end;
        let current = c.downloaded + bytes;
        let len = c.len();
        let d = if current < len { current } else { len };
        self.chunks.set(chunk_index, ChunkRange { index, start, end, downloaded: d });
    }

    /// Clears the downloaded byte count of every chunk.
    pub fn reset_progress(&mut self)
        ensures
            final(self).total_size == old(self).total_size,
            final(self).chunks@ == old(self).chunks@.map_values(
                |c: ChunkRange| with_downloaded(c, 0),
            ),
    {
        let mut i: usize = 0;
        let ghost orig = self.chunks@;
        while i < self.chunks.len()
            invariant
                i <= self.chunks@.len(),
                self.chunks@.len() == orig.len(),
                self.total_size == old(self).total_size,
                orig == old(self).chunks@,
                forall|j: int| 0 <= j < i ==> self.chunks@[j] == with_downloaded(orig[j], 0),
                forall|j: int| i <= j < orig.len() ==> self.chunks@[j] == orig[j],
            decreases self.chunks@.len() - i,
        {
            let c = &self.chunks[i];
            let index = c.index;
            let start = c.start;
            let end = c.end;
            self.chunks.set(i, ChunkRange { index, start, end, downloaded: 0 });
            i = i + 1;
        }
        assert(self.chunks@ =~= orig.map_values(|c: ChunkRange| with_downloaded(c, 0)));
    }

    /// Continues from a saved state when it is for the same total size (clearing its progress
    /// when the `.part` file is gone), else plans anew. The flag tells whether the state is
    /// new, and so is to be saved.
    pub fn resume_or_new(
        loaded: Option<DownloadState>,
        total_size: u64,
        part_exists: bool,
        num_threads: usize,
    ) -> (r: (DownloadState, bool))
        requires
            (loaded matches Some(s) && s.total_size == total_size) || plan_fits(
                total_size,
                num_threads,
            ),
        ensures
            resumed_state_ok(loaded, total_size, part_exists, num_threads, r.0, r.1),
    {
        match loaded {
            Some(mut s) => {
                if s.total_size == total_size {
                    if !part_exists {
                        s.reset_progress();
                    }
                    return (s, false);
                }
                (DownloadState::new(total_size, num_threads), true)
            },
            None => (DownloadState::new(total_size, num_threads), true),
        }
    }
}

/// A fresh plan partitions the file: with at least one worker, the chunks are numbered in
/// order, start at byte 0, each begins right after the previous one ends, the last ends at the
/// final byte, none is empty, none has progress, and their lengths add up to the file size.
pub proof fn law_plan_partitions(total: u64, num_threads: usize)
    requires
        num_threads >= 1,
    ensures
        ({
            let c = planned_chunks(total, num_threads);
            &&& (total > 0 <==> c.len() > 0)
            &&& c.len() <= num_threads
            &&& c.len() > 0 ==> c[0].start == 0 && c.last().end == total - 1
            &&& forall|i: int| 0 <= i < c.len() - 1 ==> #[trigger] c[i + 1].start == c[i].end + 1
            &&& forall|i: int|
                0 <= i < c.len() ==> (#[trigger] c[i]).start <= c[i].end && c[i].index == i
                    && c[i].downloaded == 0
            &&& length_sum(c) == total
            &&& downloaded_sum(c) == 0
        }),
{
    let c = planned_chunks(total, num_threads);
    let cs = chunk_size(total, num_threads);
    let k = chunk_count(total, num_threads);
    lemma_chunk_count(total, num_threads);
    if total > 0 {
        lemma_ceil_div(total as int, cs);
        assert(k > 0) by {
            let t = thread_count(num_threads);
            lemma_ceil_div(total as int, t);
        }
    }
    assert forall|i: int| 0 <= i < c.len() implies (#[trigger] c[i]).start <= c[i].end
        && c[i].index == i && c[i].downloaded == 0 by {
        lemma_mul_succ(i, cs);
        assert(chunk_start(i, cs) < total);
        lemma_mul_le(0, i, cs);
        assert(0 * cs == 0);
    }
    assert forall|i: int| 0 <= i < c.len() - 1 implies #[trigger] c[i + 1].start == c[i].end
        + 1 by {
        lemma_mul_succ(i, cs);
        assert(chunk_start(i + 1, cs) < total);
    }
    if c.len() > 0 {
        assert(chunk_start(0, cs) == 0) by (nonlinear_arith);
        assert(chunk_start(k, cs) >= total);
    }
    lemma_partition_sums(c, total);
}

proof fn lemma_prefix_sums(c: Seq<ChunkRange>, j: int)
    requires
        0 <= j <= c.len(),
        c.len() > 0 ==> c[0].start == 0,
        forall|i: int| 0 <= i < c.len() - 1 ==> #[trigger] c[i + 1].start == c[i].end + 1,
        forall|i: int|
            0 <= i < c.len() ==> (#[trigger] c[i]).start <= c[i].end && c[i].downloaded == 0,
    ensures
        j == 0 ==> length_sum(c.take(j)) == 0,
        j > 0 ==> length_sum(c.take(j)) == c[j - 1].end + 1,
        downloaded_sum(c.take(j)) == 0,
    decreases j,
{
    if j > 0 {
        lemma_prefix_sums(c, j - 1);
        assert(c.take(j).drop_last() =~= c.take(j - 1));
        assert(c.take(j).last() == c[j - 1]);
        if j > 1 {
            let i = j - 2;
            assert(c[i + 1].start == c[i].end + 1);
            assert(i + 1 == j - 1);
        }
    }
}

proof fn lemma_partition_sums(c: Seq<ChunkRange>, total: u64)
    requires
        c.len() > 0 ==> c[0].start == 0 && c.last().end == total - 1,
        c.len() == 0 ==> total == 0,
        forall|i: int| 0 <= i < c.len() - 1 ==> #[trigger] c[i + 1].start == c[i].end + 1,
        forall|i: int|
            0 <= i < c.len() ==> (#[trigger] c[i]).start <= c[i].end && c[i].downloaded == 0,
    ensures
        length_sum(c) == total,
        downloaded_sum(c) == 0,
{
    lemma_prefix_sums(c, c.len() as int);
    assert(c.take(c.len() as int) =~= c);
}

proof fn lemma_downloaded_sum_update(cs: Seq<ChunkRange>, i: int, c: ChunkRange)
    requires
        0 <= i < cs.len(),
    ensures
        downloaded_sum(cs.update(i, c)) == downloaded_sum(cs) - cs[i].downloaded + c.downloaded,
    decreases cs.len(),
{
    let u = cs.update(i, c);
    if i == cs.len() - 1 {
        assert(u.drop_last() =~= cs.drop_last());
    } else {
        lemma_downloaded_sum_update(cs.drop_last(), i, c);
        assert(u.drop_last() =~= cs.drop_last().update(i, c));
    }
}

proof fn lemma_downloaded_sum_cleared(cs: Seq<ChunkRange>)
    ensures
        downloaded_sum(cs.map_values(|c: ChunkRange| with_downloaded(c, 0))) == 0,
    decreases cs.len(),
{
    if cs.len() > 0 {
        lemma_downloaded_sum_cleared(cs.drop_last());
        let m = cs.map_values(|c: ChunkRange| with_downloaded(c, 0));
        assert(m.drop_last() =~= cs.drop_last().map_values(|c: ChunkRange| with_downloaded(c, 0)));
    }
}

/// Recording progress for a chunk within its length: the chunk gains at most `bytes`, never
/// passes its length, is complete once every byte has been counted, keeps its range and resumes
/// after its counted bytes, the other chunks are untouched, and the state's total grows by
/// exactly what the chunk gained.
pub proof fn law_record_progress(s: DownloadState, i: int, bytes: u64)
    requires
        0 <= i < s.chunks@.len(),
        s.chunks@[i].len_fits(),
        s.chunks@[i].downloaded <= s.chunks@[i].byte_len(),
    ensures
        ({
            let c = s.chunks@[i];
            let p = capped_progress(c, bytes);
            let n = with_downloaded(c, p as u64);
            &&& c.downloaded <= p <= c.byte_len()
            &&& p <= c.downloaded + bytes
            &&& (c.downloaded + bytes >= c.byte_len() ==> n.complete())
            &&& n.start == c.start && n.end == c.end && n.index == c.index
            &&& n.resume_at() == c.start + p
            &&& forall|k: int| 0 <= k < s.chunks@.len() && k != i ==> #[trigger] s.chunks@.update(i, n)[k]
                == s.chunks@[k]
            &&& downloaded_sum(s.chunks@.update(i, n)) == downloaded_sum(s.chunks@) + (p - c.downloaded)
        }),
{
    let c = s.chunks@[i];
    let p = capped_progress(c, bytes);
    lemma_downloaded_sum_update(s.chunks@, i, with_downloaded(c, p as u64));
}

/// The chunks after each byte count of `flushes` is recorded, in order, for chunk `i`.
pub open spec fn after_flushes(cs: Seq<ChunkRange>, i: int, flushes: Seq<u64>) -> Seq<ChunkRange>
    decreases flushes.len(),
{
    if flushes.len() == 0 {
        cs
    } else {
        let before = after_flushes(cs, i, flushes.drop_last());
        before.update(i, with_downloaded(before[i], capped_progress(before[i], flushes.last()) as u64))
    }
}

/// The total of a sequence of byte counts.
pub open spec fn flush_sum(flushes: Seq<u64>) -> int
    decreases flushes.len(),
{
    if flushes.len() == 0 { 0 } else { flush_sum(flushes.drop_last()) + flushes.last() }
}

/// Recording a whole run of flushes for one chunk, as a chunk worker does while it streams:
/// the chunk's count never falls and never passes its length, ends at the bytes received capped
/// at that length, the chunk keeps its range, every other chunk is untouched, and the state's
/// total grows by exactly what the chunk gained.
pub proof fn law_progress_over_flushes(s: DownloadState, i: int, flushes: Seq<u64>)
    requires
        0 <= i < s.chunks@.len(),
        s.chunks@[i].len_fits(),
        s.chunks@[i].downloaded <= s.chunks@[i].byte_len(),
    ensures
        ({
            let c = s.chunks@[i];
            let r = after_flushes(s.chunks@, i, flushes);
            let total = c.downloaded + flush_sum(flushes);
            &&& r.len() == s.chunks@.len()
            &&& r[i].start == c.start && r[i].end == c.end && r[i].index == c.index
            &&& c.downloaded <= r[i].downloaded <= c.byte_len()
            &&& r[i].downloaded == (if total < c.byte_len() { total } else { c.byte_len() })
            &&& forall|k: int| 0 <= k < r.len() && k != i ==> #[trigger] r[k] == s.chunks@[k]
            &&& downloaded_sum(r) == downloaded_sum(s.chunks@) + (r[i].downloaded - c.downloaded)
        }),
    decreases flushes.len(),
{
    if flushes.len() > 0 {
        let p = flushes.drop_last();
        law_progress_over_flushes(s, i, p);
        let before = after_flushes(s.chunks@, i, p);
        let b = before[i];
        assert(flush_sum(p) >= 0) by {
            lemma_flush_sum_nonneg(p);
        }
        let n = with_downloaded(b, capped_progress(b, flushes.last()) as u64);
        lemma_downloaded_sum_update(before, i, n);
    }
}

proof fn lemma_flush_sum_nonneg(flushes: Seq<u64>)
    ensures
        flush_sum(flushes) >= 0,
    decreases flushes.len(),
{
    if flushes.len() > 0 {
        lemma_flush_sum_nonneg(flushes.drop_last());
    }
}

/// Clearing progress leaves every chunk's range as it was and nothing counted as downloaded.
pub proof fn law_reset_clears_progress(s: DownloadState)
    ensures
        ({
            let r = s.chunks@.map_values(|c: ChunkRange| with_downloaded(c, 0));
            &&& downloaded_sum(r) == 0
            &&& r.len() == s.chunks@.len()
            &&& forall|k: int| 0 <= k < r.len() ==> (#[trigger] r[k]).start == s.chunks@[k].start
                && r[k].end == s.chunks@[k].end && r[k].index == s.chunks@[k].index
        }),
{
    lemma_downloaded_sum_cleared(s.chunks@);
}

/// Whether `DownloadState::new` can plan `total` bytes for `num_threads` workers without
/// overflowing (see `plan_fits`).
pub fn plan_fits_check(total: u64, num_threads: usize) -> (r: bool)
    ensures
        r == plan_fits(total, num_threads),
{
    let threads: u64 = if num_threads == 0 { 1 } else { num_threads as u64 };
    let q = total / threads;
    let rem = total % threads;
    proof {
        if threads == 1 {
            assert(rem == 0);
        } else {
            assert(q < u64::MAX) by (nonlinear_arith)
                requires
                    threads >= 2,
                    q == total / threads,
                    total <= u64::MAX,
            ;
        }
    }
    let cs: u64 = q + if rem == 0 { 0 } else { 1 };
    assert(cs == chunk_size(total, num_threads));
    if cs == 0 {
        assert forall|j: int| 0 <= j < num_threads && #[trigger] chunk_start(j, cs as int) < total implies chunk_start(
            j + 1,
            cs as int,
        ) <= u64::MAX by {
            assert(chunk_start(j, 0) == 0) by (nonlinear_arith);
        }
        return true;
    }
    assert(total > 0) by {
        if total == 0 {
            assert(q == 0 && rem == 0) by (nonlinear_arith)
                requires
                    total == 0,
                    threads >= 1,
                    q == total / threads,
                    rem == total % threads,
            ;
        }
    }
    let mut i: u64 = 0;
    assert(chunk_start(0, cs as int) == 0) by (nonlinear_arith);
    while i < num_threads as u64
        invariant
            cs > 0,
            cs == chunk_size(total, num_threads),
            i <= num_threads,
            chunk_start(i as int, cs as int) < total,
            forall|j: int| 0 <= j < i && #[trigger] chunk_start(j, cs as int) < total ==> chunk_start(
                j + 1,
                cs as int,
            ) <= u64::MAX,
        decreases num_threads - i,
    {
        let start = i * cs;
        assert(start == chunk_start(i as int, cs as int));
        proof {
            lemma_mul_succ(i as int, cs as int);
        }
        if start > u64::MAX - cs {
            assert(chunk_start(i + 1, cs as int) > u64::MAX);
            return false;
        }
        let next = start + cs;
        assert(next == chunk_start(i + 1, cs as int));
        if next >= total {
            assert forall|j: int| 0 <= j < num_threads && #[trigger] chunk_start(j, cs as int) < total implies chunk_start(
                j + 1,
                cs as int,
            ) <= u64::MAX by {
                if j > i {
                    lemma_mul_le(i + 1, j, cs as int);
                    assert(chunk_start(j, cs as int) >= next);
                }
            }
            return true;
        }
        i = i + 1;
    }
    true
}

/// The sum of the chunks' downloaded counts, when it fits in a `u64`.
pub fn checked_total_downloaded(s: &DownloadState) -> (r: Option<u64>)
    ensures
        match r {
            Some(t) => t == downloaded_sum(s.chunks@),
            None => downloaded_sum(s.chunks@) > u64::MAX,
        },
{
    let mut acc: u64 = 0;
    let mut i: usize = 0;
    while i < s.chunks.len()
        invariant
            i <= s.chunks@.len(),
            acc == downloaded_sum(s.chunks@.take(i as int)),
        decreases s.chunks@.len() - i,
    {
        let ghost cur = s.chunks@.take(i + 1);
        assert(cur.drop_last() =~= s.chunks@.take(i as int));
        assert(cur.last() == s.chunks@[i as int]);
        let d = s.chunks[i].downloaded;
        if acc > u64::MAX - d {
            proof {
                lemma_downloaded_sum_prefix(s.chunks@, i + 1);
            }
            return None;
        }
        acc = acc + d;
        i = i + 1;
    }
    assert(s.chunks@.take(i as int) =~= s.chunks@);
    Some(acc)
}

} // verus!
