//! The batch-upload engine's verified core: building upload tasks from an
//! enumerated file list, partitioning them across workers, and aggregating
//! per-worker success/failure counts.
//!
//! The surrounding driver performs the uploads and hands each file's outcome
//! back as a plain `bool`; everything it decides with — destination keys,
//! chunk boundaries, counters — is computed and specified here.

use vstd::prelude::*;

use crate::text::replace_first;

verus! {

/// One file's upload job. Immutable once constructed.
pub struct UploadTask {
    pub source_path: String,
    pub destination_key: String,
    pub content_type: Option<String>,
}

impl Clone for UploadTask {
    fn clone(&self) -> (r: Self)
        ensures
            r == *self,
    {
        UploadTask {
            source_path: self.source_path.clone(),
            destination_key: self.destination_key.clone(),
            content_type: match &self.content_type {
                Some(c) => Some(c.clone()),
                None => None,
            },
        }
    }
}

/// Destination key of one file: its path with the first occurrence of the
/// source root replaced by the destination root.
pub fn destination_key(path: &str, source_root: &str, dest_root: &str) -> (r: String)
    ensures
        r@ == replace_first(path@, source_root@, dest_root@),
{
    crate::text::str_replace_first(path, source_root, dest_root)
}

/// Builds one upload task per enumerated file, rewriting each path from the
/// source root to the destination root; no explicit content type.
pub fn plan_tasks(files: &Vec<String>, source_root: &str, dest_root: &str) -> (r: Vec<UploadTask>)
    ensures
        r@.len() == files@.len(),
        forall|i: int| 0 <= i < files@.len() ==> {
            &&& (#[trigger] r@[i]).source_path@ == files@[i]@
            &&& r@[i].destination_key@ == replace_first(files@[i]@, source_root@, dest_root@)
            &&& r@[i].content_type is None
        },
{
    let mut out: Vec<UploadTask> = Vec::new();
    let n = files.len();
    let mut idx: usize = 0;
    while idx < n
        invariant
            idx <= n,
            n == files@.len(),
            out@.len() == idx,
            forall|i: int| 0 <= i < idx ==> {
                &&& (#[trigger] out@[i]).source_path@ == files@[i]@
                &&& out@[i].destination_key@ == replace_first(files@[i]@, source_root@, dest_root@)
                &&& out@[i].content_type is None
            },
        decreases n - idx,
    {
        out.push(
            UploadTask {
                source_path: files[idx].clone(),
                destination_key: destination_key(files[idx].as_str(), source_root, dest_root),
                content_type: None,
            },
        );
        idx = idx + 1;
    }
    out
}

/// Size of every chunk but possibly the last: `len` divided by `workers`,
/// rounded up.
pub open spec fn chunk_len(n: int, w: int) -> int {
    (n + w - 1) / w
}

/// Start of worker `i`'s chunk: `i` full chunks in, capped at `n`.
pub open spec fn chunk_start(n: int, w: int, i: int) -> int {
    if i * chunk_len(n, w) > n {
        n
    } else {
        i * chunk_len(n, w)
    }
}

/// The chunks' contents: each exec chunk as its sequence view.
pub open spec fn views_of(chunks: Seq<Vec<UploadTask>>) -> Seq<Seq<UploadTask>> {
    chunks.map_values(|ch: Vec<UploadTask>| ch@)
}

/// Splits `tasks` into `workers` contiguous chunks of `chunk_len` tasks
/// each, the last possibly shorter or empty. No task is dropped or
/// duplicated: the chunks concatenate back to exactly the input list.
pub fn partition(tasks: &Vec<UploadTask>, workers: usize) -> (r: Vec<Vec<UploadTask>>)
    requires
        1 <= workers,
    ensures
        r@.len() == workers,
        forall|i: int| 0 <= i < workers ==> (#[trigger] r@[i])@ == tasks@.subrange(
            chunk_start(tasks@.len() as int, workers as int, i),
            chunk_start(tasks@.len() as int, workers as int, i + 1),
        ),
        views_of(r@).flatten() == tasks@,
        views_of(r@).flatten().to_multiset() == tasks@.to_multiset(),
{
    let n = tasks.len();
    let c = if n == 0 {
        0
    } else {
        (n - 1) / workers + 1
    };
    proof {
        if n > 0 {
            assert(c as int == (n as int + workers as int - 1) / workers as int)
                by (nonlinear_arith)
                requires
                    1 <= workers,
                    1 <= n,
                    c as int == (n as int - 1) / workers as int + 1,
            ;
        } else {
            assert((workers as int - 1) / workers as int == 0) by (nonlinear_arith)
                requires
                    1 <= workers,
            ;
        }
        assert(c == chunk_len(n as int, workers as int));
    }
    let mut out: Vec<Vec<UploadTask>> = Vec::new();
    let mut start: usize = 0;
    let mut i: usize = 0;
    while i < workers
        invariant
            i <= workers,
            n == tasks@.len(),
            c == chunk_len(n as int, workers as int),
            start == chunk_start(n as int, workers as int, i as int),
            start <= n,
            out@.len() == i,
            forall|k: int| 0 <= k < i ==> (#[trigger] out@[k])@ == tasks@.subrange(
                chunk_start(n as int, workers as int, k),
                chunk_start(n as int, workers as int, k + 1),
            ),
            views_of(out@).flatten() == tasks@.subrange(0, start as int),
        decreases workers - i,
    {
        let end = if n - start < c {
            n
        } else {
            start + c
        };
        proof {
            assert((i as int + 1) * (c as int) == i as int * (c as int) + c as int)
                by (nonlinear_arith);
            assert(end == chunk_start(n as int, workers as int, i as int + 1));
        }
        let mut chunk: Vec<UploadTask> = Vec::new();
        let mut j = start;
        while j < end
            invariant
                start <= j <= end <= n,
                n == tasks@.len(),
                chunk@.len() == j - start,
                forall|k: int| 0 <= k < j - start ==> #[trigger] chunk@[k] == tasks@[start + k],
            decreases end - j,
        {
            chunk.push(tasks[j].clone());
            j = j + 1;
        }
        proof {
            assert(chunk@ =~= tasks@.subrange(start as int, end as int));
            assert(views_of(out@.push(chunk)) =~= views_of(out@).push(chunk@));
            views_of(out@).lemma_flatten_push(chunk@);
            assert(views_of(out@).flatten() + chunk@ =~= tasks@.subrange(0, end as int));
        }
        out.push(chunk);
        start = end;
        i = i + 1;
    }
    proof {
        assert(workers as int * (c as int) >= n as int) by (nonlinear_arith)
            requires
                1 <= workers,
                0 <= n,
                c as int == (n as int + workers as int - 1) / workers as int,
        ;
        assert(start == n);
        assert(views_of(out@).flatten() =~= tasks@);
    }
    out
}

/// Per-worker success/failure accumulator; merged after all workers join.
pub struct WorkerTally {
    pub succeeded: i64,
    pub failed: i64,
}

/// Aggregate result of a batch: `total` counts every processed file.
pub struct BatchResult {
    pub succeeded: i64,
    pub failed: i64,
    pub total: i64,
}

impl WorkerTally {
    /// Non-negative counts whose sum fits the counter type.
    pub open spec fn wf(self) -> bool {
        0 <= self.succeeded && 0 <= self.failed && self.succeeded + self.failed <= i64::MAX
    }

    /// How many files this worker has finished, either way.
    pub open spec fn processed(self) -> int {
        self.succeeded + self.failed
    }

    pub fn new() -> (t: Self)
        ensures
            t.succeeded == 0,
            t.failed == 0,
            t.wf(),
    {
        WorkerTally { succeeded: 0, failed: 0 }
    }

    /// Records one finished file; `ok` is a success, anything else a failure.
    pub fn record(&mut self, ok: bool)
        requires
            old(self).wf(),
            old(self).processed() < i64::MAX,
        ensures
            final(self).wf(),
            final(self).succeeded == old(self).succeeded + (if ok {
                1int
            } else {
                0int
            }),
            final(self).failed == old(self).failed + (if ok {
                0int
            } else {
                1int
            }),
    {
        if ok {
            self.succeeded = self.succeeded + 1;
        } else {
            self.failed = self.failed + 1;
        }
    }
}

impl BatchResult {
    /// The aggregate invariant: the total is exactly the two counts' sum.
    pub open spec fn wf(self) -> bool {
        0 <= self.succeeded && 0 <= self.failed && self.total == self.succeeded + self.failed
    }
}

/// Number of `true` entries in an outcome list.
pub open spec fn count_true(s: Seq<bool>) -> int
    decreases s.len(),
{
    if s.len() == 0 {
        0
    } else {
        count_true(s.drop_last()) + (if s.last() {
            1int
        } else {
            0int
        })
    }
}

/// `count_true` stays within `[0, len]`.
pub proof fn lemma_count_true_bounds(s: Seq<bool>)
    ensures
        0 <= count_true(s) <= s.len(),
    decreases s.len(),
{
    if s.len() > 0 {
        lemma_count_true_bounds(s.drop_last());
    }
}

/// `count_true` distributes over concatenation.
pub proof fn lemma_count_true_concat(a: Seq<bool>, b: Seq<bool>)
    ensures
        count_true(a + b) == count_true(a) + count_true(b),
    decreases b.len(),
{
    if b.len() == 0 {
        assert(a + b =~= a);
    } else {
        lemma_count_true_concat(a, b.drop_last());
        assert((a + b).drop_last() =~= a + b.drop_last());
    }
}

/// Tallies one worker's per-file outcomes: `true` succeeded, `false` failed.
pub fn tally_outcomes(outcomes: &Vec<bool>) -> (t: WorkerTally)
    requires
        outcomes@.len() <= i64::MAX,
    ensures
        t.wf(),
        t.succeeded == count_true(outcomes@),
        t.failed == outcomes@.len() - count_true(outcomes@),
{
    let mut t = WorkerTally::new();
    let n = outcomes.len();
    let mut i: usize = 0;
    while i < n
        invariant
            i <= n,
            n == outcomes@.len(),
            n <= i64::MAX,
            t.wf(),
            t.succeeded == count_true(outcomes@.subrange(0, i as int)),
            t.failed == i - count_true(outcomes@.subrange(0, i as int)),
        decreases n - i,
    {
        proof {
            lemma_count_true_bounds(outcomes@.subrange(0, i as int));
        }
        t.record(outcomes[i]);
        proof {
            assert(outcomes@.subrange(0, i + 1).drop_last() =~= outcomes@.subrange(0, i as int));
            assert(outcomes@.subrange(0, i + 1).last() == outcomes@[i as int]);
        }
        i = i + 1;
    }
    proof {
        assert(outcomes@.subrange(0, n as int) =~= outcomes@);
    }
    t
}

/// Sum of the workers' success counts.
pub open spec fn sum_succeeded(ts: Seq<WorkerTally>) -> int
    decreases ts.len(),
{
    if ts.len() == 0 {
        0
    } else {
        sum_succeeded(ts.drop_last()) + ts.last().succeeded
    }
}

/// Sum of the workers' failure counts.
pub open spec fn sum_failed(ts: Seq<WorkerTally>) -> int
    decreases ts.len(),
{
    if ts.len() == 0 {
        0
    } else {
        sum_failed(ts.drop_last()) + ts.last().failed
    }
}

/// Sum of the files the workers processed.
pub open spec fn sum_processed(ts: Seq<WorkerTally>) -> int {
    sum_succeeded(ts) + sum_failed(ts)
}

/// Partial sums of well-formed tallies are bounded by the full sum.
proof fn lemma_sums_monotonic(ts: Seq<WorkerTally>, i: int)
    requires
        0 <= i <= ts.len(),
        forall|k: int| 0 <= k < ts.len() ==> (#[trigger] ts[k]).wf(),
    ensures
        0 <= sum_succeeded(ts.subrange(0, i)),
        0 <= sum_failed(ts.subrange(0, i)),
        sum_processed(ts.subrange(0, i)) <= sum_processed(ts.subrange(0, ts.len() as int)),
    decreases ts.len() - i,
{
    assert forall|k: int| 0 <= k < ts.subrange(0, i).len() implies (#[trigger] ts.subrange(
        0,
        i,
    )[k]).wf() by {
        assert(ts.subrange(0, i)[k] == ts[k]);
    }
    lemma_sums_nonneg(ts.subrange(0, i));
    if i < ts.len() {
        lemma_sums_monotonic(ts, i + 1);
        assert(ts.subrange(0, i + 1).drop_last() =~= ts.subrange(0, i));
        assert(ts.subrange(0, i + 1).last() == ts[i]);
    }
}

/// Sums of well-formed tallies are non-negative.
proof fn lemma_sums_nonneg(ts: Seq<WorkerTally>)
    requires
        forall|k: int| 0 <= k < ts.len() ==> (#[trigger] ts[k]).wf(),
    ensures
        0 <= sum_succeeded(ts),
        0 <= sum_failed(ts),
    decreases ts.len(),
{
    if ts.len() > 0 {
        assert(forall|k: int|
            0 <= k < ts.drop_last().len() ==> (#[trigger] ts.drop_last()[k]).wf());
        lemma_sums_nonneg(ts.drop_last());
    }
}

/// Merges per-worker tallies into the batch's aggregate result: the counts
/// add up worker by worker, and the total is their sum.
pub fn merge_tallies(tallies: &Vec<WorkerTally>) -> (r: BatchResult)
    requires
        forall|k: int| 0 <= k < tallies@.len() ==> (#[trigger] tallies@[k]).wf(),
        sum_processed(tallies@) <= i64::MAX,
    ensures
        r.wf(),
        r.succeeded == sum_succeeded(tallies@),
        r.failed == sum_failed(tallies@),
        r.total == sum_processed(tallies@),
{
    let n = tallies.len();
    let mut succeeded: i64 = 0;
    let mut failed: i64 = 0;
    let mut i: usize = 0;
    while i < n
        invariant
            i <= n,
            n == tallies@.len(),
            forall|k: int| 0 <= k < tallies@.len() ==> (#[trigger] tallies@[k]).wf(),
            sum_processed(tallies@) <= i64::MAX,
            succeeded == sum_succeeded(tallies@.subrange(0, i as int)),
            failed == sum_failed(tallies@.subrange(0, i as int)),
            0 <= succeeded,
            0 <= failed,
        decreases n - i,
    {
        proof {
            lemma_sums_monotonic(tallies@, i + 1);
            assert(tallies@.subrange(0, tallies@.len() as int) =~= tallies@);
            assert(tallies@.subrange(0, i + 1).drop_last() =~= tallies@.subrange(0, i as int));
            assert(tallies@.subrange(0, i + 1).last() == tallies@[i as int]);
        }
        succeeded = succeeded + tallies[i].succeeded;
        failed = failed + tallies[i].failed;
        i = i + 1;
    }
    proof {
        assert(tallies@.subrange(0, n as int) =~= tallies@);
    }
    BatchResult { succeeded, failed, total: succeeded + failed }
}

/// Sum of the chunk lengths.
pub open spec fn total_len(chunks: Seq<Seq<bool>>) -> int
    decreases chunks.len(),
{
    if chunks.len() == 0 {
        0
    } else {
        total_len(chunks.drop_last()) + chunks.last().len()
    }
}

/// Sum of the per-chunk success counts.
pub open spec fn total_true(chunks: Seq<Seq<bool>>) -> int
    decreases chunks.len(),
{
    if chunks.len() == 0 {
        0
    } else {
        total_true(chunks.drop_last()) + count_true(chunks.last())
    }
}

/// Fault accounting is independent of the split across workers: for any
/// partition of a batch's outcome list into chunks, the summed per-chunk
/// totals equal the length of the whole list, and the summed per-chunk
/// success counts equal the whole list's success count — so merged worker
/// results report exactly the batch-wide totals, sequential or concurrent.
pub proof fn lemma_partitioned_counts(chunks: Seq<Seq<bool>>)
    ensures
        total_len(chunks) == chunks.flatten().len(),
        total_true(chunks) == count_true(chunks.flatten()),
    decreases chunks.len(),
{
    if chunks.len() == 0 {
    } else {
        lemma_partitioned_counts(chunks.drop_last());
        chunks.drop_last().lemma_flatten_push(chunks.last());
        assert(chunks.drop_last().push(chunks.last()) =~= chunks);
        lemma_count_true_concat(chunks.drop_last().flatten(), chunks.last());
    }
}

/// Relies on `num_cpus::get`: documented to always return at least one.
#[verifier::external_body]
fn cpu_count() -> (n: usize)
    ensures
        1 <= n,
{
    num_cpus::get()
}

/// Whether `workers` oversubscribes `cpus` by the warning heuristic.
pub fn oversubscribed(workers: usize, cpus: usize) -> (b: bool)
    requires
        1 <= cpus,
    ensures
        b == (workers / cpus > 100),
{
    workers / cpus > 100
}

/// Whether a warning is due for running `workers` workers on this machine:
/// the worker count exceeds a hundred times the processor count. However
/// many processors the machine reports, no warning is due for a hundred
/// workers or fewer.
pub fn oversubscription_warning(workers: usize) -> (b: bool)
    ensures
        b ==> workers > 100,
{
    let cpus = cpu_count();
    let b = oversubscribed(workers, cpus);
    proof {
        assert(workers as int / cpus as int <= workers as int) by (nonlinear_arith)
            requires
                1 <= cpus,
        ;
    }
    b
}

} // verus!
