//! Live progress aggregation: each worker reports what fraction of its own
//! chunk is finished, the orchestrator keeps one value per worker, and the
//! overall estimate is the mean of those values, with a simple ETA derived
//! from the elapsed time.  Fractions are carried in basis points (ten
//! thousandths), so every value is a plain integer.

use vstd::prelude::*;
use vstd::arithmetic::div_mod::{
    lemma_div_is_ordered, lemma_div_multiples_vanish, lemma_div_pos_is_pos,
};
use vstd::arithmetic::mul::{lemma_mul_inequality, lemma_mul_is_commutative};

verus! {

/// Full completion, in basis points.
pub const PROGRESS_SCALE: u32 = 10000;

/// One progress report emitted by a worker: which worker, and how much of its
/// own chunk is finished, in basis points (`0 ..= PROGRESS_SCALE`).
#[derive(Clone, Copy, PartialEq, Eq, Structural, Debug)]
pub struct ProgressSample {
    pub worker_id: usize,
    pub fraction_bp: u32,
}

/// The fraction of a chunk finished after `done` of `total` descriptors, in
/// basis points.  An empty chunk is complete from the start.
pub open spec fn spec_chunk_progress(done: int, total: int) -> int {
    if total == 0 {
        PROGRESS_SCALE as int
    } else {
        done * (PROGRESS_SCALE as int) / total
    }
}

/// Progress is monotone in the work done, never exceeds full completion, and
/// reaches exactly full completion when the whole chunk is processed.
pub proof fn lemma_progress_monotonic(d1: int, d2: int, total: int)
    requires
        0 <= d1 <= d2 <= total,
    ensures
        spec_chunk_progress(d1, total) <= spec_chunk_progress(d2, total),
        0 <= spec_chunk_progress(d1, total) <= PROGRESS_SCALE,
        spec_chunk_progress(total, total) == PROGRESS_SCALE,
{
    let scale = PROGRESS_SCALE as int;
    if total > 0 {
        lemma_mul_inequality(d1, d2, scale);
        lemma_div_is_ordered(d1 * scale, d2 * scale, total);
        lemma_mul_inequality(d2, total, scale);
        lemma_div_is_ordered(d2 * scale, total * scale, total);
        assert(total * scale / total == scale) by {
            lemma_mul_is_commutative(total, scale);
            lemma_div_multiples_vanish(scale, total);
        }
        vstd::arithmetic::mul::lemma_mul_nonnegative(d1, scale);
        lemma_div_pos_is_pos(d1 * scale, total);
    }
}

/// The fraction of its chunk a worker has finished, in basis points, after
/// `done` of `total` descriptors.
pub fn chunk_progress(done: usize, total: usize) -> (bp: u32)
    requires
        done <= total,
    ensures
        bp == spec_chunk_progress(done as int, total as int),
        bp <= PROGRESS_SCALE,
{
    proof {
        lemma_progress_monotonic(done as int, total as int, total as int);
    }
    if total == 0 {
        PROGRESS_SCALE
    } else {
        (((done as u128) * (PROGRESS_SCALE as u128)) / (total as u128)) as u32
    }
}

/// The sum of a sequence of per-worker fractions.
pub open spec fn spec_sum(s: Seq<u32>) -> int
    decreases s.len(),
{
    if s.len() == 0 {
        0
    } else {
        spec_sum(s.drop_last()) + s.last()
    }
}

/// The mean of the per-worker fractions, in basis points.
pub open spec fn spec_overall_bp(s: Seq<u32>) -> int {
    spec_sum(s) / (s.len() as int)
}

/// A sum of fractions that each respect the scale is bounded by the scale
/// times their number.
proof fn lemma_sum_bounds(s: Seq<u32>)
    requires
        forall|i: int| 0 <= i < s.len() ==> #[trigger] s[i] <= PROGRESS_SCALE,
    ensures
        0 <= spec_sum(s) <= s.len() * (PROGRESS_SCALE as int),
    decreases s.len(),
{
    let scale = PROGRESS_SCALE as int;
    if s.len() == 0 {
    } else {
        lemma_sum_bounds(s.drop_last());
        assert(s.len() * scale == (s.len() - 1) * scale + scale) by {
            vstd::arithmetic::mul::lemma_mul_is_distributive_sub_other_way(scale, s.len() as int, 1);
        }
    }
}

/// One progress value per worker, each in basis points.  Initially zero for
/// every worker; each incoming sample overwrites its worker's entry.
pub struct ProgressTracker {
    fractions: Vec<u32>,
}

impl View for ProgressTracker {
    type V = Seq<u32>;

    closed spec fn view(&self) -> Seq<u32> {
        self.fractions@
    }
}

impl ProgressTracker {
    /// Every tracked fraction respects the scale.
    pub open spec fn wf(self) -> bool {
        forall|i: int| 0 <= i < self@.len() ==> #[trigger] self@[i] <= PROGRESS_SCALE
    }

    /// A fresh tracker for `workers` workers, all at zero progress.
    pub fn new(workers: usize) -> (t: ProgressTracker)
        ensures
            t@.len() == workers,
            forall|i: int| 0 <= i < workers ==> #[trigger] t@[i] == 0u32,
            t.wf(),
    {
        let mut fractions: Vec<u32> = Vec::new();
        let mut i: usize = 0;
        while i < workers
            invariant
                i <= workers,
                fractions@.len() == i,
                forall|j: int| 0 <= j < i ==> #[trigger] fractions@[j] == 0u32,
            decreases workers - i,
        {
            fractions.push(0);
            i = i + 1;
        }
        ProgressTracker { fractions }
    }

    /// How many workers are tracked.
    pub fn worker_count(&self) -> (n: usize)
        ensures
            n == self@.len(),
    {
        self.fractions.len()
    }

    /// Record one sample: the sample's worker entry is overwritten, every
    /// other entry is untouched.
    pub fn record(&mut self, sample: ProgressSample)
        requires
            sample.worker_id < old(self)@.len(),
            sample.fraction_bp <= PROGRESS_SCALE,
        ensures
            final(self)@ == old(self)@.update(sample.worker_id as int, sample.fraction_bp),
            old(self).wf() ==> final(self).wf(),
    {
        self.fractions[sample.worker_id] = sample.fraction_bp;
    }

    /// The overall run progress: the mean of the per-worker fractions, in
    /// basis points.
    pub fn overall_bp(&self) -> (bp: u32)
        requires
            self.wf(),
            self@.len() >= 1,
        ensures
            bp == spec_overall_bp(self@),
            bp <= PROGRESS_SCALE,
    {
        let n: usize = self.fractions.len();
        let mut sum: u128 = 0;
        let mut i: usize = 0;
        proof {
            assert(self@.take(0) =~= Seq::<u32>::empty());
        }
        while i < n
            invariant
                self.wf(),
                n == self@.len(),
                i <= n,
                sum == spec_sum(self@.take(i as int)),
                sum <= (i as int) * (PROGRESS_SCALE as int),
            decreases n - i,
        {
            proof {
                assert(self@.take(i + 1).drop_last() =~= self@.take(i as int));
                assert((i + 1) * (PROGRESS_SCALE as int) == (i as int) * (PROGRESS_SCALE as int)
                    + PROGRESS_SCALE) by {
                    vstd::arithmetic::mul::lemma_mul_is_distributive_add_other_way(
                        PROGRESS_SCALE as int,
                        i as int,
                        1,
                    );
                    lemma_mul_is_commutative(i as int, PROGRESS_SCALE as int);
                    lemma_mul_is_commutative(i + 1, PROGRESS_SCALE as int);
                }
                assert((i as int) * (PROGRESS_SCALE as int) <= (usize::MAX as int) * (
                PROGRESS_SCALE as int)) by {
                    lemma_mul_inequality(i as int, usize::MAX as int, PROGRESS_SCALE as int);
                }
            }
            sum = sum + (self.fractions[i] as u128);
            i = i + 1;
        }
        proof {
            assert(self@.take(n as int) =~= self@);
            lemma_sum_bounds(self@);
            lemma_div_is_ordered(spec_sum(self@), (n as int) * (PROGRESS_SCALE as int), n as int);
            assert((n as int) * (PROGRESS_SCALE as int) / (n as int) == PROGRESS_SCALE) by {
                lemma_mul_is_commutative(n as int, PROGRESS_SCALE as int);
                lemma_div_multiples_vanish(PROGRESS_SCALE as int, n as int);
            }
            lemma_div_pos_is_pos(spec_sum(self@), n as int);
        }
        (sum / (n as u128)) as u32
    }
}

/// The estimated total duration of the run, in seconds: the elapsed time
/// scaled up by the overall completed fraction.
pub fn eta_seconds(elapsed_secs: u64, overall_bp: u32) -> (eta: u64)
    requires
        1 <= overall_bp <= PROGRESS_SCALE,
        elapsed_secs * (PROGRESS_SCALE as int) <= u64::MAX,
    ensures
        eta == elapsed_secs * (PROGRESS_SCALE as int) / (overall_bp as int),
{
    proof {
        lemma_div_pos_is_pos(elapsed_secs * (PROGRESS_SCALE as int), overall_bp as int);
        vstd::arithmetic::div_mod::lemma_div_nonincreasing(
            elapsed_secs * (PROGRESS_SCALE as int),
            overall_bp as int,
        );
    }
    elapsed_secs * (PROGRESS_SCALE as u64) / (overall_bp as u64)
}

/// Whether enough time has passed since the last progress display to draw a
/// fresh one (the display is throttled to about one refresh a second).
pub fn should_refresh_display(last_display_ms: u64, elapsed_ms: u64) -> (refresh: bool)
    ensures
        refresh == (last_display_ms + 1000 < elapsed_ms),
{
    elapsed_ms > last_display_ms && elapsed_ms - last_display_ms > 1000
}

} // verus!
