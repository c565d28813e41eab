//! The background job-queue manager: a FIFO of immutable job values shared
//! between the submitting side and a draining loop, with an advisory busy
//! flag.  The server runs two instances of the pattern, one for data
//! downloads and one for backtest requests.
//!
//! The FIFO itself is the growable `Queue` of the `queues` crate, held behind
//! trusted wrappers; everything the manager decides about it is verified
//! against those wrappers' contracts.

use vstd::prelude::*;
use crate::sweep::{MarketType, ParamMultiplier};

verus! {

/// Identifies one symbol/interval pair of cached candle data.
#[derive(Clone, Debug)]
pub struct KLineDatasId {
    pub interval: String,
    pub symbol: String,
}

/// Everything a queued backtest request carries: the candle data to test
/// over, the five parameter ranges to sweep, and the market type.
#[derive(Clone, Debug)]
pub struct BacktesterDatas {
    pub data_id: KLineDatasId,
    pub tp: ParamMultiplier,
    pub sl: ParamMultiplier,
    pub kline_repetition: ParamMultiplier,
    pub kline_range: ParamMultiplier,
    pub risk: ParamMultiplier,
    pub market_type: MarketType,
}

/// One unit of background work, created by a request handler, moved into a
/// queue, and consumed exactly once by the drain loop.
#[derive(Clone, Debug)]
pub enum Job {
    Download(KLineDatasId),
    Backtest(BacktesterDatas),
}

/// Relies on `queues::Queue`, the growable FIFO queue of the `queues` crate
/// (a plain `Vec` used front-to-back, with no capacity bound).
#[verifier::external_type_specification]
#[verifier::external_body]
#[verifier::reject_recursive_types(T)]
pub struct ExQueue<T: Clone>(queues::Queue<T>);

/// What a job queue holds, oldest first.
pub uninterp spec fn queued_jobs(q: queues::Queue<Job>) -> Seq<Job>;

/// Relies on `queues::Queue::new`: creates an empty queue.
#[verifier::external_body]
fn queue_new() -> (q: queues::Queue<Job>)
    ensures
        queued_jobs(q) == Seq::<Job>::empty(),
{
    queues::Queue::new()
}

/// Relies on `queues::IsQueue::add` for `Queue`: appends the value at the
/// back and always returns `Ok(None)`, the queue being unbounded.
#[verifier::external_body]
fn queue_add(q: &mut queues::Queue<Job>, job: Job)
    ensures
        queued_jobs(*final(q)) == queued_jobs(*old(q)).push(job),
{
    let _ = queues::IsQueue::add(q, job);
}

/// Relies on `queues::IsQueue::remove` for `Queue`: removes and returns the
/// oldest element, or errs on an empty queue (converted to `None` here).
#[verifier::external_body]
fn queue_remove(q: &mut queues::Queue<Job>) -> (job: Option<Job>)
    ensures
        queued_jobs(*old(q)).len() == 0 ==> job is None && queued_jobs(*final(q)) == queued_jobs(
            *old(q),
        ),
        queued_jobs(*old(q)).len() > 0 ==> job == Some(queued_jobs(*old(q))[0]) && queued_jobs(
            *final(q),
        ) == queued_jobs(*old(q)).subrange(1, queued_jobs(*old(q)).len() as int),
{
    queues::IsQueue::remove(q).ok()
}

/// Relies on `queues::IsQueue::size` for `Queue`: the number of queued
/// elements.
#[verifier::external_body]
fn queue_size(q: &queues::Queue<Job>) -> (n: usize)
    ensures
        n == queued_jobs(*q).len(),
{
    queues::IsQueue::size(q)
}

/// The mathematical state of a job-queue manager: the queued jobs, oldest
/// first, and the advisory busy flag.
pub struct ManagerView {
    pub jobs: Seq<Job>,
    pub busy: bool,
}

/// Submitting appends the job at the back; the flag is untouched.
pub open spec fn spec_submitted(m: ManagerView, job: Job) -> ManagerView {
    ManagerView { jobs: m.jobs.push(job), busy: m.busy }
}

/// The drain loop observing the queue raises the flag exactly when there is
/// queued work; the queue is untouched.
pub open spec fn spec_observed(m: ManagerView) -> ManagerView {
    ManagerView { jobs: m.jobs, busy: m.busy || m.jobs.len() > 0 }
}

/// Taking removes and returns the oldest job, or nothing from an empty
/// queue; the flag is untouched.
pub open spec fn spec_taken(m: ManagerView) -> (ManagerView, Option<Job>) {
    if m.jobs.len() == 0 {
        (m, None::<Job>)
    } else {
        (
            ManagerView { jobs: m.jobs.subrange(1, m.jobs.len() as int), busy: m.busy },
            Some(m.jobs[0]),
        )
    }
}

/// Once the queue has been drained, the flag is lowered; the queue is
/// untouched.
pub open spec fn spec_rested(m: ManagerView) -> ManagerView {
    ManagerView { jobs: m.jobs, busy: false }
}

/// One job-queue manager instance: the FIFO of pending jobs and the advisory
/// busy flag.  Submission and draining mutate it only through the verified
/// methods below, whose contracts are exactly the transitions of the
/// `Idle -> Draining -> Idle` state machine.
pub struct JobQueueManager {
    pool: queues::Queue<Job>,
    busy: bool,
}

impl View for JobQueueManager {
    type V = ManagerView;

    closed spec fn view(&self) -> ManagerView {
        ManagerView { jobs: queued_jobs(self.pool), busy: self.busy }
    }
}

impl JobQueueManager {
    /// A fresh manager: no queued work, not busy.
    pub fn new() -> (m: JobQueueManager)
        ensures
            m@.jobs == Seq::<Job>::empty(),
            !m@.busy,
    {
        JobQueueManager { pool: queue_new(), busy: false }
    }

    /// Enqueue one job behind every job already queued, and return at once:
    /// submission never blocks on processing and never fails.
    pub fn submit(&mut self, job: Job)
        ensures
            final(self)@ == spec_submitted(old(self)@, job),
    {
        queue_add(&mut self.pool, job);
    }

    /// How many jobs are waiting.
    pub fn pending(&self) -> (n: usize)
        ensures
            n == self@.jobs.len(),
    {
        queue_size(&self.pool)
    }

    /// Read the advisory busy flag.
    pub fn is_busy(&self) -> (b: bool)
        ensures
            b == self@.busy,
    {
        self.busy
    }

    /// The drain loop's wake-up check: raise the busy flag exactly when
    /// queued work was observed, and report whether a drain pass begins.
    pub fn begin_drain(&mut self) -> (draining: bool)
        ensures
            final(self)@ == spec_observed(old(self)@),
            draining == (old(self)@.jobs.len() > 0),
    {
        let n = queue_size(&self.pool);
        if n > 0 {
            self.busy = true;
        }
        n > 0
    }

    /// Remove and return the oldest queued job, or `None` once the queue is
    /// empty.
    pub fn take_next(&mut self) -> (job: Option<Job>)
        ensures
            (final(self)@, job) == spec_taken(old(self)@),
    {
        queue_remove(&mut self.pool)
    }

    /// The drain pass is over (the queue was observed empty): lower the busy
    /// flag.
    pub fn finish_drain(&mut self)
        ensures
            final(self)@ == spec_rested(old(self)@),
    {
        self.busy = false;
    }
}

/// FIFO order: jobs submitted in the order `a, b, c` to one manager are
/// drained in exactly that order, leaving the queue empty.
pub proof fn lemma_fifo_order(m: ManagerView, a: Job, b: Job, c: Job)
    requires
        m.jobs.len() == 0,
    ensures
        ({
            let m1 = spec_submitted(spec_submitted(spec_submitted(m, a), b), c);
            let (m2, ja) = spec_taken(m1);
            let (m3, jb) = spec_taken(m2);
            let (m4, jc) = spec_taken(m3);
            ja == Some(a) && jb == Some(b) && jc == Some(c) && m4.jobs.len() == 0
        }),
{
    let m1 = spec_submitted(spec_submitted(spec_submitted(m, a), b), c);
    assert(m1.jobs =~= seq![a, b, c]);
    let (m2, ja) = spec_taken(m1);
    assert(m2.jobs =~= seq![b, c]);
    let (m3, jb) = spec_taken(m2);
    assert(m3.jobs =~= seq![c]);
    let (m4, jc) = spec_taken(m3);
    assert(m4.jobs =~= Seq::<Job>::empty());
}

/// Busy-flag lifecycle: the flag never rises while the queue is empty, and
/// for one submitted job it runs exactly `false -> true -> false` -- raised
/// when the non-empty queue is observed, lowered once the queue is drained.
pub proof fn lemma_busy_flag_lifecycle(m: ManagerView, j: Job)
    requires
        m.jobs.len() == 0,
        !m.busy,
    ensures
        !spec_observed(m).busy,
        ({
            let m1 = spec_submitted(m, j);
            let m2 = spec_observed(m1);
            let (m3, taken) = spec_taken(m2);
            let m4 = spec_rested(m3);
            &&& !m1.busy
            &&& m2.busy
            &&& taken == Some(j)
            &&& m3.jobs.len() == 0
            &&& !m4.busy
        }),
{
    let m1 = spec_submitted(m, j);
    assert(m1.jobs =~= seq![j]);
    let (m3, taken) = spec_taken(spec_observed(m1));
    assert(m3.jobs =~= Seq::<Job>::empty());
}

/// The reference time for a download job: the server's clock when the lookup
/// succeeded, and the documented degraded default of zero when it failed.
pub fn reference_time(fetched: Option<u64>) -> (t: u64)
    ensures
        fetched is Some ==> t == fetched->0,
        fetched is None ==> t == 0,
{
    match fetched {
        Some(v) => v,
        None => 0,
    }
}

} // verus!
