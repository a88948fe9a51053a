use std::collections::VecDeque;
use vstd::prelude::*;

verus! {

/// The number of workers a pool asked for `size` workers actually runs:
/// a request for none is raised to one, so that queued jobs never stall.
pub open spec fn effective_workers(size: nat) -> nat {
    if size == 0 {
        1
    } else {
        size
    }
}

/// What a pool is, abstractly: how many workers it runs and the jobs that wait
/// for a worker, oldest first.
pub struct PoolModel<J> {
    pub workers: nat,
    pub pending: Seq<J>,
}

/// The pool after `job` is submitted: it waits behind every job already queued.
pub open spec fn after_execute<J>(m: PoolModel<J>, job: J) -> PoolModel<J> {
    PoolModel { workers: m.workers, pending: m.pending.push(job) }
}

/// What one dequeue hands to a worker, and the pool after it: the oldest pending
/// job leaves the queue; with nothing pending, nothing is handed out.
pub open spec fn after_take<J>(m: PoolModel<J>) -> (Option<J>, PoolModel<J>) {
    if m.pending.len() == 0 {
        (None, m)
    } else {
        (Some(m.pending[0]), PoolModel { workers: m.workers, pending: m.pending.drop_first() })
    }
}

/// Scheduling core of a worker pool: a fixed number of workers, never zero, and
/// an unbounded first-in first-out queue of jobs waiting for one of them.
///
/// Submitting never waits for a worker. Each dequeue hands the oldest pending job
/// to exactly one caller and removes it, so a job is never handed out twice and
/// never lost while it waits. The threads that run the jobs serialize their
/// dequeues around a value of this type and run each job outside that section.
pub struct ThreadPool<J> {
    workers: usize,
    queue: VecDeque<J>,
}

impl<J> View for ThreadPool<J> {
    type V = PoolModel<J>;

    closed spec fn view(&self) -> PoolModel<J> {
        PoolModel { workers: self.workers as nat, pending: self.queue@ }
    }
}

impl<J> ThreadPool<J> {
    /// A pool is well formed when it runs at least one worker.
    pub open spec fn wf(&self) -> bool {
        self@.workers >= 1
    }

    /// A pool of `max(size, 1)` workers with nothing queued.
    pub fn new(size: usize) -> (r: Self)
        ensures
            r.wf(),
            r@.workers == effective_workers(size as nat),
            r@.pending == Seq::<J>::empty(),
    {
        ThreadPool { workers: worker_count(size), queue: VecDeque::new() }
    }

    /// How many workers this pool runs.
    pub fn workers(&self) -> (r: usize)
        ensures
            r == self@.workers,
    {
        self.workers
    }

    /// How many jobs wait for a worker.
    pub fn pending(&self) -> (r: usize)
        ensures
            r == self@.pending.len(),
    {
        self.queue.len()
    }

    /// Queues `job` behind every job already waiting and returns at once.
    pub fn execute(&mut self, job: J)
        ensures
            final(self)@ == after_execute(old(self)@, job),
    {
        self.queue.push_back(job);
    }

    /// Hands out the oldest pending job, removing it from the queue, or `None`
    /// when nothing waits.
    pub fn take(&mut self) -> (r: Option<J>)
        ensures
            (r, final(self)@) == after_take(old(self)@),
    {
        self.queue.pop_front()
    }
}

/// One call on a pool: a submission of a job, or a dequeue by a worker.
pub enum PoolOp<J> {
    Execute(J),
    Take,
}

/// Runs `ops` in order from `m`: what the dequeues handed out, in the order
/// they happened, and the pool afterwards.
pub open spec fn run<J>(m: PoolModel<J>, ops: Seq<PoolOp<J>>) -> (Seq<J>, PoolModel<J>)
    decreases ops.len(),
{
    if ops.len() == 0 {
        (Seq::empty(), m)
    } else {
        let (out, m1) = run(m, ops.drop_last());
        match ops.last() {
            PoolOp::Execute(job) => (out, after_execute(m1, job)),
            PoolOp::Take => {
                let (r, m2) = after_take(m1);
                match r {
                    Some(job) => (out.push(job), m2),
                    None => (out, m2),
                }
            },
        }
    }
}

/// The jobs that `ops` submits, in submission order.
pub open spec fn submitted<J>(ops: Seq<PoolOp<J>>) -> Seq<J>
    decreases ops.len(),
{
    if ops.len() == 0 {
        Seq::empty()
    } else {
        match ops.last() {
            PoolOp::Execute(job) => submitted(ops.drop_last()).push(job),
            PoolOp::Take => submitted(ops.drop_last()),
        }
    }
}

/// `n` dequeues in a row.
pub open spec fn takes<J>(n: nat) -> Seq<PoolOp<J>> {
    Seq::new(n, |i: int| PoolOp::Take)
}

/// Whatever calls are made, in whatever interleaving, the jobs that were waiting
/// followed by the jobs submitted are exactly the jobs handed out followed by the
/// jobs still waiting. So jobs are handed out in the order they were submitted,
/// none twice, and none is lost: each one is either handed out or still queued.
pub proof fn lemma_delivery_in_submission_order<J>(m: PoolModel<J>, ops: Seq<PoolOp<J>>)
    ensures
        m.pending + submitted(ops) == run(m, ops).0 + run(m, ops).1.pending,
    decreases ops.len(),
{
    if ops.len() > 0 {
        let prev = ops.drop_last();
        lemma_delivery_in_submission_order(m, prev);
        let (out, m1) = run(m, prev);
        match ops.last() {
            PoolOp::Execute(job) => {
                assert(m.pending + submitted(ops) =~= (m.pending + submitted(prev)).push(job));
                assert(out + m1.pending.push(job) =~= (out + m1.pending).push(job));
            },
            PoolOp::Take => {
                if m1.pending.len() > 0 {
                    assert(out.push(m1.pending[0]) + m1.pending.drop_first() =~= out + m1.pending);
                }
            },
        }
    } else {
        assert(m.pending + submitted(ops) =~= Seq::<J>::empty() + run(m, ops).1.pending);
    }
}

/// No call changes how many workers a pool runs: a pool keeps the workers it
/// was built with, at least one.
pub proof fn lemma_workers_fixed<J>(m: PoolModel<J>, ops: Seq<PoolOp<J>>)
    ensures
        run(m, ops).1.workers == m.workers,
    decreases ops.len(),
{
    if ops.len() > 0 {
        lemma_workers_fixed(m, ops.drop_last());
    }
}

/// As many dequeues as there are pending jobs hand out every pending job exactly
/// once, oldest first, and leave the queue empty; a further dequeue hands out
/// nothing.
pub proof fn lemma_drain<J>(m: PoolModel<J>)
    ensures
        run(m, takes(m.pending.len())).0 == m.pending,
        run(m, takes(m.pending.len())).1.pending.len() == 0,
        after_take(run(m, takes(m.pending.len())).1).0 is None,
{
    lemma_takes_prefix(m, m.pending.len());
    assert(m.pending.take(m.pending.len() as int) =~= m.pending);
}

/// `n` dequeues, with at least `n` jobs pending, hand out the `n` oldest ones.
proof fn lemma_takes_prefix<J>(m: PoolModel<J>, n: nat)
    requires
        n <= m.pending.len(),
    ensures
        run(m, takes(n)).0 == m.pending.take(n as int),
        run(m, takes(n)).1.pending == m.pending.skip(n as int),
    decreases n,
{
    if n == 0 {
        assert(m.pending.take(0) =~= Seq::<J>::empty());
        assert(m.pending.skip(0) =~= m.pending);
    } else {
        assert(takes::<J>(n).drop_last() =~= takes::<J>((n - 1) as nat));
        lemma_takes_prefix(m, (n - 1) as nat);
        let m1 = run(m, takes::<J>((n - 1) as nat)).1;
        assert(m1.pending[0] == m.pending[n - 1]);
        assert(m.pending.take(n - 1).push(m.pending[n - 1]) =~= m.pending.take(n as int));
        assert(m1.pending.drop_first() =~= m.pending.skip(n as int));
    }
}

/// Computes `effective_workers(size)`.
pub fn worker_count(size: usize) -> (r: usize)
    ensures
        r == effective_workers(size as nat),
        r >= 1,
{
    if size == 0 {
        1
    } else {
        size
    }
}

} // verus!
