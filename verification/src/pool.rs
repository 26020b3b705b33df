//! The worker pool's book-keeping: a queue of jobs, a fixed number of
//! workers, and who may do what next.
//!
//! The pool starts no thread and runs no job. Whoever owns the threads keeps
//! a [`WorkerPool`] behind a lock: a caller submits a job and waits where the
//! queue is full; an idle worker takes a job, runs it with the lock released,
//! and reports back when the job is over, however it ended; a shutdown closes
//! the intake, and the workers leave once the queue is empty.

use std::collections::VecDeque;
use vstd::prelude::*;

verus! {

/// Why a pool could not be made.
#[derive(Clone, Copy, Debug, PartialEq, Eq)]
pub enum PoolError {
    /// A pool has at least one worker.
    NoWorkers,
}

/// Why a job was not taken into the queue. The job comes back to the caller.
#[derive(Debug)]
pub enum Refusal<J> {
    /// The queue is full: wait until a worker has taken a job, then submit
    /// again.
    Full(J),
    /// The pool is shut down and takes no more jobs.
    Closed(J),
}

/// What an idle worker does next.
#[derive(Debug)]
pub enum Next<J> {
    /// Run this job, then report back with [`WorkerPool::finish`].
    Run(J),
    /// Wait until a job is submitted or the pool is shut down.
    Wait,
    /// Leave: the pool is shut down and the queue is empty.
    Exit,
}

/// The state of a pool.
pub struct PoolState<J> {
    /// How many workers the pool has.
    pub workers: nat,
    /// How many jobs the queue holds at most; `None` where it has no bound.
    pub capacity: Option<nat>,
    /// The jobs that wait, the oldest first.
    pub queue: Seq<J>,
    /// How many workers run a job.
    pub running: nat,
    /// Whether the pool takes jobs.
    pub open: bool,
}

impl<J> PoolState<J> {
    /// The pool's invariant: it has a worker, no more workers run a job than
    /// it has, and the queue keeps to its bound.
    pub open spec fn wf(self) -> bool {
        &&& self.workers > 0
        &&& self.running <= self.workers
        &&& self.capacity matches Some(bound) ==> self.queue.len() <= bound
    }

    /// A pool that has just been made.
    pub open spec fn fresh(workers: nat, capacity: Option<nat>) -> Self {
        PoolState { workers, capacity, queue: Seq::empty(), running: 0, open: true }
    }

    /// Whether the queue is at its bound.
    pub open spec fn is_full(self) -> bool {
        self.capacity matches Some(bound) && self.queue.len() >= bound
    }

    /// Whether `job` is taken into the queue: the pool is open and the queue
    /// is not full.
    pub open spec fn accepts(self) -> bool {
        self.open && !self.is_full()
    }

    /// The pool after `job` was submitted: it stands last in the queue if
    /// the pool accepts it, else nothing has changed.
    pub open spec fn submit(self, job: J) -> Self {
        if self.accepts() {
            PoolState { queue: self.queue.push(job), ..self }
        } else {
            self
        }
    }

    /// Whether a job is handed out: one waits and a worker is idle.
    pub open spec fn hands_out(self) -> bool {
        self.queue.len() > 0 && self.running < self.workers
    }

    /// The pool after a worker asked for a job: the oldest job has left the
    /// queue and one more worker runs a job, if a job is handed out; else
    /// nothing has changed.
    pub open spec fn take(self) -> Self {
        if self.hands_out() {
            PoolState {
                queue: self.queue.subrange(1, self.queue.len() as int),
                running: self.running + 1,
                ..self
            }
        } else {
            self
        }
    }

    /// The pool after a worker reported that its job is over.
    pub open spec fn finish(self) -> Self {
        if self.running > 0 {
            PoolState { running: (self.running - 1) as nat, ..self }
        } else {
            self
        }
    }

    /// The pool after it was shut down: it takes no more jobs, and the jobs
    /// that wait stay in the queue.
    pub open spec fn shutdown(self) -> Self {
        PoolState { open: false, ..self }
    }

    /// Whether the pool is shut down and has nothing left to do: no job
    /// waits and none runs.
    pub open spec fn drained(self) -> bool {
        !self.open && self.queue.len() == 0 && self.running == 0
    }

    /// The pool after `jobs` were submitted one after the other.
    pub open spec fn submit_all(self, jobs: Seq<J>) -> Self
        decreases jobs.len(),
    {
        if jobs.len() == 0 {
            self
        } else {
            self.submit_all(jobs.drop_last()).submit(jobs.last())
        }
    }

    /// The pool after workers asked for a job `times` times.
    pub open spec fn take_times(self, times: nat) -> Self
        decreases times,
    {
        if times == 0 {
            self
        } else {
            self.take_times((times - 1) as nat).take()
        }
    }
}

/// A worker pool: the queue of jobs of the kind `J`, and the count of the
/// workers that run one.
pub struct WorkerPool<J> {
    workers: usize,
    capacity: Option<usize>,
    queue: VecDeque<J>,
    running: usize,
    open: bool,
}

impl<J> View for WorkerPool<J> {
    type V = PoolState<J>;

    closed spec fn view(&self) -> PoolState<J> {
        PoolState {
            workers: self.workers as nat,
            capacity: match self.capacity {
                Some(bound) => Some(bound as nat),
                None => None,
            },
            queue: self.queue@,
            running: self.running as nat,
            open: self.open,
        }
    }
}

impl<J> WorkerPool<J> {
    /// Whether the pool's invariant holds.
    pub open spec fn wf(&self) -> bool {
        self@.wf()
    }

    /// A pool of `workers` workers with a queue without a bound. A pool
    /// without workers is refused.
    pub fn new(workers: usize) -> (r: Result<WorkerPool<J>, PoolError>)
        ensures
            match r {
                Ok(pool) => workers > 0 && pool.wf() && pool@ == PoolState::<J>::fresh(
                    workers as nat,
                    None,
                ),
                Err(e) => workers == 0 && e == PoolError::NoWorkers,
            },
    {
        if workers == 0 {
            return Err(PoolError::NoWorkers);
        }
        Ok(WorkerPool { workers, capacity: None, queue: VecDeque::new(), running: 0, open: true })
    }

    /// A pool of `workers` workers with a queue that holds `capacity` jobs at
    /// most. A pool without workers is refused.
    pub fn bounded(workers: usize, capacity: usize) -> (r: Result<WorkerPool<J>, PoolError>)
        ensures
            match r {
                Ok(pool) => workers > 0 && pool.wf() && pool@ == PoolState::<J>::fresh(
                    workers as nat,
                    Some(capacity as nat),
                ),
                Err(e) => workers == 0 && e == PoolError::NoWorkers,
            },
    {
        if workers == 0 {
            return Err(PoolError::NoWorkers);
        }
        Ok(
            WorkerPool {
                workers,
                capacity: Some(capacity),
                queue: VecDeque::new(),
                running: 0,
                open: true,
            },
        )
    }

    /// Submits `job`. It is put last in the queue, or comes back where the
    /// queue is full or the pool is shut down.
    pub fn submit(&mut self, job: J) -> (r: Result<(), Refusal<J>>)
        requires
            old(self).wf(),
        ensures
            final(self).wf(),
            final(self)@ == old(self)@.submit(job),
            match r {
                Ok(_) => old(self)@.accepts(),
                Err(Refusal::Closed(back)) => !old(self)@.open && back == job,
                Err(Refusal::Full(back)) => old(self)@.open && old(self)@.is_full() && back == job,
            },
    {
        if !self.open {
            return Err(Refusal::Closed(job));
        }
        let full = match self.capacity {
            Some(bound) => self.queue.len() >= bound,
            None => false,
        };
        if full {
            return Err(Refusal::Full(job));
        }
        self.queue.push_back(job);
        Ok(())
    }

    /// Asks for a job on behalf of an idle worker. The oldest job of the
    /// queue is handed out while one waits, also after a shutdown. With an
    /// empty queue the worker waits, or leaves if the pool is shut down.
    pub fn take(&mut self) -> (r: Next<J>)
        requires
            old(self).wf(),
        ensures
            final(self).wf(),
            final(self)@ == old(self)@.take(),
            match r {
                Next::Run(job) => old(self)@.hands_out() && job == old(self)@.queue[0],
                Next::Wait => !old(self)@.hands_out() && (old(self)@.open || old(self)@.queue.len()
                    > 0),
                Next::Exit => !old(self)@.open && old(self)@.queue.len() == 0,
            },
    {
        if self.running < self.workers {
            match self.queue.pop_front() {
                Some(job) => {
                    self.running = self.running + 1;
                    return Next::Run(job);
                },
                None => {},
            }
        }
        if !self.open && self.queue.len() == 0 {
            Next::Exit
        } else {
            Next::Wait
        }
    }

    /// Reports that a worker's job is over, whether it ran to its end or
    /// failed: the worker is idle again either way.
    pub fn finish(&mut self)
        requires
            old(self).wf(),
        ensures
            final(self).wf(),
            final(self)@ == old(self)@.finish(),
    {
        if self.running > 0 {
            self.running = self.running - 1;
        }
    }

    /// Shuts the pool down: it takes no more jobs. The jobs that wait are
    /// still handed out.
    pub fn shutdown(&mut self)
        requires
            old(self).wf(),
        ensures
            final(self).wf(),
            final(self)@ == old(self)@.shutdown(),
    {
        self.open = false;
    }

    /// Tests whether the pool is shut down and has nothing left to do.
    pub fn is_drained(&self) -> (r: bool)
        ensures
            r == self@.drained(),
    {
        !self.open && self.queue.len() == 0 && self.running == 0
    }

    /// How many jobs wait.
    pub fn queued(&self) -> (r: usize)
        ensures
            r == self@.queue.len(),
    {
        self.queue.len()
    }

    /// How many workers run a job.
    pub fn running(&self) -> (r: usize)
        ensures
            r == self@.running,
    {
        self.running
    }

    /// How many workers the pool has.
    pub fn workers(&self) -> (r: usize)
        ensures
            r == self@.workers,
    {
        self.workers
    }
}

/// Jobs submitted to an open pool whose queue has room for them all stand in
/// the queue behind those that waited, in the order in which they came.
pub proof fn lemma_submit_all<J>(pool: PoolState<J>, jobs: Seq<J>)
    requires
        pool.wf(),
        pool.open,
        pool.capacity matches Some(bound) ==> pool.queue.len() + jobs.len() <= bound,
    ensures
        pool.submit_all(jobs) == (PoolState { queue: pool.queue + jobs, ..pool }),
    decreases jobs.len(),
{
    if jobs.len() == 0 {
        assert(pool.queue + jobs =~= pool.queue);
    } else {
        lemma_submit_all(pool, jobs.drop_last());
        assert((pool.queue + jobs.drop_last()).push(jobs.last()) =~= pool.queue + jobs);
    }
}

/// While as many jobs wait and as many workers are idle, `times` workers
/// that ask for a job get the `times` oldest jobs, and all of them run.
pub proof fn lemma_take_times<J>(pool: PoolState<J>, times: nat)
    requires
        pool.wf(),
        times <= pool.queue.len(),
        pool.running + times <= pool.workers,
    ensures
        pool.take_times(times) == (PoolState {
            queue: pool.queue.subrange(times as int, pool.queue.len() as int),
            running: pool.running + times,
            ..pool
        }),
    decreases times,
{
    if times == 0 {
        assert(pool.queue.subrange(0, pool.queue.len() as int) =~= pool.queue);
    } else {
        lemma_take_times(pool, (times - 1) as nat);
        let before = pool.take_times((times - 1) as nat);
        assert(before.queue.subrange(1, before.queue.len() as int) =~= pool.queue.subrange(
            times as int,
            pool.queue.len() as int,
        ));
    }
}

/// A pool of `n` workers that is given more than `n` jobs at once runs `n` of
/// them at the same time, the oldest ones, and keeps the others in the
/// queue, where they wait until a job is over: then the oldest of them is
/// handed out.
pub proof fn law_pool_runs_as_many_as_workers<J>(workers: nat, capacity: Option<nat>, jobs: Seq<J>)
    requires
        workers > 0,
        jobs.len() > workers,
        capacity matches Some(bound) ==> jobs.len() <= bound,
    ensures
        ({
            let given = PoolState::<J>::fresh(workers, capacity).submit_all(jobs);
            let busy = given.take_times(workers);
            &&& given.queue == jobs
            &&& busy.wf()
            &&& busy.running == workers
            &&& busy.queue == jobs.subrange(workers as int, jobs.len() as int)
            &&& forall|k: nat|
                k < workers ==> (#[trigger] given.take_times(k)).hands_out() && given.take_times(
                    k,
                ).queue[0] == jobs[k as int]
            &&& !busy.hands_out()
            &&& busy.take() == busy
            &&& busy.finish().hands_out()
            &&& busy.finish().queue[0] == jobs[workers as int]
            &&& busy.finish().take().running == workers
        }),
{
    let fresh = PoolState::<J>::fresh(workers, capacity);
    lemma_submit_all(fresh, jobs);
    let given = fresh.submit_all(jobs);
    assert(fresh.queue + jobs =~= jobs);
    lemma_take_times(given, workers);
    assert forall|k: nat| k < workers implies (#[trigger] given.take_times(k)).hands_out()
        && given.take_times(k).queue[0] == jobs[k as int] by {
        lemma_take_times(given, k);
    }
}

/// A shutdown abandons no job. The pool takes no more jobs, but those that
/// wait stay in the queue and are handed out, the oldest first, whenever a
/// worker is idle; a worker is told to leave only when the queue is empty;
/// and the pool is drained exactly when no job waits and none runs.
pub proof fn law_shutdown_drains<J>(pool: PoolState<J>, job: J)
    requires
        pool.wf(),
    ensures
        ({
            let closed = pool.shutdown();
            &&& closed.wf()
            &&& closed.queue == pool.queue
            &&& closed.running == pool.running
            &&& closed.submit(job) == closed
            &&& closed.queue.len() > 0 && closed.running < closed.workers ==> closed.hands_out()
                && closed.take().queue == pool.queue.subrange(1, pool.queue.len() as int)
            &&& closed.drained() <==> pool.queue.len() == 0 && pool.running == 0
        }),
{
}

} // verus!
