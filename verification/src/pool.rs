use crate::channel::{JobChannel, TryRecvError};
use crate::error::PoolCreationError;
use crate::model::{PoolState, PoolView};
use crate::worker::{Worker, WorkerStatus};
use vstd::prelude::*;

verus! {

/// What a worker that asked for work has to do next.
#[derive(Debug)]
pub enum Directive<J> {
    /// Run this job to completion, then report back with `complete`.
    Run(J),
    /// Nothing is waiting and more may come: block until something changes.
    Wait,
    /// The channel is closed and drained: leave the loop.
    Exit,
}

/// The bookkeeping of a pool with a fixed number of workers.
///
/// The pool owns the job channel and one slot per worker. It is driven by
/// events: a producer submits a job, a worker asks for work or reports a job
/// done, teardown closes the channel and collects the workers in index
/// order. Each method performs one such event and says, where a decision is
/// due, what the caller has to do next.
///
/// The pool never looks into a job and never runs one: it hands each job to
/// one worker, and the worker's thread runs it. The channel is unbounded, so
/// producers are never held back. There is no event for a job that fails or
/// never returns: its worker stays busy for good, the pool goes on with one
/// worker less, and teardown cannot collect that worker.
pub struct ThreadPool<J> {
    workers: Vec<Worker>,
    channel: JobChannel<J>,
    assigned: Ghost<Seq<int>>,
    holding: Ghost<Seq<int>>,
    completed: Ghost<Seq<int>>,
}

impl<J> View for ThreadPool<J> {
    type V = PoolView<J>;

    closed spec fn view(&self) -> PoolView<J> {
        PoolView {
            workers: Seq::new(self.workers@.len(), |i: int| self.workers@[i].status),
            channel: self.channel@,
            assigned: self.assigned@,
            holding: self.holding@,
            completed: self.completed@,
        }
    }
}

impl<J> ThreadPool<J> {
    /// The slots are numbered by their index, the channel is well formed,
    /// and the view satisfies the pool invariant.
    pub closed spec fn wf(&self) -> bool {
        &&& self.channel.wf()
        &&& forall|i: int| 0 <= i < self.workers@.len() ==> (#[trigger] self.workers@[i]).id == i
        &&& self@.inv()
    }

    /// A well-formed pool satisfies the invariant of its view.
    pub proof fn lemma_wf_inv(&self)
        requires
            self.wf(),
        ensures
            self@.inv(),
    {
    }

    /// Creates a running pool of `size` idle workers around a fresh channel.
    /// A pool without workers is refused.
    pub fn build(size: usize) -> (r: Result<ThreadPool<J>, PoolCreationError>)
        ensures
            size == 0 <==> r is Err,
            r matches Ok(pool) ==> {
                &&& pool.wf()
                &&& pool@ == PoolView::<J>::fresh(size as nat)
                &&& pool@.size() == size
                &&& forall|id: int| 0 <= id < size ==> pool@.worker_is(id, WorkerStatus::Idle)
                &&& pool@.state() == PoolState::Running
                &&& pool@.pending().len() == 0
            },
    {
        if size == 0 {
            return Err(PoolCreationError);
        }
        let channel = JobChannel::new();
        let mut workers: Vec<Worker> = Vec::new();
        let mut id: usize = 0;
        while id < size
            invariant
                id <= size,
                workers@.len() == id,
                forall|i: int|
                    0 <= i < id ==> (#[trigger] workers@[i]).id == i && workers@[i].status
                        == WorkerStatus::Idle,
            decreases size - id,
        {
            workers.push(Worker::new(id));
            id = id + 1;
        }
        let pool = ThreadPool {
            workers,
            channel,
            assigned: Ghost(Seq::empty()),
            holding: Ghost(Seq::new(size as nat, |i: int| 0int)),
            completed: Ghost(Seq::empty()),
        };
        proof {
            assert(pool@.workers =~= PoolView::<J>::fresh(size as nat).workers);
            assert(pool@ == PoolView::<J>::fresh(size as nat));
            crate::laws::steps::lemma_fresh_inv::<J>(size as nat);
        }
        Ok(pool)
    }

    /// Number of workers; fixed at construction.
    pub fn size(&self) -> (n: usize)
        requires
            self.wf(),
        ensures
            n == self@.size(),
            n >= 1,
    {
        self.workers.len()
    }

    /// Whether jobs are still accepted.
    pub fn is_open(&self) -> (b: bool)
        ensures
            b == self@.channel.open,
    {
        self.channel.is_open()
    }

    /// Number of jobs accepted but not yet handed to a worker.
    pub fn pending(&self) -> (n: usize)
        requires
            self.wf(),
        ensures
            n == self@.pending().len(),
    {
        self.channel.len()
    }

    /// The slot of worker `id`, or `None` where the pool has no such worker.
    pub fn worker(&self, id: usize) -> (r: Option<Worker>)
        requires
            self.wf(),
        ensures
            match r {
                Some(w) => id < self@.size() && w.id == id && w.status == self@.workers[id as int],
                None => id >= self@.size(),
            },
    {
        if id < self.workers.len() {
            Some(self.workers[id])
        } else {
            None
        }
    }

    /// Status of worker `id`, or `None` where the pool has no such worker.
    pub fn status(&self, id: usize) -> (r: Option<WorkerStatus>)
        ensures
            match r {
                Some(status) => id < self@.size() && status == self@.workers[id as int],
                None => id >= self@.size(),
            },
    {
        if id < self.workers.len() {
            Some(self.workers[id].status)
        } else {
            None
        }
    }

    /// The phase the pool is in.
    pub fn state(&self) -> (st: PoolState)
        requires
            self.wf(),
        ensures
            st == self@.state(),
    {
        if self.channel.is_open() {
            PoolState::Running
        } else {
            let last = self.workers.len() - 1;
            match self.workers[last].status {
                WorkerStatus::Joined => {
                    assert(self@.workers[last as int] == WorkerStatus::Joined);
                    assert(self@.all_joined());
                    PoolState::Terminated
                },
                _ => {
                    assert(self@.workers[last as int] != WorkerStatus::Joined);
                    PoolState::ShuttingDown
                },
            }
        }
    }

    /// Accepts `job`: it joins the waiting jobs behind all that were
    /// accepted before it. Nothing is run and nothing is waited for.
    ///
    /// Submitting to a pool that has begun to shut down is a usage error,
    /// which the caller has to rule out.
    pub fn execute(&mut self, job: J)
        requires
            old(self).wf(),
            old(self)@.channel.open,
        ensures
            final(self).wf(),
            final(self)@ == old(self)@.submit(job),
            final(self)@.pending() == old(self)@.pending().push(job),
    {
        proof {
            crate::laws::steps::lemma_submit_inv(self@, job);
        }
        // The channel is open, so it keeps the job.
        let _ = self.channel.send(job);
        assert(self@.workers =~= old(self)@.workers);
    }

    /// Worker `id` asks for work.
    ///
    /// While a job is waiting, the oldest one is handed to the worker, which
    /// becomes busy with it; this does not depend on what the other workers
    /// are doing. With nothing waiting, the worker is told to wait as long
    /// as the channel is open, and to leave once it is closed.
    pub fn dispatch(&mut self, id: usize) -> (d: Directive<J>)
        requires
            old(self).wf(),
            old(self)@.worker_is(id as int, WorkerStatus::Idle),
        ensures
            final(self).wf(),
            final(self)@ == old(self)@.dispatch(id as int),
            match d {
                Directive::Run(job) => {
                    &&& old(self)@.pending().len() > 0
                    &&& job == old(self)@.pending()[0]
                },
                Directive::Wait => old(self)@.pending().len() == 0 && old(self)@.channel.open,
                Directive::Exit => old(self)@.pending().len() == 0 && !old(self)@.channel.open,
            },
    {
        proof {
            crate::laws::steps::lemma_dispatch_inv(self@, id as int);
        }
        match self.channel.try_recv() {
            Ok(job) => {
                let w = self.workers[id].advance(WorkerStatus::Busy);
                self.workers.set(id, w);
                proof {
                    let ticket = self.assigned@.len() as int;
                    self.assigned@ = self.assigned@.push(id as int);
                    self.holding@ = self.holding@.update(id as int, ticket);
                    assert(self@.workers =~= old(self)@.deliver(id as int).workers);
                }
                Directive::Run(job)
            },
            Err(TryRecvError::Empty) => {
                assert(self@.workers =~= old(self)@.workers);
                Directive::Wait
            },
            Err(TryRecvError::Disconnected) => {
                let w = self.workers[id].advance(WorkerStatus::Exited);
                self.workers.set(id, w);
                assert(self@.workers =~= old(self)@.retire(id as int).workers);
                Directive::Exit
            },
        }
    }

    /// Worker `id` reports that the job it was handed ran to completion.
    /// The worker is idle again.
    pub fn complete(&mut self, id: usize)
        requires
            old(self).wf(),
            old(self)@.worker_is(id as int, WorkerStatus::Busy),
        ensures
            final(self).wf(),
            final(self)@ == old(self)@.complete(id as int),
    {
        proof {
            crate::laws::steps::lemma_complete_inv(self@, id as int);
        }
        let w = self.workers[id].advance(WorkerStatus::Idle);
        self.workers.set(id, w);
        proof {
            self.completed@ = self.completed@.push(self.holding@[id as int]);
            assert(self@.workers =~= old(self)@.complete(id as int).workers);
        }
    }

    /// Closes the channel: from now on no job is accepted. Jobs that are
    /// waiting are still handed out; workers leave once none is left.
    /// Closing a closed pool changes nothing.
    pub fn close(&mut self)
        requires
            old(self).wf(),
        ensures
            final(self).wf(),
            final(self)@ == old(self)@.close(),
            final(self)@.state() != PoolState::Running,
    {
        proof {
            crate::laws::steps::lemma_close_inv(self@);
        }
        self.channel.close();
        assert(self@.workers =~= old(self)@.workers);
    }

    /// The worker that teardown has to collect next: the one with the
    /// lowest index among those not yet collected. `None` while the pool is
    /// running and once every worker has been collected.
    pub fn next_join(&self) -> (r: Option<usize>)
        requires
            self.wf(),
        ensures
            match r {
                Some(id) => self@.joins_next(id as int),
                None => self@.state() != PoolState::ShuttingDown,
            },
    {
        if self.channel.is_open() {
            return None;
        }
        let mut id: usize = 0;
        while id < self.workers.len()
            invariant
                id <= self.workers@.len(),
                !self@.channel.open,
                forall|j: int| 0 <= j < id ==> self@.workers[j] == WorkerStatus::Joined,
            decreases self.workers@.len() - id,
        {
            match self.workers[id].status {
                WorkerStatus::Joined => {},
                _ => {
                    assert(self@.workers[id as int] != WorkerStatus::Joined);
                    return Some(id);
                },
            }
            id = id + 1;
        }
        assert(self@.all_joined());
        None
    }

    /// Records that worker `id`, which has left its loop, was collected.
    /// Workers are collected in index order, each exactly once.
    pub fn join(&mut self, id: usize)
        requires
            old(self).wf(),
            old(self)@.joins_next(id as int),
            old(self)@.worker_is(id as int, WorkerStatus::Exited),
        ensures
            final(self).wf(),
            final(self)@ == old(self)@.join(id as int),
    {
        proof {
            crate::laws::steps::lemma_join_inv(self@, id as int);
        }
        let w = self.workers[id].advance(WorkerStatus::Joined);
        self.workers.set(id, w);
        assert(self@.workers =~= old(self)@.join(id as int).workers);
    }
}

} // verus!
