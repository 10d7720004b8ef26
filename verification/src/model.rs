use crate::channel::ChannelView;
use crate::worker::WorkerStatus;
use vstd::prelude::*;

verus! {

/// The phase of a pool's life.
#[derive(Debug, Clone, Copy, PartialEq, Eq, Structural)]
pub enum PoolState {
    /// Jobs are accepted.
    Running,
    /// The channel is closed; workers drain what is left and are collected.
    ShuttingDown,
    /// Every worker has been collected.
    Terminated,
}

/// Mathematical content of a pool.
///
/// Jobs are numbered by the order in which they were accepted; the number
/// of a job is its *ticket*. Because the channel is first-in first-out, the
/// ticket of a job is also its position in the order of delivery.
pub struct PoolView<J> {
    /// Status of each worker, by index.
    pub workers: Seq<WorkerStatus>,
    /// History and state of the job channel.
    pub channel: ChannelView<J>,
    /// For each delivered ticket, the index of the worker that received it.
    pub assigned: Seq<int>,
    /// For each worker, the ticket it received last; it says what a busy
    /// worker is running, and nothing of a worker that is not busy.
    pub holding: Seq<int>,
    /// Tickets of the jobs that ran to completion, in order of completion.
    pub completed: Seq<int>,
}

/// One thing that can happen to a pool.
pub enum Event<J> {
    /// A producer submits a job.
    Submit(J),
    /// The worker with this index asks for work.
    Dispatch(int),
    /// The worker with this index reports its job done.
    Complete(int),
    /// Teardown closes the channel.
    Close,
    /// Teardown collects the worker with this index.
    Join(int),
}

impl<J> PoolView<J> {
    /// A pool of `size` idle workers that has seen no job.
    pub open spec fn fresh(size: nat) -> Self {
        PoolView {
            workers: Seq::new(size, |i: int| WorkerStatus::Idle),
            channel: ChannelView::fresh(),
            assigned: Seq::empty(),
            holding: Seq::new(size, |i: int| 0int),
            completed: Seq::empty(),
        }
    }

    /// Number of workers.
    pub open spec fn size(self) -> nat {
        self.workers.len()
    }

    /// Whether `id` is the index of a worker with the given status.
    pub open spec fn worker_is(self, id: int, status: WorkerStatus) -> bool {
        0 <= id < self.workers.len() && self.workers[id] == status
    }

    /// The jobs accepted but not yet delivered, oldest first.
    pub open spec fn pending(self) -> Seq<J> {
        self.channel.pending()
    }

    /// Whether ticket `t` is with a worker that is running it right now.
    pub open spec fn running(self, t: int) -> bool {
        &&& 0 <= t < self.assigned.len()
        &&& self.worker_is(self.assigned[t], WorkerStatus::Busy)
        &&& self.holding[self.assigned[t]] == t
    }

    /// Whether ticket `t` was accepted and is still waiting in the channel.
    pub open spec fn waiting(self, t: int) -> bool {
        self.assigned.len() <= t < self.channel.sent.len()
    }

    /// Whether the job with ticket `t` ran to completion.
    pub open spec fn done(self, t: int) -> bool {
        self.completed.contains(t)
    }

    /// Whether every worker has been collected.
    pub open spec fn all_joined(self) -> bool {
        forall|i: int| 0 <= i < self.workers.len() ==> self.workers[i] == WorkerStatus::Joined
    }

    /// The phase the pool is in.
    pub open spec fn state(self) -> PoolState {
        if self.channel.open {
            PoolState::Running
        } else if self.all_joined() {
            PoolState::Terminated
        } else {
            PoolState::ShuttingDown
        }
    }

    /// Whether worker `id` is the one teardown collects next: the channel is
    /// closed, every worker before it has been collected, and it has not.
    pub open spec fn joins_next(self, id: int) -> bool {
        &&& !self.channel.open
        &&& 0 <= id < self.workers.len()
        &&& self.workers[id] != WorkerStatus::Joined
        &&& forall|j: int| 0 <= j < id ==> self.workers[j] == WorkerStatus::Joined
    }

    /// What holds of every pool at every moment.
    pub open spec fn inv(self) -> bool {
        // There is at least one worker, and a ticket slot for each.
        &&& self.workers.len() >= 1
        &&& self.holding.len() == self.workers.len()
        // Each job that left the channel was assigned to one worker.
        &&& self.channel.inv()
        &&& self.assigned.len() == self.channel.received
        &&& forall|t: int|
            0 <= t < self.assigned.len() ==> 0 <= #[trigger] self.assigned[t] < self.workers.len()
        // Only delivered jobs complete, and none completes twice.
        &&& self.completed.no_duplicates()
        &&& forall|k: int|
            0 <= k < self.completed.len() ==> 0 <= #[trigger] self.completed[k]
                < self.assigned.len()
        // A busy worker runs a job that was assigned to it.
        &&& forall|i: int|
            0 <= i < self.workers.len() && #[trigger] self.workers[i] == WorkerStatus::Busy ==> 0
                <= self.holding[i] < self.assigned.len() && self.assigned[self.holding[i]] == i
        // A delivered job is running or completed, never both.
        &&& forall|t: int|
            0 <= t < self.assigned.len() ==> (#[trigger] self.running(t)
                <==> !self.completed.contains(t))
        // A worker leaves only once the channel is closed and drained.
        &&& forall|i: int|
            0 <= i < self.workers.len() && (#[trigger] self.workers[i] == WorkerStatus::Exited
                || self.workers[i] == WorkerStatus::Joined) ==> !self.channel.open
                && self.channel.received == self.channel.sent.len()
        // Workers are collected in index order.
        &&& forall|i: int, j: int|
            0 <= i < j < self.workers.len() && #[trigger] self.workers[j] == WorkerStatus::Joined
                ==> #[trigger] self.workers[i] == WorkerStatus::Joined
    }

    /// The pool after accepting `job`.
    pub open spec fn submit(self, job: J) -> Self {
        PoolView { channel: self.channel.send(job), ..self }
    }

    /// The pool after handing its oldest waiting job to worker `id`.
    pub open spec fn deliver(self, id: int) -> Self {
        PoolView {
            workers: self.workers.update(id, WorkerStatus::Busy),
            channel: self.channel.take(),
            assigned: self.assigned.push(id),
            holding: self.holding.update(id, self.assigned.len() as int),
            completed: self.completed,
        }
    }

    /// The pool after worker `id` left its loop.
    pub open spec fn retire(self, id: int) -> Self {
        PoolView { workers: self.workers.update(id, WorkerStatus::Exited), ..self }
    }

    /// The pool after worker `id` asked for work: the oldest waiting job if
    /// there is one, nothing while the channel is open and empty, and the
    /// worker's exit once the channel is closed and drained.
    pub open spec fn dispatch(self, id: int) -> Self {
        if self.pending().len() > 0 {
            self.deliver(id)
        } else if self.channel.open {
            self
        } else {
            self.retire(id)
        }
    }

    /// The pool after worker `id` finished the job it was running.
    pub open spec fn complete(self, id: int) -> Self {
        PoolView {
            workers: self.workers.update(id, WorkerStatus::Idle),
            completed: self.completed.push(self.holding[id]),
            ..self
        }
    }

    /// The pool after its channel was closed.
    pub open spec fn close(self) -> Self {
        PoolView { channel: self.channel.close(), ..self }
    }

    /// The pool after worker `id` was collected.
    pub open spec fn join(self, id: int) -> Self {
        PoolView { workers: self.workers.update(id, WorkerStatus::Joined), ..self }
    }

    /// Number of events that separate a closed pool from the end of its
    /// teardown: each waiting job is handed out and completed, and each
    /// worker goes the rest of its way.
    pub open spec fn remaining(self) -> nat {
        2 * self.pending().len() + load(self.workers)
    }

    /// Whether `event` may happen in this state: jobs are submitted only to
    /// an open pool, only an idle worker asks for work, only a busy one
    /// reports a job done, and workers are collected in index order after
    /// they have left.
    pub open spec fn enabled(self, event: Event<J>) -> bool {
        match event {
            Event::Submit(_) => self.channel.open,
            Event::Dispatch(id) => self.worker_is(id, WorkerStatus::Idle),
            Event::Complete(id) => self.worker_is(id, WorkerStatus::Busy),
            Event::Close => true,
            Event::Join(id) => self.joins_next(id) && self.worker_is(id, WorkerStatus::Exited),
        }
    }

    /// The pool after `event`.
    pub open spec fn step(self, event: Event<J>) -> Self {
        match event {
            Event::Submit(job) => self.submit(job),
            Event::Dispatch(id) => self.dispatch(id),
            Event::Complete(id) => self.complete(id),
            Event::Close => self.close(),
            Event::Join(id) => self.join(id),
        }
    }

    /// The pool after all of `events`, in order.
    pub open spec fn run(self, events: Seq<Event<J>>) -> Self
        decreases events.len(),
    {
        if events.len() == 0 {
            self
        } else {
            self.run(events.drop_last()).step(events.last())
        }
    }

    /// Whether each of `events` may happen at its turn.
    pub open spec fn admits(self, events: Seq<Event<J>>) -> bool
        decreases events.len(),
    {
        events.len() == 0 || (self.admits(events.drop_last()) && self.run(
            events.drop_last(),
        ).enabled(events.last()))
    }
}

/// Number of events a worker with this status still takes part in before
/// teardown is through with it: an idle worker leaves and is collected, a
/// busy one reports its job done first, one that has left is collected.
pub open spec fn weight(status: WorkerStatus) -> nat {
    match status {
        WorkerStatus::Busy => 3,
        WorkerStatus::Idle => 2,
        WorkerStatus::Exited => 1,
        WorkerStatus::Joined => 0,
    }
}

/// Sum of the weights of `workers`.
pub open spec fn load(workers: Seq<WorkerStatus>) -> nat
    decreases workers.len(),
{
    if workers.len() == 0 {
        0
    } else {
        load(workers.drop_last()) + weight(workers.last())
    }
}

/// The jobs that `events` submit, in order.
pub open spec fn submitted<J>(events: Seq<Event<J>>) -> Seq<J>
    decreases events.len(),
{
    if events.len() == 0 {
        Seq::empty()
    } else {
        match events.last() {
            Event::Submit(job) => submitted(events.drop_last()).push(job),
            _ => submitted(events.drop_last()),
        }
    }
}

} // verus!
