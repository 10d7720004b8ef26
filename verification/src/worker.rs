use vstd::prelude::*;

verus! {

/// Where a worker stands in its life cycle.
#[derive(Debug, Clone, Copy, PartialEq, Eq, Structural)]
pub enum WorkerStatus {
    /// Waiting for the next job.
    Idle,
    /// Running a job it was handed.
    Busy,
    /// Left its loop after the channel closed and drained.
    Exited,
    /// Collected by the pool during teardown.
    Joined,
}

impl WorkerStatus {
    /// Whether a worker with this status can take `next` as its next
    /// status: it alternates between idle and busy, leaves only while idle,
    /// and is collected only after it has left. A collected worker stays so.
    pub open spec fn precedes(self, next: WorkerStatus) -> bool {
        match (self, next) {
            (WorkerStatus::Idle, WorkerStatus::Busy) => true,
            (WorkerStatus::Busy, WorkerStatus::Idle) => true,
            (WorkerStatus::Idle, WorkerStatus::Exited) => true,
            (WorkerStatus::Exited, WorkerStatus::Joined) => true,
            _ => false,
        }
    }
}

/// One slot of the pool: a worker's index and its current status.
#[derive(Debug, Clone, Copy)]
pub struct Worker {
    pub id: usize,
    pub status: WorkerStatus,
}

impl Worker {
    /// A worker that waits for its first job.
    pub fn new(id: usize) -> (w: Worker)
        ensures
            w.id == id,
            w.status == WorkerStatus::Idle,
    {
        Worker { id, status: WorkerStatus::Idle }
    }

    /// The same worker one step further in its life cycle.
    pub fn advance(self, next: WorkerStatus) -> (w: Worker)
        requires
            self.status.precedes(next),
        ensures
            w.id == self.id,
            w.status == next,
    {
        Worker { id: self.id, status: next }
    }
}

} // verus!
