use crate::job::QueuedJob;
use vstd::prelude::*;

verus! {

/// Where a worker stands in its loop.
///
/// `Waiting`: about to block on the shared receive point. `Holding`: has
/// the dequeue lock and is removing a job — at most one worker may be here
/// at a time. `Running`: executing a dequeued job (the lock is released).
/// `Exited`: the loop returned, either because the sending side was closed
/// and the queue drained, or because a faulty job killed the thread; there
/// is no restart transition.
#[derive(Clone, Copy, PartialEq, Eq, Structural, Debug)]
pub enum Phase {
    Waiting,
    Holding,
    Running(QueuedJob),
    Exited,
}

/// One worker: an ordinal identity bound to one thread of the pool.
#[derive(Clone, Copy, PartialEq, Eq, Structural, Debug)]
pub struct Worker {
    pub id: usize,
    pub phase: Phase,
}

impl Worker {
    /// A freshly spawned worker: parked at the receive point.
    pub fn new(id: usize) -> (w: Worker)
        ensures
            w.id == id,
            w.phase == Phase::Waiting,
    {
        Worker { id, phase: Phase::Waiting }
    }

    /// A worker is live until its loop has returned.
    pub open spec fn is_live(self) -> bool {
        !(self.phase is Exited)
    }

    /// Whether this worker's loop has returned and its thread is joinable.
    pub fn exited(&self) -> (r: bool)
        ensures
            r == (self.phase is Exited),
    {
        match self.phase {
            Phase::Exited => true,
            _ => false,
        }
    }
}

} // verus!
