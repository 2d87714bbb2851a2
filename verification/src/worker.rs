//! One worker of the pool: its index, where it stands in its lifecycle, and
//! whether its thread handle has been taken.

use vstd::prelude::*;

verus! {

/// Where a worker stands in its lifecycle.
#[derive(Clone, Copy, Debug, PartialEq, Eq, Structural)]
pub enum WorkerState {
    /// In its loop, awake and holding no task: about to claim one.
    Idle,
    /// In its loop and blocked on the open, empty channel until it is woken.
    Waiting,
    /// In its loop and executing the task with this token, the channel released.
    Busy(u64),
    /// Out of its loop after the channel reported disconnection.
    Terminated,
    /// Out of its loop because the task it was executing faulted; never replaced.
    Crashed,
}

impl WorkerState {
    /// The worker is still in its loop.
    pub open spec fn alive(self) -> bool {
        self is Idle || self is Waiting || self is Busy
    }

    /// The worker has left its loop for good.
    pub open spec fn exited(self) -> bool {
        self is Terminated || self is Crashed
    }

    /// Whether the worker is still in its loop.
    pub fn is_alive(&self) -> (r: bool)
        ensures
            r == self.alive(),
    {
        match self {
            WorkerState::Idle => true,
            WorkerState::Waiting => true,
            WorkerState::Busy(_) => true,
            WorkerState::Terminated => false,
            WorkerState::Crashed => false,
        }
    }

    /// Whether the worker has left its loop.
    pub fn has_exited(&self) -> (r: bool)
        ensures
            r == self.exited(),
    {
        !self.is_alive()
    }
}

/// A worker: an index into the pool, a lifecycle state, and the mark that
/// says whether its thread handle was taken for joining.
#[derive(Clone, Copy, Debug, PartialEq, Eq, Structural)]
pub struct Worker {
    pub id: usize,
    pub state: WorkerState,
    pub joined: bool,
}

impl Worker {
    /// A worker that has just entered its loop.
    pub fn new(id: usize) -> (w: Worker)
        ensures
            w == (Worker { id, state: WorkerState::Idle, joined: false }),
    {
        Worker { id, state: WorkerState::Idle, joined: false }
    }

    /// The same worker in another lifecycle state.
    pub open spec fn with_state(self, state: WorkerState) -> Worker {
        Worker { id: self.id, state, joined: self.joined }
    }

    /// Moves the worker to another lifecycle state.
    pub fn in_state(self, state: WorkerState) -> (w: Worker)
        ensures
            w == self.with_state(state),
    {
        Worker { id: self.id, state, joined: self.joined }
    }

    /// Takes the worker's handle.
    pub fn handle_taken(self) -> (w: Worker)
        ensures
            w == self.with_handle_taken(),
    {
        Worker { id: self.id, state: self.state, joined: true }
    }

    /// The same worker once it is woken: idle if it was waiting, else as it was.
    pub open spec fn woken(self) -> Worker {
        if self.state is Waiting {
            self.with_state(WorkerState::Idle)
        } else {
            self
        }
    }

    /// The same worker with its handle taken.
    pub open spec fn with_handle_taken(self) -> Worker {
        Worker { id: self.id, state: self.state, joined: true }
    }
}

} // verus!
