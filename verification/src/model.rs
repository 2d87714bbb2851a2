//! The mathematical model of a pool: what its contracts speak of.

use vstd::prelude::*;
use crate::error::PoolError;
use crate::worker::Worker;
use crate::worker::WorkerState;

verus! {

/// What has become of one submitted task.
pub ghost enum Stage {
    /// Still in the channel.
    Queued,
    /// Claimed by the worker with this index, which is executing it.
    Running(int),
    /// Executed to its end.
    Done,
    /// Executed until it faulted, taking its worker with it.
    Faulted,
}

/// One transition of the pool.
pub ghost enum Event {
    /// The task with this token is submitted, and the worker with this
    /// index, if any, is woken for it.
    Submit(u64, Option<usize>),
    /// The worker with this index tries to claim a task.
    Claim(int),
    /// The worker with this index has executed its task to the end.
    Complete(int),
    /// The task of the worker with this index has faulted.
    Fault(int),
    /// The producing end of the channel is released.
    Close,
    /// The handle of the worker with this index is taken and joined.
    Join(int),
}

/// The four phases of a pool's life.
#[derive(Clone, Copy, Debug, PartialEq, Eq, Structural)]
pub enum Phase {
    /// Accepting submissions.
    Open,
    /// The producing end is released; queued tasks are still delivered.
    Closing,
    /// Closed and empty, and every worker has left its loop.
    Drained,
    /// Closed, and every worker's handle has been taken and joined.
    Joined,
}

impl Phase {
    /// The place of a phase in the order in which a pool goes through them.
    pub open spec fn rank(self) -> nat {
        match self {
            Phase::Open => 0,
            Phase::Closing => 1,
            Phase::Drained => 2,
            Phase::Joined => 3,
        }
    }
}

/// What a worker learns when it tries to claim a task.
#[derive(Clone, Copy, Debug, PartialEq, Eq, Structural)]
pub enum Claim {
    /// The task with this token is now the worker's to execute.
    Task(u64),
    /// The channel is open and empty: the worker blocks until it is woken.
    Wait,
    /// The channel is closed and empty: the worker leaves its loop.
    Disconnected,
}

/// What a pool remembers of its tasks without storing it: the part of its
/// model that no compiled code reads.
pub ghost struct History {
    /// Every token ever accepted, in submission order.
    pub submitted: Seq<u64>,
    /// Every token ever claimed, in the order of the claims.
    pub claimed: Seq<u64>,
    /// What has become of each task.
    pub stage: Seq<Stage>,
    /// For a busy worker, the number of the task that it executes.
    pub slot: Seq<int>,
}

/// A pool as a mathematical value.
///
/// Tasks are numbered by the order of their submission; `submitted[k]` is the
/// token of task `k` and `stage[k]` says what has become of it.
pub ghost struct PoolView {
    /// The producing end of the channel is still held.
    pub open: bool,
    /// The tokens in the channel, oldest first.
    pub queue: Seq<u64>,
    /// The workers, by index.
    pub workers: Seq<Worker>,
    /// Every token ever accepted, in submission order.
    pub submitted: Seq<u64>,
    /// Every token ever claimed, in the order of the claims.
    pub claimed: Seq<u64>,
    /// What has become of each task.
    pub stage: Seq<Stage>,
    /// For a busy worker, the number of the task that it executes.
    pub slot: Seq<int>,
}

impl PoolView {
    /// The number of workers.
    pub open spec fn size(self) -> int {
        self.workers.len() as int
    }

    /// `w` is the index of a worker.
    pub open spec fn has_worker(self, w: int) -> bool {
        0 <= w < self.workers.len()
    }

    /// The invariant of a pool.
    pub open spec fn wf(self) -> bool {
        &&& self.workers.len() > 0
        &&& self.slot.len() == self.workers.len()
        &&& self.stage.len() == self.submitted.len()
        &&& self.submitted == self.claimed + self.queue
        &&& forall|w: int| 0 <= w < self.workers.len() ==> (#[trigger] self.workers[w]).id == w
        &&& forall|k: int|
            0 <= k < self.stage.len() ==> ((#[trigger] self.stage[k]) is Queued <==> k
                >= self.claimed.len())
        &&& forall|k: int|
            0 <= k < self.stage.len() ==> (#[trigger] self.stage[k]) is Running ==> {
                let w = self.stage[k]->Running_0;
                &&& 0 <= w < self.workers.len()
                &&& self.workers[w].state == WorkerState::Busy(self.submitted[k])
                &&& self.slot[w] == k
            }
        &&& forall|w: int|
            0 <= w < self.workers.len() ==> (#[trigger] self.workers[w]).state is Busy ==> {
                &&& 0 <= self.slot[w] < self.stage.len()
                &&& self.stage[self.slot[w]] == Stage::Running(w)
            }
        &&& forall|w: int|
            0 <= w < self.workers.len() ==> (#[trigger] self.workers[w]).state is Terminated ==> {
                &&& !self.open
                &&& self.queue.len() == 0
            }
        &&& forall|w: int|
            0 <= w < self.workers.len() ==> (#[trigger] self.workers[w]).joined ==> {
                &&& !self.open
                &&& self.workers[w].state.exited()
            }
        &&& forall|w: int|
            0 <= w < self.workers.len() ==> (#[trigger] self.workers[w]).state is Waiting ==> {
                &&& self.open
                &&& idle_count(self.workers) >= self.queue.len()
            }
    }

    /// No worker is blocked on the channel.
    pub open spec fn none_waiting(self) -> bool {
        forall|w: int| 0 <= w < self.workers.len() ==> !((#[trigger] self.workers[w]).state is Waiting)
    }

    /// Worker `w` is blocked on the channel, and no worker before it is.
    pub open spec fn first_waiting(self, w: int) -> bool {
        &&& 0 <= w < self.workers.len()
        &&& self.workers[w].state is Waiting
        &&& forall|u: int| 0 <= u < w ==> !((#[trigger] self.workers[u]).state is Waiting)
    }

    /// `wake` is what a submission wakes: the first of the blocked workers,
    /// or none where no worker is blocked.
    pub open spec fn wakes(self, wake: Option<usize>) -> bool {
        match wake {
            Some(w) => self.first_waiting(w as int),
            None => self.none_waiting(),
        }
    }

    /// A fresh pool of `n` idle workers.
    pub open spec fn fresh(n: int) -> PoolView {
        PoolView {
            open: true,
            queue: Seq::empty(),
            workers: Seq::new(
                n as nat,
                |i: int| Worker { id: i as usize, state: WorkerState::Idle, joined: false },
            ),
            submitted: Seq::empty(),
            claimed: Seq::empty(),
            stage: Seq::empty(),
            slot: Seq::new(n as nat, |i: int| 0int),
        }
    }

    /// The pool after it has accepted the token `task` and woken `wake`.
    pub open spec fn submit(self, task: u64, wake: Option<usize>) -> PoolView {
        PoolView {
            queue: self.queue.push(task),
            workers: match wake {
                Some(w) => self.workers.update(w as int, self.workers[w as int].woken()),
                None => self.workers,
            },
            submitted: self.submitted.push(task),
            stage: self.stage.push(Stage::Queued),
            ..self
        }
    }

    /// What worker `w` learns when it tries to claim a task.
    pub open spec fn claim_result(self, w: int) -> Claim {
        if self.queue.len() > 0 {
            Claim::Task(self.queue[0])
        } else if self.open {
            Claim::Wait
        } else {
            Claim::Disconnected
        }
    }

    /// The pool after worker `w` has tried to claim a task.
    pub open spec fn claim(self, w: int) -> PoolView {
        if self.queue.len() > 0 {
            PoolView {
                queue: self.queue.drop_first(),
                workers: self.workers.update(
                    w,
                    self.workers[w].with_state(WorkerState::Busy(self.queue[0])),
                ),
                claimed: self.claimed.push(self.queue[0]),
                stage: self.stage.update(self.claimed.len() as int, Stage::Running(w)),
                slot: self.slot.update(w, self.claimed.len() as int),
                ..self
            }
        } else if self.open {
            PoolView {
                workers: self.workers.update(w, self.workers[w].with_state(WorkerState::Waiting)),
                ..self
            }
        } else {
            PoolView {
                workers: self.workers.update(w, self.workers[w].with_state(WorkerState::Terminated)),
                ..self
            }
        }
    }

    /// The pool after worker `w` has executed its task to the end.
    pub open spec fn complete(self, w: int) -> PoolView {
        PoolView {
            workers: self.workers.update(w, self.workers[w].with_state(WorkerState::Idle)),
            stage: self.stage.update(self.slot[w], Stage::Done),
            ..self
        }
    }

    /// The pool after the task of worker `w` has faulted.
    pub open spec fn fault(self, w: int) -> PoolView {
        PoolView {
            workers: self.workers.update(w, self.workers[w].with_state(WorkerState::Crashed)),
            stage: self.stage.update(self.slot[w], Stage::Faulted),
            ..self
        }
    }

    /// The pool after the producing end of the channel was released: every
    /// blocked worker is woken to observe it.
    pub open spec fn close(self) -> PoolView {
        PoolView {
            open: false,
            workers: Seq::new(self.workers.len(), |w: int| self.workers[w].woken()),
            ..self
        }
    }

    /// The pool after the handle of worker `w` was taken and joined.
    pub open spec fn join(self, w: int) -> PoolView {
        PoolView { workers: self.workers.update(w, self.workers[w].with_handle_taken()), ..self }
    }

    /// What the join of worker `w` reports.
    pub open spec fn join_result(self, w: int) -> Result<(), PoolError> {
        if !self.workers[w].joined && self.workers[w].state is Crashed {
            Err(PoolError::JoinFault(w as usize))
        } else {
            Ok(())
        }
    }

    /// The transition `e` can be taken.
    pub open spec fn enabled(self, e: Event) -> bool {
        match e {
            Event::Submit(_, wake) => self.open && self.wakes(wake),
            Event::Claim(w) => self.has_worker(w) && self.workers[w].state is Idle,
            Event::Complete(w) => self.has_worker(w) && self.workers[w].state is Busy,
            Event::Fault(w) => self.has_worker(w) && self.workers[w].state is Busy,
            Event::Close => true,
            Event::Join(w) => self.has_worker(w) && !self.open && self.workers[w].state.exited(),
        }
    }

    /// The pool after the transition `e`.
    pub open spec fn apply(self, e: Event) -> PoolView {
        match e {
            Event::Submit(task, wake) => self.submit(task, wake),
            Event::Claim(w) => self.claim(w),
            Event::Complete(w) => self.complete(w),
            Event::Fault(w) => self.fault(w),
            Event::Close => self.close(),
            Event::Join(w) => self.join(w),
        }
    }

    /// Each transition of `es` can be taken in its turn, starting here.
    pub open spec fn can_run(self, es: Seq<Event>) -> bool
        decreases es.len(),
    {
        es.len() == 0 || (self.enabled(es[0]) && self.apply(es[0]).can_run(es.drop_first()))
    }

    /// The pool after the transitions `es`, taken in their order.
    pub open spec fn run(self, es: Seq<Event>) -> PoolView
        decreases es.len(),
    {
        if es.len() == 0 {
            self
        } else {
            self.apply(es[0]).run(es.drop_first())
        }
    }

    /// Every worker has left its loop.
    pub open spec fn all_exited(self) -> bool {
        forall|w: int| 0 <= w < self.workers.len() ==> (#[trigger] self.workers[w]).state.exited()
    }

    /// Every worker's handle has been taken.
    pub open spec fn all_joined(self) -> bool {
        forall|w: int| 0 <= w < self.workers.len() ==> (#[trigger] self.workers[w]).joined
    }

    /// The phase that the pool is in.
    pub open spec fn phase(self) -> Phase {
        if self.open {
            Phase::Open
        } else if self.all_joined() {
            Phase::Joined
        } else if self.queue.len() == 0 && self.all_exited() {
            Phase::Drained
        } else {
            Phase::Closing
        }
    }

    /// Task `k` has been executed, to its end or to its fault.
    pub open spec fn finished(self, k: int) -> bool {
        self.stage[k] is Done || self.stage[k] is Faulted
    }

    /// The tasks that are being executed.
    pub open spec fn running(self) -> Set<int> {
        Set::new(|k: int| 0 <= k < self.stage.len() && self.stage[k] is Running)
    }

    /// For a task that is being executed, the index of the worker that holds it.
    pub open spec fn holder(self, k: int) -> int {
        self.stage[k]->Running_0
    }

    /// The workers that are executing a task.
    pub open spec fn busy(self) -> Set<int> {
        busy_set(self.workers)
    }

    /// The number of workers that are still in their loops.
    pub open spec fn capacity(self) -> nat {
        alive_count(self.workers)
    }

    /// A bound on the transitions that a closed pool still has to take before
    /// every handle is joined: two for each queued task, and for each worker
    /// what `steps_left` says.
    pub open spec fn shutdown_steps_left(self) -> nat {
        2 * self.queue.len() + total_steps_left(self.workers)
    }
}

/// How many of the workers `ws` are still in their loops.
pub open spec fn alive_count(ws: Seq<Worker>) -> nat
    decreases ws.len(),
{
    if ws.len() == 0 {
        0
    } else {
        alive_count(ws.drop_last()) + if ws.last().state.alive() {
            1nat
        } else {
            0nat
        }
    }
}

/// How many of the workers `ws` are awake and about to claim a task.
pub open spec fn idle_count(ws: Seq<Worker>) -> nat
    decreases ws.len(),
{
    if ws.len() == 0 {
        0
    } else {
        idle_count(ws.drop_last()) + if ws.last().state is Idle {
            1nat
        } else {
            0nat
        }
    }
}

/// The indices of those of the workers `ws` that are executing a task.
pub open spec fn busy_set(ws: Seq<Worker>) -> Set<int> {
    Set::new(|w: int| 0 <= w < ws.len() && ws[w].state is Busy)
}

/// The transitions that a worker has before it when the channel is closed
/// and empty: to finish its task, to observe the disconnection, to be joined.
pub open spec fn steps_left(w: Worker) -> nat {
    if w.joined {
        0
    } else {
        match w.state {
            WorkerState::Busy(_) => 3,
            WorkerState::Idle => 2,
            WorkerState::Waiting => 2,
            WorkerState::Terminated => 1,
            WorkerState::Crashed => 1,
        }
    }
}

/// The sum of `steps_left` over the workers `ws`.
pub open spec fn total_steps_left(ws: Seq<Worker>) -> nat
    decreases ws.len(),
{
    if ws.len() == 0 {
        0
    } else {
        total_steps_left(ws.drop_last()) + steps_left(ws.last())
    }
}

/// How many of the workers `ws` are executing a task.
pub open spec fn busy_count(ws: Seq<Worker>) -> nat
    decreases ws.len(),
{
    if ws.len() == 0 {
        0
    } else {
        busy_count(ws.drop_last()) + if ws.last().state is Busy {
            1nat
        } else {
            0nat
        }
    }
}

} // verus!
