//! The pool: the producing end of the channel, the channel's contents and
//! the workers, with one operation for each transition of the machine.

use std::collections::VecDeque;
use vstd::prelude::*;
use crate::error::PoolError;
use crate::laws::lemma_step_keeps_invariant;
use crate::model::alive_count;
use crate::model::busy_count;
use crate::model::Claim;
use crate::model::Event;
use crate::model::History;
use crate::model::Phase;
use crate::model::PoolView;
use crate::model::Stage;
use crate::worker::Worker;
use crate::worker::WorkerState;

verus! {

/// A fixed-size pool of workers fed by one FIFO channel of task tokens.
///
/// A token stands for a task that the caller keeps; the pool decides who
/// executes it and when, and the caller reports back how the execution ended.
pub struct ThreadPool {
    workers: Vec<Worker>,
    queue: VecDeque<u64>,
    open: bool,
    log: Ghost<History>,
}

impl View for ThreadPool {
    type V = PoolView;

    closed spec fn view(&self) -> PoolView {
        PoolView {
            open: self.open,
            queue: self.queue@,
            workers: self.workers@,
            submitted: self.log@.submitted,
            claimed: self.log@.claimed,
            stage: self.log@.stage,
            slot: self.log@.slot,
        }
    }
}

impl ThreadPool {
    /// The invariant that every operation keeps.
    pub open spec fn wf(&self) -> bool {
        self@.wf()
    }

    /// A pool of `size` workers, all of them idle, with an open and empty channel.
    pub fn new(size: usize) -> (pool: ThreadPool)
        requires
            size > 0,
        ensures
            pool.wf(),
            pool@ == PoolView::fresh(size as int),
    {
        let mut workers: Vec<Worker> = Vec::with_capacity(size);
        let mut id: usize = 0;
        while id < size
            invariant
                id <= size,
                workers@.len() == id,
                forall|i: int|
                    0 <= i < id ==> #[trigger] workers@[i] == (Worker {
                        id: i as usize,
                        state: WorkerState::Idle,
                        joined: false,
                    }),
            decreases size - id,
        {
            workers.push(Worker::new(id));
            id += 1;
        }
        let pool = ThreadPool {
            workers,
            queue: VecDeque::new(),
            open: true,
            log: Ghost(
                History {
                    submitted: Seq::empty(),
                    claimed: Seq::empty(),
                    stage: Seq::empty(),
                    slot: Seq::new(size as nat, |i: int| 0int),
                },
            ),
        };
        proof {
            assert(pool@.workers =~= PoolView::fresh(size as int).workers);
            assert(pool@.queue =~= PoolView::fresh(size as int).queue);
            assert(pool@.submitted =~= pool@.claimed + pool@.queue);
        }
        pool
    }

    /// A pool of `size` workers, or the refusal of a pool without workers.
    pub fn try_new(size: usize) -> (r: Result<ThreadPool, PoolError>)
        ensures
            size == 0 <==> r == Err::<ThreadPool, PoolError>(PoolError::ZeroSize),
            size > 0 <==> r is Ok,
            r is Ok ==> r->Ok_0.wf() && r->Ok_0@ == PoolView::fresh(size as int),
    {
        if size == 0 {
            Err(PoolError::ZeroSize)
        } else {
            Ok(ThreadPool::new(size))
        }
    }

    /// Submits the task that `task` stands for.
    ///
    /// An open pool appends the token to the channel and wakes the first of
    /// the workers that are blocked on it, if there is one: the result names
    /// that worker. A pool whose producing end was released reports
    /// `PoolClosed` and stays as it was.
    pub fn execute(&mut self, task: u64) -> (r: Result<Option<usize>, PoolError>)
        requires
            old(self).wf(),
        ensures
            final(self).wf(),
            old(self)@.open ==> r is Ok && old(self)@.wakes(r->Ok_0) && final(self)@ == old(
                self,
            )@.submit(task, r->Ok_0),
            !old(self)@.open ==> r == Err::<Option<usize>, PoolError>(PoolError::PoolClosed)
                && final(self)@ == old(self)@,
    {
        if !self.open {
            return Err(PoolError::PoolClosed);
        }
        let wake = self.next_wake();
        match wake {
            Some(w) => {
                let x = self.workers[w];
                self.workers[w] = x.in_state(WorkerState::Idle);
            },
            None => {},
        }
        self.queue.push_back(task);
        self.log = Ghost(
            History {
                submitted: self.log@.submitted.push(task),
                stage: self.log@.stage.push(Stage::Queued),
                ..self.log@
            },
        );
        proof {
            lemma_step_keeps_invariant(old(self)@, Event::Submit(task, wake));
            assert(self@ =~= old(self)@.submit(task, wake));
        }
        Ok(wake)
    }

    /// The worker that the next submission wakes: the first of those that
    /// are blocked on the channel, or none where no worker is blocked.
    pub fn next_wake(&self) -> (r: Option<usize>)
        ensures
            self@.wakes(r),
    {
        let mut i: usize = 0;
        while i < self.workers.len()
            invariant
                i <= self.workers.len(),
                forall|u: int| 0 <= u < i ==> !((#[trigger] self.workers@[u]).state is Waiting),
            decreases self.workers.len() - i,
        {
            match self.workers[i].state {
                WorkerState::Waiting => {
                    return Some(i);
                },
                _ => {},
            }
            i += 1;
        }
        None
    }

    /// Worker `worker`, idle, tries to claim the next task.
    ///
    /// The oldest token in the channel, if there is one, becomes the worker's.
    /// With an empty channel the worker blocks while the pool is open, and
    /// leaves its loop once the pool is closed.
    pub fn claim(&mut self, worker: usize) -> (r: Claim)
        requires
            old(self).wf(),
            worker < old(self)@.workers.len(),
            old(self)@.workers[worker as int].state is Idle,
        ensures
            final(self).wf(),
            r == old(self)@.claim_result(worker as int),
            final(self)@ == old(self)@.claim(worker as int),
    {
        let w = self.workers[worker];
        match self.queue.pop_front() {
            Some(task) => {
                self.workers[worker] = w.in_state(WorkerState::Busy(task));
                self.log = Ghost(
                    History {
                        claimed: self.log@.claimed.push(task),
                        stage: self.log@.stage.update(
                            self.log@.claimed.len() as int,
                            Stage::Running(worker as int),
                        ),
                        slot: self.log@.slot.update(worker as int, self.log@.claimed.len() as int),
                        ..self.log@
                    },
                );
                proof {
                    lemma_step_keeps_invariant(old(self)@, Event::Claim(worker as int));
                    assert(self@.queue =~= old(self)@.queue.drop_first());
                    assert(self@ =~= old(self)@.claim(worker as int));
                }
                Claim::Task(task)
            },
            None => {
                proof {
                    lemma_step_keeps_invariant(old(self)@, Event::Claim(worker as int));
                }
                if self.open {
                    self.workers[worker] = w.in_state(WorkerState::Waiting);
                    Claim::Wait
                } else {
                    self.workers[worker] = w.in_state(WorkerState::Terminated);
                    Claim::Disconnected
                }
            },
        }
    }

    /// Worker `worker`, busy, has executed its task to the end and is idle again.
    pub fn complete(&mut self, worker: usize)
        requires
            old(self).wf(),
            worker < old(self)@.workers.len(),
            old(self)@.workers[worker as int].state is Busy,
        ensures
            final(self).wf(),
            final(self)@ == old(self)@.complete(worker as int),
    {
        let w = self.workers[worker];
        self.workers[worker] = w.in_state(WorkerState::Idle);
        self.log = Ghost(
            History {
                stage: self.log@.stage.update(self.log@.slot[worker as int], Stage::Done),
                ..self.log@
            },
        );
        proof {
            lemma_step_keeps_invariant(old(self)@, Event::Complete(worker as int));
        }
    }

    /// The task of worker `worker`, busy, has faulted: the worker is lost.
    pub fn fault(&mut self, worker: usize)
        requires
            old(self).wf(),
            worker < old(self)@.workers.len(),
            old(self)@.workers[worker as int].state is Busy,
        ensures
            final(self).wf(),
            final(self)@ == old(self)@.fault(worker as int),
    {
        let w = self.workers[worker];
        self.workers[worker] = w.in_state(WorkerState::Crashed);
        self.log = Ghost(
            History {
                stage: self.log@.stage.update(self.log@.slot[worker as int], Stage::Faulted),
                ..self.log@
            },
        );
        proof {
            lemma_step_keeps_invariant(old(self)@, Event::Fault(worker as int));
        }
    }

    /// Releases the producing end of the channel: shutdown begins. Every
    /// worker that is blocked on the channel is woken to observe it.
    pub fn close(&mut self)
        requires
            old(self).wf(),
        ensures
            final(self).wf(),
            final(self)@ == old(self)@.close(),
    {
        let mut i: usize = 0;
        while i < self.workers.len()
            invariant
                i <= self.workers.len(),
                self.workers.len() == old(self).workers.len(),
                self.queue == old(self).queue,
                self.open == old(self).open,
                self.log == old(self).log,
                forall|u: int|
                    0 <= u < i ==> #[trigger] self.workers@[u] == old(self).workers@[u].woken(),
                forall|u: int|
                    i <= u < self.workers.len() ==> #[trigger] self.workers@[u] == old(
                        self,
                    ).workers@[u],
            decreases self.workers.len() - i,
        {
            let x = self.workers[i];
            match x.state {
                WorkerState::Waiting => {
                    self.workers[i] = x.in_state(WorkerState::Idle);
                },
                _ => {},
            }
            i += 1;
        }
        self.open = false;
        proof {
            lemma_step_keeps_invariant(old(self)@, Event::Close);
            assert(self@.workers =~= old(self)@.close().workers);
            assert(self@ =~= old(self)@.close());
        }
    }

    /// Takes the handle of worker `worker`, which has left its loop, and joins it.
    ///
    /// A handle is taken once: a second join of the same worker changes and
    /// reports nothing. The first join of a crashed worker reports its fault.
    pub fn join(&mut self, worker: usize) -> (r: Result<(), PoolError>)
        requires
            old(self).wf(),
            !old(self)@.open,
            worker < old(self)@.workers.len(),
            old(self)@.workers[worker as int].state.exited(),
        ensures
            final(self).wf(),
            final(self)@ == old(self)@.join(worker as int),
            r == old(self)@.join_result(worker as int),
    {
        let w = self.workers[worker];
        proof {
            lemma_step_keeps_invariant(old(self)@, Event::Join(worker as int));
        }
        if w.joined {
            proof {
                assert(self@.workers =~= old(self)@.join(worker as int).workers);
            }
            return Ok(());
        }
        self.workers[worker] = w.handle_taken();
        match w.state {
            WorkerState::Crashed => Err(PoolError::JoinFault(worker)),
            _ => Ok(()),
        }
    }

    /// The number of workers, fixed when the pool was made.
    pub fn size(&self) -> (n: usize)
        ensures
            n == self@.workers.len(),
    {
        self.workers.len()
    }

    /// Whether the producing end of the channel is still held.
    pub fn is_open(&self) -> (b: bool)
        ensures
            b == self@.open,
    {
        self.open
    }

    /// The number of tokens waiting in the channel.
    pub fn queue_len(&self) -> (n: usize)
        ensures
            n == self@.queue.len(),
    {
        self.queue.len()
    }

    /// The worker with index `worker`.
    pub fn worker(&self, worker: usize) -> (w: Worker)
        requires
            worker < self@.workers.len(),
        ensures
            w == self@.workers[worker as int],
    {
        self.workers[worker]
    }

    /// The number of workers that are still in their loops.
    pub fn capacity(&self) -> (n: usize)
        ensures
            n == self@.capacity(),
    {
        let mut n: usize = 0;
        let mut i: usize = 0;
        while i < self.workers.len()
            invariant
                i <= self.workers.len(),
                n <= i,
                n == alive_count(self.workers@.take(i as int)),
            decreases self.workers.len() - i,
        {
            proof {
                assert(self.workers@.take(i + 1).drop_last() =~= self.workers@.take(i as int));
            }
            if self.workers[i].state.is_alive() {
                n += 1;
            }
            i += 1;
        }
        proof {
            assert(self.workers@.take(i as int) =~= self.workers@);
        }
        n
    }

    /// The number of workers that are executing a task.
    pub fn running(&self) -> (n: usize)
        ensures
            n == busy_count(self@.workers),
            n <= self@.workers.len(),
    {
        let mut n: usize = 0;
        let mut i: usize = 0;
        while i < self.workers.len()
            invariant
                i <= self.workers.len(),
                n <= i,
                n == busy_count(self.workers@.take(i as int)),
            decreases self.workers.len() - i,
        {
            proof {
                assert(self.workers@.take(i + 1).drop_last() =~= self.workers@.take(i as int));
            }
            match self.workers[i].state {
                WorkerState::Busy(_) => {
                    n += 1;
                },
                _ => {},
            }
            i += 1;
        }
        proof {
            assert(self.workers@.take(i as int) =~= self.workers@);
        }
        n
    }

    /// The worker whose handle shutdown takes next: the one with the lowest
    /// index among those not joined yet, or none when all are joined.
    pub fn next_join(&self) -> (r: Option<usize>)
        ensures
            match r {
                Some(w) => {
                    &&& w < self@.workers.len()
                    &&& !self@.workers[w as int].joined
                    &&& forall|u: int| 0 <= u < w ==> (#[trigger] self@.workers[u]).joined
                },
                None => self@.all_joined(),
            },
    {
        let mut i: usize = 0;
        while i < self.workers.len()
            invariant
                i <= self.workers.len(),
                forall|u: int| 0 <= u < i ==> (#[trigger] self.workers@[u]).joined,
            decreases self.workers.len() - i,
        {
            if !self.workers[i].joined {
                return Some(i);
            }
            i += 1;
        }
        None
    }

    /// Whether every worker has left its loop.
    pub fn all_exited(&self) -> (b: bool)
        ensures
            b == self@.all_exited(),
    {
        let mut i: usize = 0;
        while i < self.workers.len()
            invariant
                i <= self.workers.len(),
                forall|u: int| 0 <= u < i ==> (#[trigger] self.workers@[u]).state.exited(),
            decreases self.workers.len() - i,
        {
            if self.workers[i].state.is_alive() {
                return false;
            }
            i += 1;
        }
        true
    }

    /// The phase that the pool is in.
    pub fn phase(&self) -> (p: Phase)
        ensures
            p == self@.phase(),
    {
        if self.open {
            Phase::Open
        } else if self.next_join().is_none() {
            Phase::Joined
        } else if self.queue.len() == 0 && self.all_exited() {
            Phase::Drained
        } else {
            Phase::Closing
        }
    }
}

} // verus!
