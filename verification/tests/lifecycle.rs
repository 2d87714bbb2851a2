use worker_pool::error::PoolError;
use worker_pool::model::Claim;
use worker_pool::model::Phase;
use worker_pool::pool::ThreadPool;
use worker_pool::worker::Worker;
use worker_pool::worker::WorkerState;

fn closed_and_drained(size: usize) -> ThreadPool {
    let mut pool = ThreadPool::new(size);
    pool.close();
    for w in 0..size {
        assert_eq!(pool.claim(w), Claim::Disconnected);
    }
    pool
}

#[test]
fn new_pool_is_open_and_idle() {
    let pool = ThreadPool::new(4);
    assert_eq!(pool.size(), 4);
    assert!(pool.is_open());
    assert_eq!(pool.queue_len(), 0);
    assert_eq!(pool.capacity(), 4);
    assert_eq!(pool.running(), 0);
    assert_eq!(pool.phase(), Phase::Open);
    for w in 0..4 {
        assert_eq!(pool.worker(w), Worker { id: w, state: WorkerState::Idle, joined: false });
    }
}

#[test]
fn worker_new_is_idle_with_its_handle() {
    let w = Worker::new(5);
    assert_eq!(w.id, 5);
    assert_eq!(w.state, WorkerState::Idle);
    assert!(!w.joined);
}

#[test]
fn worker_moves_between_states_and_gives_up_its_handle() {
    let w = Worker::new(2).in_state(WorkerState::Busy(9));
    assert_eq!(w, Worker { id: 2, state: WorkerState::Busy(9), joined: false });
    let w = w.in_state(WorkerState::Crashed).handle_taken();
    assert_eq!(w, Worker { id: 2, state: WorkerState::Crashed, joined: true });
}

#[test]
fn zero_size_is_refused() {
    let r = ThreadPool::try_new(0);
    assert_eq!(r.err(), Some(PoolError::ZeroSize));
}

#[test]
fn positive_size_is_accepted() {
    let r = ThreadPool::try_new(1);
    assert!(r.is_ok());
    let pool = r.ok().unwrap();
    assert_eq!(pool.size(), 1);
    assert_eq!(pool.phase(), Phase::Open);
}

#[test]
fn submit_appends_to_the_channel() {
    let mut pool = ThreadPool::new(2);
    assert_eq!(pool.execute(10), Ok(None));
    assert_eq!(pool.execute(11), Ok(None));
    assert_eq!(pool.queue_len(), 2);
    assert_eq!(pool.running(), 0);
}

#[test]
fn claim_on_open_empty_channel_waits() {
    let mut pool = ThreadPool::new(2);
    assert_eq!(pool.claim(0), Claim::Wait);
    assert_eq!(pool.worker(0).state, WorkerState::Waiting);
    assert_eq!(pool.worker(1).state, WorkerState::Idle);
    assert_eq!(pool.capacity(), 2);
    assert_eq!(pool.next_wake(), Some(0));
}

#[test]
fn submit_wakes_the_first_waiting_worker_only() {
    let mut pool = ThreadPool::new(3);
    assert_eq!(pool.next_wake(), None);
    assert_eq!(pool.claim(2), Claim::Wait);
    assert_eq!(pool.claim(1), Claim::Wait);
    assert_eq!(pool.next_wake(), Some(1));
    assert_eq!(pool.execute(7), Ok(Some(1)));
    assert_eq!(pool.worker(0).state, WorkerState::Idle);
    assert_eq!(pool.worker(1).state, WorkerState::Idle);
    assert_eq!(pool.worker(2).state, WorkerState::Waiting);
    assert_eq!(pool.execute(8), Ok(Some(2)));
    assert_eq!(pool.worker(2).state, WorkerState::Idle);
    assert_eq!(pool.execute(9), Ok(None));
    assert_eq!(pool.queue_len(), 3);
    assert_eq!(pool.claim(1), Claim::Task(7));
    assert_eq!(pool.claim(2), Claim::Task(8));
    assert_eq!(pool.claim(0), Claim::Task(9));
}

#[test]
fn a_woken_worker_that_lost_the_race_waits_again() {
    let mut pool = ThreadPool::new(2);
    assert_eq!(pool.claim(1), Claim::Wait);
    assert_eq!(pool.execute(5), Ok(Some(1)));
    assert_eq!(pool.claim(0), Claim::Task(5));
    assert_eq!(pool.claim(1), Claim::Wait);
    assert_eq!(pool.worker(1).state, WorkerState::Waiting);
    assert_eq!(pool.running(), 1);
}

#[test]
fn close_wakes_every_waiting_worker() {
    let mut pool = ThreadPool::new(3);
    pool.execute(1).unwrap();
    assert_eq!(pool.claim(0), Claim::Task(1));
    assert_eq!(pool.claim(1), Claim::Wait);
    assert_eq!(pool.claim(2), Claim::Wait);
    pool.close();
    assert_eq!(pool.worker(0).state, WorkerState::Busy(1));
    assert_eq!(pool.worker(1).state, WorkerState::Idle);
    assert_eq!(pool.worker(2).state, WorkerState::Idle);
    assert_eq!(pool.next_wake(), None);
    assert_eq!(pool.capacity(), 3);
    assert_eq!(pool.claim(1), Claim::Disconnected);
    assert_eq!(pool.claim(2), Claim::Disconnected);
    assert_eq!(pool.phase(), Phase::Closing);
}

#[test]
fn claim_on_closed_empty_channel_disconnects() {
    let mut pool = ThreadPool::new(2);
    pool.close();
    assert_eq!(pool.claim(1), Claim::Disconnected);
    assert_eq!(pool.worker(1).state, WorkerState::Terminated);
    assert_eq!(pool.worker(0).state, WorkerState::Idle);
    assert_eq!(pool.capacity(), 1);
}

#[test]
fn claim_moves_the_oldest_token_to_the_worker() {
    let mut pool = ThreadPool::new(2);
    pool.execute(41).unwrap();
    pool.execute(42).unwrap();
    assert_eq!(pool.claim(1), Claim::Task(41));
    assert_eq!(pool.worker(1).state, WorkerState::Busy(41));
    assert_eq!(pool.worker(0).state, WorkerState::Idle);
    assert_eq!(pool.queue_len(), 1);
    assert_eq!(pool.running(), 1);
}

#[test]
fn complete_makes_the_worker_idle_again() {
    let mut pool = ThreadPool::new(1);
    pool.execute(9).unwrap();
    assert_eq!(pool.claim(0), Claim::Task(9));
    pool.complete(0);
    assert_eq!(pool.worker(0).state, WorkerState::Idle);
    assert_eq!(pool.running(), 0);
    assert_eq!(pool.capacity(), 1);
}

#[test]
fn every_task_is_claimed_once_and_never_more_than_size_run() {
    let size = 3;
    let tasks: Vec<u64> = vec![100, 101, 102, 103, 104, 105, 106];
    let mut pool = ThreadPool::new(size);
    for t in &tasks {
        pool.execute(*t).unwrap();
    }
    let mut executed: Vec<u64> = Vec::new();
    let mut w = 0;
    while pool.queue_len() > 0 || pool.running() > 0 {
        match pool.worker(w).state {
            WorkerState::Idle => {
                if let Claim::Task(t) = pool.claim(w) {
                    executed.push(t);
                }
            }
            WorkerState::Busy(_) => {
                if pool.running() == size || pool.queue_len() == 0 {
                    pool.complete(w);
                }
            }
            WorkerState::Waiting => {}
            _ => unreachable!(),
        }
        assert!(pool.running() <= size);
        w = (w + 1) % size;
    }
    assert_eq!(executed, tasks);
    assert_eq!(pool.queue_len(), 0);
    assert_eq!(pool.capacity(), size);
}

#[test]
fn no_tasks_at_all_shuts_down_cleanly() {
    let mut pool = closed_and_drained(2);
    assert_eq!(pool.phase(), Phase::Drained);
    assert_eq!(pool.join(0), Ok(()));
    assert_eq!(pool.join(1), Ok(()));
    assert_eq!(pool.phase(), Phase::Joined);
}

#[test]
fn shutdown_drains_then_joins() {
    let mut pool = ThreadPool::new(2);
    pool.execute(1).unwrap();
    pool.execute(2).unwrap();
    pool.execute(3).unwrap();
    assert_eq!(pool.claim(0), Claim::Task(1));
    pool.close();
    assert_eq!(pool.phase(), Phase::Closing);
    assert_eq!(pool.claim(1), Claim::Task(2));
    pool.complete(0);
    assert_eq!(pool.claim(0), Claim::Task(3));
    pool.complete(1);
    assert_eq!(pool.claim(1), Claim::Disconnected);
    assert_eq!(pool.phase(), Phase::Closing);
    pool.complete(0);
    assert_eq!(pool.claim(0), Claim::Disconnected);
    assert_eq!(pool.phase(), Phase::Drained);
    assert_eq!(pool.next_join(), Some(0));
    assert_eq!(pool.join(0), Ok(()));
    assert_eq!(pool.phase(), Phase::Drained);
    assert_eq!(pool.next_join(), Some(1));
    assert_eq!(pool.join(1), Ok(()));
    assert_eq!(pool.next_join(), None);
    assert_eq!(pool.phase(), Phase::Joined);
    assert_eq!(pool.queue_len(), 0);
    assert_eq!(pool.capacity(), 0);
    assert_eq!(pool.running(), 0);
    assert!(pool.all_exited());
}

#[test]
fn submit_after_close_is_rejected_without_effect() {
    let mut pool = ThreadPool::new(2);
    pool.execute(1).unwrap();
    pool.close();
    assert!(!pool.is_open());
    assert_eq!(pool.execute(2), Err(PoolError::PoolClosed));
    assert_eq!(pool.queue_len(), 1);
    assert_eq!(pool.phase(), Phase::Closing);
    assert_eq!(pool.claim(0), Claim::Task(1));
    pool.complete(0);
    assert_eq!(pool.claim(0), Claim::Disconnected);
    assert_eq!(pool.execute(3), Err(PoolError::PoolClosed));
    assert_eq!(pool.queue_len(), 0);
}

#[test]
fn submit_after_join_is_rejected() {
    let mut pool = closed_and_drained(1);
    pool.join(0).unwrap();
    assert_eq!(pool.execute(7), Err(PoolError::PoolClosed));
    assert_eq!(pool.phase(), Phase::Joined);
    assert_eq!(pool.queue_len(), 0);
}

#[test]
fn close_twice_changes_nothing_more() {
    let mut pool = ThreadPool::new(1);
    pool.execute(5).unwrap();
    pool.close();
    pool.close();
    assert!(!pool.is_open());
    assert_eq!(pool.queue_len(), 1);
    assert_eq!(pool.worker(0).state, WorkerState::Idle);
}

#[test]
fn single_worker_runs_tasks_in_submission_order() {
    let mut pool = ThreadPool::new(1);
    pool.execute(1).unwrap();
    pool.execute(2).unwrap();
    pool.execute(3).unwrap();
    let mut order: Vec<u64> = Vec::new();
    for _ in 0..3 {
        match pool.claim(0) {
            Claim::Task(t) => {
                assert_eq!(pool.running(), 1);
                order.push(t);
                pool.complete(0);
            }
            other => panic!("expected a task, got {:?}", other),
        }
    }
    assert_eq!(order, vec![1, 2, 3]);
    assert_eq!(pool.claim(0), Claim::Wait);
    assert_eq!(pool.execute(4), Ok(Some(0)));
    assert_eq!(pool.claim(0), Claim::Task(4));
}

#[test]
fn two_workers_drain_four_tasks_in_two_parallel_batches() {
    let mut pool = ThreadPool::new(2);
    for t in 1..=4u64 {
        pool.execute(t).unwrap();
    }
    let mut batches = 0;
    while pool.queue_len() > 0 {
        assert_eq!(pool.running(), 0);
        let a = pool.claim(0);
        let b = pool.claim(1);
        assert_eq!(a, Claim::Task(2 * batches + 1));
        assert_eq!(b, Claim::Task(2 * batches + 2));
        assert_eq!(pool.running(), 2);
        pool.complete(0);
        pool.complete(1);
        batches += 1;
    }
    assert_eq!(batches, 2);
}

#[test]
fn a_faulting_task_costs_exactly_one_worker() {
    let mut pool = ThreadPool::new(3);
    pool.execute(1).unwrap();
    assert_eq!(pool.claim(0), Claim::Task(1));
    pool.fault(0);
    assert_eq!(pool.worker(0).state, WorkerState::Crashed);
    assert_eq!(pool.capacity(), 2);
    assert_eq!(pool.size(), 3);
    pool.execute(2).unwrap();
    pool.execute(3).unwrap();
    pool.execute(4).unwrap();
    assert_eq!(pool.claim(1), Claim::Task(2));
    assert_eq!(pool.claim(2), Claim::Task(3));
    assert_eq!(pool.running(), 2);
    pool.complete(1);
    pool.complete(2);
    assert_eq!(pool.claim(1), Claim::Task(4));
    pool.complete(1);
    assert_eq!(pool.capacity(), 2);
    assert_eq!(pool.queue_len(), 0);
}

#[test]
fn join_reports_a_crashed_worker_once() {
    let mut pool = ThreadPool::new(2);
    pool.execute(1).unwrap();
    assert_eq!(pool.claim(1), Claim::Task(1));
    pool.fault(1);
    pool.close();
    assert_eq!(pool.claim(0), Claim::Disconnected);
    assert_eq!(pool.join(0), Ok(()));
    assert_eq!(pool.join(1), Err(PoolError::JoinFault(1)));
    assert!(pool.worker(1).joined);
    assert_eq!(pool.join(1), Ok(()));
    assert_eq!(pool.phase(), Phase::Joined);
}

#[test]
fn a_handle_is_taken_once() {
    let mut pool = closed_and_drained(2);
    assert_eq!(pool.join(0), Ok(()));
    let after_first = pool.worker(0);
    assert_eq!(pool.join(0), Ok(()));
    assert_eq!(pool.worker(0), after_first);
    assert_eq!(pool.next_join(), Some(1));
}

#[test]
fn all_workers_crashed_leaves_tasks_in_the_channel() {
    let mut pool = ThreadPool::new(1);
    pool.execute(1).unwrap();
    pool.execute(2).unwrap();
    assert_eq!(pool.claim(0), Claim::Task(1));
    pool.fault(0);
    pool.close();
    assert_eq!(pool.join(0), Err(PoolError::JoinFault(0)));
    assert_eq!(pool.phase(), Phase::Joined);
    assert_eq!(pool.queue_len(), 1);
    assert_eq!(pool.capacity(), 0);
}

#[test]
fn worker_state_tells_alive_from_exited() {
    assert!(WorkerState::Idle.is_alive());
    assert!(WorkerState::Busy(3).is_alive());
    assert!(!WorkerState::Terminated.is_alive());
    assert!(!WorkerState::Crashed.is_alive());
    assert!(!WorkerState::Idle.has_exited());
    assert!(!WorkerState::Busy(3).has_exited());
    assert!(WorkerState::Terminated.has_exited());
    assert!(WorkerState::Crashed.has_exited());
}
