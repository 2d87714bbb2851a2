//! What holds of every pool, in every state that it can reach.

use vstd::prelude::*;
use vstd::relations::injective_on;
use vstd::set_lib::lemma_int_range;
use vstd::set_lib::lemma_len_subset;
use vstd::set_lib::lemma_map_size;
use vstd::set_lib::set_int_range;
use crate::model::alive_count;
use crate::model::busy_count;
use crate::model::busy_set;
use crate::model::idle_count;
use crate::model::steps_left;
use crate::model::total_steps_left;
use crate::model::Claim;
use crate::model::Event;
use crate::model::Phase;
use crate::model::PoolView;
use crate::model::Stage;
use crate::worker::Worker;
use crate::worker::WorkerState;

verus! {

/// A fresh pool of at least one worker meets the invariant.
pub proof fn lemma_fresh_is_wf(n: int)
    requires
        0 < n <= usize::MAX,
    ensures
        PoolView::fresh(n).wf(),
        PoolView::fresh(n).size() == n,
        PoolView::fresh(n).phase() == Phase::Open,
{
    let v = PoolView::fresh(n);
    assert(v.submitted =~= v.claimed + v.queue);
}

/// Every transition that can be taken keeps the invariant, and the number of
/// workers with it.
pub proof fn lemma_step_keeps_invariant(v: PoolView, e: Event)
    requires
        v.wf(),
        v.enabled(e),
    ensures
        v.apply(e).wf(),
        v.apply(e).size() == v.size(),
{
    let n = v.apply(e);
    assert(n.submitted =~= n.claimed + n.queue);
    match e {
        Event::Submit(_, Some(w)) => {
            lemma_idle_count_after_update(v.workers, w as int, n.workers[w as int]);
        },
        Event::Submit(_, None) => {},
        Event::Close => {},
        Event::Claim(w) => {
            lemma_idle_count_after_update(v.workers, w, n.workers[w]);
        },
        Event::Complete(w) => {
            lemma_idle_count_after_update(v.workers, w, n.workers[w]);
        },
        Event::Fault(w) => {
            lemma_idle_count_after_update(v.workers, w, n.workers[w]);
        },
        Event::Join(w) => {
            lemma_idle_count_after_update(v.workers, w, n.workers[w]);
        },
    }
}

/// Replacing one worker changes the count of idle workers by that worker.
pub proof fn lemma_idle_count_after_update(ws: Seq<Worker>, i: int, x: Worker)
    requires
        0 <= i < ws.len(),
    ensures
        idle_count(ws.update(i, x)) + (if ws[i].state is Idle { 1nat } else { 0nat })
            == idle_count(ws) + (if x.state is Idle { 1nat } else { 0nat }),
    decreases ws.len(),
{
    if i == ws.len() - 1 {
        assert(ws.update(i, x).drop_last() =~= ws.drop_last());
    } else {
        assert(ws.update(i, x).drop_last() =~= ws.drop_last().update(i, x));
        lemma_idle_count_after_update(ws.drop_last(), i, x);
    }
}

/// Each task is executed at most once: a transition leaves a task where it
/// was, or starts a queued task, or finishes a running one. No task goes
/// back, none is started twice, and its token never changes.
pub proof fn lemma_task_only_advances(v: PoolView, e: Event, k: int)
    requires
        v.wf(),
        v.enabled(e),
        0 <= k < v.stage.len(),
    ensures
        k < v.apply(e).stage.len(),
        v.apply(e).submitted[k] == v.submitted[k],
        v.apply(e).stage[k] == v.stage[k] || (v.stage[k] is Queued && v.apply(e).stage[k] is Running)
            || (v.stage[k] is Running && v.apply(e).finished(k)),
{
}

/// Whatever transitions a pool takes, it keeps the invariant and its size.
pub proof fn lemma_run_keeps_invariant(v: PoolView, es: Seq<Event>)
    requires
        v.wf(),
        v.can_run(es),
    ensures
        v.run(es).wf(),
        v.run(es).size() == v.size(),
    decreases es.len(),
{
    if es.len() > 0 {
        lemma_step_keeps_invariant(v, es[0]);
        lemma_run_keeps_invariant(v.apply(es[0]), es.drop_first());
    }
}

/// Each task is executed exactly once over any course of transitions: the
/// task keeps its token; once claimed it is never queued again and stays
/// with the worker that claimed it until it finishes; once finished it stays
/// as it finished.
pub proof fn lemma_task_executes_once(v: PoolView, es: Seq<Event>, k: int)
    requires
        v.wf(),
        v.can_run(es),
        0 <= k < v.stage.len(),
    ensures
        k < v.run(es).stage.len(),
        v.run(es).submitted[k] == v.submitted[k],
        v.finished(k) ==> v.run(es).stage[k] == v.stage[k],
        v.stage[k] is Running ==> v.run(es).stage[k] == v.stage[k] || v.run(es).finished(k),
    decreases es.len(),
{
    if es.len() > 0 {
        lemma_step_keeps_invariant(v, es[0]);
        lemma_task_only_advances(v, es[0], k);
        lemma_task_executes_once(v.apply(es[0]), es.drop_first(), k);
    }
}

/// A transition moves at most one task to another stage.
pub proof fn lemma_step_moves_one_task(v: PoolView, e: Event, j: int, k: int)
    requires
        v.wf(),
        v.enabled(e),
        0 <= j < v.stage.len(),
        0 <= k < v.stage.len(),
        v.apply(e).stage[j] != v.stage[j],
        v.apply(e).stage[k] != v.stage[k],
    ensures
        j == k,
{
}

/// Claims follow submissions: the tokens claimed so far are the first of
/// those submitted, in the same order, and the channel holds the rest. So a
/// task is claimed after every task submitted before it, and by one worker.
pub proof fn lemma_claims_in_submission_order(v: PoolView)
    requires
        v.wf(),
    ensures
        v.claimed.len() + v.queue.len() == v.submitted.len(),
        v.claimed == v.submitted.take(v.claimed.len() as int),
        v.queue == v.submitted.skip(v.claimed.len() as int),
        forall|k: int| 0 <= k < v.stage.len() ==> (v.stage[k] is Queued <==> k >= v.claimed.len()),
{
    assert(v.claimed =~= v.submitted.take(v.claimed.len() as int));
    assert(v.queue =~= v.submitted.skip(v.claimed.len() as int));
}

/// The worker that claims from a channel that is not empty gets the oldest
/// task that no worker has claimed yet, and that task alone starts, whatever
/// the other workers are doing: a busy worker does not hold the channel.
pub proof fn lemma_claim_takes_oldest(v: PoolView, w: int)
    requires
        v.wf(),
        v.enabled(Event::Claim(w)),
        v.queue.len() > 0,
    ensures
        v.claim_result(w) == Claim::Task(v.submitted[v.claimed.len() as int]),
        v.stage[v.claimed.len() as int] is Queued,
        v.claim(w).stage == v.stage.update(v.claimed.len() as int, Stage::Running(w)),
        v.claim(w).workers[w].state == WorkerState::Busy(v.submitted[v.claimed.len() as int]),
{
}

/// Two tasks that are being executed at the same time are held by two
/// different workers, each of which is busy with its own task.
pub proof fn lemma_running_tasks_have_own_workers(v: PoolView, j: int, k: int)
    requires
        v.wf(),
        0 <= j < v.stage.len(),
        0 <= k < v.stage.len(),
        v.stage[j] is Running,
        v.stage[k] is Running,
        j != k,
    ensures
        v.holder(j) != v.holder(k),
        v.has_worker(v.holder(j)),
        v.has_worker(v.holder(k)),
        v.workers[v.holder(j)].state == WorkerState::Busy(v.submitted[j]),
        v.workers[v.holder(k)].state == WorkerState::Busy(v.submitted[k]),
{
}

/// As many tasks are being executed as workers are busy: each running task
/// has its own busy worker, and each busy worker its own running task.
pub proof fn lemma_running_matches_busy(v: PoolView)
    requires
        v.wf(),
    ensures
        v.running().finite(),
        v.running().len() == busy_count(v.workers),
        forall|k: int| v.running().contains(k) ==> v.busy().contains(v.holder(k)),
        forall|w: int| v.busy().contains(w) ==> v.running().contains(v.slot[w]),
{
    let running = v.running();
    let holder = |k: int| v.holder(k);
    let tasks = set_int_range(0, v.stage.len() as int);
    lemma_int_range(0, v.stage.len() as int);
    assert(running.subset_of(tasks));
    lemma_len_subset(running, tasks);
    assert(injective_on(holder, running)) by {
        assert forall|j: int, k: int|
            running.contains(j) && running.contains(k) && #[trigger] holder(j) == #[trigger] holder(
                k,
            ) implies j == k by {
            assert(v.slot[v.holder(j)] == j);
            assert(v.slot[v.holder(k)] == k);
        }
    }
    assert forall|w: int| v.busy().contains(w) implies running.map(holder).contains(w) by {
        let k = v.slot[w];
        assert(v.workers[w].state is Busy);
        assert(running.contains(k) && holder(k) == w);
    }
    assert forall|w: int| running.map(holder).contains(w) implies v.busy().contains(w) by {
        let k = choose|k: int| running.contains(k) && holder(k) == w;
        assert(v.stage[k] is Running);
    }
    assert(running.map(holder) =~= v.busy());
    lemma_map_size(running, v.busy(), holder);
    lemma_busy_count_is_cardinality(v.workers);
}

/// The count of busy workers is the size of the set of their indices, and
/// no more than the number of workers.
pub proof fn lemma_busy_count_is_cardinality(ws: Seq<Worker>)
    ensures
        busy_set(ws).finite(),
        busy_set(ws).len() == busy_count(ws),
        busy_count(ws) <= ws.len(),
    decreases ws.len(),
{
    if ws.len() == 0 {
        assert(busy_set(ws) =~= Set::empty());
    } else {
        lemma_busy_count_is_cardinality(ws.drop_last());
        if ws.last().state is Busy {
            assert(busy_set(ws) =~= busy_set(ws.drop_last()).insert(ws.len() - 1));
        } else {
            assert(busy_set(ws) =~= busy_set(ws.drop_last()));
        }
    }
}

/// At no time are more tasks being executed than the pool has workers.
pub proof fn lemma_running_at_most_size(v: PoolView)
    requires
        v.wf(),
    ensures
        v.running().finite(),
        v.running().len() <= v.size(),
{
    lemma_running_matches_busy(v);
    lemma_busy_count_is_cardinality(v.workers);
}

/// With a single worker execution is sequential: whenever the worker is not
/// busy, every task claimed so far has finished, so the next task starts
/// only after all tasks submitted before it have ended.
pub proof fn lemma_single_worker_is_sequential(v: PoolView)
    requires
        v.wf(),
        v.size() == 1,
        !(v.workers[0].state is Busy),
    ensures
        forall|k: int| 0 <= k < v.claimed.len() ==> v.finished(k),
{
    assert forall|k: int| 0 <= k < v.claimed.len() implies v.finished(k) by {
        assert(!(v.stage[k] is Queued));
        if v.stage[k] is Running {
            assert(v.stage[k]->Running_0 == 0);
        }
    }
}

/// A pool goes through its phases in one direction: no transition takes it
/// back to an earlier phase, and only the release of the producing end takes
/// it out of the open phase.
pub proof fn lemma_phase_only_advances(v: PoolView, e: Event)
    requires
        v.wf(),
        v.enabled(e),
    ensures
        v.apply(e).phase().rank() >= v.phase().rank(),
        v.phase() == Phase::Open && !(e is Close) ==> v.apply(e).phase() == Phase::Open,
{
    let n = v.apply(e);
    if !v.open {
        if v.all_joined() {
            assert forall|w: int| 0 <= w < n.workers.len() implies (#[trigger] n.workers[w]).joined by {
                assert(v.workers[w].joined);
            }
        } else if v.queue.len() == 0 && v.all_exited() {
            assert forall|w: int| 0 <= w < n.workers.len() implies (#[trigger] n.workers[w]).state.exited() by {
                assert(v.workers[w].state.exited());
            }
            assert(n.queue.len() == 0);
        }
    }
}

/// A submission wakes one worker at most, and which one is settled: the
/// first of those that are blocked.
pub proof fn lemma_wake_is_settled(v: PoolView, a: Option<usize>, b: Option<usize>)
    requires
        v.wakes(a),
        v.wakes(b),
    ensures
        a == b,
{
    if a is Some && b is Some {
        let x = a->Some_0 as int;
        let y = b->Some_0 as int;
        if x < y {
            assert(v.workers[x].state is Waiting);
        } else if y < x {
            assert(v.workers[y].state is Waiting);
        }
    } else if a is Some {
        assert(v.workers[a->Some_0 as int].state is Waiting);
    } else if b is Some {
        assert(v.workers[b->Some_0 as int].state is Waiting);
    }
}

/// Workers that count as idle include an idle worker.
pub proof fn lemma_idle_worker_exists(ws: Seq<Worker>) -> (w: int)
    requires
        idle_count(ws) > 0,
    ensures
        0 <= w < ws.len(),
        ws[w].state is Idle,
    decreases ws.len(),
{
    if ws.last().state is Idle {
        ws.len() - 1
    } else {
        lemma_idle_worker_exists(ws.drop_last())
    }
}

/// No wake-up is lost: while a task is queued and a worker is still in its
/// loop, some worker is awake, idle or busy, and comes to claim the task; the
/// workers are never all blocked on a channel that is not empty.
pub proof fn lemma_no_lost_wakeup(v: PoolView, u: int) -> (w: int)
    requires
        v.wf(),
        v.queue.len() > 0,
        v.has_worker(u),
        v.workers[u].state.alive(),
    ensures
        v.has_worker(w),
        v.workers[w].state is Idle || v.workers[w].state is Busy,
{
    if v.workers[u].state is Waiting {
        lemma_idle_worker_exists(v.workers)
    } else {
        u
    }
}

/// Shutdown repeats without effect: a second release of the producing end
/// changes nothing, and a second join of a worker changes and reports nothing.
pub proof fn lemma_shutdown_is_idempotent(v: PoolView, w: int)
    requires
        v.wf(),
        v.enabled(Event::Join(w)),
    ensures
        v.close().close() == v.close(),
        v.join(w).join(w) == v.join(w),
        v.join(w).join_result(w) is Ok,
{
    assert(v.close().close().workers =~= v.close().workers);
    assert(v.join(w).join(w).workers =~= v.join(w).workers);
}

/// A closed pool stays closed and accepts nothing: no transition opens it,
/// and none that can be taken adds a task.
pub proof fn lemma_closed_pool_accepts_nothing(v: PoolView, e: Event)
    requires
        v.wf(),
        !v.open,
        v.enabled(e),
    ensures
        !v.apply(e).open,
        v.apply(e).submitted == v.submitted,
{
}

/// After shutdown no worker is alive, and no task is being executed. If one
/// worker at least left its loop on disconnection, every task ever submitted
/// has finished; a task can be left in the channel only where every worker
/// crashed.
pub proof fn lemma_joined_means_finished(v: PoolView)
    requires
        v.wf(),
        v.phase() == Phase::Joined,
    ensures
        v.all_exited(),
        v.capacity() == 0,
        forall|k: int| 0 <= k < v.stage.len() ==> !(v.stage[k] is Running),
        (exists|w: int| v.has_worker(w) && v.workers[w].state is Terminated) ==> v.queue.len() == 0
            && forall|k: int| 0 <= k < v.stage.len() ==> v.finished(k),
        forall|k: int| 0 <= k < v.stage.len() && !v.finished(k) ==> k >= v.claimed.len(),
{
    assert forall|w: int| 0 <= w < v.workers.len() implies (#[trigger] v.workers[w]).state.exited() by {
        assert(v.workers[w].joined);
    }
    assert forall|k: int| 0 <= k < v.stage.len() implies !(#[trigger] v.stage[k] is Running) by {
        if v.stage[k] is Running {
            let w = v.stage[k]->Running_0;
            assert(v.workers[w].state.exited());
        }
    }
    lemma_no_alive_worker(v.workers);
    if exists|w: int| v.has_worker(w) && v.workers[w].state is Terminated {
        let w = choose|w: int| v.has_worker(w) && v.workers[w].state is Terminated;
        assert(v.workers[w].state is Terminated);
        assert(v.queue.len() == 0);
        assert(v.submitted.len() == v.claimed.len());
    }
}

/// Workers that have all left their loops count for no capacity.
pub proof fn lemma_no_alive_worker(ws: Seq<Worker>)
    requires
        forall|w: int| 0 <= w < ws.len() ==> (#[trigger] ws[w]).state.exited(),
    ensures
        alive_count(ws) == 0,
    decreases ws.len(),
{
    if ws.len() > 0 {
        lemma_no_alive_worker(ws.drop_last());
    }
}

/// The capacity never exceeds the number of workers.
pub proof fn lemma_capacity_bounded(ws: Seq<Worker>)
    ensures
        alive_count(ws) <= ws.len(),
    decreases ws.len(),
{
    if ws.len() > 0 {
        lemma_capacity_bounded(ws.drop_last());
    }
}

/// Replacing one worker changes the capacity by what that worker counted for.
pub proof fn lemma_capacity_after_update(ws: Seq<Worker>, i: int, x: Worker)
    requires
        0 <= i < ws.len(),
    ensures
        alive_count(ws.update(i, x)) + (if ws[i].state.alive() { 1nat } else { 0nat })
            == alive_count(ws) + (if x.state.alive() { 1nat } else { 0nat }),
    decreases ws.len(),
{
    if i == ws.len() - 1 {
        assert(ws.update(i, x).drop_last() =~= ws.drop_last());
    } else {
        assert(ws.update(i, x).drop_last() =~= ws.drop_last().update(i, x));
        lemma_capacity_after_update(ws.drop_last(), i, x);
    }
}

/// Waking the workers that wait takes no capacity away.
pub proof fn lemma_waking_keeps_capacity(ws: Seq<Worker>)
    ensures
        alive_count(Seq::new(ws.len(), |w: int| ws[w].woken())) == alive_count(ws),
    decreases ws.len(),
{
    let woken = Seq::new(ws.len(), |w: int| ws[w].woken());
    if ws.len() > 0 {
        let rest = ws.drop_last();
        assert(woken.drop_last() =~= Seq::new(rest.len(), |w: int| rest[w].woken()));
        lemma_waking_keeps_capacity(rest);
    }
}

/// A faulting task costs the pool exactly one worker, and only its own: the
/// others stay as they are, and the channel is untouched.
pub proof fn lemma_fault_costs_one_worker(v: PoolView, w: int)
    requires
        v.wf(),
        v.enabled(Event::Fault(w)),
    ensures
        v.fault(w).capacity() == v.capacity() - 1,
        v.fault(w).queue == v.queue,
        v.fault(w).open == v.open,
        forall|u: int| v.has_worker(u) && u != w ==> v.fault(w).workers[u] == v.workers[u],
{
    lemma_capacity_after_update(v.workers, w, v.workers[w].with_state(WorkerState::Crashed));
}

/// Only a fault or a disconnection takes capacity away: every other
/// transition leaves it as it was.
pub proof fn lemma_capacity_changes(v: PoolView, e: Event)
    requires
        v.wf(),
        v.enabled(e),
    ensures
        v.apply(e).capacity() == v.capacity() - (if e is Fault || (e is Claim
            && v.claim_result(e->Claim_0) is Disconnected) {
            1nat
        } else {
            0nat
        }),
{
    match e {
        Event::Submit(_, Some(w)) => {
            lemma_capacity_after_update(v.workers, w as int, v.apply(e).workers[w as int]);
        },
        Event::Submit(_, None) => {},
        Event::Close => {
            lemma_waking_keeps_capacity(v.workers);
        },
        Event::Claim(w) => {
            lemma_capacity_after_update(v.workers, w, v.apply(e).workers[w]);
            assert(v.apply(e).workers =~= v.workers.update(w, v.apply(e).workers[w]));
        },
        Event::Complete(w) => {
            lemma_capacity_after_update(v.workers, w, v.apply(e).workers[w]);
        },
        Event::Fault(w) => {
            lemma_capacity_after_update(v.workers, w, v.apply(e).workers[w]);
        },
        Event::Join(w) => {
            lemma_capacity_after_update(v.workers, w, v.apply(e).workers[w]);
        },
    }
}

/// Replacing one worker changes the steps left by what that worker had left.
pub proof fn lemma_steps_left_after_update(ws: Seq<Worker>, i: int, x: Worker)
    requires
        0 <= i < ws.len(),
    ensures
        total_steps_left(ws.update(i, x)) + steps_left(ws[i]) == total_steps_left(ws) + steps_left(
            x,
        ),
    decreases ws.len(),
{
    if i == ws.len() - 1 {
        assert(ws.update(i, x).drop_last() =~= ws.drop_last());
    } else {
        assert(ws.update(i, x).drop_last() =~= ws.drop_last().update(i, x));
        lemma_steps_left_after_update(ws.drop_last(), i, x);
    }
}

/// Once shutdown has begun it runs on: in a closed pool every transition of
/// a worker, and every join of a handle not taken before, leaves fewer steps
/// to take.
pub proof fn lemma_shutdown_step_progresses(v: PoolView, e: Event)
    requires
        v.wf(),
        !v.open,
        v.enabled(e),
        !(e is Close),
        e is Join ==> !v.workers[e->Join_0].joined,
    ensures
        v.apply(e).shutdown_steps_left() < v.shutdown_steps_left(),
{
    match e {
        Event::Submit(_, _) => {},
        Event::Close => {},
        Event::Claim(w) => {
            lemma_steps_left_after_update(v.workers, w, v.apply(e).workers[w]);
        },
        Event::Complete(w) => {
            lemma_steps_left_after_update(v.workers, w, v.apply(e).workers[w]);
        },
        Event::Fault(w) => {
            lemma_steps_left_after_update(v.workers, w, v.apply(e).workers[w]);
        },
        Event::Join(w) => {
            lemma_steps_left_after_update(v.workers, w, v.apply(e).workers[w]);
        },
    }
}

/// Shutdown cannot get stuck: a closed pool with a handle still to join can
/// always take a transition that leaves fewer steps to take.
pub proof fn lemma_shutdown_is_never_stuck(v: PoolView) -> (e: Event)
    requires
        v.wf(),
        !v.open,
        v.phase() != Phase::Joined,
    ensures
        v.enabled(e),
        v.apply(e).shutdown_steps_left() < v.shutdown_steps_left(),
{
    let w = choose|w: int| 0 <= w < v.workers.len() && !(#[trigger] v.workers[w]).joined;
    let e = match v.workers[w].state {
        WorkerState::Idle => Event::Claim(w),
        WorkerState::Waiting => Event::Claim(w),
        WorkerState::Busy(_) => Event::Complete(w),
        WorkerState::Terminated => Event::Join(w),
        WorkerState::Crashed => Event::Join(w),
    };
    lemma_shutdown_step_progresses(v, e);
    e
}

} // verus!
