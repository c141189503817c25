//! What holds of the manager over any run: any interleaving of events and
//! dispatches, including dispatches whose task never reached its worker.

use vstd::prelude::*;
use crate::config::Policy;
use crate::manager::{route, Event, Lane, ManagerView};
use crate::task::TaskKind;
use crate::task::Task;

verus! {

/// One thing that happens to the manager's state.
pub enum Step {
    /// An event is taken in.
    Take(Event),
    /// One dispatch is attempted.
    Dispatch,
}

/// The state after the steps `steps`, from `v`.
pub open spec fn replay(v: ManagerView, steps: Seq<Step>) -> ManagerView
    decreases steps.len(),
{
    if steps.len() == 0 {
        v
    } else {
        let p = replay(v, steps.drop_last());
        match steps.last() {
            Step::Take(e) => p.on_event(e),
            Step::Dispatch => p.dispatch_once(),
        }
    }
}

/// The tasks that arrived in `steps` and joined lane `l` under `policy`, in
/// arrival order.
pub open spec fn arrivals(policy: Policy, steps: Seq<Step>, l: Lane) -> Seq<Task>
    decreases steps.len(),
{
    if steps.len() == 0 {
        Seq::empty()
    } else {
        let prev = arrivals(policy, steps.drop_last(), l);
        match steps.last() {
            Step::Take(Event::Arrived(t)) => if route(policy, t) == l { prev.push(t) } else { prev },
            _ => prev,
        }
    }
}

/// The tasks dispatched from lane `l` during `steps`, in dispatch order.
pub open spec fn taken(v: ManagerView, steps: Seq<Step>, l: Lane) -> Seq<Task>
    decreases steps.len(),
{
    if steps.len() == 0 {
        Seq::empty()
    } else {
        let p = replay(v, steps.drop_last());
        let prev = taken(v, steps.drop_last(), l);
        match steps.last() {
            Step::Dispatch => match p.choice() {
                Some(c) => if c == l { prev.push(p.lane(l)[0]) } else { prev },
                None => prev,
            },
            _ => prev,
        }
    }
}

/// The workers that announced themselves idle during `steps` (being ready,
/// or having finished a task), in order.
pub open spec fn returned(steps: Seq<Step>) -> Seq<usize>
    decreases steps.len(),
{
    if steps.len() == 0 {
        Seq::empty()
    } else {
        let prev = returned(steps.drop_last());
        match steps.last() {
            Step::Take(Event::WorkerReady { worker_id }) => prev.push(worker_id),
            Step::Take(Event::Freed { worker_id, cpu_cost }) => prev.push(worker_id),
            _ => prev,
        }
    }
}

/// The workers that were handed a task during `steps`, in order.
pub open spec fn assigned(v: ManagerView, steps: Seq<Step>) -> Seq<usize>
    decreases steps.len(),
{
    if steps.len() == 0 {
        Seq::empty()
    } else {
        let p = replay(v, steps.drop_last());
        let prev = assigned(v, steps.drop_last());
        match steps.last() {
            Step::Dispatch => match p.choice() {
                Some(c) => prev.push(p.idle[0]),
                None => prev,
            },
            _ => prev,
        }
    }
}

/// The number of tasks reported finished during `steps`.
pub open spec fn freed(steps: Seq<Step>) -> nat
    decreases steps.len(),
{
    if steps.len() == 0 {
        0
    } else {
        let prev = freed(steps.drop_last());
        match steps.last() {
            Step::Take(Event::Freed { worker_id, cpu_cost }) => prev + 1,
            _ => prev,
        }
    }
}

/// The CPU share of the tasks dispatched during `steps`.
pub open spec fn dispatched_cost(v: ManagerView, steps: Seq<Step>) -> nat
    decreases steps.len(),
{
    if steps.len() == 0 {
        0
    } else {
        let p = replay(v, steps.drop_last());
        let prev = dispatched_cost(v, steps.drop_last());
        match steps.last() {
            Step::Dispatch => match p.choice() {
                Some(c) => prev + p.lane(c)[0].cpu_cost as nat,
                None => prev,
            },
            _ => prev,
        }
    }
}

/// The CPU share that finished tasks gave back during `steps`.
pub open spec fn freed_cost(steps: Seq<Step>) -> nat
    decreases steps.len(),
{
    if steps.len() == 0 {
        0
    } else {
        let prev = freed_cost(steps.drop_last());
        match steps.last() {
            Step::Take(Event::Freed { worker_id, cpu_cost }) => prev + cpu_cost as nat,
            _ => prev,
        }
    }
}

/// Whether no finished task gave back more CPU than was in use when it
/// reported.
pub open spec fn frees_covered(v: ManagerView, steps: Seq<Step>) -> bool
    decreases steps.len(),
{
    if steps.len() == 0 {
        true
    } else {
        &&& frees_covered(v, steps.drop_last())
        &&& match steps.last() {
            Step::Take(Event::Freed { worker_id, cpu_cost }) => cpu_cost <= replay(v, steps.drop_last()).cpu_in_use,
            _ => true,
        }
    }
}

/// The run's settings never change.
pub proof fn lemma_replay_keeps_settings(v: ManagerView, steps: Seq<Step>)
    ensures
        replay(v, steps).policy == v.policy,
        replay(v, steps).budget == v.budget,
        replay(v, steps).total_tasks == v.total_tasks,
    decreases steps.len(),
{
    if steps.len() > 0 {
        lemma_replay_keeps_settings(v, steps.drop_last());
    }
}

/// The global CPU cap: from a well-formed state, whatever events come in and
/// however many dispatches are made, the CPU in use never exceeds the
/// budget, and the state stays well formed.
pub proof fn law_cpu_never_exceeds_budget(v: ManagerView, steps: Seq<Step>)
    requires
        v.wf(),
    ensures
        replay(v, steps).wf(),
        replay(v, steps).cpu_in_use <= v.budget,
        replay(v, steps).figures().cpu_in_use <= v.budget,
    decreases steps.len(),
{
    lemma_replay_keeps_settings(v, steps);
    if steps.len() > 0 {
        law_cpu_never_exceeds_budget(v, steps.drop_last());
        let p = replay(v, steps.drop_last());
        match steps.last() {
            Step::Take(e) => {},
            Step::Dispatch => {
                match p.choice() {
                    Some(l) => {
                        let q = p.take(l);
                        assert forall|i: int| 0 <= i < q.cpu_q.len() implies (#[trigger] q.cpu_q[i]).kind
                            == crate::task::TaskKind::Cpu by {
                            if l == Lane::Cpu {
                                assert(q.cpu_q[i] == p.cpu_q[i + 1]);
                            }
                        }
                        assert forall|i: int| 0 <= i < q.io_q.len() implies (#[trigger] q.io_q[i]).kind
                            == crate::task::TaskKind::Io by {
                            if l == Lane::Io {
                                assert(q.io_q[i] == p.io_q[i + 1]);
                            }
                        }
                    },
                    None => {},
                }
            },
        }
    }
}

/// No task is lost and each lane is first-in first-out: what was taken from
/// a lane, followed by what still waits in it, is what it held at the start
/// followed by the tasks that arrived for it, in order.
pub proof fn law_lanes_serve_in_arrival_order(v: ManagerView, steps: Seq<Step>, l: Lane)
    ensures
        taken(v, steps, l) + replay(v, steps).lane(l) == v.lane(l) + arrivals(v.policy, steps, l),
    decreases steps.len(),
{
    lemma_replay_keeps_settings(v, steps);
    if steps.len() > 0 {
        let rest = steps.drop_last();
        law_lanes_serve_in_arrival_order(v, rest, l);
        lemma_replay_keeps_settings(v, rest);
        let p = replay(v, rest);
        let prev = taken(v, rest, l);
        match steps.last() {
            Step::Take(e) => {
                match e {
                    Event::Arrived(t) => {
                        assert(prev + p.lane(l).push(t) =~= (prev + p.lane(l)).push(t));
                    },
                    _ => {},
                }
            },
            Step::Dispatch => {
                match p.choice() {
                    Some(c) => {
                        if c == l {
                            assert(prev.push(p.lane(l)[0]) + p.lane(l).drop_first() =~= prev + p.lane(l));
                        }
                    },
                    None => {},
                }
            },
        }
    }
}

/// Under FIFO every task goes through the single queue: the tasks handed out
/// are exactly the oldest ones, in the order they arrived.
pub proof fn law_fifo_serves_in_arrival_order(v: ManagerView, steps: Seq<Step>)
    requires
        v.policy == Policy::Fifo,
    ensures
        taken(v, steps, Lane::Fifo) + replay(v, steps).fifo_q == v.fifo_q + arrivals(v.policy, steps, Lane::Fifo),
        taken(v, steps, Lane::Cpu) == Seq::<Task>::empty(),
        taken(v, steps, Lane::Io) == Seq::<Task>::empty(),
    decreases steps.len(),
{
    law_lanes_serve_in_arrival_order(v, steps, Lane::Fifo);
    lemma_replay_keeps_settings(v, steps);
    if steps.len() > 0 {
        law_fifo_serves_in_arrival_order(v, steps.drop_last());
        lemma_replay_keeps_settings(v, steps.drop_last());
    }
}

/// No worker is lost or invented, and idle workers are served in the order
/// they became idle: the workers handed a task, followed by those still
/// idle, are the idle ones at the start followed by those that announced
/// themselves since.
pub proof fn law_workers_served_in_order(v: ManagerView, steps: Seq<Step>)
    ensures
        assigned(v, steps) + replay(v, steps).idle == v.idle + returned(steps),
    decreases steps.len(),
{
    if steps.len() > 0 {
        let rest = steps.drop_last();
        law_workers_served_in_order(v, rest);
        let p = replay(v, rest);
        let prev = assigned(v, rest);
        match steps.last() {
            Step::Take(e) => {
                match e {
                    Event::WorkerReady { worker_id } => {
                        assert(prev + p.idle.push(worker_id) =~= (prev + p.idle).push(worker_id));
                    },
                    Event::Freed { worker_id, cpu_cost } => {
                        assert(prev + p.idle.push(worker_id) =~= (prev + p.idle).push(worker_id));
                    },
                    _ => {},
                }
            },
            Step::Dispatch => {
                match p.choice() {
                    Some(c) => {
                        assert(prev.push(p.idle[0]) + p.idle.drop_first() =~= prev + p.idle);
                    },
                    None => {},
                }
            },
        }
    }
}

/// Every finished task is counted once: the completion count grows by the
/// number of tasks reported finished, as long as it stays in range.
pub proof fn law_completions_counted(v: ManagerView, steps: Seq<Step>)
    requires
        v.tasks_completed + freed(steps) <= u64::MAX,
    ensures
        replay(v, steps).tasks_completed == v.tasks_completed + freed(steps),
    decreases steps.len(),
{
    if steps.len() > 0 {
        law_completions_counted(v, steps.drop_last());
        let p = replay(v, steps.drop_last());
        match steps.last() {
            Step::Take(e) => {},
            Step::Dispatch => {
                match p.choice() {
                    Some(c) => {},
                    None => {},
                }
            },
        }
    }
}

/// A batch of `n` dispatches is the same as `n` dispatch steps.
pub proof fn law_dispatch_batch_is_steps(v: ManagerView, n: nat)
    ensures
        v.dispatch_n(n) == replay(v, Seq::new(n, |i: int| Step::Dispatch)),
    decreases n,
{
    if n > 0 {
        law_dispatch_batch_is_steps(v, (n - 1) as nat);
        assert(Seq::new(n, |i: int| Step::Dispatch).drop_last() =~= Seq::new((n - 1) as nat, |i: int| Step::Dispatch));
    }
}

/// CPU accounting: the CPU in use is what was in use at the start, plus the
/// shares of the tasks dispatched since, minus the shares given back by the
/// tasks that finished, as long as no finished task gave back more than was
/// in use (below zero the count stops at zero instead).
pub proof fn law_cpu_in_use_is_dispatched_minus_freed(v: ManagerView, steps: Seq<Step>)
    requires
        v.wf(),
        frees_covered(v, steps),
    ensures
        replay(v, steps).cpu_in_use + freed_cost(steps) == v.cpu_in_use + dispatched_cost(v, steps),
    decreases steps.len(),
{
    if steps.len() > 0 {
        let rest = steps.drop_last();
        law_cpu_in_use_is_dispatched_minus_freed(v, rest);
        law_cpu_never_exceeds_budget(v, rest);
        let p = replay(v, rest);
        match steps.last() {
            Step::Take(e) => {},
            Step::Dispatch => {
                match p.choice() {
                    Some(c) => {},
                    None => {},
                }
            },
        }
    }
}

/// Under FIFO a batch of dispatches hands out the oldest queued tasks in
/// order: as long as the `n` steps all dispatch, the `j`-th step's task is
/// the `j`-th oldest queued task, and the queue has lost exactly the first
/// `n`.
pub proof fn law_fifo_batch_hands_out_the_oldest(v: ManagerView, n: nat)
    requires
        v.policy == Policy::Fifo,
        forall|j: nat| j < n ==> (#[trigger] v.dispatch_n(j)).choice() is Some,
    ensures
        n <= v.fifo_q.len(),
        v.dispatch_n(n).fifo_q == v.fifo_q.skip(n as int),
        forall|j: nat| j < n ==> (#[trigger] v.dispatch_n(j)).next_task() == v.fifo_q[j as int],
    decreases n,
{
    if n > 0 {
        let m = (n - 1) as nat;
        assert forall|j: nat| j < m implies (#[trigger] v.dispatch_n(j)).choice() is Some by {
            assert(j < n);
        }
        law_fifo_batch_hands_out_the_oldest(v, m);
        v.lemma_dispatch_n_keeps(m);
        let p = v.dispatch_n(m);
        assert(p.choice() is Some);
        assert(p.dispatch_once().fifo_q =~= v.fifo_q.skip(n as int));
        assert forall|j: nat| j < n implies (#[trigger] v.dispatch_n(j)).next_task() == v.fifo_q[j as int] by {
            if j < m {
            } else {
                assert(p.fifo_q[0] == v.fifo_q[j as int]);
            }
        }
    }
}

/// The published count of busy workers is the count at the start, plus the
/// tasks handed to workers since, minus the tasks reported finished, taken
/// modulo 256 as the 8-bit count wraps.
pub proof fn law_busy_count_is_assigned_minus_freed(v: ManagerView, steps: Seq<Step>)
    ensures
        replay(v, steps).figures().active_workers as int == (v.active_workers + assigned(v, steps).len()
            - freed(steps)) % 256,
    decreases steps.len(),
{
    if steps.len() > 0 {
        let rest = steps.drop_last();
        law_busy_count_is_assigned_minus_freed(v, rest);
        let p = replay(v, rest);
        let base = v.active_workers + assigned(v, rest).len() - freed(rest);
        match steps.last() {
            Step::Take(e) => {
                match e {
                    Event::Freed { worker_id, cpu_cost } => {
                        assert(((base - 1) % 256) == (if p.active_workers == 0 { 255 } else { p.active_workers - 1 }))
                            by (nonlinear_arith)
                            requires
                                p.active_workers as int == base % 256,
                                0 <= p.active_workers < 256,
                        ;
                    },
                    _ => {},
                }
            },
            Step::Dispatch => {
                match p.choice() {
                    Some(c) => {
                        assert(((base + 1) % 256) == (if p.active_workers == 255 { 0 } else { p.active_workers + 1 }))
                            by (nonlinear_arith)
                            requires
                                p.active_workers as int == base % 256,
                                0 <= p.active_workers < 256,
                        ;
                    },
                    None => {},
                }
            },
        }
    }
}

/// The FIFO rule: with an idle worker, one dispatch step hands the oldest
/// queued task to the first idle worker exactly when the CPU in use plus
/// that task's own share stays within the budget; the task and the worker
/// leave their queues and the share is added. Otherwise nothing changes.
/// Without an idle worker nothing is dispatched.
pub proof fn law_fifo_dispatch_rule(v: ManagerView)
    requires
        v.policy == Policy::Fifo,
    ensures
        v.idle.len() > 0 && v.fifo_q.len() > 0 && v.cpu_in_use + v.fifo_q[0].cpu_cost <= v.budget ==> {
            &&& v.choice() is Some
            &&& v.next_task() == v.fifo_q[0]
            &&& v.dispatch_once().fifo_q == v.fifo_q.subrange(1, v.fifo_q.len() as int)
            &&& v.dispatch_once().idle == v.idle.subrange(1, v.idle.len() as int)
            &&& v.dispatch_once().cpu_in_use == v.cpu_in_use + v.fifo_q[0].cpu_cost
            &&& v.dispatch_once().cpu_q == v.cpu_q
            &&& v.dispatch_once().io_q == v.io_q
        },
        !(v.idle.len() > 0 && v.fifo_q.len() > 0 && v.cpu_in_use + v.fifo_q[0].cpu_cost <= v.budget) ==> {
            &&& v.choice() is None
            &&& v.dispatch_once() == v
        },
{
}

/// The packing rule: with an idle worker, one dispatch step hands out the
/// oldest CPU-bound task when the CPU in use plus its share stays within the
/// budget (reaching the budget exactly counts); failing that, the oldest
/// IO-bound task when its share fits; failing both, nothing. The task and
/// the first idle worker leave their queues and the share is added.
pub proof fn law_optimize_dispatch_rule(v: ManagerView)
    requires
        v.policy == Policy::Optimize,
    ensures
        v.idle.len() == 0 ==> v.choice() is None && v.dispatch_once() == v,
        v.idle.len() > 0 && v.cpu_q.len() > 0 && v.cpu_in_use + v.cpu_q[0].cpu_cost <= v.budget ==> {
            &&& v.next_task() == v.cpu_q[0]
            &&& v.dispatch_once().cpu_q == v.cpu_q.subrange(1, v.cpu_q.len() as int)
            &&& v.dispatch_once().io_q == v.io_q
            &&& v.dispatch_once().idle == v.idle.subrange(1, v.idle.len() as int)
            &&& v.dispatch_once().cpu_in_use == v.cpu_in_use + v.cpu_q[0].cpu_cost
        },
        v.idle.len() > 0 && !(v.cpu_q.len() > 0 && v.cpu_in_use + v.cpu_q[0].cpu_cost <= v.budget)
            && v.io_q.len() > 0 && v.cpu_in_use + v.io_q[0].cpu_cost <= v.budget ==> {
            &&& v.next_task() == v.io_q[0]
            &&& v.dispatch_once().io_q == v.io_q.subrange(1, v.io_q.len() as int)
            &&& v.dispatch_once().cpu_q == v.cpu_q
            &&& v.dispatch_once().idle == v.idle.subrange(1, v.idle.len() as int)
            &&& v.dispatch_once().cpu_in_use == v.cpu_in_use + v.io_q[0].cpu_cost
        },
        !(v.cpu_q.len() > 0 && v.cpu_in_use + v.cpu_q[0].cpu_cost <= v.budget)
            && !(v.io_q.len() > 0 && v.cpu_in_use + v.io_q[0].cpu_cost <= v.budget) ==> {
            &&& v.choice() is None
            &&& v.dispatch_once() == v
        },
{
}

/// What is published for the monitor: the CPU in use, the number of busy
/// workers, and the number of tasks waiting over all queues whenever that
/// number fits in a `usize`.
pub proof fn law_published_figures_are_the_load(v: ManagerView)
    ensures
        v.figures().cpu_in_use == v.cpu_in_use,
        v.figures().active_workers == v.active_workers,
        v.fifo_q.len() + v.cpu_q.len() + v.io_q.len() <= usize::MAX ==> v.figures().queue_len == v.fifo_q.len()
            + v.cpu_q.len() + v.io_q.len(),
{
}

/// A task that arrives joins the end of its queue and the published queue
/// length grows by one (within what a `usize` holds); other queues keep
/// their tasks.
pub proof fn law_arrival_grows_the_queue(v: ManagerView, t: Task)
    requires
        v.fifo_q.len() + v.cpu_q.len() + v.io_q.len() < usize::MAX,
    ensures
        v.on_event(Event::Arrived(t)).figures().queue_len == v.figures().queue_len + 1,
        v.policy == Policy::Fifo ==> v.on_event(Event::Arrived(t)).fifo_q == v.fifo_q.push(t),
        v.policy == Policy::Optimize && t.kind == TaskKind::Cpu ==> v.on_event(Event::Arrived(t)).cpu_q
            == v.cpu_q.push(t),
        v.policy == Policy::Optimize && t.kind == TaskKind::Io ==> v.on_event(Event::Arrived(t)).io_q
            == v.io_q.push(t),
{
}

} // verus!
