//! The manager: delegates tasks to workers while keeping the global CPU
//! usage within its budget.
//!
//! `ManagerState` holds what the manager thread decides on; the thread
//! itself, which receives the events, lives in the program around it.

use std::collections::VecDeque;
use std::sync::mpsc::Sender;
use vstd::prelude::*;
use crate::config::{Params, Policy};
use crate::snapshot::{Figures, MgrSnapshot};
use crate::task::{Task, TaskKind};

verus! {

#[verifier::external_type_specification]
#[verifier::external_body]
#[verifier::reject_recursive_types(T)]
pub struct ExSender<T>(Sender<T>);

/// Sends `task` down a worker's channel with `Sender::send`, and tells
/// whether it went through. Whether it does depends on whether the worker
/// still listens, so the result is left free.
#[verifier::external_body]
fn deliver(tx: &Sender<Task>, task: Task) -> (delivered: bool) {
    tx.send(task).is_ok()
}

/// Everything the manager listens to lands as one of these.
pub enum Event {
    /// The generator handed us a freshly-created task.
    Arrived(Task),
    /// A worker came online and is ready for its first task.
    WorkerReady { worker_id: usize },
    /// A worker just finished a task. Free its CPU and mark it idle.
    Freed { worker_id: usize, cpu_cost: u8 },
}

/// The queue a dispatched task is taken from.
#[derive(PartialEq, Eq, Structural)]
pub enum Lane {
    /// The single queue in arrival order that FIFO uses.
    Fifo,
    /// The queue of CPU-bound tasks that the optimising policy uses.
    Cpu,
    /// The queue of IO-bound tasks that the optimising policy uses.
    Io,
}

/// One task handed to a worker by the dispatch, and whether it reached the
/// worker's channel.
pub struct Handout {
    pub worker_id: usize,
    pub task: Task,
    pub delivered: bool,
}

/// Whether a task of cost `cost` fits next to `cpu_in_use` in `budget`.
pub open spec fn fits(cpu_in_use: u8, cost: u8, budget: u8) -> bool {
    cpu_in_use + cost <= budget
}

/// The lane a newly arrived task joins under `policy`.
pub open spec fn route(policy: Policy, t: Task) -> Lane {
    match policy {
        Policy::Fifo => Lane::Fifo,
        Policy::Optimize => match t.kind {
            TaskKind::Cpu => Lane::Cpu,
            TaskKind::Io => Lane::Io,
        },
    }
}

/// The manager's state as mathematical values.
pub struct ManagerView {
    pub policy: Policy,
    pub budget: u8,
    pub total_tasks: u64,
    pub tasks_completed: u64,
    pub cpu_in_use: u8,
    pub active_workers: u8,
    pub fifo_q: Seq<Task>,
    pub cpu_q: Seq<Task>,
    pub io_q: Seq<Task>,
    pub idle: Seq<usize>,
}

impl ManagerView {
    /// The invariant: the CPU in use never exceeds the budget, each policy
    /// keeps its tasks in its own lanes, and the optimising lanes hold
    /// tasks of their own kind only.
    pub open spec fn wf(self) -> bool {
        &&& self.cpu_in_use <= self.budget
        &&& self.policy == Policy::Fifo ==> self.cpu_q.len() == 0 && self.io_q.len() == 0
        &&& self.policy == Policy::Optimize ==> self.fifo_q.len() == 0
        &&& forall|i: int| 0 <= i < self.cpu_q.len() ==> (#[trigger] self.cpu_q[i]).kind == TaskKind::Cpu
        &&& forall|i: int| 0 <= i < self.io_q.len() ==> (#[trigger] self.io_q[i]).kind == TaskKind::Io
    }

    /// The tasks waiting in a lane.
    pub open spec fn lane(self, l: Lane) -> Seq<Task> {
        match l {
            Lane::Fifo => self.fifo_q,
            Lane::Cpu => self.cpu_q,
            Lane::Io => self.io_q,
        }
    }

    /// The number of tasks waiting, over all lanes.
    pub open spec fn queued(self) -> nat {
        self.fifo_q.len() + self.cpu_q.len() + self.io_q.len()
    }

    /// Whether the front task of lane `l` can be started now.
    pub open spec fn front_fits(self, l: Lane) -> bool {
        self.lane(l).len() > 0 && fits(self.cpu_in_use, self.lane(l)[0].cpu_cost, self.budget)
    }

    /// The lane the next task is dispatched from, if any: nothing without an
    /// idle worker; under FIFO the oldest task if it fits in the budget
    /// (and nothing otherwise); under the optimising policy the oldest
    /// CPU-bound task if it fits, else the oldest IO-bound task if it fits.
    pub open spec fn choice(self) -> Option<Lane> {
        if self.idle.len() == 0 {
            None
        } else {
            match self.policy {
                Policy::Fifo => if self.front_fits(Lane::Fifo) { Some(Lane::Fifo) } else { None },
                Policy::Optimize => if self.front_fits(Lane::Cpu) {
                    Some(Lane::Cpu)
                } else if self.front_fits(Lane::Io) {
                    Some(Lane::Io)
                } else {
                    None
                },
            }
        }
    }

    /// The state after the front task of lane `l` went to the first idle
    /// worker: both leave their queues, the task's cost is added to the CPU
    /// in use and one more worker counts as busy (the 8-bit count wraps).
    pub open spec fn take(self, l: Lane) -> ManagerView {
        let t = self.lane(l)[0];
        let rest = self.lane(l).drop_first();
        ManagerView {
            fifo_q: if l == Lane::Fifo { rest } else { self.fifo_q },
            cpu_q: if l == Lane::Cpu { rest } else { self.cpu_q },
            io_q: if l == Lane::Io { rest } else { self.io_q },
            idle: self.idle.drop_first(),
            cpu_in_use: (self.cpu_in_use + t.cpu_cost) as u8,
            active_workers: if self.active_workers == 255 { 0 } else { (self.active_workers + 1) as u8 },
            ..self
        }
    }

    /// One dispatch, or no change where nothing can be dispatched.
    pub open spec fn dispatch_once(self) -> ManagerView {
        match self.choice() {
            Some(l) => self.take(l),
            None => self,
        }
    }

    /// The task the next dispatch hands out, where there is one.
    pub open spec fn next_task(self) -> Task {
        self.lane(self.choice().unwrap())[0]
    }

    /// Whether every worker that the dispatches from this state would reach,
    /// were every task delivered, has a channel among `channels`.
    pub open spec fn reaches_known_workers(self, channels: nat) -> bool {
        forall|j: nat|
            j < self.idle.len() && (#[trigger] self.dispatch_n(j)).choice() is Some ==> self.idle[j as int]
                < channels
    }

    /// What the manager publishes for the monitor in this state: the CPU in
    /// use, the busy workers, and the queued tasks (capped at what a `usize`
    /// holds).
    pub open spec fn figures(self) -> Figures {
        Figures {
            cpu_in_use: self.cpu_in_use,
            active_workers: self.active_workers,
            queue_len: if self.queued() <= usize::MAX { self.queued() as usize } else { usize::MAX },
        }
    }

    /// Whether `log` is what a dispatch from this state, ending in `end`,
    /// handed out: one hand-out per dispatch step, naming that step's worker
    /// and task; every hand-out but the last delivered; the dispatch ending
    /// on a failed delivery or where nothing more can be dispatched; nothing
    /// handed out exactly when nothing could be dispatched at the start.
    pub open spec fn hands_out(self, end: ManagerView, log: Seq<Handout>) -> bool {
        &&& end == self.dispatch_n(log.len())
        &&& forall|j: int|
            0 <= j < log.len() ==> {
                &&& (#[trigger] self.dispatch_n(j as nat)).choice() is Some
                &&& log[j].worker_id == self.idle[j]
                &&& log[j].task == self.dispatch_n(j as nat).next_task()
            }
        &&& forall|j: int| 0 <= j < log.len() - 1 ==> (#[trigger] log[j]).delivered
        &&& (log.len() > 0 && !log.last().delivered) || end.choice() is None
        &&& (self.choice() is None <==> log.len() == 0)
    }

    /// `n` dispatches in a row.
    pub open spec fn dispatch_n(self, n: nat) -> ManagerView
        decreases n,
    {
        if n == 0 {
            self
        } else {
            self.dispatch_n((n - 1) as nat).dispatch_once()
        }
    }

    /// Dispatching keeps the run's settings and completion count.
    pub proof fn lemma_dispatch_n_keeps(self, n: nat)
        ensures
            self.dispatch_n(n).policy == self.policy,
            self.dispatch_n(n).budget == self.budget,
            self.dispatch_n(n).total_tasks == self.total_tasks,
            self.dispatch_n(n).tasks_completed == self.tasks_completed,
        decreases n,
    {
        if n > 0 {
            self.lemma_dispatch_n_keeps((n - 1) as nat);
        }
    }

    /// Once nothing can be dispatched, further dispatch steps change nothing.
    pub proof fn lemma_dispatch_n_stops(self, j: nat, m: nat)
        requires
            j <= m,
            self.dispatch_n(j).choice() is None,
        ensures
            self.dispatch_n(m) == self.dispatch_n(j),
        decreases m,
    {
        if m > j {
            self.lemma_dispatch_n_stops(j, (m - 1) as nat);
        }
    }

    /// Where the `k`-th step still dispatches, every earlier step did, and the
    /// idle pool has lost exactly its first `k` workers.
    pub proof fn lemma_dispatch_n_idle(self, k: nat)
        requires
            self.dispatch_n(k).choice() is Some,
        ensures
            k < self.idle.len(),
            self.dispatch_n(k).idle == self.idle.skip(k as int),
            forall|j: nat| j <= k ==> (#[trigger] self.dispatch_n(j)).choice() is Some,
        decreases k,
    {
        if k > 0 {
            let p = self.dispatch_n((k - 1) as nat);
            if p.choice() is None {
                assert(self.dispatch_n(k) == p);
            } else {
                self.lemma_dispatch_n_idle((k - 1) as nat);
                assert(self.dispatch_n(k).idle =~= self.idle.skip(k as int));
                assert forall|j: nat| j <= k implies (#[trigger] self.dispatch_n(j)).choice() is Some by {
                    if j < k {
                        assert(self.dispatch_n(j).choice() is Some);
                    }
                }
            }
        }
    }

    /// The state after the manager took in event `e`: an arriving task joins
    /// its lane; a ready worker joins the idle pool; a finished task frees
    /// its CPU share (never below zero), returns its worker to the idle pool,
    /// counts one busy worker less (the 8-bit count wraps) and counts as
    /// completed.
    pub open spec fn on_event(self, e: Event) -> ManagerView {
        match e {
            Event::Arrived(t) => match route(self.policy, t) {
                Lane::Fifo => ManagerView { fifo_q: self.fifo_q.push(t), ..self },
                Lane::Cpu => ManagerView { cpu_q: self.cpu_q.push(t), ..self },
                Lane::Io => ManagerView { io_q: self.io_q.push(t), ..self },
            },
            Event::WorkerReady { worker_id } => ManagerView { idle: self.idle.push(worker_id), ..self },
            Event::Freed { worker_id, cpu_cost } => ManagerView {
                cpu_in_use: if self.cpu_in_use >= cpu_cost { (self.cpu_in_use - cpu_cost) as u8 } else { 0 },
                idle: self.idle.push(worker_id),
                active_workers: if self.active_workers == 0 { 255 } else { (self.active_workers - 1) as u8 },
                tasks_completed: (self.tasks_completed + 1) as u64,
                ..self
            },
        }
    }
}

/// Takes the oldest task if it fits in the budget. Don't let FIFO overfit
/// the CPU budget, even if that leaves the CPU idle.
pub fn pick_fifo(q: &mut VecDeque<Task>, cpu_in_use: u8, budget: u8) -> (next: Option<Task>)
    ensures
        (old(q)@.len() > 0 && fits(cpu_in_use, old(q)@[0].cpu_cost, budget)) ==> {
            &&& next == Some(old(q)@[0])
            &&& final(q)@ == old(q)@.drop_first()
        },
        !(old(q)@.len() > 0 && fits(cpu_in_use, old(q)@[0].cpu_cost, budget)) ==> {
            &&& next is None
            &&& final(q)@ == old(q)@
        },
{
    if q.len() == 0 {
        return None;
    }
    let cost = q[0].cpu_cost;
    if (cpu_in_use as u16) + (cost as u16) <= (budget as u16) {
        q.pop_front()
    } else {
        None
    }
}

/// Greedily fills the remaining CPU headroom: the oldest CPU-bound task if
/// it fits, else the oldest IO-bound task if it fits.
pub fn pick_optimize(
    cpu_q: &mut VecDeque<Task>,
    io_q: &mut VecDeque<Task>,
    cpu_in_use: u8,
    budget: u8,
) -> (next: Option<Task>)
    ensures
        (old(cpu_q)@.len() > 0 && fits(cpu_in_use, old(cpu_q)@[0].cpu_cost, budget)) ==> {
            &&& next == Some(old(cpu_q)@[0])
            &&& final(cpu_q)@ == old(cpu_q)@.drop_first()
            &&& final(io_q)@ == old(io_q)@
        },
        !(old(cpu_q)@.len() > 0 && fits(cpu_in_use, old(cpu_q)@[0].cpu_cost, budget))
            && (old(io_q)@.len() > 0 && fits(cpu_in_use, old(io_q)@[0].cpu_cost, budget)) ==> {
            &&& next == Some(old(io_q)@[0])
            &&& final(cpu_q)@ == old(cpu_q)@
            &&& final(io_q)@ == old(io_q)@.drop_first()
        },
        !(old(cpu_q)@.len() > 0 && fits(cpu_in_use, old(cpu_q)@[0].cpu_cost, budget))
            && !(old(io_q)@.len() > 0 && fits(cpu_in_use, old(io_q)@[0].cpu_cost, budget)) ==> {
            &&& next is None
            &&& final(cpu_q)@ == old(cpu_q)@
            &&& final(io_q)@ == old(io_q)@
        },
{
    if cpu_q.len() > 0 {
        let cost = cpu_q[0].cpu_cost;
        if (cpu_in_use as u16) + (cost as u16) <= (budget as u16) {
            return cpu_q.pop_front();
        }
    }
    if io_q.len() > 0 {
        let cost = io_q[0].cpu_cost;
        if (cpu_in_use as u16) + (cost as u16) <= (budget as u16) {
            return io_q.pop_front();
        }
    }
    None
}

/// What the manager thread keeps between events.
pub struct ManagerState {
    policy: Policy,
    budget: u8,
    total_tasks: u64,
    tasks_completed: u64,
    cpu_in_use: u8,
    active_workers: u8,
    fifo_q: VecDeque<Task>,
    cpu_q: VecDeque<Task>,
    io_q: VecDeque<Task>,
    idle_workers: VecDeque<usize>,
}

impl View for ManagerState {
    type V = ManagerView;

    closed spec fn view(&self) -> ManagerView {
        ManagerView {
            policy: self.policy,
            budget: self.budget,
            total_tasks: self.total_tasks,
            tasks_completed: self.tasks_completed,
            cpu_in_use: self.cpu_in_use,
            active_workers: self.active_workers,
            fifo_q: self.fifo_q@,
            cpu_q: self.cpu_q@,
            io_q: self.io_q@,
            idle: self.idle_workers@,
        }
    }
}

impl ManagerState {
    /// A manager for the run that `params` describes: nothing queued, no
    /// idle worker known yet, no CPU in use, no busy worker, nothing
    /// completed.
    pub fn new(params: &Params) -> (s: Self)
        ensures
            s@.policy == params.policy,
            s@.budget == params.cpu_budget,
            s@.total_tasks == params.total_tasks,
            s@.tasks_completed == 0,
            s@.cpu_in_use == 0,
            s@.active_workers == 0,
            s@.fifo_q == Seq::<Task>::empty(),
            s@.cpu_q == Seq::<Task>::empty(),
            s@.io_q == Seq::<Task>::empty(),
            s@.idle == Seq::<usize>::empty(),
            s@.wf(),
    {
        ManagerState {
            policy: params.policy,
            budget: params.cpu_budget,
            total_tasks: params.total_tasks,
            tasks_completed: 0,
            cpu_in_use: 0,
            active_workers: 0,
            fifo_q: VecDeque::new(),
            cpu_q: VecDeque::new(),
            io_q: VecDeque::new(),
            idle_workers: VecDeque::with_capacity(params.workers),
        }
    }

    /// Takes in one event; after a finished task it publishes the new count
    /// of busy workers, `final(self)@.figures().active_workers`.
    pub fn on_event(&mut self, ev: Event, snapshot: &MgrSnapshot)
        requires
            old(self)@.wf(),
            ev is Freed ==> old(self)@.tasks_completed < u64::MAX,
        ensures
            final(self)@ == old(self)@.on_event(ev),
            final(self)@.wf(),
    {
        match ev {
            Event::Arrived(task) => match self.policy {
                Policy::Fifo => self.fifo_q.push_back(task),
                Policy::Optimize => match task.kind {
                    TaskKind::Cpu => self.cpu_q.push_back(task),
                    TaskKind::Io => self.io_q.push_back(task),
                },
            },
            Event::WorkerReady { worker_id } => {
                self.idle_workers.push_back(worker_id);
            },
            Event::Freed { worker_id, cpu_cost } => {
                self.cpu_in_use = self.cpu_in_use.saturating_sub(cpu_cost);
                self.idle_workers.push_back(worker_id);
                self.active_workers = if self.active_workers == 0 { 255 } else { self.active_workers - 1 };
                snapshot.publish_active(self.active_workers);
                self.tasks_completed = self.tasks_completed + 1;
            },
        }
    }

    /// One dispatch: where an idle worker and a task that fits in the budget
    /// are at hand (as `choice` describes), both leave their queues, the
    /// task's share is added to the CPU in use, and the pair is returned.
    pub fn dispatch_step(&mut self) -> (action: Option<(usize, Task)>)
        requires
            old(self)@.wf(),
        ensures
            final(self)@ == old(self)@.dispatch_once(),
            final(self)@.wf(),
            old(self)@.choice() is None ==> action is None,
            old(self)@.choice() is Some ==> action == Some((old(self)@.idle[0], old(self)@.next_task())),
    {
        if self.idle_workers.len() == 0 {
            return None;
        }
        let next = match self.policy {
            Policy::Fifo => pick_fifo(&mut self.fifo_q, self.cpu_in_use, self.budget),
            Policy::Optimize => pick_optimize(&mut self.cpu_q, &mut self.io_q, self.cpu_in_use, self.budget),
        };
        let task = match next {
            Some(t) => t,
            None => {
                return None;
            },
        };
        let worker_id = match self.idle_workers.pop_front() {
            Some(w) => w,
            None => {
                return None;
            },
        };
        self.cpu_in_use = self.cpu_in_use + task.cpu_cost;
        self.active_workers = if self.active_workers == 255 { 0 } else { self.active_workers + 1 };
        Some((worker_id, task))
    }

    /// Hands tasks to idle workers for as long as the policy finds one that
    /// fits in the budget: each dispatch step's task goes down the channel of
    /// the worker that step chose, and after each step the new CPU share and
    /// busy count (`figures()`) are published. It stops right after the first
    /// task that does not reach its worker's channel; that task is not queued
    /// again, as the step that chose it was already taken.
    ///
    /// Returns what was handed out, in order (see `hands_out`).
    pub fn dispatch_loop(&mut self, worker_txs: &[Sender<Task>], snapshot: &MgrSnapshot) -> (log: Vec<Handout>)
        requires
            old(self)@.wf(),
            old(self)@.reaches_known_workers(worker_txs@.len()),
        ensures
            final(self)@.wf(),
            old(self)@.hands_out(final(self)@, log@),
            final(self)@.policy == old(self)@.policy,
            final(self)@.budget == old(self)@.budget,
            final(self)@.total_tasks == old(self)@.total_tasks,
            final(self)@.tasks_completed == old(self)@.tasks_completed,
    {
        let ghost start = self@;
        let mut log: Vec<Handout> = Vec::new();
        loop
            invariant
                self@.wf(),
                start == old(self)@,
                start.wf(),
                start.reaches_known_workers(worker_txs@.len()),
                self@ == start.dispatch_n(log@.len()),
                log@.len() <= start.idle.len(),
                log@.len() > 0 ==> start.choice() is Some,
                forall|j: int|
                    0 <= j < log@.len() ==> {
                        &&& (#[trigger] start.dispatch_n(j as nat)).choice() is Some
                        &&& log@[j].worker_id == start.idle[j]
                        &&& log@[j].task == start.dispatch_n(j as nat).next_task()
                    },
                forall|j: int| 0 <= j < log@.len() ==> (#[trigger] log@[j]).delivered,
            decreases start.idle.len() - log@.len(),
        {
            proof {
                start.lemma_dispatch_n_keeps(log@.len());
            }
            let action = self.dispatch_step();
            match action {
                None => {
                    return log;
                },
                Some((worker_id, task)) => {
                    let ghost k = log@.len();
                    proof {
                        start.lemma_dispatch_n_idle(k);
                        assert(start.idle.skip(k as int)[0] == start.idle[k as int]);
                        assert(start.dispatch_n(0) == start);
                    }
                    let figures = self.figures();
                    snapshot.publish_cpu(figures.cpu_in_use);
                    snapshot.publish_active(figures.active_workers);
                    let delivered = deliver(&worker_txs[worker_id], task);
                    log.push(Handout { worker_id, task, delivered });
                    proof {
                        start.lemma_dispatch_n_keeps(log@.len());
                        assert(log@[k as int].worker_id == start.idle[k as int]);
                    }
                    if !delivered {
                        return log;
                    }
                },
            }
        }
    }

    /// Takes in one event, dispatches as much as the budget and the idle
    /// pool allow, republishes the figures for the monitor, and tells whether
    /// all the tasks of the run have completed, which is when the manager
    /// closes up shop.
    ///
    /// Returns what was handed out and whether the run is finished.
    pub fn handle_event(&mut self, ev: Event, worker_txs: &[Sender<Task>], snapshot: &MgrSnapshot) -> (outcome: (
        Vec<Handout>,
        bool,
    ))
        requires
            old(self)@.wf(),
            ev is Freed ==> old(self)@.tasks_completed < u64::MAX,
            old(self)@.on_event(ev).reaches_known_workers(worker_txs@.len()),
        ensures
            final(self)@.wf(),
            old(self)@.on_event(ev).hands_out(final(self)@, outcome.0@),
            outcome.1 == (final(self)@.tasks_completed >= final(self)@.total_tasks),
    {
        self.on_event(ev, snapshot);
        let log = self.dispatch_loop(worker_txs, snapshot);
        self.publish(snapshot);
        let finished = self.is_finished();
        (log, finished)
    }

    /// The number of completed tasks counted so far.
    pub fn tasks_completed(&self) -> (n: u64)
        ensures
            n == self@.tasks_completed,
    {
        self.tasks_completed
    }

    /// The figures this state publishes for the monitor.
    pub fn figures(&self) -> (f: Figures)
        ensures
            f == self@.figures(),
            f.cpu_in_use == self@.cpu_in_use,
            f.active_workers == self@.active_workers,
            self@.fifo_q.len() + self@.cpu_q.len() + self@.io_q.len() <= usize::MAX ==> f.queue_len
                == self@.fifo_q.len() + self@.cpu_q.len() + self@.io_q.len(),
    {
        Figures {
            cpu_in_use: self.cpu_in_use,
            active_workers: self.active_workers,
            queue_len: self.fifo_q.len().saturating_add(self.cpu_q.len()).saturating_add(self.io_q.len()),
        }
    }

    /// Republishes for the monitor the queue length and the CPU share in use,
    /// as `figures()` gives them.
    pub fn publish(&self, snapshot: &MgrSnapshot) {
        let figures = self.figures();
        snapshot.publish_queue_len(figures.queue_len);
        snapshot.publish_cpu(figures.cpu_in_use);
    }

    /// Whether all the tasks of the run have completed, which is when the
    /// manager closes up shop.
    pub fn is_finished(&self) -> (done: bool)
        ensures
            done == (self@.tasks_completed >= self@.total_tasks),
    {
        self.tasks_completed >= self.total_tasks
    }
}

} // verus!
