use std::collections::VecDeque;
use std::sync::atomic::Ordering;
use std::sync::mpsc::{self, Receiver, Sender};
use tasksim::config::{Params, Policy};
use tasksim::manager::{pick_fifo, pick_optimize, Event, Handout, ManagerState};
use tasksim::snapshot::MgrSnapshot;
use tasksim::task::{Task, TaskKind};

fn cpu(id: u64) -> Task {
    Task::new(id, TaskKind::Cpu, 200, id)
}

fn io(id: u64) -> Task {
    Task::new(id, TaskKind::Io, 200, id)
}

fn pool(n: usize) -> (Vec<Sender<Task>>, Vec<Receiver<Task>>) {
    let mut txs = Vec::new();
    let mut rxs = Vec::new();
    for _ in 0..n {
        let (tx, rx) = mpsc::channel();
        txs.push(tx);
        rxs.push(rx);
    }
    (txs, rxs)
}

fn received(rxs: &[Receiver<Task>]) -> Vec<(usize, u64)> {
    let mut out = Vec::new();
    for (w, rx) in rxs.iter().enumerate() {
        while let Ok(t) = rx.try_recv() {
            out.push((w, t.id));
        }
    }
    out.sort();
    out
}

fn settled(log: &[Handout]) -> bool {
    log.last().map_or(true, |h| h.delivered)
}

fn handed(log: &[Handout]) -> Vec<(usize, u64, bool)> {
    log.iter().map(|h| (h.worker_id, h.task.id, h.delivered)).collect()
}

fn manager(policy: Policy) -> ManagerState {
    ManagerState::new(&Params::balanced(policy))
}

fn ready_all(m: &mut ManagerState, n: usize, snap: &MgrSnapshot) {
    for w in 0..n {
        m.on_event(Event::WorkerReady { worker_id: w }, snap);
    }
}

#[test]
fn fifo_takes_the_front_when_it_fits() {
    let mut q: VecDeque<Task> = VecDeque::new();
    q.push_back(cpu(1));
    q.push_back(io(2));
    let t = pick_fifo(&mut q, 65, 100).unwrap();
    assert_eq!(t.id, 1);
    assert_eq!(q.len(), 1);
}

#[test]
fn fifo_blocks_behind_a_front_that_does_not_fit() {
    let mut q: VecDeque<Task> = VecDeque::new();
    q.push_back(cpu(1));
    q.push_back(io(2));
    assert!(pick_fifo(&mut q, 70, 100).is_none());
    assert_eq!(q.len(), 2);
    let mut empty: VecDeque<Task> = VecDeque::new();
    assert!(pick_fifo(&mut empty, 0, 100).is_none());
}

#[test]
fn fifo_allows_filling_the_budget_exactly() {
    let mut q: VecDeque<Task> = VecDeque::new();
    q.push_back(io(1));
    assert_eq!(pick_fifo(&mut q, 90, 100).unwrap().id, 1);
}

#[test]
fn optimize_prefers_cpu_then_falls_back_to_io() {
    let mut cq: VecDeque<Task> = VecDeque::new();
    let mut iq: VecDeque<Task> = VecDeque::new();
    cq.push_back(cpu(1));
    iq.push_back(io(2));
    assert_eq!(pick_optimize(&mut cq, &mut iq, 0, 100).unwrap().id, 1);
    cq.push_back(cpu(3));
    assert_eq!(pick_optimize(&mut cq, &mut iq, 70, 100).unwrap().id, 2);
    assert_eq!(cq.len(), 1);
    assert!(pick_optimize(&mut cq, &mut iq, 95, 100).is_none());
    assert_eq!(cq.len(), 1);
}

#[test]
fn fifo_manager_caps_cpu_at_the_budget() {
    let snap = MgrSnapshot::new();
    let (txs, rxs) = pool(8);
    let mut m = manager(Policy::Fifo);
    ready_all(&mut m, 8, &snap);
    for id in 0..5 {
        m.on_event(Event::Arrived(cpu(id)), &snap);
    }
    m.on_event(Event::Arrived(io(5)), &snap);
    assert!(settled(&m.dispatch_loop(&txs, &snap)));
    // Two CPU tasks use 70%; a third would make 105%.
    assert_eq!(received(&rxs), vec![(0, 0), (1, 1)]);
    assert_eq!(snap.cpu_in_use.load(Ordering::Relaxed), 70);
    assert_eq!(snap.active_workers.load(Ordering::Relaxed), 2);
}

#[test]
fn optimize_manager_packs_io_next_to_cpu() {
    let snap = MgrSnapshot::new();
    let (txs, rxs) = pool(8);
    let mut m = manager(Policy::Optimize);
    ready_all(&mut m, 8, &snap);
    for id in 0..5 {
        m.on_event(Event::Arrived(cpu(id)), &snap);
    }
    for id in 5..12 {
        m.on_event(Event::Arrived(io(id)), &snap);
    }
    assert!(settled(&m.dispatch_loop(&txs, &snap)));
    // 2 x 35 + 3 x 10 = 100.
    assert_eq!(received(&rxs), vec![(0, 0), (1, 1), (2, 5), (3, 6), (4, 7)]);
    assert_eq!(snap.cpu_in_use.load(Ordering::Relaxed), 100);
    m.publish(&snap);
    assert_eq!(snap.queue_len.load(Ordering::Relaxed), 7);
}

#[test]
fn freed_worker_gets_the_next_task() {
    let snap = MgrSnapshot::new();
    let (txs, rxs) = pool(2);
    let mut m = manager(Policy::Fifo);
    ready_all(&mut m, 2, &snap);
    for id in 0..4 {
        m.on_event(Event::Arrived(cpu(id)), &snap);
    }
    assert!(settled(&m.dispatch_loop(&txs, &snap)));
    assert_eq!(received(&rxs), vec![(0, 0), (1, 1)]);
    m.on_event(Event::Freed { worker_id: 1, cpu_cost: 35 }, &snap);
    assert_eq!(m.tasks_completed(), 1);
    assert!(settled(&m.dispatch_loop(&txs, &snap)));
    assert_eq!(received(&rxs), vec![(1, 2)]);
    assert_eq!(snap.cpu_in_use.load(Ordering::Relaxed), 70);
}

#[test]
fn no_idle_worker_means_no_dispatch() {
    let snap = MgrSnapshot::new();
    let (txs, rxs) = pool(2);
    let mut m = manager(Policy::Fifo);
    m.on_event(Event::Arrived(io(0)), &snap);
    assert!(settled(&m.dispatch_loop(&txs, &snap)));
    assert!(received(&rxs).is_empty());
    m.publish(&snap);
    assert_eq!(snap.queue_len.load(Ordering::Relaxed), 1);
}

#[test]
fn freeing_more_than_in_use_stops_at_zero() {
    let snap = MgrSnapshot::new();
    let (txs, rxs) = pool(1);
    let mut m = manager(Policy::Fifo);
    m.on_event(Event::Freed { worker_id: 0, cpu_cost: 35 }, &snap);
    m.on_event(Event::Arrived(cpu(1)), &snap);
    m.on_event(Event::Arrived(cpu(2)), &snap);
    assert!(settled(&m.dispatch_loop(&txs, &snap)));
    assert_eq!(received(&rxs), vec![(0, 1)]);
    assert_eq!(snap.cpu_in_use.load(Ordering::Relaxed), 35);
}

#[test]
fn dead_worker_stops_the_dispatch() {
    let snap = MgrSnapshot::new();
    let (txs, mut rxs) = pool(2);
    drop(rxs.remove(0));
    let mut m = manager(Policy::Fifo);
    ready_all(&mut m, 2, &snap);
    m.on_event(Event::Arrived(io(0)), &snap);
    m.on_event(Event::Arrived(io(1)), &snap);
    assert!(!settled(&m.dispatch_loop(&txs, &snap)));
    assert!(rxs[0].try_recv().is_err());
    // The lost task was still counted; the next dispatch carries on.
    assert_eq!(snap.cpu_in_use.load(Ordering::Relaxed), 10);
    assert!(settled(&m.dispatch_loop(&txs, &snap)));
    assert_eq!(rxs[0].try_recv().unwrap().id, 1);
}

#[test]
fn finishes_after_all_completions() {
    let snap = MgrSnapshot::new();
    let mut p = Params::balanced(Policy::Fifo);
    p.total_tasks = 2;
    let mut m = ManagerState::new(&p);
    assert!(!m.is_finished());
    m.on_event(Event::Freed { worker_id: 0, cpu_cost: 10 }, &snap);
    assert!(!m.is_finished());
    m.on_event(Event::Freed { worker_id: 0, cpu_cost: 10 }, &snap);
    assert!(m.is_finished());
}

#[test]
fn fifo_order_is_arrival_order() {
    let snap = MgrSnapshot::new();
    let (txs, rxs) = pool(1);
    let mut m = manager(Policy::Fifo);
    m.on_event(Event::WorkerReady { worker_id: 0 }, &snap);
    let mut order = Vec::new();
    for id in 0..6 {
        let t = if id % 2 == 0 { io(id) } else { cpu(id) };
        m.on_event(Event::Arrived(t), &snap);
    }
    for _ in 0..6 {
        assert!(settled(&m.dispatch_loop(&txs, &snap)));
        let t = rxs[0].try_recv().unwrap();
        order.push(t.id);
        m.on_event(Event::Freed { worker_id: 0, cpu_cost: t.cpu_cost }, &snap);
    }
    assert_eq!(order, vec![0, 1, 2, 3, 4, 5]);
}

#[test]
fn idle_workers_are_served_in_the_order_they_came() {
    let snap = MgrSnapshot::new();
    let (txs, rxs) = pool(3);
    let mut m = manager(Policy::Optimize);
    for w in [2usize, 0, 1] {
        m.on_event(Event::WorkerReady { worker_id: w }, &snap);
    }
    for id in 0..3 {
        m.on_event(Event::Arrived(io(id)), &snap);
    }
    assert!(settled(&m.dispatch_loop(&txs, &snap)));
    assert_eq!(received(&rxs), vec![(0, 1), (1, 2), (2, 0)]);
    assert_eq!(snap.active_workers.load(Ordering::Relaxed), 3);
    m.on_event(Event::Freed { worker_id: 0, cpu_cost: 10 }, &snap);
    assert_eq!(snap.active_workers.load(Ordering::Relaxed), 2);
}

#[test]
fn hand_outs_name_the_worker_and_task_of_each_step() {
    let snap = MgrSnapshot::new();
    let (txs, rxs) = pool(5);
    let mut m = manager(Policy::Optimize);
    for w in 0..5 {
        m.on_event(Event::WorkerReady { worker_id: w }, &snap);
    }
    for id in 0..3 {
        m.on_event(Event::Arrived(cpu(id)), &snap);
    }
    for id in 3..6 {
        m.on_event(Event::Arrived(io(id)), &snap);
    }
    let log = m.dispatch_loop(&txs, &snap);
    assert_eq!(
        handed(&log),
        vec![(0, 0, true), (1, 1, true), (2, 3, true), (3, 4, true), (4, 5, true)]
    );
    assert_eq!(received(&rxs), vec![(0, 0), (1, 1), (2, 3), (3, 4), (4, 5)]);
    assert_eq!(m.figures().cpu_in_use, 100);
    assert_eq!(m.figures().queue_len, 1);
    assert_eq!(snap.active_workers.load(Ordering::Relaxed), 5);
    assert_eq!(snap.cpu_in_use.load(Ordering::Relaxed), 100);
}

#[test]
fn nothing_to_dispatch_hands_out_nothing() {
    let snap = MgrSnapshot::new();
    let (txs, _rxs) = pool(1);
    let mut m = manager(Policy::Fifo);
    m.on_event(Event::Arrived(cpu(0)), &snap);
    assert!(m.dispatch_loop(&txs, &snap).is_empty());
    assert_eq!(m.figures().queue_len, 1);
    assert_eq!(m.figures().cpu_in_use, 0);
}

#[test]
fn failed_delivery_ends_the_hand_outs() {
    let snap = MgrSnapshot::new();
    let (txs, mut rxs) = pool(3);
    drop(rxs.remove(1));
    let mut m = manager(Policy::Fifo);
    ready_all(&mut m, 3, &snap);
    for id in 0..3 {
        m.on_event(Event::Arrived(io(id)), &snap);
    }
    let log = m.dispatch_loop(&txs, &snap);
    assert_eq!(handed(&log), vec![(0, 0, true), (1, 1, false)]);
    assert_eq!(m.figures().queue_len, 1);
    assert_eq!(m.figures().cpu_in_use, 20);
}

#[test]
fn manager_run_of_two_cpu_tasks_on_one_worker() {
    let snap = MgrSnapshot::new();
    let (txs, rxs) = pool(1);
    let mut p = Params::balanced(Policy::Fifo);
    p.workers = 1;
    p.total_tasks = 2;
    let mut m = ManagerState::new(&p);
    let events = vec![
        Event::WorkerReady { worker_id: 0 },
        Event::Arrived(cpu(0)),
        Event::Arrived(cpu(1)),
        Event::Freed { worker_id: 0, cpu_cost: 35 },
    ];
    for ev in events {
        m.on_event(ev, &snap);
        let _ = m.dispatch_loop(&txs, &snap);
        m.publish(&snap);
        if m.is_finished() {
            break;
        }
    }
    drop(txs);
    assert_eq!(rxs[0].recv().unwrap().id, 0);
    assert_eq!(rxs[0].recv().unwrap().id, 1);
    assert!(rxs[0].recv().is_err());
    assert_eq!(snap.cpu_in_use.load(Ordering::Relaxed), 35);
    assert_eq!(snap.active_workers.load(Ordering::Relaxed), 1);
    assert_eq!(snap.queue_len.load(Ordering::Relaxed), 0);
}

#[test]
fn figures_count_busy_workers() {
    let snap = MgrSnapshot::new();
    let (txs, _rxs) = pool(3);
    let mut m = manager(Policy::Optimize);
    assert_eq!(m.figures().active_workers, 0);
    ready_all(&mut m, 3, &snap);
    for id in 0..3 {
        m.on_event(Event::Arrived(io(id)), &snap);
    }
    let _ = m.dispatch_loop(&txs, &snap);
    assert_eq!(m.figures().active_workers, 3);
    m.on_event(Event::Freed { worker_id: 2, cpu_cost: 10 }, &snap);
    let f = m.figures();
    assert_eq!((f.cpu_in_use, f.active_workers, f.queue_len), (20, 2, 0));
    assert_eq!(snap.active_workers.load(Ordering::Relaxed), 2);
}

#[test]
fn handle_event_takes_in_dispatches_and_reports_completion() {
    let snap = MgrSnapshot::new();
    let (txs, rxs) = pool(1);
    let mut p = Params::balanced(Policy::Fifo);
    p.total_tasks = 1;
    let mut m = ManagerState::new(&p);
    let (log, done) = m.handle_event(Event::Arrived(cpu(0)), &txs, &snap);
    assert!(log.is_empty() && !done);
    assert_eq!(snap.queue_len.load(Ordering::Relaxed), 1);
    let (log, done) = m.handle_event(Event::WorkerReady { worker_id: 0 }, &txs, &snap);
    assert_eq!(handed(&log), vec![(0, 0, true)]);
    assert!(!done);
    assert_eq!(snap.queue_len.load(Ordering::Relaxed), 0);
    assert_eq!(snap.cpu_in_use.load(Ordering::Relaxed), 35);
    assert_eq!(rxs[0].try_recv().unwrap().id, 0);
    let (log, done) = m.handle_event(Event::Freed { worker_id: 0, cpu_cost: 35 }, &txs, &snap);
    assert!(log.is_empty() && done);
    assert_eq!(snap.cpu_in_use.load(Ordering::Relaxed), 0);
    assert_eq!(snap.active_workers.load(Ordering::Relaxed), 0);
}
