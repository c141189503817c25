use tasksim::metrics::{summarize, DoneRecord, MonitorSample, Reporter};
use tasksim::task::TaskKind;

fn rec(id: u64, kind: TaskKind, arrival: u64, started: u64, finished: u64) -> DoneRecord {
    DoneRecord { id, kind, worker_id: 0, arrival, started, finished }
}

#[test]
fn record_durations() {
    let r = rec(0, TaskKind::Cpu, 100, 250, 650);
    assert_eq!(r.wait(), 150);
    assert_eq!(r.turnaround(), 550);
    assert_eq!(r.service(), 400);
    assert_eq!(r.wait() + r.service(), r.turnaround());
}

#[test]
fn record_durations_saturate() {
    let r = rec(0, TaskKind::Io, 500, 400, 300);
    assert_eq!(r.wait(), 0);
    assert_eq!(r.turnaround(), 0);
    assert_eq!(r.service(), 0);
}

#[test]
fn reporter_accumulates_ticks() {
    let mut r = Reporter::default();
    assert_eq!(r.samples, 0);
    r.record(45, 2, 3);
    r.record(100, 8, 1);
    r.record(0, 0, 7);
    assert_eq!(r.samples, 3);
    assert_eq!(r.cpu_total, 145);
    assert_eq!(r.active_total, 10);
    assert_eq!(r.queue_len_total, 11);
    assert_eq!(r.queue_len_max, 7);
}

#[test]
fn summary_of_a_small_run() {
    let records = vec![
        rec(0, TaskKind::Cpu, 10, 20, 50),
        rec(1, TaskKind::Io, 10, 15, 40),
        rec(2, TaskKind::Io, 30, 30, 90),
    ];
    let mut rep = Reporter::default();
    rep.record(45, 2, 3);
    rep.record(80, 4, 5);
    let s = summarize(&records, &rep, 8, 5);
    assert_eq!(s.total_completed, 3);
    assert_eq!(s.cpu_completed, 1);
    assert_eq!(s.io_completed, 2);
    assert_eq!(s.makespan, 85);
    // waits 10, 5, 0
    assert_eq!(s.avg_wait, 5);
    assert_eq!(s.max_wait, 10);
    // turnarounds 40, 30, 60
    assert_eq!(s.avg_turnaround, 43);
    // services 30, 25, 60
    assert_eq!(s.total_service, 115);
    assert_eq!(s.max_queue_len, 5);
    assert_eq!(s.samples, 2);
    assert_eq!(s.cpu_total, 125);
    assert_eq!(s.active_total, 6);
    assert_eq!(s.queue_len_total, 8);
    assert_eq!(s.workers, 8);
}

#[test]
fn summary_of_an_empty_run() {
    let s = summarize(&[], &Reporter::default(), 8, 1000);
    assert_eq!(s.total_completed, 0);
    assert_eq!(s.makespan, 0);
    assert_eq!(s.avg_wait, 0);
    assert_eq!(s.max_wait, 0);
    assert_eq!(s.avg_turnaround, 0);
    assert_eq!(s.total_service, 0);
    assert_eq!(s.samples, 1);
}

#[test]
fn makespan_counts_from_the_start() {
    let records = vec![rec(0, TaskKind::Io, 0, 0, 30), rec(1, TaskKind::Io, 0, 0, 20)];
    let s = summarize(&records, &Reporter::default(), 1, 50);
    assert_eq!(s.makespan, 0);
    let s = summarize(&records, &Reporter::default(), 1, 10);
    assert_eq!(s.makespan, 20);
}

#[test]
fn monitor_sample_defaults_to_zero() {
    let m = MonitorSample::default();
    assert_eq!((m.cpu_in_use, m.active_workers, m.ready_queue_len), (0, 0, 0));
}
