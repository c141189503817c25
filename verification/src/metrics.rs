//! The metrics of a run: what each finished task reports, what the monitor
//! accumulates on its ticks, and the summary printed at the end of a run.
//!
//! Times are whole nanoseconds counted from the origin the surrounding
//! program chose for its clock; the averages that need fractions are left
//! to the program, which derives them from the counts a `Summary` carries.

use vstd::prelude::*;
use crate::task::TaskKind;

verus! {

/// What a worker reports for each task it ran.
#[derive(Clone, Debug)]
pub struct DoneRecord {
    pub id: u64,
    pub kind: TaskKind,
    pub worker_id: usize,
    pub arrival: u64,
    pub started: u64,
    pub finished: u64,
}

/// How long after `earlier` the time `later` is; zero when it is not later.
pub open spec fn elapsed(earlier: u64, later: u64) -> u64 {
    if later >= earlier { (later - earlier) as u64 } else { 0 }
}

/// The time a finished task waited in the queues.
pub open spec fn wait_of(r: DoneRecord) -> u64 {
    elapsed(r.arrival, r.started)
}

/// The time from a task's arrival to its completion.
pub open spec fn turnaround_of(r: DoneRecord) -> u64 {
    elapsed(r.arrival, r.finished)
}

/// The time a task spent running.
pub open spec fn service_of(r: DoneRecord) -> u64 {
    elapsed(r.started, r.finished)
}

impl DoneRecord {
    /// The time the task waited before it started.
    pub fn wait(&self) -> (d: u64)
        ensures
            d == wait_of(*self),
            self.arrival <= self.started ==> d == self.started - self.arrival,
            self.started < self.arrival ==> d == 0,
    {
        self.started.saturating_sub(self.arrival)
    }

    /// The time from the task's arrival to its completion.
    pub fn turnaround(&self) -> (d: u64)
        ensures
            d == turnaround_of(*self),
            self.arrival <= self.finished ==> d == self.finished - self.arrival,
            self.finished < self.arrival ==> d == 0,
    {
        self.finished.saturating_sub(self.arrival)
    }

    /// The time the task ran.
    pub fn service(&self) -> (d: u64)
        ensures
            d == service_of(*self),
            self.started <= self.finished ==> d == self.finished - self.started,
            self.finished < self.started ==> d == 0,
    {
        self.finished.saturating_sub(self.started)
    }
}

/// The times of a finished task are differences of its timestamps: how long
/// it waited, ran, and took in all, each zero where the later timestamp is
/// not later.
pub proof fn law_durations_are_timestamp_differences(r: DoneRecord)
    ensures
        r.arrival <= r.started ==> wait_of(r) == r.started - r.arrival,
        r.started <= r.finished ==> service_of(r) == r.finished - r.started,
        r.arrival <= r.finished ==> turnaround_of(r) == r.finished - r.arrival,
        r.started < r.arrival ==> wait_of(r) == 0,
        r.finished < r.started ==> service_of(r) == 0,
        r.finished < r.arrival ==> turnaround_of(r) == 0,
{
}

/// A task that started after it arrived and finished after it started
/// waited and ran for exactly its turnaround time.
pub proof fn law_wait_plus_service_is_turnaround(r: DoneRecord)
    requires
        r.arrival <= r.started <= r.finished,
    ensures
        wait_of(r) + service_of(r) == turnaround_of(r),
{
}

/// What the monitor sees on one tick.
#[derive(Clone, Debug, Default)]
pub struct MonitorSample {
    pub cpu_in_use: u8,
    pub active_workers: u8,
    pub ready_queue_len: usize,
}

/// Tracker for the monitor's metrics.
#[derive(Clone, Debug)]
pub struct Reporter {
    pub samples: u64,
    pub cpu_total: u64,
    pub active_total: u64,
    pub queue_len_total: u64,
    pub queue_len_max: usize,
}

impl Default for Reporter {
    /// No sample taken yet.
    fn default() -> (r: Self)
        ensures
            r.samples == 0,
            r.cpu_total == 0,
            r.active_total == 0,
            r.queue_len_total == 0,
            r.queue_len_max == 0,
    {
        Reporter { samples: 0, cpu_total: 0, active_total: 0, queue_len_total: 0, queue_len_max: 0 }
    }
}

impl Reporter {
    /// Counts one tick of the monitor that saw `cpu` percent of the CPU in
    /// use, `active` busy workers and `queue_len` queued tasks.
    pub fn record(&mut self, cpu: u8, active: u8, queue_len: usize)
        requires
            old(self).samples < u64::MAX,
            old(self).cpu_total + cpu <= u64::MAX,
            old(self).active_total + active <= u64::MAX,
            old(self).queue_len_total + queue_len <= u64::MAX,
        ensures
            final(self).samples == old(self).samples + 1,
            final(self).cpu_total == old(self).cpu_total + cpu,
            final(self).active_total == old(self).active_total + active,
            final(self).queue_len_total == old(self).queue_len_total + queue_len,
            final(self).queue_len_max == (if queue_len > old(self).queue_len_max {
                queue_len
            } else {
                old(self).queue_len_max
            }),
    {
        self.samples = self.samples + 1;
        self.cpu_total = self.cpu_total + cpu as u64;
        self.active_total = self.active_total + active as u64;
        self.queue_len_total = self.queue_len_total + queue_len as u64;
        if queue_len > self.queue_len_max {
            self.queue_len_max = queue_len;
        }
    }
}

/// The number of CPU-bound tasks among the records.
pub open spec fn count_cpu(s: Seq<DoneRecord>) -> nat
    decreases s.len(),
{
    if s.len() == 0 {
        0
    } else {
        count_cpu(s.drop_last()) + if s.last().kind == TaskKind::Cpu { 1nat } else { 0nat }
    }
}

/// The sum of the waiting times of the records.
pub open spec fn total_wait(s: Seq<DoneRecord>) -> nat
    decreases s.len(),
{
    if s.len() == 0 { 0 } else { total_wait(s.drop_last()) + wait_of(s.last()) as nat }
}

/// The sum of the turnaround times of the records.
pub open spec fn total_turnaround(s: Seq<DoneRecord>) -> nat
    decreases s.len(),
{
    if s.len() == 0 { 0 } else { total_turnaround(s.drop_last()) + turnaround_of(s.last()) as nat }
}

/// The sum of the running times of the records.
pub open spec fn total_service(s: Seq<DoneRecord>) -> nat
    decreases s.len(),
{
    if s.len() == 0 { 0 } else { total_service(s.drop_last()) + service_of(s.last()) as nat }
}

/// The longest waiting time among the records, zero when there are none.
pub open spec fn longest_wait(s: Seq<DoneRecord>) -> u64
    decreases s.len(),
{
    if s.len() == 0 {
        0
    } else {
        let m = longest_wait(s.drop_last());
        if wait_of(s.last()) > m { wait_of(s.last()) } else { m }
    }
}

/// The latest completion among the records, zero when there are none.
pub open spec fn latest_finish(s: Seq<DoneRecord>) -> u64
    decreases s.len(),
{
    if s.len() == 0 {
        0
    } else {
        let m = latest_finish(s.drop_last());
        if s.last().finished > m { s.last().finished } else { m }
    }
}

/// What the averages are divided by for `n` records: the count, with an
/// empty run counted as one, kept to its lowest 32 bits.
pub open spec fn divisor(n: nat) -> nat {
    if n == 0 { 1 } else { n % 0x1_0000_0000 }
}

/// The final summary of a run.
///
/// Durations are in nanoseconds. The fractional figures of the report (the
/// average CPU usage, busy workers and queue length over the monitor's
/// samples, and the workers' utilization) are the ratios of the counts
/// carried here.
#[derive(Debug)]
pub struct Summary {
    pub total_completed: usize,
    pub cpu_completed: usize,
    pub io_completed: usize,
    pub makespan: u64,
    pub avg_wait: u128,
    pub max_wait: u64,
    pub avg_turnaround: u128,
    pub max_queue_len: usize,
    /// The summed running time of all the tasks.
    pub total_service: u128,
    /// The number of monitor samples, counted as one when there were none.
    pub samples: u64,
    pub cpu_total: u64,
    pub active_total: u64,
    pub queue_len_total: u64,
    pub workers: usize,
}

/// Summarises a run from the records of its finished tasks, the monitor's
/// tracker, the number of workers and the time the run started.
///
/// The makespan runs from the start to the latest completion (zero without
/// records); the averages are whole nanoseconds, rounded down.
pub fn summarize(records: &[DoneRecord], reporter: &Reporter, workers: usize, sim_start: u64) -> (s: Summary)
    requires
        divisor(records@.len()) != 0,
    ensures
        s.total_completed == records@.len(),
        s.cpu_completed == count_cpu(records@),
        s.io_completed == records@.len() - count_cpu(records@),
        s.makespan == (if records@.len() == 0 { 0 } else { elapsed(sim_start, latest_finish(records@)) }),
        s.avg_wait == total_wait(records@) / divisor(records@.len()),
        s.max_wait == longest_wait(records@),
        s.avg_turnaround == total_turnaround(records@) / divisor(records@.len()),
        s.max_queue_len == reporter.queue_len_max,
        s.total_service == total_service(records@),
        s.samples == (if reporter.samples == 0 { 1 } else { reporter.samples }),
        s.cpu_total == reporter.cpu_total,
        s.active_total == reporter.active_total,
        s.queue_len_total == reporter.queue_len_total,
        s.workers == workers,
{
    let total = records.len();
    let mut cpu: usize = 0;
    let mut sum_wait: u128 = 0;
    let mut max_wait: u64 = 0;
    let mut sum_turn: u128 = 0;
    let mut sum_service: u128 = 0;
    let mut last_finish: u64 = 0;
    let mut i: usize = 0;
    while i < total
        invariant
            total == records@.len(),
            i <= total,
            cpu == count_cpu(records@.take(i as int)),
            cpu <= i,
            sum_wait == total_wait(records@.take(i as int)),
            sum_turn == total_turnaround(records@.take(i as int)),
            sum_service == total_service(records@.take(i as int)),
            sum_wait <= i * 0xffff_ffff_ffff_ffffu128,
            sum_turn <= i * 0xffff_ffff_ffff_ffffu128,
            sum_service <= i * 0xffff_ffff_ffff_ffffu128,
            max_wait == longest_wait(records@.take(i as int)),
            last_finish == latest_finish(records@.take(i as int)),
        decreases total - i,
    {
        let r = &records[i];
        assert(records@.take(i + 1).drop_last() =~= records@.take(i as int));
        assert(records@.take(i + 1).last() == records@[i as int]);
        match r.kind {
            TaskKind::Cpu => {
                cpu = cpu + 1;
            },
            TaskKind::Io => {},
        }
        let w = r.wait();
        sum_wait = sum_wait + w as u128;
        if w > max_wait {
            max_wait = w;
        }
        sum_turn = sum_turn + r.turnaround() as u128;
        sum_service = sum_service + r.service() as u128;
        if r.finished > last_finish {
            last_finish = r.finished;
        }
        i = i + 1;
    }
    assert(records@.take(total as int) =~= records@);
    let makespan = if total == 0 { 0 } else { last_finish.saturating_sub(sim_start) };
    let n: u128 = if total == 0 {
        1
    } else {
        ((total as u64) % 0x1_0000_0000u64) as u128
    };
    let samples = if reporter.samples == 0 { 1 } else { reporter.samples };
    Summary {
        total_completed: total,
        cpu_completed: cpu,
        io_completed: total - cpu,
        makespan,
        avg_wait: sum_wait / n,
        max_wait,
        avg_turnaround: sum_turn / n,
        max_queue_len: reporter.queue_len_max,
        total_service: sum_service,
        samples,
        cpu_total: reporter.cpu_total,
        active_total: reporter.active_total,
        queue_len_total: reporter.queue_len_total,
        workers,
    }
}

/// The longest wait is at least the wait of every record.
pub proof fn law_longest_wait_bounds_every_wait(s: Seq<DoneRecord>, i: int)
    requires
        0 <= i < s.len(),
    ensures
        wait_of(s[i]) <= longest_wait(s),
    decreases s.len(),
{
    if i < s.len() - 1 {
        law_longest_wait_bounds_every_wait(s.drop_last(), i);
        assert(s.drop_last()[i] == s[i]);
    }
}

/// The waits add up to at most the number of records times the longest.
proof fn lemma_total_wait_bounded(s: Seq<DoneRecord>)
    ensures
        total_wait(s) <= s.len() * longest_wait(s),
    decreases s.len(),
{
    if s.len() > 0 {
        let t = s.drop_last();
        lemma_total_wait_bounded(t);
        let m = longest_wait(t) as int;
        let big = longest_wait(s) as int;
        assert(t.len() * m <= t.len() * big) by (nonlinear_arith)
            requires
                m <= big,
                t.len() >= 0,
        ;
        assert(t.len() * big + big == s.len() * big) by (nonlinear_arith)
            requires
                s.len() == t.len() + 1,
        ;
    }
}

/// The average wait of a run never exceeds its longest wait (for runs with
/// fewer records than the averages' 32-bit divisor can count).
pub proof fn law_average_wait_at_most_longest(s: Seq<DoneRecord>)
    requires
        0 < s.len() < 0x1_0000_0000,
    ensures
        total_wait(s) / divisor(s.len()) <= longest_wait(s),
{
    lemma_total_wait_bounded(s);
    let n = s.len() as int;
    let t = total_wait(s) as int;
    let m = longest_wait(s) as int;
    assert(divisor(s.len()) == n);
    assert(t / n <= m) by (nonlinear_arith)
        requires
            t <= n * m,
            n > 0,
            t >= 0,
    ;
}

/// The sum of `f` over the records.
pub open spec fn sum_by(s: Seq<DoneRecord>, f: spec_fn(DoneRecord) -> nat) -> nat
    decreases s.len(),
{
    if s.len() == 0 { 0 } else { sum_by(s.drop_last(), f) + f(s.last()) }
}

/// The largest value of `f` over the records, zero when there are none.
pub open spec fn max_by(s: Seq<DoneRecord>, f: spec_fn(DoneRecord) -> u64) -> u64
    decreases s.len(),
{
    if s.len() == 0 {
        0
    } else {
        let m = max_by(s.drop_last(), f);
        if f(s.last()) > m { f(s.last()) } else { m }
    }
}

proof fn lemma_sum_by_remove(s: Seq<DoneRecord>, i: int, f: spec_fn(DoneRecord) -> nat)
    requires
        0 <= i < s.len(),
    ensures
        sum_by(s, f) == sum_by(s.remove(i), f) + f(s[i]),
    decreases s.len(),
{
    if i == s.len() - 1 {
        assert(s.remove(i) =~= s.drop_last());
    } else {
        lemma_sum_by_remove(s.drop_last(), i, f);
        assert(s.remove(i).drop_last() =~= s.drop_last().remove(i));
        assert(s.remove(i).last() == s.last());
    }
}

proof fn lemma_max_by_remove(s: Seq<DoneRecord>, i: int, f: spec_fn(DoneRecord) -> u64)
    requires
        0 <= i < s.len(),
    ensures
        max_by(s, f) == (if f(s[i]) > max_by(s.remove(i), f) { f(s[i]) } else { max_by(s.remove(i), f) }),
    decreases s.len(),
{
    if i == s.len() - 1 {
        assert(s.remove(i) =~= s.drop_last());
    } else {
        lemma_max_by_remove(s.drop_last(), i, f);
        assert(s.remove(i).drop_last() =~= s.drop_last().remove(i));
        assert(s.remove(i).last() == s.last());
    }
}

/// Two orderings of the same records: the last of the first, and where it
/// stands in the second, leave the same records when taken out.
proof fn lemma_same_records_split(s1: Seq<DoneRecord>, s2: Seq<DoneRecord>) -> (i: int)
    requires
        s1.len() > 0,
        s1.to_multiset() == s2.to_multiset(),
    ensures
        0 <= i < s2.len(),
        s2[i] == s1.last(),
        s1.drop_last().to_multiset() == s2.remove(i).to_multiset(),
{
    broadcast use vstd::seq_lib::group_to_multiset_ensures;
    broadcast use vstd::multiset::group_multiset_axioms;

    let x = s1.last();
    assert(s1.drop_last().push(x) =~= s1);
    assert(s1.to_multiset() =~= s1.drop_last().to_multiset().insert(x));
    assert(s2.to_multiset().count(x) > 0);
    assert(s2.contains(x));
    let i = choose|i: int| 0 <= i < s2.len() && s2[i] == x;
    assert(s2.remove(i).to_multiset() =~= s2.to_multiset().remove(x));
    assert(s1.drop_last().to_multiset() =~= s1.to_multiset().remove(x));
    i
}

proof fn lemma_sum_by_same_records(s1: Seq<DoneRecord>, s2: Seq<DoneRecord>, f: spec_fn(DoneRecord) -> nat)
    requires
        s1.to_multiset() == s2.to_multiset(),
    ensures
        sum_by(s1, f) == sum_by(s2, f),
    decreases s1.len(),
{
    broadcast use vstd::seq_lib::group_to_multiset_ensures;

    if s1.len() == 0 {
        assert(s2.to_multiset().len() == 0);
    } else {
        let i = lemma_same_records_split(s1, s2);
        lemma_sum_by_same_records(s1.drop_last(), s2.remove(i), f);
        lemma_sum_by_remove(s2, i, f);
    }
}

proof fn lemma_max_by_same_records(s1: Seq<DoneRecord>, s2: Seq<DoneRecord>, f: spec_fn(DoneRecord) -> u64)
    requires
        s1.to_multiset() == s2.to_multiset(),
    ensures
        max_by(s1, f) == max_by(s2, f),
    decreases s1.len(),
{
    broadcast use vstd::seq_lib::group_to_multiset_ensures;

    if s1.len() == 0 {
        assert(s2.to_multiset().len() == 0);
    } else {
        let i = lemma_same_records_split(s1, s2);
        lemma_max_by_same_records(s1.drop_last(), s2.remove(i), f);
        lemma_max_by_remove(s2, i, f);
    }
}

proof fn lemma_aggregates_are_sums_and_maxima(s: Seq<DoneRecord>)
    ensures
        count_cpu(s) == sum_by(s, |r: DoneRecord| if r.kind == TaskKind::Cpu { 1nat } else { 0nat }),
        total_wait(s) == sum_by(s, |r: DoneRecord| wait_of(r) as nat),
        total_turnaround(s) == sum_by(s, |r: DoneRecord| turnaround_of(r) as nat),
        total_service(s) == sum_by(s, |r: DoneRecord| service_of(r) as nat),
        longest_wait(s) == max_by(s, |r: DoneRecord| wait_of(r)),
        latest_finish(s) == max_by(s, |r: DoneRecord| r.finished),
    decreases s.len(),
{
    if s.len() > 0 {
        lemma_aggregates_are_sums_and_maxima(s.drop_last());
    }
}

/// The summary of a run does not depend on the order in which the records
/// were collected: the same records in any order give the same counts,
/// sums and maxima.
pub proof fn law_summary_ignores_record_order(s1: Seq<DoneRecord>, s2: Seq<DoneRecord>)
    requires
        s1.to_multiset() == s2.to_multiset(),
    ensures
        s1.len() == s2.len(),
        count_cpu(s1) == count_cpu(s2),
        total_wait(s1) == total_wait(s2),
        total_turnaround(s1) == total_turnaround(s2),
        total_service(s1) == total_service(s2),
        longest_wait(s1) == longest_wait(s2),
        latest_finish(s1) == latest_finish(s2),
{
    broadcast use vstd::seq_lib::group_to_multiset_ensures;

    assert(s1.len() == s1.to_multiset().len());
    lemma_aggregates_are_sums_and_maxima(s1);
    lemma_aggregates_are_sums_and_maxima(s2);
    lemma_sum_by_same_records(s1, s2, |r: DoneRecord| if r.kind == TaskKind::Cpu { 1nat } else { 0nat });
    lemma_sum_by_same_records(s1, s2, |r: DoneRecord| wait_of(r) as nat);
    lemma_sum_by_same_records(s1, s2, |r: DoneRecord| turnaround_of(r) as nat);
    lemma_sum_by_same_records(s1, s2, |r: DoneRecord| service_of(r) as nat);
    lemma_max_by_same_records(s1, s2, |r: DoneRecord| wait_of(r));
    lemma_max_by_same_records(s1, s2, |r: DoneRecord| r.finished);
}

} // verus!
