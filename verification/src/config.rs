//! The simulation presets.
//!
//! They come with two policies: plain FIFO and an optimised "packed" policy.

use vstd::prelude::*;

verus! {

/// How the manager picks the next task.
#[derive(Clone, Copy, Debug, PartialEq, Eq, Structural)]
pub enum Policy {
    /// The FIFO approach, not fast.
    Fifo,
    /// Pack CPU + IO so that we max out to 100% CPU utilization.
    Optimize,
}

/// The workload preset a run was built from.
#[derive(Clone, Copy, Debug, PartialEq, Eq, Structural)]
pub enum WorkloadKind {
    /// 70% IO / 30% CPU: the "balanced" preset.
    Balanced,
    /// 80% IO / 20% CPU: a preset to stress FIFO harder.
    Stressed,
}

/// Everything one run of the simulation is configured by.
///
/// The chance that a generated task is IO-bound is `io_percent` in 100.
#[derive(Clone, Debug)]
pub struct Params {
    pub workers: usize,
    pub total_tasks: u64,
    pub arrival_interval_ms: u64,
    pub task_duration_ms: u64,
    pub io_percent: u32,
    pub cpu_budget: u8,
    pub monitor_tick_ms: u64,
    pub rng_seed: u64,
    pub policy: Policy,
    pub workload: WorkloadKind,
}

impl Params {
    /// The balanced preset: 8 workers, 1000 tasks arriving every 20 ms,
    /// each taking 200 ms, 70% of them IO-bound, a CPU budget of 100%,
    /// a monitor tick of 10 ms and the seed 42.
    pub fn balanced(policy: Policy) -> (p: Self)
        ensures
            p.workers == 8,
            p.total_tasks == 1000,
            p.arrival_interval_ms == 20,
            p.task_duration_ms == 200,
            p.io_percent == 70,
            p.cpu_budget == 100,
            p.monitor_tick_ms == 10,
            p.rng_seed == 42,
            p.policy == policy,
            p.workload == WorkloadKind::Balanced,
    {
        Self {
            workers: 8,
            total_tasks: 1000,
            arrival_interval_ms: 20,
            task_duration_ms: 200,
            io_percent: 70,
            cpu_budget: 100,
            monitor_tick_ms: 10,
            rng_seed: 42,
            policy,
            workload: WorkloadKind::Balanced,
        }
    }

    /// The stressed preset: the balanced one with 80% of the tasks IO-bound.
    pub fn stressed(policy: Policy) -> (p: Self)
        ensures
            p.workers == 8,
            p.total_tasks == 1000,
            p.arrival_interval_ms == 20,
            p.task_duration_ms == 200,
            p.io_percent == 80,
            p.cpu_budget == 100,
            p.monitor_tick_ms == 10,
            p.rng_seed == 42,
            p.policy == policy,
            p.workload == WorkloadKind::Stressed,
    {
        let base = Self::balanced(policy);
        Self { io_percent: 80, workload: WorkloadKind::Stressed, ..base }
    }
}

} // verus!
