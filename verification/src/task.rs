use vstd::prelude::*;

verus! {

/// The two kinds of simulated work.
#[derive(Clone, Copy, Debug, PartialEq, Eq, Structural)]
pub enum TaskKind {
    Cpu,
    Io,
}

/// Share of the global CPU budget, in percent, that a task of kind `k` holds
/// while it runs: CPU-bound work takes 35, IO-bound work 10.
pub open spec fn kind_cost(k: TaskKind) -> u8 {
    match k {
        TaskKind::Cpu => 35,
        TaskKind::Io => 10,
    }
}

impl TaskKind {
    /// CPU = 35%, IO = 10% of the global CPU budget.
    pub fn cpu_cost(self) -> (cost: u8)
        ensures
            cost == kind_cost(self),
    {
        match self {
            TaskKind::Cpu => 35,
            TaskKind::Io => 10,
        }
    }
}

/// One unit of simulated work.
///
/// Times are whole numbers: `arrival_time` is in nanoseconds, counted from
/// the origin that the surrounding program chose for its clock, and
/// `duration` is how long the work takes, in milliseconds.
#[derive(Clone, Copy, Debug)]
pub struct Task {
    pub id: u64,
    pub arrival_time: u64,
    pub kind: TaskKind,
    pub duration: u64,
    pub cpu_cost: u8,
}

impl Task {
    /// A task of the given kind; its CPU cost is the one of its kind.
    pub fn new(id: u64, kind: TaskKind, duration: u64, arrival_time: u64) -> (t: Self)
        ensures
            t.id == id,
            t.kind == kind,
            t.duration == duration,
            t.arrival_time == arrival_time,
            t.cpu_cost == kind_cost(kind),
    {
        Self { id, arrival_time, kind, duration, cpu_cost: kind.cpu_cost() }
    }
}

} // verus!
