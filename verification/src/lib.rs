//! A simulated task scheduler: a dispatcher generates CPU- and IO-bound
//! tasks, a manager hands them to a pool of workers while keeping the
//! global CPU usage under a budget, and a monitor samples the load.
//!
//! The library holds what each thread decides: which task is generated
//! next, which queued task goes to which idle worker and how the CPU budget
//! is accounted for, what the monitor accumulates, and how a run is
//! summarised. Starting the threads, waiting on channels, reading the clock,
//! sleeping and printing are left to the program around it.

pub mod config;
pub mod task;
pub mod snapshot;
pub mod manager;
pub mod dispatch_laws;
pub mod generator;
pub mod metrics;
