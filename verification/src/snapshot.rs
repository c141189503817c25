//! The figures that the manager publishes for the monitor.

use std::sync::Arc;
use std::sync::atomic::{AtomicU8, AtomicUsize, Ordering};
use vstd::prelude::*;

verus! {

/// The figures the manager hands to the monitor: the CPU share in use, the
/// number of busy workers and the number of queued tasks.
#[derive(Clone, Copy, Debug, PartialEq, Eq, Structural)]
pub struct Figures {
    pub cpu_in_use: u8,
    pub active_workers: u8,
    pub queue_len: usize,
}

/// Read-only view that the monitor thread checks on every tick.
///
/// The counters are shared atomics; what they hold at any moment depends on
/// the threads that write them, so no contract here speaks of their values.
#[derive(Clone)]
pub struct MgrSnapshot {
    pub cpu_in_use: Arc<AtomicU8>,
    pub active_workers: Arc<AtomicU8>,
    pub queue_len: Arc<AtomicUsize>,
}

impl MgrSnapshot {
    /// Three fresh counters, each created holding zero.
    pub fn new() -> Self {
        Self {
            cpu_in_use: Arc::new(AtomicU8::new(0)),
            active_workers: Arc::new(AtomicU8::new(0)),
            queue_len: Arc::new(AtomicUsize::new(0)),
        }
    }

    /// Publishes the CPU share in use.
    pub(crate) fn publish_cpu(&self, cpu_in_use: u8) {
        self.cpu_in_use.store(cpu_in_use, Ordering::Relaxed);
    }

    /// Publishes the number of busy workers.
    pub(crate) fn publish_active(&self, active_workers: u8) {
        self.active_workers.store(active_workers, Ordering::Relaxed);
    }

    /// Publishes the number of queued tasks.
    pub(crate) fn publish_queue_len(&self, queue_len: usize) {
        self.queue_len.store(queue_len, Ordering::Relaxed);
    }
}

} // verus!
