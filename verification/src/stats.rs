//! Counters of what the pool has done, and the statistics drawn from them.

use vstd::prelude::*;

verus! {

/// Running totals. Each of them wraps around at the end of its range.
#[derive(Debug, Clone, Copy, PartialEq, Eq, Structural)]
pub struct Counters {
    pub total_enqueued: usize,
    pub total_executed: usize,
    pub total_wait_ms: u64,
    pub total_exec_ms: u64,
}

/// The milliseconds that a task waited which was submitted at `enqueue_tick`
/// and started at `start_tick`; 0 where that was not measured.
pub open spec fn waited_ms(enqueue_tick: u64, start_tick: u64) -> u64 {
    if enqueue_tick > 0 && start_tick >= enqueue_tick {
        (start_tick - enqueue_tick) as u64
    } else {
        0
    }
}

impl Counters {
    /// All totals at 0.
    pub open spec fn zero() -> Self {
        Counters { total_enqueued: 0, total_executed: 0, total_wait_ms: 0, total_exec_ms: 0 }
    }

    /// The totals after one more task was submitted.
    pub open spec fn with_enqueued(self) -> Self {
        Counters { total_enqueued: self.total_enqueued.wrapping_add(1), ..self }
    }

    /// The totals after a task was started.
    pub open spec fn with_wait(self, enqueue_tick: u64, start_tick: u64) -> Self {
        Counters {
            total_wait_ms: self.total_wait_ms.wrapping_add(waited_ms(enqueue_tick, start_tick)),
            ..self
        }
    }

    /// The totals after a task has ended.
    pub open spec fn with_execution(self, exec_start: u64, exec_end: u64) -> Self {
        Counters {
            total_executed: self.total_executed.wrapping_add(1),
            total_exec_ms: self.total_exec_ms.wrapping_add((exec_end - exec_start) as u64),
            ..self
        }
    }

    /// All totals at 0.
    pub fn new() -> (counters: Self)
        ensures
            counters == Self::zero(),
    {
        Counters { total_enqueued: 0, total_executed: 0, total_wait_ms: 0, total_exec_ms: 0 }
    }

    /// Counts a submitted task.
    pub fn add_enqueued(&mut self)
        ensures
            *final(self) == old(self).with_enqueued(),
    {
        self.total_enqueued = self.total_enqueued.wrapping_add(1);
    }

    /// Adds the time that a task has waited in its queue.
    pub fn add_wait(&mut self, enqueue_tick: u64, start_tick: u64)
        ensures
            *final(self) == old(self).with_wait(enqueue_tick, start_tick),
    {
        if enqueue_tick > 0 && start_tick >= enqueue_tick {
            self.total_wait_ms = self.total_wait_ms.wrapping_add(start_tick - enqueue_tick);
        }
    }

    /// Counts an executed task and adds the time that it took.
    pub fn add_execution(&mut self, exec_start: u64, exec_end: u64)
        requires
            exec_start <= exec_end,
        ensures
            *final(self) == old(self).with_execution(exec_start, exec_end),
    {
        self.total_exec_ms = self.total_exec_ms.wrapping_add(exec_end - exec_start);
        self.total_executed = self.total_executed.wrapping_add(1);
    }
}

/// A mean number of milliseconds, as the exact fraction `total_ms / tasks`.
#[derive(Debug, Clone, Copy, PartialEq, Eq, Structural)]
pub struct MeanMs {
    pub total_ms: u64,
    pub tasks: usize,
}

impl MeanMs {
    /// The mean of `total_ms` over `tasks` tasks; 0 where there is none.
    pub open spec fn of(total_ms: u64, tasks: usize) -> Self {
        if tasks > 0 {
            MeanMs { total_ms, tasks }
        } else {
            MeanMs { total_ms: 0, tasks: 1 }
        }
    }

    /// The mean of `total_ms` over `tasks` tasks. The denominator is never 0.
    pub fn new(total_ms: u64, tasks: usize) -> (mean: Self)
        ensures
            mean == Self::of(total_ms, tasks),
            mean.tasks > 0,
    {
        if tasks > 0 {
            MeanMs { total_ms, tasks }
        } else {
            MeanMs { total_ms: 0, tasks: 1 }
        }
    }
}

/// Structure with pool stats.
#[derive(Debug, Clone, Copy, PartialEq, Eq, Structural)]
pub struct PoolStats {
    pub total_enqueued: usize,
    pub total_executed: usize,
    pub avg_wait_ms: MeanMs,
    pub avg_exec_ms: MeanMs,
    pub current_queue: usize,
    pub high_queue: usize,
    pub low_queue: usize,
}

} // verus!
