//! The core of a fixed-size thread pool: two bounded priority queues, the
//! decisions of submitters, workers and shutdown, task results and statistics.
//!
//! Every function takes the pool by reference and runs to completion without
//! blocking. Where a thread has to wait, create a handle or release a
//! semaphore, the function's result says so, and the caller does it.

pub mod calls;
pub mod course;
pub mod laws;
pub mod pool;
pub mod queues;
pub mod results;
pub mod ring;
pub mod stats;
pub mod tally;
pub mod task;
pub mod threads;

pub use crate::pool::{
    get_pool_stats, initialize_pool, reset_pool_stats, set_event, shutdown_pool, store_handles,
    submit_closure, submit_task, submit_task_prioritized, submit_task_with_return, worker_thread,
    FreedRoom, Phase, Pool, PoolLayout, SemaphoreLayout, ShutdownAction, ShutdownStage, Submission,
    TaskHandle, WorkerAction, WorkerStage,
};
pub use crate::queues::{Entry, Priority, QueueItem, TaskQueues, Wake};
pub use crate::results::ResultTable;
pub use crate::ring::{Ring, MAX_QUEUE};
pub use crate::stats::{Counters, MeanMs, PoolStats};
pub use crate::task::{
    closure_trampoline, return_trampoline, run_task, ClosureContext, Completion, ReturnContext,
    Task,
};
