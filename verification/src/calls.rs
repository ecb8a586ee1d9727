//! What each call on the pool does, told by what goes in and what comes out.

use crate::pool::{
    closure_task, event_of, is_valid_handle, return_task, Phase, PoolView, ShutdownAction,
    ShutdownStage, Submission, WorkerAction, WorkerStage,
};
use crate::queues::{is_task, Entry, Priority, QueueItem, QueuesView, Wake};
use crate::stats::{Counters, MeanMs};
use crate::task::{callable, Task};
use vstd::prelude::*;

verus! {

/// Whether two pools differ in their queues at most.
pub open spec fn same_but_queues<T, C, R>(a: PoolView<T, C, R>, b: PoolView<T, C, R>) -> bool {
    &&& a.counters == b.counters
    &&& a.results == b.results
    &&& a.phase == b.phase
    &&& a.thread_count == b.thread_count
    &&& a.handles == b.handles
}

/// Whether two pools differ in their counters at most.
pub open spec fn same_but_counters<T, C, R>(a: PoolView<T, C, R>, b: PoolView<T, C, R>) -> bool {
    &&& a.queues == b.queues
    &&& a.results == b.results
    &&& a.phase == b.phase
    &&& a.thread_count == b.thread_count
    &&& a.handles == b.handles
}

/// Whether two pools differ in their results at most.
pub open spec fn same_but_results<T, C, R>(a: PoolView<T, C, R>, b: PoolView<T, C, R>) -> bool {
    &&& a.queues == b.queues
    &&& a.counters == b.counters
    &&& a.phase == b.phase
    &&& a.thread_count == b.thread_count
    &&& a.handles == b.handles
}

/// A new pool has no task, no result, no thread, and all its counts at 0.
pub proof fn law_a_new_pool_is_empty<T, C, R>()
    ensures
        ({
            let pool = PoolView::<T, C, R>::empty();
            &&& pool.queues.high.len() == 0
            &&& pool.queues.low.len() == 0
            &&& pool.queues.dropped == 0
            &&& pool.counters.total_enqueued == 0
            &&& pool.counters.total_executed == 0
            &&& pool.counters.total_wait_ms == 0
            &&& pool.counters.total_exec_ms == 0
            &&& forall|event: usize| !#[trigger] pool.results.dom().contains(event)
            &&& pool.phase is Uninitialized
            &&& pool.thread_count == 0
            &&& pool.handles.len() == 0
        }),
{
}

/// A submitter never loses its task: what it is handed back, to wait for the pool
/// to start or for room, is the task that it submitted. It is handed back by every
/// pool that does not run, and by a running one exactly where 1024 items stand in
/// its queue or 2048 wake-ups are due.
pub proof fn law_what_is_handed_back_is_what_was_submitted<T, C, R>(
    pool: PoolView<T, C, R>,
    task: Task<T, C, R>,
    priority: Priority,
)
    ensures
        pool.submission(task, priority) matches Submission::Initialize(back) ==> back == task,
        pool.submission(task, priority) matches Submission::WaitForSlot(back) ==> back == task,
        pool.submission(task, priority) is Initialize <==> pool.phase != Phase::Running,
        pool.valid() && pool.phase is Running ==> (pool.submission(task, priority) is WaitForSlot
            <==> {
            ||| priority is High && pool.queues.high.len() == 1024
            ||| priority is Low && pool.queues.low.len() == 1024
            ||| pool.queues.high.len() + pool.queues.low.len() + pool.queues.dropped == 2048
        }),
{
}

/// A task is in its own queue, behind all others and with the tick count of its
/// submission, or it was handed back and the pool is as it was. The other queue
/// is as it was in any case, and only a queued task is counted.
pub proof fn law_a_submission_joins_its_own_queue<T, C, R>(
    pool: PoolView<T, C, R>,
    task: Task<T, C, R>,
    priority: Priority,
    now_tick: u64,
)
    ensures
        ({
            let after = pool.submitted(task, priority, now_tick);
            let (own, other) = match priority {
                Priority::High => (pool.queues.high, pool.queues.low),
                Priority::Low => (pool.queues.low, pool.queues.high),
            };
            let (own_after, other_after) = match priority {
                Priority::High => (after.queues.high, after.queues.low),
                Priority::Low => (after.queues.low, after.queues.high),
            };
            if pool.submission(task, priority) is Queued {
                &&& own_after.len() == own.len() + 1
                &&& own_after.last().func == Entry::Task(task)
                &&& own_after.last().enqueue_tick == now_tick
                &&& forall|i: int| 0 <= i < own.len() ==> #[trigger] own_after[i] == own[i]
                &&& other_after == other
                &&& after.queues.dropped == pool.queues.dropped
                &&& after.counters.total_enqueued == if pool.counters.total_enqueued == usize::MAX {
                    0
                } else {
                    pool.counters.total_enqueued + 1
                }
                &&& after.counters.total_executed == pool.counters.total_executed
                &&& after.counters.total_wait_ms == pool.counters.total_wait_ms
                &&& after.counters.total_exec_ms == pool.counters.total_exec_ms
                &&& after.results == pool.results
                &&& after.phase == pool.phase
                &&& after.thread_count == pool.thread_count
                &&& after.handles == pool.handles
            } else {
                after == pool
            }
        }),
{
}

/// A submitted closure is the callback of its task, and a submitted closure with a
/// result is so too, with its own event and 0 as the result so far.
pub proof fn law_a_closure_task_holds_its_closure<T, C, R>(f: C, event: usize, g: R)
    ensures
        closure_task::<T, C, R>(f) matches Task::Closure(ctx) && ctx.callback == Some(f),
        return_task::<T, C, R>(event, g) matches Task::Return(ctx) && ctx.callback == Some(g)
            && ctx.event == event && ctx.result == 0,
{
}

/// A task that returns a result has yet to set the event in its context; no other
/// task has an event.
pub proof fn law_only_a_task_with_a_result_has_an_event<T, C, R>(task: Task<T, C, R>)
    ensures
        match task {
            Task::Return(ctx) => event_of(task) == Some(ctx.event),
            Task::Raw(_) => event_of(task) is None,
            Task::Closure(_) => event_of(task) is None,
        },
{
}

/// A task can be run wherever its closure can be called, and wherever it has none.
pub proof fn law_a_task_runs_where_its_closure_can<T, C: FnOnce(), R: FnOnce() -> u64>(
    task: Task<T, C, R>,
)
    ensures
        task is Raw ==> callable(task),
        task matches Task::Closure(ctx) ==> (callable(task) <==> (ctx.callback is None
            || call_requires(ctx.callback->0, ()))),
        task matches Task::Return(ctx) ==> (callable(task) <==> (ctx.callback is None
            || call_requires(ctx.callback->0, ()))),
{
}

/// Initializing a pool that runs changes nothing. One that does not run takes over
/// the number of processors and keeps all tasks that are queued, in their order,
/// its results, its handles and its counts. Whatever was a sentinel is gone.
pub proof fn law_initializing_keeps_the_tasks<T, C, R>(pool: PoolView<T, C, R>, processors: u32)
    ensures
        ({
            let after = pool.initialized(processors);
            &&& after.phase is Running
            &&& pool.phase is Running ==> after == pool
            &&& !(pool.phase is Running) ==> {
                &&& after.thread_count == processors
                &&& after.queues.high == pool.queues.high.filter(
                    |item: QueueItem<Task<T, C, R>>| !(item.func is Sentinel),
                )
                &&& after.queues.low == pool.queues.low
                &&& after.queues.dropped == pool.queues.dropped
                &&& after.counters == pool.counters
                &&& after.results == pool.results
                &&& after.handles == pool.handles
            }
        }),
{
    assert(is_task::<Task<T, C, R>>() =~= (|item: QueueItem<Task<T, C, R>>| !(
    item.func is Sentinel)));
}

/// A worker that was told to end stays so, and is told to exit, at any time and
/// whatever the pool holds. Only then is a worker told to exit.
pub proof fn law_a_stopped_worker_exits<T, C, R>(
    pool: PoolView<T, C, R>,
    stage: WorkerStage<T, C, R>,
    tick: u64,
)
    ensures
        stage is Stopped <==> pool.worker_action(stage) is Exit,
        stage is Stopped ==> pool.next_worker_stage(stage, tick) is Stopped,
        stage is Stopped ==> pool.worked(stage, tick) == pool,
{
}

/// A worker waits for the task semaphore whenever it is idle, whenever it has
/// ended a task, and whenever it was woken and nothing was due; and only then. It
/// looks at the queues next.
pub proof fn law_a_worker_waits_before_it_looks<T, C, R>(
    pool: PoolView<T, C, R>,
    stage: WorkerStage<T, C, R>,
    tick: u64,
)
    ensures
        pool.worker_action(stage) is WaitForTask <==> {
            ||| stage is Idle
            ||| stage is Running
            ||| stage is Woken && pool.queues.high.len() == 0 && pool.queues.low.len() == 0
                && pool.queues.dropped == 0
        },
        pool.next_worker_stage(stage, tick) is Woken <==> pool.worker_action(
            stage,
        ) is WaitForTask,
        stage is Idle ==> pool.worked(stage, tick) == pool,
{
}

/// A woken worker takes the oldest item of the high-priority queue, else of the
/// low-priority queue: a task it holds from then on, with its tick count, and a
/// sentinel ends it. It gives back the slot, and the room of that queue. Where only
/// the wake-ups of dropped items are due, it gives back one slot and is idle again.
/// Nothing else in the pool changes.
pub proof fn law_a_woken_worker_takes_the_oldest_item<T, C, R>(
    pool: PoolView<T, C, R>,
    tick: u64,
)
    ensures
        ({
            let stage = pool.next_worker_stage(WorkerStage::Woken, tick);
            let action = pool.worker_action(WorkerStage::Woken);
            let after = pool.worked(WorkerStage::Woken, tick);
            let (high, low) = (pool.queues.high, pool.queues.low);
            &&& same_but_queues(after, pool)
            &&& if high.len() + low.len() > 0 {
                let (from, item) = if high.len() > 0 {
                    (Priority::High, high[0])
                } else {
                    (Priority::Low, low[0])
                };
                &&& action == (WorkerAction::<T, C, R>::ReleaseSlot { from: Some(from) })
                &&& match item.func {
                    Entry::Task(task) => stage matches WorkerStage::Fetched {
                        task: taken,
                        enqueue_tick,
                    } && taken == task && enqueue_tick == item.enqueue_tick,
                    Entry::Sentinel => stage is Stopped,
                }
                &&& seq![item] + after.queues.high == high && after.queues.low == low
                    || high.len() == 0 && after.queues.high.len() == 0 && seq![item]
                    + after.queues.low == low
                &&& after.queues.dropped == pool.queues.dropped
            } else if pool.queues.dropped > 0 {
                &&& action == (WorkerAction::<T, C, R>::ReleaseSlot { from: None })
                &&& stage is Idle
                &&& after.queues.high.len() == 0
                &&& after.queues.low.len() == 0
                &&& after.queues.dropped == pool.queues.dropped - 1
            } else {
                &&& action is WaitForTask
                &&& stage is Woken
                &&& after == pool
            }
        }),
{
    let (high, low) = (pool.queues.high, pool.queues.low);
    if high.len() > 0 {
        assert(seq![high[0]] + high.subrange(1, high.len() as int) =~= high);
    } else if low.len() > 0 {
        assert(seq![low[0]] + low.subrange(1, low.len() as int) =~= low);
    }
}

/// A worker that holds a task goes on to start it and then to run that same task,
/// and is told to run it once. Its waiting time is counted once, and nothing else
/// in the pool changes.
pub proof fn law_a_worker_runs_the_task_that_it_holds<T, C, R>(
    pool: PoolView<T, C, R>,
    task: Task<T, C, R>,
    enqueue_tick: u64,
    tick: u64,
)
    ensures
        ({
            let fetched = WorkerStage::Fetched { task, enqueue_tick };
            let started = WorkerStage::Started { task };
            let after = pool.worked(fetched, tick);
            let waited = if enqueue_tick == 0 || tick < enqueue_tick {
                0
            } else {
                tick - enqueue_tick
            };
            let total = pool.counters.total_wait_ms + waited;
            &&& pool.worker_action(fetched) is Proceed
            &&& pool.next_worker_stage(fetched, tick) == started
            &&& same_but_counters(after, pool)
            &&& after.counters.total_enqueued == pool.counters.total_enqueued
            &&& after.counters.total_executed == pool.counters.total_executed
            &&& after.counters.total_exec_ms == pool.counters.total_exec_ms
            &&& after.counters.total_wait_ms == total || total > u64::MAX
                && after.counters.total_wait_ms == total - u64::MAX - 1
            &&& pool.worker_action(started) matches WorkerAction::Run { task: told }
                && told == task
            &&& pool.next_worker_stage(started, tick) matches WorkerStage::Running {
                exec_start,
                event,
            } && exec_start == tick && match task {
                Task::Return(ctx) => event == Some(ctx.event),
                _ => event is None,
            }
            &&& pool.worked(started, tick) == pool
        }),
{
}

/// A worker that ends a task counts one executed task and the time since the task
/// was begun, whether or not it has an event left to set. Nothing else in the pool
/// changes.
pub proof fn law_a_worker_counts_the_task_that_it_ends<T, C, R>(
    pool: PoolView<T, C, R>,
    exec_start: u64,
    event: Option<usize>,
    tick: u64,
)
    requires
        exec_start <= tick,
    ensures
        ({
            let after = pool.worked(WorkerStage::Running { exec_start, event }, tick);
            let total = pool.counters.total_exec_ms + (tick - exec_start);
            &&& same_but_counters(after, pool)
            &&& after.counters.total_executed == if pool.counters.total_executed == usize::MAX {
                0
            } else {
                pool.counters.total_executed + 1
            }
            &&& after.counters.total_exec_ms == total || total > u64::MAX
                && after.counters.total_exec_ms == total - u64::MAX - 1
            &&& after.counters.total_enqueued == pool.counters.total_enqueued
            &&& after.counters.total_wait_ms == pool.counters.total_wait_ms
        }),
{
}

/// A worker may be called at any tick count, but for one that runs a task: it is
/// not called at a tick count before that at which the task began.
pub proof fn law_a_worker_goes_on_at_any_time<T, C, R>(stage: WorkerStage<T, C, R>, tick: u64)
    ensures
        stage.accepts(tick) <==> (stage matches WorkerStage::Running { exec_start, .. }
            ==> exec_start <= tick),
{
}

/// Setting the event of a running task leaves the tick count at which the task
/// began as it is, and the task has no event left to set. So the time counted at
/// the end does not depend on whether an event was set in between. A worker that
/// runs no task is left where it is.
pub proof fn law_setting_an_event_keeps_the_start_tick<T, C, R>(
    pool: PoolView<T, C, R>,
    stage: WorkerStage<T, C, R>,
    tick: u64,
)
    ensures
        match stage {
            WorkerStage::Running { exec_start, .. } => stage.event_done()
                matches WorkerStage::Running { exec_start: kept, event } && kept == exec_start
                && event is None,
            _ => stage.event_done() == stage,
        },
        pool.worked(stage.event_done(), tick) == pool.worked(stage, tick),
        pool.worker_action(stage.event_done()) == pool.worker_action(stage),
        stage.event_done().accepts(tick) == stage.accepts(tick),
{
}

/// An event that is in use gives back what it was set with last, and setting it
/// disturbs no other event. An event that is not in use cannot be set. Nothing else
/// in the pool changes.
pub proof fn law_an_event_holds_what_it_was_set_with<T, C, R>(
    pool: PoolView<T, C, R>,
    event: usize,
    result: u64,
)
    ensures
        ({
            let after = pool.event_set(event, result);
            &&& same_but_results(after, pool)
            &&& after.results.dom() == pool.results.dom()
            &&& pool.results.dom().contains(event) ==> after.results[event] == Some(result)
            &&& forall|other: usize|
                other != event && pool.results.dom().contains(other) ==> #[trigger]
                after.results[other] == pool.results[other]
            &&& !pool.results.dom().contains(event) ==> after == pool
        }),
{
    let after = pool.event_set(event, result);
    assert(after.results.dom() =~= pool.results.dom());
}

/// An event is set exactly where it is in use and holds a result. An event that was
/// just taken into use is not set, and every other event is as it was.
pub proof fn law_a_reserved_event_is_not_set<T, C, R>(pool: PoolView<T, C, R>, event: usize)
    ensures
        ({
            let after = pool.event_reserved(event);
            &&& pool.is_set(event) <==> pool.results.dom().contains(event) && exists|v: u64|
                pool.results[event] == Some(v)
            &&& same_but_results(after, pool)
            &&& after.results.dom().contains(event) && after.results[event] is None
            &&& forall|other: usize|
                other != event ==> (#[trigger] after.results.dom().contains(other)
                    <==> pool.results.dom().contains(other))
            &&& forall|other: usize|
                other != event && pool.results.dom().contains(other) ==> #[trigger]
                after.results[other] == pool.results[other]
        }),
{
    if pool.results.dom().contains(event) && pool.results[event] is Some {
        assert(pool.results[event] == Some(pool.results[event]->0));
    }
}

/// Getting a result takes it: the event is free afterwards. Where no result is
/// there, nothing changes, and other events stay as they were in any case.
pub proof fn law_a_result_is_taken_once<T, C, R>(pool: PoolView<T, C, R>, event: usize)
    ensures
        ({
            let after = pool.result_taken(event);
            let there = pool.results.dom().contains(event) && pool.results[event] is Some;
            &&& same_but_results(after, pool)
            &&& there ==> !after.results.dom().contains(event)
            &&& !there ==> after == pool
            &&& forall|other: usize|
                other != event ==> (#[trigger] after.results.dom().contains(other)
                    <==> pool.results.dom().contains(other))
            &&& forall|other: usize|
                other != event && pool.results.dom().contains(other) ==> #[trigger]
                after.results[other] == pool.results[other]
            &&& !after.is_set(event)
        }),
{
}

/// A reset empties both queues and sets the four totals to 0. The results, the
/// threads and the phase stay. While the pool is not closed, every wake-up that was
/// due is due still, and none belongs to a queued item; a closed pool has none.
pub proof fn law_a_reset_keeps_results_and_threads<T, C, R>(pool: PoolView<T, C, R>)
    ensures
        ({
            let after = pool.reset();
            &&& after.queues.high.len() == 0
            &&& after.queues.low.len() == 0
            &&& after.queues.dropped == if pool.phase is Closed {
                0
            } else {
                pool.queues.dropped + pool.queues.high.len() + pool.queues.low.len()
            }
            &&& after.counters.total_enqueued == 0
            &&& after.counters.total_executed == 0
            &&& after.counters.total_wait_ms == 0
            &&& after.counters.total_exec_ms == 0
            &&& after.results == pool.results
            &&& after.phase == pool.phase
            &&& after.thread_count == pool.thread_count
            &&& after.handles == pool.handles
        }),
{
}

/// The statistics give the two counts as they are, the number of items in each
/// queue and in both, and two means: a mean times the number of executed tasks is
/// the total, and it is 0 where no task was executed.
pub proof fn law_the_statistics_show_the_pool<T, C, R>(pool: PoolView<T, C, R>)
    requires
        pool.valid(),
    ensures
        ({
            let stats = pool.stats();
            &&& stats.total_enqueued == pool.counters.total_enqueued
            &&& stats.total_executed == pool.counters.total_executed
            &&& stats.high_queue == pool.queues.high.len()
            &&& stats.low_queue == pool.queues.low.len()
            &&& stats.current_queue == pool.queues.high.len() + pool.queues.low.len()
            &&& stats.avg_wait_ms.tasks > 0
            &&& stats.avg_exec_ms.tasks > 0
            &&& pool.counters.total_executed > 0 ==> {
                &&& stats.avg_wait_ms.tasks == pool.counters.total_executed
                &&& stats.avg_wait_ms.total_ms == pool.counters.total_wait_ms
                &&& stats.avg_exec_ms.tasks == pool.counters.total_executed
                &&& stats.avg_exec_ms.total_ms == pool.counters.total_exec_ms
            }
            &&& pool.counters.total_executed == 0 ==> {
                &&& stats.avg_wait_ms.total_ms == 0
                &&& stats.avg_exec_ms.total_ms == 0
            }
        }),
{
}

/// The counters by themselves: each change adds to its own totals, modulo their
/// range, and leaves the others alone.
pub proof fn law_each_change_has_its_own_totals(c: Counters, enqueue: u64, start: u64, end: u64)
    requires
        start <= end,
    ensures
        Counters::zero().total_enqueued == 0,
        Counters::zero().total_executed == 0,
        Counters::zero().total_wait_ms == 0,
        Counters::zero().total_exec_ms == 0,
        ({
            let after = c.with_enqueued();
            &&& after.total_enqueued == c.total_enqueued + 1 || c.total_enqueued == usize::MAX
                && after.total_enqueued == 0
            &&& after.total_executed == c.total_executed
            &&& after.total_wait_ms == c.total_wait_ms
            &&& after.total_exec_ms == c.total_exec_ms
        }),
        ({
            let after = c.with_wait(enqueue, start);
            let total = c.total_wait_ms + (start - enqueue);
            &&& enqueue == 0 || start < enqueue ==> after == c
            &&& 0 < enqueue <= start ==> after.total_wait_ms == total || total > u64::MAX
                && after.total_wait_ms == total - u64::MAX - 1
            &&& after.total_enqueued == c.total_enqueued
            &&& after.total_executed == c.total_executed
            &&& after.total_exec_ms == c.total_exec_ms
        }),
        ({
            let after = c.with_execution(start, end);
            let total = c.total_exec_ms + (end - start);
            &&& after.total_executed == c.total_executed + 1 || c.total_executed == usize::MAX
                && after.total_executed == 0
            &&& after.total_exec_ms == total || total > u64::MAX && after.total_exec_ms == total
                - u64::MAX - 1
            &&& after.total_enqueued == c.total_enqueued
            &&& after.total_wait_ms == c.total_wait_ms
        }),
{
}

/// A mean is the total over the number of tasks, and 0 over no tasks.
pub proof fn law_a_mean_is_a_fraction(total_ms: u64, tasks: usize)
    ensures
        MeanMs::of(total_ms, tasks).tasks > 0,
        tasks > 0 ==> MeanMs::of(total_ms, tasks).total_ms == total_ms && MeanMs::of(
            total_ms,
            tasks,
        ).tasks == tasks,
        tasks == 0 ==> MeanMs::of(total_ms, tasks).total_ms == 0 && MeanMs::of(
            total_ms,
            tasks,
        ).tasks == 1,
{
}

/// The queues by themselves: an item joins one queue at its end, the capacity is
/// 1024 for each queue and 2048 for the wake-ups, and clearing turns every item
/// into a dropped one.
pub proof fn law_each_queue_has_its_own_room<J>(
    queues: QueuesView<J>,
    priority: Priority,
    item: QueueItem<J>,
)
    ensures
        queues.queue(Priority::High) == queues.high,
        queues.queue(Priority::Low) == queues.low,
        queues.room(Priority::High) == 1024 - queues.high.len(),
        queues.room(Priority::Low) == 1024 - queues.low.len(),
        queues.permits() == queues.high.len() + queues.low.len() + queues.dropped,
        queues.slots() == 2048 - queues.high.len() - queues.low.len() - queues.dropped,
        queues.bounded() <==> queues.high.len() <= 1024 && queues.low.len() <= 1024
            && queues.high.len() + queues.low.len() + queues.dropped <= 2048,
        queues.accepts(Priority::High) <==> queues.high.len() < 1024 && queues.high.len()
            + queues.low.len() + queues.dropped < 2048,
        queues.accepts(Priority::Low) <==> queues.low.len() < 1024 && queues.high.len()
            + queues.low.len() + queues.dropped < 2048,
        priority is High ==> queues.pushed(priority, item).high.drop_last() == queues.high
            && queues.pushed(priority, item).high.last() == item && queues.pushed(
            priority,
            item,
        ).low == queues.low,
        priority is Low ==> queues.pushed(priority, item).low.drop_last() == queues.low
            && queues.pushed(priority, item).low.last() == item && queues.pushed(
            priority,
            item,
        ).high == queues.high,
        queues.pushed(priority, item).dropped == queues.dropped,
        queues.cleared().high.len() == 0,
        queues.cleared().low.len() == 0,
        queues.cleared().dropped == queues.high.len() + queues.low.len() + queues.dropped,
        queues.without_dropped().high == queues.high,
        queues.without_dropped().low == queues.low,
        queues.without_dropped().dropped == 0,
        queues.without_sentinels().low == queues.low,
        queues.without_sentinels().dropped == queues.dropped,
        queues.without_sentinels().high == queues.high.filter(
            |i: QueueItem<J>| !(i.func is Sentinel),
        ),
        QueuesView::<J>::empty().high.len() == 0,
        QueuesView::<J>::empty().low.len() == 0,
        QueuesView::<J>::empty().dropped == 0,
{
    assert(is_task::<J>() =~= (|i: QueueItem<J>| !(i.func is Sentinel)));
    assert(queues.high.push(item).drop_last() =~= queues.high);
    assert(queues.low.push(item).drop_last() =~= queues.low);
}

/// What a worker is handed from the queues by themselves: the oldest item of the
/// queue that is served, and that item leaves.
pub proof fn law_a_wake_up_hands_out_the_oldest_item<J>(queues: QueuesView<J>)
    ensures
        ({
            let after = queues.woken();
            if queues.high.len() > 0 {
                &&& seq![queues.high[0]] + after.high == queues.high
                &&& after.low == queues.low
                &&& after.dropped == queues.dropped
                &&& match queues.high[0].func {
                    Entry::Task(task) => queues.wake() matches Wake::Run {
                        from,
                        task: told,
                        enqueue_tick,
                    } && from is High && told == task && enqueue_tick
                        == queues.high[0].enqueue_tick,
                    Entry::Sentinel => queues.wake() matches Wake::Stop { from } && from is High,
                }
            } else if queues.low.len() > 0 {
                &&& after.high.len() == 0
                &&& seq![queues.low[0]] + after.low == queues.low
                &&& after.dropped == queues.dropped
                &&& match queues.low[0].func {
                    Entry::Task(task) => queues.wake() matches Wake::Run {
                        from,
                        task: told,
                        enqueue_tick,
                    } && from is Low && told == task && enqueue_tick
                        == queues.low[0].enqueue_tick,
                    Entry::Sentinel => queues.wake() matches Wake::Stop { from } && from is Low,
                }
            } else {
                &&& after.high.len() == 0
                &&& after.low.len() == 0
                &&& queues.dropped > 0 ==> queues.wake() is Nothing && after.dropped
                    == queues.dropped - 1
                &&& queues.dropped == 0 ==> queues.wake() is NoPermit && after.dropped == 0
            }
        }),
{
    let (high, low) = (queues.high, queues.low);
    if high.len() > 0 {
        assert(seq![high[0]] + high.subrange(1, high.len() as int) =~= high);
    } else if low.len() > 0 {
        assert(seq![low[0]] + low.subrange(1, low.len() as int) =~= low);
    }
}

/// A shutdown can begin on any pool but a closed one that had threads, and goes on
/// as long as the pool runs and no more sentinels are left than it has threads.
pub proof fn law_when_a_pool_can_be_shut_down<T, C, R>(
    pool: PoolView<T, C, R>,
    stage: ShutdownStage,
)
    ensures
        pool.can_shut_down(stage) <==> match stage {
            ShutdownStage::Begin => !(pool.phase is Closed) || pool.thread_count == 0,
            ShutdownStage::Sentinels { left } => pool.phase is Running && left
                <= pool.thread_count,
            ShutdownStage::Joining => pool.phase is Running,
            ShutdownStage::Finished => true,
        },
{
}

/// As many sentinels are left to send as the stage says, as many as there are
/// threads where a shutdown of a running pool begins, and else none.
pub proof fn law_how_many_sentinels_are_left<T, C, R>(
    pool: PoolView<T, C, R>,
    stage: ShutdownStage,
)
    ensures
        stage matches ShutdownStage::Sentinels { left } ==> pool.sentinels_left(stage) == left,
        stage is Begin && pool.phase is Running ==> pool.sentinels_left(stage)
            == pool.thread_count,
        stage is Begin && !(pool.phase is Running) ==> pool.sentinels_left(stage) == 0,
        stage is Joining || stage is Finished ==> pool.sentinels_left(stage) == 0,
{
}

/// A handle can be waited for unless it is null or the invalid handle.
pub proof fn law_which_handles_are_valid(handle: usize)
    ensures
        is_valid_handle(handle) <==> handle != 0 && handle != usize::MAX,
{
}

/// A shutdown that has a sentinel left to send sends it, to the end of the
/// high-priority queue, or waits where that queue holds 1024 items or 2048 wake-ups
/// are due. No task and no count changes.
pub proof fn law_a_shutdown_sends_its_sentinels_first<T, C, R>(
    pool: PoolView<T, C, R>,
    stage: ShutdownStage,
    left: u32,
    action: ShutdownAction,
)
    requires
        pool.valid(),
        pool.phase is Running,
        stage is Begin && left == pool.thread_count || stage == (ShutdownStage::Sentinels { left }),
        left > 0,
        pool.orders(stage, action),
    ensures
        ({
            let after = pool.shut_down(stage);
            let full = pool.queues.high.len() == 1024 || pool.queues.high.len()
                + pool.queues.low.len() + pool.queues.dropped == 2048;
            &&& pool.sentinels_left(stage) == left
            &&& pool.sends_sentinel(stage) <==> !full
            &&& same_but_queues(after, pool)
            &&& if full {
                &&& action is WaitForSlot
                &&& pool.next_stage(stage) matches ShutdownStage::Sentinels { left: l } && l == left
                &&& after.queues == pool.queues
            } else {
                &&& action is ReleaseTask
                &&& pool.next_stage(stage) matches ShutdownStage::Sentinels { left: l } && l + 1
                    == left
                &&& after.queues.high.drop_last() == pool.queues.high
                &&& after.queues.high.last().func is Sentinel
                &&& after.queues.high.last().enqueue_tick == 0
                &&& after.queues.low == pool.queues.low
                &&& after.queues.dropped == pool.queues.dropped
            }
        }),
{
    let sentinel = QueueItem::<Task<T, C, R>> { func: Entry::Sentinel, enqueue_tick: 0 };
    assert(pool.queues.high.push(sentinel).drop_last() =~= pool.queues.high);
}

/// A shutdown of a running pool that has no sentinel left to send is told to wait
/// for exactly the threads whose handles are stored and valid, in their order,
/// whatever the counts and the queues are. The pool does not change by that.
pub proof fn law_a_shutdown_joins_every_valid_thread<T, C, R>(
    pool: PoolView<T, C, R>,
    stage: ShutdownStage,
    action: ShutdownAction,
)
    requires
        pool.phase is Running,
        stage is Begin && pool.thread_count == 0 || stage == (ShutdownStage::Sentinels { left: 0 }),
        pool.orders(stage, action),
    ensures
        action matches ShutdownAction::Join(threads) && threads@ == pool.handles.filter(
            |h: usize| h != 0 && h != usize::MAX,
        ),
        action matches ShutdownAction::Join(threads) && forall|h: usize| #[trigger]
            threads@.contains(h) <==> pool.handles.contains(h) && h != 0 && h != usize::MAX,
        pool.next_stage(stage) is Joining,
        pool.shut_down(stage) == pool,
        !pool.sends_sentinel(stage),
        pool.sentinels_left(stage) == 0,
{
    let valid = |h: usize| h != 0 && h != usize::MAX;
    assert((|h: usize| is_valid_handle(h)) =~= valid);
    if let ShutdownAction::Join(threads) = action {
        assert(threads@ == pool.handles.filter(valid));
        assert forall|h: usize| #[trigger] threads@.contains(h) <==> pool.handles.contains(h) && h
            != 0 && h != usize::MAX by {
            if threads@.contains(h) {
                pool.handles.lemma_filter_contains_rev(valid, h);
                let i = choose|i: int| 0 <= i < threads@.len() && threads@[i] == h;
                pool.handles.lemma_filter_pred(valid, i);
            }
            if pool.handles.contains(h) && h != 0 && h != usize::MAX {
                let i = choose|i: int| 0 <= i < pool.handles.len() && pool.handles[i] == h;
                pool.handles.lemma_filter_contains(valid, i);
            }
        }
    }
}

/// Once the threads have ended, a shutdown closes the semaphores, forgets the
/// handles and the wake-ups of dropped items, and is finished. The queued items,
/// the results and the counts stay. A shutdown that is finished, or that begins on
/// a pool that does not run, changes nothing and is finished.
pub proof fn law_a_shutdown_closes_the_pool_last<T, C, R>(
    pool: PoolView<T, C, R>,
    stage: ShutdownStage,
    action: ShutdownAction,
)
    requires
        stage is Joining || stage is Finished || stage is Begin && !(pool.phase is Running),
        pool.orders(stage, action),
    ensures
        ({
            let after = pool.shut_down(stage);
            &&& pool.next_stage(stage) is Finished
            &&& !pool.sends_sentinel(stage)
            &&& pool.sentinels_left(stage) == 0
            &&& stage is Joining ==> {
                &&& action is CloseSemaphores
                &&& after.phase is Closed
                &&& after.handles.len() == 0
                &&& after.queues.high == pool.queues.high
                &&& after.queues.low == pool.queues.low
                &&& after.queues.dropped == 0
                &&& after.counters == pool.counters
                &&& after.results == pool.results
                &&& after.thread_count == pool.thread_count
            }
            &&& !(stage is Joining) ==> action is Done && after == pool
        }),
{
}

} // verus!
