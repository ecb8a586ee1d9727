//! What holds of the pool over any course of calls.

use crate::course::{
    held_for, is_busy, is_sentinel, is_stopped, lemma_event_sound_kept,
    lemma_no_sentinels_unless_running, lemma_outstanding_after, lemma_sentinels_after,
    lemma_tasks_owned_kept, lemma_threads_agree_kept, queued_for, stage_event, working_for, Step,
    System,
};
use crate::pool::{PoolView, ShutdownStage, WorkerAction, WorkerStage};
use crate::queues::{dispatched, is_task, lemma_tasks_fit, Entry, Priority, QueueItem, QueuesView, Wake};
use crate::ring::MAX_QUEUE;
use crate::stats::{Counters, MeanMs};
use crate::tally::{
    lemma_tally_bounded, lemma_tally_concat, lemma_tally_counts, lemma_tally_first,
    lemma_tally_push, lemma_tally_single, lemma_tally_uniform, lemma_tally_update, one_if, tally,
};
use crate::task::Task;
use vstd::prelude::*;

verus! {

/// Every call keeps the system valid: the bounds of the queues, the agreement
/// between the pool and its threads, and the soundness of every event.
pub proof fn law_calls_keep_validity<T, C, R: FnOnce() -> u64>(
    system: System<T, C, R>,
    step: Step<T, C, R>,
)
    requires
        system.valid(),
    ensures
        system.after(step).valid(),
{
    lemma_threads_agree_kept(system, step);
    lemma_tasks_owned_kept(system, step);
    assert forall|event: usize| #[trigger] system.after(step).event_sound(event) by {
        lemma_event_sound_kept(system, step, event);
    }
}

/// A valid system stays valid over any course of calls.
pub proof fn law_courses_keep_validity<T, C, R: FnOnce() -> u64>(
    system: System<T, C, R>,
    steps: Seq<Step<T, C, R>>,
)
    requires
        system.valid(),
    ensures
        system.run(steps).valid(),
    decreases steps.len(),
{
    if steps.len() > 0 {
        law_courses_keep_validity(system, steps.drop_last());
        law_calls_keep_validity(system.run(steps.drop_last()), steps.last());
    }
}

/// Whatever is called on a new pool leads to a valid system.
pub proof fn law_every_state_is_valid<T, C, R: FnOnce() -> u64>(steps: Seq<Step<T, C, R>>)
    ensures
        System::<T, C, R>::start().valid(),
        System::<T, C, R>::start().run(steps).valid(),
{
    let start = System::<T, C, R>::start();
    assert(start.owners.dom() =~= start.pool.results.dom());
    law_courses_keep_validity(start, steps);
}

/// Whatever is called on a new pool, in whatever order: neither queue exceeds
/// its capacity, no semaphore exceeds its maximum, the room of a queue and its
/// items add up to its capacity, and the slots and the wake-ups to that of both.
pub proof fn law_every_state_is_bounded<T, C, R: FnOnce() -> u64>(steps: Seq<Step<T, C, R>>)
    ensures
        ({
            let queues = System::<T, C, R>::start().run(steps).pool.queues;
            &&& queues.high.len() <= MAX_QUEUE
            &&& queues.low.len() <= MAX_QUEUE
            &&& 0 <= queues.room(Priority::High) <= MAX_QUEUE
            &&& 0 <= queues.room(Priority::Low) <= MAX_QUEUE
            &&& 0 <= queues.slots() <= 2 * MAX_QUEUE
            &&& queues.permits() <= 2 * MAX_QUEUE
            &&& queues.room(Priority::High) + queues.high.len() == MAX_QUEUE
            &&& queues.room(Priority::Low) + queues.low.len() == MAX_QUEUE
            &&& queues.slots() + queues.permits() == 2 * MAX_QUEUE
        }),
{
    law_every_state_is_valid(steps);
}

/// A call other than a reset adds at the end of a queue and takes from its front.
proof fn lemma_fifo_by_call<T, C, R: FnOnce() -> u64>(
    s: System<T, C, R>,
    step: Step<T, C, R>,
    priority: Priority,
)
    requires
        s.valid(),
        !(step is Reset),
    ensures
        s.pool.queues.queue(priority) + s.added(step, priority) == s.served(step, priority)
            + s.after(step).pool.queues.queue(priority),
{
    let q = s.pool.queues.queue(priority);
    let r = s.after(step).pool.queues.queue(priority);
    if step is Initialize && !(s.pool.phase is Running) {
        lemma_no_sentinels_unless_running(s);
    }
    if s.served(step, priority).len() > 0 {
        assert(r =~= q.subrange(1, q.len() as int));
        assert(q + seq![] =~= seq![q[0]] + r);
    } else if s.added(step, priority).len() > 0 {
        assert(r =~= q.push(s.added(step, priority)[0]));
        assert(q + s.added(step, priority) =~= seq![] + r);
    } else {
        assert(r == q);
        assert(q + seq![] =~= seq![] + r);
    }
}

/// As long as nothing is reset, each queue is first in, first out, and loses
/// and repeats nothing: what was in it, followed by what was added, is what
/// workers were handed, followed by what is in it now.
pub proof fn law_each_queue_is_fifo<T, C, R: FnOnce() -> u64>(
    system: System<T, C, R>,
    steps: Seq<Step<T, C, R>>,
    priority: Priority,
)
    requires
        system.valid(),
        forall|i: int| 0 <= i < steps.len() ==> !(#[trigger] steps[i] is Reset),
    ensures
        system.pool.queues.queue(priority) + system.all_added(steps, priority)
            == system.all_served(steps, priority) + system.run(steps).pool.queues.queue(priority),
    decreases steps.len(),
{
    let start = system.pool.queues.queue(priority);
    if steps.len() > 0 {
        let before = steps.drop_last();
        assert forall|i: int| 0 <= i < before.len() implies before[i] == steps[i] by {}
        law_each_queue_is_fifo(system, before, priority);
        law_courses_keep_validity(system, before);
        let mid = system.run(before);
        let step = steps.last();
        assert(!(steps[steps.len() - 1] is Reset));
        let q = mid.pool.queues.queue(priority);
        let r = mid.after(step).pool.queues.queue(priority);
        let plus = mid.added(step, priority);
        let minus = mid.served(step, priority);
        lemma_fifo_by_call(mid, step, priority);
        let added = system.all_added(before, priority);
        let served = system.all_served(before, priority);
        assert(start + (added + plus) =~= (start + added) + plus);
        assert((served + q) + plus =~= served + (q + plus));
        assert(served + (minus + r) =~= (served + minus) + r);
    } else {
        assert(start + system.all_added(steps, priority) =~= system.all_served(steps, priority)
            + system.run(steps).pool.queues.queue(priority));
    }
}

/// A worker is handed a low-priority item only when no high-priority item is
/// queued, and the oldest high-priority item whenever there is one.
pub proof fn law_high_priority_goes_first<J>(queues: QueuesView<J>)
    ensures
        queues.high.len() > 0 ==> {
            &&& queues.wake() == dispatched(Priority::High, queues.high[0])
            &&& queues.woken().low == queues.low
        },
        queues.woken().low != queues.low ==> queues.high.len() == 0,
        queues.wake() matches Wake::Run { from: Priority::Low, .. } ==> queues.high.len() == 0,
        queues.wake() matches Wake::Stop { from: Priority::Low } ==> queues.high.len() == 0,
{
}

/// No wake-up is lost: a worker goes without one exactly when the task
/// semaphore is exhausted, which it is not as long as something is queued. Every
/// other worker uses up one wake-up, frees one slot, and frees room in the queue
/// that it is served from and in no other.
pub proof fn law_no_wake_up_is_lost<J>(queues: QueuesView<J>)
    ensures
        queues.wake() is NoPermit <==> queues.permits() == 0,
        queues.high.len() + queues.low.len() > 0 ==> queues.permits() > 0,
        queues.permits() == 0 ==> queues.woken() == queues,
        queues.permits() > 0 ==> {
            let from = match queues.wake() {
                Wake::NoPermit | Wake::Nothing => None,
                Wake::Stop { from } => Some(from),
                Wake::Run { from, .. } => Some(from),
            };
            &&& queues.woken().permits() == queues.permits() - 1
            &&& queues.woken().slots() == queues.slots() + 1
            &&& forall|p: Priority| #[trigger]
                queues.woken().room(p) == queues.room(p) + one_if(from == Some(p))
        },
{
}

/// A queued task takes one slot and room in its own queue, and adds one wake-up.
pub proof fn law_submission_takes_one_slot<T, C, R>(
    pool: PoolView<T, C, R>,
    task: Task<T, C, R>,
    priority: Priority,
    now_tick: u64,
)
    requires
        pool.submission(task, priority) is Queued,
    ensures
        ({
            let after = pool.submitted(task, priority, now_tick);
            &&& after.queues.permits() == pool.queues.permits() + 1
            &&& after.queues.slots() == pool.queues.slots() - 1
            &&& forall|p: Priority| #[trigger]
                after.queues.room(p) == pool.queues.room(p) - one_if(p == priority)
        }),
{
}

/// The queues after `n` workers took a wake-up.
pub open spec fn woken_times<J>(queues: QueuesView<J>, n: nat) -> QueuesView<J>
    decreases n,
{
    if n == 0 {
        queues
    } else {
        woken_times(queues, (n - 1) as nat).woken()
    }
}

/// The first `n` workers that take a wake-up are served the high-priority queue
/// in order and then the low-priority queue in order.
pub proof fn law_workers_drain_in_order<J>(queues: QueuesView<J>, n: nat)
    requires
        n <= queues.high.len() + queues.low.len(),
    ensures
        ({
            let now = woken_times(queues, n);
            &&& now.dropped == queues.dropped
            &&& if n <= queues.high.len() {
                &&& now.high == queues.high.subrange(n as int, queues.high.len() as int)
                &&& now.low == queues.low
            } else {
                &&& now.high == Seq::<QueueItem<J>>::empty()
                &&& now.low == queues.low.subrange(
                    n - queues.high.len(),
                    queues.low.len() as int,
                )
            }
            &&& n < queues.high.len() ==> now.wake() == dispatched(
                Priority::High,
                queues.high[n as int],
            )
            &&& queues.high.len() <= n < queues.high.len() + queues.low.len() ==> now.wake()
                == dispatched(Priority::Low, queues.low[n - queues.high.len()])
        }),
    decreases n,
{
    if n > 0 {
        law_workers_drain_in_order(queues, (n - 1) as nat);
        let before = woken_times(queues, (n - 1) as nat);
        let now = woken_times(queues, n);
        if n <= queues.high.len() {
            assert(now.high =~= queues.high.subrange(n as int, queues.high.len() as int));
        } else {
            if n == queues.high.len() + 1 {
                assert(before.high =~= Seq::<QueueItem<J>>::empty());
                assert(before.low =~= queues.low);
            }
            assert(now.low =~= queues.low.subrange(
                n - queues.high.len(),
                queues.low.len() as int,
            ));
        }
        if n == queues.high.len() {
            assert(now.high =~= Seq::<QueueItem<J>>::empty());
        }
    } else {
        assert(queues.high =~= queues.high.subrange(0, queues.high.len() as int));
    }
}

/// Once workers have taken every wake-up, both queues are empty and all of
/// their room is free: a submitter that waits for a slot is not left waiting
/// while workers run.
pub proof fn law_all_room_comes_back<J>(queues: QueuesView<J>)
    ensures
        woken_times(queues, queues.permits()) == QueuesView::<J>::empty(),
        woken_times(queues, queues.permits()).room(Priority::High) == MAX_QUEUE,
        woken_times(queues, queues.permits()).room(Priority::Low) == MAX_QUEUE,
        woken_times(queues, queues.permits()).slots() == 2 * MAX_QUEUE,
{
    lemma_permits_after(queues, queues.permits());
    let end = woken_times(queues, queues.permits());
    assert(end =~= QueuesView::<J>::empty());
}

/// Each of the first `permits()` workers uses up one wake-up.
proof fn lemma_permits_after<J>(queues: QueuesView<J>, n: nat)
    requires
        n <= queues.permits(),
    ensures
        woken_times(queues, n).permits() == queues.permits() - n,
    decreases n,
{
    if n > 0 {
        lemma_permits_after(queues, (n - 1) as nat);
        law_no_wake_up_is_lost(woken_times(queues, (n - 1) as nat));
    }
}

/// A submitter is kept waiting exactly while its queue is full or no slot is left,
/// and there are wake-ups for workers to take then. As long as no dropped item
/// holds a slot, it waits only while its queue is full.
pub proof fn law_waiting_means_full<T, C, R>(
    pool: PoolView<T, C, R>,
    task: Task<T, C, R>,
    priority: Priority,
)
    requires
        pool.valid(),
        pool.phase is Running,
    ensures
        pool.submission(task, priority) is WaitForSlot <==> {
            ||| pool.queues.queue(priority).len() == MAX_QUEUE
            ||| pool.queues.permits() == 2 * MAX_QUEUE
        },
        pool.submission(task, priority) is WaitForSlot ==> pool.queues.permits() >= MAX_QUEUE,
        pool.queues.dropped == 0 ==> (pool.submission(task, priority) is WaitForSlot
            <==> pool.queues.queue(priority).len() == MAX_QUEUE),
{
}

/// The pool after `n` sentinels were sent.
pub open spec fn sentinels_sent<T, C, R>(pool: PoolView<T, C, R>, n: nat) -> PoolView<T, C, R>
    decreases n,
{
    if n == 0 {
        pool
    } else {
        sentinels_sent(pool, (n - 1) as nat).with_sentinel()
    }
}

/// After a shutdown has sent `n` sentinels, and nothing else is submitted, the
/// workers first take the high-priority items that were there before, in order.
/// The next `n` workers are each told to stop, and nobody has touched the
/// low-priority queue.
pub proof fn law_each_worker_gets_one_sentinel<T, C, R>(pool: PoolView<T, C, R>, n: nat, k: nat)
    requires
        k <= pool.queues.high.len() + n,
    ensures
        ({
            let queues = sentinels_sent(pool, n).queues;
            let now = woken_times(queues, k);
            &&& now.low == pool.queues.low
            &&& k < pool.queues.high.len() ==> now.wake() == dispatched(
                Priority::High,
                pool.queues.high[k as int],
            )
            &&& pool.queues.high.len() <= k < pool.queues.high.len() + n ==> now.wake()
                == Wake::<Task<T, C, R>>::Stop { from: Priority::High }
            &&& k == pool.queues.high.len() + n ==> now.high.len() == 0
        }),
{
    lemma_sentinels_sent(pool, n);
    law_workers_drain_in_order(sentinels_sent(pool, n).queues, k);
}

/// Sentinels line up behind the high-priority items and change nothing else.
proof fn lemma_sentinels_sent<T, C, R>(pool: PoolView<T, C, R>, n: nat)
    ensures
        ({
            let now = sentinels_sent(pool, n);
            &&& now.queues.low == pool.queues.low
            &&& now.queues.high.len() == pool.queues.high.len() + n
            &&& forall|i: int|
                0 <= i < pool.queues.high.len() ==> now.queues.high[i] == pool.queues.high[i]
            &&& forall|i: int|
                pool.queues.high.len() <= i < now.queues.high.len()
                    ==> (#[trigger] now.queues.high[i]).func is Sentinel
        }),
    decreases n,
{
    if n > 0 {
        lemma_sentinels_sent(pool, (n - 1) as nat);
    }
}

/// A reset leaves all statistics at 0 and both queues empty, with all of their
/// room. While the pool runs, the slots and wake-ups stay as they are. A second
/// reset changes nothing.
pub proof fn law_reset_clears_everything<T, C, R>(pool: PoolView<T, C, R>)
    requires
        pool.valid(),
    ensures
        pool.reset().counters == Counters::zero(),
        pool.reset().stats().total_enqueued == 0,
        pool.reset().stats().total_executed == 0,
        pool.reset().stats().current_queue == 0,
        pool.reset().stats().avg_wait_ms == MeanMs::of(0, 0),
        pool.reset().stats().avg_exec_ms == MeanMs::of(0, 0),
        pool.phase is Running ==> {
            &&& pool.reset().queues.permits() == pool.queues.permits()
            &&& pool.reset().queues.slots() == pool.queues.slots()
        },
        forall|p: Priority| #[trigger] pool.reset().queues.room(p) == MAX_QUEUE,
        pool.phase is Closed ==> pool.reset().queues == QueuesView::<Task<T, C, R>>::empty(),
        pool.reset().reset() == pool.reset(),
{
    assert(pool.reset().reset() =~= pool.reset());
    if pool.phase is Closed {
        assert(pool.reset().queues =~= QueuesView::<Task<T, C, R>>::empty());
    }
}

/// A worker gives slot and room back before it runs the task, and starts, runs and
/// finishes each task that it takes exactly once, whatever the others do to the
/// pool between its steps.
pub proof fn law_each_task_is_started_run_and_finished_once<T, C, R>(
    taken: PoolView<T, C, R>,
    started: PoolView<T, C, R>,
    run: PoolView<T, C, R>,
    finished: PoolView<T, C, R>,
    from: Priority,
    task: Task<T, C, R>,
    enqueue_tick: u64,
    taken_tick: u64,
    start_tick: u64,
    exec_start: u64,
    exec_end: u64,
)
    requires
        taken.queues.wake() == (Wake::Run { from, task, enqueue_tick }),
    ensures
        ({
            let s1 = taken.next_worker_stage(WorkerStage::Woken, taken_tick);
            let s2 = started.next_worker_stage(s1, start_tick);
            let s3 = run.next_worker_stage(s2, exec_start);
            let s4 = finished.next_worker_stage(s3, exec_end);
            &&& taken.worker_action(WorkerStage::Woken) == (WorkerAction::<T, C, R>::ReleaseSlot {
                from: Some(from),
            })
            &&& started.worker_action(s1) is Proceed
            &&& started.worked(s1, start_tick).counters == started.counters.with_wait(
                enqueue_tick,
                start_tick,
            )
            &&& run.worker_action(s2) == (WorkerAction::Run { task })
            &&& run.worked(s2, exec_start) == run
            &&& finished.worker_action(s3) is WaitForTask
            &&& finished.worked(s3, exec_end).counters == finished.counters.with_execution(
                exec_start,
                exec_end,
            )
            &&& s4 is Woken
        }),
{
}

/// The pool has a fixed size: at no time do workers hold or run more tasks than
/// the pool has threads, and none once it is closed.
pub proof fn law_no_more_tasks_run_than_threads<T, C, R: FnOnce() -> u64>(
    steps: Seq<Step<T, C, R>>,
)
    ensures
        ({
            let system = System::<T, C, R>::start().run(steps);
            &&& system.running() <= system.pool.thread_count
            &&& system.workers.len() == system.pool.thread_count
            &&& !(system.pool.phase is Running) ==> system.running() == 0
        }),
{
    let system = System::<T, C, R>::start().run(steps);
    law_every_state_is_valid(steps);
    lemma_tally_bounded(system.workers, is_busy::<T, C, R>());
    lemma_tally_uniform(system.workers, is_busy::<T, C, R>());
}

/// The number of threads is fixed when the pool is initialized, and stays as it
/// is, whatever is called, until a shutdown closes the pool.
pub proof fn law_initialized_once<T, C, R: FnOnce() -> u64>(
    system: System<T, C, R>,
    steps: Seq<Step<T, C, R>>,
)
    requires
        system.pool.phase is Running,
        forall|k: int|
            0 <= k <= steps.len() ==> !((#[trigger] system.run(steps.take(k))).pool.phase is Closed),
    ensures
        system.run(steps).pool.phase is Running,
        system.run(steps).pool.thread_count == system.pool.thread_count,
        system.run(steps).workers.len() == system.workers.len(),
    decreases steps.len(),
{
    if steps.len() > 0 {
        let before = steps.drop_last();
        assert forall|k: int| 0 <= k <= before.len() implies !((#[trigger] system.run(
            before.take(k),
        )).pool.phase is Closed) by {
            assert(before.take(k) =~= steps.take(k));
        }
        law_initialized_once(system, before);
        assert(steps.take(steps.len() as int) =~= steps);
        assert(!(system.run(steps.take(steps.len() as int)).pool.phase is Closed));
    }
}

/// A task that is submitted to a running pool, with room in its queue and a slot,
/// reaches a worker: once the items before it were taken, the next worker is told
/// to run it.
pub proof fn law_submitted_task_reaches_a_worker<T, C, R>(
    pool: PoolView<T, C, R>,
    task: Task<T, C, R>,
    priority: Priority,
    now_tick: u64,
)
    requires
        pool.phase is Running,
        pool.queues.accepts(priority),
    ensures
        ({
            let after = pool.submitted(task, priority, now_tick);
            let ahead = match priority {
                Priority::High => pool.queues.high.len(),
                Priority::Low => pool.queues.high.len() + pool.queues.low.len(),
            };
            &&& pool.submission(task, priority) is Queued
            &&& woken_times(after.queues, ahead).wake() == (Wake::Run {
                from: priority,
                task,
                enqueue_tick: now_tick,
            })
        }),
{
    let after = pool.submitted(task, priority, now_tick);
    let ahead = match priority {
        Priority::High => pool.queues.high.len(),
        Priority::Low => pool.queues.high.len() + pool.queues.low.len(),
    };
    law_workers_drain_in_order(after.queues, ahead);
}

/// The pool can be used again after a shutdown: a task that is submitted then is
/// handed back, to be submitted again once the pool was initialized again. No
/// sentinel is queued then, the tasks that were queued still are, in order, and
/// the task is queued, unless its queue is full. A worker is told to run it once
/// the tasks before it were taken.
pub proof fn law_pool_is_used_again_after_a_shutdown<T, C, R>(
    pool: PoolView<T, C, R>,
    processors: u32,
    task: Task<T, C, R>,
    priority: Priority,
    now_tick: u64,
)
    requires
        pool.valid(),
        pool.phase is Closed,
    ensures
        ({
            let again = pool.initialized(processors);
            let after = again.submitted(task, priority, now_tick);
            let ahead = match priority {
                Priority::High => again.queues.high.len(),
                Priority::Low => again.queues.high.len() + again.queues.low.len(),
            };
            &&& pool.submission(task, priority) is Initialize
            &&& pool.submitted(task, priority, now_tick) == pool
            &&& again.valid()
            &&& again.phase is Running
            &&& again.thread_count == processors
            &&& again.queues.high == pool.queues.high.filter(is_task())
            &&& again.queues.low == pool.queues.low
            &&& forall|i: int|
                0 <= i < again.queues.high.len() ==> (#[trigger] again.queues.high[i]).func is Task
            &&& again.queues.queue(priority).len() < MAX_QUEUE ==> {
                &&& again.submission(task, priority) is Queued
                &&& woken_times(after.queues, ahead).wake() == (Wake::Run {
                    from: priority,
                    task,
                    enqueue_tick: now_tick,
                })
            }
        }),
{
    lemma_tasks_fit(pool.queues.high);
    let again = pool.initialized(processors);
    if again.queues.queue(priority).len() < MAX_QUEUE {
        law_submitted_task_reaches_a_worker(again, task, priority, now_tick);
    }
}

/// How many steps a worker makes before it looks for the next task.
spec fn steps_to_wake<T, C, R>(stage: WorkerStage<T, C, R>) -> nat {
    match stage {
        WorkerStage::Fetched { .. } => 3,
        WorkerStage::Started { .. } => 2,
        WorkerStage::Running { .. } => 1,
        WorkerStage::Idle => 1,
        WorkerStage::Woken => 0,
        WorkerStage::Stopped => 0,
    }
}

/// The number of items before position `k` in the queue of one priority that a
/// worker could be handed first, in the course of some calls.
pub open spec fn items_ahead<T, C, R: FnOnce() -> u64>(
    system: System<T, C, R>,
    steps: Seq<Step<T, C, R>>,
    priority: Priority,
    k: nat,
) -> nat {
    match priority {
        Priority::High => k,
        Priority::Low => k + system.pool.queues.high.len() + system.all_added(
            steps,
            Priority::High,
        ).len(),
    }
}

/// As long as the item at position `k` was not served, a worker makes progress:
/// four steps for each item that workers were handed.
proof fn lemma_worker_progress<T, C, R: FnOnce() -> u64>(
    system: System<T, C, R>,
    steps: Seq<Step<T, C, R>>,
    priority: Priority,
    k: nat,
    worker: int,
)
    requires
        system.valid(),
        system.pool.phase is Running,
        system.shutdown is Finished,
        0 <= worker < system.workers.len(),
        k < system.pool.queues.queue(priority).len(),
        forall|i: int|
            0 <= i < steps.len() ==> !(#[trigger] steps[i] is Reset) && !(steps[i] is Shutdown),
        system.all_served(steps, priority).len() <= k,
    ensures
        ({
            let end = system.run(steps);
            &&& end.valid()
            &&& end.pool.phase is Running
            &&& end.shutdown is Finished
            &&& end.workers.len() == system.workers.len()
            &&& end.pool.queues.queue(priority).len() > 0
            &&& system.steps_of(worker, steps) + steps_to_wake(end.workers[worker].stage)
                <= steps_to_wake(system.workers[worker].stage) + 4 * (system.all_served(
                steps,
                Priority::High,
            ).len() + system.all_served(steps, Priority::Low).len())
            &&& priority is High ==> system.all_served(steps, Priority::Low).len() == 0
        }),
    decreases steps.len(),
{
    law_courses_keep_validity(system, steps);
    law_each_queue_is_fifo(system, steps, priority);
    let all = system.pool.queues.queue(priority) + system.all_added(steps, priority);
    assert(all.len() == system.all_served(steps, priority).len() + system.run(
        steps,
    ).pool.queues.queue(priority).len());
    if steps.len() > 0 {
        let before = steps.drop_last();
        assert forall|i: int| 0 <= i < before.len() implies before[i] == steps[i] by {}
        let mid = system.run(before);
        let step = steps.last();
        assert(steps[steps.len() - 1] == step);
        assert(system.all_served(before, priority).len() <= system.all_served(
            steps,
            priority,
        ).len());
        lemma_worker_progress(system, before, priority, k, worker);
        lemma_worker_step(mid, step, priority, worker);
    }
}

/// One call, while something is queued and no shutdown is under way: a step of a
/// worker brings it nearer to its next wake-up, or hands it an item.
proof fn lemma_worker_step<T, C, R: FnOnce() -> u64>(
    s: System<T, C, R>,
    step: Step<T, C, R>,
    priority: Priority,
    worker: int,
)
    requires
        s.valid(),
        s.pool.phase is Running,
        s.shutdown is Finished,
        0 <= worker < s.workers.len(),
        s.pool.queues.queue(priority).len() > 0,
        !(step is Reset),
        !(step is Shutdown),
    ensures
        s.after(step).pool.phase is Running,
        s.after(step).shutdown is Finished,
        s.after(step).workers.len() == s.workers.len(),
        one_if(s.is_step_of(worker, step)) + steps_to_wake(s.after(step).workers[worker].stage)
            <= steps_to_wake(s.workers[worker].stage) + 4 * (s.served(step, Priority::High).len()
            + s.served(step, Priority::Low).len()),
        priority is High ==> s.served(step, Priority::Low).len() == 0,
{
    if s.workers[worker].stage is Stopped {
        lemma_tally_counts(s.workers, worker, is_stopped::<T, C, R>());
    }
    if s.enabled(step) {
        match step {
            Step::Work { worker: w, tick } => {
                if w == worker {
                    let stage = s.workers[worker].stage;
                    assert(s.after(step).workers[worker].stage == s.pool.next_worker_stage(
                        stage,
                        tick,
                    ));
                    if stage is Woken {
                        if s.pool.queues.high.len() > 0 {
                            assert(s.served(step, Priority::High).len() == 1);
                        } else {
                            assert(s.pool.queues.low.len() > 0);
                            assert(s.served(step, Priority::Low).len() == 1);
                        }
                    }
                } else {
                    assert(s.after(step).workers[worker] == s.workers[worker]);
                }
            },
            Step::Return { worker: w, .. } => {
                if w != worker {
                    assert(s.after(step).workers[worker] == s.workers[worker]);
                }
            },
            _ => {},
        }
    }
}

/// Every queued item is handed to a worker in the end, exactly once and in its
/// turn, while nothing is reset or shut down: as soon as any one worker has made
/// four steps for each item ahead, and four more, the item is among those that
/// workers were handed. Items ahead are those before it in its queue and, for a
/// low-priority item, the high-priority items that are queued or added meanwhile.
pub proof fn law_queued_items_are_served_in_the_end<T, C, R: FnOnce() -> u64>(
    system: System<T, C, R>,
    steps: Seq<Step<T, C, R>>,
    priority: Priority,
    k: nat,
    worker: int,
)
    requires
        system.valid(),
        system.pool.phase is Running,
        system.shutdown is Finished,
        0 <= worker < system.workers.len(),
        k < system.pool.queues.queue(priority).len(),
        forall|i: int|
            0 <= i < steps.len() ==> !(#[trigger] steps[i] is Reset) && !(steps[i] is Shutdown),
        system.steps_of(worker, steps) >= 4 * items_ahead(system, steps, priority, k) + 4,
    ensures
        system.all_served(steps, priority).len() > k,
        system.all_served(steps, priority)[k as int] == system.pool.queues.queue(
            priority,
        )[k as int],
{
    let served = system.all_served(steps, priority);
    law_each_queue_is_fifo(system, steps, priority);
    if served.len() <= k {
        lemma_worker_progress(system, steps, priority, k, worker);
        law_each_queue_is_fifo(system, steps, Priority::High);
        assert((system.pool.queues.high + system.all_added(steps, Priority::High)).len()
            == system.all_served(steps, Priority::High).len() + system.run(
            steps,
        ).pool.queues.high.len());
    }
    let all = system.pool.queues.queue(priority) + system.all_added(steps, priority);
    assert(all[k as int] == system.pool.queues.queue(priority)[k as int]);
    assert((served + system.run(steps).pool.queues.queue(priority))[k as int] == served[k as int]);
}

/// Every task that is submitted to a running pool is handed to a worker in the
/// end, as it was submitted, under the same conditions.
pub proof fn law_submitted_tasks_are_served_in_the_end<T, C, R: FnOnce() -> u64>(
    system: System<T, C, R>,
    task: Task<T, C, R>,
    priority: Priority,
    now_tick: u64,
    steps: Seq<Step<T, C, R>>,
    worker: int,
)
    requires
        system.valid(),
        system.shutdown is Finished,
        system.pool.submission(task, priority) is Queued,
        !(task is Return),
        0 <= worker < system.workers.len(),
        forall|i: int|
            0 <= i < steps.len() ==> !(#[trigger] steps[i] is Reset) && !(steps[i] is Shutdown),
        ({
            let submitted = system.after(Step::Submit { task, priority, now_tick });
            submitted.steps_of(worker, steps) >= 4 * items_ahead(
                submitted,
                steps,
                priority,
                system.pool.queues.queue(priority).len(),
            ) + 4
        }),
    ensures
        ({
            let submitted = system.after(Step::Submit { task, priority, now_tick });
            let served = submitted.all_served(steps, priority);
            let k = system.pool.queues.queue(priority).len();
            &&& served.len() > k
            &&& served[k as int] == (QueueItem { func: Entry::Task(task), enqueue_tick: now_tick })
        }),
{
    let step = Step::Submit { task, priority, now_tick };
    let submitted = system.after(step);
    law_calls_keep_validity(system, step);
    law_queued_items_are_served_in_the_end(
        submitted,
        steps,
        priority,
        system.pool.queues.queue(priority).len(),
        worker,
    );
}

/// The number of tasks in both queues.
pub open spec fn queued_tasks<J>(queues: QueuesView<J>) -> nat {
    tally(queues.high, is_task()) + tally(queues.low, is_task())
}

/// Whether every task counted as enqueued is counted as executed, queued, or with
/// a worker.
pub open spec fn balanced<T, C, R: FnOnce() -> u64>(system: System<T, C, R>) -> bool {
    system.pool.counters.total_enqueued == system.pool.counters.total_executed + queued_tasks(
        system.pool.queues,
    ) + system.running()
}

/// A call other than a reset neither loses nor repeats a task.
proof fn lemma_conserved_by_call<T, C, R: FnOnce() -> u64>(
    s: System<T, C, R>,
    step: Step<T, C, R>,
)
    requires
        s.valid(),
        !(step is Reset),
    ensures
        queued_tasks(s.pool.queues) + s.running() + tally(
            s.added(step, Priority::High),
            is_task(),
        ) + tally(s.added(step, Priority::Low), is_task()) == queued_tasks(
            s.after(step).pool.queues,
        ) + s.after(step).running() + one_if(s.ends_task(step)),
{
    let t = s.after(step);
    let p = is_task::<Task<T, C, R>>();
    let b = is_busy::<T, C, R>();
    if s.enabled(step) {
        match step {
            Step::Initialize { processors } => {
                if !(s.pool.phase is Running) {
                    lemma_no_sentinels_unless_running(s);
                    lemma_tally_uniform(s.workers, b);
                    lemma_tally_uniform(t.workers, b);
                }
            },
            Step::Work { worker, tick } => {
                lemma_tally_update(s.workers, worker, t.workers[worker], b);
                if s.workers[worker].stage is Woken {
                    if s.pool.queues.high.len() > 0 {
                        lemma_tally_first(s.pool.queues.high, p);
                    } else if s.pool.queues.low.len() > 0 {
                        assert(s.pool.queues.low[0].func is Task);
                        lemma_tally_first(s.pool.queues.low, p);
                    }
                }
            },
            Step::Return { worker, result } => {
                lemma_tally_update(s.workers, worker, t.workers[worker], b);
            },
            Step::Shutdown => {
                let sentinel = QueueItem::<Task<T, C, R>> {
                    func: Entry::Sentinel,
                    enqueue_tick: 0,
                };
                lemma_tally_single(sentinel, p);
                lemma_tally_push(s.pool.queues.high, sentinel, p);
            },
            _ => {
                if let Some((task, priority, now_tick)) = s.offered(step) {
                    let item = QueueItem { func: Entry::Task(task), enqueue_tick: now_tick };
                    lemma_tally_single(item, p);
                    lemma_tally_push(s.pool.queues.queue(priority), item, p);
                }
            },
        }
    }
}

/// No task is lost or run twice: as long as nothing is reset, the tasks that were
/// queued or with a worker, and those added since, are those that have ended and
/// those that are queued or with a worker now.
pub proof fn law_tasks_are_conserved<T, C, R: FnOnce() -> u64>(
    system: System<T, C, R>,
    steps: Seq<Step<T, C, R>>,
)
    requires
        system.valid(),
        forall|i: int| 0 <= i < steps.len() ==> !(#[trigger] steps[i] is Reset),
    ensures
        queued_tasks(system.pool.queues) + system.running() + system.tasks_added(steps)
            == system.tasks_ended(steps) + queued_tasks(system.run(steps).pool.queues)
            + system.run(steps).running(),
    decreases steps.len(),
{
    if steps.len() > 0 {
        let before = steps.drop_last();
        assert forall|i: int| 0 <= i < before.len() implies before[i] == steps[i] by {}
        law_tasks_are_conserved(system, before);
        law_courses_keep_validity(system, before);
        let mid = system.run(before);
        let step = steps.last();
        assert(!(steps[steps.len() - 1] is Reset));
        lemma_conserved_by_call(mid, step);
        let p = is_task::<Task<T, C, R>>();
        lemma_tally_concat(
            system.all_added(before, Priority::High),
            mid.added(step, Priority::High),
            p,
        );
        lemma_tally_concat(
            system.all_added(before, Priority::Low),
            mid.added(step, Priority::Low),
            p,
        );
    }
}

/// The counts are right: as long as nothing is reset and the counters do not
/// wrap around, `total_enqueued` has grown by the number of tasks added to the
/// queues, and `total_executed` by the number of tasks that ended.
pub proof fn law_counts_are_exact<T, C, R: FnOnce() -> u64>(
    system: System<T, C, R>,
    steps: Seq<Step<T, C, R>>,
)
    requires
        forall|i: int| 0 <= i < steps.len() ==> !(#[trigger] steps[i] is Reset),
        system.pool.counters.total_enqueued + system.tasks_added(steps) <= usize::MAX,
        system.pool.counters.total_executed + system.tasks_ended(steps) <= usize::MAX,
    ensures
        system.run(steps).pool.counters.total_enqueued == system.pool.counters.total_enqueued
            + system.tasks_added(steps),
        system.run(steps).pool.counters.total_executed == system.pool.counters.total_executed
            + system.tasks_ended(steps),
    decreases steps.len(),
{
    if steps.len() > 0 {
        let before = steps.drop_last();
        assert forall|i: int| 0 <= i < before.len() implies before[i] == steps[i] by {}
        let mid = system.run(before);
        let step = steps.last();
        assert(!(steps[steps.len() - 1] is Reset));
        let p = is_task::<Task<T, C, R>>();
        let high = mid.added(step, Priority::High);
        let low = mid.added(step, Priority::Low);
        lemma_tally_concat(system.all_added(before, Priority::High), high, p);
        lemma_tally_concat(system.all_added(before, Priority::Low), low, p);
        if high.len() > 0 {
            lemma_tally_single(high[0], p);
            assert(high =~= seq![high[0]]);
        }
        if low.len() > 0 {
            lemma_tally_single(low[0], p);
            assert(low =~= seq![low[0]]);
        }
        law_counts_are_exact(system, before);
    }
}

/// The times are right: as long as nothing is reset and the totals do not wrap
/// around, `total_wait_ms` has grown by the waiting times of the tasks that were
/// started, and `total_exec_ms` by the running times of the tasks that ended.
pub proof fn law_times_are_exact<T, C, R: FnOnce() -> u64>(
    system: System<T, C, R>,
    steps: Seq<Step<T, C, R>>,
)
    requires
        forall|i: int| 0 <= i < steps.len() ==> !(#[trigger] steps[i] is Reset),
        system.pool.counters.total_wait_ms + system.total_wait(steps) <= u64::MAX,
        system.pool.counters.total_exec_ms + system.total_exec(steps) <= u64::MAX,
    ensures
        system.run(steps).pool.counters.total_wait_ms == system.pool.counters.total_wait_ms
            + system.total_wait(steps),
        system.run(steps).pool.counters.total_exec_ms == system.pool.counters.total_exec_ms
            + system.total_exec(steps),
    decreases steps.len(),
{
    if steps.len() > 0 {
        let before = steps.drop_last();
        assert forall|i: int| 0 <= i < before.len() implies before[i] == steps[i] by {}
        assert(!(steps[steps.len() - 1] is Reset));
        law_times_are_exact(system, before);
    }
}

/// A new pool is balanced, and so is any pool that was just reset while no worker
/// held or ran a task.
pub proof fn law_a_reset_of_an_idle_pool_balances_it<T, C, R: FnOnce() -> u64>(
    system: System<T, C, R>,
)
    requires
        system.running() == 0,
    ensures
        balanced(System::<T, C, R>::start()),
        balanced(system.after(Step::Reset)),
{
}

/// A balanced pool stays balanced as long as nothing is reset: each task counted
/// as enqueued is counted as executed, queued, or with a worker. Where no shutdown
/// is under way, the statistics show it. So no more are executed than enqueued,
/// and as many once nothing is queued and no task runs.
pub proof fn law_enqueued_is_executed_queued_or_running<T, C, R: FnOnce() -> u64>(
    system: System<T, C, R>,
    steps: Seq<Step<T, C, R>>,
)
    requires
        system.valid(),
        balanced(system),
        forall|i: int| 0 <= i < steps.len() ==> !(#[trigger] steps[i] is Reset),
        system.pool.counters.total_enqueued + system.tasks_added(steps) <= usize::MAX,
    ensures
        ({
            let end = system.run(steps);
            let stats = end.pool.stats();
            &&& balanced(end)
            &&& stats.total_executed <= stats.total_enqueued
            &&& end.shutdown is Finished ==> {
                &&& stats.total_enqueued == stats.total_executed + stats.current_queue
                    + end.running()
                &&& stats.current_queue == 0 && end.running() == 0 ==> stats.total_executed
                    == stats.total_enqueued
            }
        }),
{
    let end = system.run(steps);
    law_courses_keep_validity(system, steps);
    law_tasks_are_conserved(system, steps);
    law_counts_are_exact(system, steps);
    if end.shutdown is Finished {
        lemma_no_sentinels(end);
        lemma_all_tasks(end.pool.queues.high);
    }
    lemma_all_tasks(end.pool.queues.low);
}

/// The same from a reset: on any valid system without a shutdown under way and
/// without a task with a worker, after a reset and any calls that reset nothing,
/// the statistics balance.
pub proof fn law_counts_balance_after_a_reset<T, C, R: FnOnce() -> u64>(
    system: System<T, C, R>,
    steps: Seq<Step<T, C, R>>,
)
    requires
        system.valid(),
        system.running() == 0,
        forall|i: int| 0 <= i < steps.len() ==> !(#[trigger] steps[i] is Reset),
        system.after(Step::Reset).tasks_added(steps) <= usize::MAX,
        system.after(Step::Reset).run(steps).shutdown is Finished,
    ensures
        ({
            let end = system.after(Step::Reset).run(steps);
            let stats = end.pool.stats();
            &&& stats.total_enqueued == stats.total_executed + stats.current_queue + end.running()
            &&& stats.total_executed <= stats.total_enqueued
        }),
{
    law_a_reset_of_an_idle_pool_balances_it(system);
    law_calls_keep_validity(system, Step::Reset);
    law_enqueued_is_executed_queued_or_running(system.after(Step::Reset), steps);
}

/// Where no shutdown is under way, no sentinel is queued.
proof fn lemma_no_sentinels<T, C, R: FnOnce() -> u64>(system: System<T, C, R>)
    requires
        system.valid(),
        system.shutdown is Finished,
    ensures
        forall|i: int|
            0 <= i < system.pool.queues.high.len() ==> (
            #[trigger] system.pool.queues.high[i]).func is Task,
{
    lemma_tally_uniform(system.workers, is_stopped::<T, C, R>());
    assert forall|i: int| 0 <= i < system.pool.queues.high.len() implies (
    #[trigger] system.pool.queues.high[i]).func is Task by {
        if system.pool.queues.high[i].func is Sentinel {
            lemma_tally_counts(system.pool.queues.high, i, is_sentinel::<Task<T, C, R>>());
        }
    }
}

/// Where a queue holds tasks only, it holds as many tasks as items.
proof fn lemma_all_tasks<J>(items: Seq<QueueItem<J>>)
    ensures
        (forall|i: int| 0 <= i < items.len() ==> (#[trigger] items[i]).func is Task) ==> tally(
            items,
            is_task(),
        ) == items.len(),
{
    lemma_tally_uniform(items, is_task());
}

/// A shutdown sends exactly one sentinel for each worker thread before it waits
/// for the threads, whatever is called meanwhile. As long as nothing is reset,
/// each sentinel sent is still queued or has stopped one worker.
pub proof fn law_shutdown_sends_one_sentinel_per_thread<T, C, R: FnOnce() -> u64>(
    steps: Seq<Step<T, C, R>>,
)
    ensures
        ({
            let system = System::<T, C, R>::start().run(steps);
            &&& match system.shutdown {
                ShutdownStage::Begin => false,
                ShutdownStage::Sentinels { left } => system.sent + left
                    == system.pool.thread_count,
                ShutdownStage::Joining => system.sent == system.pool.thread_count,
                ShutdownStage::Finished => system.pool.phase is Running ==> system.sent == 0,
            }
            &&& system.pool.phase is Closed ==> system.sent == system.pool.thread_count
            &&& system.sentinels_queued() + system.stopped() <= system.sent
            &&& (forall|i: int| 0 <= i < steps.len() ==> !(#[trigger] steps[i] is Reset))
                ==> system.sentinels_queued() + system.stopped() == system.sent
        }),
    decreases steps.len(),
{
    law_every_state_is_valid(steps);
    if steps.len() > 0 {
        let before = steps.drop_last();
        law_shutdown_sends_one_sentinel_per_thread(before);
        law_every_state_is_valid(before);
        lemma_sentinels_after(System::<T, C, R>::start().run(before), steps.last());
        if forall|i: int| 0 <= i < steps.len() ==> !(#[trigger] steps[i] is Reset) {
            assert forall|i: int| 0 <= i < before.len() implies !(#[trigger] before[i] is Reset) by {
                assert(before[i] == steps[i]);
            }
            assert(!(steps[steps.len() - 1] is Reset));
        }
    }
}

/// Whether a call submits a task.
pub open spec fn submits<T, C, R>(step: Step<T, C, R>) -> bool {
    step is Submit || step is SubmitReturn || step is Resubmit
}

/// Whether the sentinels in the high-priority queue stand behind all tasks, and
/// no task is left in it once a worker was stopped, or where there is no worker.
spec fn lined_up<T, C, R>(system: System<T, C, R>) -> bool {
    let high = system.pool.queues.high;
    &&& forall|i: int, j: int|
        0 <= i < j < high.len() && (#[trigger] high[i]).func is Sentinel ==> (
        #[trigger] high[j]).func is Sentinel
    &&& forall|w: int, i: int|
        0 <= w < system.workers.len() && (#[trigger] system.workers[w]).stage is Stopped && 0 <= i
            < high.len() ==> (#[trigger] high[i]).func is Sentinel
    &&& system.workers.len() == 0 ==> forall|i: int|
        0 <= i < high.len() ==> (#[trigger] high[i]).func is Sentinel
}

/// Calls that submit and reset nothing keep the sentinels lined up.
proof fn lemma_lined_up_kept<T, C, R: FnOnce() -> u64>(s: System<T, C, R>, step: Step<T, C, R>)
    requires
        s.valid(),
        lined_up(s),
        !submits(step),
        !(step is Reset),
    ensures
        lined_up(s.after(step)),
{
    let t = s.after(step);
    if s.enabled(step) {
        match step {
            Step::Initialize { processors } => {
                if !(s.pool.phase is Running) {
                    lemma_no_sentinels_unless_running(s);
                }
                if s.pool.phase is Closed && s.workers.len() > 0 {
                    assert(s.workers[0].stage is Stopped);
                }
            },
            Step::Work { worker, tick } => {
                if s.workers[worker].stage is Woken && s.pool.queues.high.len() > 0 {
                    let high = s.pool.queues.high;
                    assert forall|i: int| 0 <= i < t.pool.queues.high.len() implies
                        t.pool.queues.high[i] == high[i + 1] by {}
                }
            },
            _ => {},
        }
    }
}

/// After a shutdown that nothing was submitted or reset during: the high-priority
/// queue is empty, no task runs, what is left in the low-priority queue is the end
/// of what was there before, and nothing was counted as enqueued. On a pool whose
/// counts were balanced before, every task that was counted as enqueued is counted
/// as executed or is still in the low-priority queue. The statistics can still be
/// read.
pub proof fn law_shutdown_leaves_only_low_tasks<T, C, R: FnOnce() -> u64>(
    begin: System<T, C, R>,
    during: Seq<Step<T, C, R>>,
)
    requires
        begin.valid(),
        begin.shutdown is Finished,
        begin.pool.phase is Running,
        begin.pool.thread_count > 0,
        forall|i: int|
            0 <= i < during.len() ==> !(#[trigger] during[i] is Reset) && !submits(during[i]),
        begin.run(during).pool.phase is Closed,
    ensures
        ({
            let end = begin.run(during);
            let stats = end.pool.stats();
            &&& stats.high_queue == 0
            &&& stats.low_queue == end.pool.queues.low.len()
            &&& begin.pool.queues.low == begin.all_served(during, Priority::Low)
                + end.pool.queues.low
            &&& end.running() == 0
            &&& stats.total_enqueued == begin.pool.counters.total_enqueued
            &&& balanced(begin) ==> stats.total_enqueued == stats.total_executed + stats.low_queue
        }),
{
    let end = begin.run(during);
    lemma_no_sentinels(begin);
    law_courses_keep_validity(begin, during);
    lemma_nothing_added(begin, during);
    if balanced(begin) {
        law_enqueued_is_executed_queued_or_running(begin, during);
    }
    law_each_queue_is_fifo(begin, during, Priority::Low);
    assert(begin.pool.queues.low + seq![] =~= begin.pool.queues.low);
    assert forall|w: int| 0 <= w < begin.workers.len() implies !((
    #[trigger] begin.workers[w]).stage is Stopped) by {
        if begin.workers[w].stage is Stopped {
            lemma_tally_counts(begin.workers, w, is_stopped::<T, C, R>());
        }
    }
    lemma_lined_up_over(begin, during);
    lemma_tally_uniform(end.workers, is_stopped::<T, C, R>());
    lemma_tally_uniform(end.workers, is_busy::<T, C, R>());
    if end.workers.len() > 0 {
        assert(end.workers[0].stage is Stopped);
    }
    lemma_tally_uniform(end.pool.queues.high, is_sentinel::<Task<T, C, R>>());
    lemma_all_tasks(end.pool.queues.low);
}

/// Calls that submit and reset nothing add and count no task.
proof fn lemma_nothing_added<T, C, R: FnOnce() -> u64>(
    system: System<T, C, R>,
    steps: Seq<Step<T, C, R>>,
)
    requires
        forall|i: int|
            0 <= i < steps.len() ==> !(#[trigger] steps[i] is Reset) && !submits(steps[i]),
    ensures
        system.run(steps).pool.counters.total_enqueued == system.pool.counters.total_enqueued,
        system.tasks_added(steps) == 0,
        system.all_added(steps, Priority::Low) == Seq::<QueueItem<Task<T, C, R>>>::empty(),
    decreases steps.len(),
{
    if steps.len() > 0 {
        let before = steps.drop_last();
        assert forall|i: int| 0 <= i < before.len() implies before[i] == steps[i] by {}
        lemma_nothing_added(system, before);
        let mid = system.run(before);
        let step = steps.last();
        assert(!submits(steps[steps.len() - 1]));
        let p = is_task::<Task<T, C, R>>();
        let high = mid.added(step, Priority::High);
        lemma_tally_concat(system.all_added(before, Priority::High), high, p);
        if high.len() > 0 {
            lemma_tally_single(high[0], p);
            assert(high =~= seq![high[0]]);
        }
        assert(system.all_added(steps, Priority::Low) =~= seq![]);
    }
}

/// Courses that submit and reset nothing keep the sentinels lined up.
proof fn lemma_lined_up_over<T, C, R: FnOnce() -> u64>(
    system: System<T, C, R>,
    steps: Seq<Step<T, C, R>>,
)
    requires
        system.valid(),
        lined_up(system),
        forall|i: int|
            0 <= i < steps.len() ==> !(#[trigger] steps[i] is Reset) && !submits(steps[i]),
    ensures
        lined_up(system.run(steps)),
    decreases steps.len(),
{
    if steps.len() > 0 {
        let before = steps.drop_last();
        assert forall|i: int| 0 <= i < before.len() implies before[i] == steps[i] by {}
        lemma_lined_up_over(system, before);
        law_courses_keep_validity(system, before);
        assert(!submits(steps[steps.len() - 1]));
        lemma_lined_up_kept(system.run(before), steps.last());
    }
}

/// The tasks with a result that are queued, handed back or with a worker have
/// distinct events, each in use and not set. So only its own task can set the
/// event of a handle, and once the event is set, it holds what the closure that
/// was submitted with it has returned.
pub proof fn law_each_event_has_its_own_task<T, C, R: FnOnce() -> u64>(
    steps: Seq<Step<T, C, R>>,
    event: usize,
)
    ensures
        ({
            let system = System::<T, C, R>::start().run(steps);
            &&& system.outstanding(event) <= 1
            &&& system.outstanding(event) == 1 ==> system.pool.results.dom().contains(event)
                && !system.pool.is_set(event)
            &&& system.pool.is_set(event) ==> call_ensures(
                system.owners[event],
                (),
                system.pool.results[event]->0,
            )
            &&& system.tasks_owned()
        }),
{
    law_every_state_is_valid(steps);
    assert(System::<T, C, R>::start().run(steps).event_sound(event));
}

/// A result stays until it is taken: once an event is set, it stays set to the
/// same result, whatever is called, until the holder of the handle gets it.
pub proof fn law_results_stay_until_taken<T, C, R: FnOnce() -> u64>(
    system: System<T, C, R>,
    event: usize,
    steps: Seq<Step<T, C, R>>,
)
    requires
        system.valid(),
        system.pool.is_set(event),
        forall|i: int|
            0 <= i < steps.len() ==> (#[trigger] steps[i] matches Step::Get { event: e } ==> e
                != event),
    ensures
        system.run(steps).pool.is_set(event),
        system.run(steps).pool.results[event] == system.pool.results[event],
    decreases steps.len(),
{
    if steps.len() > 0 {
        let before = steps.drop_last();
        assert forall|i: int| 0 <= i < before.len() implies before[i] == steps[i] by {}
        law_results_stay_until_taken(system, event, before);
        law_courses_keep_validity(system, before);
        let mid = system.run(before);
        let step = steps.last();
        assert(steps[steps.len() - 1] == step);
        assert(mid.event_sound(event));
        if mid.enabled(step) {
            if let Step::Return { worker, .. } = step {
                if stage_event(mid.workers[worker].stage) == Some(event) {
                    lemma_tally_counts(
                        mid.workers,
                        worker,
                        working_for::<T, C, R>(event),
                    );
                }
            }
        }
    }
}

/// The closure that was submitted with an event stays the owner of the event
/// until the result is taken.
proof fn lemma_owner_stays<T, C, R: FnOnce() -> u64>(
    system: System<T, C, R>,
    event: usize,
    steps: Seq<Step<T, C, R>>,
)
    requires
        system.valid(),
        system.owners.dom().contains(event),
        forall|i: int|
            0 <= i < steps.len() ==> (#[trigger] steps[i] matches Step::Get { event: e } ==> e
                != event),
    ensures
        system.run(steps).owners.dom().contains(event),
        system.run(steps).owners[event] == system.owners[event],
    decreases steps.len(),
{
    if steps.len() > 0 {
        let before = steps.drop_last();
        assert forall|i: int| 0 <= i < before.len() implies before[i] == steps[i] by {}
        lemma_owner_stays(system, event, before);
        law_courses_keep_validity(system, before);
        assert(steps[steps.len() - 1] == steps.last());
    }
}

/// Each handle gives its own task's value: whatever is called between the
/// submission of `f` and the call that gets the result, by whatever threads, the
/// result is one that `f` has returned. The event is free afterwards.
pub proof fn law_handle_gives_its_own_result<T, C, R: FnOnce() -> u64>(
    system: System<T, C, R>,
    event: usize,
    f: R,
    now_tick: u64,
    steps: Seq<Step<T, C, R>>,
)
    requires
        system.valid(),
        !system.pool.results.dom().contains(event),
        forall|i: int|
            0 <= i < steps.len() ==> (#[trigger] steps[i] matches Step::Get { event: e } ==> e
                != event),
    ensures
        ({
            let submitted = system.after(Step::SubmitReturn { event, f, now_tick });
            let end = submitted.run(steps);
            &&& !submitted.pool.is_set(event)
            &&& end.pool.results.dom().contains(event)
            &&& end.pool.is_set(event) ==> {
                &&& call_ensures(f, (), end.pool.results[event]->0)
                &&& !end.after(Step::Get { event }).pool.results.dom().contains(event)
            }
        }),
{
    let step = Step::SubmitReturn { event, f, now_tick };
    let submitted = system.after(step);
    law_calls_keep_validity(system, step);
    law_courses_keep_validity(submitted, steps);
    lemma_owner_stays(submitted, event, steps);
    assert(submitted.run(steps).event_sound(event));
    assert(submitted.run(steps).owners.dom().contains(event));
}

/// Whether no task with a result is in the hands of its submitter.
pub open spec fn no_return_held<T, C, R>(system: System<T, C, R>) -> bool {
    forall|i: int| 0 <= i < system.held.len() ==> !(#[trigger] system.held[i] is Return)
}

/// No result is lost: as long as nothing is reset and every task that ends has
/// returned, each event in use is set, or its task is still on its way. So once
/// no task is queued or with a worker, and none with a result is handed back,
/// every handle has its result.
pub proof fn law_no_result_is_lost<T, C, R: FnOnce() -> u64>(
    steps: Seq<Step<T, C, R>>,
    event: usize,
)
    requires
        forall|i: int| 0 <= i < steps.len() ==> !(#[trigger] steps[i] is Reset),
        System::<T, C, R>::start().all_return(steps),
        System::<T, C, R>::start().run(steps).pool.results.dom().contains(event),
    ensures
        ({
            let system = System::<T, C, R>::start().run(steps);
            &&& system.pool.is_set(event) || system.outstanding(event) == 1
            &&& queued_tasks(system.pool.queues) == 0 && no_return_held(system) && system.running()
                == 0 ==> system.pool.is_set(event)
            &&& queued_tasks(system.pool.queues) == 0 && system.held.len() == 0 && system.running()
                == 0 ==> system.pool.is_set(event)
        }),
{
    let system = System::<T, C, R>::start().run(steps);
    lemma_set_or_outstanding(steps, event);
    if queued_tasks(system.pool.queues) == 0 && no_return_held(system) && system.running() == 0 {
        lemma_idle_has_none_outstanding(system, event);
    }
}

proof fn lemma_set_or_outstanding<T, C, R: FnOnce() -> u64>(
    steps: Seq<Step<T, C, R>>,
    event: usize,
)
    requires
        forall|i: int| 0 <= i < steps.len() ==> !(#[trigger] steps[i] is Reset),
        System::<T, C, R>::start().all_return(steps),
        System::<T, C, R>::start().run(steps).pool.results.dom().contains(event),
    ensures
        ({
            let system = System::<T, C, R>::start().run(steps);
            system.pool.is_set(event) || system.outstanding(event) == 1
        }),
    decreases steps.len(),
{
    if steps.len() > 0 {
        let before = steps.drop_last();
        assert forall|i: int| 0 <= i < before.len() implies before[i] == steps[i] by {}
        assert(!(steps[steps.len() - 1] is Reset));
        let mid = System::<T, C, R>::start().run(before);
        law_every_state_is_valid(before);
        assert(mid.event_sound(event));
        if mid.pool.results.dom().contains(event) {
            lemma_set_or_outstanding(before, event);
        }
        lemma_outstanding_after(mid, steps.last(), event);
    }
}

/// Where no task is queued or with a worker, and none with a result is handed back,
/// none has yet to set an event.
proof fn lemma_idle_has_none_outstanding<T, C, R: FnOnce() -> u64>(
    s: System<T, C, R>,
    event: usize,
)
    requires
        queued_tasks(s.pool.queues) == 0,
        no_return_held(s),
        s.running() == 0,
    ensures
        s.outstanding(event) == 0,
{
    let q = queued_for::<T, C, R>(event);
    let w = working_for::<T, C, R>(event);
    assert forall|i: int| 0 <= i < s.pool.queues.high.len() implies !q(
        #[trigger] s.pool.queues.high[i],
    ) by {
        if q(s.pool.queues.high[i]) {
            lemma_tally_counts(s.pool.queues.high, i, is_task::<Task<T, C, R>>());
        }
    }
    assert forall|i: int| 0 <= i < s.pool.queues.low.len() implies !q(
        #[trigger] s.pool.queues.low[i],
    ) by {
        if q(s.pool.queues.low[i]) {
            lemma_tally_counts(s.pool.queues.low, i, is_task::<Task<T, C, R>>());
        }
    }
    assert forall|i: int| 0 <= i < s.workers.len() implies !w(#[trigger] s.workers[i]) by {
        if w(s.workers[i]) {
            lemma_tally_counts(s.workers, i, is_busy::<T, C, R>());
        }
    }
    lemma_tally_uniform(s.pool.queues.high, q);
    lemma_tally_uniform(s.pool.queues.low, q);
    lemma_tally_uniform(s.workers, w);
    lemma_tally_uniform(s.held, held_for::<T, C, R>(event));
}

/// The life of a task in the statistics: submitted, started and ended, it adds
/// one to both counts, its waiting time and its running time to the totals, and
/// the averages are taken over the tasks that have ended.
pub proof fn law_task_life_in_the_stats<T, C, R>(
    pool: PoolView<T, C, R>,
    task: Task<T, C, R>,
    priority: Priority,
    enqueue_tick: u64,
    start_tick: u64,
    exec_start: u64,
    event: Option<usize>,
    exec_end: u64,
)
    requires
        pool.submission(task, priority) is Queued,
        0 < enqueue_tick <= start_tick,
        exec_start <= exec_end,
        pool.counters.total_enqueued < usize::MAX,
        pool.counters.total_executed < usize::MAX,
        pool.counters.total_wait_ms + (start_tick - enqueue_tick) <= u64::MAX,
        pool.counters.total_exec_ms + (exec_end - exec_start) <= u64::MAX,
    ensures
        ({
            let stats = pool.submitted(task, priority, enqueue_tick).worked(
                WorkerStage::Woken,
                start_tick,
            ).worked(WorkerStage::Fetched { task, enqueue_tick }, start_tick).worked(
                WorkerStage::Running { exec_start, event },
                exec_end,
            ).stats();
            &&& stats.total_enqueued == pool.counters.total_enqueued + 1
            &&& stats.total_executed == pool.counters.total_executed + 1
            &&& stats.avg_wait_ms.total_ms == pool.counters.total_wait_ms + (start_tick
                - enqueue_tick)
            &&& stats.avg_exec_ms.total_ms == pool.counters.total_exec_ms + (exec_end
                - exec_start)
            &&& stats.avg_wait_ms.tasks == stats.total_executed
            &&& stats.avg_exec_ms.tasks == stats.total_executed
        }),
{
}

} // verus!
