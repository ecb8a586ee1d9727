//! What submitters, workers and a shutdown can rely on, whatever the other threads
//! call in between.

use crate::calls::law_a_shutdown_joins_every_valid_thread;
use crate::course::{lemma_workers_observed_kept, Step, System};
use crate::pool::{ShutdownAction, ShutdownStage, WorkerAction, WorkerStage};
use crate::queues::{Entry, Priority, QueueItem};
use crate::tally::{
    lemma_tally_concat, lemma_tally_push, lemma_tally_remove, lemma_tally_single,
    lemma_tally_update, tally,
};
use crate::task::{ReturnContext, Task};
use vstd::prelude::*;

verus! {

/// The tasks that a call hands to the pool for the first time.
pub open spec fn submitted_by<T, C, R: FnOnce() -> u64>(
    system: System<T, C, R>,
    step: Step<T, C, R>,
) -> Seq<Task<T, C, R>> {
    if !system.enabled(step) {
        seq![]
    } else {
        match step {
            Step::Submit { task, .. } => seq![task],
            Step::SubmitReturn { event, f, .. } => seq![
                Task::Return(ReturnContext { event, result: 0, callback: Some(f) }),
            ],
            _ => seq![],
        }
    }
}

/// The tasks that a sequence of calls hands to the pool for the first time.
pub open spec fn all_submitted<T, C, R: FnOnce() -> u64>(
    system: System<T, C, R>,
    steps: Seq<Step<T, C, R>>,
) -> Seq<Task<T, C, R>>
    decreases steps.len(),
{
    if steps.len() == 0 {
        seq![]
    } else {
        all_submitted(system, steps.drop_last()) + submitted_by(
            system.run(steps.drop_last()),
            steps.last(),
        )
    }
}

/// Whether a queue item holds a task that satisfies `p`.
pub open spec fn holds<T, C, R>(p: spec_fn(Task<T, C, R>) -> bool) -> spec_fn(
    QueueItem<Task<T, C, R>>,
) -> bool {
    |item: QueueItem<Task<T, C, R>>|
        match item.func {
            Entry::Task(task) => p(task),
            Entry::Sentinel => false,
        }
}

proof fn lemma_kept_by_call<T, C, R: FnOnce() -> u64>(
    s: System<T, C, R>,
    step: Step<T, C, R>,
    p: spec_fn(Task<T, C, R>) -> bool,
)
    ensures
        tally(s.held, p) + tally(submitted_by(s, step), p) == tally(s.after(step).held, p) + tally(
            s.added(step, Priority::High),
            holds(p),
        ) + tally(s.added(step, Priority::Low), holds(p)),
{
    let q = holds::<T, C, R>(p);
    if s.enabled(step) {
        match step {
            Step::Shutdown => {
                lemma_tally_single(
                    QueueItem::<Task<T, C, R>> { func: Entry::Sentinel, enqueue_tick: 0 },
                    q,
                );
            },
            Step::Submit { task, now_tick, .. } => {
                lemma_tally_single(task, p);
                lemma_tally_push(s.held, task, p);
                lemma_tally_single(QueueItem { func: Entry::Task(task), enqueue_tick: now_tick }, q);
            },
            Step::SubmitReturn { event, f, now_tick } => {
                let task = Task::<T, C, R>::Return(
                    ReturnContext { event, result: 0, callback: Some(f) },
                );
                lemma_tally_single(task, p);
                lemma_tally_push(s.held, task, p);
                lemma_tally_single(QueueItem { func: Entry::Task(task), enqueue_tick: now_tick }, q);
            },
            Step::Resubmit { index, now_tick, .. } => {
                let task = s.held[index];
                lemma_tally_remove(s.held, index, p);
                lemma_tally_update(s.held, index, task, p);
                lemma_tally_single(QueueItem { func: Entry::Task(task), enqueue_tick: now_tick }, q);
            },
            _ => {},
        }
    }
}

/// No submitted task is lost or changed before it is queued: over any course of
/// calls, and of whatever kind, as many tasks were handed to the pool, or were in
/// the hands of submitters before, as were added to the queues or are in the hands
/// of submitters now.
pub proof fn law_submitted_tasks_are_queued_or_held<T, C, R: FnOnce() -> u64>(
    system: System<T, C, R>,
    steps: Seq<Step<T, C, R>>,
    p: spec_fn(Task<T, C, R>) -> bool,
)
    ensures
        tally(system.held, p) + tally(all_submitted(system, steps), p) == tally(
            system.run(steps).held,
            p,
        ) + tally(system.all_added(steps, Priority::High), holds(p)) + tally(
            system.all_added(steps, Priority::Low),
            holds(p),
        ),
    decreases steps.len(),
{
    if steps.len() > 0 {
        let before = steps.drop_last();
        let mid = system.run(before);
        let step = steps.last();
        let q = holds::<T, C, R>(p);
        law_submitted_tasks_are_queued_or_held(system, before, p);
        lemma_kept_by_call(mid, step, p);
        lemma_tally_concat(all_submitted(system, before), submitted_by(mid, step), p);
        lemma_tally_concat(
            system.all_added(before, Priority::High),
            mid.added(step, Priority::High),
            q,
        );
        lemma_tally_concat(
            system.all_added(before, Priority::Low),
            mid.added(step, Priority::Low),
            q,
        );
    }
}

/// The task that a worker takes from a queue by a call.
pub open spec fn taken_by<T, C, R: FnOnce() -> u64>(
    system: System<T, C, R>,
    worker: int,
    step: Step<T, C, R>,
) -> Seq<Task<T, C, R>> {
    let (high, low) = (system.pool.queues.high, system.pool.queues.low);
    if !system.is_step_of(worker, step) || !(system.workers[worker].stage is Woken) || high.len()
        + low.len() == 0 {
        seq![]
    } else {
        match (if high.len() > 0 {
            high[0]
        } else {
            low[0]
        }).func {
            Entry::Task(task) => seq![task],
            Entry::Sentinel => seq![],
        }
    }
}

/// The task that a worker is told to run by a call.
pub open spec fn told_by<T, C, R: FnOnce() -> u64>(
    system: System<T, C, R>,
    worker: int,
    step: Step<T, C, R>,
) -> Seq<Task<T, C, R>> {
    if system.is_step_of(worker, step) {
        match system.pool.worker_action(system.workers[worker].stage) {
            WorkerAction::Run { task } => seq![task],
            _ => seq![],
        }
    } else {
        seq![]
    }
}

/// The tasks that a worker takes from the queues in a sequence of calls.
pub open spec fn all_taken<T, C, R: FnOnce() -> u64>(
    system: System<T, C, R>,
    worker: int,
    steps: Seq<Step<T, C, R>>,
) -> Seq<Task<T, C, R>>
    decreases steps.len(),
{
    if steps.len() == 0 {
        seq![]
    } else {
        all_taken(system, worker, steps.drop_last()) + taken_by(
            system.run(steps.drop_last()),
            worker,
            steps.last(),
        )
    }
}

/// The tasks that a worker is told to run in a sequence of calls.
pub open spec fn all_told<T, C, R: FnOnce() -> u64>(
    system: System<T, C, R>,
    worker: int,
    steps: Seq<Step<T, C, R>>,
) -> Seq<Task<T, C, R>>
    decreases steps.len(),
{
    if steps.len() == 0 {
        seq![]
    } else {
        all_told(system, worker, steps.drop_last()) + told_by(
            system.run(steps.drop_last()),
            worker,
            steps.last(),
        )
    }
}

/// The task that a worker holds and was not told to run yet.
pub open spec fn in_hand<T, C, R: FnOnce() -> u64>(system: System<T, C, R>, worker: int) -> Seq<
    Task<T, C, R>,
> {
    match system.workers[worker].stage {
        WorkerStage::Fetched { task, .. } => seq![task],
        WorkerStage::Started { task } => seq![task],
        _ => seq![],
    }
}

/// A worker runs what it takes, unchanged, each task once and in the order in
/// which it takes them: the tasks that it was told to run, and the one in its hand,
/// are those that were in its hand and that it has taken since. That holds as long
/// as the threads are not created anew.
pub proof fn law_a_worker_runs_what_it_takes<T, C, R: FnOnce() -> u64>(
    system: System<T, C, R>,
    worker: int,
    steps: Seq<Step<T, C, R>>,
)
    requires
        0 <= worker < system.workers.len(),
        forall|i: int| 0 <= i < steps.len() ==> !(#[trigger] steps[i] is Initialize),
    ensures
        system.run(steps).workers.len() == system.workers.len(),
        in_hand(system, worker) + all_taken(system, worker, steps) == all_told(
            system,
            worker,
            steps,
        ) + in_hand(system.run(steps), worker),
    decreases steps.len(),
{
    if steps.len() == 0 {
        assert(in_hand(system, worker) + all_taken(system, worker, steps) =~= all_told(
            system,
            worker,
            steps,
        ) + in_hand(system, worker));
    } else {
        let before = steps.drop_last();
        assert forall|i: int| 0 <= i < before.len() implies before[i] == steps[i] by {}
        assert(!(steps[steps.len() - 1] is Initialize));
        law_a_worker_runs_what_it_takes(system, worker, before);
        let mid = system.run(before);
        let step = steps.last();
        let end = mid.after(step);
        assert(in_hand(mid, worker) + taken_by(mid, worker, step) =~= told_by(mid, worker, step)
            + in_hand(end, worker));
        let (hand, taken, told) = (
            in_hand(system, worker),
            all_taken(system, worker, before),
            all_told(system, worker, before),
        );
        assert(hand + (taken + taken_by(mid, worker, step)) =~= (hand + taken) + taken_by(
            mid,
            worker,
            step,
        ));
        assert((told + in_hand(mid, worker)) + taken_by(mid, worker, step) =~= told + (in_hand(
            mid,
            worker,
        ) + taken_by(mid, worker, step)));
        assert(told + (told_by(mid, worker, step) + in_hand(end, worker)) =~= (told + told_by(
            mid,
            worker,
            step,
        )) + in_hand(end, worker));
    }
}

/// A worker that was told to end has ended for good: over any course of calls by
/// which the threads are not created anew it is told to exit whenever it asks, it
/// takes nothing, runs nothing, and its calls leave the pool as it is.
pub proof fn law_a_stopped_worker_has_ended<T, C, R: FnOnce() -> u64>(
    system: System<T, C, R>,
    worker: int,
    steps: Seq<Step<T, C, R>>,
    tick: u64,
)
    requires
        0 <= worker < system.workers.len(),
        system.workers[worker].stage is Stopped,
        forall|i: int| 0 <= i < steps.len() ==> !(#[trigger] steps[i] is Initialize),
    ensures
        ({
            let end = system.run(steps);
            &&& end.workers.len() == system.workers.len()
            &&& end.workers[worker].stage is Stopped
            &&& end.enabled(Step::Work { worker, tick })
            &&& end.pool.worker_action(end.workers[worker].stage) is Exit
            &&& end.after(Step::Work { worker, tick }).pool == end.pool
            &&& all_taken(system, worker, steps).len() == 0
            &&& all_told(system, worker, steps).len() == 0
        }),
    decreases steps.len(),
{
    if steps.len() > 0 {
        let before = steps.drop_last();
        assert forall|i: int| 0 <= i < before.len() implies before[i] == steps[i] by {}
        assert(!(steps[steps.len() - 1] is Initialize));
        law_a_stopped_worker_has_ended(system, worker, before, tick);
    }
}

/// A running task is timed from when the worker was told to run it: whatever is
/// called before the worker's next call, be it that the task sets its event, that
/// call can be made at no earlier tick count, and adds the difference to the
/// running times and one to the executed tasks.
pub proof fn law_a_task_is_timed_from_its_start<T, C, R: FnOnce() -> u64>(
    system: System<T, C, R>,
    worker: int,
    start: u64,
    steps: Seq<Step<T, C, R>>,
    finish: u64,
)
    requires
        0 <= worker < system.workers.len(),
        system.workers[worker].stage is Started,
        forall|i: int| 0 <= i < steps.len() ==> !(#[trigger] steps[i] is Initialize),
        forall|i: int|
            0 <= i < steps.len() ==> !(#[trigger] steps[i] is Work && steps[i]->Work_worker
                == worker),
    ensures
        ({
            let end = system.after(Step::Work { worker, tick: start }).run(steps);
            let last = Step::Work { worker, tick: finish };
            let total = end.pool.counters.total_exec_ms + (finish - start);
            let executed = end.pool.counters.total_executed;
            &&& end.enabled(last) <==> start <= finish
            &&& start <= finish ==> {
                &&& end.after(last).pool.counters.total_exec_ms == total || total > u64::MAX
                    && end.after(last).pool.counters.total_exec_ms == total - u64::MAX - 1
                &&& end.after(last).pool.counters.total_executed == executed + 1 || executed
                    == usize::MAX && end.after(last).pool.counters.total_executed == 0
            }
        }),
{
    lemma_keeps_running(system.after(Step::Work { worker, tick: start }), worker, start, steps);
}

proof fn lemma_keeps_running<T, C, R: FnOnce() -> u64>(
    system: System<T, C, R>,
    worker: int,
    start: u64,
    steps: Seq<Step<T, C, R>>,
)
    requires
        0 <= worker < system.workers.len(),
        system.workers[worker].stage matches WorkerStage::Running { exec_start, .. } && exec_start
            == start,
        forall|i: int| 0 <= i < steps.len() ==> !(#[trigger] steps[i] is Initialize),
        forall|i: int|
            0 <= i < steps.len() ==> !(#[trigger] steps[i] is Work && steps[i]->Work_worker
                == worker),
    ensures
        system.run(steps).workers.len() == system.workers.len(),
        system.run(steps).workers[worker].stage matches WorkerStage::Running { exec_start, .. }
            && exec_start == start,
    decreases steps.len(),
{
    if steps.len() > 0 {
        let before = steps.drop_last();
        assert forall|i: int| 0 <= i < before.len() implies before[i] == steps[i] by {}
        assert(!(steps[steps.len() - 1] is Initialize));
        assert(!(steps[steps.len() - 1] is Work && steps[steps.len() - 1]->Work_worker == worker));
        lemma_keeps_running(system, worker, start, before);
    }
}

/// The waiting time of the task that a call starts, from the tick count with which
/// its item left the queue. It is not measured for a tick count of 0, or for one
/// that is yet to come.
pub open spec fn wait_seen<T, C, R: FnOnce() -> u64>(
    system: System<T, C, R>,
    step: Step<T, C, R>,
) -> nat {
    match step {
        Step::Work { worker, tick } => if system.enabled(step)
            && system.workers[worker].stage is Fetched {
            match system.workers[worker].item {
                Some(item) => if 0 < item.enqueue_tick <= tick {
                    (tick - item.enqueue_tick) as nat
                } else {
                    0
                },
                None => 0,
            }
        } else {
            0
        },
        _ => 0,
    }
}

/// The running time of the task that a call ends, from the tick count at which the
/// worker was told to run it.
pub open spec fn exec_seen<T, C, R: FnOnce() -> u64>(
    system: System<T, C, R>,
    step: Step<T, C, R>,
) -> nat {
    match step {
        Step::Work { worker, tick } => if system.ends_task(step) {
            (tick - system.workers[worker].began) as nat
        } else {
            0
        },
        _ => 0,
    }
}

/// The waiting time of the tasks that are started in a sequence of calls.
pub open spec fn all_wait_seen<T, C, R: FnOnce() -> u64>(
    system: System<T, C, R>,
    steps: Seq<Step<T, C, R>>,
) -> nat
    decreases steps.len(),
{
    if steps.len() == 0 {
        0
    } else {
        all_wait_seen(system, steps.drop_last()) + wait_seen(
            system.run(steps.drop_last()),
            steps.last(),
        )
    }
}

/// The running time of the tasks that end in a sequence of calls.
pub open spec fn all_exec_seen<T, C, R: FnOnce() -> u64>(
    system: System<T, C, R>,
    steps: Seq<Step<T, C, R>>,
) -> nat
    decreases steps.len(),
{
    if steps.len() == 0 {
        0
    } else {
        all_exec_seen(system, steps.drop_last()) + exec_seen(
            system.run(steps.drop_last()),
            steps.last(),
        )
    }
}

/// A worker's stage always agrees with what an onlooker has seen of it: it holds
/// the task of the item that left a queue on its call, with the tick count of that
/// item, and it measures the task that it runs from when it was told to run it.
pub proof fn law_workers_agree_with_what_was_seen<T, C, R: FnOnce() -> u64>(
    system: System<T, C, R>,
    steps: Seq<Step<T, C, R>>,
)
    requires
        system.workers_observed(),
    ensures
        system.run(steps).workers_observed(),
        System::<T, C, R>::start().workers_observed(),
    decreases steps.len(),
{
    if steps.len() > 0 {
        law_workers_agree_with_what_was_seen(system, steps.drop_last());
        lemma_workers_observed_kept(system.run(steps.drop_last()), steps.last());
    }
}

/// The times are those that an onlooker sees: as long as nothing is reset and the
/// totals do not wrap around, `total_wait_ms` has grown by the times from the tick
/// counts in the items that left the queues to the starts of their tasks, and
/// `total_exec_ms` by the times from the orders to run a task to its end.
pub proof fn law_times_are_those_seen<T, C, R: FnOnce() -> u64>(
    system: System<T, C, R>,
    steps: Seq<Step<T, C, R>>,
)
    requires
        system.workers_observed(),
        forall|i: int| 0 <= i < steps.len() ==> !(#[trigger] steps[i] is Reset),
        system.pool.counters.total_wait_ms + all_wait_seen(system, steps) <= u64::MAX,
        system.pool.counters.total_exec_ms + all_exec_seen(system, steps) <= u64::MAX,
    ensures
        system.run(steps).pool.counters.total_wait_ms == system.pool.counters.total_wait_ms
            + all_wait_seen(system, steps),
        system.run(steps).pool.counters.total_exec_ms == system.pool.counters.total_exec_ms
            + all_exec_seen(system, steps),
    decreases steps.len(),
{
    if steps.len() > 0 {
        let before = steps.drop_last();
        assert forall|i: int| 0 <= i < before.len() implies before[i] == steps[i] by {}
        assert(!(steps[steps.len() - 1] is Reset));
        law_times_are_those_seen(system, before);
        law_workers_agree_with_what_was_seen(system, before);
        if let Step::Work { worker, .. } = steps.last() {
            let mid = system.run(before);
            if mid.enabled(steps.last()) {
                assert(mid.workers[worker].observed());
            }
        }
    }
}

/// A shutdown waits for the threads that were created: over any course of calls
/// from the storing of their handles, with the pool not closed in between, once no
/// sentinel is left to send, the shutdown is told to wait for exactly those among
/// the handles that are neither null nor invalid, in their order.
pub proof fn law_a_shutdown_waits_for_the_stored_threads<T, C, R: FnOnce() -> u64>(
    system: System<T, C, R>,
    handles: Seq<usize>,
    steps: Seq<Step<T, C, R>>,
    action: ShutdownAction,
)
    requires
        system.pool.phase is Running,
        handles.len() == system.pool.thread_count,
        forall|i: int| 0 <= i < steps.len() ==> !(#[trigger] steps[i] is StoreHandles),
        forall|k: int|
            0 <= k <= steps.len() ==> !((#[trigger] system.after(
                Step::StoreHandles { handles },
            ).run(steps.take(k))).pool.phase is Closed),
        ({
            let end = system.after(Step::StoreHandles { handles }).run(steps);
            let stage = end.shutdown_stage();
            &&& stage is Begin && end.pool.thread_count == 0 || stage == (
            ShutdownStage::Sentinels { left: 0 })
            &&& end.pool.orders(stage, action)
        }),
    ensures
        action matches ShutdownAction::Join(threads) && threads@ == handles.filter(
            |h: usize| h != 0 && h != usize::MAX,
        ),
        action matches ShutdownAction::Join(threads) && forall|h: usize| #[trigger]
            threads@.contains(h) <==> handles.contains(h) && h != 0 && h != usize::MAX,
{
    let stored = system.after(Step::StoreHandles { handles });
    lemma_handles_stay(stored, steps);
    let end = stored.run(steps);
    law_a_shutdown_joins_every_valid_thread(end.pool, end.shutdown_stage(), action);
}

proof fn lemma_handles_stay<T, C, R: FnOnce() -> u64>(
    system: System<T, C, R>,
    steps: Seq<Step<T, C, R>>,
)
    requires
        system.pool.phase is Running,
        forall|i: int| 0 <= i < steps.len() ==> !(#[trigger] steps[i] is StoreHandles),
        forall|k: int|
            0 <= k <= steps.len() ==> !((#[trigger] system.run(steps.take(k))).pool.phase is Closed),
    ensures
        system.run(steps).pool.phase is Running,
        system.run(steps).pool.handles == system.pool.handles,
    decreases steps.len(),
{
    if steps.len() > 0 {
        let before = steps.drop_last();
        assert forall|i: int| 0 <= i < before.len() implies before[i] == steps[i] by {}
        assert forall|k: int| 0 <= k <= before.len() implies !((#[trigger] system.run(
            before.take(k),
        )).pool.phase is Closed) by {
            assert(before.take(k) =~= steps.take(k));
        }
        assert(!(steps[steps.len() - 1] is StoreHandles));
        lemma_handles_stay(system, before);
        assert(steps.take(steps.len() as int) =~= steps);
        assert(!(system.run(steps.take(steps.len() as int)).pool.phase is Closed));
    }
}

} // verus!
