//! The pool together with the threads that use it.
//!
//! A `Step` is one call on the pool by one thread, and `System::run` is what a
//! sequence of them leads to. Threads take the pool's lock for each call, so
//! whatever they do together is such a sequence.

use crate::pool::{
    event_of, return_task, PoolView, ShutdownStage, Submission, WorkerAction, WorkerStage,
};
use crate::queues::{is_task, lemma_tasks_fit, Entry, Priority, QueueItem};
use crate::stats::waited_ms;
use crate::tally::{
    lemma_tally_counts, lemma_tally_first, lemma_tally_push, lemma_tally_remove,
    lemma_tally_uniform, lemma_tally_update, one_if, tally,
};
use crate::task::Task;
use vstd::prelude::*;

verus! {

/// A worker thread: its stage, and what an onlooker has seen of it.
pub struct Worker<T, C, R> {
    pub stage: WorkerStage<T, C, R>,
    /// The closure of the last task with a result that it was told to run.
    pub callback: Option<R>,
    /// The item that last left a queue on its call.
    pub item: Option<QueueItem<Task<T, C, R>>>,
    /// The tick count at which it was last told to run a task.
    pub began: u64,
}

impl<T, C, R> Worker<T, C, R> {
    /// A worker thread that was just created.
    pub open spec fn created() -> Self {
        Worker { stage: WorkerStage::Idle, callback: None, item: None, began: 0 }
    }

    /// The worker after a call to a pool that holds `pool`, by which it came to
    /// `stage` and was told `action` at `tick`.
    pub open spec fn moved(
        self,
        pool: PoolView<T, C, R>,
        stage: WorkerStage<T, C, R>,
        action: WorkerAction<T, C, R>,
        tick: u64,
    ) -> Self {
        Worker {
            stage,
            callback: match action {
                WorkerAction::Run { task: Task::Return(ctx) } => ctx.callback,
                _ => self.callback,
            },
            item: if self.stage is Woken && pool.queues.high.len() > 0 {
                Some(pool.queues.high[0])
            } else if self.stage is Woken && pool.queues.low.len() > 0 {
                Some(pool.queues.low[0])
            } else {
                self.item
            },
            began: if action is Run {
                tick
            } else {
                self.began
            },
        }
    }

    /// Whether the stage agrees with what was seen: the worker holds the task of
    /// the item that it took, with its tick count, and the time of the task that
    /// it runs is measured from when it was told to run it.
    pub open spec fn observed(self) -> bool {
        match self.stage {
            WorkerStage::Fetched { task, enqueue_tick } => self.item == Some(
                QueueItem { func: Entry::Task(task), enqueue_tick },
            ),
            WorkerStage::Started { task } => {
                &&& self.item matches Some(item)
                &&& item.func == Entry::Task(task)
            },
            WorkerStage::Running { exec_start, .. } => exec_start == self.began,
            _ => true,
        }
    }
}

/// The tasks in the hands of submitters, after a submission was answered: a task
/// that is handed back joins them.
pub open spec fn with_handed_back<T, C, R>(
    held: Seq<Task<T, C, R>>,
    answer: Submission<Task<T, C, R>>,
) -> Seq<Task<T, C, R>> {
    match answer {
        Submission::Queued => held,
        Submission::Initialize(task) => held.push(task),
        Submission::WaitForSlot(task) => held.push(task),
    }
}

/// The same, for the submission of the task that was handed back as number
/// `index`.
pub open spec fn with_resubmitted<T, C, R>(
    held: Seq<Task<T, C, R>>,
    index: int,
    answer: Submission<Task<T, C, R>>,
) -> Seq<Task<T, C, R>> {
    match answer {
        Submission::Queued => held.remove(index),
        Submission::Initialize(task) => held.update(index, task),
        Submission::WaitForSlot(task) => held.update(index, task),
    }
}

/// The pool and its threads.
pub struct System<T, C, R> {
    pub pool: PoolView<T, C, R>,
    /// The worker threads that the pool was last initialized with.
    pub workers: Seq<Worker<T, C, R>>,
    /// The tasks that were handed back to their submitters, who will submit them
    /// again.
    pub held: Seq<Task<T, C, R>>,
    /// The closure that was submitted with each event in use.
    pub owners: Map<usize, R>,
    /// The stage of the shutdown that is under way; `Finished` if there is none.
    pub shutdown: ShutdownStage,
    /// The sentinels sent since the pool was last initialized.
    pub sent: nat,
}

/// One call on the pool.
pub enum Step<T, C, R> {
    /// `initialize_pool`; where it gives a layout, the threads are created too.
    Initialize { processors: u32 },
    /// `store_handles`.
    StoreHandles { handles: Seq<usize> },
    /// `submit_task_prioritized`, `submit_task` or `submit_closure`, with a task
    /// without a result.
    Submit { task: Task<T, C, R>, priority: Priority, now_tick: u64 },
    /// `submit_task_with_return`, whose handle has the given event.
    SubmitReturn { event: usize, f: R, now_tick: u64 },
    /// `submit_task_prioritized`, with a task that was handed back.
    Resubmit { index: int, priority: Priority, now_tick: u64 },
    /// `worker_thread`, by one of the workers.
    Work { worker: int, tick: u64 },
    /// `set_event`, by a worker whose closure has returned `result`.
    Return { worker: int, result: u64 },
    /// `TaskHandle::get`.
    Get { event: usize },
    /// `reset_pool_stats`.
    Reset,
    /// `shutdown_pool`; the last step waits for every worker to end.
    Shutdown,
}

/// Whether a queue item is a sentinel.
pub open spec fn is_sentinel<J>() -> spec_fn(QueueItem<J>) -> bool {
    |item: QueueItem<J>| item.func is Sentinel
}

/// Whether a worker holds or runs a task that is not counted as executed yet.
pub open spec fn is_busy<T, C, R>() -> spec_fn(Worker<T, C, R>) -> bool {
    |w: Worker<T, C, R>| w.stage is Fetched || w.stage is Started || w.stage is Running
}

/// Whether a worker was told to end.
pub open spec fn is_stopped<T, C, R>() -> spec_fn(Worker<T, C, R>) -> bool {
    |w: Worker<T, C, R>| w.stage is Stopped
}

/// The event that a queue item's task has yet to set.
pub open spec fn item_event<T, C, R>(item: QueueItem<Task<T, C, R>>) -> Option<usize> {
    match item.func {
        Entry::Task(task) => event_of(task),
        Entry::Sentinel => None,
    }
}

/// The event that a worker's task has yet to set.
pub open spec fn stage_event<T, C, R>(stage: WorkerStage<T, C, R>) -> Option<usize> {
    match stage {
        WorkerStage::Fetched { task, .. } => event_of(task),
        WorkerStage::Started { task } => event_of(task),
        WorkerStage::Running { event, .. } => event,
        _ => None,
    }
}

/// Whether a queue item's task has yet to set `event`.
pub open spec fn queued_for<T, C, R>(event: usize) -> spec_fn(QueueItem<Task<T, C, R>>) -> bool {
    |item: QueueItem<Task<T, C, R>>| item_event(item) == Some(event)
}

/// Whether a task has yet to set `event`.
pub open spec fn held_for<T, C, R>(event: usize) -> spec_fn(Task<T, C, R>) -> bool {
    |task: Task<T, C, R>| event_of(task) == Some(event)
}

/// Whether a worker's task has yet to set `event`.
pub open spec fn working_for<T, C, R>(event: usize) -> spec_fn(Worker<T, C, R>) -> bool {
    |w: Worker<T, C, R>| stage_event(w.stage) == Some(event)
}

impl<T, C, R: FnOnce() -> u64> System<T, C, R> {
    /// A new pool, before any call.
    pub open spec fn start() -> Self {
        System {
            pool: PoolView::empty(),
            workers: Seq::empty(),
            held: Seq::empty(),
            owners: Map::empty(),
            shutdown: ShutdownStage::Finished,
            sent: 0,
        }
    }

    /// The stage from which a shutdown makes its next step.
    pub open spec fn shutdown_stage(self) -> ShutdownStage {
        if self.shutdown is Finished {
            ShutdownStage::Begin
        } else {
            self.shutdown
        }
    }

    /// Whether a call can be made.
    pub open spec fn enabled(self, step: Step<T, C, R>) -> bool {
        match step {
            Step::StoreHandles { handles } => self.pool.phase is Running && handles.len()
                == self.pool.thread_count,
            Step::Submit { task, .. } => !(task is Return),
            Step::SubmitReturn { event, .. } => !self.pool.results.dom().contains(event),
            Step::Resubmit { index, .. } => 0 <= index < self.held.len(),
            Step::Work { worker, tick } => 0 <= worker < self.workers.len()
                && self.workers[worker].stage.accepts(tick),
            Step::Return { worker, result } => {
                &&& 0 <= worker < self.workers.len()
                &&& self.workers[worker].stage matches WorkerStage::Running { event: Some(_), .. }
                &&& self.workers[worker].callback matches Some(f)
                &&& call_ensures(f, (), result)
            },
            Step::Shutdown => {
                &&& self.pool.can_shut_down(self.shutdown_stage())
                &&& self.shutdown is Joining ==> forall|i: int|
                    0 <= i < self.workers.len() ==> (#[trigger] self.workers[i]).stage is Stopped
            },
            _ => true,
        }
    }

    /// The system after one call that can be made.
    pub open spec fn applied(self, step: Step<T, C, R>) -> Self {
        match step {
            Step::Initialize { processors } => if self.pool.phase is Running {
                self
            } else {
                System {
                    pool: self.pool.initialized(processors),
                    workers: Seq::new(
                        processors as nat,
                        |i: int| Worker::created(),
                    ),
                    sent: 0,
                    ..self
                }
            },
            Step::StoreHandles { handles } => System {
                pool: PoolView { handles, ..self.pool },
                ..self
            },
            Step::Submit { task, priority, now_tick } => System {
                pool: self.pool.submitted(task, priority, now_tick),
                held: with_handed_back(self.held, self.pool.submission(task, priority)),
                ..self
            },
            Step::SubmitReturn { event, f, now_tick } => {
                let task = return_task::<T, C, R>(event, f);
                System {
                    pool: self.pool.event_reserved(event).submitted(task, Priority::Low, now_tick),
                    owners: self.owners.insert(event, f),
                    held: with_handed_back(
                        self.held,
                        self.pool.submission(task, Priority::Low),
                    ),
                    ..self
                }
            },
            Step::Resubmit { index, priority, now_tick } => {
                let task = self.held[index];
                System {
                    pool: self.pool.submitted(task, priority, now_tick),
                    held: with_resubmitted(
                        self.held,
                        index,
                        self.pool.submission(task, priority),
                    ),
                    ..self
                }
            },
            Step::Work { worker, tick } => {
                let w = self.workers[worker];
                System {
                    pool: self.pool.worked(w.stage, tick),
                    workers: self.workers.update(
                        worker,
                        w.moved(
                            self.pool,
                            self.pool.next_worker_stage(w.stage, tick),
                            self.pool.worker_action(w.stage),
                            tick,
                        ),
                    ),
                    ..self
                }
            },
            Step::Return { worker, result } => {
                let w = self.workers[worker];
                System {
                    pool: match w.stage {
                        WorkerStage::Running { event: Some(event), .. } => self.pool.event_set(
                            event,
                            result,
                        ),
                        _ => self.pool,
                    },
                    workers: self.workers.update(
                        worker,
                        Worker { stage: w.stage.event_done(), ..w },
                    ),
                    ..self
                }
            },
            Step::Get { event } => System {
                pool: self.pool.result_taken(event),
                owners: if self.pool.is_set(event) {
                    self.owners.remove(event)
                } else {
                    self.owners
                },
                ..self
            },
            Step::Reset => System { pool: self.pool.reset(), ..self },
            Step::Shutdown => {
                let stage = self.shutdown_stage();
                System {
                    pool: self.pool.shut_down(stage),
                    shutdown: self.pool.next_stage(stage),
                    sent: self.sent + one_if(self.pool.sends_sentinel(stage)),
                    ..self
                }
            },
        }
    }

    /// The system after one call. A call that cannot be made changes nothing.
    pub open spec fn after(self, step: Step<T, C, R>) -> Self {
        if self.enabled(step) {
            self.applied(step)
        } else {
            self
        }
    }

    /// The system after a sequence of calls, the first of them first.
    pub open spec fn run(self, steps: Seq<Step<T, C, R>>) -> Self
        decreases steps.len(),
    {
        if steps.len() == 0 {
            self
        } else {
            self.run(steps.drop_last()).after(steps.last())
        }
    }

    /// The task that a call adds to a queue if there is room, and the tick count.
    pub open spec fn offered(self, step: Step<T, C, R>) -> Option<
        (Task<T, C, R>, Priority, u64),
    > {
        match step {
            Step::Submit { task, priority, now_tick } => Some((task, priority, now_tick)),
            Step::SubmitReturn { event, f, now_tick } => Some(
                (return_task::<T, C, R>(event, f), Priority::Low, now_tick),
            ),
            Step::Resubmit { index, priority, now_tick } => Some(
                (self.held[index], priority, now_tick),
            ),
            _ => None,
        }
    }

    /// The items that a call adds to the queue of one priority.
    pub open spec fn added(self, step: Step<T, C, R>, priority: Priority) -> Seq<
        QueueItem<Task<T, C, R>>,
    > {
        if !self.enabled(step) {
            seq![]
        } else if step is Shutdown {
            if priority is High && self.pool.sends_sentinel(self.shutdown_stage()) {
                seq![QueueItem { func: Entry::Sentinel, enqueue_tick: 0 }]
            } else {
                seq![]
            }
        } else {
            match self.offered(step) {
                Some((task, p, now_tick)) => if p == priority && self.pool.submission(
                    task,
                    p,
                ) is Queued {
                    seq![QueueItem { func: Entry::Task(task), enqueue_tick: now_tick }]
                } else {
                    seq![]
                },
                None => seq![],
            }
        }
    }

    /// The items that a call hands to a worker from the queue of one priority.
    pub open spec fn served(self, step: Step<T, C, R>, priority: Priority) -> Seq<
        QueueItem<Task<T, C, R>>,
    > {
        if self.enabled(step) && step is Work && self.workers[step->Work_worker].stage is Woken
            && self.pool.queues.queue(priority).len() > 0 && (priority is Low
            ==> self.pool.queues.high.len() == 0) {
            seq![self.pool.queues.queue(priority)[0]]
        } else {
            seq![]
        }
    }

    /// Whether a call counts a task as executed.
    pub open spec fn ends_task(self, step: Step<T, C, R>) -> bool {
        self.enabled(step) && step is Work && self.workers[step->Work_worker].stage is Running
    }

    /// Whether a call ends a task that has not set its event: the task panicked.
    pub open spec fn fails_task(self, step: Step<T, C, R>) -> bool {
        self.ends_task(step) && stage_event(self.workers[step->Work_worker].stage) is Some
    }

    /// Whether a call submits a task with a result, with this event.
    pub open spec fn opens_event(self, step: Step<T, C, R>, event: usize) -> bool {
        self.enabled(step) && step is SubmitReturn && step->SubmitReturn_event == event
    }

    /// Whether a call sets this event.
    pub open spec fn sets_event(self, step: Step<T, C, R>, event: usize) -> bool {
        self.enabled(step) && step is Return && stage_event(
            self.workers[step->Return_worker].stage,
        ) == Some(event)
    }

    /// Whether a call ends a task that has not set this event.
    pub open spec fn fails_event(self, step: Step<T, C, R>, event: usize) -> bool {
        self.ends_task(step) && stage_event(self.workers[step->Work_worker].stage) == Some(event)
    }

    /// The items that a sequence of calls adds to the queue of one priority.
    pub open spec fn all_added(self, steps: Seq<Step<T, C, R>>, priority: Priority) -> Seq<
        QueueItem<Task<T, C, R>>,
    >
        decreases steps.len(),
    {
        if steps.len() == 0 {
            seq![]
        } else {
            self.all_added(steps.drop_last(), priority) + self.run(steps.drop_last()).added(
                steps.last(),
                priority,
            )
        }
    }

    /// The items that a sequence of calls hands to workers from the queue of
    /// one priority.
    pub open spec fn all_served(self, steps: Seq<Step<T, C, R>>, priority: Priority) -> Seq<
        QueueItem<Task<T, C, R>>,
    >
        decreases steps.len(),
    {
        if steps.len() == 0 {
            seq![]
        } else {
            self.all_served(steps.drop_last(), priority) + self.run(steps.drop_last()).served(
                steps.last(),
                priority,
            )
        }
    }

    /// The number of tasks that a sequence of calls adds to the queues.
    pub open spec fn tasks_added(self, steps: Seq<Step<T, C, R>>) -> nat {
        tally(self.all_added(steps, Priority::High), is_task()) + tally(
            self.all_added(steps, Priority::Low),
            is_task(),
        )
    }

    /// The number of tasks that end in a sequence of calls.
    pub open spec fn tasks_ended(self, steps: Seq<Step<T, C, R>>) -> nat
        decreases steps.len(),
    {
        if steps.len() == 0 {
            0
        } else {
            self.tasks_ended(steps.drop_last()) + one_if(
                self.run(steps.drop_last()).ends_task(steps.last()),
            )
        }
    }

    /// The waiting time that a call adds: that of a task that it starts.
    pub open spec fn wait_added(self, step: Step<T, C, R>) -> nat {
        if !self.enabled(step) {
            0
        } else {
            match step {
                Step::Work { worker, tick } => match self.workers[worker].stage {
                    WorkerStage::Fetched { enqueue_tick, .. } => waited_ms(
                        enqueue_tick,
                        tick,
                    ) as nat,
                    _ => 0,
                },
                _ => 0,
            }
        }
    }

    /// The running time that a call adds: that of a task that it ends.
    pub open spec fn exec_added(self, step: Step<T, C, R>) -> nat {
        if !self.enabled(step) {
            0
        } else {
            match step {
                Step::Work { worker, tick } => match self.workers[worker].stage {
                    WorkerStage::Running { exec_start, .. } => (tick - exec_start) as nat,
                    _ => 0,
                },
                _ => 0,
            }
        }
    }

    /// The waiting time of the tasks that are started in a sequence of calls.
    pub open spec fn total_wait(self, steps: Seq<Step<T, C, R>>) -> nat
        decreases steps.len(),
    {
        if steps.len() == 0 {
            0
        } else {
            self.total_wait(steps.drop_last()) + self.run(steps.drop_last()).wait_added(
                steps.last(),
            )
        }
    }

    /// The running time of the tasks that end in a sequence of calls.
    pub open spec fn total_exec(self, steps: Seq<Step<T, C, R>>) -> nat
        decreases steps.len(),
    {
        if steps.len() == 0 {
            0
        } else {
            self.total_exec(steps.drop_last()) + self.run(steps.drop_last()).exec_added(
                steps.last(),
            )
        }
    }

    /// Whether a call is a step of this worker.
    pub open spec fn is_step_of(self, worker: int, step: Step<T, C, R>) -> bool {
        self.enabled(step) && step is Work && step->Work_worker == worker
    }

    /// The number of steps that a worker makes in a sequence of calls.
    pub open spec fn steps_of(self, worker: int, steps: Seq<Step<T, C, R>>) -> nat
        decreases steps.len(),
    {
        if steps.len() == 0 {
            0
        } else {
            self.steps_of(worker, steps.drop_last()) + one_if(
                self.run(steps.drop_last()).is_step_of(worker, steps.last()),
            )
        }
    }

    /// Whether every task with a result that ends in a sequence of calls has set
    /// its event.
    pub open spec fn all_return(self, steps: Seq<Step<T, C, R>>) -> bool
        decreases steps.len(),
    {
        steps.len() > 0 ==> {
            &&& self.all_return(steps.drop_last())
            &&& !self.run(steps.drop_last()).fails_task(steps.last())
        }
    }

    /// The number of tasks that workers hold or run, and that are not counted as
    /// executed yet.
    pub open spec fn running(self) -> nat {
        tally(self.workers, is_busy())
    }

    /// The number of sentinels in the high-priority queue.
    pub open spec fn sentinels_queued(self) -> nat {
        tally(self.pool.queues.high, is_sentinel())
    }

    /// The number of workers that were told to end.
    pub open spec fn stopped(self) -> nat {
        tally(self.workers, is_stopped())
    }

    /// The number of tasks that have yet to set `event`, be they queued, handed
    /// back to their submitter, or with a worker.
    pub open spec fn outstanding(self, event: usize) -> nat {
        tally(self.pool.queues.high, queued_for::<T, C, R>(event)) + tally(
            self.pool.queues.low,
            queued_for::<T, C, R>(event),
        ) + tally(self.held, held_for::<T, C, R>(event)) + tally(
            self.workers,
            working_for::<T, C, R>(event),
        )
    }

    /// Whether a task, if it has a result, still holds the closure that was
    /// submitted with its event.
    pub open spec fn owned(self, task: Task<T, C, R>) -> bool {
        task matches Task::Return(ctx) ==> {
            &&& self.owners.dom().contains(ctx.event)
            &&& ctx.callback == Some(self.owners[ctx.event])
        }
    }

    /// Whether the task in a queue item is `owned`.
    pub open spec fn item_owned(self, item: QueueItem<Task<T, C, R>>) -> bool {
        item.func matches Entry::Task(task) ==> self.owned(task)
    }

    /// Whether the task of a worker is `owned`.
    pub open spec fn worker_owned(self, w: Worker<T, C, R>) -> bool {
        match w.stage {
            WorkerStage::Fetched { task, .. } => self.owned(task),
            WorkerStage::Started { task } => self.owned(task),
            WorkerStage::Running { event: Some(event), .. } => {
                &&& self.owners.dom().contains(event)
                &&& w.callback == Some(self.owners[event])
            },
            _ => true,
        }
    }

    /// Every task holds the closure that was submitted with its event.
    pub open spec fn tasks_owned(self) -> bool {
        &&& self.owners.dom() == self.pool.results.dom()
        &&& forall|i: int|
            0 <= i < self.pool.queues.high.len() ==> self.item_owned(
                #[trigger] self.pool.queues.high[i],
            )
        &&& forall|i: int|
            0 <= i < self.pool.queues.low.len() ==> self.item_owned(
                #[trigger] self.pool.queues.low[i],
            )
        &&& forall|i: int| 0 <= i < self.held.len() ==> self.owned(#[trigger] self.held[i])
        &&& forall|i: int|
            0 <= i < self.workers.len() ==> self.worker_owned(#[trigger] self.workers[i])
    }

    /// At most one task has yet to set `event`; the event is in use and not set
    /// then. Once it is set, it holds what its closure returned.
    pub open spec fn event_sound(self, event: usize) -> bool {
        &&& self.outstanding(event) <= 1
        &&& self.outstanding(event) > 0 ==> self.pool.results.dom().contains(event)
            && !self.pool.is_set(event)
        &&& self.pool.is_set(event) ==> call_ensures(
            self.owners[event],
            (),
            self.pool.results[event]->0,
        )
    }

    /// The threads agree with the pool: there are as many workers as it was
    /// initialized with, a shutdown is under way only while it runs, each worker
    /// has a sentinel sent or still to send, all have ended once it is closed, and
    /// no more sentinels are queued or have stopped a worker than were sent.
    pub open spec fn threads_agree(self) -> bool {
        &&& self.workers.len() == self.pool.thread_count
        &&& !(self.shutdown is Begin)
        &&& !(self.shutdown is Finished) ==> {
            &&& self.pool.phase is Running
            &&& self.sent + self.pool.sentinels_left(self.shutdown) == self.pool.thread_count
        }
        &&& self.shutdown is Finished && self.pool.phase is Running ==> self.sent == 0
        &&& self.pool.phase is Closed ==> {
            &&& self.sent == self.pool.thread_count
            &&& forall|i: int|
                0 <= i < self.workers.len() ==> (#[trigger] self.workers[i]).stage is Stopped
        }
        &&& self.sentinels_queued() + self.stopped() <= self.sent
    }

    /// Every worker's stage agrees with what was seen of it.
    pub open spec fn workers_observed(self) -> bool {
        forall|i: int| 0 <= i < self.workers.len() ==> (#[trigger] self.workers[i]).observed()
    }

    /// What holds of every system.
    pub open spec fn valid(self) -> bool {
        &&& self.pool.valid()
        &&& self.threads_agree()
        &&& self.tasks_owned()
        &&& forall|event: usize| #[trigger] self.event_sound(event)
    }
}

/// Where the pool does not run, no sentinel is queued.
pub proof fn lemma_no_sentinels_unless_running<T, C, R: FnOnce() -> u64>(s: System<T, C, R>)
    requires
        s.pool.valid(),
        s.threads_agree(),
        !(s.pool.phase is Running),
    ensures
        s.pool.queues.without_sentinels() == s.pool.queues,
{
    lemma_tally_uniform(s.workers, is_stopped::<T, C, R>());
    assert forall|i: int| 0 <= i < s.pool.queues.high.len() implies (
    #[trigger] s.pool.queues.high[i]).func is Task by {
        if s.pool.queues.high[i].func is Sentinel {
            lemma_tally_counts(s.pool.queues.high, i, is_sentinel::<Task<T, C, R>>());
        }
    }
    lemma_tasks_fit(s.pool.queues.high);
}

/// How a call changes the number of sentinels that are queued or have stopped a
/// worker.
pub proof fn lemma_sentinels_after<T, C, R: FnOnce() -> u64>(
    s: System<T, C, R>,
    step: Step<T, C, R>,
)
    requires
        s.pool.valid(),
        s.threads_agree(),
    ensures
        s.after(step).sentinels_queued() + s.after(step).stopped() <= s.after(step).sent,
        !(step is Reset) && s.sentinels_queued() + s.stopped() == s.sent ==> s.after(
            step,
        ).sentinels_queued() + s.after(step).stopped() == s.after(step).sent,
{
    let t = s.after(step);
    let n = is_sentinel::<Task<T, C, R>>();
    let e = is_stopped::<T, C, R>();
    if s.enabled(step) {
        match step {
            Step::Initialize { .. } => {
                if !(s.pool.phase is Running) {
                    lemma_no_sentinels_unless_running(s);
                    lemma_tally_uniform(s.workers, e);
                    lemma_tally_uniform(t.workers, e);
                }
            },
            Step::Work { worker, tick } => {
                lemma_tally_update(s.workers, worker, t.workers[worker], e);
                if s.workers[worker].stage is Woken && s.pool.queues.high.len() > 0 {
                    lemma_tally_first(s.pool.queues.high, n);
                }
            },
            Step::Return { worker, result } => {
                lemma_tally_update(s.workers, worker, t.workers[worker], e);
            },
            Step::Shutdown => {
                let sentinel = QueueItem::<Task<T, C, R>> {
                    func: Entry::Sentinel,
                    enqueue_tick: 0,
                };
                lemma_tally_push(s.pool.queues.high, sentinel, n);
            },
            Step::Reset => {
                assert(tally(t.pool.queues.high, n) == 0);
            },
            _ => {
                if let Some((task, priority, now_tick)) = s.offered(step) {
                    let item = QueueItem { func: Entry::Task(task), enqueue_tick: now_tick };
                    lemma_tally_push(s.pool.queues.queue(priority), item, n);
                }
            },
        }
    }
}

/// Every call keeps the pool valid, and the threads in agreement with it.
pub proof fn lemma_threads_agree_kept<T, C, R: FnOnce() -> u64>(
    s: System<T, C, R>,
    step: Step<T, C, R>,
)
    requires
        s.pool.valid(),
        s.threads_agree(),
    ensures
        s.after(step).pool.valid(),
        s.after(step).threads_agree(),
{
    lemma_sentinels_after(s, step);
    if s.enabled(step) {
        match step {
            Step::Initialize { .. } => {
                if !(s.pool.phase is Running) {
                    lemma_no_sentinels_unless_running(s);
                }
            },
            Step::Reset => {
                if s.pool.phase is Uninitialized {
                    assert(s.pool.reset().queues =~= s.pool.queues);
                }
            },
            _ => {},
        }
    }
}

/// Every call keeps the workers' stages in agreement with what was seen of them.
pub proof fn lemma_workers_observed_kept<T, C, R: FnOnce() -> u64>(
    s: System<T, C, R>,
    step: Step<T, C, R>,
)
    requires
        s.workers_observed(),
    ensures
        s.after(step).workers_observed(),
{
    if s.enabled(step) {
        match step {
            Step::Work { worker, .. } => {
                assert(s.workers[worker].observed());
            },
            Step::Return { worker, .. } => {
                assert(s.workers[worker].observed());
            },
            _ => {},
        }
    }
}

/// Every call keeps the tasks with the closures that they were submitted with.
pub proof fn lemma_tasks_owned_kept<T, C, R: FnOnce() -> u64>(
    s: System<T, C, R>,
    step: Step<T, C, R>,
)
    requires
        s.valid(),
    ensures
        s.after(step).tasks_owned(),
{
    let t = s.after(step);
    if s.enabled(step) {
        match step {
            Step::Initialize { .. } => {
                if !(s.pool.phase is Running) {
                    lemma_no_sentinels_unless_running(s);
                }
            },
            Step::Get { event } => {
                if s.pool.is_set(event) {
                    assert(s.event_sound(event));
                    lemma_none_outstanding(s, event);
                }
            },
            Step::Return { worker, result } => {
                assert(s.worker_owned(s.workers[worker]));
                assert(t.owners.dom() =~= t.pool.results.dom());
            },
            Step::Work { worker, tick } => {
                assert(s.worker_owned(s.workers[worker]));
                if s.workers[worker].stage is Woken {
                    if s.pool.queues.high.len() > 0 {
                        assert(s.item_owned(s.pool.queues.high[0]));
                    } else if s.pool.queues.low.len() > 0 {
                        assert(s.item_owned(s.pool.queues.low[0]));
                    }
                }
            },
            Step::Resubmit { index, .. } => {
                assert(s.owned(s.held[index]));
            },
            Step::SubmitReturn { event, f, .. } => {
                assert(t.owners.dom() =~= t.pool.results.dom());
                assert forall|i: int| 0 <= i < t.held.len() implies t.owned(
                    #[trigger] t.held[i],
                ) by {
                    if i < s.held.len() {
                        assert(s.owned(s.held[i]));
                    }
                }
                assert forall|i: int| 0 <= i < t.pool.queues.low.len() implies t.item_owned(
                    #[trigger] t.pool.queues.low[i],
                ) by {
                    if i < s.pool.queues.low.len() {
                        assert(s.item_owned(s.pool.queues.low[i]));
                    }
                }
                assert forall|i: int| 0 <= i < t.workers.len() implies t.worker_owned(
                    #[trigger] t.workers[i],
                ) by {
                    assert(s.worker_owned(s.workers[i]));
                }
            },
            _ => {},
        }
    }
}

/// Where no task has yet to set an event, none that is queued, held or with a
/// worker is for that event.
proof fn lemma_none_outstanding<T, C, R: FnOnce() -> u64>(s: System<T, C, R>, event: usize)
    requires
        s.outstanding(event) == 0,
    ensures
        forall|i: int|
            0 <= i < s.pool.queues.high.len() ==> item_event(#[trigger] s.pool.queues.high[i])
                != Some(event),
        forall|i: int|
            0 <= i < s.pool.queues.low.len() ==> item_event(#[trigger] s.pool.queues.low[i])
                != Some(event),
        forall|i: int|
            0 <= i < s.held.len() ==> event_of(#[trigger] s.held[i]) != Some(event),
        forall|i: int|
            0 <= i < s.workers.len() ==> stage_event((#[trigger] s.workers[i]).stage) != Some(
                event,
            ),
{
    assert forall|i: int| 0 <= i < s.pool.queues.high.len() implies item_event(
        #[trigger] s.pool.queues.high[i],
    ) != Some(event) by {
        if item_event(s.pool.queues.high[i]) == Some(event) {
            lemma_tally_counts(s.pool.queues.high, i, queued_for::<T, C, R>(event));
        }
    }
    assert forall|i: int| 0 <= i < s.pool.queues.low.len() implies item_event(
        #[trigger] s.pool.queues.low[i],
    ) != Some(event) by {
        if item_event(s.pool.queues.low[i]) == Some(event) {
            lemma_tally_counts(s.pool.queues.low, i, queued_for::<T, C, R>(event));
        }
    }
    assert forall|i: int| 0 <= i < s.held.len() implies event_of(#[trigger] s.held[i]) != Some(
        event,
    ) by {
        if event_of(s.held[i]) == Some(event) {
            lemma_tally_counts(s.held, i, held_for::<T, C, R>(event));
        }
    }
    assert forall|i: int| 0 <= i < s.workers.len() implies stage_event(
        (#[trigger] s.workers[i]).stage,
    ) != Some(event) by {
        if stage_event(s.workers[i].stage) == Some(event) {
            lemma_tally_counts(s.workers, i, working_for::<T, C, R>(event));
        }
    }
}

/// How a call changes the number of tasks that have yet to set an event: a
/// submission with that event adds one, and only the end of such a task, its
/// setting the event, or a reset takes one away.
pub proof fn lemma_outstanding_after<T, C, R: FnOnce() -> u64>(
    s: System<T, C, R>,
    step: Step<T, C, R>,
    event: usize,
)
    requires
        s.pool.valid(),
        s.threads_agree(),
    ensures
        s.opens_event(step, event) ==> s.after(step).outstanding(event) == s.outstanding(event)
            + 1,
        s.sets_event(step, event) || s.fails_event(step, event) ==> s.after(step).outstanding(event)
            == s.outstanding(event) - 1,
        step is Reset ==> s.after(step).outstanding(event) <= s.outstanding(event),
        !(s.opens_event(step, event) || s.sets_event(step, event) || s.fails_event(step, event)
            || step is Reset) ==> s.after(step).outstanding(event) == s.outstanding(event),
{
    let t = s.after(step);
    let q = queued_for::<T, C, R>(event);
    let h = held_for::<T, C, R>(event);
    let w = working_for::<T, C, R>(event);
    if s.enabled(step) {
        match step {
            Step::Initialize { .. } => {
                if !(s.pool.phase is Running) {
                    lemma_no_sentinels_unless_running(s);
                    lemma_tally_uniform(s.workers, w);
                    lemma_tally_uniform(t.workers, w);
                }
            },
            Step::Submit { task, priority, now_tick } => {
                let item = QueueItem { func: Entry::Task(task), enqueue_tick: now_tick };
                lemma_tally_push(s.pool.queues.queue(priority), item, q);
                lemma_tally_push(s.held, task, h);
            },
            Step::SubmitReturn { event: e, f, now_tick } => {
                let task = return_task::<T, C, R>(e, f);
                let item = QueueItem { func: Entry::Task(task), enqueue_tick: now_tick };
                lemma_tally_push(s.pool.queues.low, item, q);
                lemma_tally_push(s.held, task, h);
            },
            Step::Resubmit { index, priority, now_tick } => {
                let task = s.held[index];
                let item = QueueItem { func: Entry::Task(task), enqueue_tick: now_tick };
                lemma_tally_push(s.pool.queues.queue(priority), item, q);
                lemma_tally_remove(s.held, index, h);
                lemma_tally_update(s.held, index, task, h);
            },
            Step::Work { worker, tick } => {
                lemma_tally_update(s.workers, worker, t.workers[worker], w);
                if s.workers[worker].stage is Woken {
                    if s.pool.queues.high.len() > 0 {
                        lemma_tally_first(s.pool.queues.high, q);
                    } else if s.pool.queues.low.len() > 0 {
                        lemma_tally_first(s.pool.queues.low, q);
                    }
                }
            },
            Step::Return { worker, result } => {
                lemma_tally_update(s.workers, worker, t.workers[worker], w);
            },
            Step::Reset => {
                assert(tally(t.pool.queues.high, q) == 0);
                assert(tally(t.pool.queues.low, q) == 0);
            },
            Step::Shutdown => {
                let sentinel = QueueItem::<Task<T, C, R>> {
                    func: Entry::Sentinel,
                    enqueue_tick: 0,
                };
                lemma_tally_push(s.pool.queues.high, sentinel, q);
            },
            _ => {},
        }
    }
}

/// Every call keeps an event sound.
pub proof fn lemma_event_sound_kept<T, C, R: FnOnce() -> u64>(
    s: System<T, C, R>,
    step: Step<T, C, R>,
    event: usize,
)
    requires
        s.valid(),
    ensures
        s.after(step).event_sound(event),
{
    assert(s.event_sound(event));
    lemma_outstanding_after(s, step, event);
    if s.enabled(step) {
        match step {
            Step::Return { worker, result } => {
                let w = s.workers[worker];
                assert(s.worker_owned(w));
                if stage_event(w.stage) == Some(event) {
                    lemma_tally_counts(s.workers, worker, working_for::<T, C, R>(event));
                }
            },
            _ => {},
        }
    }
}

} // verus!
