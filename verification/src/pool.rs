//! The pool: submitting tasks, serving workers, statistics and shutdown.

use crate::queues::{lemma_tasks_fit, Entry, Priority, QueueItem, QueuesView, TaskQueues, Wake};
use crate::results::ResultTable;
use crate::ring::MAX_QUEUE;
use crate::stats::{Counters, MeanMs, PoolStats};
use crate::task::{ClosureContext, ReturnContext, Task};
use vstd::prelude::*;

verus! {

/// How far the pool's life has come.
#[derive(Debug, Clone, Copy, PartialEq, Eq, Structural)]
pub enum Phase {
    /// Nothing was submitted yet: there are no semaphores and no threads.
    Uninitialized,
    /// The semaphores exist and the worker threads run.
    Running,
    /// The worker threads have ended and the semaphores are closed. The next
    /// submission starts the pool again.
    Closed,
}

/// A pool of tasks: raw tasks of type `T`, closures of type `C`, and closures
/// of type `R` that return a result.
///
/// One lock protects the whole pool; each function below runs under it.
pub struct Pool<T, C, R> {
    queues: TaskQueues<Task<T, C, R>>,
    counters: Counters,
    results: ResultTable,
    phase: Phase,
    thread_count: u32,
    handles: Vec<usize>,
}

/// What a pool holds.
#[verifier::ext_equal]
pub struct PoolView<T, C, R> {
    pub queues: QueuesView<Task<T, C, R>>,
    pub counters: Counters,
    /// The events of tasks with a result, each with its result once it is set.
    pub results: Map<usize, Option<u64>>,
    pub phase: Phase,
    /// The number of worker threads that the pool was initialized with.
    pub thread_count: u32,
    /// The handles of the worker threads.
    pub handles: Seq<usize>,
}

/// The counts that a semaphore is created with.
#[derive(Debug, Clone, Copy, PartialEq, Eq, Structural)]
pub struct SemaphoreLayout {
    pub initial: i32,
    pub maximum: i32,
}

/// What the pool needs from the system.
#[derive(Debug, Clone, Copy, PartialEq, Eq, Structural)]
pub struct PoolLayout {
    /// Counts the wake-ups for workers.
    pub task_semaphore: SemaphoreLayout,
    /// Counts the slots left for items of either queue.
    pub slot_semaphore: SemaphoreLayout,
    /// Counts the room in the high-priority queue.
    pub high_room: SemaphoreLayout,
    /// Counts the room in the low-priority queue.
    pub low_room: SemaphoreLayout,
    /// The number of worker threads to create.
    pub threads: u32,
}

/// How much room a reset has freed in each queue. While the pool runs, each room
/// semaphore is released that many times.
#[derive(Debug, Clone, Copy, PartialEq, Eq, Structural)]
pub struct FreedRoom {
    pub high: usize,
    pub low: usize,
}

/// What a submitter does next.
pub enum Submission<J> {
    /// Initialize the pool, then submit the task again.
    Initialize(J),
    /// The queue is full, or wake-ups of dropped items hold the last slots: wait
    /// for room in the queue and for a slot, then submit the task again.
    WaitForSlot(J),
    /// The task is in its queue: release the task semaphore once.
    Queued,
}

/// How far a worker thread has come. It starts `Idle`.
pub enum WorkerStage<T, C, R> {
    /// It has nothing to do.
    Idle,
    /// It has waited for the task semaphore.
    Woken,
    /// It holds a task, and the slot and the room of that task are free again.
    Fetched { task: Task<T, C, R>, enqueue_tick: u64 },
    /// The time that its task has waited is counted.
    Started { task: Task<T, C, R> },
    /// It runs a task. `event` is the event that the task has yet to set.
    Running { exec_start: u64, event: Option<usize> },
    /// It is to end.
    Stopped,
}

/// What a worker thread does next. After anything but `Exit` it goes on.
pub enum WorkerAction<T, C, R> {
    /// Wait for the task semaphore.
    WaitForTask,
    /// Release the slot semaphore once, and the room semaphore of the queue that
    /// it was served from, if any, once.
    ReleaseSlot { from: Option<Priority> },
    /// Nothing.
    Proceed,
    /// Run the task to its end. If it returns a result, call `set_event`.
    Run { task: Task<T, C, R> },
    /// End the thread.
    Exit,
}

/// The event that a task sets when it has returned, if there is one.
pub open spec fn event_of<T, C, R>(task: Task<T, C, R>) -> Option<usize> {
    match task {
        Task::Return(ctx) => Some(ctx.event),
        _ => None,
    }
}

impl<T, C, R> WorkerStage<T, C, R> {
    /// Whether a worker can go on from this stage at `tick`: a task does not
    /// end before it began.
    pub open spec fn accepts(self, tick: u64) -> bool {
        self matches WorkerStage::Running { exec_start, .. } ==> exec_start <= tick
    }

    /// The stage after the event of the running task was set.
    pub open spec fn event_done(self) -> Self {
        match self {
            WorkerStage::Running { exec_start, .. } => WorkerStage::Running {
                exec_start,
                event: None,
            },
            _ => self,
        }
    }
}

/// How far a shutdown has come.
#[derive(Debug, Clone, Copy, PartialEq, Eq, Structural)]
pub enum ShutdownStage {
    /// Nothing was done yet.
    Begin,
    /// `left` workers have no sentinel yet.
    Sentinels { left: u32 },
    /// Every worker has its sentinel, and the threads are being waited for.
    Joining,
    /// Nothing is left to do.
    Finished,
}

/// What a thread that shuts the pool down does next.
#[derive(Debug)]
pub enum ShutdownAction {
    /// There is no room in the high-priority queue or no slot: wait for both, then
    /// go on.
    WaitForSlot,
    /// Release the task semaphore once, then go on.
    ReleaseTask,
    /// Wait for these threads and close their handles, then go on.
    Join(Vec<usize>),
    /// Close the semaphores.
    CloseSemaphores,
    /// Nothing.
    Done,
}

/// Whether a thread handle can be waited for: it is neither null nor the
/// invalid handle, whose bits are all set.
pub open spec fn is_valid_handle(handle: usize) -> bool {
    handle != 0 && handle != usize::MAX
}

impl<T, C, R> PoolView<T, C, R> {
    /// A pool that nothing was submitted to yet.
    pub open spec fn empty() -> Self {
        PoolView {
            queues: QueuesView::empty(),
            counters: Counters::zero(),
            results: Map::empty(),
            phase: Phase::Uninitialized,
            thread_count: 0,
            handles: Seq::empty(),
        }
    }

    /// What holds of every pool: the queues keep their bounds, the low-priority
    /// queue holds no sentinel, a pool that is not initialized has neither tasks
    /// nor threads, and one without a task semaphore owes no wake-up for a dropped
    /// item.
    pub open spec fn valid(self) -> bool {
        &&& self.queues.bounded()
        &&& forall|i: int|
            0 <= i < self.queues.low.len() ==> (#[trigger] self.queues.low[i]).func is Task
        &&& self.phase is Uninitialized ==> {
            &&& self.queues == QueuesView::<Task<T, C, R>>::empty()
            &&& self.thread_count == 0
            &&& self.handles.len() == 0
        }
        &&& self.phase is Closed ==> {
            &&& self.queues.dropped == 0
            &&& self.handles.len() == 0
        }
    }

    /// What a submitter is told.
    pub open spec fn submission(self, task: Task<T, C, R>, priority: Priority) -> Submission<
        Task<T, C, R>,
    > {
        if !(self.phase is Running) {
            Submission::Initialize(task)
        } else if self.queues.accepts(priority) {
            Submission::Queued
        } else {
            Submission::WaitForSlot(task)
        }
    }

    /// The pool after a task was submitted at `now_tick`.
    pub open spec fn submitted(
        self,
        task: Task<T, C, R>,
        priority: Priority,
        now_tick: u64,
    ) -> Self {
        if self.submission(task, priority) is Queued {
            PoolView {
                queues: self.queues.pushed(
                    priority,
                    QueueItem { func: Entry::Task(task), enqueue_tick: now_tick },
                ),
                counters: self.counters.with_enqueued(),
                ..self
            }
        } else {
            self
        }
    }

    /// The pool after it was initialized, for the first time or again, on a
    /// machine with `processors` processors. Sentinels that no worker has taken do
    /// not outlive the shutdown that sent them.
    pub open spec fn initialized(self, processors: u32) -> Self {
        if !(self.phase is Running) {
            PoolView {
                queues: self.queues.without_sentinels(),
                phase: Phase::Running,
                thread_count: processors,
                ..self
            }
        } else {
            self
        }
    }

    /// The stage of a worker after one step from this stage at `tick`.
    pub open spec fn next_worker_stage(
        self,
        stage: WorkerStage<T, C, R>,
        tick: u64,
    ) -> WorkerStage<T, C, R> {
        match stage {
            WorkerStage::Idle => WorkerStage::Woken,
            WorkerStage::Woken => match self.queues.wake() {
                Wake::NoPermit => WorkerStage::Woken,
                Wake::Nothing => WorkerStage::Idle,
                Wake::Stop { .. } => WorkerStage::Stopped,
                Wake::Run { task, enqueue_tick, .. } => WorkerStage::Fetched { task, enqueue_tick },
            },
            WorkerStage::Fetched { task, .. } => WorkerStage::Started { task },
            WorkerStage::Started { task } => WorkerStage::Running {
                exec_start: tick,
                event: event_of(task),
            },
            WorkerStage::Running { .. } => WorkerStage::Woken,
            WorkerStage::Stopped => WorkerStage::Stopped,
        }
    }

    /// What a worker is told that makes one step from this stage.
    pub open spec fn worker_action(self, stage: WorkerStage<T, C, R>) -> WorkerAction<T, C, R> {
        match stage {
            WorkerStage::Idle => WorkerAction::WaitForTask,
            WorkerStage::Woken => match self.queues.wake() {
                Wake::NoPermit => WorkerAction::WaitForTask,
                Wake::Nothing => WorkerAction::ReleaseSlot { from: None },
                Wake::Stop { from } => WorkerAction::ReleaseSlot { from: Some(from) },
                Wake::Run { from, .. } => WorkerAction::ReleaseSlot { from: Some(from) },
            },
            WorkerStage::Fetched { .. } => WorkerAction::Proceed,
            WorkerStage::Started { task } => WorkerAction::Run { task },
            WorkerStage::Running { .. } => WorkerAction::WaitForTask,
            WorkerStage::Stopped => WorkerAction::Exit,
        }
    }

    /// The pool after a worker made one step from this stage at `tick`.
    pub open spec fn worked(self, stage: WorkerStage<T, C, R>, tick: u64) -> Self {
        match stage {
            WorkerStage::Woken => PoolView { queues: self.queues.woken(), ..self },
            WorkerStage::Fetched { enqueue_tick, .. } => PoolView {
                counters: self.counters.with_wait(enqueue_tick, tick),
                ..self
            },
            WorkerStage::Running { exec_start, .. } => PoolView {
                counters: self.counters.with_execution(exec_start, tick),
                ..self
            },
            _ => self,
        }
    }

    /// Whether an event is in use and set.
    pub open spec fn is_set(self, event: usize) -> bool {
        self.results.dom().contains(event) && self.results[event] is Some
    }

    /// The pool after an event was taken into use, not set.
    pub open spec fn event_reserved(self, event: usize) -> Self {
        PoolView { results: self.results.insert(event, None), ..self }
    }

    /// The pool after an event was set, if it is in use.
    pub open spec fn event_set(self, event: usize, result: u64) -> Self {
        if self.results.dom().contains(event) {
            PoolView { results: self.results.insert(event, Some(result)), ..self }
        } else {
            self
        }
    }

    /// The pool after the holder of a handle asked for the result: an event
    /// that is set is freed.
    pub open spec fn result_taken(self, event: usize) -> Self {
        if self.is_set(event) {
            PoolView { results: self.results.remove(event), ..self }
        } else {
            self
        }
    }

    /// The pool after its statistics and queues were reset.
    pub open spec fn reset(self) -> Self {
        PoolView {
            queues: if self.phase is Closed {
                self.queues.cleared().without_dropped()
            } else {
                self.queues.cleared()
            },
            counters: Counters::zero(),
            ..self
        }
    }

    /// The pool after one worker was sent a sentinel.
    pub open spec fn with_sentinel(self) -> Self {
        PoolView {
            queues: self.queues.pushed(
                Priority::High,
                QueueItem { func: Entry::Sentinel, enqueue_tick: 0 },
            ),
            ..self
        }
    }

    /// The pool after its semaphores were closed.
    pub open spec fn closed(self) -> Self {
        PoolView {
            queues: self.queues.without_dropped(),
            phase: Phase::Closed,
            handles: Seq::empty(),
            ..self
        }
    }

    /// The statistics of the pool.
    pub open spec fn stats(self) -> PoolStats {
        PoolStats {
            total_enqueued: self.counters.total_enqueued,
            total_executed: self.counters.total_executed,
            avg_wait_ms: MeanMs::of(self.counters.total_wait_ms, self.counters.total_executed),
            avg_exec_ms: MeanMs::of(self.counters.total_exec_ms, self.counters.total_executed),
            current_queue: (self.queues.high.len() + self.queues.low.len()) as usize,
            high_queue: self.queues.high.len() as usize,
            low_queue: self.queues.low.len() as usize,
        }
    }

    /// Whether a shutdown can be at this stage. A closed pool whose threads
    /// have ended cannot be shut down again before it was used again.
    pub open spec fn can_shut_down(self, stage: ShutdownStage) -> bool {
        match stage {
            ShutdownStage::Begin => self.phase is Closed ==> self.thread_count == 0,
            ShutdownStage::Sentinels { left } => self.phase is Running && left
                <= self.thread_count,
            ShutdownStage::Joining => self.phase is Running,
            ShutdownStage::Finished => true,
        }
    }

    /// The number of sentinels that a shutdown at this stage still has to send.
    pub open spec fn sentinels_left(self, stage: ShutdownStage) -> nat {
        match stage {
            ShutdownStage::Begin => if self.phase is Running {
                self.thread_count as nat
            } else {
                0
            },
            ShutdownStage::Sentinels { left } => left as nat,
            _ => 0,
        }
    }

    /// Whether a shutdown at this stage sends a sentinel now: it has one left
    /// to send, and the high-priority queue can take it.
    pub open spec fn sends_sentinel(self, stage: ShutdownStage) -> bool {
        self.sentinels_left(stage) > 0 && self.queues.accepts(Priority::High)
    }

    /// The stage of a shutdown after one step from this stage.
    pub open spec fn next_stage(self, stage: ShutdownStage) -> ShutdownStage {
        match stage {
            ShutdownStage::Begin if !(self.phase is Running) => ShutdownStage::Finished,
            ShutdownStage::Begin | ShutdownStage::Sentinels { .. } => {
                let left = self.sentinels_left(stage);
                if left == 0 {
                    ShutdownStage::Joining
                } else if self.sends_sentinel(stage) {
                    ShutdownStage::Sentinels { left: (left - 1) as u32 }
                } else {
                    ShutdownStage::Sentinels { left: left as u32 }
                }
            },
            _ => ShutdownStage::Finished,
        }
    }

    /// The pool after one step of a shutdown from this stage.
    pub open spec fn shut_down(self, stage: ShutdownStage) -> Self {
        if self.sends_sentinel(stage) {
            self.with_sentinel()
        } else if stage is Joining {
            self.closed()
        } else {
            self
        }
    }

    /// Whether a thread that makes one step of a shutdown from this stage is
    /// told `action`.
    pub open spec fn orders(self, stage: ShutdownStage, action: ShutdownAction) -> bool {
        match action {
            ShutdownAction::WaitForSlot => self.sentinels_left(stage) > 0 && !self.sends_sentinel(
                stage,
            ),
            ShutdownAction::ReleaseTask => self.sends_sentinel(stage),
            ShutdownAction::Join(threads) => {
                &&& stage is Begin && self.phase is Running || stage is Sentinels
                &&& self.sentinels_left(stage) == 0
                &&& threads@ == self.handles.filter(|h: usize| is_valid_handle(h))
            },
            ShutdownAction::CloseSemaphores => stage is Joining,
            ShutdownAction::Done => stage is Finished || stage is Begin && !(self.phase
                is Running),
        }
    }
}

impl<T, C, R> View for Pool<T, C, R> {
    type V = PoolView<T, C, R>;

    closed spec fn view(&self) -> PoolView<T, C, R> {
        PoolView {
            queues: self.queues@,
            counters: self.counters,
            results: self.results@,
            phase: self.phase,
            thread_count: self.thread_count,
            handles: self.handles@,
        }
    }
}

impl<T, C, R> Pool<T, C, R> {
    /// The queues are well-formed, and what the pool holds is valid.
    pub closed spec fn wf(&self) -> bool {
        &&& self.queues.wf()
        &&& self@.valid()
    }

    /// A well-formed pool is valid, so whatever holds of valid pools holds of it.
    pub proof fn lemma_valid(&self)
        requires
            self.wf(),
        ensures
            self@.valid(),
    {
    }

    /// A pool that nothing was submitted to yet.
    pub fn new() -> (pool: Self)
        ensures
            pool.wf(),
            pool@ == PoolView::<T, C, R>::empty(),
    {
        Pool {
            queues: TaskQueues::new(),
            counters: Counters::new(),
            results: ResultTable::new(),
            phase: Phase::Uninitialized,
            thread_count: 0,
            handles: Vec::new(),
        }
    }

    /// How far the pool's life has come.
    pub fn phase(&self) -> (phase: Phase)
        ensures
            phase == self@.phase,
    {
        self.phase
    }

    /// The number of worker threads that the pool was initialized with.
    pub fn thread_count(&self) -> (threads: u32)
        ensures
            threads == self@.thread_count,
    {
        self.thread_count
    }

    /// Whether the next step of a shutdown needs room in the high-priority queue
    /// and a slot, because it has a sentinel left to send.
    pub fn needs_slot(&self, stage: ShutdownStage) -> (needed: bool)
        ensures
            needed <==> self@.sentinels_left(stage) > 0,
    {
        match stage {
            ShutdownStage::Begin => match self.phase {
                Phase::Running => self.thread_count > 0,
                _ => false,
            },
            ShutdownStage::Sentinels { left } => left > 0,
            _ => false,
        }
    }
}

/// Initializes the pool unless it runs: the first time, and again after a
/// shutdown. There is one worker thread for each processor, a task semaphore with
/// a wake-up for each task that is queued, a slot semaphore with the slots that
/// are left, and a room semaphore for each queue with the room that is left in it.
/// No sentinel is queued then.
pub fn initialize_pool<T, C, R>(pool: &mut Pool<T, C, R>, processors: u32) -> (layout: Option<
    PoolLayout,
>)
    requires
        old(pool).wf(),
    ensures
        final(pool).wf(),
        final(pool)@ == old(pool)@.initialized(processors),
        layout is Some <==> !(old(pool)@.phase is Running),
        layout matches Some(l) ==> {
            &&& l.threads == processors
            &&& l.task_semaphore.initial == final(pool)@.queues.permits()
            &&& l.task_semaphore.maximum == 2 * MAX_QUEUE
            &&& l.slot_semaphore.initial == final(pool)@.queues.slots()
            &&& l.slot_semaphore.maximum == 2 * MAX_QUEUE
            &&& l.high_room.initial == final(pool)@.queues.room(Priority::High)
            &&& l.high_room.maximum == MAX_QUEUE
            &&& l.low_room.initial == final(pool)@.queues.room(Priority::Low)
            &&& l.low_room.maximum == MAX_QUEUE
            &&& l.task_semaphore.initial + l.slot_semaphore.initial == 2 * MAX_QUEUE
            &&& l.high_room.initial + final(pool)@.queues.high.len() == MAX_QUEUE
            &&& l.low_room.initial + final(pool)@.queues.low.len() == MAX_QUEUE
        },
        layout is Some ==> forall|i: int|
            0 <= i < final(pool)@.queues.high.len() ==> (
            #[trigger] final(pool)@.queues.high[i]).func is Task,
{
    match pool.phase {
        Phase::Running => None,
        _ => {
            proof {
                lemma_tasks_fit(pool.queues@.high);
            }
            pool.queues.drop_sentinels();
            pool.phase = Phase::Running;
            pool.thread_count = processors;
            Some(
                PoolLayout {
                    task_semaphore: SemaphoreLayout {
                        initial: pool.queues.permits() as i32,
                        maximum: (MAX_QUEUE * 2) as i32,
                    },
                    slot_semaphore: SemaphoreLayout {
                        initial: pool.queues.slots() as i32,
                        maximum: (MAX_QUEUE * 2) as i32,
                    },
                    high_room: SemaphoreLayout {
                        initial: pool.queues.room(Priority::High) as i32,
                        maximum: MAX_QUEUE as i32,
                    },
                    low_room: SemaphoreLayout {
                        initial: pool.queues.room(Priority::Low) as i32,
                        maximum: MAX_QUEUE as i32,
                    },
                    threads: processors,
                },
            )
        },
    }
}

/// Keeps the handles of the worker threads, valid or not, for the shutdown.
pub fn store_handles<T, C, R>(pool: &mut Pool<T, C, R>, handles: Vec<usize>)
    requires
        old(pool).wf(),
        old(pool)@.phase is Running,
        handles@.len() == old(pool)@.thread_count,
    ensures
        final(pool).wf(),
        final(pool)@ == (PoolView { handles: handles@, ..old(pool)@ }),
{
    pool.handles = handles;
}

/// Adds a task with priority. Where its queue is full, where all slots are taken,
/// which only wake-ups of dropped items can bring about before both queues are
/// full, or where the pool does not run yet or any more, the task is handed back
/// and nothing changes.
pub fn submit_task_prioritized<T, C, R>(
    pool: &mut Pool<T, C, R>,
    task: Task<T, C, R>,
    priority: Priority,
    now_tick: u64,
) -> (next: Submission<Task<T, C, R>>)
    requires
        old(pool).wf(),
    ensures
        final(pool).wf(),
        next == old(pool)@.submission(task, priority),
        final(pool)@ == old(pool)@.submitted(task, priority, now_tick),
        match next {
            Submission::Initialize(back) => back == task && final(pool)@ == old(pool)@,
            Submission::WaitForSlot(back) => back == task && final(pool)@ == old(pool)@,
            Submission::Queued => old(pool)@.phase is Running,
        },
{
    match pool.phase {
        Phase::Running => {
            if pool.queues.accepts(priority) {
                pool.counters.add_enqueued();
                pool.queues.push(
                    priority,
                    QueueItem { func: Entry::Task(task), enqueue_tick: now_tick },
                );
                Submission::Queued
            } else {
                Submission::WaitForSlot(task)
            }
        },
        _ => Submission::Initialize(task),
    }
}

/// Adds a task with low priority.
pub fn submit_task<T, C, R>(pool: &mut Pool<T, C, R>, task: Task<T, C, R>, now_tick: u64) -> (next:
    Submission<Task<T, C, R>>)
    requires
        old(pool).wf(),
    ensures
        final(pool).wf(),
        next == old(pool)@.submission(task, Priority::Low),
        final(pool)@ == old(pool)@.submitted(task, Priority::Low, now_tick),
        next matches Submission::Initialize(back) ==> back == task,
        next matches Submission::WaitForSlot(back) ==> back == task,
{
    submit_task_prioritized(pool, task, Priority::Low, now_tick)
}

/// The task that calls `f`.
pub open spec fn closure_task<T, C, R>(f: C) -> Task<T, C, R> {
    Task::Closure(ClosureContext { callback: Some(f) })
}

/// The task that calls `f` and sets `event` with its result.
pub open spec fn return_task<T, C, R>(event: usize, f: R) -> Task<T, C, R> {
    Task::Return(ReturnContext { event, result: 0, callback: Some(f) })
}

/// Adds a closure to the pool, with low priority.
pub fn submit_closure<T, C, R>(pool: &mut Pool<T, C, R>, f: C, now_tick: u64) -> (next: Submission<
    Task<T, C, R>,
>)
    requires
        old(pool).wf(),
    ensures
        final(pool).wf(),
        next == old(pool)@.submission(closure_task(f), Priority::Low),
        final(pool)@ == old(pool)@.submitted(closure_task(f), Priority::Low, now_tick),
        next matches Submission::Initialize(back) ==> back == Task::<T, C, R>::Closure(
            ClosureContext { callback: Some(f) },
        ),
        next matches Submission::WaitForSlot(back) ==> back == Task::<T, C, R>::Closure(
            ClosureContext { callback: Some(f) },
        ),
{
    let task = Task::Closure(ClosureContext { callback: Some(f) });
    submit_task_prioritized(pool, task, Priority::Low, now_tick)
}

/// Handle for getting the result of a task.
pub struct TaskHandle {
    event: usize,
}

impl TaskHandle {
    /// The event that is set once the result is there.
    pub closed spec fn event_spec(&self) -> usize {
        self.event
    }

    /// The event that is set once the result is there.
    pub fn event(&self) -> (event: usize)
        ensures
            event == self.event_spec(),
    {
        self.event
    }

    /// Returns the result if the event is set, and frees the event. Where the
    /// event is not set, the handle is handed back, to wait for the event with.
    pub fn get<T, C, R>(self, pool: &mut Pool<T, C, R>) -> (outcome: Result<u64, TaskHandle>)
        requires
            old(pool).wf(),
        ensures
            final(pool).wf(),
            outcome is Ok <==> old(pool)@.is_set(self.event_spec()),
            match outcome {
                Ok(result) => old(pool)@.results[self.event_spec()] == Some(result),
                Err(handle) => handle == self,
            },
            final(pool)@ == old(pool)@.result_taken(self.event_spec()),
    {
        match pool.results.take(self.event) {
            Some(result) => Ok(result),
            None => Err(self),
        }
    }
}

/// Adds a closure that returns a result, with low priority. The handle's event
/// was free before and is not set.
pub fn submit_task_with_return<T, C, R>(pool: &mut Pool<T, C, R>, f: R, now_tick: u64) -> (res: (
    TaskHandle,
    Submission<Task<T, C, R>>,
))
    requires
        old(pool).wf(),
    ensures
        final(pool).wf(),
        !old(pool)@.results.dom().contains(res.0.event_spec()),
        res.1 == old(pool)@.submission(return_task(res.0.event_spec(), f), Priority::Low),
        final(pool)@ == old(pool)@.event_reserved(res.0.event_spec()).submitted(
            return_task(res.0.event_spec(), f),
            Priority::Low,
            now_tick,
        ),
        res.1 matches Submission::Initialize(back) ==> back == Task::<T, C, R>::Return(
            ReturnContext { event: res.0.event_spec(), result: 0, callback: Some(f) },
        ),
        res.1 matches Submission::WaitForSlot(back) ==> back == Task::<T, C, R>::Return(
            ReturnContext { event: res.0.event_spec(), result: 0, callback: Some(f) },
        ),
{
    let event: usize = pool.results.reserve();
    let task = Task::Return(ReturnContext { event, result: 0, callback: Some(f) });
    let next = submit_task_prioritized(pool, task, Priority::Low, now_tick);
    (TaskHandle { event }, next)
}

/// Sets the event of the task that a worker at this stage runs, with the result
/// that the task has returned. Where the task has no event, or has set it
/// already, nothing changes.
pub fn set_event<T, C, R>(
    pool: &mut Pool<T, C, R>,
    stage: WorkerStage<T, C, R>,
    result: u64,
) -> (next: WorkerStage<T, C, R>)
    requires
        old(pool).wf(),
    ensures
        final(pool).wf(),
        next == stage.event_done(),
        final(pool)@ == match stage {
            WorkerStage::Running { event: Some(event), .. } => old(pool)@.event_set(event, result),
            _ => old(pool)@,
        },
        match stage {
            WorkerStage::Running { exec_start, .. } => next == (WorkerStage::<T, C, R>::Running {
                exec_start,
                event: None,
            }),
            _ => next == stage,
        },
{
    match stage {
        WorkerStage::Running { exec_start, event } => {
            if let Some(event) = event {
                pool.results.set(event, result);
            }
            WorkerStage::Running { exec_start, event: None }
        },
        _ => stage,
    }
}

/// The event that a task sets when it has returned, if there is one.
fn task_event<T, C, R>(task: &Task<T, C, R>) -> (event: Option<usize>)
    ensures
        event == event_of(*task),
{
    match task {
        Task::Return(ctx) => Some(ctx.event),
        _ => None,
    }
}

/// Main worker thread, one step at a time: processes high priority first, then
/// low priority. Starts at `WorkerStage::Idle`; each call takes the stage that
/// the last one returned, and the tick count of the moment.
pub fn worker_thread<T, C, R>(
    pool: &mut Pool<T, C, R>,
    stage: WorkerStage<T, C, R>,
    tick: u64,
) -> (res: (WorkerStage<T, C, R>, WorkerAction<T, C, R>))
    requires
        old(pool).wf(),
        stage.accepts(tick),
    ensures
        final(pool).wf(),
        res.0 == old(pool)@.next_worker_stage(stage, tick),
        res.1 == old(pool)@.worker_action(stage),
        final(pool)@ == old(pool)@.worked(stage, tick),
        stage is Idle ==> res.0 is Woken && res.1 is WaitForTask,
        stage matches WorkerStage::Started { task } ==> res.1 == (WorkerAction::Run { task }),
        stage is Stopped ==> res.0 is Stopped && res.1 is Exit && final(pool)@ == old(pool)@,
{
    match stage {
        WorkerStage::Idle => (WorkerStage::Woken, WorkerAction::WaitForTask),
        WorkerStage::Woken => match pool.queues.take() {
            Wake::NoPermit => (WorkerStage::Woken, WorkerAction::WaitForTask),
            Wake::Nothing => (WorkerStage::Idle, WorkerAction::ReleaseSlot { from: None }),
            Wake::Stop { from } => (
                WorkerStage::Stopped,
                WorkerAction::ReleaseSlot { from: Some(from) },
            ),
            Wake::Run { from, task, enqueue_tick } => (
                WorkerStage::Fetched { task, enqueue_tick },
                WorkerAction::ReleaseSlot { from: Some(from) },
            ),
        },
        WorkerStage::Fetched { task, enqueue_tick } => {
            pool.counters.add_wait(enqueue_tick, tick);
            (WorkerStage::Started { task }, WorkerAction::Proceed)
        },
        WorkerStage::Started { task } => {
            let event = task_event(&task);
            (WorkerStage::Running { exec_start: tick, event }, WorkerAction::Run { task })
        },
        WorkerStage::Running { exec_start, .. } => {
            pool.counters.add_execution(exec_start, tick);
            (WorkerStage::Woken, WorkerAction::WaitForTask)
        },
        WorkerStage::Stopped => (WorkerStage::Stopped, WorkerAction::Exit),
    }
}

/// Resets the statistics and drops every queued item. The task semaphore keeps
/// the wake-ups of the dropped items, and each gives its slot back when a worker
/// takes it. The room that they took in their queues is free at once.
pub fn reset_pool_stats<T, C, R>(pool: &mut Pool<T, C, R>) -> (freed: FreedRoom)
    requires
        old(pool).wf(),
    ensures
        final(pool).wf(),
        final(pool)@ == old(pool)@.reset(),
        freed.high == old(pool)@.queues.high.len(),
        freed.low == old(pool)@.queues.low.len(),
        old(pool)@.queues.room(Priority::High) + freed.high == final(pool)@.queues.room(
            Priority::High,
        ),
        old(pool)@.queues.room(Priority::Low) + freed.low == final(pool)@.queues.room(
            Priority::Low,
        ),
{
    let high: usize = pool.queues.len(Priority::High);
    let low: usize = pool.queues.len(Priority::Low);
    pool.counters = Counters::new();
    pool.queues.clear();
    match pool.phase {
        Phase::Closed => pool.queues.forget_dropped(),
        _ => {},
    }
    FreedRoom { high, low }
}

/// Returns current stats of the pool.
pub fn get_pool_stats<T, C, R>(pool: &Pool<T, C, R>) -> (stats: PoolStats)
    requires
        pool.wf(),
    ensures
        stats == pool@.stats(),
        stats.high_queue == pool@.queues.high.len(),
        stats.low_queue == pool@.queues.low.len(),
        stats.current_queue == stats.high_queue + stats.low_queue,
{
    let high: usize = pool.queues.len(Priority::High);
    let low: usize = pool.queues.len(Priority::Low);
    PoolStats {
        total_enqueued: pool.counters.total_enqueued,
        total_executed: pool.counters.total_executed,
        avg_wait_ms: MeanMs::new(pool.counters.total_wait_ms, pool.counters.total_executed),
        avg_exec_ms: MeanMs::new(pool.counters.total_exec_ms, pool.counters.total_executed),
        current_queue: high + low,
        high_queue: high,
        low_queue: low,
    }
}

/// The handles among `handles` that can be waited for, in their order.
fn valid_handles(handles: &Vec<usize>) -> (valid: Vec<usize>)
    ensures
        valid@ == handles@.filter(|h: usize| is_valid_handle(h)),
        valid@ == handles@.filter(|h: usize| h != 0 && h != usize::MAX),
{
    let ghost keep = |h: usize| is_valid_handle(h);
    let mut valid: Vec<usize> = Vec::new();
    let mut i: usize = 0;
    assert(handles@.subrange(0, 0).filter(keep) =~= Seq::<usize>::empty()) by {
        reveal(Seq::filter);
    }
    while i < handles.len()
        invariant
            i <= handles@.len(),
            keep == (|h: usize| is_valid_handle(h)),
            valid@ == handles@.subrange(0, i as int).filter(keep),
        decreases handles@.len() - i,
    {
        proof {
            reveal(Seq::filter);
            assert(handles@.subrange(0, i + 1).drop_last() =~= handles@.subrange(0, i as int));
        }
        if handles[i] != 0 && handles[i] != usize::MAX {
            valid.push(handles[i]);
        }
        i += 1;
    }
    assert(handles@.subrange(0, i as int) =~= handles@);
    assert(keep =~= (|h: usize| h != 0 && h != usize::MAX));
    valid
}

/// Shuts down the pool, one step at a time: a sentinel for each worker, then
/// the wait for the worker threads, then the semaphores. Starts at
/// `ShutdownStage::Begin`; each call takes the stage that the last one returned.
///
/// The sentinels join the high-priority queue, so the workers serve what was in
/// it before them, and leave the low-priority queue as it is. A pool that does
/// not run has nothing to shut down.
pub fn shutdown_pool<T, C, R>(pool: &mut Pool<T, C, R>, stage: ShutdownStage) -> (res: (
    ShutdownStage,
    ShutdownAction,
))
    requires
        old(pool).wf(),
        old(pool)@.can_shut_down(stage),
    ensures
        final(pool).wf(),
        final(pool)@.can_shut_down(res.0),
        res.0 == old(pool)@.next_stage(stage),
        old(pool)@.orders(stage, res.1),
        final(pool)@ == old(pool)@.shut_down(stage),
        res.0 is Joining <==> res.1 is Join,
        res.1 matches ShutdownAction::Join(threads) ==> threads@ == old(pool)@.handles.filter(
            |h: usize| h != 0 && h != usize::MAX,
        ),
{
    match stage {
        ShutdownStage::Begin => match pool.phase {
            Phase::Running => {
                let left: u32 = pool.thread_count;
                send_sentinel(pool, left)
            },
            _ => (ShutdownStage::Finished, ShutdownAction::Done),
        },
        ShutdownStage::Sentinels { left } => send_sentinel(pool, left),
        ShutdownStage::Joining => {
            pool.phase = Phase::Closed;
            pool.handles = Vec::new();
            pool.queues.forget_dropped();
            (ShutdownStage::Finished, ShutdownAction::CloseSemaphores)
        },
        ShutdownStage::Finished => (ShutdownStage::Finished, ShutdownAction::Done),
    }
}

/// Sends a sentinel, where `left` workers still need one.
fn send_sentinel<T, C, R>(pool: &mut Pool<T, C, R>, left: u32) -> (res: (
    ShutdownStage,
    ShutdownAction,
))
    requires
        old(pool).wf(),
        old(pool)@.phase is Running,
    ensures
        final(pool).wf(),
        res.0 == old(pool)@.next_stage(ShutdownStage::Sentinels { left }),
        old(pool)@.orders(ShutdownStage::Sentinels { left }, res.1),
        final(pool)@ == old(pool)@.shut_down(ShutdownStage::Sentinels { left }),
        res.0 is Joining <==> left == 0,
        res.1 is Join <==> left == 0,
        res.1 matches ShutdownAction::Join(threads) ==> threads@ == old(pool)@.handles.filter(
            |h: usize| h != 0 && h != usize::MAX,
        ),
{
    if left == 0 {
        (ShutdownStage::Joining, ShutdownAction::Join(valid_handles(&pool.handles)))
    } else if pool.queues.accepts(Priority::High) {
        pool.queues.push(
            Priority::High,
            QueueItem { func: Entry::Sentinel, enqueue_tick: 0 },
        );
        (ShutdownStage::Sentinels { left: left - 1 }, ShutdownAction::ReleaseTask)
    } else {
        (ShutdownStage::Sentinels { left }, ShutdownAction::WaitForSlot)
    }
}

} // verus!
