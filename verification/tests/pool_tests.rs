use std::cell::{Cell, RefCell};
use std::rc::Rc;
use win_rust_pool::{
    closure_trampoline, get_pool_stats, initialize_pool, reset_pool_stats, return_trampoline,
    run_task, set_event, shutdown_pool, store_handles, submit_closure, submit_task,
    submit_task_prioritized, submit_task_with_return, worker_thread, ClosureContext, Completion,
    MeanMs, Phase, Pool, Priority, ReturnContext, ShutdownAction, ShutdownStage, Submission, Task,
    WorkerAction, WorkerStage, MAX_QUEUE,
};

type Raw = (fn(&Cell<usize>), Rc<Cell<usize>>);
type Closure = Box<dyn FnOnce()>;
type Returning = Box<dyn FnOnce() -> u64>;
type TestPool = Pool<Raw, Closure, Returning>;
type Stage = WorkerStage<Raw, Closure, Returning>;
type Action = WorkerAction<Raw, Closure, Returning>;

fn store_one(place: &Cell<usize>) {
    place.set(1);
}

fn store_two(place: &Cell<usize>) {
    place.set(2);
}

fn running_pool(threads: u32) -> TestPool {
    let mut pool: TestPool = Pool::new();
    assert!(initialize_pool(&mut pool, threads).is_some());
    let handles: Vec<usize> = (0..threads as usize).map(|i| 100 + 4 * i).collect();
    store_handles(&mut pool, handles);
    pool
}

/// What a worker does that the task semaphore has woken.
fn wake(pool: &mut TestPool) -> (Stage, Action) {
    worker_thread(pool, WorkerStage::Woken, 0)
}

/// Serves one worker wake-up at `tick`, with a task that takes 3 ticks. Returns
/// false where there was no wake-up, or where the worker was told to stop.
fn serve_one(pool: &mut TestPool, tick: u64) -> bool {
    let (stage, action) = worker_thread(pool, WorkerStage::Woken, tick);
    if !matches!(action, WorkerAction::ReleaseSlot { .. }) {
        return false;
    }
    match stage {
        WorkerStage::Idle => return true,
        WorkerStage::Stopped => return false,
        _ => {}
    }
    let (stage, action) = worker_thread(pool, stage, tick);
    assert!(matches!(action, WorkerAction::Proceed));
    let (mut stage, action) = worker_thread(pool, stage, tick);
    let task = match action {
        WorkerAction::Run { task } => task,
        _ => panic!("a started task is run"),
    };
    match run_task(task) {
        Completion::CallRaw((func, param)) => func(&param),
        Completion::Done => {}
        Completion::SetEvent { result, .. } => stage = set_event(pool, stage, result),
    }
    let (stage, action) = worker_thread(pool, stage, tick + 3);
    assert!(matches!(stage, WorkerStage::Woken));
    assert!(matches!(action, WorkerAction::WaitForTask));
    true
}

fn serve_all(pool: &mut TestPool, tick: u64) {
    while serve_one(pool, tick) {}
}

fn noop() -> Closure {
    Box::new(|| {})
}

#[test]
fn test_submit_closure_counter() {
    let mut pool = running_pool(2);
    let counter = Rc::new(Cell::new(0usize));
    for _ in 0..5 {
        let c = counter.clone();
        let next = submit_closure(&mut pool, Box::new(move || c.set(c.get() + 1)), 10);
        assert!(matches!(next, Submission::Queued));
    }
    serve_all(&mut pool, 100);
    assert_eq!(counter.get(), 5);
}

#[test]
fn test_return_value() {
    let mut pool = running_pool(2);
    let (handle, next) = submit_task_with_return(&mut pool, Box::new(|| 42u64), 10);
    assert!(matches!(next, Submission::Queued));
    serve_all(&mut pool, 11);
    let res = handle.get(&mut pool).ok().unwrap();
    assert_eq!(res, 42);
}

#[test]
fn test_multiple_returns() {
    let mut pool = running_pool(2);
    let mut handles = Vec::new();
    for i in 0..4u64 {
        let (handle, _) = submit_task_with_return(&mut pool, Box::new(move || i * 10), 10);
        handles.push(handle);
    }
    serve_all(&mut pool, 11);
    for (i, h) in handles.into_iter().enumerate() {
        assert_eq!(h.get(&mut pool).ok().unwrap(), (i as u64) * 10);
    }
}

#[test]
fn test_priority_execution() {
    let mut pool = running_pool(1);
    let order = Rc::new(Cell::new(0usize));
    submit_task_prioritized(
        &mut pool,
        Task::Raw((store_one as fn(&Cell<usize>), order.clone())),
        Priority::High,
        10,
    );
    submit_task_prioritized(
        &mut pool,
        Task::Raw((store_two as fn(&Cell<usize>), order.clone())),
        Priority::Low,
        10,
    );
    serve_all(&mut pool, 100);
    assert_eq!(order.get(), 2);
}

#[test]
fn test_pool_stats() {
    let mut pool: TestPool = Pool::new();
    reset_pool_stats(&mut pool);
    let counter = Rc::new(Cell::new(0usize));
    let initial = get_pool_stats(&pool);
    initialize_pool(&mut pool, 4);
    for _ in 0..10 {
        let c = counter.clone();
        submit_closure(&mut pool, Box::new(move || c.set(c.get() + 1)), 10);
    }
    serve_all(&mut pool, 200);
    let stats = get_pool_stats(&pool);
    assert!(stats.total_enqueued - initial.total_enqueued >= 10);
    assert!(stats.total_executed - initial.total_executed >= 10);
    assert_eq!(counter.get(), 10);
}

/// Runs a whole shutdown, with a worker served whenever one has to be waited
/// for. Returns the threads joined and the number of sentinels sent.
fn run_shutdown(pool: &mut TestPool) -> (Vec<usize>, u32) {
    let mut stage = ShutdownStage::Begin;
    let mut joined = Vec::new();
    let mut sent: u32 = 0;
    while stage != ShutdownStage::Finished {
        let (next, action) = shutdown_pool(pool, stage);
        stage = next;
        match action {
            ShutdownAction::WaitForSlot => {
                serve_one(pool, 50);
            }
            ShutdownAction::ReleaseTask => sent += 1,
            ShutdownAction::Join(threads) => {
                joined = threads;
                for _ in 0..pool.thread_count() {
                    while serve_one(pool, 50) {}
                }
            }
            ShutdownAction::CloseSemaphores => {}
            ShutdownAction::Done => {}
        }
    }
    (joined, sent)
}

#[test]
fn test_shutdown() {
    let mut pool = running_pool(3);
    for _ in 0..5 {
        submit_closure(&mut pool, noop(), 10);
    }
    let (joined, sent) = run_shutdown(&mut pool);
    assert_eq!(joined, vec![100, 104, 108]);
    assert_eq!(sent, 3);
    assert_eq!(pool.phase(), Phase::Closed);
}

#[test]
fn high_priority_overtakes_and_each_queue_keeps_its_order() {
    let mut pool = running_pool(1);
    let log: Rc<RefCell<Vec<&'static str>>> = Rc::new(RefCell::new(Vec::new()));
    let note = |name: &'static str| -> Closure {
        let l = log.clone();
        Box::new(move || l.borrow_mut().push(name))
    };
    submit_closure(&mut pool, note("low 1"), 10);
    submit_closure(&mut pool, note("low 2"), 10);
    let high = |f: Closure| Task::Closure(ClosureContext { callback: Some(f) });
    submit_task_prioritized(&mut pool, high(note("high 1")), Priority::High, 10);
    submit_task_prioritized(&mut pool, high(note("high 2")), Priority::High, 10);
    assert!(serve_one(&mut pool, 11));
    submit_task_prioritized(&mut pool, high(note("high 3")), Priority::High, 10);
    serve_all(&mut pool, 11);
    assert_eq!(*log.borrow(), vec!["high 1", "high 2", "high 3", "low 1", "low 2"]);
}

#[test]
fn tasks_wait_for_the_pool_to_be_initialized() {
    let mut pool: TestPool = Pool::new();
    let next = submit_closure(&mut pool, noop(), 10);
    let task = match next {
        Submission::Initialize(task) => task,
        _ => panic!("not initialized"),
    };
    assert_eq!(get_pool_stats(&pool).total_enqueued, 0);
    let layout = initialize_pool(&mut pool, 8).unwrap();
    assert_eq!(layout.threads, 8);
    assert_eq!((layout.task_semaphore.initial, layout.task_semaphore.maximum), (0, 2048));
    assert_eq!((layout.slot_semaphore.initial, layout.slot_semaphore.maximum), (2048, 2048));
    assert_eq!((layout.high_room.initial, layout.high_room.maximum), (1024, 1024));
    assert_eq!((layout.low_room.initial, layout.low_room.maximum), (1024, 1024));
    assert!(initialize_pool(&mut pool, 2).is_none());
    assert_eq!(pool.thread_count(), 8);
    assert!(matches!(submit_task(&mut pool, task, 10), Submission::Queued));
    assert_eq!(get_pool_stats(&pool).total_enqueued, 1);
}

#[test]
fn full_queue_makes_its_submitters_wait() {
    let mut pool = running_pool(1);
    for _ in 0..MAX_QUEUE {
        assert!(matches!(submit_closure(&mut pool, noop(), 10), Submission::Queued));
    }
    let task = match submit_closure(&mut pool, noop(), 10) {
        Submission::WaitForSlot(task) => task,
        _ => panic!("the queue is full"),
    };
    let stats = get_pool_stats(&pool);
    assert_eq!((stats.total_enqueued, stats.low_queue, stats.high_queue), (1024, 1024, 0));
    let counter = Rc::new(Cell::new(0usize));
    let raw = Task::Raw((store_one as fn(&Cell<usize>), counter.clone()));
    let next = submit_task_prioritized(&mut pool, raw, Priority::High, 10);
    assert!(matches!(next, Submission::Queued));
    assert_eq!(get_pool_stats(&pool).current_queue, 1025);
    assert!(serve_one(&mut pool, 11));
    assert_eq!(counter.get(), 1);
    assert!(serve_one(&mut pool, 11));
    assert!(matches!(submit_task(&mut pool, task, 10), Submission::Queued));
    assert_eq!(get_pool_stats(&pool).low_queue, 1024);
}

#[test]
fn statistics_have_exact_means() {
    let mut pool = running_pool(1);
    let stats = get_pool_stats(&pool);
    assert_eq!(stats.avg_wait_ms, MeanMs { total_ms: 0, tasks: 1 });
    submit_closure(&mut pool, noop(), 10);
    submit_closure(&mut pool, noop(), 25);
    submit_closure(&mut pool, noop(), 0);
    submit_closure(&mut pool, noop(), 90);
    assert!(serve_one(&mut pool, 30));
    assert!(serve_one(&mut pool, 31));
    assert!(serve_one(&mut pool, 32));
    assert!(serve_one(&mut pool, 33));
    let stats = get_pool_stats(&pool);
    assert_eq!((stats.total_enqueued, stats.total_executed), (4, 4));
    assert_eq!(stats.avg_wait_ms, MeanMs { total_ms: 26, tasks: 4 });
    assert_eq!(stats.avg_exec_ms, MeanMs { total_ms: 12, tasks: 4 });
    assert_eq!(stats.avg_wait_ms.total_ms as f64 / stats.avg_wait_ms.tasks as f64, 6.5);
}

#[test]
fn reset_drops_the_tasks_and_keeps_the_wake_ups() {
    let mut pool = running_pool(1);
    let ran = Rc::new(Cell::new(0usize));
    for _ in 0..3 {
        let r = ran.clone();
        submit_closure(&mut pool, Box::new(move || r.set(r.get() + 1)), 10);
    }
    submit_task_prioritized(
        &mut pool,
        Task::Raw((store_two as fn(&Cell<usize>), ran.clone())),
        Priority::High,
        10,
    );
    let freed = reset_pool_stats(&mut pool);
    assert_eq!((freed.high, freed.low), (1, 3));
    let stats = get_pool_stats(&pool);
    assert_eq!((stats.total_enqueued, stats.total_executed, stats.current_queue), (0, 0, 0));
    let r = ran.clone();
    submit_closure(&mut pool, Box::new(move || r.set(r.get() + 10)), 10);
    let (stage, action) = wake(&mut pool);
    assert!(matches!(stage, WorkerStage::Fetched { enqueue_tick: 10, .. }));
    assert!(matches!(action, WorkerAction::ReleaseSlot { from: Some(Priority::Low) }));
    for _ in 0..4 {
        let (stage, action) = wake(&mut pool);
        assert!(matches!(stage, WorkerStage::Idle));
        assert!(matches!(action, WorkerAction::ReleaseSlot { from: None }));
    }
    let (stage, action) = wake(&mut pool);
    assert!(matches!(stage, WorkerStage::Woken));
    assert!(matches!(action, WorkerAction::WaitForTask));
    assert_eq!(ran.get(), 0);
}

#[test]
fn reset_makes_room_at_once() {
    let mut pool = running_pool(1);
    for _ in 0..MAX_QUEUE {
        submit_closure(&mut pool, noop(), 10);
    }
    assert!(matches!(submit_closure(&mut pool, noop(), 10), Submission::WaitForSlot(_)));
    reset_pool_stats(&mut pool);
    assert!(matches!(submit_closure(&mut pool, noop(), 10), Submission::Queued));
    assert_eq!(get_pool_stats(&pool).total_enqueued, 1);
}

#[test]
fn dropped_tasks_hold_their_slots_until_a_worker_wakes() {
    let mut pool = running_pool(1);
    for _ in 0..2 {
        for _ in 0..MAX_QUEUE {
            assert!(matches!(submit_closure(&mut pool, noop(), 10), Submission::Queued));
        }
        reset_pool_stats(&mut pool);
    }
    assert!(matches!(submit_closure(&mut pool, noop(), 10), Submission::WaitForSlot(_)));
    assert!(serve_one(&mut pool, 11));
    assert!(matches!(submit_closure(&mut pool, noop(), 10), Submission::Queued));
}

#[test]
fn handle_waits_until_the_task_has_returned() {
    let mut pool = running_pool(1);
    let (first, _) = submit_task_with_return(&mut pool, Box::new(|| 7u64), 10);
    let (second, _) = submit_task_with_return(&mut pool, Box::new(|| 8u64), 10);
    assert_ne!(first.event(), second.event());
    let first = first.get(&mut pool).err().unwrap();
    assert!(serve_one(&mut pool, 11));
    let second = second.get(&mut pool).err().unwrap();
    let freed = first.event();
    assert_eq!(first.get(&mut pool).ok(), Some(7));
    let (third, _) = submit_task_with_return(&mut pool, Box::new(|| 9u64), 10);
    assert_eq!(third.event(), freed);
    serve_all(&mut pool, 11);
    assert_eq!(third.get(&mut pool).ok(), Some(9));
    assert_eq!(second.get(&mut pool).ok(), Some(8));
}

#[test]
fn only_a_running_task_sets_its_event_and_only_once() {
    let mut pool = running_pool(1);
    let (handle, _) = submit_task_with_return(&mut pool, Box::new(|| 6u64), 10);
    let stage = set_event(&mut pool, WorkerStage::Woken, 5);
    assert!(matches!(stage, WorkerStage::Woken));
    let handle = handle.get(&mut pool).err().unwrap();
    let (stage, _) = wake(&mut pool);
    let (stage, _) = worker_thread(&mut pool, stage, 11);
    let (stage, _) = worker_thread(&mut pool, stage, 11);
    assert!(matches!(stage, WorkerStage::Running { exec_start: 11, event: Some(_) }));
    let stage = set_event(&mut pool, stage, 6);
    assert!(matches!(stage, WorkerStage::Running { exec_start: 11, event: None }));
    set_event(&mut pool, stage, 7);
    assert_eq!(handle.get(&mut pool).ok(), Some(6));
}

#[test]
fn task_that_panics_never_sets_its_event() {
    let mut pool = running_pool(1);
    let (handle, _) = submit_task_with_return(&mut pool, Box::new(|| 6u64), 10);
    let (stage, _) = wake(&mut pool);
    let (stage, _) = worker_thread(&mut pool, stage, 11);
    let (stage, _) = worker_thread(&mut pool, stage, 11);
    let (_, action) = worker_thread(&mut pool, stage, 12);
    assert!(matches!(action, WorkerAction::WaitForTask));
    assert_eq!(get_pool_stats(&pool).total_executed, 1);
    assert!(handle.get(&mut pool).is_err());
}

#[test]
fn worker_waits_first_and_ends_after_a_sentinel() {
    let mut pool = running_pool(1);
    let idle: Stage = WorkerStage::Idle;
    let (stage, action) = worker_thread(&mut pool, idle, 0);
    assert!(matches!(stage, WorkerStage::Woken));
    assert!(matches!(action, WorkerAction::WaitForTask));
    let (_, order) = shutdown_pool(&mut pool, ShutdownStage::Begin);
    assert!(matches!(order, ShutdownAction::ReleaseTask));
    let (stage, action) = worker_thread(&mut pool, stage, 0);
    assert!(matches!(stage, WorkerStage::Stopped));
    assert!(matches!(action, WorkerAction::ReleaseSlot { from: Some(Priority::High) }));
    let (_, action) = worker_thread(&mut pool, stage, 0);
    assert!(matches!(action, WorkerAction::Exit));
}

#[test]
fn counts_balance_while_a_task_runs() {
    let mut pool = running_pool(2);
    for _ in 0..3 {
        submit_closure(&mut pool, noop(), 10);
    }
    assert!(serve_one(&mut pool, 11));
    let (stage, _) = wake(&mut pool);
    let stats = get_pool_stats(&pool);
    assert_eq!(stats.total_enqueued, stats.total_executed + stats.current_queue + 1);
    let (stage, _) = worker_thread(&mut pool, stage, 12);
    let (stage, _) = worker_thread(&mut pool, stage, 12);
    worker_thread(&mut pool, stage, 13);
    let stats = get_pool_stats(&pool);
    assert_eq!((stats.total_enqueued, stats.total_executed, stats.current_queue), (3, 2, 1));
}

#[test]
fn trampolines_call_the_closure_once() {
    let calls = Rc::new(Cell::new(0usize));
    let c = calls.clone();
    closure_trampoline(ClosureContext { callback: Some(move || c.set(c.get() + 1)) });
    closure_trampoline(ClosureContext::<fn()> { callback: None });
    assert_eq!(calls.get(), 1);
    let c = calls.clone();
    let callback = move || {
        c.set(c.get() + 1);
        77u64
    };
    let mut ctx = ReturnContext { event: 3, result: 0, callback: Some(callback) };
    assert_eq!(return_trampoline(&mut ctx), 3);
    assert_eq!(ctx.result, 77);
    assert_eq!(return_trampoline(&mut ctx), 3);
    assert_eq!(ctx.result, 77);
    assert_eq!(calls.get(), 2);
}

#[test]
fn shutdown_serves_high_priority_and_leaves_low_priority() {
    let mut pool = running_pool(2);
    let order = Rc::new(Cell::new(0usize));
    submit_task(&mut pool, Task::Raw((store_two as fn(&Cell<usize>), order.clone())), 10);
    submit_task_prioritized(
        &mut pool,
        Task::Raw((store_one as fn(&Cell<usize>), order.clone())),
        Priority::High,
        10,
    );
    let (joined, sent) = run_shutdown(&mut pool);
    assert_eq!((joined.len(), sent), (2, 2));
    assert_eq!(order.get(), 1);
    let stats = get_pool_stats(&pool);
    assert_eq!((stats.high_queue, stats.low_queue), (0, 1));
    assert_eq!((stats.total_enqueued, stats.total_executed), (2, 1));
}

#[test]
fn shutdown_waits_for_room_in_a_full_queue() {
    let mut pool = running_pool(2);
    for _ in 0..MAX_QUEUE {
        let task = Task::Closure(ClosureContext { callback: Some(noop()) });
        submit_task_prioritized(&mut pool, task, Priority::High, 10);
    }
    let (stage, action) = shutdown_pool(&mut pool, ShutdownStage::Begin);
    assert_eq!(stage, ShutdownStage::Sentinels { left: 2 });
    assert!(pool.needs_slot(stage));
    assert!(!pool.needs_slot(ShutdownStage::Joining));
    assert!(matches!(action, ShutdownAction::WaitForSlot));
    let (_, sent) = run_shutdown(&mut pool);
    assert_eq!(sent, 2);
    assert_eq!(get_pool_stats(&pool).total_executed, 1024);
}

#[test]
fn shutdown_joins_only_valid_threads() {
    let mut pool: TestPool = Pool::new();
    initialize_pool(&mut pool, 4);
    store_handles(&mut pool, vec![8, 0, usize::MAX, 16]);
    let (joined, sent) = run_shutdown(&mut pool);
    assert_eq!(joined, vec![8, 16]);
    assert_eq!(sent, 4);
}

#[test]
fn shutdown_of_an_unused_pool_does_nothing() {
    let mut pool: TestPool = Pool::new();
    let (joined, sent) = run_shutdown(&mut pool);
    assert_eq!((joined.len(), sent), (0, 0));
    assert_eq!(pool.phase(), Phase::Uninitialized);
    assert!(initialize_pool(&mut pool, 1).is_some());
}

/// Submits a closure, and initializes the pool with `threads` threads if it asks
/// for that. Returns whether it did.
fn submit_and_start(pool: &mut TestPool, f: Closure, threads: u32) -> bool {
    match submit_closure(pool, f, 10) {
        Submission::Initialize(task) => {
            assert!(initialize_pool(pool, threads).is_some());
            let handles: Vec<usize> = (0..threads as usize).map(|i| 500 + 4 * i).collect();
            store_handles(pool, handles);
            assert!(matches!(submit_task(pool, task, 10), Submission::Queued));
            true
        }
        Submission::Queued => false,
        Submission::WaitForSlot(_) => panic!("there is room"),
    }
}

#[test]
fn pool_is_usable_again_after_a_shutdown() {
    let mut pool: TestPool = Pool::new();
    assert!(submit_and_start(&mut pool, noop(), 2));
    run_shutdown(&mut pool);
    let counter = Rc::new(Cell::new(0usize));
    let c = counter.clone();
    assert!(submit_and_start(&mut pool, Box::new(move || c.set(c.get() + 1)), 3));
    assert_eq!((pool.phase(), pool.thread_count()), (Phase::Running, 3));
    serve_all(&mut pool, 20);
    assert_eq!(counter.get(), 1);
    assert!(!submit_and_start(&mut pool, noop(), 3));
    let (joined, sent) = run_shutdown(&mut pool);
    assert_eq!((joined, sent), (vec![500, 504, 508], 3));
}

#[test]
fn tasks_left_by_a_shutdown_run_when_the_pool_starts_again() {
    let mut pool = running_pool(1);
    let order = Rc::new(Cell::new(0usize));
    submit_task(&mut pool, Task::Raw((store_two as fn(&Cell<usize>), order.clone())), 10);
    run_shutdown(&mut pool);
    let stats = get_pool_stats(&pool);
    assert_eq!((stats.high_queue, stats.low_queue), (0, 1));
    assert_eq!(stats.total_enqueued, stats.total_executed + stats.low_queue);
    let layout = initialize_pool(&mut pool, 1).unwrap();
    assert_eq!(layout.task_semaphore.initial, 1);
    assert_eq!(layout.slot_semaphore.initial, 2047);
    assert_eq!((layout.high_room.initial, layout.low_room.initial), (1024, 1023));
    serve_all(&mut pool, 20);
    assert_eq!(order.get(), 2);
}

#[test]
fn sentinel_of_a_missing_worker_does_not_outlive_the_shutdown() {
    let mut pool: TestPool = Pool::new();
    initialize_pool(&mut pool, 1);
    store_handles(&mut pool, vec![0]);
    let mut stage = ShutdownStage::Begin;
    while stage != ShutdownStage::Finished {
        stage = shutdown_pool(&mut pool, stage).0;
    }
    assert_eq!(get_pool_stats(&pool).high_queue, 1);
    let counter = Rc::new(Cell::new(0usize));
    let c = counter.clone();
    assert!(submit_and_start(&mut pool, Box::new(move || c.set(c.get() + 1)), 1));
    let stats = get_pool_stats(&pool);
    assert_eq!((stats.high_queue, stats.low_queue), (0, 1));
    serve_all(&mut pool, 20);
    assert_eq!(counter.get(), 1);
}

#[test]
fn reset_of_a_closed_pool_leaves_nothing() {
    let mut pool = running_pool(1);
    submit_closure(&mut pool, noop(), 10);
    run_shutdown(&mut pool);
    reset_pool_stats(&mut pool);
    assert_eq!(get_pool_stats(&pool).current_queue, 0);
    let layout = initialize_pool(&mut pool, 1).unwrap();
    assert_eq!((layout.task_semaphore.initial, layout.low_room.initial), (0, 1024));
}
