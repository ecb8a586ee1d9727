use win_rust_pool::{
    Counters, Entry, MeanMs, Priority, QueueItem, ResultTable, Ring, TaskQueues, Wake, MAX_QUEUE,
};

#[test]
fn ring_wraps_around() {
    let mut ring: Ring<u32> = Ring::new();
    let mut next_in: u32 = 0;
    let mut next_out: u32 = 0;
    for _ in 0..700 {
        ring.push(next_in);
        next_in += 1;
    }
    for _ in 0..5 {
        for _ in 0..600 {
            assert_eq!(ring.pop(), next_out);
            next_out += 1;
        }
        for _ in 0..600 {
            ring.push(next_in);
            next_in += 1;
        }
        assert_eq!(ring.len(), 700);
    }
    ring.clear();
    assert_eq!(ring.len(), 0);
    ring.push(5);
    assert_eq!(ring.pop(), 5);
}

#[test]
fn slots_and_items_add_up_to_the_capacity() {
    let mut queues: TaskQueues<u8> = TaskQueues::new();
    assert_eq!((queues.room(Priority::High), queues.slots()), (1024, 2048));
    queues.push(Priority::High, QueueItem { func: Entry::Task(1), enqueue_tick: 4 });
    queues.push(Priority::Low, QueueItem { func: Entry::Sentinel, enqueue_tick: 0 });
    assert_eq!((queues.len(Priority::High), queues.room(Priority::High)), (1, MAX_QUEUE - 1));
    assert_eq!((queues.permits(), queues.slots()), (2, 2046));
    queues.clear();
    assert_eq!((queues.len(Priority::High), queues.room(Priority::High)), (0, MAX_QUEUE));
    assert_eq!((queues.permits(), queues.slots()), (2, 2046));
    assert!(queues.accepts(Priority::Low));
    queues.forget_dropped();
    assert_eq!(queues.slots(), 2048);
    assert!(matches!(queues.take(), Wake::NoPermit));
}

#[test]
fn sentinel_stops_the_worker_that_takes_it() {
    let mut queues: TaskQueues<u8> = TaskQueues::new();
    queues.push(Priority::Low, QueueItem { func: Entry::Task(9), enqueue_tick: 4 });
    queues.push(Priority::High, QueueItem { func: Entry::Sentinel, enqueue_tick: 0 });
    assert!(matches!(queues.take(), Wake::Stop { from: Priority::High }));
    assert!(matches!(
        queues.take(),
        Wake::Run { from: Priority::Low, task: 9, enqueue_tick: 4 }
    ));
}

#[test]
fn dropping_sentinels_keeps_the_tasks_in_order() {
    let mut queues: TaskQueues<u8> = TaskQueues::new();
    for i in 0..4u8 {
        queues.push(Priority::High, QueueItem { func: Entry::Sentinel, enqueue_tick: 0 });
        queues.push(Priority::High, QueueItem { func: Entry::Task(i), enqueue_tick: 4 });
    }
    queues.drop_sentinels();
    assert_eq!(queues.len(Priority::High), 4);
    for i in 0..4u8 {
        match queues.take() {
            Wake::Run { task, .. } => assert_eq!(task, i),
            _ => panic!("a task is queued"),
        }
    }
}

#[test]
fn counters_wrap_around() {
    let mut counters = Counters {
        total_enqueued: usize::MAX,
        total_executed: usize::MAX,
        total_wait_ms: u64::MAX,
        total_exec_ms: u64::MAX - 1,
    };
    counters.add_enqueued();
    counters.add_wait(5, 8);
    counters.add_execution(10, 13);
    assert_eq!(
        counters,
        Counters { total_enqueued: 0, total_executed: 0, total_wait_ms: 2, total_exec_ms: 1 }
    );
    counters.add_wait(0, 8);
    counters.add_wait(9, 8);
    assert_eq!(counters.total_wait_ms, 2);
}

#[test]
fn mean_of_no_tasks_is_zero() {
    assert_eq!(MeanMs::new(5, 0), MeanMs { total_ms: 0, tasks: 1 });
    assert_eq!(MeanMs::new(5, 2), MeanMs { total_ms: 5, tasks: 2 });
}

#[test]
fn result_is_taken_once() {
    let mut table = ResultTable::new();
    let event = table.reserve();
    assert_eq!(table.take(event), None);
    table.set(event, 3);
    assert_eq!(table.take(event), Some(3));
    assert_eq!(table.take(event), None);
    table.set(event, 4);
    assert_eq!(table.take(event), None);
}
