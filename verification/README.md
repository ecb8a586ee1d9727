# win_rust_pool

A fixed-size thread pool for Windows with prioritized queues, closure support,
tasks that return a value, and monitoring statistics.

* `src/` is the core of the pool, verified with Verus: the two bounded queues,
  what submitters, workers and a shutdown do next, task results, and the
  statistics. Nothing in it blocks. Each function says in its result what the
  calling thread has to do: wait for a semaphore, release one, create or join
  threads, set an event.
* `src/course.rs` models the pool together with its threads, and `src/laws.rs`
  states what holds over any course of their calls.
* `app/` runs the threads on WinAPI semaphores, events and a critical section,
  and holds a demo.

A queue holds up to 1024 tasks, and a submitter waits while the queue of its
priority is full. A reset empties both queues; the tasks that it drops count
towards the 2048 slots of the pool until a worker wakes for them. High-priority tasks are served first. A shutdown serves the
high-priority tasks that are queued and leaves the low-priority ones. The next
submission starts the pool again.
