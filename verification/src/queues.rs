//! The two task queues, and which task a woken worker takes.
//!
//! Four counting semaphores guard the queues from outside: one that counts
//! wake-ups for workers, one that counts the slots left for items of either
//! queue, and one for each queue that counts the room left in it. Their counts
//! are functions of the queues' state (`QueuesView::permits`, `slots` and
//! `room`), so each operation here says when a semaphore is exhausted and which
//! ones to release.
//!
//! A wake-up holds its slot until a worker takes it, also where a reset has
//! dropped its item in the meantime. The room of a dropped item is free at once.

use crate::ring::{Ring, MAX_QUEUE};
use vstd::prelude::*;

verus! {

/// Task priority level.
#[derive(Debug, Clone, Copy, PartialEq, Eq, Structural)]
pub enum Priority {
    High,
    Low,
}

/// What a queue slot holds for the worker that takes it.
#[derive(Debug)]
pub enum Entry<J> {
    /// A task to run.
    Task(J),
    /// An order to terminate.
    Sentinel,
}

/// A queue slot: an entry, and the tick count at which it was submitted.
/// A tick of 0 means that the waiting time is not measured.
#[derive(Debug)]
pub struct QueueItem<J> {
    pub func: Entry<J>,
    pub enqueue_tick: u64,
}

/// What a woken worker does. Unless there was no wake-up, the worker releases one
/// slot first, and the room of the queue that it was served `from`.
#[derive(Debug)]
pub enum Wake<J> {
    /// There was no wake-up to take: wait for the next one.
    NoPermit,
    /// The wake-up belonged to an item that a reset has dropped: wait again.
    Nothing,
    /// Terminate the worker thread.
    Stop { from: Priority },
    /// Run `task`.
    Run { from: Priority, task: J, enqueue_tick: u64 },
}

/// What the two queues hold.
#[verifier::ext_equal]
pub struct QueuesView<J> {
    /// The high-priority queue, oldest item first.
    pub high: Seq<QueueItem<J>>,
    /// The low-priority queue, oldest item first.
    pub low: Seq<QueueItem<J>>,
    /// Items that a reset dropped and whose wake-up no worker has taken yet.
    pub dropped: nat,
}

/// How a worker acts on an item that it was served `from` a queue.
pub open spec fn dispatched<J>(from: Priority, item: QueueItem<J>) -> Wake<J> {
    match item.func {
        Entry::Task(task) => Wake::Run { from, task, enqueue_tick: item.enqueue_tick },
        Entry::Sentinel => Wake::Stop { from },
    }
}

/// Whether a queue item is a task, not a sentinel.
pub open spec fn is_task<J>() -> spec_fn(QueueItem<J>) -> bool {
    |item: QueueItem<J>| item.func is Task
}

impl<J> QueuesView<J> {
    /// Empty queues.
    pub open spec fn empty() -> Self {
        QueuesView { high: Seq::empty(), low: Seq::empty(), dropped: 0 }
    }

    /// Each queue stays within `MAX_QUEUE`, and the wake-ups within twice that.
    pub open spec fn bounded(self) -> bool {
        &&& self.high.len() <= MAX_QUEUE
        &&& self.low.len() <= MAX_QUEUE
        &&& self.permits() <= 2 * MAX_QUEUE
    }

    /// The queue of one priority.
    pub open spec fn queue(self, priority: Priority) -> Seq<QueueItem<J>> {
        match priority {
            Priority::High => self.high,
            Priority::Low => self.low,
        }
    }

    /// The count of the room semaphore of one priority, while there is one.
    pub open spec fn room(self, priority: Priority) -> int {
        MAX_QUEUE - self.queue(priority).len()
    }

    /// The count of the slot semaphore, while there is one.
    pub open spec fn slots(self) -> int {
        2 * MAX_QUEUE - self.permits()
    }

    /// Whether the queue of one priority can take one more item.
    pub open spec fn accepts(self, priority: Priority) -> bool {
        self.room(priority) > 0 && self.slots() > 0
    }

    /// The count of the task semaphore, while there is one.
    pub open spec fn permits(self) -> nat {
        self.high.len() + self.low.len() + self.dropped
    }

    /// The queues after an item joined one of them.
    pub open spec fn pushed(self, priority: Priority, item: QueueItem<J>) -> Self {
        match priority {
            Priority::High => QueuesView { high: self.high.push(item), ..self },
            Priority::Low => QueuesView { low: self.low.push(item), ..self },
        }
    }

    /// What a worker does that tries to take a wake-up: it serves the oldest
    /// high-priority item, else the oldest low-priority item, else the wake-up
    /// of a dropped item.
    pub open spec fn wake(self) -> Wake<J> {
        if self.high.len() > 0 {
            dispatched(Priority::High, self.high[0])
        } else if self.low.len() > 0 {
            dispatched(Priority::Low, self.low[0])
        } else if self.dropped > 0 {
            Wake::Nothing
        } else {
            Wake::NoPermit
        }
    }

    /// The queues after that.
    pub open spec fn woken(self) -> Self {
        if self.high.len() > 0 {
            QueuesView { high: self.high.subrange(1, self.high.len() as int), ..self }
        } else if self.low.len() > 0 {
            QueuesView { low: self.low.subrange(1, self.low.len() as int), ..self }
        } else if self.dropped > 0 {
            QueuesView { dropped: (self.dropped - 1) as nat, ..self }
        } else {
            self
        }
    }

    /// The queues after every item was dropped. The wake-ups stay.
    pub open spec fn cleared(self) -> Self {
        QueuesView {
            high: Seq::empty(),
            low: Seq::empty(),
            dropped: self.permits(),
        }
    }

    /// The queues after the wake-ups of dropped items were given up.
    pub open spec fn without_dropped(self) -> Self {
        QueuesView { dropped: 0, ..self }
    }

    /// The queues after the sentinels were taken out of the high-priority queue.
    pub open spec fn without_sentinels(self) -> Self {
        QueuesView { high: self.high.filter(is_task()), ..self }
    }
}

/// A high-priority and a low-priority queue.
pub struct TaskQueues<J> {
    high: Ring<QueueItem<J>>,
    low: Ring<QueueItem<J>>,
    dropped: usize,
}

impl<J> View for TaskQueues<J> {
    type V = QueuesView<J>;

    closed spec fn view(&self) -> QueuesView<J> {
        QueuesView {
            high: self.high@,
            low: self.low@,
            dropped: self.dropped as nat,
        }
    }
}

impl<J> TaskQueues<J> {
    /// Both rings are well-formed, and the bounds of the queues are kept.
    pub closed spec fn wf(&self) -> bool {
        &&& self.high.wf()
        &&& self.low.wf()
        &&& self@.bounded()
    }

    /// Empty queues.
    pub fn new() -> (queues: Self)
        ensures
            queues.wf(),
            queues@ == QueuesView::<J>::empty(),
    {
        TaskQueues { high: Ring::new(), low: Ring::new(), dropped: 0 }
    }

    /// The number of items in the queue of one priority.
    pub fn len(&self, priority: Priority) -> (count: usize)
        requires
            self.wf(),
        ensures
            count == self@.queue(priority).len(),
            count <= MAX_QUEUE,
    {
        match priority {
            Priority::High => self.high.len(),
            Priority::Low => self.low.len(),
        }
    }

    /// The room left in the queue of one priority.
    pub fn room(&self, priority: Priority) -> (room: usize)
        requires
            self.wf(),
        ensures
            room == self@.room(priority),
    {
        MAX_QUEUE - self.len(priority)
    }

    /// The slots left for items of either queue.
    pub fn slots(&self) -> (slots: usize)
        requires
            self.wf(),
        ensures
            slots == self@.slots(),
    {
        2 * MAX_QUEUE - self.permits()
    }

    /// Whether the queue of one priority can take one more item.
    pub fn accepts(&self, priority: Priority) -> (accepted: bool)
        requires
            self.wf(),
        ensures
            accepted == self@.accepts(priority),
    {
        self.room(priority) > 0 && self.slots() > 0
    }

    /// The number of wake-ups for workers.
    pub fn permits(&self) -> (count: usize)
        requires
            self.wf(),
        ensures
            count == self@.permits(),
            count <= 2 * MAX_QUEUE,
    {
        self.high.len() + self.low.len() + self.dropped
    }

    /// Appends an item to the queue of one priority.
    pub fn push(&mut self, priority: Priority, item: QueueItem<J>)
        requires
            old(self).wf(),
            old(self)@.accepts(priority),
        ensures
            final(self).wf(),
            final(self)@ == old(self)@.pushed(priority, item),
    {
        match priority {
            Priority::High => self.high.push(item),
            Priority::Low => self.low.push(item),
        }
    }

    /// Takes a wake-up, and the item that it belongs to.
    pub fn take(&mut self) -> (wake: Wake<J>)
        requires
            old(self).wf(),
        ensures
            final(self).wf(),
            wake == old(self)@.wake(),
            final(self)@ == old(self)@.woken(),
    {
        if self.high.len() > 0 {
            let item = self.high.pop();
            dispatch(Priority::High, item)
        } else if self.low.len() > 0 {
            let item = self.low.pop();
            dispatch(Priority::Low, item)
        } else if self.dropped > 0 {
            self.dropped -= 1;
            Wake::Nothing
        } else {
            Wake::NoPermit
        }
    }

    /// Drops every item. Their wake-ups stay.
    pub fn clear(&mut self)
        requires
            old(self).wf(),
        ensures
            final(self).wf(),
            final(self)@ == old(self)@.cleared(),
    {
        self.dropped = self.permits();
        self.high.clear();
        self.low.clear();
    }

    /// Gives up the wake-ups of dropped tasks, once there is no task semaphore
    /// any more that could count them.
    pub fn forget_dropped(&mut self)
        requires
            old(self).wf(),
        ensures
            final(self).wf(),
            final(self)@ == old(self)@.without_dropped(),
    {
        self.dropped = 0;
    }

    /// Takes the sentinels out of the high-priority queue. The tasks keep their
    /// order.
    pub fn drop_sentinels(&mut self)
        requires
            old(self).wf(),
        ensures
            final(self).wf(),
            final(self)@ == old(self)@.without_sentinels(),
    {
        let ghost all = self.high@;
        let n: usize = self.high.len();
        let mut i: usize = 0;
        proof {
            lemma_tasks_of_prefix(all, 0);
            assert(self.high@ =~= all.subrange(0, n as int) + all.subrange(0, 0).filter(is_task()));
        }
        while i < n
            invariant
                i <= n,
                n == all.len(),
                self.high.wf(),
                self.high@ == all.subrange(i as int, n as int) + all.subrange(0, i as int).filter(
                    is_task(),
                ),
                self.low == old(self).low,
                self.dropped == old(self).dropped,
            decreases n - i,
        {
            let ghost kept = all.subrange(0, i as int).filter(is_task());
            proof {
                self.high.lemma_len_bounded();
            }
            let item = self.high.pop();
            proof {
                lemma_tasks_of_prefix(all, i as int);
                assert(item == all[i as int]);
                assert(self.high@ =~= all.subrange(i + 1, n as int) + kept);
            }
            if let Entry::Task(_) = item.func {
                self.high.push(item);
                assert(self.high@ =~= all.subrange(i + 1, n as int) + kept.push(item));
            }
            i += 1;
        }
        proof {
            assert(all.subrange(0, n as int) =~= all);
            assert(self.high@ =~= all.filter(is_task()));
            lemma_tasks_fit(all);
        }
    }
}

/// How a worker acts on an item that it was served `from` a queue.
fn dispatch<J>(from: Priority, item: QueueItem<J>) -> (wake: Wake<J>)
    ensures
        wake == dispatched(from, item),
{
    match item.func {
        Entry::Task(task) => Wake::Run { from, task, enqueue_tick: item.enqueue_tick },
        Entry::Sentinel => Wake::Stop { from },
    }
}

/// The tasks among the first items of a queue, and among one item more.
proof fn lemma_tasks_of_prefix<J>(items: Seq<QueueItem<J>>, i: int)
    requires
        0 <= i <= items.len(),
    ensures
        items.subrange(0, 0).filter(is_task()) == Seq::<QueueItem<J>>::empty(),
        i < items.len() ==> items.subrange(0, i + 1).filter(is_task()) == if items[i].func is Task {
            items.subrange(0, i).filter(is_task()).push(items[i])
        } else {
            items.subrange(0, i).filter(is_task())
        },
{
    reveal(Seq::filter);
    assert(items.subrange(0, 0).filter(is_task()) =~= Seq::<QueueItem<J>>::empty());
    if i < items.len() {
        assert(items.subrange(0, i + 1).drop_last() =~= items.subrange(0, i));
    }
}

/// The tasks among some items are no more than the items, all of them are tasks,
/// and they are the items themselves where these are tasks only.
pub proof fn lemma_tasks_fit<J>(items: Seq<QueueItem<J>>)
    ensures
        items.filter(is_task()).len() <= items.len(),
        forall|i: int|
            0 <= i < items.filter(is_task()).len() ==> (#[trigger] items.filter(
                is_task(),
            )[i]).func is Task,
        (forall|i: int| 0 <= i < items.len() ==> (#[trigger] items[i]).func is Task)
            ==> items.filter(is_task()) == items,
    decreases items.len(),
{
    reveal(Seq::filter);
    if items.len() > 0 {
        let rest = items.drop_last();
        lemma_tasks_fit(rest);
        assert forall|i: int| 0 <= i < rest.len() implies rest[i] == items[i] by {}
        assert(items.last() == items[items.len() - 1]);
        assert(rest.push(items.last()) =~= items);
    }
}

} // verus!
