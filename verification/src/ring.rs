//! A first-in, first-out ring buffer of fixed capacity.

use vstd::prelude::*;

verus! {

/// Maximum number of tasks in each queue.
pub const MAX_QUEUE: usize = 1024;

/// A ring of `MAX_QUEUE` slots. The occupied slots start at `head` and run up
/// to, and not including, `tail`, both taken modulo `MAX_QUEUE`.
pub struct Ring<J> {
    slots: Vec<Option<J>>,
    head: usize,
    tail: usize,
    count: usize,
}

/// The slot that holds the item at distance `i` behind the head.
pub open spec fn slot_index(head: int, i: int) -> int {
    (head + i) % (MAX_QUEUE as int)
}

impl<J> View for Ring<J> {
    type V = Seq<J>;

    /// The queued items, oldest first.
    closed spec fn view(&self) -> Seq<J> {
        Seq::new(self.count as nat, |i: int| self.slots@[slot_index(self.head as int, i)]->0)
    }
}

impl<J> Ring<J> {
    /// The cursors are in range and agree with the count, and every occupied
    /// slot holds an item.
    pub closed spec fn wf(&self) -> bool {
        &&& self.slots@.len() == MAX_QUEUE
        &&& self.head < MAX_QUEUE
        &&& self.count <= MAX_QUEUE
        &&& self.tail == slot_index(self.head as int, self.count as int)
        &&& forall|i: int|
            0 <= i < self.count ==> (#[trigger] self.slots@[slot_index(self.head as int, i)]) is Some
    }

    /// A well-formed ring never holds more than `MAX_QUEUE` items.
    pub proof fn lemma_len_bounded(&self)
        requires
            self.wf(),
        ensures
            self@.len() <= MAX_QUEUE,
    {
    }

    /// An empty ring.
    pub fn new() -> (ring: Self)
        ensures
            ring.wf(),
            ring@ == Seq::<J>::empty(),
    {
        let mut slots: Vec<Option<J>> = Vec::new();
        let mut i: usize = 0;
        while i < MAX_QUEUE
            invariant
                i <= MAX_QUEUE,
                slots@.len() == i,
            decreases MAX_QUEUE - i,
        {
            slots.push(None);
            i += 1;
        }
        let ring = Ring { slots, head: 0, tail: 0, count: 0 };
        assert(ring@ =~= Seq::<J>::empty());
        ring
    }

    /// The number of queued items.
    pub fn len(&self) -> (count: usize)
        requires
            self.wf(),
        ensures
            count == self@.len(),
            count <= MAX_QUEUE,
    {
        self.count
    }

    /// Appends an item behind all the others.
    pub fn push(&mut self, item: J)
        requires
            old(self).wf(),
            old(self)@.len() < MAX_QUEUE,
        ensures
            final(self).wf(),
            final(self)@ == old(self)@.push(item),
    {
        let idx: usize = self.tail;
        self.slots[idx] = Some(item);
        self.tail = (self.tail + 1) % MAX_QUEUE;
        self.count += 1;
        proof {
            let head = old(self).head as int;
            let n = old(self).count as int;
            assert forall|i: int| 0 <= i < n implies slot_index(head, i) != slot_index(head, n) by {}
            assert(slot_index(head, n + 1) == self.tail);
            assert forall|i: int| 0 <= i < self.count implies (#[trigger] self.slots@[slot_index(
                head,
                i,
            )]) is Some by {
                if i < n {
                    assert(old(self).slots@[slot_index(head, i)] is Some);
                }
            }
            assert(self@ =~= old(self)@.push(item));
        }
    }

    /// Takes the oldest item out.
    pub fn pop(&mut self) -> (item: J)
        requires
            old(self).wf(),
            old(self)@.len() > 0,
        ensures
            final(self).wf(),
            item == old(self)@[0],
            final(self)@ == old(self)@.subrange(1, old(self)@.len() as int),
    {
        let idx: usize = self.head;
        assert(slot_index(self.head as int, 0) == idx);
        let taken = self.slots[idx].take();
        self.head = (self.head + 1) % MAX_QUEUE;
        self.count -= 1;
        proof {
            let head = old(self).head as int;
            let n = old(self).count as int;
            assert forall|i: int| 0 <= i < n - 1 implies #[trigger] slot_index(self.head as int, i)
                == slot_index(head, i + 1) by {}
            assert forall|i: int| 1 <= i < n implies #[trigger] slot_index(head, i) != slot_index(
                head,
                0,
            ) by {}
            assert forall|i: int| 0 <= i < self.count implies (#[trigger] self.slots@[slot_index(
                self.head as int,
                i,
            )]) is Some by {
                assert(slot_index(head, i + 1) != slot_index(head, 0));
                assert(old(self).slots@[slot_index(head, i + 1)] is Some);
            }
            assert(self@ =~= old(self)@.subrange(1, n)) by {
                assert forall|i: int| 0 <= i < n - 1 implies self@[i] == old(self)@[i + 1] by {
                    assert(slot_index(head, i + 1) != slot_index(head, 0));
                }
            }
        }
        taken.unwrap()
    }

    /// Forgets every item. The slots keep their contents until a later `push`
    /// writes over them.
    pub fn clear(&mut self)
        requires
            old(self).wf(),
        ensures
            final(self).wf(),
            final(self)@ == Seq::<J>::empty(),
    {
        self.head = 0;
        self.tail = 0;
        self.count = 0;
        assert(self@ =~= Seq::<J>::empty());
    }
}

} // verus!
