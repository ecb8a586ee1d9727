//! Where the results of tasks wait for whoever holds their handle.

use vstd::prelude::*;

verus! {

/// One place for a result.
enum Cell {
    /// Free.
    Vacant,
    /// Taken; the event is not set.
    Pending,
    /// Taken; the event is set and the result is there.
    Ready(u64),
}

/// The places for the results of submitted tasks, by event number.
pub struct ResultTable {
    cells: Vec<Cell>,
}

impl View for ResultTable {
    type V = Map<usize, Option<u64>>;

    /// The events in use, each with its result once it is set.
    closed spec fn view(&self) -> Map<usize, Option<u64>> {
        Map::new(
            |event: usize| event < self.cells@.len() && !(self.cells@[event as int] is Vacant),
            |event: usize|
                match self.cells@[event as int] {
                    Cell::Ready(result) => Some(result),
                    _ => None,
                },
        )
    }
}

impl ResultTable {
    /// No event in use.
    pub fn new() -> (table: Self)
        ensures
            table@ == Map::<usize, Option<u64>>::empty(),
    {
        let table = ResultTable { cells: Vec::new() };
        assert(table@ =~= Map::<usize, Option<u64>>::empty());
        table
    }

    /// Takes an event into use that was free, not set.
    pub fn reserve(&mut self) -> (event: usize)
        ensures
            !old(self)@.dom().contains(event),
            final(self)@ == old(self)@.insert(event, None),
    {
        let mut event: usize = 0;
        while event < self.cells.len()
            invariant
                event <= self.cells@.len(),
                *self == *old(self),
            decreases self.cells@.len() - event,
        {
            if let Cell::Vacant = self.cells[event] {
                self.cells[event] = Cell::Pending;
                assert(self@ =~= old(self)@.insert(event, None));
                return event;
            }
            event += 1;
        }
        self.cells.push(Cell::Pending);
        assert(self@ =~= old(self)@.insert(event, None));
        event
    }

    /// Stores a result and sets the event, if it is in use.
    pub fn set(&mut self, event: usize, result: u64)
        ensures
            final(self)@ == if old(self)@.dom().contains(event) {
                old(self)@.insert(event, Some(result))
            } else {
                old(self)@
            },
    {
        if event < self.cells.len() {
            match self.cells[event] {
                Cell::Vacant => {},
                _ => {
                    self.cells[event] = Cell::Ready(result);
                    assert(self@ =~= old(self)@.insert(event, Some(result)));
                },
            }
        }
    }

    /// Takes the result of an event that is set, and frees the event.
    pub fn take(&mut self, event: usize) -> (result: Option<u64>)
        ensures
            match result {
                Some(value) => {
                    &&& old(self)@.dom().contains(event)
                    &&& old(self)@[event] == Some(value)
                    &&& final(self)@ == old(self)@.remove(event)
                },
                None => {
                    &&& !(old(self)@.dom().contains(event) && old(self)@[event] is Some)
                    &&& final(self)@ == old(self)@
                },
            },
    {
        if event < self.cells.len() {
            if let Cell::Ready(value) = self.cells[event] {
                self.cells[event] = Cell::Vacant;
                assert(self@ =~= old(self)@.remove(event));
                return Some(value);
            }
        }
        None
    }
}

} // verus!
