//! The sequential allocator of listing identifiers.

use crate::stable::{
    counter_cell_get, counter_cell_init, counter_cell_into_memory, counter_cell_set,
    counter_cell_value, CounterCell, Region,
};
use vstd::prelude::*;

verus! {

/// A durable counter: the identifier that the next listing will get.
pub struct IdCounter {
    cell: CounterCell,
}

impl IdCounter {
    /// The identifier that the next allocation returns.
    pub closed spec fn next(&self) -> u64 {
        counter_cell_value(self.cell)
    }

    /// Whether an identifier is left to hand out. The last value of the
    /// counter is never handed out: it could not be advanced past.
    pub open spec fn can_allocate(&self) -> bool {
        self.next() < u64::MAX
    }

    /// The counter kept in `region`, starting from zero where the region is
    /// blank.
    pub fn open(region: Region) -> IdCounter {
        IdCounter::starting_at(region, 0)
    }

    /// The counter kept in `region`, starting from `first` where the region
    /// is blank.
    pub fn starting_at(region: Region, first: u64) -> IdCounter {
        IdCounter { cell: counter_cell_init(region, first) }
    }

    /// Gives the counter up and returns the region it is kept in, where its
    /// value stays.
    pub fn into_region(self) -> Region {
        counter_cell_into_memory(self.cell)
    }

    /// Reads the counter without advancing it.
    pub fn peek(&self) -> (next: u64)
        ensures
            next == self.next(),
    {
        counter_cell_get(&self.cell)
    }

    /// Allocates an identifier if one is left: `None`, with the counter
    /// untouched, exactly when the counter is exhausted.
    pub fn allocate(&mut self) -> (id: Option<u64>)
        ensures
            id is Some <==> old(self).can_allocate(),
            id matches Some(id) ==> id == old(self).next() && final(self).next() == id + 1,
            id is None ==> *final(self) == *old(self),
    {
        if self.peek() < u64::MAX {
            Some(get_and_inc_current_id(self))
        } else {
            None
        }
    }
}

/// Returns the current value of the counter and advances the counter by one,
/// durably, before it returns.
pub fn get_and_inc_current_id(counter: &mut IdCounter) -> (id: u64)
    requires
        old(counter).can_allocate(),
    ensures
        id == old(counter).next(),
        final(counter).next() == id + 1,
{
    let id = counter_cell_get(&counter.cell);
    let _ = counter_cell_set(&mut counter.cell, id + 1);
    id
}

} // verus!
