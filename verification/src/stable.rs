//! The durable storage primitives that the ledger is built on.
//!
//! The statements about `ic_stable_structures` in this module are taken on
//! trust by Verus; the rest of the crate is proved against them. The four
//! structs marked as external only carry a value of that crate: its types are
//! bounded by its own traits, which keeps them out of verified signatures.
//!
//! The statements about a map or a cell hold as long as nothing else writes
//! to the region it lives in. `StableMemory` sees to that within one memory:
//! it hands each region out once, a structure takes the region it is opened
//! on, and only giving the structure up returns the region. What it cannot
//! see to is said at `StableMemory::open`.
//!
//! Beyond that the statements assume what `ic_stable_structures` itself
//! assumes: that a region is blank or was written by the structure that is
//! opened on it, and that stable memory can still grow when a write needs
//! room.

use ic_stable_structures::memory_manager::{MemoryId, MemoryManager, VirtualMemory};
use ic_stable_structures::{DefaultMemoryImpl, StableBTreeMap, StableCell};
use vstd::prelude::*;

verus! {

/// A `MemoryManager` over the default memory, which divides it into regions
/// that grow independently.
#[verifier::external_body]
pub(crate) struct Manager {
    manager: MemoryManager<DefaultMemoryImpl>,
}

/// One region of stable memory: a `VirtualMemory` handed out by the manager.
#[verifier::external_body]
pub struct Region {
    memory: VirtualMemory<DefaultMemoryImpl>,
}

/// A `StableBTreeMap` from `u64` keys to byte strings.
#[verifier::external_body]
pub struct RecordMap {
    map: StableBTreeMap<u64, Vec<u8>, VirtualMemory<DefaultMemoryImpl>>,
}

/// A `StableCell` that holds one `u64`.
#[verifier::external_body]
pub struct CounterCell {
    cell: StableCell<u64, VirtualMemory<DefaultMemoryImpl>>,
}

/// The stable memory of the process, with a record of the regions that were
/// handed out.
pub struct StableMemory {
    manager: Manager,
    taken: Vec<u8>,
}

impl StableMemory {
    /// The numbers of the regions that were handed out.
    pub closed spec fn taken(&self) -> Set<u8> {
        self.taken@.to_set()
    }

    /// The stable memory of this process, with no region handed out yet.
    ///
    /// On a canister there is one stable memory, and every value that this
    /// function returns stands for all of it: regions taken from two such
    /// values under one number are the same pages. A process that opens its
    /// memory once never meets that; nothing here can rule it out for a
    /// process that opens it twice.
    pub fn open() -> (memory: StableMemory)
        ensures
            memory.taken() == Set::<u8>::empty(),
    {
        let memory = StableMemory { manager: memory_manager_init(), taken: Vec::new() };
        assert(memory.taken@.to_set() =~= Set::<u8>::empty());
        memory
    }

    /// Whether region `id` was handed out.
    pub fn is_taken(&self, id: u8) -> (taken: bool)
        ensures
            taken == self.taken().contains(id),
    {
        let mut at: usize = 0;
        while at < self.taken.len()
            invariant
                at <= self.taken.len(),
                forall|i: int| 0 <= i < at ==> self.taken@[i] != id,
            decreases self.taken.len() - at,
        {
            if self.taken[at] == id {
                return true;
            }
            at += 1;
        }
        false
    }

    /// Hands out the region with number `id`, once: `None` for a number that
    /// was handed out before, and for 255, which the memory manager keeps
    /// for itself.
    ///
    /// A structure that is opened on the region takes it; the region comes
    /// back when the structure is given up, and can then be opened again.
    pub fn region(&mut self, id: u8) -> (region: Option<Region>)
        ensures
            region is Some <==> id != 255 && !old(self).taken().contains(id),
            region is Some ==> final(self).taken() == old(self).taken().insert(id),
            region is None ==> final(self).taken() == old(self).taken(),
    {
        if id == 255 || self.is_taken(id) {
            return None;
        }
        self.taken.push(id);
        proof {
            old(self).taken@.lemma_push_to_set_commute(id);
        }
        Some(memory_manager_get(&self.manager, id))
    }
}

/// The key-value pairs that a record map holds.
pub uninterp spec fn record_map_contents(records: RecordMap) -> Map<u64, Seq<u8>>;

/// The number that a counter cell holds.
pub uninterp spec fn counter_cell_value(cell: CounterCell) -> u64;

/// `MemoryManager::init` over `DefaultMemoryImpl::default()`: the stable
/// memory of a canister, or a fresh vector of bytes on any other target.
/// Nothing is claimed of what the memory holds.
#[verifier::external_body]
pub(crate) fn memory_manager_init() -> Manager {
    Manager { manager: MemoryManager::init(DefaultMemoryImpl::default()) }
}

/// `MemoryManager::get` with `MemoryId::new(id)`. The id 255 marks unallocated
/// buckets inside the manager and `MemoryId::new` panics on it, so it is
/// excluded.
#[verifier::external_body]
pub(crate) fn memory_manager_get(manager: &Manager, id: u8) -> Region
    requires
        id != 255,
{
    Region { memory: manager.manager.get(MemoryId::new(id)) }
}

/// `StableBTreeMap::init`: loads the map that the region holds, or creates an
/// empty one in a blank region. Nothing is claimed of the contents.
#[verifier::external_body]
pub(crate) fn record_map_init(region: Region) -> RecordMap {
    RecordMap { map: StableBTreeMap::init(region.memory) }
}

/// `StableBTreeMap::into_memory`: gives the map up and returns the region it
/// lives in. What the map held stays in the region.
#[verifier::external_body]
pub(crate) fn record_map_into_memory(records: RecordMap) -> Region {
    Region { memory: records.map.into_memory() }
}

/// `StableBTreeMap::get`: the value stored under `key`, if there is one.
#[verifier::external_body]
pub(crate) fn record_map_get(records: &RecordMap, key: u64) -> (found: Option<Vec<u8>>)
    ensures
        found is Some <==> record_map_contents(*records).contains_key(key),
        found matches Some(bytes) ==> bytes@ == record_map_contents(*records)[key],
{
    records.map.get(&key)
}

/// `StableBTreeMap::insert`: stores `value` under `key`, replacing and
/// returning what was stored there before; every other key is left alone.
/// The map writes the length of a value in four bytes, so longer values are
/// excluded.
#[verifier::external_body]
pub(crate) fn record_map_insert(records: &mut RecordMap, key: u64, value: Vec<u8>) -> (previous:
    Option<Vec<u8>>)
    requires
        value@.len() <= u32::MAX,
    ensures
        record_map_contents(*final(records)) == record_map_contents(*old(records)).insert(
            key,
            value@,
        ),
        previous is Some <==> record_map_contents(*old(records)).contains_key(key),
        previous matches Some(bytes) ==> bytes@ == record_map_contents(*old(records))[key],
{
    records.map.insert(key, value)
}

/// `StableBTreeMap::remove`: deletes `key` and returns what was stored under
/// it, if anything; every other key is left alone.
#[verifier::external_body]
pub(crate) fn record_map_remove(records: &mut RecordMap, key: u64) -> (previous: Option<Vec<u8>>)
    ensures
        record_map_contents(*final(records)) == record_map_contents(*old(records)).remove(key),
        previous is Some <==> record_map_contents(*old(records)).contains_key(key),
        previous matches Some(bytes) ==> bytes@ == record_map_contents(*old(records))[key],
{
    records.map.remove(&key)
}

/// `StableBTreeMap::iter`, collected: every pair of the map exactly once, in
/// ascending order of the keys.
#[verifier::external_body]
pub(crate) fn record_map_entries(records: &RecordMap) -> (entries: Vec<(u64, Vec<u8>)>)
    ensures
        forall|i: int|
            0 <= i < entries@.len() ==> {
                &&& record_map_contents(*records).contains_key(#[trigger] entries@[i].0)
                &&& record_map_contents(*records)[entries@[i].0] == entries@[i].1@
            },
        forall|key: u64| #[trigger]
            record_map_contents(*records).contains_key(key) ==> exists|i: int|
                0 <= i < entries@.len() && #[trigger] entries@[i].0 == key,
        forall|i: int, j: int|
            0 <= i < j < entries@.len() ==> #[trigger] entries@[i].0 < #[trigger] entries@[j].0,
{
    records.map.iter().map(|entry| entry.into_pair()).collect()
}

/// `StableCell::init` with a default: the cell that the region holds, or a new
/// cell with `default` in a blank region. Nothing is claimed of the value.
#[verifier::external_body]
pub(crate) fn counter_cell_init(region: Region, default: u64) -> CounterCell {
    CounterCell { cell: StableCell::init(region.memory, default) }
}

/// `StableCell::into_memory`: gives the cell up and returns the region it
/// lives in. What the cell held stays in the region.
#[verifier::external_body]
pub(crate) fn counter_cell_into_memory(cell: CounterCell) -> Region {
    Region { memory: cell.cell.into_memory() }
}

/// `StableCell::get`: the value that the cell holds.
#[verifier::external_body]
pub(crate) fn counter_cell_get(cell: &CounterCell) -> (value: u64)
    ensures
        value == counter_cell_value(*cell),
{
    *cell.cell.get()
}

/// `StableCell::set`: the cell holds `value` afterwards, and the value it held
/// before is returned. The eight bytes of a `u64` fit the page that every
/// cell has from its creation, so the write needs no room that could be
/// refused.
#[verifier::external_body]
pub(crate) fn counter_cell_set(cell: &mut CounterCell, value: u64) -> (previous: u64)
    ensures
        counter_cell_value(*final(cell)) == value,
        previous == counter_cell_value(*old(cell)),
{
    cell.cell.set(value)
}

} // verus!
