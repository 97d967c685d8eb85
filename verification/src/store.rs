//! Typed access to the listings in durable storage.

use crate::codec::{
    decode_item, encode_item, encode_item_checked, item_bytes, lemma_parse_item_bytes, parse_item, record_fits,
    recordable,
};
use crate::item::{Item, ItemView};
use crate::stable::{
    record_map_contents, record_map_entries, record_map_get, record_map_init, record_map_insert,
    record_map_into_memory, record_map_remove, RecordMap, Region,
};
use vstd::prelude::*;

verus! {

/// Whether every value of `records` is the record of a listing.
pub open spec fn all_records_parse(records: Map<u64, Seq<u8>>) -> bool {
    forall|key: u64| #[trigger] records.contains_key(key) ==> parse_item(records[key]) is Some
}

/// The listings that `records` hold, by key.
pub open spec fn listings(records: Map<u64, Seq<u8>>) -> Map<u64, ItemView> {
    Map::new(|key: u64| records.contains_key(key), |key: u64| parse_item(records[key]).unwrap())
}

/// The refusal to store a listing whose record is too long.
#[derive(Clone, Copy, Debug, PartialEq, Eq)]
pub struct RecordTooLarge;

/// The durable map of listings, read and written as listings rather than
/// bytes.
pub struct ItemStore {
    records: RecordMap,
}

impl View for ItemStore {
    type V = Map<u64, ItemView>;

    closed spec fn view(&self) -> Map<u64, ItemView> {
        listings(record_map_contents(self.records))
    }
}

impl ItemStore {
    /// Every stored value is the record of a listing.
    pub closed spec fn wf(&self) -> bool {
        all_records_parse(record_map_contents(self.records))
    }

    /// The store over `records` if every value in it is the record of a
    /// listing, and `None` if some value is not.
    pub fn check(records: RecordMap) -> (store: Option<ItemStore>)
        ensures
            store is Some <==> all_records_parse(record_map_contents(records)),
            store matches Some(store) ==> store.wf() && store@ == listings(
                record_map_contents(records),
            ),
    {
        let entries = record_map_entries(&records);
        let ghost contents = record_map_contents(records);
        let mut at: usize = 0;
        while at < entries.len()
            invariant
                at <= entries.len(),
                contents == record_map_contents(records),
                forall|i: int|
                    0 <= i < entries@.len() ==> {
                        &&& contents.contains_key(#[trigger] entries@[i].0)
                        &&& contents[entries@[i].0] == entries@[i].1@
                    },
                forall|i: int| 0 <= i < at ==> parse_item(contents[(#[trigger] entries@[i]).0]) is Some,
            decreases entries.len() - at,
        {
            if decode_item(entries[at].1.as_slice()).is_none() {
                return None;
            }
            at += 1;
        }
        Some(ItemStore { records })
    }

    /// Opens the store kept in `region`: the listings found there, or an
    /// empty store in a blank region. `None` if the region holds anything
    /// that is not the record of a listing.
    pub fn open(region: Region) -> (store: Option<ItemStore>)
        ensures
            store matches Some(store) ==> store.wf(),
    {
        ItemStore::check(record_map_init(region))
    }

    /// Gives the store up and returns the region it is kept in, where its
    /// listings stay.
    pub fn into_region(self) -> Region {
        record_map_into_memory(self.records)
    }

    /// The listing stored under `key`, if there is one.
    pub fn get(&self, key: u64) -> (found: Option<Item>)
        requires
            self.wf(),
        ensures
            found is Some <==> self@.contains_key(key),
            found matches Some(item) ==> item@ == self@[key],
    {
        match record_map_get(&self.records, key) {
            None => None,
            Some(bytes) => decode_item(bytes.as_slice()),
        }
    }

    /// Stores the record `bytes` of `item` under `key`.
    fn put(&mut self, key: u64, bytes: Vec<u8>, item: Ghost<ItemView>) -> (previous: Option<Item>)
        requires
            old(self).wf(),
            bytes@ == item_bytes(item@),
            recordable(item@),
            record_fits(item@),
        ensures
            final(self).wf(),
            final(self)@ == old(self)@.insert(key, item@),
            previous is Some <==> old(self)@.contains_key(key),
            previous matches Some(before) ==> before@ == old(self)@[key],
    {
        proof {
            lemma_parse_item_bytes(item@);
        }
        let previous = record_map_insert(&mut self.records, key, bytes);
        match previous {
            None => None,
            Some(bytes) => decode_item(bytes.as_slice()),
        }
    }

    /// Stores `item` under `key`, replacing and returning what was stored
    /// there before. No other key is touched.
    ///
    /// The record of `item` must be short enough to be stored; `try_insert`
    /// tests that.
    pub fn insert(&mut self, key: u64, item: &Item) -> (previous: Option<Item>)
        requires
            old(self).wf(),
            record_fits(item@),
        ensures
            final(self).wf(),
            final(self)@ == old(self)@.insert(key, item@),
            previous is Some <==> old(self)@.contains_key(key),
            previous matches Some(before) ==> before@ == old(self)@[key],
    {
        let bytes = encode_item(item);
        self.put(key, bytes, Ghost(item@))
    }

    /// Stores `item` under `key` as `insert` does, if its record is short
    /// enough to be stored. If it is not, the store is left as it was.
    pub fn try_insert(&mut self, key: u64, item: &Item) -> (stored: Result<
        Option<Item>,
        RecordTooLarge,
    >)
        requires
            old(self).wf(),
        ensures
            final(self).wf(),
            stored is Ok <==> record_fits(item@),
            stored matches Ok(previous) ==> {
                &&& final(self)@ == old(self)@.insert(key, item@)
                &&& previous is Some <==> old(self)@.contains_key(key)
                &&& previous matches Some(before) ==> before@ == old(self)@[key]
            },
            stored is Err ==> *final(self) == *old(self),
    {
        match encode_item_checked(item) {
            Some(bytes) => Ok(self.put(key, bytes, Ghost(item@))),
            None => Err(RecordTooLarge),
        }
    }

    /// Removes the listing stored under `key` and returns it, if there is
    /// one. No other key is touched.
    pub fn remove(&mut self, key: u64) -> (previous: Option<Item>)
        requires
            old(self).wf(),
        ensures
            final(self).wf(),
            final(self)@ == old(self)@.remove(key),
            previous is Some <==> old(self)@.contains_key(key),
            previous matches Some(before) ==> before@ == old(self)@[key],
    {
        let previous = record_map_remove(&mut self.records, key);
        match previous {
            None => None,
            Some(bytes) => decode_item(bytes.as_slice()),
        }
    }

    /// Every stored listing with its key, exactly once, in ascending order
    /// of the keys.
    pub fn enumerate(&self) -> (entries: Vec<(u64, Item)>)
        requires
            self.wf(),
        ensures
            forall|i: int|
                0 <= i < entries@.len() ==> {
                    &&& self@.contains_key(#[trigger] entries@[i].0)
                    &&& self@[entries@[i].0] == entries@[i].1@
                },
            forall|key: u64| #[trigger]
                self@.contains_key(key) ==> exists|i: int|
                    0 <= i < entries@.len() && #[trigger] entries@[i].0 == key,
            forall|i: int, j: int|
                0 <= i < j < entries@.len() ==> #[trigger] entries@[i].0 < #[trigger] entries@[j].0,
    {
        let raw = record_map_entries(&self.records);
        let ghost contents = record_map_contents(self.records);
        let mut entries: Vec<(u64, Item)> = Vec::new();
        let mut at: usize = 0;
        while at < raw.len()
            invariant
                at <= raw.len(),
                self.wf(),
                contents == record_map_contents(self.records),
                forall|i: int|
                    0 <= i < raw@.len() ==> {
                        &&& contents.contains_key(#[trigger] raw@[i].0)
                        &&& contents[raw@[i].0] == raw@[i].1@
                    },
                entries@.len() == at,
                forall|i: int|
                    0 <= i < at ==> {
                        &&& (#[trigger] entries@[i]).0 == raw@[i].0
                        &&& parse_item(raw@[i].1@) == Some(entries@[i].1@)
                    },
            decreases raw.len() - at,
        {
            let key = raw[at].0;
            match decode_item(raw[at].1.as_slice()) {
                Some(item) => {
                    entries.push((key, item));
                },
                None => {
                    assert(false);
                },
            }
            at += 1;
        }
        assert forall|key: u64| #[trigger] self@.contains_key(key) implies exists|i: int|
            0 <= i < entries@.len() && #[trigger] entries@[i].0 == key by {
            let i = choose|i: int| 0 <= i < raw@.len() && #[trigger] raw@[i].0 == key;
            assert(entries@[i].0 == key);
        }
        entries
    }
}

} // verus!
