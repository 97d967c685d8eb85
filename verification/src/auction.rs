//! The auction engine: the five mutating operations and the two queries, on
//! a ledger kept in durable storage.
//!
//! Every operation reads the listing it is about, decides by the rules of
//! `rules`, and commits at most one write. Its contract states the outcome
//! and the next ledger as functions of the ledger before the call.

use crate::codec::{fits_record, record_fits};
use crate::counter::{get_and_inc_current_id, IdCounter};
use crate::identity::{principal_text, Identity, MAX_PRINCIPAL_BYTES};
use crate::item::{Item, ItemView};
use crate::ledger::{
    lemma_bid_wf, lemma_delete_wf, lemma_edit_wf, lemma_list_wf, lemma_stop_result,
    lemma_stop_wf, LedgerView,
};
use crate::message::{delete_refusal, delete_refusal_text};
use crate::rules::{
    bid_found, delete_found, edit_found, found_view, outcome_view, stop_found, stop_outcome,
    AuctionError, BidBase, ItemBase,
};
use crate::stable::StableMemory;
use crate::store::ItemStore;
use std::collections::HashMap;
use vstd::prelude::*;
use vstd::std_specs::hash::*;

verus! {

/// The region that holds the listings.
pub const ITEMS_REGION: u8 = 0;

/// The region that holds the identifier counter.
pub const COUNTER_REGION: u8 = 1;

/// The textual form of the owner of what a lookup found; empty where nothing
/// was found or the owner has no textual form.
pub open spec fn owner_text(found: Option<ItemView>) -> Seq<char> {
    match found {
        Some(item) => if item.owner.len() <= MAX_PRINCIPAL_BYTES {
            principal_text(item.owner)
        } else {
            Seq::empty()
        },
        None => Seq::empty(),
    }
}

/// The auction ledger: the store of listings and the counter that numbers
/// them.
pub struct Auction {
    store: ItemStore,
    ids: IdCounter,
}

impl View for Auction {
    type V = LedgerView;

    closed spec fn view(&self) -> LedgerView {
        LedgerView { items: self.store@, next_id: self.ids.next() }
    }
}

impl Auction {
    /// The invariants of the ledger hold of what is stored.
    pub closed spec fn wf(&self) -> bool {
        &&& self.store.wf()
        &&& self@.wf()
    }

    /// The ledger made of `store` and `ids`, if together they keep the
    /// invariants of a ledger; `None` if some listing breaks them.
    pub fn new(store: ItemStore, ids: IdCounter) -> (auction: Option<Auction>)
        requires
            store.wf(),
        ensures
            auction is Some <==> (LedgerView { items: store@, next_id: ids.next() }).wf(),
            auction matches Some(auction) ==> auction.wf() && auction@ == (LedgerView {
                items: store@,
                next_id: ids.next(),
            }),
    {
        let next = ids.peek();
        let entries = store.enumerate();
        let ghost ledger = LedgerView { items: store@, next_id: next };
        let mut at: usize = 0;
        while at < entries.len()
            invariant
                at <= entries.len(),
                next == ids.next(),
                ledger == (LedgerView { items: store@, next_id: next }),
                forall|i: int|
                    0 <= i < entries@.len() ==> {
                        &&& store@.contains_key(#[trigger] entries@[i].0)
                        &&& store@[entries@[i].0] == entries@[i].1@
                    },
                forall|i: int|
                    0 <= i < at ==> {
                        &&& ledger.items[(#[trigger] entries@[i]).0].wf()
                        &&& ledger.items[entries@[i].0].id == entries@[i].0
                        &&& record_fits(ledger.items[entries@[i].0])
                        &&& entries@[i].0 < next
                    },
            decreases entries.len() - at,
        {
            let key = entries[at].0;
            let item = &entries[at].1;
            if !item.is_well_formed() || item.id != key || key >= next || !fits_record(item) {
                assert(ledger.items[key] == item@);
                return None;
            }
            at += 1;
        }
        assert forall|id: u64| #[trigger] ledger.items.contains_key(id) implies {
            &&& ledger.items[id].wf()
            &&& ledger.items[id].id == id
            &&& record_fits(ledger.items[id])
            &&& id < ledger.next_id
        } by {
            let i = choose|i: int| 0 <= i < entries@.len() && #[trigger] entries@[i].0 == id;
            assert(ledger.items[entries@[i].0].wf());
        }
        Some(Auction { store, ids })
    }

    /// Opens the ledger kept in the stable memory of this process: the
    /// listings in region 0, the counter in region 1. `None` if what is found
    /// there is not a ledger.
    ///
    /// The ledger is to be opened once in a process. On a canister a second
    /// call opens the same two regions again, and what is stated of either
    /// ledger no longer holds once the other writes; see
    /// `StableMemory::open`.
    pub fn open() -> (auction: Option<Auction>)
        ensures
            auction matches Some(auction) ==> auction.wf(),
    {
        let mut memory = StableMemory::open();
        let items = memory.region(ITEMS_REGION).unwrap();
        let counter = memory.region(COUNTER_REGION).unwrap();
        match ItemStore::open(items) {
            None => None,
            Some(store) => Auction::new(store, IdCounter::open(counter)),
        }
    }

    /// Gives the ledger up and returns its two parts: the store with the
    /// listings and the counter.
    pub fn into_parts(self) -> (parts: (ItemStore, IdCounter))
        ensures
            self.wf() ==> parts.0.wf(),
            parts.0@ == self@.items,
            parts.1.next() == self@.next_id,
    {
        (self.store, self.ids)
    }

    /// The invariants of the ledger hold of the mathematical value of a
    /// valid ledger, so that the laws about ledgers apply to it.
    pub proof fn lemma_view_wf(&self)
        requires
            self.wf(),
        ensures
            self@.wf(),
    {
    }

    /// The listing with identifier `key`, if there is one.
    pub fn get_item(&self, key: u64) -> (found: Option<Item>)
        requires
            self.wf(),
        ensures
            found_view(found) == self@.find(key),
            found matches Some(item) ==> item@.wf() && item@.id == key,
    {
        self.store.get(key)
    }

    /// Every listing, by identifier.
    pub fn get_all_items(&self) -> (all: HashMap<u64, Item>)
        requires
            self.wf(),
        ensures
            all@.dom() == self@.items.dom(),
            forall|id: u64| #[trigger] self@.items.contains_key(id) ==> all@[id]@ == self@.items[id],
    {
        broadcast use group_hash_axioms;

        let mut entries = self.store.enumerate();
        let ghost listed = entries@;
        let mut all: HashMap<u64, Item> = HashMap::new();
        while entries.len() > 0
            invariant
                entries@.len() <= listed.len(),
                entries@ == listed.take(entries@.len() as int),
                forall|i: int|
                    0 <= i < listed.len() ==> {
                        &&& self.store@.contains_key(#[trigger] listed[i].0)
                        &&& self.store@[listed[i].0] == listed[i].1@
                    },
                forall|id: u64| #[trigger]
                    all@.contains_key(id) <==> exists|i: int|
                        entries@.len() <= i < listed.len() && #[trigger] listed[i].0 == id,
                forall|id: u64| #[trigger] all@.contains_key(id) ==> all@[id]@ == self.store@[id],
            decreases entries@.len(),
        {
            if let Some((key, item)) = entries.pop() {
                all.insert(key, item);
            }
        }
        assert(all@.dom() =~= self@.items.dom());
        all
    }

    /// Lists an item for `caller`: allocates the next identifier, stores a
    /// listing without bids under it, and returns that listing. `None`, with
    /// nothing changed, exactly when no identifier is left or the record of
    /// the listing would be too long.
    pub fn list_item(&mut self, caller: Identity, item: ItemBase) -> (created: Option<Item>)
        requires
            old(self).wf(),
        ensures
            final(self).wf(),
            final(self)@ == old(self)@.list(caller@, item@),
            found_view(created) == old(self)@.list_result(caller@, item@),
            created matches Some(listing) ==> {
                &&& listing@.id == old(self)@.next_id
                &&& final(self)@.next_id == listing@.id + 1
                &&& !old(self)@.items.contains_key(listing@.id)
            },
            created is None ==> *final(self) == *old(self),
    {
        let next = self.ids.peek();
        if next == u64::MAX {
            return None;
        }
        let listing = Item::new(
            caller,
            next,
            item.description,
            item.result_date,
            item.is_active,
            item.latest_update,
        );
        if !fits_record(&listing) {
            return None;
        }
        let id = get_and_inc_current_id(&mut self.ids);
        let _ = self.store.insert(id, &listing);
        proof {
            lemma_list_wf(old(self)@, caller@, item@);
        }
        Some(listing)
    }

    /// Replaces the owner-chosen fields of listing `key` and returns the
    /// updated listing. `NotFound` without such a listing, `Unauthorized`
    /// for a caller who is not its owner, `TooLarge` if the record of the
    /// updated listing would be too long; a refused call changes nothing.
    pub fn edit_item(&mut self, caller: &Identity, key: u64, new_item: ItemBase) -> (outcome:
        Result<Item, AuctionError>)
        requires
            old(self).wf(),
        ensures
            final(self).wf(),
            outcome_view(outcome) == old(self)@.edit_result(caller@, key, new_item@),
            final(self)@ == old(self)@.edit(caller@, key, new_item@),
            outcome matches Ok(item) ==> final(self)@.items == old(self)@.items.insert(key, item@),
            final(self)@.next_id == old(self)@.next_id,
            outcome is Err ==> *final(self) == *old(self),
    {
        let found = self.store.get(key);
        match edit_found(found, caller, new_item) {
            Ok(item) => match self.store.try_insert(key, &item) {
                Ok(_) => {
                    proof {
                        lemma_edit_wf(old(self)@, caller@, key, new_item@);
                    }
                    Ok(item)
                },
                Err(_) => Err(AuctionError::TooLarge),
            },
            Err(error) => Err(error),
        }
    }

    /// Closes listing `key` to further bids and returns the updated listing.
    /// `NotFound` without such a listing, `Unauthorized` for a caller who is
    /// not its owner; a refused call changes nothing. Stopping a listing
    /// that is already closed succeeds.
    pub fn stop_listing(&mut self, caller: &Identity, key: u64) -> (outcome: Result<
        Item,
        AuctionError,
    >)
        requires
            old(self).wf(),
        ensures
            final(self).wf(),
            outcome_view(outcome) == stop_outcome(old(self)@.find(key), caller@),
            final(self)@ == old(self)@.stop(caller@, key),
            outcome matches Ok(item) ==> {
                &&& item@ == old(self)@.items[key].stopped()
                &&& final(self)@.items == old(self)@.items.insert(key, item@)
            },
            final(self)@.next_id == old(self)@.next_id,
            outcome is Err ==> *final(self) == *old(self),
    {
        proof {
            lemma_stop_result(old(self)@, caller@, key);
        }
        let found = self.store.get(key);
        match stop_found(found, caller) {
            Ok(item) => {
                let _ = self.store.insert(key, &item);
                proof {
                    lemma_stop_wf(old(self)@, caller@, key);
                }
                Ok(item)
            },
            Err(error) => Err(error),
        }
    }

    /// Removes listing `key` with its whole history and returns its
    /// identifier. `NotFound` without such a listing, `Unauthorized` for a
    /// caller who is not its owner; a refused call changes nothing.
    pub fn delete_item(&mut self, caller: &Identity, key: u64) -> (outcome: Result<
        u64,
        AuctionError,
    >)
        requires
            old(self).wf(),
        ensures
            final(self).wf(),
            outcome == old(self)@.delete_result(caller@, key),
            final(self)@ == old(self)@.delete(caller@, key),
            outcome is Ok ==> outcome == Ok::<u64, AuctionError>(key),
            outcome is Ok ==> final(self)@.items == old(self)@.items.remove(key),
            final(self)@.next_id == old(self)@.next_id,
            outcome is Err ==> *final(self) == *old(self),
    {
        let found = self.store.get(key);
        match delete_found(&found, caller) {
            Ok(id) => {
                let _ = self.store.remove(key);
                proof {
                    lemma_delete_wf(old(self)@, caller@, key);
                }
                Ok(id)
            },
            Err(error) => Err(error),
        }
    }

    /// The report of a refused delete of listing `key`. It names the owner of
    /// the listing to a caller who is not authorized.
    pub fn delete_refusal(&self, key: u64, error: AuctionError) -> (text: String)
        requires
            self.wf(),
        ensures
            text@ == delete_refusal_text(error, owner_text(self@.find(key))),
    {
        let owner = match self.store.get(key) {
            Some(item) => match item.item_owner.to_text() {
                Some(text) => text,
                None => String::new(),
            },
            None => String::new(),
        };
        delete_refusal(error, owner.as_str())
    }

    /// Places a bid by `caller` on listing `key` and returns the identifier
    /// of the listing.
    ///
    /// The bid is accepted exactly when the listing exists, the caller is not
    /// its owner, it is active, the amount exceeds its highest bid, and the
    /// record of the listing can take one more bid. A refusal names the
    /// first of these that fails, in this order, and changes nothing.
    pub fn bid_for_an_item(&mut self, caller: Identity, key: u64, bid: BidBase) -> (outcome:
        Result<u64, AuctionError>)
        requires
            old(self).wf(),
        ensures
            final(self).wf(),
            final(self)@ == old(self)@.bid(caller@, key, bid),
            match outcome {
                Ok(id) => id == key && old(self)@.bid_result(caller@, key, bid) is Ok,
                Err(error) => old(self)@.bid_result(caller@, key, bid) == Err::<
                    ItemView,
                    AuctionError,
                >(error),
            },
            outcome is Ok <==> {
                &&& old(self)@.items.contains_key(key)
                &&& caller@ != old(self)@.items[key].owner
                &&& old(self)@.items[key].is_active
                &&& bid.bid_amount > old(self)@.items[key].highest_bid
                &&& record_fits(old(self)@.items[key].with_bid(caller@, bid))
            },
            outcome is Ok ==> {
                &&& final(self)@.items == old(self)@.items.insert(
                    key,
                    old(self)@.items[key].with_bid(caller@, bid),
                )
                &&& final(self)@.items[key].highest_bid == bid.bid_amount
                &&& final(self)@.items[key].bids.len() == old(self)@.items[key].bids.len() + 1
                &&& final(self)@.items[key].bids.last().bid_amount == bid.bid_amount
            },
            final(self)@.next_id == old(self)@.next_id,
            outcome is Err ==> *final(self) == *old(self),
    {
        let found = self.store.get(key);
        match bid_found(found, caller, bid) {
            Ok(item) => match self.store.try_insert(key, &item) {
                Ok(_) => {
                    proof {
                        lemma_bid_wf(old(self)@, caller@, key, bid);
                    }
                    Ok(item.id)
                },
                Err(_) => Err(AuctionError::TooLarge),
            },
            Err(error) => Err(error),
        }
    }
}

} // verus!
