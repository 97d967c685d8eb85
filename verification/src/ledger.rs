//! The ledger as a mathematical value, and each operation as a function from
//! one ledger to the next.

use crate::codec::{lemma_item_bytes_len, record_fits};
use crate::item::ItemView;
use crate::rules::{
    bid_outcome, delete_outcome, edit_outcome, lemma_edited_wf, lemma_stopped_wf,
    lemma_with_bid_wf, stop_outcome, AuctionError, BidBase, ItemBaseView,
};
use vstd::prelude::*;

verus! {

/// The state of the auction: the listings by identifier, and the identifier
/// that the next listing will get.
pub struct LedgerView {
    pub items: Map<u64, ItemView>,
    pub next_id: u64,
}

/// What becomes of the outcome of a rule when the listing is written to the
/// store: a listing whose record would be too long is refused.
pub open spec fn stored(outcome: Result<ItemView, AuctionError>) -> Result<
    ItemView,
    AuctionError,
> {
    match outcome {
        Ok(item) => if record_fits(item) {
            Ok(item)
        } else {
            Err(AuctionError::TooLarge)
        },
        Err(error) => Err(error),
    }
}

impl LedgerView {
    /// The invariants of the ledger: every listing is stored under its own
    /// identifier, keeps the invariants of a listing, has a record that the
    /// store can hold, and was allocated before the counter reached its
    /// present value.
    pub open spec fn wf(self) -> bool {
        forall|id: u64| #[trigger]
            self.items.contains_key(id) ==> {
                &&& self.items[id].wf()
                &&& self.items[id].id == id
                &&& record_fits(self.items[id])
                &&& id < self.next_id
            }
    }

    /// The listing with identifier `id`, if there is one.
    pub open spec fn find(self, id: u64) -> Option<ItemView> {
        if self.items.contains_key(id) {
            Some(self.items[id])
        } else {
            None
        }
    }

    /// The ledger after the result of an operation on listing `id` was
    /// committed: the listing replaced on success, nothing changed on
    /// refusal.
    pub open spec fn commit(self, id: u64, result: Result<ItemView, AuctionError>) -> LedgerView {
        match result {
            Ok(item) => LedgerView { items: self.items.insert(id, item), ..self },
            Err(_) => self,
        }
    }

    /// Whether an identifier is left for a new listing. The last value of
    /// the counter is never handed out: it could not be advanced past.
    pub open spec fn can_list(self) -> bool {
        self.next_id < u64::MAX
    }

    /// The listing that `list` creates for `caller`.
    pub open spec fn listed(self, caller: Seq<u8>, fields: ItemBaseView) -> ItemView {
        ItemView::fresh(
            caller,
            self.next_id,
            fields.description,
            fields.result_date,
            fields.is_active,
            fields.latest_update,
        )
    }

    /// What `list` returns: the new listing, unless no identifier is left or
    /// its record would be too long.
    pub open spec fn list_result(self, caller: Seq<u8>, fields: ItemBaseView) -> Option<ItemView> {
        if self.can_list() && record_fits(self.listed(caller, fields)) {
            Some(self.listed(caller, fields))
        } else {
            None
        }
    }

    /// The ledger after `caller` asked to list an item: the new listing is
    /// stored under the next identifier and the counter advances by one, or
    /// nothing changes.
    pub open spec fn list(self, caller: Seq<u8>, fields: ItemBaseView) -> LedgerView {
        match self.list_result(caller, fields) {
            Some(item) => LedgerView {
                items: self.items.insert(self.next_id, item),
                next_id: (self.next_id + 1) as u64,
            },
            None => self,
        }
    }

    /// What an edit of listing `id` by `caller` returns.
    pub open spec fn edit_result(self, caller: Seq<u8>, id: u64, fields: ItemBaseView) -> Result<
        ItemView,
        AuctionError,
    > {
        stored(edit_outcome(self.find(id), caller, fields))
    }

    /// The ledger after `caller` asked to edit listing `id`.
    pub open spec fn edit(self, caller: Seq<u8>, id: u64, fields: ItemBaseView) -> LedgerView {
        self.commit(id, self.edit_result(caller, id, fields))
    }

    /// What a stop of listing `id` by `caller` returns.
    pub open spec fn stop_result(self, caller: Seq<u8>, id: u64) -> Result<ItemView, AuctionError> {
        stored(stop_outcome(self.find(id), caller))
    }

    /// The ledger after `caller` asked to stop listing `id`.
    pub open spec fn stop(self, caller: Seq<u8>, id: u64) -> LedgerView {
        self.commit(id, self.stop_result(caller, id))
    }

    /// What a delete of listing `id` by `caller` returns.
    pub open spec fn delete_result(self, caller: Seq<u8>, id: u64) -> Result<u64, AuctionError> {
        delete_outcome(self.find(id), caller)
    }

    /// The ledger after `caller` asked to delete listing `id`: the listing
    /// is gone on success, nothing changed on refusal.
    pub open spec fn delete(self, caller: Seq<u8>, id: u64) -> LedgerView {
        match self.delete_result(caller, id) {
            Ok(_) => LedgerView { items: self.items.remove(id), ..self },
            Err(_) => self,
        }
    }

    /// What a bid on listing `id` by `caller` returns, as the listing that
    /// is stored.
    pub open spec fn bid_result(self, caller: Seq<u8>, id: u64, bid: BidBase) -> Result<
        ItemView,
        AuctionError,
    > {
        stored(bid_outcome(self.find(id), caller, bid))
    }

    /// The ledger after `caller` asked to bid on listing `id`.
    pub open spec fn bid(self, caller: Seq<u8>, id: u64, bid: BidBase) -> LedgerView {
        self.commit(id, self.bid_result(caller, id, bid))
    }
}

/// Listing keeps the invariants of the ledger.
pub proof fn lemma_list_wf(ledger: LedgerView, caller: Seq<u8>, fields: ItemBaseView)
    requires
        ledger.wf(),
    ensures
        ledger.list(caller, fields).wf(),
{
}

/// Editing keeps the invariants of the ledger.
pub proof fn lemma_edit_wf(ledger: LedgerView, caller: Seq<u8>, id: u64, fields: ItemBaseView)
    requires
        ledger.wf(),
    ensures
        ledger.edit(caller, id, fields).wf(),
{
    if ledger.items.contains_key(id) {
        lemma_edited_wf(ledger.items[id], fields);
    }
}

/// A listing in the ledger is never too large to be stopped: a stop is
/// refused only for a missing listing or a caller who is not the owner.
pub proof fn lemma_stop_result(ledger: LedgerView, caller: Seq<u8>, id: u64)
    requires
        ledger.wf(),
    ensures
        ledger.stop_result(caller, id) == stop_outcome(ledger.find(id), caller),
{
    if ledger.items.contains_key(id) {
        lemma_item_bytes_len(ledger.items[id], ledger.items[id].stopped());
    }
}

/// Stopping keeps the invariants of the ledger.
pub proof fn lemma_stop_wf(ledger: LedgerView, caller: Seq<u8>, id: u64)
    requires
        ledger.wf(),
    ensures
        ledger.stop(caller, id).wf(),
{
    if ledger.items.contains_key(id) {
        lemma_stopped_wf(ledger.items[id]);
    }
}

/// Deleting keeps the invariants of the ledger.
pub proof fn lemma_delete_wf(ledger: LedgerView, caller: Seq<u8>, id: u64)
    requires
        ledger.wf(),
    ensures
        ledger.delete(caller, id).wf(),
{
}

/// Bidding keeps the invariants of the ledger.
pub proof fn lemma_bid_wf(ledger: LedgerView, caller: Seq<u8>, id: u64, bid: BidBase)
    requires
        ledger.wf(),
    ensures
        ledger.bid(caller, id, bid).wf(),
{
    if ledger.items.contains_key(id) {
        let item = ledger.items[id];
        if item.bid_refusal(caller, bid.bid_amount) is None {
            lemma_with_bid_wf(item, caller, bid);
        }
    }
}

} // verus!
