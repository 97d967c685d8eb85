//! What holds of the ledger across calls: laws about histories of operations
//! and about pairs of operations, proved from the definitions in `ledger`
//! and `rules`.

use crate::codec::record_fits;
use crate::item::ItemView;
use crate::ledger::{
    lemma_bid_wf, lemma_delete_wf, lemma_edit_wf, lemma_list_wf, lemma_stop_result,
    lemma_stop_wf, LedgerView,
};
use crate::rules::{bid_outcome, AuctionError, BidBase, ItemBaseView};
use vstd::prelude::*;

verus! {

/// One call of a mutating operation, with its caller and arguments.
pub enum Command {
    List { caller: Seq<u8>, fields: ItemBaseView },
    Edit { caller: Seq<u8>, id: u64, fields: ItemBaseView },
    Stop { caller: Seq<u8>, id: u64 },
    Delete { caller: Seq<u8>, id: u64 },
    Bid { caller: Seq<u8>, id: u64, bid: BidBase },
}

impl LedgerView {
    /// The ledger after one call.
    pub open spec fn apply(self, command: Command) -> LedgerView {
        match command {
            Command::List { caller, fields } => self.list(caller, fields),
            Command::Edit { caller, id, fields } => self.edit(caller, id, fields),
            Command::Stop { caller, id } => self.stop(caller, id),
            Command::Delete { caller, id } => self.delete(caller, id),
            Command::Bid { caller, id, bid } => self.bid(caller, id, bid),
        }
    }

    /// The ledger after a history of calls, made one after the other.
    pub open spec fn run(self, history: Seq<Command>) -> LedgerView
        decreases history.len(),
    {
        if history.len() == 0 {
            self
        } else {
            self.run(history.drop_last()).apply(history.last())
        }
    }

    /// The identifier that a call returns for a new listing, if the call is
    /// a `List` that creates one.
    pub open spec fn listed_id(self, command: Command) -> Option<u64> {
        match command {
            Command::List { caller, fields } => match self.list_result(caller, fields) {
                Some(item) => Some(item.id),
                None => None,
            },
            _ => None,
        }
    }
}

/// Every call keeps the invariants of the ledger.
pub proof fn lemma_apply_wf(ledger: LedgerView, command: Command)
    requires
        ledger.wf(),
    ensures
        ledger.apply(command).wf(),
{
    match command {
        Command::List { caller, fields } => lemma_list_wf(ledger, caller, fields),
        Command::Edit { caller, id, fields } => lemma_edit_wf(ledger, caller, id, fields),
        Command::Stop { caller, id } => lemma_stop_wf(ledger, caller, id),
        Command::Delete { caller, id } => lemma_delete_wf(ledger, caller, id),
        Command::Bid { caller, id, bid } => lemma_bid_wf(ledger, caller, id, bid),
    }
}

/// The invariants of the ledger hold after every history of calls: whatever
/// was done, each listing is stored under its own identifier, its bids rise
/// strictly, none of them is the owner's, its highest bid is the latest, and
/// its record is one that the store can hold.
pub proof fn lemma_run_wf(ledger: LedgerView, history: Seq<Command>)
    requires
        ledger.wf(),
    ensures
        ledger.run(history).wf(),
    decreases history.len(),
{
    if history.len() > 0 {
        lemma_run_wf(ledger, history.drop_last());
        lemma_apply_wf(ledger.run(history.drop_last()), history.last());
    }
}

/// No call moves the counter back, and only a listing moves it at all.
pub proof fn lemma_apply_counter(ledger: LedgerView, command: Command)
    ensures
        ledger.apply(command).next_id >= ledger.next_id,
        ledger.listed_id(command) matches Some(id) ==> ledger.apply(command).next_id == id + 1,
        ledger.listed_id(command) is None ==> ledger.apply(command).next_id == ledger.next_id,
{
}

/// The counter after a longer history is at least the counter after any of
/// its beginnings.
pub proof fn lemma_run_counter(ledger: LedgerView, history: Seq<Command>, shorter: int)
    requires
        0 <= shorter <= history.len(),
    ensures
        ledger.run(history.take(shorter)).next_id <= ledger.run(history).next_id,
    decreases history.len(),
{
    if shorter == history.len() {
        assert(history.take(shorter) =~= history);
    } else {
        let front = history.drop_last();
        assert(front.take(shorter) =~= history.take(shorter));
        lemma_run_counter(ledger, front, shorter);
        lemma_apply_counter(ledger.run(front), history.last());
    }
}

/// Identifiers are handed out in strictly increasing order: in any history of
/// calls, whatever else is done between them, deletions included, a later
/// listing gets a greater identifier than an earlier one. So no identifier
/// is ever returned twice.
pub proof fn lemma_listed_ids_increase(
    ledger: LedgerView,
    history: Seq<Command>,
    earlier: int,
    later: int,
)
    requires
        0 <= earlier < later < history.len(),
        ledger.run(history.take(earlier)).listed_id(history[earlier]) is Some,
        ledger.run(history.take(later)).listed_id(history[later]) is Some,
    ensures
        ledger.run(history.take(earlier)).listed_id(history[earlier])->0 < ledger.run(
            history.take(later),
        ).listed_id(history[later])->0,
{
    let before = ledger.run(history.take(earlier));
    let upto = history.take(earlier + 1);
    assert(upto.drop_last() =~= history.take(earlier));
    lemma_apply_counter(before, history[earlier]);
    let longer = history.take(later);
    assert(longer.take(earlier + 1) =~= upto);
    lemma_run_counter(ledger, longer, earlier + 1);
}

/// An identifier that a listing gets was never in use before: no state that
/// the history went through held a listing under it, deleted or not.
pub proof fn lemma_listed_id_is_new(
    ledger: LedgerView,
    history: Seq<Command>,
    at: int,
    before: int,
)
    requires
        ledger.wf(),
        0 <= before <= at < history.len(),
        ledger.run(history.take(at)).listed_id(history[at]) is Some,
    ensures
        !ledger.run(history.take(before)).items.contains_key(
            ledger.run(history.take(at)).listed_id(history[at])->0,
        ),
{
    let longer = history.take(at);
    assert(longer.take(before) =~= history.take(before));
    lemma_run_counter(ledger, longer, before);
    lemma_run_wf(ledger, history.take(before));
}

/// A bid is accepted exactly when the listing exists, the caller is not its
/// owner, it is active, and the amount exceeds its highest bid. Otherwise the
/// refusal names the first condition that fails, in this order: a missing
/// listing, the owner's own bid, a closed listing, an amount too low. So the
/// owner's bid on a closed listing is refused as the owner's own.
pub proof fn lemma_bid_outcome_cases(found: Option<ItemView>, caller: Seq<u8>, bid: BidBase)
    ensures
        bid_outcome(found, caller, bid) is Ok <==> {
            &&& found matches Some(item)
            &&& caller != item.owner
            &&& item.is_active
            &&& bid.bid_amount > item.highest_bid
        },
        bid_outcome(found, caller, bid) == Err::<ItemView, AuctionError>(AuctionError::NotFound)
            <==> found is None,
        bid_outcome(found, caller, bid) == Err::<ItemView, AuctionError>(AuctionError::SelfBid)
            <==> (found matches Some(item) && caller == item.owner),
        bid_outcome(found, caller, bid) == Err::<ItemView, AuctionError>(AuctionError::Inactive)
            <==> (found matches Some(item) && caller != item.owner && !item.is_active),
        bid_outcome(found, caller, bid) == Err::<ItemView, AuctionError>(AuctionError::BidTooLow)
            <==> (found matches Some(item) && caller != item.owner && item.is_active
            && bid.bid_amount <= item.highest_bid),
        bid_outcome(found, caller, bid) != Err::<ItemView, AuctionError>(
            AuctionError::Unauthorized,
        ),
{
}

/// At the ledger a bid is accepted exactly when the rules accept it and the
/// record of the listing can take one more bid; a bid that the rules refuse
/// is refused for their reason.
pub proof fn lemma_bid_result_cases(ledger: LedgerView, caller: Seq<u8>, id: u64, bid: BidBase)
    ensures
        ledger.bid_result(caller, id, bid) is Ok <==> {
            &&& ledger.items.contains_key(id)
            &&& caller != ledger.items[id].owner
            &&& ledger.items[id].is_active
            &&& bid.bid_amount > ledger.items[id].highest_bid
            &&& record_fits(ledger.items[id].with_bid(caller, bid))
        },
        bid_outcome(ledger.find(id), caller, bid) is Err ==> ledger.bid_result(caller, id, bid)
            == bid_outcome(ledger.find(id), caller, bid),
{
}

/// Wherever the record of the listing can take one more bid, a bid at the
/// ledger is accepted exactly when the listing exists, the caller is not its
/// owner, it is active, and the amount exceeds its highest bid; and each
/// refusal comes exactly with the first of these conditions that fails.
pub proof fn lemma_bid_accepted_iff(ledger: LedgerView, caller: Seq<u8>, id: u64, bid: BidBase)
    requires
        ledger.items.contains_key(id) ==> record_fits(ledger.items[id].with_bid(caller, bid)),
    ensures
        ledger.bid_result(caller, id, bid) is Ok <==> {
            &&& ledger.items.contains_key(id)
            &&& caller != ledger.items[id].owner
            &&& ledger.items[id].is_active
            &&& bid.bid_amount > ledger.items[id].highest_bid
        },
        ledger.bid_result(caller, id, bid) == Err::<ItemView, AuctionError>(
            AuctionError::NotFound,
        ) <==> !ledger.items.contains_key(id),
        ledger.bid_result(caller, id, bid) == Err::<ItemView, AuctionError>(AuctionError::SelfBid)
            <==> (ledger.items.contains_key(id) && caller == ledger.items[id].owner),
        ledger.bid_result(caller, id, bid) == Err::<ItemView, AuctionError>(
            AuctionError::Inactive,
        ) <==> (ledger.items.contains_key(id) && caller != ledger.items[id].owner
            && !ledger.items[id].is_active),
        ledger.bid_result(caller, id, bid) == Err::<ItemView, AuctionError>(
            AuctionError::BidTooLow,
        ) <==> (ledger.items.contains_key(id) && caller != ledger.items[id].owner
            && ledger.items[id].is_active && bid.bid_amount <= ledger.items[id].highest_bid),
{
}

/// After an accepted bid the highest bid is the amount of that bid, and the
/// history is one bid longer, ending in a bid of that amount by the caller.
/// Nothing else of the listing changes, and no other listing is touched.
pub proof fn lemma_accepted_bid(ledger: LedgerView, caller: Seq<u8>, id: u64, bid: BidBase)
    requires
        ledger.bid_result(caller, id, bid) is Ok,
    ensures
        ledger.bid(caller, id, bid).items.contains_key(id),
        ledger.bid(caller, id, bid).items[id].highest_bid == bid.bid_amount,
        ledger.bid(caller, id, bid).items[id].bids.len() == ledger.items[id].bids.len() + 1,
        ledger.bid(caller, id, bid).items[id].bids.last().bid_amount == bid.bid_amount,
        ledger.bid(caller, id, bid).items[id].bids.last().bidder == caller,
        ledger.bid(caller, id, bid).items[id].bids.drop_last() == ledger.items[id].bids,
        ledger.bid(caller, id, bid).items.remove(id) == ledger.items.remove(id),
        ledger.bid(caller, id, bid).next_id == ledger.next_id,
{
}

/// A refused call changes nothing, whatever the operation and the reason.
pub proof fn lemma_refusal_changes_nothing(ledger: LedgerView, command: Command)
    ensures
        match command {
            Command::List { caller, fields } => ledger.list_result(caller, fields) is None
                ==> ledger.apply(command) == ledger,
            Command::Edit { caller, id, fields } => ledger.edit_result(caller, id, fields) is Err
                ==> ledger.apply(command) == ledger,
            Command::Stop { caller, id } => ledger.stop_result(caller, id) is Err ==> ledger.apply(
                command,
            ) == ledger,
            Command::Delete { caller, id } => ledger.delete_result(caller, id) is Err
                ==> ledger.apply(command) == ledger,
            Command::Bid { caller, id, bid } => ledger.bid_result(caller, id, bid) is Err
                ==> ledger.apply(command) == ledger,
        },
{
}

/// An edit or a stop by anyone but the owner is refused as unauthorized and
/// leaves the ledger, and with it the stored listing, exactly as it was.
pub proof fn lemma_non_owner_cannot_change(
    ledger: LedgerView,
    caller: Seq<u8>,
    id: u64,
    fields: ItemBaseView,
)
    requires
        ledger.items.contains_key(id),
        caller != ledger.items[id].owner,
    ensures
        ledger.edit_result(caller, id, fields) == Err::<ItemView, AuctionError>(
            AuctionError::Unauthorized,
        ),
        ledger.stop_result(caller, id) == Err::<ItemView, AuctionError>(
            AuctionError::Unauthorized,
        ),
        ledger.edit(caller, id, fields) == ledger,
        ledger.stop(caller, id) == ledger,
{
}

/// A delete by the owner removes the listing, so that a lookup afterwards
/// finds nothing, and leaves every other listing alone. A delete by anyone
/// else is refused as unauthorized and leaves the listing retrievable and
/// unchanged.
pub proof fn lemma_delete_then_find(ledger: LedgerView, caller: Seq<u8>, id: u64)
    requires
        ledger.items.contains_key(id),
    ensures
        caller == ledger.items[id].owner ==> {
            &&& ledger.delete_result(caller, id) == Ok::<u64, AuctionError>(ledger.items[id].id)
            &&& ledger.delete(caller, id).find(id) is None
            &&& forall|other: u64|
                other != id ==> #[trigger] ledger.delete(caller, id).find(other) == ledger.find(
                    other,
                )
        },
        caller != ledger.items[id].owner ==> {
            &&& ledger.delete_result(caller, id) == Err::<u64, AuctionError>(
                AuctionError::Unauthorized,
            )
            &&& ledger.delete(caller, id) == ledger
            &&& ledger.delete(caller, id).find(id) == Some(ledger.items[id])
        },
{
}

/// A deleted identifier stays free: no later call brings a listing back
/// under it.
pub proof fn lemma_deleted_stays_deleted(
    ledger: LedgerView,
    caller: Seq<u8>,
    id: u64,
    history: Seq<Command>,
)
    requires
        ledger.wf(),
        ledger.delete_result(caller, id) is Ok,
    ensures
        ledger.delete(caller, id).run(history).find(id) is None,
    decreases history.len(),
{
    let start = ledger.delete(caller, id);
    lemma_delete_wf(ledger, caller, id);
    if history.len() > 0 {
        let front = history.drop_last();
        lemma_deleted_stays_deleted(ledger, caller, id, front);
        lemma_run_wf(start, front);
        lemma_run_counter(start, front, 0);
    }
}

/// The owner can open a stopped listing again by an edit: a bid that is
/// refused while the listing is stopped is accepted after the edit.
pub proof fn lemma_edit_reopens(
    ledger: LedgerView,
    owner: Seq<u8>,
    id: u64,
    fields: ItemBaseView,
    bidder: Seq<u8>,
    bid: BidBase,
)
    requires
        ledger.wf(),
        ledger.items.contains_key(id),
        ledger.items[id].owner == owner,
        fields.is_active,
        bidder != owner,
        bid.bid_amount > ledger.items[id].highest_bid,
        record_fits(ledger.items[id].edited(fields)),
        record_fits(ledger.items[id].edited(fields).with_bid(bidder, bid)),
    ensures
        ledger.stop(owner, id).bid_result(bidder, id, bid) == Err::<ItemView, AuctionError>(
            AuctionError::Inactive,
        ),
        ledger.stop(owner, id).edit(owner, id, fields).bid_result(bidder, id, bid) is Ok,
{
    lemma_stop_result(ledger, owner, id);
}

} // verus!
