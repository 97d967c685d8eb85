//! The rules of the auction on a single listing: what each operation makes of
//! the listing that a lookup found, for a given caller.
//!
//! Each rule is stated twice: once as a spec function on mathematical values,
//! and once as the executable function that the ledger calls, proved to
//! compute exactly that.

use crate::identity::{authorize, Identity};
use crate::item::{bids_view, Bid, BidView, Item, ItemView};
use vstd::prelude::*;

verus! {

/// Why an operation was refused.
#[derive(Clone, Copy, Debug, PartialEq, Eq)]
pub enum AuctionError {
    /// No listing has the given identifier.
    NotFound,
    /// The caller does not own the listing.
    Unauthorized,
    /// The owner tried to bid on their own listing.
    SelfBid,
    /// The listing no longer accepts bids.
    Inactive,
    /// The bid does not exceed the highest bid so far.
    BidTooLow,
    /// The listing would no longer fit a record of the store.
    TooLarge,
}

/// The fields of a listing that its owner chooses.
#[derive(Clone, Debug, PartialEq, Eq)]
pub struct ItemBase {
    pub description: String,
    pub result_date: u64,
    pub is_active: bool,
    pub latest_update: u64,
}

/// The fields of a bid that the bidder chooses.
#[derive(Clone, Copy, Debug, PartialEq, Eq)]
pub struct BidBase {
    pub bid_amount: u64,
    pub bid_date: u64,
}

/// The owner-chosen fields as mathematical values.
pub struct ItemBaseView {
    pub description: Seq<char>,
    pub result_date: u64,
    pub is_active: bool,
    pub latest_update: u64,
}

impl View for ItemBase {
    type V = ItemBaseView;

    open spec fn view(&self) -> ItemBaseView {
        ItemBaseView {
            description: self.description@,
            result_date: self.result_date,
            is_active: self.is_active,
            latest_update: self.latest_update,
        }
    }
}

impl ItemView {
    /// The listing with its owner-chosen fields replaced. Identifier, owner,
    /// highest bid and history stay as they are.
    pub open spec fn edited(self, fields: ItemBaseView) -> ItemView {
        ItemView {
            description: fields.description,
            result_date: fields.result_date,
            is_active: fields.is_active,
            latest_update: fields.latest_update,
            ..self
        }
    }

    /// The listing closed to further bids. Nothing else changes.
    pub open spec fn stopped(self) -> ItemView {
        ItemView { is_active: false, ..self }
    }

    /// Why a bid of `amount` by `caller` is refused, if it is. The checks
    /// come in a fixed order: the owner's own bid first, then a closed
    /// listing, then an amount that does not exceed the highest bid.
    pub open spec fn bid_refusal(self, caller: Seq<u8>, amount: u64) -> Option<AuctionError> {
        if caller == self.owner {
            Some(AuctionError::SelfBid)
        } else if !self.is_active {
            Some(AuctionError::Inactive)
        } else if amount <= self.highest_bid {
            Some(AuctionError::BidTooLow)
        } else {
            None
        }
    }

    /// The listing after a bid was accepted: the bid is appended to the
    /// history and its amount becomes the highest bid.
    pub open spec fn with_bid(self, caller: Seq<u8>, bid: BidBase) -> ItemView {
        ItemView {
            highest_bid: bid.bid_amount,
            bids: self.bids.push(
                BidView {
                    item_id: self.id,
                    bidder: caller,
                    bid_date: bid.bid_date,
                    bid_amount: bid.bid_amount,
                },
            ),
            ..self
        }
    }
}

/// What a lookup found, as a mathematical value.
pub open spec fn found_view(found: Option<Item>) -> Option<ItemView> {
    match found {
        Some(item) => Some(item@),
        None => None,
    }
}

/// The outcome of an operation that yields a listing, as a mathematical value.
pub open spec fn outcome_view(outcome: Result<Item, AuctionError>) -> Result<
    ItemView,
    AuctionError,
> {
    match outcome {
        Ok(item) => Ok(item@),
        Err(error) => Err(error),
    }
}

/// The outcome of an edit: the listing to store, or the refusal.
pub open spec fn edit_outcome(
    found: Option<ItemView>,
    caller: Seq<u8>,
    fields: ItemBaseView,
) -> Result<ItemView, AuctionError> {
    match found {
        None => Err(AuctionError::NotFound),
        Some(item) => if caller == item.owner {
            Ok(item.edited(fields))
        } else {
            Err(AuctionError::Unauthorized)
        },
    }
}

/// The outcome of a stop: the listing to store, or the refusal.
pub open spec fn stop_outcome(found: Option<ItemView>, caller: Seq<u8>) -> Result<
    ItemView,
    AuctionError,
> {
    match found {
        None => Err(AuctionError::NotFound),
        Some(item) => if caller == item.owner {
            Ok(item.stopped())
        } else {
            Err(AuctionError::Unauthorized)
        },
    }
}

/// The outcome of a delete: the identifier of the listing to remove, or the
/// refusal.
pub open spec fn delete_outcome(found: Option<ItemView>, caller: Seq<u8>) -> Result<
    u64,
    AuctionError,
> {
    match found {
        None => Err(AuctionError::NotFound),
        Some(item) => if caller == item.owner {
            Ok(item.id)
        } else {
            Err(AuctionError::Unauthorized)
        },
    }
}

/// The outcome of a bid: the listing to store, or the refusal.
pub open spec fn bid_outcome(found: Option<ItemView>, caller: Seq<u8>, bid: BidBase) -> Result<
    ItemView,
    AuctionError,
> {
    match found {
        None => Err(AuctionError::NotFound),
        Some(item) => match item.bid_refusal(caller, bid.bid_amount) {
            Some(error) => Err(error),
            None => Ok(item.with_bid(caller, bid)),
        },
    }
}

/// Editing keeps the invariants of a listing.
pub proof fn lemma_edited_wf(item: ItemView, fields: ItemBaseView)
    requires
        item.wf(),
    ensures
        item.edited(fields).wf(),
{
}

/// Stopping keeps the invariants of a listing.
pub proof fn lemma_stopped_wf(item: ItemView)
    requires
        item.wf(),
    ensures
        item.stopped().wf(),
{
}

/// An accepted bid keeps the invariants of a listing.
pub proof fn lemma_with_bid_wf(item: ItemView, caller: Seq<u8>, bid: BidBase)
    requires
        item.wf(),
        item.bid_refusal(caller, bid.bid_amount) is None,
    ensures
        item.with_bid(caller, bid).wf(),
{
}

/// Edits what a lookup found: `NotFound` without a listing, `Unauthorized`
/// for a caller who is not its owner, and otherwise the listing with the
/// owner-chosen fields replaced.
pub fn edit_found(found: Option<Item>, caller: &Identity, fields: ItemBase) -> (outcome: Result<
    Item,
    AuctionError,
>)
    ensures
        outcome_view(outcome) == edit_outcome(found_view(found), caller@, fields@),
{
    match found {
        None => Err(AuctionError::NotFound),
        Some(item) => {
            if !authorize(caller, &item.item_owner) {
                return Err(AuctionError::Unauthorized);
            }
            let mut item = item;
            item.description = fields.description;
            item.result_date = fields.result_date;
            item.is_active = fields.is_active;
            item.latest_update = fields.latest_update;
            Ok(item)
        },
    }
}

/// Stops what a lookup found: `NotFound` without a listing, `Unauthorized`
/// for a caller who is not its owner, and otherwise the listing closed to
/// bids.
pub fn stop_found(found: Option<Item>, caller: &Identity) -> (outcome: Result<Item, AuctionError>)
    ensures
        outcome_view(outcome) == stop_outcome(found_view(found), caller@),
{
    match found {
        None => Err(AuctionError::NotFound),
        Some(item) => {
            if !authorize(caller, &item.item_owner) {
                return Err(AuctionError::Unauthorized);
            }
            let mut item = item;
            item.is_active = false;
            Ok(item)
        },
    }
}

/// Decides a delete of what a lookup found: `NotFound` without a listing,
/// `Unauthorized` for a caller who is not its owner, and otherwise the
/// identifier of the listing to remove.
pub fn delete_found(found: &Option<Item>, caller: &Identity) -> (outcome: Result<u64, AuctionError>)
    ensures
        outcome == delete_outcome(found_view(*found), caller@),
{
    match found {
        None => Err(AuctionError::NotFound),
        Some(item) => {
            if !authorize(caller, &item.item_owner) {
                return Err(AuctionError::Unauthorized);
            }
            Ok(item.id)
        },
    }
}

/// Places a bid on what a lookup found: `NotFound` without a listing, then
/// `SelfBid`, `Inactive` and `BidTooLow` in that order, and otherwise the
/// listing with the bid appended and its amount as the highest bid.
pub fn bid_found(found: Option<Item>, caller: Identity, bid: BidBase) -> (outcome: Result<
    Item,
    AuctionError,
>)
    ensures
        outcome_view(outcome) == bid_outcome(found_view(found), caller@, bid),
{
    match found {
        None => Err(AuctionError::NotFound),
        Some(item) => {
            if authorize(&caller, &item.item_owner) {
                return Err(AuctionError::SelfBid);
            }
            if !item.is_active {
                return Err(AuctionError::Inactive);
            }
            if bid.bid_amount <= item.highest_bid {
                return Err(AuctionError::BidTooLow);
            }
            let ghost before = item@;
            let mut item = item;
            let new_bid = Bid {
                item_id: item.id,
                bidder_principal: caller,
                bid_date: bid.bid_date,
                bid_amount: bid.bid_amount,
            };
            item.highest_bid = new_bid.bid_amount;
            item.bid_vector.push(new_bid);
            assert(item@.bids =~= before.bids.push(new_bid@));
            Ok(item)
        },
    }
}

} // verus!
