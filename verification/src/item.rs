//! Listings and bids, with the mathematical values that contracts speak of.

use crate::identity::Identity;
use vstd::prelude::*;

verus! {

/// An accepted offer, never changed once it is part of a history.
#[derive(Clone, Debug, PartialEq, Eq)]
pub struct Bid {
    /// The listing that the offer was made on.
    pub item_id: u64,
    /// Who made the offer.
    pub bidder_principal: Identity,
    /// When the offer was made, as the bidder reported it.
    pub bid_date: u64,
    /// The amount offered.
    pub bid_amount: u64,
}

/// An auction listing.
#[derive(Clone, Debug, PartialEq, Eq)]
pub struct Item {
    /// Who created the listing.
    pub item_owner: Identity,
    /// The identifier assigned at creation.
    pub id: u64,
    /// Free text chosen by the owner.
    pub description: String,
    /// The amount of the latest accepted bid, or zero before the first.
    pub highest_bid: u64,
    /// When the listing was last changed, as the caller reported it.
    pub latest_update: u64,
    /// When the auction is meant to close. Stored, never enforced.
    pub result_date: u64,
    /// Every accepted bid, oldest first.
    pub bid_vector: Vec<Bid>,
    /// Whether bids are still accepted.
    pub is_active: bool,
}

/// A bid as a mathematical value.
pub struct BidView {
    pub item_id: u64,
    pub bidder: Seq<u8>,
    pub bid_date: u64,
    pub bid_amount: u64,
}

/// A listing as a mathematical value.
pub struct ItemView {
    pub owner: Seq<u8>,
    pub id: u64,
    pub description: Seq<char>,
    pub highest_bid: u64,
    pub latest_update: u64,
    pub result_date: u64,
    pub bids: Seq<BidView>,
    pub is_active: bool,
}

impl View for Bid {
    type V = BidView;

    open spec fn view(&self) -> BidView {
        BidView {
            item_id: self.item_id,
            bidder: self.bidder_principal@,
            bid_date: self.bid_date,
            bid_amount: self.bid_amount,
        }
    }
}

/// The bids of a vector as mathematical values, in the same order.
pub open spec fn bids_view(bids: Seq<Bid>) -> Seq<BidView> {
    Seq::new(bids.len(), |i: int| bids[i]@)
}

impl View for Item {
    type V = ItemView;

    open spec fn view(&self) -> ItemView {
        ItemView {
            owner: self.item_owner@,
            id: self.id,
            description: self.description@,
            highest_bid: self.highest_bid,
            latest_update: self.latest_update,
            result_date: self.result_date,
            bids: bids_view(self.bid_vector@),
            is_active: self.is_active,
        }
    }
}

impl ItemView {
    /// The listing as it is created: no bids yet, highest bid zero.
    pub open spec fn fresh(
        owner: Seq<u8>,
        id: u64,
        description: Seq<char>,
        result_date: u64,
        is_active: bool,
        latest_update: u64,
    ) -> ItemView {
        ItemView {
            owner,
            id,
            description,
            highest_bid: 0,
            latest_update,
            result_date,
            bids: Seq::empty(),
            is_active,
        }
    }

    /// The amount that the history accounts for: that of its last bid, or
    /// zero when there is none.
    pub open spec fn last_amount(self) -> u64 {
        if self.bids.len() == 0 {
            0
        } else {
            self.bids.last().bid_amount
        }
    }

    /// The invariants of a listing: every bid targets this listing and comes
    /// from someone other than the owner, the amounts rise strictly in the
    /// order of acceptance, and the highest bid is the latest one.
    pub open spec fn wf(self) -> bool {
        &&& forall|i: int|
            0 <= i < self.bids.len() ==> {
                &&& (#[trigger] self.bids[i]).item_id == self.id
                &&& self.bids[i].bidder != self.owner
            }
        &&& forall|i: int, j: int|
            0 <= i < j < self.bids.len() ==> (#[trigger] self.bids[i]).bid_amount < (
            #[trigger] self.bids[j]).bid_amount
        &&& self.highest_bid == self.last_amount()
    }
}

impl Item {
    /// A new listing owned by `owner`, without bids.
    pub fn new(
        owner: Identity,
        id: u64,
        description: String,
        result_date: u64,
        is_active: bool,
        latest_update: u64,
    ) -> (item: Item)
        ensures
            item@ == ItemView::fresh(
                owner@,
                id,
                description@,
                result_date,
                is_active,
                latest_update,
            ),
            item@.wf(),
    {
        let item = Item {
            item_owner: owner,
            id,
            description,
            highest_bid: 0,
            latest_update,
            result_date,
            bid_vector: Vec::new(),
            is_active,
        };
        assert(item@.bids =~= Seq::empty());
        item
    }

    /// Checks the invariants of a listing on a value of unknown origin.
    pub fn is_well_formed(&self) -> (ok: bool)
        ensures
            ok == self@.wf(),
    {
        let ghost bids = self@.bids;
        let mut at: usize = 0;
        let mut last: u64 = 0;
        while at < self.bid_vector.len()
            invariant
                at <= self.bid_vector.len(),
                bids == self@.bids,
                bids.len() == self.bid_vector.len(),
                last == if at == 0 {
                    0
                } else {
                    bids[at - 1].bid_amount
                },
                forall|i: int|
                    0 <= i < at ==> (#[trigger] bids[i]).item_id == self.id && bids[i].bidder
                        != self@.owner,
                forall|i: int, j: int|
                    0 <= i < j < at ==> (#[trigger] bids[i]).bid_amount < (
                    #[trigger] bids[j]).bid_amount,
            decreases self.bid_vector.len() - at,
        {
            let bid = &self.bid_vector[at];
            assert(bids[at as int] == bid@);
            if bid.item_id != self.id || bid.bidder_principal.same_as(&self.item_owner) {
                return false;
            }
            if at > 0 && bid.bid_amount <= last {
                return false;
            }
            last = bid.bid_amount;
            at += 1;
        }
        self.highest_bid == last
    }
}

} // verus!
