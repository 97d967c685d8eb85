use auction_dapp_backend::identity::Identity;
use auction_dapp_backend::item::{Bid, Item};
use auction_dapp_backend::rules::{
    bid_found, delete_found, edit_found, stop_found, AuctionError, BidBase, ItemBase,
};

fn owner() -> Identity {
    Identity::new(vec![10])
}

fn other() -> Identity {
    Identity::new(vec![20])
}

fn sample() -> Item {
    Item {
        item_owner: owner(),
        id: 4,
        description: "kettle".to_string(),
        highest_bid: 70,
        latest_update: 5,
        result_date: 6,
        bid_vector: vec![Bid {
            item_id: 4,
            bidder_principal: other(),
            bid_date: 3,
            bid_amount: 70,
        }],
        is_active: true,
    }
}

fn fields() -> ItemBase {
    ItemBase { description: "copper kettle".to_string(), result_date: 8, is_active: false, latest_update: 9 }
}

#[test]
fn edit_found_decides_by_presence_and_owner() {
    assert_eq!(edit_found(None, &owner(), fields()), Err(AuctionError::NotFound));
    assert_eq!(edit_found(Some(sample()), &other(), fields()), Err(AuctionError::Unauthorized));
    assert_eq!(
        edit_found(Some(sample()), &owner(), fields()),
        Ok(Item {
            description: "copper kettle".to_string(),
            result_date: 8,
            is_active: false,
            latest_update: 9,
            ..sample()
        })
    );
}

#[test]
fn stop_found_decides_by_presence_and_owner() {
    assert_eq!(stop_found(None, &owner()), Err(AuctionError::NotFound));
    assert_eq!(stop_found(Some(sample()), &other()), Err(AuctionError::Unauthorized));
    assert_eq!(stop_found(Some(sample()), &owner()), Ok(Item { is_active: false, ..sample() }));
}

#[test]
fn delete_found_decides_by_presence_and_owner() {
    assert_eq!(delete_found(&None, &owner()), Err(AuctionError::NotFound));
    assert_eq!(delete_found(&Some(sample()), &other()), Err(AuctionError::Unauthorized));
    assert_eq!(delete_found(&Some(sample()), &owner()), Ok(4));
}

#[test]
fn bid_found_checks_in_order() {
    let bid = BidBase { bid_amount: 71, bid_date: 11 };
    let low = BidBase { bid_amount: 70, bid_date: 11 };
    let closed = Item { is_active: false, ..sample() };
    assert_eq!(bid_found(None, other(), bid), Err(AuctionError::NotFound));
    assert_eq!(bid_found(Some(sample()), owner(), bid), Err(AuctionError::SelfBid));
    assert_eq!(bid_found(Some(closed.clone()), owner(), low), Err(AuctionError::SelfBid));
    assert_eq!(bid_found(Some(closed), other(), low), Err(AuctionError::Inactive));
    assert_eq!(bid_found(Some(sample()), other(), low), Err(AuctionError::BidTooLow));

    let third = Identity::new(vec![30]);
    let mut expected = sample();
    expected.highest_bid = 71;
    expected.bid_vector.push(Bid {
        item_id: 4,
        bidder_principal: third.clone(),
        bid_date: 11,
        bid_amount: 71,
    });
    assert_eq!(bid_found(Some(sample()), third, bid), Ok(expected));
}

#[test]
fn well_formed_listings_are_told_from_the_others() {
    assert!(sample().is_well_formed());
    assert!(Item::new(owner(), 1, "new".to_string(), 2, true, 3).is_well_formed());

    let wrong_highest = Item { highest_bid: 71, ..sample() };
    assert!(!wrong_highest.is_well_formed());

    let mut own_bid = sample();
    own_bid.bid_vector[0].bidder_principal = owner();
    assert!(!own_bid.is_well_formed());

    let mut foreign_bid = sample();
    foreign_bid.bid_vector[0].item_id = 5;
    assert!(!foreign_bid.is_well_formed());

    let mut not_rising = sample();
    not_rising.bid_vector.push(Bid {
        item_id: 4,
        bidder_principal: other(),
        bid_date: 4,
        bid_amount: 70,
    });
    assert!(!not_rising.is_well_formed());

    let mut rising = sample();
    rising.highest_bid = 80;
    rising.bid_vector.push(Bid {
        item_id: 4,
        bidder_principal: other(),
        bid_date: 4,
        bid_amount: 80,
    });
    assert!(rising.is_well_formed());

    let no_bids_but_amount = Item { bid_vector: vec![], ..sample() };
    assert!(!no_bids_but_amount.is_well_formed());
}
