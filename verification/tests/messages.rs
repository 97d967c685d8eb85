use auction_dapp_backend::auction::Auction;
use auction_dapp_backend::identity::Identity;
use auction_dapp_backend::message::{
    bid_confirmation, bid_refusal, decimal_string, delete_confirmation, delete_refusal,
    edit_refusal, stop_refusal,
};
use auction_dapp_backend::rules::{AuctionError, ItemBase};
use candid::Principal;

#[test]
fn numbers_are_written_in_decimal() {
    assert_eq!(decimal_string(0), "0");
    assert_eq!(decimal_string(7), "7");
    assert_eq!(decimal_string(10), "10");
    assert_eq!(decimal_string(109), "109");
    assert_eq!(decimal_string(1234567890), "1234567890");
    assert_eq!(decimal_string(u64::MAX), "18446744073709551615");
}

#[test]
fn confirmations_name_the_listing() {
    assert_eq!(delete_confirmation(12), "Item with id 12 removed successfully");
    assert_eq!(bid_confirmation(0), "Successfully bidded for item 0");
    assert_eq!(bid_confirmation(9001), "Successfully bidded for item 9001");
}

#[test]
fn a_refused_edit_tells_a_missing_listing_from_a_foreign_one() {
    assert_eq!(
        edit_refusal(AuctionError::NotFound),
        "Item could not be edited. Most probably, could not be found"
    );
    assert_eq!(edit_refusal(AuctionError::Unauthorized), "You are not authorized to edit this item.");
}

#[test]
fn a_listing_too_large_is_reported_as_such() {
    let text = "Item is too large to be stored.";
    assert_eq!(edit_refusal(AuctionError::TooLarge), text);
    assert_eq!(stop_refusal(AuctionError::TooLarge), text);
    assert_eq!(delete_refusal(AuctionError::TooLarge, "aaaaa-aa"), text);
    assert_eq!(bid_refusal(AuctionError::TooLarge), text);
}

#[test]
fn a_refused_stop_tells_a_missing_listing_from_a_foreign_one() {
    assert_eq!(
        stop_refusal(AuctionError::NotFound),
        "Item could not be edited. Most probably, could not be found."
    );
    assert_eq!(stop_refusal(AuctionError::Unauthorized), "You are not authorized to edit this item.");
}

#[test]
fn a_refused_delete_names_the_owner() {
    assert_eq!(delete_refusal(AuctionError::NotFound, "2vxsx-fae"), "Item could not be found.");
    assert_eq!(
        delete_refusal(AuctionError::Unauthorized, "2vxsx-fae"),
        "You are not authorized to remove this item. The owner is: 2vxsx-fae"
    );
}

#[test]
fn a_refused_bid_reports_its_reason() {
    assert_eq!(bid_refusal(AuctionError::NotFound), "Item could not be found.");
    assert_eq!(bid_refusal(AuctionError::SelfBid), "You cannot bid for you own item");
    assert_eq!(bid_refusal(AuctionError::Inactive), "The selected item is not actively listed.");
    assert_eq!(
        bid_refusal(AuctionError::BidTooLow),
        "Your bid cannot be lower than the current highest bid."
    );
}

#[test]
fn an_identity_has_the_text_of_its_principal() {
    assert_eq!(Identity::new(vec![]).to_text(), Some("aaaaa-aa".to_string()));
    assert_eq!(Identity::new(vec![4]).to_text(), Some("2vxsx-fae".to_string()));
    let bytes = vec![0, 0, 0, 0, 0, 0, 0, 1, 1, 1];
    assert_eq!(
        Identity::new(bytes.clone()).to_text(),
        Some(Principal::from_slice(&bytes).to_text())
    );
    assert!(Identity::new(vec![1; 29]).to_text().is_some());
    assert_eq!(Identity::new(vec![1; 30]).to_text(), None);
}

#[test]
fn a_refused_delete_names_the_owner_of_the_listing() {
    let mut auction = Auction::open().unwrap();
    let owner = Identity::new(vec![4]);
    let other = Identity::new(vec![]);
    let fields = ItemBase {
        description: "globe".to_string(),
        result_date: 1,
        is_active: true,
        latest_update: 2,
    };
    let id = auction.list_item(owner, fields).unwrap().id;
    let error = auction.delete_item(&other, id).unwrap_err();
    assert_eq!(error, AuctionError::Unauthorized);
    assert_eq!(
        auction.delete_refusal(id, error),
        "You are not authorized to remove this item. The owner is: 2vxsx-fae"
    );
    let error = auction.delete_item(&other, id + 1).unwrap_err();
    assert_eq!(auction.delete_refusal(id + 1, error), "Item could not be found.");
}
