use auction_dapp_backend::auction::Auction;
use auction_dapp_backend::counter::{get_and_inc_current_id, IdCounter};
use auction_dapp_backend::identity::Identity;
use auction_dapp_backend::item::{Bid, Item};
use auction_dapp_backend::rules::{BidBase, ItemBase};
use auction_dapp_backend::stable::StableMemory;
use auction_dapp_backend::codec::fits_record;
use auction_dapp_backend::store::ItemStore;

fn listing(id: u64, description: &str) -> Item {
    Item::new(Identity::new(vec![1]), id, description.to_string(), 10, true, 20)
}

#[test]
fn the_counter_returns_its_value_and_advances_by_one() {
    let mut memory = StableMemory::open();
    let mut counter = IdCounter::open(memory.region(1).unwrap());
    assert_eq!(counter.peek(), 0);
    assert_eq!(get_and_inc_current_id(&mut counter), 0);
    assert_eq!(counter.peek(), 1);
    assert_eq!(get_and_inc_current_id(&mut counter), 1);
    assert_eq!(get_and_inc_current_id(&mut counter), 2);
    assert_eq!(counter.peek(), 3);
    assert_eq!(counter.allocate(), Some(3));
    assert_eq!(counter.allocate(), Some(4));
    assert_eq!(counter.peek(), 5);
}

#[test]
fn the_counter_is_kept_in_its_region() {
    let mut memory = StableMemory::open();
    let mut counter = IdCounter::open(memory.region(1).unwrap());
    assert_eq!(counter.allocate(), Some(0));
    assert_eq!(counter.allocate(), Some(1));
    let mut again = IdCounter::open(counter.into_region());
    assert_eq!(again.peek(), 2);
    assert_eq!(again.allocate(), Some(2));
    let elsewhere = IdCounter::open(memory.region(2).unwrap());
    assert_eq!(elsewhere.peek(), 0);
}

#[test]
fn the_last_value_of_the_counter_is_never_handed_out() {
    let mut memory = StableMemory::open();
    let mut counter = IdCounter::starting_at(memory.region(1).unwrap(), u64::MAX - 2);
    assert_eq!(counter.allocate(), Some(u64::MAX - 2));
    assert_eq!(counter.allocate(), Some(u64::MAX - 1));
    assert_eq!(counter.peek(), u64::MAX);
    assert_eq!(counter.allocate(), None);
    assert_eq!(counter.allocate(), None);
    assert_eq!(counter.peek(), u64::MAX);
}

#[test]
fn nothing_is_listed_once_the_identifiers_are_used_up() {
    let mut memory = StableMemory::open();
    let store = ItemStore::open(memory.region(0).unwrap()).unwrap();
    let ids = IdCounter::starting_at(memory.region(1).unwrap(), u64::MAX - 1);
    let mut auction = Auction::new(store, ids).unwrap();
    let a = Identity::new(vec![1]);
    let fields = ItemBase {
        description: "last".to_string(),
        result_date: 1,
        is_active: true,
        latest_update: 2,
    };
    let last = auction.list_item(a.clone(), fields.clone()).unwrap();
    assert_eq!(last.id, u64::MAX - 1);
    assert_eq!(auction.list_item(a.clone(), fields.clone()), None);
    assert_eq!(auction.get_all_items().len(), 1);
    assert_eq!(auction.delete_item(&a, last.id), Ok(last.id));
    assert_eq!(auction.list_item(a, fields), None);
    assert!(auction.get_all_items().is_empty());
}

#[test]
fn a_counter_that_starts_elsewhere_keeps_its_stored_value() {
    let mut memory = StableMemory::open();
    let mut counter = IdCounter::starting_at(memory.region(1).unwrap(), 10);
    assert_eq!(counter.allocate(), Some(10));
    let counter = IdCounter::starting_at(counter.into_region(), 500);
    assert_eq!(counter.peek(), 11);
}

#[test]
fn there_is_no_region_255() {
    let mut memory = StableMemory::open();
    assert!(memory.region(255).is_none());
    assert!(memory.region(254).is_some());
    assert!(memory.region(0).is_some());
}

#[test]
fn a_region_is_handed_out_once() {
    let mut memory = StableMemory::open();
    assert!(!memory.is_taken(0));
    let region = memory.region(0).unwrap();
    assert!(memory.is_taken(0));
    assert!(memory.region(0).is_none());
    assert!(!memory.is_taken(1));
    assert!(memory.region(1).is_some());
    assert!(memory.region(1).is_none());
    // The region stays taken while a structure lives in it, and after.
    let store = ItemStore::open(region).unwrap();
    assert!(memory.region(0).is_none());
    let region = store.into_region();
    assert!(memory.region(0).is_none());
    assert!(ItemStore::open(region).is_some());
    assert!(!memory.is_taken(255));
}

#[test]
fn a_region_given_to_another_structure_starts_anew() {
    let mut memory = StableMemory::open();
    let mut store = ItemStore::open(memory.region(0).unwrap()).unwrap();
    store.insert(1, &listing(1, "lost"));
    let mut counter = IdCounter::starting_at(store.into_region(), 7);
    assert_eq!(counter.allocate(), Some(7));
    let store = ItemStore::open(counter.into_region()).unwrap();
    assert_eq!(store.enumerate(), vec![]);
}

#[test]
fn the_store_returns_what_was_stored_under_a_key() {
    let mut memory = StableMemory::open();
    let mut store = ItemStore::open(memory.region(0).unwrap()).unwrap();
    assert_eq!(store.get(7), None);
    assert_eq!(store.insert(7, &listing(7, "seven")), None);
    assert_eq!(store.get(7), Some(listing(7, "seven")));
    assert_eq!(store.get(8), None);
    assert_eq!(store.insert(7, &listing(7, "seven again")), Some(listing(7, "seven")));
    assert_eq!(store.get(7), Some(listing(7, "seven again")));
    assert_eq!(store.insert(8, &listing(8, "eight")), None);
    assert_eq!(store.get(7), Some(listing(7, "seven again")));
    assert_eq!(store.remove(7), Some(listing(7, "seven again")));
    assert_eq!(store.get(7), None);
    assert_eq!(store.remove(7), None);
    assert_eq!(store.get(8), Some(listing(8, "eight")));
}

#[test]
fn a_listing_that_fits_is_stored_by_try_insert() {
    let mut memory = StableMemory::open();
    let mut store = ItemStore::open(memory.region(0).unwrap()).unwrap();
    let long = listing(1, &"x".repeat(100_000));
    assert!(fits_record(&long));
    assert_eq!(store.try_insert(1, &long), Ok(None));
    assert_eq!(store.try_insert(1, &listing(1, "short")), Ok(Some(long)));
    assert_eq!(store.get(1), Some(listing(1, "short")));
}

#[test]
fn the_store_lists_its_entries_in_ascending_order_of_the_keys() {
    let mut memory = StableMemory::open();
    let mut store = ItemStore::open(memory.region(0).unwrap()).unwrap();
    assert_eq!(store.enumerate(), vec![]);
    for key in [40u64, 3, 1000, 0, u64::MAX, 256, 255] {
        store.insert(key, &listing(key, "x"));
    }
    store.remove(1000);
    let keys: Vec<u64> = store.enumerate().into_iter().map(|entry| entry.0).collect();
    assert_eq!(keys, vec![0, 3, 40, 255, 256, u64::MAX]);
    for (key, item) in store.enumerate() {
        assert_eq!(item, listing(key, "x"));
    }
}

#[test]
fn the_store_is_kept_in_its_region() {
    let mut memory = StableMemory::open();
    let mut store = ItemStore::open(memory.region(0).unwrap()).unwrap();
    store.insert(1, &listing(1, "kept"));
    store.insert(2, &listing(2, "kept too"));
    store.remove(2);
    let store = ItemStore::open(store.into_region()).unwrap();
    assert_eq!(store.get(1), Some(listing(1, "kept")));
    let elsewhere = ItemStore::open(memory.region(3).unwrap()).unwrap();
    assert_eq!(elsewhere.get(1), None);
}

#[test]
fn a_ledger_is_found_again_where_it_was_kept() {
    let mut memory = StableMemory::open();
    let a = Identity::new(vec![1]);
    let b = Identity::new(vec![2]);
    let store = ItemStore::open(memory.region(0).unwrap()).unwrap();
    let ids = IdCounter::open(memory.region(1).unwrap());
    let mut auction = Auction::new(store, ids).unwrap();
    let fields = ItemBase {
        description: "kept".to_string(),
        result_date: 1,
        is_active: true,
        latest_update: 2,
    };
    auction.list_item(a.clone(), fields.clone()).unwrap();
    let id = auction.list_item(a.clone(), fields).unwrap().id;
    auction.bid_for_an_item(b.clone(), id, BidBase { bid_amount: 9, bid_date: 3 }).unwrap();
    auction.delete_item(&a, 0).unwrap();
    let before = auction.get_item(id).unwrap();

    let (store, ids) = auction.into_parts();
    assert_eq!(store.get(id), Some(before.clone()));
    assert_eq!(ids.peek(), 2);
    let store = ItemStore::open(store.into_region()).unwrap();
    let ids = IdCounter::open(ids.into_region());
    let mut auction = Auction::new(store, ids).unwrap();
    assert_eq!(auction.get_item(id), Some(before));
    assert_eq!(auction.get_item(0), None);
    let fields = ItemBase {
        description: "next".to_string(),
        result_date: 1,
        is_active: true,
        latest_update: 2,
    };
    assert_eq!(auction.list_item(a, fields).unwrap().id, 2);
}

#[test]
fn a_ledger_is_refused_when_a_listing_breaks_its_invariants() {
    // A listing stored under another key than its identifier.
    let mut memory = StableMemory::open();
    let mut store = ItemStore::open(memory.region(0).unwrap()).unwrap();
    let mut ids = IdCounter::open(memory.region(1).unwrap());
    for _ in 0..10 {
        ids.allocate();
    }
    store.insert(4, &listing(5, "misplaced"));
    assert!(Auction::new(store, ids).is_none());

    // A listing with an identifier that the counter has not reached.
    let mut memory = StableMemory::open();
    let mut store = ItemStore::open(memory.region(0).unwrap()).unwrap();
    let ids = IdCounter::open(memory.region(1).unwrap());
    store.insert(0, &listing(0, "early"));
    assert!(Auction::new(store, ids).is_none());

    // A listing whose highest bid is not that of its history.
    let mut memory = StableMemory::open();
    let mut store = ItemStore::open(memory.region(0).unwrap()).unwrap();
    let mut ids = IdCounter::open(memory.region(1).unwrap());
    ids.allocate();
    let mut broken = listing(0, "broken");
    broken.bid_vector.push(Bid {
        item_id: 0,
        bidder_principal: Identity::new(vec![2]),
        bid_date: 1,
        bid_amount: 5,
    });
    store.insert(0, &broken);
    assert!(Auction::new(store, ids).is_none());

    // The same listing with its highest bid set right.
    let mut memory = StableMemory::open();
    let mut store = ItemStore::open(memory.region(0).unwrap()).unwrap();
    let mut ids = IdCounter::open(memory.region(1).unwrap());
    ids.allocate();
    broken.highest_bid = 5;
    store.insert(0, &broken);
    let auction = Auction::new(store, ids).unwrap();
    assert_eq!(auction.get_item(0), Some(broken));
}
