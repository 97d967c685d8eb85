use auction_dapp_backend::codec::{decode_item, encode_item};
use auction_dapp_backend::identity::Identity;
use auction_dapp_backend::item::{Bid, Item};

fn plain() -> Item {
    Item {
        item_owner: Identity::new(vec![1, 7, 7]),
        id: 3,
        description: "lamp".to_string(),
        highest_bid: 0,
        latest_update: 9,
        result_date: 10,
        bid_vector: vec![],
        is_active: true,
    }
}

fn plain_bytes() -> Vec<u8> {
    let mut bytes = vec![];
    bytes.extend_from_slice(&[3, 0, 0, 0, 0, 0, 0, 0]);
    bytes.extend_from_slice(&[0, 0, 0, 0, 0, 0, 0, 0]);
    bytes.extend_from_slice(&[9, 0, 0, 0, 0, 0, 0, 0]);
    bytes.extend_from_slice(&[10, 0, 0, 0, 0, 0, 0, 0]);
    bytes.push(1);
    bytes.extend_from_slice(&[3, 0, 0, 0, 0, 0, 0, 0]);
    bytes.extend_from_slice(&[1, 7, 7]);
    bytes.extend_from_slice(&[4, 0, 0, 0, 0, 0, 0, 0]);
    bytes.extend_from_slice(&[0x6c, 0x61, 0x6d, 0x70]);
    bytes.extend_from_slice(&[0, 0, 0, 0, 0, 0, 0, 0]);
    bytes
}

fn with_bids() -> Item {
    Item {
        item_owner: Identity::new(vec![]),
        id: 0x0102_0304_0506_0708,
        description: "Gemälde, 1 m² — 絵".to_string(),
        highest_bid: 300,
        latest_update: u64::MAX,
        result_date: 1,
        bid_vector: vec![
            Bid {
                item_id: 0x0102_0304_0506_0708,
                bidder_principal: Identity::new(vec![5; 29]),
                bid_date: 2,
                bid_amount: 256,
            },
            Bid {
                item_id: 0x0102_0304_0506_0708,
                bidder_principal: Identity::new(vec![]),
                bid_date: 3,
                bid_amount: 300,
            },
        ],
        is_active: false,
    }
}

#[test]
fn a_record_has_the_documented_bytes() {
    assert_eq!(encode_item(&plain()), plain_bytes());
}

#[test]
fn a_record_with_bids_has_the_documented_bytes() {
    let item = Item {
        item_owner: Identity::new(vec![9]),
        id: 258,
        description: "é".to_string(),
        highest_bid: 5,
        latest_update: 0,
        result_date: 0,
        bid_vector: vec![Bid {
            item_id: 258,
            bidder_principal: Identity::new(vec![8, 8]),
            bid_date: 6,
            bid_amount: 5,
        }],
        is_active: false,
    };
    let mut bytes = vec![];
    bytes.extend_from_slice(&[2, 1, 0, 0, 0, 0, 0, 0]);
    bytes.extend_from_slice(&[5, 0, 0, 0, 0, 0, 0, 0]);
    bytes.extend_from_slice(&[0; 8]);
    bytes.extend_from_slice(&[0; 8]);
    bytes.push(0);
    bytes.extend_from_slice(&[1, 0, 0, 0, 0, 0, 0, 0, 9]);
    bytes.extend_from_slice(&[2, 0, 0, 0, 0, 0, 0, 0, 0xc3, 0xa9]);
    bytes.extend_from_slice(&[1, 0, 0, 0, 0, 0, 0, 0]);
    bytes.extend_from_slice(&[2, 1, 0, 0, 0, 0, 0, 0]);
    bytes.extend_from_slice(&[6, 0, 0, 0, 0, 0, 0, 0]);
    bytes.extend_from_slice(&[5, 0, 0, 0, 0, 0, 0, 0]);
    bytes.extend_from_slice(&[2, 0, 0, 0, 0, 0, 0, 0, 8, 8]);
    assert_eq!(encode_item(&item), bytes);
    assert_eq!(decode_item(&bytes), Some(item));
}

#[test]
fn reading_undoes_writing() {
    assert_eq!(decode_item(&encode_item(&plain())), Some(plain()));
    assert_eq!(decode_item(&encode_item(&with_bids())), Some(with_bids()));
    assert_eq!(decode_item(&plain_bytes()), Some(plain()));
}

#[test]
fn a_cut_record_is_not_read() {
    let bytes = encode_item(&with_bids());
    for cut in 0..bytes.len() {
        assert_eq!(decode_item(&bytes[..cut]), None);
    }
}

#[test]
fn bytes_behind_a_record_are_not_accepted() {
    let mut bytes = plain_bytes();
    bytes.push(0);
    assert_eq!(decode_item(&bytes), None);
}

#[test]
fn a_flag_other_than_zero_or_one_is_not_read() {
    let mut bytes = plain_bytes();
    assert_eq!(bytes[32], 1);
    bytes[32] = 2;
    assert_eq!(decode_item(&bytes), None);
    bytes[32] = 0;
    assert_eq!(decode_item(&bytes), Some(Item { is_active: false, ..plain() }));
}

#[test]
fn a_description_that_is_not_utf8_is_not_read() {
    let mut bytes = plain_bytes();
    let at = 33 + 8 + 3 + 8;
    assert_eq!(bytes[at], 0x6c);
    bytes[at] = 0xff;
    assert_eq!(decode_item(&bytes), None);
}

#[test]
fn a_length_beyond_the_record_is_not_read() {
    let mut bytes = plain_bytes();
    // The length of the owner, set to more than what follows.
    bytes[33] = 200;
    assert_eq!(decode_item(&bytes), None);
    bytes[33] = 3;
    bytes[40] = 0xff;
    assert_eq!(decode_item(&bytes), None);
    // A count of more bids than the record holds.
    let mut bytes = plain_bytes();
    let count = bytes.len() - 8;
    bytes[count] = 1;
    assert_eq!(decode_item(&bytes), None);
}
