//! The byte form in which a listing is kept in durable storage.
//!
//! A record is a sequence of fields. A number is eight bytes, least
//! significant first; a flag is one byte, zero or one; a byte string is its
//! length as a number followed by its bytes; text is the byte string of its
//! UTF-8 form; a history is the number of its bids followed by the bids.
//!
//! `item_bytes` says what the record of a listing is, `parse_item` reads one
//! back, and `lemma_parse_item_bytes` shows that reading undoes writing.

use crate::identity::Identity;
use crate::item::{bids_view, Bid, BidView, Item, ItemView};
use crate::text::string_from_utf8;
use vstd::bytes::*;
use vstd::prelude::*;
use vstd::slice::*;
use vstd::string::*;
use vstd::utf8::*;

verus! {

/// The record form of a number.
pub open spec fn u64_bytes(x: u64) -> Seq<u8> {
    spec_u64_to_le_bytes(x)
}

/// The record form of a flag.
pub open spec fn flag_bytes(flag: bool) -> Seq<u8> {
    seq![if flag { 1u8 } else { 0u8 }]
}

/// The record form of a byte string.
pub open spec fn blob_bytes(blob: Seq<u8>) -> Seq<u8> {
    u64_bytes(blob.len() as u64) + blob
}

/// The record form of a bid.
pub open spec fn bid_bytes(bid: BidView) -> Seq<u8> {
    u64_bytes(bid.item_id) + u64_bytes(bid.bid_date) + u64_bytes(bid.bid_amount) + blob_bytes(
        bid.bidder,
    )
}

/// The record forms of the bids of a history, one after the other.
pub open spec fn bids_bytes(bids: Seq<BidView>) -> Seq<u8>
    decreases bids.len(),
{
    if bids.len() == 0 {
        Seq::empty()
    } else {
        bids_bytes(bids.drop_last()) + bid_bytes(bids.last())
    }
}

/// The record form of a listing.
pub open spec fn item_bytes(item: ItemView) -> Seq<u8> {
    u64_bytes(item.id) + u64_bytes(item.highest_bid) + u64_bytes(item.latest_update) + u64_bytes(
        item.result_date,
    ) + flag_bytes(item.is_active) + blob_bytes(item.owner) + blob_bytes(
        encode_utf8(item.description),
    ) + u64_bytes(item.bids.len() as u64) + bids_bytes(item.bids)
}

/// The greatest length of a record: the store keeps the length of a value in
/// four bytes.
pub const MAX_RECORD_BYTES: u64 = 0xFFFF_FFFF;

/// Whether the record of the listing is short enough to be stored.
pub open spec fn record_fits(item: ItemView) -> bool {
    item_bytes(item).len() <= MAX_RECORD_BYTES
}

/// Whether every length in the listing fits the eight bytes that a record
/// gives it. Every listing held in memory does.
pub open spec fn recordable(item: ItemView) -> bool {
    &&& item.owner.len() <= u64::MAX
    &&& encode_utf8(item.description).len() <= u64::MAX
    &&& item.bids.len() <= u64::MAX
    &&& forall|i: int| 0 <= i < item.bids.len() ==> (#[trigger] item.bids[i]).bidder.len() <= u64::MAX
}

/// Reads a number at `at`: the number and the position behind it.
pub open spec fn parse_u64(bytes: Seq<u8>, at: int) -> Option<(u64, int)> {
    if 0 <= at && at + 8 <= bytes.len() {
        Some((spec_u64_from_le_bytes(bytes.subrange(at, at + 8)), at + 8))
    } else {
        None
    }
}

/// Reads a flag at `at`.
pub open spec fn parse_flag(bytes: Seq<u8>, at: int) -> Option<(bool, int)> {
    if 0 <= at < bytes.len() && bytes[at] <= 1 {
        Some((bytes[at] == 1, at + 1))
    } else {
        None
    }
}

/// Reads a byte string at `at`.
pub open spec fn parse_blob(bytes: Seq<u8>, at: int) -> Option<(Seq<u8>, int)> {
    match parse_u64(bytes, at) {
        Some((len, start)) => if start + len <= bytes.len() {
            Some((bytes.subrange(start, start + len), start + len))
        } else {
            None
        },
        None => None,
    }
}

/// Reads a bid at `at`.
pub open spec fn parse_bid(bytes: Seq<u8>, at: int) -> Option<(BidView, int)> {
    match parse_u64(bytes, at) {
        Some((item_id, pos1)) => match parse_u64(bytes, pos1) {
            Some((bid_date, pos2)) => match parse_u64(bytes, pos2) {
                Some((bid_amount, pos3)) => match parse_blob(bytes, pos3) {
                    Some((bidder, pos4)) => Some(
                        (BidView { item_id, bidder, bid_date, bid_amount }, pos4),
                    ),
                    None => None,
                },
                None => None,
            },
            None => None,
        },
        None => None,
    }
}

/// Reads `count` bids, one after the other, starting at `at`.
pub open spec fn parse_bids(bytes: Seq<u8>, at: int, count: nat) -> Option<(Seq<BidView>, int)>
    decreases count,
{
    if count == 0 {
        Some((Seq::empty(), at))
    } else {
        match parse_bid(bytes, at) {
            Some((bid, next)) => match parse_bids(bytes, next, (count - 1) as nat) {
                Some((rest, end)) => Some((seq![bid] + rest, end)),
                None => None,
            },
            None => None,
        }
    }
}

/// The fields of a listing that come before its history.
pub struct ItemHead {
    pub id: u64,
    pub highest_bid: u64,
    pub latest_update: u64,
    pub result_date: u64,
    pub is_active: bool,
    pub owner: Seq<u8>,
    pub description: Seq<char>,
}

/// Reads the fields that come before the history, from the start.
pub open spec fn parse_head(bytes: Seq<u8>) -> Option<(ItemHead, int)> {
    match parse_u64(bytes, 0) {
        Some((id, pos1)) => match parse_u64(bytes, pos1) {
            Some((highest_bid, pos2)) => match parse_u64(bytes, pos2) {
                Some((latest_update, pos3)) => match parse_u64(bytes, pos3) {
                    Some((result_date, pos4)) => match parse_flag(bytes, pos4) {
                        Some((is_active, pos5)) => match parse_blob(bytes, pos5) {
                            Some((owner, pos6)) => match parse_blob(bytes, pos6) {
                                Some((text, pos7)) => if valid_utf8(text) {
                                    Some(
                                        (
                                            ItemHead {
                                                id,
                                                highest_bid,
                                                latest_update,
                                                result_date,
                                                is_active,
                                                owner,
                                                description: decode_utf8(text),
                                            },
                                            pos7,
                                        ),
                                    )
                                } else {
                                    None
                                },
                                None => None,
                            },
                            None => None,
                        },
                        None => None,
                    },
                    None => None,
                },
                None => None,
            },
            None => None,
        },
        None => None,
    }
}

/// Reads a whole record: the listing it holds, if it is the record of one.
pub open spec fn parse_item(bytes: Seq<u8>) -> Option<ItemView> {
    match parse_head(bytes) {
        Some((head, pos1)) => match parse_u64(bytes, pos1) {
            Some((count, pos2)) => match parse_bids(bytes, pos2, count as nat) {
                Some((bids, end)) => if end == bytes.len() {
                    Some(
                        ItemView {
                            owner: head.owner,
                            id: head.id,
                            description: head.description,
                            highest_bid: head.highest_bid,
                            latest_update: head.latest_update,
                            result_date: head.result_date,
                            bids,
                            is_active: head.is_active,
                        },
                    )
                } else {
                    None
                },
                None => None,
            },
            None => None,
        },
        None => None,
    }
}

/// Whether `part` stands in `bytes` at position `at`.
pub open spec fn holds_at(bytes: Seq<u8>, at: int, part: Seq<u8>) -> bool {
    &&& 0 <= at
    &&& at + part.len() <= bytes.len()
    &&& bytes.subrange(at, at + part.len()) == part
}

proof fn lemma_holds_at_split(bytes: Seq<u8>, at: int, left: Seq<u8>, right: Seq<u8>)
    requires
        holds_at(bytes, at, left + right),
    ensures
        holds_at(bytes, at, left),
        holds_at(bytes, at + left.len(), right),
{
    let whole = left + right;
    assert(bytes.subrange(at, at + left.len()) =~= whole.subrange(0, left.len() as int));
    assert(whole.subrange(0, left.len() as int) =~= left);
    assert(bytes.subrange(at + left.len(), at + left.len() + right.len()) =~= whole.subrange(
        left.len() as int,
        whole.len() as int,
    ));
    assert(whole.subrange(left.len() as int, whole.len() as int) =~= right);
}

proof fn lemma_parse_u64_bytes(bytes: Seq<u8>, at: int, x: u64)
    requires
        holds_at(bytes, at, u64_bytes(x)),
    ensures
        u64_bytes(x).len() == 8,
        parse_u64(bytes, at) == Some((x, at + 8)),
{
    lemma_auto_spec_u64_to_from_le_bytes();
}

proof fn lemma_parse_flag_bytes(bytes: Seq<u8>, at: int, flag: bool)
    requires
        holds_at(bytes, at, flag_bytes(flag)),
    ensures
        parse_flag(bytes, at) == Some((flag, at + 1)),
{
    assert(bytes.subrange(at, at + 1)[0] == flag_bytes(flag)[0]);
}

proof fn lemma_parse_blob_bytes(bytes: Seq<u8>, at: int, blob: Seq<u8>)
    requires
        holds_at(bytes, at, blob_bytes(blob)),
        blob.len() <= u64::MAX,
    ensures
        blob_bytes(blob).len() == 8 + blob.len(),
        parse_blob(bytes, at) == Some((blob, at + 8 + blob.len())),
{
    lemma_auto_spec_u64_to_from_le_bytes();
    lemma_holds_at_split(bytes, at, u64_bytes(blob.len() as u64), blob);
    lemma_parse_u64_bytes(bytes, at, blob.len() as u64);
}

proof fn lemma_parse_bid_bytes(bytes: Seq<u8>, at: int, bid: BidView)
    requires
        holds_at(bytes, at, bid_bytes(bid)),
        bid.bidder.len() <= u64::MAX,
    ensures
        bid_bytes(bid).len() == 32 + bid.bidder.len(),
        parse_bid(bytes, at) == Some((bid, at + 32 + bid.bidder.len())),
{
    lemma_auto_spec_u64_to_from_le_bytes();
    let a = u64_bytes(bid.item_id);
    let b = u64_bytes(bid.bid_date);
    let c = u64_bytes(bid.bid_amount);
    let d = blob_bytes(bid.bidder);
    lemma_holds_at_split(bytes, at, a + b + c, d);
    lemma_holds_at_split(bytes, at, a + b, c);
    lemma_holds_at_split(bytes, at, a, b);
    lemma_parse_u64_bytes(bytes, at, bid.item_id);
    lemma_parse_u64_bytes(bytes, at + 8, bid.bid_date);
    lemma_parse_u64_bytes(bytes, at + 16, bid.bid_amount);
    lemma_parse_blob_bytes(bytes, at + 24, bid.bidder);
}

/// The record of a history that is extended at the front.
proof fn lemma_bids_bytes_front(bids: Seq<BidView>)
    requires
        bids.len() > 0,
    ensures
        bids_bytes(bids) == bid_bytes(bids[0]) + bids_bytes(bids.drop_first()),
    decreases bids.len(),
{
    if bids.len() == 1 {
        assert(bids_bytes(bids.drop_last()) =~= Seq::<u8>::empty());
    } else {
        let front = bids.drop_last();
        lemma_bids_bytes_front(front);
        assert(front.drop_first() =~= bids.drop_first().drop_last());
    }
}

proof fn lemma_parse_bids_bytes(bytes: Seq<u8>, at: int, bids: Seq<BidView>)
    requires
        holds_at(bytes, at, bids_bytes(bids)),
        forall|i: int| 0 <= i < bids.len() ==> (#[trigger] bids[i]).bidder.len() <= u64::MAX,
    ensures
        parse_bids(bytes, at, bids.len()) == Some((bids, at + bids_bytes(bids).len())),
    decreases bids.len(),
{
    if bids.len() > 0 {
        let rest = bids.drop_first();
        lemma_bids_bytes_front(bids);
        lemma_holds_at_split(bytes, at, bid_bytes(bids[0]), bids_bytes(rest));
        lemma_parse_bid_bytes(bytes, at, bids[0]);
        lemma_parse_bids_bytes(bytes, at + bid_bytes(bids[0]).len(), rest);
    }
}

/// The length of a record depends on the owner, the description and the
/// history of the listing alone.
pub proof fn lemma_item_bytes_len(a: ItemView, b: ItemView)
    requires
        a.owner == b.owner,
        a.description == b.description,
        a.bids == b.bids,
    ensures
        item_bytes(a).len() == item_bytes(b).len(),
{
    lemma_auto_spec_u64_to_from_le_bytes();
}

/// Reading undoes writing: the record of a listing is read back as that
/// listing.
pub proof fn lemma_parse_item_bytes(item: ItemView)
    requires
        recordable(item),
    ensures
        parse_item(item_bytes(item)) == Some(item),
{
    broadcast use encode_utf8_valid_utf8, encode_utf8_decode_utf8;

    lemma_auto_spec_u64_to_from_le_bytes();
    let bytes = item_bytes(item);
    let f1 = u64_bytes(item.id);
    let f2 = u64_bytes(item.highest_bid);
    let f3 = u64_bytes(item.latest_update);
    let f4 = u64_bytes(item.result_date);
    let f5 = flag_bytes(item.is_active);
    let f6 = blob_bytes(item.owner);
    let text = encode_utf8(item.description);
    let f7 = blob_bytes(text);
    let f8 = u64_bytes(item.bids.len() as u64);
    let f9 = bids_bytes(item.bids);
    assert(bytes.subrange(0, bytes.len() as int) =~= bytes);
    lemma_holds_at_split(bytes, 0, f1 + f2 + f3 + f4 + f5 + f6 + f7 + f8, f9);
    lemma_holds_at_split(bytes, 0, f1 + f2 + f3 + f4 + f5 + f6 + f7, f8);
    lemma_holds_at_split(bytes, 0, f1 + f2 + f3 + f4 + f5 + f6, f7);
    lemma_holds_at_split(bytes, 0, f1 + f2 + f3 + f4 + f5, f6);
    lemma_holds_at_split(bytes, 0, f1 + f2 + f3 + f4, f5);
    lemma_holds_at_split(bytes, 0, f1 + f2 + f3, f4);
    lemma_holds_at_split(bytes, 0, f1 + f2, f3);
    lemma_holds_at_split(bytes, 0, f1, f2);
    lemma_parse_u64_bytes(bytes, 0, item.id);
    lemma_parse_u64_bytes(bytes, 8, item.highest_bid);
    lemma_parse_u64_bytes(bytes, 16, item.latest_update);
    lemma_parse_u64_bytes(bytes, 24, item.result_date);
    lemma_parse_flag_bytes(bytes, 32, item.is_active);
    lemma_parse_blob_bytes(bytes, 33, item.owner);
    let pos6 = 41 + item.owner.len() as int;
    lemma_parse_blob_bytes(bytes, pos6, text);
    let pos7 = pos6 + 8 + text.len() as int;
    lemma_parse_u64_bytes(bytes, pos7, item.bids.len() as u64);
    lemma_parse_bids_bytes(bytes, pos7 + 8, item.bids);
}

/// Appends `source` to `out`.
fn append_bytes(out: &mut Vec<u8>, source: &[u8])
    ensures
        final(out)@ == old(out)@ + source@,
{
    let mut at: usize = 0;
    while at < source.len()
        invariant
            at <= source@.len(),
            out@ == old(out)@ + source@.subrange(0, at as int),
        decreases source@.len() - at,
    {
        out.push(source[at]);
        at += 1;
    }
}

/// Appends the record form of a number to `out`.
fn append_u64(out: &mut Vec<u8>, x: u64)
    ensures
        final(out)@ == old(out)@ + u64_bytes(x),
{
    let bytes = u64_to_le_bytes(x);
    append_bytes(out, bytes.as_slice());
}

/// Appends the record form of a byte string to `out`.
fn append_blob(out: &mut Vec<u8>, blob: &[u8])
    ensures
        final(out)@ == old(out)@ + blob_bytes(blob@),
        blob@.len() <= u64::MAX,
{
    append_u64(out, blob.len() as u64);
    append_bytes(out, blob);
}

/// Appends the record form of a bid to `out`.
fn append_bid(out: &mut Vec<u8>, bid: &Bid)
    ensures
        final(out)@ == old(out)@ + bid_bytes(bid@),
        bid@.bidder.len() <= u64::MAX,
{
    append_u64(out, bid.item_id);
    append_u64(out, bid.bid_date);
    append_u64(out, bid.bid_amount);
    append_blob(out, bid.bidder_principal.bytes.as_slice());
}

/// The record of a listing, as it is written to durable storage.
pub fn encode_item(item: &Item) -> (bytes: Vec<u8>)
    ensures
        bytes@ == item_bytes(item@),
        recordable(item@),
{
    let mut out: Vec<u8> = Vec::new();
    append_u64(&mut out, item.id);
    append_u64(&mut out, item.highest_bid);
    append_u64(&mut out, item.latest_update);
    append_u64(&mut out, item.result_date);
    out.push(if item.is_active { 1u8 } else { 0u8 });
    append_blob(&mut out, item.item_owner.bytes.as_slice());
    let text = item.description.as_str().as_bytes();
    append_blob(&mut out, text);
    append_u64(&mut out, item.bid_vector.len() as u64);
    let ghost head = out@;
    let ghost bids = item@.bids;
    let mut at: usize = 0;
    while at < item.bid_vector.len()
        invariant
            at <= item.bid_vector.len(),
            item@.owner.len() <= u64::MAX,
            encode_utf8(item@.description).len() <= u64::MAX,
            forall|i: int| 0 <= i < at ==> (#[trigger] bids[i]).bidder.len() <= u64::MAX,
            bids == item@.bids,
            bids.len() == item.bid_vector.len(),
            out@ == head + bids_bytes(bids.take(at as int)),
        decreases item.bid_vector.len() - at,
    {
        append_bid(&mut out, &item.bid_vector[at]);
        assert(bids.take(at + 1).drop_last() =~= bids.take(at as int));
        at += 1;
    }
    assert(bids.take(at as int) =~= bids);
    out
}

/// The record of a listing, if it is short enough to be stored.
pub fn encode_item_checked(item: &Item) -> (bytes: Option<Vec<u8>>)
    ensures
        bytes is Some <==> record_fits(item@),
        bytes matches Some(bytes) ==> bytes@ == item_bytes(item@),
        recordable(item@),
{
    let bytes = encode_item(item);
    if bytes.len() as u64 <= MAX_RECORD_BYTES {
        Some(bytes)
    } else {
        None
    }
}

/// Whether the record of `item` is short enough to be stored.
pub fn fits_record(item: &Item) -> (fits: bool)
    ensures
        fits == record_fits(item@),
{
    encode_item_checked(item).is_some()
}

/// Reads a number at `at`.
fn read_u64(bytes: &[u8], at: usize) -> (read: Option<(u64, usize)>)
    ensures
        match read {
            Some((x, next)) => parse_u64(bytes@, at as int) == Some((x, next as int)),
            None => parse_u64(bytes@, at as int) is None,
        },
{
    if at > bytes.len() || bytes.len() - at < 8 {
        return None;
    }
    let x = u64_from_le_bytes(slice_subrange(bytes, at, at + 8));
    Some((x, at + 8))
}

/// Reads a byte string at `at`.
fn read_blob(bytes: &[u8], at: usize) -> (read: Option<(Vec<u8>, usize)>)
    ensures
        match read {
            Some((blob, next)) => parse_blob(bytes@, at as int) == Some((blob@, next as int)),
            None => parse_blob(bytes@, at as int) is None,
        },
{
    match read_u64(bytes, at) {
        None => None,
        Some((len, start)) => {
            if len > (bytes.len() - start) as u64 {
                return None;
            }
            let end = start + len as usize;
            Some((slice_to_vec(slice_subrange(bytes, start, end)), end))
        },
    }
}

/// Reads a bid at `at`.
fn read_bid(bytes: &[u8], at: usize) -> (read: Option<(Bid, usize)>)
    ensures
        match read {
            Some((bid, next)) => parse_bid(bytes@, at as int) == Some((bid@, next as int)),
            None => parse_bid(bytes@, at as int) is None,
        },
{
    let (item_id, pos1) = match read_u64(bytes, at) {
        Some(read) => read,
        None => return None,
    };
    let (bid_date, pos2) = match read_u64(bytes, pos1) {
        Some(read) => read,
        None => return None,
    };
    let (bid_amount, pos3) = match read_u64(bytes, pos2) {
        Some(read) => read,
        None => return None,
    };
    let (bidder, pos4) = match read_blob(bytes, pos3) {
        Some(read) => read,
        None => return None,
    };
    Some((Bid { item_id, bidder_principal: Identity::new(bidder), bid_date, bid_amount }, pos4))
}

/// Reads the record of a listing. `None` when the bytes are not one.
pub fn decode_item(bytes: &[u8]) -> (item: Option<Item>)
    ensures
        match item {
            Some(item) => parse_item(bytes@) == Some(item@),
            None => parse_item(bytes@) is None,
        },
{
    let (id, pos1) = match read_u64(bytes, 0) {
        Some(read) => read,
        None => return None,
    };
    let (highest_bid, pos2) = match read_u64(bytes, pos1) {
        Some(read) => read,
        None => return None,
    };
    let (latest_update, pos3) = match read_u64(bytes, pos2) {
        Some(read) => read,
        None => return None,
    };
    let (result_date, pos4) = match read_u64(bytes, pos3) {
        Some(read) => read,
        None => return None,
    };
    if pos4 >= bytes.len() || bytes[pos4] > 1 {
        return None;
    }
    let is_active = bytes[pos4] == 1;
    let pos5 = pos4 + 1;
    let (owner, pos6) = match read_blob(bytes, pos5) {
        Some(read) => read,
        None => return None,
    };
    let (text, pos7) = match read_blob(bytes, pos6) {
        Some(read) => read,
        None => return None,
    };
    let description = match string_from_utf8(text) {
        Ok(description) => description,
        Err(_) => return None,
    };
    let (count, start) = match read_u64(bytes, pos7) {
        Some(read) => read,
        None => return None,
    };
    let ghost head = ItemHead {
        id,
        highest_bid,
        latest_update,
        result_date,
        is_active,
        owner: owner@,
        description: description@,
    };
    let mut bid_vector: Vec<Bid> = Vec::new();
    let mut left: u64 = count;
    let mut at: usize = start;
    while left > 0
        invariant
            parse_head(bytes@) == Some((head, pos7 as int)),
            parse_u64(bytes@, pos7 as int) == Some((count, start as int)),
            parse_bids(bytes@, start as int, count as nat) == (match parse_bids(
                bytes@,
                at as int,
                left as nat,
            ) {
                Some((rest, end)) => Some((bids_view(bid_vector@) + rest, end)),
                None => None,
            }),
        decreases left,
    {
        match read_bid(bytes, at) {
            None => {
                return None;
            },
            Some((bid, next)) => {
                proof {
                    // One more bid read: what was `seq![bid] + rest` behind
                    // the bids read so far is `rest` behind one bid more.
                    let before = bids_view(bid_vector@);
                    let after = bids_view(bid_vector@.push(bid));
                    if let Some((rest, _)) = parse_bids(bytes@, next as int, (left - 1) as nat) {
                        assert(before + (seq![bid@] + rest) =~= after + rest);
                    }
                }
                bid_vector.push(bid);
                at = next;
                left -= 1;
            },
        }
    }
    if at != bytes.len() {
        return None;
    }
    let item = Item {
        item_owner: Identity::new(owner),
        id,
        description,
        highest_bid,
        latest_update,
        result_date,
        bid_vector,
        is_active,
    };
    Some(item)
}

} // verus!
