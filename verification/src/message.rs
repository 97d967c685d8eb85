//! The texts that report the outcome of an operation to its caller.

use crate::text::{ascii_chars, string_from_ascii};
use crate::rules::AuctionError;
use vstd::prelude::*;
use vstd::string::*;

verus! {

/// The character of a decimal digit.
pub open spec fn digit(d: nat) -> char {
    if d == 0 {
        '0'
    } else if d == 1 {
        '1'
    } else if d == 2 {
        '2'
    } else if d == 3 {
        '3'
    } else if d == 4 {
        '4'
    } else if d == 5 {
        '5'
    } else if d == 6 {
        '6'
    } else if d == 7 {
        '7'
    } else if d == 8 {
        '8'
    } else {
        '9'
    }
}

/// The decimal numeral of `n`, without leading zeros.
pub open spec fn decimal(n: nat) -> Seq<char>
    decreases n,
{
    if n < 10 {
        seq![digit(n)]
    } else {
        decimal(n / 10).push(digit(n % 10))
    }
}

/// What is reported of a listing whose record would be too long.
pub open spec fn too_large_text() -> Seq<char> {
    "Item is too large to be stored."@
}

/// What a refused edit reports.
pub open spec fn edit_refusal_text(error: AuctionError) -> Seq<char> {
    match error {
        AuctionError::Unauthorized => "You are not authorized to edit this item."@,
        AuctionError::TooLarge => too_large_text(),
        _ => "Item could not be edited. Most probably, could not be found"@,
    }
}

/// What a refused stop reports.
pub open spec fn stop_refusal_text(error: AuctionError) -> Seq<char> {
    match error {
        AuctionError::Unauthorized => "You are not authorized to edit this item."@,
        AuctionError::TooLarge => too_large_text(),
        _ => "Item could not be edited. Most probably, could not be found."@,
    }
}

/// What a refused delete reports; `owner` is the textual form of the owner
/// of the listing.
pub open spec fn delete_refusal_text(error: AuctionError, owner: Seq<char>) -> Seq<char> {
    match error {
        AuctionError::Unauthorized => "You are not authorized to remove this item. The owner is: "@
            + owner,
        AuctionError::TooLarge => too_large_text(),
        _ => "Item could not be found."@,
    }
}

/// What a refused bid reports.
pub open spec fn bid_refusal_text(error: AuctionError) -> Seq<char> {
    match error {
        AuctionError::SelfBid => "You cannot bid for you own item"@,
        AuctionError::Inactive => "The selected item is not actively listed."@,
        AuctionError::BidTooLow => "Your bid cannot be lower than the current highest bid."@,
        AuctionError::TooLarge => too_large_text(),
        _ => "Item could not be found."@,
    }
}

/// What a delete reports on success.
pub open spec fn delete_confirmation_text(id: u64) -> Seq<char> {
    "Item with id "@ + decimal(id as nat) + " removed successfully"@
}

/// What a bid reports on success.
pub open spec fn bid_confirmation_text(id: u64) -> Seq<char> {
    "Successfully bidded for item "@ + decimal(id as nat)
}

/// The byte of a decimal digit.
fn digit_byte(d: u64) -> (byte: u8)
    requires
        d < 10,
    ensures
        byte < 128,
        byte as char == digit(d as nat),
{
    48 + d as u8
}

/// The decimal digits of `x` as bytes.
fn decimal_bytes(x: u64) -> (bytes: Vec<u8>)
    ensures
        ascii_chars(bytes@) == decimal(x as nat),
        forall|i: int| 0 <= i < bytes@.len() ==> bytes@[i] < 128,
    decreases x,
{
    if x < 10 {
        vec![digit_byte(x)]
    } else {
        let mut bytes = decimal_bytes(x / 10);
        bytes.push(digit_byte(x % 10));
        bytes
    }
}

/// The decimal numeral of `x`.
pub fn decimal_string(x: u64) -> (text: String)
    ensures
        text@ == decimal(x as nat),
{
    string_from_ascii(decimal_bytes(x))
}

/// The report of a refused edit.
pub fn edit_refusal(error: AuctionError) -> (text: String)
    ensures
        text@ == edit_refusal_text(error),
{
    match error {
        AuctionError::Unauthorized => String::from_str("You are not authorized to edit this item."),
        AuctionError::TooLarge => String::from_str("Item is too large to be stored."),
        _ => String::from_str("Item could not be edited. Most probably, could not be found"),
    }
}

/// The report of a refused stop.
pub fn stop_refusal(error: AuctionError) -> (text: String)
    ensures
        text@ == stop_refusal_text(error),
{
    match error {
        AuctionError::Unauthorized => String::from_str("You are not authorized to edit this item."),
        AuctionError::TooLarge => String::from_str("Item is too large to be stored."),
        _ => String::from_str("Item could not be edited. Most probably, could not be found."),
    }
}

/// The report of a refused delete; `owner` is the textual form of the owner
/// of the listing, which is named to a caller who is not authorized.
pub fn delete_refusal(error: AuctionError, owner: &str) -> (text: String)
    ensures
        text@ == delete_refusal_text(error, owner@),
{
    match error {
        AuctionError::Unauthorized => String::from_str(
            "You are not authorized to remove this item. The owner is: ",
        ).concat(owner),
        AuctionError::TooLarge => String::from_str("Item is too large to be stored."),
        _ => String::from_str("Item could not be found."),
    }
}

/// The report of a refused bid.
pub fn bid_refusal(error: AuctionError) -> (text: String)
    ensures
        text@ == bid_refusal_text(error),
{
    match error {
        AuctionError::SelfBid => String::from_str("You cannot bid for you own item"),
        AuctionError::Inactive => String::from_str("The selected item is not actively listed."),
        AuctionError::BidTooLow => String::from_str(
            "Your bid cannot be lower than the current highest bid.",
        ),
        AuctionError::TooLarge => String::from_str("Item is too large to be stored."),
        _ => String::from_str("Item could not be found."),
    }
}

/// The confirmation of a delete of listing `id`.
pub fn delete_confirmation(id: u64) -> (text: String)
    ensures
        text@ == delete_confirmation_text(id),
{
    let number = decimal_string(id);
    String::from_str("Item with id ").concat(number.as_str()).concat(" removed successfully")
}

/// The confirmation of a bid on listing `id`.
pub fn bid_confirmation(id: u64) -> (text: String)
    ensures
        text@ == bid_confirmation_text(id),
{
    let number = decimal_string(id);
    String::from_str("Successfully bidded for item ").concat(number.as_str())
}

} // verus!
