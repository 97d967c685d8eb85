//! Auction ledger over durable storage: sellers list items, bidders raise the
//! highest bid, and owners edit, stop or remove their own listings.
//!
//! The crate is layered, from the bottom up:
//!
//! - `stable` and `text` state what is taken on trust of the storage crate
//!   and of the standard library;
//! - `identity` and `item` hold the data, with the mathematical values that
//!   contracts speak of;
//! - `codec` gives a listing its byte form and proves that reading undoes
//!   writing;
//! - `counter` and `store` are the two durable structures, a counter of
//!   identifiers and a map of listings;
//! - `rules` decides each operation on a single listing, `ledger` describes
//!   the whole state and its transitions, and `auction` carries them out on
//!   the durable structures;
//! - `laws` proves what holds across calls, and `message` words the
//!   outcomes for a caller.

pub mod auction;
pub mod codec;
pub mod counter;
pub mod identity;
pub mod item;
pub mod laws;
pub mod ledger;
pub mod message;
pub mod rules;
pub mod stable;
pub mod store;
pub mod text;
