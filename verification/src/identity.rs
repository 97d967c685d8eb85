//! Caller identities and the authorization gate.

use candid::Principal;
use vstd::prelude::*;

verus! {

/// The longest identity that has a textual form.
pub const MAX_PRINCIPAL_BYTES: usize = 29;

/// The textual form that `candid` gives to a principal of the given bytes: a
/// checksum and the bytes in base 32, in lower case, in groups of five.
pub uninterp spec fn principal_text(bytes: Seq<u8>) -> Seq<char>;

/// `Principal::to_text` of `Principal::from_slice(bytes)`. The text depends on
/// the bytes alone. `from_slice` panics on more than 29 bytes, which are
/// excluded.
#[verifier::external_body]
fn principal_to_text(bytes: &[u8]) -> (text: String)
    requires
        bytes@.len() <= MAX_PRINCIPAL_BYTES,
    ensures
        text@ == principal_text(bytes@),
{
    Principal::from_slice(bytes).to_text()
}

/// Who made a call: the raw bytes that the transport layer vouches for.
///
/// The ledger never interprets the bytes; it only asks whether two identities
/// are the same.
#[derive(Clone, Debug, PartialEq, Eq)]
pub struct Identity {
    pub bytes: Vec<u8>,
}

impl View for Identity {
    type V = Seq<u8>;

    open spec fn view(&self) -> Seq<u8> {
        self.bytes@
    }
}

impl Identity {
    /// The identity that `bytes` stand for.
    pub fn new(bytes: Vec<u8>) -> (identity: Identity)
        ensures
            identity@ == bytes@,
    {
        Identity { bytes }
    }

    /// The textual form of the identity, which exists for identities of at
    /// most 29 bytes.
    pub fn to_text(&self) -> (text: Option<String>)
        ensures
            text is Some <==> self@.len() <= MAX_PRINCIPAL_BYTES,
            text matches Some(text) ==> text@ == principal_text(self@),
    {
        if self.bytes.len() <= MAX_PRINCIPAL_BYTES {
            Some(principal_to_text(self.bytes.as_slice()))
        } else {
            None
        }
    }

    /// Whether `self` and `other` are the same identity.
    pub fn same_as(&self, other: &Identity) -> (same: bool)
        ensures
            same == (self@ == other@),
    {
        if self.bytes.len() != other.bytes.len() {
            return false;
        }
        let mut at: usize = 0;
        while at < self.bytes.len()
            invariant
                at <= self.bytes.len(),
                self.bytes.len() == other.bytes.len(),
                forall|i: int| 0 <= i < at ==> self.bytes@[i] == other.bytes@[i],
            decreases self.bytes.len() - at,
        {
            if self.bytes[at] != other.bytes[at] {
                return false;
            }
            at += 1;
        }
        assert(self.bytes@ =~= other.bytes@);
        true
    }
}

/// The authorization gate: a mutation of a listing is permitted exactly when
/// the caller is its owner.
pub fn authorize(caller: &Identity, owner: &Identity) -> (permitted: bool)
    ensures
        permitted == (caller@ == owner@),
{
    caller.same_as(owner)
}

} // verus!
