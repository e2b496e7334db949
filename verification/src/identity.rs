//! Household identities: 128-bit values, kept by the store as UUID text.

use vstd::prelude::*;

verus! {

/// The identity of a household: the 128 bits of its UUID.
#[derive(Clone, Copy, Debug, PartialEq, Eq, Hash, Structural)]
pub struct HouseholdId {
    pub value: u128,
}

/// The hyphenated lower-case text that the `uuid` crate writes for the UUID
/// of the given 128 bits.
pub uninterp spec fn id_text(value: u128) -> Seq<char>;

/// The 128 bits of the UUID that `uuid::Uuid::parse_str` reads from a text,
/// if it reads one.
pub uninterp spec fn id_from_text(text: Seq<char>) -> Option<u128>;

/// Calls `uuid::Uuid::new_v4`. The operating system's random source decides
/// the value, so the contract claims nothing of it.
#[verifier::external_body]
fn random_id() -> (r: HouseholdId) {
    HouseholdId { value: uuid::Uuid::new_v4().as_u128() }
}

/// Calls `to_string` on the `uuid::Uuid` made by `Uuid::from_u128`. The
/// contract names the text and claims that `Uuid::parse_str` reads it back:
/// its documentation says that it supports every format the crate writes.
#[verifier::external_body]
fn write_id(id: HouseholdId) -> (r: String)
    ensures
        r@ == id_text(id.value),
        id_from_text(r@) == Some(id.value),
{
    uuid::Uuid::from_u128(id.value).to_string()
}

/// Calls `uuid::Uuid::parse_str` and takes the 128 bits of what it reads.
/// The contract names the outcome.
#[verifier::external_body]
fn read_id(text: &str) -> (r: Option<HouseholdId>)
    ensures
        r is Some <==> id_from_text(text@) is Some,
        r matches Some(id) ==> id_from_text(text@) == Some(id.value),
{
    uuid::Uuid::parse_str(text).ok().map(|u| HouseholdId { value: u.as_u128() })
}

impl HouseholdId {
    /// A fresh identity, drawn at random. No two calls are related.
    pub fn new_v4() -> (r: HouseholdId) {
        random_id()
    }

    /// A fresh identity that is not `other`: one drawn at random, or, where
    /// that is `other` itself, the one after it.
    pub fn distinct_from(other: &HouseholdId) -> (r: HouseholdId)
        ensures
            r != *other,
    {
        let drawn = HouseholdId::new_v4();
        if drawn.value != other.value {
            drawn
        } else if other.value == u128::MAX {
            HouseholdId { value: 0 }
        } else {
            HouseholdId { value: other.value + 1 }
        }
    }

    /// The identity as the store keeps it.
    pub fn to_string(&self) -> (r: String)
        ensures
            r@ == id_text(self.value),
            id_from_text(r@) == Some(self.value),
    {
        write_id(*self)
    }

    /// Reads an identity from UUID text.
    pub fn parse_str(text: &str) -> (r: Option<HouseholdId>)
        ensures
            r is Some <==> id_from_text(text@) is Some,
            r matches Some(id) ==> id_from_text(text@) == Some(id.value),
    {
        read_id(text)
    }
}

} // verus!
