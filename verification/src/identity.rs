//! Identities: the principals that connections authenticate as.

use vstd::prelude::*;

verus! {

/// An authenticated principal, identified by the 128-bit value of its UUID.
#[derive(Clone, Copy, Debug, PartialEq, Eq, Structural, Hash)]
pub struct Identity {
    pub value: u128,
}

/// The 128-bit value that `uuid::Uuid::parse_str` reads from a text, or
/// `None` where it rejects the text.
pub uninterp spec fn uuid_text(text: Seq<char>) -> Option<u128>;

/// The identity that a text denotes, if it denotes one.
pub open spec fn identity_of_text(text: Seq<char>) -> Option<Identity> {
    match uuid_text(text) {
        Some(value) => Some(Identity { value }),
        None => None,
    }
}

/// Calls `uuid::Uuid::parse_str` and hands back the parsed UUID as its
/// 128-bit value. The parser reads nothing but its argument, so the result
/// is named by `uuid_text`; nothing else is claimed of it.
#[verifier::external_body]
fn parse_uuid(text: &str) -> (parsed: Option<u128>)
    ensures
        parsed == uuid_text(text@),
{
    uuid::Uuid::parse_str(text).ok().map(|id| id.as_u128())
}

impl Identity {
    /// The identity with the given 128-bit value.
    pub fn from_u128(value: u128) -> (id: Identity)
        ensures
            id.value == value,
    {
        Identity { value }
    }

    /// The 128-bit value of this identity.
    pub fn as_u128(&self) -> (value: u128)
        ensures
            value == self.value,
    {
        self.value
    }

    /// Reads an identity from its textual UUID form.
    pub fn parse(text: &str) -> (id: Option<Identity>)
        ensures
            id == identity_of_text(text@),
    {
        match parse_uuid(text) {
            Some(value) => Some(Identity { value }),
            None => None,
        }
    }
}

} // verus!
