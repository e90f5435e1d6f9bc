//! Client identifiers.

use vstd::prelude::*;

verus! {

/// The value of the identifier reserved for the controller, whose text form
/// is `11111111-1111-1111-1111-111111111111`.
pub const CONTROLLER_VALUE: u128 = 0x1111_1111_1111_1111_1111_1111_1111_1111;

/// A 128-bit identifier under which a connection is known to the relay.
#[derive(Clone, Copy, Debug, PartialEq, Eq, Structural, Hash)]
pub struct ClientId {
    pub value: u128,
}

/// What `uuid::Uuid::parse_str` reads from a text: the 128-bit value of the
/// identifier, or `None` where it rejects the text.
pub uninterp spec fn uuid_value(text: Seq<char>) -> Option<u128>;

/// Calls `uuid::Uuid::parse_str` and hands out the identifier as the integer
/// that `Uuid::as_u128` gives. Trusted: the result is the one that
/// [`uuid_value`] names, `None` standing for every error of the parser.
#[verifier::external_body]
fn parse_uuid(text: &str) -> (value: Option<u128>)
    ensures
        value == uuid_value(text@),
{
    match uuid::Uuid::parse_str(text) {
        Ok(id) => Some(id.as_u128()),
        Err(_) => None,
    }
}

impl ClientId {
    /// The identifier reserved for the controller.
    pub open spec fn controller_id() -> ClientId {
        ClientId { value: CONTROLLER_VALUE }
    }

    /// The identifier that a text denotes, if it denotes one.
    pub open spec fn parsed(text: Seq<char>) -> Option<ClientId> {
        match uuid_value(text) {
            Some(value) => Some(ClientId { value }),
            None => None,
        }
    }

    /// The identifier with the given value.
    pub fn from_u128(value: u128) -> (id: ClientId)
        ensures
            id.value == value,
    {
        ClientId { value }
    }

    /// The value of this identifier.
    pub fn as_u128(&self) -> (value: u128)
        ensures
            value == self.value,
    {
        self.value
    }

    /// The identifier reserved for the controller.
    pub fn controller() -> (id: ClientId)
        ensures
            id == ClientId::controller_id(),
    {
        ClientId { value: CONTROLLER_VALUE }
    }

    /// Whether this is the identifier reserved for the controller.
    pub fn is_controller(&self) -> (yes: bool)
        ensures
            yes == (*self == ClientId::controller_id()),
    {
        self.value == CONTROLLER_VALUE
    }

    /// Reads an identifier from its text form, in any of the notations that
    /// the `uuid` crate accepts.
    pub fn parse(text: &str) -> (id: Option<ClientId>)
        ensures
            id == ClientId::parsed(text@),
    {
        match parse_uuid(text) {
            Some(value) => Some(ClientId { value }),
            None => None,
        }
    }
}

} // verus!
