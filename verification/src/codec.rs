//! The frame codec: from a frame to the envelope it carries.
//!
//! Two shapes of JSON document travel over a connection. A control envelope
//! `{"header": {..}, "message": {"action": .., "clientId": ".."}}` asks the
//! relay to act on its registry; a data envelope
//! `{"action": .., "clientId": "..", ..}` is a payload to pass on. The two are
//! told apart by the `message` member alone. In both, `action` is an integer
//! and `clientId` the text of an identifier; a document without them is
//! malformed, and so is a frame that holds no JSON document at all.

use crate::frame::Frame;
use crate::ident::ClientId;
use vstd::prelude::*;

verus! {

/// The action by which a connection asks to be registered.
pub const REGISTRATION_ACTION: i64 = 13;

/// `serde_json::Value`, a JSON document or a part of one. It is taken as it
/// is: all that is known of a value is what the functions below read of it.
#[verifier::external_type_specification]
#[verifier::external_body]
pub struct ExValue(serde_json::Value);

/// The document that `serde_json::from_str` reads from a text, or `None`
/// where it rejects the text.
pub uninterp spec fn json_document(text: Seq<char>) -> Option<serde_json::Value>;

/// What `serde_json::Value::get` finds under a key: the member of that name
/// where the value is an object that has one, else `None`.
pub uninterp spec fn json_member(value: serde_json::Value, key: Seq<char>) -> Option<
    serde_json::Value,
>;

/// What `serde_json::Value::as_i64` gives: the number where the value is an
/// integer that fits `i64`, else `None`.
pub uninterp spec fn json_integer(value: serde_json::Value) -> Option<i64>;

/// What `serde_json::Value::as_str` gives: the text where the value is a
/// string, else `None`.
pub uninterp spec fn json_string(value: serde_json::Value) -> Option<Seq<char>>;

/// Calls `serde_json::from_str` for a `serde_json::Value`. Trusted: the
/// result is the one that [`json_document`] names, `None` standing for every
/// error of the parser.
#[verifier::external_body]
fn parse_document(text: &str) -> (document: Option<serde_json::Value>)
    ensures
        document == json_document(text@),
{
    match serde_json::from_str::<serde_json::Value>(text) {
        Ok(document) => Some(document),
        Err(_) => None,
    }
}

/// Calls `serde_json::Value::get` with a string key. Trusted: the result is
/// the one that [`json_member`] names.
#[verifier::external_body]
fn member<'a>(value: &'a serde_json::Value, key: &str) -> (found: Option<&'a serde_json::Value>)
    ensures
        match found {
            Some(inner) => json_member(*value, key@) == Some(*inner),
            None => json_member(*value, key@) is None,
        },
{
    value.get(key)
}

/// `serde_json::Value::as_i64` gives the result that [`json_integer`] names.
pub assume_specification[ serde_json::Value::as_i64 ](value: &serde_json::Value) -> (number:
    Option<i64>)
    ensures
        number == json_integer(*value),
;

/// `serde_json::Value::as_str` gives the result that [`json_string`] names.
pub assume_specification<'a>[ serde_json::Value::as_str ](value: &'a serde_json::Value) -> (text:
    Option<&'a str>)
    ensures
        match text {
            Some(t) => json_string(*value) == Some(t@),
            None => json_string(*value) is None,
        },
;

/// What the relay reads of a document.
#[derive(Clone, Copy, Debug, PartialEq, Eq)]
pub struct Fields {
    /// Whether the document has a `message` member.
    pub nested: bool,
    /// The integer `action`, of the `message` where there is one, else of the
    /// document itself.
    pub action: Option<i64>,
    /// The identifier that the string `clientId` denotes, taken from the same
    /// place.
    pub client_id: Option<ClientId>,
}

/// A decoded frame.
#[derive(Debug, PartialEq, Eq)]
pub enum Envelope {
    /// A request that concerns the registry.
    Control { action: i64, client_id: ClientId },
    /// A payload to pass on: the frame as it came.
    Data { action: i64, client_id: ClientId, payload: Frame },
}

/// Why a frame could not be decoded.
#[derive(Clone, Copy, Debug, PartialEq, Eq)]
pub enum DecodeError {
    /// The frame holds no JSON document, or one without an integer `action`
    /// and a `clientId` that denotes an identifier.
    Malformed,
}

/// The integer member of a value under a key.
pub open spec fn integer_member(value: serde_json::Value, key: Seq<char>) -> Option<i64> {
    match json_member(value, key) {
        Some(inner) => json_integer(inner),
        None => None,
    }
}

/// The identifier that the string member of a value under a key denotes.
pub open spec fn identifier_member(value: serde_json::Value, key: Seq<char>) -> Option<ClientId> {
    match json_member(value, key) {
        Some(inner) => match json_string(inner) {
            Some(text) => ClientId::parsed(text),
            None => None,
        },
        None => None,
    }
}

/// What the relay reads of a document.
pub open spec fn fields_of(document: serde_json::Value) -> Fields {
    match json_member(document, "message"@) {
        Some(message) => Fields {
            nested: true,
            action: integer_member(message, "action"@),
            client_id: identifier_member(message, "clientId"@),
        },
        None => Fields {
            nested: false,
            action: integer_member(document, "action"@),
            client_id: identifier_member(document, "clientId"@),
        },
    }
}

/// The envelope that a frame with the given fields carries.
pub open spec fn classified(fields: Fields, frame: Frame) -> Result<Envelope, DecodeError> {
    match (fields.action, fields.client_id) {
        (Some(action), Some(client_id)) => if fields.nested {
            Ok(Envelope::Control { action, client_id })
        } else {
            Ok(Envelope::Data { action, client_id, payload: frame })
        },
        _ => Err(DecodeError::Malformed),
    }
}

/// The envelope that a frame carries.
pub open spec fn decoded(frame: Frame) -> Result<Envelope, DecodeError> {
    match frame.text() {
        Some(text) => match json_document(text) {
            Some(document) => classified(fields_of(document), frame),
            None => Err(DecodeError::Malformed),
        },
        None => Err(DecodeError::Malformed),
    }
}

fn integer_in(value: &serde_json::Value, key: &str) -> (number: Option<i64>)
    ensures
        number == integer_member(*value, key@),
{
    match member(value, key) {
        Some(inner) => inner.as_i64(),
        None => None,
    }
}

fn identifier_in(value: &serde_json::Value, key: &str) -> (id: Option<ClientId>)
    ensures
        id == identifier_member(*value, key@),
{
    match member(value, key) {
        Some(inner) => match inner.as_str() {
            Some(text) => ClientId::parse(text),
            None => None,
        },
        None => None,
    }
}

/// Reads from a document the fields by which the relay classifies it.
pub fn extract(document: &serde_json::Value) -> (fields: Fields)
    ensures
        fields == fields_of(*document),
{
    match member(document, "message") {
        Some(message) => Fields {
            nested: true,
            action: integer_in(message, "action"),
            client_id: identifier_in(message, "clientId"),
        },
        None => Fields {
            nested: false,
            action: integer_in(document, "action"),
            client_id: identifier_in(document, "clientId"),
        },
    }
}

/// Builds the envelope of a frame from the fields read of its document:
/// a control envelope where the document is nested, a data envelope that
/// keeps the frame where it is flat, and `Malformed` where the action or the
/// identifier is missing.
pub fn classify(fields: Fields, frame: Frame) -> (envelope: Result<Envelope, DecodeError>)
    ensures
        envelope == classified(fields, frame),
{
    match (fields.action, fields.client_id) {
        (Some(action), Some(client_id)) => if fields.nested {
            Ok(Envelope::Control { action, client_id })
        } else {
            Ok(Envelope::Data { action, client_id, payload: frame })
        },
        _ => Err(DecodeError::Malformed),
    }
}

/// Decodes a frame. A frame that is not UTF-8, not JSON, or JSON without the
/// fields of either envelope is `Malformed`; the caller skips it.
pub fn decode(frame: Frame) -> (envelope: Result<Envelope, DecodeError>)
    ensures
        envelope == decoded(frame),
{
    let fields = match frame.as_text() {
        Some(text) => match parse_document(text) {
            Some(document) => extract(&document),
            None => {
                return Err(DecodeError::Malformed);
            },
        },
        None => {
            return Err(DecodeError::Malformed);
        },
    };
    classify(fields, frame)
}

} // verus!
