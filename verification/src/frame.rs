//! The frames that the relay carries.

use vstd::prelude::*;
use vstd::utf8::{decode_utf8, valid_utf8};

verus! {

/// A text or binary frame, as it came off a connection or is to go onto one.
/// Control frames of the transport (ping, pong, close) never reach the relay.
#[derive(Debug, PartialEq, Eq)]
pub enum Frame {
    Text(String),
    Binary(Vec<u8>),
}

/// The content of a [`Frame`].
pub ghost enum FrameContent {
    Text(Seq<char>),
    Binary(Seq<u8>),
}

impl View for Frame {
    type V = FrameContent;

    open spec fn view(&self) -> FrameContent {
        match *self {
            Frame::Text(text) => FrameContent::Text(text@),
            Frame::Binary(bytes) => FrameContent::Binary(bytes@),
        }
    }
}

/// Calls `std::str::from_utf8`. Trusted: it succeeds exactly on well-formed
/// UTF-8, and the text it gives is the one those bytes encode.
#[verifier::external_body]
fn utf8_text(bytes: &[u8]) -> (text: Option<&str>)
    ensures
        text is Some <==> valid_utf8(bytes@),
        text is Some ==> text.unwrap()@ == decode_utf8(bytes@),
{
    std::str::from_utf8(bytes).ok()
}

impl Frame {
    /// The text that the frame carries: a text frame's own, a binary frame's
    /// bytes read as UTF-8, nothing where those bytes are not UTF-8.
    pub open spec fn text(&self) -> Option<Seq<char>> {
        match *self {
            Frame::Text(text) => Some(text@),
            Frame::Binary(bytes) => if valid_utf8(bytes@) {
                Some(decode_utf8(bytes@))
            } else {
                None
            },
        }
    }

    /// The text that the frame carries, if it carries text.
    pub fn as_text(&self) -> (text: Option<&str>)
        ensures
            match text {
                Some(t) => self.text() == Some(t@),
                None => self.text() is None,
            },
    {
        match self {
            Frame::Text(text) => Some(text.as_str()),
            Frame::Binary(bytes) => utf8_text(bytes.as_slice()),
        }
    }
}

impl Clone for Frame {
    /// A copy of the frame, with the same content.
    fn clone(&self) -> (copy: Frame)
        ensures
            copy@ == self@,
    {
        match self {
            Frame::Text(text) => Frame::Text(text.clone()),
            Frame::Binary(bytes) => Frame::Binary(bytes.clone()),
        }
    }
}

} // verus!
