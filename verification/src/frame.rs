//! Frames as the relay sees them: a kind and a payload.

use vstd::prelude::*;
use vstd::utf8::*;

verus! {

/// One frame received from, or queued for, a connection.
///
/// A control frame (ping, pong, close) carries whatever payload it had on
/// the wire; the relay never acts on it.
#[derive(Clone, Debug, PartialEq, Eq)]
pub enum Frame {
    Text(String),
    Binary(Vec<u8>),
    Control(Vec<u8>),
}

/// Calls `core::str::from_utf8`: the bytes as a string slice exactly when
/// they are well-formed UTF-8, and then the slice holds the characters
/// that the bytes encode.
#[verifier::external_body]
pub(crate) fn utf8_text(bytes: &[u8]) -> (text: Option<&str>)
    ensures
        text is Some <==> valid_utf8(bytes@),
        text matches Some(s) ==> s@ == decode_utf8(bytes@),
{
    core::str::from_utf8(bytes).ok()
}

impl Frame {
    /// The bytes that the frame carries.
    pub open spec fn payload(&self) -> Seq<u8> {
        match self {
            Frame::Text(text) => encode_utf8(text@),
            Frame::Binary(bytes) => bytes@,
            Frame::Control(bytes) => bytes@,
        }
    }

    /// The payload read as text, where it is text.
    pub open spec fn text(&self) -> Option<Seq<char>> {
        match self {
            Frame::Text(text) => Some(text@),
            Frame::Binary(bytes) | Frame::Control(bytes) => if valid_utf8(bytes@) {
                Some(decode_utf8(bytes@))
            } else {
                None
            },
        }
    }

    pub fn is_text(&self) -> (yes: bool)
        ensures
            yes == (self is Text),
    {
        match self {
            Frame::Text(_) => true,
            _ => false,
        }
    }

    pub fn is_binary(&self) -> (yes: bool)
        ensures
            yes == (self is Binary),
    {
        match self {
            Frame::Binary(_) => true,
            _ => false,
        }
    }

    /// The payload bytes of the frame.
    pub fn data(&self) -> (bytes: &[u8])
        ensures
            bytes@ == self.payload(),
    {
        match self {
            Frame::Text(text) => text.as_str().as_bytes(),
            Frame::Binary(bytes) => bytes.as_slice(),
            Frame::Control(bytes) => bytes.as_slice(),
        }
    }

    /// The payload as text: the text of a text frame, and of any other
    /// frame its payload where that is well-formed UTF-8.
    pub fn to_text(&self) -> (text: Option<&str>)
        ensures
            text is Some == self.text() is Some,
            text matches Some(s) ==> self.text() == Some(s@),
    {
        match self {
            Frame::Text(text) => Some(text.as_str()),
            Frame::Binary(bytes) => utf8_text(bytes.as_slice()),
            Frame::Control(bytes) => utf8_text(bytes.as_slice()),
        }
    }
}

} // verus!
