//! The envelope that clients address to one another.
//!
//! On the wire an envelope is a sequence of fields. The relay reads two of
//! them, both texts: the sender's token and the recipient's identity.
//! Every other field is passed over, and the frame that carried the
//! envelope is forwarded as it came.

use vstd::prelude::*;
use vstd::slice::slice_subrange;
use vstd::utf8::*;
use crate::frame::utf8_text;
use crate::identity::Identity;
use crate::token::{token_verdict, verify_token, TokenError};
use crate::wire::{
    delimited, field_key, lemma_key_extent, read_delimited, read_key, skip_field, skipped, WireType,
    RECURSION_LIMIT,
};

verus! {

/// The field that holds the sender's token.
pub const TOKEN_FIELD: u32 = 1;

/// The field that holds the recipient's identity.
pub const RECIPIENT_FIELD: u32 = 2;

/// What the relay reads of an envelope.
#[derive(Clone, Debug, PartialEq, Eq)]
pub struct Message {
    pub token: String,
    pub recipient_id: String,
}

pub struct MessageView {
    pub token: Seq<char>,
    pub recipient_id: Seq<char>,
}

impl View for Message {
    type V = MessageView;

    open spec fn view(&self) -> MessageView {
        MessageView { token: self.token@, recipient_id: self.recipient_id@ }
    }
}

impl MessageView {
    /// The envelope in which no field has been set.
    pub open spec fn blank() -> MessageView {
        MessageView { token: Seq::empty(), recipient_id: Seq::empty() }
    }

    /// The envelope with the text field `number` set to `text`.
    pub open spec fn with(self, number: u32, text: Seq<char>) -> MessageView {
        if number == TOKEN_FIELD {
            MessageView { token: text, ..self }
        } else if number == RECIPIENT_FIELD {
            MessageView { recipient_id: text, ..self }
        } else {
            self
        }
    }
}

/// The value at `at` of a text field: a length-delimited value whose
/// content is well-formed UTF-8. Gives the text and where the value ends.
pub open spec fn text_field(bytes: Seq<u8>, at: int, wire_type: WireType) -> Option<
    (Seq<char>, int),
> {
    if wire_type != WireType::LengthDelimited {
        None
    } else {
        match delimited(bytes, at) {
            Some((start, end)) => if valid_utf8(bytes.subrange(start, end)) {
                Some((decode_utf8(bytes.subrange(start, end)), end))
            } else {
                None
            },
            None => None,
        }
    }
}

/// The envelope that results from reading the fields from `at` to the end
/// into `so_far`. A text field that occurs again replaces what was read
/// before; one malformed field spoils the whole envelope.
pub open spec fn merged(bytes: Seq<u8>, at: int, so_far: MessageView) -> Option<MessageView>
    decreases bytes.len() - at,
{
    if at >= bytes.len() {
        Some(so_far)
    } else {
        match field_key(bytes, at) {
            Some((number, wire_type, next)) => {
                if number == TOKEN_FIELD || number == RECIPIENT_FIELD {
                    match text_field(bytes, next, wire_type) {
                        Some((text, after)) => if at < after <= bytes.len() {
                            merged(bytes, after, so_far.with(number, text))
                        } else {
                            None
                        },
                        None => None,
                    }
                } else {
                    match skipped(bytes, next, wire_type, number, RECURSION_LIMIT as nat) {
                        Some(after) => if at < after <= bytes.len() {
                            merged(bytes, after, so_far)
                        } else {
                            None
                        },
                        None => None,
                    }
                }
            },
            None => None,
        }
    }
}

/// The envelope that `bytes` encode, if they encode one.
pub open spec fn decoded(bytes: Seq<u8>) -> Option<MessageView> {
    merged(bytes, 0, MessageView::blank())
}

/// Reads the value at `at` of a text field.
fn read_text(bytes: &[u8], at: usize, wire_type: WireType) -> (read: Option<(String, usize)>)
    ensures
        match read {
            Some((text, end)) => text_field(bytes@, at as int, wire_type) == Some(
                (text@, end as int),
            ) && at < end <= bytes.len(),
            None => text_field(bytes@, at as int, wire_type) is None,
        },
{
    match wire_type {
        WireType::LengthDelimited => {},
        _ => {
            return None;
        },
    }
    let (start, end) = match read_delimited(bytes, at) {
        Some(extent) => extent,
        None => {
            return None;
        },
    };
    match utf8_text(slice_subrange(bytes, start, end)) {
        Some(text) => Some((text.to_owned(), end)),
        None => None,
    }
}

impl Message {
    /// Verifies the sender's token against `secret` at the time `now`.
    pub fn verify_token(&self, secret: &str, now: u64) -> (identity: Result<Identity, TokenError>)
        ensures
            identity == token_verdict(self.token@, secret@, now),
    {
        verify_token(self.token.as_str(), secret, now)
    }

    /// Reads an envelope from its encoding.
    pub fn decode(bytes: &[u8]) -> (message: Option<Message>)
        ensures
            match message {
                Some(message) => decoded(bytes@) == Some(message@),
                None => decoded(bytes@) is None,
            },
    {
        let mut token = String::new();
        let mut recipient_id = String::new();
        let mut at: usize = 0;
        while at < bytes.len()
            invariant
                at <= bytes.len(),
                decoded(bytes@) == merged(
                    bytes@,
                    at as int,
                    MessageView { token: token@, recipient_id: recipient_id@ },
                ),
            decreases bytes.len() - at,
        {
            proof {
                lemma_key_extent(bytes@, at as int);
            }
            let (number, wire_type, next) = match read_key(bytes, at) {
                Some(key) => key,
                None => {
                    return None;
                },
            };
            if number == TOKEN_FIELD {
                match read_text(bytes, next, wire_type) {
                    Some((text, after)) => {
                        token = text;
                        at = after;
                    },
                    None => {
                        return None;
                    },
                }
            } else if number == RECIPIENT_FIELD {
                match read_text(bytes, next, wire_type) {
                    Some((text, after)) => {
                        recipient_id = text;
                        at = after;
                    },
                    None => {
                        return None;
                    },
                }
            } else {
                match skip_field(bytes, next, wire_type, number, RECURSION_LIMIT) {
                    Some(after) => {
                        at = after;
                    },
                    None => {
                        return None;
                    },
                }
            }
        }
        Some(Message { token, recipient_id })
    }
}

} // verus!
