//! The rules applied to every frame that a connection sends: a text frame
//! announces an identity, a binary frame carries an envelope to forward,
//! and nothing else has any effect.
//!
//! No rule ever reports a failure to the sender. A frame that cannot be
//! acted on is dropped, and the registry stays as it was.

use vstd::prelude::*;
use crate::chat::{decoded, Message, MessageView};
use crate::frame::Frame;
use crate::identity::{identity_of_text, Identity};
use crate::registry::{Delivery, Registry, RegistryView};
use crate::token::{token_verdict, verify_token, TokenError};

verus! {

/// Why a frame was dropped.
#[derive(Clone, Copy, Debug, PartialEq, Eq, Structural)]
pub enum Reason {
    /// It is a control frame, and the relay acts on none.
    Ignored,
    /// Its payload should be a token and is no text.
    NotText,
    /// Its token was not verified.
    Unverified(TokenError),
    /// Its payload is no envelope.
    Undecodable,
    /// The recipient that its envelope names is no identity.
    Unaddressed,
    /// The recipient is bound to no connection.
    Absent(Identity),
    /// The queue of the recipient's connection refused the frame, because
    /// that connection's session has just ended.
    Refused(Identity),
}

/// What became of a frame.
#[derive(Clone, Copy, Debug, PartialEq, Eq, Structural)]
pub enum Routed {
    /// The sender announced this identity.
    Announced(Identity),
    /// The frame was queued for the connection bound to this identity.
    Delivered(Identity),
    /// The frame was dropped.
    Dropped(Reason),
}

impl Routed {
    /// The routing of a text frame, from what its announcement came to.
    pub open spec fn of_announcement(outcome: Result<Identity, Reason>) -> Routed {
        match outcome {
            Ok(identity) => Routed::Announced(identity),
            Err(reason) => Routed::Dropped(reason),
        }
    }

    /// The routing of a binary frame, from what its forwarding came to.
    pub open spec fn of_forwarding(outcome: Result<Identity, Reason>) -> Routed {
        match outcome {
            Ok(recipient) => Routed::Delivered(recipient),
            Err(reason) => Routed::Dropped(reason),
        }
    }
}

/// What an announcement comes to, given the verdict on its token: the
/// identity that was verified, or the reason why none was.
pub open spec fn announcement(verdict: Result<Identity, TokenError>) -> Result<Identity, Reason> {
    match verdict {
        Ok(identity) => Ok(identity),
        Err(error) => Err(Reason::Unverified(error)),
    }
}

/// What an announcement by the connection `addr` does to the registry,
/// given the verdict on its token: a verified identity is bound to the
/// connection, and a refused token changes nothing.
pub open spec fn announced(
    addr: u64,
    verdict: Result<Identity, TokenError>,
    before: RegistryView,
    after: RegistryView,
) -> bool {
    after == match verdict {
        Ok(identity) => before.bind(identity, addr),
        Err(_) => before,
    }
}

/// Acts on the verdict on an announced token: an identity that was
/// verified is bound to the connection `addr`, and a refused token changes
/// nothing.
pub fn announce(verdict: Result<Identity, TokenError>, registry: &mut Registry, addr: u64) -> (outcome:
    Result<Identity, Reason>)
    requires
        old(registry).wf(),
    ensures
        final(registry).wf(),
        outcome == announcement(verdict),
        announced(addr, verdict, old(registry)@, final(registry)@),
{
    match verdict {
        Ok(identity) => {
            registry.bind(identity, addr);
            Ok(identity)
        },
        Err(error) => Err(Reason::Unverified(error)),
    }
}

/// Handles a frame whose whole payload is a token, at the time `now`.
///
/// A payload that is no text is dropped as such. A payload that is a text
/// is verified as a token, and the handler acts on the verdict as
/// `announce` does: the verified identity is bound to the connection
/// `addr` and handed back, or the frame is dropped as unverified.
pub fn handle_text_message(
    msg: Frame,
    registry: &mut Registry,
    addr: u64,
    secret: &str,
    now: u64,
) -> (outcome: Result<Identity, Reason>)
    requires
        old(registry).wf(),
    ensures
        final(registry).wf(),
        ({
            let before = old(registry)@;
            let after = final(registry)@;
            match msg.text() {
                None => outcome == Err::<Identity, Reason>(Reason::NotText) && after == before,
                Some(token) => {
                    let verdict = token_verdict(token, secret@, now);
                    outcome == announcement(verdict) && announced(addr, verdict, before, after)
                },
            }
        }),
{
    let verdict = match msg.to_text() {
        Some(token) => verify_token(token, secret, now),
        None => {
            return Err(Reason::NotText);
        },
    };
    announce(verdict, registry, addr)
}

/// Whom an envelope may be forwarded to, given the verdict on its sender's
/// token: the identity that its recipient text denotes, provided that the
/// sender was verified and that the identity is bound; else the reason
/// why the frame is dropped.
pub open spec fn addressed(
    envelope: MessageView,
    verdict: Result<Identity, TokenError>,
    before: RegistryView,
) -> Result<Identity, Reason> {
    match verdict {
        Err(error) => Err(Reason::Unverified(error)),
        Ok(_) => match identity_of_text(envelope.recipient_id) {
            None => Err(Reason::Unaddressed),
            Some(recipient) => if before.recipient(recipient) is Some {
                Ok(recipient)
            } else {
                Err(Reason::Absent(recipient))
            },
        },
    }
}

/// What forwarding `msg`, the frame that carried `envelope`, comes to.
///
/// A frame that may be forwarded to nobody is dropped for the reason that
/// `addressed` gives. Any other frame is offered, as it is, to the queue
/// of the connection bound to the recipient: either the queue accepts it,
/// or it refuses and the frame is dropped. A queue that has been closed
/// always refuses. A dropped frame changes nothing.
pub open spec fn forwarded(
    msg: Frame,
    envelope: MessageView,
    verdict: Result<Identity, TokenError>,
    before: RegistryView,
    after: RegistryView,
    outcome: Result<Identity, Reason>,
) -> bool {
    match addressed(envelope, verdict, before) {
        Err(reason) => outcome == Err::<Identity, Reason>(reason) && after == before,
        Ok(recipient) => {
            ||| {
                &&& outcome == Ok::<Identity, Reason>(recipient)
                &&& after == before.deliver(recipient, msg)
                &&& !before.closed.contains(before.bindings[recipient.value])
            }
            ||| outcome == Err::<Identity, Reason>(Reason::Refused(recipient)) && after == before
        },
    }
}

/// Forwards `msg`, the frame that carried `envelope`, given the verdict
/// on the sender's token.
///
/// The frame is dropped unless the sender was verified, the recipient text
/// denotes an identity, and that identity is bound. Otherwise the frame is
/// offered, as it is, to the queue of the connection bound to the
/// recipient, which accepts it unless its session has just ended.
pub fn forward(
    msg: Frame,
    envelope: &Message,
    verdict: Result<Identity, TokenError>,
    registry: &mut Registry,
) -> (outcome: Result<Identity, Reason>)
    requires
        old(registry).wf(),
    ensures
        final(registry).wf(),
        forwarded(msg, envelope@, verdict, old(registry)@, final(registry)@, outcome),
{
    match verdict {
        Ok(_) => {},
        Err(error) => {
            return Err(Reason::Unverified(error));
        },
    }
    let recipient = match Identity::parse(envelope.recipient_id.as_str()) {
        Some(recipient) => recipient,
        None => {
            return Err(Reason::Unaddressed);
        },
    };
    match registry.deliver(recipient, msg) {
        Delivery::Accepted => Ok(recipient),
        Delivery::Refused => Err(Reason::Refused(recipient)),
        Delivery::Unbound => Err(Reason::Absent(recipient)),
    }
}

/// Handles a frame that carries an envelope, at the time `now`.
///
/// A payload that is no envelope is dropped as such. Of a payload that is
/// one, the sender's token is verified, and the handler acts on the
/// verdict as `forward` does: the frame itself is queued for the
/// recipient's connection, and the recipient handed back, or the frame is
/// dropped for the reason given.
pub fn handle_binary_message(msg: Frame, registry: &mut Registry, secret: &str, now: u64) -> (outcome:
    Result<Identity, Reason>)
    requires
        old(registry).wf(),
    ensures
        final(registry).wf(),
        ({
            let before = old(registry)@;
            let after = final(registry)@;
            match decoded(msg.payload()) {
                None => outcome == Err::<Identity, Reason>(Reason::Undecodable) && after == before,
                Some(envelope) => forwarded(
                    msg,
                    envelope,
                    token_verdict(envelope.token, secret@, now),
                    before,
                    after,
                    outcome,
                ),
            }
        }),
{
    match Message::decode(msg.data()) {
        None => Err(Reason::Undecodable),
        Some(envelope) => {
            let verdict = envelope.verify_token(secret, now);
            forward(msg, &envelope, verdict, registry)
        },
    }
}

/// What routing `frame`, sent by the connection `sender` at the time
/// `now`, comes to.
///
/// A control frame is ignored. A text frame is an announcement, and what
/// becomes of it follows from the verdict on its token. A binary frame
/// that holds no envelope is dropped; one that holds an envelope is
/// forwarded, and what becomes of it follows from the verdict on the
/// sender's token and, where the recipient is bound, from the recipient's
/// queue.
pub open spec fn routes(
    frame: Frame,
    sender: u64,
    secret: Seq<char>,
    now: u64,
    before: RegistryView,
    after: RegistryView,
    routed: Routed,
) -> bool {
    match frame {
        Frame::Control(_) => routed == Routed::Dropped(Reason::Ignored) && after == before,
        Frame::Text(token) => {
            let verdict = token_verdict(token@, secret, now);
            routed == Routed::of_announcement(announcement(verdict)) && announced(
                sender,
                verdict,
                before,
                after,
            )
        },
        Frame::Binary(_) => match decoded(frame.payload()) {
            None => routed == Routed::Dropped(Reason::Undecodable) && after == before,
            Some(envelope) => exists|outcome: Result<Identity, Reason>| #[trigger]
                forwarded(
                    frame,
                    envelope,
                    token_verdict(envelope.token, secret, now),
                    before,
                    after,
                    outcome,
                ) && routed == Routed::of_forwarding(outcome),
        },
    }
}

/// Routes one frame sent by the connection `sender` at the time `now`, in
/// seconds since 1970: a text frame announces, a binary frame is
/// forwarded, and any other frame is ignored.
pub fn route(frame: Frame, sender: u64, registry: &mut Registry, secret: &str, now: u64) -> (routed:
    Routed)
    requires
        old(registry).wf(),
    ensures
        final(registry).wf(),
        routes(frame, sender, secret@, now, old(registry)@, final(registry)@, routed),
{
    if frame.is_text() {
        match handle_text_message(frame, registry, sender, secret, now) {
            Ok(identity) => Routed::Announced(identity),
            Err(reason) => Routed::Dropped(reason),
        }
    } else if frame.is_binary() {
        match handle_binary_message(frame, registry, secret, now) {
            Ok(recipient) => Routed::Delivered(recipient),
            Err(reason) => Routed::Dropped(reason),
        }
    } else {
        Routed::Dropped(Reason::Ignored)
    }
}

} // verus!
