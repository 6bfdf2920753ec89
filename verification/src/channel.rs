//! The outbound channel of a connection: the sending half of an unbounded
//! queue whose receiving half the connection's session drains onto the wire.

use vstd::prelude::*;
use futures_channel::mpsc::UnboundedSender;
use crate::frame::Frame;

verus! {

/// `futures_channel::mpsc::UnboundedSender`, known only through the two
/// names and the two calls below.
#[verifier::external_type_specification]
#[verifier::external_body]
#[verifier::reject_recursive_types(T)]
pub struct ExUnboundedSender<T>(UnboundedSender<T>);

/// The sending half of a connection's outbound queue.
pub type Tx = UnboundedSender<Frame>;

/// The frames that the queue has accepted through this sender, oldest first.
pub uninterp spec fn accepted(tx: UnboundedSender<Frame>) -> Seq<Frame>;

/// Whether the queue has been closed through this sender.
pub uninterp spec fn closed(tx: UnboundedSender<Frame>) -> bool;

/// Calls `UnboundedSender::unbounded_send`. The queue either accepts the
/// frame, which then stands last among the accepted ones, or it has been
/// closed or lost its receiver, and the very frame comes back with
/// nothing accepted. A queue closed through this sender accepts nothing,
/// and sending neither closes a queue nor opens one again.
///
/// The queue's own capacity assertion cannot fire: every queued frame
/// occupies a heap node, and fewer nodes than that capacity fit in memory.
#[verifier::external_body]
pub(crate) fn unbounded_send(tx: &mut Tx, frame: Frame) -> (outcome: Result<(), Frame>)
    ensures
        outcome is Ok ==> accepted(*final(tx)) == accepted(*old(tx)).push(frame),
        outcome matches Err(back) ==> back == frame && accepted(*final(tx)) == accepted(
            *old(tx),
        ),
        closed(*old(tx)) ==> outcome is Err,
        closed(*final(tx)) == closed(*old(tx)),
{
    tx.unbounded_send(frame).map_err(|refused| refused.into_inner())
}

/// Calls `UnboundedSender::close_channel`: the queue is closed from then
/// on, and what it had accepted is untouched.
#[verifier::external_body]
pub(crate) fn close_channel(tx: &mut Tx)
    ensures
        closed(*final(tx)),
        accepted(*final(tx)) == accepted(*old(tx)),
{
    tx.close_channel()
}

} // verus!
