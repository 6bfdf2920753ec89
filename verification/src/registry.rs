//! The connection registry: which connections are live, and which of them
//! each identity is bound to.

use vstd::prelude::*;
use std::collections::HashMap;
use crate::channel::{accepted, close_channel, closed, unbounded_send, Tx};
use crate::frame::Frame;
use crate::identity::Identity;

verus! {

broadcast use vstd::std_specs::hash::group_hash_axioms;

/// What a registry holds, as plain mathematics.
pub struct RegistryView {
    /// For every live connection, the frames that its outbound queue has
    /// accepted, oldest first.
    pub outboxes: Map<u64, Seq<Frame>>,
    /// The live connections whose queue has been closed through the
    /// registry's own sender.
    pub closed: Set<u64>,
    /// For every bound identity (by its value), the connection bound to it.
    pub bindings: Map<u128, u64>,
    /// For every connection that lost an identity to a newer connection,
    /// the frames that its queue had accepted when it was retired. The
    /// registry has closed the queue of each.
    pub retired: Map<u64, Seq<Frame>>,
}

impl RegistryView {
    /// Every binding points at a live connection.
    pub open spec fn intact(self) -> bool {
        forall|id: u128| #[trigger]
            self.bindings.contains_key(id) ==> self.outboxes.contains_key(self.bindings[id])
    }

    /// Whether `identity` is bound to the connection `handle`.
    pub open spec fn holds(self, identity: Identity, handle: u64) -> bool {
        self.bindings.contains_key(identity.value) && self.bindings[identity.value] == handle
    }

    /// The bindings that remain once every binding to `handle` is gone.
    pub open spec fn released(self, handle: u64) -> Map<u128, u64> {
        Map::new(
            |id: u128| self.bindings.contains_key(id) && self.bindings[id] != handle,
            |id: u128| self.bindings[id],
        )
    }

    /// The registry with nothing in it.
    pub open spec fn empty() -> RegistryView {
        RegistryView {
            outboxes: Map::empty(),
            closed: Set::empty(),
            bindings: Map::empty(),
            retired: Map::empty(),
        }
    }

    /// A new live connection `handle` whose queue has accepted `log` so
    /// far, and is closed or not as `closed` says.
    pub open spec fn register(self, handle: u64, log: Seq<Frame>, closed: bool) -> RegistryView {
        RegistryView {
            outboxes: self.outboxes.insert(handle, log),
            closed: if closed {
                self.closed.insert(handle)
            } else {
                self.closed.remove(handle)
            },
            ..self
        }
    }

    /// `identity` claimed by the connection `handle`.
    ///
    /// A connection that is not live claims nothing, and a connection that
    /// already holds the identity changes nothing. Otherwise the previous
    /// holder, if there is one, is retired: its queue is closed, it stops
    /// being live, and it loses every binding it had. No other queue is
    /// touched.
    pub open spec fn bind(self, identity: Identity, handle: u64) -> RegistryView {
        if !self.outboxes.contains_key(handle) || self.holds(identity, handle) {
            self
        } else if self.bindings.contains_key(identity.value) {
            let previous = self.bindings[identity.value];
            RegistryView {
                outboxes: self.outboxes.remove(previous),
                closed: self.closed.remove(previous),
                bindings: self.released(previous).insert(identity.value, handle),
                retired: self.retired.insert(previous, self.outboxes[previous]),
            }
        } else {
            RegistryView { bindings: self.bindings.insert(identity.value, handle), ..self }
        }
    }

    /// The connection `handle` gone, with every binding that pointed at it.
    pub open spec fn unregister(self, handle: u64) -> RegistryView {
        RegistryView {
            outboxes: self.outboxes.remove(handle),
            closed: self.closed.remove(handle),
            bindings: self.released(handle),
            ..self
        }
    }

    /// The connection that traffic for `identity` goes to, if any.
    pub open spec fn recipient(self, identity: Identity) -> Option<u64> {
        if self.bindings.contains_key(identity.value) {
            Some(self.bindings[identity.value])
        } else {
            None
        }
    }

    /// `frame` accepted by the queue of the connection bound to `identity`.
    /// Nothing else changes: no other queue gains a frame, and none is
    /// closed.
    pub open spec fn deliver(self, identity: Identity, frame: Frame) -> RegistryView {
        let handle = self.bindings[identity.value];
        RegistryView {
            outboxes: self.outboxes.insert(handle, self.outboxes[handle].push(frame)),
            ..self
        }
    }
}

impl RegistryView {
    /// An identity is bound to one connection at most.
    pub proof fn lemma_binding_is_unique(self, identity: Identity, a: u64, b: u64)
        requires
            self.holds(identity, a),
            self.holds(identity, b),
        ensures
            a == b,
    {
    }

    /// Whatever is done to a registry in which every binding points at a
    /// live connection, every binding still does afterwards.
    pub proof fn lemma_operations_keep_intact(
        self,
        identity: Identity,
        handle: u64,
        log: Seq<Frame>,
        frame: Frame,
    )
        requires
            self.intact(),
        ensures
            RegistryView::empty().intact(),
            self.register(handle, log, false).intact(),
            self.register(handle, log, true).intact(),
            self.bind(identity, handle).intact(),
            self.unregister(handle).intact(),
            self.deliver(identity, frame).intact(),
    {
        let bound = self.bind(identity, handle);
        assert forall|id: u128| #[trigger] bound.bindings.contains_key(id) implies bound.outboxes.contains_key(
            bound.bindings[id],
        ) by {
            if id != identity.value {
                assert(self.bindings.contains_key(id));
            }
        }
        let gone = self.unregister(handle);
        assert forall|id: u128| #[trigger] gone.bindings.contains_key(id) implies gone.outboxes.contains_key(
            gone.bindings[id],
        ) by {
            assert(self.bindings.contains_key(id));
        }
    }

    /// Once a live connection has bound an identity, it holds that
    /// identity and is still live.
    pub proof fn lemma_bind_takes_effect(self, identity: Identity, handle: u64)
        requires
            self.outboxes.contains_key(handle),
        ensures
            self.bind(identity, handle).holds(identity, handle),
            self.bind(identity, handle).outboxes.contains_key(handle),
    {
    }

    /// Binding an identity again to the connection that holds it changes
    /// nothing.
    pub proof fn lemma_bind_is_idempotent(self, identity: Identity, handle: u64)
        ensures
            self.bind(identity, handle).bind(identity, handle) == self.bind(identity, handle),
    {
    }

    /// When a live connection binds an identity that another connection
    /// holds, the other connection is retired in the same step: it is no
    /// longer live, no binding points at it, and its queue is on record as
    /// retired with the frames it had accepted. Every other connection
    /// stays as it was: live, with the same frames accepted, and closed or
    /// open as before.
    pub proof fn lemma_displacement_retires_previous(
        self,
        identity: Identity,
        previous: u64,
        handle: u64,
    )
        requires
            self.holds(identity, previous),
            self.outboxes.contains_key(handle),
            previous != handle,
        ensures
            self.bind(identity, handle).holds(identity, handle),
            !self.bind(identity, handle).outboxes.contains_key(previous),
            self.bind(identity, handle).retired.contains_key(previous),
            self.bind(identity, handle).retired[previous] == self.outboxes[previous],
            forall|id: Identity| !self.bind(identity, handle).holds(id, previous),
            forall|other: u64|
                other != previous ==> {
                    &&& self.bind(identity, handle).outboxes.contains_key(other)
                        == self.outboxes.contains_key(other)
                    &&& self.bind(identity, handle).outboxes[other] == self.outboxes[other]
                    &&& self.bind(identity, handle).closed.contains(other) == self.closed.contains(
                        other,
                    )
                },
    {
    }

    /// Unregistering a connection that has been displaced leaves the
    /// registry as the displacement left it; in particular the newer
    /// binding stays.
    pub proof fn lemma_unregister_after_displacement(
        self,
        identity: Identity,
        previous: u64,
        handle: u64,
    )
        requires
            self.holds(identity, previous),
            self.outboxes.contains_key(handle),
            previous != handle,
        ensures
            self.bind(identity, handle).unregister(previous) == self.bind(identity, handle),
            self.bind(identity, handle).unregister(previous).holds(identity, handle),
    {
        let bound = self.bind(identity, handle);
        let gone = bound.unregister(previous);
        assert(gone.outboxes =~= bound.outboxes);
        assert(gone.closed =~= bound.closed);
        assert(gone.bindings =~= bound.bindings);
    }

    /// Unregistering a connection removes it and exactly the bindings that
    /// pointed at it; every other connection stays as it was.
    pub proof fn lemma_unregister_releases(self, handle: u64, identity: Identity)
        ensures
            !self.unregister(handle).outboxes.contains_key(handle),
            !self.unregister(handle).holds(identity, handle),
            forall|other: u64|
                other != handle ==> {
                    &&& self.unregister(handle).holds(identity, other) <==> self.holds(
                        identity,
                        other,
                    )
                    &&& self.unregister(handle).outboxes.contains_key(other)
                        == self.outboxes.contains_key(other)
                    &&& self.unregister(handle).outboxes[other] == self.outboxes[other]
                    &&& self.unregister(handle).closed.contains(other) == self.closed.contains(
                        other,
                    )
                },
            self.unregister(handle).retired == self.retired,
    {
    }

    /// A delivery appends the frame, as it is, to the queue of the
    /// connection bound to the recipient, once; it touches no other queue
    /// and no binding.
    pub proof fn lemma_delivery_reaches_only_the_recipient(
        self,
        identity: Identity,
        handle: u64,
        frame: Frame,
    )
        requires
            self.intact(),
            self.recipient(identity) == Some(handle),
        ensures
            self.deliver(identity, frame).outboxes.dom() == self.outboxes.dom(),
            self.deliver(identity, frame).outboxes[handle] == self.outboxes[handle].push(frame),
            forall|other: u64|
                other != handle ==> self.deliver(identity, frame).outboxes[other]
                    == self.outboxes[other],
            self.deliver(identity, frame).closed == self.closed,
            self.deliver(identity, frame).bindings == self.bindings,
            self.deliver(identity, frame).retired == self.retired,
    {
        assert(self.bindings.contains_key(identity.value));
        assert(self.deliver(identity, frame).outboxes.dom() =~= self.outboxes.dom());
    }
}

/// Why a connection could not be registered.
#[derive(Clone, Copy, Debug, PartialEq, Eq, Structural)]
pub enum RegistryError {
    /// The handle already names a live connection.
    HandleInUse,
}

/// What became of a frame that was offered to the queue of an identity.
#[derive(Clone, Copy, Debug, PartialEq, Eq, Structural)]
pub enum Delivery {
    /// The queue of the connection bound to the identity accepted the frame.
    Accepted,
    /// The identity is bound, but the queue refused the frame.
    Refused,
    /// The identity is bound to no connection.
    Unbound,
}

/// The registry itself. Whatever changes it takes it whole, so each
/// operation is atomic with respect to every other.
pub struct Registry {
    channels: HashMap<u64, Tx>,
    /// For every live connection, the identities bound to it.
    claims: HashMap<u64, Vec<u128>>,
    bindings: HashMap<u128, u64>,
    retired: Ghost<Map<u64, Tx>>,
}

impl View for Registry {
    type V = RegistryView;

    closed spec fn view(&self) -> RegistryView {
        RegistryView {
            outboxes: Map::new(
                |handle: u64| self.channels@.contains_key(handle),
                |handle: u64| accepted(self.channels@[handle]),
            ),
            closed: Set::new(
                |handle: u64| self.channels@.contains_key(handle) && closed(self.channels@[handle]),
            ),
            bindings: self.bindings@,
            retired: Map::new(
                |handle: u64| self.retired@.contains_key(handle),
                |handle: u64| accepted(self.retired@[handle]),
            ),
        }
    }
}

impl Registry {
    /// The queue of a retired connection, as the registry left it.
    pub closed spec fn retired_channel(&self, handle: u64) -> Tx {
        self.retired@[handle]
    }

    /// The registry's own bookkeeping is consistent.
    pub closed spec fn wf(&self) -> bool {
        &&& self.channels@.dom() == self.claims@.dom()
        &&& forall|id: u128| #[trigger]
            self.bindings@.contains_key(id) ==> self.claims@.contains_key(self.bindings@[id])
                && self.claims@[self.bindings@[id]]@.contains(id)
        &&& forall|handle: u64, i: int|
            self.claims@.contains_key(handle) && 0 <= i < self.claims@[handle]@.len()
                ==> self.bindings@.contains_key(#[trigger] self.claims@[handle]@[i])
                && self.bindings@[self.claims@[handle]@[i]] == handle
        &&& forall|handle: u64| #[trigger]
            self.retired@.contains_key(handle) ==> closed(self.retired@[handle])
    }

    /// In a consistent registry every binding points at a live connection.
    pub proof fn lemma_wf_is_intact(&self)
        requires
            self.wf(),
        ensures
            self@.intact(),
    {
        assert forall|id: u128| #[trigger] self@.bindings.contains_key(id) implies self@.outboxes.contains_key(
            self@.bindings[id],
        ) by {
            assert(self.claims@.dom().contains(self.bindings@[id]));
        }
    }

    /// The queue of every retired connection has been closed, and it is
    /// the queue whose frames are on record.
    pub proof fn lemma_retired_is_closed(&self, handle: u64)
        requires
            self.wf(),
            self@.retired.contains_key(handle),
        ensures
            closed(self.retired_channel(handle)),
            accepted(self.retired_channel(handle)) == self@.retired[handle],
    {
    }

    /// A registry with no connection and no binding.
    pub fn new() -> (registry: Registry)
        ensures
            registry.wf(),
            registry@ == RegistryView::empty(),
    {
        let registry = Registry {
            channels: HashMap::new(),
            claims: HashMap::new(),
            bindings: HashMap::new(),
            retired: Ghost(Map::empty()),
        };
        assert(registry@.outboxes =~= Map::empty());
        assert(registry@.closed =~= Set::empty());
        assert(registry@.retired =~= Map::empty());
        registry
    }

    /// Whether `handle` names a live connection.
    pub fn is_registered(&self, handle: u64) -> (live: bool)
        ensures
            live == self@.outboxes.contains_key(handle),
    {
        self.channels.contains_key(&handle)
    }

    /// The connection that `identity` is bound to, if it is bound.
    pub fn holder(&self, identity: Identity) -> (handle: Option<u64>)
        ensures
            handle == self@.recipient(identity),
    {
        match self.bindings.get(&identity.value) {
            Some(handle) => Some(*handle),
            None => None,
        }
    }

    /// Makes `handle` a live connection that is reached through `tx`. The
    /// queue is stored as it was handed in.
    ///
    /// A handle that is live already is refused, and nothing changes.
    pub fn register(&mut self, handle: u64, tx: Tx) -> (outcome: Result<(), RegistryError>)
        requires
            old(self).wf(),
        ensures
            final(self).wf(),
            old(self)@.outboxes.contains_key(handle) ==> outcome == Err::<(), RegistryError>(
                RegistryError::HandleInUse,
            ) && final(self)@ == old(self)@,
            !old(self)@.outboxes.contains_key(handle) ==> outcome is Ok && final(self)@ == old(
                self,
            )@.register(handle, accepted(tx), closed(tx)),
    {
        if self.channels.contains_key(&handle) {
            return Err(RegistryError::HandleInUse);
        }
        self.channels.insert(handle, tx);
        self.claims.insert(handle, Vec::new());
        assert(self@.outboxes =~= old(self)@.register(handle, accepted(tx), closed(tx)).outboxes);
        assert(self@.closed =~= old(self)@.register(handle, accepted(tx), closed(tx)).closed);
        assert(self@.retired =~= old(self)@.retired);
        Ok(())
    }

    /// Binds `identity` to the connection `handle`.
    ///
    /// Where another connection held the identity, that connection is
    /// retired first: its queue is closed, and it leaves the registry
    /// together with every binding it had.
    pub fn bind(&mut self, identity: Identity, handle: u64)
        requires
            old(self).wf(),
        ensures
            final(self).wf(),
            final(self)@ == old(self)@.bind(identity, handle),
    {
        if !self.channels.contains_key(&handle) {
            return ;
        }
        let previous: Option<u64> = match self.bindings.get(&identity.value) {
            Some(bound) => Some(*bound),
            None => None,
        };
        match previous {
            Some(previous) => {
                if previous == handle {
                    return ;
                }
                match self.remove_connection(previous) {
                    Some(mut tx) => {
                        close_channel(&mut tx);
                        self.retired = Ghost(self.retired@.insert(previous, tx));
                    },
                    None => {},
                }
            },
            None => {},
        }
        let ghost mid_claims = self.claims@;
        let ghost mid_bindings = self.bindings@;
        assert(mid_claims.contains_key(handle)) by {
            assert(self@.outboxes.contains_key(handle));
        }
        self.bindings.insert(identity.value, handle);
        match self.claims.remove(&handle) {
            Some(mut claimed) => {
                claimed.push(identity.value);
                self.claims.insert(handle, claimed);
            },
            None => {},
        }
        proof {
            let grown = mid_claims[handle]@.push(identity.value);
            assert forall|id: u128| #[trigger] self.bindings@.contains_key(id) implies self.claims@.contains_key(
                self.bindings@[id],
            ) && self.claims@[self.bindings@[id]]@.contains(id) by {
                if id == identity.value {
                    assert(grown[grown.len() - 1] == id);
                } else if mid_bindings[id] == handle {
                    let j = choose|j: int|
                        0 <= j < mid_claims[handle]@.len() && mid_claims[handle]@[j] == id;
                    assert(grown[j] == id);
                }
            }
            let after = old(self)@.bind(identity, handle);
            assert(self@.outboxes =~= after.outboxes);
            assert(self@.closed =~= after.closed);
            assert(self@.bindings =~= after.bindings);
            assert(self@.retired =~= after.retired);
        }
    }

    /// The queue that traffic for `identity` goes to, if the identity is
    /// bound.
    pub fn lookup(&self, identity: Identity) -> (found: Option<&Tx>)
        requires
            self.wf(),
        ensures
            found is Some == self@.recipient(identity) is Some,
            found matches Some(tx) ==> {
                &&& accepted(*tx) == self@.outboxes[self@.bindings[identity.value]]
                &&& closed(*tx) == self@.closed.contains(self@.bindings[identity.value])
            },
    {
        match self.bindings.get(&identity.value) {
            Some(handle) => self.channels.get(handle),
            None => None,
        }
    }

    /// Offers `frame` to the queue of the connection bound to `identity`.
    ///
    /// Whether the identity is bound is the registry's to say, and the
    /// answer is exact. Whether the queue of a bound identity takes the
    /// frame is the queue's to say: it refuses once its session has ended,
    /// and the frame is then dropped with nothing changed.
    pub fn deliver(&mut self, identity: Identity, frame: Frame) -> (outcome: Delivery)
        requires
            old(self).wf(),
        ensures
            final(self).wf(),
            outcome == Delivery::Unbound <==> old(self)@.recipient(identity) is None,
            old(self)@.recipient(identity) matches Some(handle) && old(self)@.closed.contains(handle)
                ==> outcome == Delivery::Refused,
            outcome == Delivery::Accepted ==> final(self)@ == old(self)@.deliver(identity, frame),
            outcome != Delivery::Accepted ==> final(self)@ == old(self)@,
    {
        let handle: u64 = match self.bindings.get(&identity.value) {
            Some(handle) => *handle,
            None => {
                return Delivery::Unbound;
            },
        };
        match self.channels.remove(&handle) {
            Some(mut tx) => {
                let sent = unbounded_send(&mut tx, frame);
                self.channels.insert(handle, tx);
                proof {
                    if sent is Ok {
                        assert(self@.outboxes =~= old(self)@.deliver(identity, frame).outboxes);
                    } else {
                        assert(self@.outboxes =~= old(self)@.outboxes);
                    }
                    assert(self@.closed =~= old(self)@.closed);
                    assert(self@.retired =~= old(self)@.retired);
                }
                match sent {
                    Ok(()) => Delivery::Accepted,
                    Err(_) => Delivery::Refused,
                }
            },
            None => {
                proof {
                    assert(self@.outboxes =~= old(self)@.outboxes);
                    assert(self@.closed =~= old(self)@.closed);
                    assert(self@.retired =~= old(self)@.retired);
                }
                Delivery::Refused
            },
        }
    }

    /// Ends the connection `handle`: it stops being live, and every
    /// binding that still points at it goes with it.
    pub fn unregister(&mut self, handle: u64)
        requires
            old(self).wf(),
        ensures
            final(self).wf(),
            final(self)@ == old(self)@.unregister(handle),
    {
        let _ = self.remove_connection(handle);
    }

    /// Takes the connection `handle` out of the registry with every
    /// binding to it, and hands back its queue.
    fn remove_connection(&mut self, handle: u64) -> (tx: Option<Tx>)
        requires
            old(self).wf(),
        ensures
            final(self).wf(),
            final(self)@ == old(self)@.unregister(handle),
            final(self).retired == old(self).retired,
            tx is Some == old(self)@.outboxes.contains_key(handle),
            tx matches Some(queue) ==> queue == old(self).channels@[handle],
    {
        let tx = self.channels.remove(&handle);
        match self.claims.remove(&handle) {
            Some(claimed) => {
                remove_all(&mut self.bindings, &claimed);
                proof {
                    assert(self@.bindings =~= old(self)@.released(handle));
                }
            },
            None => {
                proof {
                    assert(self@.bindings =~= old(self)@.released(handle));
                }
            },
        }
        proof {
            assert(self@.outboxes =~= old(self)@.unregister(handle).outboxes);
            assert(self@.closed =~= old(self)@.unregister(handle).closed);
            assert(self@.retired =~= old(self)@.retired);
        }
        tx
    }
}

/// Removes every key listed in `keys` from `bindings`.
fn remove_all(bindings: &mut HashMap<u128, u64>, keys: &Vec<u128>)
    ensures
        final(bindings)@ == Map::new(
            |id: u128| old(bindings)@.contains_key(id) && !keys@.contains(id),
            |id: u128| old(bindings)@[id],
        ),
{
    let ghost before = bindings@;
    let mut i: usize = 0;
    while i < keys.len()
        invariant
            i <= keys.len(),
            bindings@ =~= Map::new(
                |id: u128| before.contains_key(id) && !keys@.subrange(0, i as int).contains(id),
                |id: u128| before[id],
            ),
        decreases keys.len() - i,
    {
        let key: u128 = keys[i];
        bindings.remove(&key);
        proof {
            let done = keys@.subrange(0, i as int);
            let more = keys@.subrange(0, i + 1);
            assert forall|id: u128| more.contains(id) <==> done.contains(id) || id == key by {
                if done.contains(id) {
                    let j = choose|j: int| 0 <= j < done.len() && done[j] == id;
                    assert(more[j] == id);
                }
                if id == key {
                    assert(more[i as int] == id);
                }
            }
        }
        i += 1;
    }
    assert(keys@.subrange(0, i as int) =~= keys@);
}

} // verus!
