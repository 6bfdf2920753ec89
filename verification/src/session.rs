//! The life of one connection, as far as the registry is concerned.
//!
//! A session starts out connecting. Once its transport is upgraded it is
//! active and registered; when either of its two pumps stops it is
//! closing; and when it has left the registry it is closed for good. The
//! transport itself, and the pumps, are the caller's business.

use vstd::prelude::*;
use crate::channel::{accepted, closed, Tx};
use crate::registry::{Registry, RegistryError};

verus! {

#[derive(Clone, Copy, Debug, PartialEq, Eq, Structural)]
pub enum SessionState {
    Connecting,
    Active,
    Closing,
    Closed,
}

pub struct SessionView {
    pub handle: u64,
    pub state: SessionState,
}

/// One connection's session. Its handle must name no other session that
/// is not yet closed.
pub struct Session {
    handle: u64,
    state: SessionState,
}

impl View for Session {
    type V = SessionView;

    closed spec fn view(&self) -> SessionView {
        SessionView { handle: self.handle, state: self.state }
    }
}

impl Session {
    /// A session for the connection `handle`, not yet upgraded.
    pub fn new(handle: u64) -> (session: Session)
        ensures
            session@ == (SessionView { handle, state: SessionState::Connecting }),
    {
        Session { handle, state: SessionState::Connecting }
    }

    pub fn handle(&self) -> (handle: u64)
        ensures
            handle == self@.handle,
    {
        self.handle
    }

    pub fn state(&self) -> (state: SessionState)
        ensures
            state == self@.state,
    {
        self.state
    }

    /// The transport was upgraded, and `tx` feeds the connection's
    /// outbound queue: a connecting session registers and becomes active.
    ///
    /// Should the handle be live already, the session is closed at once
    /// and never touches the registry. In any other state nothing happens.
    pub fn upgraded(&mut self, tx: Tx, registry: &mut Registry) -> (outcome: Result<
        (),
        RegistryError,
    >)
        requires
            old(registry).wf(),
        ensures
            final(registry).wf(),
            final(self)@.handle == old(self)@.handle,
            ({
                let handle = old(self)@.handle;
                let before = old(registry)@;
                let after = final(registry)@;
                if old(self)@.state != SessionState::Connecting {
                    outcome is Ok && final(self)@ == old(self)@ && after == before
                } else if before.outboxes.contains_key(handle) {
                    &&& outcome == Err::<(), RegistryError>(RegistryError::HandleInUse)
                    &&& final(self)@.state == SessionState::Closed
                    &&& after == before
                } else {
                    &&& outcome is Ok
                    &&& final(self)@.state == SessionState::Active
                    &&& after == before.register(handle, accepted(tx), closed(tx))
                }
            }),
    {
        match self.state {
            SessionState::Connecting => {},
            _ => {
                return Ok(());
            },
        }
        match registry.register(self.handle, tx) {
            Ok(()) => {
                self.state = SessionState::Active;
                Ok(())
            },
            Err(refused) => {
                self.state = SessionState::Closed;
                Err(refused)
            },
        }
    }

    /// The upgrade failed: a connecting session is closed, having never
    /// touched the registry.
    pub fn upgrade_failed(&mut self)
        ensures
            final(self)@.handle == old(self)@.handle,
            final(self)@.state == if old(self)@.state == SessionState::Connecting {
                SessionState::Closed
            } else {
                old(self)@.state
            },
    {
        match self.state {
            SessionState::Connecting => {
                self.state = SessionState::Closed;
            },
            _ => {},
        }
    }

    /// One of the two pumps stopped, for whatever reason: an active
    /// session starts closing.
    pub fn pump_stopped(&mut self)
        ensures
            final(self)@.handle == old(self)@.handle,
            final(self)@.state == if old(self)@.state == SessionState::Active {
                SessionState::Closing
            } else {
                old(self)@.state
            },
    {
        match self.state {
            SessionState::Active => {
                self.state = SessionState::Closing;
            },
            _ => {},
        }
    }

    /// Completes the closing of a session: its connection leaves the
    /// registry, with every binding that still points at it. A session in
    /// any other state leaves the registry alone.
    pub fn finish(&mut self, registry: &mut Registry)
        requires
            old(registry).wf(),
        ensures
            final(registry).wf(),
            final(self)@.handle == old(self)@.handle,
            if old(self)@.state == SessionState::Closing {
                &&& final(self)@.state == SessionState::Closed
                &&& final(registry)@ == old(registry)@.unregister(old(self)@.handle)
            } else {
                &&& final(self)@ == old(self)@
                &&& final(registry)@ == old(registry)@
            },
    {
        match self.state {
            SessionState::Closing => {
                registry.unregister(self.handle);
                self.state = SessionState::Closed;
            },
            _ => {},
        }
    }
}

} // verus!
