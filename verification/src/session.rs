//! One connection, from handshake to teardown.
//!
//! A session is `Connecting` until the handshake is over, `Open` while
//! frames are read, `Closing` once the transport has failed or ended, and
//! `Closed` after teardown. The caller owns the socket and the two loops; it
//! tells the session what happened, and the session does the relay's part:
//! it decodes and routes each frame, remembers under which identifier the
//! connection last registered, and takes that entry out of the registry on
//! teardown. A frame that cannot be decoded is skipped and changes nothing.

use crate::codec::{decode, decoded, DecodeError};
use crate::frame::Frame;
use crate::ident::ClientId;
use crate::registry::{without, Registry};
use crate::router::{decision, route, routed, Decision, Outcome};
use tokio::sync::mpsc::UnboundedSender;
use vstd::prelude::*;

verus! {

/// Where a connection stands.
#[derive(Clone, Copy, Debug, PartialEq, Eq, Structural)]
pub enum Phase {
    Connecting,
    Open,
    Closing,
    Closed,
}

/// Why a connection never opened.
#[derive(Clone, Copy, Debug, PartialEq, Eq)]
pub enum SessionError {
    /// The peer's upgrade was rejected.
    HandshakeFailure,
    /// The session is past its handshake.
    NotConnecting,
}

/// What became of a frame that was handed to a session.
#[derive(Clone, Debug, PartialEq, Eq)]
pub enum Received {
    /// The session is not open: the frame was not looked at.
    Refused,
    /// The frame could not be decoded and was skipped.
    Skipped(DecodeError),
    /// The frame was decoded and routed.
    Routed(Outcome),
}

/// The state of one connection.
#[derive(Debug)]
pub struct Session {
    phase: Phase,
    identity: Option<ClientId>,
}

/// The identifier of a connection after it has sent an envelope that led to
/// the given decision.
pub open spec fn identity_after(before: Option<ClientId>, choice: Decision) -> Option<ClientId> {
    match choice {
        Decision::Register(id) => Some(id),
        _ => before,
    }
}

impl Session {
    /// Where the connection stands.
    pub closed spec fn state(&self) -> Phase {
        self.phase
    }

    /// The identifier under which the connection last registered.
    pub closed spec fn registration(&self) -> Option<ClientId> {
        self.identity
    }

    /// A session for a connection whose handshake is still to come.
    pub fn new() -> (session: Session)
        ensures
            session.state() == Phase::Connecting,
            session.registration() is None,
    {
        Session { phase: Phase::Connecting, identity: None }
    }

    /// Where the connection stands.
    pub fn phase(&self) -> (phase: Phase)
        ensures
            phase == self.state(),
    {
        self.phase
    }

    /// The identifier under which the connection last registered.
    pub fn identity(&self) -> (identity: Option<ClientId>)
        ensures
            identity == self.registration(),
    {
        self.identity
    }

    /// Records how the handshake ended. A connecting session becomes open
    /// where the upgrade was accepted; where it was rejected the session is
    /// closed at once, and the failure is returned for the caller to report.
    /// A session past its handshake stays as it is.
    pub fn handshake(&mut self, accepted: bool) -> (result: Result<(), SessionError>)
        ensures
            final(self).registration() == old(self).registration(),
            old(self).state() == Phase::Connecting && accepted ==> result == Ok::<
                (),
                SessionError,
            >(()) && final(self).state() == Phase::Open,
            old(self).state() == Phase::Connecting && !accepted ==> result == Err::<
                (),
                SessionError,
            >(SessionError::HandshakeFailure) && final(self).state() == Phase::Closed,
            old(self).state() != Phase::Connecting ==> result == Err::<(), SessionError>(
                SessionError::NotConnecting,
            ) && final(self).state() == old(self).state(),
    {
        match self.phase {
            Phase::Connecting => {
                if accepted {
                    self.phase = Phase::Open;
                    Ok(())
                } else {
                    self.phase = Phase::Closed;
                    Err(SessionError::HandshakeFailure)
                }
            },
            _ => Err(SessionError::NotConnecting),
        }
    }

    /// Takes one frame that the connection has read. An open session decodes
    /// it and routes the envelope, with the connection's own channel as the
    /// one to register; a frame that cannot be decoded is skipped. Either
    /// way the session stays open. A session that is not open refuses the
    /// frame.
    pub fn receive(
        &mut self,
        frame: Frame,
        registry: &mut Registry,
        sender: UnboundedSender<Frame>,
    ) -> (received: Received)
        ensures
            final(self).state() == old(self).state(),
            old(self).state() != Phase::Open ==> {
                &&& received == Received::Refused
                &&& final(registry)@ == old(registry)@
                &&& final(self).registration() == old(self).registration()
            },
            old(self).state() == Phase::Open ==> match decoded(frame) {
                Ok(envelope) => {
                    &&& received matches Received::Routed(outcome)
                    &&& routed(envelope, sender, old(registry)@, final(registry)@, outcome)
                    &&& final(self).registration() == identity_after(
                        old(self).registration(),
                        decision(envelope),
                    )
                },
                Err(error) => {
                    &&& received == Received::Skipped(error)
                    &&& final(registry)@ == old(registry)@
                    &&& final(self).registration() == old(self).registration()
                },
            },
    {
        match self.phase {
            Phase::Open => match decode(frame) {
                Ok(envelope) => {
                    let outcome = route(envelope, registry, sender);
                    match outcome {
                        Outcome::Registered(id) => {
                            self.identity = Some(id);
                        },
                        _ => {},
                    }
                    Received::Routed(outcome)
                },
                Err(error) => Received::Skipped(error),
            },
            _ => Received::Refused,
        }
    }

    /// Records that the transport has failed or ended: an open session
    /// starts closing. Tells whether it did.
    pub fn disconnect(&mut self) -> (closing: bool)
        ensures
            final(self).registration() == old(self).registration(),
            closing == (old(self).state() == Phase::Open),
            final(self).state() == if closing {
                Phase::Closing
            } else {
                old(self).state()
            },
    {
        match self.phase {
            Phase::Open => {
                self.phase = Phase::Closing;
                true
            },
            _ => false,
        }
    }

    /// Tears a closing session down: the entry under the identifier that the
    /// connection last registered leaves the registry, and the session is
    /// closed. Returns that identifier. A session in any other phase stays
    /// as it is.
    pub fn close(&mut self, registry: &mut Registry) -> (removed: Option<ClientId>)
        ensures
            old(self).state() == Phase::Closing ==> {
                &&& final(self).state() == Phase::Closed
                &&& final(self).registration() is None
                &&& removed == old(self).registration()
                &&& final(registry)@ == match removed {
                    Some(id) => without(old(registry)@, id),
                    None => old(registry)@,
                }
            },
            old(self).state() != Phase::Closing ==> {
                &&& final(self).state() == old(self).state()
                &&& final(self).registration() == old(self).registration()
                &&& removed is None
                &&& final(registry)@ == old(registry)@
            },
    {
        match self.phase {
            Phase::Closing => {
                let removed = self.identity;
                match removed {
                    Some(id) => {
                        registry.deregister(id);
                    },
                    None => {},
                }
                self.identity = None;
                self.phase = Phase::Closed;
                removed
            },
            _ => None,
        }
    }
}

} // verus!
