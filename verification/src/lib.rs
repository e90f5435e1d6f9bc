//! A message relay between a fleet of web clients and one privileged
//! controller connection.
//!
//! The relay keeps a [`registry::Registry`] of the outbound channels of the
//! live connections, decodes each inbound frame into an
//! [`codec::Envelope`], and lets the [`router`] decide where the frame goes:
//! into the registry (a registration), to the controller, or out to every
//! web client. A [`session::Session`] follows one connection from handshake
//! to teardown. What holds of the registry whatever is done to it is proved
//! in [`laws`].
//!
//! Everything here is synchronous and free of I/O: the caller owns the
//! sockets and the tasks, and hands frames in.

pub mod ident;
pub mod frame;
pub mod codec;
pub mod status;
pub mod registry;
pub mod router;
pub mod session;
pub mod laws;
