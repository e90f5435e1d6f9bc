//! The router: where an envelope goes.
//!
//! A control envelope with the registration action puts the sending
//! connection's channel into the registry, under the identifier it names.
//! A data envelope is passed on as it came: to the controller where it names
//! the controller, and else to every client that is not the controller.
//! The relay does not know which client waits for which reply, so a reply
//! goes to all of them. Any other envelope is dropped.

use crate::codec::{Envelope, REGISTRATION_ACTION};
use crate::frame::Frame;
use crate::ident::ClientId;
use crate::registry::{
    addressed, holds, registered, without, ControllerDelivery, Delivery, Entry, Registry,
};
use tokio::sync::mpsc::UnboundedSender;
use vstd::prelude::*;

verus! {

/// What is to be done with an envelope.
#[derive(Clone, Copy, Debug, PartialEq, Eq)]
pub enum Decision {
    /// Register the sending connection under the identifier.
    Register(ClientId),
    /// Pass the frame to the controller.
    ToController,
    /// Pass the frame to every client but the controller.
    Broadcast,
    /// Do nothing.
    Drop,
}

/// What was done with an envelope.
#[derive(Clone, Debug, PartialEq, Eq)]
pub enum Outcome {
    /// The sending connection now stands under the identifier.
    Registered(ClientId),
    /// The frame was meant for the controller, and fared thus.
    Forwarded(ControllerDelivery),
    /// The frame was posted to these clients, in this order.
    Broadcast(Vec<Delivery>),
    /// The envelope was dropped.
    Dropped,
}

/// What is to be done with an envelope.
pub open spec fn decision(envelope: Envelope) -> Decision {
    match envelope {
        Envelope::Control { action, client_id } => if action == REGISTRATION_ACTION {
            Decision::Register(client_id)
        } else {
            Decision::Drop
        },
        Envelope::Data { action, client_id, payload } => if client_id == ClientId::controller_id() {
            Decision::ToController
        } else {
            Decision::Broadcast
        },
    }
}

/// Whether routing the envelope, sent by the connection with the given
/// channel, can have led from one registry to the other with this outcome.
pub open spec fn routed(
    envelope: Envelope,
    sender: UnboundedSender<Frame>,
    before: Seq<Entry>,
    after: Seq<Entry>,
    outcome: Outcome,
) -> bool {
    match decision(envelope) {
        Decision::Register(id) => {
            &&& after == registered(before, id, sender)
            &&& outcome == Outcome::Registered(id)
        },
        Decision::ToController => {
            &&& after == before
            &&& outcome matches Outcome::Forwarded(delivery)
            &&& (delivery is Absent <==> !holds(before, ClientId::controller_id()))
        },
        Decision::Broadcast => {
            &&& after == before
            &&& outcome matches Outcome::Broadcast(report)
            &&& addressed(report@, without(before, ClientId::controller_id()))
        },
        Decision::Drop => {
            &&& after == before
            &&& outcome == Outcome::Dropped
        },
    }
}

/// Decides what is to be done with an envelope.
pub fn decide(envelope: &Envelope) -> (choice: Decision)
    ensures
        choice == decision(*envelope),
{
    match envelope {
        Envelope::Control { action, client_id } => {
            if *action == REGISTRATION_ACTION {
                Decision::Register(*client_id)
            } else {
                Decision::Drop
            }
        },
        Envelope::Data { action: _, client_id, payload: _ } => {
            if client_id.is_controller() {
                Decision::ToController
            } else {
                Decision::Broadcast
            }
        },
    }
}

/// Routes one envelope that came from the connection with the given channel.
/// The registry changes on a registration and on nothing else; a channel
/// that does not take a frame shows in the outcome and stops nothing.
pub fn route(envelope: Envelope, registry: &mut Registry, sender: UnboundedSender<Frame>) -> (outcome:
    Outcome)
    ensures
        routed(envelope, sender, old(registry)@, final(registry)@, outcome),
{
    match envelope {
        Envelope::Control { action, client_id } => {
            if action == REGISTRATION_ACTION {
                registry.register(client_id, sender);
                Outcome::Registered(client_id)
            } else {
                Outcome::Dropped
            }
        },
        Envelope::Data { action: _, client_id, payload } => {
            if client_id.is_controller() {
                Outcome::Forwarded(registry.send_to_controller(payload))
            } else {
                Outcome::Broadcast(registry.broadcast_except(ClientId::controller(), &payload))
            }
        },
    }
}

} // verus!
