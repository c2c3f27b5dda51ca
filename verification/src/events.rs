//! Lifecycle and routing events for the one-way observer stream.
//!
//! The hub reports three event shapes.  Emission is the driver's job
//! and must never block routing: a full or absent observer channel
//! drops the event.

use vstd::prelude::*;

verus! {

/// An event handed to the observer stream.
#[derive(Debug)]
pub enum ServerEvent {
    NodeConnected { name: String },
    NodeDisconnected { name: String },
    MessageRouted { from: String, to: String },
}

/// The mathematical image of a [`ServerEvent`]: the same shape over
/// character sequences.
pub enum EventV {
    NodeConnected { name: Seq<char> },
    NodeDisconnected { name: Seq<char> },
    MessageRouted { from: Seq<char>, to: Seq<char> },
}

impl View for ServerEvent {
    type V = EventV;

    open spec fn view(&self) -> EventV {
        match self {
            ServerEvent::NodeConnected { name } => EventV::NodeConnected { name: name@ },
            ServerEvent::NodeDisconnected { name } => EventV::NodeDisconnected { name: name@ },
            ServerEvent::MessageRouted { from, to } => EventV::MessageRouted {
                from: from@,
                to: to@,
            },
        }
    }
}

impl DeepView for ServerEvent {
    type V = EventV;

    open spec fn deep_view(&self) -> EventV {
        self.view()
    }
}

/// The name an event carries, for statements about the event stream of
/// one node: the routed shape is matched by both its endpoints.
pub open spec fn event_names(e: EventV, n: Seq<char>) -> bool {
    match e {
        EventV::NodeConnected { name } => name == n,
        EventV::NodeDisconnected { name } => name == n,
        EventV::MessageRouted { from, to } => from == n || to == n,
    }
}

} // verus!
