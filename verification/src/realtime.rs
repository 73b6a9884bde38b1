//! The live event connection of a signed-in user: events published on the
//! user's channel are forwarded to the socket until the client leaves.

use vstd::prelude::*;

verus! {

/// What happened on a live connection.
pub enum SocketEvent {
    /// An event was published on the user's channel, with this payload.
    Published(String),
    /// The client sent a message other than a close frame.
    ClientMessage,
    /// The client sent a close frame.
    ClientClosed,
    /// Reading from the client failed.
    ClientError,
}

/// What the connection does next.
pub enum SocketAction {
    /// Send this payload to the client as a text frame.
    Forward(String),
    /// Keep waiting.
    Continue,
    /// End the connection.
    Disconnect,
}

/// The reaction to an event on a live connection.
pub fn on_socket_event(e: SocketEvent) -> (a: SocketAction)
    ensures
        match e {
            SocketEvent::Published(p) => a matches SocketAction::Forward(q) && q@ == p@,
            SocketEvent::ClientMessage => a is Continue,
            SocketEvent::ClientClosed => a is Disconnect,
            SocketEvent::ClientError => a is Disconnect,
        },
{
    match e {
        SocketEvent::Published(p) => SocketAction::Forward(p),
        SocketEvent::ClientMessage => SocketAction::Continue,
        SocketEvent::ClientClosed => SocketAction::Disconnect,
        SocketEvent::ClientError => SocketAction::Disconnect,
    }
}

} // verus!
