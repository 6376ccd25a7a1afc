//! The decisions of the task that serves one websocket connection: it
//! passes what the client sends on to the server, and what the server sends
//! on to the client, until either side ends the exchange.
use vstd::prelude::*;

verus! {

/// What the connection's task observes next.
pub enum ClientEvent {
    /// The client sent a text frame.
    Received(String),
    /// The client sent a frame that is not text.
    ReceivedOther,
    /// Reading from the socket failed.
    ReadFailed,
    /// The client's stream ended.
    StreamEnded,
    /// The server has text for the client.
    Deliver(String),
    /// The server asks for the connection to be closed.
    CloseRequested,
}

/// What the connection's task does about it.
pub enum ClientAction {
    /// Read the text as a request and pass it to the server.
    Forward(String),
    /// Nothing; wait for the next event.
    Ignore,
    /// Send the text to the client as a text frame.
    Transmit(String),
    /// Close the socket and end the task.
    Shutdown,
    /// Close the socket, tell the server that the connection has left, and
    /// end the task.
    Depart,
}

/// The mathematical picture of a reaction, as (kind, text).
pub open spec fn action_view(a: ClientAction) -> (int, Seq<char>) {
    match a {
        ClientAction::Forward(t) => (0, t@),
        ClientAction::Ignore => (1, Seq::empty()),
        ClientAction::Transmit(t) => (2, t@),
        ClientAction::Shutdown => (3, Seq::empty()),
        ClientAction::Depart => (4, Seq::empty()),
    }
}

/// How the task reacts to each event: text from the client goes to the
/// server, other frames are ignored, text from the server goes to the
/// client; a failed read or the end of the stream means the client has
/// left, which the server is told; the server's order closes the socket and
/// ends the task.
pub open spec fn reaction(e: ClientEvent) -> (int, Seq<char>) {
    match e {
        ClientEvent::Received(t) => (0, t@),
        ClientEvent::ReceivedOther => (1, Seq::empty()),
        ClientEvent::ReadFailed => (4, Seq::empty()),
        ClientEvent::StreamEnded => (4, Seq::empty()),
        ClientEvent::Deliver(t) => (2, t@),
        ClientEvent::CloseRequested => (3, Seq::empty()),
    }
}

/// The task's reaction to one event.
pub fn client_step(event: ClientEvent) -> (action: ClientAction)
    ensures
        action_view(action) == reaction(event),
{
    match event {
        ClientEvent::Received(text) => ClientAction::Forward(text),
        ClientEvent::ReceivedOther => ClientAction::Ignore,
        ClientEvent::ReadFailed => ClientAction::Depart,
        ClientEvent::StreamEnded => ClientAction::Depart,
        ClientEvent::Deliver(text) => ClientAction::Transmit(text),
        ClientEvent::CloseRequested => ClientAction::Shutdown,
    }
}

} // verus!
