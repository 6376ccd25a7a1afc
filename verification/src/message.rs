//! Requests exchanged with the clients, and what the server sends back.
use vstd::prelude::*;

verus! {

/// A request as clients send it, and as the server relays it.
#[derive(Clone, Debug)]
pub struct TTRequest {
    /// What the sender asks for: `host`, `join`, `addGuest` or `send`.
    pub action: String,
    /// The room the request is about.
    pub gameId: String,
    /// The sender's player number.
    pub sender: i32,
    /// For `send`, the connections to relay to; for `addGuest`, the player
    /// number given to the guest first.
    pub recipients: Vec<i32>,
    /// The kind of message, in the clients' own numbering.
    pub messageId: i16,
    /// A JSON document whose meaning depends on `action`.
    pub payload: String,
}

/// The mathematical picture of a [`TTRequest`].
pub struct RequestView {
    pub action: Seq<char>,
    pub game_id: Seq<char>,
    pub sender: i32,
    pub recipients: Seq<i32>,
    pub message_id: i16,
    pub payload: Seq<char>,
}

impl View for TTRequest {
    type V = RequestView;

    open spec fn view(&self) -> RequestView {
        RequestView {
            action: self.action@,
            game_id: self.gameId@,
            sender: self.sender,
            recipients: self.recipients@,
            message_id: self.messageId,
            payload: self.payload@,
        }
    }
}

impl TTRequest {
    /// A copy of this request.
    pub(crate) fn duplicate(&self) -> (copy: TTRequest)
        ensures
            copy@ == self@,
    {
        let mut recipients: Vec<i32> = Vec::new();
        let mut i: usize = 0;
        while i < self.recipients.len()
            invariant
                i <= self.recipients.len(),
                recipients@ == self.recipients@.take(i as int),
            decreases self.recipients.len() - i,
        {
            recipients.push(self.recipients[i]);
            assert(self.recipients@.take(i + 1) =~= self.recipients@.take(i as int).push(
                self.recipients@[i as int],
            ));
            i = i + 1;
        }
        assert(self.recipients@.take(self.recipients.len() as int) =~= self.recipients@);
        TTRequest {
            action: self.action.clone(),
            gameId: self.gameId.clone(),
            sender: self.sender,
            recipients,
            messageId: self.messageId,
            payload: self.payload.clone(),
        }
    }
}

/// How a message is to be handed to a connection's task.
#[derive(Clone, Copy, Debug, PartialEq, Eq, Structural)]
pub enum SendMode {
    /// Delivered when the connection is registered, dropped otherwise; a
    /// delivery that fails is fatal.
    IfConnected,
    /// The connection must be registered (it is fatal otherwise); the
    /// outcome of the delivery is ignored.
    MustBeConnected,
    /// Delivered when the connection is registered; a missing connection or
    /// a failed delivery is only reported.
    BestEffort,
}

/// A message for one connection: a request to relay, or, with no request,
/// the order to close that connection.
pub struct Outgoing {
    pub connection: i64,
    pub message: Option<TTRequest>,
    pub mode: SendMode,
}

/// The mathematical picture of an [`Outgoing`].
pub struct OutgoingView {
    pub connection: i64,
    pub message: Option<RequestView>,
    pub mode: SendMode,
}

impl View for Outgoing {
    type V = OutgoingView;

    open spec fn view(&self) -> OutgoingView {
        OutgoingView {
            connection: self.connection,
            message: match self.message {
                Some(m) => Some(m@),
                None => None,
            },
            mode: self.mode,
        }
    }
}

/// A request the server cannot serve; the server stops on it.
#[derive(Clone, Copy, Debug, PartialEq, Eq, Structural)]
pub enum Fault {
    /// The payload is not the JSON document the action needs.
    MalformedPayload,
    /// An `addGuest` request names no player number.
    NoRecipient,
    /// The guest connection named by an `addGuest` request is not a number.
    BadGuestId,
    /// An `addGuest` request admits a guest into a room that does not exist.
    UnknownGame,
    /// A `join` request names a room that has no player 0 (never the case
    /// in a state the server reaches from the empty one).
    NoHost,
    /// The refusal of a `join` request would need a message kind beyond
    /// the largest one.
    MessageIdOverflow,
}

/// The actions the server knows.
#[derive(Clone, Copy, Debug, PartialEq, Eq, Structural)]
pub enum Command {
    Host,
    Join,
    AddGuest,
    Send,
    Unrecognized,
}

/// The mathematical picture of what a request handler answers.
pub open spec fn outcome_view(r: Result<Vec<Outgoing>, Fault>) -> Result<Seq<OutgoingView>, Fault> {
    match r {
        Ok(v) => Ok(v@.map_values(|o: Outgoing| o@)),
        Err(f) => Err(f),
    }
}

/// The command an action names.
pub open spec fn command_of(action: Seq<char>) -> Command {
    if action == "host"@ {
        Command::Host
    } else if action == "join"@ {
        Command::Join
    } else if action == "addGuest"@ {
        Command::AddGuest
    } else if action == "send"@ {
        Command::Send
    } else {
        Command::Unrecognized
    }
}

/// The command an action names.
pub fn command(action: &String) -> (c: Command)
    ensures
        c == command_of(action@),
{
    if *action == "host".to_owned() {
        Command::Host
    } else if *action == "join".to_owned() {
        Command::Join
    } else if *action == "addGuest".to_owned() {
        Command::AddGuest
    } else if *action == "send".to_owned() {
        Command::Send
    } else {
        Command::Unrecognized
    }
}

} // verus!
