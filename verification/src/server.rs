//! What the server does with each request it receives: the changes to its
//! state, and the messages it sends out.
use vstd::prelude::*;

use crate::laws::{
    lemma_admitting_keeps_rooms_hosted, lemma_hosting_keeps_rooms_hosted,
    lemma_leaving_keeps_rooms_hosted,
};
use crate::message::{
    command, command_of, outcome_view, Command, Fault, Outgoing, OutgoingView, RequestView,
    SendMode, TTRequest,
};
use crate::model::{find_player, player_numbered, Database, DatabaseView, PlayerData};
use crate::numbers::{decimal, decimal_text, parse_i64, parsed_i64};
use crate::password::{gen_password, is_room_code};
use crate::payload::{
    json_member_text, json_object_of_text_and_number, json_parses, json_with_member_text,
    member_text, object_of_text_and_number, parses, text_of, with_member_text,
};
use vstd::string::StringExecFns;

verus! {

/// A one-message answer.
pub open spec fn single(connection: i64, message: RequestView, mode: SendMode) -> Seq<OutgoingView> {
    seq![OutgoingView { connection, message: Some(message), mode }]
}

/// What answers a `host` request from connection `host` once room `code`
/// is open: the request goes back to the host as sent by player 0, with the
/// room code both in its `gameId` and in its payload (`payload`, when the
/// payload could be rewritten).
pub open spec fn host_outcome(
    msg: RequestView,
    host: i64,
    code: Seq<char>,
    payload: Option<Seq<char>>,
) -> Result<Seq<OutgoingView>, Fault> {
    match payload {
        None => Err(Fault::MalformedPayload),
        Some(p) => Ok(
            single(
                host,
                RequestView { sender: 0, game_id: code, payload: p, ..msg },
                SendMode::IfConnected,
            ),
        ),
    }
}

/// The suffix a refused `join` request gets on the room it asked for.
pub open spec fn not_found_suffix() -> Seq<char> {
    " not Found"@
}

/// What answers a `join` request from connection `joiner` that asks for
/// room `room`: when the room exists, the request goes to its host (its
/// first player 0) with the payload `forwarded` (where the joiner's
/// connection is written); when it does not, the request goes back to the
/// joiner with the next message kind and the payload `refused` (where the
/// room is marked as not found).
pub open spec fn join_outcome(
    db: DatabaseView,
    joiner: i64,
    msg: RequestView,
    room: Option<Seq<char>>,
    forwarded: Option<Seq<char>>,
    refused: Option<Seq<char>>,
) -> Result<Seq<OutgoingView>, Fault> {
    match room {
        None => Err(Fault::MalformedPayload),
        Some(code) => if db.games.contains_key(code) {
            match player_numbered(db.games[code], 0) {
                None => Err(Fault::NoHost),
                Some(host) => match forwarded {
                    None => Err(Fault::MalformedPayload),
                    Some(p) => Ok(
                        single(host.connectionId, RequestView { payload: p, ..msg }, SendMode::MustBeConnected),
                    ),
                },
            }
        } else if msg.message_id == i16::MAX {
            Err(Fault::MessageIdOverflow)
        } else {
            match refused {
                None => Err(Fault::MalformedPayload),
                Some(p) => Ok(
                    single(
                        joiner,
                        RequestView { message_id: (msg.message_id + 1) as i16, payload: p, ..msg },
                        SendMode::MustBeConnected,
                    ),
                ),
            }
        },
    }
}

/// The refusal payload a `join` request gets: its `arg` member, the room
/// asked for, with the not-found suffix.
pub open spec fn join_refusal(payload: Seq<char>) -> Option<Seq<char>> {
    match json_member_text(payload, "arg"@) {
        Some(room) => json_with_member_text(payload, "arg"@, room + not_found_suffix()),
        None => None,
    }
}

/// What an `addGuest` request does to the state and what answers it. The
/// host names the guest's player number (the first recipient) and the
/// guest's connection (`guest_text`, read from the payload, which must be
/// JSON: `valid`). A positive number admits the guest into the request's
/// room and tells it so with `game_info`; any other number refuses it, and
/// the guest gets the request back as it came.
pub open spec fn guest_outcome(
    db: DatabaseView,
    msg: RequestView,
    valid: bool,
    guest_text: Option<Seq<char>>,
    game_info: Seq<char>,
) -> (DatabaseView, Result<Seq<OutgoingView>, Fault>) {
    if !valid {
        (db, Err(Fault::MalformedPayload))
    } else if msg.recipients.len() == 0 {
        (db, Err(Fault::NoRecipient))
    } else if guest_text is None {
        (db, Err(Fault::MalformedPayload))
    } else if parsed_i64(guest_text.unwrap()) is None {
        (db, Err(Fault::BadGuestId))
    } else {
        let guest: i64 = parsed_i64(guest_text.unwrap()).unwrap();
        let player: i32 = msg.recipients[0];
        if player > 0 {
            if !db.games.contains_key(msg.game_id) {
                (db, Err(Fault::UnknownGame))
            } else {
                (
                    db.with_guest(msg.game_id, player as i64, guest),
                    Ok(single(guest, RequestView { payload: game_info, ..msg }, SendMode::IfConnected)),
                )
            }
        } else {
            (db, Ok(single(guest, msg, SendMode::IfConnected)))
        }
    }
}

/// The connections that recipients `recipients` name among `players`, in
/// order: each recipient is a player number, and stands for the connection
/// of the first player with that number; a number no player has names none.
pub open spec fn recipient_connections(players: Seq<PlayerData>, recipients: Seq<i32>) -> Seq<i64>
    decreases recipients.len(),
{
    if recipients.len() == 0 {
        Seq::empty()
    } else {
        let earlier = recipient_connections(players, recipients.drop_last());
        match player_numbered(players, recipients.last() as i64) {
            Some(p) => earlier.push(p.connectionId),
            None => earlier,
        }
    }
}

/// The players of room `code` (none when there is no such room).
pub open spec fn room_of(db: DatabaseView, code: Seq<char>) -> Seq<PlayerData> {
    if db.games.contains_key(code) {
        db.games[code]
    } else {
        Seq::empty()
    }
}

/// A `send` request goes, unchanged, to the connection of each of its
/// recipients in the request's room, in order.
pub open spec fn send_outcome(db: DatabaseView, msg: RequestView) -> Seq<OutgoingView> {
    recipient_connections(room_of(db, msg.game_id), msg.recipients).map_values(
        |c: i64| OutgoingView { connection: c, message: Some(msg), mode: SendMode::BestEffort },
    )
}

/// The order to close connection `conn`.
pub open spec fn close_outcome(conn: i64) -> Seq<OutgoingView> {
    seq![OutgoingView { connection: conn, message: None, mode: SendMode::MustBeConnected }]
}

/// A list holding one message.
fn one_message(connection: i64, message: TTRequest, mode: SendMode) -> (out: Vec<Outgoing>)
    ensures
        out@.map_values(|o: Outgoing| o@) == single(connection, message@, mode),
{
    let mut out: Vec<Outgoing> = Vec::new();
    out.push(Outgoing { connection, message: Some(message), mode });
    assert(out@.map_values(|o: Outgoing| o@) =~= single(connection, message@, mode));
    out
}

/// Opens room `code` for connection `sender_id` and answers its `host`
/// request; `payload` is the request's payload with its `gameId` member
/// set to the code, when that could be done.
pub fn host_room(
    db: &mut Database,
    sender_id: i64,
    msg: TTRequest,
    code: String,
    payload: Option<String>,
) -> (r: Result<Vec<Outgoing>, Fault>)
    ensures
        final(db)@ == old(db)@.hosted(sender_id, code@),
        outcome_view(r) == host_outcome(msg@, sender_id, code@, text_of(payload)),
{
    db.open_room(sender_id, code.clone());
    match payload {
        None => Err(Fault::MalformedPayload),
        Some(p) => {
            let mut reply = msg;
            reply.payload = p;
            reply.gameId = code;
            reply.sender = 0;
            Ok(one_message(sender_id, reply, SendMode::IfConnected))
        },
    }
}

/// Serves a `host` request from connection `sender_id`: a room with a fresh
/// code is opened with the sender as player 0, and the request goes back
/// to it carrying the code.
pub fn process_host(db: &mut Database, sender_id: i64, msg: TTRequest) -> (r: Result<
    Vec<Outgoing>,
    Fault,
>)
    ensures
        final(db)@.connections.contains_key(sender_id),
        is_room_code(final(db)@.connections[sender_id]),
        final(db)@ == old(db)@.hosted(sender_id, final(db)@.connections[sender_id]),
        outcome_view(r) == host_outcome(
            msg@,
            sender_id,
            final(db)@.connections[sender_id],
            json_with_member_text(msg.payload@, "gameId"@, final(db)@.connections[sender_id]),
        ),
        json_with_member_text(msg.payload@, "gameId"@, final(db)@.connections[sender_id]) matches Some(
            t,
        ) ==> json_member_text(t, "gameId"@) == Some(final(db)@.connections[sender_id]),
{
    let code = gen_password();
    let payload = with_member_text(msg.payload.as_str(), "gameId", code.as_str());
    host_room(db, sender_id, msg, code, payload)
}

/// Answers a `join` request from connection `sender_id` that asks for room
/// `room`; `forwarded` is the request's payload with its `arg` member set
/// to the sender's connection, and `refused` the payload with `arg` marked
/// as not found, when those could be written.
pub fn answer_join(
    db: &Database,
    sender_id: i64,
    msg: TTRequest,
    room: Option<String>,
    forwarded: Option<String>,
    refused: Option<String>,
) -> (r: Result<Vec<Outgoing>, Fault>)
    ensures
        outcome_view(r) == join_outcome(
            db@,
            sender_id,
            msg@,
            text_of(room),
            text_of(forwarded),
            text_of(refused),
        ),
{
    let room = match room {
        None => {
            return Err(Fault::MalformedPayload);
        },
        Some(code) => code,
    };
    match db.room_players(room.as_str()) {
        Some(players) => {
            let host = match find_player(players, 0) {
                None => {
                    return Err(Fault::NoHost);
                },
                Some(h) => h,
            };
            match forwarded {
                None => Err(Fault::MalformedPayload),
                Some(p) => {
                    let mut request = msg;
                    request.payload = p;
                    Ok(one_message(host.connectionId, request, SendMode::MustBeConnected))
                },
            }
        },
        None => {
            if msg.messageId == i16::MAX {
                return Err(Fault::MessageIdOverflow);
            }
            match refused {
                None => Err(Fault::MalformedPayload),
                Some(p) => {
                    let mut refusal = msg;
                    refusal.messageId = refusal.messageId + 1;
                    refusal.payload = p;
                    Ok(one_message(sender_id, refusal, SendMode::MustBeConnected))
                },
            }
        },
    }
}

/// Serves a `join` request from connection `sender_id`: the room named by
/// the payload's `arg` is looked up; its host is asked to admit the sender,
/// whose connection replaces `arg`, or, when there is no such room, the
/// sender is told so by the next message kind, with `arg` marked as not
/// found.
pub fn process_join(db: &Database, sender_id: i64, msg: TTRequest) -> (r: Result<
    Vec<Outgoing>,
    Fault,
>)
    ensures
        outcome_view(r) == join_outcome(
            db@,
            sender_id,
            msg@,
            json_member_text(msg.payload@, "arg"@),
            json_with_member_text(msg.payload@, "arg"@, decimal(sender_id as int)),
            join_refusal(msg.payload@),
        ),
        json_with_member_text(msg.payload@, "arg"@, decimal(sender_id as int)) matches Some(t)
            ==> json_member_text(t, "arg"@) == Some(decimal(sender_id as int)),
        json_member_text(msg.payload@, "arg"@) matches Some(room) ==> (join_refusal(msg.payload@) matches Some(t)
            ==> json_member_text(t, "arg"@) == Some(room + not_found_suffix())),
{
    let room = member_text(msg.payload.as_str(), "arg");
    let joiner = decimal_text(sender_id);
    let forwarded = with_member_text(msg.payload.as_str(), "arg", joiner.as_str());
    let refused = match &room {
        Some(code) => {
            let marked = code.clone().concat(" not Found");
            with_member_text(msg.payload.as_str(), "arg", marked.as_str())
        },
        None => None,
    };
    answer_join(db, sender_id, msg, room, forwarded, refused)
}

/// Carries out an `addGuest` request; `valid` tells whether the payload is
/// JSON, `guest_text` is its `arg` member, and `game_info` the document
/// that tells an admitted guest its room and player number.
pub fn admit_guest(
    db: &mut Database,
    msg: TTRequest,
    valid: bool,
    guest_text: Option<String>,
    game_info: String,
) -> (r: Result<Vec<Outgoing>, Fault>)
    ensures
        (final(db)@, outcome_view(r)) == guest_outcome(
            old(db)@,
            msg@,
            valid,
            text_of(guest_text),
            game_info@,
        ),
{
    if !valid {
        return Err(Fault::MalformedPayload);
    }
    if msg.recipients.len() == 0 {
        return Err(Fault::NoRecipient);
    }
    let player: i32 = msg.recipients[0];
    let guest_text = match guest_text {
        None => {
            return Err(Fault::MalformedPayload);
        },
        Some(t) => t,
    };
    let guest: i64 = match parse_i64(guest_text.as_str()) {
        None => {
            return Err(Fault::BadGuestId);
        },
        Some(g) => g,
    };
    let mut reply = msg;
    if player > 0 {
        if !db.enter_room(reply.gameId.as_str(), player as i64, guest) {
            return Err(Fault::UnknownGame);
        }
        reply.payload = game_info;
    }
    Ok(one_message(guest, reply, SendMode::IfConnected))
}

/// Serves an `addGuest` request, by which a host admits (positive player
/// number) or refuses a guest: an admitted guest enters the room and learns
/// its room code and player number; a refused one gets the request back as
/// it came.
pub fn process_add_guest(db: &mut Database, msg: TTRequest) -> (r: Result<Vec<Outgoing>, Fault>)
    ensures
        (final(db)@, outcome_view(r)) == guest_outcome(
            old(db)@,
            msg@,
            json_parses(msg.payload@),
            json_member_text(msg.payload@, "arg"@),
            json_object_of_text_and_number("gameId"@, msg.gameId@, "pId"@, msg.recipients@[0] as i64),
        ),
        msg.recipients.len() > 0 ==> json_member_text(
            json_object_of_text_and_number("gameId"@, msg.gameId@, "pId"@, msg.recipients@[0] as i64),
            "gameId"@,
        ) == Some(msg.gameId@),
{
    let valid = parses(msg.payload.as_str());
    let guest_text = member_text(msg.payload.as_str(), "arg");
    let game_info = if msg.recipients.len() > 0 {
        let info = object_of_text_and_number("gameId", msg.gameId.as_str(), "pId", msg.recipients[0] as i64);
        proof {
            reveal_strlit("gameId");
            reveal_strlit("pId");
            assert("gameId"@[0] != "pId"@[0]);
        }
        info
    } else {
        String::new()
    };
    admit_guest(db, msg, valid, guest_text, game_info)
}

/// Serves the departure of connection `sender_id`: it leaves its room (a
/// room its host leaves, or that is left empty, is closed), and its task is
/// told to close.
pub fn process_disconnect(db: &mut Database, sender_id: i64) -> (out: Vec<Outgoing>)
    ensures
        final(db)@ == old(db)@.without_connection(sender_id),
        out@.map_values(|o: Outgoing| o@) == close_outcome(sender_id),
{
    db.drop_connection(sender_id);
    let mut out: Vec<Outgoing> = Vec::new();
    out.push(Outgoing { connection: sender_id, message: None, mode: SendMode::MustBeConnected });
    assert(out@.map_values(|o: Outgoing| o@) =~= close_outcome(sender_id));
    out
}

/// Serves a `send` request: it is relayed, unchanged, to the connection of
/// each recipient player of the request's room.
pub fn process_send(db: &Database, msg: TTRequest) -> (out: Vec<Outgoing>)
    ensures
        out@.map_values(|o: Outgoing| o@) == send_outcome(db@, msg@),
{
    let empty: Vec<PlayerData> = Vec::new();
    let players: &Vec<PlayerData> = match db.room_players(msg.gameId.as_str()) {
        Some(p) => p,
        None => &empty,
    };
    let ghost room: Seq<PlayerData> = room_of(db@, msg@.game_id);
    assert(players@ == room);
    let mut out: Vec<Outgoing> = Vec::new();
    let mut i: usize = 0;
    while i < msg.recipients.len()
        invariant
            i <= msg.recipients.len(),
            players@ == room,
            out.len() == recipient_connections(room, msg@.recipients.take(i as int)).len(),
            out@.map_values(|o: Outgoing| o@) == recipient_connections(
                room,
                msg@.recipients.take(i as int),
            ).map_values(
                |c: i64| OutgoingView { connection: c, message: Some(msg@), mode: SendMode::BestEffort },
            ),
        decreases msg.recipients.len() - i,
    {
        let ghost prev = out@;
        let ghost earlier = recipient_connections(room, msg@.recipients.take(i as int));
        assert(msg@.recipients.take(i + 1).drop_last() =~= msg@.recipients.take(i as int));
        match find_player(players, msg.recipients[i] as i64) {
            Some(p) => {
                let copy = msg.duplicate();
                let item = Outgoing { connection: p.connectionId, message: Some(copy), mode: SendMode::BestEffort };
                out.push(item);
                assert(out@ =~= prev.push(item));
                let ghost target = earlier.push(p.connectionId).map_values(
                    |c: i64| OutgoingView { connection: c, message: Some(msg@), mode: SendMode::BestEffort },
                );
                assert forall|k: int| 0 <= k < out@.len() implies #[trigger] out@[k]@ == target[k] by {
                    if k < prev.len() {
                        assert(out@[k] == prev[k]);
                        assert(prev.map_values(|o: Outgoing| o@)[k] == prev[k]@);
                        assert(prev.map_values(|o: Outgoing| o@)[k] == earlier.map_values(
                            |c: i64| OutgoingView { connection: c, message: Some(msg@), mode: SendMode::BestEffort },
                        )[k]);
                    } else {
                        assert(out@[k] == item);
                    }
                }
                assert(out@.map_values(|o: Outgoing| o@) =~= target);
            },
            None => {},
        }
        i = i + 1;
    }
    assert(msg@.recipients.take(msg.recipients.len() as int) =~= msg@.recipients);
    out
}

/// The view of an optional request.
pub open spec fn request_view(request: Option<TTRequest>) -> Option<RequestView> {
    match request {
        Some(r) => Some(r@),
        None => None,
    }
}

/// What serving one event from connection `sender` does: the state goes
/// from `before` to `after` and the server answers `outcome`. A missing
/// request is the connection's departure; a request's action picks its
/// handler, and an action the server does not know is ignored.
pub open spec fn event_step(
    before: DatabaseView,
    sender: i64,
    request: Option<RequestView>,
    after: DatabaseView,
    outcome: Result<Seq<OutgoingView>, Fault>,
) -> bool {
    match request {
        None => {
            &&& after == before.without_connection(sender)
            &&& outcome == Ok::<Seq<OutgoingView>, Fault>(close_outcome(sender))
        },
        Some(req) => match command_of(req.action) {
            Command::Host => {
                let code = after.connections[sender];
                &&& after.connections.contains_key(sender)
                &&& is_room_code(code)
                &&& after == before.hosted(sender, code)
                &&& outcome == host_outcome(
                    req,
                    sender,
                    code,
                    json_with_member_text(req.payload, "gameId"@, code),
                )
            },
            Command::Join => {
                &&& after == before
                &&& outcome == join_outcome(
                    before,
                    sender,
                    req,
                    json_member_text(req.payload, "arg"@),
                    json_with_member_text(req.payload, "arg"@, decimal(sender as int)),
                    join_refusal(req.payload),
                )
            },
            Command::AddGuest => (after, outcome) == guest_outcome(
                before,
                req,
                json_parses(req.payload),
                json_member_text(req.payload, "arg"@),
                json_object_of_text_and_number("gameId"@, req.game_id, "pId"@, req.recipients[0] as i64),
            ),
            Command::Send => {
                &&& after == before
                &&& outcome == Ok::<Seq<OutgoingView>, Fault>(send_outcome(before, req))
            },
            Command::Unrecognized => {
                &&& after == before
                &&& outcome == Ok::<Seq<OutgoingView>, Fault>(Seq::empty())
            },
        },
    }
}

/// Serves one event from connection `sender_id`: a request, or (no
/// request) the connection's departure; see [`event_step`]. Every room
/// keeps a host, its first player.
pub fn handle_event(db: &mut Database, sender_id: i64, request: Option<TTRequest>) -> (r: Result<
    Vec<Outgoing>,
    Fault,
>)
    ensures
        event_step(old(db)@, sender_id, request_view(request), final(db)@, outcome_view(r)),
        old(db)@.wf() ==> final(db)@.wf(),
{
    let ghost before = db@;
    match request {
        None => {
            proof {
                if before.wf() {
                    lemma_leaving_keeps_rooms_hosted(before, sender_id);
                }
            }
            Ok(process_disconnect(db, sender_id))
        },
        Some(req) => match command(&req.action) {
            Command::Host => {
                let r = process_host(db, sender_id, req);
                proof {
                    if before.wf() {
                        lemma_hosting_keeps_rooms_hosted(before, sender_id, db@.connections[sender_id]);
                    }
                }
                r
            },
            Command::Join => process_join(db, sender_id, req),
            Command::AddGuest => {
                let ghost game = req.gameId@;
                let ghost player = req.recipients@[0] as i64;
                let ghost guest = parsed_i64(json_member_text(req.payload@, "arg"@).unwrap()).unwrap();
                let r = process_add_guest(db, req);
                proof {
                    if before.wf() {
                        lemma_admitting_keeps_rooms_hosted(before, game, player, guest);
                    }
                }
                r
            },
            Command::Send => {
                let out = process_send(db, req);
                assert(outcome_view(Ok(out)) == Ok::<Seq<OutgoingView>, Fault>(send_outcome(before, req@)));
                Ok(out)
            },
            Command::Unrecognized => {
                let out: Vec<Outgoing> = Vec::new();
                assert(out@.map_values(|o: Outgoing| o@) =~= Seq::<OutgoingView>::empty());
                Ok(out)
            },
        },
    }
}

} // verus!
