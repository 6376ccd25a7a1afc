//! Properties of the server state that hold across requests.
use vstd::prelude::*;

use crate::message::{Fault, OutgoingView, RequestView, SendMode};
use crate::numbers::parsed_i64;
use crate::model::{player_numbered, players_without, seat_of, DatabaseView, PlayerData};
use crate::numbers::{decimal, lemma_decimal_round_trip};
use crate::server::{
    event_step, guest_outcome, join_outcome, recipient_connections, send_outcome, single,
};

verus! {

/// Opening a room keeps every room hosted.
pub proof fn lemma_hosting_keeps_rooms_hosted(db: DatabaseView, host: i64, code: Seq<char>)
    requires
        db.wf(),
    ensures
        db.hosted(host, code).wf(),
{
}

/// Admitting a guest into an existing room keeps every room hosted.
pub proof fn lemma_admitting_keeps_rooms_hosted(
    db: DatabaseView,
    code: Seq<char>,
    player: i64,
    guest: i64,
)
    requires
        db.wf(),
    ensures
        db.games.contains_key(code) ==> db.with_guest(code, player, guest).wf(),
{
}

/// Removing the players of a connection other than the first player's
/// keeps that first player first.
pub proof fn lemma_players_without_keeps_first(players: Seq<PlayerData>, conn: i64)
    requires
        players.len() > 0,
        players[0].connectionId != conn,
    ensures
        players_without(players, conn).len() > 0,
        players_without(players, conn)[0] == players[0],
    decreases players.len(),
{
    if players.len() > 1 {
        lemma_players_without_keeps_first(players.drop_last(), conn);
    } else {
        assert(players.drop_last() =~= Seq::<PlayerData>::empty());
        assert(players_without(players.drop_last(), conn) == Seq::<PlayerData>::empty());
    }
}

/// A departure keeps every room hosted: a room whose host leaves, or that
/// its last player leaves, is closed.
pub proof fn lemma_leaving_keeps_rooms_hosted(db: DatabaseView, conn: i64)
    requires
        db.wf(),
    ensures
        db.without_connection(conn).wf(),
{
    if db.connections.contains_key(conn) {
        let code = db.connections[conn];
        if db.games.contains_key(code) {
            let players = db.games[code];
            if players[0].connectionId != conn {
                lemma_players_without_keeps_first(players, conn);
            }
        }
    }
}

/// Every state a server reaches from the empty state, serving one event
/// after another, keeps every room hosted: a room has a player, and its
/// first player is player 0.
pub proof fn lemma_served_states_keep_rooms_hosted(
    states: Seq<DatabaseView>,
    events: Seq<(i64, Option<RequestView>)>,
    outcomes: Seq<Result<Seq<OutgoingView>, Fault>>,
)
    requires
        is_run(states, events, outcomes),
    ensures
        forall|i: int| 0 <= i < states.len() ==> #[trigger] states[i].wf(),
    decreases events.len(),
{
    if events.len() > 0 {
        let n = events.len() - 1;
        assert(is_run(states.drop_last(), events.drop_last(), outcomes.drop_last())) by {
            assert forall|i: int| 0 <= i < events.drop_last().len() implies event_step(
                states.drop_last()[i],
                events.drop_last()[i].0,
                events.drop_last()[i].1,
                states.drop_last()[i + 1],
                outcomes.drop_last()[i],
            ) by {
                assert(event_step(states[i], events[i].0, events[i].1, states[i + 1], outcomes[i]));
            }
        }
        lemma_served_states_keep_rooms_hosted(states.drop_last(), events.drop_last(), outcomes.drop_last());
        assert(states.drop_last()[n].wf());
        assert(event_step(states[n], events[n].0, events[n].1, states[n + 1], outcomes[n]));
        lemma_step_keeps_rooms_hosted(states[n], events[n].0, events[n].1, states[n + 1], outcomes[n]);
        assert forall|i: int| 0 <= i < states.len() implies #[trigger] states[i].wf() by {
            if i < states.len() - 1 {
                assert(states.drop_last()[i].wf());
            }
        }
    }
}

/// Serving one event keeps every room hosted.
pub proof fn lemma_step_keeps_rooms_hosted(
    before: DatabaseView,
    sender: i64,
    request: Option<RequestView>,
    after: DatabaseView,
    outcome: Result<Seq<OutgoingView>, Fault>,
)
    requires
        before.wf(),
        event_step(before, sender, request, after, outcome),
    ensures
        after.wf(),
{
    match request {
        None => lemma_leaving_keeps_rooms_hosted(before, sender),
        Some(req) => {
            if after != before {
                if after.connections.contains_key(sender) && before.hosted(
                    sender,
                    after.connections[sender],
                ) == after {
                    lemma_hosting_keeps_rooms_hosted(before, sender, after.connections[sender]);
                } else {
                    let player = req.recipients[0] as i64;
                    assert(exists|g: i64| after == before.with_guest(req.game_id, player, g)
                        && before.games.contains_key(req.game_id));
                    let g = choose|g: i64| after == before.with_guest(req.game_id, player, g)
                        && before.games.contains_key(req.game_id);
                    lemma_admitting_keeps_rooms_hosted(before, req.game_id, player, g);
                }
            }
        },
    }
}

/// A run of the server: it starts empty, and state `i + 1` and answer `i`
/// are what serving event `i` (a connection, and its request or its
/// departure) makes of state `i`.
pub open spec fn is_run(
    states: Seq<DatabaseView>,
    events: Seq<(i64, Option<RequestView>)>,
    outcomes: Seq<Result<Seq<OutgoingView>, Fault>>,
) -> bool {
    &&& states.len() == events.len() + 1
    &&& outcomes.len() == events.len()
    &&& states[0] == DatabaseView::empty()
    &&& forall|i: int|
        0 <= i < events.len() ==> event_step(
            states[i],
            #[trigger] events[i].0,
            events[i].1,
            states[i + 1],
            outcomes[i],
        )
}

/// In a state where every room is hosted, a `join` for an existing room
/// always finds the host: its first player.
pub proof fn lemma_hosted_room_has_host(db: DatabaseView, code: Seq<char>)
    requires
        db.wf(),
        db.games.contains_key(code),
    ensures
        player_numbered(db.games[code], 0) == Some(db.games[code][0]),
{
}

/// No player that remains plays from the connection that left.
pub proof fn lemma_players_without_drops_connection(players: Seq<PlayerData>, conn: i64)
    ensures
        forall|i: int|
            0 <= i < players_without(players, conn).len() ==> #[trigger] players_without(
                players,
                conn,
            )[i].connectionId != conn,
    decreases players.len(),
{
    if players.len() > 0 {
        let rest = players_without(players.drop_last(), conn);
        lemma_players_without_drops_connection(players.drop_last(), conn);
        let all = players_without(players, conn);
        assert forall|i: int| 0 <= i < all.len() implies #[trigger] all[i].connectionId != conn by {
            if i < rest.len() {
                assert(all[i] == rest[i]);
            }
        }
    }
}

/// Removing the players of a connection that has none changes nothing.
pub proof fn lemma_players_without_absent(players: Seq<PlayerData>, conn: i64)
    requires
        forall|i: int| 0 <= i < players.len() ==> #[trigger] players[i].connectionId != conn,
    ensures
        players_without(players, conn) == players,
    decreases players.len(),
{
    if players.len() > 0 {
        lemma_players_without_absent(players.drop_last(), conn);
        assert(players.drop_last().push(players.last()) =~= players);
    }
}

/// The seat of a connection that has none but the one just added is that one.
pub proof fn lemma_seat_of_added(players: Seq<PlayerData>, seat: PlayerData)
    requires
        forall|i: int| 0 <= i < players.len() ==> #[trigger] players[i].connectionId != seat.connectionId,
    ensures
        seat_of(players.push(seat), seat.connectionId) == Some(seat),
    decreases players.len(),
{
    if players.len() > 0 {
        lemma_seat_of_added(players.drop_first(), seat);
        assert(players.push(seat).drop_first() =~= players.drop_first().push(seat));
    }
}

/// Once a connection has gone, no connection entry is left for it, and the
/// room it was in (when that room remains) has no player from it.
pub proof fn lemma_leaving_forgets_connection(db: DatabaseView, conn: i64)
    ensures
        !db.without_connection(conn).connections.contains_key(conn),
        db.connections.contains_key(conn) && db.without_connection(conn).games.contains_key(
            db.connections[conn],
        ) ==> forall|i: int|
            0 <= i < db.without_connection(conn).games[db.connections[conn]].len()
                ==> #[trigger] db.without_connection(conn).games[db.connections[conn]][i].connectionId
                != conn,
{
    if db.connections.contains_key(conn) {
        let code = db.connections[conn];
        if db.games.contains_key(code) {
            lemma_players_without_drops_connection(db.games[code], conn);
        }
    }
}

/// A host that opens a room and leaves before anyone joins leaves the state
/// as it found it, when it was not attached to a room before and the code
/// was not in use.
pub proof fn lemma_host_then_leave_restores(db: DatabaseView, host: i64, code: Seq<char>)
    requires
        !db.connections.contains_key(host),
        !db.games.contains_key(code),
    ensures
        db.hosted(host, code).without_connection(host) == db,
{
    let after = db.hosted(host, code);
    let host_seat = seq![PlayerData { playerId: 0, connectionId: host }];
    assert(seat_of(host_seat, host) == Some(host_seat[0]));
    assert(after.without_connection(host).connections =~= db.connections);
    assert(after.without_connection(host).games =~= db.games);
}

/// A guest admitted under a player number other than 0 into an occupied
/// room, that leaves again, leaves the state as it found it, when it was
/// not attached to a room before and did not already play in that room.
pub proof fn lemma_admit_then_leave_restores(
    db: DatabaseView,
    code: Seq<char>,
    player: i64,
    guest: i64,
)
    requires
        player != 0,
        db.games.contains_key(code),
        db.games[code].len() > 0,
        !db.connections.contains_key(guest),
        forall|i: int|
            0 <= i < db.games[code].len() ==> #[trigger] db.games[code][i].connectionId != guest,
    ensures
        db.with_guest(code, player, guest).without_connection(guest) == db,
{
    let after = db.with_guest(code, player, guest);
    let seat = PlayerData { playerId: player, connectionId: guest };
    let seated = db.games[code].push(seat);
    lemma_seat_of_added(db.games[code], seat);
    assert(seated.drop_last() =~= db.games[code]);
    lemma_players_without_absent(db.games[code], guest);
    assert(players_without(seated, guest) == db.games[code]);
    assert(after.without_connection(guest).connections =~= db.connections);
    assert(after.without_connection(guest).games =~= db.games);
}

/// A host that admits, into its existing room, the connection whose id the
/// `join` request wrote into `arg` records that very connection in the room
/// under the player number it chose, and sends the answer to it.
pub proof fn lemma_admitted_guest_is_joiner(
    db: DatabaseView,
    msg: RequestView,
    joiner: i64,
    game_info: Seq<char>,
)
    requires
        msg.recipients.len() > 0,
        msg.recipients[0] > 0,
        db.games.contains_key(msg.game_id),
    ensures
        guest_outcome(db, msg, true, Some(decimal(joiner as int)), game_info) == (
            db.with_guest(msg.game_id, msg.recipients[0] as i64, joiner),
            Ok::<_, Fault>(
                single(joiner, RequestView { payload: game_info, ..msg }, SendMode::IfConnected),
            ),
        ),
{
    lemma_decimal_round_trip(joiner);
}

/// The player a number names is the first player with that number.
pub proof fn lemma_player_numbered_is_first(players: Seq<PlayerData>, number: i64, i: int)
    requires
        0 <= i < players.len(),
        players[i].playerId == number,
        forall|j: int| 0 <= j < i ==> #[trigger] players[j].playerId != number,
    ensures
        player_numbered(players, number) == Some(players[i]),
    decreases i,
{
    if i > 0 {
        let rest = players.drop_first();
        assert forall|j: int| 0 <= j < i - 1 implies #[trigger] rest[j].playerId != number by {
            assert(rest[j] == players[j + 1]);
        }
        lemma_player_numbered_is_first(rest, number, i - 1);
        assert(players[0].playerId != number);
    }
}

/// A number no player has names no player.
pub proof fn lemma_player_numbered_absent(players: Seq<PlayerData>, number: i64)
    requires
        forall|j: int| 0 <= j < players.len() ==> #[trigger] players[j].playerId != number,
    ensures
        player_numbered(players, number) is None,
    decreases players.len(),
{
    if players.len() > 0 {
        let rest = players.drop_first();
        assert forall|j: int| 0 <= j < rest.len() implies #[trigger] rest[j].playerId != number by {
            assert(rest[j] == players[j + 1]);
        }
        lemma_player_numbered_absent(rest, number);
        assert(players[0].playerId != number);
    }
}

/// One recipient names the connection of the first player with its number,
/// or nothing when no player has it.
pub proof fn lemma_recipient_alone(players: Seq<PlayerData>, recipient: i32)
    ensures
        recipient_connections(players, seq![recipient]) == match player_numbered(
            players,
            recipient as i64,
        ) {
            Some(p) => seq![p.connectionId],
            None => Seq::<i64>::empty(),
        },
{
    let one = seq![recipient];
    assert(one.drop_last() =~= Seq::<i32>::empty());
    assert(recipient_connections(players, Seq::<i32>::empty()) == Seq::<i64>::empty());
    assert(Seq::<i64>::empty().push(0) =~= seq![0i64]);
    match player_numbered(players, recipient as i64) {
        Some(p) => assert(Seq::<i64>::empty().push(p.connectionId) =~= seq![p.connectionId]),
        None => {},
    }
}

/// Recipients are served each on its own: the connections a list of
/// recipients names are those its first part names followed by those its
/// second part names, whatever recipients are missing from the room.
pub proof fn lemma_recipients_each_on_their_own(
    players: Seq<PlayerData>,
    first: Seq<i32>,
    second: Seq<i32>,
)
    ensures
        recipient_connections(players, first + second) == recipient_connections(players, first)
            + recipient_connections(players, second),
    decreases second.len(),
{
    if second.len() == 0 {
        assert(first + second =~= first);
        assert(recipient_connections(players, first) + Seq::<i64>::empty() =~= recipient_connections(
            players,
            first,
        ));
    } else {
        lemma_recipients_each_on_their_own(players, first, second.drop_last());
        assert((first + second).drop_last() =~= first + second.drop_last());
        assert((first + second).last() == second.last());
        let a = recipient_connections(players, first);
        let b = recipient_connections(players, second.drop_last());
        match player_numbered(players, second.last() as i64) {
            Some(p) => assert((a + b).push(p.connectionId) =~= a + b.push(p.connectionId)),
            None => {},
        }
    }
}

/// Every message a `send` request makes is the request itself, as it came,
/// handed over best-effort; one goes to the connection of each recipient
/// player of the request's room, in order, and none when there is no such
/// room.
pub proof fn lemma_send_relays_request_unchanged(db: DatabaseView, msg: RequestView)
    ensures
        forall|i: int|
            0 <= i < send_outcome(db, msg).len() ==> #[trigger] send_outcome(db, msg)[i].message
                == Some(msg) && send_outcome(db, msg)[i].mode == SendMode::BestEffort,
        db.games.contains_key(msg.game_id) ==> send_outcome(db, msg).map_values(
            |o: OutgoingView| o.connection,
        ) == recipient_connections(db.games[msg.game_id], msg.recipients),
        !db.games.contains_key(msg.game_id) ==> send_outcome(db, msg).len() == 0,
{
    let out = send_outcome(db, msg);
    if db.games.contains_key(msg.game_id) {
        assert(out.map_values(|o: OutgoingView| o.connection) =~= recipient_connections(
            db.games[msg.game_id],
            msg.recipients,
        ));
    } else {
        lemma_no_room_names_nobody(msg.recipients);
    }
}

/// In no room, recipients name no connection.
pub proof fn lemma_no_room_names_nobody(recipients: Seq<i32>)
    ensures
        recipient_connections(Seq::<PlayerData>::empty(), recipients).len() == 0,
    decreases recipients.len(),
{
    if recipients.len() > 0 {
        lemma_no_room_names_nobody(recipients.drop_last());
    }
}

/// A `join` for a room that exists, whatever its size, goes to that room's
/// first player 0, with the forwarded payload and nothing else changed.
pub proof fn lemma_join_existing_room_reaches_host(
    db: DatabaseView,
    joiner: i64,
    msg: RequestView,
    code: Seq<char>,
    host: int,
    forwarded: Seq<char>,
    refused: Option<Seq<char>>,
)
    requires
        db.games.contains_key(code),
        0 <= host < db.games[code].len(),
        db.games[code][host].playerId == 0,
        forall|j: int| 0 <= j < host ==> #[trigger] db.games[code][j].playerId != 0,
    ensures
        join_outcome(db, joiner, msg, Some(code), Some(forwarded), refused) == Ok::<_, Fault>(
            seq![
                OutgoingView {
                    connection: db.games[code][host].connectionId,
                    message: Some(RequestView { payload: forwarded, ..msg }),
                    mode: SendMode::MustBeConnected,
                },
            ],
        ),
{
    lemma_player_numbered_is_first(db.games[code], 0, host);
}

/// A `join` for a room that does not exist goes back to the joiner, with
/// the next message kind and the refusal payload, and nothing else changed.
pub proof fn lemma_join_missing_room_is_refused(
    db: DatabaseView,
    joiner: i64,
    msg: RequestView,
    code: Seq<char>,
    forwarded: Option<Seq<char>>,
    refused: Seq<char>,
)
    requires
        !db.games.contains_key(code),
        msg.message_id < i16::MAX,
    ensures
        join_outcome(db, joiner, msg, Some(code), forwarded, Some(refused)) == Ok::<_, Fault>(
            seq![
                OutgoingView {
                    connection: joiner,
                    message: Some(RequestView { message_id: (msg.message_id + 1) as i16, payload: refused, ..msg }),
                    mode: SendMode::MustBeConnected,
                },
            ],
        ),
{
}

/// A guest the host refuses (a player number of 0 or below) gets the
/// request back exactly as it came, and the state does not change.
pub proof fn lemma_refused_guest_gets_request_back(
    db: DatabaseView,
    msg: RequestView,
    guest_text: Seq<char>,
    game_info: Seq<char>,
)
    requires
        msg.recipients.len() > 0,
        msg.recipients[0] <= 0,
        parsed_i64(guest_text) is Some,
    ensures
        guest_outcome(db, msg, true, Some(guest_text), game_info) == (
            db,
            Ok::<_, Fault>(
                seq![
                    OutgoingView {
                        connection: parsed_i64(guest_text).unwrap() as i64,
                        message: Some(msg),
                        mode: SendMode::IfConnected,
                    },
                ],
            ),
        ),
{
}

/// A guest the host admits (a positive player number) into an existing
/// room enters it under that number, and gets the request with the room
/// document as its payload.
pub proof fn lemma_admitted_guest_enters_room(
    db: DatabaseView,
    msg: RequestView,
    guest_text: Seq<char>,
    game_info: Seq<char>,
)
    requires
        msg.recipients.len() > 0,
        msg.recipients[0] > 0,
        parsed_i64(guest_text) is Some,
        db.games.contains_key(msg.game_id),
    ensures
        guest_outcome(db, msg, true, Some(guest_text), game_info) == (
            db.with_guest(msg.game_id, msg.recipients[0] as i64, parsed_i64(guest_text).unwrap() as i64),
            Ok::<_, Fault>(
                seq![
                    OutgoingView {
                        connection: parsed_i64(guest_text).unwrap() as i64,
                        message: Some(RequestView { payload: game_info, ..msg }),
                        mode: SendMode::IfConnected,
                    },
                ],
            ),
        ),
{
}

} // verus!
