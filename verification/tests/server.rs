use troupes_tail::message::{command, Command, Fault, Outgoing, SendMode, TTRequest};
use troupes_tail::model::{Database, GameData, PlayerData};
use troupes_tail::server::{
    admit_guest, answer_join, handle_event, host_room, process_add_guest, process_disconnect,
    process_host, process_join, process_send,
};

fn request(action: &str, game: &str, recipients: Vec<i32>, message_id: i16, payload: &str) -> TTRequest {
    TTRequest {
        action: action.to_string(),
        gameId: game.to_string(),
        sender: 3,
        recipients,
        messageId: message_id,
        payload: payload.to_string(),
    }
}

fn room(db: &Database, code: &str) -> Option<Vec<PlayerData>> {
    db.games.get(code).map(|g| g.players.clone())
}

fn player(id: i64, conn: i64) -> PlayerData {
    PlayerData { playerId: id, connectionId: conn }
}

/// A state with room `code` hosted by connection 1, and the guests given.
fn db_with_room(code: &str, guests: &[(i64, i64)]) -> Database {
    let mut db = Database::new();
    let mut players = vec![player(0, 1)];
    db.connections.insert(1, code.to_string());
    for &(id, conn) in guests {
        players.push(player(id, conn));
        db.connections.insert(conn, code.to_string());
    }
    db.games.insert(code.to_string(), GameData { players });
    db
}

fn only(out: &[Outgoing]) -> &Outgoing {
    assert_eq!(out.len(), 1);
    &out[0]
}

fn json(text: &str) -> serde_json::Value {
    serde_json::from_str(text).unwrap()
}

#[test]
fn new_database_is_empty() {
    let db = Database::new();
    assert!(db.connections.is_empty());
    assert!(db.games.is_empty());
}

#[test]
fn host_opens_room_with_code() {
    let mut db = Database::new();
    let out = process_host(&mut db, 7, request("host", "", vec![3], 5, r#"{"name":"ann"}"#)).unwrap();
    let code = db.connections.get(&7).unwrap().clone();
    assert_eq!(code.len(), 4);
    assert!(code.chars().all(|c| c.is_ascii_uppercase()));
    assert_eq!(room(&db, &code), Some(vec![player(0, 7)]));
    let reply = only(&out);
    assert_eq!(reply.connection, 7);
    assert_eq!(reply.mode, SendMode::IfConnected);
    let msg = reply.message.as_ref().unwrap();
    assert_eq!(msg.gameId, code);
    assert_eq!(msg.sender, 0);
    assert_eq!(msg.action, "host");
    assert_eq!(msg.recipients, vec![3]);
    assert_eq!(msg.messageId, 5);
    let payload = json(&msg.payload);
    assert_eq!(payload["gameId"], serde_json::Value::String(code.clone()));
    assert_eq!(payload["name"], serde_json::Value::String("ann".to_string()));
}

#[test]
fn host_room_with_given_code() {
    let mut db = Database::new();
    let out = host_room(
        &mut db,
        2,
        request("host", "old", vec![], 1, "{}"),
        "QWER".to_string(),
        Some(r#"{"gameId":"QWER"}"#.to_string()),
    )
    .unwrap();
    assert_eq!(db.connections.get(&2).map(|s| s.as_str()), Some("QWER"));
    assert_eq!(room(&db, "QWER"), Some(vec![player(0, 2)]));
    let msg = only(&out).message.as_ref().unwrap();
    assert_eq!(msg.gameId, "QWER");
    assert_eq!(msg.payload, r#"{"gameId":"QWER"}"#);
}

#[test]
fn host_replaces_room_with_same_code() {
    let mut db = db_with_room("QWER", &[(1, 5)]);
    host_room(&mut db, 9, request("host", "", vec![], 1, "{}"), "QWER".to_string(), Some("{}".to_string()))
        .unwrap();
    assert_eq!(room(&db, "QWER"), Some(vec![player(0, 9)]));
    assert_eq!(db.connections.get(&5).map(|s| s.as_str()), Some("QWER"));
}

#[test]
fn host_with_malformed_payload_fails() {
    let mut db = Database::new();
    let r = process_host(&mut db, 7, request("host", "", vec![], 1, "not json"));
    assert_eq!(r.err(), Some(Fault::MalformedPayload));
    let r = process_host(&mut db, 8, request("host", "", vec![], 1, "[1,2]"));
    assert_eq!(r.err(), Some(Fault::MalformedPayload));
    assert!(db.connections.contains_key(&7));
}

#[test]
fn host_with_null_payload_gets_object() {
    let mut db = Database::new();
    let out = process_host(&mut db, 7, request("host", "", vec![], 1, "null")).unwrap();
    let code = db.connections.get(&7).unwrap().clone();
    let msg = only(&out).message.as_ref().unwrap();
    assert_eq!(msg.payload, format!(r#"{{"gameId":"{}"}}"#, code));
}

#[test]
fn join_existing_room_goes_to_host() {
    let db = db_with_room("ABCD", &[]);
    let out = process_join(&db, 42, request("join", "", vec![], 10, r#"{"arg":"ABCD"}"#)).unwrap();
    let fwd = only(&out);
    assert_eq!(fwd.connection, 1);
    assert_eq!(fwd.mode, SendMode::MustBeConnected);
    let msg = fwd.message.as_ref().unwrap();
    assert_eq!(msg.messageId, 10);
    assert_eq!(msg.payload, r#"{"arg":"42"}"#);
}

#[test]
fn join_writes_negative_connection() {
    let db = db_with_room("ABCD", &[]);
    let out = process_join(&db, -15, request("join", "", vec![], 10, r#"{"arg":"ABCD","x":1}"#)).unwrap();
    let msg = only(&out).message.as_ref().unwrap();
    assert_eq!(msg.payload, r#"{"arg":"-15","x":1}"#);
}

#[test]
fn join_missing_room_is_refused() {
    let db = db_with_room("ABCD", &[]);
    let out = process_join(&db, 42, request("join", "", vec![], 10, r#"{"arg":"ZZZZ"}"#)).unwrap();
    let reply = only(&out);
    assert_eq!(reply.connection, 42);
    assert_eq!(reply.mode, SendMode::MustBeConnected);
    let msg = reply.message.as_ref().unwrap();
    assert_eq!(msg.messageId, 11);
    assert_eq!(msg.payload, r#"{"arg":"ZZZZ not Found"}"#);
}

#[test]
fn join_refusal_at_largest_message_kind_fails() {
    let db = Database::new();
    let r = process_join(&db, 42, request("join", "", vec![], i16::MAX, r#"{"arg":"ZZZZ"}"#));
    assert_eq!(r.err(), Some(Fault::MessageIdOverflow));
}

#[test]
fn join_room_without_host_fails() {
    let mut db = Database::new();
    db.connections.insert(5, "ABCD".to_string());
    db.games.insert("ABCD".to_string(), GameData { players: vec![player(1, 5)] });
    let r = process_join(&db, 42, request("join", "", vec![], 10, r#"{"arg":"ABCD"}"#));
    assert_eq!(r.err(), Some(Fault::NoHost));
}

#[test]
fn host_leaving_closes_room() {
    let mut db = db_with_room("ABCD", &[(1, 5), (2, 6)]);
    process_disconnect(&mut db, 1);
    assert_eq!(room(&db, "ABCD"), None);
    assert!(!db.connections.contains_key(&1));
    assert_eq!(db.connections.len(), 2);
    let out = process_join(&db, 42, request("join", "", vec![], 10, r#"{"arg":"ABCD"}"#)).unwrap();
    assert_eq!(only(&out).connection, 42);
}

#[test]
fn join_goes_to_first_player_zero() {
    let db = db_with_room("ABCD", &[(3, 4), (0, 6)]);
    let out = process_join(&db, 42, request("join", "", vec![], 10, r#"{"arg":"ABCD"}"#)).unwrap();
    assert_eq!(only(&out).connection, 1);
}

#[test]
fn join_malformed_payloads_fail() {
    let db = db_with_room("ABCD", &[]);
    for p in ["oops", r#"{"room":"ABCD"}"#, r#"{"arg":5}"#, r#""ABCD""#] {
        let r = process_join(&db, 42, request("join", "", vec![], 10, p));
        assert_eq!(r.err(), Some(Fault::MalformedPayload));
    }
}

#[test]
fn answer_join_with_given_documents() {
    let db = db_with_room("ABCD", &[]);
    let fwd = || Some("fwd".to_string());
    let refused = || Some("refused".to_string());
    let out = answer_join(&db, 3, request("join", "", vec![], 2, "x"), Some("ABCD".to_string()), fwd(), refused())
        .unwrap();
    assert_eq!(only(&out).connection, 1);
    assert_eq!(only(&out).message.as_ref().unwrap().payload, "fwd");
    let r = answer_join(&db, 3, request("join", "", vec![], 2, "x"), Some("ABCD".to_string()), None, refused());
    assert_eq!(r.err(), Some(Fault::MalformedPayload));
    let r = answer_join(&db, 3, request("join", "", vec![], 2, "x"), None, fwd(), refused());
    assert_eq!(r.err(), Some(Fault::MalformedPayload));
    let out = answer_join(&db, 3, request("join", "", vec![], 2, "x"), Some("NOPE".to_string()), None, refused())
        .unwrap();
    assert_eq!(only(&out).connection, 3);
    assert_eq!(only(&out).message.as_ref().unwrap().messageId, 3);
    assert_eq!(only(&out).message.as_ref().unwrap().payload, "refused");
    let r = answer_join(&db, 3, request("join", "", vec![], 2, "x"), Some("NOPE".to_string()), fwd(), None);
    assert_eq!(r.err(), Some(Fault::MalformedPayload));
}

#[test]
fn add_guest_admits() {
    let mut db = db_with_room("ABCD", &[]);
    let out = process_add_guest(&mut db, request("addGuest", "ABCD", vec![2], 20, r#"{"arg":"42"}"#)).unwrap();
    assert_eq!(room(&db, "ABCD"), Some(vec![player(0, 1), player(2, 42)]));
    assert_eq!(db.connections.get(&42).map(|s| s.as_str()), Some("ABCD"));
    let reply = only(&out);
    assert_eq!(reply.connection, 42);
    assert_eq!(reply.mode, SendMode::IfConnected);
    let msg = reply.message.as_ref().unwrap();
    assert_eq!(msg.payload, r#"{"gameId":"ABCD","pId":2}"#);
    assert_eq!(msg.messageId, 20);
    assert_eq!(msg.gameId, "ABCD");
}

#[test]
fn add_guest_refuses_with_rewritten_payload() {
    let mut db = db_with_room("ABCD", &[]);
    let out =
        process_add_guest(&mut db, request("addGuest", "ABCD", vec![0, 4], 20, r#"{ "arg" : "+42" }"#)).unwrap();
    assert_eq!(room(&db, "ABCD"), Some(vec![player(0, 1)]));
    assert!(!db.connections.contains_key(&42));
    let reply = only(&out);
    assert_eq!(reply.connection, 42);
    assert_eq!(reply.message.as_ref().unwrap().payload, r#"{ "arg" : "+42" }"#);
}

#[test]
fn add_guest_negative_player_refused() {
    let mut db = db_with_room("ABCD", &[]);
    let out = process_add_guest(&mut db, request("addGuest", "ABCD", vec![-1], 20, r#"{"arg":"-3"}"#)).unwrap();
    assert_eq!(only(&out).connection, -3);
    assert_eq!(room(&db, "ABCD"), Some(vec![player(0, 1)]));
}

#[test]
fn add_guest_faults() {
    let mut db = db_with_room("ABCD", &[]);
    let cases = [
        (vec![2], "nope", Fault::MalformedPayload),
        (vec![], r#"{"arg":"42"}"#, Fault::NoRecipient),
        (vec![2], r#"{"other":"42"}"#, Fault::MalformedPayload),
        (vec![2], r#"{"arg":42}"#, Fault::MalformedPayload),
        (vec![2], r#"{"arg":"4x2"}"#, Fault::BadGuestId),
        (vec![2], r#"{"arg":" 42"}"#, Fault::BadGuestId),
        (vec![2], r#"{"arg":"99999999999999999999"}"#, Fault::BadGuestId),
    ];
    for (recipients, payload, fault) in cases {
        let r = process_add_guest(&mut db, request("addGuest", "ABCD", recipients, 20, payload));
        assert_eq!(r.err(), Some(fault));
    }
    let r = process_add_guest(&mut db, request("addGuest", "WXYZ", vec![2], 20, r#"{"arg":"42"}"#));
    assert_eq!(r.err(), Some(Fault::UnknownGame));
    assert_eq!(room(&db, "ABCD"), Some(vec![player(0, 1)]));
    assert_eq!(db.connections.len(), 1);
}

#[test]
fn admit_guest_with_given_documents() {
    let mut db = db_with_room("ABCD", &[]);
    let out = admit_guest(
        &mut db,
        request("addGuest", "ABCD", vec![3], 1, "orig"),
        true,
        Some("8".to_string()),
        "info".to_string(),
    )
    .unwrap();
    assert_eq!(only(&out).connection, 8);
    assert_eq!(only(&out).message.as_ref().unwrap().payload, "info");
    assert_eq!(room(&db, "ABCD"), Some(vec![player(0, 1), player(3, 8)]));
    let out = admit_guest(
        &mut db,
        request("addGuest", "ABCD", vec![0], 1, "orig"),
        true,
        Some("9".to_string()),
        "info".to_string(),
    )
    .unwrap();
    assert_eq!(only(&out).message.as_ref().unwrap().payload, "orig");
    let r = admit_guest(
        &mut db,
        request("addGuest", "ABCD", vec![3], 1, "orig"),
        false,
        Some("9".to_string()),
        "info".to_string(),
    );
    assert_eq!(r.err(), Some(Fault::MalformedPayload));
}

#[test]
fn disconnect_guest_leaves_room() {
    let mut db = db_with_room("ABCD", &[(1, 5), (2, 6)]);
    let out = process_disconnect(&mut db, 5);
    assert_eq!(room(&db, "ABCD"), Some(vec![player(0, 1), player(2, 6)]));
    assert!(!db.connections.contains_key(&5));
    let close = only(&out);
    assert_eq!(close.connection, 5);
    assert!(close.message.is_none());
    assert_eq!(close.mode, SendMode::MustBeConnected);
}

#[test]
fn disconnect_last_player_closes_room() {
    let mut db = db_with_room("ABCD", &[]);
    process_disconnect(&mut db, 1);
    assert!(db.games.is_empty());
    assert!(db.connections.is_empty());
}

#[test]
fn disconnect_unknown_connection_changes_nothing() {
    let mut db = db_with_room("ABCD", &[(1, 5)]);
    let out = process_disconnect(&mut db, 77);
    assert_eq!(room(&db, "ABCD"), Some(vec![player(0, 1), player(1, 5)]));
    assert_eq!(db.connections.len(), 2);
    assert_eq!(only(&out).connection, 77);
}

#[test]
fn send_relays_to_each_recipient_player() {
    let db = db_with_room("ABCD", &[(1, 40), (2, 90)]);
    let out = process_send(&db, request("send", "ABCD", vec![2, 0, 2, 7], 3, "{}"));
    let targets: Vec<i64> = out.iter().map(|o| o.connection).collect();
    assert_eq!(targets, vec![90, 1, 90]);
    for o in &out {
        assert_eq!(o.mode, SendMode::BestEffort);
        let m = o.message.as_ref().unwrap();
        assert_eq!(m.recipients, vec![2, 0, 2, 7]);
        assert_eq!(m.payload, "{}");
    }
    assert!(process_send(&db, request("send", "ABCD", vec![], 3, "{}")).is_empty());
    assert!(process_send(&db, request("send", "WXYZ", vec![0, 1], 3, "{}")).is_empty());
}

#[test]
fn commands_are_recognized() {
    assert_eq!(command(&"host".to_string()), Command::Host);
    assert_eq!(command(&"join".to_string()), Command::Join);
    assert_eq!(command(&"addGuest".to_string()), Command::AddGuest);
    assert_eq!(command(&"send".to_string()), Command::Send);
    assert_eq!(command(&"Host".to_string()), Command::Unrecognized);
    assert_eq!(command(&"".to_string()), Command::Unrecognized);
}

#[test]
fn handle_event_dispatches() {
    let mut db = Database::new();
    let out = handle_event(&mut db, 1, Some(request("host", "", vec![], 1, "{}"))).unwrap();
    let code = db.connections.get(&1).unwrap().clone();
    assert_eq!(only(&out).message.as_ref().unwrap().gameId, code);

    let payload = format!(r#"{{"arg":"{}"}}"#, code);
    let out = handle_event(&mut db, 2, Some(request("join", "", vec![], 7, &payload))).unwrap();
    assert_eq!(only(&out).connection, 1);
    let forwarded = only(&out).message.as_ref().unwrap().payload.clone();

    let out = handle_event(&mut db, 1, Some(request("addGuest", &code, vec![1], 8, &forwarded))).unwrap();
    assert_eq!(only(&out).connection, 2);
    assert_eq!(room(&db, &code), Some(vec![player(0, 1), player(1, 2)]));

    let out = handle_event(&mut db, 1, Some(request("send", &code, vec![1], 9, "{}"))).unwrap();
    assert_eq!(only(&out).connection, 2);

    let out = handle_event(&mut db, 1, Some(request("dance", &code, vec![2], 9, "{}"))).unwrap();
    assert!(out.is_empty());

    let out = handle_event(&mut db, 2, None).unwrap();
    assert!(only(&out).message.is_none());
    assert_eq!(room(&db, &code), Some(vec![player(0, 1)]));
}

#[test]
fn host_then_leave_restores_state() {
    let mut db = db_with_room("ABCD", &[(1, 5)]);
    host_room(&mut db, 30, request("host", "", vec![], 1, "{}"), "WXYZ".to_string(), Some("{}".to_string()))
        .unwrap();
    process_disconnect(&mut db, 30);
    assert_eq!(room(&db, "WXYZ"), None);
    assert_eq!(room(&db, "ABCD"), Some(vec![player(0, 1), player(1, 5)]));
    assert_eq!(db.connections.len(), 2);
    assert!(!db.connections.contains_key(&30));
}

#[test]
fn admit_then_leave_restores_state() {
    let mut db = db_with_room("ABCD", &[(1, 5)]);
    process_add_guest(&mut db, request("addGuest", "ABCD", vec![2], 20, r#"{"arg":"42"}"#)).unwrap();
    process_disconnect(&mut db, 42);
    assert_eq!(room(&db, "ABCD"), Some(vec![player(0, 1), player(1, 5)]));
    assert_eq!(db.connections.len(), 2);
}

#[test]
fn rooms_stay_hosted() {
    let mut db = db_with_room("ABCD", &[(1, 5), (2, 6)]);
    handle_event(&mut db, 5, None).unwrap();
    assert_eq!(room(&db, "ABCD"), Some(vec![player(0, 1), player(2, 6)]));
    handle_event(&mut db, 1, None).unwrap();
    assert!(db.games.get("ABCD").is_none());
}

#[test]
fn joiner_is_the_admitted_guest() {
    let mut db = db_with_room("ABCD", &[]);
    let out = process_join(&db, 123456789012, request("join", "", vec![], 1, r#"{"arg":"ABCD"}"#)).unwrap();
    let forwarded = only(&out).message.as_ref().unwrap().payload.clone();
    let out = process_add_guest(&mut db, request("addGuest", "ABCD", vec![1], 2, &forwarded)).unwrap();
    assert_eq!(only(&out).connection, 123456789012);
    assert_eq!(room(&db, "ABCD"), Some(vec![player(0, 1), player(1, 123456789012)]));
}
