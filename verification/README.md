# troupes_tail

The room server of a small multiplayer game, relaying JSON requests between
websocket clients.

- `src/` is the verified library (Verus):
  - `model.rs`: the server state (connections to room codes, rooms to
    players) and its mathematical model;
  - `server.rs`: what each request (`host`, `join`, `addGuest`, `send`, a
    departure) does to the state and which messages it sends;
  - `password.rs`: random four-letter room codes;
  - `payload.rs`: the JSON payload operations, done by `serde_json`;
  - `numbers.rs`: writing and reading decimal connection ids;
  - `client.rs`: the decisions of the per-connection task;
  - `laws.rs`: properties that hold across requests, and what a run of the
    server is: one state, starting empty, changed by one event after another
    as `handle_event` describes.
- `app/` is the executable: sockets, tasks and channels (tokio,
  tokio-tungstenite), and the JSON form of requests (serde).
- `tests/` exercises the library.
