//! The server's state: which room each connection belongs to, and the
//! players of each room.
use std::collections::HashMap;
use vstd::hash_map::StringHashMap;
use vstd::prelude::*;

verus! {

broadcast use vstd::std_specs::hash::group_hash_axioms;

/// A player of a room: its number within the room (the host is 0) and the
/// connection it plays from.
#[derive(Clone, Copy, Debug, PartialEq, Eq, Structural)]
pub struct PlayerData {
    pub playerId: i64,
    pub connectionId: i64,
}

/// The players of one room, in the order in which they entered it.
#[derive(Debug)]
pub struct GameData {
    pub players: Vec<PlayerData>,
}

impl View for GameData {
    type V = Seq<PlayerData>;

    open spec fn view(&self) -> Seq<PlayerData> {
        self.players@
    }
}

/// The whole server state.
pub struct Database {
    /// The room code each connection is attached to.
    pub connections: HashMap<i64, String>,
    /// The rooms, by room code.
    pub games: StringHashMap<GameData>,
}

/// The mathematical picture of a [`Database`].
pub struct DatabaseView {
    pub connections: Map<i64, Seq<char>>,
    pub games: Map<Seq<char>, Seq<PlayerData>>,
}

impl View for Database {
    type V = DatabaseView;

    open spec fn view(&self) -> DatabaseView {
        DatabaseView {
            connections: self.connections@.map_values(|s: String| s@),
            games: self.games@.map_values(|g: GameData| g@),
        }
    }
}

/// The players of `players` that do not play from connection `conn`, in order.
pub open spec fn players_without(players: Seq<PlayerData>, conn: i64) -> Seq<PlayerData>
    decreases players.len(),
{
    if players.len() == 0 {
        players
    } else {
        let rest = players_without(players.drop_last(), conn);
        if players.last().connectionId != conn {
            rest.push(players.last())
        } else {
            rest
        }
    }
}

/// The first player of `players` that plays from connection `conn`.
pub open spec fn seat_of(players: Seq<PlayerData>, conn: i64) -> Option<PlayerData>
    decreases players.len(),
{
    if players.len() == 0 {
        None
    } else if players[0].connectionId == conn {
        Some(players[0])
    } else {
        seat_of(players.drop_first(), conn)
    }
}

/// The first player of `players` numbered `number`.
pub open spec fn player_numbered(players: Seq<PlayerData>, number: i64) -> Option<PlayerData>
    decreases players.len(),
{
    if players.len() == 0 {
        None
    } else if players[0].playerId == number {
        Some(players[0])
    } else {
        player_numbered(players.drop_first(), number)
    }
}

impl DatabaseView {
    /// The empty state.
    pub open spec fn empty() -> DatabaseView {
        DatabaseView { connections: Map::empty(), games: Map::empty() }
    }

    /// Every room that exists has a player, and its first player is its
    /// host, player 0.
    pub open spec fn wf(self) -> bool {
        forall|code: Seq<char>| #[trigger]
            self.games.contains_key(code) ==> self.games[code].len() > 0
                && self.games[code][0].playerId == 0
    }

    /// Connection `host` opens room `code` and is its player 0.
    pub open spec fn hosted(self, host: i64, code: Seq<char>) -> DatabaseView {
        DatabaseView {
            connections: self.connections.insert(host, code),
            games: self.games.insert(code, seq![PlayerData { playerId: 0, connectionId: host }]),
        }
    }

    /// Connection `guest` enters room `code` (which exists) as player `player`.
    pub open spec fn with_guest(self, code: Seq<char>, player: i64, guest: i64) -> DatabaseView {
        DatabaseView {
            connections: self.connections.insert(guest, code),
            games: self.games.insert(
                code,
                self.games[code].push(PlayerData { playerId: player, connectionId: guest }),
            ),
        }
    }

    /// Connection `conn` goes away: it is detached from its room; when its
    /// (first) seat in that room is the host's, player 0, the room is
    /// closed; otherwise its players leave the room, and a room left without
    /// players is closed.
    pub open spec fn without_connection(self, conn: i64) -> DatabaseView {
        if !self.connections.contains_key(conn) {
            self
        } else {
            let code = self.connections[conn];
            let connections = self.connections.remove(conn);
            if !self.games.contains_key(code) {
                DatabaseView { connections, games: self.games }
            } else if seat_of(self.games[code], conn) matches Some(seat) && seat.playerId == 0 {
                DatabaseView { connections, games: self.games.remove(code) }
            } else {
                let left = players_without(self.games[code], conn);
                if left.len() == 0 {
                    DatabaseView { connections, games: self.games.remove(code) }
                } else {
                    DatabaseView { connections, games: self.games.insert(code, left) }
                }
            }
        }
    }
}

impl Database {
    /// An empty server state: no connection, no room.
    pub fn new() -> (db: Database)
        ensures
            db@ == DatabaseView::empty(),
            db@.wf(),
    {
        let db = Database { connections: HashMap::new(), games: StringHashMap::new() };
        assert(db@.connections =~= Map::empty());
        assert(db@.games =~= Map::empty());
        db
    }

    /// Connection `host` opens room `code` as its player 0; an earlier room
    /// with the same code is replaced.
    pub(crate) fn open_room(&mut self, host: i64, code: String)
        ensures
            final(self)@ == old(self)@.hosted(host, code@),
    {
        let ghost before = self@;
        self.connections.insert(host, code.clone());
        let mut players: Vec<PlayerData> = Vec::new();
        players.push(PlayerData { playerId: 0, connectionId: host });
        assert(players@ =~= seq![PlayerData { playerId: 0, connectionId: host }]);
        self.games.insert(code, GameData { players });
        assert(self@.connections =~= before.hosted(host, code@).connections);
        assert(self@.games =~= before.hosted(host, code@).games);
    }

    /// Connection `guest` enters room `code` as player `player`. Returns
    /// `false`, and changes nothing, when there is no such room.
    pub(crate) fn enter_room(&mut self, code: &str, player: i64, guest: i64) -> (entered: bool)
        ensures
            entered == old(self)@.games.contains_key(code@),
            entered ==> final(self)@ == old(self)@.with_guest(code@, player, guest),
            !entered ==> final(self)@ == old(self)@,
    {
        let ghost before = self@;
        let mut players: Vec<PlayerData> = match self.games.get(code) {
            Some(game) => copy_players(&game.players),
            None => {
                return false;
            },
        };
        players.push(PlayerData { playerId: player, connectionId: guest });
        self.games.insert(code.to_owned(), GameData { players });
        self.connections.insert(guest, code.to_owned());
        assert(self@.connections =~= before.with_guest(code@, player, guest).connections);
        assert(self@.games =~= before.with_guest(code@, player, guest).games);
        true
    }

    /// The players of room `code`, if it exists.
    pub(crate) fn room_players(&self, code: &str) -> (players: Option<&Vec<PlayerData>>)
        ensures
            match players {
                Some(p) => self@.games.contains_key(code@) && p@ == self@.games[code@],
                None => !self@.games.contains_key(code@),
            },
    {
        match self.games.get(code) {
            Some(game) => Some(&game.players),
            None => None,
        }
    }

    /// Connection `conn` goes away; see [`DatabaseView::without_connection`].
    pub(crate) fn drop_connection(&mut self, conn: i64)
        ensures
            final(self)@ == old(self)@.without_connection(conn),
    {
        let ghost before = self@;
        match self.connections.remove(&conn) {
            None => {
                assert(self@.connections =~= before.connections);
                assert(self@.games =~= before.games);
            },
            Some(code) => {
                assert(self@.connections =~= before.connections.remove(conn));
                let (seat, left) = match self.games.get(code.as_str()) {
                    Some(game) => (find_seat(&game.players, conn), players_other_than(&game.players, conn)),
                    None => {
                        assert(self@.games =~= before.games);
                        return;
                    },
                };
                let host_leaves: bool = match seat {
                    Some(p) => p.playerId == 0,
                    None => false,
                };
                if host_leaves {
                    self.games.remove(code.as_str());
                    assert(self@.games =~= before.games.remove(code@));
                } else if left.len() == 0 {
                    self.games.remove(code.as_str());
                    assert(self@.games =~= before.games.remove(code@));
                } else {
                    self.games.insert(code, GameData { players: left });
                    assert(self@.games =~= before.games.insert(
                        code@,
                        players_without(before.games[code@], conn),
                    ));
                }
            },
        }
    }
}

/// The first player of `players` that plays from connection `conn`.
fn find_seat(players: &Vec<PlayerData>, conn: i64) -> (seat: Option<PlayerData>)
    ensures
        seat == seat_of(players@, conn),
{
    let mut i: usize = 0;
    assert(players@.skip(0) =~= players@);
    while i < players.len()
        invariant
            i <= players.len(),
            seat_of(players@, conn) == seat_of(players@.skip(i as int), conn),
        decreases players.len() - i,
    {
        assert(players@.skip(i as int)[0] == players@[i as int]);
        if players[i].connectionId == conn {
            return Some(players[i]);
        }
        assert(players@.skip(i as int).drop_first() =~= players@.skip(i + 1));
        i = i + 1;
    }
    None
}

/// The first player of `players` numbered `number`.
pub(crate) fn find_player(players: &Vec<PlayerData>, number: i64) -> (player: Option<PlayerData>)
    ensures
        player == player_numbered(players@, number),
{
    let mut i: usize = 0;
    assert(players@.skip(0) =~= players@);
    while i < players.len()
        invariant
            i <= players.len(),
            player_numbered(players@, number) == player_numbered(players@.skip(i as int), number),
        decreases players.len() - i,
    {
        assert(players@.skip(i as int)[0] == players@[i as int]);
        if players[i].playerId == number {
            return Some(players[i]);
        }
        assert(players@.skip(i as int).drop_first() =~= players@.skip(i + 1));
        i = i + 1;
    }
    None
}

/// A copy of `players`.
fn copy_players(players: &Vec<PlayerData>) -> (out: Vec<PlayerData>)
    ensures
        out@ == players@,
{
    let mut out: Vec<PlayerData> = Vec::new();
    let mut i: usize = 0;
    while i < players.len()
        invariant
            i <= players.len(),
            out@ == players@.take(i as int),
        decreases players.len() - i,
    {
        out.push(players[i]);
        assert(players@.take(i + 1) =~= players@.take(i as int).push(players@[i as int]));
        i = i + 1;
    }
    assert(players@.take(players.len() as int) =~= players@);
    out
}

/// The players of `players` that do not play from connection `conn`, in order.
fn players_other_than(players: &Vec<PlayerData>, conn: i64) -> (out: Vec<PlayerData>)
    ensures
        out@ == players_without(players@, conn),
{
    let mut out: Vec<PlayerData> = Vec::new();
    let mut i: usize = 0;
    while i < players.len()
        invariant
            i <= players.len(),
            out@ == players_without(players@.take(i as int), conn),
        decreases players.len() - i,
    {
        assert(players@.take(i + 1).drop_last() =~= players@.take(i as int));
        if players[i].connectionId != conn {
            out.push(players[i]);
        }
        i = i + 1;
    }
    assert(players@.take(players.len() as int) =~= players@);
    out
}

} // verus!
