//! The values that servers and clients exchange with the registry, and how
//! they are read from and written to its tables.

use crate::api_error::ApiError;
use crate::db::model::{
    crowds, fast_token_has_code, fast_token_has_code_after, fast_token_has_id, game_has_id,
    game_of_info, game_of_other_info, info_has_id, info_lacks_id, info_of_server, owned_by,
    server_has_id, server_has_token, too_close, FastToken, Registry, RegistryView, Server,
    ServerGame, ServerInfo,
};
use crate::db::query::{
    another_is, filter_keeps_all, filter_keeps_none, filter_keeps_order, first, is_first, none_is,
    position, position_agrees, position_facts, position_of_first, position_of_none, take_step,
};
use crate::freshness::{
    age_millis, is_valid_token_age, last_seen_millis, show_instant, shown_instant,
    FAST_TOKEN_WINDOW_MICROS,
};
use crate::id::{encode_id, id_text, new_id};
use vstd::prelude::*;

verus! {

/// One game in a published state.
#[derive(Debug, PartialEq, Eq)]
pub struct GameServerEntry {
    pub name: String,
    pub uri: String,
    pub rooms: u32,
    pub max_rooms: Option<u32>,
    pub clients: u32,
}

pub struct GameServerEntryView {
    pub name: Seq<char>,
    pub uri: Seq<char>,
    pub rooms: u32,
    pub max_rooms: Option<u32>,
    pub clients: u32,
}

impl View for GameServerEntry {
    type V = GameServerEntryView;

    open spec fn view(&self) -> GameServerEntryView {
        GameServerEntryView {
            name: self.name@,
            uri: self.uri@,
            rooms: self.rooms,
            max_rooms: self.max_rooms,
            clients: self.clients,
        }
    }
}

impl DeepView for GameServerEntry {
    type V = GameServerEntryView;

    open spec fn deep_view(&self) -> GameServerEntryView {
        self@
    }
}

impl Clone for GameServerEntry {
    fn clone(&self) -> (copy: Self)
        ensures
            copy == *self,
    {
        GameServerEntry {
            name: self.name.clone(),
            uri: self.uri.clone(),
            rooms: self.rooms,
            max_rooms: self.max_rooms,
            clients: self.clients,
        }
    }
}

/// A capacity as the interface shows it: the same thirty-two bits, read
/// without a sign.
pub open spec fn shown(stored: Option<i32>) -> Option<u32> {
    match stored {
        Some(n) => Some(n as u32),
        None => None,
    }
}

/// A capacity as the tables hold it: the same thirty-two bits, read with a
/// sign.
pub open spec fn stored(shown: Option<u32>) -> Option<i32> {
    match shown {
        Some(n) => Some(n as i32),
        None => None,
    }
}

/// What a published state shows of a game.
pub open spec fn entry_of(game: ServerGame) -> GameServerEntryView {
    GameServerEntryView {
        name: game.name@,
        uri: game.uri@,
        rooms: game.rooms as u32,
        max_rooms: shown(game.max_rooms),
        clients: game.clients as u32,
    }
}

pub open spec fn entry_of_game() -> spec_fn(ServerGame) -> GameServerEntryView {
    |game: ServerGame| entry_of(game)
}

fn show(stored: Option<i32>) -> (capacity: Option<u32>)
    ensures
        capacity == shown(stored),
{
    match stored {
        Some(n) => Some(n as u32),
        None => None,
    }
}

fn store(shown: Option<u32>) -> (capacity: Option<i32>)
    ensures
        capacity == stored(shown),
{
    match shown {
        Some(n) => Some(n as i32),
        None => None,
    }
}

impl From<ServerGame> for GameServerEntry {
    fn from(value: ServerGame) -> (entry: GameServerEntry) {
        GameServerEntry {
            name: value.name,
            uri: value.uri,
            rooms: value.rooms as u32,
            max_rooms: show(value.max_rooms),
            clients: value.clients as u32,
        }
    }
}

impl vstd::std_specs::convert::FromSpecImpl<ServerGame> for GameServerEntry {
    open spec fn obeys_from_spec() -> bool {
        true
    }

    open spec fn from_spec(value: ServerGame) -> GameServerEntry {
        GameServerEntry {
            name: value.name,
            uri: value.uri,
            rooms: value.rooms as u32,
            max_rooms: shown(value.max_rooms),
            clients: value.clients as u32,
        }
    }
}

impl From<&ServerGame> for GameServerEntry {
    fn from(value: &ServerGame) -> (entry: GameServerEntry) {
        GameServerEntry {
            name: value.name.clone(),
            uri: value.uri.clone(),
            rooms: value.rooms as u32,
            max_rooms: show(value.max_rooms),
            clients: value.clients as u32,
        }
    }
}

impl vstd::std_specs::convert::FromSpecImpl<&ServerGame> for GameServerEntry {
    open spec fn obeys_from_spec() -> bool {
        true
    }

    open spec fn from_spec(value: &ServerGame) -> GameServerEntry {
        GameServerEntry {
            name: value.name,
            uri: value.uri,
            rooms: value.rooms as u32,
            max_rooms: shown(value.max_rooms),
            clients: value.clients as u32,
        }
    }
}

/// The state that a server publishes.
#[derive(Debug, PartialEq, Eq)]
pub struct GameServerInfo {
    pub name: String,
    pub uri: String,
    pub developer: bool,
    pub fallback: bool,
    pub full: bool,
    pub maintenance: bool,
    pub max_clients: Option<u32>,
    pub games: Vec<GameServerEntry>,
}

pub struct GameServerInfoView {
    pub name: Seq<char>,
    pub uri: Seq<char>,
    pub developer: bool,
    pub fallback: bool,
    pub full: bool,
    pub maintenance: bool,
    pub max_clients: Option<u32>,
    pub games: Seq<GameServerEntryView>,
}

impl View for GameServerInfo {
    type V = GameServerInfoView;

    open spec fn view(&self) -> GameServerInfoView {
        GameServerInfoView {
            name: self.name@,
            uri: self.uri@,
            developer: self.developer,
            fallback: self.fallback,
            full: self.full,
            maintenance: self.maintenance,
            max_clients: self.max_clients,
            games: self.games.deep_view(),
        }
    }
}

impl DeepView for GameServerInfo {
    type V = GameServerInfoView;

    open spec fn deep_view(&self) -> GameServerInfoView {
        self@
    }
}

/// The published state that the tables hold under `info`: the row itself
/// and, in the order of their table, the games that belong to it.
pub open spec fn info_of(registry: RegistryView, info: ServerInfo) -> GameServerInfoView {
    GameServerInfoView {
        name: info.name@,
        uri: info.uri@,
        developer: info.developer,
        fallback: info.fallback,
        full: info.full,
        maintenance: info.maintenance,
        max_clients: shown(info.max_clients),
        games: registry.games.filter(game_of_info(info.id)).map_values(entry_of_game()),
    }
}

impl GameServerInfo {
    /// Reads a published state with its games from the tables.
    pub fn try_from(registry: &Registry, value: ServerInfo) -> (result: Result<
        GameServerInfo,
        ApiError,
    >)
        ensures
            result matches Ok(info) && info@ == info_of(registry@, value),
    {
        let rows = match ServerGame::find_by_info(registry, value.id) {
            Ok(rows) => rows,
            Err(e) => {
                return Err(e);
            },
        };
        let mut games: Vec<GameServerEntry> = Vec::new();
        let mut i: usize = 0;
        proof {
            assert(games.deep_view() =~= rows@.take(0).map_values(entry_of_game()));
        }
        while i < rows.len()
            invariant
                i <= rows.len(),
                games.deep_view() == rows@.take(i as int).map_values(entry_of_game()),
            decreases rows.len() - i,
        {
            let ghost before = games.deep_view();
            let entry = GameServerEntry::from(&rows[i]);
            games.push(entry);
            proof {
                take_step(rows@, i as int);
                assert(games.deep_view() =~= before.push(entry_of(rows@[i as int])));
                assert(rows@.take(i + 1).map_values(entry_of_game()) =~= rows@.take(
                    i as int,
                ).map_values(entry_of_game()).push(entry_of(rows@[i as int])));
            }
            i += 1;
        }
        proof {
            assert(rows@.take(rows.len() as int) =~= rows@);
        }
        Ok(
            GameServerInfo {
                name: value.name,
                uri: value.uri,
                developer: value.developer,
                fallback: value.fallback,
                full: value.full,
                maintenance: value.maintenance,
                max_clients: show(value.max_clients),
                games,
            },
        )
    }
}

/// A server as the registry shows it to clients.
#[derive(Debug, PartialEq, Eq)]
pub struct GameServer {
    /// The server's identifier as thirty-two hex digits.
    pub id: String,
    /// The instant of the last publish, written out.
    pub last_seen: String,
    /// The age of the last publish in whole milliseconds.
    pub last_seen_ms: i64,
    pub info: GameServerInfo,
}

pub struct GameServerView {
    pub id: Seq<char>,
    pub last_seen: Seq<char>,
    pub last_seen_ms: int,
    pub info: GameServerInfoView,
}

impl View for GameServer {
    type V = GameServerView;

    open spec fn view(&self) -> GameServerView {
        GameServerView {
            id: self.id@,
            last_seen: self.last_seen@,
            last_seen_ms: self.last_seen_ms as int,
            info: self.info@,
        }
    }
}

impl DeepView for GameServer {
    type V = GameServerView;

    open spec fn deep_view(&self) -> GameServerView {
        self@
    }
}

/// What the registry shows at `now` of a server and its published state.
pub open spec fn game_server_of(
    registry: RegistryView,
    server: Server,
    info: ServerInfo,
    now: i64,
) -> GameServerView {
    GameServerView {
        id: id_text(server.id),
        last_seen: shown_instant(server.last_seen),
        last_seen_ms: age_millis(now, server.last_seen),
        info: info_of(registry, info),
    }
}

impl GameServer {
    /// Shows a server at `now`. A server without a published state cannot
    /// be shown.
    pub fn try_from(registry: &Registry, value: Server, now: i64) -> (result: Result<
        GameServer,
        ApiError,
    >)
        ensures
            match first(registry@.infos, info_of_server(value.id)) {
                Some(info) => result matches Ok(server) && server@ == game_server_of(
                    registry@,
                    value,
                    info,
                    now,
                ),
                None => result == Err::<GameServer, ApiError>(ApiError::NotFound),
            },
    {
        match ServerInfo::find_by_server(registry, value.id) {
            Ok(info) => GameServer::try_from_pair(registry, value, info, now),
            Err(e) => Err(e),
        }
    }

    /// Shows a server at `now` with the published state that was read
    /// beside it.
    pub fn try_from_pair(registry: &Registry, server: Server, info: ServerInfo, now: i64) -> (result:
        Result<GameServer, ApiError>)
        ensures
            result matches Ok(shown) && shown@ == game_server_of(registry@, server, info, now),
    {
        let id = encode_id(server.id);
        let last_seen = show_instant(server.last_seen);
        let last_seen_ms = last_seen_millis(now, server.last_seen);
        match GameServerInfo::try_from(registry, info) {
            Ok(info) => Ok(GameServer { id, last_seen, last_seen_ms, info }),
            Err(e) => Err(e),
        }
    }
}

/// The row under which a published state is stored.
pub open spec fn info_row(state: GameServerInfo, id: u128, server_id: u128, now: i64) -> ServerInfo {
    ServerInfo {
        id,
        name: state.name,
        uri: state.uri,
        developer: state.developer,
        fallback: state.fallback,
        full: state.full,
        maintenance: state.maintenance,
        max_clients: stored(state.max_clients),
        server_id,
        created_at: now,
        updated_at: None,
    }
}

/// The row under which a game of a published state is stored.
pub open spec fn game_row(entry: GameServerEntry, id: u128, info_id: u128, now: i64) -> ServerGame {
    ServerGame {
        id,
        name: entry.name,
        uri: entry.uri,
        rooms: entry.rooms as i32,
        max_rooms: stored(entry.max_rooms),
        clients: entry.clients as i32,
        game_info_id: info_id,
        created_at: now,
        updated_at: None,
    }
}

/// The rows of the games of a published state, in the order of the state.
pub open spec fn game_rows(
    entries: Seq<GameServerEntry>,
    ids: Seq<u128>,
    info_id: u128,
    now: i64,
) -> Seq<ServerGame> {
    Seq::new(entries.len(), |k: int| game_row(entries[k], ids[k], info_id, now))
}

/// Each of the new rows can be stored after those before it: its
/// identifier is neither in the table nor that of an earlier new row.
pub open spec fn games_fit(table: Seq<ServerGame>, rows: Seq<ServerGame>) -> bool {
    forall|k: int|
        0 <= k < rows.len() ==> none_is(
            table + #[trigger] rows.take(k),
            game_has_id(rows[k].id),
        )
}

/// The new state can be stored: its identifier is new to the table, and its
/// server has no state there.
pub open spec fn info_fits(table: Seq<ServerInfo>, row: ServerInfo) -> bool {
    none_is(table, info_has_id(row.id)) && none_is(table, info_of_server(row.server_id))
}

/// The tables of states and games once the state with the given identifier
/// and its games are removed.
pub open spec fn without_state(before: RegistryView, info_id: u128) -> RegistryView {
    RegistryView {
        infos: before.infos.filter(info_lacks_id(info_id)),
        games: before.games.filter(game_of_other_info(info_id)),
        ..before
    }
}

/// The tables once the state that the given server published last, if it
/// has one, is removed with its games. A server without a state leaves the
/// tables as they are.
pub open spec fn without_state_of(before: RegistryView, server_id: u128) -> RegistryView {
    match first(before.infos, info_of_server(server_id)) {
        Some(replaced) => without_state(before, replaced.id),
        None => before,
    }
}

/// Why a publish under `token` with the given fresh identifiers fails, if it
/// does.
///
/// There must be one fresh identifier for each game. Beyond that a publish
/// fails only where a row cannot be stored: where a fresh identifier is
/// already taken, where the token is that of two servers, or where the new
/// server's identifier already has a state. A server that is known by its
/// token need not have a state to replace.
pub open spec fn publish_error(
    before: RegistryView,
    state: GameServerInfo,
    token: Seq<char>,
    now: i64,
    server_id: u128,
    info_id: u128,
    game_ids: Seq<u128>,
) -> Option<ApiError> {
    let games = game_rows(state.games@, game_ids, info_id, now);
    if game_ids.len() != state.games@.len() {
        Some(ApiError::Conflict)
    } else {
        publish_error_with(before, state, token, now, server_id, info_id, games)
    }
}

/// Why a publish under `token` fails, if it does, once the rows of its games
/// are made.
pub open spec fn publish_error_with(
    before: RegistryView,
    state: GameServerInfo,
    token: Seq<char>,
    now: i64,
    server_id: u128,
    info_id: u128,
    games: Seq<ServerGame>,
) -> Option<ApiError> {
    match position(before.servers, server_has_token(token)) {
        Some(at) => {
            let server = before.servers[at];
            let rest = without_state_of(before, server.id);
            if position(before.servers, server_has_id(server.id)) != Some(at) || another_is(
                before.servers,
                server_has_token(token),
                at,
            ) || !info_fits(rest.infos, info_row(state, info_id, server.id, now)) || !games_fit(
                rest.games,
                games,
            ) {
                Some(ApiError::Conflict)
            } else {
                None
            }
        },
        None => {
            if !none_is(before.servers, server_has_id(server_id)) || !info_fits(
                before.infos,
                info_row(state, info_id, server_id, now),
            ) || !games_fit(before.games, games) {
                Some(ApiError::Conflict)
            } else {
                None
            }
        },
    }
}

/// The identifier of the server that a publish under `token` is stored
/// for: that of the server known by the token, or else the fresh one.
pub open spec fn publishing_server(before: RegistryView, token: Seq<char>, server_id: u128) -> u128 {
    match first(before.servers, server_has_token(token)) {
        Some(server) => server.id,
        None => server_id,
    }
}

/// The tables after a publish that succeeded.
///
/// A known server keeps its row, with the heartbeat set to `now`; its old
/// state, if it had one, and the games of that state are gone. An unknown
/// server gets a row with the fresh identifier. Either way the new state
/// and its games are appended, and the fast tokens are untouched.
pub open spec fn published(
    before: RegistryView,
    after: RegistryView,
    state: GameServerInfo,
    token: Seq<char>,
    now: i64,
    server_id: u128,
    info_id: u128,
    game_ids: Seq<u128>,
) -> bool {
    let id = publishing_server(before, token, server_id);
    let games = game_rows(state.games@, game_ids, info_id, now);
    &&& after.fast_tokens == before.fast_tokens
    &&& match position(before.servers, server_has_token(token)) {
        Some(at) => {
            let rest = without_state_of(before, id);
            &&& after.servers == before.servers.update(
                at,
                Server { last_seen: now, ..before.servers[at] },
            )
            &&& after.infos == rest.infos.push(info_row(state, info_id, id, now))
            &&& after.games == rest.games + games
        },
        None => {
            &&& after.servers.len() == before.servers.len() + 1
            &&& after.servers.drop_last() == before.servers
            &&& after.servers.last().id == server_id
            &&& after.servers.last().token@ == token
            &&& after.servers.last().last_seen == now
            &&& after.servers.last().created_at == now
            &&& after.servers.last().updated_at is None
            &&& after.infos == before.infos.push(info_row(state, info_id, id, now))
            &&& after.games == before.games + games
        },
    }
}

/// How a publish ends: it fails and changes nothing, or it succeeds, the
/// tables are as `published` says, and the server that is shown carries its
/// identifier and a heartbeat of this instant.
pub open spec fn publish_outcome(
    before: RegistryView,
    after: RegistryView,
    shown_before: GameServer,
    shown_after: GameServer,
    token: Seq<char>,
    now: i64,
    server_id: u128,
    info_id: u128,
    game_ids: Seq<u128>,
    result: Result<(), ApiError>,
) -> bool {
    let state = shown_before.info;
    match publish_error(before, state, token, now, server_id, info_id, game_ids) {
        Some(e) => result == Err::<(), ApiError>(e) && after == before && shown_after
            == shown_before,
        None => {
            &&& result is Ok
            &&& published(before, after, state, token, now, server_id, info_id, game_ids)
            &&& shown_after.id@ == id_text(publishing_server(before, token, server_id))
            &&& shown_after.last_seen@ == shown_instant(now)
            &&& shown_after.last_seen_ms == 0
            &&& shown_after.info == state
        },
    }
}

/// Builds the row of one game of a published state.
fn make_game_row(entry: &GameServerEntry, id: u128, info_id: u128, now: i64) -> (row: ServerGame)
    ensures
        row == game_row(*entry, id, info_id, now),
{
    ServerGame {
        id,
        name: entry.name.clone(),
        uri: entry.uri.clone(),
        rooms: entry.rooms as i32,
        max_rooms: store(entry.max_rooms),
        clients: entry.clients as i32,
        game_info_id: info_id,
        created_at: now,
        updated_at: None,
    }
}

/// Builds the row of a published state.
fn make_info_row(state: &GameServerInfo, id: u128, server_id: u128, now: i64) -> (row: ServerInfo)
    ensures
        row == info_row(*state, id, server_id, now),
{
    ServerInfo {
        id,
        name: state.name.clone(),
        uri: state.uri.clone(),
        developer: state.developer,
        fallback: state.fallback,
        full: state.full,
        maintenance: state.maintenance,
        max_clients: store(state.max_clients),
        server_id,
        created_at: now,
        updated_at: None,
    }
}

/// Stores the rows of the games of a state, one after the other, and stops
/// at the first that cannot be stored.
fn store_games(
    work: &mut Registry,
    entries: &Vec<GameServerEntry>,
    game_ids: &Vec<u128>,
    info_id: u128,
    now: i64,
) -> (result: Result<(), ApiError>)
    requires
        game_ids@.len() == entries@.len(),
        !none_is(old(work)@.infos, info_has_id(info_id)),
    ensures
        result is Ok <==> games_fit(old(work)@.games, game_rows(entries@, game_ids@, info_id, now)),
        result matches Err(e) ==> e == ApiError::Conflict,
        result is Ok ==> final(work)@ == (RegistryView {
            games: old(work)@.games + game_rows(entries@, game_ids@, info_id, now),
            ..old(work)@
        }),
        old(work)@.wf() ==> final(work)@.wf(),
{
    let ghost rows = game_rows(entries@, game_ids@, info_id, now);
    let ghost table = work@.games;
    let mut k: usize = 0;
    proof {
        assert(table + rows.take(0) =~= table);
    }
    while k < entries.len()
        invariant
            k <= entries.len(),
            game_ids@.len() == entries@.len(),
            !none_is(old(work)@.infos, info_has_id(info_id)),
            rows == game_rows(entries@, game_ids@, info_id, now),
            table == old(work)@.games,
            work@ == (RegistryView { games: table + rows.take(k as int), ..old(work)@ }),
            forall|j: int|
                0 <= j < k ==> none_is(table + #[trigger] rows.take(j), game_has_id(rows[j].id)),
            old(work)@.wf() ==> work@.wf(),
        decreases entries.len() - k,
    {
        let row = make_game_row(&entries[k], game_ids[k], info_id, now);
        proof {
            assert(row == rows[k as int]);
            assert(owned_by(work@.infos)(row));
        }
        match ServerGame::create(work, row) {
            Ok(_) => {},
            Err(e) => {
                return Err(e);
            },
        }
        proof {
            take_step(rows, k as int);
            assert((table + rows.take(k as int)).push(rows[k as int]) =~= table + rows.take(
                k as int + 1,
            ));
        }
        k += 1;
    }
    proof {
        assert(rows.take(rows.len() as int) =~= rows);
    }
    Ok(())
}

impl GameServer {
    /// Publishes the state of `self` under `token` at `now`, with the
    /// identifiers given for the rows that are created: `server_id` for the
    /// server, if the token is new, `info_id` for the state and one of
    /// `game_ids` for each game, in their order.
    ///
    /// A publish either goes through as a whole or leaves the registry as it
    /// was.
    pub fn save_with_ids(
        &mut self,
        registry: &mut Registry,
        token: &str,
        now: i64,
        server_id: u128,
        info_id: u128,
        game_ids: &Vec<u128>,
    ) -> (result: Result<(), ApiError>)
        ensures
            publish_outcome(
                old(registry)@,
                final(registry)@,
                *old(self),
                *final(self),
                token@,
                now,
                server_id,
                info_id,
                game_ids@,
                result,
            ),
            old(registry)@.wf() ==> final(registry)@.wf(),
    {
        if game_ids.len() != self.info.games.len() {
            return Err(ApiError::Conflict);
        }
        let ghost before = registry@;
        let mut work = registry.clone();
        proof {
            position_facts(before.servers, server_has_token(token@));
            position_facts(before.servers, server_has_id(server_id));
        }
        let id = match Server::find_by_token(&work, token) {
            Ok(mut known) => {
                proof {
                    position_facts(before.infos, info_of_server(known.id));
                    position_facts(before.servers, server_has_id(known.id));
                }
                match ServerInfo::find_by_server(&work, known.id) {
                    Ok(replaced) => {
                        let _ = ServerGame::delete_by_info(&mut work, replaced.id);
                        proof {
                            filter_keeps_order(before.games, game_of_other_info(replaced.id));
                        }
                        let _ = ServerInfo::delete(&mut work, replaced.id);
                    },
                    Err(_) => {},
                }
                known.last_seen = now;
                match Server::update(&mut work, known) {
                    Ok(stored) => stored.id,
                    Err(e) => {
                        return Err(e);
                    },
                }
            },
            Err(_) => {
                let entry = Server {
                    id: server_id,
                    last_seen: now,
                    token: token.to_owned(),
                    created_at: now,
                    updated_at: None,
                };
                match Server::create(&mut work, entry) {
                    Ok(stored) => stored.id,
                    Err(e) => {
                        return Err(e);
                    },
                }
            },
        };
        let row = make_info_row(&self.info, info_id, id, now);
        match ServerInfo::create(&mut work, row) {
            Ok(_) => {},
            Err(e) => {
                return Err(e);
            },
        }
        proof {
            assert(info_has_id(info_id)(work@.infos[work@.infos.len() - 1]));
        }
        match store_games(&mut work, &self.info.games, game_ids, info_id, now) {
            Ok(()) => {},
            Err(e) => {
                return Err(e);
            },
        }
        proof {
            if position(before.servers, server_has_token(token@)) is None {
                assert(work@.servers.drop_last() =~= before.servers);
            }
        }
        *registry = work;
        self.id = encode_id(id);
        self.last_seen = show_instant(now);
        self.last_seen_ms = 0;
        Ok(())
    }

    /// Publishes the state of `self` under `token` at `now`. The rows that
    /// are created get fresh identifiers, so the outcome is that of
    /// `save_with_ids` for some identifiers.
    pub fn save(&mut self, registry: &mut Registry, token: &str, now: i64) -> (result: Result<
        (),
        ApiError,
    >)
        ensures
            exists|server_id: u128, info_id: u128, game_ids: Seq<u128>|
                game_ids.len() == old(self).info.games@.len() && #[trigger] publish_outcome(
                    old(registry)@,
                    final(registry)@,
                    *old(self),
                    *final(self),
                    token@,
                    now,
                    server_id,
                    info_id,
                    game_ids,
                    result,
                ),
            old(registry)@.wf() ==> final(registry)@.wf(),
    {
        let server_id = new_id();
        let info_id = new_id();
        let mut game_ids: Vec<u128> = Vec::new();
        while game_ids.len() < self.info.games.len()
            invariant
                game_ids.len() <= self.info.games.len(),
                *self == *old(self),
            decreases self.info.games.len() - game_ids.len(),
        {
            game_ids.push(new_id());
        }
        self.save_with_ids(registry, token, now, server_id, info_id, &game_ids)
    }
}

/// A capacity that is stored and shown again is the capacity that was
/// published.
pub proof fn stored_capacity_is_shown(capacity: Option<u32>)
    ensures
        shown(stored(capacity)) == capacity,
{
    match capacity {
        Some(n) => {
            assert((n as i32) as u32 == n) by (bit_vector);
        },
        None => {},
    }
}

/// The row of a game shows the entry that was published.
pub proof fn stored_game_is_shown(entry: GameServerEntry, id: u128, info_id: u128, now: i64)
    ensures
        entry_of(game_row(entry, id, info_id, now)) == entry@,
{
    let rooms = entry.rooms;
    let clients = entry.clients;
    assert((rooms as i32) as u32 == rooms) by (bit_vector);
    assert((clients as i32) as u32 == clients) by (bit_vector);
    stored_capacity_is_shown(entry.max_rooms);
}

/// Publishing under a token that a server already has never adds a server
/// row: the table of servers keeps its length, and every row keeps its
/// identifier and its token. Where the publish succeeds, the server's
/// heartbeat is `now`, and the state that the tables hold for the server
/// afterwards is the state that was published, games included, whether or
/// not the server had a state before.
pub proof fn republishing_replaces_the_state(
    before: RegistryView,
    after: RegistryView,
    shown_before: GameServer,
    shown_after: GameServer,
    token: Seq<char>,
    now: i64,
    server_id: u128,
    info_id: u128,
    game_ids: Seq<u128>,
    result: Result<(), ApiError>,
)
    requires
        before.wf(),
        first(before.servers, server_has_token(token)) is Some,
        publish_outcome(
            before,
            after,
            shown_before,
            shown_after,
            token,
            now,
            server_id,
            info_id,
            game_ids,
            result,
        ),
    ensures
        after.servers.len() == before.servers.len(),
        forall|i: int|
            0 <= i < before.servers.len() ==> (#[trigger] after.servers[i]).id
                == before.servers[i].id && after.servers[i].token == before.servers[i].token,
        result is Ok ==> {
            let known = first(before.servers, server_has_token(token))->0;
            &&& first(after.servers, server_has_token(token)) matches Some(server)
            &&& server.id == known.id
            &&& server.last_seen == now
            &&& first(after.infos, info_of_server(known.id)) matches Some(info)
            &&& info_of(after, info) == shown_before.info@
        },
{
    let state = shown_before.info;
    position_facts(before.servers, server_has_token(token));
    let at = position(before.servers, server_has_token(token))->0;
    let known = before.servers[at];
    if result is Ok {
        let rest = without_state_of(before, known.id);
        let row = info_row(state, info_id, known.id, now);
        let games = game_rows(state.games@, game_ids, info_id, now);
        // The server is found under its token, with the new heartbeat.
        assert(is_first(after.servers, server_has_token(token), at)) by {
            assert forall|j: int| 0 <= j < at implies !server_has_token(token)(
                #[trigger] after.servers[j],
            ) by {
                assert(!server_has_token(token)(before.servers[j]));
            }
        }
        position_of_first(after.servers, server_has_token(token), at);
        // The state that is found for the server is the new row.
        let last = rest.infos.len() as int;
        assert(is_first(after.infos, info_of_server(known.id), last)) by {
            assert forall|j: int| 0 <= j < last implies !info_of_server(known.id)(
                #[trigger] after.infos[j],
            ) by {
                assert(!info_of_server(known.id)(rest.infos[j]));
            }
        }
        position_of_first(after.infos, info_of_server(known.id), last);
        // No game that stayed belongs to the new state.
        assert forall|i: int| 0 <= i < rest.games.len() implies !game_of_info(info_id)(
            #[trigger] rest.games[i],
        ) by {
            let game = rest.games[i];
            if game.game_info_id == info_id {
                match first(before.infos, info_of_server(known.id)) {
                    Some(replaced) => {
                        filter_keeps_order(before.games, game_of_other_info(replaced.id));
                        filter_keeps_order(before.infos, info_lacks_id(replaced.id));
                        let a = choose|a: int|
                            0 <= a < before.games.len() && before.games[a] == game;
                        assert(owned_by(before.infos)(before.games[a]));
                        let k = choose|k: int|
                            0 <= k < before.infos.len() && info_has_id(game.game_info_id)(
                                #[trigger] before.infos[k],
                            );
                        assert(game_of_other_info(replaced.id)(game));
                        assert(info_lacks_id(replaced.id)(before.infos[k]));
                        assert(rest.infos.contains(before.infos[k]));
                        let m = choose|m: int|
                            0 <= m < rest.infos.len() && rest.infos[m] == before.infos[k];
                        assert(info_has_id(info_id)(rest.infos[m]));
                    },
                    None => {
                        assert(owned_by(before.infos)(before.games[i]));
                        let k = choose|k: int|
                            0 <= k < before.infos.len() && info_has_id(game.game_info_id)(
                                #[trigger] before.infos[k],
                            );
                        assert(info_has_id(info_id)(rest.infos[k]));
                    },
                }
            }
        }
        filter_keeps_none(rest.games, game_of_info(info_id));
        assert forall|i: int| 0 <= i < games.len() implies game_of_info(info_id)(
            #[trigger] games[i],
        ) by {}
        filter_keeps_all(games, game_of_info(info_id));
        Seq::filter_distributes_over_add(rest.games, games, game_of_info(info_id));
        assert(after.games.filter(game_of_info(info_id)) =~= games);
        assert forall|k: int| 0 <= k < games.len() implies entry_of(#[trigger] games[k])
            == state.games@[k]@ by {
            stored_game_is_shown(state.games@[k], game_ids[k], info_id, now);
        }
        assert(games.map_values(entry_of_game()) =~= state.games.deep_view());
        stored_capacity_is_shown(state.max_clients);
        assert(info_of(after, row).games =~= state@.games);
    }
}

/// The answer to a publish.
#[derive(Debug, PartialEq, Eq)]
pub struct UpdateResponse {
    pub id: String,
}

impl View for UpdateResponse {
    type V = Seq<char>;

    open spec fn view(&self) -> Seq<char> {
        self.id@
    }
}

/// The three filters of a listing; each counts as `false` where it is
/// absent.
#[derive(Clone, Copy, Debug, PartialEq, Eq)]
pub struct ListQuery {
    pub include_dev: Option<bool>,
    pub include_fallback: Option<bool>,
    pub exclude_full: Option<bool>,
}

/// The servers of a listing.
#[derive(Debug, PartialEq, Eq)]
pub struct ListResponse(pub Vec<GameServer>);

impl View for ListResponse {
    type V = Seq<GameServerView>;

    open spec fn view(&self) -> Seq<GameServerView> {
        self.0.deep_view()
    }
}

/// A client's request for a server that hosts a game.
#[derive(Debug, PartialEq, Eq)]
pub struct NewRequest {
    pub game: String,
    /// Whether developer servers are tried first; absent counts as `false`.
    pub developer: Option<bool>,
    /// Whether fallback servers may be used; absent counts as `true`.
    pub fallback: Option<bool>,
    /// The identifiers of servers that the client does not want again.
    pub ignore: Option<Vec<String>>,
}

pub struct NewRequestView {
    pub game: Seq<char>,
    pub developer: bool,
    pub fallback: bool,
    pub ignore: Seq<Seq<char>>,
}

impl View for NewRequest {
    type V = NewRequestView;

    /// The request with its defaults filled in.
    open spec fn view(&self) -> NewRequestView {
        NewRequestView {
            game: self.game@,
            developer: match self.developer {
                Some(developer) => developer,
                None => false,
            },
            fallback: match self.fallback {
                Some(fallback) => fallback,
                None => true,
            },
            ignore: match self.ignore {
                Some(ignore) => ignore.deep_view(),
                None => Seq::empty(),
            },
        }
    }
}

/// The server that was picked for a client.
#[derive(Debug, PartialEq, Eq)]
pub struct NewResponse {
    pub id: String,
    pub api_uri: String,
    pub game_uri: String,
}

pub struct NewResponseView {
    pub id: Seq<char>,
    pub api_uri: Seq<char>,
    pub game_uri: Seq<char>,
}

impl View for NewResponse {
    type V = NewResponseView;

    open spec fn view(&self) -> NewResponseView {
        NewResponseView { id: self.id@, api_uri: self.api_uri@, game_uri: self.game_uri@ }
    }
}

/// A server's request for a fast token.
#[derive(Debug, PartialEq, Eq)]
pub struct FastTokenAddRequest {
    pub game: String,
    pub lobby: String,
}

/// The number of symbols in the code of a fast token.
pub const MAX_FAST_TOKEN_SIZE: usize = 4;

/// The number of codes that are drawn for one fast token before the
/// registry gives up.
pub const MAX_FAST_TOKEN_ATTEMPTS: usize = 64;

/// The symbols of a code: the capital letters without `N`, and the digits.
pub open spec fn code_symbols() -> Seq<char> {
    "ABCDEFGHIJKLMOPQRSTUVWXYZ0123456789"@
}

/// A code is four symbols long.
pub open spec fn is_code(code: Seq<char>) -> bool {
    &&& code.len() == MAX_FAST_TOKEN_SIZE
    &&& forall|i: int| 0 <= i < code.len() ==> code_symbols().contains(#[trigger] code[i])
}

/// The token has the given code and is valid at `now`.
pub open spec fn fast_token_live(code: Seq<char>, now: i64) -> spec_fn(FastToken) -> bool {
    |row: FastToken| row.token@ == code && is_valid_token_age(now, row.created_at)
}

/// Some stored token has a code and is valid at `now`, so that a code that
/// is drawn may be in use.
pub open spec fn some_code_in_use(registry: RegistryView, now: i64) -> bool {
    exists|i: int|
        0 <= i < registry.fast_tokens.len() && is_code((#[trigger] registry.fast_tokens[i]).token@)
            && is_valid_token_age(now, registry.fast_tokens[i].created_at)
}

/// Every code is used by a token that is valid at `now`, so that whatever
/// is drawn is in use.
pub open spec fn every_code_in_use(registry: RegistryView, now: i64) -> bool {
    forall|code: Seq<char>|
        is_code(code) ==> !none_is(registry.fast_tokens, #[trigger] fast_token_live(code, now))
}

/// Some code is used by no token that is valid at `now`, and some
/// identifier is taken: a draw may hit on a free code and still find the
/// token's identifier in use.
pub open spec fn free_code_but_taken_id(registry: RegistryView, now: i64) -> bool {
    exists|code: Seq<char>, id: u128|
        is_code(code) && none_is(registry.fast_tokens, #[trigger] fast_token_live(code, now))
            && !none_is(registry.fast_tokens, #[trigger] fast_token_has_id(id))
}

/// A fast token was minted at `now`: its code was used by no token that was
/// valid then, and it is the one row that the table has gained.
pub open spec fn minted(
    before: RegistryView,
    after: RegistryView,
    token: FastToken,
    server_id: u128,
    request: FastTokenAddRequest,
    now: i64,
) -> bool {
    &&& is_code(token.token@)
    &&& token.server_id == server_id
    &&& token.game == request.game
    &&& token.lobby == request.lobby
    &&& token.created_at == now
    &&& token.updated_at is None
    &&& none_is(before.fast_tokens, fast_token_live(token.token@, now))
    &&& none_is(before.fast_tokens, fast_token_has_id(token.id))
    &&& after == (RegistryView { fast_tokens: before.fast_tokens.push(token), ..before })
}

/// Draws an index below `high` with `rand::distributions::Uniform::new` and
/// `sample` on the generator of `rand::thread_rng`. The distribution cannot
/// be made for an empty range, hence the demand on `high`. The index lies
/// in the half-open range that the distribution was made for; which index
/// it is, is left open.
#[verifier::external_body]
fn sample_below(high: usize) -> (index: usize)
    requires
        0 < high,
    ensures
        index < high,
{
    rand::distributions::Distribution::sample(
        &rand::distributions::Uniform::new(0, high),
        &mut rand::thread_rng(),
    )
}

/// Draws a code: four symbols, each picked by a draw of its own.
fn draw_code() -> (code: String)
    ensures
        is_code(code@),
{
    let symbols = "ABCDEFGHIJKLMOPQRSTUVWXYZ0123456789";
    proof {
        reveal_strlit("ABCDEFGHIJKLMOPQRSTUVWXYZ0123456789");
    }
    let mut code = String::new();
    let mut drawn: usize = 0;
    while drawn < MAX_FAST_TOKEN_SIZE
        invariant
            drawn <= MAX_FAST_TOKEN_SIZE,
            symbols@ == code_symbols(),
            symbols@.len() == 35,
            code@.len() == drawn,
            forall|i: int| 0 <= i < code@.len() ==> code_symbols().contains(#[trigger] code@[i]),
        decreases MAX_FAST_TOKEN_SIZE - drawn,
    {
        let at = sample_below(35);
        let symbol = symbols.substring_char(at, at + 1);
        let ghost before = code@;
        code.append(symbol);
        proof {
            assert(symbol@ =~= seq![symbols@[at as int]]);
            assert forall|i: int| 0 <= i < code@.len() implies code_symbols().contains(
                #[trigger] code@[i],
            ) by {
                if i < before.len() {
                    assert(code@[i] == before[i]);
                } else {
                    assert(code@[i] == code_symbols()[at as int]);
                }
            }
        }
        drawn += 1;
    }
    code
}

impl FastToken {
    /// The first fast token with the given code that is valid at `now`.
    pub fn find_live(registry: &Registry, code: &String, now: i64) -> (result: Result<
        FastToken,
        ApiError,
    >)
        ensures
            result == match first(registry@.fast_tokens, fast_token_live(code@, now)) {
                Some(row) => Ok::<FastToken, ApiError>(row),
                None => Err(ApiError::NotFound),
            },
    {
        if now >= i64::MIN + FAST_TOKEN_WINDOW_MICROS {
            let limit: i64 = now - FAST_TOKEN_WINDOW_MICROS;
            proof {
                position_agrees(
                    registry@.fast_tokens,
                    fast_token_has_code_after(code@, limit),
                    fast_token_live(code@, now),
                );
            }
            FastToken::find_by_token_checked(registry, code, limit)
        } else {
            proof {
                position_agrees(
                    registry@.fast_tokens,
                    fast_token_has_code(code@),
                    fast_token_live(code@, now),
                );
            }
            FastToken::find_by_token(registry, code)
        }
    }

    /// Mints a fast token for a game and a lobby of the given server, with
    /// at most `MAX_FAST_TOKEN_ATTEMPTS` draws of a code. What `mint` says
    /// of its outcome holds here; with no token stored the call succeeds.
    pub fn try_from(
        registry: &mut Registry,
        server_id: u128,
        value: FastTokenAddRequest,
        now: i64,
    ) -> (result: Result<FastToken, ApiError>)
        ensures
            match result {
                Ok(token) => minted(
                    old(registry)@,
                    final(registry)@,
                    token,
                    server_id,
                    value,
                    now,
                ),
                Err(e) => final(registry)@ == old(registry)@ && (e == ApiError::Exhausted || e
                    == ApiError::Conflict),
            },
            old(registry)@.fast_tokens.len() == 0 ==> result is Ok,
            every_code_in_use(old(registry)@, now) ==> result == Err::<FastToken, ApiError>(
                ApiError::Exhausted,
            ),
            result == Err::<FastToken, ApiError>(ApiError::Exhausted) ==> some_code_in_use(
                old(registry)@,
                now,
            ),
            result == Err::<FastToken, ApiError>(ApiError::Conflict) ==> free_code_but_taken_id(
                old(registry)@,
                now,
            ),
            old(registry)@.wf() ==> final(registry)@.wf(),
    {
        FastToken::mint(registry, server_id, value, now, MAX_FAST_TOKEN_ATTEMPTS)
    }

    /// Mints a fast token for a game and a lobby of the given server.
    ///
    /// Codes are drawn until one is found that no valid token uses, at most
    /// `attempts` times. Which code is drawn and which identifier the token
    /// gets is left to chance, so a call may fail where another succeeds:
    /// with `Exhausted` where every code drawn was in use, with `Conflict`
    /// where a free code was drawn and the identifier was taken. A call that
    /// fails changes nothing, a call that may not draw fails, a call that
    /// may draw succeeds while no token is stored, and a call is exhausted
    /// where every code is in use.
    pub fn mint(
        registry: &mut Registry,
        server_id: u128,
        value: FastTokenAddRequest,
        now: i64,
        attempts: usize,
    ) -> (result: Result<FastToken, ApiError>)
        ensures
            match result {
                Ok(token) => minted(
                    old(registry)@,
                    final(registry)@,
                    token,
                    server_id,
                    value,
                    now,
                ),
                Err(e) => final(registry)@ == old(registry)@ && (e == ApiError::Exhausted || e
                    == ApiError::Conflict),
            },
            attempts == 0 ==> result == Err::<FastToken, ApiError>(ApiError::Exhausted),
            attempts > 0 && old(registry)@.fast_tokens.len() == 0 ==> result is Ok,
            every_code_in_use(old(registry)@, now) ==> result == Err::<FastToken, ApiError>(
                ApiError::Exhausted,
            ),
            result == Err::<FastToken, ApiError>(ApiError::Exhausted) ==> attempts == 0
                || some_code_in_use(old(registry)@, now),
            result == Err::<FastToken, ApiError>(ApiError::Conflict) ==> free_code_but_taken_id(
                old(registry)@,
                now,
            ),
            old(registry)@.wf() ==> final(registry)@.wf(),
    {
        let mut attempt: usize = 0;
        while attempt < attempts
            invariant
                *registry == *old(registry),
                attempt > 0 ==> some_code_in_use(registry@, now),
            decreases attempts - attempt,
        {
            let token = draw_code();
            proof {
                position_facts(registry@.fast_tokens, fast_token_live(token@, now));
            }
            if FastToken::find_live(registry, &token, now).is_err() {
                let id = new_id();
                let ghost code = token@;
                let result = FastToken::issue(registry, server_id, value, now, id, token);
                proof {
                    if result is Err {
                        assert(none_is(old(registry)@.fast_tokens, fast_token_live(code, now)));
                        assert(!none_is(old(registry)@.fast_tokens, fast_token_has_id(id)));
                    }
                }
                return result;
            }
            proof {
                let at = position(registry@.fast_tokens, fast_token_live(token@, now))->0;
                assert(is_code(registry@.fast_tokens[at].token@));
            }
            attempt += 1;
        }
        Err(ApiError::Exhausted)
    }

    /// Stores the fast token with the given identifier and code for a game
    /// and a lobby of the given server, unless a token that is valid at
    /// `now` uses the code or the identifier is taken.
    pub fn issue(
        registry: &mut Registry,
        server_id: u128,
        value: FastTokenAddRequest,
        now: i64,
        id: u128,
        code: String,
    ) -> (result: Result<FastToken, ApiError>)
        ensures
            result is Ok <==> none_is(old(registry)@.fast_tokens, fast_token_live(code@, now))
                && none_is(old(registry)@.fast_tokens, fast_token_has_id(id)),
            match result {
                Ok(token) => token == (FastToken {
                    id,
                    token: code,
                    server_id,
                    game: value.game,
                    lobby: value.lobby,
                    created_at: now,
                    updated_at: None,
                }) && final(registry)@ == (RegistryView {
                    fast_tokens: old(registry)@.fast_tokens.push(token),
                    ..old(registry)@
                }),
                Err(e) => e == ApiError::Conflict && final(registry)@ == old(registry)@,
            },
            old(registry)@.wf() ==> final(registry)@.wf(),
    {
        if FastToken::find_live(registry, &code, now).is_ok() {
            proof {
                position_facts(registry@.fast_tokens, fast_token_live(code@, now));
            }
            return Err(ApiError::Conflict);
        }
        let entry = FastToken {
            id,
            token: code,
            server_id,
            game: value.game,
            lobby: value.lobby,
            created_at: now,
            updated_at: None,
        };
        proof {
            position_facts(registry@.fast_tokens, fast_token_live(code@, now));
            let rows = registry@.fast_tokens;
            assert forall|j: int| 0 <= j < rows.len() implies !crowds(entry)(#[trigger] rows[j]) by {
                assert(!fast_token_live(code@, now)(rows[j]));
            }
        }
        FastToken::create(registry, entry)
    }
}

/// The code of the fast token that was minted.
#[derive(Debug, PartialEq, Eq)]
pub struct FastTokenAddResponse {
    pub token: String,
}

impl View for FastTokenAddResponse {
    type V = Seq<char>;

    open spec fn view(&self) -> Seq<char> {
        self.token@
    }
}

impl From<FastToken> for FastTokenAddResponse {
    fn from(value: FastToken) -> (response: FastTokenAddResponse) {
        FastTokenAddResponse { token: value.token }
    }
}

impl vstd::std_specs::convert::FromSpecImpl<FastToken> for FastTokenAddResponse {
    open spec fn obeys_from_spec() -> bool {
        true
    }

    open spec fn from_spec(value: FastToken) -> FastTokenAddResponse {
        FastTokenAddResponse { token: value.token }
    }
}

/// What a fast token stands for.
#[derive(Debug, PartialEq, Eq)]
pub struct FastTokenFetchResponse {
    pub server: String,
    pub game: String,
    pub lobby: String,
    pub api_uri: String,
    /// Absent where the server no longer offers the game.
    pub game_uri: Option<String>,
}

pub struct FastTokenFetchResponseView {
    pub server: Seq<char>,
    pub game: Seq<char>,
    pub lobby: Seq<char>,
    pub api_uri: Seq<char>,
    pub game_uri: Option<Seq<char>>,
}

impl View for FastTokenFetchResponse {
    type V = FastTokenFetchResponseView;

    open spec fn view(&self) -> FastTokenFetchResponseView {
        FastTokenFetchResponseView {
            server: self.server@,
            game: self.game@,
            lobby: self.lobby@,
            api_uri: self.api_uri@,
            game_uri: match self.game_uri {
                Some(uri) => Some(uri@),
                None => None,
            },
        }
    }
}

/// The game has the given name.
pub open spec fn game_named(name: Seq<char>) -> spec_fn(ServerGame) -> bool {
    |row: ServerGame| row.name@ == name
}

/// What a fast token resolves to.
///
/// The server of the token and the state that it published last must both
/// be in the tables. The address of the game is that of the first game of
/// that state which has the token's game name; where the server no longer
/// offers such a game the address is absent.
pub open spec fn fetch_response(registry: RegistryView, token: FastToken) -> Result<
    FastTokenFetchResponseView,
    ApiError,
> {
    match first(registry.servers, server_has_id(token.server_id)) {
        None => Err(ApiError::NotFound),
        Some(server) => match first(registry.infos, info_of_server(server.id)) {
            None => Err(ApiError::NotFound),
            Some(info) => Ok(
                FastTokenFetchResponseView {
                    server: id_text(token.server_id),
                    game: token.game@,
                    lobby: token.lobby@,
                    api_uri: info.uri@,
                    game_uri: match first(
                        registry.games.filter(game_of_info(info.id)),
                        game_named(token.game@),
                    ) {
                        Some(game) => Some(game.uri@),
                        None => None,
                    },
                },
            ),
        },
    }
}

/// The result is the expected one: the same failure, or a value with the
/// expected view.
pub open spec fn answers<T: View>(result: Result<T, ApiError>, expected: Result<T::V, ApiError>) -> bool {
    match (result, expected) {
        (Ok(value), Ok(view)) => value@ == view,
        (Err(e), Err(f)) => e == f,
        _ => false,
    }
}

/// The index of the first game with the given name.
fn game_index_by_name(rows: &Vec<ServerGame>, name: &String) -> (found: Option<usize>)
    ensures
        match found {
            Some(i) => position(rows@, game_named(name@)) == Some(i as int),
            None => position(rows@, game_named(name@)) is None,
        },
{
    let mut i: usize = 0;
    while i < rows.len()
        invariant
            i <= rows.len(),
            forall|j: int| 0 <= j < i ==> !game_named(name@)(#[trigger] rows@[j]),
        decreases rows.len() - i,
    {
        if rows[i].name == *name {
            proof {
                position_of_first(rows@, game_named(name@), i as int);
            }
            return Some(i);
        }
        i += 1;
    }
    proof {
        position_of_none(rows@, game_named(name@));
    }
    None
}

impl FastTokenFetchResponse {
    /// Resolves a fast token against the state that its server published
    /// last.
    pub fn try_from(registry: &Registry, value: FastToken) -> (result: Result<
        FastTokenFetchResponse,
        ApiError,
    >)
        ensures
            answers(result, fetch_response(registry@, value)),
    {
        let server = match Server::find_by_id(registry, value.server_id) {
            Ok(server) => server,
            Err(e) => {
                return Err(e);
            },
        };
        let info = match ServerInfo::find_by_server(registry, server.id) {
            Ok(info) => info,
            Err(e) => {
                return Err(e);
            },
        };
        let games = match ServerGame::find_by_info(registry, info.id) {
            Ok(games) => games,
            Err(e) => {
                return Err(e);
            },
        };
        let game_uri = match game_index_by_name(&games, &value.game) {
            Some(i) => Some(games[i].uri.clone()),
            None => None,
        };
        Ok(
            FastTokenFetchResponse {
                server: encode_id(value.server_id),
                game: value.game,
                lobby: value.lobby,
                api_uri: info.uri,
                game_uri,
            },
        )
    }
}

/// A token that is minted has a code that no stored token uses which is
/// valid at that instant.
pub proof fn minted_codes_are_free(
    before: RegistryView,
    after: RegistryView,
    token: FastToken,
    server_id: u128,
    request: FastTokenAddRequest,
    now: i64,
    other: FastToken,
)
    requires
        minted(before, after, token, server_id, request, now),
        before.fast_tokens.contains(other),
        is_valid_token_age(now, other.created_at),
    ensures
        other.token@ != token.token@,
{
    let i = choose|i: int| 0 <= i < before.fast_tokens.len() && before.fast_tokens[i] == other;
    assert(!fast_token_live(token.token@, now)(before.fast_tokens[i]));
}

/// Of two stored tokens with the same code, at most one is valid at an
/// instant at which both have been created.
pub proof fn one_valid_token_per_code(registry: RegistryView, i: int, j: int, now: i64)
    requires
        registry.wf(),
        0 <= i < registry.fast_tokens.len(),
        0 <= j < registry.fast_tokens.len(),
        i != j,
        registry.fast_tokens[i].token@ == registry.fast_tokens[j].token@,
        registry.fast_tokens[i].created_at <= now,
        registry.fast_tokens[j].created_at <= now,
    ensures
        !(is_valid_token_age(now, registry.fast_tokens[i].created_at) && is_valid_token_age(
            now,
            registry.fast_tokens[j].created_at,
        )),
{
    let rows = registry.fast_tokens;
    if i < j {
        assert(!too_close(rows[i].created_at, rows[j].created_at));
    } else {
        assert(!too_close(rows[j].created_at, rows[i].created_at));
    }
}

} // verus!
