//! The rows of the registry, the registry that holds them, and the
//! operations that find, create, update and delete rows.
//!
//! A table is a vector of rows in the order in which they were stored. A
//! lookup that is to yield one row yields the first that fits.

use crate::api_error::ApiError;
use crate::db::query::{
    another_is, distinct_by, filter_keeps_distinct, filter_keeps_order, filter_take_ends,
    filter_take_step, first, none_is, position, position_facts, position_of_first, position_of_none,
    push_keeps_distinct, take_step, update_keeps_distinct,
};
use vstd::prelude::*;

verus! {

/// The identity of a game server that has published at least once.
#[derive(Debug, PartialEq, Eq)]
pub struct Server {
    pub id: u128,
    /// The instant of the last publish.
    pub last_seen: i64,
    /// The long-lived token by which a republishing server is recognised.
    pub token: String,
    pub created_at: i64,
    pub updated_at: Option<i64>,
}

impl Clone for Server {
    fn clone(&self) -> (copy: Self)
        ensures
            copy == *self,
    {
        Server {
            id: self.id,
            last_seen: self.last_seen,
            token: self.token.clone(),
            created_at: self.created_at,
            updated_at: self.updated_at,
        }
    }
}

/// The state that a server published last.
#[derive(Debug, PartialEq, Eq)]
pub struct ServerInfo {
    pub id: u128,
    pub name: String,
    pub uri: String,
    pub developer: bool,
    pub fallback: bool,
    pub full: bool,
    pub maintenance: bool,
    pub max_clients: Option<i32>,
    pub server_id: u128,
    pub created_at: i64,
    pub updated_at: Option<i64>,
}

impl Clone for ServerInfo {
    fn clone(&self) -> (copy: Self)
        ensures
            copy == *self,
    {
        ServerInfo {
            id: self.id,
            name: self.name.clone(),
            uri: self.uri.clone(),
            developer: self.developer,
            fallback: self.fallback,
            full: self.full,
            maintenance: self.maintenance,
            max_clients: self.max_clients,
            server_id: self.server_id,
            created_at: self.created_at,
            updated_at: self.updated_at,
        }
    }
}

/// One game that a published state offers.
#[derive(Debug, PartialEq, Eq)]
pub struct ServerGame {
    pub id: u128,
    pub name: String,
    pub uri: String,
    pub rooms: i32,
    pub max_rooms: Option<i32>,
    pub clients: i32,
    /// The published state that the game belongs to.
    pub game_info_id: u128,
    pub created_at: i64,
    pub updated_at: Option<i64>,
}

impl Clone for ServerGame {
    fn clone(&self) -> (copy: Self)
        ensures
            copy == *self,
    {
        ServerGame {
            id: self.id,
            name: self.name.clone(),
            uri: self.uri.clone(),
            rooms: self.rooms,
            max_rooms: self.max_rooms,
            clients: self.clients,
            game_info_id: self.game_info_id,
            created_at: self.created_at,
            updated_at: self.updated_at,
        }
    }
}

/// A short code that stands for a server, a game and a lobby.
#[derive(Debug, PartialEq, Eq)]
pub struct FastToken {
    pub id: u128,
    /// The code itself.
    pub token: String,
    pub server_id: u128,
    pub game: String,
    pub lobby: String,
    pub created_at: i64,
    pub updated_at: Option<i64>,
}

impl Clone for FastToken {
    fn clone(&self) -> (copy: Self)
        ensures
            copy == *self,
    {
        FastToken {
            id: self.id,
            token: self.token.clone(),
            server_id: self.server_id,
            game: self.game.clone(),
            lobby: self.lobby.clone(),
            created_at: self.created_at,
            updated_at: self.updated_at,
        }
    }
}

/// The four tables.
pub struct Registry {
    pub servers: Vec<Server>,
    pub infos: Vec<ServerInfo>,
    pub games: Vec<ServerGame>,
    pub fast_tokens: Vec<FastToken>,
}

/// The tables as sequences of rows.
pub struct RegistryView {
    pub servers: Seq<Server>,
    pub infos: Seq<ServerInfo>,
    pub games: Seq<ServerGame>,
    pub fast_tokens: Seq<FastToken>,
}

impl View for Registry {
    type V = RegistryView;

    open spec fn view(&self) -> RegistryView {
        RegistryView {
            servers: self.servers@,
            infos: self.infos@,
            games: self.games@,
            fast_tokens: self.fast_tokens@,
        }
    }
}

/// The identifier of a server.
pub open spec fn server_id() -> spec_fn(Server) -> u128 {
    |row: Server| row.id
}

/// The token of a server.
pub open spec fn server_token() -> spec_fn(Server) -> Seq<char> {
    |row: Server| row.token@
}

/// The server has the given identifier.
pub open spec fn server_has_id(id: u128) -> spec_fn(Server) -> bool {
    |row: Server| row.id == id
}

/// The server has another identifier than the given one.
pub open spec fn server_lacks_id(id: u128) -> spec_fn(Server) -> bool {
    |row: Server| row.id != id
}

/// The server publishes under the given token.
pub open spec fn server_has_token(token: Seq<char>) -> spec_fn(Server) -> bool {
    |row: Server| row.token@ == token
}

/// The identifier of a published state.
pub open spec fn info_id() -> spec_fn(ServerInfo) -> u128 {
    |row: ServerInfo| row.id
}

/// The identifier of the server that published a state.
pub open spec fn info_server() -> spec_fn(ServerInfo) -> u128 {
    |row: ServerInfo| row.server_id
}

/// The published state has the given identifier.
pub open spec fn info_has_id(id: u128) -> spec_fn(ServerInfo) -> bool {
    |row: ServerInfo| row.id == id
}

/// The published state has another identifier than the given one.
pub open spec fn info_lacks_id(id: u128) -> spec_fn(ServerInfo) -> bool {
    |row: ServerInfo| row.id != id
}

/// The state was published by the given server.
pub open spec fn info_of_server(server_id: u128) -> spec_fn(ServerInfo) -> bool {
    |row: ServerInfo| row.server_id == server_id
}

/// The identifier of a game.
pub open spec fn game_id() -> spec_fn(ServerGame) -> u128 {
    |row: ServerGame| row.id
}

/// The game has the given identifier.
pub open spec fn game_has_id(id: u128) -> spec_fn(ServerGame) -> bool {
    |row: ServerGame| row.id == id
}

/// The game has another identifier than the given one.
pub open spec fn game_lacks_id(id: u128) -> spec_fn(ServerGame) -> bool {
    |row: ServerGame| row.id != id
}

/// The game belongs to the given published state.
pub open spec fn game_of_info(info_id: u128) -> spec_fn(ServerGame) -> bool {
    |row: ServerGame| row.game_info_id == info_id
}

/// The game belongs to another published state than the given one.
pub open spec fn game_of_other_info(info_id: u128) -> spec_fn(ServerGame) -> bool {
    |row: ServerGame| row.game_info_id != info_id
}

/// The identifier of a fast token.
pub open spec fn fast_token_id() -> spec_fn(FastToken) -> u128 {
    |row: FastToken| row.id
}

/// The fast token has the given identifier.
pub open spec fn fast_token_has_id(id: u128) -> spec_fn(FastToken) -> bool {
    |row: FastToken| row.id == id
}

/// The fast token has another identifier than the given one.
pub open spec fn fast_token_lacks_id(id: u128) -> spec_fn(FastToken) -> bool {
    |row: FastToken| row.id != id
}

/// The fast token has the given code.
pub open spec fn fast_token_has_code(code: Seq<char>) -> spec_fn(FastToken) -> bool {
    |row: FastToken| row.token@ == code
}

/// The code is `code` and the token was created after `limit`.
pub open spec fn fast_token_has_code_after(code: Seq<char>, limit: i64) -> spec_fn(
    FastToken,
) -> bool {
    |row: FastToken| row.token@ == code && row.created_at > limit
}

/// Two tokens with the same code were created at least twenty minutes
/// apart, so that at no instant after both were created both are valid.
pub open spec fn codes_spaced(rows: Seq<FastToken>) -> bool {
    forall|i: int, j: int|
        0 <= i < j < rows.len() && (#[trigger] rows[i]).token@ == (#[trigger] rows[j]).token@
            ==> !too_close(rows[i].created_at, rows[j].created_at)
}

/// Less than twenty minutes lie between the two instants.
pub open spec fn too_close(a: i64, b: i64) -> bool {
    -crate::freshness::FAST_TOKEN_WINDOW_MICROS < a - b < crate::freshness::FAST_TOKEN_WINDOW_MICROS
}

/// The new token's code is used by a token created less than twenty minutes
/// before or after it.
pub open spec fn crowds(new: FastToken) -> spec_fn(FastToken) -> bool {
    |row: FastToken| row.token@ == new.token@ && too_close(row.created_at, new.created_at)
}

/// The game belongs to one of the published states.
pub open spec fn owned_by(infos: Seq<ServerInfo>) -> spec_fn(ServerGame) -> bool {
    |row: ServerGame| !none_is(infos, info_has_id(row.game_info_id))
}

/// Every game belongs to a published state.
pub open spec fn games_owned(infos: Seq<ServerInfo>, games: Seq<ServerGame>) -> bool {
    forall|i: int| 0 <= i < games.len() ==> owned_by(infos)(#[trigger] games[i])
}

impl RegistryView {
    /// What every operation of this module keeps: identifiers are unique
    /// within their table, no two servers share a token, no server has two
    /// published states, every game belongs to a published state, and
    /// tokens with the same code lie twenty minutes apart.
    pub open spec fn wf(self) -> bool {
        &&& distinct_by(self.servers, server_id())
        &&& distinct_by(self.servers, server_token())
        &&& distinct_by(self.infos, info_id())
        &&& distinct_by(self.infos, info_server())
        &&& distinct_by(self.games, game_id())
        &&& games_owned(self.infos, self.games)
        &&& distinct_by(self.fast_tokens, fast_token_id())
        &&& codes_spaced(self.fast_tokens)
    }
}

impl Registry {
    /// A registry without rows.
    pub fn new() -> (registry: Registry)
        ensures
            registry@.servers.len() == 0,
            registry@.infos.len() == 0,
            registry@.games.len() == 0,
            registry@.fast_tokens.len() == 0,
            registry@.wf(),
    {
        Registry {
            servers: Vec::new(),
            infos: Vec::new(),
            games: Vec::new(),
            fast_tokens: Vec::new(),
        }
    }
}

/// The rows that a listing with the three flags shows: developer servers
/// only on request, fallback servers only on request, and full servers
/// unless they are excluded.
pub open spec fn admits(include_dev: bool, include_fallback: bool, exclude_full: bool) -> spec_fn(
    ServerInfo,
) -> bool {
    |row: ServerInfo|
        (include_dev || !row.developer) && (include_fallback || !row.fallback) && (!exclude_full
            || !row.full)
}

/// A published state that is `wanted`, beside the server that published it.
/// A state whose server is not in the table yields nothing.
pub open spec fn with_server(servers: Seq<Server>, wanted: spec_fn(ServerInfo) -> bool) -> spec_fn(
    ServerInfo,
) -> Option<(Server, ServerInfo)> {
    |row: ServerInfo|
        if wanted(row) {
            match first(servers, server_has_id(row.server_id)) {
                Some(server) => Some((server, row)),
                None => None,
            }
        } else {
            None
        }
}

/// Decides whether a listing with the three flags shows the row.
fn flags_admit(row: &ServerInfo, include_dev: bool, include_fallback: bool, exclude_full: bool) -> (
    shown: bool
)
    ensures
        shown == admits(include_dev, include_fallback, exclude_full)(*row),
{
    (include_dev || !row.developer) && (include_fallback || !row.fallback) && (!exclude_full
        || !row.full)
}

/// Decides whether less than twenty minutes lie between two instants.
fn instants_too_close(a: i64, b: i64) -> (close: bool)
    ensures
        close == too_close(a, b),
{
    let apart: i128 = a as i128 - b as i128;
    let window: i128 = crate::freshness::FAST_TOKEN_WINDOW_MICROS as i128;
    0 - window < apart && apart < window
}

/// The index of the first server with the given identifier.
fn server_index_by_id(rows: &Vec<Server>, id: u128) -> (found: Option<usize>)
    ensures
        match found {
            Some(i) => position(rows@, server_has_id(id)) == Some(i as int),
            None => position(rows@, server_has_id(id)) is None,
        },
{
    let mut i: usize = 0;
    while i < rows.len()
        invariant
            i <= rows.len(),
            forall|j: int| 0 <= j < i ==> !server_has_id(id)(#[trigger] rows@[j]),
        decreases rows.len() - i,
    {
        if rows[i].id == id {
            proof {
                position_of_first(rows@, server_has_id(id), i as int);
            }
            return Some(i);
        }
        i += 1;
    }
    proof {
        position_of_none(rows@, server_has_id(id));
    }
    None
}

/// The index of the first server that publishes under the given token.
fn server_index_by_token(rows: &Vec<Server>, token: &String) -> (found: Option<usize>)
    ensures
        match found {
            Some(i) => position(rows@, server_has_token(token@)) == Some(i as int),
            None => position(rows@, server_has_token(token@)) is None,
        },
{
    let mut i: usize = 0;
    while i < rows.len()
        invariant
            i <= rows.len(),
            forall|j: int| 0 <= j < i ==> !server_has_token(token@)(#[trigger] rows@[j]),
        decreases rows.len() - i,
    {
        if rows[i].token == *token {
            proof {
                position_of_first(rows@, server_has_token(token@), i as int);
            }
            return Some(i);
        }
        i += 1;
    }
    proof {
        position_of_none(rows@, server_has_token(token@));
    }
    None
}

/// Whether a server other than the one at index `skip` publishes under the token.
fn another_server_has_token(rows: &Vec<Server>, token: &String, skip: usize) -> (found: bool)
    ensures
        found == another_is(rows@, server_has_token(token@), skip as int),
{
    let mut i: usize = 0;
    while i < rows.len()
        invariant
            i <= rows.len(),
            forall|j: int| 0 <= j < i && j != skip ==> !server_has_token(token@)(#[trigger] rows@[j]),
        decreases rows.len() - i,
    {
        if i != skip && rows[i].token == *token {
            return true;
        }
        i += 1;
    }
    false
}

/// The servers that do not have the given identifier.
fn servers_without_id(rows: &Vec<Server>, id: u128) -> (kept: Vec<Server>)
    ensures
        kept@ == rows@.filter(server_lacks_id(id)),
        kept@.len() <= rows@.len(),
{
    let ghost keep = server_lacks_id(id);
    let mut kept: Vec<Server> = Vec::new();
    let mut i: usize = 0;
    proof {
        filter_take_ends(rows@, keep);
    }
    while i < rows.len()
        invariant
            i <= rows.len(),
            keep == server_lacks_id(id),
            kept@ == rows@.take(i as int).filter(keep),
            kept.len() <= i,
        decreases rows.len() - i,
    {
        proof {
            filter_take_step(rows@, i as int, keep);
        }
        if rows[i].id != id {
            kept.push(rows[i].clone());
        }
        i += 1;
    }
    kept
}

/// A copy of a table of servers.
fn copy_servers(rows: &Vec<Server>) -> (copy: Vec<Server>)
    ensures
        copy@ == rows@,
{
    let mut copy: Vec<Server> = Vec::new();
    let mut i: usize = 0;
    while i < rows.len()
        invariant
            i <= rows.len(),
            copy@ == rows@.take(i as int),
        decreases rows.len() - i,
    {
        proof {
            take_step(rows@, i as int);
        }
        copy.push(rows[i].clone());
        i += 1;
    }
    proof {
        if rows.len() > 0 {
            take_step(rows@, 0);
        } else {
            assert(rows@.take(0) =~= rows@);
        }
    }
    copy
}

impl Server {
    /// All servers, in the order of the table.
    pub fn find_all(registry: &Registry) -> (result: Result<Vec<Server>, ApiError>)
        ensures
            result matches Ok(rows) && rows@ == registry@.servers,
    {
        Ok(copy_servers(&registry.servers))
    }

    /// The published states that the three flags admit, in the order of
    /// their table, each beside its server.
    pub fn find_by_filter(
        registry: &Registry,
        include_dev: bool,
        include_fallback: bool,
        exclude_full: bool,
    ) -> (result: Result<Vec<(Server, ServerInfo)>, ApiError>)
        ensures
            result matches Ok(rows) && rows@ == registry@.infos.filter_map(
                with_server(
                    registry@.servers,
                    admits(include_dev, include_fallback, exclude_full),
                ),
            ),
    {
        let ghost pair = with_server(
            registry@.servers,
            admits(include_dev, include_fallback, exclude_full),
        );
        let mut rows: Vec<(Server, ServerInfo)> = Vec::new();
        let mut i: usize = 0;
        proof {
            assert(registry.infos@.take(0) =~= Seq::<ServerInfo>::empty());
        }
        while i < registry.infos.len()
            invariant
                i <= registry.infos.len(),
                pair == with_server(
                    registry@.servers,
                    admits(include_dev, include_fallback, exclude_full),
                ),
                rows@ == registry.infos@.take(i as int).filter_map(pair),
            decreases registry.infos.len() - i,
        {
            proof {
                registry.infos@.lemma_filter_map_take_succ(pair, i as int);
            }
            let info = &registry.infos[i];
            if flags_admit(info, include_dev, include_fallback, exclude_full) {
                match server_index_by_id(&registry.servers, info.server_id) {
                    Some(k) => {
                        rows.push((registry.servers[k].clone(), info.clone()));
                    },
                    None => {},
                }
            }
            i += 1;
        }
        proof {
            assert(registry.infos@.take(registry.infos.len() as int) =~= registry.infos@);
        }
        Ok(rows)
    }

    /// The server with the given identifier.
    pub fn find_by_id(registry: &Registry, id: u128) -> (result: Result<Server, ApiError>)
        ensures
            result == match first(registry@.servers, server_has_id(id)) {
                Some(row) => Ok::<Server, ApiError>(row),
                None => Err(ApiError::NotFound),
            },
    {
        match server_index_by_id(&registry.servers, id) {
            Some(i) => Ok(registry.servers[i].clone()),
            None => Err(ApiError::NotFound),
        }
    }

    /// The server that publishes under the given token.
    pub fn find_by_token(registry: &Registry, token: &str) -> (result: Result<Server, ApiError>)
        ensures
            result == match first(registry@.servers, server_has_token(token@)) {
                Some(row) => Ok::<Server, ApiError>(row),
                None => Err(ApiError::NotFound),
            },
    {
        let token = token.to_owned();
        match server_index_by_token(&registry.servers, &token) {
            Some(i) => Ok(registry.servers[i].clone()),
            None => Err(ApiError::NotFound),
        }
    }

    /// Stores a new server. Its identifier and its token must both be new
    /// to the table.
    pub fn create(registry: &mut Registry, server: Server) -> (result: Result<Server, ApiError>)
        ensures
            result is Ok <==> none_is(old(registry)@.servers, server_has_id(server.id)) && none_is(
                old(registry)@.servers,
                server_has_token(server.token@),
            ),
            match result {
                Ok(row) => row == server && final(registry)@ == (RegistryView {
                    servers: old(registry)@.servers.push(server),
                    ..old(registry)@
                }),
                Err(e) => e == ApiError::Conflict && final(registry)@ == old(registry)@,
            },
            old(registry)@.wf() ==> final(registry)@.wf(),
    {
        proof {
            position_facts(registry@.servers, server_has_id(server.id));
            position_facts(registry@.servers, server_has_token(server.token@));
        }
        if server_index_by_id(&registry.servers, server.id).is_some() {
            return Err(ApiError::Conflict);
        }
        if server_index_by_token(&registry.servers, &server.token).is_some() {
            return Err(ApiError::Conflict);
        }
        proof {
            if registry@.wf() {
                push_keeps_distinct(registry@.servers, server, server_id());
                push_keeps_distinct(registry@.servers, server, server_token());
            }
        }
        registry.servers.push(server.clone());
        Ok(server)
    }

    /// Replaces the first server that has the identifier of `server`. The
    /// token of `server` must not be that of another server.
    pub fn update(registry: &mut Registry, server: Server) -> (result: Result<Server, ApiError>)
        ensures
            match position(old(registry)@.servers, server_has_id(server.id)) {
                None => result == Err::<Server, ApiError>(ApiError::NotFound) && final(registry)@
                    == old(registry)@,
                Some(i) => if another_is(
                    old(registry)@.servers,
                    server_has_token(server.token@),
                    i,
                ) {
                    result == Err::<Server, ApiError>(ApiError::Conflict) && final(registry)@
                        == old(registry)@
                } else {
                    result == Ok::<Server, ApiError>(server) && final(registry)@ == (RegistryView {
                        servers: old(registry)@.servers.update(i, server),
                        ..old(registry)@
                    })
                },
            },
            old(registry)@.wf() ==> final(registry)@.wf(),
    {
        let at = match server_index_by_id(&registry.servers, server.id) {
            Some(i) => i,
            None => {
                return Err(ApiError::NotFound);
            },
        };
        if another_server_has_token(&registry.servers, &server.token, at) {
            return Err(ApiError::Conflict);
        }
        proof {
            position_facts(registry@.servers, server_has_id(server.id));
            if registry@.wf() {
                let rows = registry@.servers;
                assert forall|j: int| 0 <= j < rows.len() && j != at implies server_id()(
                    #[trigger] rows[j],
                ) != server_id()(server) by {
                    assert(server_id()(rows[j]) != server_id()(rows[at as int]));
                }
                assert forall|j: int| 0 <= j < rows.len() && j != at implies server_token()(
                    #[trigger] rows[j],
                ) != server_token()(server) by {
                    assert(!server_has_token(server.token@)(rows[j]));
                }
                update_keeps_distinct(rows, at as int, server, server_id());
                update_keeps_distinct(rows, at as int, server, server_token());
            }
        }
        registry.servers.set(at, server.clone());
        Ok(server)
    }

    /// Removes the servers with the given identifier and says how many
    /// there were.
    pub fn delete(registry: &mut Registry, id: u128) -> (result: Result<usize, ApiError>)
        ensures
            final(registry)@ == (RegistryView {
                servers: old(registry)@.servers.filter(server_lacks_id(id)),
                ..old(registry)@
            }),
            result matches Ok(n) && n == old(registry)@.servers.len()
                - final(registry)@.servers.len(),
            old(registry)@.wf() ==> final(registry)@.wf(),
    {
        let kept = servers_without_id(&registry.servers, id);
        let removed = registry.servers.len() - kept.len();
        proof {
            if registry@.wf() {
                filter_keeps_distinct(registry.servers@, server_lacks_id(id), server_id());
                filter_keeps_distinct(registry.servers@, server_lacks_id(id), server_token());
            }
        }
        registry.servers = kept;
        Ok(removed)
    }
}

/// The index of the first published state with the given identifier.
fn info_index_by_id(rows: &Vec<ServerInfo>, id: u128) -> (found: Option<usize>)
    ensures
        match found {
            Some(i) => position(rows@, info_has_id(id)) == Some(i as int),
            None => position(rows@, info_has_id(id)) is None,
        },
{
    let mut i: usize = 0;
    while i < rows.len()
        invariant
            i <= rows.len(),
            forall|j: int| 0 <= j < i ==> !info_has_id(id)(#[trigger] rows@[j]),
        decreases rows.len() - i,
    {
        if rows[i].id == id {
            proof {
                position_of_first(rows@, info_has_id(id), i as int);
            }
            return Some(i);
        }
        i += 1;
    }
    proof {
        position_of_none(rows@, info_has_id(id));
    }
    None
}

/// The index of the first state that the given server published.
fn info_index_by_server(rows: &Vec<ServerInfo>, server_id: u128) -> (found: Option<usize>)
    ensures
        match found {
            Some(i) => position(rows@, info_of_server(server_id)) == Some(i as int),
            None => position(rows@, info_of_server(server_id)) is None,
        },
{
    let mut i: usize = 0;
    while i < rows.len()
        invariant
            i <= rows.len(),
            forall|j: int| 0 <= j < i ==> !info_of_server(server_id)(#[trigger] rows@[j]),
        decreases rows.len() - i,
    {
        if rows[i].server_id == server_id {
            proof {
                position_of_first(rows@, info_of_server(server_id), i as int);
            }
            return Some(i);
        }
        i += 1;
    }
    proof {
        position_of_none(rows@, info_of_server(server_id));
    }
    None
}

/// Whether a state other than the one at index `skip` belongs to the server.
fn another_info_of_server(rows: &Vec<ServerInfo>, server_id: u128, skip: usize) -> (found: bool)
    ensures
        found == another_is(rows@, info_of_server(server_id), skip as int),
{
    let mut i: usize = 0;
    while i < rows.len()
        invariant
            i <= rows.len(),
            forall|j: int| 0 <= j < i && j != skip ==> !info_of_server(server_id)(#[trigger] rows@[j]),
        decreases rows.len() - i,
    {
        if i != skip && rows[i].server_id == server_id {
            return true;
        }
        i += 1;
    }
    false
}

/// The published states that do not have the given identifier.
fn infos_without_id(rows: &Vec<ServerInfo>, id: u128) -> (kept: Vec<ServerInfo>)
    ensures
        kept@ == rows@.filter(info_lacks_id(id)),
        kept@.len() <= rows@.len(),
{
    let ghost keep = info_lacks_id(id);
    let mut kept: Vec<ServerInfo> = Vec::new();
    let mut i: usize = 0;
    proof {
        filter_take_ends(rows@, keep);
    }
    while i < rows.len()
        invariant
            i <= rows.len(),
            keep == info_lacks_id(id),
            kept@ == rows@.take(i as int).filter(keep),
            kept.len() <= i,
        decreases rows.len() - i,
    {
        proof {
            filter_take_step(rows@, i as int, keep);
        }
        if rows[i].id != id {
            kept.push(rows[i].clone());
        }
        i += 1;
    }
    kept
}

/// The published states that the three flags admit.
fn infos_admitted(rows: &Vec<ServerInfo>, include_dev: bool, include_fallback: bool, exclude_full: bool) -> (kept: Vec<ServerInfo>)
    ensures
        kept@ == rows@.filter(admits(include_dev, include_fallback, exclude_full)),
        kept@.len() <= rows@.len(),
{
    let ghost keep = admits(include_dev, include_fallback, exclude_full);
    let mut kept: Vec<ServerInfo> = Vec::new();
    let mut i: usize = 0;
    proof {
        filter_take_ends(rows@, keep);
    }
    while i < rows.len()
        invariant
            i <= rows.len(),
            keep == admits(include_dev, include_fallback, exclude_full),
            kept@ == rows@.take(i as int).filter(keep),
            kept.len() <= i,
        decreases rows.len() - i,
    {
        proof {
            filter_take_step(rows@, i as int, keep);
        }
        if flags_admit(&rows[i], include_dev, include_fallback, exclude_full) {
            kept.push(rows[i].clone());
        }
        i += 1;
    }
    kept
}

/// A copy of a table of published states.
fn copy_infos(rows: &Vec<ServerInfo>) -> (copy: Vec<ServerInfo>)
    ensures
        copy@ == rows@,
{
    let mut copy: Vec<ServerInfo> = Vec::new();
    let mut i: usize = 0;
    while i < rows.len()
        invariant
            i <= rows.len(),
            copy@ == rows@.take(i as int),
        decreases rows.len() - i,
    {
        proof {
            take_step(rows@, i as int);
        }
        copy.push(rows[i].clone());
        i += 1;
    }
    proof {
        if rows.len() > 0 {
            take_step(rows@, 0);
        } else {
            assert(rows@.take(0) =~= rows@);
        }
    }
    copy
}

impl ServerInfo {
    /// All published states, in the order of the table.
    pub fn find_all(registry: &Registry) -> (result: Result<Vec<ServerInfo>, ApiError>)
        ensures
            result matches Ok(rows) && rows@ == registry@.infos,
    {
        Ok(copy_infos(&registry.infos))
    }

    /// The state that the given server published.
    pub fn find_by_server(registry: &Registry, server_id: u128) -> (result: Result<
        ServerInfo,
        ApiError,
    >)
        ensures
            result == match first(registry@.infos, info_of_server(server_id)) {
                Some(row) => Ok::<ServerInfo, ApiError>(row),
                None => Err(ApiError::NotFound),
            },
    {
        match info_index_by_server(&registry.infos, server_id) {
            Some(i) => Ok(registry.infos[i].clone()),
            None => Err(ApiError::NotFound),
        }
    }

    /// The published states that the three flags admit, in the order of the
    /// table.
    pub fn find_by_filter(
        registry: &Registry,
        incl_developer: bool,
        incl_fallback: bool,
        excl_full: bool,
    ) -> (result: Result<Vec<ServerInfo>, ApiError>)
        ensures
            result matches Ok(rows) && rows@ == registry@.infos.filter(
                admits(incl_developer, incl_fallback, excl_full),
            ),
    {
        Ok(infos_admitted(&registry.infos, incl_developer, incl_fallback, excl_full))
    }

    /// Stores a new published state. Its identifier must be new to the
    /// table, and its server must not have a published state yet.
    pub fn create(registry: &mut Registry, value: ServerInfo) -> (result: Result<
        ServerInfo,
        ApiError,
    >)
        ensures
            result is Ok <==> none_is(old(registry)@.infos, info_has_id(value.id)) && none_is(
                old(registry)@.infos,
                info_of_server(value.server_id),
            ),
            match result {
                Ok(row) => row == value && final(registry)@ == (RegistryView {
                    infos: old(registry)@.infos.push(value),
                    ..old(registry)@
                }),
                Err(e) => e == ApiError::Conflict && final(registry)@ == old(registry)@,
            },
            old(registry)@.wf() ==> final(registry)@.wf(),
    {
        proof {
            position_facts(registry@.infos, info_has_id(value.id));
            position_facts(registry@.infos, info_of_server(value.server_id));
        }
        if info_index_by_id(&registry.infos, value.id).is_some() {
            return Err(ApiError::Conflict);
        }
        if info_index_by_server(&registry.infos, value.server_id).is_some() {
            return Err(ApiError::Conflict);
        }
        proof {
            if registry@.wf() {
                push_keeps_distinct(registry@.infos, value, info_id());
                push_keeps_distinct(registry@.infos, value, info_server());
                owners_stay(registry@.infos, registry@.infos.push(value), registry@.games);
            }
        }
        registry.infos.push(value.clone());
        Ok(value)
    }

    /// Replaces the first published state that has the identifier of
    /// `value`. The server of `value` must not have another state.
    pub fn update(registry: &mut Registry, value: ServerInfo) -> (result: Result<
        ServerInfo,
        ApiError,
    >)
        ensures
            match position(old(registry)@.infos, info_has_id(value.id)) {
                None => result == Err::<ServerInfo, ApiError>(ApiError::NotFound) && final(registry)@ == old(registry)@,
                Some(i) => if another_is(
                    old(registry)@.infos,
                    info_of_server(value.server_id),
                    i,
                ) {
                    result == Err::<ServerInfo, ApiError>(ApiError::Conflict) && final(registry)@
                        == old(registry)@
                } else {
                    result == Ok::<ServerInfo, ApiError>(value) && final(registry)@
                        == (RegistryView {
                        infos: old(registry)@.infos.update(i, value),
                        ..old(registry)@
                    })
                },
            },
            old(registry)@.wf() ==> final(registry)@.wf(),
    {
        let at = match info_index_by_id(&registry.infos, value.id) {
            Some(i) => i,
            None => {
                return Err(ApiError::NotFound);
            },
        };
        if another_info_of_server(&registry.infos, value.server_id, at) {
            return Err(ApiError::Conflict);
        }
        proof {
            position_facts(registry@.infos, info_has_id(value.id));
            if registry@.wf() {
                let rows = registry@.infos;
                assert forall|j: int| 0 <= j < rows.len() && j != at implies info_id()(
                    #[trigger] rows[j],
                ) != info_id()(value) by {
                    assert(info_id()(rows[j]) != info_id()(rows[at as int]));
                }
                assert forall|j: int| 0 <= j < rows.len() && j != at implies info_server()(
                    #[trigger] rows[j],
                ) != info_server()(value) by {
                    assert(!info_of_server(value.server_id)(rows[j]));
                }
                update_keeps_distinct(rows, at as int, value, info_id());
                update_keeps_distinct(rows, at as int, value, info_server());
                owners_stay(rows, rows.update(at as int, value), registry@.games);
            }
        }
        registry.infos.set(at, value.clone());
        Ok(value)
    }

    /// Removes the published states with the given identifier and says how
    /// many there were. A state that still has games cannot be removed.
    pub fn delete(registry: &mut Registry, id: u128) -> (result: Result<usize, ApiError>)
        ensures
            result is Ok <==> none_is(old(registry)@.games, game_of_info(id)),
            match result {
                Ok(n) => n == old(registry)@.infos.len() - final(registry)@.infos.len() && final(registry)@ == (RegistryView {
                    infos: old(registry)@.infos.filter(info_lacks_id(id)),
                    ..old(registry)@
                }),
                Err(e) => e == ApiError::Conflict && final(registry)@ == old(registry)@,
            },
            old(registry)@.wf() ==> final(registry)@.wf(),
    {
        proof {
            position_facts(registry@.games, game_of_info(id));
        }
        if game_index_by_info(&registry.games, id).is_some() {
            return Err(ApiError::Conflict);
        }
        let kept = infos_without_id(&registry.infos, id);
        let removed = registry.infos.len() - kept.len();
        proof {
            if registry@.wf() {
                filter_keeps_distinct(registry.infos@, info_lacks_id(id), info_id());
                filter_keeps_distinct(registry.infos@, info_lacks_id(id), info_server());
                filter_keeps_order(registry.infos@, info_lacks_id(id));
                let infos = registry.infos@;
                let games = registry.games@;
                assert forall|i: int| 0 <= i < games.len() implies owned_by(kept@)(
                    #[trigger] games[i],
                ) by {
                    assert(owned_by(infos)(games[i]));
                    assert(!game_of_info(id)(games[i]));
                    let k = choose|k: int|
                        0 <= k < infos.len() && info_has_id(games[i].game_info_id)(
                            #[trigger] infos[k],
                        );
                    assert(info_lacks_id(id)(infos[k]));
                    assert(kept@.contains(infos[k]));
                }
            }
        }
        registry.infos = kept;
        Ok(removed)
    }
}

/// Games that belong to a state of one table belong to a state of another
/// table that has the same identifiers at the same places.
proof fn owners_stay(infos: Seq<ServerInfo>, later: Seq<ServerInfo>, games: Seq<ServerGame>)
    requires
        games_owned(infos, games),
        later.len() >= infos.len(),
        forall|k: int| 0 <= k < infos.len() ==> (#[trigger] later[k]).id == infos[k].id,
    ensures
        games_owned(later, games),
{
    assert forall|i: int| 0 <= i < games.len() implies owned_by(later)(#[trigger] games[i]) by {
        assert(owned_by(infos)(games[i]));
        let k = choose|k: int|
            0 <= k < infos.len() && info_has_id(games[i].game_info_id)(#[trigger] infos[k]);
        assert(info_has_id(games[i].game_info_id)(later[k]));
    }
}

/// The games of a filtered table belong to a state where those of the table
/// do.
proof fn filter_keeps_owned(
    infos: Seq<ServerInfo>,
    games: Seq<ServerGame>,
    keep: spec_fn(ServerGame) -> bool,
)
    requires
        games_owned(infos, games),
    ensures
        games_owned(infos, games.filter(keep)),
{
    filter_keeps_order(games, keep);
    let kept = games.filter(keep);
    assert forall|i: int| 0 <= i < kept.len() implies owned_by(infos)(#[trigger] kept[i]) by {
        let a = choose|a: int| 0 <= a < games.len() && games[a] == kept[i];
        assert(owned_by(infos)(games[a]));
    }
}

/// The index of the first game with the given identifier.
fn game_index_by_id(rows: &Vec<ServerGame>, id: u128) -> (found: Option<usize>)
    ensures
        match found {
            Some(i) => position(rows@, game_has_id(id)) == Some(i as int),
            None => position(rows@, game_has_id(id)) is None,
        },
{
    let mut i: usize = 0;
    while i < rows.len()
        invariant
            i <= rows.len(),
            forall|j: int| 0 <= j < i ==> !game_has_id(id)(#[trigger] rows@[j]),
        decreases rows.len() - i,
    {
        if rows[i].id == id {
            proof {
                position_of_first(rows@, game_has_id(id), i as int);
            }
            return Some(i);
        }
        i += 1;
    }
    proof {
        position_of_none(rows@, game_has_id(id));
    }
    None
}

/// The index of the first game of the given published state.
fn game_index_by_info(rows: &Vec<ServerGame>, info_id: u128) -> (found: Option<usize>)
    ensures
        match found {
            Some(i) => position(rows@, game_of_info(info_id)) == Some(i as int),
            None => position(rows@, game_of_info(info_id)) is None,
        },
{
    let mut i: usize = 0;
    while i < rows.len()
        invariant
            i <= rows.len(),
            forall|j: int| 0 <= j < i ==> !game_of_info(info_id)(#[trigger] rows@[j]),
        decreases rows.len() - i,
    {
        if rows[i].game_info_id == info_id {
            proof {
                position_of_first(rows@, game_of_info(info_id), i as int);
            }
            return Some(i);
        }
        i += 1;
    }
    proof {
        position_of_none(rows@, game_of_info(info_id));
    }
    None
}

/// The games that do not have the given identifier.
fn games_without_id(rows: &Vec<ServerGame>, id: u128) -> (kept: Vec<ServerGame>)
    ensures
        kept@ == rows@.filter(game_lacks_id(id)),
        kept@.len() <= rows@.len(),
{
    let ghost keep = game_lacks_id(id);
    let mut kept: Vec<ServerGame> = Vec::new();
    let mut i: usize = 0;
    proof {
        filter_take_ends(rows@, keep);
    }
    while i < rows.len()
        invariant
            i <= rows.len(),
            keep == game_lacks_id(id),
            kept@ == rows@.take(i as int).filter(keep),
            kept.len() <= i,
        decreases rows.len() - i,
    {
        proof {
            filter_take_step(rows@, i as int, keep);
        }
        if rows[i].id != id {
            kept.push(rows[i].clone());
        }
        i += 1;
    }
    kept
}

/// The games of the given published state.
fn games_of_info(rows: &Vec<ServerGame>, info_id: u128) -> (kept: Vec<ServerGame>)
    ensures
        kept@ == rows@.filter(game_of_info(info_id)),
        kept@.len() <= rows@.len(),
{
    let ghost keep = game_of_info(info_id);
    let mut kept: Vec<ServerGame> = Vec::new();
    let mut i: usize = 0;
    proof {
        filter_take_ends(rows@, keep);
    }
    while i < rows.len()
        invariant
            i <= rows.len(),
            keep == game_of_info(info_id),
            kept@ == rows@.take(i as int).filter(keep),
            kept.len() <= i,
        decreases rows.len() - i,
    {
        proof {
            filter_take_step(rows@, i as int, keep);
        }
        if rows[i].game_info_id == info_id {
            kept.push(rows[i].clone());
        }
        i += 1;
    }
    kept
}

/// The games of all other published states.
fn games_of_other_infos(rows: &Vec<ServerGame>, info_id: u128) -> (kept: Vec<ServerGame>)
    ensures
        kept@ == rows@.filter(game_of_other_info(info_id)),
        kept@.len() <= rows@.len(),
{
    let ghost keep = game_of_other_info(info_id);
    let mut kept: Vec<ServerGame> = Vec::new();
    let mut i: usize = 0;
    proof {
        filter_take_ends(rows@, keep);
    }
    while i < rows.len()
        invariant
            i <= rows.len(),
            keep == game_of_other_info(info_id),
            kept@ == rows@.take(i as int).filter(keep),
            kept.len() <= i,
        decreases rows.len() - i,
    {
        proof {
            filter_take_step(rows@, i as int, keep);
        }
        if rows[i].game_info_id != info_id {
            kept.push(rows[i].clone());
        }
        i += 1;
    }
    kept
}

/// A copy of a table of games.
fn copy_games(rows: &Vec<ServerGame>) -> (copy: Vec<ServerGame>)
    ensures
        copy@ == rows@,
{
    let mut copy: Vec<ServerGame> = Vec::new();
    let mut i: usize = 0;
    while i < rows.len()
        invariant
            i <= rows.len(),
            copy@ == rows@.take(i as int),
        decreases rows.len() - i,
    {
        proof {
            take_step(rows@, i as int);
        }
        copy.push(rows[i].clone());
        i += 1;
    }
    proof {
        if rows.len() > 0 {
            take_step(rows@, 0);
        } else {
            assert(rows@.take(0) =~= rows@);
        }
    }
    copy
}

impl ServerGame {
    /// All games, in the order of the table.
    pub fn find_all(registry: &Registry) -> (result: Result<Vec<ServerGame>, ApiError>)
        ensures
            result matches Ok(rows) && rows@ == registry@.games,
    {
        Ok(copy_games(&registry.games))
    }

    /// The game with the given identifier.
    pub fn find_by_id(registry: &Registry, id: u128) -> (result: Result<ServerGame, ApiError>)
        ensures
            result == match first(registry@.games, game_has_id(id)) {
                Some(row) => Ok::<ServerGame, ApiError>(row),
                None => Err(ApiError::NotFound),
            },
    {
        match game_index_by_id(&registry.games, id) {
            Some(i) => Ok(registry.games[i].clone()),
            None => Err(ApiError::NotFound),
        }
    }

    /// The games of the given published state, in the order of the table.
    pub fn find_by_info(registry: &Registry, server_info_id: u128) -> (result: Result<
        Vec<ServerGame>,
        ApiError,
    >)
        ensures
            result matches Ok(rows) && rows@ == registry@.games.filter(
                game_of_info(server_info_id),
            ),
    {
        Ok(games_of_info(&registry.games, server_info_id))
    }

    /// Stores a new game. Its identifier must be new to the table, and the
    /// published state that it belongs to must be stored.
    pub fn create(registry: &mut Registry, game: ServerGame) -> (result: Result<
        ServerGame,
        ApiError,
    >)
        ensures
            result is Ok <==> none_is(old(registry)@.games, game_has_id(game.id)) && owned_by(
                old(registry)@.infos,
            )(game),
            match result {
                Ok(row) => row == game && final(registry)@ == (RegistryView {
                    games: old(registry)@.games.push(game),
                    ..old(registry)@
                }),
                Err(e) => e == ApiError::Conflict && final(registry)@ == old(registry)@,
            },
            old(registry)@.wf() ==> final(registry)@.wf(),
    {
        proof {
            position_facts(registry@.games, game_has_id(game.id));
        }
        if game_index_by_id(&registry.games, game.id).is_some() {
            return Err(ApiError::Conflict);
        }
        proof {
            position_facts(registry@.infos, info_has_id(game.game_info_id));
        }
        if info_index_by_id(&registry.infos, game.game_info_id).is_none() {
            return Err(ApiError::Conflict);
        }
        proof {
            if registry@.wf() {
                push_keeps_distinct(registry@.games, game, game_id());
            }
        }
        registry.games.push(game.clone());
        Ok(game)
    }

    /// Replaces the first game that has the identifier of `game`. The
    /// published state that `game` belongs to must be stored.
    pub fn update(registry: &mut Registry, game: ServerGame) -> (result: Result<
        ServerGame,
        ApiError,
    >)
        ensures
            match position(old(registry)@.games, game_has_id(game.id)) {
                None => result == Err::<ServerGame, ApiError>(ApiError::NotFound) && final(registry)@ == old(registry)@,
                Some(i) => if owned_by(old(registry)@.infos)(game) {
                    result == Ok::<ServerGame, ApiError>(game) && final(registry)@
                        == (RegistryView {
                        games: old(registry)@.games.update(i, game),
                        ..old(registry)@
                    })
                } else {
                    result == Err::<ServerGame, ApiError>(ApiError::Conflict) && final(registry)@
                        == old(registry)@
                },
            },
            old(registry)@.wf() ==> final(registry)@.wf(),
    {
        let at = match game_index_by_id(&registry.games, game.id) {
            Some(i) => i,
            None => {
                return Err(ApiError::NotFound);
            },
        };
        proof {
            position_facts(registry@.infos, info_has_id(game.game_info_id));
        }
        if info_index_by_id(&registry.infos, game.game_info_id).is_none() {
            return Err(ApiError::Conflict);
        }
        proof {
            position_facts(registry@.games, game_has_id(game.id));
            if registry@.wf() {
                let rows = registry@.games;
                assert forall|j: int| 0 <= j < rows.len() && j != at implies game_id()(
                    #[trigger] rows[j],
                ) != game_id()(game) by {
                    assert(game_id()(rows[j]) != game_id()(rows[at as int]));
                }
                update_keeps_distinct(rows, at as int, game, game_id());
            }
        }
        registry.games.set(at, game.clone());
        Ok(game)
    }

    /// Removes the games with the given identifier and says how many there
    /// were.
    pub fn delete(registry: &mut Registry, id: u128) -> (result: Result<usize, ApiError>)
        ensures
            final(registry)@ == (RegistryView {
                games: old(registry)@.games.filter(game_lacks_id(id)),
                ..old(registry)@
            }),
            result matches Ok(n) && n == old(registry)@.games.len() - final(registry)@.games.len(),
            old(registry)@.wf() ==> final(registry)@.wf(),
    {
        let kept = games_without_id(&registry.games, id);
        let removed = registry.games.len() - kept.len();
        proof {
            if registry@.wf() {
                filter_keeps_distinct(registry.games@, game_lacks_id(id), game_id());
                filter_keeps_owned(registry@.infos, registry.games@, game_lacks_id(id));
            }
        }
        registry.games = kept;
        Ok(removed)
    }

    /// Removes the games of the given published state and says how many
    /// there were.
    pub fn delete_by_info(registry: &mut Registry, game_info_id: u128) -> (result: Result<
        usize,
        ApiError,
    >)
        ensures
            final(registry)@ == (RegistryView {
                games: old(registry)@.games.filter(game_of_other_info(game_info_id)),
                ..old(registry)@
            }),
            result matches Ok(n) && n == old(registry)@.games.len() - final(registry)@.games.len(),
            old(registry)@.wf() ==> final(registry)@.wf(),
    {
        let kept = games_of_other_infos(&registry.games, game_info_id);
        let removed = registry.games.len() - kept.len();
        proof {
            if registry@.wf() {
                filter_keeps_distinct(
                    registry.games@,
                    game_of_other_info(game_info_id),
                    game_id(),
                );
                filter_keeps_owned(
                    registry@.infos,
                    registry.games@,
                    game_of_other_info(game_info_id),
                );
            }
        }
        registry.games = kept;
        Ok(removed)
    }
}

/// The index of the first fast token with the given identifier.
fn fast_token_index_by_id(rows: &Vec<FastToken>, id: u128) -> (found: Option<usize>)
    ensures
        match found {
            Some(i) => position(rows@, fast_token_has_id(id)) == Some(i as int),
            None => position(rows@, fast_token_has_id(id)) is None,
        },
{
    let mut i: usize = 0;
    while i < rows.len()
        invariant
            i <= rows.len(),
            forall|j: int| 0 <= j < i ==> !fast_token_has_id(id)(#[trigger] rows@[j]),
        decreases rows.len() - i,
    {
        if rows[i].id == id {
            proof {
                position_of_first(rows@, fast_token_has_id(id), i as int);
            }
            return Some(i);
        }
        i += 1;
    }
    proof {
        position_of_none(rows@, fast_token_has_id(id));
    }
    None
}

/// The index of the first fast token with the given code.
fn fast_token_index_by_code(rows: &Vec<FastToken>, code: &String) -> (found: Option<usize>)
    ensures
        match found {
            Some(i) => position(rows@, fast_token_has_code(code@)) == Some(i as int),
            None => position(rows@, fast_token_has_code(code@)) is None,
        },
{
    let mut i: usize = 0;
    while i < rows.len()
        invariant
            i <= rows.len(),
            forall|j: int| 0 <= j < i ==> !fast_token_has_code(code@)(#[trigger] rows@[j]),
        decreases rows.len() - i,
    {
        if rows[i].token == *code {
            proof {
                position_of_first(rows@, fast_token_has_code(code@), i as int);
            }
            return Some(i);
        }
        i += 1;
    }
    proof {
        position_of_none(rows@, fast_token_has_code(code@));
    }
    None
}

/// The index of the first fast token with the given code that was created after `limit`.
fn fast_token_index_by_code_after(rows: &Vec<FastToken>, code: &String, limit: i64) -> (found: Option<usize>)
    ensures
        match found {
            Some(i) => position(rows@, fast_token_has_code_after(code@, limit)) == Some(i as int),
            None => position(rows@, fast_token_has_code_after(code@, limit)) is None,
        },
{
    let mut i: usize = 0;
    while i < rows.len()
        invariant
            i <= rows.len(),
            forall|j: int| 0 <= j < i ==> !fast_token_has_code_after(code@, limit)(#[trigger] rows@[j]),
        decreases rows.len() - i,
    {
        if rows[i].token == *code && rows[i].created_at > limit {
            proof {
                position_of_first(rows@, fast_token_has_code_after(code@, limit), i as int);
            }
            return Some(i);
        }
        i += 1;
    }
    proof {
        position_of_none(rows@, fast_token_has_code_after(code@, limit));
    }
    None
}

/// Whether a token other than the one at index `skip` has the code of `new` and was created less than twenty minutes before or after it.
fn another_token_crowds(rows: &Vec<FastToken>, new: &FastToken, skip: usize) -> (found: bool)
    ensures
        found == another_is(rows@, crowds(*new), skip as int),
{
    let mut i: usize = 0;
    while i < rows.len()
        invariant
            i <= rows.len(),
            forall|j: int| 0 <= j < i && j != skip ==> !crowds(*new)(#[trigger] rows@[j]),
        decreases rows.len() - i,
    {
        if i != skip && rows[i].token == new.token && instants_too_close(rows[i].created_at, new.created_at) {
            return true;
        }
        i += 1;
    }
    false
}

/// The fast tokens that do not have the given identifier.
fn fast_tokens_without_id(rows: &Vec<FastToken>, id: u128) -> (kept: Vec<FastToken>)
    ensures
        kept@ == rows@.filter(fast_token_lacks_id(id)),
        kept@.len() <= rows@.len(),
{
    let ghost keep = fast_token_lacks_id(id);
    let mut kept: Vec<FastToken> = Vec::new();
    let mut i: usize = 0;
    proof {
        filter_take_ends(rows@, keep);
    }
    while i < rows.len()
        invariant
            i <= rows.len(),
            keep == fast_token_lacks_id(id),
            kept@ == rows@.take(i as int).filter(keep),
            kept.len() <= i,
        decreases rows.len() - i,
    {
        proof {
            filter_take_step(rows@, i as int, keep);
        }
        if rows[i].id != id {
            kept.push(rows[i].clone());
        }
        i += 1;
    }
    kept
}

/// A copy of a table of fast tokens.
fn copy_fast_tokens(rows: &Vec<FastToken>) -> (copy: Vec<FastToken>)
    ensures
        copy@ == rows@,
{
    let mut copy: Vec<FastToken> = Vec::new();
    let mut i: usize = 0;
    while i < rows.len()
        invariant
            i <= rows.len(),
            copy@ == rows@.take(i as int),
        decreases rows.len() - i,
    {
        proof {
            take_step(rows@, i as int);
        }
        copy.push(rows[i].clone());
        i += 1;
    }
    proof {
        if rows.len() > 0 {
            take_step(rows@, 0);
        } else {
            assert(rows@.take(0) =~= rows@);
        }
    }
    copy
}

/// A filtered table of tokens keeps same codes twenty minutes apart.
proof fn filter_keeps_spaced(rows: Seq<FastToken>, keep: spec_fn(FastToken) -> bool)
    requires
        codes_spaced(rows),
    ensures
        codes_spaced(rows.filter(keep)),
{
    crate::db::query::filter_keeps_order(rows, keep);
    let kept = rows.filter(keep);
    assert forall|i: int, j: int|
        0 <= i < j < kept.len() && (#[trigger] kept[i]).token@ == (
        #[trigger] kept[j]).token@ implies !too_close(kept[i].created_at, kept[j].created_at) by {
        let (a, b) = choose|a: int, b: int|
            0 <= a < b < rows.len() && rows[a] == kept[i] && rows[b] == kept[j];
        assert(rows[a].token@ == rows[b].token@);
    }
}

impl FastToken {
    /// All fast tokens, in the order of the table.
    pub fn find_all(registry: &Registry) -> (result: Result<Vec<FastToken>, ApiError>)
        ensures
            result matches Ok(rows) && rows@ == registry@.fast_tokens,
    {
        Ok(copy_fast_tokens(&registry.fast_tokens))
    }

    /// The fast token with the given identifier.
    pub fn find_by_id(registry: &Registry, id: u128) -> (result: Result<FastToken, ApiError>)
        ensures
            result == match first(registry@.fast_tokens, fast_token_has_id(id)) {
                Some(row) => Ok::<FastToken, ApiError>(row),
                None => Err(ApiError::NotFound),
            },
    {
        match fast_token_index_by_id(&registry.fast_tokens, id) {
            Some(i) => Ok(registry.fast_tokens[i].clone()),
            None => Err(ApiError::NotFound),
        }
    }

    /// The first fast token with the given code, whatever its age.
    pub fn find_by_token(registry: &Registry, token: &String) -> (result: Result<
        FastToken,
        ApiError,
    >)
        ensures
            result == match first(registry@.fast_tokens, fast_token_has_code(token@)) {
                Some(row) => Ok::<FastToken, ApiError>(row),
                None => Err(ApiError::NotFound),
            },
    {
        match fast_token_index_by_code(&registry.fast_tokens, token) {
            Some(i) => Ok(registry.fast_tokens[i].clone()),
            None => Err(ApiError::NotFound),
        }
    }

    /// The first fast token with the given code that was created after
    /// `limit`.
    pub fn find_by_token_checked(registry: &Registry, token: &String, limit: i64) -> (result:
        Result<FastToken, ApiError>)
        ensures
            result == match first(
                registry@.fast_tokens,
                fast_token_has_code_after(token@, limit),
            ) {
                Some(row) => Ok::<FastToken, ApiError>(row),
                None => Err(ApiError::NotFound),
            },
    {
        match fast_token_index_by_code_after(&registry.fast_tokens, token, limit) {
            Some(i) => Ok(registry.fast_tokens[i].clone()),
            None => Err(ApiError::NotFound),
        }
    }

    /// Stores a new fast token. Its identifier must be new to the table,
    /// and no token with its code may have been created less than twenty
    /// minutes before or after it.
    pub fn create(registry: &mut Registry, entry: FastToken) -> (result: Result<
        FastToken,
        ApiError,
    >)
        ensures
            result is Ok <==> none_is(old(registry)@.fast_tokens, fast_token_has_id(entry.id))
                && none_is(old(registry)@.fast_tokens, crowds(entry)),
            match result {
                Ok(row) => row == entry && final(registry)@ == (RegistryView {
                    fast_tokens: old(registry)@.fast_tokens.push(entry),
                    ..old(registry)@
                }),
                Err(e) => e == ApiError::Conflict && final(registry)@ == old(registry)@,
            },
            old(registry)@.wf() ==> final(registry)@.wf(),
    {
        proof {
            position_facts(registry@.fast_tokens, fast_token_has_id(entry.id));
        }
        if fast_token_index_by_id(&registry.fast_tokens, entry.id).is_some() {
            return Err(ApiError::Conflict);
        }
        let nobody: usize = registry.fast_tokens.len();
        if another_token_crowds(&registry.fast_tokens, &entry, nobody) {
            return Err(ApiError::Conflict);
        }
        proof {
            let rows = registry@.fast_tokens;
            assert forall|j: int| 0 <= j < rows.len() implies !crowds(entry)(
                #[trigger] rows[j],
            ) by {}
            if registry@.wf() {
                push_keeps_distinct(rows, entry, fast_token_id());
                let after = rows.push(entry);
                assert forall|i: int, j: int|
                    0 <= i < j < after.len() && (#[trigger] after[i]).token@ == (
                    #[trigger] after[j]).token@ implies !too_close(
                    after[i].created_at,
                    after[j].created_at,
                ) by {
                    if j < rows.len() {
                        assert(rows[i].token@ == rows[j].token@);
                    } else {
                        assert(!crowds(entry)(rows[i]));
                    }
                }
            }
        }
        registry.fast_tokens.push(entry.clone());
        Ok(entry)
    }

    /// Replaces the first fast token that has the identifier of `entry`. No
    /// other token with the code of `entry` may have been created less than
    /// twenty minutes before or after it.
    pub fn update(registry: &mut Registry, entry: FastToken) -> (result: Result<
        FastToken,
        ApiError,
    >)
        ensures
            match position(old(registry)@.fast_tokens, fast_token_has_id(entry.id)) {
                None => result == Err::<FastToken, ApiError>(ApiError::NotFound) && final(registry)@ == old(registry)@,
                Some(i) => if another_is(old(registry)@.fast_tokens, crowds(entry), i) {
                    result == Err::<FastToken, ApiError>(ApiError::Conflict) && final(registry)@
                        == old(registry)@
                } else {
                    result == Ok::<FastToken, ApiError>(entry) && final(registry)@
                        == (RegistryView {
                        fast_tokens: old(registry)@.fast_tokens.update(i, entry),
                        ..old(registry)@
                    })
                },
            },
            old(registry)@.wf() ==> final(registry)@.wf(),
    {
        let at = match fast_token_index_by_id(&registry.fast_tokens, entry.id) {
            Some(i) => i,
            None => {
                return Err(ApiError::NotFound);
            },
        };
        if another_token_crowds(&registry.fast_tokens, &entry, at) {
            return Err(ApiError::Conflict);
        }
        proof {
            position_facts(registry@.fast_tokens, fast_token_has_id(entry.id));
            if registry@.wf() {
                let rows = registry@.fast_tokens;
                assert forall|j: int| 0 <= j < rows.len() && j != at implies fast_token_id()(
                    #[trigger] rows[j],
                ) != fast_token_id()(entry) by {
                    assert(fast_token_id()(rows[j]) != fast_token_id()(rows[at as int]));
                }
                update_keeps_distinct(rows, at as int, entry, fast_token_id());
                let after = rows.update(at as int, entry);
                assert forall|i: int, j: int|
                    0 <= i < j < after.len() && (#[trigger] after[i]).token@ == (
                    #[trigger] after[j]).token@ implies !too_close(
                    after[i].created_at,
                    after[j].created_at,
                ) by {
                    if i != at && j != at {
                        assert(rows[i].token@ == rows[j].token@);
                    } else if i == at {
                        assert(!crowds(entry)(rows[j]));
                    } else {
                        assert(!crowds(entry)(rows[i]));
                    }
                }
            }
        }
        registry.fast_tokens.set(at, entry.clone());
        Ok(entry)
    }

    /// Removes the fast tokens with the given identifier and says how many
    /// there were.
    pub fn delete(registry: &mut Registry, id: u128) -> (result: Result<usize, ApiError>)
        ensures
            final(registry)@ == (RegistryView {
                fast_tokens: old(registry)@.fast_tokens.filter(fast_token_lacks_id(id)),
                ..old(registry)@
            }),
            result matches Ok(n) && n == old(registry)@.fast_tokens.len()
                - final(registry)@.fast_tokens.len(),
            old(registry)@.wf() ==> final(registry)@.wf(),
    {
        let kept = fast_tokens_without_id(&registry.fast_tokens, id);
        let removed = registry.fast_tokens.len() - kept.len();
        proof {
            if registry@.wf() {
                filter_keeps_distinct(
                    registry.fast_tokens@,
                    fast_token_lacks_id(id),
                    fast_token_id(),
                );
                filter_keeps_spaced(registry.fast_tokens@, fast_token_lacks_id(id));
            }
        }
        registry.fast_tokens = kept;
        Ok(removed)
    }
}

impl Clone for Registry {
    fn clone(&self) -> (copy: Self)
        ensures
            copy@ == self@,
    {
        Registry {
            servers: copy_servers(&self.servers),
            infos: copy_infos(&self.infos),
            games: copy_games(&self.games),
            fast_tokens: copy_fast_tokens(&self.fast_tokens),
        }
    }
}

} // verus!
