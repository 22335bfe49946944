//! What the registry answers to each request.
//!
//! Every function here takes the registry, what the request carried and the
//! instant at which it arrived, and says which reply is due. Reading the
//! request and sending the reply is left to the caller.

use crate::api_error::ApiError;
use crate::db::model::{
    admits, server_has_id, server_has_token, with_server, FastToken, Registry, RegistryView, Server,
    ServerInfo,
};
use crate::db::query::{
    filter_map_has, first, is_first, position, position_facts, position_of_first, position_of_none,
};
use crate::freshness::{age_micros, is_live, server_is_live};
use crate::id::{encode_id, id_text, parse_id, parsed_id};
use crate::tokens::has_token;
use crate::v1::model::{
    every_code_in_use, fast_token_live, fetch_response, free_code_but_taken_id, game_server_of,
    info_of, minted, publish_error, publish_outcome, published, publishing_server,
    some_code_in_use, FastTokenAddRequest, FastTokenAddResponse, FastTokenFetchResponse,
    FastTokenFetchResponseView, GameServer, GameServerEntry, GameServerEntryView, GameServerInfo,
    GameServerInfoView, GameServerView, ListQuery, ListResponse, NewRequest, NewRequestView,
    NewResponse, NewResponseView, UpdateResponse,
};
use vstd::prelude::*;

verus! {

/// The reply to a request.
#[derive(Debug, PartialEq, Eq)]
pub enum Reply<T> {
    /// The request was served; the value is the body of the reply.
    Success(T),
    /// The request did not carry a token that entitles to it.
    Forbidden,
    /// What was asked for is not there.
    NotFound,
    /// The registry could not carry the request out.
    InternalServerError(ApiError),
}

impl<T> Reply<T> {
    /// The status code of the reply.
    pub fn status(&self) -> (code: u16)
        ensures
            code == match *self {
                Reply::Success(_) => 200u16,
                Reply::Forbidden => 403u16,
                Reply::NotFound => 404u16,
                Reply::InternalServerError(_) => 500u16,
            },
    {
        match self {
            Reply::Success(_) => 200,
            Reply::Forbidden => 403,
            Reply::NotFound => 404,
            Reply::InternalServerError(_) => 500,
        }
    }
}

/// The reply is the expected one: of the same kind, with the same failure
/// or with a body that has the expected view.
pub open spec fn replies<T: View>(reply: Reply<T>, expected: Reply<T::V>) -> bool {
    match (reply, expected) {
        (Reply::Success(body), Reply::Success(view)) => body@ == view,
        (Reply::Forbidden, Reply::Forbidden) => true,
        (Reply::NotFound, Reply::NotFound) => true,
        (Reply::InternalServerError(e), Reply::InternalServerError(f)) => e == f,
        _ => false,
    }
}

/// The value is the expected one, or absent where none is expected.
pub open spec fn shows<T: View>(value: Option<T>, expected: Option<T::V>) -> bool {
    match (value, expected) {
        (Some(value), Some(view)) => value@ == view,
        (None, None) => true,
        _ => false,
    }
}

/// The published state beside its server, if the pair is a candidate for a
/// match.
///
/// The state's developer flag is the one asked for; its fallback flag is
/// unset unless fallback servers are included; it is not full, where full
/// servers are excluded; it is not in maintenance; its server is in the
/// table, is live at `now` and is not among the ignored.
pub open spec fn candidate(
    servers: Seq<Server>,
    developer: bool,
    fallback: bool,
    exclude_full: bool,
    ignore: Seq<Seq<char>>,
    now: i64,
) -> spec_fn(ServerInfo) -> Option<(Server, ServerInfo)> {
    |info: ServerInfo|
        if info.developer == developer && (fallback || !info.fallback) && (!exclude_full
            || !info.full) && !info.maintenance {
            match first(servers, server_has_id(info.server_id)) {
                Some(server) => if is_live(now, server.last_seen) && !ignore.contains(
                    id_text(server.id),
                ) {
                    Some((server, info))
                } else {
                    None
                },
                None => None,
            }
        } else {
            None
        }
}

/// The candidates for a match, in the order in which their states were
/// published.
pub open spec fn candidates_of(
    registry: RegistryView,
    developer: bool,
    fallback: bool,
    exclude_full: bool,
    ignore: Seq<Seq<char>>,
    now: i64,
) -> Seq<(Server, ServerInfo)> {
    registry.infos.filter_map(
        candidate(registry.servers, developer, fallback, exclude_full, ignore, now),
    )
}

/// The entry is that of the game with the given name.
pub open spec fn entry_named(name: Seq<char>) -> spec_fn(GameServerEntryView) -> bool {
    |entry: GameServerEntryView| entry.name == name
}

/// The published state offers the game.
pub open spec fn offers(info: GameServerInfoView, game: Seq<char>) -> bool {
    exists|k: int| 0 <= k < info.games.len() && entry_named(game)(#[trigger] info.games[k])
}

/// The state of the pair offers the game.
pub open spec fn offering(registry: RegistryView, game: Seq<char>) -> spec_fn(
    (Server, ServerInfo),
) -> bool {
    |pair: (Server, ServerInfo)| offers(info_of(registry, pair.1), game)
}

/// The server that one step of the search finds: the first candidate that
/// is not full and offers the game.
pub open spec fn found_server(
    registry: RegistryView,
    game: Seq<char>,
    developer: bool,
    fallback: bool,
    ignore: Seq<Seq<char>>,
    now: i64,
) -> Option<GameServerView> {
    match first(
        candidates_of(registry, developer, fallback, true, ignore, now),
        offering(registry, game),
    ) {
        Some(pair) => Some(game_server_of(registry, pair.0, pair.1, now)),
        None => None,
    }
}

/// The steps of a search, each a pair of a developer flag and a fallback
/// flag, in the order in which they are tried.
///
/// Developer servers come first where they are asked for, and within either
/// pool the fallback servers come last. A search that asks for developer
/// servers and forbids fallback ends after its first step.
pub open spec fn tier_plan(developer: bool, fallback: bool) -> Seq<(bool, bool)> {
    if developer {
        if fallback {
            seq![(true, false), (true, true), (false, false), (false, true)]
        } else {
            seq![(true, false)]
        }
    } else {
        if fallback {
            seq![(false, false), (false, true)]
        } else {
            seq![(false, false)]
        }
    }
}

/// The step finds a server.
pub open spec fn tier_finds(
    registry: RegistryView,
    game: Seq<char>,
    ignore: Seq<Seq<char>>,
    now: i64,
) -> spec_fn((bool, bool)) -> bool {
    |tier: (bool, bool)| found_server(registry, game, tier.0, tier.1, ignore, now) is Some
}

/// The server that a search selects: what the first step that finds a
/// server finds.
pub open spec fn selected(registry: RegistryView, request: NewRequestView, now: i64) -> Option<
    GameServerView,
> {
    match first(
        tier_plan(request.developer, request.fallback),
        tier_finds(registry, request.game, request.ignore, now),
    ) {
        Some(tier) => found_server(registry, request.game, tier.0, tier.1, request.ignore, now),
        None => None,
    }
}

/// Whether the text is in the list.
fn is_listed(list: &Vec<String>, text: &String) -> (listed: bool)
    ensures
        listed == list.deep_view().contains(text@),
{
    let mut i: usize = 0;
    while i < list.len()
        invariant
            i <= list.len(),
            forall|j: int| 0 <= j < i ==> list.deep_view()[j] != text@,
        decreases list.len() - i,
    {
        if list[i] == *text {
            proof {
                assert(list.deep_view()[i as int] == text@);
            }
            return true;
        }
        i += 1;
    }
    false
}

/// The index of the first entry with the given name.
fn entry_index_by_name(entries: &Vec<GameServerEntry>, name: &String) -> (found: Option<usize>)
    ensures
        match found {
            Some(i) => position(entries.deep_view(), entry_named(name@)) == Some(i as int),
            None => position(entries.deep_view(), entry_named(name@)) is None,
        },
{
    let mut i: usize = 0;
    while i < entries.len()
        invariant
            i <= entries.len(),
            forall|j: int| 0 <= j < i ==> !entry_named(name@)(#[trigger] entries.deep_view()[j]),
        decreases entries.len() - i,
    {
        if entries[i].name == *name {
            proof {
                assert(entry_named(name@)(entries.deep_view()[i as int]));
                position_of_first(entries.deep_view(), entry_named(name@), i as int);
            }
            return Some(i);
        }
        i += 1;
    }
    proof {
        position_of_none(entries.deep_view(), entry_named(name@));
    }
    None
}

/// A state offers a game exactly where one of its entries is found under
/// the game's name.
pub proof fn offers_where_named(info: GameServerInfoView, game: Seq<char>)
    ensures
        offers(info, game) <==> position(info.games, entry_named(game)) is Some,
{
    position_facts(info.games, entry_named(game));
    match position(info.games, entry_named(game)) {
        Some(k) => {
            assert(entry_named(game)(info.games[k]));
        },
        None => {
            assert forall|k: int| 0 <= k < info.games.len() implies !entry_named(game)(
                #[trigger] info.games[k],
            ) by {}
        },
    }
}

/// The candidates for a match at `now`, in the order in which their states
/// were published.
pub fn candidates(
    registry: &Registry,
    developer: bool,
    fallback: bool,
    exclude_full: bool,
    ignore: &Vec<String>,
    now: i64,
) -> (found: Vec<(Server, ServerInfo)>)
    ensures
        found@ == candidates_of(
            registry@,
            developer,
            fallback,
            exclude_full,
            ignore.deep_view(),
            now,
        ),
{
    let ghost pick = candidate(
        registry@.servers,
        developer,
        fallback,
        exclude_full,
        ignore.deep_view(),
        now,
    );
    let mut found: Vec<(Server, ServerInfo)> = Vec::new();
    let mut i: usize = 0;
    proof {
        assert(registry.infos@.take(0) =~= Seq::<ServerInfo>::empty());
    }
    while i < registry.infos.len()
        invariant
            i <= registry.infos.len(),
            pick == candidate(
                registry@.servers,
                developer,
                fallback,
                exclude_full,
                ignore.deep_view(),
                now,
            ),
            found@ == registry.infos@.take(i as int).filter_map(pick),
        decreases registry.infos.len() - i,
    {
        proof {
            registry.infos@.lemma_filter_map_take_succ(pick, i as int);
        }
        let info = &registry.infos[i];
        if info.developer == developer && (fallback || !info.fallback) && (!exclude_full
            || !info.full) && !info.maintenance {
            match Server::find_by_id(registry, info.server_id) {
                Ok(server) => {
                    if server_is_live(now, server.last_seen) {
                        let id = encode_id(server.id);
                        if !is_listed(ignore, &id) {
                            found.push((server, info.clone()));
                        }
                    }
                },
                Err(_) => {},
            }
        }
        i += 1;
    }
    proof {
        assert(registry.infos@.take(registry.infos.len() as int) =~= registry.infos@);
    }
    found
}

/// One step of the search: the first candidate that is not full and offers
/// the game, as the registry shows it at `now`.
pub fn find_server(
    registry: &Registry,
    game: &str,
    dev: bool,
    fallback: bool,
    ignore: &Vec<String>,
    now: i64,
) -> (found: Option<GameServer>)
    ensures
        shows(found, found_server(registry@, game@, dev, fallback, ignore.deep_view(), now)),
        found matches Some(server) ==> offers(server@.info, game@),
{
    let wanted = game.to_owned();
    let pairs = candidates(registry, dev, fallback, true, ignore, now);
    let mut i: usize = 0;
    while i < pairs.len()
        invariant
            i <= pairs.len(),
            wanted@ == game@,
            pairs@ == candidates_of(registry@, dev, fallback, true, ignore.deep_view(), now),
            forall|j: int| 0 <= j < i ==> !offering(registry@, game@)(#[trigger] pairs@[j]),
        decreases pairs.len() - i,
    {
        let server = pairs[i].0.clone();
        let info = pairs[i].1.clone();
        match GameServer::try_from_pair(registry, server, info, now) {
            Ok(entry) => {
                proof {
                    offers_where_named(entry@.info, game@);
                }
                if entry_index_by_name(&entry.info.games, &wanted).is_some() {
                    proof {
                        position_of_first(pairs@, offering(registry@, game@), i as int);
                    }
                    return Some(entry);
                }
            },
            Err(_) => {},
        }
        i += 1;
    }
    proof {
        position_of_none(pairs@, offering(registry@, game@));
    }
    None
}

/// The steps of a search in the order in which they are tried.
pub fn tiers(developer: bool, fallback: bool) -> (plan: Vec<(bool, bool)>)
    ensures
        plan@ == tier_plan(developer, fallback),
{
    let mut plan: Vec<(bool, bool)> = Vec::new();
    if developer {
        plan.push((true, false));
        if !fallback {
            return plan;
        }
        plan.push((true, true));
    }
    plan.push((false, false));
    if fallback {
        plan.push((false, true));
    }
    plan
}

/// Selects a server for a client: the steps of the search are tried in
/// order, and the first server found is the answer.
pub fn find_server_for_request(registry: &Registry, request: &NewRequest, now: i64) -> (found:
    Option<GameServer>)
    ensures
        shows(found, selected(registry@, request@, now)),
        found matches Some(server) ==> offers(server@.info, request.game@),
{
    let developer = match request.developer {
        Some(developer) => developer,
        None => false,
    };
    let fallback = match request.fallback {
        Some(fallback) => fallback,
        None => true,
    };
    let nothing: Vec<String> = Vec::new();
    let ignore = match &request.ignore {
        Some(ignore) => ignore,
        None => &nothing,
    };
    proof {
        assert(nothing.deep_view() =~= Seq::<Seq<char>>::empty());
    }
    let plan = tiers(developer, fallback);
    let ghost finds = tier_finds(registry@, request.game@, ignore.deep_view(), now);
    let mut i: usize = 0;
    while i < plan.len()
        invariant
            i <= plan.len(),
            plan@ == tier_plan(request@.developer, request@.fallback),
            ignore.deep_view() == request@.ignore,
            finds == tier_finds(registry@, request.game@, ignore.deep_view(), now),
            forall|j: int| 0 <= j < i ==> !finds(#[trigger] plan@[j]),
        decreases plan.len() - i,
    {
        let tier = plan[i];
        match find_server(registry, request.game.as_str(), tier.0, tier.1, ignore, now) {
            Some(server) => {
                proof {
                    position_of_first(plan@, finds, i as int);
                }
                return Some(server);
            },
            None => {},
        }
        i += 1;
    }
    proof {
        position_of_none(plan@, finds);
    }
    None
}

/// What a client is told of the server that was selected for it.
pub open spec fn new_response(server: GameServerView, game: Seq<char>) -> NewResponseView {
    NewResponseView {
        id: server.id,
        api_uri: server.info.uri,
        game_uri: first(server.info.games, entry_named(game))->0.uri,
    }
}

/// The reply to a request for a server: the server that the search
/// selects, or `NotFound`.
pub open spec fn new_reply(registry: RegistryView, request: NewRequestView, now: i64) -> Reply<
    NewResponseView,
> {
    match selected(registry, request, now) {
        Some(server) => Reply::Success(new_response(server, request.game)),
        None => Reply::NotFound,
    }
}

/// Answers a client's request for a server that hosts a game.
pub fn new(registry: &Registry, request: NewRequest, now: i64) -> (reply: Reply<NewResponse>)
    ensures
        replies(reply, new_reply(registry@, request@, now)),
{
    match find_server_for_request(registry, &request, now) {
        Some(server) => {
            proof {
                offers_where_named(server@.info, request.game@);
            }
            match entry_index_by_name(&server.info.games, &request.game) {
                Some(i) => Reply::Success(
                    NewResponse {
                        id: server.id,
                        api_uri: server.info.uri,
                        game_uri: server.info.games[i].uri.clone(),
                    },
                ),
                None => Reply::NotFound,
            }
        },
        None => Reply::NotFound,
    }
}

/// What the registry shows of a pair of a server and its state at `now`.
pub open spec fn shown_at(registry: RegistryView, now: i64) -> spec_fn(
    (Server, ServerInfo),
) -> GameServerView {
    |pair: (Server, ServerInfo)| game_server_of(registry, pair.0, pair.1, now)
}

/// The servers of a listing: those whose state the three flags admit, in
/// the order in which the states were published.
pub open spec fn listing(
    registry: RegistryView,
    include_dev: bool,
    include_fallback: bool,
    exclude_full: bool,
    now: i64,
) -> Seq<GameServerView> {
    registry.infos.filter_map(
        with_server(registry.servers, admits(include_dev, include_fallback, exclude_full)),
    ).map_values(shown_at(registry, now))
}

/// A flag of a query, which counts as unset where it is absent.
pub open spec fn flag(value: Option<bool>) -> bool {
    match value {
        Some(flag) => flag,
        None => false,
    }
}

fn flag_of(value: Option<bool>) -> (set: bool)
    ensures
        set == flag(value),
{
    match value {
        Some(flag) => flag,
        None => false,
    }
}

/// Answers a request for the list of servers.
pub fn list(registry: &Registry, query: &ListQuery, now: i64) -> (reply: Reply<ListResponse>)
    ensures
        replies(
            reply,
            Reply::Success(
                listing(
                    registry@,
                    flag(query.include_dev),
                    flag(query.include_fallback),
                    flag(query.exclude_full),
                    now,
                ),
            ),
        ),
{
    let pairs = match Server::find_by_filter(
        registry,
        flag_of(query.include_dev),
        flag_of(query.include_fallback),
        flag_of(query.exclude_full),
    ) {
        Ok(pairs) => pairs,
        Err(e) => {
            return Reply::InternalServerError(e);
        },
    };
    let mut result: Vec<GameServer> = Vec::new();
    let mut i: usize = 0;
    proof {
        assert(result.deep_view() =~= pairs@.take(0).map_values(shown_at(registry@, now)));
    }
    while i < pairs.len()
        invariant
            i <= pairs.len(),
            result.deep_view() == pairs@.take(i as int).map_values(shown_at(registry@, now)),
        decreases pairs.len() - i,
    {
        let ghost before = result.deep_view();
        let server = pairs[i].0.clone();
        let info = pairs[i].1.clone();
        match GameServer::try_from_pair(registry, server, info, now) {
            Ok(entry) => {
                result.push(entry);
            },
            Err(e) => {
                return Reply::InternalServerError(e);
            },
        }
        proof {
            let show = shown_at(registry@, now);
            assert(result.deep_view() =~= before.push(show(pairs@[i as int])));
            assert(pairs@.take(i + 1).map_values(show) =~= pairs@.take(i as int).map_values(
                show,
            ).push(show(pairs@[i as int])));
        }
        i += 1;
    }
    proof {
        assert(pairs@.take(pairs.len() as int) =~= pairs@);
    }
    Reply::Success(ListResponse(result))
}

/// The reply to a request for one server, once its identifier is read:
/// `NotFound` where the text is no identifier or no server has it, the
/// server as it is shown at `now` where it has a published state, and a
/// failure where it has none.
pub open spec fn info_reply(registry: RegistryView, id: Option<u128>, now: i64) -> Reply<
    GameServerView,
> {
    match id {
        None => Reply::NotFound,
        Some(id) => match first(registry.servers, server_has_id(id)) {
            None => Reply::NotFound,
            Some(server) => match first(
                registry.infos,
                crate::db::model::info_of_server(server.id),
            ) {
                Some(info) => Reply::Success(game_server_of(registry, server, info, now)),
                None => Reply::InternalServerError(ApiError::NotFound),
            },
        },
    }
}

/// Answers a request for the server with the given identifier, where `id`
/// is what the text of the request was read as.
pub fn info_by_id(registry: &Registry, id: Option<u128>, now: i64) -> (reply: Reply<GameServer>)
    ensures
        replies(reply, info_reply(registry@, id, now)),
{
    let id = match id {
        Some(id) => id,
        None => {
            return Reply::NotFound;
        },
    };
    let server = match Server::find_by_id(registry, id) {
        Ok(server) => server,
        Err(_) => {
            return Reply::NotFound;
        },
    };
    match GameServer::try_from(registry, server, now) {
        Ok(shown) => Reply::Success(shown),
        Err(e) => Reply::InternalServerError(e),
    }
}

/// Answers a request for the server whose identifier is written in
/// `server_id`.
pub fn info(registry: &Registry, server_id: &str, now: i64) -> (reply: Reply<GameServer>)
    ensures
        replies(reply, info_reply(registry@, parsed_id(server_id@), now)),
{
    info_by_id(registry, parse_id(server_id), now)
}

/// Whether a request may publish: it carries a token, and the token is on
/// the allow-list.
pub fn may_publish(store: &Vec<String>, token: &Option<String>) -> (allowed: bool)
    ensures
        allowed == match *token {
            Some(token) => store.deep_view().contains(token@),
            None => false,
        },
{
    match token {
        Some(token) => has_token(store, token.as_str()),
        None => false,
    }
}

/// How a publish under a listed token ends, given the fresh identifiers of
/// the rows: with the failure and nothing changed, or with the state stored
/// and the identifier of its server in the reply.
pub open spec fn update_outcome(
    before: RegistryView,
    after: RegistryView,
    request: GameServerInfo,
    token: Seq<char>,
    now: i64,
    server_id: u128,
    info_id: u128,
    game_ids: Seq<u128>,
    reply: Reply<UpdateResponse>,
) -> bool {
    match publish_error(before, request, token, now, server_id, info_id, game_ids) {
        Some(e) => reply == Reply::<UpdateResponse>::InternalServerError(e) && after == before,
        None => {
            &&& reply matches Reply::Success(body)
            &&& body.id@ == id_text(publishing_server(before, token, server_id))
            &&& published(before, after, request, token, now, server_id, info_id, game_ids)
        },
    }
}

/// Answers a publish: a server that sends no token, or one that is not on
/// the allow-list, is turned away and nothing changes; for the others the
/// state is stored as `GameServer::save` says, and the reply carries the
/// server's identifier or the failure.
pub fn update(
    store: &Vec<String>,
    registry: &mut Registry,
    token: Option<String>,
    request: GameServerInfo,
    now: i64,
) -> (reply: Reply<UpdateResponse>)
    ensures
        match token {
            Some(token) => if store.deep_view().contains(token@) {
                exists|server_id: u128, info_id: u128, game_ids: Seq<u128>|
                    game_ids.len() == request.games@.len() && #[trigger] update_outcome(
                        old(registry)@,
                        final(registry)@,
                        request,
                        token@,
                        now,
                        server_id,
                        info_id,
                        game_ids,
                        reply,
                    )
            } else {
                reply is Forbidden && final(registry)@ == old(registry)@
            },
            None => reply is Forbidden && final(registry)@ == old(registry)@,
        },
        old(registry)@.wf() ==> final(registry)@.wf(),
{
    if !may_publish(store, &token) {
        return Reply::Forbidden;
    }
    let token = match token {
        Some(token) => token,
        None => {
            return Reply::Forbidden;
        },
    };
    let mut server = GameServer {
        id: String::new(),
        last_seen: String::new(),
        last_seen_ms: 0,
        info: request,
    };
    let ghost unsaved = server;
    let result = server.save(registry, token.as_str(), now);
    proof {
        let (server_id, info_id, game_ids) = choose|
            server_id: u128,
            info_id: u128,
            game_ids: Seq<u128>,
        |
            game_ids.len() == request.games@.len() && #[trigger] publish_outcome(
                old(registry)@,
                registry@,
                unsaved,
                server,
                token@,
                now,
                server_id,
                info_id,
                game_ids,
                result,
            );
        let reply = match result {
            Ok(()) => Reply::Success(UpdateResponse { id: server.id }),
            Err(e) => Reply::InternalServerError(e),
        };
        assert(update_outcome(
            old(registry)@,
            registry@,
            request,
            token@,
            now,
            server_id,
            info_id,
            game_ids,
            reply,
        ));
    }
    match result {
        Ok(()) => Reply::Success(UpdateResponse { id: server.id }),
        Err(e) => Reply::InternalServerError(e),
    }
}

/// How the request of a server that has published ends.
///
/// Either a token is minted and the reply carries its code, or nothing
/// changes and the reply carries the failure: `Exhausted` where a valid
/// token was in the way of a draw, `Conflict` where a free code was drawn
/// and the identifier was taken. With no token stored the request is
/// served, and with every code in use it is exhausted.
pub open spec fn token_post_outcome(
    before: RegistryView,
    after: RegistryView,
    server_id: u128,
    request: FastTokenAddRequest,
    now: i64,
    reply: Reply<FastTokenAddResponse>,
) -> bool {
    &&& before.fast_tokens.len() == 0 ==> reply is Success
    &&& every_code_in_use(before, now) ==> reply
        == Reply::<FastTokenAddResponse>::InternalServerError(ApiError::Exhausted)
    &&& match reply {
        Reply::Success(body) => exists|minted_token: FastToken| #[trigger]
            minted(before, after, minted_token, server_id, request, now) && body.token
                == minted_token.token,
        Reply::InternalServerError(e) => {
            &&& after == before
            &&& e == ApiError::Exhausted || e == ApiError::Conflict
            &&& e == ApiError::Exhausted ==> some_code_in_use(before, now)
            &&& e == ApiError::Conflict ==> free_code_but_taken_id(before, now)
        },
        _ => false,
    }
}

/// Answers a server's request for a fast token: a request without the token
/// of a server that has published is turned away; for the others a token is
/// minted as `FastToken::try_from` says, and the reply carries its code or
/// the failure.
pub fn token_post(
    registry: &mut Registry,
    token: Option<String>,
    request: FastTokenAddRequest,
    now: i64,
) -> (reply: Reply<FastTokenAddResponse>)
    ensures
        match token {
            None => reply is Forbidden && final(registry)@ == old(registry)@,
            Some(token) => match first(old(registry)@.servers, server_has_token(token@)) {
                None => reply is Forbidden && final(registry)@ == old(registry)@,
                Some(server) => token_post_outcome(
                    old(registry)@,
                    final(registry)@,
                    server.id,
                    request,
                    now,
                    reply,
                ),
            },
        },
        old(registry)@.wf() ==> final(registry)@.wf(),
{
    let token = match token {
        Some(token) => token,
        None => {
            return Reply::Forbidden;
        },
    };
    let server = match Server::find_by_token(registry, token.as_str()) {
        Ok(server) => server,
        Err(_) => {
            return Reply::Forbidden;
        },
    };
    match FastToken::try_from(registry, server.id, request, now) {
        Ok(minted_token) => Reply::Success(FastTokenAddResponse::from(minted_token)),
        Err(e) => Reply::InternalServerError(e),
    }
}

/// The text in upper case, as `str::to_uppercase` gives it.
pub uninterp spec fn uppercase(text: Seq<char>) -> Seq<char>;

/// Turns a text into upper case with `str::to_uppercase`. The result
/// depends on the text alone.
#[verifier::external_body]
fn to_uppercase(text: &str) -> (upper: String)
    ensures
        upper@ == uppercase(text@),
{
    text.to_uppercase()
}

/// What a code resolves to at `now`: the first token with that code that is
/// still valid decides. Without one the reply is `NotFound`, whether or not
/// older tokens with the code are still stored.
pub open spec fn resolution(registry: RegistryView, code: Seq<char>, now: i64) -> Reply<
    FastTokenFetchResponseView,
> {
    match first(registry.fast_tokens, fast_token_live(code, now)) {
        None => Reply::NotFound,
        Some(token) => match fetch_response(registry, token) {
            Ok(body) => Reply::Success(body),
            Err(e) => Reply::InternalServerError(e),
        },
    }
}

/// Resolves a code, written in upper case, at `now`.
pub fn resolve(registry: &Registry, code: &String, now: i64) -> (reply: Reply<
    FastTokenFetchResponse,
>)
    ensures
        replies(reply, resolution(registry@, code@, now)),
{
    match FastToken::find_live(registry, code, now) {
        Ok(token) => match FastTokenFetchResponse::try_from(registry, token) {
            Ok(body) => Reply::Success(body),
            Err(e) => Reply::InternalServerError(e),
        },
        Err(_) => Reply::NotFound,
    }
}

/// Answers a request for what a code stands for. The code may be written in
/// either case.
pub fn token_get(registry: &Registry, token: &str, now: i64) -> (reply: Reply<
    FastTokenFetchResponse,
>)
    ensures
        replies(reply, resolution(registry@, uppercase(token@), now)),
{
    let code = to_uppercase(token);
    resolve(registry, &code, now)
}

/// Every candidate has passed the whole filter: its state has the flags
/// asked for and is not in maintenance, and its server is live at `now` and
/// not among the ignored.
pub proof fn candidates_passed_the_filter(
    registry: RegistryView,
    developer: bool,
    fallback: bool,
    exclude_full: bool,
    ignore: Seq<Seq<char>>,
    now: i64,
    k: int,
)
    requires
        0 <= k < candidates_of(registry, developer, fallback, exclude_full, ignore, now).len(),
    ensures
        ({
            let pair = candidates_of(registry, developer, fallback, exclude_full, ignore, now)[k];
            &&& registry.infos.contains(pair.1)
            &&& first(registry.servers, server_has_id(pair.1.server_id)) == Some(pair.0)
            &&& pair.1.developer == developer
            &&& fallback || !pair.1.fallback
            &&& !exclude_full || !pair.1.full
            &&& !pair.1.maintenance
            &&& is_live(now, pair.0.last_seen)
            &&& !ignore.contains(id_text(pair.0.id))
        }),
{
    let pick = candidate(registry.servers, developer, fallback, exclude_full, ignore, now);
    let found = registry.infos.filter_map(pick);
    assert(found.contains(found[k]));
    registry.infos.lemma_filter_map_contains(pick, found[k]);
}

/// A server whose last heartbeat is a minute old, or older, is no candidate
/// for a match, whatever its flags and whatever is asked for: none of its
/// states passes the filter, and no server that a search finds is that
/// stale.
pub proof fn stale_servers_are_no_candidates(
    registry: RegistryView,
    game: Seq<char>,
    developer: bool,
    fallback: bool,
    exclude_full: bool,
    ignore: Seq<Seq<char>>,
    now: i64,
)
    ensures
        forall|info: ServerInfo|
            (first(registry.servers, server_has_id(info.server_id)) matches Some(server)
                && age_micros(now, server.last_seen) >= 60_000_000) ==> (#[trigger] candidate(
                registry.servers,
                developer,
                fallback,
                exclude_full,
                ignore,
                now,
            )(info)) is None,
        forall|k: int|
            0 <= k < candidates_of(
                registry,
                developer,
                fallback,
                exclude_full,
                ignore,
                now,
            ).len() ==> age_micros(
                now,
                (#[trigger] candidates_of(
                    registry,
                    developer,
                    fallback,
                    exclude_full,
                    ignore,
                    now,
                )[k]).0.last_seen,
            ) < 60_000_000,
        found_server(registry, game, developer, fallback, ignore, now) matches Some(server)
            ==> server.last_seen_ms < 60_000,
{
    let found = candidates_of(registry, developer, fallback, exclude_full, ignore, now);
    assert forall|k: int| 0 <= k < found.len() implies age_micros(
        now,
        (#[trigger] found[k]).0.last_seen,
    ) < 60_000_000 by {
        candidates_passed_the_filter(registry, developer, fallback, exclude_full, ignore, now, k);
    }
    let tried = candidates_of(registry, developer, fallback, true, ignore, now);
    position_facts(tried, offering(registry, game));
    match position(tried, offering(registry, game)) {
        Some(k) => {
            candidates_passed_the_filter(registry, developer, fallback, true, ignore, now, k);
        },
        None => {},
    }
}

/// Developer servers come first: where developer servers are asked for and
/// a developer server that is no fallback passes the filter and offers the
/// game, the search selects what its first step finds, and that is a
/// developer server that is no fallback, whatever other servers offer the
/// game.
pub proof fn developer_servers_come_first(
    registry: RegistryView,
    request: NewRequestView,
    now: i64,
    k: int,
)
    requires
        request.developer,
        0 <= k < candidates_of(registry, true, false, true, request.ignore, now).len(),
        offering(registry, request.game)(
            candidates_of(registry, true, false, true, request.ignore, now)[k],
        ),
    ensures
        selected(registry, request, now) == found_server(
            registry,
            request.game,
            true,
            false,
            request.ignore,
            now,
        ),
        selected(registry, request, now) matches Some(server) && server.info.developer
            && !server.info.fallback && offers(server.info, request.game),
{
    let tried = candidates_of(registry, true, false, true, request.ignore, now);
    let wanted = offering(registry, request.game);
    position_facts(tried, wanted);
    let at = position(tried, wanted)->0;
    candidates_passed_the_filter(registry, true, false, true, request.ignore, now, at);
    let plan = tier_plan(request.developer, request.fallback);
    let finds = tier_finds(registry, request.game, request.ignore, now);
    assert(plan[0] == (true, false));
    assert(is_first(plan, finds, 0));
    position_of_first(plan, finds, 0);
}

/// A search never selects a server by a later step where an earlier step
/// finds one, and it selects none only where every step finds none.
pub proof fn search_stops_at_the_first_step_that_finds(
    registry: RegistryView,
    request: NewRequestView,
    now: i64,
)
    ensures
        match position(
            tier_plan(request.developer, request.fallback),
            tier_finds(registry, request.game, request.ignore, now),
        ) {
            Some(i) => {
                let tier = tier_plan(request.developer, request.fallback)[i];
                &&& selected(registry, request, now) == found_server(
                    registry,
                    request.game,
                    tier.0,
                    tier.1,
                    request.ignore,
                    now,
                )
                &&& selected(registry, request, now) is Some
                &&& forall|j: int|
                    0 <= j < i ==> found_server(
                        registry,
                        request.game,
                        (#[trigger] tier_plan(request.developer, request.fallback)[j]).0,
                        tier_plan(request.developer, request.fallback)[j].1,
                        request.ignore,
                        now,
                    ) is None
            },
            None => {
                &&& selected(registry, request, now) is None
                &&& forall|j: int|
                    0 <= j < tier_plan(request.developer, request.fallback).len()
                        ==> found_server(
                        registry,
                        request.game,
                        (#[trigger] tier_plan(request.developer, request.fallback)[j]).0,
                        tier_plan(request.developer, request.fallback)[j].1,
                        request.ignore,
                        now,
                    ) is None
            },
        },
{
    let plan = tier_plan(request.developer, request.fallback);
    let finds = tier_finds(registry, request.game, request.ignore, now);
    position_facts(plan, finds);
    match position(plan, finds) {
        Some(i) => {
            assert forall|j: int| 0 <= j < i implies found_server(
                registry,
                request.game,
                (#[trigger] plan[j]).0,
                plan[j].1,
                request.ignore,
                now,
            ) is None by {
                assert(!finds(plan[j]));
            }
        },
        None => {
            assert forall|j: int| 0 <= j < plan.len() implies found_server(
                registry,
                request.game,
                (#[trigger] plan[j]).0,
                plan[j].1,
                request.ignore,
                now,
            ) is None by {
                assert(!finds(plan[j]));
            }
        },
    }
}

/// A step that includes fallback servers also admits the others, but it
/// comes after the step of the same pool that excludes fallback servers. So
/// where the search selects a server at a step that includes fallback
/// servers, that server is a fallback server: the others were tried before.
pub proof fn fallback_steps_select_fallback_servers(
    registry: RegistryView,
    request: NewRequestView,
    now: i64,
)
    ensures
        match position(
            tier_plan(request.developer, request.fallback),
            tier_finds(registry, request.game, request.ignore, now),
        ) {
            Some(i) => tier_plan(request.developer, request.fallback)[i].1 ==> (selected(
                registry,
                request,
                now,
            ) matches Some(server) && server.info.fallback),
            None => true,
        },
{
    let plan = tier_plan(request.developer, request.fallback);
    let finds = tier_finds(registry, request.game, request.ignore, now);
    let wanted = offering(registry, request.game);
    position_facts(plan, finds);
    match position(plan, finds) {
        Some(i) => {
            if plan[i].1 {
                let developer = plan[i].0;
                assert(i >= 1 && plan[i - 1] == (developer, false));
                assert(!finds(plan[i - 1]));
                let strict = candidates_of(registry, developer, false, true, request.ignore, now);
                let wide = candidates_of(registry, developer, true, true, request.ignore, now);
                position_facts(strict, wanted);
                position_facts(wide, wanted);
                let k = position(wide, wanted)->0;
                let pair = wide[k];
                candidates_passed_the_filter(
                    registry,
                    developer,
                    true,
                    true,
                    request.ignore,
                    now,
                    k,
                );
                if !pair.1.fallback {
                    let m = choose|m: int|
                        0 <= m < registry.infos.len() && registry.infos[m] == pair.1;
                    let pick = candidate(
                        registry.servers,
                        developer,
                        false,
                        true,
                        request.ignore,
                        now,
                    );
                    assert(pick(registry.infos[m]) == Some(pair));
                    filter_map_has(registry.infos, pick, m);
                    let w = choose|w: int| 0 <= w < strict.len() && strict[w] == pair;
                    assert(wanted(strict[w]));
                }
            }
        },
        None => {},
    }
}

/// A code whose tokens are all twenty minutes old, or older, resolves to
/// `NotFound`, although the tokens are still stored.
pub proof fn expired_codes_are_not_found(registry: RegistryView, code: Seq<char>, now: i64)
    requires
        forall|i: int|
            0 <= i < registry.fast_tokens.len() && (#[trigger] registry.fast_tokens[i]).token@
                == code ==> age_micros(now, registry.fast_tokens[i].created_at) >= 1_200_000_000,
    ensures
        resolution(registry, code, now) == Reply::<FastTokenFetchResponseView>::NotFound,
{
    position_facts(registry.fast_tokens, fast_token_live(code, now));
    match position(registry.fast_tokens, fast_token_live(code, now)) {
        Some(i) => {
            assert(fast_token_live(code, now)(registry.fast_tokens[i]));
        },
        None => {},
    }
}

} // verus!
