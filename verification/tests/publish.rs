use pronto::api_error::ApiError;
use pronto::db::model::{Registry, Server, ServerGame, ServerInfo};
use pronto::tokens::init;
use pronto::v1::model::{GameServer, GameServerEntry, GameServerInfo};
use pronto::v1::routes::{info, info_by_id, list, may_publish, update, Reply};
use pronto::v1::model::ListQuery;

fn entry(name: &str) -> GameServerEntry {
    GameServerEntry {
        name: name.to_string(),
        uri: format!("a.example/{}", name),
        rooms: 3,
        max_rooms: Some(8),
        clients: 5,
    }
}

fn state(games: &[&str]) -> GameServerInfo {
    GameServerInfo {
        name: "A".to_string(),
        uri: "a.example".to_string(),
        developer: false,
        fallback: false,
        full: false,
        maintenance: false,
        max_clients: Some(10),
        games: games.iter().map(|name| entry(name)).collect(),
    }
}

fn unsaved(info: GameServerInfo) -> GameServer {
    GameServer { id: String::new(), last_seen: String::new(), last_seen_ms: 0, info }
}

fn allow_list() -> Vec<String> {
    init(&vec!["token-a".to_string(), "token-b".to_string()])
}

const SECOND: i64 = 1_000_000;

#[test]
fn a_first_publish_stores_server_state_and_games() {
    let mut registry = Registry::new();
    let mut server = unsaved(state(&["arena", "maze"]));
    assert_eq!(server.save_with_ids(&mut registry, "token-a", 7 * SECOND, 1, 10, &vec![100, 101]), Ok(()));
    assert_eq!(server.id, "00000000000000000000000000000001");
    assert_eq!(server.last_seen, "1970-01-01 00:00:07");
    assert_eq!(server.last_seen_ms, 0);
    assert_eq!(server.info, state(&["arena", "maze"]));
    assert_eq!(
        registry.servers,
        vec![Server {
            id: 1,
            last_seen: 7 * SECOND,
            token: "token-a".to_string(),
            created_at: 7 * SECOND,
            updated_at: None,
        }]
    );
    assert_eq!(
        registry.infos,
        vec![ServerInfo {
            id: 10,
            name: "A".to_string(),
            uri: "a.example".to_string(),
            developer: false,
            fallback: false,
            full: false,
            maintenance: false,
            max_clients: Some(10),
            server_id: 1,
            created_at: 7 * SECOND,
            updated_at: None,
        }]
    );
    assert_eq!(
        registry.games,
        vec![
            ServerGame {
                id: 100,
                name: "arena".to_string(),
                uri: "a.example/arena".to_string(),
                rooms: 3,
                max_rooms: Some(8),
                clients: 5,
                game_info_id: 10,
                created_at: 7 * SECOND,
                updated_at: None,
            },
            ServerGame {
                id: 101,
                name: "maze".to_string(),
                uri: "a.example/maze".to_string(),
                rooms: 3,
                max_rooms: Some(8),
                clients: 5,
                game_info_id: 10,
                created_at: 7 * SECOND,
                updated_at: None,
            },
        ]
    );
}

#[test]
fn republishing_with_the_same_token_keeps_one_server_row() {
    let mut registry = Registry::new();
    let mut first = unsaved(state(&["arena", "maze"]));
    first.save_with_ids(&mut registry, "token-a", 7 * SECOND, 1, 10, &vec![100, 101]).unwrap();
    let mut other = unsaved(state(&["arena"]));
    other.save_with_ids(&mut registry, "token-b", 8 * SECOND, 2, 11, &vec![102]).unwrap();

    let mut changed = state(&["race"]);
    changed.name = "A2".to_string();
    changed.full = true;
    let mut second = unsaved(changed);
    assert_eq!(second.save_with_ids(&mut registry, "token-a", 30 * SECOND, 3, 12, &vec![103]), Ok(()));

    assert_eq!(second.id, "00000000000000000000000000000001");
    assert_eq!(registry.servers.len(), 2);
    assert_eq!(registry.servers[0].id, 1);
    assert_eq!(registry.servers[0].token, "token-a");
    assert_eq!(registry.servers[0].last_seen, 30 * SECOND);
    assert_eq!(registry.servers[0].created_at, 7 * SECOND);
    assert_eq!(registry.servers[1].last_seen, 8 * SECOND);
    let ids: Vec<u128> = registry.infos.iter().map(|row| row.id).collect();
    assert_eq!(ids, vec![11, 12]);
    let stored = ServerInfo::find_by_server(&registry, 1).unwrap();
    assert_eq!(stored.name, "A2");
    assert!(stored.full);
    let games: Vec<(u128, String, u128)> =
        registry.games.iter().map(|row| (row.id, row.name.clone(), row.game_info_id)).collect();
    assert_eq!(games, vec![(102, "arena".to_string(), 11), (103, "race".to_string(), 12)]);
}

#[test]
fn a_publish_with_fresh_random_ids_can_be_repeated() {
    let mut registry = Registry::new();
    let mut server = unsaved(state(&["arena", "maze"]));
    assert_eq!(server.save(&mut registry, "token-a", 7 * SECOND), Ok(()));
    let id = server.id.clone();
    assert_eq!(id.len(), 32);
    assert!(id.chars().all(|c| c.is_ascii_digit() || ('a'..='f').contains(&c)));
    let mut again = unsaved(state(&["arena"]));
    assert_eq!(again.save(&mut registry, "token-a", 9 * SECOND), Ok(()));
    assert_eq!(again.id, id);
    assert_eq!(registry.servers.len(), 1);
    assert_eq!(registry.infos.len(), 1);
    assert_eq!(registry.games.len(), 1);
    assert_eq!(registry.servers[0].last_seen, 9 * SECOND);
}

#[test]
fn a_known_server_without_a_state_publishes_again() {
    let mut registry = Registry::new();
    let row = Server { id: 1, last_seen: 0, token: "token-a".to_string(), created_at: 0, updated_at: None };
    Server::create(&mut registry, row).unwrap();
    let mut server = unsaved(state(&["arena"]));
    assert_eq!(server.save_with_ids(&mut registry, "token-a", 5 * SECOND, 2, 10, &vec![100]), Ok(()));
    assert_eq!(server.id, "00000000000000000000000000000001");
    assert_eq!(server.last_seen, "1970-01-01 00:00:05");
    assert_eq!(
        registry.servers,
        vec![Server {
            id: 1,
            last_seen: 5 * SECOND,
            token: "token-a".to_string(),
            created_at: 0,
            updated_at: None,
        }]
    );
    assert_eq!(registry.infos.len(), 1);
    assert_eq!(registry.infos[0].id, 10);
    assert_eq!(registry.infos[0].server_id, 1);
    assert_eq!(registry.infos[0].name, "A");
    assert_eq!(registry.games.len(), 1);
    assert_eq!(registry.games[0].name, "arena");
    assert_eq!(registry.games[0].game_info_id, 10);
    let shown = GameServer::try_from(&registry, registry.servers[0].clone(), 5 * SECOND).unwrap();
    assert_eq!(shown.info, state(&["arena"]));
}

#[test]
fn a_publish_that_cannot_store_a_row_changes_nothing() {
    let mut registry = Registry::new();
    let mut first = unsaved(state(&["arena"]));
    first.save_with_ids(&mut registry, "token-a", 7 * SECOND, 1, 10, &vec![100]).unwrap();
    let before = registry.clone();

    let mut clash = unsaved(state(&["arena"]));
    assert_eq!(
        clash.save_with_ids(&mut registry, "token-b", 8 * SECOND, 1, 11, &vec![101]),
        Err(ApiError::Conflict)
    );
    assert_eq!(
        clash.save_with_ids(&mut registry, "token-b", 8 * SECOND, 2, 10, &vec![101]),
        Err(ApiError::Conflict)
    );
    assert_eq!(
        clash.save_with_ids(&mut registry, "token-b", 8 * SECOND, 2, 11, &vec![100]),
        Err(ApiError::Conflict)
    );
    let mut two = unsaved(state(&["arena", "maze"]));
    assert_eq!(
        two.save_with_ids(&mut registry, "token-a", 8 * SECOND, 2, 11, &vec![101, 101]),
        Err(ApiError::Conflict)
    );
    assert_eq!(registry.servers, before.servers);
    assert_eq!(registry.infos, before.infos);
    assert_eq!(registry.games, before.games);
    // The identifiers of the state that is replaced are free again.
    assert_eq!(two.save_with_ids(&mut registry, "token-a", 8 * SECOND, 2, 10, &vec![100, 101]), Ok(()));
}

#[test]
fn capacities_above_the_signed_range_survive_storage() {
    let mut registry = Registry::new();
    let mut big = state(&["arena"]);
    big.max_clients = Some(4_000_000_000);
    big.games[0].rooms = u32::MAX;
    big.games[0].max_rooms = Some(3_000_000_000);
    let mut server = unsaved(big);
    server.save_with_ids(&mut registry, "token-a", 0, 1, 10, &vec![100]).unwrap();
    assert_eq!(registry.infos[0].max_clients, Some(-294_967_296));
    assert_eq!(registry.games[0].rooms, -1);
    let row = registry.servers[0].clone();
    let shown = GameServer::try_from(&registry, row, 0).unwrap();
    assert_eq!(shown.info.max_clients, Some(4_000_000_000));
    assert_eq!(shown.info.games[0].rooms, u32::MAX);
    assert_eq!(shown.info.games[0].max_rooms, Some(3_000_000_000));
    assert_eq!(GameServerEntry::from(registry.games[0].clone()), shown.info.games[0]);
    assert_eq!(GameServerEntry::from(&registry.games[0]), shown.info.games[0]);
}

#[test]
fn only_listed_tokens_may_publish() {
    let mut registry = Registry::new();
    let store = allow_list();
    assert_eq!(update(&store, &mut registry, None, state(&["arena"]), 0), Reply::Forbidden);
    assert_eq!(
        update(&store, &mut registry, Some("token-c".to_string()), state(&["arena"]), 0),
        Reply::Forbidden
    );
    assert!(registry.servers.is_empty());
    let reply = update(&store, &mut registry, Some("token-a".to_string()), state(&["arena"]), 0);
    assert_eq!(reply.status(), 200);
    match reply {
        Reply::Success(body) => {
            assert_eq!(body.id.len(), 32);
            assert_eq!(registry.servers.len(), 1);
            assert_eq!(registry.servers[0].token, "token-a");
            assert_eq!(info(&registry, &body.id, 0).status(), 200);
        },
        other => panic!("unexpected reply {:?}", other),
    }
    assert_eq!(Reply::<u8>::Forbidden.status(), 403);
}

#[test]
fn a_publish_that_fails_is_the_servers_fault() {
    // Two servers under one token: the row of the first cannot be stored again.
    let mut registry = Registry::new();
    for id in [1, 2] {
        registry.servers.push(Server {
            id,
            last_seen: 0,
            token: "token-a".to_string(),
            created_at: 0,
            updated_at: None,
        });
    }
    let reply = update(&allow_list(), &mut registry, Some("token-a".to_string()), state(&["arena"]), 7);
    assert_eq!(reply, Reply::InternalServerError(ApiError::Conflict));
    assert_eq!(reply.status(), 500);
    assert_eq!(registry.servers.len(), 2);
    assert_eq!(registry.servers[0].last_seen, 0);
    assert!(registry.infos.is_empty());
}

#[test]
fn a_listed_server_without_a_state_publishes_through_the_interface() {
    let mut registry = Registry::new();
    let row = Server { id: 1, last_seen: 0, token: "token-a".to_string(), created_at: 0, updated_at: None };
    Server::create(&mut registry, row).unwrap();
    let reply = update(&allow_list(), &mut registry, Some("token-a".to_string()), state(&["arena"]), 9);
    assert_eq!(
        reply,
        Reply::Success(pronto::v1::model::UpdateResponse {
            id: "00000000000000000000000000000001".to_string()
        })
    );
    assert_eq!(registry.servers.len(), 1);
    assert_eq!(registry.servers[0].last_seen, 9);
    assert_eq!(registry.infos.len(), 1);
    assert_eq!(registry.games.len(), 1);
}

#[test]
fn a_server_is_shown_with_its_state_and_the_age_of_its_heartbeat() {
    let mut registry = Registry::new();
    let mut server = unsaved(state(&["arena", "maze"]));
    server.save_with_ids(&mut registry, "token-a", 7 * SECOND, 0xabc, 10, &vec![100, 101]).unwrap();
    let expected = GameServer {
        id: "00000000000000000000000000000abc".to_string(),
        last_seen: "1970-01-01 00:00:07".to_string(),
        last_seen_ms: 2_500,
        info: state(&["arena", "maze"]),
    };
    let now = 7 * SECOND + 2_500_999;
    assert_eq!(info(&registry, "00000000000000000000000000000abc", now), Reply::Success(expected));
    assert_eq!(info(&registry, "00000000-0000-0000-0000-000000000ABC", now).status(), 200);
    assert_eq!(info(&registry, "urn:uuid:00000000-0000-0000-0000-000000000abc", now).status(), 200);
    assert_eq!(info_by_id(&registry, Some(0xabc), now).status(), 200);
}

#[test]
fn an_unknown_or_malformed_identifier_is_not_found() {
    let mut registry = Registry::new();
    let mut server = unsaved(state(&["arena"]));
    server.save_with_ids(&mut registry, "token-a", 0, 1, 10, &vec![100]).unwrap();
    assert_eq!(info(&registry, "00000000000000000000000000000002", 0), Reply::NotFound);
    assert_eq!(info(&registry, "1", 0), Reply::NotFound);
    assert_eq!(info(&registry, "", 0), Reply::NotFound);
    assert_eq!(info(&registry, "0000000000000000000000000000000g", 0), Reply::NotFound);
    assert_eq!(info_by_id(&registry, None, 0), Reply::NotFound);
    assert_eq!(info(&registry, "zz", 0).status(), 404);
}

#[test]
fn a_server_without_a_state_cannot_be_shown() {
    let mut registry = Registry::new();
    let row = Server { id: 1, last_seen: 0, token: "token-a".to_string(), created_at: 0, updated_at: None };
    Server::create(&mut registry, row.clone()).unwrap();
    assert_eq!(GameServer::try_from(&registry, row, 0), Err(ApiError::NotFound));
    assert_eq!(
        info(&registry, "00000000000000000000000000000001", 0),
        Reply::InternalServerError(ApiError::NotFound)
    );
}

#[test]
fn a_listing_shows_what_its_flags_admit() {
    let mut registry = Registry::new();
    let mut developer = state(&["arena"]);
    developer.developer = true;
    let mut fallback = state(&["arena"]);
    fallback.fallback = true;
    let mut full = state(&["arena"]);
    full.full = true;
    unsaved(developer).save_with_ids(&mut registry, "dev", 0, 1, 11, &vec![101]).unwrap();
    unsaved(fallback).save_with_ids(&mut registry, "fallback", 0, 2, 12, &vec![102]).unwrap();
    unsaved(full).save_with_ids(&mut registry, "full", 0, 3, 13, &vec![103]).unwrap();
    unsaved(state(&["arena"])).save_with_ids(&mut registry, "plain", 0, 4, 14, &vec![104]).unwrap();

    let ids = |query: ListQuery, now: i64| -> Vec<String> {
        match list(&registry, &query, now) {
            Reply::Success(found) => found.0.into_iter().map(|server| server.id[31..].to_string()).collect(),
            other => panic!("unexpected reply {:?}", other),
        }
    };
    let none = ListQuery { include_dev: None, include_fallback: None, exclude_full: None };
    assert_eq!(ids(none, 0), vec!["3", "4"]);
    // A listing shows stale servers too.
    assert_eq!(ids(none, 3_600 * SECOND), vec!["3", "4"]);
    let no_full = ListQuery { include_dev: Some(false), include_fallback: None, exclude_full: Some(true) };
    assert_eq!(ids(no_full, 0), vec!["4"]);
    let all = ListQuery { include_dev: Some(true), include_fallback: Some(true), exclude_full: Some(false) };
    assert_eq!(ids(all, 0), vec!["1", "2", "3", "4"]);
    let with_dev = ListQuery { include_dev: Some(true), include_fallback: None, exclude_full: Some(true) };
    assert_eq!(ids(with_dev, 0), vec!["1", "4"]);
}

#[test]
fn a_publish_needs_one_fresh_identifier_for_each_game() {
    let mut registry = Registry::new();
    let mut server = unsaved(state(&["arena", "maze"]));
    assert_eq!(
        server.save_with_ids(&mut registry, "token-a", 0, 1, 10, &vec![100]),
        Err(ApiError::Conflict)
    );
    assert_eq!(
        server.save_with_ids(&mut registry, "token-a", 0, 1, 10, &vec![100, 101, 102]),
        Err(ApiError::Conflict)
    );
    assert!(registry.servers.is_empty());
    assert_eq!(server.save_with_ids(&mut registry, "token-a", 0, 1, 10, &vec![100, 101]), Ok(()));
}

#[test]
fn a_request_may_publish_with_a_listed_token_only() {
    let store = allow_list();
    assert!(may_publish(&store, &Some("token-a".to_string())));
    assert!(may_publish(&store, &Some("token-b".to_string())));
    assert!(!may_publish(&store, &Some("token-c".to_string())));
    assert!(!may_publish(&store, &Some(String::new())));
    assert!(!may_publish(&store, &None));
    assert!(!may_publish(&Vec::new(), &Some("token-a".to_string())));
    // A failure of a publish has the status of a server fault, whatever it names.
    assert_eq!(Reply::<u8>::InternalServerError(ApiError::NotFound).status(), 500);
    assert_eq!(Reply::<u8>::InternalServerError(ApiError::Conflict).status(), 500);
    assert_eq!(Reply::<u8>::InternalServerError(ApiError::Exhausted).status(), 500);
}
