use pronto::api_error::ApiError;
use pronto::db::model::{FastToken, Registry, Server, ServerGame, ServerInfo};

fn server(id: u128, token: &str) -> Server {
    Server { id, last_seen: 10, token: token.to_string(), created_at: 10, updated_at: None }
}

fn info(id: u128, server_id: u128) -> ServerInfo {
    ServerInfo {
        id,
        name: format!("info {}", id),
        uri: format!("host{}.example", id),
        developer: false,
        fallback: false,
        full: false,
        maintenance: false,
        max_clients: Some(10),
        server_id,
        created_at: 10,
        updated_at: None,
    }
}

fn game(id: u128, info_id: u128, name: &str) -> ServerGame {
    ServerGame {
        id,
        name: name.to_string(),
        uri: format!("host.example/{}", name),
        rooms: 1,
        max_rooms: None,
        clients: 2,
        game_info_id: info_id,
        created_at: 10,
        updated_at: None,
    }
}

fn fast_token(id: u128, code: &str, created_at: i64) -> FastToken {
    FastToken {
        id,
        token: code.to_string(),
        server_id: 1,
        game: "arena".to_string(),
        lobby: "l1".to_string(),
        created_at,
        updated_at: None,
    }
}

#[test]
fn a_new_registry_is_empty() {
    let registry = Registry::new();
    assert_eq!(Server::find_all(&registry), Ok(vec![]));
    assert_eq!(ServerInfo::find_all(&registry), Ok(vec![]));
    assert_eq!(ServerGame::find_all(&registry), Ok(vec![]));
    assert_eq!(FastToken::find_all(&registry), Ok(vec![]));
}

#[test]
fn servers_are_found_by_id_and_by_token() {
    let mut registry = Registry::new();
    assert_eq!(Server::create(&mut registry, server(1, "alpha")), Ok(server(1, "alpha")));
    assert_eq!(Server::create(&mut registry, server(2, "beta")), Ok(server(2, "beta")));
    assert_eq!(Server::find_by_id(&registry, 2), Ok(server(2, "beta")));
    assert_eq!(Server::find_by_token(&registry, "alpha"), Ok(server(1, "alpha")));
    assert_eq!(Server::find_by_id(&registry, 3), Err(ApiError::NotFound));
    assert_eq!(Server::find_by_token(&registry, "gamma"), Err(ApiError::NotFound));
    assert_eq!(Server::find_all(&registry), Ok(vec![server(1, "alpha"), server(2, "beta")]));
}

#[test]
fn a_server_needs_a_new_id_and_a_new_token() {
    let mut registry = Registry::new();
    Server::create(&mut registry, server(1, "alpha")).unwrap();
    assert_eq!(Server::create(&mut registry, server(1, "beta")), Err(ApiError::Conflict));
    assert_eq!(Server::create(&mut registry, server(2, "alpha")), Err(ApiError::Conflict));
    assert_eq!(registry.servers, vec![server(1, "alpha")]);
}

#[test]
fn updating_a_server_replaces_its_row() {
    let mut registry = Registry::new();
    Server::create(&mut registry, server(1, "alpha")).unwrap();
    Server::create(&mut registry, server(2, "beta")).unwrap();
    let mut changed = server(1, "alpha");
    changed.last_seen = 99;
    assert_eq!(Server::update(&mut registry, changed.clone()), Ok(changed.clone()));
    assert_eq!(registry.servers, vec![changed, server(2, "beta")]);
    assert_eq!(Server::update(&mut registry, server(3, "gamma")), Err(ApiError::NotFound));
    assert_eq!(Server::update(&mut registry, server(1, "beta")), Err(ApiError::Conflict));
    assert_eq!(registry.servers.len(), 2);
}

#[test]
fn deleting_a_server_says_how_many_rows_went() {
    let mut registry = Registry::new();
    Server::create(&mut registry, server(1, "alpha")).unwrap();
    Server::create(&mut registry, server(2, "beta")).unwrap();
    assert_eq!(Server::delete(&mut registry, 1), Ok(1));
    assert_eq!(Server::delete(&mut registry, 1), Ok(0));
    assert_eq!(registry.servers, vec![server(2, "beta")]);
}

#[test]
fn a_server_has_at_most_one_published_state() {
    let mut registry = Registry::new();
    assert_eq!(ServerInfo::create(&mut registry, info(10, 1)), Ok(info(10, 1)));
    assert_eq!(ServerInfo::create(&mut registry, info(11, 1)), Err(ApiError::Conflict));
    assert_eq!(ServerInfo::create(&mut registry, info(10, 2)), Err(ApiError::Conflict));
    assert_eq!(ServerInfo::create(&mut registry, info(11, 2)), Ok(info(11, 2)));
    assert_eq!(ServerInfo::find_by_server(&registry, 2), Ok(info(11, 2)));
    assert_eq!(ServerInfo::find_by_server(&registry, 3), Err(ApiError::NotFound));
    assert_eq!(ServerInfo::update(&mut registry, info(11, 1)), Err(ApiError::Conflict));
    assert_eq!(ServerInfo::update(&mut registry, info(12, 3)), Err(ApiError::NotFound));
    let mut renamed = info(11, 2);
    renamed.name = "renamed".to_string();
    assert_eq!(ServerInfo::update(&mut registry, renamed.clone()), Ok(renamed.clone()));
    assert_eq!(registry.infos, vec![info(10, 1), renamed]);
}

#[test]
fn states_are_filtered_by_their_flags() {
    let mut registry = Registry::new();
    let mut developer = info(10, 1);
    developer.developer = true;
    let mut fallback = info(11, 2);
    fallback.fallback = true;
    let mut full = info(12, 3);
    full.full = true;
    let plain = info(13, 4);
    for row in [developer.clone(), fallback.clone(), full.clone(), plain.clone()] {
        ServerInfo::create(&mut registry, row).unwrap();
    }
    assert_eq!(
        ServerInfo::find_by_filter(&registry, false, false, false),
        Ok(vec![full.clone(), plain.clone()])
    );
    assert_eq!(ServerInfo::find_by_filter(&registry, false, false, true), Ok(vec![plain.clone()]));
    assert_eq!(
        ServerInfo::find_by_filter(&registry, true, false, true),
        Ok(vec![developer.clone(), plain.clone()])
    );
    assert_eq!(
        ServerInfo::find_by_filter(&registry, true, true, false),
        Ok(vec![developer, fallback, full, plain])
    );
}

#[test]
fn a_listing_joins_states_with_their_servers() {
    let mut registry = Registry::new();
    Server::create(&mut registry, server(1, "alpha")).unwrap();
    Server::create(&mut registry, server(2, "beta")).unwrap();
    Server::create(&mut registry, server(3, "gamma")).unwrap();
    let mut developer = info(11, 2);
    developer.developer = true;
    ServerInfo::create(&mut registry, info(12, 3)).unwrap();
    ServerInfo::create(&mut registry, developer.clone()).unwrap();
    ServerInfo::create(&mut registry, info(14, 4)).unwrap();
    assert_eq!(
        Server::find_by_filter(&registry, false, false, false),
        Ok(vec![(server(3, "gamma"), info(12, 3))])
    );
    assert_eq!(
        Server::find_by_filter(&registry, true, false, false),
        Ok(vec![(server(3, "gamma"), info(12, 3)), (server(2, "beta"), developer)])
    );
}

#[test]
fn a_game_needs_a_new_id_and_a_stored_state() {
    let mut registry = Registry::new();
    assert_eq!(ServerGame::create(&mut registry, game(100, 10, "arena")), Err(ApiError::Conflict));
    ServerInfo::create(&mut registry, info(10, 1)).unwrap();
    assert_eq!(
        ServerGame::create(&mut registry, game(100, 10, "arena")),
        Ok(game(100, 10, "arena"))
    );
    assert_eq!(ServerGame::create(&mut registry, game(100, 10, "maze")), Err(ApiError::Conflict));
    assert_eq!(ServerGame::find_by_id(&registry, 100), Ok(game(100, 10, "arena")));
    assert_eq!(ServerGame::find_by_id(&registry, 101), Err(ApiError::NotFound));
    assert_eq!(ServerGame::update(&mut registry, game(100, 10, "maze")), Ok(game(100, 10, "maze")));
    assert_eq!(ServerGame::update(&mut registry, game(100, 11, "maze")), Err(ApiError::Conflict));
    assert_eq!(ServerGame::update(&mut registry, game(101, 10, "maze")), Err(ApiError::NotFound));
    assert_eq!(registry.games, vec![game(100, 10, "maze")]);
}

#[test]
fn games_are_found_and_deleted_by_their_state() {
    let mut registry = Registry::new();
    ServerInfo::create(&mut registry, info(10, 1)).unwrap();
    ServerInfo::create(&mut registry, info(11, 2)).unwrap();
    ServerGame::create(&mut registry, game(100, 10, "arena")).unwrap();
    ServerGame::create(&mut registry, game(101, 11, "arena")).unwrap();
    ServerGame::create(&mut registry, game(102, 10, "maze")).unwrap();
    assert_eq!(
        ServerGame::find_by_info(&registry, 10),
        Ok(vec![game(100, 10, "arena"), game(102, 10, "maze")])
    );
    assert_eq!(ServerGame::find_by_info(&registry, 12), Ok(vec![]));
    assert_eq!(ServerInfo::delete(&mut registry, 10), Err(ApiError::Conflict));
    assert_eq!(ServerGame::delete_by_info(&mut registry, 10), Ok(2));
    assert_eq!(registry.games, vec![game(101, 11, "arena")]);
    assert_eq!(ServerInfo::delete(&mut registry, 10), Ok(1));
    assert_eq!(registry.infos, vec![info(11, 2)]);
    assert_eq!(ServerGame::delete(&mut registry, 101), Ok(1));
    assert_eq!(ServerGame::delete(&mut registry, 101), Ok(0));
    assert!(registry.games.is_empty());
}

#[test]
fn fast_tokens_are_found_by_code_and_age() {
    let mut registry = Registry::new();
    FastToken::create(&mut registry, fast_token(1, "ABCD", 100)).unwrap();
    FastToken::create(&mut registry, fast_token(2, "WXYZ", 200)).unwrap();
    let abcd = "ABCD".to_string();
    assert_eq!(FastToken::find_by_id(&registry, 2), Ok(fast_token(2, "WXYZ", 200)));
    assert_eq!(FastToken::find_by_id(&registry, 3), Err(ApiError::NotFound));
    assert_eq!(FastToken::find_by_token(&registry, &abcd), Ok(fast_token(1, "ABCD", 100)));
    assert_eq!(FastToken::find_by_token(&registry, &"abcd".to_string()), Err(ApiError::NotFound));
    assert_eq!(
        FastToken::find_by_token_checked(&registry, &abcd, 99),
        Ok(fast_token(1, "ABCD", 100))
    );
    assert_eq!(FastToken::find_by_token_checked(&registry, &abcd, 100), Err(ApiError::NotFound));
}

#[test]
fn tokens_with_one_code_lie_twenty_minutes_apart() {
    let mut registry = Registry::new();
    let window: i64 = 1_200_000_000;
    FastToken::create(&mut registry, fast_token(1, "ABCD", window)).unwrap();
    assert_eq!(
        FastToken::create(&mut registry, fast_token(2, "ABCD", 2 * window - 1)),
        Err(ApiError::Conflict)
    );
    assert_eq!(FastToken::create(&mut registry, fast_token(2, "ABCD", 1)), Err(ApiError::Conflict));
    assert_eq!(
        FastToken::create(&mut registry, fast_token(1, "WXYZ", window)),
        Err(ApiError::Conflict)
    );
    assert_eq!(
        FastToken::create(&mut registry, fast_token(2, "ABCD", 2 * window)),
        Ok(fast_token(2, "ABCD", 2 * window))
    );
    assert_eq!(FastToken::create(&mut registry, fast_token(3, "ABCD", 0)), Ok(fast_token(3, "ABCD", 0)));
    assert_eq!(
        FastToken::update(&mut registry, fast_token(3, "ABCD", 1)),
        Err(ApiError::Conflict)
    );
    assert_eq!(
        FastToken::update(&mut registry, fast_token(3, "EFGH", 1)),
        Ok(fast_token(3, "EFGH", 1))
    );
    assert_eq!(FastToken::update(&mut registry, fast_token(4, "EFGH", 1)), Err(ApiError::NotFound));
    assert_eq!(FastToken::delete(&mut registry, 1), Ok(1));
    assert_eq!(registry.fast_tokens, vec![fast_token(2, "ABCD", 2 * window), fast_token(3, "EFGH", 1)]);
}

#[test]
fn a_copy_of_a_registry_holds_the_same_rows() {
    let mut registry = Registry::new();
    Server::create(&mut registry, server(1, "alpha")).unwrap();
    ServerInfo::create(&mut registry, info(10, 1)).unwrap();
    ServerGame::create(&mut registry, game(100, 10, "arena")).unwrap();
    FastToken::create(&mut registry, fast_token(1, "ABCD", 100)).unwrap();
    let copy = registry.clone();
    assert_eq!(copy.servers, registry.servers);
    assert_eq!(copy.infos, registry.infos);
    assert_eq!(copy.games, registry.games);
    assert_eq!(copy.fast_tokens, registry.fast_tokens);
}

#[test]
fn every_failure_has_its_text_and_names_its_status() {
    assert_eq!(ApiError::NotFound.message(), "record not found");
    assert_eq!(ApiError::Conflict.message(), "record already exists");
    assert_eq!(ApiError::Exhausted.message(), "no free fast token");
    assert_eq!(ApiError::NotFound.status_code(), 404);
    assert_eq!(ApiError::Conflict.status_code(), 409);
    assert_eq!(ApiError::Exhausted.status_code(), 503);
}
