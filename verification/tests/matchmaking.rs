use pronto::db::model::{Registry, Server};
use pronto::v1::model::{GameServer, GameServerEntry, GameServerInfo, NewRequest, NewResponse};
use pronto::v1::routes::{candidates, find_server, find_server_for_request, new, tiers, Reply};

const SECOND: i64 = 1_000_000;

fn entry(host: &str, name: &str) -> GameServerEntry {
    GameServerEntry {
        name: name.to_string(),
        uri: format!("{}.example/{}", host, name),
        rooms: 1,
        max_rooms: None,
        clients: 0,
    }
}

fn state(host: &str, games: &[&str]) -> GameServerInfo {
    GameServerInfo {
        name: host.to_uppercase(),
        uri: format!("{}.example", host),
        developer: false,
        fallback: false,
        full: false,
        maintenance: false,
        max_clients: Some(10),
        games: games.iter().map(|name| entry(host, name)).collect(),
    }
}

/// Publishes `info` at `now` as the server with the given number.
fn publish(registry: &mut Registry, number: u128, info: GameServerInfo, now: i64) -> String {
    let ids: Vec<u128> = (0..info.games.len() as u128).map(|k| 1000 * number + k).collect();
    let mut server = GameServer { id: String::new(), last_seen: String::new(), last_seen_ms: 0, info };
    server
        .save_with_ids(registry, &format!("token-{}", number), now, number, 100 + number, &ids)
        .unwrap();
    server.id
}

fn request(game: &str) -> NewRequest {
    NewRequest { game: game.to_string(), developer: None, fallback: None, ignore: None }
}

fn id_of(found: Option<GameServer>) -> Option<String> {
    found.map(|server| server.id[31..].to_string())
}

#[test]
fn a_published_server_is_matched_to_a_client() {
    let mut registry = Registry::new();
    let now = 1_700_000_000 * SECOND;
    let id = publish(&mut registry, 1, state("a", &["arena"]), now);
    assert_eq!(
        new(&registry, request("arena"), now),
        Reply::Success(NewResponse {
            id,
            api_uri: "a.example".to_string(),
            game_uri: "a.example/arena".to_string(),
        })
    );
    assert_eq!(new(&registry, request("arena"), now).status(), 200);
}

#[test]
fn a_server_in_maintenance_is_not_matched() {
    let mut registry = Registry::new();
    let now = 1_700_000_000 * SECOND;
    let mut info = state("a", &["arena"]);
    info.maintenance = true;
    publish(&mut registry, 1, info, now);
    assert_eq!(new(&registry, request("arena"), now), Reply::NotFound);
    assert_eq!(new(&registry, request("arena"), now).status(), 404);
}

#[test]
fn a_game_that_nobody_offers_is_not_found() {
    let mut registry = Registry::new();
    publish(&mut registry, 1, state("a", &["arena"]), 0);
    assert_eq!(new(&registry, request("maze"), 0), Reply::NotFound);
    assert_eq!(new(&registry, request("Arena"), 0), Reply::NotFound);
    assert_eq!(new(&Registry::new(), request("arena"), 0), Reply::NotFound);
}

#[test]
fn a_server_is_live_for_less_than_a_minute() {
    let mut registry = Registry::new();
    publish(&mut registry, 1, state("a", &["arena"]), 10 * SECOND);
    let found = find_server(&registry, "arena", false, false, &vec![], 70 * SECOND - 1);
    assert_eq!(found.map(|server| server.last_seen_ms), Some(59_999));
    assert_eq!(find_server(&registry, "arena", false, false, &vec![], 70 * SECOND), None);
    assert_eq!(find_server(&registry, "arena", false, false, &vec![], 3_600 * SECOND), None);
    assert_eq!(new(&registry, request("arena"), 70 * SECOND), Reply::NotFound);
}

#[test]
fn a_stale_server_is_no_candidate_whatever_the_flags() {
    let mut registry = Registry::new();
    let mut number = 0;
    for developer in [false, true] {
        for fallback in [false, true] {
            for full in [false, true] {
                number += 1;
                let mut info = state("a", &["arena"]);
                info.developer = developer;
                info.fallback = fallback;
                info.full = full;
                publish(&mut registry, number, info, 0);
            }
        }
    }
    for developer in [false, true] {
        for fallback in [false, true] {
            for exclude_full in [false, true] {
                let live = candidates(&registry, developer, fallback, exclude_full, &vec![], 60 * SECOND - 1);
                assert!(!live.is_empty());
                let stale = candidates(&registry, developer, fallback, exclude_full, &vec![], 60 * SECOND);
                assert!(stale.is_empty());
            }
        }
    }
}

#[test]
fn candidates_have_the_flags_that_are_asked_for() {
    let mut registry = Registry::new();
    let mut number = 0;
    for developer in [false, true] {
        for fallback in [false, true] {
            for full in [false, true] {
                number += 1;
                let mut info = state("a", &["arena"]);
                info.developer = developer;
                info.fallback = fallback;
                info.full = full;
                publish(&mut registry, number, info, 0);
            }
        }
    }
    let ids = |developer: bool, fallback: bool, exclude_full: bool| -> Vec<u128> {
        candidates(&registry, developer, fallback, exclude_full, &vec![], 0)
            .into_iter()
            .map(|pair: (Server, _)| pair.0.id)
            .collect()
    };
    assert_eq!(ids(false, false, true), vec![1]);
    assert_eq!(ids(false, false, false), vec![1, 2]);
    assert_eq!(ids(false, true, true), vec![1, 3]);
    assert_eq!(ids(false, true, false), vec![1, 2, 3, 4]);
    assert_eq!(ids(true, false, true), vec![5]);
    assert_eq!(ids(true, true, false), vec![5, 6, 7, 8]);
}

#[test]
fn a_full_server_is_not_matched() {
    let mut registry = Registry::new();
    let mut info = state("a", &["arena"]);
    info.full = true;
    publish(&mut registry, 1, info, 0);
    assert_eq!(new(&registry, request("arena"), 0), Reply::NotFound);
    publish(&mut registry, 2, state("b", &["arena"]), 0);
    assert_eq!(id_of(find_server_for_request(&registry, &request("arena"), 0)), Some("2".to_string()));
}

#[test]
fn ignored_servers_are_passed_over() {
    let mut registry = Registry::new();
    let first = publish(&mut registry, 1, state("a", &["arena"]), 0);
    let second = publish(&mut registry, 2, state("b", &["arena"]), 0);
    let mut wanted = request("arena");
    assert_eq!(id_of(find_server_for_request(&registry, &wanted, 0)), Some("1".to_string()));
    wanted.ignore = Some(vec![first.clone()]);
    assert_eq!(id_of(find_server_for_request(&registry, &wanted, 0)), Some("2".to_string()));
    wanted.ignore = Some(vec![second.clone(), "no identifier".to_string(), first.clone()]);
    assert_eq!(find_server_for_request(&registry, &wanted, 0), None);
    wanted.ignore = Some(vec![first.to_uppercase().replace('1', "2")]);
    assert_eq!(id_of(find_server_for_request(&registry, &wanted, 0)), Some("1".to_string()));
    wanted.ignore = Some(vec![]);
    assert_eq!(id_of(find_server_for_request(&registry, &wanted, 0)), Some("1".to_string()));
}

#[test]
fn the_first_server_that_offers_the_game_is_taken() {
    let mut registry = Registry::new();
    publish(&mut registry, 1, state("a", &["maze"]), 0);
    publish(&mut registry, 2, state("b", &["maze", "arena"]), 0);
    publish(&mut registry, 3, state("c", &["arena"]), 0);
    assert_eq!(
        new(&registry, request("arena"), 0),
        Reply::Success(NewResponse {
            id: "00000000000000000000000000000002".to_string(),
            api_uri: "b.example".to_string(),
            game_uri: "b.example/arena".to_string(),
        })
    );
    // A server that republishes moves behind the others.
    publish(&mut registry, 2, state("b", &["maze", "arena"]), SECOND);
    assert_eq!(id_of(find_server_for_request(&registry, &request("arena"), SECOND)), Some("3".to_string()));
}

#[test]
fn developer_servers_come_first_where_they_are_asked_for() {
    let mut registry = Registry::new();
    publish(&mut registry, 1, state("a", &["arena"]), 0);
    let mut developer = state("d", &["arena"]);
    developer.developer = true;
    publish(&mut registry, 2, developer, 0);

    let mut wanted = request("arena");
    wanted.developer = Some(true);
    let found = find_server_for_request(&registry, &wanted, 0).unwrap();
    assert_eq!(found.id, "00000000000000000000000000000002");
    assert!(found.info.developer);
    assert!(!found.info.fallback);

    wanted.developer = Some(false);
    assert_eq!(id_of(find_server_for_request(&registry, &wanted, 0)), Some("1".to_string()));
    wanted.developer = None;
    assert_eq!(id_of(find_server_for_request(&registry, &wanted, 0)), Some("1".to_string()));
}

#[test]
fn fallback_servers_come_last() {
    let mut registry = Registry::new();
    let mut developer_fallback = state("a", &["arena"]);
    developer_fallback.developer = true;
    developer_fallback.fallback = true;
    let mut fallback = state("b", &["arena"]);
    fallback.fallback = true;
    publish(&mut registry, 1, fallback, 0);
    publish(&mut registry, 2, developer_fallback, 0);

    let mut wanted = request("arena");
    assert_eq!(id_of(find_server_for_request(&registry, &wanted, 0)), Some("1".to_string()));
    wanted.developer = Some(true);
    assert_eq!(id_of(find_server_for_request(&registry, &wanted, 0)), Some("2".to_string()));
    wanted.fallback = Some(false);
    assert_eq!(find_server_for_request(&registry, &wanted, 0), None);
    wanted.developer = Some(false);
    assert_eq!(find_server_for_request(&registry, &wanted, 0), None);

    publish(&mut registry, 3, state("c", &["arena"]), 0);
    wanted.fallback = Some(true);
    assert_eq!(id_of(find_server_for_request(&registry, &wanted, 0)), Some("3".to_string()));
    wanted.developer = Some(true);
    assert_eq!(id_of(find_server_for_request(&registry, &wanted, 0)), Some("2".to_string()));
}

#[test]
fn a_developer_search_without_fallback_ends_after_its_first_step() {
    let mut registry = Registry::new();
    publish(&mut registry, 1, state("a", &["arena"]), 0);
    let mut wanted = request("arena");
    wanted.developer = Some(true);
    wanted.fallback = Some(false);
    assert_eq!(find_server_for_request(&registry, &wanted, 0), None);
    wanted.fallback = Some(true);
    assert_eq!(id_of(find_server_for_request(&registry, &wanted, 0)), Some("1".to_string()));
}

#[test]
fn the_steps_of_a_search_are_fixed() {
    assert_eq!(tiers(true, true), vec![(true, false), (true, true), (false, false), (false, true)]);
    assert_eq!(tiers(true, false), vec![(true, false)]);
    assert_eq!(tiers(false, true), vec![(false, false), (false, true)]);
    assert_eq!(tiers(false, false), vec![(false, false)]);
}

#[test]
fn a_step_that_includes_fallback_servers_also_sees_the_others() {
    let mut registry = Registry::new();
    publish(&mut registry, 1, state("a", &["arena"]), 0);
    let mut fallback = state("b", &["arena"]);
    fallback.fallback = true;
    publish(&mut registry, 2, fallback, 0);
    assert_eq!(id_of(find_server(&registry, "arena", false, true, &vec![], 0)), Some("1".to_string()));
    assert_eq!(id_of(find_server(&registry, "arena", false, false, &vec![], 0)), Some("1".to_string()));
    assert_eq!(find_server(&registry, "arena", true, true, &vec![], 0), None);
}

#[test]
fn a_state_whose_server_is_gone_is_no_candidate() {
    let mut registry = Registry::new();
    publish(&mut registry, 1, state("a", &["arena"]), 0);
    Server::delete(&mut registry, 1).unwrap();
    assert_eq!(new(&registry, request("arena"), 0), Reply::NotFound);
    assert!(candidates(&registry, false, false, true, &vec![], 0).is_empty());
}

#[test]
fn a_server_without_a_state_is_passed_over() {
    let mut registry = Registry::new();
    let bare = Server { id: 1, last_seen: 0, token: "token-1".to_string(), created_at: 0, updated_at: None };
    Server::create(&mut registry, bare).unwrap();
    assert_eq!(new(&registry, request("arena"), 0), Reply::NotFound);
    publish(&mut registry, 2, state("b", &["arena"]), 0);
    assert_eq!(id_of(find_server_for_request(&registry, &request("arena"), 0)), Some("2".to_string()));
}
