use h2m_favorites::cli::Filters;
use h2m_favorites::commands::filter::{
    build_favorites, favorites_json, favorites_path, instance_url, limit_note, list_entries,
    select_favorites, serialize_json, server_limit, sort_by_population, Favorites,
    DEFAULT_SERVER_CAP,
};
use h2m_favorites::utils::json_data::ServerInfo;

fn server(id: i64, players: u8) -> ServerInfo {
    ServerInfo {
        id,
        ip: format!("10.0.{}.{}", id / 256, id % 256),
        port: 27016,
        hostname: format!("server {id}"),
        clientnum: players,
        maxclientnum: 18,
        game: "H2M".to_string(),
    }
}

fn ids(servers: &[ServerInfo]) -> Vec<i64> {
    servers.iter().map(|server| server.id).collect()
}

#[test]
fn sort_is_ascending_and_keeps_ties_in_order() {
    let servers = vec![server(1, 5), server(2, 3), server(3, 5), server(4, 0), server(5, 3)];
    assert_eq!(ids(&sort_by_population(servers)), vec![4, 2, 5, 1, 3]);
    assert_eq!(sort_by_population(Vec::new()), Vec::new());
}

#[test]
fn few_servers_are_all_taken_last_first() {
    let servers = vec![server(1, 5), server(2, 9), server(3, 1)];
    assert_eq!(ids(&select_favorites(servers.clone(), 3)), vec![3, 2, 1]);
    assert_eq!(ids(&select_favorites(servers, 10)), vec![3, 2, 1]);
}

#[test]
fn many_servers_are_cut_to_the_fullest() {
    let servers = vec![server(1, 5), server(2, 9), server(3, 1), server(4, 7), server(5, 0)];
    assert_eq!(ids(&select_favorites(servers.clone(), 2)), vec![2, 4]);
    assert_eq!(ids(&select_favorites(servers.clone(), 4)), vec![2, 4, 1, 3]);
    assert_eq!(ids(&select_favorites(servers, 1)), vec![2]);
}

#[test]
fn limit_of_zero_takes_none() {
    let servers = vec![server(1, 5), server(2, 9)];
    assert_eq!(select_favorites(servers.clone(), 0), Vec::new());
    assert_eq!(
        build_favorites(servers, 0),
        Favorites { json: "[]".to_string(), ip_collected: 0 }
    );
    assert_eq!(select_favorites(Vec::new(), 0), Vec::new());
}

#[test]
fn one_hundred_of_one_hundred_and_fifty() {
    // populations 0..=149, in an order that is neither ascending nor descending
    let servers: Vec<ServerInfo> =
        (0..150).map(|i: i64| server(i, ((i * 37) % 150) as u8)).collect();
    let favorites = build_favorites(servers.clone(), 100);
    assert_eq!(favorites.ip_collected, 100);

    let picked = select_favorites(servers.clone(), 100);
    assert_eq!(picked.len(), 100);
    let populations: Vec<u8> = picked.iter().map(|server| server.clientnum).collect();
    let expected: Vec<u8> = (50..150).rev().map(|players: i32| players as u8).collect();
    assert_eq!(populations, expected);
    for left in servers.iter().filter(|server| !picked.contains(server)) {
        assert!(left.clientnum < 50);
    }

    let json = favorites.json;
    assert!(json.starts_with("[\""));
    assert!(json.ends_with("\"]"));
    assert!(!json.contains(",]"));
    assert_eq!(json.matches(',').count(), 99);
    assert_eq!(json.matches('"').count(), 200);
    let body = &json[1..json.len() - 1];
    let entries: Vec<&str> = body.split(',').collect();
    assert_eq!(entries.len(), 100);
    for (entry, server) in entries.iter().zip(picked.iter()) {
        assert_eq!(*entry, format!("\"{}:{}\"", server.ip, server.port));
    }
}

#[test]
fn favorites_file_text() {
    let servers = vec![server(1, 5), server(2, 9), server(3, 1)];
    assert_eq!(
        build_favorites(servers.clone(), 2),
        Favorites {
            json: "[\"10.0.0.2:27016\",\"10.0.0.1:27016\"]".to_string(),
            ip_collected: 2,
        }
    );
    assert_eq!(
        build_favorites(servers, 100).json,
        "[\"10.0.0.3:27016\",\"10.0.0.2:27016\",\"10.0.0.1:27016\"]"
    );
    assert_eq!(build_favorites(Vec::new(), 100), Favorites { json: "[]".to_string(), ip_collected: 0 });
}

#[test]
fn entries_are_quoted_and_followed_by_a_comma() {
    let mut one = server(1, 0);
    one.ip = "2001:db8::1".to_string();
    one.port = 0;
    let mut two = server(2, 0);
    two.port = 4294967295;
    assert_eq!(list_entries(&vec![one.clone(), two.clone()]), "\"2001:db8::1:0\",\"10.0.0.2:4294967295\",");
    assert_eq!(list_entries(&Vec::new()), "");
    assert_eq!(favorites_json(&vec![one, two]), "[\"2001:db8::1:0\",\"10.0.0.2:4294967295\"]");
    assert_eq!(favorites_json(&Vec::new()), "[]");
}

#[test]
fn array_drops_one_trailing_comma() {
    assert_eq!(serialize_json("\"a\",\"b\",".to_string()), "[\"a\",\"b\"]");
    assert_eq!(serialize_json("\"a\"".to_string()), "[\"a\"]");
    assert_eq!(serialize_json(String::new()), "[]");
    assert_eq!(serialize_json(",".to_string()), "[]");
    assert_eq!(serialize_json("x,,".to_string()), "[x,]");
}

#[test]
fn limit_defaults_to_the_cap() {
    assert_eq!(DEFAULT_SERVER_CAP, 100);
    assert_eq!(server_limit(&Filters::default()), 100);
    assert_eq!(server_limit(&Filters { limit: Some(7), ..Filters::default() }), 7);
    assert_eq!(server_limit(&Filters { limit: Some(0), ..Filters::default() }), 0);
}

#[test]
fn note_at_and_above_the_cap() {
    assert_eq!(limit_note(99), None);
    assert_eq!(
        limit_note(100),
        Some("NOTE: Currently the in game server browser breaks when you add more than 100 servers to favorites")
    );
    assert!(limit_note(usize::MAX).is_some());
    assert!(limit_note(0).is_none());
}

#[test]
fn fixed_paths() {
    assert_eq!(favorites_path(), "players2/favourites.json");
    assert_eq!(instance_url(), "https://master.iw4.zip/instance");
}
