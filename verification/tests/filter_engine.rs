use h2m_favorites::cli::{Filters, Region};
use h2m_favorites::commands::filter::{
    apply_criteria, collect_servers, filter_hosts, filter_server_list, lookup_requests,
    server_passes, Criteria, Filtered, Hoster, LookupRequest,
};
use h2m_favorites::utils::json_data::{HostData, ServerInfo};

fn server(id: i64, name: &str, players: u8, max: u8, game: &str) -> ServerInfo {
    ServerInfo {
        id,
        ip: format!("10.0.0.{id}"),
        port: 27000 + id as u32,
        hostname: name.to_string(),
        clientnum: players,
        maxclientnum: max,
        game: game.to_string(),
    }
}

fn host(ip: &str, servers: Vec<ServerInfo>) -> HostData {
    HostData {
        ip_address: ip.to_string(),
        webfront_url: format!("http://{ip}:1624"),
        servers,
    }
}

fn no_criteria() -> Criteria {
    Criteria { team_size_max: None, player_min: None, includes: None, excludes: None }
}

fn words(list: &[&str]) -> Option<Vec<String>> {
    Some(list.iter().map(|word| word.to_string()).collect())
}

fn directory() -> Vec<HostData> {
    vec![
        host(
            "1.1.1.1",
            vec![
                server(1, "^1Red^7Team TDM", 10, 18, "H2M"),
                server(2, "Snipers Only", 0, 12, "H2M"),
                server(3, "Other game", 9, 18, "IW4"),
            ],
        ),
        host("2.2.2.2", vec![server(4, "Plain", 3, 18, "COD")]),
        host("3.3.3.3", vec![]),
        host(
            "4.4.4.4",
            vec![server(5, "^5FFA ^2chaos", 17, 18, "H2M"), server(6, "tdm small", 4, 8, "H2M")],
        ),
    ]
}

fn ids(servers: &[ServerInfo]) -> Vec<i64> {
    servers.iter().map(|server| server.id).collect()
}

#[test]
fn game_mismatch_is_removed() {
    let criteria = no_criteria();
    assert!(server_passes(&server(1, "a", 0, 0, "H2M"), &criteria));
    assert!(!server_passes(&server(1, "a", 0, 0, "h2m"), &criteria));
    assert!(!server_passes(&server(1, "a", 0, 0, "H2"), &criteria));
    assert!(!server_passes(&server(1, "a", 0, 0, ""), &criteria));
}

#[test]
fn team_size_counts_both_sides() {
    let criteria = Criteria { team_size_max: Some(6), ..no_criteria() };
    assert!(server_passes(&server(1, "a", 0, 12, "H2M"), &criteria));
    assert!(!server_passes(&server(1, "a", 0, 13, "H2M"), &criteria));
    assert!(server_passes(&server(1, "a", 0, 0, "H2M"), &criteria));
}

#[test]
fn team_size_does_not_wrap() {
    let criteria = Criteria { team_size_max: Some(200), ..no_criteria() };
    assert!(server_passes(&server(1, "a", 0, 255, "H2M"), &criteria));
    let criteria = Criteria { team_size_max: Some(128), ..no_criteria() };
    assert!(server_passes(&server(1, "a", 0, 1, "H2M"), &criteria));
    assert!(server_passes(&server(1, "a", 0, 255, "H2M"), &criteria));
    let criteria = Criteria { team_size_max: Some(0), ..no_criteria() };
    assert!(!server_passes(&server(1, "a", 0, 1, "H2M"), &criteria));
    assert!(server_passes(&server(1, "a", 0, 0, "H2M"), &criteria));
}

#[test]
fn player_minimum_is_inclusive() {
    let criteria = Criteria { player_min: Some(4), ..no_criteria() };
    assert!(server_passes(&server(1, "a", 4, 18, "H2M"), &criteria));
    assert!(!server_passes(&server(1, "a", 3, 18, "H2M"), &criteria));
    assert!(server_passes(&server(1, "a", 255, 18, "H2M"), &criteria));
}

#[test]
fn includes_match_the_normal_form_of_the_name() {
    let criteria = Criteria { includes: words(&["redteam", "ffa"]), ..no_criteria() };
    assert!(server_passes(&server(1, "^1Red^7Team TDM", 0, 0, "H2M"), &criteria));
    assert!(server_passes(&server(1, "Big FFA", 0, 0, "H2M"), &criteria));
    assert!(!server_passes(&server(1, "Red Team", 0, 0, "H2M"), &criteria));
    let none = Criteria { includes: words(&[]), ..no_criteria() };
    assert!(!server_passes(&server(1, "anything", 0, 0, "H2M"), &none));
    let empty_word = Criteria { includes: words(&[""]), ..no_criteria() };
    assert!(server_passes(&server(1, "anything", 0, 0, "H2M"), &empty_word));
}

#[test]
fn excludes_drop_on_any_word() {
    let criteria = Criteria { excludes: words(&["snipers", "trickshot"]), ..no_criteria() };
    assert!(!server_passes(&server(1, "^3SNIPERS only", 0, 0, "H2M"), &criteria));
    assert!(!server_passes(&server(1, "TrickShot lobby", 0, 0, "H2M"), &criteria));
    assert!(server_passes(&server(1, "tdm", 0, 0, "H2M"), &criteria));
    let none = Criteria { excludes: words(&[]), ..no_criteria() };
    assert!(server_passes(&server(1, "anything", 0, 0, "H2M"), &none));
}

#[test]
fn criteria_words_are_compared_as_given() {
    // the words of a `Criteria` are in the form in which they are compared
    let criteria = Criteria { includes: words(&["TDM"]), ..no_criteria() };
    assert!(!server_passes(&server(1, "tdm", 0, 0, "H2M"), &criteria));
}

#[test]
fn includes_and_excludes_together() {
    let criteria =
        Criteria { includes: words(&["tdm"]), excludes: words(&["small"]), ..no_criteria() };
    assert!(server_passes(&server(1, "TDM big", 0, 0, "H2M"), &criteria));
    assert!(!server_passes(&server(1, "TDM small", 0, 0, "H2M"), &criteria));
    assert!(!server_passes(&server(1, "FFA big", 0, 0, "H2M"), &criteria));
}

#[test]
fn filter_keeps_order_and_drops_empty_hosts() {
    let kept = apply_criteria(directory(), &no_criteria());
    assert_eq!(kept.len(), 2);
    assert_eq!(kept[0].ip_address, "1.1.1.1");
    assert_eq!(kept[0].webfront_url, "http://1.1.1.1:1624");
    assert_eq!(ids(&kept[0].servers), vec![1, 2]);
    assert_eq!(kept[1].ip_address, "4.4.4.4");
    assert_eq!(ids(&kept[1].servers), vec![5, 6]);
}

#[test]
fn filter_of_nothing_is_nothing() {
    assert_eq!(apply_criteria(Vec::new(), &no_criteria()), Vec::new());
    assert_eq!(collect_servers(Vec::new()), Vec::new());
    assert_eq!(lookup_requests(Vec::new()), Vec::new());
}

#[test]
fn filter_output_is_the_passing_part_of_the_input() {
    let criteria = Criteria {
        team_size_max: Some(9),
        player_min: Some(1),
        includes: words(&["tdm", "ffa"]),
        excludes: words(&["small"]),
    };
    let input = collect_servers(directory());
    let expected: Vec<ServerInfo> =
        input.iter().filter(|server| server_passes(server, &criteria)).cloned().collect();
    let output = collect_servers(apply_criteria(directory(), &criteria));
    assert_eq!(ids(&output), vec![1, 5]);
    assert_eq!(output, expected);
    for server in &output {
        assert!(input.contains(server));
    }
}

#[test]
fn filter_decides_each_server_alone() {
    let criteria = Criteria { player_min: Some(4), ..no_criteria() };
    let mut reversed = directory();
    reversed.reverse();
    for host in reversed.iter_mut() {
        host.servers.reverse();
    }
    let mut forward = ids(&collect_servers(apply_criteria(directory(), &criteria)));
    let mut backward = ids(&collect_servers(apply_criteria(reversed, &criteria)));
    forward.sort();
    backward.sort();
    assert_eq!(forward, vec![1, 5, 6]);
    assert_eq!(forward, backward);
}

#[test]
fn filter_hosts_prepares_the_words() {
    let args = Filters {
        includes: words(&["  TDM "]),
        excludes: words(&["SMALL\t"]),
        ..Filters::default()
    };
    let kept = filter_hosts(directory(), &args);
    assert_eq!(ids(&collect_servers(kept)), vec![1]);
    assert_eq!(
        Criteria::from_filters(&args),
        Criteria {
            team_size_max: None,
            player_min: None,
            includes: words(&["tdm"]),
            excludes: words(&["small"]),
        }
    );
}

#[test]
fn criteria_carry_the_numbers_over() {
    let args = Filters {
        limit: Some(5),
        player_min: Some(2),
        team_size_max: Some(9),
        region: Some(Region::EU),
        ..Filters::default()
    };
    assert_eq!(
        Criteria::from_filters(&args),
        Criteria { team_size_max: Some(9), player_min: Some(2), includes: None, excludes: None }
    );
}

#[test]
fn no_region_hands_back_the_servers() {
    let args = Filters { player_min: Some(10), ..Filters::default() };
    match filter_server_list(directory(), &args) {
        Filtered::Servers(servers) => assert_eq!(ids(&servers), vec![1, 5]),
        Filtered::Lookups { .. } => panic!("no region was asked for"),
    }
}

#[test]
fn region_hands_back_the_lookups() {
    let mut hosts = directory();
    hosts[0].servers[0].ip = "localhost".to_string();
    let args = Filters { region: Some(Region::Apac), ..Filters::default() };
    match filter_server_list(hosts, &args) {
        Filtered::Lookups { region, requests } => {
            assert_eq!(region, Region::Apac);
            assert_eq!(requests.len(), 4);
            assert_eq!(
                requests[0].hoster,
                Some(Hoster {
                    ip_address: "1.1.1.1".to_string(),
                    webfront_url: "http://1.1.1.1:1624".to_string(),
                })
            );
            assert_eq!(requests[0].server.id, 1);
            assert_eq!(requests[1], LookupRequest { server: server(2, "Snipers Only", 0, 12, "H2M"), hoster: None });
            assert_eq!(requests[2].server.id, 5);
            assert_eq!(requests[3].server.id, 6);
            assert!(requests[2].hoster.is_none() && requests[3].hoster.is_none());
        }
        Filtered::Servers(_) => panic!("a region was asked for"),
    }
}

#[test]
fn loopback_name_is_matched_exactly() {
    let mut hosts = vec![host("9.9.9.9", vec![server(1, "a", 0, 0, "H2M"), server(2, "b", 0, 0, "H2M")])];
    hosts[0].servers[0].ip = "Localhost".to_string();
    hosts[0].servers[1].ip = "localhost ".to_string();
    let requests = lookup_requests(hosts);
    assert!(requests[0].hoster.is_none());
    assert!(requests[1].hoster.is_none());
}

#[test]
fn servers_are_collected_host_by_host() {
    assert_eq!(ids(&collect_servers(directory())), vec![1, 2, 3, 4, 5, 6]);
}
