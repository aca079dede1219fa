//! The favorites build: which servers pass the criteria, which region a
//! server stands in, and what the favorites file holds at the end.

use crate::cli::{Filters, Region};
use crate::lowercase_vec;
use crate::text::{
    chars_of, contains_chars, contains_text, decimal, lowercased, normalized_chars,
    push_decimal, same_text, string_of, strip_colors, trimmed,
};
use crate::utils::json_data::{HostData, HostDataView, ServerInfo, ServerInfoView};
use vstd::prelude::*;
use vstd::string::*;

verus! {

/// The master directory.
pub const MASTER_URL: &'static str = "https://master.iw4.zip/";

/// Where the master directory lists its hosts.
pub const JSON_SERVER_ENDPOINT: &'static str = "instance";

/// The directory of the favorites file, from the game's directory.
pub const FAVORITES_LOC: &'static str = "players2";

/// The name of the favorites file.
pub const FAVORITES: &'static str = "favourites.json";

/// The limit of a build that names none, beyond which the game's own
/// server browser is known to break.
pub const DEFAULT_SERVER_CAP: usize = 100;

/// The name by which a server reports that it runs on its hoster's own
/// machine.
pub const LOCAL_HOST: &'static str = "localhost";

/// The game whose servers are wanted.
pub const GAME_ID: &'static str = "H2M";

/// The criteria that need no lookup, with the search words in the form in
/// which they are compared: trimmed and lower-cased.
#[derive(Debug, Clone, PartialEq, Eq)]
pub struct Criteria {
    pub team_size_max: Option<u8>,
    pub player_min: Option<u8>,
    pub includes: Option<Vec<String>>,
    pub excludes: Option<Vec<String>>,
}

/// Mathematical model of a [`Criteria`].
pub struct CriteriaView {
    pub team_size_max: Option<nat>,
    pub player_min: Option<nat>,
    pub includes: Option<Seq<Seq<char>>>,
    pub excludes: Option<Seq<Seq<char>>>,
}

/// The model of an optional list of words.
pub open spec fn words_view(words: Option<Vec<String>>) -> Option<Seq<Seq<char>>> {
    match words {
        Some(list) => Some(list.deep_view()),
        None => None,
    }
}

impl View for Criteria {
    type V = CriteriaView;

    open spec fn view(&self) -> CriteriaView {
        CriteriaView {
            team_size_max: match self.team_size_max {
                Some(t) => Some(t as nat),
                None => None,
            },
            player_min: match self.player_min {
                Some(p) => Some(p as nat),
                None => None,
            },
            includes: words_view(self.includes),
            excludes: words_view(self.excludes),
        }
    }
}

/// One of `words` stands in `name`.
pub open spec fn any_contained(name: Seq<char>, words: Seq<Seq<char>>) -> bool {
    exists|i: int| 0 <= i < words.len() && contains_text(name, #[trigger] words[i])
}

/// Whether a server passes the criteria. Each line decides alone:
/// the game, the team size (a server holds two teams), the players present,
/// and the words that the normal form of its name must and must not hold.
pub open spec fn passes(server: ServerInfoView, criteria: CriteriaView) -> bool {
    &&& server.game == GAME_ID@
    &&& (criteria.team_size_max matches Some(t) ==> server.maxclientnum <= t * 2)
    &&& (criteria.player_min matches Some(p) ==> server.clientnum >= p)
    &&& (criteria.includes matches Some(words) ==> any_contained(
        strip_colors(server.hostname),
        words,
    ))
    &&& (criteria.excludes matches Some(words) ==> !any_contained(
        strip_colors(server.hostname),
        words,
    ))
}

/// The servers of one host that pass, in their order.
pub open spec fn passing_servers(servers: Seq<ServerInfoView>, criteria: CriteriaView) -> Seq<
    ServerInfoView,
> {
    servers.filter(|server: ServerInfoView| passes(server, criteria))
}

/// A host with only its passing servers.
pub open spec fn filtered_host(host: HostDataView, criteria: CriteriaView) -> HostDataView {
    HostDataView {
        ip_address: host.ip_address,
        webfront_url: host.webfront_url,
        servers: passing_servers(host.servers, criteria),
    }
}

/// What the filter leaves of a directory: every host with only its passing
/// servers, without the hosts that have none left, in their order.
pub open spec fn filtered_hosts(hosts: Seq<HostDataView>, criteria: CriteriaView) -> Seq<
    HostDataView,
> {
    hosts.map_values(|host: HostDataView| filtered_host(host, criteria)).filter(
        |host: HostDataView| host.servers.len() > 0,
    )
}

/// The search words in the form in which they are compared with a name:
/// each one trimmed and lower-cased.
pub open spec fn prepared_words(words: Option<Vec<String>>) -> Option<Seq<Seq<char>>> {
    match words {
        Some(list) => Some(
            list.deep_view().map_values(|word: Seq<char>| lowercased(trimmed(word))),
        ),
        None => None,
    }
}

/// The criteria of a build that need no lookup.
pub open spec fn criteria_of(args: Filters) -> CriteriaView {
    CriteriaView {
        team_size_max: match args.team_size_max {
            Some(t) => Some(t as nat),
            None => None,
        },
        player_min: match args.player_min {
            Some(p) => Some(p as nat),
            None => None,
        },
        includes: prepared_words(args.includes),
        excludes: prepared_words(args.excludes),
    }
}

/// Every server of every host, host by host.
pub open spec fn all_servers(hosts: Seq<HostDataView>) -> Seq<ServerInfoView> {
    hosts.map_values(|host: HostDataView| host.servers).flatten()
}

/// The servers that the filter leaves are the servers of the directory that
/// pass, in the order of the directory: dropping the hosts that have no
/// server left loses no server.
pub proof fn lemma_filter_keeps_passing(hosts: Seq<HostDataView>, criteria: CriteriaView)
    ensures
        all_servers(filtered_hosts(hosts, criteria)) == all_servers(hosts).filter(
            |server: ServerInfoView| passes(server, criteria),
        ),
    decreases hosts.len(),
{
    let pred = |server: ServerInfoView| passes(server, criteria);
    let narrow = |host: HostDataView| filtered_host(host, criteria);
    let occupied = |host: HostDataView| host.servers.len() > 0;
    let pick = |host: HostDataView| host.servers;
    if hosts.len() == 0 {
        assert(hosts.map_values(narrow) =~= Seq::<HostDataView>::empty());
        assert(hosts.map_values(pick) =~= Seq::<Seq<ServerInfoView>>::empty());
        assert(filtered_hosts(hosts, criteria).map_values(pick) =~= Seq::<
            Seq<ServerInfoView>,
        >::empty());
    } else {
        let init = hosts.drop_last();
        let last = hosts.last();
        lemma_filter_keeps_passing(init, criteria);
        assert(hosts == init.push(last));
        // the output
        assert(hosts.map_values(narrow) == init.map_values(narrow).push(narrow(last)));
        init.map_values(narrow).lemma_filter_push(narrow(last), occupied);
        let out_init = filtered_hosts(init, criteria);
        if occupied(narrow(last)) {
            assert(filtered_hosts(hosts, criteria) == out_init.push(narrow(last)));
            assert(out_init.push(narrow(last)).map_values(pick) == out_init.map_values(pick).push(
                narrow(last).servers,
            ));
            out_init.map_values(pick).lemma_flatten_push(narrow(last).servers);
        } else {
            assert(all_servers(out_init) + narrow(last).servers == all_servers(out_init));
        }
        assert(all_servers(filtered_hosts(hosts, criteria)) == all_servers(out_init)
            + last.servers.filter(pred));
        // the input
        assert(hosts.map_values(pick) == init.map_values(pick).push(last.servers));
        init.map_values(pick).lemma_flatten_push(last.servers);
        Seq::filter_distributes_over_add(all_servers(init), last.servers, pred);
    }
}

/// A server is among those that the filter leaves exactly if it is among
/// those of the directory and passes the criteria, which is decided of each
/// server alone.
pub proof fn lemma_filter_membership(
    hosts: Seq<HostDataView>,
    criteria: CriteriaView,
    server: ServerInfoView,
)
    ensures
        all_servers(filtered_hosts(hosts, criteria)).contains(server) <==> all_servers(
            hosts,
        ).contains(server) && passes(server, criteria),
{
    let pred = |server: ServerInfoView| passes(server, criteria);
    lemma_filter_keeps_passing(hosts, criteria);
    let input = all_servers(hosts);
    let output = input.filter(pred);
    if output.contains(server) {
        input.lemma_filter_contains_rev(pred, server);
        let i = choose|i: int| 0 <= i < output.len() && output[i] == server;
        input.lemma_filter_pred(pred, i);
    }
    if input.contains(server) && passes(server, criteria) {
        let i = choose|i: int| 0 <= i < input.len() && input[i] == server;
        input.lemma_filter_contains(pred, i);
    }
}

fn prepare_words(words: &Option<Vec<String>>) -> (out: Option<Vec<String>>)
    ensures
        words_view(out) == prepared_words(*words),
{
    match words {
        Some(list) => {
            let lowered = lowercase_vec(list.as_slice());
            assert(lowered.deep_view() =~= list.deep_view().map_values(
                |word: Seq<char>| lowercased(trimmed(word)),
            )) by {
                assert forall|i: int| 0 <= i < lowered.len() implies lowered.deep_view()[i]
                    == lowercased(trimmed(list.deep_view()[i])) by {
                    assert(lowered[i]@ == lowercased(trimmed(list[i]@)));
                }
            }
            Some(lowered)
        },
        None => None,
    }
}

impl Criteria {
    /// The criteria of `args` that need no lookup, with its search words
    /// trimmed and lower-cased.
    pub fn from_filters(args: &Filters) -> (criteria: Criteria)
        ensures
            criteria@ == criteria_of(*args),
    {
        Criteria {
            team_size_max: args.team_size_max,
            player_min: args.player_min,
            includes: prepare_words(&args.includes),
            excludes: prepare_words(&args.excludes),
        }
    }
}

/// The characters of every word.
fn word_chars(words: &Vec<String>) -> (out: Vec<Vec<char>>)
    ensures
        out.deep_view() == words.deep_view(),
{
    let mut out: Vec<Vec<char>> = Vec::new();
    let mut i: usize = 0;
    while i < words.len()
        invariant
            i <= words.len(),
            out.len() == i,
            forall|k: int| 0 <= k < i ==> (#[trigger] out[k])@ == words[k]@,
        decreases words.len() - i,
    {
        out.push(chars_of(words[i].as_str()));
        i += 1;
    }
    assert(out.deep_view() =~= words.deep_view()) by {
        assert forall|k: int| 0 <= k < out.len() implies out.deep_view()[k] == words.deep_view()[k] by {
            assert(out[k]@ == words[k]@);
            assert(out[k].deep_view() =~= out[k]@);
        }
    }
    out
}

/// Whether one of `words` stands in `name`.
fn holds_any(name: &Vec<char>, words: &Vec<Vec<char>>) -> (found: bool)
    ensures
        found == any_contained(name@, words.deep_view()),
{
    let mut i: usize = 0;
    while i < words.len()
        invariant
            i <= words.len(),
            forall|k: int| 0 <= k < i ==> !contains_text(name@, #[trigger] words.deep_view()[k]),
        decreases words.len() - i,
    {
        assert(words.deep_view()[i as int] =~= words[i as int]@);
        if contains_chars(name, &words[i]) {
            return true;
        }
        i += 1;
    }
    false
}

/// The criteria with the search words as characters.
struct Prepared {
    team_size_max: Option<u8>,
    player_min: Option<u8>,
    includes: Option<Vec<Vec<char>>>,
    excludes: Option<Vec<Vec<char>>>,
}

impl Prepared {
    spec fn model(&self) -> CriteriaView {
        CriteriaView {
            team_size_max: match self.team_size_max {
                Some(t) => Some(t as nat),
                None => None,
            },
            player_min: match self.player_min {
                Some(p) => Some(p as nat),
                None => None,
            },
            includes: match self.includes {
                Some(list) => Some(list.deep_view()),
                None => None,
            },
            excludes: match self.excludes {
                Some(list) => Some(list.deep_view()),
                None => None,
            },
        }
    }

    fn new(criteria: &Criteria) -> (prepared: Prepared)
        ensures
            prepared.model() == criteria@,
    {
        Prepared {
            team_size_max: criteria.team_size_max,
            player_min: criteria.player_min,
            includes: match &criteria.includes {
                Some(list) => Some(word_chars(list)),
                None => None,
            },
            excludes: match &criteria.excludes {
                Some(list) => Some(word_chars(list)),
                None => None,
            },
        }
    }

    /// Whether `server` passes.
    fn admits(&self, server: &ServerInfo) -> (kept: bool)
        ensures
            kept == passes(server@, self.model()),
    {
        if !same_text(server.game.as_str(), GAME_ID) {
            return false;
        }
        if let Some(team_size_max) = self.team_size_max {
            if server.maxclientnum as u16 > team_size_max as u16 * 2 {
                return false;
            }
        }
        if let Some(player_min) = self.player_min {
            if server.clientnum < player_min {
                return false;
            }
        }
        if self.includes.is_none() && self.excludes.is_none() {
            return true;
        }
        let name = normalized_chars(server.hostname.as_str());
        if let Some(words) = &self.includes {
            if !holds_any(&name, words) {
                return false;
            }
        }
        if let Some(words) = &self.excludes {
            if holds_any(&name, words) {
                return false;
            }
        }
        true
    }

    /// The servers that pass, in their order.
    fn retain(&self, servers: Vec<ServerInfo>) -> (kept: Vec<ServerInfo>)
        ensures
            kept.deep_view() == passing_servers(servers.deep_view(), self.model()),
    {
        let ghost all = servers.deep_view();
        let ghost pred = |server: ServerInfoView| passes(server, self.model());
        let mut kept: Vec<ServerInfo> = Vec::new();
        for server in it: servers
            invariant
                all == servers.deep_view(),
                pred == |server: ServerInfoView| passes(server, self.model()),
                kept.deep_view() == all.take(it.index() as int).filter(pred),
        {
            proof {
                let done = all.take(it.index() as int);
                assert(all.take(it.index() + 1) == done.push(server@));
                done.lemma_filter_push(server@, pred);
            }
            if self.admits(&server) {
                kept.push(server);
            }
        }
        assert(all.take(all.len() as int) == all);
        kept
    }
}

/// Whether `server` passes `criteria`.
pub fn server_passes(server: &ServerInfo, criteria: &Criteria) -> (kept: bool)
    ensures
        kept == passes(server@, criteria@),
{
    Prepared::new(criteria).admits(server)
}

/// Applies `criteria` to a directory: every host keeps the servers that
/// pass, and a host with none left is dropped. Hosts and servers stay in
/// their order.
pub fn apply_criteria(host_list: Vec<HostData>, criteria: &Criteria) -> (kept: Vec<HostData>)
    ensures
        kept.deep_view() == filtered_hosts(host_list.deep_view(), criteria@),
{
    let prepared = Prepared::new(criteria);
    let ghost all = host_list.deep_view();
    let ghost narrow = |host: HostDataView| filtered_host(host, criteria@);
    let ghost occupied = |host: HostDataView| host.servers.len() > 0;
    let mut kept: Vec<HostData> = Vec::new();
    for host in it: host_list
        invariant
            all == host_list.deep_view(),
            prepared.model() == criteria@,
            narrow == |host: HostDataView| filtered_host(host, criteria@),
            occupied == |host: HostDataView| host.servers.len() > 0,
            kept.deep_view() == all.take(it.index() as int).map_values(narrow).filter(occupied),
    {
        let ghost before = host@;
        let HostData { ip_address, webfront_url, servers } = host;
        let servers = prepared.retain(servers);
        let left = HostData { ip_address, webfront_url, servers };
        proof {
            let done = all.take(it.index() as int);
            assert(all.take(it.index() + 1) == done.push(before));
            assert(done.push(before).map_values(narrow) == done.map_values(narrow).push(
                narrow(before),
            ));
            assert(left@ == narrow(before));
            done.map_values(narrow).lemma_filter_push(left@, occupied);
        }
        if left.servers.len() > 0 {
            kept.push(left);
        }
    }
    assert(all.take(all.len() as int) == all);
    kept
}

/// The filter engine: applies the criteria of `args` that need no lookup.
/// The search words are trimmed and lower-cased first.
pub fn filter_hosts(host_list: Vec<HostData>, args: &Filters) -> (kept: Vec<HostData>)
    ensures
        kept.deep_view() == filtered_hosts(host_list.deep_view(), criteria_of(*args)),
{
    let criteria = Criteria::from_filters(args);
    apply_criteria(host_list, &criteria)
}

/// Every server of every host, host by host.
pub fn collect_servers(host_list: Vec<HostData>) -> (servers: Vec<ServerInfo>)
    ensures
        servers.deep_view() == all_servers(host_list.deep_view()),
{
    let ghost all = host_list.deep_view();
    let ghost pick = |host: HostDataView| host.servers;
    let mut servers: Vec<ServerInfo> = Vec::new();
    for host in it: host_list
        invariant
            all == host_list.deep_view(),
            pick == |host: HostDataView| host.servers,
            servers.deep_view() == all.take(it.index() as int).map_values(pick).flatten(),
    {
        let ghost before = host@;
        let mut host = host;
        proof {
            let done = all.take(it.index() as int);
            assert(all.take(it.index() + 1) == done.push(before));
            assert(done.push(before).map_values(pick) == done.map_values(pick).push(
                before.servers,
            ));
            done.map_values(pick).lemma_flatten_push(before.servers);
        }
        let ghost prior = servers.deep_view();
        servers.append(&mut host.servers);
        assert(servers.deep_view() == prior + before.servers);
    }
    assert(all.take(all.len() as int) == all);
    servers
}

/// `servers` with `server` put behind the last one that has no more
/// players than it.
pub open spec fn insert_by_population(
    servers: Seq<ServerInfoView>,
    server: ServerInfoView,
) -> Seq<ServerInfoView>
    decreases servers.len(),
{
    if servers.len() == 0 {
        seq![server]
    } else if servers.last().clientnum <= server.clientnum {
        servers.push(server)
    } else {
        insert_by_population(servers.drop_last(), server).push(servers.last())
    }
}

/// `servers` in ascending order of players; servers with as many players
/// as each other keep their order.
pub open spec fn sorted_by_population(servers: Seq<ServerInfoView>) -> Seq<ServerInfoView>
    decreases servers.len(),
{
    if servers.len() == 0 {
        servers
    } else {
        insert_by_population(sorted_by_population(servers.drop_last()), servers.last())
    }
}

/// No server has more players than one behind it.
pub open spec fn ascending(servers: Seq<ServerInfoView>) -> bool {
    forall|i: int, j: int|
        0 <= i <= j < servers.len() ==> servers[i].clientnum <= servers[j].clientnum
}

/// The servers that go into the favorites, first to last. Where there are
/// more than `limit`, these are the `limit` servers with the most players,
/// the fullest first; else all of them, the last first.
pub open spec fn favorites_of(servers: Seq<ServerInfoView>, limit: nat) -> Seq<ServerInfoView> {
    if servers.len() > limit {
        sorted_by_population(servers).reverse().take(limit as int)
    } else {
        servers.reverse()
    }
}

/// The servers that do not go into the favorites.
pub open spec fn left_out(servers: Seq<ServerInfoView>, limit: nat) -> Seq<ServerInfoView> {
    if servers.len() > limit {
        sorted_by_population(servers).take(servers.len() - limit)
    } else {
        Seq::empty()
    }
}

/// Where `server` is put in `servers`.
pub open spec fn insert_position(servers: Seq<ServerInfoView>, server: ServerInfoView) -> int
    decreases servers.len(),
{
    if servers.len() == 0 {
        0
    } else if servers.last().clientnum <= server.clientnum {
        servers.len() as int
    } else {
        insert_position(servers.drop_last(), server)
    }
}

/// Putting a server in is inserting it at its position: behind a server
/// that has no more players than it, and before servers that all have more.
proof fn lemma_insert_at_position(servers: Seq<ServerInfoView>, server: ServerInfoView)
    ensures
        ({
            let at = insert_position(servers, server);
            &&& 0 <= at <= servers.len()
            &&& insert_by_population(servers, server) == servers.insert(at, server)
            &&& (at > 0 ==> servers[at - 1].clientnum <= server.clientnum)
            &&& forall|k: int|
                at <= k < servers.len() ==> servers[k].clientnum > server.clientnum
        }),
    decreases servers.len(),
{
    if servers.len() > 0 && servers.last().clientnum > server.clientnum {
        lemma_insert_at_position(servers.drop_last(), server);
    }
    let at = insert_position(servers, server);
    assert forall|k: int| at <= k < servers.len() implies servers[k].clientnum
        > server.clientnum by {
        if k < servers.len() - 1 {
            assert(servers.drop_last()[k] == servers[k]);
        }
    }
    if at > 0 && at < servers.len() {
        assert(servers.drop_last()[at - 1] == servers[at - 1]);
    }
    lemma_insert_position(servers, server, at);
}

/// Sorting brings the servers into ascending order of players, and neither
/// adds nor drops one.
pub proof fn lemma_sorted_by_population(servers: Seq<ServerInfoView>)
    ensures
        sorted_by_population(servers).len() == servers.len(),
        sorted_by_population(servers).to_multiset() == servers.to_multiset(),
        ascending(sorted_by_population(servers)),
    decreases servers.len(),
{
    broadcast use vstd::seq_lib::to_multiset_build, vstd::seq_lib::to_multiset_insert;

    if servers.len() > 0 {
        let init = servers.drop_last();
        let last = servers.last();
        let sorted = sorted_by_population(init);
        lemma_sorted_by_population(init);
        lemma_insert_at_position(sorted, last);
        let at = insert_position(sorted, last);
        let all = sorted.insert(at, last);
        assert(servers == init.push(last));
        assert(all.to_multiset() == sorted.to_multiset().insert(last));
        assert(servers.to_multiset() == init.to_multiset().insert(last));
        assert forall|i: int, j: int| 0 <= i <= j < all.len() implies all[i].clientnum
            <= all[j].clientnum by {
            if i < at && j > at {
                assert(sorted[i].clientnum <= sorted[at - 1].clientnum);
            }
        }
    }
}

/// The favorites are the servers with the most players: there are as many
/// as the limit allows and never more, together with the servers left out
/// they are the servers given, and no server left out has more players than
/// a favorite.
pub proof fn lemma_favorites_are_the_fullest(servers: Seq<ServerInfoView>, limit: nat)
    ensures
        favorites_of(servers, limit).len() == if servers.len() > limit {
            limit
        } else {
            servers.len()
        },
        favorites_of(servers, limit).len() <= limit,
        (left_out(servers, limit) + favorites_of(servers, limit)).to_multiset()
            == servers.to_multiset(),
        forall|i: int, j: int|
            0 <= i < left_out(servers, limit).len() && 0 <= j < favorites_of(servers, limit).len()
                ==> left_out(servers, limit)[i].clientnum <= favorites_of(
                servers,
                limit,
            )[j].clientnum,
{
    let picked = favorites_of(servers, limit);
    let rest = left_out(servers, limit);
    if servers.len() > limit {
        let sorted = sorted_by_population(servers);
        lemma_sorted_by_population(servers);
        let cut = servers.len() - limit;
        let tail = sorted.skip(cut);
        assert(picked == tail.reverse());
        assert(sorted == rest + tail);
        tail.lemma_reverse_to_multiset();
        vstd::seq_lib::lemma_multiset_commutative(rest, tail);
        vstd::seq_lib::lemma_multiset_commutative(rest, picked);
        assert forall|i: int, j: int| 0 <= i < rest.len() && 0 <= j < picked.len() implies rest[i].clientnum
            <= picked[j].clientnum by {
            assert(rest[i] == sorted[i]);
            assert(picked[j] == sorted[servers.len() - 1 - j]);
        }
    } else {
        assert(rest + picked == picked);
        servers.lemma_reverse_to_multiset();
    }
}

/// Where `server` goes in `servers`: behind position `at - 1`, which has no
/// more players than it, and before the rest, which all have more.
proof fn lemma_insert_position(servers: Seq<ServerInfoView>, server: ServerInfoView, at: int)
    requires
        0 <= at <= servers.len(),
        at > 0 ==> servers[at - 1].clientnum <= server.clientnum,
        forall|k: int| at <= k < servers.len() ==> servers[k].clientnum > server.clientnum,
    ensures
        insert_by_population(servers, server) == servers.insert(at, server),
    decreases servers.len(),
{
    if servers.len() == 0 {
        assert(servers.insert(0, server) == seq![server]);
    } else if at == servers.len() {
        assert(servers.insert(at, server) == servers.push(server));
    } else {
        lemma_insert_position(servers.drop_last(), server, at);
        assert(servers.drop_last().insert(at, server).push(servers.last()) == servers.insert(
            at,
            server,
        ));
    }
}

/// Sorts `servers` by their players, ascending; servers with as many
/// players as each other keep their order.
pub fn sort_by_population(servers: Vec<ServerInfo>) -> (sorted: Vec<ServerInfo>)
    ensures
        sorted.deep_view() == sorted_by_population(servers.deep_view()),
{
    let ghost all = servers.deep_view();
    let mut sorted: Vec<ServerInfo> = Vec::new();
    for server in it: servers
        invariant
            all == servers.deep_view(),
            sorted.deep_view() == sorted_by_population(all.take(it.index() as int)),
    {
        let mut at: usize = sorted.len();
        while at > 0 && sorted[at - 1].clientnum > server.clientnum
            invariant
                at <= sorted.len(),
                forall|k: int|
                    at <= k < sorted.len() ==> sorted.deep_view()[k].clientnum
                        > server@.clientnum,
            decreases at,
        {
            at -= 1;
        }
        proof {
            let done = all.take(it.index() as int);
            let next = all.take(it.index() + 1);
            assert(next.drop_last() == done);
            assert(next.last() == server@);
            lemma_insert_position(sorted.deep_view(), server@, at as int);
        }
        let ghost before = sorted.deep_view();
        let ghost model = server@;
        sorted.insert(at, server);
        assert(sorted.deep_view() == before.insert(at as int, model));
    }
    assert(all.take(all.len() as int) == all);
    sorted
}

/// Picks the servers that go into the favorites, first to last: where
/// there are more than `limit`, the `limit` servers with the most players,
/// the fullest first; else all of them, the last first.
pub fn select_favorites(servers: Vec<ServerInfo>, limit: usize) -> (picked: Vec<ServerInfo>)
    ensures
        picked.deep_view() == favorites_of(servers.deep_view(), limit as nat),
        picked.len() <= limit,
{
    let ghost all = servers.deep_view();
    let many = servers.len() > limit;
    let mut ordered = if many {
        sort_by_population(servers)
    } else {
        servers
    };
    let ghost order = ordered.deep_view();
    proof {
        if many {
            lemma_sorted_by_population(all);
        }
    }
    let wanted: usize = if many {
        limit
    } else {
        ordered.len()
    };
    let mut picked: Vec<ServerInfo> = Vec::new();
    while picked.len() < wanted
        invariant
            wanted <= order.len(),
            picked.len() <= wanted,
            ordered.len() + picked.len() == order.len(),
            ordered.deep_view() == order.take(order.len() - picked.len()),
            picked.deep_view() == order.reverse().take(picked.len() as int),
        decreases wanted - picked.len(),
    {
        let ghost before = picked.deep_view();
        let ghost left = ordered.deep_view();
        let server = ordered.pop().unwrap();
        assert(server@ == left.last());
        picked.push(server);
        assert(picked.deep_view() == before.push(left.last()));
        assert(ordered.deep_view() == left.drop_last());
    }
    assert(order.reverse().take(order.len() as int) == order.reverse());
    picked
}

/// One entry of the favorites file: address and port between quotes.
pub open spec fn quoted(server: ServerInfoView) -> Seq<char> {
    seq!['"'] + server.ip + seq![':'] + decimal(server.port) + seq!['"']
}

/// The entries of `servers` with a comma between one and the next.
pub open spec fn joined(servers: Seq<ServerInfoView>) -> Seq<char>
    decreases servers.len(),
{
    if servers.len() == 0 {
        Seq::empty()
    } else if servers.len() == 1 {
        quoted(servers[0])
    } else {
        joined(servers.drop_last()) + seq![','] + quoted(servers.last())
    }
}

/// The favorites file for `servers`: one array of quoted `ip:port` texts,
/// with no comma behind the last.
pub open spec fn favorites_document(servers: Seq<ServerInfoView>) -> Seq<char> {
    seq!['['] + joined(servers) + seq![']']
}

/// The entries of `servers` with a comma behind each.
pub open spec fn listed(servers: Seq<ServerInfoView>) -> Seq<char>
    decreases servers.len(),
{
    if servers.len() == 0 {
        Seq::empty()
    } else {
        listed(servers.drop_last()) + quoted(servers.last()) + seq![',']
    }
}

/// A list of entries as an array: the text between brackets, without the
/// comma at its end where it has one.
pub open spec fn json_array_of(from: Seq<char>) -> Seq<char> {
    seq!['['] + (if from.len() > 0 && from.last() == ',' {
        from.drop_last()
    } else {
        from
    }) + seq![']']
}

/// A list with a comma behind each entry is the list with commas between
/// the entries, and one comma more.
proof fn lemma_listed_is_joined(servers: Seq<ServerInfoView>)
    ensures
        servers.len() > 0 ==> listed(servers) == joined(servers) + seq![','],
        servers.len() == 0 ==> listed(servers) == Seq::<char>::empty(),
    decreases servers.len(),
{
    if servers.len() > 1 {
        lemma_listed_is_joined(servers.drop_last());
        assert(listed(servers) == joined(servers) + seq![',']);
    } else if servers.len() == 1 {
        assert(listed(servers.drop_last()) == Seq::<char>::empty());
        assert(listed(servers) == joined(servers) + seq![',']);
    }
}

/// The entries of `servers`, each between quotes and with a comma behind
/// it.
pub fn list_entries(servers: &Vec<ServerInfo>) -> (ips: String)
    ensures
        ips@ == listed(servers.deep_view()),
{
    let ghost all = servers.deep_view();
    let mut ips = String::new();
    let mut i: usize = 0;
    assert(all.take(0) == Seq::<ServerInfoView>::empty());
    while i < servers.len()
        invariant
            all == servers.deep_view(),
            i <= servers.len(),
            ips@ == listed(all.take(i as int)),
        decreases servers.len() - i,
    {
        let server = &servers[i];
        proof {
            let next = all.take(i + 1);
            assert(next.drop_last() == all.take(i as int));
            assert(next.last() == server@);
        }
        let ghost before = ips@;
        ips.push('"');
        ips.append(server.ip.as_str());
        ips.push(':');
        push_decimal(&mut ips, server.port as u64);
        ips.push('"');
        ips.push(',');
        assert(ips@ == before + quoted(server@) + seq![',']);
        i += 1;
    }
    assert(all.take(servers.len() as int) == all);
    ips
}

/// Writes a list of entries as one array: the list between brackets,
/// without the comma at its end.
pub fn serialize_json(from: String) -> (json: String)
    ensures
        json@ == json_array_of(from@),
{
    let chars = chars_of(from.as_str());
    let len = chars.len();
    let end: usize = if len > 0 && chars[len - 1] == ',' {
        len - 1
    } else {
        len
    };
    let ips = string_of(&chars, 0, end);
    let mut json = String::new();
    json.push('[');
    json.append(ips.as_str());
    json.push(']');
    proof {
        if end == len {
            assert(chars@.subrange(0, len as int) == from@);
        } else {
            assert(chars@.subrange(0, end as int) == from@.drop_last());
        }
    }
    json
}

/// The favorites file for `picked`.
pub fn favorites_json(picked: &Vec<ServerInfo>) -> (json: String)
    ensures
        json@ == favorites_document(picked.deep_view()),
{
    let ips = list_entries(picked);
    proof {
        lemma_listed_is_joined(picked.deep_view());
        let body = joined(picked.deep_view());
        if picked.len() > 0 {
            assert((body + seq![',']).drop_last() == body);
        }
    }
    serialize_json(ips)
}

/// What a favorites build writes.
#[derive(Debug, PartialEq, Eq)]
pub struct Favorites {
    /// The text of the favorites file.
    pub json: String,
    /// How many entries it holds.
    pub ip_collected: usize,
}

/// Builds the favorites file from the servers that passed every stage: at
/// most `limit` entries, the servers with the most players where there are
/// more than that.
pub fn build_favorites(servers: Vec<ServerInfo>, limit: usize) -> (favorites: Favorites)
    ensures
        favorites.json@ == favorites_document(favorites_of(servers.deep_view(), limit as nat)),
        favorites.ip_collected == favorites_of(servers.deep_view(), limit as nat).len(),
        favorites.ip_collected <= limit,
{
    let picked = select_favorites(servers, limit);
    Favorites { json: favorites_json(&picked), ip_collected: picked.len() }
}

/// The limit of a build: the one asked for, else the default cap.
pub fn server_limit(args: &Filters) -> (limit: usize)
    ensures
        limit == match args.limit {
            Some(asked) => asked,
            None => DEFAULT_SERVER_CAP,
        },
{
    match args.limit {
        Some(asked) => asked,
        None => DEFAULT_SERVER_CAP,
    }
}

/// What the user is told of a limit at or above the default cap, beyond
/// which the game's own server browser is known to break.
pub fn limit_note(limit: usize) -> (note: Option<&'static str>)
    ensures
        note is Some <==> limit >= DEFAULT_SERVER_CAP,
        note matches Some(text) ==> text@
            == "NOTE: Currently the in game server browser breaks when you add more than 100 servers to favorites"@,
{
    if limit >= DEFAULT_SERVER_CAP {
        Some(
            "NOTE: Currently the in game server browser breaks when you add more than 100 servers to favorites",
        )
    } else {
        None
    }
}

/// Where the favorites file stands, from the game's directory.
pub fn favorites_path() -> (path: String)
    ensures
        path@ == FAVORITES_LOC@ + seq!['/'] + FAVORITES@,
{
    let mut path = String::from_str(FAVORITES_LOC);
    path.push('/');
    path.append(FAVORITES);
    path
}

/// Where the directory is fetched from.
pub fn instance_url() -> (url: String)
    ensures
        url@ == MASTER_URL@ + JSON_SERVER_ENDPOINT@,
{
    let mut url = String::from_str(MASTER_URL);
    url.append(JSON_SERVER_ENDPOINT);
    url
}

/// The hoster's own address and web-front URL.
#[derive(Debug, Clone, PartialEq, Eq)]
pub struct Hoster {
    pub ip_address: String,
    pub webfront_url: String,
}

/// One server whose region is to be found.
#[derive(Debug, Clone, PartialEq, Eq)]
pub struct LookupRequest {
    pub server: ServerInfo,
    /// The hoster, where the server reports the loopback name: its public
    /// address then stands in for the server's.
    pub hoster: Option<Hoster>,
}

/// Mathematical model of a [`LookupRequest`].
pub struct LookupRequestView {
    pub server: ServerInfoView,
    pub hoster: Option<(Seq<char>, Seq<char>)>,
}

impl View for LookupRequest {
    type V = LookupRequestView;

    open spec fn view(&self) -> LookupRequestView {
        LookupRequestView {
            server: self.server@,
            hoster: match self.hoster {
                Some(hoster) => Some((hoster.ip_address@, hoster.webfront_url@)),
                None => None,
            },
        }
    }
}

impl DeepView for LookupRequest {
    type V = LookupRequestView;

    open spec fn deep_view(&self) -> LookupRequestView {
        self.view()
    }
}

/// The lookup that `server` of `host` needs.
pub open spec fn request_of(server: ServerInfoView, host: HostDataView) -> LookupRequestView {
    LookupRequestView {
        server,
        hoster: if server.ip == LOCAL_HOST@ {
            Some((host.ip_address, host.webfront_url))
        } else {
            None
        },
    }
}

/// The lookups that the servers of `host` need.
pub open spec fn host_requests(host: HostDataView) -> Seq<LookupRequestView> {
    host.servers.map_values(|server: ServerInfoView| request_of(server, host))
}

/// The lookups that a directory needs: one for each server, host by host.
pub open spec fn requests_of(hosts: Seq<HostDataView>) -> Seq<LookupRequestView> {
    hosts.map_values(|host: HostDataView| host_requests(host)).flatten()
}

/// There is one lookup for each server, in the order of the servers.
pub proof fn lemma_one_request_per_server(hosts: Seq<HostDataView>)
    ensures
        requests_of(hosts).map_values(|request: LookupRequestView| request.server)
            == all_servers(hosts),
    decreases hosts.len(),
{
    let each = |host: HostDataView| host_requests(host);
    let pick = |host: HostDataView| host.servers;
    let server_of = |request: LookupRequestView| request.server;
    if hosts.len() == 0 {
        assert(hosts.map_values(each) =~= Seq::<Seq<LookupRequestView>>::empty());
        assert(hosts.map_values(pick) =~= Seq::<Seq<ServerInfoView>>::empty());
        assert(requests_of(hosts).map_values(server_of) =~= all_servers(hosts));
    } else {
        let init = hosts.drop_last();
        let last = hosts.last();
        lemma_one_request_per_server(init);
        assert(hosts == init.push(last));
        assert(hosts.map_values(each) == init.map_values(each).push(host_requests(last)));
        init.map_values(each).lemma_flatten_push(host_requests(last));
        assert(hosts.map_values(pick) == init.map_values(pick).push(last.servers));
        init.map_values(pick).lemma_flatten_push(last.servers);
        assert(host_requests(last).map_values(server_of) =~= last.servers);
        assert((requests_of(init) + host_requests(last)).map_values(server_of) =~= requests_of(
            init,
        ).map_values(server_of) + host_requests(last).map_values(server_of));
    }
}

/// The lookups that the region stage makes: one for each server, and with
/// it the hoster where the server reports the loopback name.
pub fn lookup_requests(host_list: Vec<HostData>) -> (requests: Vec<LookupRequest>)
    ensures
        requests.deep_view() == requests_of(host_list.deep_view()),
{
    let ghost all = host_list.deep_view();
    let ghost each = |host: HostDataView| host_requests(host);
    let mut requests: Vec<LookupRequest> = Vec::new();
    for host in it: host_list
        invariant
            all == host_list.deep_view(),
            each == |host: HostDataView| host_requests(host),
            requests.deep_view() == all.take(it.index() as int).map_values(each).flatten(),
    {
        let ghost before = host@;
        let ghost prior = requests.deep_view();
        let HostData { ip_address, webfront_url, servers } = host;
        proof {
            let done = all.take(it.index() as int);
            assert(all.take(it.index() + 1) == done.push(before));
            assert(done.push(before).map_values(each) == done.map_values(each).push(
                host_requests(before),
            ));
            done.map_values(each).lemma_flatten_push(host_requests(before));
        }
        for server in inner: servers
            invariant
                before.servers == servers.deep_view(),
                before.ip_address == ip_address@,
                before.webfront_url == webfront_url@,
                requests.deep_view() == prior + host_requests(before).take(inner.index() as int),
        {
            let hoster = if same_text(server.ip.as_str(), LOCAL_HOST) {
                Some(
                    Hoster { ip_address: ip_address.clone(), webfront_url: webfront_url.clone() },
                )
            } else {
                None
            };
            let ghost earlier = requests.deep_view();
            let request = LookupRequest { server, hoster };
            assert(request@ == host_requests(before)[inner.index() as int]);
            requests.push(request);
            assert(requests.deep_view() == earlier.push(
                host_requests(before)[inner.index() as int],
            ));
            assert(host_requests(before).take(inner.index() + 1) == host_requests(before).take(
                inner.index() as int,
            ).push(host_requests(before)[inner.index() as int]));
        }
        assert(host_requests(before).take(before.servers.len() as int) == host_requests(before));
    }
    assert(all.take(all.len() as int) == all);
    requests
}

/// What is left to do once the criteria that need no lookup are applied.
#[derive(Debug, PartialEq, Eq)]
pub enum Filtered {
    /// No region was asked for: these are the servers that pass.
    Servers(Vec<ServerInfo>),
    /// A region was asked for: the region of each of these servers is to
    /// be found, and only those that stand in `region` pass.
    Lookups { region: Region, requests: Vec<LookupRequest> },
}

/// Filters a directory by the criteria of `args`. The criteria that need
/// no lookup are applied first; where a region is asked for, what is left
/// is handed back as the lookups to make, else as the servers that pass.
pub fn filter_server_list(host_list: Vec<HostData>, args: &Filters) -> (filtered: Filtered)
    ensures
        match args.region {
            None => filtered matches Filtered::Servers(servers) && servers.deep_view()
                == all_servers(filtered_hosts(host_list.deep_view(), criteria_of(*args))),
            Some(asked) => filtered matches Filtered::Lookups { region, requests } && region
                == asked && requests.deep_view() == requests_of(
                filtered_hosts(host_list.deep_view(), criteria_of(*args)),
            ),
        },
{
    let kept = filter_hosts(host_list, args);
    match args.region {
        None => Filtered::Servers(collect_servers(kept)),
        Some(region) => Filtered::Lookups { region, requests: lookup_requests(kept) },
    }
}

} // verus!
