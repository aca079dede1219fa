//! Which region a server stands in: the continent codes of each region, what
//! an answer of the location service means, and what a batch of lookups
//! leaves.

use crate::cli::Region;
use crate::commands::address::AddressError;
use crate::text::{push_signed_decimal, same_text, signed_decimal};
use crate::utils::caching::{knows, mapping, Cache, CacheEntry, CacheEntryView};
use crate::utils::json_data::{Continent, ServerInfo, ServerInfoView, ServerLocation};
use vstd::prelude::*;
use vstd::string::*;

verus! {

/// The location service.
pub const MASTER_LOCATION_URL: &'static str = "https://api.findip.net/";

/// The continent code of the region NA.
pub const CODE_NA: &'static str = "NA";

/// The continent code of the region EU.
pub const CODE_EU: &'static str = "EU";

/// The continent codes that make up the region APAC: Asia, Oceania, Africa.
pub open spec fn apac_codes() -> Seq<Seq<char>> {
    seq!["AS"@, "OC"@, "AF"@]
}

/// The continent codes that make up the region APAC.
pub fn populate_apac_cont_codes() -> (codes: Vec<&'static str>)
    ensures
        codes.deep_view() == apac_codes(),
{
    let mut codes: Vec<&'static str> = Vec::new();
    codes.push("AS");
    codes.push("OC");
    codes.push("AF");
    assert(codes.deep_view() =~= apac_codes());
    codes
}

/// Whether the continent `code` lies in `region`.
pub open spec fn in_region(region: Region, code: Seq<char>) -> bool {
    match region {
        Region::NA => code == CODE_NA@,
        Region::EU => code == CODE_EU@,
        Region::Apac => apac_codes().contains(code),
    }
}

/// Whether the continent `code` lies in `region`.
pub fn region_matches(region: Region, code: &str) -> (inside: bool)
    ensures
        inside == in_region(region, code@),
{
    match region {
        Region::NA => same_text(code, CODE_NA),
        Region::EU => same_text(code, CODE_EU),
        Region::Apac => {
            let codes = populate_apac_cont_codes();
            let mut i: usize = 0;
            while i < codes.len()
                invariant
                    region is Apac,
                    i <= codes.len(),
                    codes.deep_view() == apac_codes(),
                    forall|k: int| 0 <= k < i ==> apac_codes()[k] != code@,
                decreases codes.len() - i,
            {
                assert(codes.deep_view()[i as int] == codes[i as int]@);
                if same_text(code, codes[i]) {
                    assert(apac_codes()[i as int] == code@);
                    return true;
                }
                i += 1;
            }
            false
        },
    }
}

/// The address that the location service is asked at for one server.
pub open spec fn location_url_of(address: Seq<char>, api_key: Seq<char>) -> Seq<char> {
    MASTER_LOCATION_URL@ + address + api_key
}

/// The address that the location service is asked at for one server:
/// the service, the server's address as text, and the key of the caller.
pub fn location_url(address: &str, api_key: &str) -> (url: String)
    ensures
        url@ == location_url_of(address@, api_key@),
{
    let mut url = String::from_str(MASTER_LOCATION_URL);
    url.append(address);
    url.append(api_key);
    url
}

/// What is reported when a lookup fails on the way: the failure, where the
/// request went, and which server it was for.
pub open spec fn lookup_failure_of(detail: Seq<char>, url: Seq<char>, server_id: int) -> Seq<
    char,
> {
    detail + ", outbound url: "@ + url + ", server id: "@ + signed_decimal(server_id)
}

/// What is reported when a lookup fails on the way.
pub fn lookup_failure(detail: &str, url: &str, server_id: i64) -> (message: String)
    ensures
        message@ == lookup_failure_of(detail@, url@, server_id as int),
{
    let mut message = String::from_str(detail);
    message.append(", outbound url: ");
    message.append(url);
    message.append(", server id: ");
    push_signed_decimal(&mut message, server_id);
    message
}

/// What an answer of the location service comes to: its continent, or else
/// its message, or else the words "unknown error".
pub open spec fn continent_of(location: ServerLocation) -> Result<Continent, Seq<char>> {
    match location.continent {
        Some(continent) => Ok(continent),
        None => match location.message {
            Some(message) => Err(message@),
            None => Err("unknown error"@),
        },
    }
}

/// Reads an answer of the location service.
pub fn read_location(location: ServerLocation) -> (continent: Result<Continent, String>)
    ensures
        match continent_of(location) {
            Ok(found) => continent == Ok::<Continent, String>(found),
            Err(message) => continent is Err && continent->Err_0@ == message,
        },
{
    match location.continent {
        Some(continent) => Ok(continent),
        None => match location.message {
            Some(message) => Err(message),
            None => Err(String::from_str("unknown error")),
        },
    }
}

/// What became of one server in the region stage.
#[derive(Debug, PartialEq, Eq)]
pub enum Task {
    /// The server stands in the region asked for: it is kept.
    Allowed(ServerInfo),
    /// The server stands elsewhere: it is left out, which is no failure.
    Filtered,
    /// The lookup failed; the message says why.
    Error(String),
}

/// What a lookup means for a server: kept if its continent lies in
/// `region`, left out if it lies elsewhere, a failure if the lookup failed.
pub open spec fn classified(server: ServerInfo, region: Region, lookup: Result<Continent, String>)
    -> Task {
    match lookup {
        Ok(continent) => if in_region(region, continent.code@) {
            Task::Allowed(server)
        } else {
            Task::Filtered
        },
        Err(message) => Task::Error(message),
    }
}

/// Says what a lookup means for a server.
pub fn classify(server: ServerInfo, region: Region, lookup: Result<Continent, String>) -> (task:
    Task)
    ensures
        task == classified(server, region, lookup),
{
    match lookup {
        Ok(continent) => {
            if region_matches(region, continent.code.as_str()) {
                Task::Allowed(server)
            } else {
                Task::Filtered
            }
        },
        Err(message) => Task::Error(message),
    }
}

/// Lets the hoster's address stand in for the address of a server that
/// reports the loopback name. `resolved` is the hoster's address as text,
/// or why it was not found; where it was not found, the server keeps the
/// address it reports.
pub fn stand_in(server: ServerInfo, resolved: Result<String, AddressError>) -> (moved: ServerInfo)
    ensures
        match resolved {
            Ok(address) => moved@ == (ServerInfoView { ip: address@, ..server@ }),
            Err(_) => moved == server,
        },
{
    match resolved {
        Ok(address) => {
            let mut moved = server;
            moved.ip = address;
            moved
        },
        Err(_) => server,
    }
}

/// What follows once the address of a server was looked for.
#[derive(Debug, PartialEq, Eq)]
pub enum LookupStep {
    /// The address was found: the location service is asked at `url`.
    Ask { server: ServerInfo, url: String },
    /// The address was not found: no request is sent, and this is what
    /// becomes of the server.
    Settled(Task),
}

/// Decides what follows once the address of a server was looked for.
/// `resolved` is the address as text, or why it was not found. A server
/// whose address was not found is a failure of its own and stops no other.
pub fn lookup_step(server: ServerInfo, resolved: Result<String, AddressError>, api_key: &str) -> (step:
    LookupStep)
    ensures
        match resolved {
            Ok(address) => step matches LookupStep::Ask { server: asked, url } && asked == server
                && url@ == location_url_of(address@, api_key@),
            Err(error) => step matches LookupStep::Settled(Task::Error(message)) && message@
                == error.message_of(),
        },
{
    match resolved {
        Ok(address) => {
            let url = location_url(address.as_str(), api_key);
            LookupStep::Ask { server, url }
        },
        Err(error) => LookupStep::Settled(Task::Error(String::from_str(error.message()))),
    }
}

/// What a lookup leaves: what becomes of the server, and what the cache
/// learns.
#[derive(Debug, PartialEq, Eq)]
pub struct Located {
    pub task: Task,
    /// The entry for the cache, where the lookup gave a continent.
    pub found: Option<CacheEntry>,
}

/// Ends the lookup of one server. `lookup` is the answer of the location
/// service, `address` the address that was asked about, `now` the time.
/// The cache learns the continent of every address that was found, whether
/// the server stands in `region` or not, and nothing from a failure.
pub fn finish_lookup(
    server: ServerInfo,
    region: Region,
    lookup: Result<Continent, String>,
    address: &str,
    now: u64,
) -> (located: Located)
    ensures
        located.task == classified(server, region, lookup),
        match lookup {
            Ok(continent) => located.found matches Some(entry) && entry@ == (CacheEntryView {
                host: server.ip@,
                region: continent.code@,
                ip: address@,
                created: now as nat,
            }),
            Err(_) => located.found is None,
        },
{
    let found = match &lookup {
        Ok(continent) => Some(found_entry(server.ip.as_str(), continent, address, now)),
        Err(_) => None,
    };
    Located { task: classify(server, region, lookup), found }
}

/// What the cache says of a server.
#[derive(Debug, PartialEq, Eq)]
pub enum Known {
    /// The cache knows the region of the server's address: no lookup is
    /// made, and this is what becomes of the server.
    Settled(Task),
    /// The cache does not know the address: the server is to be looked up.
    Unknown(ServerInfo),
}

/// Looks a server up in the cache, by the address it reports, before the
/// location service is asked. A server whose address the cache knows is
/// kept or left out by the region that the cache has for it.
pub fn consult_cache(server: ServerInfo, region: Region, cache: &Cache) -> (known: Known)
    ensures
        known == if knows(cache@, server.ip@) {
            if in_region(region, mapping(cache@)[server.ip@]) {
                Known::Settled(Task::Allowed(server))
            } else {
                Known::Settled(Task::Filtered)
            }
        } else {
            Known::Unknown(server)
        },
{
    let inside = match cache.get(server.ip.as_str()) {
        Some(entry) => Some(region_matches(region, entry.region.as_str())),
        None => None,
    };
    match inside {
        Some(true) => Known::Settled(Task::Allowed(server)),
        Some(false) => Known::Settled(Task::Filtered),
        None => Known::Unknown(server),
    }
}

/// What a lookup that succeeded adds to the cache: the address that the
/// server reports as the host, with the continent it was found in, the
/// address it resolved to, and the time.
pub fn found_entry(host: &str, continent: &Continent, address: &str, now: u64) -> (entry:
    CacheEntry)
    ensures
        entry@ == (CacheEntryView {
            host: host@,
            region: continent.code@,
            ip: address@,
            created: now as nat,
        }),
{
    CacheEntry {
        host: host.to_owned(),
        region: continent.code.clone(),
        ip: address.to_owned(),
        created: now,
    }
}

/// What a batch of lookups leaves.
#[derive(Debug, PartialEq, Eq)]
pub struct Resolved {
    /// The servers that stand in the region asked for, in the order of the
    /// batch.
    pub servers: Vec<ServerInfo>,
    /// Why each failed lookup failed, in the order of the batch.
    pub errors: Vec<String>,
}

impl Resolved {
    /// How many lookups failed.
    pub fn failure_count(&self) -> (count: usize)
        ensures
            count == self.errors.len(),
    {
        self.errors.len()
    }
}

/// The server that an outcome keeps. An outcome is what a task came to, or
/// the reason why the task itself did not finish.
pub open spec fn kept_server(outcome: Result<Task, String>) -> Option<ServerInfo> {
    match outcome {
        Ok(Task::Allowed(server)) => Some(server),
        _ => None,
    }
}

/// The failure that an outcome reports.
pub open spec fn reported_failure(outcome: Result<Task, String>) -> Option<String> {
    match outcome {
        Ok(Task::Error(message)) => Some(message),
        Err(message) => Some(message),
        _ => None,
    }
}

/// Every outcome of a batch is accounted for: it keeps a server, or it
/// reports a failure, or its server was filtered, and never two of these.
pub proof fn lemma_every_outcome_counts(outcomes: Seq<Result<Task, String>>)
    ensures
        outcomes.filter_map(|o: Result<Task, String>| kept_server(o)).len() + outcomes.filter_map(
            |o: Result<Task, String>| reported_failure(o),
        ).len() + outcomes.filter(|o: Result<Task, String>| o == Ok::<Task, String>(Task::Filtered)).len()
            == outcomes.len(),
    decreases outcomes.len(),
{
    let skip = |o: Result<Task, String>| o == Ok::<Task, String>(Task::Filtered);
    if outcomes.len() > 0 {
        let init = outcomes.drop_last();
        lemma_every_outcome_counts(init);
        assert(outcomes == init.push(outcomes.last()));
        init.lemma_filter_push(outcomes.last(), skip);
    }
}

/// Joins a batch: the servers that were allowed are kept, those that were
/// filtered are left out, and every failure is counted, be it a lookup that
/// failed or a task that did not finish. A failure never ends the batch.
pub fn join_tasks(outcomes: Vec<Result<Task, String>>) -> (resolved: Resolved)
    ensures
        resolved.servers@ == outcomes@.filter_map(|o: Result<Task, String>| kept_server(o)),
        resolved.errors@ == outcomes@.filter_map(|o: Result<Task, String>| reported_failure(o)),
{
    let ghost all = outcomes@;
    let ghost keep = |o: Result<Task, String>| kept_server(o);
    let ghost fail = |o: Result<Task, String>| reported_failure(o);
    let mut servers: Vec<ServerInfo> = Vec::new();
    let mut errors: Vec<String> = Vec::new();
    for outcome in it: outcomes
        invariant
            all == outcomes@,
            keep == |o: Result<Task, String>| kept_server(o),
            fail == |o: Result<Task, String>| reported_failure(o),
            servers@ == all.take(it.index() as int).filter_map(keep),
            errors@ == all.take(it.index() as int).filter_map(fail),
    {
        proof {
            let done = all.take(it.index() as int);
            let next = all.take(it.index() + 1);
            assert(next.drop_last() == done);
            assert(next.last() == outcome);
        }
        match outcome {
            Ok(Task::Allowed(server)) => servers.push(server),
            Ok(Task::Filtered) => {},
            Ok(Task::Error(message)) => errors.push(message),
            Err(message) => errors.push(message),
        }
    }
    assert(all.take(all.len() as int) == all);
    Resolved { servers, errors }
}

/// What the user is told of the lookups that failed.
pub open spec fn failure_notice_of(failure_count: nat) -> Option<Seq<char>> {
    if failure_count == 0 {
        None
    } else {
        Some(
            "Failed to resolve location for "@ + crate::text::decimal(failure_count)
                + " server hoster(s)"@,
        )
    }
}

/// What the user is told of the lookups that failed: nothing where none
/// did.
pub fn failure_notice(failure_count: usize) -> (notice: Option<String>)
    ensures
        notice is Some <==> failure_count > 0,
        notice matches Some(text) ==> failure_notice_of(failure_count as nat) == Some(text@),
{
    if failure_count == 0 {
        None
    } else {
        let mut text = String::from_str("Failed to resolve location for ");
        crate::text::push_decimal(&mut text, failure_count as u64);
        text.append(" server hoster(s)");
        Some(text)
    }
}

} // verus!
