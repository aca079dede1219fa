//! The region cache: which region each host was found in.
//!
//! The cache keeps at most one entry for a host; a later entry for the same
//! host takes the place of the earlier one. On disk it stands in a file that
//! names the version that wrote it, and a file of another version is not
//! read.

use crate::text::{distinct_texts, same_text, unique};
use vstd::prelude::*;

verus! {

/// What is known of one host.
#[derive(Debug, Clone, PartialEq, Eq)]
pub struct CacheEntry {
    /// The host's identity.
    pub host: String,
    /// The continent code that the host resolved to.
    pub region: String,
    /// The address that the host resolved to.
    pub ip: String,
    /// When the entry was made, in seconds.
    pub created: u64,
}

/// Mathematical model of a [`CacheEntry`].
pub struct CacheEntryView {
    pub host: Seq<char>,
    pub region: Seq<char>,
    pub ip: Seq<char>,
    pub created: nat,
}

impl View for CacheEntry {
    type V = CacheEntryView;

    open spec fn view(&self) -> CacheEntryView {
        CacheEntryView {
            host: self.host@,
            region: self.region@,
            ip: self.ip@,
            created: self.created as nat,
        }
    }
}

impl DeepView for CacheEntry {
    type V = CacheEntryView;

    open spec fn deep_view(&self) -> CacheEntryView {
        self.view()
    }
}

impl CacheEntry {
    /// A copy with the same model.
    pub fn duplicate(&self) -> (copy: CacheEntry)
        ensures
            copy@ == self@,
    {
        CacheEntry {
            host: self.host.clone(),
            region: self.region.clone(),
            ip: self.ip.clone(),
            created: self.created,
        }
    }
}

/// No two entries speak of the same host.
pub open spec fn distinct_hosts(entries: Seq<CacheEntryView>) -> bool {
    forall|i: int, j: int|
        0 <= i < j < entries.len() ==> (#[trigger] entries[i]).host != (#[trigger] entries[j]).host
}

/// Some entry speaks of `host`.
pub open spec fn knows(entries: Seq<CacheEntryView>, host: Seq<char>) -> bool {
    exists|i: int| 0 <= i < entries.len() && (#[trigger] entries[i]).host == host
}

/// The region of each host: what the cache is read for.
pub open spec fn mapping(entries: Seq<CacheEntryView>) -> Map<Seq<char>, Seq<char>>
    decreases entries.len(),
{
    if entries.len() == 0 {
        Map::empty()
    } else {
        mapping(entries.skip(1)).insert(entries[0].host, entries[0].region)
    }
}

/// `entries` with `entry` in the place of the entry for the same host, or
/// at the end where the host is new.
pub open spec fn inserted(entries: Seq<CacheEntryView>, entry: CacheEntryView) -> Seq<
    CacheEntryView,
>
    decreases entries.len(),
{
    if entries.len() == 0 {
        seq![entry]
    } else if entries[0].host == entry.host {
        seq![entry] + entries.skip(1)
    } else {
        seq![entries[0]] + inserted(entries.skip(1), entry)
    }
}

/// `entries` after each of `observed` was put in, first to last.
pub open spec fn merged(entries: Seq<CacheEntryView>, observed: Seq<CacheEntryView>) -> Seq<
    CacheEntryView,
>
    decreases observed.len(),
{
    if observed.len() == 0 {
        entries
    } else {
        inserted(merged(entries, observed.drop_last()), observed.last())
    }
}

/// Putting an entry in sets the region of its host and of no other.
pub proof fn lemma_inserted_mapping(entries: Seq<CacheEntryView>, entry: CacheEntryView)
    ensures
        mapping(inserted(entries, entry)) == mapping(entries).insert(entry.host, entry.region),
    decreases entries.len(),
{
    let after = inserted(entries, entry);
    if entries.len() == 0 {
        assert(after.skip(1) == Seq::<CacheEntryView>::empty());
        assert(mapping(after.skip(1)) == Map::<Seq<char>, Seq<char>>::empty());
        assert(mapping(after) =~= mapping(entries).insert(entry.host, entry.region));
    } else if entries[0].host == entry.host {
        assert(after.skip(1) == entries.skip(1));
        assert(mapping(after) =~= mapping(entries).insert(entry.host, entry.region));
    } else {
        lemma_inserted_mapping(entries.skip(1), entry);
        assert(after.skip(1) == inserted(entries.skip(1), entry));
        assert(mapping(after) =~= mapping(entries).insert(entry.host, entry.region));
    }
}

/// `regions` after the region of each of `observed` was set for its host,
/// first to last: a later one overwrites an earlier one for the same host.
pub open spec fn overwritten(regions: Map<Seq<char>, Seq<char>>, observed: Seq<CacheEntryView>)
    -> Map<Seq<char>, Seq<char>>
    decreases observed.len(),
{
    if observed.len() == 0 {
        regions
    } else {
        overwritten(regions, observed.drop_last()).insert(
            observed.last().host,
            observed.last().region,
        )
    }
}

/// Merging what a build has found sets the region of every host found, the
/// last one found winning, and of no other host.
pub proof fn lemma_merged_mapping(entries: Seq<CacheEntryView>, observed: Seq<CacheEntryView>)
    ensures
        mapping(merged(entries, observed)) == overwritten(mapping(entries), observed),
    decreases observed.len(),
{
    if observed.len() > 0 {
        lemma_merged_mapping(entries, observed.drop_last());
        lemma_inserted_mapping(merged(entries, observed.drop_last()), observed.last());
    }
}

/// Putting an entry in changes no other entry: the hosts known before stay
/// known, each at its place, and the new host is known too.
proof fn lemma_inserted_shape(entries: Seq<CacheEntryView>, entry: CacheEntryView)
    ensures
        ({
            let after = inserted(entries, entry);
            &&& entries.len() <= after.len() <= entries.len() + 1
            &&& forall|i: int| 0 <= i < entries.len() ==> (#[trigger] after[i]).host == entries[i].host
            &&& after.len() == entries.len() + 1 ==> after.last() == entry && !knows(
                entries,
                entry.host,
            )
            &&& knows(after, entry.host)
        }),
    decreases entries.len(),
{
    let after = inserted(entries, entry);
    if entries.len() == 0 {
        assert(after[0].host == entry.host);
    } else if entries[0].host == entry.host {
        assert(after[0].host == entry.host);
    } else {
        let rest = inserted(entries.skip(1), entry);
        lemma_inserted_shape(entries.skip(1), entry);
        assert forall|i: int| 0 <= i < entries.len() implies (#[trigger] after[i]).host
            == entries[i].host by {
            if i > 0 {
                assert(after[i] == rest[i - 1]);
                assert(entries[i] == entries.skip(1)[i - 1]);
            }
        }
        if after.len() == entries.len() + 1 {
            assert(after.last() == rest.last());
            if knows(entries, entry.host) {
                let i = choose|i: int| 0 <= i < entries.len() && (#[trigger] entries[i]).host
                    == entry.host;
                assert(entries.skip(1)[i - 1].host == entry.host);
            }
        }
        let k = choose|k: int| 0 <= k < rest.len() && (#[trigger] rest[k]).host == entry.host;
        assert(after[k + 1].host == entry.host);
    }
}

/// Putting an entry into a cache that holds each host once leaves a cache
/// that holds each host once.
pub proof fn lemma_inserted_distinct(entries: Seq<CacheEntryView>, entry: CacheEntryView)
    requires
        distinct_hosts(entries),
    ensures
        distinct_hosts(inserted(entries, entry)),
{
    let after = inserted(entries, entry);
    lemma_inserted_shape(entries, entry);
    assert forall|i: int, j: int| 0 <= i < j < after.len() implies (#[trigger] after[i]).host != (
    #[trigger] after[j]).host by {
        if j < entries.len() {
            assert(entries[i].host != entries[j].host);
        } else {
            assert(after[j] == entry);
            if after[i].host == entry.host {
                assert(entries[i].host == entry.host);
            }
        }
    }
}

/// Merging entries into a cache that holds each host once leaves a cache
/// that holds each host once.
pub proof fn lemma_merged_distinct(entries: Seq<CacheEntryView>, observed: Seq<CacheEntryView>)
    requires
        distinct_hosts(entries),
    ensures
        distinct_hosts(merged(entries, observed)),
    decreases observed.len(),
{
    if observed.len() > 0 {
        lemma_merged_distinct(entries, observed.drop_last());
        lemma_inserted_distinct(merged(entries, observed.drop_last()), observed.last());
    }
}

/// Where the entry for `host` stands: the first entry that speaks of it.
proof fn lemma_inserted_at(entries: Seq<CacheEntryView>, entry: CacheEntryView, at: int)
    requires
        0 <= at <= entries.len(),
        forall|i: int| 0 <= i < at ==> (#[trigger] entries[i]).host != entry.host,
        at < entries.len() ==> entries[at].host == entry.host,
    ensures
        inserted(entries, entry) == if at < entries.len() {
            entries.update(at, entry)
        } else {
            entries.push(entry)
        },
    decreases entries.len(),
{
    if entries.len() == 0 {
    } else if at == 0 {
        assert(seq![entry] + entries.skip(1) == entries.update(0, entry));
    } else {
        assert(entries[0].host != entry.host);
        let rest = entries.skip(1);
        assert forall|i: int| 0 <= i < at - 1 implies (#[trigger] rest[i]).host != entry.host by {
            assert(rest[i] == entries[i + 1]);
        }
        lemma_inserted_at(rest, entry, at - 1);
        if at < entries.len() {
            assert(seq![entries[0]] + rest.update(at - 1, entry) == entries.update(at, entry));
        } else {
            assert(seq![entries[0]] + rest.push(entry) == entries.push(entry));
        }
    }
}

/// The region cache.
#[derive(Debug)]
pub struct Cache {
    entries: Vec<CacheEntry>,
    created: u64,
}

impl View for Cache {
    type V = Seq<CacheEntryView>;

    closed spec fn view(&self) -> Seq<CacheEntryView> {
        self.entries.deep_view()
    }
}

impl Cache {
    #[verifier::type_invariant]
    spec fn holds_each_host_once(&self) -> bool {
        distinct_hosts(self.entries.deep_view())
    }

    /// When the cache was made, in seconds.
    pub closed spec fn made(&self) -> nat {
        self.created as nat
    }

    /// A cache that knows no host.
    pub fn new(created: u64) -> (cache: Cache)
        ensures
            cache@ == Seq::<CacheEntryView>::empty(),
            cache.made() == created,
            distinct_hosts(cache@),
    {
        let cache = Cache { entries: Vec::new(), created };
        assert(cache.entries.deep_view() == Seq::<CacheEntryView>::empty());
        cache
    }

    /// When the cache was made, in seconds.
    pub fn created(&self) -> (created: u64)
        ensures
            created == self.made(),
    {
        self.created
    }

    /// How many hosts the cache knows.
    pub fn len(&self) -> (len: usize)
        ensures
            len == self@.len(),
    {
        self.entries.len()
    }

    /// Where the entry for `host` stands.
    fn position(&self, host: &str) -> (at: usize)
        ensures
            at <= self@.len(),
            forall|i: int| 0 <= i < at ==> (#[trigger] self@[i]).host != host@,
            at < self@.len() ==> self@[at as int].host == host@,
    {
        let mut at: usize = 0;
        while at < self.entries.len()
            invariant
                at <= self.entries.len(),
                forall|i: int| 0 <= i < at ==> (#[trigger] self@[i]).host != host@,
            decreases self.entries.len() - at,
        {
            if same_text(self.entries[at].host.as_str(), host) {
                return at;
            }
            at += 1;
        }
        at
    }

    /// What the cache knows of `host`.
    pub fn get(&self, host: &str) -> (found: Option<&CacheEntry>)
        ensures
            found is Some <==> knows(self@, host@),
            found matches Some(entry) ==> entry@.host == host@ && self@.contains(entry@),
            found matches Some(entry) ==> mapping(self@)[host@] == entry@.region,
    {
        let at = self.position(host);
        if at < self.entries.len() {
            proof {
                use_type_invariant(self);
                lemma_mapping_of_entry(self@, at as int);
            }
            Some(&self.entries[at])
        } else {
            None
        }
    }

    /// The cache that holds `entries`, put in first to last.
    pub fn from(entries: Vec<CacheEntry>, created: u64) -> (cache: Cache)
        ensures
            cache@ == merged(Seq::empty(), entries.deep_view()),
            cache.made() == created,
            distinct_hosts(cache@),
    {
        let mut cache = Cache::new(created);
        cache.update(entries);
        cache
    }

    /// Merges what a build has found into the cache, first to last, and
    /// says whether the cache has to be written again: whether anything was
    /// found.
    pub fn update(&mut self, observed: Vec<CacheEntry>) -> (dirty: bool)
        ensures
            final(self)@ == merged(old(self)@, observed.deep_view()),
            final(self).made() == old(self).made(),
            distinct_hosts(final(self)@),
            dirty == (observed.len() > 0),
    {
        let ghost all = observed.deep_view();
        let dirty = observed.len() > 0;
        proof {
            use_type_invariant(&*self);
        }
        for entry in it: observed
            invariant
                all == observed.deep_view(),
                self@ == merged(old(self)@, all.take(it.index() as int)),
                self.made() == old(self).made(),
                distinct_hosts(self@),
        {
            proof {
                let next = all.take(it.index() + 1);
                assert(next.drop_last() == all.take(it.index() as int));
                assert(next.last() == entry@);
            }
            self.insert(entry);
        }
        assert(all.take(all.len() as int) == all);
        dirty
    }

    /// A copy of every entry, in the order of the cache. No two of them
    /// speak of the same host.
    pub fn entries(&self) -> (entries: Vec<CacheEntry>)
        ensures
            entries.deep_view() == self@,
            distinct_hosts(self@),
    {
        proof {
            use_type_invariant(self);
        }
        let mut entries: Vec<CacheEntry> = Vec::new();
        let mut i: usize = 0;
        while i < self.entries.len()
            invariant
                i <= self.entries.len(),
                entries.deep_view() == self@.take(i as int),
            decreases self.entries.len() - i,
        {
            let ghost before = entries.deep_view();
            entries.push(self.entries[i].duplicate());
            assert(entries.deep_view() == before.push(self@[i as int]));
            assert(self@.take(i + 1) == self@.take(i as int).push(self@[i as int]));
            i += 1;
        }
        assert(self@.take(self@.len() as int) == self@);
        entries
    }

    /// Puts `entry` in: in the place of the entry for the same host, or at
    /// the end where the host is new.
    pub fn insert(&mut self, entry: CacheEntry)
        ensures
            final(self)@ == inserted(old(self)@, entry@),
            final(self).made() == old(self).made(),
            distinct_hosts(final(self)@),
    {
        let at = self.position(entry.host.as_str());
        proof {
            use_type_invariant(&*self);
            lemma_inserted_at(self@, entry@, at as int);
            lemma_inserted_distinct(self@, entry@);
        }
        let ghost before = self@;
        let ghost model = entry@;
        let mut entries: Vec<CacheEntry> = Vec::new();
        assert(entries.deep_view() == Seq::<CacheEntryView>::empty());
        std::mem::swap(&mut entries, &mut self.entries);
        if at < entries.len() {
            entries[at] = entry;
            assert(entries.deep_view() == before.update(at as int, model));
        } else {
            entries.push(entry);
            assert(entries.deep_view() == before.push(model));
        }
        self.entries = entries;
    }
}

/// The region of a host is the region of its entry.
pub proof fn lemma_mapping_of_entry(entries: Seq<CacheEntryView>, at: int)
    requires
        distinct_hosts(entries),
        0 <= at < entries.len(),
    ensures
        mapping(entries).dom().contains(entries[at].host),
        mapping(entries)[entries[at].host] == entries[at].region,
    decreases entries.len(),
{
    if at > 0 {
        let rest = entries.skip(1);
        assert(rest[at - 1] == entries[at]);
        assert forall|i: int, j: int| 0 <= i < j < rest.len() implies (#[trigger] rest[i]).host != (
        #[trigger] rest[j]).host by {
            assert(rest[i] == entries[i + 1] && rest[j] == entries[j + 1]);
        }
        lemma_mapping_of_entry(rest, at - 1);
        assert(entries[0].host != entries[at].host);
    }
}

/// The cache after each of `batches` was merged into it, one after the
/// other: each batch is what one build has found.
pub open spec fn after_builds(entries: Seq<CacheEntryView>, batches: Seq<Seq<CacheEntryView>>)
    -> Seq<CacheEntryView>
    decreases batches.len(),
{
    if batches.len() == 0 {
        entries
    } else {
        merged(after_builds(entries, batches.drop_last()), batches.last())
    }
}

/// Whether the flag that says that the cache has to be written again is
/// up after `batches` were merged: it was down before, and each build
/// raises it where [`Cache::update`] says so.
pub open spec fn raised_by(batches: Seq<Seq<CacheEntryView>>) -> bool
    decreases batches.len(),
{
    if batches.len() == 0 {
        false
    } else {
        raised_by(batches.drop_last()) || batches.last().len() > 0
    }
}

/// However many builds deliver what they found, and in whatever order they
/// get hold of the cache, the cache holds each host once after each of
/// them.
pub proof fn lemma_builds_keep_cache_whole(
    entries: Seq<CacheEntryView>,
    batches: Seq<Seq<CacheEntryView>>,
    done: int,
)
    requires
        distinct_hosts(entries),
        0 <= done <= batches.len(),
    ensures
        distinct_hosts(after_builds(entries, batches.take(done))),
    decreases done,
{
    if done > 0 {
        lemma_builds_keep_cache_whole(entries, batches, done - 1);
        assert(batches.take(done).drop_last() == batches.take(done - 1));
        lemma_merged_distinct(
            after_builds(entries, batches.take(done - 1)),
            batches.take(done).last(),
        );
    }
}

/// After any number of builds the flag is up exactly if one of them has
/// found something.
pub proof fn lemma_raised_iff_found(batches: Seq<Seq<CacheEntryView>>)
    ensures
        raised_by(batches) <==> exists|i: int|
            0 <= i < batches.len() && (#[trigger] batches[i]).len() > 0,
    decreases batches.len(),
{
    if batches.len() > 0 {
        let init = batches.drop_last();
        lemma_raised_iff_found(init);
        if raised_by(init) {
            let i = choose|i: int| 0 <= i < init.len() && (#[trigger] init[i]).len() > 0;
            assert(batches[i].len() > 0);
        } else if batches.last().len() > 0 {
            assert(batches[batches.len() - 1].len() > 0);
        } else {
            assert forall|i: int| 0 <= i < batches.len() implies (#[trigger] batches[i]).len()
                == 0 by {
                if i < init.len() {
                    assert(init[i] == batches[i]);
                }
            }
        }
    }
}

/// Putting the entries of a cache that holds each host once into an empty
/// cache gives the same cache.
pub proof fn lemma_merged_from_empty(entries: Seq<CacheEntryView>)
    requires
        distinct_hosts(entries),
    ensures
        merged(Seq::empty(), entries) == entries,
    decreases entries.len(),
{
    if entries.len() > 0 {
        let init = entries.drop_last();
        lemma_merged_from_empty(init);
        lemma_inserted_at(init, entries.last(), init.len() as int);
        assert(init.push(entries.last()) == entries);
    }
}

/// The cache as it stands on disk.
#[derive(Debug, Clone, PartialEq, Eq)]
pub struct CacheFile {
    /// The version of the program that wrote the file.
    pub version: String,
    /// When the cache was made, in seconds.
    pub created: u64,
    /// The entries.
    pub cache: Vec<CacheEntry>,
}

/// Mathematical model of a [`CacheFile`].
pub struct CacheFileView {
    pub version: Seq<char>,
    pub created: nat,
    pub cache: Seq<CacheEntryView>,
}

impl View for CacheFile {
    type V = CacheFileView;

    open spec fn view(&self) -> CacheFileView {
        CacheFileView {
            version: self.version@,
            created: self.created as nat,
            cache: self.cache.deep_view(),
        }
    }
}

/// The file that holds a cache, written by `version`.
pub open spec fn file_of(entries: Seq<CacheEntryView>, made: nat, version: Seq<char>)
    -> CacheFileView {
    CacheFileView { version, created: made, cache: entries }
}

/// The cache that the running `version` reads from `file`: its entries and
/// when it was made. A file of another version is not read.
pub open spec fn cache_of(file: CacheFileView, version: Seq<char>) -> Option<
    (Seq<CacheEntryView>, nat),
> {
    if file.version == version {
        Some((merged(Seq::empty(), file.cache), file.created))
    } else {
        None
    }
}

/// A cache that is written and read again by the same version is the same
/// cache: the same entries, hence the same region for each host, whatever
/// the times in it.
pub proof fn lemma_cache_round_trip(entries: Seq<CacheEntryView>, made: nat, version: Seq<char>)
    requires
        distinct_hosts(entries),
    ensures
        cache_of(file_of(entries, made, version), version) == Some((entries, made)),
        cache_of(file_of(entries, made, version), version) matches Some((read, _)) && mapping(
            read,
        ) == mapping(entries),
{
    lemma_merged_from_empty(entries);
}

/// The file of `cache`, written by `version`: what is written to disk once
/// the cache is let go of.
pub fn snapshot(cache: &Cache, version: &str) -> (file: CacheFile)
    ensures
        file@ == file_of(cache@, cache.made(), version@),
        distinct_hosts(file@.cache),
{
    CacheFile {
        version: version.to_owned(),
        created: cache.created(),
        cache: cache.entries(),
    }
}

/// Reads a cache file. A file that another version wrote is not read, and
/// the cache is then built anew.
pub fn read_cache(file: CacheFile, version: &str) -> (cache: Option<Cache>)
    ensures
        match cache_of(file@, version@) {
            Some((entries, made)) => cache matches Some(read) && read@ == entries && read.made()
                == made && distinct_hosts(read@),
            None => cache is None,
        },
{
    if same_text(file.version.as_str(), version) {
        Some(Cache::from(file.cache, file.created))
    } else {
        None
    }
}

/// The hosts to resolve when the cache is built: each host of the list
/// once, in the order in which they first come.
pub fn distinct(hosts: &Vec<String>) -> (once: Vec<String>)
    ensures
        once.deep_view() == unique(hosts.deep_view()),
{
    let mut texts: Vec<&str> = Vec::new();
    let mut i: usize = 0;
    while i < hosts.len()
        invariant
            i <= hosts.len(),
            texts.len() == i,
            forall|k: int| 0 <= k < i ==> (#[trigger] texts[k])@ == hosts[k]@,
        decreases hosts.len() - i,
    {
        texts.push(hosts[i].as_str());
        i += 1;
    }
    assert(texts.deep_view() =~= hosts.deep_view());
    let kept = distinct_texts(&texts);
    let mut once: Vec<String> = Vec::new();
    let mut k: usize = 0;
    while k < kept.len()
        invariant
            k <= kept.len(),
            once.len() == k,
            forall|j: int| 0 <= j < k ==> (#[trigger] once[j])@ == kept[j]@,
        decreases kept.len() - k,
    {
        once.push(kept[k].to_owned());
        k += 1;
    }
    assert(once.deep_view() =~= kept.deep_view());
    once
}

/// What the start does about the cache.
#[derive(Debug)]
pub enum CachePlan {
    /// The cache file was read: this cache is used.
    Use(Cache),
    /// There is no cache file, or another version wrote it: the cache is
    /// built anew.
    Build,
}

/// Decides at the start whether the cache file serves. `file` is the cache
/// file, where there is one that can be read.
pub fn plan_cache(file: Option<CacheFile>, version: &str) -> (plan: CachePlan)
    ensures
        match file {
            Some(read) => match cache_of(read@, version@) {
                Some((entries, made)) => plan matches CachePlan::Use(cache) && cache@ == entries
                    && cache.made() == made && distinct_hosts(cache@),
                None => plan is Build,
            },
            None => plan is Build,
        },
{
    match file {
        Some(read) => match read_cache(read, version) {
            Some(cache) => CachePlan::Use(cache),
            None => CachePlan::Build,
        },
        None => CachePlan::Build,
    }
}

/// What a build of the cache at the start comes to.
#[derive(Debug)]
pub enum BuiltCache {
    /// The build failed: the start fails with it, for this reason.
    Failed(String),
    /// The build gave this cache, which is written to disk if there is a
    /// directory to keep it in.
    Built { cache: Cache, persist: bool },
}

/// Takes the answer of a build of the cache at the start. `built` holds
/// what was resolved, or why the build failed; `created` is the time, and
/// `has_save_dir` says whether there is a directory to keep the cache in.
pub fn built_cache(built: Result<Vec<CacheEntry>, String>, created: u64, has_save_dir: bool) -> (outcome:
    BuiltCache)
    ensures
        match built {
            Ok(entries) => outcome matches BuiltCache::Built { cache, persist } && cache@
                == merged(Seq::empty(), entries.deep_view()) && cache.made() == created
                && distinct_hosts(cache@) && persist == has_save_dir,
            Err(reason) => outcome matches BuiltCache::Failed(said) && said == reason,
        },
{
    match built {
        Ok(entries) => BuiltCache::Built {
            cache: Cache::from(entries, created),
            persist: has_save_dir,
        },
        Err(reason) => BuiltCache::Failed(reason),
    }
}

/// Takes the answer of a rebuild of the cache. A rebuild that succeeded
/// replaces the cache; one that failed leaves the cache as it was, and its
/// reason is handed back for the log.
pub fn rebuilt_cache(cache: &mut Cache, built: Result<Vec<CacheEntry>, String>, created: u64) -> (failure:
    Option<String>)
    ensures
        match built {
            Ok(entries) => {
                &&& final(cache)@ == merged(Seq::empty(), entries.deep_view())
                &&& final(cache).made() == created
                &&& failure is None
            },
            Err(reason) => {
                &&& final(cache)@ == old(cache)@
                &&& final(cache).made() == old(cache).made()
                &&& failure == Some(reason)
            },
        },
        distinct_hosts(final(cache)@),
{
    proof {
        use_type_invariant(&*cache);
    }
    match built {
        Ok(entries) => {
            *cache = Cache::from(entries, created);
            None
        },
        Err(reason) => Some(reason),
    }
}

/// Takes the answer of an attempt to write the cache. A cache that could
/// not be written is no reason to stop: the cache in memory goes on to be
/// used, and the failure is handed back for the log.
pub fn write_report(written: Result<(), String>) -> (failure: Option<String>)
    ensures
        failure == match written {
            Ok(_) => None,
            Err(reason) => Some(reason),
        },
{
    match written {
        Ok(_) => None,
        Err(reason) => Some(reason),
    }
}

} // verus!
