//! The artwork cache: a bounded tier in memory over a tier that is kept on
//! disk, and the limiter that spaces the external lookups.

use vstd::prelude::*;
use vstd::string::*;
use crate::clock::now_unix_secs;
use crate::lookup::{artwork_from_response, artwork_of, lookup_url, lookup_url_of, LookupResponse};
use crate::text::{cache_key, cache_key_of};
use crate::track::text_of;

verus! {

/// The most entries that the memory tier holds.
pub const MAX_MEMORY_ENTRIES: usize = 500;

/// The age at which an entry of the disk tier counts as absent, in seconds:
/// thirty days.
pub const DISK_TTL_SECS: u64 = 2_592_000;

/// The least time between the starts of two lookups, in milliseconds.
pub const MIN_REQUEST_INTERVAL_MS: u64 = 1000;

/// One cached address. In the memory tier `stamp` is the moment of
/// insertion on the caller's monotonic clock, in milliseconds; in the disk
/// tier it is the moment of the lookup, in seconds since the epoch.
#[derive(Debug, PartialEq, Eq)]
pub struct CacheEntry {
    pub key: String,
    pub url: String,
    pub stamp: u64,
}

/// The mathematical value of a [`CacheEntry`].
pub struct EntryView {
    pub key: Seq<char>,
    pub url: Seq<char>,
    pub stamp: u64,
}

impl View for CacheEntry {
    type V = EntryView;

    open spec fn view(&self) -> EntryView {
        EntryView { key: self.key@, url: self.url@, stamp: self.stamp }
    }
}

impl Clone for CacheEntry {
    fn clone(&self) -> (r: Self)
        ensures
            r@ == self@,
    {
        CacheEntry { key: self.key.clone(), url: self.url.clone(), stamp: self.stamp }
    }
}

/// The values of a list of entries, in order.
pub open spec fn views(entries: Seq<CacheEntry>) -> Seq<EntryView> {
    entries.map_values(|e: CacheEntry| e@)
}

/// The first index at or after `from` whose entry has the key, or the
/// length of the list.
pub open spec fn find_from(entries: Seq<EntryView>, key: Seq<char>, from: int) -> int
    decreases entries.len() - from,
{
    if from < 0 || from >= entries.len() {
        entries.len() as int
    } else if entries[from].key == key {
        from
    } else {
        find_from(entries, key, from + 1)
    }
}

/// The index of the first entry with the key, or the length of the list.
pub open spec fn find(entries: Seq<EntryView>, key: Seq<char>) -> int {
    find_from(entries, key, 0)
}

/// The address stored under the key, if any.
pub open spec fn url_for(entries: Seq<EntryView>, key: Seq<char>) -> Option<Seq<char>> {
    let i = find(entries, key);
    if i < entries.len() {
        Some(entries[i].url)
    } else {
        None
    }
}

/// Whether no key stands twice in the list.
pub open spec fn distinct_keys(entries: Seq<EntryView>) -> bool {
    forall|i: int, j: int|
        0 <= i < j < entries.len() ==> (#[trigger] entries[i]).key != (#[trigger] entries[j]).key
}

/// The list with the entry stored under its key: in the place of the entry
/// that had the key, or at the end.
pub open spec fn put(entries: Seq<EntryView>, entry: EntryView) -> Seq<EntryView> {
    let i = find(entries, entry.key);
    if i < entries.len() {
        entries.update(i, entry)
    } else {
        entries.push(entry)
    }
}

/// The index of the entry with the smallest stamp among the first `n`, the
/// first of them where several share it.
pub open spec fn oldest_among(entries: Seq<EntryView>, n: int) -> int
    decreases n,
{
    if n <= 1 {
        0
    } else {
        let m = oldest_among(entries, n - 1);
        if entries[n - 1].stamp < entries[m].stamp {
            n - 1
        } else {
            m
        }
    }
}

/// The index of the entry with the smallest stamp.
pub open spec fn oldest(entries: Seq<EntryView>) -> int {
    oldest_among(entries, entries.len() as int)
}

/// The memory tier with room for one more entry: at capacity the oldest
/// entry leaves, below it nothing does.
pub open spec fn evicted(entries: Seq<EntryView>) -> Seq<EntryView> {
    if entries.len() >= MAX_MEMORY_ENTRIES {
        entries.remove(oldest(entries))
    } else {
        entries
    }
}

/// The memory tier after an insertion. An entry whose key is already held
/// takes the place of the one that had it, and nothing leaves; a new key is
/// stored after room has been made for it.
pub open spec fn memory_after_insert(entries: Seq<EntryView>, entry: EntryView) -> Seq<EntryView> {
    if find(entries, entry.key) < entries.len() {
        put(entries, entry)
    } else {
        put(evicted(entries), entry)
    }
}

/// Whether an entry fetched at `fetched_at` is younger than the time to
/// live at `now`. An entry from the future counts as new.
pub open spec fn is_fresh(fetched_at: u64, now: u64) -> bool {
    now <= fetched_at || now - fetched_at < DISK_TTL_SECS
}

/// The entries that are fresh at `now`, each stored under its key in the
/// order of the list: where a key stands more than once, the last fresh
/// entry under it is the one that stays.
pub open spec fn fresh_entries(entries: Seq<EntryView>, now: u64) -> Seq<EntryView>
    decreases entries.len(),
{
    if entries.len() == 0 {
        Seq::empty()
    } else {
        let rest = fresh_entries(entries.drop_last(), now);
        if is_fresh(entries.last().stamp, now) {
            put(rest, entries.last())
        } else {
            rest
        }
    }
}

/// The address of the last entry under the key that is fresh at `now`, if
/// there is one.
pub open spec fn last_fresh(entries: Seq<EntryView>, now: u64, key: Seq<char>) -> Option<
    Seq<char>,
>
    decreases entries.len(),
{
    if entries.len() == 0 {
        None
    } else if entries.last().key == key && is_fresh(entries.last().stamp, now) {
        Some(entries.last().url)
    } else {
        last_fresh(entries.drop_last(), now, key)
    }
}

/// How long a caller must wait at `now_ms` before its lookup may start, when
/// the last one started at `last`.
pub open spec fn wait_ms_of(last: Option<u64>, now_ms: u64) -> u64 {
    match last {
        Some(at) => {
            let elapsed = if now_ms >= at {
                now_ms - at
            } else {
                0
            };
            if elapsed < MIN_REQUEST_INTERVAL_MS {
                (MIN_REQUEST_INTERVAL_MS - elapsed) as u64
            } else {
                0
            }
        },
        None => 0,
    }
}

/// `find_from` returns the first index with the key.
pub proof fn lemma_find_from(entries: Seq<EntryView>, key: Seq<char>, from: int)
    requires
        0 <= from <= entries.len(),
    ensures
        from <= find_from(entries, key, from) <= entries.len(),
        find_from(entries, key, from) < entries.len() ==> entries[find_from(
            entries,
            key,
            from,
        )].key == key,
        forall|j: int| from <= j < find_from(entries, key, from) ==> (#[trigger] entries[j]).key != key,
    decreases entries.len() - from,
{
    if from < entries.len() && entries[from].key != key {
        lemma_find_from(entries, key, from + 1);
    }
}

/// An index with the key, before which no entry has it, is the one found.
pub proof fn lemma_find_is(entries: Seq<EntryView>, key: Seq<char>, i: int)
    requires
        0 <= i <= entries.len(),
        i < entries.len() ==> entries[i].key == key,
        forall|j: int| 0 <= j < i ==> (#[trigger] entries[j]).key != key,
    ensures
        find(entries, key) == i,
{
    lemma_find_from(entries, key, 0);
    let f = find(entries, key);
    if f < i {
        assert(entries[f].key != key);
    }
}

/// In a list without repeated keys, the address found under an entry's key
/// is that entry's.
pub proof fn lemma_url_for_member(entries: Seq<EntryView>, i: int)
    requires
        distinct_keys(entries),
        0 <= i < entries.len(),
    ensures
        find(entries, entries[i].key) == i,
        url_for(entries, entries[i].key) == Some(entries[i].url),
{
    assert forall|j: int| 0 <= j < i implies (#[trigger] entries[j]).key != entries[i].key by {
        assert(entries[j].key != entries[i].key);
    }
    lemma_find_is(entries, entries[i].key, i);
}

/// Storing an entry keeps the keys distinct, makes its key resolve to its
/// address, and leaves every other key as it was.
pub proof fn lemma_put(entries: Seq<EntryView>, entry: EntryView, other: Seq<char>)
    requires
        distinct_keys(entries),
    ensures
        distinct_keys(put(entries, entry)),
        url_for(put(entries, entry), entry.key) == Some(entry.url),
        other != entry.key ==> url_for(put(entries, entry), other) == url_for(entries, other),
        put(entries, entry).len() == if find(entries, entry.key) < entries.len() {
            entries.len()
        } else {
            entries.len() + 1
        },
{
    lemma_find_from(entries, entry.key, 0);
    lemma_find_from(entries, other, 0);
    let i = find(entries, entry.key);
    let after = put(entries, entry);
    assert forall|a: int, b: int| 0 <= a < b < after.len() implies (#[trigger] after[a]).key != (
    #[trigger] after[b]).key by {
        if i < entries.len() {
            assert(entries[i].key == entry.key);
            assert(entries[a].key != entries[b].key);
        } else if b < entries.len() {
            assert(entries[a].key != entries[b].key);
        } else {
            assert(entries[a].key != entry.key);
        }
    }
    assert forall|j: int| 0 <= j < i implies (#[trigger] after[j]).key != entry.key by {
        assert(entries[j].key != entry.key);
    }
    lemma_find_is(after, entry.key, i);
    if other != entry.key {
        let o = find(entries, other);
        if o < entries.len() {
            assert forall|j: int| 0 <= j < o implies (#[trigger] after[j]).key != other by {
                assert(entries[j].key != other);
            }
            lemma_find_is(after, other, o);
        } else {
            assert forall|j: int| 0 <= j < after.len() implies (#[trigger] after[j]).key
                != other by {
                if j < entries.len() {
                    assert(entries[j].key != other);
                }
            }
            lemma_find_is(after, other, after.len() as int);
        }
    }
}

/// The oldest of the first `n` entries is one of them, and none of them has
/// a smaller stamp.
pub proof fn lemma_oldest_among(entries: Seq<EntryView>, n: int)
    requires
        1 <= n <= entries.len(),
    ensures
        0 <= oldest_among(entries, n) < n,
        forall|j: int| 0 <= j < n ==> entries[oldest_among(entries, n)].stamp <= (
        #[trigger] entries[j]).stamp,
    decreases n,
{
    if n > 1 {
        lemma_oldest_among(entries, n - 1);
    }
}

/// Taking one entry out keeps the keys distinct, makes its key miss, and
/// leaves every other key as it was.
pub proof fn lemma_remove(entries: Seq<EntryView>, i: int, other: Seq<char>)
    requires
        distinct_keys(entries),
        0 <= i < entries.len(),
    ensures
        distinct_keys(entries.remove(i)),
        url_for(entries.remove(i), entries[i].key) is None,
        other != entries[i].key ==> url_for(entries.remove(i), other) == url_for(entries, other),
{
    let after = entries.remove(i);
    assert forall|a: int, b: int| 0 <= a < b < after.len() implies (#[trigger] after[a]).key != (
    #[trigger] after[b]).key by {
        let a0 = if a < i { a } else { a + 1 };
        let b0 = if b < i { b } else { b + 1 };
        assert(entries[a0].key != entries[b0].key);
    }
    assert forall|j: int| 0 <= j < after.len() implies (#[trigger] after[j]).key
        != entries[i].key by {
        let j0 = if j < i { j } else { j + 1 };
        if j0 < i {
            assert(entries[j0].key != entries[i].key);
        } else {
            assert(entries[i].key != entries[j0].key);
        }
    }
    lemma_find_is(after, entries[i].key, after.len() as int);
    if other != entries[i].key {
        lemma_find_from(entries, other, 0);
        let o = find(entries, other);
        if o < entries.len() {
            let o1 = if o < i { o } else { o - 1 };
            assert(after[o1] == entries[o]);
            assert forall|j: int| 0 <= j < o1 implies (#[trigger] after[j]).key != other by {
                let j0 = if j < i { j } else { j + 1 };
                assert(entries[j0].key != other);
            }
            lemma_find_is(after, other, o1);
        } else {
            assert forall|j: int| 0 <= j < after.len() implies (#[trigger] after[j]).key
                != other by {
                let j0 = if j < i { j } else { j + 1 };
                assert(entries[j0].key != other);
            }
            lemma_find_is(after, other, after.len() as int);
        }
    }
}

fn position(entries: &Vec<CacheEntry>, key: &String) -> (r: usize)
    ensures
        r == find(views(entries@), key@),
        r <= entries.len(),
{
    let ghost model = views(entries@);
    let mut i: usize = 0;
    while i < entries.len()
        invariant
            i <= entries.len(),
            model == views(entries@),
            find(model, key@) == find_from(model, key@, i as int),
        decreases entries.len() - i,
    {
        if entries[i].key == *key {
            return i;
        }
        i += 1;
    }
    i
}

fn put_entry(entries: &mut Vec<CacheEntry>, entry: CacheEntry)
    ensures
        views(final(entries)@) == put(views(old(entries)@), entry@),
{
    let i = position(entries, &entry.key);
    if i < entries.len() {
        entries[i] = entry;
        assert(views(entries@) =~= views(old(entries)@).update(i as int, entry@));
    } else {
        entries.push(entry);
        assert(views(entries@) =~= views(old(entries)@).push(entry@));
    }
}

fn oldest_index(entries: &Vec<CacheEntry>) -> (r: usize)
    requires
        entries.len() > 0,
    ensures
        r == oldest(views(entries@)),
        r < entries.len(),
{
    let ghost model = views(entries@);
    let mut best: usize = 0;
    let mut n: usize = 1;
    while n < entries.len()
        invariant
            1 <= n <= entries.len(),
            best < n,
            model == views(entries@),
            best == oldest_among(model, n as int),
        decreases entries.len() - n,
    {
        if entries[n].stamp < entries[best].stamp {
            best = n;
        }
        n += 1;
    }
    best
}

/// Keeps the stored entries that are still fresh at `now_unix_secs`, one
/// for each key; the others are dropped.
pub fn load_disk_cache(stored: Vec<CacheEntry>, now_unix_secs: u64) -> (kept: Vec<CacheEntry>)
    ensures
        views(kept@) == fresh_entries(views(stored@), now_unix_secs),
        distinct_keys(views(kept@)),
{
    let ghost model = views(stored@);
    let mut kept: Vec<CacheEntry> = Vec::new();
    let mut i: usize = 0;
    assert(model.take(0) =~= Seq::<EntryView>::empty());
    assert(views(kept@) =~= Seq::<EntryView>::empty());
    while i < stored.len()
        invariant
            i <= stored.len(),
            model == views(stored@),
            views(kept@) == fresh_entries(model.take(i as int), now_unix_secs),
        decreases stored.len() - i,
    {
        let ghost before = views(kept@);
        let stamp = stored[i].stamp;
        proof {
            let next = model.take(i + 1);
            assert(next.drop_last() =~= model.take(i as int));
            assert(next.last() == stored@[i as int]@);
        }
        if now_unix_secs <= stamp || now_unix_secs - stamp < DISK_TTL_SECS {
            put_entry(&mut kept, stored[i].clone());
        }
        i += 1;
    }
    assert(model.take(i as int) =~= model);
    proof {
        lemma_fresh_entries_keep_one_per_key(model, now_unix_secs);
    }
    kept
}

/// Spaces the external lookups: one may start only when the least interval
/// has passed since the one before it started.
#[derive(Debug, Clone, Copy, PartialEq, Eq, Structural)]
pub struct RateLimiter {
    /// When the last turn was granted, on the caller's monotonic clock in
    /// milliseconds.
    pub last_turn_ms: Option<u64>,
}

impl RateLimiter {
    /// A limiter that has granted no turn yet.
    pub fn new() -> (r: Self)
        ensures
            r.last_turn_ms is None,
    {
        RateLimiter { last_turn_ms: None }
    }

    /// How long the caller must sleep at `now_ms` before it takes its turn.
    pub fn wait_needed(&self, now_ms: u64) -> (wait_ms: u64)
        ensures
            wait_ms == wait_ms_of(self.last_turn_ms, now_ms),
            wait_ms <= MIN_REQUEST_INTERVAL_MS,
    {
        match self.last_turn_ms {
            Some(at) => {
                let elapsed: u64 = if now_ms >= at {
                    now_ms - at
                } else {
                    0
                };
                if elapsed < MIN_REQUEST_INTERVAL_MS {
                    MIN_REQUEST_INTERVAL_MS - elapsed
                } else {
                    0
                }
            },
            None => 0,
        }
    }

    /// Records that a turn was taken at `now_ms`.
    pub fn turn_taken(&mut self, now_ms: u64)
        ensures
            final(self).last_turn_ms == Some(now_ms),
    {
        self.last_turn_ms = Some(now_ms);
    }
}

/// A caller that sleeps at least as long as it was told starts its lookup
/// no sooner than the least interval after the start of the one before.
pub proof fn lemma_turns_are_spaced(last: u64, asked_at: u64, started_at: u64)
    requires
        last <= asked_at,
        started_at >= asked_at + wait_ms_of(Some(last), asked_at),
    ensures
        started_at - last >= MIN_REQUEST_INTERVAL_MS,
{
}

/// What a resolution came to: an address from the cache, or the lookup that
/// has to be made.
#[derive(Debug, PartialEq, Eq)]
pub enum Resolution {
    /// The cache holds the address.
    Cached(String),
    /// The cache holds nothing: fetch `url` after sleeping `wait_ms`
    /// milliseconds.
    Lookup { url: String, wait_ms: u64 },
}

/// The mathematical value of a [`Resolution`].
pub enum ResolutionView {
    Cached(Seq<char>),
    Lookup { url: Seq<char>, wait_ms: u64 },
}

impl View for Resolution {
    type V = ResolutionView;

    open spec fn view(&self) -> ResolutionView {
        match *self {
            Resolution::Cached(url) => ResolutionView::Cached(url@),
            Resolution::Lookup { url, wait_ms } => ResolutionView::Lookup { url: url@, wait_ms },
        }
    }
}

/// The mathematical value of an [`AlbumArtResolver`].
pub struct ResolverView {
    pub memory: Seq<EntryView>,
    pub disk: Seq<EntryView>,
    pub dirty: bool,
    pub last_request_at: Option<u64>,
}

/// The address that the cache holds for a key at `now_unix_secs`: that of
/// the memory tier, whatever its age, else that of the disk tier if it is
/// still fresh.
pub open spec fn cached_url(s: ResolverView, key: Seq<char>, now_unix_secs: u64) -> Option<
    Seq<char>,
> {
    match url_for(s.memory, key) {
        Some(url) => Some(url),
        None => {
            let i = find(s.disk, key);
            if i < s.disk.len() && is_fresh(s.disk[i].stamp, now_unix_secs) {
                Some(s.disk[i].url)
            } else {
                None
            }
        },
    }
}

/// The cache after a resolution: a hit in the disk tier alone is promoted
/// into the memory tier; nothing else changes.
pub open spec fn after_resolve(
    s: ResolverView,
    key: Seq<char>,
    now_unix_secs: u64,
    now_ms: u64,
) -> ResolverView {
    if url_for(s.memory, key) is Some {
        s
    } else {
        match cached_url(s, key, now_unix_secs) {
            Some(url) => ResolverView {
                memory: memory_after_insert(s.memory, EntryView { key, url, stamp: now_ms }),
                ..s
            },
            None => s,
        }
    }
}

/// What a resolution returns: the cached address, or the lookup for the
/// artist and the album with the wait that the limiter asks for.
pub open spec fn resolution_of(
    s: ResolverView,
    artist: Seq<char>,
    album: Seq<char>,
    now_unix_secs: u64,
    now_ms: u64,
) -> ResolutionView {
    match cached_url(s, cache_key_of(artist, album), now_unix_secs) {
        Some(url) => ResolutionView::Cached(url),
        None => ResolutionView::Lookup {
            url: lookup_url_of(artist, album),
            wait_ms: wait_ms_of(s.last_request_at, now_ms),
        },
    }
}

/// The cache after a lookup's answer: an address that was found is stored
/// in both tiers and the disk tier is marked for saving; without one
/// nothing changes.
pub open spec fn after_complete(
    s: ResolverView,
    key: Seq<char>,
    found: Option<Seq<char>>,
    now_unix_secs: u64,
    now_ms: u64,
) -> ResolverView {
    match found {
        Some(url) => ResolverView {
            memory: memory_after_insert(s.memory, EntryView { key, url, stamp: now_ms }),
            disk: put(s.disk, EntryView { key, url, stamp: now_unix_secs }),
            dirty: true,
            ..s
        },
        None => s,
    }
}

/// What holds of every cache: the memory tier keeps within its capacity,
/// and neither tier holds a key twice.
pub open spec fn well_formed(s: ResolverView) -> bool {
    &&& s.memory.len() <= MAX_MEMORY_ENTRIES
    &&& distinct_keys(s.memory)
    &&& distinct_keys(s.disk)
}

/// An insertion keeps the memory tier well formed and makes the new key
/// resolve to its address.
pub proof fn lemma_memory_after_insert(entries: Seq<EntryView>, entry: EntryView)
    requires
        distinct_keys(entries),
        entries.len() <= MAX_MEMORY_ENTRIES,
    ensures
        distinct_keys(memory_after_insert(entries, entry)),
        memory_after_insert(entries, entry).len() <= MAX_MEMORY_ENTRIES,
        url_for(memory_after_insert(entries, entry), entry.key) == Some(entry.url),
{
    if find(entries, entry.key) < entries.len() {
        lemma_put(entries, entry, entry.key);
    } else {
        if entries.len() >= MAX_MEMORY_ENTRIES {
            lemma_oldest_among(entries, entries.len() as int);
            lemma_remove(entries, oldest(entries), entry.key);
        }
        lemma_put(evicted(entries), entry, entry.key);
    }
}

/// Inserting under a key that the memory tier already holds evicts
/// nothing, however full the tier is: the tier keeps its length, the key
/// resolves to the new address, and every other key resolves as before.
pub proof fn lemma_insert_of_held_key_evicts_nothing(
    entries: Seq<EntryView>,
    entry: EntryView,
    other: Seq<char>,
)
    requires
        distinct_keys(entries),
        url_for(entries, entry.key) is Some,
    ensures
        memory_after_insert(entries, entry).len() == entries.len(),
        memory_after_insert(entries, entry) == entries.update(find(entries, entry.key), entry),
        url_for(memory_after_insert(entries, entry), entry.key) == Some(entry.url),
        other != entry.key ==> url_for(memory_after_insert(entries, entry), other) == url_for(
            entries,
            other,
        ),
{
    lemma_put(entries, entry, other);
}

/// The loaded entries hold no key twice, whatever was stored, and are no
/// more than were stored.
pub proof fn lemma_fresh_entries_keep_one_per_key(entries: Seq<EntryView>, now: u64)
    ensures
        distinct_keys(fresh_entries(entries, now)),
        fresh_entries(entries, now).len() <= entries.len(),
    decreases entries.len(),
{
    if entries.len() > 0 {
        lemma_fresh_entries_keep_one_per_key(entries.drop_last(), now);
        lemma_put(fresh_entries(entries.drop_last(), now), entries.last(), entries.last().key);
    }
}

/// A key resolves in the loaded tier to the address of the last stored
/// entry under it that is fresh at the time of loading, and misses where
/// there is none.
pub proof fn lemma_fresh_entries_resolve(entries: Seq<EntryView>, now: u64, key: Seq<char>)
    ensures
        url_for(fresh_entries(entries, now), key) == last_fresh(entries, now, key),
    decreases entries.len(),
{
    if entries.len() == 0 {
        lemma_find_from(fresh_entries(entries, now), key, 0);
    } else {
        let front = entries.drop_last();
        lemma_fresh_entries_keep_one_per_key(front, now);
        lemma_fresh_entries_resolve(front, now, key);
        lemma_put(fresh_entries(front, now), entries.last(), key);
    }
}

/// Resolves artwork for artists and albums through two cache tiers, and
/// says which lookup to make where both miss.
#[derive(Debug)]
pub struct AlbumArtResolver {
    memory_cache: Vec<CacheEntry>,
    disk_cache: Vec<CacheEntry>,
    disk_cache_dirty: bool,
    limiter: RateLimiter,
}

impl View for AlbumArtResolver {
    type V = ResolverView;

    closed spec fn view(&self) -> ResolverView {
        ResolverView {
            memory: views(self.memory_cache@),
            disk: views(self.disk_cache@),
            dirty: self.disk_cache_dirty,
            last_request_at: self.limiter.last_turn_ms,
        }
    }
}

impl AlbumArtResolver {
    /// Whether the cache is well formed. Every cache that this type hands
    /// out is, and its methods keep it so.
    pub open spec fn wf(&self) -> bool {
        well_formed(self@)
    }

    /// A cache over the entries that were stored on disk: those that are
    /// still fresh at `now_unix_secs` form the disk tier, the memory tier is
    /// empty, and nothing waits to be saved.
    pub fn new(stored: Vec<CacheEntry>, now_unix_secs: u64) -> (r: Self)
        ensures
            r.wf(),
            r@ == (ResolverView {
                memory: Seq::empty(),
                disk: fresh_entries(views(stored@), now_unix_secs),
                dirty: false,
                last_request_at: None,
            }),
    {
        let r = AlbumArtResolver {
            memory_cache: Vec::new(),
            disk_cache: load_disk_cache(stored, now_unix_secs),
            disk_cache_dirty: false,
            limiter: RateLimiter::new(),
        };
        assert(views(r.memory_cache@) =~= Seq::<EntryView>::empty());
        r
    }

    /// A cache over the entries that were stored on disk, pruned by the
    /// system clock.
    pub fn load(stored: Vec<CacheEntry>) -> (r: Self)
        ensures
            r.wf(),
            exists|now: u64|
                r@ == (ResolverView {
                    memory: Seq::empty(),
                    disk: #[trigger] fresh_entries(views(stored@), now),
                    dirty: false,
                    last_request_at: None,
                }),
    {
        let now = now_unix_secs();
        let ghost model = views(stored@);
        let r = AlbumArtResolver::new(stored, now);
        assert(r@.disk == fresh_entries(model, now));
        r
    }

    /// Stores an address in the memory tier. Under a key that the tier
    /// holds it replaces that entry; a new key at capacity first makes the
    /// entry with the smallest stamp leave.
    pub fn insert_memory_cache(&mut self, key: String, url: String, now_ms: u64)
        requires
            old(self).wf(),
        ensures
            final(self).wf(),
            final(self)@ == (ResolverView {
                memory: memory_after_insert(
                    old(self)@.memory,
                    EntryView { key: key@, url: url@, stamp: now_ms },
                ),
                ..old(self)@
            }),
    {
        proof {
            lemma_memory_after_insert(
                self@.memory,
                EntryView { key: key@, url: url@, stamp: now_ms },
            );
        }
        let held = position(&self.memory_cache, &key) < self.memory_cache.len();
        if !held && self.memory_cache.len() >= MAX_MEMORY_ENTRIES {
            let victim = oldest_index(&self.memory_cache);
            let ghost before = self.memory_cache@;
            self.memory_cache.remove(victim);
            assert(views(self.memory_cache@) =~= views(before).remove(victim as int));
        }
        put_entry(&mut self.memory_cache, CacheEntry { key, url, stamp: now_ms });
    }

    /// Stores an address in the disk tier and marks the tier for saving.
    pub fn insert_disk_cache(&mut self, key: String, url: String, now_unix_secs: u64)
        ensures
            final(self)@ == (ResolverView {
                disk: put(
                    old(self)@.disk,
                    EntryView { key: key@, url: url@, stamp: now_unix_secs },
                ),
                dirty: true,
                ..old(self)@
            }),
            old(self).wf() ==> final(self).wf(),
    {
        proof {
            if self.wf() {
                lemma_put(
                    self@.disk,
                    EntryView { key: key@, url: url@, stamp: now_unix_secs },
                    key@,
                );
            }
        }
        put_entry(&mut self.disk_cache, CacheEntry { key, url, stamp: now_unix_secs });
        self.disk_cache_dirty = true;
    }

    /// Looks an artist and an album up in the cache. The memory tier
    /// answers first, whatever the entry's age; then the disk tier, if its
    /// entry is fresh at `now_unix_secs`, and that entry is promoted into
    /// the memory tier with the stamp `now_ms`. Where both miss, the result
    /// names the lookup to make and the wait before it, and the cache is
    /// unchanged.
    pub fn resolve(&mut self, artist: &str, album: &str, now_unix_secs: u64, now_ms: u64) -> (r:
        Resolution)
        requires
            old(self).wf(),
        ensures
            final(self).wf(),
            r@ == resolution_of(old(self)@, artist@, album@, now_unix_secs, now_ms),
            final(self)@ == after_resolve(
                old(self)@,
                cache_key_of(artist@, album@),
                now_unix_secs,
                now_ms,
            ),
    {
        let key = cache_key(artist, album);
        proof {
            lemma_find_from(self@.memory, key@, 0);
            lemma_find_from(self@.disk, key@, 0);
        }
        let m = position(&self.memory_cache, &key);
        if m < self.memory_cache.len() {
            return Resolution::Cached(self.memory_cache[m].url.clone());
        }
        let d = position(&self.disk_cache, &key);
        if d < self.disk_cache.len() {
            let stamp = self.disk_cache[d].stamp;
            if now_unix_secs <= stamp || now_unix_secs - stamp < DISK_TTL_SECS {
                let url = self.disk_cache[d].url.clone();
                self.insert_memory_cache(key, url.clone(), now_ms);
                return Resolution::Cached(url);
            }
        }
        Resolution::Lookup { url: lookup_url(artist, album), wait_ms: self.limiter.wait_needed(now_ms) }
    }

    /// Records that the lookup started at `now_ms`.
    pub fn lookup_started(&mut self, now_ms: u64)
        ensures
            final(self)@ == (ResolverView { last_request_at: Some(now_ms), ..old(self)@ }),
            old(self).wf() ==> final(self).wf(),
    {
        self.limiter.turn_taken(now_ms);
    }

    /// Takes in the answer of the lookup for an artist and an album, and
    /// returns the artwork that it found. An address that was found is
    /// stored in both tiers; a lookup that found none changes nothing.
    pub fn complete(
        &mut self,
        artist: &str,
        album: &str,
        response: &LookupResponse,
        now_unix_secs: u64,
        now_ms: u64,
    ) -> (r: Option<String>)
        requires
            old(self).wf(),
        ensures
            final(self).wf(),
            text_of(r) == artwork_of(*response),
            final(self)@ == after_complete(
                old(self)@,
                cache_key_of(artist@, album@),
                artwork_of(*response),
                now_unix_secs,
                now_ms,
            ),
    {
        match artwork_from_response(response) {
            Some(url) => {
                let key = cache_key(artist, album);
                self.insert_memory_cache(key.clone(), url.clone(), now_ms);
                self.insert_disk_cache(key, url.clone(), now_unix_secs);
                Some(url)
            },
            None => None,
        }
    }

    /// Whether the disk tier has changed since it was last saved.
    pub fn is_dirty(&self) -> (r: bool)
        ensures
            r == self@.dirty,
    {
        self.disk_cache_dirty
    }

    /// The entries of the disk tier, to be written out.
    pub fn disk_entries(&self) -> (r: &Vec<CacheEntry>)
        ensures
            views(r@) == self@.disk,
    {
        &self.disk_cache
    }

    /// How many entries the memory tier holds.
    pub fn memory_len(&self) -> (r: usize)
        ensures
            r == self@.memory.len(),
    {
        self.memory_cache.len()
    }

    /// Records that the disk tier was saved as it stands.
    pub fn mark_saved(&mut self)
        ensures
            final(self)@ == (ResolverView { dirty: false, ..old(self)@ }),
            old(self).wf() ==> final(self).wf(),
    {
        self.disk_cache_dirty = false;
    }
}

/// Inserting a key that the memory tier does not hold, when the tier is
/// full, removes exactly the entry with the smallest stamp: that entry's key
/// misses afterwards, every other entry is found as before, the new key is
/// found, and the tier is still full.
pub proof fn lemma_full_memory_evicts_oldest(entries: Seq<EntryView>, entry: EntryView, j: int)
    requires
        distinct_keys(entries),
        entries.len() == MAX_MEMORY_ENTRIES,
        url_for(entries, entry.key) is None,
        0 <= j < entries.len(),
    ensures
        0 <= oldest(entries) < entries.len(),
        forall|k: int|
            0 <= k < entries.len() ==> entries[oldest(entries)].stamp <= (#[trigger] entries[k]).stamp,
        memory_after_insert(entries, entry).len() == MAX_MEMORY_ENTRIES,
        url_for(memory_after_insert(entries, entry), entries[oldest(entries)].key) is None,
        j != oldest(entries) ==> url_for(memory_after_insert(entries, entry), entries[j].key)
            == Some(entries[j].url),
        url_for(memory_after_insert(entries, entry), entry.key) == Some(entry.url),
{
    let victim = oldest(entries);
    lemma_oldest_among(entries, entries.len() as int);
    lemma_find_from(entries, entry.key, 0);
    assert(entries[victim].key != entry.key);
    assert(entries[j].key != entry.key);
    let rest = entries.remove(victim);
    lemma_remove(entries, victim, entry.key);
    lemma_remove(entries, victim, entries[j].key);
    lemma_put(rest, entry, entries[victim].key);
    lemma_put(rest, entry, entries[j].key);
    lemma_url_for_member(entries, j);
    if j != victim {
        if j < victim {
            assert(entries[j].key != entries[victim].key);
        } else {
            assert(entries[victim].key != entries[j].key);
        }
    }
}

/// Where each key stands once in what was stored, loading keeps exactly the
/// fresh entries: a key resolves in the loaded tier if and only if the
/// stored entry under it is fresh at the time of loading, and then to the
/// same address.
pub proof fn lemma_fresh_entries(entries: Seq<EntryView>, now: u64, key: Seq<char>)
    requires
        distinct_keys(entries),
    ensures
        distinct_keys(fresh_entries(entries, now)),
        fresh_entries(entries, now).len() <= entries.len(),
        url_for(fresh_entries(entries, now), key) == if find(entries, key) < entries.len()
            && is_fresh(entries[find(entries, key)].stamp, now) {
            Some(entries[find(entries, key)].url)
        } else {
            None
        },
    decreases entries.len(),
{
    lemma_find_from(entries, key, 0);
    if entries.len() == 0 {
        lemma_find_from(fresh_entries(entries, now), key, 0);
    } else {
        let front = entries.drop_last();
        let last = entries.last();
        let rest = fresh_entries(front, now);
        assert forall|a: int, b: int| 0 <= a < b < front.len() implies (#[trigger] front[a]).key != (
        #[trigger] front[b]).key by {
            assert(entries[a].key != entries[b].key);
        }
        lemma_fresh_entries(front, now, key);
        lemma_fresh_entries(front, now, last.key);
        lemma_find_from(front, key, 0);
        lemma_find_from(front, last.key, 0);
        let i = find(front, key);
        if i < front.len() {
            assert(front[i] == entries[i]);
            assert forall|j: int| 0 <= j < i implies (#[trigger] entries[j]).key != key by {
                assert(front[j].key != key);
            }
            lemma_find_is(entries, key, i);
            assert(entries[i].key != last.key);
        } else {
            assert forall|j: int| 0 <= j < front.len() implies (#[trigger] entries[j]).key
                != key by {
                assert(front[j].key != key);
            }
            if last.key == key {
                lemma_find_is(entries, key, front.len() as int);
            } else {
                lemma_find_is(entries, key, entries.len() as int);
            }
        }
        let l = find(front, last.key);
        if l < front.len() {
            assert(entries[l].key != last.key);
        }
        assert(url_for(rest, last.key) is None);
        if is_fresh(last.stamp, now) {
            assert(fresh_entries(entries, now) == put(rest, last));
            lemma_put(rest, last, key);
        }
    }
}

/// A fresh entry of the disk tier that the memory tier lacks is promoted by
/// a resolution: afterwards the memory tier answers for the key, with the
/// same address.
pub proof fn lemma_disk_hit_is_promoted(s: ResolverView, key: Seq<char>, now_unix_secs: u64, now_ms: u64)
    requires
        well_formed(s),
        url_for(s.memory, key) is None,
        cached_url(s, key, now_unix_secs) is Some,
    ensures
        well_formed(after_resolve(s, key, now_unix_secs, now_ms)),
        url_for(after_resolve(s, key, now_unix_secs, now_ms).memory, key) == cached_url(
            s,
            key,
            now_unix_secs,
        ),
{
    let url = cached_url(s, key, now_unix_secs)->0;
    lemma_memory_after_insert(s.memory, EntryView { key, url, stamp: now_ms });
}

/// A cache that has answered for an artist and an album answers again, at
/// any later time, with the same address and without a lookup, and is not
/// changed by it.
pub proof fn lemma_warm_cache_needs_no_lookup(
    s: ResolverView,
    artist: Seq<char>,
    album: Seq<char>,
    now: (u64, u64),
    later: (u64, u64),
)
    requires
        well_formed(s),
        cached_url(s, cache_key_of(artist, album), now.0) is Some,
    ensures
        ({
            let key = cache_key_of(artist, album);
            let warm = after_resolve(s, key, now.0, now.1);
            &&& resolution_of(warm, artist, album, later.0, later.1) == resolution_of(
                s,
                artist,
                album,
                now.0,
                now.1,
            )
            &&& resolution_of(warm, artist, album, later.0, later.1) is Cached
            &&& after_resolve(warm, key, later.0, later.1) == warm
        }),
{
    let key = cache_key_of(artist, album);
    if url_for(s.memory, key) is None {
        lemma_disk_hit_is_promoted(s, key, now.0, now.1);
    }
}

/// Once a lookup has found an address, every later resolution of the same
/// artist and album is answered from the cache with that address, without
/// a lookup, and does not change the cache.
pub proof fn lemma_completed_lookup_is_cached(
    s: ResolverView,
    artist: Seq<char>,
    album: Seq<char>,
    url: Seq<char>,
    now: (u64, u64),
    later: (u64, u64),
)
    requires
        well_formed(s),
    ensures
        ({
            let key = cache_key_of(artist, album);
            let warm = after_complete(s, key, Some(url), now.0, now.1);
            &&& well_formed(warm)
            &&& resolution_of(warm, artist, album, later.0, later.1) == ResolutionView::Cached(url)
            &&& after_resolve(warm, key, later.0, later.1) == warm
        }),
{
    let key = cache_key_of(artist, album);
    lemma_memory_after_insert(s.memory, EntryView { key, url, stamp: now.1 });
    lemma_put(s.disk, EntryView { key, url, stamp: now.0 }, key);
}

} // verus!
