//! In-memory, time-bounded cache of search results, keyed by query and provider.
//!
//! The cache is an advisory accelerator: expired entries are not removed on a
//! read, only by the eviction pass that `set` runs when the cache is full.

use vstd::prelude::*;
use crate::config::CacheConfig;
use crate::results::{SearchResult, clone_results};
use crate::text::{bool_string, bool_text, decimal, decimal_of, lower_of, lowercase, owned};

verus! {

/// std's `Instant`, a reading of the monotonic clock, held opaque.
#[verifier::external_type_specification]
#[verifier::external_body]
pub struct ExInstant(std::time::Instant);

/// Relies on `Instant::now`: reads the monotonic clock. Nothing is known of the value.
#[verifier::external_body]
fn clock_start() -> std::time::Instant {
    std::time::Instant::now()
}

/// Relies on `Instant::elapsed`: the whole milliseconds since `origin`.
/// Nothing is known of the value.
#[verifier::external_body]
fn millis_since(origin: &std::time::Instant) -> u64 {
    origin.elapsed().as_millis() as u64
}

/// The key under which results are cached: the lower-cased query, prefixed
/// with `"<provider>:"` when a provider is given.
pub open spec fn cache_key_of(query: Seq<char>, provider: Option<Seq<char>>) -> Seq<char> {
    match provider {
        Some(p) => p + seq![':'] + lower_of(query),
        None => lower_of(query),
    }
}

/// An optional string as an optional character sequence.
pub open spec fn opt_view(p: Option<&str>) -> Option<Seq<char>> {
    match p {
        Some(s) => Some(s@),
        None => None,
    }
}

/// What the cache holds for one key.
pub struct CacheRecord {
    pub results: Seq<SearchResult>,
    pub provider: Seq<char>,
    pub created_ms: u64,
    pub ttl_seconds: u64,
}

/// A record is fresh at `now_ms` while less than its time-to-live has passed
/// since it was created (a clock reading before the creation counts as no time).
pub open spec fn is_fresh(rec: CacheRecord, now_ms: u64) -> bool {
    now_ms < rec.created_ms || (now_ms - rec.created_ms) < rec.ttl_seconds * 1000
}

/// What `get` returns for `key` at `now_ms` from a cache with contents `m`.
pub open spec fn lookup(
    m: Map<Seq<char>, CacheRecord>,
    enabled: bool,
    key: Seq<char>,
    now_ms: u64,
) -> Option<(Seq<SearchResult>, Seq<char>)> {
    if enabled && m.contains_key(key) && is_fresh(m[key], now_ms) {
        Some((m[key].results, m[key].provider))
    } else {
        None
    }
}

/// The result of a `get` as plain values.
pub open spec fn hit_view(r: Option<(Vec<SearchResult>, String)>) -> Option<(Seq<SearchResult>, Seq<char>)> {
    match r {
        Some((v, p)) => Some((v@, p@)),
        None => None,
    }
}

/// The relation between the contents before (`m0`) and after (`m1`) storing
/// `rec` under `key` at `now_ms`, for a cache with the given capacity.
pub open spec fn stored(
    m0: Map<Seq<char>, CacheRecord>,
    m1: Map<Seq<char>, CacheRecord>,
    key: Seq<char>,
    rec: CacheRecord,
    max_entries: usize,
    now_ms: u64,
) -> bool {
    &&& m1.contains_key(key) && m1[key] == rec
    &&& forall|k: Seq<char>| #[trigger] m1.contains_key(k) && k != key
        ==> m0.contains_key(k) && m1[k] == m0[k]
    &&& m0.len() < max_entries ==> m1 == m0.insert(key, rec)
    &&& m0.len() >= max_entries ==> {
        &&& forall|k: Seq<char>| #[trigger] m1.contains_key(k) && k != key
            ==> is_fresh(m0[k], now_ms)
        &&& max_entries > 0 ==> m1.len() <= max_entries
        &&& fresh_keys(m0, now_ms).len() < max_entries ==> forall|k: Seq<char>|
            #[trigger] m0.contains_key(k) && is_fresh(m0[k], now_ms) ==> m1.contains_key(k)
    }
}

/// The keys of `m` whose records are still fresh at `now_ms`.
pub open spec fn fresh_keys(m: Map<Seq<char>, CacheRecord>, now_ms: u64) -> Set<Seq<char>> {
    m.dom().filter(|k: Seq<char>| is_fresh(m[k], now_ms))
}

struct CacheEntry {
    key: String,
    results: Vec<SearchResult>,
    provider: String,
    created_ms: u64,
    ttl_seconds: u64,
}

impl CacheEntry {
    spec fn record(self) -> CacheRecord {
        CacheRecord {
            results: self.results@,
            provider: self.provider@,
            created_ms: self.created_ms,
            ttl_seconds: self.ttl_seconds,
        }
    }
}

spec fn keys_unique(s: Seq<CacheEntry>) -> bool {
    forall|i: int, j: int|
        0 <= i < s.len() && 0 <= j < s.len() && i != j ==> #[trigger] s[i].key@ != #[trigger] s[j].key@
}

spec fn has_key(s: Seq<CacheEntry>, k: Seq<char>) -> bool {
    exists|i: int| 0 <= i < s.len() && #[trigger] s[i].key@ == k
}

spec fn entries_view(s: Seq<CacheEntry>) -> Map<Seq<char>, CacheRecord> {
    Map::new(
        |k: Seq<char>| has_key(s, k),
        |k: Seq<char>| s[choose|i: int| 0 <= i < s.len() && #[trigger] s[i].key@ == k].record(),
    )
}

spec fn keys_of(s: Seq<CacheEntry>) -> Seq<Seq<char>> {
    s.map_values(|e: CacheEntry| e.key@)
}

proof fn lemma_view_at(s: Seq<CacheEntry>, i: int)
    requires
        keys_unique(s),
        0 <= i < s.len(),
    ensures
        entries_view(s).contains_key(s[i].key@),
        entries_view(s)[s[i].key@] == s[i].record(),
{
    let k = s[i].key@;
    assert(has_key(s, k));
    let j = choose|j: int| 0 <= j < s.len() && #[trigger] s[j].key@ == k;
    assert(j == i);
}

proof fn lemma_view_len(s: Seq<CacheEntry>)
    requires
        keys_unique(s),
    ensures
        entries_view(s).dom().finite(),
        entries_view(s).len() == s.len(),
{
    let ks = keys_of(s);
    assert(ks.no_duplicates()) by {
        assert forall|i: int, j: int| 0 <= i < ks.len() && 0 <= j < ks.len() && i != j
            implies ks[i] != ks[j] by {
            assert(ks[i] == s[i].key@);
            assert(ks[j] == s[j].key@);
        }
    }
    assert(entries_view(s).dom() =~= ks.to_set()) by {
        assert forall|k: Seq<char>| entries_view(s).dom().contains(k) implies ks.to_set().contains(k) by {
            let i = choose|i: int| 0 <= i < s.len() && #[trigger] s[i].key@ == k;
            assert(ks[i] == k);
        }
        assert forall|k: Seq<char>| ks.to_set().contains(k) implies entries_view(s).dom().contains(k) by {
            let i = choose|i: int| 0 <= i < ks.len() && ks[i] == k;
            assert(s[i].key@ == k);
        }
    }
    ks.unique_seq_to_set();
    vstd::seq_lib::seq_to_set_is_finite(ks);
}

/// In-memory cache for search results.
pub struct SearchCache {
    entries: Vec<CacheEntry>,
    config: CacheConfig,
    origin: std::time::Instant,
}

/// Cache statistics: a snapshot of the entry count and the settings.
#[derive(Debug, Clone, Copy)]
pub struct CacheStats {
    pub entries: usize,
    pub max_entries: usize,
    pub ttl_seconds: u64,
    pub enabled: bool,
}

/// How cache statistics are displayed.
pub open spec fn stats_text(s: CacheStats) -> Seq<char> {
    "Cache Statistics:\n  Enabled: "@ + bool_text(s.enabled) + "\n  Entries: "@ + decimal_of(s.entries as nat)
        + " / "@ + decimal_of(s.max_entries as nat) + "\n  TTL: "@ + decimal_of(s.ttl_seconds as nat)
        + " seconds\n"@
}

impl CacheStats {
    /// The statistics as lines of text.
    pub fn to_string(&self) -> (r: String)
        ensures
            r@ == stats_text(*self),
    {
        let mut s = owned("Cache Statistics:\n  Enabled: ");
        s.append(bool_string(self.enabled).as_str());
        s.append("\n  Entries: ");
        s.append(decimal(self.entries as u64).as_str());
        s.append(" / ");
        s.append(decimal(self.max_entries as u64).as_str());
        s.append("\n  TTL: ");
        s.append(decimal(self.ttl_seconds).as_str());
        s.append(" seconds\n");
        s
    }
}

impl View for SearchCache {
    type V = Map<Seq<char>, CacheRecord>;

    closed spec fn view(&self) -> Map<Seq<char>, CacheRecord> {
        entries_view(self.entries@)
    }
}

impl SearchCache {
    /// The settings the cache was made with.
    pub closed spec fn settings(&self) -> CacheConfig {
        self.config
    }

    /// The cache's internal consistency: one entry per key.
    pub closed spec fn wf(&self) -> bool {
        keys_unique(self.entries@)
    }

    /// Create a new, empty cache with the given configuration.
    pub fn new(config: CacheConfig) -> (r: Self)
        ensures
            r.wf(),
            r@ == Map::<Seq<char>, CacheRecord>::empty(),
            r.settings() == config,
    {
        let r = SearchCache { entries: Vec::new(), config, origin: clock_start() };
        assert(r@ =~= Map::<Seq<char>, CacheRecord>::empty());
        r
    }

    /// The cache key for a query, optionally scoped to a provider.
    pub fn cache_key(query: &str, provider: Option<&str>) -> (r: String)
        ensures
            r@ == cache_key_of(query@, opt_view(provider)),
    {
        let lower = lowercase(query);
        match provider {
            Some(p) => {
                let mut k = owned(p);
                k.append(":");
                k.append(lower.as_str());
                proof { reveal_strlit(":"); }
                k
            },
            None => lower,
        }
    }

    fn find(&self, key: &String) -> (r: Option<usize>)
        ensures
            match r {
                Some(i) => i < self.entries@.len() && self.entries@[i as int].key@ == key@,
                None => !has_key(self.entries@, key@),
            },
    {
        let mut i: usize = 0;
        while i < self.entries.len()
            invariant
                i <= self.entries@.len(),
                forall|j: int| 0 <= j < i ==> #[trigger] self.entries@[j].key@ != key@,
            decreases self.entries@.len() - i,
        {
            if self.entries[i].key == *key {
                return Some(i);
            }
            i = i + 1;
        }
        None
    }

    /// Cached results for `query` (scoped to `provider` if given), read at
    /// `now_ms` milliseconds on the cache's clock.
    pub fn get_at(&self, query: &str, provider: Option<&str>, now_ms: u64) -> (r: Option<(Vec<SearchResult>, String)>)
        requires
            self.wf(),
        ensures
            hit_view(r) == lookup(
                self@,
                self.settings().enabled,
                cache_key_of(query@, opt_view(provider)),
                now_ms,
            ),
    {
        if !self.config.enabled {
            return None;
        }
        let key = Self::cache_key(query, provider);
        match self.find(&key) {
            Some(i) => {
                proof { lemma_view_at(self.entries@, i as int); }
                let e = &self.entries[i];
                let fresh = now_ms < e.created_ms
                    || ((now_ms - e.created_ms) as u128) < (e.ttl_seconds as u128) * 1000;
                if fresh {
                    Some((clone_results(&e.results), e.provider.clone()))
                } else {
                    None
                }
            },
            None => None,
        }
    }

    /// Cached results for `query` (scoped to `provider` if given) that have not
    /// outlived their time-to-live; `None` when caching is disabled.
    pub fn get(&self, query: &str, provider: Option<&str>) -> (r: Option<(Vec<SearchResult>, String)>)
        requires
            self.wf(),
        ensures
            exists|now_ms: u64| hit_view(r) == #[trigger] lookup(
                self@,
                self.settings().enabled,
                cache_key_of(query@, opt_view(provider)),
                now_ms,
            ),
    {
        let now_ms = millis_since(&self.origin);
        self.get_at(query, provider, now_ms)
    }

    /// Drops every entry that is no longer fresh at `now_ms`.
    fn expire_sweep(&mut self, now_ms: u64)
        requires
            old(self).wf(),
        ensures
            final(self).wf(),
            final(self).config == old(self).config,
            forall|k: Seq<char>| #[trigger] final(self)@.contains_key(k) ==> old(self)@.contains_key(k)
                && final(self)@[k] == old(self)@[k] && is_fresh(old(self)@[k], now_ms),
            forall|k: Seq<char>| #[trigger] old(self)@.contains_key(k) && is_fresh(old(self)@[k], now_ms)
                ==> final(self)@.contains_key(k),
    {
        let ghost orig = self.entries@;
        let mut rest: Vec<CacheEntry> = Vec::new();
        std::mem::swap(&mut rest, &mut self.entries);
        while rest.len() > 0
            invariant
                self.config == old(self).config,
                rest@.len() <= orig.len(),
                rest@ == orig.subrange(0, rest@.len() as int),
                keys_unique(orig),
                keys_unique(self.entries@),
                forall|j: int| 0 <= j < self.entries@.len() ==> exists|idx: int|
                    rest@.len() <= idx < orig.len() && #[trigger] self.entries@[j] == orig[idx],
                forall|j: int| 0 <= j < self.entries@.len() ==> is_fresh(#[trigger] self.entries@[j].record(), now_ms),
                forall|idx: int| rest@.len() <= idx < orig.len() && is_fresh(#[trigger] orig[idx].record(), now_ms)
                    ==> has_key(self.entries@, orig[idx].key@),
            decreases rest@.len(),
        {
            let ghost n = rest@.len() as int;
            let e = rest.pop().unwrap();
            assert(e == orig[n - 1]);
            let fresh = now_ms < e.created_ms
                || ((now_ms - e.created_ms) as u128) < (e.ttl_seconds as u128) * 1000;
            if fresh {
                let ghost before = self.entries@;
                proof {
                    assert forall|j: int| 0 <= j < before.len() implies before[j].key@ != e.key@ by {
                        let idx = choose|idx: int| n <= idx < orig.len() && #[trigger] before[j] == orig[idx];
                        assert(orig[idx].key@ != orig[n - 1].key@);
                    }
                }
                self.entries.push(e);
                proof {
                    let s = self.entries@;
                    assert(s[before.len() as int] == orig[n - 1]);
                    assert forall|idx: int| rest@.len() <= idx < orig.len() && is_fresh(#[trigger] orig[idx].record(), now_ms)
                        implies has_key(s, orig[idx].key@) by {
                        if idx == n - 1 {
                            assert(s[before.len() as int].key@ == orig[idx].key@);
                        } else {
                            let j = choose|j: int| 0 <= j < before.len() && #[trigger] before[j].key@ == orig[idx].key@;
                            assert(s[j] == before[j]);
                        }
                    }
                    assert forall|j: int| 0 <= j < s.len() implies exists|idx: int|
                        rest@.len() <= idx < orig.len() && #[trigger] s[j] == orig[idx] by {
                        if j == before.len() {
                            assert(s[j] == orig[n - 1]);
                        } else {
                            assert(s[j] == before[j]);
                        }
                    }
                }
            }
        }
        proof {
            let s = self.entries@;
            assert forall|k: Seq<char>| #[trigger] entries_view(s).contains_key(k) implies entries_view(orig).contains_key(k)
                && entries_view(s)[k] == entries_view(orig)[k] && is_fresh(entries_view(orig)[k], now_ms) by {
                let j = choose|j: int| 0 <= j < s.len() && #[trigger] s[j].key@ == k;
                let idx = choose|idx: int| 0 <= idx < orig.len() && #[trigger] s[j] == orig[idx];
                lemma_view_at(s, j);
                lemma_view_at(orig, idx);
            }
            assert forall|k: Seq<char>| #[trigger] entries_view(orig).contains_key(k) && is_fresh(entries_view(orig)[k], now_ms)
                implies entries_view(s).contains_key(k) by {
                let idx = choose|idx: int| 0 <= idx < orig.len() && #[trigger] orig[idx].key@ == k;
                lemma_view_at(orig, idx);
            }
        }
    }

    /// Removes entries from the front until fewer than `max_entries` remain.
    fn trim_to_capacity(&mut self)
        requires
            old(self).wf(),
        ensures
            final(self).wf(),
            final(self).config == old(self).config,
            forall|k: Seq<char>| #[trigger] final(self)@.contains_key(k) ==> old(self)@.contains_key(k)
                && final(self)@[k] == old(self)@[k],
            final(self)@.len() < old(self).config.max_entries || final(self)@.len() == 0,
            old(self)@.len() < old(self).config.max_entries ==> final(self)@ == old(self)@,
            old(self)@.len() >= old(self).config.max_entries && old(self).config.max_entries > 0
                ==> final(self)@.len() == old(self).config.max_entries - 1,
    {
        let ghost orig = self.entries@;
        proof { lemma_view_len(orig); }
        let max = self.config.max_entries;
        let ghost mut d: int = 0;
        while self.entries.len() >= max && self.entries.len() > 0
            invariant
                self.config == old(self).config,
                self.config.max_entries == max,
                keys_unique(orig),
                0 <= d <= orig.len(),
                self.entries@.len() == orig.len() - d,
                self.entries@ == orig.subrange(d as int, orig.len() as int),
                orig.len() >= max && max > 0 ==> self.entries@.len() >= max - 1,
                orig.len() < max ==> d == 0,
            decreases self.entries@.len(),
        {
            self.entries.remove(0);
            proof { d = d + 1; }
        }
        proof {
            let s = self.entries@;
            assert(keys_unique(s)) by {
                assert forall|i: int, j: int| 0 <= i < s.len() && 0 <= j < s.len() && i != j
                    implies s[i].key@ != s[j].key@ by {
                    assert(s[i] == orig[i + d]);
                    assert(s[j] == orig[j + d]);
                }
            }
            lemma_view_len(s);
            assert forall|k: Seq<char>| #[trigger] entries_view(s).contains_key(k) implies entries_view(orig).contains_key(k)
                && entries_view(s)[k] == entries_view(orig)[k] by {
                let j = choose|j: int| 0 <= j < s.len() && #[trigger] s[j].key@ == k;
                assert(s[j] == orig[j + d]);
                lemma_view_at(s, j);
                lemma_view_at(orig, j + d);
            }
            if d == 0 {
                assert(s =~= orig);
            }
        }
    }

    /// Eviction: first every expired entry goes, then, if the cache is still
    /// full, arbitrary entries until it is below capacity.
    fn evict(&mut self, now_ms: u64)
        requires
            old(self).wf(),
        ensures
            final(self).wf(),
            final(self).config == old(self).config,
            forall|k: Seq<char>| #[trigger] final(self)@.contains_key(k) ==> old(self)@.contains_key(k)
                && final(self)@[k] == old(self)@[k] && is_fresh(old(self)@[k], now_ms),
            final(self)@.len() < old(self).config.max_entries || final(self)@.len() == 0,
            fresh_keys(old(self)@, now_ms).len() < old(self).config.max_entries ==> forall|k: Seq<char>|
                #[trigger] old(self)@.contains_key(k) && is_fresh(old(self)@[k], now_ms)
                ==> final(self)@.contains_key(k),
    {
        let ghost m0 = self@;
        self.expire_sweep(now_ms);
        proof {
            assert(self@.dom() =~= fresh_keys(m0, now_ms));
            lemma_view_len(self.entries@);
        }
        self.trim_to_capacity();
    }

    /// Stores `results` under `query` scoped to `provider`, stamped with `now_ms`
    /// on the cache's clock; a no-op when caching is disabled.
    pub fn set_at(&mut self, query: &str, provider: &str, results: Vec<SearchResult>, now_ms: u64)
        requires
            old(self).wf(),
        ensures
            final(self).wf(),
            final(self).settings() == old(self).settings(),
            !old(self).settings().enabled ==> final(self)@ == old(self)@,
            old(self).settings().enabled ==> stored(
                old(self)@,
                final(self)@,
                cache_key_of(query@, Some(provider@)),
                CacheRecord {
                    results: results@,
                    provider: provider@,
                    created_ms: now_ms,
                    ttl_seconds: old(self).settings().ttl_seconds,
                },
                old(self).settings().max_entries,
                now_ms,
            ),
    {
        if !self.config.enabled {
            return;
        }
        let ghost m0 = self@;
        let key = Self::cache_key(query, Some(provider));
        proof { lemma_view_len(self.entries@); }
        if self.entries.len() >= self.config.max_entries {
            self.evict(now_ms);
        }
        let ghost m_mid = self@;
        let ghost mid = self.entries@;
        let entry = CacheEntry {
            key,
            results,
            provider: owned(provider),
            created_ms: now_ms,
            ttl_seconds: self.config.ttl_seconds,
        };
        let ghost k = entry.key@;
        let ghost rec = entry.record();
        match self.find(&entry.key) {
            Some(i) => {
                self.entries.set(i, entry);
                proof {
                    let s = self.entries@;
                    assert(keys_unique(s)) by {
                        assert forall|a: int, b: int| 0 <= a < s.len() && 0 <= b < s.len() && a != b
                            implies s[a].key@ != s[b].key@ by {
                            if a != i && b != i {
                                assert(s[a] == mid[a]);
                                assert(s[b] == mid[b]);
                            } else if a == i {
                                assert(s[b] == mid[b]);
                            } else {
                                assert(s[a] == mid[a]);
                            }
                        }
                    }
                    assert(entries_view(s) =~= m_mid.insert(k, rec)) by {
                        lemma_view_at(s, i as int);
                        assert forall|k2: Seq<char>| #[trigger] entries_view(s).contains_key(k2) <==> m_mid.insert(k, rec).contains_key(k2) by {
                            if has_key(s, k2) {
                                let j = choose|j: int| 0 <= j < s.len() && #[trigger] s[j].key@ == k2;
                                if j != i { assert(mid[j] == s[j]); }
                            }
                            if k2 != k && has_key(mid, k2) {
                                let j = choose|j: int| 0 <= j < mid.len() && #[trigger] mid[j].key@ == k2;
                                assert(j != i);
                                assert(mid[j] == s[j]);
                            }
                        }
                        assert forall|k2: Seq<char>| #[trigger] entries_view(s).contains_key(k2)
                            implies entries_view(s)[k2] == m_mid.insert(k, rec)[k2] by {
                            if k2 != k {
                                let j = choose|j: int| 0 <= j < s.len() && #[trigger] s[j].key@ == k2;
                                assert(mid[j] == s[j]);
                                lemma_view_at(s, j);
                                lemma_view_at(mid, j);
                            }
                        }
                    }
                    lemma_view_len(mid);
                    lemma_view_len(s);
                }
            },
            None => {
                self.entries.push(entry);
                proof {
                    let s = self.entries@;
                    let n = mid.len() as int;
                    assert(keys_unique(s)) by {
                        assert forall|a: int, b: int| 0 <= a < s.len() && 0 <= b < s.len() && a != b
                            implies s[a].key@ != s[b].key@ by {
                            if a < n { assert(s[a] == mid[a]); }
                            if b < n { assert(s[b] == mid[b]); }
                        }
                    }
                    assert(entries_view(s) =~= m_mid.insert(k, rec)) by {
                        lemma_view_at(s, n);
                        assert forall|k2: Seq<char>| #[trigger] entries_view(s).contains_key(k2) <==> m_mid.insert(k, rec).contains_key(k2) by {
                            if has_key(s, k2) {
                                let j = choose|j: int| 0 <= j < s.len() && #[trigger] s[j].key@ == k2;
                                if j != n { assert(mid[j] == s[j]); }
                            }
                            if k2 != k && has_key(mid, k2) {
                                let j = choose|j: int| 0 <= j < mid.len() && #[trigger] mid[j].key@ == k2;
                                assert(mid[j] == s[j]);
                            }
                        }
                        assert forall|k2: Seq<char>| #[trigger] entries_view(s).contains_key(k2)
                            implies entries_view(s)[k2] == m_mid.insert(k, rec)[k2] by {
                            if k2 != k {
                                let j = choose|j: int| 0 <= j < s.len() && #[trigger] s[j].key@ == k2;
                                assert(j != n);
                                assert(mid[j] == s[j]);
                                lemma_view_at(s, j);
                                lemma_view_at(mid, j);
                            }
                        }
                    }
                    lemma_view_len(mid);
                    lemma_view_len(s);
                }
            },
        }
        proof {
            let m1 = self@;
            assert(m1 == m_mid.insert(k, rec));
            lemma_view_len(mid);
            lemma_view_len(self.entries@);
            assert(m_mid.dom().insert(k) =~= m1.dom());
        }
    }

    /// Stores `results` under `query` scoped to `provider`, stamped with the
    /// current time; a no-op when caching is disabled.
    pub fn set(&mut self, query: &str, provider: &str, results: Vec<SearchResult>)
        requires
            old(self).wf(),
        ensures
            final(self).wf(),
            final(self).settings() == old(self).settings(),
            !old(self).settings().enabled ==> final(self)@ == old(self)@,
            old(self).settings().enabled ==> exists|now_ms: u64| #[trigger] stored(
                old(self)@,
                final(self)@,
                cache_key_of(query@, Some(provider@)),
                CacheRecord {
                    results: results@,
                    provider: provider@,
                    created_ms: now_ms,
                    ttl_seconds: old(self).settings().ttl_seconds,
                },
                old(self).settings().max_entries,
                now_ms,
            ),
    {
        let now_ms = millis_since(&self.origin);
        self.set_at(query, provider, results, now_ms);
    }

    /// Empties the cache. Always succeeds.
    pub fn clear(&mut self) -> (r: Result<(), crate::error::SearchError>)
        requires
            old(self).wf(),
        ensures
            final(self).wf(),
            final(self).settings() == old(self).settings(),
            final(self)@ == Map::<Seq<char>, CacheRecord>::empty(),
            r is Ok,
    {
        self.entries.clear();
        assert(self@ =~= Map::<Seq<char>, CacheRecord>::empty());
        Ok(())
    }

    /// Entry count and settings.
    pub fn stats(&self) -> (r: CacheStats)
        requires
            self.wf(),
        ensures
            r.entries == self@.len(),
            r.max_entries == self.settings().max_entries,
            r.ttl_seconds == self.settings().ttl_seconds,
            r.enabled == self.settings().enabled,
    {
        proof { lemma_view_len(self.entries@); }
        CacheStats {
            entries: self.entries.len(),
            max_entries: self.config.max_entries,
            ttl_seconds: self.config.ttl_seconds,
            enabled: self.config.enabled,
        }
    }
}

/// Queries that lower-case alike share a key; keys scoped to different
/// providers differ; and a scoped key never equals the unscoped one.
pub proof fn lemma_cache_key_laws(q1: Seq<char>, q2: Seq<char>, pa: Seq<char>, pb: Seq<char>, p: Option<Seq<char>>)
    ensures
        lower_of(q1) == lower_of(q2) ==> cache_key_of(q1, p) == cache_key_of(q2, p),
        pa != pb ==> cache_key_of(q1, Some(pa)) != cache_key_of(q1, Some(pb)),
        cache_key_of(q1, None) != cache_key_of(q1, Some(pa)),
{
    let l = lower_of(q1);
    let k1 = pa + seq![':'] + l;
    let k2 = pb + seq![':'] + l;
    assert(k1.len() == pa.len() + 1 + l.len());
    assert(k2.len() == pb.len() + 1 + l.len());
    if pa != pb && k1 == k2 {
        assert(pa.len() == pb.len());
        assert forall|i: int| 0 <= i < pa.len() implies pa[i] == pb[i] by {
            assert(k1[i] == pa[i]);
            assert(k2[i] == pb[i]);
        }
        assert(pa =~= pb);
    }
    assert(l.len() != k1.len());
}

/// Right after a `set`, a lookup of the same query and provider returns the
/// stored results while their time-to-live lasts, and nothing once it has passed.
pub proof fn lemma_get_after_set(
    m0: Map<Seq<char>, CacheRecord>,
    m1: Map<Seq<char>, CacheRecord>,
    query: Seq<char>,
    provider: Seq<char>,
    results: Seq<SearchResult>,
    ttl_seconds: u64,
    max_entries: usize,
    set_ms: u64,
    get_ms: u64,
)
    requires
        stored(
            m0,
            m1,
            cache_key_of(query, Some(provider)),
            CacheRecord { results, provider, created_ms: set_ms, ttl_seconds },
            max_entries,
            set_ms,
        ),
        set_ms <= get_ms,
    ensures
        get_ms - set_ms < ttl_seconds * 1000 ==> lookup(m1, true, cache_key_of(query, Some(provider)), get_ms)
            == Some((results, provider)),
        get_ms - set_ms >= ttl_seconds * 1000 ==> lookup(m1, true, cache_key_of(query, Some(provider)), get_ms)
            is None,
{
}

/// A disabled cache finds nothing.
pub proof fn lemma_disabled_lookup(m: Map<Seq<char>, CacheRecord>, key: Seq<char>, now_ms: u64)
    ensures
        lookup(m, false, key, now_ms) is None,
{
}

/// A `set` on a cache within its capacity leaves it within its capacity.
pub proof fn lemma_capacity_kept(
    m0: Map<Seq<char>, CacheRecord>,
    m1: Map<Seq<char>, CacheRecord>,
    key: Seq<char>,
    rec: CacheRecord,
    max_entries: usize,
    now_ms: u64,
)
    requires
        stored(m0, m1, key, rec, max_entries, now_ms),
        m0.dom().finite(),
        m0.len() <= max_entries,
        max_entries > 0,
    ensures
        m1.dom().finite(),
        m1.len() <= max_entries,
{
    assert(m1.dom().subset_of(m0.dom().insert(key)));
    vstd::set_lib::lemma_len_subset(m1.dom(), m0.dom().insert(key));
}

/// The contents of a consistent cache are finite.
pub proof fn lemma_cache_finite(c: &SearchCache)
    requires
        c.wf(),
    ensures
        c@.dom().finite(),
{
    lemma_view_len(c.entries@);
}

} // verus!
