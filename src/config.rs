//! Configuration: which providers are enabled, their credentials, defaults and
//! cache settings, and the key paths under which each value is read and set.

use vstd::prelude::*;
use crate::text::{chars_of, fit_count, fit_prefix, fit_suffix, lemma_fit_all, string_of, tail_fit_count, utf8_bytes, str_eq, bool_string, bool_text, decimal, decimal_of, owned, parse_bool_or, parse_number_or, parsed_bool_or, parsed_number, push_char};
use crate::error::SearchError;

verus! {

/// Brave Search provider configuration.
#[derive(Debug, Clone)]
pub struct BraveConfig {
    /// API key for Brave Search
    pub api_key: String,
    /// Whether this provider is enabled
    pub enabled: bool,
}

/// Google Custom Search Engine configuration.
#[derive(Debug, Clone)]
pub struct GoogleConfig {
    /// API key for Google CSE
    pub api_key: String,
    /// Custom Search Engine ID
    pub cx: String,
    /// Whether this provider is enabled
    pub enabled: bool,
}

/// DuckDuckGo configuration.
#[derive(Debug, Clone)]
pub struct DuckDuckGoConfig {
    /// Whether this provider is enabled
    pub enabled: bool,
}

/// Tavily configuration.
#[derive(Debug, Clone)]
pub struct TavilyConfig {
    /// API key for Tavily
    pub api_key: String,
    /// Whether this provider is enabled
    pub enabled: bool,
}

/// Serper configuration.
#[derive(Debug, Clone)]
pub struct SerperConfig {
    /// API key for Serper
    pub api_key: String,
    /// Whether this provider is enabled
    pub enabled: bool,
}

/// Firecrawl configuration.
#[derive(Debug, Clone)]
pub struct FirecrawlConfig {
    /// API key for Firecrawl
    pub api_key: String,
    /// Whether this provider is enabled
    pub enabled: bool,
}

/// SerpAPI configuration.
#[derive(Debug, Clone)]
pub struct SerpApiConfig {
    /// API key for SerpAPI
    pub api_key: String,
    /// Whether this provider is enabled
    pub enabled: bool,
}

/// Bing Web Search configuration.
#[derive(Debug, Clone)]
pub struct BingConfig {
    /// API key for Bing
    pub api_key: String,
    /// Whether this provider is enabled
    pub enabled: bool,
}

/// Provider-specific configurations; `None` where a provider is not set up.
#[derive(Debug, Clone)]
pub struct ProvidersConfig {
    pub brave: Option<BraveConfig>,
    pub google: Option<GoogleConfig>,
    pub duckduckgo: Option<DuckDuckGoConfig>,
    pub tavily: Option<TavilyConfig>,
    pub serper: Option<SerperConfig>,
    pub firecrawl: Option<FirecrawlConfig>,
    pub serpapi: Option<SerpApiConfig>,
    pub bing: Option<BingConfig>,
}

impl Default for ProvidersConfig {
    fn default() -> (r: Self)
        ensures
            r.brave is None,
            r.google is None,
            r.duckduckgo is None,
            r.tavily is None,
            r.serper is None,
            r.firecrawl is None,
            r.serpapi is None,
            r.bing is None,
    {
        ProvidersConfig {
            brave: None,
            google: None,
            duckduckgo: None,
            tavily: None,
            serper: None,
            firecrawl: None,
            serpapi: None,
            bing: None,
        }
    }
}

/// Default number of results.
pub const DEFAULT_NUM_RESULTS: usize = 10;

/// Default request timeout, in seconds.
pub const DEFAULT_TIMEOUT: u64 = 30;

/// Default options.
#[derive(Debug, Clone)]
pub struct DefaultsConfig {
    /// Default number of results
    pub num_results: usize,
    /// Default safe search level
    pub safe_search: String,
    /// Default timeout in seconds
    pub timeout: u64,
    /// Default output format
    pub format: String,
}

impl Default for DefaultsConfig {
    fn default() -> (r: Self)
        ensures
            r.num_results == DEFAULT_NUM_RESULTS,
            r.safe_search@ == "moderate"@,
            r.timeout == DEFAULT_TIMEOUT,
            r.format@ == "text"@,
    {
        DefaultsConfig {
            num_results: DEFAULT_NUM_RESULTS,
            safe_search: owned("moderate"),
            timeout: DEFAULT_TIMEOUT,
            format: owned("text"),
        }
    }
}

/// Default time-to-live of a cache entry, in seconds.
pub const DEFAULT_CACHE_TTL: u64 = 3600;

/// Default capacity of the cache.
pub const DEFAULT_CACHE_MAX_ENTRIES: usize = 1000;

/// Cache configuration.
#[derive(Debug, Clone, Copy)]
pub struct CacheConfig {
    /// Whether caching is enabled
    pub enabled: bool,
    /// Time-to-live in seconds
    pub ttl_seconds: u64,
    /// Maximum number of cached entries
    pub max_entries: usize,
}

impl Default for CacheConfig {
    fn default() -> (r: Self)
        ensures
            r.enabled,
            r.ttl_seconds == DEFAULT_CACHE_TTL,
            r.max_entries == DEFAULT_CACHE_MAX_ENTRIES,
    {
        CacheConfig { enabled: true, ttl_seconds: DEFAULT_CACHE_TTL, max_entries: DEFAULT_CACHE_MAX_ENTRIES }
    }
}


/// Main configuration.
#[derive(Debug, Clone)]
pub struct Config {
    /// Default provider to use
    pub default_provider: Option<String>,
    /// Provider configurations
    pub providers: ProvidersConfig,
    /// Fallback order when the primary provider fails
    pub fallback_order: Vec<String>,
    /// Default options
    pub defaults: DefaultsConfig,
    /// Cache settings
    pub cache: CacheConfig,
}

impl Default for Config {
    fn default() -> (r: Self)
        ensures
            r.default_provider is None,
            r.providers.brave is None,
            r.providers.google is None,
            r.providers.duckduckgo is None,
            r.providers.tavily is None,
            r.providers.serper is None,
            r.providers.firecrawl is None,
            r.providers.serpapi is None,
            r.providers.bing is None,
            r.fallback_order@.len() == 0,
            r.defaults.num_results == DEFAULT_NUM_RESULTS,
            r.defaults.safe_search@ == "moderate"@,
            r.defaults.timeout == DEFAULT_TIMEOUT,
            r.defaults.format@ == "text"@,
            r.cache.enabled,
            r.cache.ttl_seconds == DEFAULT_CACHE_TTL,
            r.cache.max_entries == DEFAULT_CACHE_MAX_ENTRIES,
    {
        Config {
            default_provider: None,
            providers: ProvidersConfig::default(),
            fallback_order: Vec::new(),
            defaults: DefaultsConfig::default(),
            cache: CacheConfig::default(),
        }
    }
}

/// A provider's key and switch, as plain values.
pub struct KeyedView {
    pub api_key: Seq<char>,
    pub enabled: bool,
}

/// Google's key, engine id and switch, as plain values.
pub struct GoogleView {
    pub api_key: Seq<char>,
    pub cx: Seq<char>,
    pub enabled: bool,
}

/// A configuration as plain values.
pub struct ConfigView {
    pub default_provider: Option<Seq<char>>,
    pub brave: Option<KeyedView>,
    pub google: Option<GoogleView>,
    pub duckduckgo: Option<bool>,
    pub tavily: Option<KeyedView>,
    pub serper: Option<KeyedView>,
    pub firecrawl: Option<KeyedView>,
    pub serpapi: Option<KeyedView>,
    pub bing: Option<KeyedView>,
    pub fallback_order: Seq<Seq<char>>,
    pub num_results: usize,
    pub safe_search: Seq<char>,
    pub timeout: u64,
    pub format: Seq<char>,
    pub cache: CacheConfig,
}

/// A list of strings as character sequences.
pub open spec fn strings_view(v: Seq<String>) -> Seq<Seq<char>> {
    v.map_values(|s: String| s@)
}

impl View for Config {
    type V = ConfigView;

    open spec fn view(&self) -> ConfigView {
        ConfigView {
            default_provider: match self.default_provider { Some(d) => Some(d@), None => None },
            brave: match self.providers.brave {
                Some(c) => Some(KeyedView { api_key: c.api_key@, enabled: c.enabled }),
                None => None,
            },
            google: match self.providers.google {
                Some(c) => Some(GoogleView { api_key: c.api_key@, cx: c.cx@, enabled: c.enabled }),
                None => None,
            },
            duckduckgo: match self.providers.duckduckgo { Some(c) => Some(c.enabled), None => None },
            tavily: match self.providers.tavily {
                Some(c) => Some(KeyedView { api_key: c.api_key@, enabled: c.enabled }),
                None => None,
            },
            serper: match self.providers.serper {
                Some(c) => Some(KeyedView { api_key: c.api_key@, enabled: c.enabled }),
                None => None,
            },
            firecrawl: match self.providers.firecrawl {
                Some(c) => Some(KeyedView { api_key: c.api_key@, enabled: c.enabled }),
                None => None,
            },
            serpapi: match self.providers.serpapi {
                Some(c) => Some(KeyedView { api_key: c.api_key@, enabled: c.enabled }),
                None => None,
            },
            bing: match self.providers.bing {
                Some(c) => Some(KeyedView { api_key: c.api_key@, enabled: c.enabled }),
                None => None,
            },
            fallback_order: strings_view(self.fallback_order@),
            num_results: self.defaults.num_results,
            safe_search: self.defaults.safe_search@,
            timeout: self.defaults.timeout,
            format: self.defaults.format@,
            cache: self.cache,
        }
    }
}

/// `seq![name]` when `on`, else nothing.
pub open spec fn name_if(on: bool, name: Seq<char>) -> Seq<Seq<char>> {
    if on { seq![name] } else { Seq::empty() }
}

/// Whether an optional provider section is present and switched on.
pub open spec fn keyed_on(k: Option<KeyedView>) -> bool {
    k is Some && k->0.enabled
}

/// The names of the enabled providers, in the order brave, google,
/// duckduckgo, tavily, serper, firecrawl.
pub open spec fn enabled_names(c: ConfigView) -> Seq<Seq<char>> {
    name_if(keyed_on(c.brave), "brave"@)
        + name_if(c.google is Some && c.google->0.enabled, "google"@)
        + name_if(c.duckduckgo == Some(true), "duckduckgo"@)
        + name_if(keyed_on(c.tavily), "tavily"@)
        + name_if(keyed_on(c.serper), "serper"@)
        + name_if(keyed_on(c.firecrawl), "firecrawl"@)
}

/// The first name of `order` that `enabled` holds.
pub open spec fn first_enabled(order: Seq<Seq<char>>, enabled: Seq<Seq<char>>) -> Option<Seq<char>>
    decreases order.len(),
{
    if order.len() == 0 {
        None
    } else if enabled.contains(order[0]) {
        Some(order[0])
    } else {
        first_enabled(order.drop_first(), enabled)
    }
}

/// The provider used when none is asked for: the explicit default if it is
/// enabled, else the first enabled one in the fallback order, else the first
/// enabled one.
pub open spec fn effective_default(c: ConfigView) -> Option<Seq<char>> {
    let enabled = enabled_names(c);
    if c.default_provider is Some && enabled.contains(c.default_provider->0) {
        c.default_provider
    } else {
        match first_enabled(c.fallback_order, enabled) {
            Some(n) => Some(n),
            None => if enabled.len() > 0 { Some(enabled[0]) } else { None },
        }
    }
}

/// An API key as it is shown: up to eight bytes of UTF-8, one star per
/// byte; a longer key shows its first four and last four bytes around
/// `...` (where such a cut would fall inside a character, that character
/// is left out).
pub open spec fn masked(key: Seq<char>) -> Seq<char> {
    if utf8_bytes(key) <= 8 {
        Seq::new(utf8_bytes(key), |i: int| '*')
    } else {
        key.subrange(0, fit_count(key, 4) as int) + "..."@
            + key.subrange(key.len() - tail_fit_count(key, 4), key.len() as int)
    }
}

/// Appends `name` when `on`.
fn push_name_if(v: &mut Vec<String>, on: bool, name: &str)
    ensures
        strings_view(final(v)@) == strings_view(old(v)@) + name_if(on, name@),
{
    let ghost before = v@;
    if on {
        v.push(owned(name));
    }
    assert(strings_view(v@) =~= strings_view(before) + name_if(on, name@));
}

/// Whether `v` holds a string equal to `s`.
fn contains_str(v: &Vec<String>, s: &str) -> (r: bool)
    ensures
        r == strings_view(v@).contains(s@),
{
    let mut i: usize = 0;
    while i < v.len()
        invariant
            i <= v@.len(),
            forall|j: int| 0 <= j < i ==> (#[trigger] v@[j])@ != s@,
        decreases v@.len() - i,
    {
        if str_eq(v[i].as_str(), s) {
            assert(strings_view(v@)[i as int] == s@);
            return true;
        }
        i = i + 1;
    }
    assert forall|j: int| 0 <= j < strings_view(v@).len() implies strings_view(v@)[j] != s@ by {
        assert(strings_view(v@)[j] == v@[j]@);
    }
    false
}

/// Masks an API key for display: up to eight bytes become one star per
/// byte; a longer key shows its first and last four bytes around `...`,
/// leaving out a character that such a cut would split.
pub fn mask_api_key(key: &str) -> (r: String)
    ensures
        r@ == masked(key@),
{
    let cs = chars_of(key);
    let n = cs.len();
    let (fit8, bytes8) = fit_prefix(&cs, 8);
    proof {
        lemma_fit_all(cs@, 8);
        if fit8 == n {
            assert(cs@.subrange(0, n as int) =~= cs@);
        }
    }
    if fit8 == n {
        let mut r = String::new();
        let mut i: usize = 0;
        while i < bytes8
            invariant
                i <= bytes8,
                r@ == Seq::new(i as nat, |j: int| '*'),
            decreases bytes8 - i,
        {
            push_char(&mut r, '*');
            assert(r@ =~= Seq::new((i + 1) as nat, |j: int| '*'));
            i = i + 1;
        }
        r
    } else {
        let (head, _) = fit_prefix(&cs, 4);
        let tail = fit_suffix(&cs, 4);
        proof { lemma_fit_all(cs@, 4); }
        let mut r = string_of(&cs, 0, head);
        r.append("...");
        let t = string_of(&cs, n - tail, n);
        r.append(t.as_str());
        r
    }
}

impl Config {
    /// The names of the enabled providers.
    pub fn enabled_providers(&self) -> (r: Vec<String>)
        ensures
            strings_view(r@) == enabled_names(self@),
    {
        let mut v: Vec<String> = Vec::new();
        assert(strings_view(v@) =~= Seq::<Seq<char>>::empty());
        let brave_on = match &self.providers.brave { Some(c) => c.enabled, None => false };
        push_name_if(&mut v, brave_on, "brave");
        let google_on = match &self.providers.google { Some(c) => c.enabled, None => false };
        push_name_if(&mut v, google_on, "google");
        let ddg_on = match &self.providers.duckduckgo { Some(c) => c.enabled, None => false };
        push_name_if(&mut v, ddg_on, "duckduckgo");
        let tavily_on = match &self.providers.tavily { Some(c) => c.enabled, None => false };
        push_name_if(&mut v, tavily_on, "tavily");
        let serper_on = match &self.providers.serper { Some(c) => c.enabled, None => false };
        push_name_if(&mut v, serper_on, "serper");
        let firecrawl_on = match &self.providers.firecrawl { Some(c) => c.enabled, None => false };
        push_name_if(&mut v, firecrawl_on, "firecrawl");
        assert(enabled_names(self@) =~= Seq::<Seq<char>>::empty() + name_if(brave_on, "brave"@)
            + name_if(google_on, "google"@) + name_if(ddg_on, "duckduckgo"@) + name_if(tavily_on, "tavily"@)
            + name_if(serper_on, "serper"@) + name_if(firecrawl_on, "firecrawl"@));
        v
    }

    /// The provider to use when none is asked for.
    pub fn effective_default_provider(&self) -> (r: Option<String>)
        ensures
            match r {
                Some(s) => effective_default(self@) == Some(s@),
                None => effective_default(self@) is None,
            },
    {
        let enabled = self.enabled_providers();
        let ghost en = enabled_names(self@);
        match &self.default_provider {
            Some(d) => {
                if contains_str(&enabled, d.as_str()) {
                    return Some(d.clone());
                }
            },
            None => {},
        }
        let ghost fb = self@.fallback_order;
        let ghost dp = self@.default_provider;
        assert(fb.subrange(0, fb.len() as int) =~= fb);
        let mut i: usize = 0;
        while i < self.fallback_order.len()
            invariant
                fb == strings_view(self.fallback_order@),
                strings_view(enabled@) == en,
                i <= fb.len(),
                dp == self@.default_provider,
                en == enabled_names(self@),
                !(dp is Some && en.contains(dp->0)),
                first_enabled(fb, en) == first_enabled(fb.subrange(i as int, fb.len() as int), en),
            decreases fb.len() - i,
        {
            assert(fb.subrange(i as int, fb.len() as int).drop_first() =~= fb.subrange(i + 1, fb.len() as int));
            assert(fb.subrange(i as int, fb.len() as int)[0] == fb[i as int]);
            assert(fb[i as int] == self.fallback_order@[i as int]@);
            if contains_str(&enabled, self.fallback_order[i].as_str()) {
                assert(first_enabled(fb, en) == Some(fb[i as int]));
                return Some(self.fallback_order[i].clone());
            }
            i = i + 1;
        }
        if enabled.len() > 0 {
            assert(strings_view(enabled@)[0] == enabled@[0]@);
            Some(enabled[0].clone())
        } else {
            None
        }
    }
}

/// A key path and its displayed value.
pub type FlatEntry = (String, String);

/// Flat entries as plain values.
pub open spec fn entries_view(v: Seq<FlatEntry>) -> Seq<(Seq<char>, Seq<char>)> {
    v.map_values(|e: FlatEntry| (e.0@, e.1@))
}

/// The entries of a provider section with a key and a switch.
pub open spec fn keyed_entries(k: Option<KeyedView>, name: Seq<char>) -> Seq<(Seq<char>, Seq<char>)> {
    match k {
        Some(c) => seq![
            ("providers."@ + name + ".api_key"@, masked(c.api_key)),
            ("providers."@ + name + ".enabled"@, bool_text(c.enabled)),
        ],
        None => Seq::empty(),
    }
}

/// The entry of the default provider, if one is set.
pub open spec fn default_entries(c: ConfigView) -> Seq<(Seq<char>, Seq<char>)> {
    match c.default_provider {
        Some(d) => seq![("default_provider"@, d)],
        None => Seq::empty(),
    }
}

/// The entries of the Google section, if present.
pub open spec fn google_entries(c: ConfigView) -> Seq<(Seq<char>, Seq<char>)> {
    match c.google {
        Some(g) => seq![
            ("providers.google.api_key"@, masked(g.api_key)),
            ("providers.google.cx"@, g.cx),
            ("providers.google.enabled"@, bool_text(g.enabled)),
        ],
        None => Seq::empty(),
    }
}

/// The entry of the DuckDuckGo section, if present.
pub open spec fn duckduckgo_entries(c: ConfigView) -> Seq<(Seq<char>, Seq<char>)> {
    match c.duckduckgo {
        Some(e) => seq![("providers.duckduckgo.enabled"@, bool_text(e))],
        None => Seq::empty(),
    }
}

/// The entries of the defaults and the cache settings.
pub open spec fn settings_entries(c: ConfigView) -> Seq<(Seq<char>, Seq<char>)> {
    seq![
        ("defaults.num_results"@, decimal_of(c.num_results as nat)),
        ("defaults.safe_search"@, c.safe_search),
        ("defaults.timeout"@, decimal_of(c.timeout as nat)),
        ("defaults.format"@, c.format),
        ("cache.enabled"@, bool_text(c.cache.enabled)),
        ("cache.ttl_seconds"@, decimal_of(c.cache.ttl_seconds as nat)),
        ("cache.max_entries"@, decimal_of(c.cache.max_entries as nat)),
    ]
}

/// A configuration as key paths and displayed values, API keys masked, in
/// the order: default provider, brave, google, tavily, duckduckgo, serper,
/// firecrawl, defaults, cache.
pub open spec fn flat_entries(c: ConfigView) -> Seq<(Seq<char>, Seq<char>)> {
    default_entries(c) + keyed_entries(c.brave, "brave"@) + google_entries(c)
        + keyed_entries(c.tavily, "tavily"@) + duckduckgo_entries(c)
        + keyed_entries(c.serper, "serper"@) + keyed_entries(c.firecrawl, "firecrawl"@)
        + settings_entries(c)
}

/// The value of the first entry whose key path is `key`.
pub open spec fn flat_lookup(entries: Seq<(Seq<char>, Seq<char>)>, key: Seq<char>) -> Option<Seq<char>>
    decreases entries.len(),
{
    if entries.len() == 0 {
        None
    } else if entries[0].0 == key {
        Some(entries[0].1)
    } else {
        flat_lookup(entries.drop_first(), key)
    }
}

/// Appends one entry.
fn push_entry(v: &mut Vec<FlatEntry>, key: &str, value: String)
    ensures
        entries_view(final(v)@) == entries_view(old(v)@).push((key@, value@)),
{
    let ghost before = v@;
    v.push((owned(key), value));
    assert(entries_view(v@) =~= entries_view(before).push((key@, value@)));
}

/// `"providers." + name + suffix`.
fn provider_key(name: &str, suffix: &str) -> (r: String)
    ensures
        r@ == "providers."@ + name@ + suffix@,
{
    let mut k = owned("providers.");
    k.append(name);
    k.append(suffix);
    k
}

/// Appends the entries of a provider section with a key and a switch.
fn push_keyed(v: &mut Vec<FlatEntry>, k: Option<(&str, bool)>, name: &str)
    ensures
        entries_view(final(v)@) == entries_view(old(v)@) + keyed_entries(
            match k { Some((key, on)) => Some(KeyedView { api_key: key@, enabled: on }), None => None },
            name@,
        ),
{
    let ghost before = entries_view(v@);
    match k {
        Some((api_key, enabled)) => {
            let k1 = provider_key(name, ".api_key");
            let ghost k1v = k1@;
            v.push((k1, mask_api_key(api_key)));
            let k2 = provider_key(name, ".enabled");
            let ghost k2v = k2@;
            v.push((k2, bool_string(enabled)));
            assert(entries_view(v@) =~= before + seq![(k1v, masked(api_key@)), (k2v, bool_text(enabled))]);
        },
        None => {
            assert(entries_view(v@) =~= before + Seq::<(Seq<char>, Seq<char>)>::empty());
        },
    }
}

/// Appends the entry of the default provider, if one is set.
fn push_default(v: &mut Vec<FlatEntry>, c: &Config)
    ensures
        entries_view(final(v)@) == entries_view(old(v)@) + default_entries(c@),
{
    let ghost before = entries_view(v@);
    match &c.default_provider {
        Some(d) => push_entry(v, "default_provider", d.clone()),
        None => {},
    }
    assert(entries_view(v@) =~= before + default_entries(c@));
}

/// Appends the entries of the Google section, if present.
fn push_google(v: &mut Vec<FlatEntry>, c: &Config)
    ensures
        entries_view(final(v)@) == entries_view(old(v)@) + google_entries(c@),
{
    let ghost before = entries_view(v@);
    match &c.providers.google {
        Some(g) => {
            push_entry(v, "providers.google.api_key", mask_api_key(g.api_key.as_str()));
            push_entry(v, "providers.google.cx", g.cx.clone());
            push_entry(v, "providers.google.enabled", bool_string(g.enabled));
        },
        None => {},
    }
    assert(entries_view(v@) =~= before + google_entries(c@));
}

/// Appends the entry of the DuckDuckGo section, if present.
fn push_duckduckgo(v: &mut Vec<FlatEntry>, c: &Config)
    ensures
        entries_view(final(v)@) == entries_view(old(v)@) + duckduckgo_entries(c@),
{
    let ghost before = entries_view(v@);
    match &c.providers.duckduckgo {
        Some(d) => push_entry(v, "providers.duckduckgo.enabled", bool_string(d.enabled)),
        None => {},
    }
    assert(entries_view(v@) =~= before + duckduckgo_entries(c@));
}

/// Appends the entries of the defaults and the cache settings.
fn push_settings(v: &mut Vec<FlatEntry>, c: &Config)
    ensures
        entries_view(final(v)@) == entries_view(old(v)@) + settings_entries(c@),
{
    let ghost before = entries_view(v@);
    push_entry(v, "defaults.num_results", decimal(c.defaults.num_results as u64));
    push_entry(v, "defaults.safe_search", c.defaults.safe_search.clone());
    push_entry(v, "defaults.timeout", decimal(c.defaults.timeout));
    push_entry(v, "defaults.format", c.defaults.format.clone());
    push_entry(v, "cache.enabled", bool_string(c.cache.enabled));
    push_entry(v, "cache.ttl_seconds", decimal(c.cache.ttl_seconds));
    push_entry(v, "cache.max_entries", decimal(c.cache.max_entries as u64));
    assert(entries_view(v@) =~= before + settings_entries(c@));
}

/// A keyed provider section as its key and switch.
fn keyed_of<'a>(key: &'a String, enabled: bool) -> (r: Option<(&'a str, bool)>)
    ensures
        r matches Some((k, e)) && k@ == key@ && e == enabled,
{
    Some((key.as_str(), enabled))
}

impl Config {
    /// The configuration as key paths and displayed values, with API keys masked.
    pub fn to_flat_map(&self) -> (r: Vec<FlatEntry>)
        ensures
            entries_view(r@) == flat_entries(self@),
    {
        let mut v: Vec<FlatEntry> = Vec::new();
        push_default(&mut v, self);
        let brave = match &self.providers.brave { Some(c) => keyed_of(&c.api_key, c.enabled), None => None };
        push_keyed(&mut v, brave, "brave");
        push_google(&mut v, self);
        let tavily = match &self.providers.tavily { Some(c) => keyed_of(&c.api_key, c.enabled), None => None };
        push_keyed(&mut v, tavily, "tavily");
        push_duckduckgo(&mut v, self);
        let serper = match &self.providers.serper { Some(c) => keyed_of(&c.api_key, c.enabled), None => None };
        push_keyed(&mut v, serper, "serper");
        let firecrawl = match &self.providers.firecrawl { Some(c) => keyed_of(&c.api_key, c.enabled), None => None };
        push_keyed(&mut v, firecrawl, "firecrawl");
        push_settings(&mut v, self);
        assert(entries_view(v@) =~= flat_entries(self@));
        v
    }
}

/// The displayed value under a key path of the configuration, if there is one.
pub fn get_config_value(config: &Config, key: &str) -> (r: Option<String>)
    ensures
        match r {
            Some(s) => flat_lookup(flat_entries(config@), key@) == Some(s@),
            None => flat_lookup(flat_entries(config@), key@) is None,
        },
{
    let entries = config.to_flat_map();
    let ghost ev = entries_view(entries@);
    let mut i: usize = 0;
    assert(ev.subrange(0, ev.len() as int) =~= ev);
    while i < entries.len()
        invariant
            ev == entries_view(entries@),
            ev == flat_entries(config@),
            i <= ev.len(),
            flat_lookup(ev, key@) == flat_lookup(ev.subrange(i as int, ev.len() as int), key@),
        decreases ev.len() - i,
    {
        assert(ev.subrange(i as int, ev.len() as int).drop_first() =~= ev.subrange(i + 1, ev.len() as int));
        assert(ev[i as int] == (entries@[i as int].0@, entries@[i as int].1@));
        if str_eq(entries[i].0.as_str(), key) {
            return Some(entries[i].1.clone());
        }
        i = i + 1;
    }
    None
}

/// A provider section with its key replaced, or a new enabled one.
pub open spec fn with_key(k: Option<KeyedView>, value: Seq<char>) -> Option<KeyedView> {
    match k {
        Some(c) => Some(KeyedView { api_key: value, ..c }),
        None => Some(KeyedView { api_key: value, enabled: true }),
    }
}

/// A provider section with its switch set; an absent section stays absent.
pub open spec fn with_switch(k: Option<KeyedView>, on: bool) -> Option<KeyedView> {
    match k {
        Some(c) => Some(KeyedView { enabled: on, ..c }),
        None => None,
    }
}

/// The Google section with its key replaced, or a new enabled one.
pub open spec fn google_with_key(g: Option<GoogleView>, value: Seq<char>) -> GoogleView {
    match g {
        Some(c) => GoogleView { api_key: value, ..c },
        None => GoogleView { api_key: value, cx: Seq::empty(), enabled: true },
    }
}

/// The Google section with its engine id replaced, or a new enabled one.
pub open spec fn google_with_cx(g: Option<GoogleView>, value: Seq<char>) -> GoogleView {
    match g {
        Some(c) => GoogleView { cx: value, ..c },
        None => GoogleView { api_key: Seq::empty(), cx: value, enabled: true },
    }
}

/// The Google section with its switch set; an absent section stays absent.
pub open spec fn google_with_switch(g: Option<GoogleView>, on: bool) -> Option<GoogleView> {
    match g {
        Some(c) => Some(GoogleView { enabled: on, ..c }),
        None => None,
    }
}

/// A number read from `value` if it is one and at most `max`, else `default`.
pub open spec fn number_or(value: Seq<char>, max: nat, default: nat) -> nat {
    match parsed_number(value) {
        Some(n) => if n <= max { n } else { default },
        None => default,
    }
}

/// The configuration after setting the value under a key path, or `None`
/// when the key path is not known. Switches read `"true"` and `"false"` and
/// default to on; numbers that do not parse take their default.
pub open spec fn config_with(c: ConfigView, key: Seq<char>, value: Seq<char>) -> Option<ConfigView> {
    if key == "default_provider"@ {
        Some(ConfigView { default_provider: Some(value), ..c })
    } else if key == "providers.brave.api_key"@ {
        Some(ConfigView { brave: with_key(c.brave, value), ..c })
    } else if key == "providers.brave.enabled"@ {
        Some(ConfigView { brave: with_switch(c.brave, parsed_bool_or(value, true)), ..c })
    } else if key == "providers.google.api_key"@ {
        Some(ConfigView { google: Some(google_with_key(c.google, value)), ..c })
    } else if key == "providers.google.cx"@ {
        Some(ConfigView { google: Some(google_with_cx(c.google, value)), ..c })
    } else if key == "providers.google.enabled"@ {
        Some(ConfigView { google: google_with_switch(c.google, parsed_bool_or(value, true)), ..c })
    } else if key == "providers.tavily.api_key"@ {
        Some(ConfigView { tavily: with_key(c.tavily, value), ..c })
    } else if key == "providers.tavily.enabled"@ {
        Some(ConfigView { tavily: with_switch(c.tavily, parsed_bool_or(value, true)), ..c })
    } else if key == "providers.duckduckgo.enabled"@ {
        Some(ConfigView { duckduckgo: Some(parsed_bool_or(value, true)), ..c })
    } else if key == "providers.serper.api_key"@ {
        Some(ConfigView { serper: with_key(c.serper, value), ..c })
    } else if key == "providers.serper.enabled"@ {
        Some(ConfigView { serper: with_switch(c.serper, parsed_bool_or(value, true)), ..c })
    } else if key == "providers.firecrawl.api_key"@ {
        Some(ConfigView { firecrawl: with_key(c.firecrawl, value), ..c })
    } else if key == "providers.firecrawl.enabled"@ {
        Some(ConfigView { firecrawl: with_switch(c.firecrawl, parsed_bool_or(value, true)), ..c })
    } else if key == "providers.serpapi.api_key"@ {
        Some(ConfigView { serpapi: with_key(c.serpapi, value), ..c })
    } else if key == "providers.serpapi.enabled"@ {
        Some(ConfigView { serpapi: with_switch(c.serpapi, parsed_bool_or(value, true)), ..c })
    } else if key == "providers.bing.api_key"@ {
        Some(ConfigView { bing: with_key(c.bing, value), ..c })
    } else if key == "providers.bing.enabled"@ {
        Some(ConfigView { bing: with_switch(c.bing, parsed_bool_or(value, true)), ..c })
    } else if key == "defaults.num_results"@ {
        Some(ConfigView { num_results: number_or(value, usize::MAX as nat, DEFAULT_NUM_RESULTS as nat) as usize, ..c })
    } else if key == "defaults.safe_search"@ {
        Some(ConfigView { safe_search: value, ..c })
    } else if key == "defaults.timeout"@ {
        Some(ConfigView { timeout: number_or(value, u64::MAX as nat, DEFAULT_TIMEOUT as nat) as u64, ..c })
    } else if key == "defaults.format"@ {
        Some(ConfigView { format: value, ..c })
    } else if key == "cache.enabled"@ {
        Some(ConfigView { cache: CacheConfig { enabled: parsed_bool_or(value, true), ..c.cache }, ..c })
    } else if key == "cache.ttl_seconds"@ {
        Some(ConfigView { cache: CacheConfig { ttl_seconds: number_or(value, u64::MAX as nat, DEFAULT_CACHE_TTL as nat) as u64, ..c.cache }, ..c })
    } else if key == "cache.max_entries"@ {
        Some(ConfigView { cache: CacheConfig { max_entries: number_or(value, usize::MAX as nat, DEFAULT_CACHE_MAX_ENTRIES as nat) as usize, ..c.cache }, ..c })
    } else {
        None
    }
}

fn put_default_provider(config: &mut Config, value: &str)
    ensures
        final(config)@ == (ConfigView { default_provider: Some(value@), ..old(config)@ }),
{
    config.default_provider = Some(owned(value));
}

fn put_brave_key(config: &mut Config, value: &str)
    ensures
        final(config)@ == (ConfigView { brave: with_key(old(config)@.brave, value@), ..old(config)@ }),
{
    let enabled = match &config.providers.brave {
        Some(c) => c.enabled,
        None => true,
    };
    config.providers.brave = Some(BraveConfig { api_key: owned(value), enabled });
}

fn put_brave_switch(config: &mut Config, value: &str)
    ensures
        final(config)@ == (ConfigView {
            brave: with_switch(old(config)@.brave, parsed_bool_or(value@, true)),
            ..old(config)@
        }),
{
    let updated = match &config.providers.brave {
        Some(c) => Some(BraveConfig { api_key: c.api_key.clone(), enabled: parse_bool_or(value, true) }),
        None => None,
    };
    config.providers.brave = updated;
}

fn put_tavily_key(config: &mut Config, value: &str)
    ensures
        final(config)@ == (ConfigView { tavily: with_key(old(config)@.tavily, value@), ..old(config)@ }),
{
    let enabled = match &config.providers.tavily {
        Some(c) => c.enabled,
        None => true,
    };
    config.providers.tavily = Some(TavilyConfig { api_key: owned(value), enabled });
}

fn put_tavily_switch(config: &mut Config, value: &str)
    ensures
        final(config)@ == (ConfigView {
            tavily: with_switch(old(config)@.tavily, parsed_bool_or(value@, true)),
            ..old(config)@
        }),
{
    let updated = match &config.providers.tavily {
        Some(c) => Some(TavilyConfig { api_key: c.api_key.clone(), enabled: parse_bool_or(value, true) }),
        None => None,
    };
    config.providers.tavily = updated;
}

fn put_serper_key(config: &mut Config, value: &str)
    ensures
        final(config)@ == (ConfigView { serper: with_key(old(config)@.serper, value@), ..old(config)@ }),
{
    let enabled = match &config.providers.serper {
        Some(c) => c.enabled,
        None => true,
    };
    config.providers.serper = Some(SerperConfig { api_key: owned(value), enabled });
}

fn put_serper_switch(config: &mut Config, value: &str)
    ensures
        final(config)@ == (ConfigView {
            serper: with_switch(old(config)@.serper, parsed_bool_or(value@, true)),
            ..old(config)@
        }),
{
    let updated = match &config.providers.serper {
        Some(c) => Some(SerperConfig { api_key: c.api_key.clone(), enabled: parse_bool_or(value, true) }),
        None => None,
    };
    config.providers.serper = updated;
}

fn put_firecrawl_key(config: &mut Config, value: &str)
    ensures
        final(config)@ == (ConfigView { firecrawl: with_key(old(config)@.firecrawl, value@), ..old(config)@ }),
{
    let enabled = match &config.providers.firecrawl {
        Some(c) => c.enabled,
        None => true,
    };
    config.providers.firecrawl = Some(FirecrawlConfig { api_key: owned(value), enabled });
}

fn put_firecrawl_switch(config: &mut Config, value: &str)
    ensures
        final(config)@ == (ConfigView {
            firecrawl: with_switch(old(config)@.firecrawl, parsed_bool_or(value@, true)),
            ..old(config)@
        }),
{
    let updated = match &config.providers.firecrawl {
        Some(c) => Some(FirecrawlConfig { api_key: c.api_key.clone(), enabled: parse_bool_or(value, true) }),
        None => None,
    };
    config.providers.firecrawl = updated;
}

fn put_serpapi_key(config: &mut Config, value: &str)
    ensures
        final(config)@ == (ConfigView { serpapi: with_key(old(config)@.serpapi, value@), ..old(config)@ }),
{
    let enabled = match &config.providers.serpapi {
        Some(c) => c.enabled,
        None => true,
    };
    config.providers.serpapi = Some(SerpApiConfig { api_key: owned(value), enabled });
}

fn put_serpapi_switch(config: &mut Config, value: &str)
    ensures
        final(config)@ == (ConfigView {
            serpapi: with_switch(old(config)@.serpapi, parsed_bool_or(value@, true)),
            ..old(config)@
        }),
{
    let updated = match &config.providers.serpapi {
        Some(c) => Some(SerpApiConfig { api_key: c.api_key.clone(), enabled: parse_bool_or(value, true) }),
        None => None,
    };
    config.providers.serpapi = updated;
}

fn put_bing_key(config: &mut Config, value: &str)
    ensures
        final(config)@ == (ConfigView { bing: with_key(old(config)@.bing, value@), ..old(config)@ }),
{
    let enabled = match &config.providers.bing {
        Some(c) => c.enabled,
        None => true,
    };
    config.providers.bing = Some(BingConfig { api_key: owned(value), enabled });
}

fn put_bing_switch(config: &mut Config, value: &str)
    ensures
        final(config)@ == (ConfigView {
            bing: with_switch(old(config)@.bing, parsed_bool_or(value@, true)),
            ..old(config)@
        }),
{
    let updated = match &config.providers.bing {
        Some(c) => Some(BingConfig { api_key: c.api_key.clone(), enabled: parse_bool_or(value, true) }),
        None => None,
    };
    config.providers.bing = updated;
}

fn put_google_key(config: &mut Config, value: &str)
    ensures
        final(config)@ == (ConfigView { google: Some(google_with_key(old(config)@.google, value@)), ..old(config)@ }),
{
    let updated = match &config.providers.google {
        Some(c) => GoogleConfig { api_key: owned(value), cx: c.cx.clone(), enabled: c.enabled },
        None => GoogleConfig { api_key: owned(value), cx: String::new(), enabled: true },
    };
    config.providers.google = Some(updated);
}

fn put_google_cx(config: &mut Config, value: &str)
    ensures
        final(config)@ == (ConfigView { google: Some(google_with_cx(old(config)@.google, value@)), ..old(config)@ }),
{
    let updated = match &config.providers.google {
        Some(c) => GoogleConfig { api_key: c.api_key.clone(), cx: owned(value), enabled: c.enabled },
        None => GoogleConfig { api_key: String::new(), cx: owned(value), enabled: true },
    };
    config.providers.google = Some(updated);
}

fn put_google_switch(config: &mut Config, value: &str)
    ensures
        final(config)@ == (ConfigView {
            google: google_with_switch(old(config)@.google, parsed_bool_or(value@, true)),
            ..old(config)@
        }),
{
    let updated = match &config.providers.google {
        Some(c) => Some(GoogleConfig {
            api_key: c.api_key.clone(),
            cx: c.cx.clone(),
            enabled: parse_bool_or(value, true),
        }),
        None => None,
    };
    config.providers.google = updated;
}

fn put_duckduckgo_switch(config: &mut Config, value: &str)
    ensures
        final(config)@ == (ConfigView { duckduckgo: Some(parsed_bool_or(value@, true)), ..old(config)@ }),
{
    config.providers.duckduckgo = Some(DuckDuckGoConfig { enabled: parse_bool_or(value, true) });
}

fn put_num_results(config: &mut Config, value: &str)
    ensures
        final(config)@ == (ConfigView {
            num_results: number_or(value@, usize::MAX as nat, DEFAULT_NUM_RESULTS as nat) as usize,
            ..old(config)@
        }),
{
    config.defaults.num_results = parse_number_or(value, usize::MAX as u64, DEFAULT_NUM_RESULTS as u64) as usize;
}

fn put_safe_search(config: &mut Config, value: &str)
    ensures
        final(config)@ == (ConfigView { safe_search: value@, ..old(config)@ }),
{
    config.defaults.safe_search = owned(value);
}

fn put_timeout(config: &mut Config, value: &str)
    ensures
        final(config)@ == (ConfigView {
            timeout: number_or(value@, u64::MAX as nat, DEFAULT_TIMEOUT as nat) as u64,
            ..old(config)@
        }),
{
    config.defaults.timeout = parse_number_or(value, u64::MAX, DEFAULT_TIMEOUT);
}

fn put_format(config: &mut Config, value: &str)
    ensures
        final(config)@ == (ConfigView { format: value@, ..old(config)@ }),
{
    config.defaults.format = owned(value);
}

fn put_cache_switch(config: &mut Config, value: &str)
    ensures
        final(config)@ == (ConfigView {
            cache: CacheConfig { enabled: parsed_bool_or(value@, true), ..old(config)@.cache },
            ..old(config)@
        }),
{
    config.cache.enabled = parse_bool_or(value, true);
}

fn put_cache_ttl(config: &mut Config, value: &str)
    ensures
        final(config)@ == (ConfigView {
            cache: CacheConfig {
                ttl_seconds: number_or(value@, u64::MAX as nat, DEFAULT_CACHE_TTL as nat) as u64,
                ..old(config)@.cache
            },
            ..old(config)@
        }),
{
    config.cache.ttl_seconds = parse_number_or(value, u64::MAX, DEFAULT_CACHE_TTL);
}

fn put_cache_max_entries(config: &mut Config, value: &str)
    ensures
        final(config)@ == (ConfigView {
            cache: CacheConfig {
                max_entries: number_or(value@, usize::MAX as nat, DEFAULT_CACHE_MAX_ENTRIES as nat) as usize,
                ..old(config)@.cache
            },
            ..old(config)@
        }),
{
    config.cache.max_entries = parse_number_or(value, usize::MAX as u64, DEFAULT_CACHE_MAX_ENTRIES as u64) as usize;
}

/// Sets the value under a key path, as `config set` does: switches read
/// `"true"` and `"false"` and default to on, numbers that do not parse take
/// their default, and an unknown key path is a configuration error that
/// leaves the configuration as it was.
pub fn set_config_value(config: &mut Config, key: &str, value: &str) -> (r: Result<(), SearchError>)
    ensures
        match config_with(old(config)@, key@, value@) {
            Some(v) => r is Ok && final(config)@ == v,
            None => {
                &&& r matches Err(SearchError::Config(m)) && m@ == "Unknown configuration key: "@ + key@
                &&& final(config)@ == old(config)@
            },
        },
{
    if str_eq(key, "default_provider") {
        put_default_provider(config, value);
    } else if str_eq(key, "providers.brave.api_key") {
        put_brave_key(config, value);
    } else if str_eq(key, "providers.brave.enabled") {
        put_brave_switch(config, value);
    } else if str_eq(key, "providers.google.api_key") {
        put_google_key(config, value);
    } else if str_eq(key, "providers.google.cx") {
        put_google_cx(config, value);
    } else if str_eq(key, "providers.google.enabled") {
        put_google_switch(config, value);
    } else if str_eq(key, "providers.tavily.api_key") {
        put_tavily_key(config, value);
    } else if str_eq(key, "providers.tavily.enabled") {
        put_tavily_switch(config, value);
    } else if str_eq(key, "providers.duckduckgo.enabled") {
        put_duckduckgo_switch(config, value);
    } else if str_eq(key, "providers.serper.api_key") {
        put_serper_key(config, value);
    } else if str_eq(key, "providers.serper.enabled") {
        put_serper_switch(config, value);
    } else if str_eq(key, "providers.firecrawl.api_key") {
        put_firecrawl_key(config, value);
    } else if str_eq(key, "providers.firecrawl.enabled") {
        put_firecrawl_switch(config, value);
    } else if str_eq(key, "providers.serpapi.api_key") {
        put_serpapi_key(config, value);
    } else if str_eq(key, "providers.serpapi.enabled") {
        put_serpapi_switch(config, value);
    } else if str_eq(key, "providers.bing.api_key") {
        put_bing_key(config, value);
    } else if str_eq(key, "providers.bing.enabled") {
        put_bing_switch(config, value);
    } else if str_eq(key, "defaults.num_results") {
        put_num_results(config, value);
    } else if str_eq(key, "defaults.safe_search") {
        put_safe_search(config, value);
    } else if str_eq(key, "defaults.timeout") {
        put_timeout(config, value);
    } else if str_eq(key, "defaults.format") {
        put_format(config, value);
    } else if str_eq(key, "cache.enabled") {
        put_cache_switch(config, value);
    } else if str_eq(key, "cache.ttl_seconds") {
        put_cache_ttl(config, value);
    } else if str_eq(key, "cache.max_entries") {
        put_cache_max_entries(config, value);
    } else {
        let mut m = owned("Unknown configuration key: ");
        m.append(key);
        return Err(SearchError::Config(m));
    }
    Ok(())
}

} // verus!
