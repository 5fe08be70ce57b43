//! Search options, the provider registry with its fallback ordering, and the
//! registry that a configuration describes.

use vstd::prelude::*;
use crate::cli::{DateRange, SafeSearch};
use crate::text::{owned, str_eq};
use crate::cache::opt_view;
use crate::config::{Config, ConfigView, KeyedView, strings_view};

verus! {

/// Request timeout of fresh search options, in seconds.
pub const DEFAULT_TIMEOUT_SECS: u64 = 30;

/// Result count of fresh search options.
pub const DEFAULT_NUM_RESULTS: usize = 10;

/// The duration that `Duration::from_secs` gives for a number of seconds.
pub uninterp spec fn secs_duration(secs: u64) -> core::time::Duration;

/// Relies on `Duration::from_secs`: the duration of `secs` whole seconds,
/// the same for the same argument.
#[verifier::external_body]
pub(crate) fn duration_from_secs(secs: u64) -> (r: core::time::Duration)
    ensures
        r == secs_duration(secs),
{
    core::time::Duration::from_secs(secs)
}

/// Search options passed to providers.
#[derive(Debug)]
pub struct SearchOptions {
    /// Maximum number of results to return
    pub num_results: usize,
    /// Safe search level
    pub safe_search: SafeSearch,
    /// Date range filter
    pub date_range: Option<DateRange>,
    /// Include only results from these domains
    pub include_domains: Option<Vec<String>>,
    /// Exclude results from these domains
    pub exclude_domains: Option<Vec<String>>,
    /// Request timeout
    pub timeout: core::time::Duration,
}

/// Clones an optional list of strings, keeping its contents.
fn clone_opt_strings(o: &Option<Vec<String>>) -> (r: Option<Vec<String>>)
    ensures
        opt_strings_view(r) == opt_strings_view(*o),
{
    match o {
        Some(v) => {
            let c = v.clone();
            assert forall|i: int| 0 <= i < v@.len() implies c@[i] == v@[i] by {
                assert(cloned::<String>(v[i], c[i]));
            }
            assert(c@ =~= v@);
            Some(c)
        },
        None => None,
    }
}

/// An optional list of strings as plain values.
pub open spec fn opt_strings_view(o: Option<Vec<String>>) -> Option<Seq<String>> {
    match o {
        Some(v) => Some(v@),
        None => None,
    }
}

impl Clone for SearchOptions {
    fn clone(&self) -> (r: Self)
        ensures
            r.num_results == self.num_results,
            r.safe_search == self.safe_search,
            r.date_range == self.date_range,
            opt_strings_view(r.include_domains) == opt_strings_view(self.include_domains),
            opt_strings_view(r.exclude_domains) == opt_strings_view(self.exclude_domains),
            r.timeout == self.timeout,
    {
        SearchOptions {
            num_results: self.num_results,
            safe_search: self.safe_search,
            date_range: self.date_range,
            include_domains: clone_opt_strings(&self.include_domains),
            exclude_domains: clone_opt_strings(&self.exclude_domains),
            timeout: self.timeout,
        }
    }
}

impl SearchOptions {
    /// Ten results, moderate safe search, no filters, a thirty-second timeout.
    pub fn new() -> (r: Self)
        ensures
            r.num_results == DEFAULT_NUM_RESULTS,
            r.safe_search == SafeSearch::Moderate,
            r.date_range is None,
            r.include_domains is None,
            r.exclude_domains is None,
            r.timeout == secs_duration(DEFAULT_TIMEOUT_SECS),
    {
        SearchOptions {
            num_results: DEFAULT_NUM_RESULTS,
            safe_search: SafeSearch::Moderate,
            date_range: None,
            include_domains: None,
            exclude_domains: None,
            timeout: duration_from_secs(DEFAULT_TIMEOUT_SECS),
        }
    }

    /// The same options with another result count.
    pub fn with_num_results(self, n: usize) -> (r: Self)
        ensures
            r == (SearchOptions { num_results: n, ..self }),
    {
        SearchOptions { num_results: n, ..self }
    }

    /// The same options with another safe-search level.
    pub fn with_safe_search(self, level: SafeSearch) -> (r: Self)
        ensures
            r == (SearchOptions { safe_search: level, ..self }),
    {
        SearchOptions { safe_search: level, ..self }
    }

    /// The same options with another date range.
    pub fn with_date_range(self, range: Option<DateRange>) -> (r: Self)
        ensures
            r == (SearchOptions { date_range: range, ..self }),
    {
        SearchOptions { date_range: range, ..self }
    }

    /// The same options with another timeout.
    pub fn with_timeout(self, timeout: core::time::Duration) -> (r: Self)
        ensures
            r == (SearchOptions { timeout: timeout, ..self }),
    {
        SearchOptions { timeout, ..self }
    }
}

/// A registered provider: its name and whether its credentials are present.
#[derive(Debug)]
pub struct ProviderStatus {
    pub name: String,
    pub configured: bool,
}

impl Clone for ProviderStatus {
    fn clone(&self) -> (r: Self)
        ensures
            r == *self,
    {
        ProviderStatus { name: self.name.clone(), configured: self.configured }
    }
}

/// The index of the first provider in `ps` called `name`.
pub open spec fn first_named(ps: Seq<ProviderStatus>, name: Seq<char>) -> Option<int>
    decreases ps.len(),
{
    if ps.len() == 0 {
        None
    } else {
        match first_named(ps.drop_last(), name) {
            Some(i) => Some(i),
            None => if ps.last().name@ == name {
                Some(ps.len() - 1)
            } else {
                None
            },
        }
    }
}

/// Whether one of the providers at `order` is called `name`.
pub open spec fn names_contain(ps: Seq<ProviderStatus>, order: Seq<usize>, name: Seq<char>) -> bool {
    exists|j: int| 0 <= j < order.len() && #[trigger] ps[order[j] as int].name@ == name
}

/// The first part of the search order: the names of `fallback`, in order, that
/// name a configured provider, each once.
pub open spec fn fallback_part(ps: Seq<ProviderStatus>, fallback: Seq<Seq<char>>) -> Seq<usize>
    decreases fallback.len(),
{
    if fallback.len() == 0 {
        Seq::empty()
    } else {
        let acc = fallback_part(ps, fallback.drop_last());
        let name = fallback.last();
        match first_named(ps, name) {
            Some(i) => if ps[i].configured && !names_contain(ps, acc, name) {
                acc.push(i as usize)
            } else {
                acc
            },
            None => acc,
        }
    }
}

/// `acc` followed by the configured providers among the first `k` that no
/// provider of it is named like, in registration order, each name once.
pub open spec fn remaining_part(ps: Seq<ProviderStatus>, acc: Seq<usize>, k: nat) -> Seq<usize>
    decreases k,
{
    if k == 0 {
        acc
    } else {
        let prev = remaining_part(ps, acc, (k - 1) as nat);
        let p = ps[k - 1];
        if p.configured && !names_contain(ps, prev, p.name@) {
            prev.push((k - 1) as usize)
        } else {
            prev
        }
    }
}

/// The configured providers among the first `k`, in registration order.
pub open spec fn configured_among(ps: Seq<ProviderStatus>, k: nat) -> Seq<usize>
    decreases k,
{
    if k == 0 {
        Seq::empty()
    } else {
        let prev = configured_among(ps, (k - 1) as nat);
        if ps[k - 1].configured {
            prev.push((k - 1) as usize)
        } else {
            prev
        }
    }
}

/// The search order: configured providers in fallback order, then the other
/// configured providers in registration order.
pub open spec fn search_order(ps: Seq<ProviderStatus>, fallback: Seq<Seq<char>>) -> Seq<usize> {
    remaining_part(ps, fallback_part(ps, fallback), ps.len())
}

/// The position in `order` of the first provider called `name`.
pub open spec fn first_pos(ps: Seq<ProviderStatus>, order: Seq<usize>, name: Seq<char>) -> Option<int>
    decreases order.len(),
{
    if order.len() == 0 {
        None
    } else {
        match first_pos(ps, order.drop_last(), name) {
            Some(j) => Some(j),
            None => if ps[order.last() as int].name@ == name {
                Some(order.len() - 1)
            } else {
                None
            },
        }
    }
}

/// `order` with the first provider called `preferred` moved to the front.
pub open spec fn promoted(ps: Seq<ProviderStatus>, order: Seq<usize>, preferred: Option<Seq<char>>) -> Seq<usize> {
    match preferred {
        Some(name) => match first_pos(ps, order, name) {
            Some(j) => seq![order[j]] + order.remove(j),
            None => order,
        },
        None => order,
    }
}

proof fn lemma_first_pos(ps: Seq<ProviderStatus>, order: Seq<usize>, name: Seq<char>)
    ensures
        match first_pos(ps, order, name) {
            Some(j) => 0 <= j < order.len() && ps[order[j] as int].name@ == name,
            None => forall|j: int| 0 <= j < order.len() ==> #[trigger] ps[order[j] as int].name@ != name,
        },
    decreases order.len(),
{
    if order.len() > 0 {
        lemma_first_pos(ps, order.drop_last(), name);
        assert forall|j: int| 0 <= j < order.len() - 1 implies #[trigger] order[j] == order.drop_last()[j] by {}
    }
}

/// When a provider called `name` is in the order, promotion puts it first
/// and keeps the length.
pub proof fn lemma_preferred_first(ps: Seq<ProviderStatus>, order: Seq<usize>, name: Seq<char>)
    requires
        names_contain(ps, order, name),
    ensures
        promoted(ps, order, Some(name)).len() == order.len(),
        ps[promoted(ps, order, Some(name))[0] as int].name@ == name,
{
    lemma_first_pos(ps, order, name);
    let j = choose|j: int| 0 <= j < order.len() && #[trigger] ps[order[j] as int].name@ == name;
    assert(ps[order[j] as int].name@ == name);
}

/// Promotion keeps the length and draws every element from the order.
pub proof fn lemma_promoted_bounds(ps: Seq<ProviderStatus>, order: Seq<usize>, preferred: Option<Seq<char>>)
    requires
        forall|j: int| 0 <= j < order.len() ==> (#[trigger] order[j]) < ps.len(),
    ensures
        promoted(ps, order, preferred).len() == order.len(),
        forall|j: int| 0 <= j < order.len() ==> (#[trigger] promoted(ps, order, preferred)[j]) < ps.len(),
{
    match preferred {
        Some(name) => {
            lemma_first_pos(ps, order, name);
            match first_pos(ps, order, name) {
                Some(p) => {
                    let r = promoted(ps, order, preferred);
                    assert forall|j: int| 0 <= j < order.len() implies (#[trigger] r[j]) < ps.len() by {
                        if j == 0 {
                        } else if j - 1 < p {
                            assert(r[j] == order[j - 1]);
                        } else {
                            assert(r[j] == order[j]);
                        }
                    }
                },
                None => {},
            }
        },
        None => {},
    }
}

proof fn lemma_first_pos_prefix(ps: Seq<ProviderStatus>, order: Seq<usize>, j: int, name: Seq<char>)
    requires
        0 <= j < order.len(),
        ps[order[j] as int].name@ == name,
        first_pos(ps, order.subrange(0, j), name) is None,
    ensures
        first_pos(ps, order, name) == Some(j),
    decreases order.len(),
{
    if j < order.len() - 1 {
        assert(order.drop_last().subrange(0, j) =~= order.subrange(0, j));
        lemma_first_pos_prefix(ps, order.drop_last(), j, name);
    } else {
        assert(order.drop_last() =~= order.subrange(0, j));
    }
}

/// Every index of `order` is a configured provider, and no two share a name.
pub open spec fn order_sound(ps: Seq<ProviderStatus>, order: Seq<usize>) -> bool {
    &&& forall|j: int| 0 <= j < order.len() ==> (#[trigger] order[j]) < ps.len()
    &&& forall|j: int| 0 <= j < order.len() ==> ps[#[trigger] order[j] as int].configured
    &&& forall|a: int, b: int| 0 <= a < order.len() && 0 <= b < order.len() && a != b
        ==> #[trigger] ps[order[a] as int].name@ != #[trigger] ps[order[b] as int].name@
}

proof fn lemma_first_named(ps: Seq<ProviderStatus>, name: Seq<char>)
    ensures
        match first_named(ps, name) {
            Some(i) => 0 <= i < ps.len() && ps[i].name@ == name,
            None => forall|i: int| 0 <= i < ps.len() ==> #[trigger] ps[i].name@ != name,
        },
    decreases ps.len(),
{
    if ps.len() > 0 {
        lemma_first_named(ps.drop_last(), name);
        assert forall|i: int| 0 <= i < ps.len() - 1 implies #[trigger] ps[i] == ps.drop_last()[i] by {}
    }
}

proof fn lemma_fallback_sound(ps: Seq<ProviderStatus>, fallback: Seq<Seq<char>>)
    requires
        ps.len() <= usize::MAX,
    ensures
        order_sound(ps, fallback_part(ps, fallback)),
    decreases fallback.len(),
{
    if fallback.len() > 0 {
        lemma_fallback_sound(ps, fallback.drop_last());
        lemma_first_named(ps, fallback.last());
        let acc = fallback_part(ps, fallback.drop_last());
        let r = fallback_part(ps, fallback);
        if r != acc {
            assert forall|a: int, b: int| 0 <= a < r.len() && 0 <= b < r.len() && a != b
                implies #[trigger] ps[r[a] as int].name@ != #[trigger] ps[r[b] as int].name@ by {
                if a < acc.len() && b < acc.len() {
                    assert(r[a] == acc[a] && r[b] == acc[b]);
                } else if a < acc.len() {
                    assert(r[a] == acc[a]);
                } else {
                    assert(r[b] == acc[b]);
                }
            }
        }
    }
}

proof fn lemma_remaining_sound(ps: Seq<ProviderStatus>, acc: Seq<usize>, k: nat)
    requires
        order_sound(ps, acc),
        k <= ps.len(),
        ps.len() <= usize::MAX,
    ensures
        order_sound(ps, remaining_part(ps, acc, k)),
        acc.len() <= remaining_part(ps, acc, k).len(),
        forall|j: int| 0 <= j < acc.len() ==> #[trigger] remaining_part(ps, acc, k)[j] == acc[j],
    decreases k,
{
    if k > 0 {
        lemma_remaining_sound(ps, acc, (k - 1) as nat);
        let prev = remaining_part(ps, acc, (k - 1) as nat);
        let r = remaining_part(ps, acc, k);
        if r != prev {
            assert forall|a: int, b: int| 0 <= a < r.len() && 0 <= b < r.len() && a != b
                implies #[trigger] ps[r[a] as int].name@ != #[trigger] ps[r[b] as int].name@ by {
                if a < prev.len() && b < prev.len() {
                    assert(r[a] == prev[a] && r[b] == prev[b]);
                } else if a < prev.len() {
                    assert(r[a] == prev[a]);
                } else {
                    assert(r[b] == prev[b]);
                }
            }
        }
    }
}

/// The search order names only configured providers, each at most once.
pub proof fn lemma_search_order_sound(ps: Seq<ProviderStatus>, fallback: Seq<Seq<char>>)
    requires
        ps.len() <= usize::MAX,
    ensures
        order_sound(ps, search_order(ps, fallback)),
{
    lemma_fallback_sound(ps, fallback);
    lemma_remaining_sound(ps, fallback_part(ps, fallback), ps.len());
}

/// Provider registry: the registered providers, in registration order, and the
/// preferred fallback order by name.
pub struct ProviderRegistry {
    providers: Vec<ProviderStatus>,
    fallback_order: Vec<String>,
}

impl ProviderRegistry {
    /// The registered providers.
    pub closed spec fn spec_providers(&self) -> Seq<ProviderStatus> {
        self.providers@
    }

    /// The fallback order, by name.
    pub closed spec fn spec_fallback(&self) -> Seq<Seq<char>> {
        self.fallback_order@.map_values(|s: String| s@)
    }

    /// An empty registry.
    pub fn new() -> (r: Self)
        ensures
            r.spec_providers() == Seq::<ProviderStatus>::empty(),
            r.spec_fallback() == Seq::<Seq<char>>::empty(),
    {
        let r = ProviderRegistry { providers: Vec::new(), fallback_order: Vec::new() };
        assert(r.spec_fallback() =~= Seq::<Seq<char>>::empty());
        r
    }

    /// Adds a provider at the end of the registration order.
    pub fn register(&mut self, provider: ProviderStatus)
        ensures
            final(self).spec_providers() == old(self).spec_providers().push(provider),
            final(self).spec_fallback() == old(self).spec_fallback(),
    {
        self.providers.push(provider);
    }

    /// Replaces the fallback order.
    pub fn set_fallback_order(&mut self, order: Vec<String>)
        ensures
            final(self).spec_providers() == old(self).spec_providers(),
            final(self).spec_fallback() == order@.map_values(|s: String| s@),
    {
        self.fallback_order = order;
    }

    /// The fallback order, by name.
    pub fn fallback_order(&self) -> (r: &Vec<String>)
        ensures
            strings_view(r@) == self.spec_fallback(),
    {
        &self.fallback_order
    }

    /// The number of registered providers.
    pub fn len(&self) -> (r: usize)
        ensures
            r == self.spec_providers().len(),
    {
        self.providers.len()
    }

    /// The index of the first registered provider called `name`.
    pub fn get(&self, name: &str) -> (r: Option<usize>)
        ensures
            match r {
                Some(i) => first_named(self.spec_providers(), name@) == Some(i as int),
                None => first_named(self.spec_providers(), name@) is None,
            },
    {
        let ghost ps = self.providers@;
        let mut i: usize = 0;
        while i < self.providers.len()
            invariant
                ps == self.providers@,
                i <= ps.len(),
                first_named(ps.subrange(0, i as int), name@) is None,
            decreases ps.len() - i,
        {
            proof {
                assert(ps.subrange(0, i + 1).drop_last() =~= ps.subrange(0, i as int));
            }
            if str_eq(self.providers[i].name.as_str(), name) {
                proof { lemma_first_named_prefix(ps, i as int, name@); }
                return Some(i);
            }
            i = i + 1;
        }
        assert(ps.subrange(0, i as int) =~= ps);
        None
    }

    /// The registered providers whose credentials are present, in registration order.
    pub fn configured_providers(&self) -> (r: Vec<usize>)
        ensures
            r@ == configured_among(self.spec_providers(), self.spec_providers().len()),
    {
        let mut r: Vec<usize> = Vec::new();
        let mut i: usize = 0;
        while i < self.providers.len()
            invariant
                i <= self.providers@.len(),
                r@ == configured_among(self.providers@, i as nat),
            decreases self.providers@.len() - i,
        {
            if self.providers[i].configured {
                r.push(i);
            }
            i = i + 1;
        }
        r
    }

    /// Name and status of every registered provider, in registration order.
    pub fn list_providers(&self) -> (r: Vec<ProviderStatus>)
        ensures
            r@ == self.spec_providers(),
    {
        let mut r: Vec<ProviderStatus> = Vec::new();
        let mut i: usize = 0;
        while i < self.providers.len()
            invariant
                i <= self.providers@.len(),
                r@ == self.providers@.subrange(0, i as int),
            decreases self.providers@.len() - i,
        {
            r.push(self.providers[i].clone());
            assert(r@ =~= self.providers@.subrange(0, i + 1));
            i = i + 1;
        }
        assert(self.providers@.subrange(0, i as int) =~= self.providers@);
        r
    }

    /// Whether one of the providers at `order` is called `name`.
    fn order_has_name(&self, order: &Vec<usize>, name: &str) -> (r: bool)
        requires
            forall|j: int| 0 <= j < order@.len() ==> (#[trigger] order@[j]) < self.providers@.len(),
        ensures
            r == names_contain(self.providers@, order@, name@),
    {
        let mut j: usize = 0;
        while j < order.len()
            invariant
                j <= order@.len(),
                forall|l: int| 0 <= l < order@.len() ==> (#[trigger] order@[l]) < self.providers@.len(),
                forall|l: int| 0 <= l < j ==> #[trigger] self.providers@[order@[l] as int].name@ != name@,
            decreases order@.len() - j,
        {
            if str_eq(self.providers[order[j]].name.as_str(), name) {
                return true;
            }
            j = j + 1;
        }
        false
    }

    /// Configured providers in fallback order, then the remaining configured
    /// providers in registration order; unconfigured providers never appear,
    /// and no name appears twice.
    pub fn providers_in_order(&self) -> (r: Vec<usize>)
        ensures
            r@ == search_order(self.spec_providers(), self.spec_fallback()),
            order_sound(self.spec_providers(), r@),
    {
        let ghost ps = self.providers@;
        let ghost fb = self.spec_fallback();
        let count = self.providers.len();
        let mut result: Vec<usize> = Vec::new();
        let mut i: usize = 0;
        while i < self.fallback_order.len()
            invariant
                ps == self.providers@,
                count == ps.len(),
                fb == self.spec_fallback(),
                fb.len() == self.fallback_order@.len(),
                i <= fb.len(),
                result@ == fallback_part(ps, fb.subrange(0, i as int)),
            decreases fb.len() - i,
        {
            proof {
                assert(fb.subrange(0, i + 1).drop_last() =~= fb.subrange(0, i as int));
                lemma_fallback_sound(ps, fb.subrange(0, i as int));
            }
            let name = self.fallback_order[i].as_str();
            proof { lemma_first_named(ps, name@); }
            match self.get(name) {
                Some(k) => {
                    if self.providers[k].configured && !self.order_has_name(&result, name) {
                        result.push(k);
                    }
                },
                None => {},
            }
            i = i + 1;
        }
        assert(fb.subrange(0, i as int) =~= fb);
        let ghost acc = result@;
        proof { lemma_fallback_sound(ps, fb); }
        let mut k: usize = 0;
        while k < count
            invariant
                ps == self.providers@,
                count == ps.len(),
                k <= ps.len(),
                order_sound(ps, acc),
                result@ == remaining_part(ps, acc, k as nat),
            decreases ps.len() - k,
        {
            proof { lemma_remaining_sound(ps, acc, k as nat); }
            if self.providers[k].configured && !self.order_has_name(&result, self.providers[k].name.as_str()) {
                result.push(k);
            }
            k = k + 1;
        }
        proof { lemma_search_order_sound(ps, fb); }
        result
    }

    /// `order` with the first provider called `preferred`, if any, moved to the front.
    pub fn promote(&self, order: Vec<usize>, preferred: Option<&str>) -> (r: Vec<usize>)
        requires
            forall|j: int| 0 <= j < order@.len() ==> (#[trigger] order@[j]) < self.spec_providers().len(),
        ensures
            r@ == promoted(self.spec_providers(), order@, opt_view(preferred)),
    {
        match preferred {
            Some(name) => {
                let ghost ps = self.providers@;
                let ghost o = order@;
                let mut j: usize = 0;
                while j < order.len()
                    invariant
                        ps == self.providers@,
                        o == order@,
                        opt_view(preferred) == Some(name@),
                        j <= o.len(),
                        forall|l: int| 0 <= l < o.len() ==> (#[trigger] o[l]) < ps.len(),
                        first_pos(ps, o.subrange(0, j as int), name@) is None,
                    decreases o.len() - j,
                {
                    proof {
                        assert(o.subrange(0, j + 1).drop_last() =~= o.subrange(0, j as int));
                    }
                    if str_eq(self.providers[order[j]].name.as_str(), name) {
                        proof { lemma_first_pos_prefix(ps, o, j as int, name@); }
                        let mut rest = order;
                        let first = rest.remove(j);
                        let mut r: Vec<usize> = Vec::new();
                        r.push(first);
                        r.append(&mut rest);
                        assert(r@ =~= seq![o[j as int]] + o.remove(j as int));
                        return r;
                    }
                    j = j + 1;
                }
                assert(o.subrange(0, j as int) =~= o);
                order
            },
            None => order,
        }
    }
}

proof fn lemma_first_named_prefix(ps: Seq<ProviderStatus>, i: int, name: Seq<char>)
    requires
        0 <= i < ps.len(),
        ps[i].name@ == name,
        first_named(ps.subrange(0, i), name) is None,
    ensures
        first_named(ps, name) == Some(i),
    decreases ps.len(),
{
    if i < ps.len() - 1 {
        assert(ps.drop_last().subrange(0, i) =~= ps.subrange(0, i));
        lemma_first_named_prefix(ps.drop_last(), i, name);
    } else {
        assert(ps.drop_last() =~= ps.subrange(0, i));
    }
}

/// Registered providers as names and whether they are configured.
pub open spec fn statuses_view(ps: Seq<ProviderStatus>) -> Seq<(Seq<char>, bool)> {
    ps.map_values(|p: ProviderStatus| (p.name@, p.configured))
}

/// `seq![(name, configured)]` when `on`, else nothing.
pub open spec fn status_if(on: bool, name: Seq<char>, configured: bool) -> Seq<(Seq<char>, bool)> {
    if on { seq![(name, configured)] } else { Seq::empty() }
}

/// The status of a provider section with a key: registered when enabled,
/// configured when its key is not empty.
pub open spec fn keyed_status(k: Option<KeyedView>, name: Seq<char>) -> Seq<(Seq<char>, bool)> {
    match k {
        Some(c) => status_if(c.enabled, name, c.api_key.len() > 0),
        None => Seq::empty(),
    }
}

/// The providers that a configuration registers, in the order brave, google,
/// duckduckgo, tavily, serper, firecrawl: each enabled section, configured
/// when its credentials are not empty (DuckDuckGo needs none).
pub open spec fn configured_statuses(c: ConfigView) -> Seq<(Seq<char>, bool)> {
    keyed_status(c.brave, "brave"@)
        + (match c.google {
            Some(g) => status_if(g.enabled, "google"@, g.api_key.len() > 0 && g.cx.len() > 0),
            None => Seq::empty(),
        })
        + status_if(c.duckduckgo == Some(true), "duckduckgo"@, true)
        + keyed_status(c.tavily, "tavily"@)
        + keyed_status(c.serper, "serper"@)
        + keyed_status(c.firecrawl, "firecrawl"@)
}

impl ProviderRegistry {
    /// Registers a provider when `on`.
    fn register_if(&mut self, on: bool, name: &str, configured: bool)
        ensures
            statuses_view(final(self).spec_providers())
                == statuses_view(old(self).spec_providers()) + status_if(on, name@, configured),
            final(self).spec_fallback() == old(self).spec_fallback(),
    {
        let ghost before = self.providers@;
        if on {
            self.register(ProviderStatus { name: owned(name), configured });
        }
        assert(statuses_view(self.providers@) =~= statuses_view(before) + status_if(on, name@, configured));
    }
}

/// Whether a string is empty.
fn is_blank(s: &String) -> (r: bool)
    ensures
        r == (s@.len() == 0),
{
    s.as_str().unicode_len() == 0
}

/// Registers a provider section with a key: when enabled, configured when its
/// key is not empty.
fn register_keyed(registry: &mut ProviderRegistry, key: &String, enabled: bool, name: &str)
    ensures
        statuses_view(final(registry).spec_providers()) == statuses_view(old(registry).spec_providers())
            + keyed_status(Some(KeyedView { api_key: key@, enabled }), name@),
        final(registry).spec_fallback() == old(registry).spec_fallback(),
{
    registry.register_if(enabled, name, !is_blank(key));
}

fn register_brave(registry: &mut ProviderRegistry, config: &Config)
    ensures
        statuses_view(final(registry).spec_providers()) == statuses_view(old(registry).spec_providers())
            + keyed_status(config@.brave, "brave"@),
        final(registry).spec_fallback() == old(registry).spec_fallback(),
{
    let ghost before = statuses_view(registry.spec_providers());
    match &config.providers.brave {
        Some(c) => register_keyed(registry, &c.api_key, c.enabled, "brave"),
        None => {},
    }
    assert(statuses_view(registry.spec_providers()) =~= before + keyed_status(config@.brave, "brave"@));
}

fn register_google(registry: &mut ProviderRegistry, config: &Config)
    ensures
        statuses_view(final(registry).spec_providers()) == statuses_view(old(registry).spec_providers())
            + (match config@.google {
            Some(g) => status_if(g.enabled, "google"@, g.api_key.len() > 0 && g.cx.len() > 0),
            None => Seq::<(Seq<char>, bool)>::empty(),
        }),
        final(registry).spec_fallback() == old(registry).spec_fallback(),
{
    let ghost before = statuses_view(registry.spec_providers());
    match &config.providers.google {
        Some(c) => registry.register_if(c.enabled, "google", !is_blank(&c.api_key) && !is_blank(&c.cx)),
        None => {},
    }
    assert(statuses_view(registry.spec_providers()) =~= before + (match config@.google {
            Some(g) => status_if(g.enabled, "google"@, g.api_key.len() > 0 && g.cx.len() > 0),
            None => Seq::<(Seq<char>, bool)>::empty(),
        }));
}

fn register_duckduckgo(registry: &mut ProviderRegistry, config: &Config)
    ensures
        statuses_view(final(registry).spec_providers()) == statuses_view(old(registry).spec_providers())
            + status_if(config@.duckduckgo == Some(true), "duckduckgo"@, true),
        final(registry).spec_fallback() == old(registry).spec_fallback(),
{
    let ghost before = statuses_view(registry.spec_providers());
    match &config.providers.duckduckgo {
        Some(c) => registry.register_if(c.enabled, "duckduckgo", true),
        None => registry.register_if(false, "duckduckgo", true),
    }
    assert(statuses_view(registry.spec_providers()) =~= before + status_if(config@.duckduckgo == Some(true), "duckduckgo"@, true));
}

fn register_tavily(registry: &mut ProviderRegistry, config: &Config)
    ensures
        statuses_view(final(registry).spec_providers()) == statuses_view(old(registry).spec_providers())
            + keyed_status(config@.tavily, "tavily"@),
        final(registry).spec_fallback() == old(registry).spec_fallback(),
{
    let ghost before = statuses_view(registry.spec_providers());
    match &config.providers.tavily {
        Some(c) => register_keyed(registry, &c.api_key, c.enabled, "tavily"),
        None => {},
    }
    assert(statuses_view(registry.spec_providers()) =~= before + keyed_status(config@.tavily, "tavily"@));
}

fn register_serper(registry: &mut ProviderRegistry, config: &Config)
    ensures
        statuses_view(final(registry).spec_providers()) == statuses_view(old(registry).spec_providers())
            + keyed_status(config@.serper, "serper"@),
        final(registry).spec_fallback() == old(registry).spec_fallback(),
{
    let ghost before = statuses_view(registry.spec_providers());
    match &config.providers.serper {
        Some(c) => register_keyed(registry, &c.api_key, c.enabled, "serper"),
        None => {},
    }
    assert(statuses_view(registry.spec_providers()) =~= before + keyed_status(config@.serper, "serper"@));
}

fn register_firecrawl(registry: &mut ProviderRegistry, config: &Config)
    ensures
        statuses_view(final(registry).spec_providers()) == statuses_view(old(registry).spec_providers())
            + keyed_status(config@.firecrawl, "firecrawl"@),
        final(registry).spec_fallback() == old(registry).spec_fallback(),
{
    let ghost before = statuses_view(registry.spec_providers());
    match &config.providers.firecrawl {
        Some(c) => register_keyed(registry, &c.api_key, c.enabled, "firecrawl"),
        None => {},
    }
    assert(statuses_view(registry.spec_providers()) =~= before + keyed_status(config@.firecrawl, "firecrawl"@));
}

/// The registry that a configuration describes: its enabled providers and
/// its fallback order.
pub fn build_registry(config: &Config) -> (r: ProviderRegistry)
    ensures
        statuses_view(r.spec_providers()) == configured_statuses(config@),
        r.spec_fallback() == config@.fallback_order,
{
    let mut registry = ProviderRegistry::new();
    assert(statuses_view(registry.spec_providers()) =~= Seq::<(Seq<char>, bool)>::empty());
    register_brave(&mut registry, config);
    register_google(&mut registry, config);
    register_duckduckgo(&mut registry, config);
    register_tavily(&mut registry, config);
    register_serper(&mut registry, config);
    register_firecrawl(&mut registry, config);
    assert(statuses_view(registry.spec_providers()) =~= configured_statuses(config@));
    let order = clone_strings(&config.fallback_order);
    registry.set_fallback_order(order);
    registry
}

/// Clones a list of strings, keeping its contents.
fn clone_strings(v: &Vec<String>) -> (r: Vec<String>)
    ensures
        r@ == v@,
{
    let c = v.clone();
    assert forall|i: int| 0 <= i < v@.len() implies c@[i] == v@[i] by {
        assert(cloned::<String>(v[i], c[i]));
    }
    assert(c@ =~= v@);
    c
}

} // verus!
