//! The decisions of one search: which provider to try, when to back off and
//! retry, when to fall through to the next provider, and when to give up.
//!
//! The provider calls themselves and the waiting happen outside the library:
//! a driver asks a `FallbackSearch` what to do, does it, and reports back.

use vstd::prelude::*;
use crate::cache::opt_view;
use crate::error::{SearchError, error_message};
use crate::providers::{lemma_promoted_bounds, promoted, search_order, ProviderRegistry};
use crate::results::SearchResult;

verus! {

/// Attempts per provider before its last error is final.
pub const MAX_RETRIES: u32 = 3;

/// Delay before the first retry, in milliseconds; it doubles with each attempt.
pub const BASE_DELAY_MS: u64 = 500;

/// Whether a failed attempt is worth repeating at the same provider:
/// transport failures and rate limits.
pub open spec fn is_retryable(e: SearchError) -> bool {
    e is Network || e is RateLimited
}

/// Whether a provider's failure lets the search move on to the next provider:
/// rate limits, API errors and transport failures.
pub open spec fn is_continuable(e: SearchError) -> bool {
    e is RateLimited || e is Api || e is Network
}

/// Whether an error carries an explicit retry-after hint.
pub open spec fn has_retry_hint(e: SearchError) -> bool {
    e matches SearchError::RateLimited { retry_after: Some(_), .. }
}

/// The wait before retrying after `e` failed attempt number `attempt`
/// (counted from zero), in milliseconds: the retry-after hint if there is
/// one, else the base delay doubled once per earlier attempt.
pub open spec fn backoff_ms(e: SearchError, attempt: nat) -> int {
    match e {
        SearchError::RateLimited { retry_after: Some(secs), .. } => secs * 1000,
        _ => BASE_DELAY_MS * vstd::arithmetic::power2::pow2(attempt),
    }
}

/// Whether an error is worth another attempt at the same provider.
pub fn is_retryable_error(e: &SearchError) -> (r: bool)
    ensures
        r == is_retryable(*e),
{
    match e {
        SearchError::Network(_) | SearchError::RateLimited { .. } => true,
        _ => false,
    }
}

/// Whether a provider's failure lets the search try the next provider.
pub fn is_continuable_error(e: &SearchError) -> (r: bool)
    ensures
        r == is_continuable(*e),
{
    match e {
        SearchError::RateLimited { .. } | SearchError::Api { .. } | SearchError::Network(_) => true,
        _ => false,
    }
}

/// The wait in milliseconds before retrying after attempt `attempt` failed with `e`.
pub fn retry_delay_ms(e: &SearchError, attempt: u32) -> (r: u128)
    requires
        attempt < MAX_RETRIES,
    ensures
        r == backoff_ms(*e, attempt as nat),
{
    match e {
        SearchError::RateLimited { retry_after: Some(secs), .. } => (*secs as u128) * 1000,
        _ => {
            let mut delay: u128 = BASE_DELAY_MS as u128;
            let mut k: u32 = 0;
            proof { vstd::arithmetic::power2::lemma2_to64(); }
            while k < attempt
                invariant
                    k <= attempt < MAX_RETRIES,
                    delay == BASE_DELAY_MS * vstd::arithmetic::power2::pow2(k as nat),
                decreases attempt - k,
            {
                proof {
                    vstd::arithmetic::power2::lemma_pow2_unfold((k + 1) as nat);
                    vstd::arithmetic::power2::lemma2_to64();
                }
                delay = delay * 2;
                k = k + 1;
            }
            proof { vstd::arithmetic::power2::lemma2_to64(); }
            delay
        },
    }
}

/// Without a retry-after hint, each wait is exactly twice the one before.
pub proof fn lemma_backoff_doubles(e0: SearchError, e1: SearchError, attempt: nat)
    requires
        !has_retry_hint(e0),
        !has_retry_hint(e1),
    ensures
        backoff_ms(e1, attempt + 1) == 2 * backoff_ms(e0, attempt),
        backoff_ms(e0, attempt) > 0,
{
    vstd::arithmetic::power2::lemma_pow2_unfold(attempt + 1);
    vstd::arithmetic::power2::lemma_pow2_pos(attempt);
}

/// What a search does after the current provider, at position `current` of
/// `count` candidates, failed attempt number `attempt` with `e`.
pub enum FailStep {
    /// Wait this many milliseconds and call the same provider again
    Retry { delay_ms: int },
    /// Call the next provider
    Next,
    /// End the search with `AllProvidersFailed` and this message
    AllFailed(Seq<char>),
    /// End the search with `e` itself
    Abort,
}

/// The decision after a failed attempt: a transport failure or rate limit is
/// retried while attempts remain; then a rate limit, API error or transport
/// failure moves on to the next provider, or at the last one ends the search
/// with `AllProvidersFailed`; any other error ends the search.
pub open spec fn after_error(count: nat, current: nat, attempt: nat, e: SearchError) -> FailStep {
    if is_retryable(e) && attempt + 1 < MAX_RETRIES {
        FailStep::Retry { delay_ms: backoff_ms(e, attempt) }
    } else if is_continuable(e) && current + 1 < count {
        FailStep::Next
    } else if is_continuable(e) {
        FailStep::AllFailed(error_message(e))
    } else {
        FailStep::Abort
    }
}

/// A search among `count` candidates, from position `current` and attempt
/// `attempt`, in which attempt `a` at position `i` fails with `errs(i, a)`:
/// the positions called, in order, and how the search ends.
pub open spec fn failing_run(
    count: nat,
    current: nat,
    attempt: nat,
    errs: spec_fn(nat, nat) -> SearchError,
) -> (Seq<nat>, FailStep)
    decreases count - current, MAX_RETRIES - attempt,
{
    if current >= count || attempt >= MAX_RETRIES {
        (Seq::empty(), FailStep::Abort)
    } else {
        match after_error(count, current, attempt, errs(current, attempt)) {
            FailStep::Retry { .. } => {
                let rest = failing_run(count, current, attempt + 1, errs);
                (seq![current] + rest.0, rest.1)
            },
            FailStep::Next => {
                let rest = failing_run(count, current + 1, 0, errs);
                (seq![current] + rest.0, rest.1)
            },
            other => (seq![current], other),
        }
    }
}

proof fn lemma_all_fail_from(count: nat, current: nat, attempt: nat, errs: spec_fn(nat, nat) -> SearchError)
    requires
        current < count,
        attempt < MAX_RETRIES,
        forall|i: nat, a: nat| is_continuable(#[trigger] errs(i, a)),
    ensures
        ({
            let (tried, end) = failing_run(count, current, attempt, errs);
            &&& tried.len() > 0
            &&& tried[0] == current
            &&& tried.last() == count - 1
            &&& forall|j: int| 0 <= j < tried.len() - 1
                ==> #[trigger] tried[j + 1] == tried[j] || tried[j + 1] == tried[j] + 1
            &&& exists|a: nat| a < MAX_RETRIES && end == FailStep::AllFailed(error_message(#[trigger] errs((count - 1) as nat, a)))
        }),
    decreases count - current, MAX_RETRIES - attempt,
{
    let e = errs(current, attempt);
    match after_error(count, current, attempt, e) {
        FailStep::Retry { .. } => {
            lemma_all_fail_from(count, current, attempt + 1, errs);
            let rest = failing_run(count, current, attempt + 1, errs);
            let tried = seq![current] + rest.0;
            assert forall|j: int| 0 <= j < tried.len() - 1 implies
                #[trigger] tried[j + 1] == tried[j] || tried[j + 1] == tried[j] + 1 by {
                if j > 0 {
                    assert(tried[j] == rest.0[j - 1]);
                    assert(tried[j + 1] == rest.0[(j - 1) + 1]);
                } else {
                    assert(tried[0] == current);
                    assert(tried[1] == rest.0[0]);
                }
            }
        },
        FailStep::Next => {
            lemma_all_fail_from(count, current + 1, 0, errs);
            let rest = failing_run(count, current + 1, 0, errs);
            let tried = seq![current] + rest.0;
            assert forall|j: int| 0 <= j < tried.len() - 1 implies
                #[trigger] tried[j + 1] == tried[j] || tried[j + 1] == tried[j] + 1 by {
                if j > 0 {
                    assert(tried[j] == rest.0[j - 1]);
                    assert(tried[j + 1] == rest.0[(j - 1) + 1]);
                } else {
                    assert(tried[0] == current);
                    assert(tried[1] == rest.0[0]);
                }
            }
        },
        _ => {
            assert(current + 1 >= count);
            assert(error_message(errs((count - 1) as nat, attempt)) == error_message(e));
        },
    }
}

/// When every attempt of every candidate fails with an error that lets the
/// search go on (a rate limit, an API error or a transport failure), the
/// search calls the candidates in order, from the first to the last, each at
/// least once, and ends with `AllProvidersFailed` carrying the message of an
/// error of the last candidate.
pub proof fn lemma_all_providers_fail(count: nat, errs: spec_fn(nat, nat) -> SearchError)
    requires
        count >= 1,
        forall|i: nat, a: nat| is_continuable(#[trigger] errs(i, a)),
    ensures
        ({
            let (tried, end) = failing_run(count, 0, 0, errs);
            &&& tried.len() > 0
            &&& tried[0] == 0
            &&& tried.last() == count - 1
            &&& forall|j: int| 0 <= j < tried.len() - 1
                ==> #[trigger] tried[j + 1] == tried[j] || tried[j + 1] == tried[j] + 1
            &&& exists|a: nat| a < MAX_RETRIES && end == FailStep::AllFailed(error_message(#[trigger] errs((count - 1) as nat, a)))
        }),
{
    lemma_all_fail_from(count, 0, 0, errs);
}

/// What a search asks of its driver after an attempt.
#[derive(Debug)]
pub enum SearchStep {
    /// Wait this many milliseconds, then call the same provider again.
    Retry { delay_ms: u128 },
    /// Call the next provider, now the current one.
    Next,
    /// The search is over: the results and the name of the provider that gave
    /// them, or the error of the whole search.
    Done(Result<(Vec<SearchResult>, String), SearchError>),
}

/// The decisions of one search: which provider to try, in what order, how
/// often, and what the outcome is. The driver calls the current provider and
/// reports each outcome to `on_outcome`, which says what to do next.
pub struct FallbackSearch {
    candidates: Vec<usize>,
    names: Vec<String>,
    current: usize,
    attempt: u32,
}

impl FallbackSearch {
    /// The providers to try, as registry indices, in order.
    pub closed spec fn spec_candidates(&self) -> Seq<usize> {
        self.candidates@
    }

    /// Their names, in the same order.
    pub closed spec fn spec_names(&self) -> Seq<Seq<char>> {
        self.names@.map_values(|s: String| s@)
    }

    /// The position of the provider being tried.
    pub closed spec fn spec_current(&self) -> nat {
        self.current as nat
    }

    /// The number of failed attempts at the current provider.
    pub closed spec fn spec_attempt(&self) -> nat {
        self.attempt as nat
    }

    /// A position in range, a name per candidate, attempts within the bound.
    pub closed spec fn wf(&self) -> bool {
        &&& self.current < self.candidates@.len()
        &&& self.names@.len() == self.candidates@.len()
        &&& self.attempt < MAX_RETRIES
    }

    /// The registry index of the provider to call now.
    pub fn provider(&self) -> (r: usize)
        requires
            self.wf(),
        ensures
            r == self.spec_candidates()[self.spec_current() as int],
    {
        self.candidates[self.current]
    }

    /// The name of the provider to call now.
    pub fn provider_name(&self) -> (r: &str)
        requires
            self.wf(),
        ensures
            r@ == self.spec_names()[self.spec_current() as int],
    {
        self.names[self.current].as_str()
    }

    /// Takes the outcome of calling the current provider and decides: a success
    /// ends the search; a transport failure or rate limit is retried after a
    /// backoff while attempts remain; a rate limit, API error or transport
    /// failure then moves on to the next provider, or, at the last one, ends the
    /// search with `AllProvidersFailed` and that error's message; any other
    /// error ends the search with that error.
    pub fn on_outcome(&mut self, outcome: Result<Vec<SearchResult>, SearchError>) -> (r: SearchStep)
        requires
            old(self).wf(),
        ensures
            final(self).wf(),
            final(self).spec_candidates() == old(self).spec_candidates(),
            final(self).spec_names() == old(self).spec_names(),
            match outcome {
                Ok(results) => {
                    &&& r matches SearchStep::Done(Ok((v, p)))
                    &&& v@ == results@
                    &&& p@ == old(self).spec_names()[old(self).spec_current() as int]
                    &&& final(self).spec_current() == old(self).spec_current()
                    &&& final(self).spec_attempt() == old(self).spec_attempt()
                },
                Err(e) => match after_error(
                    old(self).spec_candidates().len(),
                    old(self).spec_current(),
                    old(self).spec_attempt(),
                    e,
                ) {
                    FailStep::Retry { delay_ms } => {
                        &&& r matches SearchStep::Retry { delay_ms: d } && d == delay_ms
                        &&& final(self).spec_current() == old(self).spec_current()
                        &&& final(self).spec_attempt() == old(self).spec_attempt() + 1
                    },
                    FailStep::Next => {
                        &&& r is Next
                        &&& final(self).spec_current() == old(self).spec_current() + 1
                        &&& final(self).spec_attempt() == 0
                    },
                    FailStep::AllFailed(m) => {
                        &&& r matches SearchStep::Done(Err(SearchError::AllProvidersFailed(m2)))
                        &&& m2@ == m
                        &&& final(self).spec_current() == old(self).spec_current()
                    },
                    FailStep::Abort => {
                        &&& r == SearchStep::Done(Err(e))
                        &&& final(self).spec_current() == old(self).spec_current()
                    },
                },
            },
    {
        match outcome {
            Ok(results) => SearchStep::Done(Ok((results, self.names[self.current].clone()))),
            Err(e) => {
                if is_retryable_error(&e) && self.attempt + 1 < MAX_RETRIES {
                    let delay_ms = retry_delay_ms(&e, self.attempt);
                    self.attempt = self.attempt + 1;
                    SearchStep::Retry { delay_ms }
                } else if is_continuable_error(&e) {
                    if self.current < self.candidates.len() - 1 {
                        self.current = self.current + 1;
                        self.attempt = 0;
                        SearchStep::Next
                    } else {
                        SearchStep::Done(Err(SearchError::AllProvidersFailed(e.to_string())))
                    }
                } else {
                    SearchStep::Done(Err(e))
                }
            },
        }
    }
}

impl ProviderRegistry {
    /// Starts a search: the candidates are the search order with `preferred`,
    /// if it is among them, moved to the front. With no candidate the search
    /// fails at once with `NoProvidersConfigured`.
    pub fn begin_search(&self, preferred: Option<&str>) -> (r: Result<FallbackSearch, SearchError>)
        ensures
            ({
                let order = promoted(
                    self.spec_providers(),
                    search_order(self.spec_providers(), self.spec_fallback()),
                    opt_view(preferred),
                );
                match r {
                    Ok(s) => {
                        &&& order.len() > 0
                        &&& s.wf()
                        &&& s.spec_candidates() == order
                        &&& s.spec_current() == 0
                        &&& s.spec_attempt() == 0
                        &&& forall|j: int| 0 <= j < order.len()
                            ==> #[trigger] s.spec_names()[j] == self.spec_providers()[order[j] as int].name@
                    },
                    Err(e) => order.len() == 0 && e is NoProvidersConfigured,
                }
            }),
    {
        let order = self.providers_in_order();
        let candidates = self.promote(order, preferred);
        proof { lemma_promoted_bounds(self.spec_providers(), order@, opt_view(preferred)); }
        if candidates.len() == 0 {
            return Err(SearchError::NoProvidersConfigured);
        }
        let registered = self.list_providers();
        let ghost ps = registered@;
        let mut names: Vec<String> = Vec::new();
        let mut j: usize = 0;
        while j < candidates.len()
            invariant
                ps == self.spec_providers(),
                ps == registered@,
                j <= candidates@.len(),
                names@.len() == j,
                forall|l: int| 0 <= l < candidates@.len() ==> (#[trigger] candidates@[l]) < ps.len(),
                forall|l: int| 0 <= l < j ==> (#[trigger] names@[l])@ == ps[candidates@[l] as int].name@,
            decreases candidates@.len() - j,
        {
            names.push(registered[candidates[j]].name.clone());
            j = j + 1;
        }
        Ok(FallbackSearch { candidates, names, current: 0, attempt: 0 })
    }
}

} // verus!
