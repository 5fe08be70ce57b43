//! What the provider adapters compute from their answers, apart from the
//! network exchange itself.

pub mod bing;
pub mod serpapi;
pub mod serper;

use vstd::prelude::*;
use crate::cli::{DateRange, SafeSearch};
use crate::error::SearchError;
use crate::text::owned;

verus! {

/// How a provider's HTTP status maps to the error taxonomy: success is no
/// error; 429 is a rate limit with the server's retry-after hint; 401 and 403
/// are a rejected key; any other status is an API error whose message is
/// `HTTP <status>: <body>`.
pub fn status_error(provider: &str, code: u16, status_text: &str, retry_after: Option<u64>, body: &str) -> (r: Option<SearchError>)
    ensures
        200 <= code < 300 ==> r is None,
        code == 429 ==> (r matches Some(SearchError::RateLimited { provider: p, retry_after: ra })
            && p@ == provider@ && ra == retry_after),
        (code == 401 || code == 403) ==> (r matches Some(SearchError::InvalidApiKey { provider: p })
            && p@ == provider@),
        !(200 <= code < 300) && code != 429 && code != 401 && code != 403 ==> (r matches Some(
            SearchError::Api { provider: p, message: m },
        ) && p@ == provider@ && m@ == "HTTP "@ + status_text@ + ": "@ + body@),
{
    if 200 <= code && code < 300 {
        None
    } else if code == 429 {
        Some(SearchError::rate_limited(provider, retry_after))
    } else if code == 401 || code == 403 {
        Some(SearchError::invalid_api_key(provider))
    } else {
        let mut m = owned("HTTP ");
        m.append(status_text);
        m.append(": ");
        m.append(body);
        Some(SearchError::Api { provider: owned(provider), message: m })
    }
}

/// The safe-search level as Brave and Bing name it.
pub fn safe_search_word(level: SafeSearch) -> (r: &'static str)
    ensures
        r@ == (match level {
            SafeSearch::Off => "off"@,
            SafeSearch::Moderate => "moderate"@,
            SafeSearch::Strict => "strict"@,
        }),
{
    match level {
        SafeSearch::Off => "off",
        SafeSearch::Moderate => "moderate",
        SafeSearch::Strict => "strict",
    }
}

/// The date range as Brave's freshness filter names it.
pub fn brave_freshness(range: DateRange) -> (r: &'static str)
    ensures
        r@ == (match range {
            DateRange::Day => "pd"@,
            DateRange::Week => "pw"@,
            DateRange::Month => "pm"@,
            DateRange::Year => "py"@,
        }),
{
    match range {
        DateRange::Day => "pd",
        DateRange::Week => "pw",
        DateRange::Month => "pm",
        DateRange::Year => "py",
    }
}

/// The date range as Google's date restriction names it.
pub fn google_date_restrict(range: DateRange) -> (r: &'static str)
    ensures
        r@ == (match range {
            DateRange::Day => "d1"@,
            DateRange::Week => "w1"@,
            DateRange::Month => "m1"@,
            DateRange::Year => "y1"@,
        }),
{
    match range {
        DateRange::Day => "d1",
        DateRange::Week => "w1",
        DateRange::Month => "m1",
        DateRange::Year => "y1",
    }
}

/// Google's safe-search setting: off only when filtering is off.
pub fn google_safe(level: SafeSearch) -> (r: &'static str)
    ensures
        r@ == (if level == SafeSearch::Off { "off"@ } else { "active"@ }),
{
    if level == SafeSearch::Off { "off" } else { "active" }
}

} // verus!
