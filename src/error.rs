//! The closed error taxonomy that the retry and fallback decisions inspect.

use vstd::prelude::*;
use crate::text::{decimal, decimal_of, owned};

verus! {

/// Errors of the search library.
#[derive(Debug)]
pub enum SearchError {
    /// Transport-level failure, with the transport's message
    Network(String),
    /// Non-2xx answer that is neither an auth failure nor a rate limit
    Api { provider: String, message: String },
    /// Rate limit exceeded, with the server's retry-after hint in seconds
    RateLimited { provider: String, retry_after: Option<u64> },
    /// Rejected API key
    InvalidApiKey { provider: String },
    /// No API key given
    MissingApiKey { provider: String, env_var: String },
    /// Configuration problem
    Config(String),
    /// I/O failure, with its message
    Io(String),
    /// YAML parsing failure, with its message
    Yaml(String),
    /// JSON parsing failure, with its message
    Json(String),
    /// URL parsing failure, with its message
    Url(String),
    /// Provider name not known
    UnknownProvider(String),
    /// No provider is configured
    NoProvidersConfigured,
    /// Every candidate failed; the last one's message
    AllProvidersFailed(String),
    /// Request timed out after the given seconds
    Timeout(u64),
}

/// The human-readable message of an error.
pub open spec fn error_message(e: SearchError) -> Seq<char> {
    match e {
        SearchError::Network(m) => "Network error: "@ + m@,
        SearchError::Api { provider, message } => "API error from "@ + provider@ + ": "@ + message@,
        SearchError::RateLimited { provider, retry_after } => match retry_after {
            Some(s) => "Rate limited by "@ + provider@ + ", retry after "@ + decimal_of(s as nat) + " seconds"@,
            None => "Rate limited by "@ + provider@,
        },
        SearchError::InvalidApiKey { provider } => "Invalid API key for "@ + provider@,
        SearchError::MissingApiKey { provider, env_var } => "Missing API key for "@ + provider@ + ". Set "@
            + env_var@ + " or configure in ~/.config/cli-web-search/config.yaml"@,
        SearchError::Config(m) => "Configuration error: "@ + m@,
        SearchError::Io(m) => "IO error: "@ + m@,
        SearchError::Yaml(m) => "YAML parsing error: "@ + m@,
        SearchError::Json(m) => "JSON parsing error: "@ + m@,
        SearchError::Url(m) => "URL parsing error: "@ + m@,
        SearchError::UnknownProvider(p) => "Unknown provider: "@ + p@
            + ". Available providers: brave, google, duckduckgo, tavily"@,
        SearchError::NoProvidersConfigured =>
            "No search providers configured. Run `cli-web-search config init` to set up."@,
        SearchError::AllProvidersFailed(m) => "All providers failed. Last error: "@ + m@,
        SearchError::Timeout(s) => "Request timed out after "@ + decimal_of(s as nat) + " seconds"@,
    }
}

/// `prefix` followed by `rest`.
fn joined(prefix: &str, rest: &str) -> (r: String)
    ensures
        r@ == prefix@ + rest@,
{
    let mut s = owned(prefix);
    s.append(rest);
    s
}

impl SearchError {
    /// An API error for a provider.
    pub fn api(provider: &str, message: &str) -> (r: Self)
        ensures
            r matches SearchError::Api { provider: p, message: m } && p@ == provider@ && m@ == message@,
    {
        SearchError::Api { provider: owned(provider), message: owned(message) }
    }

    /// A rate-limit error for a provider, with an optional retry-after hint.
    pub fn rate_limited(provider: &str, retry_after: Option<u64>) -> (r: Self)
        ensures
            r matches SearchError::RateLimited { provider: p, retry_after: ra } && p@ == provider@
                && ra == retry_after,
    {
        SearchError::RateLimited { provider: owned(provider), retry_after }
    }

    /// An invalid-key error for a provider.
    pub fn invalid_api_key(provider: &str) -> (r: Self)
        ensures
            r matches SearchError::InvalidApiKey { provider: p } && p@ == provider@,
    {
        SearchError::InvalidApiKey { provider: owned(provider) }
    }

    /// A missing-key error for a provider, naming the variable that would hold it.
    pub fn missing_api_key(provider: &str, env_var: &str) -> (r: Self)
        ensures
            r matches SearchError::MissingApiKey { provider: p, env_var: v } && p@ == provider@
                && v@ == env_var@,
    {
        SearchError::MissingApiKey { provider: owned(provider), env_var: owned(env_var) }
    }

    /// The human-readable message of this error.
    pub fn to_string(&self) -> (r: String)
        ensures
            r@ == error_message(*self),
    {
        match self {
            SearchError::Network(m) => joined("Network error: ", m.as_str()),
            SearchError::Api { provider, message } => {
                let mut s = joined("API error from ", provider.as_str());
                s.append(": ");
                s.append(message.as_str());
                s
            },
            SearchError::RateLimited { provider, retry_after } => {
                let mut s = joined("Rate limited by ", provider.as_str());
                match retry_after {
                    Some(secs) => {
                        s.append(", retry after ");
                        let d = decimal(*secs);
                        s.append(d.as_str());
                        s.append(" seconds");
                    },
                    None => {},
                }
                s
            },
            SearchError::InvalidApiKey { provider } => joined("Invalid API key for ", provider.as_str()),
            SearchError::MissingApiKey { provider, env_var } => {
                let mut s = joined("Missing API key for ", provider.as_str());
                s.append(". Set ");
                s.append(env_var.as_str());
                s.append(" or configure in ~/.config/cli-web-search/config.yaml");
                s
            },
            SearchError::Config(m) => joined("Configuration error: ", m.as_str()),
            SearchError::Io(m) => joined("IO error: ", m.as_str()),
            SearchError::Yaml(m) => joined("YAML parsing error: ", m.as_str()),
            SearchError::Json(m) => joined("JSON parsing error: ", m.as_str()),
            SearchError::Url(m) => joined("URL parsing error: ", m.as_str()),
            SearchError::UnknownProvider(p) => {
                let mut s = joined("Unknown provider: ", p.as_str());
                s.append(". Available providers: brave, google, duckduckgo, tavily");
                s
            },
            SearchError::NoProvidersConfigured =>
                owned("No search providers configured. Run `cli-web-search config init` to set up."),
            SearchError::AllProvidersFailed(m) => joined("All providers failed. Last error: ", m.as_str()),
            SearchError::Timeout(secs) => {
                let mut s = owned("Request timed out after ");
                let d = decimal(*secs);
                s.append(d.as_str());
                s.append(" seconds");
                s
            },
        }
    }
}

} // verus!
