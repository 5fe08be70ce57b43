//! Options and results of fetching a web page, and the HTML clean-up that
//! does not need the network.

use vstd::prelude::*;
use crate::providers::{duration_from_secs, secs_duration};
use crate::text::{owned, replace_all, replaced};
pub use crate::html::{extract_title, html_to_markdown, html_to_text};

verus! {

/// The version written into the user agent.
pub const VERSION: &'static str = "0.1.0";

/// Request timeout of fresh fetch options, in seconds.
pub const DEFAULT_FETCH_TIMEOUT_SECS: u64 = 30;

/// The form in which fetched content is returned.
#[derive(Clone, Copy, Debug, PartialEq, Eq, Structural)]
pub enum ContentFormat {
    /// Raw HTML content
    Html,
    /// Plain text (HTML tags stripped)
    Text,
    /// Markdown format
    Markdown,
}

impl Default for ContentFormat {
    fn default() -> (r: Self)
        ensures
            r == ContentFormat::Text,
    {
        ContentFormat::Text
    }
}

/// Options for fetching URLs.
#[derive(Debug)]
pub struct FetchOptions {
    /// Request timeout
    pub timeout: core::time::Duration,
    /// Output format
    pub format: ContentFormat,
    /// Follow redirects
    pub follow_redirects: bool,
    /// Maximum content length in bytes (0 = no limit)
    pub max_length: usize,
    /// User agent string
    pub user_agent: String,
}

/// The user agent sent with every fetch.
pub open spec fn user_agent_text() -> Seq<char> {
    "cli-web-search/"@ + VERSION@ + " (https://github.com/scottgl9/cli-web-search)"@
}

impl Default for FetchOptions {
    fn default() -> (r: Self)
        ensures
            r.timeout == secs_duration(DEFAULT_FETCH_TIMEOUT_SECS),
            r.format == ContentFormat::Text,
            r.follow_redirects,
            r.max_length == 0,
            r.user_agent@ == user_agent_text(),
    {
        let mut agent = owned("cli-web-search/");
        agent.append(VERSION);
        agent.append(" (https://github.com/scottgl9/cli-web-search)");
        FetchOptions {
            timeout: duration_from_secs(DEFAULT_FETCH_TIMEOUT_SECS),
            format: ContentFormat::Text,
            follow_redirects: true,
            max_length: 0,
            user_agent: agent,
        }
    }
}

impl FetchOptions {
    /// The default options.
    pub fn new() -> (r: Self)
        ensures
            r.timeout == secs_duration(DEFAULT_FETCH_TIMEOUT_SECS),
            r.format == ContentFormat::Text,
            r.follow_redirects,
            r.max_length == 0,
            r.user_agent@ == user_agent_text(),
    {
        Self::default()
    }

    /// The same options with another timeout.
    pub fn with_timeout(self, timeout: core::time::Duration) -> (r: Self)
        ensures
            r == (FetchOptions { timeout: timeout, ..self }),
    {
        FetchOptions { timeout, ..self }
    }

    /// The same options with another content format.
    pub fn with_format(self, format: ContentFormat) -> (r: Self)
        ensures
            r == (FetchOptions { format: format, ..self }),
    {
        FetchOptions { format, ..self }
    }

    /// The same options with another length limit.
    pub fn with_max_length(self, max_length: usize) -> (r: Self)
        ensures
            r == (FetchOptions { max_length: max_length, ..self }),
    {
        FetchOptions { max_length, ..self }
    }
}

/// Response from fetching a URL.
#[derive(Debug)]
pub struct FetchResponse {
    /// The URL that was fetched
    pub url: String,
    /// Final URL after redirects
    pub final_url: String,
    /// HTTP status code
    pub status: u16,
    /// Content type header
    pub content_type: Option<String>,
    /// The page content
    pub content: String,
    /// Content length in bytes
    pub content_length: usize,
    /// Page title, if there is one
    pub title: Option<String>,
}

/// `s` with the common HTML entities decoded: each one, in a fixed order,
/// replaced everywhere by the character it stands for.
pub open spec fn entities_decoded(s: Seq<char>) -> Seq<char> {
    let s0 = replaced(s, "&amp;"@, "&"@);
    let s1 = replaced(s0, "&lt;"@, "<"@);
    let s2 = replaced(s1, "&gt;"@, ">"@);
    let s3 = replaced(s2, "&quot;"@, "\""@);
    let s4 = replaced(s3, "&#39;"@, "'"@);
    let s5 = replaced(s4, "&apos;"@, "'"@);
    let s6 = replaced(s5, "&nbsp;"@, " "@);
    let s7 = replaced(s6, "&#x27;"@, "'"@);
    let s8 = replaced(s7, "&#x2F;"@, "/"@);
    let s9 = replaced(s8, "&mdash;"@, "\u{2014}"@);
    let s10 = replaced(s9, "&ndash;"@, "\u{2013}"@);
    let s11 = replaced(s10, "&hellip;"@, "..."@);
    let s12 = replaced(s11, "&copy;"@, "\u{a9}"@);
    let s13 = replaced(s12, "&reg;"@, "\u{ae}"@);
    let s14 = replaced(s13, "&trade;"@, "\u{2122}"@);
    let s15 = replaced(s14, "&ldquo;"@, "\u{201c}"@);
    let s16 = replaced(s15, "&rdquo;"@, "\u{201d}"@);
    let s17 = replaced(s16, "&lsquo;"@, "\u{2018}"@);
    let s18 = replaced(s17, "&rsquo;"@, "\u{2019}"@);
    s18
}

/// Decodes the common HTML entities, one after another in a fixed order.
pub fn decode_html_entities(s: &str) -> (r: String)
    ensures
        r@ == entities_decoded(s@),
{
    proof {
        reveal_strlit("&amp;");
        reveal_strlit("&lt;");
        reveal_strlit("&gt;");
        reveal_strlit("&quot;");
        reveal_strlit("&#39;");
        reveal_strlit("&apos;");
        reveal_strlit("&nbsp;");
        reveal_strlit("&#x27;");
        reveal_strlit("&#x2F;");
        reveal_strlit("&mdash;");
        reveal_strlit("&ndash;");
        reveal_strlit("&hellip;");
        reveal_strlit("&copy;");
        reveal_strlit("&reg;");
        reveal_strlit("&trade;");
        reveal_strlit("&ldquo;");
        reveal_strlit("&rdquo;");
        reveal_strlit("&lsquo;");
        reveal_strlit("&rsquo;");
    }
    let mut t = replace_all(s, "&amp;", "&");
    t = replace_all(t.as_str(), "&lt;", "<");
    t = replace_all(t.as_str(), "&gt;", ">");
    t = replace_all(t.as_str(), "&quot;", "\"");
    t = replace_all(t.as_str(), "&#39;", "'");
    t = replace_all(t.as_str(), "&apos;", "'");
    t = replace_all(t.as_str(), "&nbsp;", " ");
    t = replace_all(t.as_str(), "&#x27;", "'");
    t = replace_all(t.as_str(), "&#x2F;", "/");
    t = replace_all(t.as_str(), "&mdash;", "\u{2014}");
    t = replace_all(t.as_str(), "&ndash;", "\u{2013}");
    t = replace_all(t.as_str(), "&hellip;", "...");
    t = replace_all(t.as_str(), "&copy;", "\u{a9}");
    t = replace_all(t.as_str(), "&reg;", "\u{ae}");
    t = replace_all(t.as_str(), "&trade;", "\u{2122}");
    t = replace_all(t.as_str(), "&ldquo;", "\u{201c}");
    t = replace_all(t.as_str(), "&rdquo;", "\u{201d}");
    t = replace_all(t.as_str(), "&lsquo;", "\u{2018}");
    t = replace_all(t.as_str(), "&rsquo;", "\u{2019}");
    t
}

} // verus!
