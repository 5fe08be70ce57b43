//! The tool server's values and the decisions that do not need the
//! transport: the answer to `initialize`, how a tool's outcome is reported,
//! and how a requested page format is read.

use vstd::prelude::*;
use crate::error::{SearchError, error_message};
use crate::fetch::{ContentFormat, FetchResponse, VERSION};
use crate::results::SearchResult;
use crate::text::{decimal, decimal_of, str_eq, lower_of, lowercase, owned};

verus! {

/// The protocol version this server speaks.
pub const PROTOCOL_VERSION: &'static str = "2024-11-05";

/// The server's name.
pub const SERVER_NAME: &'static str = "cli-web-search";

/// Tools capability.
#[derive(Debug, Clone, Copy)]
pub struct ToolsCapability {
    pub list_changed: Option<bool>,
}

/// Server capabilities.
#[derive(Debug, Clone, Copy)]
pub struct ServerCapabilities {
    pub tools: Option<ToolsCapability>,
}

/// Server info.
#[derive(Debug)]
pub struct ServerInfo {
    pub name: String,
    pub version: String,
}

/// The answer to `initialize`.
#[derive(Debug)]
pub struct InitializeResult {
    pub protocol_version: String,
    pub capabilities: ServerCapabilities,
    pub server_info: ServerInfo,
}

/// One piece of a tool's answer.
#[derive(Debug)]
pub struct ToolContent {
    pub content_type: String,
    pub text: String,
}

/// A tool's answer.
#[derive(Debug)]
pub struct CallToolResult {
    pub content: Vec<ToolContent>,
    pub is_error: Option<bool>,
}

/// Input of the web search tool.
#[derive(Debug)]
pub struct WebSearchInput {
    /// The search query string
    pub query: String,
    /// Number of results to return
    pub num_results: Option<usize>,
    /// Preferred search provider
    pub provider: Option<String>,
}

/// Input of the page fetch tool.
#[derive(Debug)]
pub struct FetchUrlInput {
    /// The URL to fetch
    pub url: String,
    /// Output format: "text", "html" or "markdown"
    pub format: Option<String>,
    /// Maximum content length in bytes (0 = no limit)
    pub max_length: Option<usize>,
}

/// The tool server.
#[derive(Debug)]
pub struct McpServer {
    /// Server name
    pub name: String,
    /// Server version
    pub version: String,
}

impl McpServer {
    /// A server with this library's name and version.
    pub fn new() -> (r: Self)
        ensures
            r.name@ == SERVER_NAME@,
            r.version@ == VERSION@,
    {
        McpServer { name: owned(SERVER_NAME), version: owned(VERSION) }
    }

    /// The answer to `initialize`: the protocol version, a tools capability,
    /// and the server's name and version.
    pub fn initialize_result(&self) -> (r: InitializeResult)
        ensures
            r.protocol_version@ == PROTOCOL_VERSION@,
            r.capabilities.tools == Some(ToolsCapability { list_changed: None }),
            r.server_info.name@ == self.name@,
            r.server_info.version@ == self.version@,
    {
        InitializeResult {
            protocol_version: owned(PROTOCOL_VERSION),
            capabilities: ServerCapabilities { tools: Some(ToolsCapability { list_changed: None }) },
            server_info: ServerInfo { name: self.name.clone(), version: self.version.clone() },
        }
    }
}

impl Default for McpServer {
    fn default() -> (r: Self)
        ensures
            r.name@ == SERVER_NAME@,
            r.version@ == VERSION@,
    {
        McpServer::new()
    }
}

/// How a tool's outcome is reported: its text, or `Error: ` and the error's
/// message flagged as an error.
pub fn tool_result(outcome: Result<String, SearchError>) -> (r: CallToolResult)
    ensures
        r.content@.len() == 1,
        r.content@[0].content_type@ == "text"@,
        match outcome {
            Ok(text) => r.content@[0].text@ == text@ && r.is_error is None,
            Err(e) => r.content@[0].text@ == "Error: "@ + error_message(e) && r.is_error == Some(true),
        },
{
    match outcome {
        Ok(text) => {
            let mut content: Vec<ToolContent> = Vec::new();
            content.push(ToolContent { content_type: owned("text"), text });
            CallToolResult { content, is_error: None }
        },
        Err(e) => {
            let mut text = owned("Error: ");
            let m = e.to_string();
            text.append(m.as_str());
            let mut content: Vec<ToolContent> = Vec::new();
            content.push(ToolContent { content_type: owned("text"), text });
            CallToolResult { content, is_error: Some(true) }
        },
    }
}

/// The page format a fetch request asks for, read case-insensitively:
/// `html`, `markdown` or `md`, and text otherwise or when none is given.
pub open spec fn requested_format(format: Option<Seq<char>>) -> ContentFormat {
    let f = match format { Some(f) => lower_of(f), None => lower_of("text"@) };
    if f == "html"@ {
        ContentFormat::Html
    } else if f == "markdown"@ || f == "md"@ {
        ContentFormat::Markdown
    } else {
        ContentFormat::Text
    }
}

/// Reads the page format of a fetch request.
pub fn content_format_of(format: Option<&str>) -> (r: ContentFormat)
    ensures
        r == requested_format(match format { Some(f) => Some(f@), None => None }),
{
    let f = match format {
        Some(f) => lowercase(f),
        None => lowercase("text"),
    };
    if str_eq(f.as_str(), "html") {
        ContentFormat::Html
    } else if str_eq(f.as_str(), "markdown") || str_eq(f.as_str(), "md") {
        ContentFormat::Markdown
    } else {
        ContentFormat::Text
    }
}

/// One result in the web search tool's answer: its number, title, URL and
/// snippet (or a note that there is none).
pub open spec fn search_item_text(i: nat, r: SearchResult) -> Seq<char> {
    decimal_of(i + 1) + ". "@ + r.title@ + "\n   URL: "@ + r.url@ + "\n   "@
        + (if r.snippet@.len() == 0 { "No description available"@ } else { r.snippet@ }) + "\n\n"@
}

/// The results of the web search tool's answer, numbered from one.
pub open spec fn search_items_text(rs: Seq<SearchResult>) -> Seq<char>
    decreases rs.len(),
{
    if rs.len() == 0 {
        Seq::empty()
    } else {
        search_items_text(rs.drop_last()) + search_item_text((rs.len() - 1) as nat, rs.last())
    }
}

/// The web search tool's answer: a header naming the query, provider, result
/// count and time, then the results.
pub open spec fn search_summary_text(query: Seq<char>, provider: Seq<char>, time_ms: nat, rs: Seq<SearchResult>) -> Seq<char> {
    "Search results for: \""@ + query + "\"\nProvider: "@ + provider + " | Results: "@ + decimal_of(rs.len())
        + " | Time: "@ + decimal_of(time_ms) + "ms\n\n"@ + search_items_text(rs)
}

/// The web search tool's answer as text.
pub fn search_summary(query: &str, provider: &str, time_ms: u64, results: &Vec<SearchResult>) -> (r: String)
    ensures
        r@ == search_summary_text(query@, provider@, time_ms as nat, results@),
{
    let mut s = owned("Search results for: \"");
    s.append(query);
    s.append("\"\nProvider: ");
    s.append(provider);
    s.append(" | Results: ");
    s.append(decimal(results.len() as u64).as_str());
    s.append(" | Time: ");
    s.append(decimal(time_ms).as_str());
    s.append("ms\n\n");
    let ghost header = s@;
    let mut i: usize = 0;
    while i < results.len()
        invariant
            i <= results@.len(),
            s@ == header + search_items_text(results@.subrange(0, i as int)),
        decreases results@.len() - i,
    {
        let r = &results[i];
        let ghost before = s@;
        s.append(decimal((i + 1) as u64).as_str());
        s.append(". ");
        s.append(r.title.as_str());
        s.append("\n   URL: ");
        s.append(r.url.as_str());
        s.append("\n   ");
        if r.snippet.as_str().unicode_len() == 0 {
            s.append("No description available");
        } else {
            s.append(r.snippet.as_str());
        }
        s.append("\n\n");
        assert(s@ =~= before + search_item_text(i as nat, results@[i as int]));
        assert(results@.subrange(0, i + 1).drop_last() =~= results@.subrange(0, i as int));
        i = i + 1;
    }
    assert(results@.subrange(0, i as int) =~= results@);
    s
}

/// The page fetch tool's answer: the title if known, the final URL, the
/// content length, a rule, then the content.
pub open spec fn fetch_summary_text(r: FetchResponse) -> Seq<char> {
    (match r.title { Some(t) => "Title: "@ + t@ + "\n"@, None => Seq::empty() }) + "URL: "@ + r.final_url@ + "\n"@
        + "Content Length: "@ + decimal_of(r.content_length as nat) + " bytes\n"@ + "---\n\n"@ + r.content@
}

/// The page fetch tool's answer as text.
pub fn fetch_summary(response: &FetchResponse) -> (r: String)
    ensures
        r@ == fetch_summary_text(*response),
{
    let mut s = String::new();
    match &response.title {
        Some(t) => {
            s.append("Title: ");
            s.append(t.as_str());
            s.append("\n");
        },
        None => {},
    }
    let ghost head = s@;
    s.append("URL: ");
    s.append(response.final_url.as_str());
    s.append("\n");
    s.append("Content Length: ");
    s.append(decimal(response.content_length as u64).as_str());
    s.append(" bytes\n");
    s.append("---\n\n");
    s.append(response.content.as_str());
    assert(head =~= (match response.title { Some(t) => "Title: "@ + t@ + "\n"@, None => Seq::<char>::empty() }));
    assert(s@ =~= fetch_summary_text(*response));
    s
}

} // verus!
