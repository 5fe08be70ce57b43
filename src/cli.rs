//! The command-line interface's values: what a user can ask for, as plain data.
//! Reading them from the process arguments happens outside the library.

use vstd::prelude::*;

verus! {

/// Fetch output format options.
#[derive(Clone, Copy, Debug, PartialEq, Eq, Structural)]
pub enum FetchFormat {
    /// Plain text (HTML tags stripped)
    Text,
    /// Raw HTML content
    Html,
    /// Markdown format
    Markdown,
}

impl Default for FetchFormat {
    fn default() -> (r: Self)
        ensures
            r == FetchFormat::Text,
    {
        FetchFormat::Text
    }
}

/// Available search providers.
#[derive(Clone, Copy, Debug, PartialEq, Eq, Structural)]
pub enum Provider {
    Brave,
    Google,
    DuckDuckGo,
    Tavily,
    Serper,
    Firecrawl,
    SerpApi,
    Bing,
}

/// The name under which each provider is known.
pub open spec fn provider_name(p: Provider) -> Seq<char> {
    match p {
        Provider::Brave => "brave"@,
        Provider::Google => "google"@,
        Provider::DuckDuckGo => "duckduckgo"@,
        Provider::Tavily => "tavily"@,
        Provider::Serper => "serper"@,
        Provider::Firecrawl => "firecrawl"@,
        Provider::SerpApi => "serpapi"@,
        Provider::Bing => "bing"@,
    }
}

impl Provider {
    /// The provider's name, as it is displayed and configured.
    pub fn name(&self) -> (r: &'static str)
        ensures
            r@ == provider_name(*self),
    {
        match self {
            Provider::Brave => "brave",
            Provider::Google => "google",
            Provider::DuckDuckGo => "duckduckgo",
            Provider::Tavily => "tavily",
            Provider::Serper => "serper",
            Provider::Firecrawl => "firecrawl",
            Provider::SerpApi => "serpapi",
            Provider::Bing => "bing",
        }
    }

    /// The provider's name as an owned string.
    pub fn to_string(&self) -> (r: String)
        ensures
            r@ == provider_name(*self),
    {
        crate::text::owned(self.name())
    }
}

/// Output format options.
#[derive(Clone, Copy, Debug, PartialEq, Eq, Structural)]
pub enum OutputFormat {
    /// JSON output for programmatic consumption
    Json,
    /// Markdown formatted output
    Markdown,
    /// Plain text output
    Text,
}

impl Default for OutputFormat {
    fn default() -> (r: Self)
        ensures
            r == OutputFormat::Text,
    {
        OutputFormat::Text
    }
}

/// Date range filter options.
#[derive(Clone, Copy, Debug, PartialEq, Eq, Structural)]
pub enum DateRange {
    /// Past 24 hours
    Day,
    /// Past week
    Week,
    /// Past month
    Month,
    /// Past year
    Year,
}

/// Safe search levels.
#[derive(Clone, Copy, Debug, PartialEq, Eq, Structural)]
pub enum SafeSearch {
    /// No filtering
    Off,
    /// Moderate filtering
    Moderate,
    /// Strict filtering
    Strict,
}

impl Default for SafeSearch {
    fn default() -> (r: Self)
        ensures
            r == SafeSearch::Moderate,
    {
        SafeSearch::Moderate
    }
}

/// Configuration subcommands.
#[derive(Debug)]
pub enum ConfigCommands {
    /// Interactive configuration setup
    Init,
    /// Set a configuration value
    SetValue { key: String, value: String },
    /// Get a configuration value
    Get { key: String },
    /// List all configuration
    List,
    /// Validate API keys
    Validate,
    /// Show configuration file path
    Path,
}

/// Configuration subcommand arguments.
#[derive(Debug)]
pub struct ConfigArgs {
    pub command: ConfigCommands,
}

/// Cache subcommands.
#[derive(Debug)]
pub enum CacheCommands {
    /// Clear the cache
    Clear,
    /// Show cache statistics
    Stats,
}

/// Cache subcommand arguments.
#[derive(Debug)]
pub struct CacheArgs {
    pub command: CacheCommands,
}

/// Fetch subcommand arguments.
#[derive(Debug)]
pub struct FetchArgs {
    /// URL to fetch
    pub url: String,
    /// Output format for the fetched content
    pub format: FetchFormat,
    /// Request timeout in seconds
    pub timeout: u64,
    /// Write output to this file
    pub output: Option<String>,
    /// Maximum content length in bytes (0 = no limit)
    pub max_length: usize,
    /// Output as JSON (includes metadata)
    pub json: bool,
    /// Print content to stdout instead of saving to file
    pub stdout: bool,
    /// Suppress non-essential output
    pub quiet: bool,
}

/// Available subcommands.
#[derive(Debug)]
pub enum Commands {
    /// Manage configuration
    Config(ConfigArgs),
    /// List available providers and their status
    Providers,
    /// Manage result cache
    Cache(CacheArgs),
    /// Fetch a web page by URL
    Fetch(FetchArgs),
}

/// Everything a command line asks for.
#[derive(Debug)]
pub struct Cli {
    /// The search query
    pub query: Option<String>,
    /// Search provider to use
    pub provider: Option<Provider>,
    /// Output format
    pub format: OutputFormat,
    /// Number of results to return
    pub num_results: usize,
    /// Write output to file
    pub output: Option<String>,
    /// Filter results by date range
    pub date_range: Option<DateRange>,
    /// Only include results from these domains
    pub include_domains: Option<Vec<String>>,
    /// Exclude results from these domains
    pub exclude_domains: Option<Vec<String>>,
    /// Safe search level
    pub safe_search: SafeSearch,
    /// Bypass result cache
    pub no_cache: bool,
    /// Request timeout in seconds
    pub timeout: u64,
    /// Verbosity level
    pub verbose: u8,
    /// Suppress non-essential output
    pub quiet: bool,
    /// Subcommand to run
    pub command: Option<Commands>,
}

} // verus!
