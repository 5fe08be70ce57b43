//! Output formatters and the snippet clean-up they share.

use vstd::prelude::*;
use crate::results::SearchResult;
use crate::text::{chars_of, decimal, decimal_of, fit_count, fit_prefix, lemma_fit_all, owned, push_char, utf8_bytes};

verus! {

/// JSON formatter for programmatic consumption.
pub struct JsonFormatter {
    pub pretty: bool,
}

impl JsonFormatter {
    /// A JSON formatter with pretty printing.
    pub fn new() -> (r: Self)
        ensures
            r.pretty,
    {
        JsonFormatter { pretty: true }
    }

    /// A compact JSON formatter.
    pub fn compact() -> (r: Self)
        ensures
            !r.pretty,
    {
        JsonFormatter { pretty: false }
    }
}

/// Markdown formatter for human-readable output.
pub struct MarkdownFormatter;

impl MarkdownFormatter {
    pub fn new() -> (r: Self) {
        MarkdownFormatter
    }
}

/// Plain text formatter for terminal output.
pub struct TextFormatter;

impl TextFormatter {
    pub fn new() -> (r: Self) {
        TextFormatter
    }
}

/// The characters with the Unicode `White_Space` property, which
/// `char::is_whitespace` recognises.
pub open spec fn is_white(c: char) -> bool {
    ('\u{9}' <= c && c <= '\u{d}') || c == ' ' || c == '\u{85}' || c == '\u{a0}' || c == '\u{1680}'
        || ('\u{2000}' <= c && c <= '\u{200a}') || c == '\u{2028}' || c == '\u{2029}' || c == '\u{202f}'
        || c == '\u{205f}' || c == '\u{3000}'
}

/// Whether a character is white space.
pub fn is_white_char(c: char) -> (r: bool)
    ensures
        r == is_white(c),
{
    ('\u{9}' <= c && c <= '\u{d}') || c == ' ' || c == '\u{85}' || c == '\u{a0}' || c == '\u{1680}'
        || ('\u{2000}' <= c && c <= '\u{200a}') || c == '\u{2028}' || c == '\u{2029}' || c == '\u{202f}'
        || c == '\u{205f}' || c == '\u{3000}'
}

/// The words of `s` joined by single spaces, continuing an output that
/// already holds a word (`started`) and has just passed white space (`gap`).
pub open spec fn squeezed_from(s: Seq<char>, started: bool, gap: bool) -> Seq<char>
    decreases s.len(),
{
    if s.len() == 0 {
        Seq::empty()
    } else if is_white(s[0]) {
        squeezed_from(s.drop_first(), started, true)
    } else {
        (if started && gap { seq![' '] } else { Seq::empty() }) + seq![s[0]]
            + squeezed_from(s.drop_first(), true, false)
    }
}

/// The words of `s` joined by single spaces.
pub open spec fn squeezed(s: Seq<char>) -> Seq<char> {
    squeezed_from(s, false, false)
}

/// The position of the last space in `s`.
pub open spec fn last_space(s: Seq<char>) -> Option<int>
    decreases s.len(),
{
    if s.len() == 0 {
        None
    } else if s.last() == ' ' {
        Some(s.len() - 1)
    } else {
        last_space(s.drop_last())
    }
}

/// A snippet cut to at most `max_len` bytes of UTF-8: its words joined by
/// single spaces, and when that is longer, its first `max_len` bytes (fewer
/// where that would end inside a character: the cut goes back to the start
/// of that character) cut back to the last space in them, followed by `...`.
pub open spec fn truncated(text: Seq<char>, max_len: nat) -> Seq<char> {
    let cleaned = squeezed(text);
    if utf8_bytes(cleaned) <= max_len {
        cleaned
    } else {
        let head = cleaned.subrange(0, fit_count(cleaned, max_len) as int);
        match last_space(head) {
            Some(i) => head.subrange(0, i) + "..."@,
            None => head + "..."@,
        }
    }
}

/// Cleans up white space in a snippet and cuts it to at most `max_len`
/// bytes, adding `...` where it was cut; a cut that would fall inside a
/// character falls before it.
pub fn truncate_snippet(text: &str, max_len: usize) -> (r: String)
    ensures
        r@ == truncated(text@, max_len as nat),
{
    let cs = chars_of(text);
    let n = cs.len();
    let mut cleaned: Vec<char> = Vec::new();
    let mut started = false;
    let mut gap = false;
    let mut i: usize = 0;
    assert(cs@.subrange(0, n as int) =~= cs@);
    while i < n
        invariant
            n == cs@.len(),
            cs@ == text@,
            i <= n,
            started == (cleaned@.len() > 0),
            cleaned@ + squeezed_from(cs@.subrange(i as int, n as int), started, gap) == squeezed(text@),
        decreases n - i,
    {
        let ghost rest = cs@.subrange(i as int, n as int);
        assert(rest.drop_first() =~= cs@.subrange(i + 1, n as int));
        assert(rest[0] == cs@[i as int]);
        let c = cs[i];
        if is_white_char(c) {
            gap = true;
        } else {
            let ghost before = cleaned@;
            if started && gap {
                cleaned.push(' ');
            }
            cleaned.push(c);
            assert(cleaned@ =~= before + (if started && gap { seq![' '] } else { Seq::empty() }) + seq![c]);
            started = true;
            gap = false;
        }
        i = i + 1;
    }
    assert(cleaned@ =~= squeezed(text@));
    let (fit, _) = fit_prefix(&cleaned, max_len);
    proof { lemma_fit_all(cleaned@, max_len as nat); }
    let mut r = String::new();
    if fit == cleaned.len() {
        let mut k: usize = 0;
        while k < cleaned.len()
            invariant
                k <= cleaned@.len(),
                r@ == cleaned@.subrange(0, k as int),
            decreases cleaned@.len() - k,
        {
            push_char(&mut r, cleaned[k]);
            assert(r@ =~= cleaned@.subrange(0, k + 1));
            k = k + 1;
        }
        assert(cleaned@.subrange(0, k as int) =~= cleaned@);
        return r;
    }
    let ghost head = cleaned@.subrange(0, fit as int);
    let mut cut: usize = fit;
    let mut j: usize = fit;
    assert(head.subrange(0, fit as int) =~= head);
    while j > 0
        invariant_except_break
            last_space(head) == last_space(head.subrange(0, j as int)),
            cut == fit,
        invariant
            j <= fit < cleaned@.len(),
            head == cleaned@.subrange(0, fit as int),
        ensures
            (cut < fit && last_space(head) == Some(cut as int)) || (cut == fit && last_space(head) is None),
        decreases j,
    {
        let ghost pre = head.subrange(0, j as int);
        assert(pre.drop_last() =~= head.subrange(0, j - 1));
        assert(pre.last() == cleaned@[j - 1]);
        if cleaned[j - 1] == ' ' {
            cut = j - 1;
            break;
        }
        j = j - 1;
    }
    let mut k: usize = 0;
    while k < cut
        invariant
            k <= cut <= fit < cleaned@.len(),
            r@ == cleaned@.subrange(0, k as int),
        decreases cut - k,
    {
        push_char(&mut r, cleaned[k]);
        assert(r@ =~= cleaned@.subrange(0, k + 1));
        k = k + 1;
    }
    r.append("...");
    proof {
        if cut < fit {
            assert(cleaned@.subrange(0, cut as int) =~= head.subrange(0, cut as int));
        }
    }
    r
}

/// `n` copies of `c`.
pub open spec fn repeated(c: char, n: nat) -> Seq<char> {
    Seq::new(n, |i: int| c)
}

/// Appends `n` copies of `c`.
fn push_repeated(s: &mut String, c: char, n: usize)
    ensures
        final(s)@ == old(s)@ + repeated(c, n as nat),
{
    let ghost start = s@;
    let mut i: usize = 0;
    while i < n
        invariant
            i <= n,
            s@ == start + repeated(c, i as nat),
        decreases n - i,
    {
        push_char(s, c);
        assert(s@ =~= start + repeated(c, (i + 1) as nat));
        i = i + 1;
    }
}

/// The plain-text header of a report.
pub open spec fn text_header(query: Seq<char>, provider: Seq<char>, total: nat, time_ms: nat) -> Seq<char> {
    "Search: \""@ + query + "\" ("@ + decimal_of(total) + " results from "@ + provider + " in "@
        + decimal_of(time_ms) + "ms)\n"@ + repeated('=', 60) + "\n\n"@
}

/// One result in a plain-text report: position and title, the URL indented,
/// the snippet cut to two hundred characters if there is one, a blank line.
pub open spec fn text_item(r: SearchResult) -> Seq<char> {
    decimal_of(r.position as nat) + ". "@ + r.title@ + "\n"@ + "   "@ + r.url@ + "\n"@
        + (if r.snippet@.len() > 0 { "   "@ + truncated(r.snippet@, 200) + "\n"@ } else { Seq::empty() })
        + "\n"@
}

/// The results of a plain-text report, in order.
pub open spec fn text_items(rs: Seq<SearchResult>) -> Seq<char>
    decreases rs.len(),
{
    if rs.len() == 0 { Seq::empty() } else { text_items(rs.drop_last()) + text_item(rs.last()) }
}

/// A plain-text report of a search.
pub open spec fn text_report(query: Seq<char>, provider: Seq<char>, total: nat, time_ms: nat, rs: Seq<SearchResult>) -> Seq<char> {
    text_header(query, provider, total, time_ms)
        + (if rs.len() == 0 { "No results found.\n"@ } else { text_items(rs) })
}

fn text_item_string(r: &SearchResult) -> (out: String)
    ensures
        out@ == text_item(*r),
{
    let mut s = decimal(r.position as u64);
    s.append(". ");
    s.append(r.title.as_str());
    s.append("\n");
    s.append("   ");
    s.append(r.url.as_str());
    s.append("\n");
    if r.snippet.as_str().unicode_len() > 0 {
        s.append("   ");
        let t = truncate_snippet(r.snippet.as_str(), 200);
        s.append(t.as_str());
        s.append("\n");
    }
    s.append("\n");
    s
}

/// Formats a search as plain text for a terminal.
pub fn format_text(query: &str, provider: &str, total: usize, time_ms: u64, results: &Vec<SearchResult>) -> (r: String)
    ensures
        r@ == text_report(query@, provider@, total as nat, time_ms as nat, results@),
{
    let mut s = owned("Search: \"");
    s.append(query);
    s.append("\" (");
    s.append(decimal(total as u64).as_str());
    s.append(" results from ");
    s.append(provider);
    s.append(" in ");
    s.append(decimal(time_ms).as_str());
    s.append("ms)\n");
    push_repeated(&mut s, '=', 60);
    s.append("\n\n");
    let ghost header = s@;
    if results.len() == 0 {
        s.append("No results found.\n");
        return s;
    }
    let mut i: usize = 0;
    while i < results.len()
        invariant
            i <= results@.len(),
            s@ == header + text_items(results@.subrange(0, i as int)),
        decreases results@.len() - i,
    {
        let item = text_item_string(&results[i]);
        s.append(item.as_str());
        assert(results@.subrange(0, i + 1).drop_last() =~= results@.subrange(0, i as int));
        i = i + 1;
    }
    assert(results@.subrange(0, i as int) =~= results@);
    s
}

/// The Markdown header of a report.
pub open spec fn markdown_header(query: Seq<char>, provider: Seq<char>, total: nat, time_ms: nat) -> Seq<char> {
    "# Search Results: "@ + query + "\n\n"@ + "*Provider: "@ + provider + " | Results: "@ + decimal_of(total)
        + " | Time: "@ + decimal_of(time_ms) + "ms*\n\n"@ + "---\n\n"@
}

/// One result in a Markdown report: a heading with position and title, the
/// URL, the source and publication date if known, the snippet if any, a rule.
pub open spec fn markdown_item(r: SearchResult) -> Seq<char> {
    "## "@ + decimal_of(r.position as nat) + ". "@ + r.title@ + "\n\n"@ + "**URL:** "@ + r.url@ + "\n\n"@
        + (match r.source { Some(src) => "**Source:** "@ + src@ + "\n\n"@, None => Seq::empty() })
        + (match r.published_date { Some(d) => "**Published:** "@ + d@ + "\n\n"@, None => Seq::empty() })
        + (if r.snippet@.len() > 0 { r.snippet@ + "\n\n"@ } else { Seq::empty() })
        + "---\n\n"@
}

/// The results of a Markdown report, in order.
pub open spec fn markdown_items(rs: Seq<SearchResult>) -> Seq<char>
    decreases rs.len(),
{
    if rs.len() == 0 { Seq::empty() } else { markdown_items(rs.drop_last()) + markdown_item(rs.last()) }
}

/// A Markdown report of a search.
pub open spec fn markdown_report(query: Seq<char>, provider: Seq<char>, total: nat, time_ms: nat, rs: Seq<SearchResult>) -> Seq<char> {
    markdown_header(query, provider, total, time_ms)
        + (if rs.len() == 0 { "*No results found.*\n"@ } else { markdown_items(rs) })
}

fn markdown_item_string(r: &SearchResult) -> (out: String)
    ensures
        out@ == markdown_item(*r),
{
    let mut s = owned("## ");
    s.append(decimal(r.position as u64).as_str());
    s.append(". ");
    s.append(r.title.as_str());
    s.append("\n\n");
    s.append("**URL:** ");
    s.append(r.url.as_str());
    s.append("\n\n");
    let ghost a = s@;
    match &r.source {
        Some(src) => {
            s.append("**Source:** ");
            s.append(src.as_str());
            s.append("\n\n");
        },
        None => {},
    }
    let ghost b = s@;
    match &r.published_date {
        Some(d) => {
            s.append("**Published:** ");
            s.append(d.as_str());
            s.append("\n\n");
        },
        None => {},
    }
    let ghost c = s@;
    if r.snippet.as_str().unicode_len() > 0 {
        s.append(r.snippet.as_str());
        s.append("\n\n");
    }
    let ghost d = s@;
    s.append("---\n\n");
    assert(b =~= a + (match r.source { Some(src) => "**Source:** "@ + src@ + "\n\n"@, None => Seq::<char>::empty() }));
    assert(c =~= b + (match r.published_date { Some(x) => "**Published:** "@ + x@ + "\n\n"@, None => Seq::<char>::empty() }));
    assert(d =~= c + (if r.snippet@.len() > 0 { r.snippet@ + "\n\n"@ } else { Seq::<char>::empty() }));
    s
}

/// Formats a search as Markdown.
pub fn format_markdown(query: &str, provider: &str, total: usize, time_ms: u64, results: &Vec<SearchResult>) -> (r: String)
    ensures
        r@ == markdown_report(query@, provider@, total as nat, time_ms as nat, results@),
{
    let mut s = owned("# Search Results: ");
    s.append(query);
    s.append("\n\n");
    s.append("*Provider: ");
    s.append(provider);
    s.append(" | Results: ");
    s.append(decimal(total as u64).as_str());
    s.append(" | Time: ");
    s.append(decimal(time_ms).as_str());
    s.append("ms*\n\n");
    s.append("---\n\n");
    let ghost header = s@;
    if results.len() == 0 {
        s.append("*No results found.*\n");
        return s;
    }
    let mut i: usize = 0;
    while i < results.len()
        invariant
            i <= results@.len(),
            s@ == header + markdown_items(results@.subrange(0, i as int)),
        decreases results@.len() - i,
    {
        let item = markdown_item_string(&results[i]);
        s.append(item.as_str());
        assert(results@.subrange(0, i + 1).drop_last() =~= results@.subrange(0, i as int));
        i = i + 1;
    }
    assert(results@.subrange(0, i as int) =~= results@);
    s
}

/// Relies on chrono's `From<SystemTime>` for `DateTime<Utc>` applied to
/// std's `SystemTime::now`, written out by `DateTime::to_rfc3339`: the
/// current time as RFC 3339 text (a clock before 1970 gives a date before
/// 1970). Nothing is known of the value.
#[verifier::external_body]
fn utc_now_text() -> (r: String) {
    chrono::DateTime::<chrono::Utc>::from(std::time::SystemTime::now()).to_rfc3339()
}

/// Metadata about a search.
#[derive(Debug)]
pub struct SearchMetadata {
    /// The query
    pub query: String,
    /// The provider that answered
    pub provider: String,
    /// When the search was made, as RFC 3339 text
    pub timestamp: String,
    /// Number of results returned
    pub total_results: usize,
    /// Search time in milliseconds
    pub search_time_ms: u64,
}

/// A search's results with their metadata.
#[derive(Debug)]
pub struct SearchResponse {
    pub metadata: SearchMetadata,
    pub results: Vec<SearchResult>,
}

impl SearchResponse {
    /// A response made at the given time.
    pub fn at(query: String, provider: String, results: Vec<SearchResult>, search_time_ms: u64, timestamp: String) -> (r: Self)
        ensures
            r.metadata.query == query,
            r.metadata.provider == provider,
            r.metadata.timestamp == timestamp,
            r.metadata.total_results == results@.len(),
            r.metadata.search_time_ms == search_time_ms,
            r.results == results,
    {
        let total_results = results.len();
        SearchResponse {
            metadata: SearchMetadata { query, provider, timestamp, total_results, search_time_ms },
            results,
        }
    }

    /// A response made now.
    pub fn new(query: String, provider: String, results: Vec<SearchResult>, search_time_ms: u64) -> (r: Self)
        ensures
            r.metadata.query == query,
            r.metadata.provider == provider,
            r.metadata.total_results == results@.len(),
            r.metadata.search_time_ms == search_time_ms,
            r.results == results,
    {
        let timestamp = utc_now_text();
        Self::at(query, provider, results, search_time_ms, timestamp)
    }
}

impl TextFormatter {
    /// The response as plain text for a terminal.
    pub fn format(&self, response: &SearchResponse) -> (r: String)
        ensures
            r@ == text_report(
                response.metadata.query@,
                response.metadata.provider@,
                response.metadata.total_results as nat,
                response.metadata.search_time_ms as nat,
                response.results@,
            ),
    {
        let m = &response.metadata;
        format_text(m.query.as_str(), m.provider.as_str(), m.total_results, m.search_time_ms, &response.results)
    }
}

impl MarkdownFormatter {
    /// The response as Markdown.
    pub fn format(&self, response: &SearchResponse) -> (r: String)
        ensures
            r@ == markdown_report(
                response.metadata.query@,
                response.metadata.provider@,
                response.metadata.total_results as nat,
                response.metadata.search_time_ms as nat,
                response.results@,
            ),
    {
        let m = &response.metadata;
        format_markdown(m.query.as_str(), m.provider.as_str(), m.total_results, m.search_time_ms, &response.results)
    }
}

} // verus!
