//! SerpAPI answers.

use vstd::prelude::*;
use crate::text::{before_first, replace_all, replaced, text_before};

verus! {

/// The host of a SerpAPI displayed link such as
/// `"https://example.com › path"`: the text before the first `" › "`, with
/// `"https://"` and then `"http://"` removed wherever they occur.
pub open spec fn serpapi_domain(link: Seq<char>) -> Seq<char> {
    replaced(
        replaced(before_first(link, " \u{203a} "@), "https://"@, ""@),
        "http://"@,
        ""@,
    )
}

/// The host of a SerpAPI displayed link.
pub fn extract_domain(displayed_link: &str) -> (r: String)
    ensures
        r@ == serpapi_domain(displayed_link@),
{
    proof {
        reveal_strlit(" \u{203a} ");
        reveal_strlit("https://");
        reveal_strlit("http://");
        reveal_strlit("");
    }
    let head = text_before(displayed_link, " \u{203a} ");
    let no_https = replace_all(head.as_str(), "https://", "");
    replace_all(no_https.as_str(), "http://", "")
}

} // verus!
