//! Bing Web Search answers.

use vstd::prelude::*;
use crate::text::{before_first, text_before};

verus! {

/// The host of a Bing display URL such as `"example.com/path"`: the text
/// before the first `/`.
pub fn extract_domain(display_url: &str) -> (r: String)
    ensures
        r@ == before_first(display_url@, "/"@),
{
    proof { reveal_strlit("/"); }
    text_before(display_url, "/")
}

} // verus!
