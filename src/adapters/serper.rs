//! Serper answers.

use vstd::prelude::*;
use crate::text::{before_first, text_before};

verus! {

/// The host of a Serper displayed link such as `"example.com › path"`: the
/// text before the first `" › "`, when there is a link.
pub fn extract_domain(displayed_link: &Option<String>) -> (r: Option<String>)
    ensures
        match (r, displayed_link) {
            (Some(d), Some(l)) => d@ == before_first(l@, " \u{203a} "@),
            (None, None) => true,
            _ => false,
        },
{
    proof { reveal_strlit(" \u{203a} "); }
    match displayed_link {
        Some(link) => Some(text_before(link.as_str(), " \u{203a} ")),
        None => None,
    }
}

} // verus!
