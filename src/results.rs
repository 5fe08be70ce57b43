//! One ranked search hit, as every provider reports it.

use vstd::prelude::*;

verus! {

/// A single search result.
#[derive(Debug)]
pub struct SearchResult {
    /// Title of the result
    pub title: String,
    /// URL of the result
    pub url: String,
    /// Snippet or description (may be empty)
    pub snippet: String,
    /// Position in the provider's response, 1-based
    pub position: usize,
    /// Publication date as the provider wrote it
    pub published_date: Option<String>,
    /// Source, typically a host name
    pub source: Option<String>,
}

/// Clones an optional string, keeping its contents.
pub(crate) fn clone_opt_string(o: &Option<String>) -> (r: Option<String>)
    ensures
        r == *o,
{
    match o {
        Some(s) => Some(s.clone()),
        None => None,
    }
}

impl Clone for SearchResult {
    fn clone(&self) -> (r: Self)
        ensures
            r == *self,
    {
        SearchResult {
            title: self.title.clone(),
            url: self.url.clone(),
            snippet: self.snippet.clone(),
            position: self.position,
            published_date: clone_opt_string(&self.published_date),
            source: clone_opt_string(&self.source),
        }
    }
}

/// Clones a list of results; the copy holds the same results.
pub fn clone_results(v: &Vec<SearchResult>) -> (r: Vec<SearchResult>)
    ensures
        r@ == v@,
{
    let r = v.clone();
    assert forall|i: int| 0 <= i < v@.len() implies r@[i] == v@[i] by {
        assert(cloned::<SearchResult>(v[i], r[i]));
    }
    assert(r@ =~= v@);
    r
}

} // verus!
