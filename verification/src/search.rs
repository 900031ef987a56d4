use vstd::prelude::*;

verus! {

/// The page that a request without a page number asks for.
pub const FIRST_PAGE: u32 = 1;

/// One hit of a search.
#[derive(Debug, Clone, PartialEq, Eq)]
pub struct SearchResult {
    pub url: String,
    pub title: String,
    pub snippet: String,
}

/// One page of hits, and where that page stands among all of them.
#[derive(Debug, Clone, PartialEq, Eq)]
pub struct SearchResults {
    pub results: Vec<SearchResult>,
    pub total: u32,
    pub exact: bool,
    pub is_last: bool,
    pub pagenum: u32,
    pub maxpage: u32,
    pub query: String,
    pub valid: bool,
}

/// The page that is shown when `requested` was asked for and `maxpage` is the
/// last one.
pub open spec fn shown_page(maxpage: u32, requested: u32) -> u32 {
    if requested <= maxpage {
        requested
    } else {
        maxpage
    }
}

/// The page that a request asks for: the one it names, else the first.
pub fn requested_page(p: Option<u32>) -> (page: u32)
    ensures
        page == match p {
            Some(n) => n,
            None => FIRST_PAGE,
        },
{
    match p {
        Some(n) => n,
        None => FIRST_PAGE,
    }
}

impl SearchResults {
    /// The answer to a query that the search engine could not read: no hit,
    /// no page.
    pub fn invalid(query: String) -> (page: SearchResults)
        ensures
            page.results@.len() == 0,
            page.total == 0,
            page.exact,
            page.is_last,
            page.pagenum == 0,
            page.maxpage == 0,
            page.query == query,
            !page.valid,
    {
        SearchResults {
            results: Vec::new(),
            total: 0,
            exact: true,
            is_last: true,
            pagenum: 0,
            maxpage: 0,
            query,
            valid: false,
        }
    }

    /// The answer to a query that was read: the hits of one page. A request
    /// for a page past the last one is shown the last one.
    pub fn found(
        results: Vec<SearchResult>,
        total: u32,
        exact: bool,
        is_last: bool,
        maxpage: u32,
        requested: u32,
        query: String,
    ) -> (page: SearchResults)
        ensures
            page.results == results,
            page.total == total,
            page.exact == exact,
            page.is_last == is_last,
            page.pagenum == shown_page(maxpage, requested),
            page.maxpage == maxpage,
            page.query == query,
            page.valid,
    {
        let pagenum = if requested <= maxpage {
            requested
        } else {
            maxpage
        };
        SearchResults { results, total, exact, is_last, pagenum, maxpage, query, valid: true }
    }
}

} // verus!
