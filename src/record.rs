use vstd::prelude::*;

use crate::token::ContinuationToken;

verus! {

/// One result entry.
#[derive(Clone, Debug)]
pub struct Serp {
    pub link: String,
    pub displayed_link: String,
    pub title: String,
    pub snippet: Option<String>,
}

/// Records of one page, and what is needed to ask for the next one.
#[derive(Clone, Debug)]
pub struct SearchResponse {
    pub serp: Vec<Serp>,
    pub inputs: ContinuationToken,
}

/// Why a search or a page request did not produce records.
#[derive(Clone, Copy, Debug, PartialEq, Eq, Structural)]
pub enum SearchError {
    /// The query matched the denylist.
    PolicyRejected,
    /// The scraped page had no table holding result links.
    NoResultsTable,
    /// The continuation token lacks a field that the provider needs, or holds a malformed one.
    InvalidToken,
    /// The request could not be sent or no reply came in time.
    Network,
    /// The reply could not be decoded into the expected structure.
    UpstreamDecodeError,
    /// No egress proxy is configured.
    ProxyRequired,
}

} // verus!
