use vstd::prelude::*;

use crate::gate::{next_dispatch, RateGate};
use crate::record::SearchError;
use crate::rotator::{advance, ProxyRotator};
use crate::token::{pairs_view, ContinuationToken};

verus! {

/// `s` percent-encoded for a URL query.
pub uninterp spec fn percent_encoded(s: Seq<char>) -> Seq<char>;

/// Relies on `urlencoding::encode`: escapes every byte but ASCII letters,
/// digits and `-`, `_`, `.`, `~`.
#[verifier::external_body]
fn percent_encode(s: &str) -> (r: String)
    ensures
        r@ == percent_encoded(s@),
{
    urlencoding::encode(s).into_owned()
}

/// Endpoint of the scraped source: a first page is a GET with the query.
pub open spec fn search_url_prefix() -> Seq<char> {
    "http://lite.duckduckgo.com/lite/?kl=wt-wt&q="@
}

/// Endpoint that takes a pagination form.
pub open spec fn next_page_url() -> Seq<char> {
    "https://lite.duckduckgo.com/lite/"@
}

pub open spec fn opt_form_view(o: Option<Vec<(String, String)>>) -> Option<Seq<(Seq<char>, Seq<char>)>> {
    match o {
        Some(f) => Some(pairs_view(f@)),
        None => None,
    }
}

/// A request to the scraped source: a GET of `url`, or a POST of `form` to it
/// where a form is given, sent through `proxy`.
#[derive(Clone, Debug)]
pub struct FreeRequest {
    pub url: String,
    pub proxy: String,
    pub form: Option<Vec<(String, String)>>,
}

/// The scraping provider: its politeness gate and its proxy pool.
#[derive(Clone, Debug)]
pub struct DuckDuckRequester {
    pub gate: RateGate,
    pub rotator: ProxyRotator,
}

impl DuckDuckRequester {
    pub fn new(req_spacing_secs: u64, proxies: Vec<String>) -> (r: DuckDuckRequester)
        ensures
            r.gate.last_request == 0,
            r.gate.min_spacing == req_spacing_secs,
            r.rotator.proxies@ == proxies@,
            r.rotator.counter == 0,
    {
        DuckDuckRequester { gate: RateGate::new(req_spacing_secs), rotator: ProxyRotator::new(proxies) }
    }

    /// Seconds to sleep before a request that arrives at `now` may go out.
    pub fn wait(&mut self, now: u64) -> (delay: u64)
        requires
            old(self).gate.last_request + old(self).gate.min_spacing <= u64::MAX,
        ensures
            final(self).rotator == old(self).rotator,
            final(self).gate.min_spacing == old(self).gate.min_spacing,
            final(self).gate.last_request == next_dispatch(
                old(self).gate.last_request as int,
                old(self).gate.min_spacing as int,
                now as int,
            ),
            now + delay == final(self).gate.last_request,
    {
        self.gate.wait(now)
    }

    /// The first-page request for `query`, through the next proxy.
    pub fn search_request(&mut self, query: &String) -> (r: Result<FreeRequest, SearchError>)
        ensures
            final(self).gate == old(self).gate,
            final(self).rotator.proxies@ == old(self).rotator.proxies@,
            old(self).rotator.proxies@.len() == 0 ==> r == Err::<FreeRequest, SearchError>(
                SearchError::ProxyRequired,
            ),
            old(self).rotator.proxies@.len() > 0 ==> (r matches Ok(req)
                && req.url@ == search_url_prefix() + percent_encoded(query@)
                && req.proxy@ == old(self).rotator.proxies@[old(self).rotator.counter as int
                % old(self).rotator.proxies@.len() as int]@
                && req.form is None
                && final(self).rotator.counter == advance(old(self).rotator.counter as int)),
    {
        let encoded = percent_encode(query.as_str());
        let proxy = match self.rotator.next_proxy() {
            Ok(p) => p,
            Err(e) => return Err(e),
        };
        let url = String::from_str("http://lite.duckduckgo.com/lite/?kl=wt-wt&q=").concat(
            encoded.as_str(),
        );
        Ok(FreeRequest { url, proxy, form: None })
    }

    /// The request for the page that `token` continues to: its fields posted
    /// as a form, through the next proxy. An empty token continues nowhere.
    pub fn next_page_request(&mut self, token: &ContinuationToken) -> (r: Result<FreeRequest, SearchError>)
        ensures
            final(self).gate == old(self).gate,
            final(self).rotator.proxies@ == old(self).rotator.proxies@,
            token@.len() == 0 ==> r == Err::<FreeRequest, SearchError>(SearchError::InvalidToken),
            token@.len() > 0 && old(self).rotator.proxies@.len() == 0 ==> r == Err::<
                FreeRequest,
                SearchError,
            >(SearchError::ProxyRequired),
            token@.len() > 0 && old(self).rotator.proxies@.len() > 0 ==> (r matches Ok(req)
                && req.url@ == next_page_url()
                && req.proxy@ == old(self).rotator.proxies@[old(self).rotator.counter as int
                % old(self).rotator.proxies@.len() as int]@
                && opt_form_view(req.form) == Some(token@)
                && final(self).rotator.counter == advance(old(self).rotator.counter as int)),
    {
        if token.is_empty() {
            return Err(SearchError::InvalidToken);
        }
        let proxy = match self.rotator.next_proxy() {
            Ok(p) => p,
            Err(e) => return Err(e),
        };
        let form = token.to_pairs();
        Ok(FreeRequest { url: String::from_str("https://lite.duckduckgo.com/lite/"), proxy, form: Some(form) })
    }
}

} // verus!
