use boing_search::engine::{FirstSearch, Provider, SearchEngine, SearchProvider, SearchStep};
use boing_search::free::DuckDuckRequester;
use boing_search::premium::SerpApiProvider;
use boing_search::record::{SearchError, SearchResponse, Serp};
use boing_search::token::ContinuationToken;

fn engine() -> SearchEngine {
    SearchEngine::new(
        DuckDuckRequester::new(1, vec!["http://proxy:1".to_string()]),
        SerpApiProvider::new("test-key".to_string()),
        vec!["amigaspam".to_string()],
    )
}

fn response(titles: &[&str]) -> SearchResponse {
    SearchResponse {
        serp: titles
            .iter()
            .map(|t| Serp {
                link: format!("https://{t}.example/"),
                displayed_link: format!("{t}.example"),
                title: t.to_string(),
                snippet: None,
            })
            .collect(),
        inputs: ContinuationToken::new(),
    }
}

/// Runs a first search against stub providers, counting the calls of each.
fn run(
    engine: &SearchEngine,
    query: &str,
    use_premium: bool,
    free: &dyn Fn() -> Result<SearchResponse, SearchError>,
    premium: &dyn Fn() -> Result<SearchResponse, SearchError>,
) -> (Result<SearchResponse, SearchError>, usize, usize) {
    let mut calls = (0, 0);
    let mut plan = match engine.first_search(&query.to_string(), use_premium) {
        Ok(p) => p,
        Err(e) => return (Err(e), 0, 0),
    };
    loop {
        let outcome = match plan.provider() {
            Provider::Free => {
                calls.0 += 1;
                free()
            }
            Provider::Premium => {
                calls.1 += 1;
                premium()
            }
        };
        match plan.settle(outcome) {
            SearchStep::Call(next) => plan = next,
            SearchStep::Done(r) => return (r, calls.0, calls.1),
        }
    }
}

#[test]
fn denied_query_calls_no_provider() {
    let e = engine();
    let (r, free, premium) = run(&e, "Buy AmigaSpam today", false, &|| panic!("free called"), &|| panic!("premium called"));
    assert_eq!(r.unwrap_err(), SearchError::PolicyRejected);
    assert_eq!((free, premium), (0, 0));
    assert_eq!(e.first_search(&"amigaspam".to_string(), true), Err(SearchError::PolicyRejected));
}

#[test]
fn free_preferred_and_answering() {
    let e = engine();
    let (r, free, premium) = run(&e, "Amiga 40", false, &|| Ok(response(&["a", "b", "c"])), &|| Ok(response(&["p"])));
    assert_eq!(r.unwrap().serp.len(), 3);
    assert_eq!((free, premium), (1, 0));
}

#[test]
fn free_failure_falls_back_to_premium_once() {
    let e = engine();
    let (r, free, premium) = run(&e, "Amiga 40", false, &|| Err(SearchError::Network), &|| Ok(response(&["p1", "p2"])));
    let r = r.unwrap();
    assert_eq!(r.serp.len(), 2);
    assert_eq!(r.serp[0].title, "p1");
    assert_eq!((free, premium), (1, 1));
}

#[test]
fn premium_preferred_falls_back_to_free() {
    let e = engine();
    let (r, free, premium) = run(&e, "Amiga 40", true, &|| Ok(response(&["f"])), &|| Err(SearchError::UpstreamDecodeError));
    assert_eq!(r.unwrap().serp[0].title, "f");
    assert_eq!((free, premium), (1, 1));
}

#[test]
fn second_failure_is_the_result() {
    let e = engine();
    let (r, free, premium) = run(&e, "Amiga 40", false, &|| Err(SearchError::NoResultsTable), &|| Err(SearchError::Network));
    assert_eq!(r.unwrap_err(), SearchError::Network);
    assert_eq!((free, premium), (1, 1));
}

#[test]
fn first_search_plan_follows_preference() {
    let e = engine();
    assert_eq!(e.first_search(&"Amiga 40".to_string(), false), Ok(FirstSearch { primary: Provider::Free, fell_back: false }));
    assert_eq!(e.first_search(&"Amiga 40".to_string(), true), Ok(FirstSearch { primary: Provider::Premium, fell_back: false }));
}

#[test]
fn settle_on_success_is_done() {
    let plan = FirstSearch { primary: Provider::Free, fell_back: false };
    match plan.settle(Ok(response(&["x"]))) {
        SearchStep::Done(Ok(r)) => assert_eq!(r.serp[0].title, "x"),
        other => panic!("unexpected step {other:?}"),
    }
}

#[test]
fn next_page_routes_by_marker() {
    let e = engine();
    let mut premium = ContinuationToken::new();
    premium.insert("q".to_string(), "Amiga".to_string());
    premium.insert("premium".to_string(), "checked".to_string());
    assert_eq!(e.next_page(&premium), Ok(Provider::Premium));
    let mut free = ContinuationToken::new();
    free.insert("q".to_string(), "Amiga".to_string());
    free.insert("s".to_string(), "23".to_string());
    assert_eq!(e.next_page(&free), Ok(Provider::Free));
    assert_eq!(e.next_page(&ContinuationToken::new()), Err(SearchError::InvalidToken));
}

#[test]
fn providers_state_their_kind() {
    let e = engine();
    assert_eq!(e.free.kind(), Provider::Free);
    assert_eq!(e.premium.kind(), Provider::Premium);
}

#[test]
fn free_next_page_posts_token() {
    let mut free = DuckDuckRequester::new(1, vec!["http://p0".to_string(), "http://p1".to_string()]);
    assert_eq!(free.next_page_request(&ContinuationToken::new()).unwrap_err(), SearchError::InvalidToken);
    let mut token = ContinuationToken::new();
    token.insert("q".to_string(), "Amiga 40".to_string());
    token.insert("s".to_string(), "23".to_string());
    let first = free.search_request(&"Amiga 40".to_string()).unwrap();
    assert_eq!(first.proxy, "http://p0");
    let req = free.next_page_request(&token).unwrap();
    assert_eq!(req.url, "https://lite.duckduckgo.com/lite/");
    assert_eq!(req.proxy, "http://p1");
    assert_eq!(req.form, Some(vec![("q".to_string(), "Amiga 40".to_string()), ("s".to_string(), "23".to_string())]));
}
