use vstd::prelude::*;

use crate::decimal::{decimal_string, decimal_text, decimal_value, is_decimal, parse_decimal, lemma_decimal_round_trip};
use crate::record::{SearchError, SearchResponse, Serp};
use crate::token::{keys_unique, lookup, pairs_view, ContinuationToken};

verus! {

/// Results the API returns per page.
pub const PAGE_SIZE: u32 = 10;

/// The token handed out with a page of API results: the query, the marker of
/// this provider, and the offset of the following page.
pub open spec fn premium_token(q: Seq<char>, next_offset: nat) -> Seq<(Seq<char>, Seq<char>)> {
    seq![("q"@, q), ("premium"@, "checked"@), ("offset"@, decimal_text(next_offset))]
}

/// The query and offset that `t` asks for: both keys present, the offset in
/// base ten and small enough that the offset after it fits a `u32`.
pub open spec fn token_page(t: Seq<(Seq<char>, Seq<char>)>) -> Option<(Seq<char>, int)> {
    match (lookup(t, "q"@), lookup(t, "offset"@)) {
        (Some(q), Some(o)) => if is_decimal(o) && decimal_value(o) + PAGE_SIZE <= u32::MAX {
            Some((q, decimal_value(o)))
        } else {
            None
        },
        _ => None,
    }
}

/// The parameters of an API request for `q` at `offset`; a zero offset is
/// left out.
pub open spec fn search_params_spec(q: Seq<char>, offset: Option<u32>) -> Seq<(Seq<char>, Seq<char>)> {
    seq![("engine"@, "google"@), ("q"@, q), ("num"@, "10"@)] + match offset {
        Some(o) => if o > 0 {
            seq![("start"@, decimal_text(o as nat))]
        } else {
            Seq::empty()
        },
        None => Seq::empty(),
    }
}

/// Client of the metered search API.
#[derive(Clone, Debug)]
pub struct SerpApiProvider {
    pub api_key: String,
}

fn text(s: &str) -> (r: String)
    ensures
        r@ == s@,
{
    String::from_str(s)
}

impl SerpApiProvider {
    pub fn new(api_key: String) -> (r: SerpApiProvider)
        ensures
            r.api_key@ == api_key@,
    {
        SerpApiProvider { api_key }
    }

    /// The parameters of the API request for one page of results.
    pub fn search_params(&self, query: &String, offset: Option<u32>) -> (r: Vec<(String, String)>)
        ensures
            pairs_view(r@) == search_params_spec(query@, offset),
    {
        let mut params: Vec<(String, String)> = Vec::new();
        params.push((text("engine"), text("google")));
        params.push((text("q"), query.clone()));
        params.push((text("num"), text("10")));
        match offset {
            Some(o) => {
                if o > 0 {
                    params.push((text("start"), decimal_string(o)));
                }
            },
            None => {},
        }
        assert(pairs_view(params@) =~= search_params_spec(query@, offset));
        params
    }

    /// The response for the page of `serp` fetched for `query` at `offset`.
    pub fn page_response(query: &String, offset: u32, serp: Vec<Serp>) -> (r: SearchResponse)
        requires
            offset + PAGE_SIZE <= u32::MAX,
        ensures
            r.serp@ == serp@,
            r.inputs@ == premium_token(query@, (offset + PAGE_SIZE) as nat),
            r.inputs.wf(),
    {
        let mut entries: Vec<(String, String)> = Vec::new();
        entries.push((text("q"), query.clone()));
        entries.push((text("premium"), text("checked")));
        entries.push((text("offset"), decimal_string(offset + PAGE_SIZE)));
        let inputs = ContinuationToken { entries };
        assert(inputs@ =~= premium_token(query@, (offset + PAGE_SIZE) as nat));
        proof {
            lemma_premium_keys_unique(query@, (offset + PAGE_SIZE) as nat);
        }
        SearchResponse { serp, inputs }
    }

    /// The query and offset of the page that `token` asks for.
    pub fn next_page_query(token: &ContinuationToken) -> (r: Result<(String, u32), SearchError>)
        ensures
            match r {
                Ok((q, o)) => token_page(token@) == Some((q@, o as int)),
                Err(e) => e == SearchError::InvalidToken && token_page(token@) is None,
            },
    {
        let query = match token.get(&text("q")) {
            Some(q) => q,
            None => return Err(SearchError::InvalidToken),
        };
        let offset = match token.get(&text("offset")) {
            Some(o) => o,
            None => return Err(SearchError::InvalidToken),
        };
        match parse_decimal(&offset) {
            Some(v) => {
                if v <= u32::MAX - PAGE_SIZE {
                    Ok((query, v))
                } else {
                    Err(SearchError::InvalidToken)
                }
            },
            None => Err(SearchError::InvalidToken),
        }
    }
}

proof fn lemma_premium_keys_unique(q: Seq<char>, n: nat)
    ensures
        keys_unique(premium_token(q, n)),
{
    reveal_strlit("q");
    reveal_strlit("premium");
    reveal_strlit("offset");
    let t = premium_token(q, n);
    assert("q"@.len() != "premium"@.len());
    assert("q"@.len() != "offset"@.len());
    assert("premium"@.len() != "offset"@.len());
    assert(t[0].0 == "q"@ && t[1].0 == "premium"@ && t[2].0 == "offset"@);
}

/// The token handed out with a page of API results asks for the page that
/// follows it: read back, it gives the same query and the offset it was made
/// with, and the token of that page carries an offset ten higher. Offsets so
/// go 10, 20, 30, ... from the first page on.
pub proof fn lemma_offset_round_trip(q: Seq<char>, offset: nat)
    requires
        offset + 2 * PAGE_SIZE <= u32::MAX,
    ensures
        token_page(premium_token(q, (offset + PAGE_SIZE) as nat)) == Some((q, offset + PAGE_SIZE)),
        lookup(premium_token(q, (offset + PAGE_SIZE) as nat), "offset"@) == Some(
            decimal_text((offset + PAGE_SIZE) as nat),
        ),
{
    reveal_strlit("q");
    reveal_strlit("premium");
    reveal_strlit("offset");
    let n = (offset + PAGE_SIZE) as nat;
    let t = premium_token(q, n);
    lemma_decimal_round_trip(n);
    assert(t.drop_last() =~= seq![("q"@, q), ("premium"@, "checked"@)]);
    assert(t.drop_last().drop_last() =~= seq![("q"@, q)]);
    assert(t.drop_last().drop_last().drop_last() =~= Seq::<(Seq<char>, Seq<char>)>::empty());
    assert("q"@.len() != "offset"@.len());
    assert("premium"@.len() != "q"@.len());
    assert("premium"@.len() != "offset"@.len());
    assert(lookup(t, "offset"@) == Some(decimal_text(n)));
    assert(lookup(t.drop_last().drop_last(), "q"@) == Some(q));
    assert(lookup(t.drop_last(), "q"@) == Some(q));
    assert(lookup(t, "q"@) == Some(q));
}

/// Every token of an API page carries the provider's marker, by which the
/// engine routes it back to this provider.
pub proof fn lemma_token_marks_provider(q: Seq<char>, next_offset: nat)
    ensures
        lookup(premium_token(q, next_offset), "premium"@) == Some("checked"@),
        premium_token(q, next_offset).len() > 0,
{
    reveal_strlit("premium");
    reveal_strlit("offset");
    let t = premium_token(q, next_offset);
    assert("premium"@.len() != "offset"@.len());
    assert(t.drop_last() =~= seq![("q"@, q), ("premium"@, "checked"@)]);
    assert(t.last().0 == "offset"@);
    assert(t.drop_last().last() == ("premium"@, "checked"@));
    assert(lookup(t.drop_last(), "premium"@) == Some("checked"@));
}

/// Client of the metered search API used by the earlier single-provider
/// search page.
#[derive(Clone, Debug)]
pub struct SearchRequester {
    pub api_key: String,
}

impl SearchRequester {
    pub fn new(api_key: String) -> (r: SearchRequester)
        ensures
            r.api_key@ == api_key@,
    {
        SearchRequester { api_key }
    }
}

} // verus!
