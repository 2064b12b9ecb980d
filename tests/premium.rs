use boing_search::decimal::{decimal_string, parse_decimal};
use boing_search::premium::{SearchRequester, SerpApiProvider};
use boing_search::record::SearchError;
use boing_search::simplifier::replacements;
use boing_search::token::ContinuationToken;

fn pairs(v: &[(&str, &str)]) -> Vec<(String, String)> {
    v.iter().map(|(k, x)| (k.to_string(), x.to_string())).collect()
}

#[test]
fn first_page_params() {
    let p = SerpApiProvider::new("test-key".to_string());
    assert_eq!(p.search_params(&"Amiga 40".to_string(), None), pairs(&[("engine", "google"), ("q", "Amiga 40"), ("num", "10")]));
    assert_eq!(p.search_params(&"Amiga 40".to_string(), Some(0)), pairs(&[("engine", "google"), ("q", "Amiga 40"), ("num", "10")]));
}

#[test]
fn later_page_params_carry_start() {
    let p = SerpApiProvider::new("test-key".to_string());
    assert_eq!(
        p.search_params(&"Amiga".to_string(), Some(30)),
        pairs(&[("engine", "google"), ("q", "Amiga"), ("num", "10"), ("start", "30")])
    );
}

#[test]
fn offset_advances_by_ten_per_page() {
    let first = SerpApiProvider::page_response(&"Amiga 40".to_string(), 0, Vec::new());
    assert_eq!(first.inputs.entries, pairs(&[("q", "Amiga 40"), ("premium", "checked"), ("offset", "10")]));
    let (q, offset) = SerpApiProvider::next_page_query(&first.inputs).unwrap();
    assert_eq!((q.as_str(), offset), ("Amiga 40", 10));
    let second = SerpApiProvider::page_response(&q, offset, Vec::new());
    assert_eq!(second.inputs.get(&"offset".to_string()), Some("20".to_string()));
    let (_, offset) = SerpApiProvider::next_page_query(&second.inputs).unwrap();
    assert_eq!(offset, 20);
    let third = SerpApiProvider::page_response(&q, offset, Vec::new());
    assert_eq!(third.inputs.get(&"offset".to_string()), Some("30".to_string()));
}

#[test]
fn token_without_fields_is_invalid() {
    let mut t = ContinuationToken::new();
    assert_eq!(SerpApiProvider::next_page_query(&t), Err(SearchError::InvalidToken));
    t.insert("q".to_string(), "Amiga".to_string());
    assert_eq!(SerpApiProvider::next_page_query(&t), Err(SearchError::InvalidToken));
    t.insert("offset".to_string(), "ten".to_string());
    assert_eq!(SerpApiProvider::next_page_query(&t), Err(SearchError::InvalidToken));
    t.insert("offset".to_string(), "".to_string());
    assert_eq!(SerpApiProvider::next_page_query(&t), Err(SearchError::InvalidToken));
    t.insert("offset".to_string(), "4294967290".to_string());
    assert_eq!(SerpApiProvider::next_page_query(&t), Err(SearchError::InvalidToken));
    t.insert("offset".to_string(), "4294967285".to_string());
    assert_eq!(SerpApiProvider::next_page_query(&t), Ok(("Amiga".to_string(), 4294967285)));
}

#[test]
fn decimal_text_and_back() {
    assert_eq!(decimal_string(0), "0");
    assert_eq!(decimal_string(7), "7");
    assert_eq!(decimal_string(4294967295), "4294967295");
    assert_eq!(parse_decimal(&"0042".to_string()), Some(42));
    assert_eq!(parse_decimal(&"4294967295".to_string()), Some(u32::MAX));
    assert_eq!(parse_decimal(&"4294967296".to_string()), None);
    assert_eq!(parse_decimal(&"-1".to_string()), None);
    assert_eq!(parse_decimal(&"1 0".to_string()), None);
    assert_eq!(parse_decimal(&"".to_string()), None);
}

#[test]
fn token_insert_replaces_in_place() {
    let mut t = ContinuationToken::new();
    t.insert("a".to_string(), "1".to_string());
    t.insert("b".to_string(), "2".to_string());
    t.insert("a".to_string(), "3".to_string());
    assert_eq!(t.entries, pairs(&[("a", "3"), ("b", "2")]));
    assert!(t.contains_key(&"b".to_string()));
    assert!(!t.contains_key(&"c".to_string()));
    assert_eq!(t.to_pairs(), t.entries);
}

#[test]
fn requester_keeps_key() {
    assert_eq!(SearchRequester::new("test-key".to_string()).api_key, "test-key");
}

#[test]
fn page_rewrites() {
    let page = "<p><a href=\"https://amiga.org/\">x</a><img src=\"http://i/a.png\"><strong>b</strong><em>i</em></p>".to_string();
    let out = replacements(page, "/browse/".to_string());
    assert_eq!(
        out,
        "<p><a href=\"/browse/?url=https://amiga.org/\">x</a><img src=\"/convert.png?url=http://i/a.png\"><b>b</b><i>i</i></p>"
    );
}
