use boing_search::dom::parse_serp_result;
use boing_search::record::SearchError;
use boing_search::scrape::{
    parse_scraped_page, resolve_link, try_extract_serp, HiddenInput, RowAnchor, ScrapedPage,
    ScrapedTable, TableRow,
};

fn row(text: &str) -> TableRow {
    TableRow { text: text.to_string(), anchor: None }
}

fn title_row(title: &str, href: Option<&str>) -> TableRow {
    TableRow {
        text: title.to_string(),
        anchor: Some(RowAnchor { text: title.to_string(), href: href.map(|h| h.to_string()) }),
    }
}

fn chunk(n: usize) -> Vec<TableRow> {
    vec![
        title_row(&format!("Title {n}"), Some(&format!("//duckduckgo.com/l/?uddg=https%3A%2F%2Fsite{n}.example%2Fpage&rut=abc"))),
        row(&format!("Snippet {n}")),
        row(&format!("site{n}.example/page")),
        row(""),
    ]
}

fn page(tables: Vec<ScrapedTable>) -> ScrapedPage {
    ScrapedPage { tables, hidden_inputs: Vec::new() }
}

#[test]
fn complete_chunks_give_one_record_each_in_order() {
    let mut rows = Vec::new();
    for n in 0..3 {
        rows.extend(chunk(n));
    }
    let resp = parse_scraped_page(&page(vec![ScrapedTable { has_result_link: true, rows }])).unwrap();
    assert_eq!(resp.serp.len(), 3);
    for (n, s) in resp.serp.iter().enumerate() {
        assert_eq!(s.title, format!("Title {n}"));
        assert_eq!(s.link, format!("https://site{n}.example/page"));
        assert_eq!(s.displayed_link, format!("site{n}.example/page"));
        assert_eq!(s.snippet, Some(format!("Snippet {n}")));
        assert!(!s.title.is_empty() && !s.link.is_empty());
    }
}

#[test]
fn chunk_without_href_is_skipped() {
    let mut rows = chunk(0);
    rows.extend(vec![title_row("Broken", None), row("s"), row("d"), row("")]);
    rows.extend(chunk(2));
    let resp = parse_scraped_page(&page(vec![ScrapedTable { has_result_link: true, rows }])).unwrap();
    assert_eq!(resp.serp.len(), 2);
    assert_eq!(resp.serp[0].title, "Title 0");
    assert_eq!(resp.serp[1].title, "Title 2");
}

#[test]
fn chunk_without_anchor_or_rows_is_skipped() {
    let mut rows = vec![row("no anchor"), row("s"), row("d"), row("")];
    rows.extend(chunk(1));
    rows.extend(vec![title_row("Short", Some("//duckduckgo.com/l/?uddg=x")), row("s")]);
    let resp = parse_scraped_page(&page(vec![ScrapedTable { has_result_link: true, rows }])).unwrap();
    assert_eq!(resp.serp.len(), 1);
    assert_eq!(resp.serp[0].title, "Title 1");
}

#[test]
fn last_chunk_of_three_rows_counts() {
    let mut rows = chunk(0);
    rows.extend(chunk(1).into_iter().take(3));
    let resp = parse_scraped_page(&page(vec![ScrapedTable { has_result_link: true, rows }])).unwrap();
    assert_eq!(resp.serp.len(), 2);
}

#[test]
fn no_results_table_is_an_error() {
    let none = parse_scraped_page(&page(Vec::new()));
    assert_eq!(none.unwrap_err(), SearchError::NoResultsTable);
    let other = parse_scraped_page(&page(vec![ScrapedTable { has_result_link: false, rows: chunk(0) }]));
    assert_eq!(other.unwrap_err(), SearchError::NoResultsTable);
}

#[test]
fn tables_without_result_links_are_ignored() {
    let tables = vec![
        ScrapedTable { has_result_link: false, rows: chunk(7) },
        ScrapedTable { has_result_link: true, rows: chunk(1) },
    ];
    let resp = parse_scraped_page(&page(tables)).unwrap();
    assert_eq!(resp.serp.len(), 1);
    assert_eq!(resp.serp[0].title, "Title 1");
}

#[test]
fn empty_results_table_gives_no_records() {
    let resp = parse_scraped_page(&page(vec![ScrapedTable { has_result_link: true, rows: Vec::new() }])).unwrap();
    assert!(resp.serp.is_empty());
    assert!(resp.inputs.is_empty());
}

#[test]
fn hidden_inputs_become_the_token() {
    let hidden = vec![
        HiddenInput { name: Some("q".to_string()), value: Some("Amiga 40".to_string()) },
        HiddenInput { name: Some("s".to_string()), value: Some("10".to_string()) },
        HiddenInput { name: None, value: Some("x".to_string()) },
        HiddenInput { name: Some("dc".to_string()), value: None },
        HiddenInput { name: Some("s".to_string()), value: Some("30".to_string()) },
    ];
    let p = ScrapedPage { tables: vec![ScrapedTable { has_result_link: true, rows: chunk(0) }], hidden_inputs: hidden };
    let resp = parse_scraped_page(&p).unwrap();
    assert_eq!(resp.inputs.len(), 2);
    assert_eq!(resp.inputs.get(&"q".to_string()), Some("Amiga 40".to_string()));
    assert_eq!(resp.inputs.get(&"s".to_string()), Some("30".to_string()));
    assert_eq!(resp.inputs.get(&"dc".to_string()), None);
    assert_eq!(
        resp.inputs.entries,
        vec![("q".to_string(), "Amiga 40".to_string()), ("s".to_string(), "30".to_string())]
    );
}

#[test]
fn redirect_target_is_decoded_once() {
    let link = resolve_link(&"//duckduckgo.com/l/?uddg=https%3A%2F%2Fex.com%2Fa%2520b&rut=1".to_string());
    assert_eq!(link, Some("https://ex.com/a%20b".to_string()));
}

#[test]
fn same_text_parses_the_same() {
    let a = parse_serp_result(html_page(2)).unwrap();
    let b = parse_serp_result(html_page(2)).unwrap();
    assert_eq!(a.serp.len(), b.serp.len());
    for (x, y) in a.serp.iter().zip(b.serp.iter()) {
        assert_eq!((&x.link, &x.title), (&y.link, &y.title));
    }
    assert_eq!(a.inputs.entries, b.inputs.entries);
}

#[test]
fn redirect_link_is_decoded() {
    let link = resolve_link(&"//duckduckgo.com/l/?uddg=https%3A%2F%2Fexample.com%2Fa%3Fb%3D1&rut=9".to_string());
    assert_eq!(link, Some("https://example.com/a?b=1".to_string()));
}

#[test]
fn link_without_uddg_is_the_href() {
    let link = resolve_link(&"//example.com/plain".to_string());
    assert_eq!(link, Some("//example.com/plain".to_string()));
}

#[test]
fn extract_needs_three_rows() {
    let rows = chunk(0);
    assert!(try_extract_serp(&rows, 0, 2).is_none());
    assert_eq!(try_extract_serp(&rows, 0, 3).unwrap().title, "Title 0");
}

fn html_chunk(n: usize) -> String {
    format!(
        "<tr><td>{n}.</td><td><a rel=\"nofollow\" href=\"//duckduckgo.com/l/?uddg=https%3A%2F%2Fsite{n}.example%2F&amp;rut=abc\" class='result-link'>Amiga result {n}</a></td></tr>\
         <tr><td></td><td class='result-snippet'>About Amiga {n}</td></tr>\
         <tr><td></td><td><span class='link-text'>site{n}.example</span></td></tr>\
         <tr><td>&nbsp;</td></tr>"
    )
}

fn html_page(chunks: usize) -> String {
    let mut rows = String::new();
    for n in 0..chunks {
        rows.push_str(&html_chunk(n));
    }
    format!(
        "<html><body><form class=\"next_form\" action=\"/lite/\" method=\"post\">\
         <input type=\"submit\" value=\"Next\">\
         <input type=\"hidden\" name=\"q\" value=\"Amiga 40\">\
         <input type=\"hidden\" name=\"s\" value=\"23\">\
         </form><table border=\"0\">{rows}</table></body></html>"
    )
}

#[test]
fn html_page_with_three_chunks() {
    let resp = parse_serp_result(html_page(3)).unwrap();
    assert_eq!(resp.serp.len(), 3);
    assert_eq!(resp.serp[0].link, "https://site0.example/");
    assert_eq!(resp.serp[0].title, "Amiga result 0");
    assert_eq!(resp.serp[2].displayed_link, "site2.example");
    assert_eq!(resp.serp[1].snippet.as_deref(), Some("About Amiga 1"));
    assert_eq!(resp.inputs.get(&"q".to_string()), Some("Amiga 40".to_string()));
    assert_eq!(resp.inputs.get(&"s".to_string()), Some("23".to_string()));
}

#[test]
fn html_page_without_tables() {
    let resp = parse_serp_result("<html><body><p>Please solve the challenge</p></body></html>".to_string());
    assert_eq!(resp.unwrap_err(), SearchError::NoResultsTable);
}
