use vstd::prelude::*;

use crate::record::{SearchError, SearchResponse};
use crate::scrape::{
    parse_scraped_page, parsed_as, serp_views, HiddenInput, RowAnchor, ScrapedPage, ScrapedTable,
    TableRow,
};

verus! {

/// For each element of the HTML text `html` that matches `tables`, in document
/// order, whether an element matching `link` lies inside it.
pub uninterp spec fn table_flags(html: Seq<char>, tables: Seq<char>, link: Seq<char>) -> Seq<bool>;

/// The rows matching `rows` inside the element number `index` of those that
/// match `tables` in `html`: each row's text, and the text and `href`
/// attribute of its first element matching `anchor`.
pub uninterp spec fn table_rows(
    html: Seq<char>,
    tables: Seq<char>,
    index: nat,
    rows: Seq<char>,
    anchor: Seq<char>,
    href: Seq<char>,
) -> Vec<TableRow>;

/// The elements of `html` that match `inputs`, in document order, with their
/// `name` and `value` attributes.
pub uninterp spec fn hidden_read(
    html: Seq<char>,
    inputs: Seq<char>,
    name: Seq<char>,
    value: Seq<char>,
) -> Vec<HiddenInput>;

/// Relies on `kuchiki::parse_html`, `NodeRef::select` and
/// `NodeRef::select_first`: parses `html` and, for each element matching
/// `tables`, tells whether one matching `link` lies inside it.
#[verifier::external_body]
fn read_table_flags(html: &str, tables: &str, link: &str) -> (r: Vec<bool>)
    ensures
        r@ == table_flags(html@, tables@, link@),
{
    let doc = kuchiki::traits::TendrilSink::one(kuchiki::parse_html(), html);
    match doc.select(tables) {
        Ok(found) => found.map(|t| t.as_node().select_first(link).is_ok()).collect(),
        Err(()) => Vec::new(),
    }
}

/// Relies on `kuchiki::parse_html`, `NodeRef::select`, `select_first`,
/// `text_contents` and `Attributes::get`: parses `html` and reads the rows of
/// the table element number `index`.
#[verifier::external_body]
fn read_table_rows(html: &str, tables: &str, index: usize, rows: &str, anchor: &str, href: &str) -> (r: Vec<TableRow>)
    ensures
        r == table_rows(html@, tables@, index as nat, rows@, anchor@, href@),
{
    let doc = kuchiki::traits::TendrilSink::one(kuchiki::parse_html(), html);
    let found = match doc.select(tables).ok().and_then(|mut t| t.nth(index)).map(|t| t.as_node().select(rows)) {
        Some(Ok(found)) => found,
        _ => return Vec::new(),
    };
    found.map(|r| TableRow {
        text: r.text_contents(),
        anchor: r.as_node().select_first(anchor).ok().map(|a| RowAnchor {
            text: a.text_contents(),
            href: a.attributes.borrow().get(href).map(|v| v.to_string()),
        }),
    }).collect()
}

/// Relies on `kuchiki::parse_html`, `NodeRef::select` and `Attributes::get`:
/// parses `html` and reads two attributes of each element matching `inputs`.
#[verifier::external_body]
fn read_hidden_inputs(html: &str, inputs: &str, name: &str, value: &str) -> (r: Vec<HiddenInput>)
    ensures
        r == hidden_read(html@, inputs@, name@, value@),
{
    let doc = kuchiki::traits::TendrilSink::one(kuchiki::parse_html(), html);
    match doc.select(inputs) {
        Ok(found) => found.map(|i| HiddenInput {
            name: i.attributes.borrow().get(name).map(|v| v.to_string()),
            value: i.attributes.borrow().get(value).map(|v| v.to_string()),
        }).collect(),
        Err(()) => Vec::new(),
    }
}

/// The tables of a results page as the parser reads them.
pub open spec fn page_tables(html: Seq<char>) -> Seq<ScrapedTable> {
    let flags = table_flags(html, "table"@, "a.result-link"@);
    Seq::new(
        flags.len(),
        |i: int|
            ScrapedTable {
                has_result_link: flags[i],
                rows: table_rows(html, "table"@, i as nat, "tr"@, "a"@, "href"@),
            },
    )
}

/// The hidden inputs of a results page's pagination form.
pub open spec fn page_hidden_inputs(html: Seq<char>) -> Seq<HiddenInput> {
    hidden_read(html, "form.next_form>input[type=hidden]"@, "name"@, "value"@)@
}

/// Reads the tables and the pagination form's hidden inputs of a results page.
pub fn extract_page(page_txt: &String) -> (r: ScrapedPage)
    ensures
        r.tables@ == page_tables(page_txt@),
        r.hidden_inputs@ == page_hidden_inputs(page_txt@),
{
    let html = page_txt.as_str();
    let hidden_inputs = read_hidden_inputs(html, "form.next_form>input[type=hidden]", "name", "value");
    let flags = read_table_flags(html, "table", "a.result-link");
    let mut tables: Vec<ScrapedTable> = Vec::new();
    let mut i: usize = 0;
    while i < flags.len()
        invariant
            i <= flags@.len(),
            flags@ == table_flags(page_txt@, "table"@, "a.result-link"@),
            html@ == page_txt@,
            tables@ =~= page_tables(page_txt@).subrange(0, i as int),
        decreases flags@.len() - i,
    {
        let rows = read_table_rows(html, "table", i, "tr", "a", "href");
        tables.push(ScrapedTable { has_result_link: flags[i], rows });
        i = i + 1;
    }
    ScrapedPage { tables, hidden_inputs }
}

/// Parses a results page: the records of its results tables and the token of
/// its pagination form.
pub fn parse_serp_result(page_txt: String) -> (r: Result<SearchResponse, SearchError>)
    ensures
        parsed_as(page_tables(page_txt@), page_hidden_inputs(page_txt@), r),
{
    let page = extract_page(&page_txt);
    parse_scraped_page(&page)
}

/// The same page text parses to the same records and token: the outcome
/// depends on the text alone.
pub proof fn lemma_parse_deterministic(
    html: Seq<char>,
    r1: Result<SearchResponse, SearchError>,
    r2: Result<SearchResponse, SearchError>,
)
    requires
        parsed_as(page_tables(html), page_hidden_inputs(html), r1),
        parsed_as(page_tables(html), page_hidden_inputs(html), r2),
    ensures
        r1 is Ok <==> r2 is Ok,
        r1 is Err ==> r1 == r2,
        r1 is Ok && r2 is Ok ==> serp_views(r1->Ok_0.serp@) == serp_views(r2->Ok_0.serp@)
            && r1->Ok_0.inputs@ == r2->Ok_0.inputs@,
{
}

} // verus!
