use vstd::prelude::*;

use crate::record::{SearchError, SearchResponse, Serp};
use crate::token::{find_last, lookup, pairs_view, token_fold, ContinuationToken};

verus! {

/// The first anchor of a table row.
#[derive(Clone, Debug)]
pub struct RowAnchor {
    pub text: String,
    pub href: Option<String>,
}

/// A table row: its text, and its first anchor if it has one.
#[derive(Clone, Debug)]
pub struct TableRow {
    pub text: String,
    pub anchor: Option<RowAnchor>,
}

/// A table of the page: whether a result link lies inside it, and its rows.
#[derive(Clone, Debug)]
pub struct ScrapedTable {
    pub has_result_link: bool,
    pub rows: Vec<TableRow>,
}

/// A hidden input of the pagination form.
#[derive(Clone, Debug)]
pub struct HiddenInput {
    pub name: Option<String>,
    pub value: Option<String>,
}

/// What the parser reads of a results page: its tables in document order and
/// the hidden inputs of its pagination form.
#[derive(Clone, Debug)]
pub struct ScrapedPage {
    pub tables: Vec<ScrapedTable>,
    pub hidden_inputs: Vec<HiddenInput>,
}

/// A result entry as character sequences.
pub struct SerpView {
    pub link: Seq<char>,
    pub displayed_link: Seq<char>,
    pub title: Seq<char>,
    pub snippet: Option<Seq<char>>,
}

pub open spec fn opt_view(o: Option<String>) -> Option<Seq<char>> {
    match o {
        Some(s) => Some(s@),
        None => None,
    }
}

pub open spec fn opt_pairs_view(o: Option<Vec<(String, String)>>) -> Option<Seq<(Seq<char>, Seq<char>)>> {
    match o {
        Some(v) => Some(pairs_view(v@)),
        None => None,
    }
}

impl View for Serp {
    type V = SerpView;

    open spec fn view(&self) -> SerpView {
        SerpView {
            link: self.link@,
            displayed_link: self.displayed_link@,
            title: self.title@,
            snippet: opt_view(self.snippet),
        }
    }
}

pub open spec fn serp_views(v: Seq<Serp>) -> Seq<SerpView> {
    v.map_values(|s: Serp| s@)
}

/// The query pairs, percent-decoded and in order, of the URL written as `text`;
/// `None` where `text` is no URL.
pub uninterp spec fn url_query(text: Seq<char>) -> Option<Seq<(Seq<char>, Seq<char>)>>;

/// Relies on `url::Url::from_str` and `url::Url::query_pairs`: parses `text`
/// as a URL and lists its query pairs.
#[verifier::external_body]
fn query_pairs_of(text: &str) -> (r: Option<Vec<(String, String)>>)
    ensures
        url_query(text@) == opt_pairs_view(r),
{
    let url = <url::Url as std::str::FromStr>::from_str(text).ok()?;
    Some(url.query_pairs().into_owned().collect())
}

/// The destination of a result anchor. Its `href` is a protocol-relative
/// redirect whose `uddg` query parameter, percent-decoded, is the target;
/// without that parameter the `href` itself is the target. `None` where the
/// `href` is no URL.
pub open spec fn resolve_target(href: Seq<char>) -> Option<Seq<char>> {
    match url_query("http:"@ + href) {
        None => None,
        Some(pairs) => match lookup(pairs, "uddg"@) {
            Some(v) => Some(v),
            None => Some(href),
        },
    }
}

/// The record of one chunk of rows: title and anchor from the first row,
/// snippet from the second, displayed link from the third. `None` where a row,
/// the anchor or its `href` is missing, or the destination cannot be resolved.
pub open spec fn chunk_record(chunk: Seq<TableRow>) -> Option<SerpView> {
    if chunk.len() < 3 {
        None
    } else {
        match chunk[0].anchor {
            None => None,
            Some(a) => match a.href {
                None => None,
                Some(h) => match resolve_target(h@) {
                    None => None,
                    Some(link) => Some(
                        SerpView {
                            link,
                            displayed_link: chunk[2].text@,
                            title: a.text@,
                            snippet: Some(chunk[1].text@),
                        },
                    ),
                },
            },
        }
    }
}

pub open spec fn min4(n: int) -> int {
    if n < 4 {
        n
    } else {
        4
    }
}

/// The records of a table's rows, taken in chunks of four; the last chunk may
/// be shorter. Chunks without a record are skipped.
pub open spec fn rows_records(rows: Seq<TableRow>) -> Seq<SerpView>
    decreases rows.len(),
{
    if rows.len() == 0 {
        Seq::empty()
    } else {
        let k = min4(rows.len() as int);
        let here = match chunk_record(rows.take(k)) {
            Some(r) => seq![r],
            None => Seq::empty(),
        };
        here + rows_records(rows.skip(k))
    }
}

/// The records of the page: those of every table holding a result link, in
/// document order.
pub open spec fn page_records(tables: Seq<ScrapedTable>) -> Seq<SerpView>
    decreases tables.len(),
{
    if tables.len() == 0 {
        Seq::empty()
    } else {
        let here = if tables[0].has_result_link {
            rows_records(tables[0].rows@)
        } else {
            Seq::empty()
        };
        here + page_records(tables.skip(1))
    }
}

pub open spec fn has_results_table(tables: Seq<ScrapedTable>) -> bool {
    exists|i: int| 0 <= i < tables.len() && #[trigger] tables[i].has_result_link
}

/// The name/value pairs of the hidden inputs that carry both.
pub open spec fn hidden_pairs(hs: Seq<HiddenInput>) -> Seq<(Seq<char>, Seq<char>)>
    decreases hs.len(),
{
    if hs.len() == 0 {
        Seq::empty()
    } else {
        let before = hidden_pairs(hs.drop_last());
        match (hs.last().name, hs.last().value) {
            (Some(n), Some(v)) => before.push((n@, v@)),
            _ => before,
        }
    }
}

/// Resolves the destination of a result anchor's `href`.
pub fn resolve_link(href: &String) -> (r: Option<String>)
    ensures
        opt_view(r) == resolve_target(href@),
{
    let prefix = String::from_str("http:");
    let text = prefix.concat(href.as_str());
    proof {
        reveal_strlit("http:");
    }
    let pairs = match query_pairs_of(text.as_str()) {
        Some(p) => p,
        None => return None,
    };
    let key = String::from_str("uddg");
    match find_last(&pairs, &key) {
        Some(i) => Some(pairs[i].1.clone()),
        None => Some(href.clone()),
    }
}

/// Extracts the record of the chunk `rows[start..end]`.
pub fn try_extract_serp(rows: &Vec<TableRow>, start: usize, end: usize) -> (r: Option<Serp>)
    requires
        start <= end <= rows@.len(),
    ensures
        match r {
            Some(s) => chunk_record(rows@.subrange(start as int, end as int)) == Some(s@),
            None => chunk_record(rows@.subrange(start as int, end as int)) is None,
        },
{
    if end - start < 3 {
        return None;
    }
    let first = &rows[start];
    let anchor = match &first.anchor {
        Some(a) => a,
        None => return None,
    };
    let href = match &anchor.href {
        Some(h) => h,
        None => return None,
    };
    let link = match resolve_link(href) {
        Some(l) => l,
        None => return None,
    };
    Some(
        Serp {
            link,
            displayed_link: rows[start + 2].text.clone(),
            title: anchor.text.clone(),
            snippet: Some(rows[start + 1].text.clone()),
        },
    )
}

/// Appends the records of `rows`, chunk by chunk, to `out`.
pub fn table_records(rows: &Vec<TableRow>, out: &mut Vec<Serp>)
    ensures
        serp_views(final(out)@) == serp_views(old(out)@) + rows_records(rows@),
{
    let n = rows.len();
    let mut i: usize = 0;
    assert(rows@.subrange(0, n as int) =~= rows@);
    while i < n
        invariant
            n == rows@.len(),
            i <= n,
            serp_views(out@) + rows_records(rows@.subrange(i as int, n as int)) == serp_views(
                old(out)@,
            ) + rows_records(rows@),
        decreases n - i,
    {
        let end = if n - i < 4 {
            n
        } else {
            i + 4
        };
        let ghost rest = rows@.subrange(i as int, n as int);
        let ghost k = min4(rest.len() as int);
        assert(rest.take(k) =~= rows@.subrange(i as int, end as int));
        assert(rest.skip(k) =~= rows@.subrange(end as int, n as int));
        let ghost before = out@;
        match try_extract_serp(rows, i, end) {
            Some(s) => {
                out.push(s);
                assert(serp_views(out@) =~= serp_views(before) + seq![s@]);
            },
            None => {},
        }
        i = end;
    }
    assert(rows@.subrange(n as int, n as int) =~= Seq::<TableRow>::empty());
    assert(serp_views(out@) + Seq::<SerpView>::empty() =~= serp_views(out@));
}

/// What parsing a page with `tables` and `hidden` gives: `NoResultsTable`
/// exactly when no table holds a result link; otherwise the page's records
/// and the token of its hidden pagination fields, in the order they appear.
pub open spec fn parsed_as(
    tables: Seq<ScrapedTable>,
    hidden: Seq<HiddenInput>,
    r: Result<SearchResponse, SearchError>,
) -> bool {
    &&& !has_results_table(tables) ==> r == Err::<SearchResponse, SearchError>(
        SearchError::NoResultsTable,
    )
    &&& has_results_table(tables) ==> (r matches Ok(resp) && serp_views(resp.serp@)
        == page_records(tables) && resp.inputs.wf() && resp.inputs@ == token_fold(
        hidden_pairs(hidden),
    ))
}

/// The records and pagination token of a results page.
pub fn parse_scraped_page(page: &ScrapedPage) -> (r: Result<SearchResponse, SearchError>)
    ensures
        parsed_as(page.tables@, page.hidden_inputs@, r),
{
    let tables = &page.tables;
    let n = tables.len();
    let mut found = false;
    let mut serp: Vec<Serp> = Vec::new();
    let mut i: usize = 0;
    assert(tables@.subrange(0, n as int) =~= tables@);
    while i < n
        invariant
            n == tables@.len(),
            i <= n,
            serp_views(serp@) + page_records(tables@.subrange(i as int, n as int)) == page_records(
                tables@,
            ),
            found <==> exists|j: int| 0 <= j < i && #[trigger] tables@[j].has_result_link,
        decreases n - i,
    {
        let ghost rest = tables@.subrange(i as int, n as int);
        assert(rest.skip(1) =~= tables@.subrange(i + 1, n as int));
        assert(rest[0] == tables@[i as int]);
        if tables[i].has_result_link {
            found = true;
            table_records(&tables[i].rows, &mut serp);
        }
        i = i + 1;
    }
    assert(tables@.subrange(n as int, n as int) =~= Seq::<ScrapedTable>::empty());
    assert(serp_views(serp@) + Seq::<SerpView>::empty() =~= serp_views(serp@));
    if !found {
        return Err(SearchError::NoResultsTable);
    }
    let inputs = hidden_token(&page.hidden_inputs);
    Ok(SearchResponse { serp, inputs })
}

/// Collects the hidden inputs that carry a name and a value into a token;
/// a later input overrides an earlier one of the same name.
pub fn hidden_token(hs: &Vec<HiddenInput>) -> (r: ContinuationToken)
    ensures
        r.wf(),
        r@ == token_fold(hidden_pairs(hs@)),
        forall|k: Seq<char>| #[trigger] r.spec_get(k) == lookup(hidden_pairs(hs@), k),
{
    let mut token = ContinuationToken::new();
    let mut i: usize = 0;
    assert(hs@.subrange(0, 0) =~= Seq::<HiddenInput>::empty());
    while i < hs.len()
        invariant
            i <= hs@.len(),
            token.wf(),
            forall|k: Seq<char>| #[trigger] token.spec_get(k) == lookup(hidden_pairs(hs@.subrange(0, i as int)), k),
            token@ == token_fold(hidden_pairs(hs@.subrange(0, i as int))),
        decreases hs@.len() - i,
    {
        let ghost prev = hidden_pairs(hs@.subrange(0, i as int));
        assert(hs@.subrange(0, i + 1).drop_last() =~= hs@.subrange(0, i as int));
        assert(hs@.subrange(0, i + 1).last() == hs@[i as int]);
        let h = &hs[i];
        match (&h.name, &h.value) {
            (Some(name), Some(value)) => {
                let ghost pair = (name@, value@);
                assert(prev.push(pair).drop_last() =~= prev);
                token.insert(name.clone(), value.clone());
                assert(hidden_pairs(hs@.subrange(0, i + 1)) == prev.push(pair));
            },
            _ => {
                assert(hidden_pairs(hs@.subrange(0, i + 1)) == prev);
            },
        }
        i = i + 1;
    }
    assert(hs@.subrange(0, hs@.len() as int) =~= hs@);
    token
}

/// The number of chunks of four (the last one possibly shorter) in `rows`.
pub open spec fn chunk_count(rows: Seq<TableRow>) -> nat
    decreases rows.len(),
{
    if rows.len() == 0 {
        0
    } else {
        1 + chunk_count(rows.skip(min4(rows.len() as int)))
    }
}

/// The number of chunks of `rows` that yield no record.
pub open spec fn malformed_count(rows: Seq<TableRow>) -> nat
    decreases rows.len(),
{
    if rows.len() == 0 {
        0
    } else {
        let k = min4(rows.len() as int);
        (if chunk_record(rows.take(k)) is None { 1nat } else { 0nat }) + malformed_count(rows.skip(k))
    }
}

/// Chunk `k` of `rows`: rows `4k` to `4k + 3`, cut at the end of the table.
pub open spec fn chunk(rows: Seq<TableRow>, k: int) -> Seq<TableRow> {
    let end = if 4 * k + 4 <= rows.len() {
        4 * k + 4
    } else {
        rows.len() as int
    };
    rows.subrange(4 * k, end)
}

/// A chunk as the result page lays it out: at least three rows, the first
/// holding an anchor with non-empty text and a non-empty `href` that is a URL
/// whose `uddg` parameter, where present, is not empty.
pub open spec fn chunk_well_formed(c: Seq<TableRow>) -> bool {
    c.len() >= 3 && match c[0].anchor {
        None => false,
        Some(a) => a.text@.len() > 0 && match a.href {
            None => false,
            Some(h) => h@.len() > 0 && match url_query("http:"@ + h@) {
                None => false,
                Some(pairs) => match lookup(pairs, "uddg"@) {
                    Some(v) => v.len() > 0,
                    None => true,
                },
            },
        },
    }
}

/// A well-formed chunk yields a record whose title and link are not empty.
pub proof fn lemma_well_formed_record(c: Seq<TableRow>)
    requires
        chunk_well_formed(c),
    ensures
        chunk_record(c) matches Some(r) && r.title.len() > 0 && r.link.len() > 0,
{
}

/// A table has one chunk per started group of four rows, and yields one
/// record per chunk but for the malformed chunks, which are skipped.
pub proof fn lemma_malformed_skipped(rows: Seq<TableRow>)
    ensures
        chunk_count(rows) == (rows.len() + 3) / 4,
        rows_records(rows).len() + malformed_count(rows) == chunk_count(rows),
    decreases rows.len(),
{
    if rows.len() > 0 {
        lemma_malformed_skipped(rows.skip(min4(rows.len() as int)));
    }
}

proof fn lemma_chunk_shift(rows: Seq<TableRow>, k: int)
    requires
        0 <= k,
        4 * k + 4 < rows.len(),
    ensures
        chunk(rows, k + 1) == chunk(rows.skip(4), k),
{
    assert(chunk(rows, k + 1) =~= chunk(rows.skip(4), k));
}

/// Where every chunk of a table is well formed, the table yields exactly one
/// record per chunk, in row order, each with a non-empty title and link.
pub proof fn lemma_complete_chunks(rows: Seq<TableRow>)
    requires
        forall|k: int| 0 <= k < chunk_count(rows) ==> #[trigger] chunk_well_formed(chunk(rows, k)),
    ensures
        rows_records(rows).len() == chunk_count(rows),
        forall|k: int|
            0 <= k < chunk_count(rows) ==> Some(#[trigger] rows_records(rows)[k]) == chunk_record(
                chunk(rows, k),
            ),
        forall|k: int|
            0 <= k < chunk_count(rows) ==> #[trigger] rows_records(rows)[k].title.len() > 0
                && rows_records(rows)[k].link.len() > 0,
    decreases rows.len(),
{
    if rows.len() > 0 {
        let m = min4(rows.len() as int);
        let rest = rows.skip(m);
        lemma_malformed_skipped(rows);
        lemma_malformed_skipped(rest);
        assert(chunk(rows, 0) =~= rows.take(m));
        assert(chunk_well_formed(chunk(rows, 0)));
        lemma_well_formed_record(chunk(rows, 0));
        if rows.len() > 4 {
            assert forall|k: int| 0 <= k < chunk_count(rest) implies #[trigger] chunk_well_formed(
                chunk(rest, k),
            ) by {
                lemma_chunk_shift(rows, k);
                assert(chunk_well_formed(chunk(rows, k + 1)));
            }
            lemma_complete_chunks(rest);
            assert forall|k: int| 0 <= k < chunk_count(rows) implies Some(
                #[trigger] rows_records(rows)[k],
            ) == chunk_record(chunk(rows, k)) by {
                if k > 0 {
                    lemma_chunk_shift(rows, k - 1);
                }
            }
            assert forall|k: int| 0 <= k < chunk_count(rows) implies #[trigger] rows_records(
                rows,
            )[k].title.len() > 0 && rows_records(rows)[k].link.len() > 0 by {
                if k > 0 {
                    lemma_chunk_shift(rows, k - 1);
                    assert(chunk_well_formed(chunk(rows, k)));
                }
            }
        } else {
            assert(rest.len() == 0);
        }
    }
}

/// The number of chunks over the tables that hold a result link.
pub open spec fn page_chunk_count(tables: Seq<ScrapedTable>) -> nat
    decreases tables.len(),
{
    if tables.len() == 0 {
        0
    } else {
        (if tables[0].has_result_link { chunk_count(tables[0].rows@) } else { 0nat })
            + page_chunk_count(tables.skip(1))
    }
}

/// Where every chunk of every results table is well formed, the page yields
/// exactly one record per chunk.
pub proof fn lemma_complete_page(tables: Seq<ScrapedTable>)
    requires
        forall|t: int, k: int|
            0 <= t < tables.len() && tables[t].has_result_link && 0 <= k < chunk_count(
                tables[t].rows@,
            ) ==> #[trigger] chunk_well_formed(chunk(tables[t].rows@, k)),
    ensures
        page_records(tables).len() == page_chunk_count(tables),
    decreases tables.len(),
{
    if tables.len() > 0 {
        let rest = tables.skip(1);
        assert forall|t: int, k: int|
            0 <= t < rest.len() && rest[t].has_result_link && 0 <= k < chunk_count(
                rest[t].rows@,
            ) implies #[trigger] chunk_well_formed(chunk(rest[t].rows@, k)) by {
            assert(rest[t] == tables[t + 1]);
        }
        lemma_complete_page(rest);
        if tables[0].has_result_link {
            lemma_complete_chunks(tables[0].rows@);
        }
    }
}

} // verus!
