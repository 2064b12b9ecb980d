use vstd::prelude::*;

verus! {

/// `s` with every match of `from`, taken left to right without overlap,
/// replaced by `to`.
pub open spec fn replaced(s: Seq<char>, from: Seq<char>, to: Seq<char>) -> Seq<char>
    recommends
        from.len() > 0,
    decreases s.len(),
{
    if from.len() == 0 || s.len() < from.len() {
        s
    } else if s.take(from.len() as int) == from {
        to + replaced(s.skip(from.len() as int), from, to)
    } else {
        seq![s[0]] + replaced(s.skip(1), from, to)
    }
}

/// Relies on `str::replace`: replaces all matches of a pattern, found left to
/// right without overlap.
#[verifier::external_body]
fn replace_all(s: &str, from: &str, to: &str) -> (r: String)
    requires
        from@.len() > 0,
    ensures
        r@ == replaced(s@, from@, to@),
{
    s.replace(from, to)
}

/// The markup of a simplified page after the rewrites for old browsers.
pub open spec fn rewritten(input: Seq<char>, base_path: Seq<char>) -> Seq<char> {
    let links = replaced(input, "href=\"http"@, "href=\""@ + base_path + "?url=http"@);
    let images = replaced(links, "src=\"http"@, "src=\"/convert.png?url=http"@);
    let bold = replaced(images, "strong>"@, "b>"@);
    replaced(bold, "em>"@, "i>"@)
}

/// Sends absolute links through the simplifier at `base_path` and images
/// through the converter, and turns `strong` into `b` and `em` into `i`.
pub fn replacements(input: String, base_path: String) -> (r: String)
    ensures
        r@ == rewritten(input@, base_path@),
{
    proof {
        reveal_strlit("href=\"http");
        reveal_strlit("src=\"http");
        reveal_strlit("strong>");
        reveal_strlit("em>");
    }
    let link_target = String::from_str("href=\"").concat(base_path.as_str()).concat("?url=http");
    let r = replace_all(input.as_str(), "href=\"http", link_target.as_str());
    let r = replace_all(r.as_str(), "src=\"http", "src=\"/convert.png?url=http");
    let r = replace_all(r.as_str(), "strong>", "b>");
    replace_all(r.as_str(), "em>", "i>")
}

} // verus!
