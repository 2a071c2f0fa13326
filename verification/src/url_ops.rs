use vstd::prelude::*;

use url::Url;

verus! {

/// The serialization of `Url::parse(input)`, or, where the parser rejects
/// `input`, the text (`Display`) of its `url::ParseError`; both depend on the
/// text alone.
pub uninterp spec fn spec_url_parse(input: Seq<char>) -> Result<Seq<char>, Seq<char>>;

/// The serialization of `Url::parse(base)?.join(input)`, or the text of the
/// `url::ParseError` of the step that fails. The library only ever passes as
/// `base` the serialization of a URL that `Url::parse` produced, which parses
/// back to that same URL, so this is the join of that URL with `input`.
pub uninterp spec fn spec_url_join(base: Seq<char>, input: Seq<char>) -> Result<Seq<char>, Seq<char>>;

/// The last item of `Url::parse(url)?.path_segments()`, or `None` where the
/// URL does not parse or cannot be a base (it has no path segments). The
/// library only passes serializations of parsed URLs, which parse back to
/// the same URL.
pub uninterp spec fn spec_url_last_segment(url: Seq<char>) -> Option<Seq<char>>;

/// The parsed URL's serialization, where `input` parses.
pub open spec fn spec_url_parse_ok(input: Seq<char>) -> Option<Seq<char>> {
    match spec_url_parse(input) {
        Ok(u) => Some(u),
        Err(_) => None,
    }
}

/// The joined URL's serialization, where the join succeeds.
pub open spec fn spec_url_join_ok(base: Seq<char>, input: Seq<char>) -> Option<Seq<char>> {
    match spec_url_join(base, input) {
        Ok(u) => Some(u),
        Err(_) => None,
    }
}

/// Calls `url::Url::parse` and returns the serialization of the parsed URL,
/// or the text of the parser's error. Claimed: the outcome is
/// `spec_url_parse` of the input text, success and failure alike.
#[verifier::external_body]
pub(crate) fn url_parse(input: &str) -> (res: Result<String, String>)
    ensures
        res matches Ok(s) ==> (spec_url_parse(input@) matches Ok(u) && u == s@),
        res matches Err(e) ==> (spec_url_parse(input@) matches Err(t) && t == e@),
{
    Url::parse(input).map(String::from).map_err(|e| e.to_string())
}

/// Calls `url::Url::parse` on `base` and then `url::Url::join` with `input`,
/// returning the serialization of the joined URL, or the text of the error
/// of the step that fails. Claimed: the outcome is `spec_url_join(base,
/// input)`.
#[verifier::external_body]
pub(crate) fn url_join(base: &str, input: &str) -> (res: Result<String, String>)
    ensures
        res matches Ok(s) ==> (spec_url_join(base@, input@) matches Ok(u) && u == s@),
        res matches Err(e) ==> (spec_url_join(base@, input@) matches Err(t) && t == e@),
{
    let base = Url::parse(base).map_err(|e| e.to_string())?;
    base.join(input).map(String::from).map_err(|e| e.to_string())
}

/// Calls `url::Url::parse` and `url::Url::path_segments` and returns the last
/// segment. Claimed: the outcome is `spec_url_last_segment(url)`.
#[verifier::external_body]
pub(crate) fn url_last_segment(url: &str) -> (res: Option<String>)
    ensures
        res matches Some(s) ==> spec_url_last_segment(url@) == Some(s@),
        res is None ==> spec_url_last_segment(url@) is None,
{
    Url::parse(url).ok()?.path_segments()?.last().map(String::from)
}

} // verus!
