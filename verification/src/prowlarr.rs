//! Searching Prowlarr's indexers for a movie.
use vstd::prelude::*;
use crate::dinkdonk::pair_views;

verus! {

/// Prowlarr's search endpoint on this machine.
pub open spec fn prowlarr_search_endpoint() -> Seq<char> {
    "http://localhost:9696/api/v1/search"@
}

/// The query of a Prowlarr search for `term`: the key, the term, and the
/// movie category.
pub open spec fn prowlarr_params(api_key: Seq<char>, term: Seq<char>) -> Seq<(Seq<char>, Seq<char>)> {
    seq![("apikey"@, api_key), ("query"@, term), ("categories[]"@, "[2000]"@)]
}

/// What `url::Url::parse_with_params` makes of the address `base` and the
/// query pairs `pairs`, as text: `None` where `base` is no valid address.
pub uninterp spec fn url_with_query(base: Seq<char>, pairs: Seq<(Seq<char>, Seq<char>)>) -> Option<Seq<char>>;

/// Calls `reqwest::Url::parse_with_params` (the `url` crate's) and writes the
/// address out. The contract claims that the outcome is the one named by
/// `url_with_query`, a function of the address and the pairs alone; the
/// wording of the error is left unsaid.
#[verifier::external_body]
fn parse_url_with_params(base: &str, pairs: &Vec<(String, String)>) -> (r: Result<String, String>)
    ensures
        r is Err <==> url_with_query(base@, pair_views(pairs@)) is None,
        r matches Ok(u) ==> url_with_query(base@, pair_views(pairs@)) == Some(u@),
{
    match reqwest::Url::parse_with_params(base, pairs.iter()) {
        Ok(url) => Ok(url.to_string()),
        Err(e) => Err(e.to_string()),
    }
}

/// The address of a Prowlarr search for `term`, with the key `api_key`.
pub fn prowlarr_search_url(api_key: &str, term: &str) -> (r: Result<String, String>)
    ensures
        r is Err <==> url_with_query(prowlarr_search_endpoint(), prowlarr_params(api_key@, term@)) is None,
        r matches Ok(u) ==> url_with_query(prowlarr_search_endpoint(), prowlarr_params(api_key@, term@)) == Some(u@),
{
    let mut params: Vec<(String, String)> = Vec::new();
    params.push(("apikey".to_owned(), api_key.to_owned()));
    params.push(("query".to_owned(), term.to_owned()));
    params.push(("categories[]".to_owned(), "[2000]".to_owned()));
    assert(pair_views(params@) =~= prowlarr_params(api_key@, term@));
    parse_url_with_params("http://localhost:9696/api/v1/search", &params)
}

/// A Prowlarr search sends the key, then the whole term under "query", then
/// the movie category, and nothing else.
pub proof fn law_prowlarr_params(api_key: Seq<char>, term: Seq<char>)
    ensures
        prowlarr_params(api_key, term).len() == 3,
        prowlarr_params(api_key, term)[0] == ("apikey"@, api_key),
        prowlarr_params(api_key, term)[1] == ("query"@, term),
        prowlarr_params(api_key, term)[2] == ("categories[]"@, "[2000]"@),
{
}

} // verus!
