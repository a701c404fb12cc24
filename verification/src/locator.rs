//! Parsing of source locators (absolute URLs), delegated to the `url` crate.
use vstd::prelude::*;

verus! {

/// Whether `url::Url::parse` accepts `s` as an absolute URL.  The result
/// depends on the characters of `s` alone.
pub uninterp spec fn url_parse_ok(s: Seq<char>) -> bool;

/// The path portion (no scheme, host, query or fragment) of the absolute URL
/// written `s`, as `url::Url::path` returns it.  Defined only where
/// `url_parse_ok(s)` holds; a function of `s` alone.
pub uninterp spec fn url_path_of(s: Seq<char>) -> Seq<char>;

/// Relies on `url::Url::parse` and `url::Url::path`: parses an absolute URL
/// from a string and, on success, hands back the URL's path portion.  Both
/// results are functions of the input string alone.
#[verifier::external_body]
pub fn parse_url_path(s: &str) -> (r: Option<String>)
    ensures
        r is Some <==> url_parse_ok(s@),
        r is Some ==> r->0@ == url_path_of(s@),
{
    match url::Url::parse(s) {
        Ok(u) => Some(u.path().to_string()),
        Err(_) => None,
    }
}

/// Whether `s` is a syntactically valid absolute URL.
pub fn is_valid_url(s: &str) -> (r: bool)
    ensures
        r == url_parse_ok(s@),
{
    parse_url_path(s).is_some()
}

} // verus!
