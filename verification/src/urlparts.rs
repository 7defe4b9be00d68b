//! The pieces of a parsed URL that the tracer and the download path read:
//! host, path, and query string.

use vstd::prelude::*;

verus! {

/// Whether a string parses as an absolute URL; stated only through the
/// trusted item below.
pub uninterp spec fn url_parse_ok(s: Seq<char>) -> bool;

/// The host part of a URL that parses; stated only through the trusted
/// item below.
pub uninterp spec fn url_host_of(s: Seq<char>) -> Option<Seq<char>>;

/// The path part of a URL that parses; stated only through the trusted
/// item below.
pub uninterp spec fn url_path_of(s: Seq<char>) -> Seq<char>;

/// The query part of a URL that parses; stated only through the trusted
/// item below.
pub uninterp spec fn url_query_of(s: Seq<char>) -> Option<Seq<char>>;

/// The parts of one parsed URL, as plain values.
#[derive(Debug, Clone, PartialEq, Eq)]
pub(crate) struct UrlParts {
    pub(crate) host: Option<String>,
    pub(crate) path: String,
    pub(crate) query: Option<String>,
}

/// Relies on url's `Url::parse` with its `host_str`, `path` and `query`
/// accessors: whether `s` parses, and each resulting part, are functions of
/// `s` alone.
#[verifier::external_body]
pub(crate) fn parse_url_parts(s: &str) -> (r: Option<UrlParts>)
    ensures
        match r {
            Some(p) => url_parse_ok(s@) && p.host.deep_view() == url_host_of(s@) && p.path@
                == url_path_of(s@) && p.query.deep_view() == url_query_of(s@),
            None => !url_parse_ok(s@),
        },
{
    match url::Url::parse(s) {
        Ok(u) => Some(
            UrlParts {
                host: u.host_str().map(|h| h.to_string()),
                path: u.path().to_string(),
                query: u.query().map(|q| q.to_string()),
            },
        ),
        Err(_) => None,
    }
}

} // verus!
