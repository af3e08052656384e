//! Absolute URLs, parsed by the `url` crate (through `reqwest::Url`), as
//! plain parts.

use vstd::prelude::*;

verus! {

/// The parts of a parsed URL that the parsers read.
#[derive(Debug)]
pub struct UrlParts {
    /// The normalised text of the whole URL (`Url::as_str`).
    pub serialization: String,
    /// The scheme, such as `https` (`Url::scheme`).
    pub scheme: String,
    /// The host, where the URL has one (`Url::host_str`).
    pub host: Option<String>,
    /// The port, where one is given that is not the scheme's default
    /// (`Url::port`).
    pub port: Option<u16>,
    /// The path (`Url::path`).
    pub path: String,
}

/// Whether `Url::parse` accepts `raw` as an absolute URL.
pub uninterp spec fn url_accepts(raw: Seq<char>) -> bool;

/// `Url::as_str` of the URL parsed from `raw`.
pub uninterp spec fn url_serialization(raw: Seq<char>) -> Seq<char>;

/// `Url::scheme` of the URL parsed from `raw`.
pub uninterp spec fn url_scheme(raw: Seq<char>) -> Seq<char>;

/// `Url::host_str` of the URL parsed from `raw`.
pub uninterp spec fn url_host(raw: Seq<char>) -> Option<Seq<char>>;

/// `Url::port` of the URL parsed from `raw`.
pub uninterp spec fn url_port(raw: Seq<char>) -> Option<u16>;

/// `Url::path` of the URL parsed from `raw`.
pub uninterp spec fn url_path(raw: Seq<char>) -> Seq<char>;

/// `Url::parse(raw)`, reduced to its parts. The result is present exactly
/// where the crate accepts `raw`, and each part is the crate's accessor on the
/// parsed URL; what those accessors return is a function of `raw` that this
/// library names without stating it (the WHATWG URL rules).
#[verifier::external_body]
pub fn parse_url(raw: &str) -> (r: Option<UrlParts>)
    ensures
        r is Some <==> url_accepts(raw@),
        r matches Some(p) ==> {
            &&& p.serialization@ == url_serialization(raw@)
            &&& p.scheme@ == url_scheme(raw@)
            &&& p.port == url_port(raw@)
            &&& p.path@ == url_path(raw@)
            &&& match p.host {
                Some(h) => url_host(raw@) == Some(h@),
                None => url_host(raw@) is None,
            }
        },
{
    match reqwest::Url::parse(raw) {
        Ok(url) => Some(UrlParts {
            serialization: url.as_str().to_string(),
            scheme: url.scheme().to_string(),
            host: url.host_str().map(|h| h.to_string()),
            port: url.port(),
            path: url.path().to_string(),
        }),
        Err(_) => None,
    }
}

/// The text of the URL parsed from `base` after
/// `query_pairs_mut().append_pair(key, value)`.
pub uninterp spec fn url_with_query_pair(base: Seq<char>, key: Seq<char>, value: Seq<char>) -> Seq<
    char,
>;

/// Parses `base` and appends the query pair `key=value`, form-encoded, with
/// `Url::query_pairs_mut().append_pair`. The result is present exactly where
/// `Url::parse` accepts `base`; its text is the crate's serialisation, which
/// this library names without stating it.
#[verifier::external_body]
pub fn append_query_pair(base: &str, key: &str, value: &str) -> (r: Option<String>)
    ensures
        r is Some <==> url_accepts(base@),
        r matches Some(u) ==> u@ == url_with_query_pair(base@, key@, value@),
{
    match reqwest::Url::parse(base) {
        Ok(mut url) => {
            url.query_pairs_mut().append_pair(key, value);
            Some(url.to_string())
        },
        Err(_) => None,
    }
}

} // verus!
