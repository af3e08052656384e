//! Liga Stavok session bootstrap: the header values read from bootstrap
//! artifacts (header profiles, storage states, discovery reports) and the
//! rules that keep only values that belong to the site.

use crate::json::{get, jget, text_of, u64_of, JsonNumber, JsonValue};
use crate::text::{
    before_char, ascii_lower_seq, ascii_lowercase, chars_of, dec_value, ends_with, has_prefix, has_suffix,
    is_digit, join, lemma_utf8_len, lex_less, lex_lt, normalize_whitespace, normalize_ws, owned,
    parse_digits_up_to, push_str, seq_eq, starts_with, string_of, strip_trailing, trim,
    trim_chars, trim_str, utf8_len,
};
use crate::url::{parse_url, url_accepts, url_host, url_scheme};
use crate::readiness::{
    check, check_of, check_views, DiagnosticSeverity, ParserReadiness, ParserReadinessStage,
    ReadinessView,
};
use crate::registry::BookmakerParser;
use vstd::prelude::*;

verus! {

/// Why the session bootstrap cannot yet carry unattended runtime traffic,
/// or that it can.
#[derive(Clone, Copy, Debug, PartialEq, Eq, Structural)]
pub enum SessionBootstrapBlocker {
    Ready,
    ProtectionOnlyUnverifiedApi,
    ProtectionOnly,
    HeaderOnly,
    BootstrapUnavailable,
}

impl SessionBootstrapBlocker {
    /// The label reports use.
    pub open spec fn label_text(self) -> Seq<char> {
        match self {
            SessionBootstrapBlocker::Ready => "ready"@,
            SessionBootstrapBlocker::ProtectionOnlyUnverifiedApi => "protection_only_unverified_api"@,
            SessionBootstrapBlocker::ProtectionOnly => "protection_only"@,
            SessionBootstrapBlocker::HeaderOnly => "header_only"@,
            SessionBootstrapBlocker::BootstrapUnavailable => "bootstrap_unavailable"@,
        }
    }

    /// The label reports use.
    pub fn label(self) -> (r: &'static str)
        ensures
            r@ == self.label_text(),
    {
        match self {
            SessionBootstrapBlocker::Ready => "ready",
            SessionBootstrapBlocker::ProtectionOnlyUnverifiedApi => "protection_only_unverified_api",
            SessionBootstrapBlocker::ProtectionOnly => "protection_only",
            SessionBootstrapBlocker::HeaderOnly => "header_only",
            SessionBootstrapBlocker::BootstrapUnavailable => "bootstrap_unavailable",
        }
    }
}

// ---------------------------------------------------------------------------
// Header values
// ---------------------------------------------------------------------------

/// A header value with its whitespace collapsed; none where nothing is left.
pub open spec fn header_value(s: Seq<char>) -> Option<Seq<char>> {
    if normalize_ws(s).len() == 0 {
        None
    } else {
        Some(normalize_ws(s))
    }
}

/// The words of `value` joined by single spaces, where there are any.
pub fn normalize_header_value(value: &str) -> (r: Option<String>)
    ensures
        match r {
            Some(x) => header_value(value@) == Some(x@),
            None => header_value(value@) is None,
        },
{
    let n = normalize_whitespace(value);
    if n.as_str().is_empty() {
        None
    } else {
        Some(n)
    }
}

fn ascii_lower_text(s: &str) -> (r: String)
    ensures
        r@ == ascii_lower_seq(s@),
{
    let v = chars_of(s);
    let l = ascii_lowercase(v.as_slice());
    string_of(l.as_slice())
}

fn text_ends_with(s: &str, p: &str) -> (r: bool)
    ensures
        r == has_suffix(s@, p@),
{
    let a = chars_of(s);
    let b = chars_of(p);
    ends_with(a.as_slice(), b.as_slice())
}

fn text_eq(a: &str, b: &str) -> (r: bool)
    ensures
        r == (a@ == b@),
{
    let x = chars_of(a);
    let y = chars_of(b);
    seq_eq(x.as_slice(), y.as_slice())
}

/// An origin of the site: the value trimmed and without trailing `/`, kept
/// where, in ASCII lowercase, it is `https://ligastavok.ru`,
/// `https://www.ligastavok.ru` or ends in `.ligastavok.ru`.
pub open spec fn origin_value(s: Seq<char>) -> Option<Seq<char>> {
    let n = strip_trailing(trim(s), '/');
    let h = ascii_lower_seq(n);
    if n.len() == 0 {
        None
    } else if h == "https://ligastavok.ru"@ || h == "https://www.ligastavok.ru"@ || has_suffix(
        h,
        ".ligastavok.ru"@,
    ) {
        Some(n)
    } else {
        None
    }
}

/// The value as an origin of the site, if it is one.
pub fn normalize_origin(value: &str) -> (r: Option<String>)
    ensures
        match r {
            Some(x) => origin_value(value@) == Some(x@),
            None => origin_value(value@) is None,
        },
{
    let t = trim_str(value);
    let ts = string_of(t.as_slice());
    let n = crate::text::strip_trailing_char(ts.as_str(), '/');
    if n.as_str().is_empty() {
        return None;
    }
    let host = ascii_lower_text(n.as_str());
    if text_eq(host.as_str(), "https://ligastavok.ru") || text_eq(
        host.as_str(),
        "https://www.ligastavok.ru",
    ) || text_ends_with(host.as_str(), ".ligastavok.ru") {
        Some(n)
    } else {
        None
    }
}

/// A referer of the site: the value trimmed, kept where it parses as a URL
/// with a host whose `scheme://host` is an origin of the site.
pub open spec fn referer_value(s: Seq<char>) -> Option<Seq<char>> {
    let n = trim(s);
    if n.len() == 0 || !url_accepts(n) {
        None
    } else {
        match url_host(n) {
            Some(h) => if origin_value(url_scheme(n) + "://"@ + h) is Some {
                Some(n)
            } else {
                None
            },
            None => None,
        }
    }
}

/// The value as a referer of the site, if it is one.
pub fn normalize_referer(value: &str) -> (r: Option<String>)
    ensures
        match r {
            Some(x) => referer_value(value@) == Some(x@),
            None => referer_value(value@) is None,
        },
{
    let t = trim_str(value);
    let n = string_of(t.as_slice());
    if n.as_str().is_empty() {
        return None;
    }
    let parts = match parse_url(n.as_str()) {
        Some(p) => p,
        None => return None,
    };
    let host = match parts.host {
        Some(h) => h,
        None => return None,
    };
    let mut origin = parts.scheme;
    push_str(&mut origin, "://");
    push_str(&mut origin, host.as_str());
    match normalize_origin(origin.as_str()) {
        Some(_) => Some(n),
        None => None,
    }
}

// ---------------------------------------------------------------------------
// Lookups by key paths
// ---------------------------------------------------------------------------

/// The keys of a path, as texts.
pub open spec fn key_texts(p: Seq<&str>) -> Seq<Seq<char>> {
    p.map_values(|k: &str| k@)
}

/// A list of key paths, as texts.
pub open spec fn key_paths(ps: Seq<Vec<&str>>) -> Seq<Seq<Seq<char>>> {
    ps.map_values(|p: Vec<&str>| key_texts(p@))
}

/// The value reached from `v` by following the keys of `path`.
pub open spec fn path_get(v: JsonValue, path: Seq<Seq<char>>) -> Option<JsonValue>
    decreases path.len(),
{
    if path.len() == 0 {
        Some(v)
    } else {
        match jget(v, path[0]) {
            Some(x) => path_get(x, path.drop_first()),
            None => None,
        }
    }
}

/// The first of `paths` that reaches a string value, that string.
pub open spec fn first_str_at(v: JsonValue, paths: Seq<Seq<Seq<char>>>) -> Option<Seq<char>>
    decreases paths.len(),
{
    if paths.len() == 0 {
        None
    } else {
        match path_get(v, paths[0]) {
            Some(JsonValue::Str(s)) => Some(s@),
            _ => first_str_at(v, paths.drop_first()),
        }
    }
}

/// The value that the first of `paths` to reach anything reaches.
pub open spec fn first_value_at(v: JsonValue, paths: Seq<Seq<Seq<char>>>) -> Option<JsonValue>
    decreases paths.len(),
{
    if paths.len() == 0 {
        None
    } else {
        match path_get(v, paths[0]) {
            Some(x) => Some(x),
            None => first_value_at(v, paths.drop_first()),
        }
    }
}

/// An HTTP status recorded as a JSON integer: present where it is a
/// non-zero `u16`.
pub open spec fn probe_status(o: Option<JsonValue>) -> Option<u16> {
    match u64_of(o) {
        Some(n) => if 0 < n && n <= 0xFFFF {
            Some(n as u16)
        } else {
            None
        },
        None => None,
    }
}

/// The value reached from `v` by following `path`.
pub fn path_value<'a>(v: &'a JsonValue, path: &Vec<&str>) -> (r: Option<&'a JsonValue>)
    ensures
        match r {
            Some(x) => path_get(*v, key_texts(path@)) == Some(*x),
            None => path_get(*v, key_texts(path@)) is None,
        },
{
    let mut cur = v;
    let mut i: usize = 0;
    assert(key_texts(path@).skip(0) =~= key_texts(path@));
    while i < path.len()
        invariant
            i <= path@.len(),
            path_get(*v, key_texts(path@)) == path_get(*cur, key_texts(path@).skip(i as int)),
        decreases path@.len() - i,
    {
        let ghost rest = key_texts(path@).skip(i as int);
        assert(rest[0] == path@[i as int]@);
        assert(rest.drop_first() =~= key_texts(path@).skip(i + 1));
        match get(cur, path[i]) {
            Some(x) => {
                cur = x;
            },
            None => {
                return None;
            },
        }
        i = i + 1;
    }
    Some(cur)
}

/// The string at the first of `paths` that reaches a string.
pub fn extract_first_str(value: &JsonValue, paths: &Vec<Vec<&str>>) -> (r: Option<String>)
    ensures
        match r {
            Some(x) => first_str_at(*value, key_paths(paths@)) == Some(x@),
            None => first_str_at(*value, key_paths(paths@)) is None,
        },
{
    let mut i: usize = 0;
    assert(key_paths(paths@).skip(0) =~= key_paths(paths@));
    while i < paths.len()
        invariant
            i <= paths@.len(),
            first_str_at(*value, key_paths(paths@)) == first_str_at(
                *value,
                key_paths(paths@).skip(i as int),
            ),
        decreases paths@.len() - i,
    {
        let ghost rest = key_paths(paths@).skip(i as int);
        assert(rest[0] == key_texts(paths@[i as int]@));
        assert(rest.drop_first() =~= key_paths(paths@).skip(i + 1));
        match path_value(value, &paths[i]) {
            Some(JsonValue::Str(s)) => {
                return Some(s.clone());
            },
            _ => {},
        }
        i = i + 1;
    }
    None
}

/// The value at the first of `paths` that reaches anything.
pub fn extract_first_value<'a>(value: &'a JsonValue, paths: &Vec<Vec<&str>>) -> (r: Option<
    &'a JsonValue,
>)
    ensures
        match r {
            Some(x) => first_value_at(*value, key_paths(paths@)) == Some(*x),
            None => first_value_at(*value, key_paths(paths@)) is None,
        },
{
    let mut i: usize = 0;
    assert(key_paths(paths@).skip(0) =~= key_paths(paths@));
    while i < paths.len()
        invariant
            i <= paths@.len(),
            first_value_at(*value, key_paths(paths@)) == first_value_at(
                *value,
                key_paths(paths@).skip(i as int),
            ),
        decreases paths@.len() - i,
    {
        let ghost rest = key_paths(paths@).skip(i as int);
        assert(rest[0] == key_texts(paths@[i as int]@));
        assert(rest.drop_first() =~= key_paths(paths@).skip(i + 1));
        match path_value(value, &paths[i]) {
            Some(x) => {
                return Some(x);
            },
            None => {},
        }
        i = i + 1;
    }
    None
}

/// A recorded HTTP status, where it is a non-zero `u16`.
pub fn status_of(o: Option<&JsonValue>) -> (r: Option<u16>)
    ensures
        r == probe_status(match o {
            Some(x) => Some(*x),
            None => None,
        }),
{
    match o {
        Some(JsonValue::Number(JsonNumber::PosInt(n))) => {
            if 0 < *n && *n <= 0xFFFF {
                Some(*n as u16)
            } else {
                None
            }
        },
        _ => None,
    }
}

/// The status at the first of `paths` that reaches anything, where it is a
/// non-zero `u16`.
pub fn extract_first_u16(value: &JsonValue, paths: &Vec<Vec<&str>>) -> (r: Option<u16>)
    ensures
        r == probe_status(first_value_at(*value, key_paths(paths@))),
{
    status_of(extract_first_value(value, paths))
}

// ---------------------------------------------------------------------------
// Header profile
// ---------------------------------------------------------------------------

/// The header values a bootstrap artifact records for browser navigation
/// and for API calls, with the probe statuses it saw.
#[derive(Debug)]
pub struct HeaderProfile {
    pub accept_language: Option<String>,
    pub origin: Option<String>,
    pub referer: Option<String>,
    pub api_accept_language: Option<String>,
    pub api_origin: Option<String>,
    pub api_referer: Option<String>,
    pub browser_verified_api_probe_status: Option<u16>,
    pub direct_probe_status: Option<u16>,
}

/// A text option, as plain values.
pub open spec fn opt_view(o: Option<String>) -> Option<Seq<char>> {
    match o {
        Some(s) => Some(s@),
        None => None,
    }
}

/// The first of two lookups that finds something.
pub open spec fn or_else(a: Option<JsonValue>, b: Option<JsonValue>) -> Option<JsonValue> {
    match a {
        Some(x) => Some(x),
        None => b,
    }
}

/// A member of an optional object.
pub open spec fn jget_opt(o: Option<JsonValue>, key: Seq<char>) -> Option<JsonValue> {
    match o {
        Some(v) => jget(v, key),
        None => None,
    }
}

/// A string value, made a header value.
pub open spec fn header_of(o: Option<JsonValue>) -> Option<Seq<char>> {
    match text_of(o) {
        Some(t) => header_value(t),
        None => None,
    }
}

/// A string value, made an origin of the site.
pub open spec fn origin_of_value(o: Option<JsonValue>) -> Option<Seq<char>> {
    match text_of(o) {
        Some(t) => origin_value(t),
        None => None,
    }
}

/// A string value, made a referer of the site.
pub open spec fn referer_of_value(o: Option<JsonValue>) -> Option<Seq<char>> {
    match text_of(o) {
        Some(t) => referer_value(t),
        None => None,
    }
}

/// Where a profile's values sit: `headerProfile`, else `header_profile`,
/// else the artifact itself.
pub open spec fn profile_root(v: JsonValue) -> JsonValue {
    match or_else(jget(v, "headerProfile"@), jget(v, "header_profile"@)) {
        Some(r) => r,
        None => v,
    }
}

/// The root's `headers`, else the root.
pub open spec fn profile_headers(v: JsonValue) -> JsonValue {
    match jget(profile_root(v), "headers"@) {
        Some(h) => h,
        None => profile_root(v),
    }
}

/// The root's `extraHTTPHeaders`, else the artifact's, else the headers.
pub open spec fn profile_extra(v: JsonValue) -> JsonValue {
    match or_else(jget(profile_root(v), "extraHTTPHeaders"@), jget(v, "extraHTTPHeaders"@)) {
        Some(e) => e,
        None => profile_headers(v),
    }
}

/// The API headers: `api_headers` or `apiHeaders`, of the root, then of the
/// artifact.
pub open spec fn profile_api(v: JsonValue) -> Option<JsonValue> {
    or_else(
        or_else(jget(profile_root(v), "api_headers"@), jget(profile_root(v), "apiHeaders"@)),
        or_else(jget(v, "api_headers"@), jget(v, "apiHeaders"@)),
    )
}

/// The paths where a browser-verified API probe status may be recorded.
pub open spec fn browser_probe_paths() -> Seq<Seq<Seq<char>>> {
    seq![
        seq!["headerProfile"@, "browser_verified_api_probe_status"@],
        seq!["headerProfile"@, "browserVerifiedApiProbeStatus"@],
        seq!["headerProfile"@, "browser_verified_api_probe"@, "status"@],
        seq!["headerProfile"@, "browserVerifiedApiProbe"@, "status"@],
        seq!["browser_verified_api_probe_status"@],
        seq!["browserVerifiedApiProbeStatus"@],
        seq!["browser_verified_api_probe"@, "status"@],
        seq!["browserVerifiedApiProbe"@, "status"@],
        seq!["runtimeBootstrap"@, "browser_verified_api_probe_status"@],
        seq!["runtimeBootstrap"@, "browserVerifiedApiProbeStatus"@],
        seq!["runtimeBootstrap"@, "browser_verified_api_probe"@, "status"@],
        seq!["runtimeBootstrap"@, "browserVerifiedApiProbe"@, "status"@],
        seq!["status"@, "browser_verified_api_probe_status"@],
        seq!["status"@, "browserVerifiedApiProbeStatus"@],
    ]
}

fn browser_probe_path_list() -> (r: Vec<Vec<&'static str>>)
    ensures
        key_paths(r@) == browser_probe_paths(),
{
    let r = vec![
        vec!["headerProfile", "browser_verified_api_probe_status"],
        vec!["headerProfile", "browserVerifiedApiProbeStatus"],
        vec!["headerProfile", "browser_verified_api_probe", "status"],
        vec!["headerProfile", "browserVerifiedApiProbe", "status"],
        vec!["browser_verified_api_probe_status"],
        vec!["browserVerifiedApiProbeStatus"],
        vec!["browser_verified_api_probe", "status"],
        vec!["browserVerifiedApiProbe", "status"],
        vec!["runtimeBootstrap", "browser_verified_api_probe_status"],
        vec!["runtimeBootstrap", "browserVerifiedApiProbeStatus"],
        vec!["runtimeBootstrap", "browser_verified_api_probe", "status"],
        vec!["runtimeBootstrap", "browserVerifiedApiProbe", "status"],
        vec!["status", "browser_verified_api_probe_status"],
        vec!["status", "browserVerifiedApiProbeStatus"],
    ];
    assert(key_paths(r@) =~~= browser_probe_paths());
    r
}

/// The direct probe status: `direct_probe_status` or `directProbeStatus`,
/// of the root, then of the artifact, then of its `status`.
pub open spec fn direct_probe_of(v: JsonValue) -> Option<u16> {
    let root = profile_root(v);
    probe_status(
        or_else(
            or_else(
                or_else(jget(root, "direct_probe_status"@), jget(root, "directProbeStatus"@)),
                or_else(jget(v, "direct_probe_status"@), jget(v, "directProbeStatus"@)),
            ),
            or_else(
                jget_opt(jget(v, "status"@), "direct_probe_status"@),
                jget_opt(jget(v, "status"@), "directProbeStatus"@),
            ),
        ),
    )
}

/// Whether `p` holds exactly the header profile that the artifact `v`
/// records: each value is looked up in its places in order, the first place
/// that has it decides, and only values that belong to the site are kept.
pub open spec fn profile_from(p: HeaderProfile, v: JsonValue) -> bool {
    let extra = profile_extra(v);
    let headers = profile_headers(v);
    let api = profile_api(v);
    &&& opt_view(p.accept_language) == header_of(
        or_else(
            or_else(jget(extra, "accept-language"@), jget(extra, "Accept-Language"@)),
            or_else(
                jget(headers, "acceptLanguage"@),
                or_else(jget(headers, "accept_language"@), jget(headers, "locale"@)),
            ),
        ),
    )
    &&& opt_view(p.origin) == origin_of_value(
        or_else(
            or_else(jget(extra, "origin"@), jget(extra, "Origin"@)),
            or_else(jget(headers, "origin"@), jget(headers, "baseUrl"@)),
        ),
    )
    &&& opt_view(p.referer) == referer_of_value(
        or_else(
            or_else(jget(extra, "referer"@), jget(extra, "Referer"@)),
            or_else(jget(headers, "referer"@), jget(headers, "referrer"@)),
        ),
    )
    &&& opt_view(p.api_accept_language) == header_of(
        or_else(jget_opt(api, "accept-language"@), jget_opt(api, "Accept-Language"@)),
    )
    &&& opt_view(p.api_origin) == origin_of_value(
        or_else(jget_opt(api, "origin"@), jget_opt(api, "Origin"@)),
    )
    &&& opt_view(p.api_referer) == referer_of_value(
        or_else(jget_opt(api, "referer"@), jget_opt(api, "Referer"@)),
    )
    &&& p.direct_probe_status == direct_probe_of(v)
    &&& p.browser_verified_api_probe_status == probe_status(
        first_value_at(v, browser_probe_paths()),
    )
}

/// Whether a profile records nothing.
pub open spec fn profile_is_empty(p: HeaderProfile) -> bool {
    &&& p.accept_language is None
    &&& p.origin is None
    &&& p.referer is None
    &&& p.api_accept_language is None
    &&& p.api_origin is None
    &&& p.api_referer is None
    &&& p.browser_verified_api_probe_status is None
    &&& p.direct_probe_status is None
}

/// The first of two lookups that finds something.
pub fn first_of<'a>(a: Option<&'a JsonValue>, b: Option<&'a JsonValue>) -> (r: Option<&'a JsonValue>)
    ensures
        match r {
            Some(x) => or_else(
                match a {
                    Some(y) => Some(*y),
                    None => None,
                },
                match b {
                    Some(y) => Some(*y),
                    None => None,
                },
            ) == Some(*x),
            None => a is None && b is None,
        },
{
    match a {
        Some(x) => Some(x),
        None => b,
    }
}

/// A member of an optional object.
pub fn get_opt<'a>(o: Option<&'a JsonValue>, key: &str) -> (r: Option<&'a JsonValue>)
    ensures
        match r {
            Some(x) => jget_opt(
                match o {
                    Some(y) => Some(*y),
                    None => None,
                },
                key@,
            ) == Some(*x),
            None => jget_opt(
                match o {
                    Some(y) => Some(*y),
                    None => None,
                },
                key@,
            ) is None,
        },
{
    match o {
        Some(v) => get(v, key),
        None => None,
    }
}

/// A looked-up string, made a header value.
fn header_from(o: Option<&JsonValue>) -> (r: Option<String>)
    ensures
        opt_view(r) == header_of(
            match o {
                Some(x) => Some(*x),
                None => None,
            },
        ),
{
    match o {
        Some(JsonValue::Str(s)) => normalize_header_value(s.as_str()),
        _ => None,
    }
}

/// A looked-up string, made an origin of the site.
fn origin_from(o: Option<&JsonValue>) -> (r: Option<String>)
    ensures
        opt_view(r) == origin_of_value(
            match o {
                Some(x) => Some(*x),
                None => None,
            },
        ),
{
    match o {
        Some(JsonValue::Str(s)) => normalize_origin(s.as_str()),
        _ => None,
    }
}

/// A looked-up string, made a referer of the site.
fn referer_from(o: Option<&JsonValue>) -> (r: Option<String>)
    ensures
        opt_view(r) == referer_of_value(
            match o {
                Some(x) => Some(*x),
                None => None,
            },
        ),
{
    match o {
        Some(JsonValue::Str(s)) => normalize_referer(s.as_str()),
        _ => None,
    }
}

/// The accept-language, origin and referer for page navigation.
fn page_header_values(value: &JsonValue) -> (r: (Option<String>, Option<String>, Option<String>))
    ensures
        ({
            let extra = profile_extra(*value);
            let headers = profile_headers(*value);
            &&& opt_view(r.0) == header_of(
                or_else(
                    or_else(jget(extra, "accept-language"@), jget(extra, "Accept-Language"@)),
                    or_else(
                        jget(headers, "acceptLanguage"@),
                        or_else(jget(headers, "accept_language"@), jget(headers, "locale"@)),
                    ),
                ),
            )
            &&& opt_view(r.1) == origin_of_value(
                or_else(
                    or_else(jget(extra, "origin"@), jget(extra, "Origin"@)),
                    or_else(jget(headers, "origin"@), jget(headers, "baseUrl"@)),
                ),
            )
            &&& opt_view(r.2) == referer_of_value(
                or_else(
                    or_else(jget(extra, "referer"@), jget(extra, "Referer"@)),
                    or_else(jget(headers, "referer"@), jget(headers, "referrer"@)),
                ),
            )
        }),
{
    let root = match first_of(get(value, "headerProfile"), get(value, "header_profile")) {
        Some(r) => r,
        None => value,
    };
    let headers = match get(root, "headers") {
        Some(h) => h,
        None => root,
    };
    let extra = match first_of(get(root, "extraHTTPHeaders"), get(value, "extraHTTPHeaders")) {
        Some(e) => e,
        None => headers,
    };
    assert(*root == profile_root(*value));
    assert(*headers == profile_headers(*value));
    assert(*extra == profile_extra(*value));
    let accept_language = header_from(
        first_of(
            first_of(get(extra, "accept-language"), get(extra, "Accept-Language")),
            first_of(
                get(headers, "acceptLanguage"),
                first_of(get(headers, "accept_language"), get(headers, "locale")),
            ),
        ),
    );
    let origin = origin_from(
        first_of(
            first_of(get(extra, "origin"), get(extra, "Origin")),
            first_of(get(headers, "origin"), get(headers, "baseUrl")),
        ),
    );
    let referer = referer_from(
        first_of(
            first_of(get(extra, "referer"), get(extra, "Referer")),
            first_of(get(headers, "referer"), get(headers, "referrer")),
        ),
    );
    (accept_language, origin, referer)
}

/// The accept-language, origin and referer for API calls.
fn api_header_values(value: &JsonValue) -> (r: (Option<String>, Option<String>, Option<String>))
    ensures
        ({
            let api = profile_api(*value);
            &&& opt_view(r.0) == header_of(
                or_else(jget_opt(api, "accept-language"@), jget_opt(api, "Accept-Language"@)),
            )
            &&& opt_view(r.1) == origin_of_value(
                or_else(jget_opt(api, "origin"@), jget_opt(api, "Origin"@)),
            )
            &&& opt_view(r.2) == referer_of_value(
                or_else(jget_opt(api, "referer"@), jget_opt(api, "Referer"@)),
            )
        }),
{
    let root = match first_of(get(value, "headerProfile"), get(value, "header_profile")) {
        Some(r) => r,
        None => value,
    };
    assert(*root == profile_root(*value));
    let api = first_of(
        first_of(get(root, "api_headers"), get(root, "apiHeaders")),
        first_of(get(value, "api_headers"), get(value, "apiHeaders")),
    );
    let api_accept_language = header_from(
        first_of(get_opt(api, "accept-language"), get_opt(api, "Accept-Language")),
    );
    let api_origin = origin_from(first_of(get_opt(api, "origin"), get_opt(api, "Origin")));
    let api_referer = referer_from(first_of(get_opt(api, "referer"), get_opt(api, "Referer")));
    (api_accept_language, api_origin, api_referer)
}

/// The direct probe status an artifact records.
fn direct_probe_value(value: &JsonValue) -> (r: Option<u16>)
    ensures
        r == direct_probe_of(*value),
{
    let root = match first_of(get(value, "headerProfile"), get(value, "header_profile")) {
        Some(r) => r,
        None => value,
    };
    assert(*root == profile_root(*value));
    let status = get(value, "status");
    status_of(
        first_of(
            first_of(
                first_of(get(root, "direct_probe_status"), get(root, "directProbeStatus")),
                first_of(get(value, "direct_probe_status"), get(value, "directProbeStatus")),
            ),
            first_of(get_opt(status, "direct_probe_status"), get_opt(status, "directProbeStatus")),
        ),
    )
}

/// The header profile that a bootstrap artifact records, where it records
/// any value.
pub fn extract_header_profile(value: &JsonValue) -> (r: Option<HeaderProfile>)
    ensures
        match r {
            Some(p) => profile_from(p, *value) && !profile_is_empty(p),
            None => exists|p: HeaderProfile| profile_from(p, *value) && profile_is_empty(p),
        },
{
    let (accept_language, origin, referer) = page_header_values(value);
    let (api_accept_language, api_origin, api_referer) = api_header_values(value);
    let direct_probe_status = direct_probe_value(value);
    let paths = browser_probe_path_list();
    let browser_verified_api_probe_status = extract_first_u16(value, &paths);
    let p = HeaderProfile {
        accept_language,
        origin,
        referer,
        api_accept_language,
        api_origin,
        api_referer,
        browser_verified_api_probe_status,
        direct_probe_status,
    };
    assert(profile_from(p, *value));
    if p.accept_language.is_none() && p.origin.is_none() && p.referer.is_none()
        && p.api_accept_language.is_none() && p.api_origin.is_none() && p.api_referer.is_none()
        && p.browser_verified_api_probe_status.is_none() && p.direct_probe_status.is_none() {
        assert(profile_is_empty(p));
        None
    } else {
        Some(p)
    }
}

// ---------------------------------------------------------------------------
// Cookies
// ---------------------------------------------------------------------------

/// A non-empty run of ASCII digits.
pub open spec fn all_digits(s: Seq<char>) -> bool {
    s.len() > 0 && forall|k: int| 0 <= k < s.len() ==> is_digit(#[trigger] s[k])
}

/// `i64::from_str`: an optional `+` or `-`, then ASCII digits, in range.
pub open spec fn i64_text(s: Seq<char>) -> Option<i64> {
    if s.len() > 0 && s[0] == '-' && all_digits(s.drop_first()) {
        if dec_value(s.drop_first()) <= 0x8000_0000_0000_0000nat {
            Some((0 - dec_value(s.drop_first())) as i64)
        } else {
            None
        }
    } else if s.len() > 0 && s[0] == '+' && all_digits(s.drop_first()) {
        if dec_value(s.drop_first()) <= 0x7FFF_FFFF_FFFF_FFFFnat {
            Some(dec_value(s.drop_first()) as i64)
        } else {
            None
        }
    } else if all_digits(s) {
        if dec_value(s) <= 0x7FFF_FFFF_FFFF_FFFFnat {
            Some(dec_value(s) as i64)
        } else {
            None
        }
    } else {
        None
    }
}

fn digits_only(s: &[char]) -> (r: bool)
    ensures
        r == all_digits(s@),
{
    if s.len() == 0 {
        return false;
    }
    let mut i: usize = 0;
    while i < s.len()
        invariant
            i <= s@.len(),
            forall|k: int| 0 <= k < i ==> is_digit(#[trigger] s@[k]),
        decreases s@.len() - i,
    {
        if !(s[i] >= '0' && s[i] <= '9') {
            return false;
        }
        i = i + 1;
    }
    true
}

/// Parses `s` as an `i64` (`str::parse::<i64>`).
pub fn parse_i64_text(s: &str) -> (r: Option<i64>)
    ensures
        r == i64_text(s@),
{
    let v = chars_of(s);
    if v.len() > 0 && (v[0] == '-' || v[0] == '+') {
        let neg = v[0] == '-';
        let mut rest: Vec<char> = Vec::new();
        let mut i: usize = 1;
        while i < v.len()
            invariant
                1 <= i <= v@.len(),
                rest@ == v@.subrange(1, i as int),
            decreases v@.len() - i,
        {
            rest.push(v[i]);
            i = i + 1;
        }
        assert(rest@ =~= s@.drop_first());
        if !digits_only(rest.as_slice()) {
            return None;
        }
        if neg {
            match parse_digits_up_to(rest.as_slice(), 0x8000_0000_0000_0000u64) {
                Some(n) => if n == 0x8000_0000_0000_0000u64 {
                    Some(i64::MIN)
                } else {
                    Some(-(n as i64))
                },
                None => None,
            }
        } else {
            match parse_digits_up_to(rest.as_slice(), 0x7FFF_FFFF_FFFF_FFFFu64) {
                Some(n) => Some(n as i64),
                None => None,
            }
        }
    } else {
        if !digits_only(v.as_slice()) {
            return None;
        }
        match parse_digits_up_to(v.as_slice(), 0x7FFF_FFFF_FFFF_FFFFu64) {
            Some(n) => Some(n as i64),
            None => None,
        }
    }
}

/// `s` without its leading run of `c` (`str::trim_start_matches(c)`).
pub open spec fn strip_leading(s: Seq<char>, c: char) -> Seq<char>
    decreases s.len(),
{
    if s.len() > 0 && s[0] == c {
        strip_leading(s.drop_first(), c)
    } else {
        s
    }
}

/// The characters of `s` without their leading run of `c`.
pub fn strip_leading_chars(s: &[char], c: char) -> (r: Vec<char>)
    ensures
        r@ == strip_leading(s@, c),
{
    let mut i: usize = 0;
    assert(s@.skip(0) =~= s@);
    while i < s.len() && s[i] == c
        invariant
            i <= s@.len(),
            strip_leading(s@, c) == strip_leading(s@.skip(i as int), c),
        decreases s@.len() - i,
    {
        assert(s@.skip(i as int).drop_first() =~= s@.skip(i + 1));
        i = i + 1;
    }
    let mut r: Vec<char> = Vec::new();
    let mut k: usize = i;
    while k < s.len()
        invariant
            i <= k <= s@.len(),
            r@ == s@.subrange(i as int, k as int),
        decreases s@.len() - k,
    {
        r.push(s[k]);
        k = k + 1;
    }
    assert(r@ =~= s@.skip(i as int));
    r
}

/// Whether a cookie's domain and path can belong to the site: the domain,
/// trimmed, without leading dots and in ASCII lowercase, is empty,
/// `ligastavok.ru` or a subdomain of it; the trimmed path is empty or
/// starts with `/`.
pub open spec fn matches_target(domain: Seq<char>, path: Seq<char>) -> bool {
    let d = ascii_lower_seq(strip_leading(trim(domain), '.'));
    let p = trim(path);
    (d.len() == 0 || d == "ligastavok.ru"@ || has_suffix(d, ".ligastavok.ru"@)) && (p.len() == 0
        || p == "/"@ || has_prefix(p, "/"@))
}

/// Whether a cookie's domain and path can belong to the site.
pub fn cookie_matches_target(domain: &str, path: &str) -> (r: bool)
    ensures
        r == matches_target(domain@, path@),
{
    let t = trim_str(domain);
    let stripped = strip_leading_chars(t.as_slice(), '.');
    let d = ascii_lowercase(stripped.as_slice());
    let p = trim_str(path);
    let site: Vec<char> = chars_of("ligastavok.ru");
    let sub: Vec<char> = chars_of(".ligastavok.ru");
    let slash: Vec<char> = chars_of("/");
    let domain_ok = d.len() == 0 || seq_eq(d.as_slice(), site.as_slice()) || ends_with(
        d.as_slice(),
        sub.as_slice(),
    );
    let path_ok = p.len() == 0 || seq_eq(p.as_slice(), slash.as_slice()) || starts_with(
        p.as_slice(),
        slash.as_slice(),
    );
    domain_ok && path_ok
}

/// A cookie of the session bootstrap.
#[derive(Debug)]
pub struct BootstrapCookie {
    pub name: String,
    pub value: String,
    pub domain: String,
    pub path: String,
    pub expires: Option<i64>,
    pub secure: bool,
    pub host_only: bool,
}

/// A cookie as plain values.
pub struct CookieView {
    pub name: Seq<char>,
    pub value: Seq<char>,
    pub domain: Seq<char>,
    pub path: Seq<char>,
    pub expires: Option<i64>,
    pub secure: bool,
    pub host_only: bool,
}

impl View for BootstrapCookie {
    type V = CookieView;

    open spec fn view(&self) -> CookieView {
        CookieView {
            name: self.name@,
            value: self.value@,
            domain: self.domain@,
            path: self.path@,
            expires: self.expires,
            secure: self.secure,
            host_only: self.host_only,
        }
    }
}

/// `as_i64()`, else a string parsed as an `i64`.
pub open spec fn expires_of(o: Option<JsonValue>) -> Option<i64> {
    match o {
        Some(JsonValue::Number(JsonNumber::PosInt(n))) => if n <= 0x7FFF_FFFF_FFFF_FFFFu64 {
            Some(n as i64)
        } else {
            None
        },
        Some(JsonValue::Number(JsonNumber::NegInt(k))) => Some(k),
        Some(JsonValue::Str(s)) => i64_text(s@),
        _ => None,
    }
}

/// The cookie that a storage-state cookie record `c` gives at `now`
/// (seconds since the epoch): name and value trimmed and non-empty, domain
/// (by default `www.ligastavok.ru`) trimmed and in ASCII lowercase, path (by
/// default `/`) trimmed, both belonging to the site, not expired (an
/// expiry at or below zero never expires); `secure` by default, host-only
/// where so marked or, unmarked, where no domain is given.
pub open spec fn parsed_cookie(c: JsonValue, now: i64) -> Option<CookieView> {
    match (text_of(jget(c, "name"@)), text_of(jget(c, "value"@))) {
        (Some(n0), Some(v0)) => {
            let name = trim(n0);
            let value = trim(v0);
            let domain = ascii_lower_seq(
                trim(
                    match text_of(jget(c, "domain"@)) {
                        Some(d) => d,
                        None => "www.ligastavok.ru"@,
                    },
                ),
            );
            let path = trim(
                match text_of(jget(c, "path"@)) {
                    Some(p) => p,
                    None => "/"@,
                },
            );
            let expires = expires_of(jget(c, "expires"@));
            let secure = match jget(c, "secure"@) {
                Some(JsonValue::Bool(b)) => b,
                _ => true,
            };
            let host_only = match jget(c, "hostOnly"@) {
                Some(JsonValue::Bool(b)) => b,
                _ => jget(c, "domain"@) is None,
            };
            if name.len() == 0 || value.len() == 0 || !matches_target(domain, path) {
                None
            } else if expires matches Some(e) && e > 0 && e <= now {
                None
            } else {
                Some(
                    CookieView {
                        name,
                        value,
                        domain,
                        path: if path.len() == 0 {
                            "/"@
                        } else {
                            path
                        },
                        expires,
                        secure,
                        host_only,
                    },
                )
            }
        },
        _ => None,
    }
}

fn expires_field(c: &JsonValue) -> (r: Option<i64>)
    ensures
        r == expires_of(jget(*c, "expires"@)),
{
    match get(c, "expires") {
        Some(JsonValue::Number(JsonNumber::PosInt(n))) => if *n <= 0x7FFF_FFFF_FFFF_FFFFu64 {
            Some(*n as i64)
        } else {
            None
        },
        Some(JsonValue::Number(JsonNumber::NegInt(k))) => Some(*k),
        Some(JsonValue::Str(s)) => parse_i64_text(s.as_str()),
        _ => None,
    }
}

/// The cookie that a storage-state cookie record gives at `now` (seconds
/// since the epoch), if it is one of the site's and has not expired.
pub fn parse_bootstrap_cookie(cookie: &JsonValue, now: i64) -> (r: Option<BootstrapCookie>)
    ensures
        match r {
            Some(c) => parsed_cookie(*cookie, now) == Some(c@),
            None => parsed_cookie(*cookie, now) is None,
        },
{
    let (n0, v0) = match (get(cookie, "name"), get(cookie, "value")) {
        (Some(JsonValue::Str(n)), Some(JsonValue::Str(v))) => (n, v),
        _ => return None,
    };
    let name = string_of(trim_str(n0.as_str()).as_slice());
    let value = string_of(trim_str(v0.as_str()).as_slice());
    let domain_raw = match get(cookie, "domain") {
        Some(JsonValue::Str(d)) => d.as_str(),
        _ => "www.ligastavok.ru",
    };
    let dt = trim_str(domain_raw);
    let dl = ascii_lowercase(dt.as_slice());
    let domain = string_of(dl.as_slice());
    let path_raw = match get(cookie, "path") {
        Some(JsonValue::Str(p)) => p.as_str(),
        _ => "/",
    };
    let path = string_of(trim_str(path_raw).as_slice());
    let expires = expires_field(cookie);
    let secure = match get(cookie, "secure") {
        Some(JsonValue::Bool(b)) => *b,
        _ => true,
    };
    let host_only = match get(cookie, "hostOnly") {
        Some(JsonValue::Bool(b)) => *b,
        _ => get(cookie, "domain").is_none(),
    };
    if name.as_str().is_empty() || value.as_str().is_empty() || !cookie_matches_target(
        domain.as_str(),
        path.as_str(),
    ) {
        return None;
    }
    match expires {
        Some(e) => {
            if e > 0 && e <= now {
                return None;
            }
        },
        None => {},
    }
    let path = if path.as_str().is_empty() {
        owned("/")
    } else {
        path
    };
    Some(BootstrapCookie { name, value, domain, path, expires, secure, host_only })
}

/// The views of a list of cookies.
pub open spec fn cookie_views(s: Seq<BootstrapCookie>) -> Seq<CookieView> {
    s.map_values(|c: BootstrapCookie| c@)
}

/// The cookies that the records `cs` give at `now`, in order.
pub open spec fn parsed_cookies(cs: Seq<JsonValue>, now: i64) -> Seq<CookieView>
    decreases cs.len(),
{
    if cs.len() == 0 {
        Seq::empty()
    } else {
        let rest = parsed_cookies(cs.drop_last(), now);
        match parsed_cookie(cs.last(), now) {
            Some(c) => rest.push(c),
            None => rest,
        }
    }
}

/// The cookies that the records `cookies` give at `now`, in order.
pub fn parse_bootstrap_cookies(cookies: &Vec<JsonValue>, now: i64) -> (r: Vec<BootstrapCookie>)
    ensures
        cookie_views(r@) == parsed_cookies(cookies@, now),
{
    let mut out: Vec<BootstrapCookie> = Vec::new();
    let mut i: usize = 0;
    assert(cookies@.take(0) =~= Seq::<JsonValue>::empty());
    assert(cookie_views(out@) =~= Seq::<CookieView>::empty());
    while i < cookies.len()
        invariant
            i <= cookies@.len(),
            cookie_views(out@) == parsed_cookies(cookies@.take(i as int), now),
        decreases cookies@.len() - i,
    {
        let ghost pre = cookies@.take(i as int);
        assert(cookies@.take(i + 1).drop_last() =~= pre);
        assert(cookies@.take(i + 1).last() == cookies@[i as int]);
        match parse_bootstrap_cookie(&cookies[i], now) {
            Some(c) => {
                let ghost before = out@;
                let ghost cv = c@;
                out.push(c);
                assert(cookie_views(out@) =~= cookie_views(before).push(cv));
            },
            None => {},
        }
        i = i + 1;
    }
    assert(cookies@.take(cookies@.len() as int) =~= cookies@);
    out
}

/// Whether a cookie is sent to `host` (ASCII lowercase) at `path`: the
/// domain (trimmed, without leading dots) is the host, or, for a cookie
/// that is not host-only, a parent of it; the cookie path (by default `/`)
/// is the path, a prefix of it, or, ending in `/`, a prefix without that
/// slash; a secure cookie goes over HTTPS only.
pub open spec fn cookie_matches(c: CookieView, host: Seq<char>, path: Seq<char>, is_https: bool) -> bool {
    let domain = strip_leading(trim(c.domain), '.');
    let domain_matches = if c.host_only {
        host == domain
    } else {
        host == domain || has_suffix(host, "."@ + domain)
    };
    let cookie_path = if c.path.len() == 0 {
        "/"@
    } else {
        c.path
    };
    let path_matches = path == cookie_path || has_prefix(path, cookie_path) || (has_suffix(
        cookie_path,
        "/"@,
    ) && has_prefix(path, strip_trailing(cookie_path, '/')));
    domain_matches && path_matches && (!c.secure || is_https)
}

/// Whether `cookie` is sent to `host` at `path`.
pub fn cookie_matches_url(cookie: &BootstrapCookie, host: &str, path: &str, is_https: bool) -> (r:
    bool)
    ensures
        r == cookie_matches(cookie@, host@, path@, is_https),
{
    let t = trim_str(cookie.domain.as_str());
    let domain = strip_leading_chars(t.as_slice(), '.');
    let h = chars_of(host);
    let domain_matches = if cookie.host_only {
        seq_eq(h.as_slice(), domain.as_slice())
    } else {
        let mut dotted: Vec<char> = Vec::new();
        dotted.push('.');
        let mut k: usize = 0;
        while k < domain.len()
            invariant
                k <= domain@.len(),
                dotted@ == seq!['.'] + domain@.take(k as int),
            decreases domain@.len() - k,
        {
            dotted.push(domain[k]);
            k = k + 1;
            assert(dotted@ =~= seq!['.'] + domain@.take(k as int));
        }
        assert(domain@.take(domain@.len() as int) =~= domain@);
        assert(seq!['.'] =~= "."@) by {
            reveal_strlit(".");
        }
        seq_eq(h.as_slice(), domain.as_slice()) || ends_with(h.as_slice(), dotted.as_slice())
    };
    let cp = if cookie.path.as_str().is_empty() {
        chars_of("/")
    } else {
        chars_of(cookie.path.as_str())
    };
    let p = chars_of(path);
    let slash = chars_of("/");
    let trimmed_path = crate::text::strip_trailing_char(string_of(cp.as_slice()).as_str(), '/');
    let tp = chars_of(trimmed_path.as_str());
    let path_matches = seq_eq(p.as_slice(), cp.as_slice()) || starts_with(p.as_slice(), cp.as_slice())
        || (ends_with(cp.as_slice(), slash.as_slice()) && starts_with(p.as_slice(), tp.as_slice()));
    domain_matches && path_matches && (!cookie.secure || is_https)
}

/// The cookies among `cs` sent to `host` at `path`, in order.
pub open spec fn matching_cookies(cs: Seq<CookieView>, host: Seq<char>, path: Seq<char>, is_https: bool) -> Seq<
    CookieView,
>
    decreases cs.len(),
{
    if cs.len() == 0 {
        Seq::empty()
    } else {
        let rest = matching_cookies(cs.drop_last(), host, path, is_https);
        if cookie_matches(cs.last(), host, path, is_https) {
            rest.push(cs.last())
        } else {
            rest
        }
    }
}

/// The order cookies go into a header: longer paths (in UTF-8 bytes)
/// first, then names in order.
pub open spec fn cookie_before(a: CookieView, b: CookieView) -> bool {
    utf8_len(a.path) > utf8_len(b.path) || (utf8_len(a.path) == utf8_len(b.path) && lex_lt(
        a.name,
        b.name,
    ))
}

/// `x` put into `s` before the first cookie it goes before.
pub open spec fn insert_cookie(s: Seq<CookieView>, x: CookieView) -> Seq<CookieView>
    decreases s.len(),
{
    if s.len() == 0 {
        seq![x]
    } else if cookie_before(x, s[0]) {
        seq![x] + s
    } else {
        seq![s[0]] + insert_cookie(s.drop_first(), x)
    }
}

/// The cookies in header order, cookies that tie keeping their order (a
/// stable sort).
pub open spec fn sort_cookies(s: Seq<CookieView>) -> Seq<CookieView>
    decreases s.len(),
{
    if s.len() == 0 {
        s
    } else {
        insert_cookie(sort_cookies(s.drop_last()), s.last())
    }
}

/// The ASCII-lowercase names of cookies.
pub open spec fn lower_names(s: Seq<CookieView>) -> Seq<Seq<char>> {
    s.map_values(|c: CookieView| ascii_lower_seq(c.name))
}

/// The cookies without those whose name (ignoring ASCII case) came before.
pub open spec fn dedup_cookies(s: Seq<CookieView>) -> Seq<CookieView>
    decreases s.len(),
{
    if s.len() == 0 {
        s
    } else {
        let rest = dedup_cookies(s.drop_last());
        if lower_names(s.drop_last()).contains(ascii_lower_seq(s.last().name)) {
            rest
        } else {
            rest.push(s.last())
        }
    }
}

/// The `name=value` pairs of cookies.
pub open spec fn cookie_pairs(s: Seq<CookieView>) -> Seq<Seq<char>> {
    s.map_values(|c: CookieView| c.name + "="@ + c.value)
}

/// The names kept by `dedup_cookies` are among the names it was given.
proof fn lemma_dedup_names_subset(s: Seq<CookieView>)
    ensures
        forall|i: int|
            0 <= i < lower_names(dedup_cookies(s)).len() ==> lower_names(s).contains(
                #[trigger] lower_names(dedup_cookies(s))[i],
            ),
    decreases s.len(),
{
    if s.len() > 0 {
        lemma_dedup_names_subset(s.drop_last());
        let d = dedup_cookies(s);
        let rest = dedup_cookies(s.drop_last());
        assert forall|i: int| 0 <= i < lower_names(d).len() implies lower_names(s).contains(
            #[trigger] lower_names(d)[i],
        ) by {
            if i < rest.len() {
                assert(lower_names(d)[i] == lower_names(rest)[i]);
                assert(lower_names(s.drop_last()).contains(lower_names(rest)[i]));
                let k = choose|k: int|
                    0 <= k < lower_names(s.drop_last()).len() && lower_names(s.drop_last())[k]
                        == lower_names(rest)[i];
                assert(lower_names(s)[k] == lower_names(s.drop_last())[k]);
            } else {
                assert(lower_names(d)[i] == lower_names(s)[s.len() - 1]);
            }
        }
    }
}

/// A cookie jar sends each name once: the cookies that deduplication
/// keeps, which a `Cookie` header joins, have pairwise distinct names
/// (ignoring ASCII case).
pub proof fn law_cookie_names_sent_once(s: Seq<CookieView>)
    ensures
        lower_names(dedup_cookies(s)).no_duplicates(),
    decreases s.len(),
{
    if s.len() > 0 {
        law_cookie_names_sent_once(s.drop_last());
        lemma_dedup_names_subset(s.drop_last());
        let rest = dedup_cookies(s.drop_last());
        let n = ascii_lower_seq(s.last().name);
        if !lower_names(s.drop_last()).contains(n) {
            let d = dedup_cookies(s);
            assert(d == rest.push(s.last()));
            assert(lower_names(d) =~= lower_names(rest).push(n));
            assert forall|i: int, j: int|
                0 <= i < lower_names(d).len() && 0 <= j < lower_names(d).len() && i != j implies lower_names(
                d,
            )[i] != lower_names(d)[j] by {
                if i == rest.len() {
                    assert(lower_names(s.drop_last()).contains(lower_names(rest)[j]));
                } else if j == rest.len() {
                    assert(lower_names(s.drop_last()).contains(lower_names(rest)[i]));
                }
            }
        }
    }
}

/// The `Cookie` header for `url`: the cookies sent to its host (ASCII
/// lowercase) and path (by default `/`), in header order, one per name,
/// joined by `; `; none where the URL does not parse, has no host, or no
/// cookie goes.
pub open spec fn url_cookie_header(cs: Seq<CookieView>, url: Seq<char>) -> Option<Seq<char>> {
    if !url_accepts(url) {
        None
    } else {
        match url_host(url) {
            None => None,
            Some(h) => {
                let host = ascii_lower_seq(h);
                let path = if crate::url::url_path(url).len() == 0 {
                    "/"@
                } else {
                    crate::url::url_path(url)
                };
                let https = url_scheme(url) == "https"@;
                let joined = join(
                    cookie_pairs(dedup_cookies(sort_cookies(matching_cookies(cs, host, path, https)))),
                    "; "@,
                );
                if joined.len() == 0 {
                    None
                } else {
                    Some(joined)
                }
            },
        }
    }
}

/// The UTF-8 length of `s`, in bytes.
fn utf8_bytes(s: &str) -> (r: u128)
    ensures
        r == utf8_len(s@),
{
    let v = chars_of(s);
    let mut acc: u128 = 0;
    let mut i: usize = 0;
    assert(v@.skip(0) =~= v@);
    while i < v.len()
        invariant
            i <= v@.len(),
            v@ == s@,
            acc <= 4 * i,
            utf8_len(v@) == acc + utf8_len(v@.skip(i as int)),
        decreases v@.len() - i,
    {
        let ghost rest = v@.skip(i as int);
        assert(rest.drop_first() =~= v@.skip(i + 1));
        assert(rest[0] == v@[i as int]);
        let c = v[i] as u32;
        let w: u128 = if c <= 0x7F {
            1
        } else if c <= 0x7FF {
            2
        } else if c <= 0xFFFF {
            3
        } else {
            4
        };
        acc = acc + w;
        i = i + 1;
    }
    acc
}

/// Whether `a` goes before `b` in a header.
fn goes_before(a: &BootstrapCookie, b: &BootstrapCookie) -> (r: bool)
    ensures
        r == cookie_before(a@, b@),
{
    let la = utf8_bytes(a.path.as_str());
    let lb = utf8_bytes(b.path.as_str());
    la > lb || (la == lb && lex_less(a.name.as_str(), b.name.as_str()))
}

proof fn lemma_insert_cookie_at(s: Seq<CookieView>, x: CookieView, i: int)
    requires
        0 <= i <= s.len(),
        forall|k: int| 0 <= k < i ==> !cookie_before(x, #[trigger] s[k]),
        i < s.len() ==> cookie_before(x, s[i]),
    ensures
        insert_cookie(s, x) == s.take(i).push(x) + s.skip(i),
    decreases s.len(),
{
    if s.len() == 0 {
        assert(s.take(i).push(x) + s.skip(i) =~= seq![x]);
    } else if i == 0 {
        assert(s.take(0).push(x) + s.skip(0) =~= seq![x] + s);
    } else {
        assert forall|k: int| 0 <= k < i - 1 implies !cookie_before(x, #[trigger] s.drop_first()[k]) by {
            assert(s.drop_first()[k] == s[k + 1]);
        }
        if i - 1 < s.drop_first().len() {
            assert(s.drop_first()[i - 1] == s[i]);
        }
        lemma_insert_cookie_at(s.drop_first(), x, i - 1);
        assert(seq![s[0]] + (s.drop_first().take(i - 1).push(x) + s.drop_first().skip(i - 1)) =~= s.take(
            i,
        ).push(x) + s.skip(i));
    }
}

/// Sorts cookies into header order (a stable insertion sort).
fn sort_into_header_order(v: Vec<BootstrapCookie>) -> (r: Vec<BootstrapCookie>)
    ensures
        cookie_views(r@) == sort_cookies(cookie_views(v@)),
{
    let mut v = v;
    let ghost all = cookie_views(v@);
    let n = v.len();
    let mut out: Vec<BootstrapCookie> = Vec::new();
    let mut done: usize = 0;
    assert(all.skip(0) =~= all);
    assert(cookie_views(out@) =~= sort_cookies(all.take(0)));
    while v.len() > 0
        invariant
            done + v@.len() == n,
            all.len() == n,
            cookie_views(v@) == all.skip(done as int),
            cookie_views(out@) == sort_cookies(all.take(done as int)),
        decreases v@.len(),
    {
        let ghost before_v = v@;
        let x = v.remove(0);
        assert(cookie_views(before_v)[0] == x@);
        assert(all.skip(done as int)[0] == all[done as int]);
        assert(v@ =~= before_v.drop_first());
        assert(cookie_views(v@) =~= cookie_views(before_v).drop_first());
        assert(all.skip(done as int).drop_first() =~= all.skip(done + 1));
        let ghost sorted = cookie_views(out@);
        let mut i: usize = 0;
        while i < out.len() && !goes_before(&x, &out[i])
            invariant
                i <= out@.len(),
                cookie_views(out@) == sorted,
                forall|k: int| 0 <= k < i ==> !cookie_before(x@, #[trigger] sorted[k]),
            decreases out@.len() - i,
        {
            i = i + 1;
        }
        proof {
            lemma_insert_cookie_at(sorted, x@, i as int);
        }
        let ghost xv = x@;
        out.insert(i, x);
        assert(cookie_views(out@) =~= sorted.take(i as int).push(xv) + sorted.skip(i as int));
        assert(all.take(done + 1).drop_last() =~= all.take(done as int));
        assert(all.take(done + 1).last() == all[done as int]);
        done = done + 1;
    }
    assert(all.take(n as int) =~= all);
    out
}

/// A copy of a cookie.
fn copy_cookie(c: &BootstrapCookie) -> (r: BootstrapCookie)
    ensures
        r@ == c@,
{
    BootstrapCookie {
        name: c.name.clone(),
        value: c.value.clone(),
        domain: c.domain.clone(),
        path: c.path.clone(),
        expires: c.expires,
        secure: c.secure,
        host_only: c.host_only,
    }
}

/// Keeps each cookie whose name (ignoring ASCII case) did not come before.
fn dedup_by_name(v: Vec<BootstrapCookie>) -> (r: Vec<BootstrapCookie>)
    ensures
        cookie_views(r@) == dedup_cookies(cookie_views(v@)),
{
    let mut v = v;
    let ghost all = cookie_views(v@);
    let n = v.len();
    let mut out: Vec<BootstrapCookie> = Vec::new();
    let mut seen: Vec<String> = Vec::new();
    let mut done: usize = 0;
    assert(all.skip(0) =~= all);
    assert(cookie_views(out@) =~= dedup_cookies(all.take(0)));
    assert(crate::text::views(seen@) =~= lower_names(all.take(0)));
    while v.len() > 0
        invariant
            done + v@.len() == n,
            all.len() == n,
            cookie_views(v@) == all.skip(done as int),
            cookie_views(out@) == dedup_cookies(all.take(done as int)),
            crate::text::views(seen@) == lower_names(all.take(done as int)),
        decreases v@.len(),
    {
        let ghost before_v = v@;
        let x = v.remove(0);
        assert(cookie_views(before_v)[0] == x@);
        assert(all.skip(done as int)[0] == all[done as int]);
        assert(v@ =~= before_v.drop_first());
        assert(cookie_views(v@) =~= cookie_views(before_v).drop_first());
        assert(all.skip(done as int).drop_first() =~= all.skip(done + 1));
        let ghost pre = all.take(done as int);
        assert(all.take(done + 1).drop_last() =~= pre);
        assert(all.take(done + 1).last() == x@);
        let lower = ascii_lower_text(x.name.as_str());
        let known = crate::text::strings_contain(&seen, lower.as_str());
        let ghost before_seen = crate::text::views(seen@);
        let ghost before_out = cookie_views(out@);
        let ghost xv = x@;
        seen.push(lower);
        assert(crate::text::views(seen@) =~= before_seen.push(ascii_lower_seq(xv.name)));
        assert(lower_names(all.take(done + 1)) =~= lower_names(pre).push(ascii_lower_seq(xv.name)));
        if !known {
            out.push(x);
            assert(cookie_views(out@) =~= before_out.push(xv));
        }
        done = done + 1;
    }
    assert(all.take(n as int) =~= all);
    out
}

/// The `Cookie` header for `url` from the cookie jar, if any cookie goes.
pub fn build_cookie_header_for_url(cookies: &Vec<BootstrapCookie>, url: &str) -> (r: Option<String>)
    ensures
        opt_view(r) == url_cookie_header(cookie_views(cookies@), url@),
{
    let parts = match parse_url(url) {
        Some(p) => p,
        None => return None,
    };
    let raw_host = match parts.host {
        Some(h) => h,
        None => return None,
    };
    let host = ascii_lower_text(raw_host.as_str());
    let path = if parts.path.as_str().is_empty() {
        owned("/")
    } else {
        parts.path
    };
    let is_https = text_eq(parts.scheme.as_str(), "https");
    let ghost cs = cookie_views(cookies@);
    let mut matched: Vec<BootstrapCookie> = Vec::new();
    let mut i: usize = 0;
    assert(cs.take(0) =~= Seq::<CookieView>::empty());
    assert(cookie_views(matched@) =~= Seq::<CookieView>::empty());
    while i < cookies.len()
        invariant
            i <= cookies@.len(),
            cs == cookie_views(cookies@),
            cookie_views(matched@) == matching_cookies(cs.take(i as int), host@, path@, is_https),
        decreases cookies@.len() - i,
    {
        let ghost pre = cs.take(i as int);
        assert(cs.take(i + 1).drop_last() =~= pre);
        assert(cs.take(i + 1).last() == cookies@[i as int]@);
        if cookie_matches_url(&cookies[i], host.as_str(), path.as_str(), is_https) {
            let c = copy_cookie(&cookies[i]);
            let ghost before = cookie_views(matched@);
            let ghost cv = c@;
            matched.push(c);
            assert(cookie_views(matched@) =~= before.push(cv));
        }
        i = i + 1;
    }
    assert(cs.take(cs.len() as int) =~= cs);
    let sorted = sort_into_header_order(matched);
    let kept = dedup_by_name(sorted);
    let mut pairs: Vec<String> = Vec::new();
    let mut k: usize = 0;
    let ghost kv = cookie_views(kept@);
    while k < kept.len()
        invariant
            k <= kept@.len(),
            kv == cookie_views(kept@),
            crate::text::views(pairs@) == cookie_pairs(kv.take(k as int)),
        decreases kept@.len() - k,
    {
        let mut pair = kept[k].name.clone();
        push_str(&mut pair, "=");
        push_str(&mut pair, kept[k].value.as_str());
        let ghost before = crate::text::views(pairs@);
        let ghost pv = pair@;
        pairs.push(pair);
        assert(crate::text::views(pairs@) =~= before.push(pv));
        assert(cookie_pairs(kv.take(k + 1)) =~= cookie_pairs(kv.take(k as int)).push(
            kv[k as int].name + "="@ + kv[k as int].value,
        ));
        k = k + 1;
    }
    assert(kv.take(kv.len() as int) =~= kv);
    let mut joined = String::new();
    crate::text::push_joined(&mut joined, pairs.as_slice(), "; ");
    assert(joined@ =~= join(cookie_pairs(kv), "; "@));
    if joined.as_str().is_empty() {
        None
    } else {
        Some(joined)
    }
}

// ---------------------------------------------------------------------------
// Cookie headers
// ---------------------------------------------------------------------------

/// The pieces of `s` between the occurrences of `c` (`str::split(c)`).
pub open spec fn split_char(s: Seq<char>, c: char) -> Seq<Seq<char>>
    decreases s.len(),
{
    if s.len() == 0 {
        seq![Seq::empty()]
    } else {
        let rest = split_char(s.drop_last(), c);
        if s.last() == c {
            rest.push(Seq::empty())
        } else {
            rest.update(rest.len() - 1, rest.last().push(s.last()))
        }
    }
}

proof fn lemma_split_nonempty(s: Seq<char>, c: char)
    ensures
        split_char(s, c).len() >= 1,
    decreases s.len(),
{
    if s.len() > 0 {
        lemma_split_nonempty(s.drop_last(), c);
    }
}

/// The pieces of `s` between the occurrences of `c`.
pub fn split_text(s: &str, c: char) -> (r: Vec<String>)
    ensures
        crate::text::views(r@) == split_char(s@, c),
{
    let v = chars_of(s);
    let mut done: Vec<String> = Vec::new();
    let mut cur: Vec<char> = Vec::new();
    let mut i: usize = 0;
    assert(v@.take(0) =~= Seq::<char>::empty());
    assert(crate::text::views(done@).push(cur@) =~= split_char(v@.take(0), c));
    while i < v.len()
        invariant
            i <= v@.len(),
            v@ == s@,
            crate::text::views(done@).push(cur@) == split_char(v@.take(i as int), c),
        decreases v@.len() - i,
    {
        let ghost pre = v@.take(i as int);
        assert(v@.take(i + 1).drop_last() =~= pre);
        assert(v@.take(i + 1).last() == v@[i as int]);
        proof {
            lemma_split_nonempty(pre, c);
        }
        if v[i] == c {
            let piece = string_of(cur.as_slice());
            let ghost before = crate::text::views(done@);
            done.push(piece);
            cur = Vec::new();
            assert(crate::text::views(done@) =~= before.push(piece@));
            assert(crate::text::views(done@).push(cur@) =~= split_char(pre, c).push(Seq::empty()));
        } else {
            let ghost before_cur = cur@;
            cur.push(v[i]);
            assert(crate::text::views(done@).push(cur@) =~= split_char(pre, c).update(
                split_char(pre, c).len() - 1,
                before_cur.push(v@[i as int]),
            ));
        }
        i = i + 1;
    }
    assert(v@.take(v@.len() as int) =~= v@);
    let last = string_of(cur.as_slice());
    let ghost before = crate::text::views(done@);
    done.push(last);
    assert(crate::text::views(done@) =~= before.push(last@));
    done
}

/// The trimmed pieces of a cookie header that are `name=value` pairs.
pub open spec fn header_pairs(pieces: Seq<Seq<char>>) -> Seq<Seq<char>>
    decreases pieces.len(),
{
    if pieces.len() == 0 {
        Seq::empty()
    } else {
        let rest = header_pairs(pieces.drop_last());
        let t = trim(pieces.last());
        if t.len() > 0 && t.contains('=') {
            rest.push(t)
        } else {
            rest
        }
    }
}

/// A cookie header with its pairs trimmed and joined by `; `; none where it
/// has no pair.
pub open spec fn cookie_header_value(s: Seq<char>) -> Option<Seq<char>> {
    let j = join(header_pairs(split_char(s, ';')), "; "@);
    if j.len() == 0 {
        None
    } else {
        Some(j)
    }
}

fn char_in(v: &[char], c: char) -> (r: bool)
    ensures
        r == v@.contains(c),
{
    let mut i: usize = 0;
    while i < v.len()
        invariant
            i <= v@.len(),
            forall|k: int| 0 <= k < i ==> v@[k] != c,
        decreases v@.len() - i,
    {
        if v[i] == c {
            return true;
        }
        i = i + 1;
    }
    false
}

/// The cookie header `value` in normal form, if it has a pair.
pub fn normalize_cookie_header(value: &str) -> (r: Option<String>)
    ensures
        opt_view(r) == cookie_header_value(value@),
{
    let pieces = split_text(value, ';');
    let ghost ps = crate::text::views(pieces@);
    let mut pairs: Vec<String> = Vec::new();
    let mut i: usize = 0;
    assert(ps.take(0) =~= Seq::<Seq<char>>::empty());
    assert(crate::text::views(pairs@) =~= Seq::<Seq<char>>::empty());
    while i < pieces.len()
        invariant
            i <= pieces@.len(),
            ps == crate::text::views(pieces@),
            crate::text::views(pairs@) == header_pairs(ps.take(i as int)),
        decreases pieces@.len() - i,
    {
        let ghost pre = ps.take(i as int);
        assert(ps.take(i + 1).drop_last() =~= pre);
        assert(ps.take(i + 1).last() == pieces@[i as int]@);
        let t = trim_str(pieces[i].as_str());
        if t.len() > 0 && char_in(t.as_slice(), '=') {
            let ts = string_of(t.as_slice());
            let ghost before = crate::text::views(pairs@);
            pairs.push(ts);
            assert(crate::text::views(pairs@) =~= before.push(ts@));
        }
        i = i + 1;
    }
    assert(ps.take(ps.len() as int) =~= ps);
    let mut joined = String::new();
    crate::text::push_joined(&mut joined, pairs.as_slice(), "; ");
    assert(joined@ =~= join(header_pairs(ps), "; "@));
    if joined.as_str().is_empty() {
        None
    } else {
        Some(joined)
    }
}

/// The text after the first `c` in `s`.
pub open spec fn after_char(s: Seq<char>, c: char) -> Seq<char> {
    s.skip(before_char(s, c).len() as int + 1)
}

proof fn lemma_before_char_at(s: Seq<char>, c: char, p: int)
    requires
        0 <= p < s.len(),
        s[p] == c,
        forall|k: int| 0 <= k < p ==> s[k] != c,
    ensures
        before_char(s, c) == s.take(p),
    decreases p,
{
    if p > 0 {
        assert forall|k: int| 0 <= k < p - 1 implies s.drop_first()[k] != c by {
            assert(s.drop_first()[k] == s[k + 1]);
        }
        lemma_before_char_at(s.drop_first(), c, p - 1);
        assert(seq![s[0]] + s.drop_first().take(p - 1) =~= s.take(p));
    } else {
        assert(s.take(0) =~= Seq::<char>::empty());
    }
}

/// A header part split at its first `=` into a trimmed name and value, where
/// both are non-empty.
pub open spec fn part_pair(part: Seq<char>) -> Option<(Seq<char>, Seq<char>)> {
    if !part.contains('=') {
        None
    } else {
        let name = trim(before_char(part, '='));
        let value = trim(after_char(part, '='));
        if name.len() == 0 || value.len() == 0 {
            None
        } else {
            Some((name, value))
        }
    }
}

/// The trimmed non-empty pieces.
pub open spec fn nonempty_trimmed(pieces: Seq<Seq<char>>) -> Seq<Seq<char>>
    decreases pieces.len(),
{
    if pieces.len() == 0 {
        Seq::empty()
    } else {
        let rest = nonempty_trimmed(pieces.drop_last());
        if trim(pieces.last()).len() > 0 {
            rest.push(trim(pieces.last()))
        } else {
            rest
        }
    }
}

/// The parts of cookie headers, in order.
pub open spec fn header_parts(hs: Seq<Seq<char>>) -> Seq<Seq<char>>
    decreases hs.len(),
{
    if hs.len() == 0 {
        Seq::empty()
    } else {
        header_parts(hs.drop_last()) + nonempty_trimmed(split_char(hs.last(), ';'))
    }
}

/// The ASCII-lowercase names of the parts that are pairs.
pub open spec fn pair_names(parts: Seq<Seq<char>>) -> Seq<Seq<char>>
    decreases parts.len(),
{
    if parts.len() == 0 {
        Seq::empty()
    } else {
        let rest = pair_names(parts.drop_last());
        match part_pair(parts.last()) {
            Some((n, _)) => rest.push(ascii_lower_seq(n)),
            None => rest,
        }
    }
}

/// The pairs of `parts` as `name=value`, each name (ignoring ASCII case)
/// kept where it first comes.
pub open spec fn merged_pairs(parts: Seq<Seq<char>>) -> Seq<Seq<char>>
    decreases parts.len(),
{
    if parts.len() == 0 {
        Seq::empty()
    } else {
        let rest = merged_pairs(parts.drop_last());
        match part_pair(parts.last()) {
            Some((n, v)) => if pair_names(parts.drop_last()).contains(ascii_lower_seq(n)) {
                rest
            } else {
                rest.push(n + "="@ + v)
            },
            None => rest,
        }
    }
}

/// The headers that are present, in order.
pub open spec fn present(a: Option<Seq<char>>, b: Option<Seq<char>>) -> Seq<Seq<char>> {
    (match a {
        Some(x) => seq![x],
        None => Seq::empty(),
    }) + (match b {
        Some(x) => seq![x],
        None => Seq::empty(),
    })
}

/// Two cookie headers merged: the first one's pairs win; none where no pair
/// is left.
pub open spec fn merged_header(a: Option<Seq<char>>, b: Option<Seq<char>>) -> Option<Seq<char>> {
    let j = join(merged_pairs(header_parts(present(a, b))), "; "@);
    if j.len() == 0 {
        None
    } else {
        Some(j)
    }
}

/// `part` split at its first `=` into a trimmed name and value, where both
/// are non-empty.
fn split_pair(part: &[char]) -> (r: Option<(String, String)>)
    ensures
        match r {
            Some((n, v)) => part_pair(part@) == Some((n@, v@)),
            None => part_pair(part@) is None,
        },
{
    let mut p: usize = 0;
    while p < part.len() && part[p] != '='
        invariant
            p <= part@.len(),
            forall|k: int| 0 <= k < p ==> part@[k] != '=',
        decreases part@.len() - p,
    {
        p = p + 1;
    }
    if p == part.len() {
        assert(!part@.contains('='));
        return None;
    }
    proof {
        lemma_before_char_at(part@, '=', p as int);
    }
    let mut name: Vec<char> = Vec::new();
    let mut k: usize = 0;
    while k < p
        invariant
            k <= p < part@.len(),
            name@ == part@.take(k as int),
        decreases p - k,
    {
        name.push(part[k]);
        k = k + 1;
        assert(name@ =~= part@.take(k as int));
    }
    let mut value: Vec<char> = Vec::new();
    let mut j: usize = p + 1;
    while j < part.len()
        invariant
            p + 1 <= j <= part@.len(),
            value@ == part@.subrange(p + 1, j as int),
        decreases part@.len() - j,
    {
        value.push(part[j]);
        j = j + 1;
    }
    assert(value@ =~= part@.skip(p + 1));
    let n = trim_chars(name.as_slice());
    let v = trim_chars(value.as_slice());
    if n.len() == 0 || v.len() == 0 {
        return None;
    }
    Some((string_of(n.as_slice()), string_of(v.as_slice())))
}

/// Merges two cookie headers: pairs trimmed, the first header's pairs
/// before the second's, a name (ignoring ASCII case) kept where it first
/// comes; none where no pair is left.
pub fn merge_cookie_headers(primary: Option<String>, secondary: Option<String>) -> (r: Option<
    String,
>)
    ensures
        opt_view(r) == merged_header(opt_view(primary), opt_view(secondary)),
{
    let ghost hs = present(opt_view(primary), opt_view(secondary));
    let mut headers: Vec<String> = Vec::new();
    match primary {
        Some(p) => headers.push(p),
        None => {},
    }
    match secondary {
        Some(s) => headers.push(s),
        None => {},
    }
    assert(crate::text::views(headers@) =~= hs);
    let mut parts: Vec<String> = Vec::new();
    let mut h: usize = 0;
    assert(hs.take(0) =~= Seq::<Seq<char>>::empty());
    assert(crate::text::views(parts@) =~= header_parts(hs.take(0)));
    while h < headers.len()
        invariant
            h <= headers@.len(),
            hs == crate::text::views(headers@),
            crate::text::views(parts@) == header_parts(hs.take(h as int)),
        decreases headers@.len() - h,
    {
        assert(hs.take(h + 1).drop_last() =~= hs.take(h as int));
        assert(hs.take(h + 1).last() == headers@[h as int]@);
        let pieces = split_text(headers[h].as_str(), ';');
        let ghost ps = crate::text::views(pieces@);
        let ghost base = crate::text::views(parts@);
        let mut i: usize = 0;
        assert(ps.take(0) =~= Seq::<Seq<char>>::empty());
        assert(base + nonempty_trimmed(ps.take(0)) =~= base);
        while i < pieces.len()
            invariant
                i <= pieces@.len(),
                ps == crate::text::views(pieces@),
                crate::text::views(parts@) == base + nonempty_trimmed(ps.take(i as int)),
            decreases pieces@.len() - i,
        {
            assert(ps.take(i + 1).drop_last() =~= ps.take(i as int));
            assert(ps.take(i + 1).last() == pieces@[i as int]@);
            let t = trim_str(pieces[i].as_str());
            if t.len() > 0 {
                let ts = string_of(t.as_slice());
                let ghost before = crate::text::views(parts@);
                parts.push(ts);
                assert(crate::text::views(parts@) =~= before.push(ts@));
                assert(base + nonempty_trimmed(ps.take(i + 1)) =~= (base + nonempty_trimmed(
                    ps.take(i as int),
                )).push(ts@));
            }
            i = i + 1;
        }
        assert(ps.take(ps.len() as int) =~= ps);
        h = h + 1;
    }
    assert(hs.take(hs.len() as int) =~= hs);
    let ghost all = crate::text::views(parts@);
    let mut pairs: Vec<String> = Vec::new();
    let mut seen: Vec<String> = Vec::new();
    let mut i: usize = 0;
    assert(all.take(0) =~= Seq::<Seq<char>>::empty());
    assert(crate::text::views(pairs@) =~= Seq::<Seq<char>>::empty());
    assert(crate::text::views(seen@) =~= Seq::<Seq<char>>::empty());
    while i < parts.len()
        invariant
            i <= parts@.len(),
            all == crate::text::views(parts@),
            crate::text::views(pairs@) == merged_pairs(all.take(i as int)),
            crate::text::views(seen@) == pair_names(all.take(i as int)),
        decreases parts@.len() - i,
    {
        let ghost pre = all.take(i as int);
        assert(all.take(i + 1).drop_last() =~= pre);
        assert(all.take(i + 1).last() == parts@[i as int]@);
        let pv = chars_of(parts[i].as_str());
        match split_pair(pv.as_slice()) {
            Some((name, value)) => {
                let lower = ascii_lower_text(name.as_str());
                let known = crate::text::strings_contain(&seen, lower.as_str());
                let ghost before_seen = crate::text::views(seen@);
                seen.push(lower);
                assert(crate::text::views(seen@) =~= before_seen.push(ascii_lower_seq(name@)));
                if !known {
                    let mut pair = name;
                    push_str(&mut pair, "=");
                    push_str(&mut pair, value.as_str());
                    let ghost before = crate::text::views(pairs@);
                    let ghost pv2 = pair@;
                    pairs.push(pair);
                    assert(crate::text::views(pairs@) =~= before.push(pv2));
                }
            },
            None => {},
        }
        i = i + 1;
    }
    assert(all.take(all.len() as int) =~= all);
    let mut joined = String::new();
    crate::text::push_joined(&mut joined, pairs.as_slice(), "; ");
    if joined.as_str().is_empty() {
        None
    } else {
        Some(joined)
    }
}

// ---------------------------------------------------------------------------
// Storage state
// ---------------------------------------------------------------------------

/// The cookie records of a storage state: the artifact itself where it is
/// an array, else its `cookies` array, else `storageState.cookies`.
pub open spec fn cookie_values_of(v: JsonValue) -> Option<Seq<JsonValue>> {
    match v {
        JsonValue::Array(items) => Some(items@),
        JsonValue::Object(_) => match crate::json::array_of(jget(v, "cookies"@)) {
            Some(c) => Some(c),
            None => crate::json::array_of(jget_opt(jget(v, "storageState"@), "cookies"@)),
        },
        _ => None,
    }
}

/// The cookie records of a storage state.
pub fn extract_cookie_values(value: &JsonValue) -> (r: Option<&Vec<JsonValue>>)
    ensures
        match r {
            Some(c) => cookie_values_of(*value) == Some(c@),
            None => cookie_values_of(*value) is None,
        },
{
    match value {
        JsonValue::Array(items) => Some(items),
        JsonValue::Object(_) => match crate::json::array_field(value, "cookies") {
            Some(c) => Some(c),
            None => match get(value, "storageState") {
                Some(state) => crate::json::array_field(state, "cookies"),
                None => None,
            },
        },
        _ => None,
    }
}

/// The storage state's per-origin records: `origins`, else
/// `storageState.origins`, where that is an array.
pub open spec fn storage_origins(v: JsonValue) -> Option<Seq<JsonValue>> {
    crate::json::array_of(or_else(jget(v, "origins"@), jget_opt(jget(v, "storageState"@), "origins"@)))
}

fn storage_origin_list(value: &JsonValue) -> (r: Option<&Vec<JsonValue>>)
    ensures
        match r {
            Some(c) => storage_origins(*value) == Some(c@),
            None => storage_origins(*value) is None,
        },
{
    let o = first_of(
        get(value, "origins"),
        match get(value, "storageState") {
            Some(state) => get(state, "origins"),
            None => None,
        },
    );
    match o {
        Some(JsonValue::Array(items)) => Some(items),
        _ => None,
    }
}

/// The first per-origin record whose `origin` is an origin of the site,
/// that origin.
pub open spec fn first_site_origin(items: Seq<JsonValue>) -> Option<Seq<char>>
    decreases items.len(),
{
    if items.len() == 0 {
        None
    } else {
        match text_of(jget(items[0], "origin"@)) {
            Some(o) => match origin_value(o) {
                Some(n) => Some(n),
                None => first_site_origin(items.drop_first()),
            },
            None => first_site_origin(items.drop_first()),
        }
    }
}

/// The first origin of the site among a storage state's origin records.
pub fn extract_storage_origin(value: &JsonValue) -> (r: Option<String>)
    ensures
        opt_view(r) == match storage_origins(*value) {
            Some(items) => first_site_origin(items),
            None => None,
        },
{
    let items = match storage_origin_list(value) {
        Some(items) => items,
        None => return None,
    };
    let mut i: usize = 0;
    assert(items@.skip(0) =~= items@);
    while i < items.len()
        invariant
            i <= items@.len(),
            storage_origins(*value) == Some(items@),
            first_site_origin(items@) == first_site_origin(items@.skip(i as int)),
        decreases items@.len() - i,
    {
        let ghost rest = items@.skip(i as int);
        assert(rest[0] == items@[i as int]);
        assert(rest.drop_first() =~= items@.skip(i + 1));
        match get(&items[i], "origin") {
            Some(JsonValue::Str(o)) => match normalize_origin(o.as_str()) {
                Some(n) => return Some(n),
                None => {},
            },
            _ => {},
        }
        i = i + 1;
    }
    None
}

/// The paths where an artifact may record its origin.
pub open spec fn manifest_origin_paths() -> Seq<Seq<Seq<char>>> {
    seq![
        seq!["origin"@],
        seq!["storageState"@, "origin"@],
        seq!["storage_state"@, "origin"@],
        seq!["headerProfile"@, "origin"@],
        seq!["header_profile"@, "origin"@],
        seq!["final_url"@],
        seq!["finalUrl"@],
    ]
}

fn manifest_origin_path_list() -> (r: Vec<Vec<&'static str>>)
    ensures
        key_paths(r@) == manifest_origin_paths(),
{
    let r = vec![
        vec!["origin"],
        vec!["storageState", "origin"],
        vec!["storage_state", "origin"],
        vec!["headerProfile", "origin"],
        vec!["header_profile", "origin"],
        vec!["final_url"],
        vec!["finalUrl"],
    ];
    assert(key_paths(r@) =~~= manifest_origin_paths());
    r
}

/// The origin of a referer of the site, where its `scheme://host` is one.
pub open spec fn referer_origin(r: Seq<char>) -> Option<Seq<char>> {
    if !url_accepts(r) {
        None
    } else {
        match url_host(r) {
            Some(h) => origin_value(url_scheme(r) + "://"@ + h),
            None => None,
        }
    }
}

/// The origin an artifact records: the first string at its origin paths,
/// as an origin of the site, or else as a referer of the site reduced to
/// its origin.
pub open spec fn manifest_origin(v: JsonValue) -> Option<Seq<char>> {
    match first_str_at(v, manifest_origin_paths()) {
        Some(raw) => match origin_value(raw) {
            Some(o) => Some(o),
            None => match referer_value(raw) {
                Some(r) => referer_origin(r),
                None => None,
            },
        },
        None => None,
    }
}

/// The origin an artifact records.
pub fn extract_manifest_origin(value: &JsonValue) -> (r: Option<String>)
    ensures
        opt_view(r) == manifest_origin(*value),
{
    let paths = manifest_origin_path_list();
    let raw = match extract_first_str(value, &paths) {
        Some(raw) => raw,
        None => return None,
    };
    match normalize_origin(raw.as_str()) {
        Some(o) => Some(o),
        None => match normalize_referer(raw.as_str()) {
            Some(referer) => match parse_url(referer.as_str()) {
                Some(parts) => match parts.host {
                    Some(host) => {
                        let mut origin = parts.scheme;
                        push_str(&mut origin, "://");
                        push_str(&mut origin, host.as_str());
                        normalize_origin(origin.as_str())
                    },
                    None => None,
                },
                None => None,
            },
            None => None,
        },
    }
}

/// The paths where an artifact may record its accept-language.
pub open spec fn manifest_language_paths() -> Seq<Seq<Seq<char>>> {
    seq![
        seq!["accept_language"@],
        seq!["acceptLanguage"@],
        seq!["storageState"@, "acceptLanguage"@],
        seq!["storage_state"@, "acceptLanguage"@],
        seq!["storage_state"@, "accept_language"@],
        seq!["headerProfile"@, "accept_language"@],
        seq!["headerProfile"@, "acceptLanguage"@],
        seq!["header_profile"@, "accept_language"@],
        seq!["extraHTTPHeaders"@, "Accept-Language"@],
        seq!["extraHTTPHeaders"@, "accept-language"@],
    ]
}

fn manifest_language_path_list() -> (r: Vec<Vec<&'static str>>)
    ensures
        key_paths(r@) == manifest_language_paths(),
{
    let r = vec![
        vec!["accept_language"],
        vec!["acceptLanguage"],
        vec!["storageState", "acceptLanguage"],
        vec!["storage_state", "acceptLanguage"],
        vec!["storage_state", "accept_language"],
        vec!["headerProfile", "accept_language"],
        vec!["headerProfile", "acceptLanguage"],
        vec!["header_profile", "accept_language"],
        vec!["extraHTTPHeaders", "Accept-Language"],
        vec!["extraHTTPHeaders", "accept-language"],
    ];
    assert(key_paths(r@) =~~= manifest_language_paths());
    r
}

/// The accept-language an artifact records, as a header value.
pub fn extract_manifest_accept_language(value: &JsonValue) -> (r: Option<String>)
    ensures
        opt_view(r) == match first_str_at(*value, manifest_language_paths()) {
            Some(raw) => header_value(raw),
            None => None,
        },
{
    let paths = manifest_language_path_list();
    match extract_first_str(value, &paths) {
        Some(raw) => normalize_header_value(raw.as_str()),
        None => None,
    }
}

/// The paths where an artifact may record its referer.
pub open spec fn manifest_referer_paths() -> Seq<Seq<Seq<char>>> {
    seq![
        seq!["referer"@],
        seq!["referrer"@],
        seq!["storageState"@, "referer"@],
        seq!["storage_state"@, "referer"@],
        seq!["headerProfile"@, "referer"@],
        seq!["header_profile"@, "referer"@],
        seq!["final_url"@],
        seq!["finalUrl"@],
    ]
}

fn manifest_referer_path_list() -> (r: Vec<Vec<&'static str>>)
    ensures
        key_paths(r@) == manifest_referer_paths(),
{
    let r = vec![
        vec!["referer"],
        vec!["referrer"],
        vec!["storageState", "referer"],
        vec!["storage_state", "referer"],
        vec!["headerProfile", "referer"],
        vec!["header_profile", "referer"],
        vec!["final_url"],
        vec!["finalUrl"],
    ];
    assert(key_paths(r@) =~~= manifest_referer_paths());
    r
}

/// The referer an artifact records, where it is one of the site.
pub fn extract_manifest_referer(value: &JsonValue) -> (r: Option<String>)
    ensures
        opt_view(r) == match first_str_at(*value, manifest_referer_paths()) {
            Some(raw) => referer_value(raw),
            None => None,
        },
{
    let paths = manifest_referer_path_list();
    match extract_first_str(value, &paths) {
        Some(raw) => normalize_referer(raw.as_str()),
        None => None,
    }
}

/// The localStorage names that may hold the locale.
pub open spec fn locale_key(n: Seq<char>) -> bool {
    n == "i18nextLng"@ || n == "locale"@ || n == "lang"@ || n == "language"@ || n
        == "accept-language"@ || n == "acceptLanguage"@
}

/// `s` with each `_` made `-`.
pub open spec fn dashed(s: Seq<char>) -> Seq<char> {
    s.map_values(|c: char| if c == '_' { '-' } else { c })
}

/// A stored locale made an accept-language: trimmed, without surrounding
/// quotes, `_` made `-`. A list (with `,` or `;`) is kept as a header
/// value; a single tag gets its primary language (lowercase) and English
/// as fallbacks. Nothing where the value is empty, which lets the search go
/// on.
pub open spec fn stored_locale(raw: Seq<char>) -> Option<Option<Seq<char>>> {
    let n = dashed(strip_trailing(strip_leading(trim(raw), '"'), '"'));
    if n.len() == 0 {
        None
    } else if n.contains(',') || n.contains(';') {
        Some(header_value(n))
    } else {
        Some(Some(n + ","@ + ascii_lower_seq(before_char(n, '-')) + ";q=0.9,en;q=0.8"@))
    }
}

/// The first localStorage item that holds a locale decides.
pub open spec fn locale_in_items(items: Seq<JsonValue>) -> Option<Option<Seq<char>>>
    decreases items.len(),
{
    if items.len() == 0 {
        None
    } else {
        let it = items[0];
        let rest = locale_in_items(items.drop_first());
        match text_of(jget(it, "name"@)) {
            Some(name) => if !locale_key(name) {
                rest
            } else {
                match text_of(jget(it, "value"@)) {
                    Some(raw) => match stored_locale(raw) {
                        Some(res) => Some(res),
                        None => rest,
                    },
                    None => rest,
                }
            },
            None => rest,
        }
    }
}

/// The first origin record of the site whose localStorage holds a locale
/// decides.
pub open spec fn locale_in_origins(origins: Seq<JsonValue>) -> Option<Option<Seq<char>>>
    decreases origins.len(),
{
    if origins.len() == 0 {
        None
    } else {
        let o = origins[0];
        let rest = locale_in_origins(origins.drop_first());
        match text_of(jget(o, "origin"@)) {
            Some(u) => if origin_value(u) is None {
                rest
            } else {
                match crate::json::array_of(jget(o, "localStorage"@)) {
                    Some(items) => match locale_in_items(items) {
                        Some(res) => Some(res),
                        None => rest,
                    },
                    None => rest,
                }
            },
            None => rest,
        }
    }
}

/// The accept-language a storage state's localStorage records.
pub open spec fn storage_accept_language(v: JsonValue) -> Option<Seq<char>> {
    match storage_origins(v) {
        Some(os) => match locale_in_origins(os) {
            Some(res) => res,
            None => None,
        },
        None => None,
    }
}

fn is_locale_key(n: &str) -> (r: bool)
    ensures
        r == locale_key(n@),
{
    text_eq(n, "i18nextLng") || text_eq(n, "locale") || text_eq(n, "lang") || text_eq(
        n,
        "language",
    ) || text_eq(n, "accept-language") || text_eq(n, "acceptLanguage")
}

fn stored_locale_value(raw: &str) -> (r: Option<Option<String>>)
    ensures
        match r {
            Some(x) => stored_locale(raw@) == Some(opt_view(x)),
            None => stored_locale(raw@) is None,
        },
{
    let t = trim_str(raw);
    let a = strip_leading_chars(t.as_slice(), '"');
    let a_text = string_of(a.as_slice());
    let b = crate::text::strip_trailing_char(a_text.as_str(), '"');
    let bv = chars_of(b.as_str());
    let mut n: Vec<char> = Vec::new();
    let mut i: usize = 0;
    while i < bv.len()
        invariant
            i <= bv@.len(),
            n@ == dashed(bv@.take(i as int)),
        decreases bv@.len() - i,
    {
        let c = if bv[i] == '_' {
            '-'
        } else {
            bv[i]
        };
        n.push(c);
        i = i + 1;
        assert(n@ =~= dashed(bv@.take(i as int)));
    }
    assert(bv@.take(bv@.len() as int) =~= bv@);
    if n.len() == 0 {
        return None;
    }
    let ns = string_of(n.as_slice());
    if char_in(n.as_slice(), ',') || char_in(n.as_slice(), ';') {
        return Some(normalize_header_value(ns.as_str()));
    }
    let head = crate::text::text_before_char(ns.as_str(), '-');
    let primary = ascii_lower_text(head.as_str());
    let mut out = owned(ns.as_str());
    push_str(&mut out, ",");
    push_str(&mut out, primary.as_str());
    push_str(&mut out, ";q=0.9,en;q=0.8");
    Some(Some(out))
}

fn locale_from_items(items: &Vec<JsonValue>) -> (r: Option<Option<String>>)
    ensures
        match r {
            Some(x) => locale_in_items(items@) == Some(opt_view(x)),
            None => locale_in_items(items@) is None,
        },
{
    let mut i: usize = 0;
    assert(items@.skip(0) =~= items@);
    while i < items.len()
        invariant
            i <= items@.len(),
            locale_in_items(items@) == locale_in_items(items@.skip(i as int)),
        decreases items@.len() - i,
    {
        let ghost rest = items@.skip(i as int);
        assert(rest[0] == items@[i as int]);
        assert(rest.drop_first() =~= items@.skip(i + 1));
        match get(&items[i], "name") {
            Some(JsonValue::Str(name)) => {
                if is_locale_key(name.as_str()) {
                    match get(&items[i], "value") {
                        Some(JsonValue::Str(raw)) => match stored_locale_value(raw.as_str()) {
                            Some(res) => return Some(res),
                            None => {},
                        },
                        _ => {},
                    }
                }
            },
            _ => {},
        }
        i = i + 1;
    }
    None
}

/// The accept-language that a storage state's localStorage records for an
/// origin of the site.
pub fn extract_storage_accept_language(value: &JsonValue) -> (r: Option<String>)
    ensures
        opt_view(r) == storage_accept_language(*value),
{
    let origins = match storage_origin_list(value) {
        Some(o) => o,
        None => return None,
    };
    let mut i: usize = 0;
    assert(origins@.skip(0) =~= origins@);
    while i < origins.len()
        invariant
            i <= origins@.len(),
            storage_origins(*value) == Some(origins@),
            locale_in_origins(origins@) == locale_in_origins(origins@.skip(i as int)),
        decreases origins@.len() - i,
    {
        let ghost rest = origins@.skip(i as int);
        assert(rest[0] == origins@[i as int]);
        assert(rest.drop_first() =~= origins@.skip(i + 1));
        match get(&origins[i], "origin") {
            Some(JsonValue::Str(u)) => {
                if normalize_origin(u.as_str()).is_some() {
                    match crate::json::array_field(&origins[i], "localStorage") {
                        Some(items) => match locale_from_items(items) {
                            Some(res) => return res,
                            None => {},
                        },
                        None => {},
                    }
                }
            },
            _ => {},
        }
        i = i + 1;
    }
    None
}

/// The accept-language an artifact records at its paths.
pub open spec fn manifest_language(v: JsonValue) -> Option<Seq<char>> {
    match first_str_at(v, manifest_language_paths()) {
        Some(raw) => header_value(raw),
        None => None,
    }
}

/// The referer an artifact records at its paths.
pub open spec fn manifest_referer(v: JsonValue) -> Option<Seq<char>> {
    match first_str_at(v, manifest_referer_paths()) {
        Some(raw) => referer_value(raw),
        None => None,
    }
}

/// The site's root page, where cookies are matched for the stored header.
pub open spec fn root_referer() -> Seq<char> {
    "https://www.ligastavok.ru/"@
}

/// The paths where an artifact may record a ready cookie header.
pub open spec fn cookie_header_paths() -> Seq<Seq<Seq<char>>> {
    seq![
        seq!["cookieHeader"@],
        seq!["storageState"@, "cookieHeader"@],
        seq!["storage_state"@, "cookieHeader"@],
        seq!["storage_state"@, "cookie_header"@],
    ]
}

fn cookie_header_path_list() -> (r: Vec<Vec<&'static str>>)
    ensures
        key_paths(r@) == cookie_header_paths(),
{
    let r = vec![
        vec!["cookieHeader"],
        vec!["storageState", "cookieHeader"],
        vec!["storage_state", "cookieHeader"],
        vec!["storage_state", "cookie_header"],
    ];
    assert(key_paths(r@) =~~= cookie_header_paths());
    r
}

/// What a storage-state artifact gives the session: its cookies, a cookie
/// header, and the accept-language, origin and referer it records.
#[derive(Debug)]
pub struct StorageStateBootstrap {
    pub cookies: Vec<BootstrapCookie>,
    pub cookie_header: Option<String>,
    pub accept_language: Option<String>,
    pub origin: Option<String>,
    pub referer: Option<String>,
}

/// The cookies a storage-state artifact gives at `now`.
pub open spec fn storage_cookies(v: JsonValue, now: i64) -> Seq<CookieView> {
    parsed_cookies(
        match cookie_values_of(v) {
            Some(c) => c,
            None => Seq::empty(),
        },
        now,
    )
}

/// The origin a storage-state artifact gives: from its origin records, else
/// from its paths.
pub open spec fn storage_origin(v: JsonValue) -> Option<Seq<char>> {
    match (match storage_origins(v) {
        Some(items) => first_site_origin(items),
        None => None,
    }) {
        Some(o) => Some(o),
        None => manifest_origin(v),
    }
}

/// Whether `b` is what the storage-state artifact `v` gives at `now`: its
/// cookies; the recorded cookie header merged with the one its cookies make
/// for the site's root page (the recorded pairs win); the accept-language
/// from localStorage, else from its paths; its origin; its referer, else
/// the origin's root page.
pub open spec fn storage_from(b: StorageStateBootstrap, v: JsonValue, now: i64) -> bool {
    let cookies = storage_cookies(v, now);
    let origin = storage_origin(v);
    &&& cookie_views(b.cookies@) == cookies
    &&& opt_view(b.cookie_header) == merged_header(
        match first_str_at(v, cookie_header_paths()) {
            Some(raw) => cookie_header_value(raw),
            None => None,
        },
        url_cookie_header(cookies, root_referer()),
    )
    &&& opt_view(b.accept_language) == match storage_accept_language(v) {
        Some(l) => Some(l),
        None => manifest_language(v),
    }
    &&& opt_view(b.origin) == origin
    &&& opt_view(b.referer) == match manifest_referer(v) {
        Some(r) => Some(r),
        None => match origin {
            Some(o) => referer_value(o + "/"@),
            None => None,
        },
    }
}

/// What a storage-state artifact gives the session at `now` (seconds since
/// the epoch), where it gives a cookie header, an origin or an
/// accept-language.
pub fn extract_storage_state_bootstrap(value: &JsonValue, now: i64) -> (r: Option<StorageStateBootstrap>)
    ensures
        match r {
            Some(b) => storage_from(b, *value, now) && (b.cookie_header is Some || b.origin is Some
                || b.accept_language is Some),
            None => exists|b: StorageStateBootstrap| storage_from(b, *value, now) && b.cookie_header is None
                && b.origin is None && b.accept_language is None,
        },
{
    let empty: Vec<JsonValue> = Vec::new();
    let records = match extract_cookie_values(value) {
        Some(c) => c,
        None => &empty,
    };
    let cookies = parse_bootstrap_cookies(records, now);
    let header_paths = cookie_header_path_list();
    let recorded = match extract_first_str(value, &header_paths) {
        Some(raw) => normalize_cookie_header(raw.as_str()),
        None => None,
    };
    let from_jar = build_cookie_header_for_url(&cookies, "https://www.ligastavok.ru/");
    let cookie_header = merge_cookie_headers(recorded, from_jar);
    let origin = match extract_storage_origin(value) {
        Some(o) => Some(o),
        None => extract_manifest_origin(value),
    };
    let accept_language = match extract_storage_accept_language(value) {
        Some(l) => Some(l),
        None => extract_manifest_accept_language(value),
    };
    let referer = match extract_manifest_referer(value) {
        Some(r) => Some(r),
        None => match &origin {
            Some(o) => {
                let mut root = o.clone();
                push_str(&mut root, "/");
                normalize_referer(root.as_str())
            },
            None => None,
        },
    };
    let b = StorageStateBootstrap { cookies, cookie_header, accept_language, origin, referer };
    assert(storage_from(b, *value, now));
    if b.cookie_header.is_none() && b.origin.is_none() && b.accept_language.is_none() {
        None
    } else {
        Some(b)
    }
}

// ---------------------------------------------------------------------------
// Session bootstrap
// ---------------------------------------------------------------------------

/// The accept-language used where no artifact gives one.
pub open spec fn default_accept_language() -> Seq<char> {
    "ru-RU,ru;q=0.9,en;q=0.8"@
}

/// The site's address, the origin used where no artifact gives one.
pub open spec fn base_url() -> Seq<char> {
    "https://www.ligastavok.ru"@
}

/// The session the parser bootstraps its requests with.
#[derive(Debug)]
pub struct SessionBootstrap {
    pub cookie_jar: Vec<BootstrapCookie>,
    pub cookie_header: Option<String>,
    pub accept_language: String,
    pub origin: String,
    pub referer: String,
    pub api_accept_language: Option<String>,
    pub api_origin: Option<String>,
    pub api_referer: Option<String>,
    pub browser_verified_api_probe_status: Option<u16>,
    pub direct_probe_status: Option<u16>,
}

/// The first present text, else the fallback.
pub open spec fn first_text3(a: Option<Seq<char>>, b: Option<Seq<char>>, fallback: Seq<char>) -> Seq<char> {
    match a {
        Some(x) => x,
        None => match b {
            Some(x) => x,
            None => fallback,
        },
    }
}

/// Whether `s` is the session that a header profile and a storage state
/// (each possibly missing) and the cookie header and accept-language given
/// in the environment (each possibly missing) make: the environment's
/// cookie header merged with the storage state's (its pairs win); the
/// environment's accept-language, else the profile's, else the storage
/// state's, else the default; origin and referer from the profile, else the
/// storage state, else the site's root; the API values and probe statuses
/// from the profile.
pub open spec fn session_from(
    s: SessionBootstrap,
    profile: Option<HeaderProfile>,
    storage: Option<StorageStateBootstrap>,
    env_cookie_header: Option<Seq<char>>,
    env_accept_language: Option<Seq<char>>,
) -> bool {
    let p_lang = match profile { Some(p) => opt_view(p.accept_language), None => None };
    let p_origin = match profile { Some(p) => opt_view(p.origin), None => None };
    let p_referer = match profile { Some(p) => opt_view(p.referer), None => None };
    let s_lang = match storage { Some(b) => opt_view(b.accept_language), None => None };
    let s_origin = match storage { Some(b) => opt_view(b.origin), None => None };
    let s_referer = match storage { Some(b) => opt_view(b.referer), None => None };
    let s_header = match storage { Some(b) => opt_view(b.cookie_header), None => None };
    let env_lang = match env_accept_language { Some(l) => header_value(l), None => None };
    &&& cookie_views(s.cookie_jar@) == match storage {
        Some(b) => cookie_views(b.cookies@),
        None => Seq::empty(),
    }
    &&& opt_view(s.cookie_header) == merged_header(
        match env_cookie_header {
            Some(h) => cookie_header_value(h),
            None => None,
        },
        s_header,
    )
    &&& s.accept_language@ == match env_lang {
        Some(l) => l,
        None => first_text3(p_lang, s_lang, default_accept_language()),
    }
    &&& s.origin@ == first_text3(p_origin, s_origin, base_url())
    &&& s.referer@ == first_text3(p_referer, s_referer, root_referer())
    &&& opt_view(s.api_accept_language) == match profile { Some(p) => opt_view(p.api_accept_language), None => None }
    &&& opt_view(s.api_origin) == match profile { Some(p) => opt_view(p.api_origin), None => None }
    &&& opt_view(s.api_referer) == match profile { Some(p) => opt_view(p.api_referer), None => None }
    &&& s.browser_verified_api_probe_status == match profile {
        Some(p) => p.browser_verified_api_probe_status,
        None => None,
    }
    &&& s.direct_probe_status == match profile { Some(p) => p.direct_probe_status, None => None }
}

/// The first present text, else the fallback.
fn pick_text(a: Option<String>, b: Option<String>, fallback: &str) -> (r: String)
    ensures
        r@ == first_text3(opt_view(a), opt_view(b), fallback@),
{
    match a {
        Some(x) => x,
        None => match b {
            Some(x) => x,
            None => owned(fallback),
        },
    }
}

/// The session that a header profile, a storage state and the cookie header
/// and accept-language given in the environment make.
pub fn session_bootstrap_from(
    profile: Option<HeaderProfile>,
    storage: Option<StorageStateBootstrap>,
    env_cookie_header: Option<String>,
    env_accept_language: Option<String>,
) -> (r: SessionBootstrap)
    ensures
        session_from(r, profile, storage, opt_view(env_cookie_header), opt_view(env_accept_language)),
{
    let ghost gp = profile;
    let ghost gs = storage;
    let (p_lang, p_origin, p_referer, api_accept_language, api_origin, api_referer, bv, dp) =
        match profile {
        Some(p) => (
            p.accept_language,
            p.origin,
            p.referer,
            p.api_accept_language,
            p.api_origin,
            p.api_referer,
            p.browser_verified_api_probe_status,
            p.direct_probe_status,
        ),
        None => (None, None, None, None, None, None, None, None),
    };
    let (cookie_jar, s_header, s_lang, s_origin, s_referer) = match storage {
        Some(b) => (b.cookies, b.cookie_header, b.accept_language, b.origin, b.referer),
        None => (Vec::new(), None, None, None, None),
    };
    assert(cookie_views(cookie_jar@) =~= match gs {
        Some(b) => cookie_views(b.cookies@),
        None => Seq::<CookieView>::empty(),
    });
    let env_header = match env_cookie_header {
        Some(h) => normalize_cookie_header(h.as_str()),
        None => None,
    };
    let cookie_header = merge_cookie_headers(env_header, s_header);
    let env_lang = match env_accept_language {
        Some(l) => normalize_header_value(l.as_str()),
        None => None,
    };
    let accept_language = match env_lang {
        Some(l) => l,
        None => pick_text(p_lang, s_lang, "ru-RU,ru;q=0.9,en;q=0.8"),
    };
    let origin = pick_text(p_origin, s_origin, "https://www.ligastavok.ru");
    let referer = pick_text(p_referer, s_referer, "https://www.ligastavok.ru/");
    SessionBootstrap {
        cookie_jar,
        cookie_header,
        accept_language,
        origin,
        referer,
        api_accept_language,
        api_origin,
        api_referer,
        browser_verified_api_probe_status: bv,
        direct_probe_status: dp,
    }
}

/// The names of the header parts that are `name=...` with a non-empty
/// trimmed name.
pub open spec fn header_names(parts: Seq<Seq<char>>) -> Seq<Seq<char>>
    decreases parts.len(),
{
    if parts.len() == 0 {
        Seq::empty()
    } else {
        let rest = header_names(parts.drop_last());
        let p = parts.last();
        if p.contains('=') && trim(before_char(p, '=')).len() > 0 {
            rest.push(trim(before_char(p, '=')))
        } else {
            rest
        }
    }
}

/// The names of the cookies of the jar.
pub open spec fn jar_names(s: Seq<BootstrapCookie>) -> Seq<Seq<char>> {
    s.map_values(|c: BootstrapCookie| c.name@)
}

/// Every cookie name the session carries: the jar's, then the cookie
/// header's.
pub open spec fn raw_cookie_names(b: SessionBootstrap) -> Seq<Seq<char>> {
    jar_names(b.cookie_jar@) + match b.cookie_header {
        Some(h) => header_names(nonempty_trimmed(split_char(h@, ';'))),
        None => Seq::empty(),
    }
}

/// Whether `a` sorts before `b` by their ASCII-lowercase forms.
pub open spec fn lower_before(a: Seq<char>, b: Seq<char>) -> bool {
    lex_lt(ascii_lower_seq(a), ascii_lower_seq(b))
}

/// `x` put into `s` before the first name it sorts before.
pub open spec fn insert_name(s: Seq<Seq<char>>, x: Seq<char>) -> Seq<Seq<char>>
    decreases s.len(),
{
    if s.len() == 0 {
        seq![x]
    } else if lower_before(x, s[0]) {
        seq![x] + s
    } else {
        seq![s[0]] + insert_name(s.drop_first(), x)
    }
}

/// The names sorted by their ASCII-lowercase forms, ties in order (a stable
/// sort).
pub open spec fn sort_names(s: Seq<Seq<char>>) -> Seq<Seq<char>>
    decreases s.len(),
{
    if s.len() == 0 {
        s
    } else {
        insert_name(sort_names(s.drop_last()), s.last())
    }
}

/// The names without each one equal (ignoring ASCII case) to the name kept
/// just before it (`dedup_by`).
pub open spec fn dedup_runs(s: Seq<Seq<char>>) -> Seq<Seq<char>>
    decreases s.len(),
{
    if s.len() == 0 {
        s
    } else {
        let rest = dedup_runs(s.drop_last());
        if rest.len() > 0 && ascii_lower_seq(rest.last()) == ascii_lower_seq(s.last()) {
            rest
        } else {
            rest.push(s.last())
        }
    }
}

/// The session's cookie names, sorted ignoring ASCII case, one per name.
pub open spec fn cookie_names(b: SessionBootstrap) -> Seq<Seq<char>> {
    dedup_runs(sort_names(raw_cookie_names(b)))
}

/// A cookie name that the QRATOR protection sets.
pub open spec fn is_protection_name(name: Seq<char>) -> bool {
    let l = ascii_lower_seq(trim(name));
    has_prefix(l, "qrator_"@) || has_prefix(l, "__qrator"@) || has_prefix(l, "qauth_"@)
        || has_prefix(l, "qab"@)
}

/// How many names are not the protection's.
pub open spec fn unprotected_count(names: Seq<Seq<char>>) -> nat
    decreases names.len(),
{
    if names.len() == 0 {
        0
    } else {
        unprotected_count(names.drop_last()) + if is_protection_name(names.last()) {
            0nat
        } else {
            1nat
        }
    }
}

proof fn lemma_insert_name_at(s: Seq<Seq<char>>, x: Seq<char>, i: int)
    requires
        0 <= i <= s.len(),
        forall|k: int| 0 <= k < i ==> !lower_before(x, #[trigger] s[k]),
        i < s.len() ==> lower_before(x, s[i]),
    ensures
        insert_name(s, x) == s.take(i).push(x) + s.skip(i),
    decreases s.len(),
{
    if s.len() == 0 {
        assert(s.take(i).push(x) + s.skip(i) =~= seq![x]);
    } else if i == 0 {
        assert(s.take(0).push(x) + s.skip(0) =~= seq![x] + s);
    } else {
        assert forall|k: int| 0 <= k < i - 1 implies !lower_before(x, #[trigger] s.drop_first()[k]) by {
            assert(s.drop_first()[k] == s[k + 1]);
        }
        if i - 1 < s.drop_first().len() {
            assert(s.drop_first()[i - 1] == s[i]);
        }
        lemma_insert_name_at(s.drop_first(), x, i - 1);
        assert(seq![s[0]] + (s.drop_first().take(i - 1).push(x) + s.drop_first().skip(i - 1)) =~= s.take(
            i,
        ).push(x) + s.skip(i));
    }
}

/// Whether `is_protection_name` holds of `name`.
pub fn is_protection_cookie_name(name: &str) -> (r: bool)
    ensures
        r == is_protection_name(name@),
{
    let t = trim_str(name);
    let l = ascii_lowercase(t.as_slice());
    starts_with(l.as_slice(), chars_of("qrator_").as_slice()) || starts_with(
        l.as_slice(),
        chars_of("__qrator").as_slice(),
    ) || starts_with(l.as_slice(), chars_of("qauth_").as_slice()) || starts_with(
        l.as_slice(),
        chars_of("qab").as_slice(),
    )
}

/// Sorts names by their ASCII-lowercase forms (stable), then drops each
/// one equal ignoring case to the one kept before it.
fn sorted_unique_names(v: Vec<String>) -> (r: Vec<String>)
    ensures
        crate::text::views(r@) == dedup_runs(sort_names(crate::text::views(v@))),
{
    let mut v = v;
    let ghost all = crate::text::views(v@);
    let n = v.len();
    let mut sorted: Vec<String> = Vec::new();
    let mut done: usize = 0;
    assert(all.skip(0) =~= all);
    assert(crate::text::views(sorted@) =~= sort_names(all.take(0)));
    while v.len() > 0
        invariant
            done + v@.len() == n,
            all.len() == n,
            crate::text::views(v@) == all.skip(done as int),
            crate::text::views(sorted@) == sort_names(all.take(done as int)),
        decreases v@.len(),
    {
        let ghost before_v = v@;
        let x = v.remove(0);
        assert(crate::text::views(before_v)[0] == x@);
        assert(all.skip(done as int)[0] == all[done as int]);
        assert(v@ =~= before_v.drop_first());
        assert(crate::text::views(v@) =~= crate::text::views(before_v).drop_first());
        assert(all.skip(done as int).drop_first() =~= all.skip(done + 1));
        let ghost cur = crate::text::views(sorted@);
        let xl = ascii_lower_text(x.as_str());
        let mut i: usize = 0;
        while i < sorted.len() && !lex_less(xl.as_str(), ascii_lower_text(sorted[i].as_str()).as_str())
            invariant
                i <= sorted@.len(),
                crate::text::views(sorted@) == cur,
                xl@ == ascii_lower_seq(x@),
                forall|k: int| 0 <= k < i ==> !lower_before(x@, #[trigger] cur[k]),
            decreases sorted@.len() - i,
        {
            assert(cur[i as int] == sorted@[i as int]@);
            i = i + 1;
        }
        if i < sorted.len() {
            assert(cur[i as int] == sorted@[i as int]@);
        }
        proof {
            lemma_insert_name_at(cur, x@, i as int);
        }
        let ghost xv = x@;
        sorted.insert(i, x);
        assert(crate::text::views(sorted@) =~= cur.take(i as int).push(xv) + cur.skip(i as int));
        assert(all.take(done + 1).drop_last() =~= all.take(done as int));
        assert(all.take(done + 1).last() == all[done as int]);
        done = done + 1;
    }
    assert(all.take(n as int) =~= all);
    let ghost ss = crate::text::views(sorted@);
    let mut out: Vec<String> = Vec::new();
    let mut k: usize = 0;
    assert(ss.take(0) =~= Seq::<Seq<char>>::empty());
    assert(crate::text::views(out@) =~= dedup_runs(ss.take(0)));
    while k < sorted.len()
        invariant
            k <= sorted@.len(),
            ss == crate::text::views(sorted@),
            crate::text::views(out@) == dedup_runs(ss.take(k as int)),
        decreases sorted@.len() - k,
    {
        assert(ss.take(k + 1).drop_last() =~= ss.take(k as int));
        assert(ss.take(k + 1).last() == sorted@[k as int]@);
        let xl = ascii_lower_text(sorted[k].as_str());
        let keep = if out.len() == 0 {
            true
        } else {
            let ol = ascii_lower_text(out[out.len() - 1].as_str());
            assert(crate::text::views(out@).last() == out@[out@.len() - 1]@);
            !text_eq(ol.as_str(), xl.as_str())
        };
        if keep {
            let c = sorted[k].clone();
            let ghost before = crate::text::views(out@);
            out.push(c);
            assert(crate::text::views(out@) =~= before.push(sorted@[k as int]@));
        }
        k = k + 1;
    }
    assert(ss.take(ss.len() as int) =~= ss);
    out
}

impl SessionBootstrap {
    /// The session's cookie names, sorted ignoring ASCII case, one per
    /// name.
    pub fn bootstrap_cookie_names(&self) -> (r: Vec<String>)
        ensures
            crate::text::views(r@) == cookie_names(*self),
    {
        let mut names: Vec<String> = Vec::new();
        let mut i: usize = 0;
        while i < self.cookie_jar.len()
            invariant
                i <= self.cookie_jar@.len(),
                crate::text::views(names@) == jar_names(self.cookie_jar@.take(i as int)),
            decreases self.cookie_jar@.len() - i,
        {
            let c = self.cookie_jar[i].name.clone();
            let ghost before = crate::text::views(names@);
            names.push(c);
            assert(crate::text::views(names@) =~= before.push(self.cookie_jar@[i as int].name@));
            assert(jar_names(self.cookie_jar@.take(i + 1)) =~= jar_names(self.cookie_jar@.take(i as int)).push(
                self.cookie_jar@[i as int].name@,
            ));
            i = i + 1;
        }
        assert(self.cookie_jar@.take(self.cookie_jar@.len() as int) =~= self.cookie_jar@);
        let ghost base = crate::text::views(names@);
        match &self.cookie_header {
            Some(h) => {
                let pieces = split_text(h.as_str(), ';');
                let ghost ps = crate::text::views(pieces@);
                let mut parts: Vec<String> = Vec::new();
                let mut j: usize = 0;
                assert(ps.take(0) =~= Seq::<Seq<char>>::empty());
                assert(crate::text::views(parts@) =~= Seq::<Seq<char>>::empty());
                while j < pieces.len()
                    invariant
                        j <= pieces@.len(),
                        ps == crate::text::views(pieces@),
                        crate::text::views(parts@) == nonempty_trimmed(ps.take(j as int)),
                    decreases pieces@.len() - j,
                {
                    assert(ps.take(j + 1).drop_last() =~= ps.take(j as int));
                    assert(ps.take(j + 1).last() == pieces@[j as int]@);
                    let t = trim_str(pieces[j].as_str());
                    if t.len() > 0 {
                        let ts = string_of(t.as_slice());
                        let ghost before = crate::text::views(parts@);
                        parts.push(ts);
                        assert(crate::text::views(parts@) =~= before.push(ts@));
                    }
                    j = j + 1;
                }
                assert(ps.take(ps.len() as int) =~= ps);
                let ghost pv = crate::text::views(parts@);
                let mut k: usize = 0;
                assert(pv.take(0) =~= Seq::<Seq<char>>::empty());
                assert(base + header_names(pv.take(0)) =~= base);
                while k < parts.len()
                    invariant
                        k <= parts@.len(),
                        pv == crate::text::views(parts@),
                        crate::text::views(names@) == base + header_names(pv.take(k as int)),
                    decreases parts@.len() - k,
                {
                    assert(pv.take(k + 1).drop_last() =~= pv.take(k as int));
                    assert(pv.take(k + 1).last() == parts@[k as int]@);
                    let part = chars_of(parts[k].as_str());
                    if char_in(part.as_slice(), '=') {
                        let head = crate::text::text_before_char(parts[k].as_str(), '=');
                        let t = trim_str(head.as_str());
                        if t.len() > 0 {
                            let ts = string_of(t.as_slice());
                            let ghost before = crate::text::views(names@);
                            names.push(ts);
                            assert(crate::text::views(names@) =~= before.push(ts@));
                            assert(base + header_names(pv.take(k + 1)) =~= (base + header_names(
                                pv.take(k as int),
                            )).push(ts@));
                        }
                    }
                    k = k + 1;
                }
                assert(pv.take(pv.len() as int) =~= pv);
            },
            None => {
                assert(base + Seq::<Seq<char>>::empty() =~= base);
            },
        }
        sorted_unique_names(names)
    }
}

impl SessionBootstrap {
    /// The session carries cookies.
    pub open spec fn with_cookies(self) -> bool {
        self.cookie_header is Some || self.cookie_jar@.len() > 0
    }

    /// Some cookie of the session is not the protection's.
    pub open spec fn validated(self) -> bool {
        unprotected_count(cookie_names(self)) > 0
    }

    /// A browser-verified API probe succeeded (a status from 200 to 399).
    pub open spec fn browser_verified(self) -> bool {
        self.browser_verified_api_probe_status matches Some(st) && 200 <= st < 400
    }

    /// A direct API probe succeeded (a status from 200 to 399).
    pub open spec fn direct_success(self) -> bool {
        self.direct_probe_status matches Some(st) && 200 <= st < 400
    }

    /// Some header value differs from the defaults, or a probe status was
    /// recorded.
    pub open spec fn with_headers(self) -> bool {
        ||| self.accept_language@ != default_accept_language()
        ||| self.origin@ != base_url()
        ||| self.referer@ != root_referer()
        ||| self.api_accept_language is Some
        ||| self.api_origin is Some
        ||| self.api_referer is Some
        ||| self.browser_verified_api_probe_status is Some
        ||| self.direct_probe_status is Some
    }

    /// The blocker the session leaves.
    pub open spec fn blocker(self) -> SessionBootstrapBlocker {
        if self.validated() {
            SessionBootstrapBlocker::Ready
        } else if self.with_cookies() && !self.browser_verified() {
            SessionBootstrapBlocker::ProtectionOnlyUnverifiedApi
        } else if self.with_cookies() {
            SessionBootstrapBlocker::ProtectionOnly
        } else if self.with_headers() {
            SessionBootstrapBlocker::HeaderOnly
        } else {
            SessionBootstrapBlocker::BootstrapUnavailable
        }
    }
}

fn count_unprotected(names: &Vec<String>) -> (r: usize)
    ensures
        r == unprotected_count(crate::text::views(names@)),
{
    let ghost ns = crate::text::views(names@);
    let mut n: usize = 0;
    let mut i: usize = 0;
    assert(ns.take(0) =~= Seq::<Seq<char>>::empty());
    while i < names.len()
        invariant
            i <= names@.len(),
            ns == crate::text::views(names@),
            n == unprotected_count(ns.take(i as int)),
            n <= i,
        decreases names@.len() - i,
    {
        assert(ns.take(i + 1).drop_last() =~= ns.take(i as int));
        assert(ns.take(i + 1).last() == names@[i as int]@);
        if !is_protection_cookie_name(names[i].as_str()) {
            n = n + 1;
        }
        i = i + 1;
    }
    assert(ns.take(ns.len() as int) =~= ns);
    n
}

/// The text of an optional value, or `-`.
pub open spec fn or_dash(o: Option<Seq<char>>) -> Seq<char> {
    match o {
        Some(x) => x,
        None => "-"@,
    }
}

/// A recorded status as decimal text, or `-`.
pub open spec fn status_text(o: Option<u16>) -> Seq<char> {
    match o {
        Some(st) => crate::text::dec(st as nat),
        None => "-"@,
    }
}

/// The one-line summary of the session that errors and reports carry.
pub open spec fn session_summary(b: SessionBootstrap) -> Seq<char> {
    let names = cookie_names(b);
    let unprotected = unprotected_count(names);
    "bootstrap_blocker="@ + b.blocker().label_text() + "; validated_session_bootstrap="@
        + crate::text::bool_text(b.blocker() == SessionBootstrapBlocker::Ready) + "; cookie_names="@
        + (if names.len() == 0 {
        "-"@
    } else {
        join(names, "|"@)
    }) + "; cookie_count="@ + crate::text::dec(names.len()) + "; non_protection_cookie_count="@
        + crate::text::dec(unprotected) + "; protection_only="@ + crate::text::bool_text(
        names.len() > 0 && unprotected == 0,
    ) + "; has_manual_cookie_header="@ + crate::text::bool_text(b.cookie_header is Some)
        + "; accept_language="@ + b.accept_language@ + "; origin="@ + b.origin@ + "; referer="@
        + b.referer@ + "; api_accept_language="@ + or_dash(opt_view(b.api_accept_language))
        + "; api_origin="@ + or_dash(opt_view(b.api_origin)) + "; api_referer="@ + or_dash(
        opt_view(b.api_referer),
    ) + "; browser_verified_api_probe_status="@ + status_text(b.browser_verified_api_probe_status)
        + "; browser_verified_api_probe="@ + crate::text::bool_text(b.browser_verified())
        + "; direct_probe_status="@ + status_text(b.direct_probe_status) + "; direct_probe_success="@
        + crate::text::bool_text(b.direct_success())
}

fn push_or_dash(out: &mut String, o: &Option<String>)
    ensures
        final(out)@ == old(out)@ + or_dash(opt_view(*o)),
{
    match o {
        Some(x) => push_str(out, x.as_str()),
        None => push_str(out, "-"),
    }
}

fn push_status(out: &mut String, o: Option<u16>)
    ensures
        final(out)@ == old(out)@ + status_text(o),
{
    match o {
        Some(st) => crate::text::push_decimal(out, st as u64),
        None => push_str(out, "-"),
    }
}

impl SessionBootstrap {
    /// Whether the session carries cookies.
    pub fn has_cookie_bootstrap(&self) -> (r: bool)
        ensures
            r == self.with_cookies(),
    {
        self.cookie_header.is_some() || self.cookie_jar.len() > 0
    }

    /// Whether some cookie of the session is not the protection's.
    pub fn has_validated_session_bootstrap(&self) -> (r: bool)
        ensures
            r == self.validated(),
    {
        let names = self.bootstrap_cookie_names();
        count_unprotected(&names) > 0
    }

    /// Whether the session differs from the defaults in a header value or
    /// recorded a probe status.
    pub fn has_header_bootstrap(&self) -> (r: bool)
        ensures
            r == self.with_headers(),
    {
        !text_eq(self.accept_language.as_str(), "ru-RU,ru;q=0.9,en;q=0.8") || !text_eq(
            self.origin.as_str(),
            "https://www.ligastavok.ru",
        ) || !text_eq(self.referer.as_str(), "https://www.ligastavok.ru/")
            || self.api_accept_language.is_some() || self.api_origin.is_some()
            || self.api_referer.is_some() || self.browser_verified_api_probe_status.is_some()
            || self.direct_probe_status.is_some()
    }

    /// Whether a browser-verified API probe succeeded.
    pub fn has_browser_verified_api_probe(&self) -> (r: bool)
        ensures
            r == self.browser_verified(),
    {
        match self.browser_verified_api_probe_status {
            Some(st) => 200 <= st && st < 400,
            None => false,
        }
    }

    /// Whether a direct API probe succeeded.
    pub fn has_direct_probe_success(&self) -> (r: bool)
        ensures
            r == self.direct_success(),
    {
        match self.direct_probe_status {
            Some(st) => 200 <= st && st < 400,
            None => false,
        }
    }

    /// Whether the runtime may be tried with this session: a validated
    /// session, or cookies together with a browser-verified API probe.
    pub fn can_attempt_runtime_with_bootstrap(&self) -> (r: bool)
        ensures
            r == (self.validated() || (self.with_cookies() && self.browser_verified())),
    {
        self.has_validated_session_bootstrap() || (self.has_cookie_bootstrap()
            && self.has_browser_verified_api_probe())
    }

    /// The blocker the session leaves.
    pub fn session_bootstrap_blocker(&self) -> (r: SessionBootstrapBlocker)
        ensures
            r == self.blocker(),
    {
        if self.has_validated_session_bootstrap() {
            SessionBootstrapBlocker::Ready
        } else if self.has_cookie_bootstrap() && !self.has_browser_verified_api_probe() {
            SessionBootstrapBlocker::ProtectionOnlyUnverifiedApi
        } else if self.has_cookie_bootstrap() {
            SessionBootstrapBlocker::ProtectionOnly
        } else if self.has_header_bootstrap() {
            SessionBootstrapBlocker::HeaderOnly
        } else {
            SessionBootstrapBlocker::BootstrapUnavailable
        }
    }

    /// The one-line summary of the session.
    pub fn session_bootstrap_summary(&self) -> (r: String)
        ensures
            r@ == session_summary(*self),
    {
        let names = self.bootstrap_cookie_names();
        let unprotected = count_unprotected(&names);
        let blocker = self.session_bootstrap_blocker();
        let mut out = owned("bootstrap_blocker=");
        push_str(&mut out, blocker.label());
        push_str(&mut out, "; validated_session_bootstrap=");
        crate::text::push_bool(&mut out, blocker == SessionBootstrapBlocker::Ready);
        push_str(&mut out, "; cookie_names=");
        if names.len() == 0 {
            push_str(&mut out, "-");
        } else {
            crate::text::push_joined(&mut out, names.as_slice(), "|");
        }
        push_str(&mut out, "; cookie_count=");
        crate::text::push_decimal(&mut out, names.len() as u64);
        push_str(&mut out, "; non_protection_cookie_count=");
        crate::text::push_decimal(&mut out, unprotected as u64);
        push_str(&mut out, "; protection_only=");
        crate::text::push_bool(&mut out, names.len() > 0 && unprotected == 0);
        push_str(&mut out, "; has_manual_cookie_header=");
        crate::text::push_bool(&mut out, self.cookie_header.is_some());
        push_str(&mut out, "; accept_language=");
        push_str(&mut out, self.accept_language.as_str());
        push_str(&mut out, "; origin=");
        push_str(&mut out, self.origin.as_str());
        push_str(&mut out, "; referer=");
        push_str(&mut out, self.referer.as_str());
        push_str(&mut out, "; api_accept_language=");
        push_or_dash(&mut out, &self.api_accept_language);
        push_str(&mut out, "; api_origin=");
        push_or_dash(&mut out, &self.api_origin);
        push_str(&mut out, "; api_referer=");
        push_or_dash(&mut out, &self.api_referer);
        push_str(&mut out, "; browser_verified_api_probe_status=");
        push_status(&mut out, self.browser_verified_api_probe_status);
        push_str(&mut out, "; browser_verified_api_probe=");
        crate::text::push_bool(&mut out, self.has_browser_verified_api_probe());
        push_str(&mut out, "; direct_probe_status=");
        push_status(&mut out, self.direct_probe_status);
        push_str(&mut out, "; direct_probe_success=");
        crate::text::push_bool(&mut out, self.has_direct_probe_success());
        out
    }
}

// ---------------------------------------------------------------------------
// Endpoints, payloads and response diagnostics
// ---------------------------------------------------------------------------

/// A page the parser warms up on and the feed namespace it stands for.
#[derive(Clone, Copy, Debug)]
pub struct Endpoint {
    pub referer: &'static str,
    pub route_hint: &'static str,
    pub namespace: &'static str,
}

/// The Liga Stavok parser: its HTTP client, its two endpoints (prematch
/// line and live) and its session bootstrap.
pub struct LigaStavokParser {
    pub client: std::sync::Arc<reqwest::Client>,
    pub endpoints: Vec<Endpoint>,
    pub bootstrap: SessionBootstrap,
}

/// Whether `e` is the endpoint with these parts.
pub open spec fn endpoint_is(e: Endpoint, referer: Seq<char>, hint: Seq<char>, ns: Seq<char>) -> bool {
    e.referer@ == referer && e.route_hint@ == hint && e.namespace@ == ns
}

impl LigaStavokParser {
    /// A parser on `client` with the session `bootstrap`.
    pub fn new(client: std::sync::Arc<reqwest::Client>, bootstrap: SessionBootstrap) -> (r: LigaStavokParser)
        ensures
            r.client == client,
            r.bootstrap == bootstrap,
            r.endpoints@.len() == 2,
            endpoint_is(r.endpoints@[0], "https://www.ligastavok.ru/line/football"@, "line"@, "prematch"@),
            endpoint_is(r.endpoints@[1], "https://www.ligastavok.ru/live/football"@, "live"@, "live"@),
    {
        let endpoints = vec![
            Endpoint {
                referer: "https://www.ligastavok.ru/line/football",
                route_hint: "line",
                namespace: "prematch",
            },
            Endpoint {
                referer: "https://www.ligastavok.ru/live/football",
                route_hint: "live",
                namespace: "live",
            },
        ];
        LigaStavokParser { client, endpoints, bootstrap }
    }

    /// The endpoint of `namespace`; the first endpoint where none has it.
    pub fn endpoint_for_namespace(&self, namespace: &str) -> (r: Endpoint)
        requires
            self.endpoints@.len() > 0,
        ensures
            (exists|i: int| 0 <= i < self.endpoints@.len() && self.endpoints@[i].namespace@ == namespace@) ==> {
                &&& r.namespace@ == namespace@
                &&& exists|i: int| 0 <= i < self.endpoints@.len() && self.endpoints@[i] == r
                    && forall|j: int| 0 <= j < i ==> self.endpoints@[j].namespace@ != namespace@
            },
            !(exists|i: int| 0 <= i < self.endpoints@.len() && self.endpoints@[i].namespace@ == namespace@)
                ==> r == self.endpoints@[0],
    {
        let mut i: usize = 0;
        while i < self.endpoints.len()
            invariant
                i <= self.endpoints@.len(),
                forall|j: int| 0 <= j < i ==> self.endpoints@[j].namespace@ != namespace@,
            decreases self.endpoints@.len() - i,
        {
            if text_eq(self.endpoints[i].namespace, namespace) {
                return self.endpoints[i];
            }
            i = i + 1;
        }
        self.endpoints[0]
    }
}

/// The namespaces an events-list request tries for a namespace: the
/// prematch line also answers as `line`.
pub open spec fn payload_namespaces(ns: Seq<char>) -> Seq<Seq<char>> {
    if ns == "prematch"@ {
        seq!["prematch"@, "line"@]
    } else if ns == "live"@ {
        seq!["live"@]
    } else {
        seq![ns]
    }
}

/// The namespaces an events-list request tries for `namespace`.
pub fn namespace_payload_candidates(namespace: &str) -> (r: Vec<&str>)
    ensures
        key_texts(r@) == payload_namespaces(namespace@),
{
    if text_eq(namespace, "prematch") {
        let r = vec!["prematch", "line"];
        assert(key_texts(r@) =~= seq!["prematch"@, "line"@]);
        r
    } else if text_eq(namespace, "live") {
        let r = vec!["live"];
        assert(key_texts(r@) =~= seq!["live"@]);
        r
    } else {
        let r = vec![namespace];
        assert(key_texts(r@) =~= seq![namespace@]);
        r
    }
}

fn member(key: &str, value: JsonValue) -> (r: crate::json::JsonMember)
    ensures
        r.key@ == key@,
        r.value == value,
{
    crate::json::JsonMember { key: owned(key), value }
}

fn str_value(s: &str) -> (r: JsonValue)
    ensures
        r matches JsonValue::Str(x) && x@ == s@,
{
    JsonValue::Str(owned(s))
}

/// Whether `v` is the string `s`.
pub open spec fn is_text_value(v: JsonValue, s: Seq<char>) -> bool {
    v matches JsonValue::Str(x) && x@ == s
}

/// Whether `v` is an array holding just `x`.
pub open spec fn is_single(v: JsonValue, x: JsonValue) -> bool {
    v matches JsonValue::Array(a) && a@.len() == 1 && a@[0] == x
}

/// Whether `v` is an array holding just the string `s`.
pub open spec fn is_single_text(v: JsonValue, s: Seq<char>) -> bool {
    v matches JsonValue::Array(a) && a@.len() == 1 && is_text_value(a@[0], s)
}

/// Whether `v` is the events-list request body for `sport_id`, page `skip`
/// (of 200) and `namespace`, stamped `ts`: members `gameId` [sport],
/// `sportId`, `limit`, `skip`, `topEvents` false, `ts`, `widgetVideo`
/// false, `filters` {}, `lineType` "home", `method` "standard", `ns`
/// [namespace], `proposedType` "MAINOFFER", `proposedTypes` ["MAINOFFER"],
/// in that order.
pub open spec fn is_events_payload(v: JsonValue, sport_id: u32, namespace: Seq<char>, skip: u32, ts: i64) -> bool {
    &&& v matches JsonValue::Object(ms)
    &&& ({
        let ms = match v {
            JsonValue::Object(m) => m@,
            _ => Seq::empty(),
        };
        &&& ms.len() == 13
        &&& ms[0].key@ == "gameId"@
        &&& is_single(ms[0].value, JsonValue::Number(JsonNumber::PosInt(sport_id as u64)))
        &&& ms[1].key@ == "sportId"@
        &&& ms[1].value == JsonValue::Number(JsonNumber::PosInt(sport_id as u64))
        &&& ms[2].key@ == "limit"@
        &&& ms[2].value == JsonValue::Number(JsonNumber::PosInt(200))
        &&& ms[3].key@ == "skip"@
        &&& ms[3].value == JsonValue::Number(JsonNumber::PosInt(skip as u64))
        &&& ms[4].key@ == "topEvents"@
        &&& ms[4].value == JsonValue::Bool(false)
        &&& ms[5].key@ == "ts"@
        &&& ms[5].value == (if ts >= 0 {
            JsonValue::Number(JsonNumber::PosInt(ts as u64))
        } else {
            JsonValue::Number(JsonNumber::NegInt(ts))
        })
        &&& ms[6].key@ == "widgetVideo"@
        &&& ms[6].value == JsonValue::Bool(false)
        &&& ms[7].key@ == "filters"@
        &&& (ms[7].value matches JsonValue::Object(f) && f@.len() == 0)
        &&& ms[8].key@ == "lineType"@
        &&& is_text_value(ms[8].value, "home"@)
        &&& ms[9].key@ == "method"@
        &&& is_text_value(ms[9].value, "standard"@)
        &&& ms[10].key@ == "ns"@
        &&& is_single_text(ms[10].value, namespace)
        &&& ms[11].key@ == "proposedType"@
        &&& is_text_value(ms[11].value, "MAINOFFER"@)
        &&& ms[12].key@ == "proposedTypes"@
        &&& is_single_text(ms[12].value, "MAINOFFER"@)
    })
}

/// The events-list request body for `sport_id`, page `skip` and `namespace`,
/// stamped `ts` (milliseconds since the epoch).
pub fn events_payload_at(sport_id: u32, namespace: &str, skip: u32, ts: i64) -> (r: JsonValue)
    ensures
        is_events_payload(r, sport_id, namespace@, skip, ts),
{
    let ts_value = if ts >= 0 {
        JsonValue::Number(JsonNumber::PosInt(ts as u64))
    } else {
        JsonValue::Number(JsonNumber::NegInt(ts))
    };
    let mut ms: Vec<crate::json::JsonMember> = Vec::new();
    ms.push(member("gameId", JsonValue::Array(vec![JsonValue::Number(JsonNumber::PosInt(sport_id as u64))])));
    ms.push(member("sportId", JsonValue::Number(JsonNumber::PosInt(sport_id as u64))));
    ms.push(member("limit", JsonValue::Number(JsonNumber::PosInt(200))));
    ms.push(member("skip", JsonValue::Number(JsonNumber::PosInt(skip as u64))));
    ms.push(member("topEvents", JsonValue::Bool(false)));
    ms.push(member("ts", ts_value));
    ms.push(member("widgetVideo", JsonValue::Bool(false)));
    ms.push(member("filters", JsonValue::Object(Vec::new())));
    ms.push(member("lineType", str_value("home")));
    ms.push(member("method", str_value("standard")));
    ms.push(member("ns", JsonValue::Array(vec![str_value(namespace)])));
    ms.push(member("proposedType", str_value("MAINOFFER")));
    ms.push(member("proposedTypes", JsonValue::Array(vec![str_value("MAINOFFER")])));
    JsonValue::Object(ms)
}

/// Whether a response body is the QRATOR protection page, read in its
/// lowercase form.
pub open spec fn protection_page(lower: Seq<char>) -> bool {
    has_infix_any5(
        lower,
        "qauth_show_captcha"@,
        "доступ заблокирован системой защиты"@,
        "please, complete the captcha"@,
        "__qrator"@,
        "tag: qab"@,
    )
}

/// Whether `s` holds one of five texts.
pub open spec fn has_infix_any5(
    s: Seq<char>,
    a: Seq<char>,
    b: Seq<char>,
    c: Seq<char>,
    d: Seq<char>,
    e: Seq<char>,
) -> bool {
    crate::text::has_infix(s, a) || crate::text::has_infix(s, b) || crate::text::has_infix(s, c)
        || crate::text::has_infix(s, d) || crate::text::has_infix(s, e)
}

/// Whether a response body is the QRATOR protection page.
pub fn looks_like_protection_page(body: &str) -> (r: bool)
    ensures
        r == protection_page(crate::text::unicode_lower(body@)),
{
    let lower = crate::text::to_lowercase(body);
    let l = lower.as_str();
    crate::text::str_contains(l, "qauth_show_captcha") || crate::text::str_contains(
        l,
        "доступ заблокирован системой защиты",
    ) || crate::text::str_contains(l, "please, complete the captcha") || crate::text::str_contains(
        l,
        "__qrator",
    ) || crate::text::str_contains(l, "tag: qab")
}

/// The name of a value's JSON type.
pub open spec fn json_kind(v: JsonValue) -> Seq<char> {
    match v {
        JsonValue::Null => "null"@,
        JsonValue::Bool(_) => "bool"@,
        JsonValue::Number(_) => "number"@,
        JsonValue::Str(_) => "string"@,
        JsonValue::Array(_) => "array"@,
        JsonValue::Object(_) => "object"@,
    }
}

/// The name of a value's JSON type.
pub fn json_type(value: &JsonValue) -> (r: &'static str)
    ensures
        r@ == json_kind(*value),
{
    match value {
        JsonValue::Null => "null",
        JsonValue::Bool(_) => "bool",
        JsonValue::Number(_) => "number",
        JsonValue::Str(_) => "string",
        JsonValue::Array(_) => "array",
        JsonValue::Object(_) => "object",
    }
}

/// What `top_level_keys` says of `v`: for an object, its keys sorted and
/// joined by `,` (`<none>` where it has none); for another value, its type.
pub open spec fn top_keys_text(v: JsonValue, r: Seq<char>) -> bool {
    match v {
        JsonValue::Object(ms) => if ms@.len() == 0 {
            r == "<none>"@
        } else {
            exists|ks: Seq<Seq<char>>|
                ks.to_multiset() == ms@.map_values(|m: crate::json::JsonMember| m.key@).to_multiset()
                    && crate::text::is_sorted_texts(ks) && r == join(ks, ","@)
        },
        _ => r == json_kind(v),
    }
}

/// The keys of an object, sorted and joined by `,`; the type of anything
/// else.
pub fn top_level_keys(json: &JsonValue) -> (r: String)
    ensures
        top_keys_text(*json, r@),
{
    match json {
        JsonValue::Object(ms) => {
            let mut keys: Vec<String> = Vec::new();
            let mut i: usize = 0;
            while i < ms.len()
                invariant
                    i <= ms@.len(),
                    crate::text::views(keys@) == ms@.take(i as int).map_values(
                        |m: crate::json::JsonMember| m.key@,
                    ),
                decreases ms@.len() - i,
            {
                let k = ms[i].key.clone();
                let ghost before = crate::text::views(keys@);
                keys.push(k);
                assert(crate::text::views(keys@) =~= before.push(ms@[i as int].key@));
                assert(ms@.take(i + 1).map_values(|m: crate::json::JsonMember| m.key@) =~= ms@.take(
                    i as int,
                ).map_values(|m: crate::json::JsonMember| m.key@).push(ms@[i as int].key@));
                i = i + 1;
            }
            assert(ms@.take(ms@.len() as int) =~= ms@);
            if keys.len() == 0 {
                return owned("<none>");
            }
            let sorted = crate::text::sort_strings(keys);
            let mut out = String::new();
            crate::text::push_joined(&mut out, sorted.as_slice(), ",");
            assert(out@ =~= join(crate::text::views(sorted@), ","@));
            out
        },
        _ => owned(json_type(json)),
    }
}

/// What a filter or tournament-tree response without usable sports shows:
/// an empty `result`, a `result` with entries of which none counts (`what`
/// says which count), a `result` of another type, or no `result` at all.
pub open spec fn branch_payload_text(json: JsonValue, what: Seq<char>, r: Seq<char>) -> bool {
    match jget(json, "result"@) {
        Some(JsonValue::Array(items)) => if items@.len() == 0 {
            r == "result array is empty"@
        } else {
            r == "result array has "@ + crate::text::dec(items@.len()) + " entries but none with "@ + what
        },
        Some(other) => r == "result is "@ + json_kind(other) + " instead of an array"@,
        None => exists|keys: Seq<char>| top_keys_text(json, keys) && r == "result key is missing; top-level keys: "@ + keys,
    }
}

fn describe_branch_payload(json: &JsonValue, what: &str) -> (r: String)
    ensures
        branch_payload_text(*json, what@, r@),
{
    match get(json, "result") {
        Some(JsonValue::Array(items)) => if items.len() == 0 {
            owned("result array is empty")
        } else {
            let mut out = owned("result array has ");
            crate::text::push_decimal(&mut out, items.len() as u64);
            push_str(&mut out, " entries but none with ");
            push_str(&mut out, what);
            out
        },
        Some(other) => {
            let mut out = owned("result is ");
            push_str(&mut out, json_type(other));
            push_str(&mut out, " instead of an array");
            out
        },
        None => {
            let keys = top_level_keys(json);
            let mut out = owned("result key is missing; top-level keys: ");
            push_str(&mut out, keys.as_str());
            out
        },
    }
}

/// Why a filter response gave no sport.
pub fn describe_filter_payload(json: &JsonValue) -> (r: String)
    ensures
        branch_payload_text(*json, "positive totals"@, r@),
{
    describe_branch_payload(json, "positive totals")
}

/// Why a tournament-tree response gave no sport.
pub fn describe_tournament_tree_payload(json: &JsonValue) -> (r: String)
    ensures
        branch_payload_text(*json, "non-zero sport totals"@, r@),
{
    describe_branch_payload(json, "non-zero sport totals")
}

/// The namespaces (`ns` strings) of the first items that have one, at most
/// three.
pub open spec fn namespaces_of(items: Seq<JsonValue>) -> Seq<Seq<char>>
    decreases items.len(),
{
    if items.len() == 0 {
        Seq::empty()
    } else {
        let rest = namespaces_of(items.drop_last());
        if rest.len() >= 3 {
            rest
        } else {
            match text_of(jget(items.last(), "ns"@)) {
                Some(ns) => rest.push(ns),
                None => rest,
            }
        }
    }
}

/// What an events-list response shows: its `result.data` (with the first
/// namespaces), else its `data`, else that neither is there.
pub open spec fn events_payload_text(json: JsonValue, r: Seq<char>) -> bool {
    match crate::json::array_of(jget_opt(jget(json, "result"@), "data"@)) {
        Some(items) => {
            let ns = namespaces_of(items);
            if items.len() == 0 {
                r == "result.data is present but empty"@
            } else if ns.len() == 0 {
                r == "result.data has "@ + crate::text::dec(items.len()) + " entries"@
            } else {
                r == "result.data has "@ + crate::text::dec(items.len()) + " entries with namespaces "@
                    + join(ns, ","@)
            }
        },
        None => match crate::json::array_of(jget(json, "data"@)) {
            Some(items) => if items.len() == 0 {
                r == "data is present but empty"@
            } else {
                r == "data has "@ + crate::text::dec(items.len()) + " entries"@
            },
            None => exists|keys: Seq<char>|
                top_keys_text(json, keys) && r == "schema does not expose result.data or data arrays (result="@
                    + match jget(json, "result"@) {
                    Some(x) => json_kind(x),
                    None => "missing"@,
                } + "; top-level keys: "@ + keys + ")"@,
        },
    }
}

/// What an events-list response shows.
pub fn describe_events_list_payload(json: &JsonValue) -> (r: String)
    ensures
        events_payload_text(*json, r@),
{
    let data = match get(json, "result") {
        Some(res) => crate::json::array_field(res, "data"),
        None => None,
    };
    match data {
        Some(items) => {
            let mut ns: Vec<String> = Vec::new();
            let mut i: usize = 0;
            assert(items@.take(0) =~= Seq::<JsonValue>::empty());
            assert(crate::text::views(ns@) =~= Seq::<Seq<char>>::empty());
            while i < items.len()
                invariant
                    i <= items@.len(),
                    crate::text::views(ns@) == namespaces_of(items@.take(i as int)),
                decreases items@.len() - i,
            {
                assert(items@.take(i + 1).drop_last() =~= items@.take(i as int));
                assert(items@.take(i + 1).last() == items@[i as int]);
                if ns.len() < 3 {
                    match get(&items[i], "ns") {
                        Some(JsonValue::Str(x)) => {
                            let ghost before = crate::text::views(ns@);
                            ns.push(x.clone());
                            assert(crate::text::views(ns@) =~= before.push(x@));
                        },
                        _ => {},
                    }
                }
                i = i + 1;
            }
            assert(items@.take(items@.len() as int) =~= items@);
            if items.len() == 0 {
                owned("result.data is present but empty")
            } else if ns.len() == 0 {
                let mut out = owned("result.data has ");
                crate::text::push_decimal(&mut out, items.len() as u64);
                push_str(&mut out, " entries");
                out
            } else {
                let mut out = owned("result.data has ");
                crate::text::push_decimal(&mut out, items.len() as u64);
                push_str(&mut out, " entries with namespaces ");
                crate::text::push_joined(&mut out, ns.as_slice(), ",");
                out
            }
        },
        None => match crate::json::array_field(json, "data") {
            Some(items) => if items.len() == 0 {
                owned("data is present but empty")
            } else {
                let mut out = owned("data has ");
                crate::text::push_decimal(&mut out, items.len() as u64);
                push_str(&mut out, " entries");
                out
            },
            None => {
                let shape = match get(json, "result") {
                    Some(x) => json_type(x),
                    None => "missing",
                };
                let keys = top_level_keys(json);
                let mut out = owned("schema does not expose result.data or data arrays (result=");
                push_str(&mut out, shape);
                push_str(&mut out, "; top-level keys: ");
                push_str(&mut out, keys.as_str());
                push_str(&mut out, ")");
                out
            },
        },
    }
}

// ---------------------------------------------------------------------------
// Sport catalog
// ---------------------------------------------------------------------------

/// A sport of the tournament tree, with its event totals.
#[derive(Debug, PartialEq, Eq)]
pub struct SportCatalogEntry {
    pub sport_id: u32,
    pub sport_name: String,
    pub total: usize,
    pub total_live: usize,
    pub filter_live_total: Option<usize>,
}

/// A sport of the live filter, with its event total.
#[derive(Debug, PartialEq, Eq)]
pub struct FilterCatalogEntry {
    pub sport_id: u32,
    pub sport_name: Option<String>,
    pub total: usize,
}

/// A catalog sport as plain values.
pub struct SportView {
    pub sport_id: u32,
    pub sport_name: Seq<char>,
    pub total: usize,
    pub total_live: usize,
    pub filter_live_total: Option<usize>,
}

impl View for SportCatalogEntry {
    type V = SportView;

    open spec fn view(&self) -> SportView {
        SportView {
            sport_id: self.sport_id,
            sport_name: self.sport_name@,
            total: self.total,
            total_live: self.total_live,
            filter_live_total: self.filter_live_total,
        }
    }
}

/// A filter sport as plain values.
pub struct FilterView {
    pub sport_id: u32,
    pub sport_name: Option<Seq<char>>,
    pub total: usize,
}

impl View for FilterCatalogEntry {
    type V = FilterView;

    open spec fn view(&self) -> FilterView {
        FilterView { sport_id: self.sport_id, sport_name: opt_view(self.sport_name), total: self.total }
    }
}

/// The views of catalog sports.
pub open spec fn sport_views(s: Seq<SportCatalogEntry>) -> Seq<SportView> {
    s.map_values(|e: SportCatalogEntry| e@)
}

/// The views of filter sports.
pub open spec fn filter_views(s: Seq<FilterCatalogEntry>) -> Seq<FilterView> {
    s.map_values(|e: FilterCatalogEntry| e@)
}

/// The items of a response's `result` array (none where it is not one).
pub open spec fn result_items(json: JsonValue) -> Seq<JsonValue> {
    match crate::json::array_of(jget(json, "result"@)) {
        Some(items) => items,
        None => Seq::empty(),
    }
}

/// A count read as `as_u64().unwrap_or(0) as usize`.
pub open spec fn count_of(o: Option<JsonValue>) -> usize {
    crate::json::u64_or_zero(o) as usize
}

/// The sport a tournament-tree item gives: an integer `gameId` (cut to
/// `u32`), its trimmed `gameTitle` (by default `unknown`), its totals; none
/// where the title is blank or the total zero.
pub open spec fn tree_sport(item: JsonValue) -> Option<SportView> {
    match u64_of(jget(item, "gameId"@)) {
        Some(id) => {
            let name = trim(
                match text_of(jget(item, "gameTitle"@)) {
                    Some(t) => t,
                    None => "unknown"@,
                },
            );
            let total = count_of(jget(item, "total"@));
            if name.len() == 0 || total == 0 {
                None
            } else {
                Some(
                    SportView {
                        sport_id: id as u32,
                        sport_name: name,
                        total,
                        total_live: count_of(jget(item, "totalLive"@)),
                        filter_live_total: None,
                    },
                )
            }
        },
        None => None,
    }
}

/// The sports of tournament-tree items, in order.
pub open spec fn tree_sports(items: Seq<JsonValue>) -> Seq<SportView>
    decreases items.len(),
{
    if items.len() == 0 {
        Seq::empty()
    } else {
        let rest = tree_sports(items.drop_last());
        match tree_sport(items.last()) {
            Some(x) => rest.push(x),
            None => rest,
        }
    }
}

fn count_field(v: &JsonValue, key: &str) -> (r: usize)
    ensures
        r == count_of(jget(*v, key@)),
{
    crate::json::u64_field(v, key) as usize
}

/// The sports of a tournament-tree response.
pub fn parse_tournament_tree(json: &JsonValue) -> (r: Vec<SportCatalogEntry>)
    ensures
        sport_views(r@) == tree_sports(result_items(*json)),
{
    let empty: Vec<JsonValue> = Vec::new();
    let items = match crate::json::array_field(json, "result") {
        Some(x) => x,
        None => &empty,
    };
    assert(items@ =~= result_items(*json));
    let mut out: Vec<SportCatalogEntry> = Vec::new();
    let mut i: usize = 0;
    assert(items@.take(0) =~= Seq::<JsonValue>::empty());
    assert(sport_views(out@) =~= Seq::<SportView>::empty());
    while i < items.len()
        invariant
            i <= items@.len(),
            items@ == result_items(*json),
            sport_views(out@) == tree_sports(items@.take(i as int)),
        decreases items@.len() - i,
    {
        assert(items@.take(i + 1).drop_last() =~= items@.take(i as int));
        assert(items@.take(i + 1).last() == items@[i as int]);
        let item = &items[i];
        match opt_u64_of(item, "gameId") {
            Some(id) => {
                let raw = match get(item, "gameTitle") {
                    Some(JsonValue::Str(t)) => t.as_str(),
                    _ => "unknown",
                };
                let name = string_of(trim_str(raw).as_slice());
                let total = count_field(item, "total");
                if !name.as_str().is_empty() && total != 0 {
                    let e = SportCatalogEntry {
                        sport_id: id as u32,
                        sport_name: name,
                        total,
                        total_live: count_field(item, "totalLive"),
                        filter_live_total: None,
                    };
                    let ghost before = sport_views(out@);
                    let ghost ev = e@;
                    out.push(e);
                    assert(sport_views(out@) =~= before.push(ev));
                }
            },
            None => {},
        }
        i = i + 1;
    }
    assert(items@.take(items@.len() as int) =~= items@);
    out
}

fn opt_u64_of(v: &JsonValue, key: &str) -> (r: Option<u64>)
    ensures
        r == u64_of(jget(*v, key@)),
{
    crate::json::opt_u64_field(v, key)
}

/// The sport a live-filter item gives: an integer `_id` (cut to `u32`),
/// the first of `title`, `name`, `gameTitle` that is there, where it is a
/// non-blank string (trimmed), and its total; none where the total is zero.
pub open spec fn filter_sport(item: JsonValue) -> Option<FilterView> {
    match u64_of(jget(item, "_id"@)) {
        Some(id) => {
            let total = count_of(jget(item, "total"@));
            let name = match text_of(or_else(jget(item, "title"@), or_else(jget(item, "name"@), jget(item, "gameTitle"@)))) {
                Some(t) => if trim(t).len() > 0 {
                    Some(trim(t))
                } else {
                    None
                },
                None => None,
            };
            if total == 0 {
                None
            } else {
                Some(FilterView { sport_id: id as u32, sport_name: name, total })
            }
        },
        None => None,
    }
}

/// The sports of live-filter items, in order.
pub open spec fn filter_sports(items: Seq<JsonValue>) -> Seq<FilterView>
    decreases items.len(),
{
    if items.len() == 0 {
        Seq::empty()
    } else {
        let rest = filter_sports(items.drop_last());
        match filter_sport(items.last()) {
            Some(x) => rest.push(x),
            None => rest,
        }
    }
}

/// The sports of a live-filter response.
pub fn parse_filter_catalog(json: &JsonValue) -> (r: Vec<FilterCatalogEntry>)
    ensures
        filter_views(r@) == filter_sports(result_items(*json)),
{
    let empty: Vec<JsonValue> = Vec::new();
    let items = match crate::json::array_field(json, "result") {
        Some(x) => x,
        None => &empty,
    };
    assert(items@ =~= result_items(*json));
    let mut out: Vec<FilterCatalogEntry> = Vec::new();
    let mut i: usize = 0;
    assert(items@.take(0) =~= Seq::<JsonValue>::empty());
    assert(filter_views(out@) =~= Seq::<FilterView>::empty());
    while i < items.len()
        invariant
            i <= items@.len(),
            items@ == result_items(*json),
            filter_views(out@) == filter_sports(items@.take(i as int)),
        decreases items@.len() - i,
    {
        assert(items@.take(i + 1).drop_last() =~= items@.take(i as int));
        assert(items@.take(i + 1).last() == items@[i as int]);
        let item = &items[i];
        match opt_u64_of(item, "_id") {
            Some(id) => {
                let total = count_field(item, "total");
                let found = first_of(get(item, "title"), first_of(get(item, "name"), get(item, "gameTitle")));
                let name = match found {
                    Some(JsonValue::Str(t)) => {
                        let tt = trim_str(t.as_str());
                        if tt.len() > 0 {
                            Some(string_of(tt.as_slice()))
                        } else {
                            None
                        }
                    },
                    _ => None,
                };
                if total != 0 {
                    let e = FilterCatalogEntry { sport_id: id as u32, sport_name: name, total };
                    let ghost before = filter_views(out@);
                    let ghost ev = e@;
                    out.push(e);
                    assert(filter_views(out@) =~= before.push(ev));
                }
            },
            None => {},
        }
        i = i + 1;
    }
    assert(items@.take(items@.len() as int) =~= items@);
    out
}

/// The live total of the last filter sport with `id`.
pub open spec fn filter_total(f: Seq<FilterView>, id: u32) -> Option<usize>
    decreases f.len(),
{
    if f.len() == 0 {
        None
    } else if f.last().sport_id == id {
        Some(f.last().total)
    } else {
        filter_total(f.drop_last(), id)
    }
}

/// The catalog sports with their live totals from the filter.
pub open spec fn annotated(sports: Seq<SportView>, f: Seq<FilterView>) -> Seq<SportView> {
    sports.map_values(|s: SportView| SportView { filter_live_total: filter_total(f, s.sport_id), ..s })
}

/// Whether a sport with `id` is among `sports`.
pub open spec fn has_sport(sports: Seq<SportView>, id: u32) -> bool {
    exists|i: int| 0 <= i < sports.len() && sports[i].sport_id == id
}

/// The catalog sport a filter sport adds: its name (by default
/// `sport-{id}`) and its total as both totals.
pub open spec fn added_sport(e: FilterView) -> SportView {
    SportView {
        sport_id: e.sport_id,
        sport_name: match e.sport_name {
            Some(n) => n,
            None => "sport-"@ + crate::text::dec(e.sport_id as nat),
        },
        total: e.total,
        total_live: e.total,
        filter_live_total: Some(e.total),
    }
}

/// `sports` with each filter sport not yet among them added, in order.
pub open spec fn with_filter_sports(sports: Seq<SportView>, f: Seq<FilterView>) -> Seq<SportView>
    decreases f.len(),
{
    if f.len() == 0 {
        sports
    } else {
        let m = with_filter_sports(sports, f.drop_last());
        if has_sport(m, f.last().sport_id) {
            m
        } else {
            m.push(added_sport(f.last()))
        }
    }
}

fn filter_total_of(f: &[FilterCatalogEntry], id: u32) -> (r: Option<usize>)
    ensures
        r == filter_total(filter_views(f@), id),
{
    let ghost fv = filter_views(f@);
    let mut k: usize = f.len();
    assert(fv.take(fv.len() as int) =~= fv);
    while k > 0
        invariant
            k <= f@.len(),
            fv == filter_views(f@),
            filter_total(fv, id) == filter_total(fv.take(k as int), id),
        decreases k,
    {
        assert(fv.take(k as int).last() == f@[k - 1]@);
        assert(fv.take(k as int).drop_last() =~= fv.take(k - 1));
        if f[k - 1].sport_id == id {
            return Some(f[k - 1].total);
        }
        k = k - 1;
    }
    None
}

/// Adds the live totals of the filter to the catalog, then the filter's
/// sports the catalog lacks.
pub fn merge_filter_catalog(sports: Vec<SportCatalogEntry>, filter_catalog: &[FilterCatalogEntry]) -> (r: Vec<SportCatalogEntry>)
    ensures
        sport_views(r@) == with_filter_sports(annotated(sport_views(sports@), filter_views(filter_catalog@)), filter_views(filter_catalog@)),
{
    let ghost fv = filter_views(filter_catalog@);
    let ghost base = annotated(sport_views(sports@), fv);
    let mut sports = sports;
    let ghost orig = sport_views(sports@);
    let mut i: usize = 0;
    while i < sports.len()
        invariant
            i <= sports@.len(),
            sports@.len() == orig.len(),
            fv == filter_views(filter_catalog@),
            base == annotated(orig, fv),
            forall|k: int| 0 <= k < i ==> #[trigger] sports@[k]@ == base[k],
            forall|k: int| i <= k < sports@.len() ==> #[trigger] sports@[k]@ == orig[k],
        decreases sports@.len() - i,
    {
        let t = filter_total_of(filter_catalog, sports[i].sport_id);
        let ghost prev = sports@;
        assert(prev[i as int]@ == orig[i as int]);
        assert(base[i as int] == SportView { filter_live_total: filter_total(fv, orig[i as int].sport_id), ..orig[i as int] });
        sports[i].filter_live_total = t;
        assert(sports@[i as int]@ == base[i as int]);
        assert forall|k: int| 0 <= k < sports@.len() && k != i implies #[trigger] sports@[k] == prev[k] by {}
        i = i + 1;
    }
    assert(sport_views(sports@) =~= base);
    let mut j: usize = 0;
    assert(with_filter_sports(base, fv.take(0)) == base) by {
        assert(fv.take(0) =~= Seq::<FilterView>::empty());
    }
    while j < filter_catalog.len()
        invariant
            j <= filter_catalog@.len(),
            fv == filter_views(filter_catalog@),
            sport_views(sports@) == with_filter_sports(base, fv.take(j as int)),
        decreases filter_catalog@.len() - j,
    {
        assert(fv.take(j + 1).drop_last() =~= fv.take(j as int));
        assert(fv.take(j + 1).last() == filter_catalog@[j as int]@);
        let e = &filter_catalog[j];
        let ghost m = sport_views(sports@);
        let mut k: usize = 0;
        let mut found = false;
        while k < sports.len()
            invariant
                k <= sports@.len(),
                m == sport_views(sports@),
                !found ==> forall|q: int| 0 <= q < k ==> m[q].sport_id != e.sport_id,
                found ==> has_sport(m, e.sport_id),
            decreases sports@.len() - k,
        {
            if sports[k].sport_id == e.sport_id {
                assert(m[k as int].sport_id == e.sport_id);
                found = true;
            }
            k = k + 1;
        }
        if !found {
            let name = match &e.sport_name {
                Some(n) => n.clone(),
                None => {
                    let mut n = owned("sport-");
                    crate::text::push_decimal(&mut n, e.sport_id as u64);
                    n
                },
            };
            let added = SportCatalogEntry {
                sport_id: e.sport_id,
                sport_name: name,
                total: e.total,
                total_live: e.total,
                filter_live_total: Some(e.total),
            };
            let ghost av = added@;
            sports.push(added);
            assert(sport_views(sports@) =~= m.push(av));
        }
        j = j + 1;
    }
    assert(fv.take(fv.len() as int) =~= fv);
    sports
}

// ---------------------------------------------------------------------------
// Events list items
// ---------------------------------------------------------------------------

/// A trimmed string member of an optional object; empty where there is
/// none.
pub open spec fn trimmed_text(o: Option<JsonValue>, key: Seq<char>) -> Seq<char> {
    trim(crate::json::text_or_empty(jget_opt(o, key)))
}

/// The league of an events-list item: `category. tournament` where both
/// are given and differ, else the topic, the tournament or the category,
/// else `Unknown`.
pub open spec fn item_league(item: JsonValue) -> Seq<char> {
    let event = jget(item, "event"@);
    let tournament = trimmed_text(event, "tournamentTitle"@);
    let category = trimmed_text(event, "categoryTitle"@);
    let topic = trimmed_text(event, "topicTitle"@);
    if category.len() > 0 && tournament.len() > 0 && category != tournament {
        category + ". "@ + tournament
    } else if topic.len() > 0 {
        topic
    } else if tournament.len() > 0 {
        tournament
    } else if category.len() > 0 {
        category
    } else {
        "Unknown"@
    }
}

fn trimmed_member(o: Option<&JsonValue>, key: &str) -> (r: String)
    ensures
        r@ == trimmed_text(
            match o {
                Some(x) => Some(*x),
                None => None,
            },
            key@,
        ),
{
    let raw = match o {
        Some(v) => crate::json::text_field(v, key),
        None => String::new(),
    };
    string_of(trim_str(raw.as_str()).as_slice())
}

/// The league of an events-list item.
pub fn extract_league(item: &JsonValue) -> (r: String)
    ensures
        r@ == item_league(*item),
{
    let event = get(item, "event");
    let tournament = trimmed_member(event, "tournamentTitle");
    let category = trimmed_member(event, "categoryTitle");
    let topic = trimmed_member(event, "topicTitle");
    if !category.as_str().is_empty() && !tournament.as_str().is_empty() && !text_eq(
        category.as_str(),
        tournament.as_str(),
    ) {
        let mut out = category;
        push_str(&mut out, ". ");
        push_str(&mut out, tournament.as_str());
        return out;
    }
    if !topic.as_str().is_empty() {
        return topic;
    }
    if !tournament.as_str().is_empty() {
        return tournament;
    }
    if !category.as_str().is_empty() {
        return category;
    }
    owned("Unknown")
}

/// Whether an events-list item is live: by its namespace `ns` (`live`,
/// `line`, `prematch`, or any containing `live`), else by the route.
pub open spec fn item_is_live(item: JsonValue, route_hint: Seq<char>) -> bool {
    match text_of(jget(item, "ns"@)) {
        Some(ns) => if ns == "live"@ {
            true
        } else if ns == "line"@ || ns == "prematch"@ {
            false
        } else {
            crate::text::has_infix(ns, "live"@)
        },
        None => route_hint == "live"@,
    }
}

/// Whether an events-list item is live.
pub fn extract_is_live(item: &JsonValue, route_hint: &str) -> (r: bool)
    ensures
        r == item_is_live(*item, route_hint@),
{
    match get(item, "ns") {
        Some(JsonValue::Str(ns)) => {
            let n = ns.as_str();
            if text_eq(n, "live") {
                true
            } else if text_eq(n, "line") || text_eq(n, "prematch") {
                false
            } else {
                crate::text::str_contains(n, "live")
            }
        },
        _ => text_eq(route_hint, "live"),
    }
}

/// The page of an events-list item: `{base}/live/{game}` or
/// `{base}/line/{game}` for a non-empty `gameSeoName`.
pub open spec fn item_url(item: JsonValue, is_live: bool) -> Option<Seq<char>> {
    match text_of(jget(item, "gameSeoName"@)) {
        Some(g) => if g.len() == 0 {
            None
        } else {
            Some(base_url() + "/"@ + (if is_live {
                "live"@
            } else {
                "line"@
            }) + "/"@ + g)
        },
        None => None,
    }
}

/// The page of an events-list item.
pub fn extract_raw_url(item: &JsonValue, is_live: bool) -> (r: Option<String>)
    ensures
        opt_view(r) == item_url(*item, is_live),
{
    match get(item, "gameSeoName") {
        Some(JsonValue::Str(g)) => {
            if g.as_str().is_empty() {
                return None;
            }
            let mut out = owned("https://www.ligastavok.ru");
            push_str(&mut out, "/");
            push_str(
                &mut out,
                if is_live {
                    "live"
                } else {
                    "line"
                },
            );
            push_str(&mut out, "/");
            push_str(&mut out, g.as_str());
            Some(out)
        },
        _ => None,
    }
}

/// Whether a market or outcome is locked or corrupted.
pub open spec fn locked_or_corrupted(v: JsonValue) -> bool {
    crate::json::bool_or_false(jget(v, "locked"@)) || crate::json::bool_or_false(jget(v, "corrupted"@))
}

/// Whether a market or outcome is locked or corrupted.
pub fn is_locked_or_corrupted(value: &JsonValue) -> (r: bool)
    ensures
        r == locked_or_corrupted(*value),
{
    crate::json::bool_field(value, "locked") || crate::json::bool_field(value, "corrupted")
}

/// A market's label: `part / market` where the part's title is given and is
/// not the main time.
pub open spec fn market_label(market_name: Seq<char>, part_title: Seq<char>) -> Seq<char> {
    if part_title.len() == 0 || part_title == "Основное время"@ {
        market_name
    } else {
        part_title + " / "@ + market_name
    }
}

/// The trimmed title of the part `part_id` among `parts`.
pub open spec fn part_title(part_id: Option<Seq<char>>, parts: Option<JsonValue>) -> Seq<char> {
    match part_id {
        Some(id) => trimmed_text(jget_opt(parts, id), "title"@),
        None => Seq::empty(),
    }
}

/// A market's label.
pub fn format_market_name(market_name: &str, part_id: Option<&str>, parts: Option<&JsonValue>) -> (r: String)
    ensures
        r@ == market_label(
            market_name@,
            part_title(
                match part_id {
                    Some(p) => Some(p@),
                    None => None,
                },
                match parts {
                    Some(x) => Some(*x),
                    None => None,
                },
            ),
        ),
{
    let title = match part_id {
        Some(id) => trimmed_member(get_opt(parts, id), "title"),
        None => String::new(),
    };
    if title.as_str().is_empty() || text_eq(title.as_str(), "Основное время") {
        return owned(market_name);
    }
    let mut out = title;
    push_str(&mut out, " / ");
    push_str(&mut out, market_name);
    out
}

/// An outcome's selection: its trimmed `adTitle` where non-empty, else its
/// trimmed `title` (by default `unknown`).
pub open spec fn selection_text(outcome: JsonValue) -> Seq<char> {
    let ad = trim(crate::json::text_or_empty(jget(outcome, "adTitle"@)));
    if ad.len() > 0 {
        ad
    } else {
        trim(
            match text_of(jget(outcome, "title"@)) {
                Some(t) => t,
                None => "unknown"@,
            },
        )
    }
}

/// An outcome's selection.
pub fn format_selection(outcome: &JsonValue) -> (r: String)
    ensures
        r@ == selection_text(*outcome),
{
    let ad = crate::json::text_field(outcome, "adTitle");
    let adt = trim_str(ad.as_str());
    if adt.len() > 0 {
        return string_of(adt.as_slice());
    }
    let raw = match get(outcome, "title") {
        Some(JsonValue::Str(t)) => t.as_str(),
        _ => "unknown",
    };
    string_of(trim_str(raw).as_slice())
}

/// The kind of a price, by its lowercase selection, market name and type:
/// over or under on totals, handicap on handicaps, else by the selection.
pub open spec fn odds_kind(sel: Seq<char>, name: Seq<char>, ty: Seq<char>) -> crate::model::OddsType {
    let total = ty == "ttl"@ || crate::text::has_infix(name, "тотал"@) || crate::text::has_infix(name, "total"@);
    let over = crate::text::has_infix(sel, "бол"@) || crate::text::has_infix(sel, "больше"@)
        || crate::text::has_infix(sel, "over"@) || crate::text::has_infix(sel, "tb"@);
    let under = crate::text::has_infix(sel, "мен"@) || crate::text::has_infix(sel, "меньше"@)
        || crate::text::has_infix(sel, "under"@) || crate::text::has_infix(sel, "tm"@)
        || crate::text::has_infix(sel, "less"@);
    if total && over {
        crate::model::OddsType::Over
    } else if total && under {
        crate::model::OddsType::Under
    } else if ty == "han"@ || crate::text::has_infix(name, "фора"@) || crate::text::has_infix(name, "handicap"@) {
        crate::model::OddsType::Handicap
    } else if sel == "1"@ || sel == "п1"@ || sel == "home"@ {
        crate::model::OddsType::Home
    } else if sel == "x"@ || sel == "ничья"@ || sel == "draw"@ {
        crate::model::OddsType::Draw
    } else if sel == "2"@ || sel == "п2"@ || sel == "away"@ {
        crate::model::OddsType::Away
    } else {
        crate::model::OddsType::Custom
    }
}

/// On a market that is neither a total nor a handicap, the sides of a
/// match result are read by the lowercase selection alone, over every
/// selection: exactly `2`, `п2` and `away` are the away side, exactly `1`,
/// `п1` and `home` the home side, exactly `x`, `ничья` and `draw` the draw;
/// so an away selection is never read as the home side.
pub proof fn law_liga_result_sides(sel: Seq<char>, name: Seq<char>, ty: Seq<char>)
    requires
        ty != "ttl"@,
        !crate::text::has_infix(name, "тотал"@),
        !crate::text::has_infix(name, "total"@),
        ty != "han"@,
        !crate::text::has_infix(name, "фора"@),
        !crate::text::has_infix(name, "handicap"@),
    ensures
        odds_kind(sel, name, ty) == crate::model::OddsType::Away <==> (sel == "2"@ || sel == "п2"@
            || sel == "away"@),
        odds_kind(sel, name, ty) == crate::model::OddsType::Home <==> (sel == "1"@ || sel == "п1"@
            || sel == "home"@),
        odds_kind(sel, name, ty) == crate::model::OddsType::Draw <==> (sel == "x"@ || sel
            == "ничья"@ || sel == "draw"@),
{
    reveal_strlit("1");
    reveal_strlit("п1");
    reveal_strlit("home");
    reveal_strlit("x");
    reveal_strlit("ничья");
    reveal_strlit("draw");
    reveal_strlit("2");
    reveal_strlit("п2");
    reveal_strlit("away");
    assert("1"@.len() == 1 && "1"@[0] == '1');
    assert("п1"@.len() == 2 && "п1"@[0] == 'п' && "п1"@[1] == '1');
    assert("home"@.len() == 4 && "home"@[0] == 'h' && "home"@[1] == 'o');
    assert("x"@.len() == 1 && "x"@[0] == 'x');
    assert("ничья"@.len() == 5 && "ничья"@[0] == 'н' && "ничья"@[1] == 'и');
    assert("draw"@.len() == 4 && "draw"@[0] == 'd' && "draw"@[1] == 'r');
    assert("2"@.len() == 1 && "2"@[0] == '2');
    assert("п2"@.len() == 2 && "п2"@[0] == 'п' && "п2"@[1] == '2');
    assert("away"@.len() == 4 && "away"@[0] == 'a' && "away"@[1] == 'w');
}

/// The kind of a price.
pub fn selection_to_odds_type(selection: &str, market_name: &str, market_type: &str) -> (r: crate::model::OddsType)
    ensures
        r == odds_kind(
            crate::text::unicode_lower(selection@),
            crate::text::unicode_lower(market_name@),
            crate::text::unicode_lower(market_type@),
        ),
{
    let sl = crate::text::to_lowercase(selection);
    let nl = crate::text::to_lowercase(market_name);
    let tl = crate::text::to_lowercase(market_type);
    let sel = sl.as_str();
    let name = nl.as_str();
    let ty = tl.as_str();
    let total = text_eq(ty, "ttl") || crate::text::str_contains(name, "тотал") || crate::text::str_contains(name, "total");
    if total {
        if crate::text::str_contains(sel, "бол") || crate::text::str_contains(sel, "больше") || crate::text::str_contains(sel, "over")
            || crate::text::str_contains(sel, "tb") {
            return crate::model::OddsType::Over;
        }
        if crate::text::str_contains(sel, "мен") || crate::text::str_contains(sel, "меньше") || crate::text::str_contains(sel, "under")
            || crate::text::str_contains(sel, "tm") || crate::text::str_contains(sel, "less") {
            return crate::model::OddsType::Under;
        }
    }
    if text_eq(ty, "han") || crate::text::str_contains(name, "фора") || crate::text::str_contains(name, "handicap") {
        return crate::model::OddsType::Handicap;
    }
    if text_eq(sel, "1") || text_eq(sel, "п1") || text_eq(sel, "home") {
        crate::model::OddsType::Home
    } else if text_eq(sel, "x") || text_eq(sel, "ничья") || text_eq(sel, "draw") {
        crate::model::OddsType::Draw
    } else if text_eq(sel, "2") || text_eq(sel, "п2") || text_eq(sel, "away") {
        crate::model::OddsType::Away
    } else {
        crate::model::OddsType::Custom
    }
}

// ---------------------------------------------------------------------------
// Request headers
// ---------------------------------------------------------------------------

/// Whether `s` can be an HTTP header value (`HeaderValue::from_str`): each
/// character is a tab, or at least a space and not DEL (characters beyond
/// ASCII encode to bytes the rule accepts).
pub open spec fn header_ok(s: Seq<char>) -> bool {
    forall|k: int| 0 <= k < s.len() ==> (#[trigger] s[k] == '\t' || (s[k] >= ' ' && s[k] != '\x7f'))
}

fn is_header_value(s: &str) -> (r: bool)
    ensures
        r == header_ok(s@),
{
    let v = chars_of(s);
    let mut i: usize = 0;
    while i < v.len()
        invariant
            i <= v@.len(),
            v@ == s@,
            forall|k: int| 0 <= k < i ==> (#[trigger] v@[k] == '\t' || (v@[k] >= ' ' && v@[k] != '\x7f')),
        decreases v@.len() - i,
    {
        let c = v[i];
        if !(c == '\t' || (c >= ' ' && c != '\x7f')) {
            return false;
        }
        i = i + 1;
    }
    true
}

/// A header as plain values.
pub open spec fn header_pair(name: Seq<char>, value: Seq<char>) -> (Seq<char>, Seq<char>) {
    (name, value)
}

/// The headers that browser requests of the session carry: accept-language,
/// referer and origin (for a page navigation the session's own and the
/// endpoint's page; for an API call the API values where recorded), a
/// value that cannot be a header falling back to the default (or, for the
/// origin, left out); the client hints; the fetch metadata of a navigation
/// or of a cross-site API call; and the cookie header (the session's pairs
/// first, then the jar's cookies for `target`), where there is one that can
/// be a header.
pub open spec fn header_list(b: SessionBootstrap, e: Endpoint, is_document: bool, target: Seq<char>) -> Seq<(Seq<char>, Seq<char>)> {
    let lang = if is_document {
        b.accept_language@
    } else {
        first_text3(opt_view(b.api_accept_language), None, b.accept_language@)
    };
    let referer = if is_document {
        e.referer@
    } else {
        first_text3(opt_view(b.api_referer), None, b.referer@)
    };
    let origin = if is_document {
        b.origin@
    } else {
        first_text3(opt_view(b.api_origin), None, b.origin@)
    };
    let cookie = merged_header(opt_view(b.cookie_header), url_cookie_header(cookie_views(b.cookie_jar@), target));
    seq![
        header_pair("accept-language"@, if header_ok(lang) { lang } else { default_accept_language() }),
        header_pair("referer"@, if header_ok(referer) { referer } else { root_referer() }),
    ] + (if header_ok(origin) {
        seq![header_pair("origin"@, origin)]
    } else {
        Seq::empty()
    }) + seq![
        header_pair("sec-ch-ua"@, "\"Chromium\";v=\"145\", \"Not:A-Brand\";v=\"99\""@),
        header_pair("sec-ch-ua-mobile"@, "?0"@),
        header_pair("sec-ch-ua-platform"@, "\"Windows\""@),
    ] + (if is_document {
        seq![
            header_pair("upgrade-insecure-requests"@, "1"@),
            header_pair("sec-fetch-dest"@, "document"@),
            header_pair("sec-fetch-mode"@, "navigate"@),
            header_pair("sec-fetch-site"@, "same-origin"@),
            header_pair("sec-fetch-user"@, "?1"@),
        ]
    } else {
        seq![
            header_pair("sec-fetch-dest"@, "empty"@),
            header_pair("sec-fetch-mode"@, "cors"@),
            header_pair("sec-fetch-site"@, "same-site"@),
            header_pair("x-application-name"@, "mobile"@),
        ]
    }) + match cookie {
        Some(c) => if header_ok(c) {
            seq![header_pair("cookie"@, c)]
        } else {
            Seq::empty()
        },
        None => Seq::empty(),
    }
}

/// The views of a list of headers.
pub open spec fn header_views(v: Seq<(String, String)>) -> Seq<(Seq<char>, Seq<char>)> {
    v.map_values(|p: (String, String)| (p.0@, p.1@))
}

fn push_header(out: &mut Vec<(String, String)>, name: &str, value: &str)
    ensures
        header_views(final(out)@) == header_views(old(out)@).push((name@, value@)),
{
    let ghost before = header_views(out@);
    out.push((owned(name), owned(value)));
    assert(header_views(out@) =~= before.push((name@, value@)));
}

fn first_or<'a>(a: &'a Option<String>, fallback: &'a String) -> (r: &'a str)
    ensures
        r@ == first_text3(opt_view(*a), None, fallback@),
{
    match a {
        Some(x) => x.as_str(),
        None => fallback.as_str(),
    }
}

impl LigaStavokParser {
    /// The headers that browser requests to `target_url` carry.
    pub fn browser_headers(&self, endpoint: Endpoint, is_document: bool, target_url: &str) -> (r: Vec<(String, String)>)
        ensures
            header_views(r@) == header_list(self.bootstrap, endpoint, is_document, target_url@),
    {
        let b = &self.bootstrap;
        let mut out: Vec<(String, String)> = Vec::new();
        let lang: &str = if is_document {
            b.accept_language.as_str()
        } else {
            first_or(&b.api_accept_language, &b.accept_language)
        };
        if is_header_value(lang) {
            push_header(&mut out, "accept-language", lang);
        } else {
            push_header(&mut out, "accept-language", "ru-RU,ru;q=0.9,en;q=0.8");
        }
        let referer: &str = if is_document {
            endpoint.referer
        } else {
            first_or(&b.api_referer, &b.referer)
        };
        if is_header_value(referer) {
            push_header(&mut out, "referer", referer);
        } else {
            push_header(&mut out, "referer", "https://www.ligastavok.ru/");
        }
        let origin: &str = if is_document {
            b.origin.as_str()
        } else {
            first_or(&b.api_origin, &b.origin)
        };
        if is_header_value(origin) {
            push_header(&mut out, "origin", origin);
        }
        push_header(&mut out, "sec-ch-ua", "\"Chromium\";v=\"145\", \"Not:A-Brand\";v=\"99\"");
        push_header(&mut out, "sec-ch-ua-mobile", "?0");
        push_header(&mut out, "sec-ch-ua-platform", "\"Windows\"");
        if is_document {
            push_header(&mut out, "upgrade-insecure-requests", "1");
            push_header(&mut out, "sec-fetch-dest", "document");
            push_header(&mut out, "sec-fetch-mode", "navigate");
            push_header(&mut out, "sec-fetch-site", "same-origin");
            push_header(&mut out, "sec-fetch-user", "?1");
        } else {
            push_header(&mut out, "sec-fetch-dest", "empty");
            push_header(&mut out, "sec-fetch-mode", "cors");
            push_header(&mut out, "sec-fetch-site", "same-site");
            push_header(&mut out, "x-application-name", "mobile");
        }
        let manual = match &b.cookie_header {
            Some(h) => Some(h.clone()),
            None => None,
        };
        let from_jar = build_cookie_header_for_url(&b.cookie_jar, target_url);
        match merge_cookie_headers(manual, from_jar) {
            Some(c) => {
                if is_header_value(c.as_str()) {
                    push_header(&mut out, "cookie", c.as_str());
                }
            },
            None => {},
        }
        assert(header_views(out@) =~= header_list(self.bootstrap, endpoint, is_document, target_url@));
        out
    }
}

/// The `Cookie` header that cookie records give for the site's root page at
/// `now` (seconds since the epoch).
pub fn build_cookie_header(cookies: &Vec<JsonValue>, now: i64) -> (r: Option<String>)
    ensures
        opt_view(r) == url_cookie_header(parsed_cookies(cookies@, now), root_referer()),
{
    let jar = parse_bootstrap_cookies(cookies, now);
    build_cookie_header_for_url(&jar, "https://www.ligastavok.ru/")
}

impl LigaStavokParser {
    /// The events-list request body for `sport_id`, page `skip` and
    /// `namespace`, stamped with the current time.
    pub fn build_events_payload(&self, sport_id: u32, namespace: &str, skip: u32) -> (r: JsonValue)
        ensures
            exists|ts: i64| is_events_payload(r, sport_id, namespace@, skip, ts),
    {
        let ts = crate::clock::utc_now_millis();
        events_payload_at(sport_id, namespace, skip, ts)
    }

    /// Whether the session carries cookies.
    pub fn has_cookie_bootstrap(&self) -> (r: bool)
        ensures
            r == self.bootstrap.with_cookies(),
    {
        self.bootstrap.has_cookie_bootstrap()
    }

    /// Whether some cookie of the session is not the protection's.
    pub fn has_validated_session_bootstrap(&self) -> (r: bool)
        ensures
            r == self.bootstrap.validated(),
    {
        self.bootstrap.has_validated_session_bootstrap()
    }

    /// The session's cookie names.
    pub fn bootstrap_cookie_names(&self) -> (r: Vec<String>)
        ensures
            crate::text::views(r@) == cookie_names(self.bootstrap),
    {
        self.bootstrap.bootstrap_cookie_names()
    }

    /// Whether the session differs from the defaults in a header value or
    /// recorded a probe status.
    pub fn has_header_bootstrap(&self) -> (r: bool)
        ensures
            r == self.bootstrap.with_headers(),
    {
        self.bootstrap.has_header_bootstrap()
    }

    /// Whether a browser-verified API probe succeeded.
    pub fn has_browser_verified_api_probe(&self) -> (r: bool)
        ensures
            r == self.bootstrap.browser_verified(),
    {
        self.bootstrap.has_browser_verified_api_probe()
    }

    /// Whether a direct API probe succeeded.
    pub fn has_direct_probe_success(&self) -> (r: bool)
        ensures
            r == self.bootstrap.direct_success(),
    {
        self.bootstrap.has_direct_probe_success()
    }

    /// Whether the runtime may be tried with the session.
    pub fn can_attempt_runtime_with_bootstrap(&self) -> (r: bool)
        ensures
            r == (self.bootstrap.validated() || (self.bootstrap.with_cookies()
                && self.bootstrap.browser_verified())),
    {
        self.bootstrap.can_attempt_runtime_with_bootstrap()
    }

    /// The blocker the session leaves.
    pub fn session_bootstrap_blocker(&self) -> (r: SessionBootstrapBlocker)
        ensures
            r == self.bootstrap.blocker(),
    {
        self.bootstrap.session_bootstrap_blocker()
    }

    /// The one-line summary of the session.
    pub fn session_bootstrap_summary(&self) -> (r: String)
        ensures
            r@ == session_summary(self.bootstrap),
    {
        self.bootstrap.session_bootstrap_summary()
    }
}

/// What the `events_list_pagination_configured` check of the Liga Stavok readiness snapshot says.
pub const LIGASTAVOK_EVENTS_LIST_PAGINATION_CONFIGURED: &'static str = "Sport-scoped POST pagination is configured for https://lds-api-sites.ligastavok.ru/rest/events/v8/eventsList.";

/// What the `filter_preflight_configured` check of the Liga Stavok readiness snapshot says.
pub const LIGASTAVOK_FILTER_PREFLIGHT_CONFIGURED: &'static str = "Lightweight live-sport preflight is configured via https://lds-api-sites.ligastavok.ru/rest/events/v2/filter before tournamentTree/eventsList.";

/// What the `preflight_branch_diagnostics_recorded` check of the Liga Stavok readiness snapshot says.
pub const LIGASTAVOK_PREFLIGHT_BRANCH_DIAGNOSTICS_RECORDED: &'static str = "Warm-up refusal paths explicitly report whether cookie/storage bootstrap is available before any API probe fallback is attempted.";

/// What the `filter_branch_diagnostics_recorded` check of the Liga Stavok readiness snapshot says.
pub const LIGASTAVOK_FILTER_BRANCH_DIAGNOSTICS_RECORDED: &'static str = "Filter preflight failures distinguish empty result sets, schema drift, and transport/protection errors without promoting the branch to a bypass mechanism.";

/// What the `tournament_tree_catalog_configured` check of the Liga Stavok readiness snapshot says.
pub const LIGASTAVOK_TOURNAMENT_TREE_CATALOG_CONFIGURED: &'static str = "Sport discovery is configured via https://lds-api-sites.ligastavok.ru/rest/events/v8/tournamentTree.";

/// What the `tournament_tree_branch_diagnostics_recorded` check of the Liga Stavok readiness snapshot says.
pub const LIGASTAVOK_TOURNAMENT_TREE_BRANCH_DIAGNOSTICS_RECORDED: &'static str = "Tournament-tree failures now report payload-shape vs zero-total catalog outcomes and whether filter preflight contributed any live-sport hints.";

/// What the `schema_parser_present` check of the Liga Stavok readiness snapshot says.
pub const LIGASTAVOK_SCHEMA_PARSER_PRESENT: &'static str = "eventsList payload parser extracts events, markets, and totals from the production schema.";

/// What the `events_list_branch_diagnostics_recorded` check of the Liga Stavok readiness snapshot says.
pub const LIGASTAVOK_EVENTS_LIST_BRANCH_DIAGNOSTICS_RECORDED: &'static str = "eventsList refusal messages include payload namespace, requested namespace, and schema/empty-data hints for safer runtime validation.";

/// What the `cookie_bootstrap_supported` check of the Liga Stavok readiness snapshot says.
pub const LIGASTAVOK_COOKIE_BOOTSTRAP_SUPPORTED: &'static str = "Optional cookie bootstrap from LIGASTAVOK_COOKIE_HEADER, LIGASTAVOK_COOKIE_FILE, or ligastavok_cookies.json is supported for protected environments.";

/// What the `storage_state_bootstrap_supported` check of the Liga Stavok readiness snapshot says.
pub const LIGASTAVOK_STORAGE_STATE_BOOTSTRAP_SUPPORTED: &'static str = "Playwright-style storage state bootstrap is parsed from LIGASTAVOK_BOOTSTRAP_FILE, LIGASTAVOK_STORAGE_STATE_FILE, ligastavok_bootstrap.json, ligastavok_storage_state.json, or the latest discovery artifact for cookies, locale, and origin alignment.";

/// What the `browser_header_bootstrap_supported` check of the Liga Stavok readiness snapshot says.
pub const LIGASTAVOK_BROWSER_HEADER_BOOTSTRAP_SUPPORTED: &'static str = "Warm-up and API probes send stable navigation/CORS headers with origin and Accept-Language derived from env, header-profile, or storage-state bootstrap.";

/// What the `session_bootstrap_validation_recorded` check of the Liga Stavok readiness snapshot says.
pub const LIGASTAVOK_SESSION_BOOTSTRAP_VALIDATION_RECORDED: &'static str = "Warm-up fallback proceeds only when bootstrap carries at least one non-protection cookie; protection-only QRATOR cookies are surfaced as an explicit blocker instead of a silent bypass.";

/// What the `session_bootstrap_blocker_recorded` check of the Liga Stavok readiness snapshot says.
pub const LIGASTAVOK_SESSION_BOOTSTRAP_BLOCKER_RECORDED: &'static str = "Runtime bootstrap diagnostics now classify ready, protection_only, header_only, and bootstrap_unavailable states so QRATOR/session gaps are surfaced as blockers instead of silent fallbacks.";

/// What the `browser_verified_api_probe_required_for_protection_only` check of the Liga Stavok readiness snapshot says.
pub const LIGASTAVOK_BROWSER_VERIFIED_API_PROBE_REQUIRED_FOR_PROTECTION_ONLY: &'static str = "Protection-only QRATOR cookies unlock runtime only when discovery captured a real browser-observed sportsbook API response; direct fetch probes are tracked separately and do not count as browser verification.";

/// What the `runtime_refusal_reasons_recorded` check of the Liga Stavok readiness snapshot says.
pub const LIGASTAVOK_RUNTIME_REFUSAL_REASONS_RECORDED: &'static str = "Runtime failures aggregate branch-specific refusal reasons so diagnostics can distinguish catalog bootstrap issues from per-sport eventsList exhaustion.";

/// What the `qrator_unattended_bootstrap_unverified` check of the Liga Stavok readiness snapshot says.
pub const LIGASTAVOK_QRATOR_UNATTENDED_BOOTSTRAP_UNVERIFIED: &'static str = "Unattended QRATOR bypass is not verified on the current infra, so the parser remains out of production scan.";

/// What the `production_guardrail` check of the Liga Stavok readiness snapshot says.
pub const LIGASTAVOK_PRODUCTION_GUARDRAIL: &'static str = "Factory registration stays disabled until runtime diagnostics pass with stable protection bootstrap.";

/// The Liga Stavok readiness snapshot, check by check.
pub open spec fn ligastavok_readiness() -> ReadinessView {
    ReadinessView {
        stage: ParserReadinessStage::DiagnosticOnly,
        production_enabled: false,
        self_check_available: true,
        checks: seq![
            check_of("events_list_pagination_configured", DiagnosticSeverity::Pass, LIGASTAVOK_EVENTS_LIST_PAGINATION_CONFIGURED),
            check_of("filter_preflight_configured", DiagnosticSeverity::Info, LIGASTAVOK_FILTER_PREFLIGHT_CONFIGURED),
            check_of("preflight_branch_diagnostics_recorded", DiagnosticSeverity::Info, LIGASTAVOK_PREFLIGHT_BRANCH_DIAGNOSTICS_RECORDED),
            check_of("filter_branch_diagnostics_recorded", DiagnosticSeverity::Info, LIGASTAVOK_FILTER_BRANCH_DIAGNOSTICS_RECORDED),
            check_of("tournament_tree_catalog_configured", DiagnosticSeverity::Pass, LIGASTAVOK_TOURNAMENT_TREE_CATALOG_CONFIGURED),
            check_of("tournament_tree_branch_diagnostics_recorded", DiagnosticSeverity::Info, LIGASTAVOK_TOURNAMENT_TREE_BRANCH_DIAGNOSTICS_RECORDED),
            check_of("schema_parser_present", DiagnosticSeverity::Pass, LIGASTAVOK_SCHEMA_PARSER_PRESENT),
            check_of("events_list_branch_diagnostics_recorded", DiagnosticSeverity::Info, LIGASTAVOK_EVENTS_LIST_BRANCH_DIAGNOSTICS_RECORDED),
            check_of("cookie_bootstrap_supported", DiagnosticSeverity::Info, LIGASTAVOK_COOKIE_BOOTSTRAP_SUPPORTED),
            check_of("storage_state_bootstrap_supported", DiagnosticSeverity::Info, LIGASTAVOK_STORAGE_STATE_BOOTSTRAP_SUPPORTED),
            check_of("browser_header_bootstrap_supported", DiagnosticSeverity::Info, LIGASTAVOK_BROWSER_HEADER_BOOTSTRAP_SUPPORTED),
            check_of("session_bootstrap_validation_recorded", DiagnosticSeverity::Info, LIGASTAVOK_SESSION_BOOTSTRAP_VALIDATION_RECORDED),
            check_of("session_bootstrap_blocker_recorded", DiagnosticSeverity::Info, LIGASTAVOK_SESSION_BOOTSTRAP_BLOCKER_RECORDED),
            check_of("browser_verified_api_probe_required_for_protection_only", DiagnosticSeverity::Info, LIGASTAVOK_BROWSER_VERIFIED_API_PROBE_REQUIRED_FOR_PROTECTION_ONLY),
            check_of("runtime_refusal_reasons_recorded", DiagnosticSeverity::Info, LIGASTAVOK_RUNTIME_REFUSAL_REASONS_RECORDED),
            check_of("qrator_unattended_bootstrap_unverified", DiagnosticSeverity::Fail, LIGASTAVOK_QRATOR_UNATTENDED_BOOTSTRAP_UNVERIFIED),
            check_of("production_guardrail", DiagnosticSeverity::Info, LIGASTAVOK_PRODUCTION_GUARDRAIL),
        ],
    }
}

impl LigaStavokParser {
    /// The parser's readiness snapshot.
    pub fn readiness_snapshot() -> (r: ParserReadiness)
        ensures
            r@ == ligastavok_readiness(),
    {
        let checks = vec![
            check("events_list_pagination_configured", DiagnosticSeverity::Pass, LIGASTAVOK_EVENTS_LIST_PAGINATION_CONFIGURED),
            check("filter_preflight_configured", DiagnosticSeverity::Info, LIGASTAVOK_FILTER_PREFLIGHT_CONFIGURED),
            check("preflight_branch_diagnostics_recorded", DiagnosticSeverity::Info, LIGASTAVOK_PREFLIGHT_BRANCH_DIAGNOSTICS_RECORDED),
            check("filter_branch_diagnostics_recorded", DiagnosticSeverity::Info, LIGASTAVOK_FILTER_BRANCH_DIAGNOSTICS_RECORDED),
            check("tournament_tree_catalog_configured", DiagnosticSeverity::Pass, LIGASTAVOK_TOURNAMENT_TREE_CATALOG_CONFIGURED),
            check("tournament_tree_branch_diagnostics_recorded", DiagnosticSeverity::Info, LIGASTAVOK_TOURNAMENT_TREE_BRANCH_DIAGNOSTICS_RECORDED),
            check("schema_parser_present", DiagnosticSeverity::Pass, LIGASTAVOK_SCHEMA_PARSER_PRESENT),
            check("events_list_branch_diagnostics_recorded", DiagnosticSeverity::Info, LIGASTAVOK_EVENTS_LIST_BRANCH_DIAGNOSTICS_RECORDED),
            check("cookie_bootstrap_supported", DiagnosticSeverity::Info, LIGASTAVOK_COOKIE_BOOTSTRAP_SUPPORTED),
            check("storage_state_bootstrap_supported", DiagnosticSeverity::Info, LIGASTAVOK_STORAGE_STATE_BOOTSTRAP_SUPPORTED),
            check("browser_header_bootstrap_supported", DiagnosticSeverity::Info, LIGASTAVOK_BROWSER_HEADER_BOOTSTRAP_SUPPORTED),
            check("session_bootstrap_validation_recorded", DiagnosticSeverity::Info, LIGASTAVOK_SESSION_BOOTSTRAP_VALIDATION_RECORDED),
            check("session_bootstrap_blocker_recorded", DiagnosticSeverity::Info, LIGASTAVOK_SESSION_BOOTSTRAP_BLOCKER_RECORDED),
            check("browser_verified_api_probe_required_for_protection_only", DiagnosticSeverity::Info, LIGASTAVOK_BROWSER_VERIFIED_API_PROBE_REQUIRED_FOR_PROTECTION_ONLY),
            check("runtime_refusal_reasons_recorded", DiagnosticSeverity::Info, LIGASTAVOK_RUNTIME_REFUSAL_REASONS_RECORDED),
            check("qrator_unattended_bootstrap_unverified", DiagnosticSeverity::Fail, LIGASTAVOK_QRATOR_UNATTENDED_BOOTSTRAP_UNVERIFIED),
            check("production_guardrail", DiagnosticSeverity::Info, LIGASTAVOK_PRODUCTION_GUARDRAIL),
        ];
        assert(check_views(checks@) =~= ligastavok_readiness().checks);
        ParserReadiness {
            stage: ParserReadinessStage::DiagnosticOnly,
            production_enabled: false,
            self_check_available: true,
            checks,
        }
    }
}

impl BookmakerParser for LigaStavokParser {
    open spec fn name_spec(&self) -> Seq<char> {
        "Liga Stavok"@
    }

    open spec fn slug_spec(&self) -> Seq<char> {
        "ligastavok"@
    }

    open spec fn enabled_spec(&self) -> bool {
        false
    }

    open spec fn readiness_spec(&self) -> Option<ReadinessView> {
        Some(ligastavok_readiness())
    }

    fn name(&self) -> (r: &str) {
        "Liga Stavok"
    }

    fn slug(&self) -> (r: &str) {
        "ligastavok"
    }

    fn is_enabled(&self) -> (r: bool) {
        false
    }

    fn readiness(&self) -> (r: Option<ParserReadiness>) {
        Some(LigaStavokParser::readiness_snapshot())
    }
}

impl LigaStavokParser {
    /// The site's root address.
    pub fn base_url(&self) -> (r: &str)
        ensures
            r@ == "https://www.ligastavok.ru"@,
    {
        "https://www.ligastavok.ru"
    }

    /// The browser identity the parser presents.
    pub fn user_agent(&self) -> (r: &str)
        ensures
            r@ == "Mozilla/5.0 (Windows NT 10.0; Win64; x64) AppleWebKit/537.36 (KHTML, like Gecko) Chrome/131.0.0.0 Safari/537.36"@,
    {
        "Mozilla/5.0 (Windows NT 10.0; Win64; x64) AppleWebKit/537.36 (KHTML, like Gecko) Chrome/131.0.0.0 Safari/537.36"
    }
}

} // verus!
