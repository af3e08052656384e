//! Classification of the transport hints a Melbet page leaves: each hint is
//! normalised into a family, a host, a path and a protocol, the normalised
//! hints are listed once per key, and the families, hosts and protocols are
//! summarised.

use crate::melbet_rules::MelbetParser;
use crate::melbet_runtime::{
    MelbetNormalizedTransportHint, MelbetTransportHint, MelbetTransportMappingSummary,
};
use crate::melbet_snapshot::MelbetBootstrapSnapshot;
use crate::text::{
    before_char, contains_char, chars_of, has_prefix, insert_sorted_unique, is_strictly_sorted,
    lex_less, lex_lt, lemma_lex_irreflexive, lemma_lex_total, lemma_lex_transitive, owned,
    str_eq, str_starts_with, strip_trailing, strip_trailing_char, text_before_char, to_lowercase,
    trim, trim_str, string_of, unicode_lower, views,
};
use crate::url::{parse_url, url_accepts, url_host, url_path, url_scheme, url_serialization};
use vstd::prelude::*;

verus! {

/// The family of endpoint a hint of this kind points at.
pub open spec fn hint_family(kind: Seq<char>) -> Seq<char> {
    if kind == "websocket_endpoint"@ || kind == "websocket_candidate"@ {
        "websocket_like"@
    } else if kind == "script_transport_marker"@ || kind == "body_transport_marker"@ || kind
        == "storage_transport_marker"@ {
        "transport_marker"@
    } else if kind == "data_endpoint"@ || kind == "script_feed_marker"@ {
        "feed_endpoint"@
    } else if kind == "http2_transport"@ {
        "http_transport"@
    } else {
        "other"@
    }
}

/// How much a hint of this kind is trusted.
pub open spec fn hint_confidence(kind: Seq<char>) -> Seq<char> {
    if kind == "websocket_endpoint"@ || kind == "data_endpoint"@ {
        "high"@
    } else if kind == "websocket_candidate"@ || kind == "storage_transport_marker"@ || kind
        == "script_transport_marker"@ {
        "medium"@
    } else {
        "low"@
    }
}

/// The normalised value of a hint: for a URL, its lowercase text without
/// trailing slashes; for a `key=value` pair, the lowercase trimmed key;
/// otherwise the lowercase trimmed value.
pub open spec fn hint_value(value: Seq<char>) -> Seq<char> {
    if url_accepts(value) {
        unicode_lower(strip_trailing(url_serialization(value), '/'))
    } else if value.contains('=') {
        unicode_lower(trim(before_char(value, '=')))
    } else {
        unicode_lower(trim(value))
    }
}

/// The host of a hint: a URL's host, else empty.
pub open spec fn hint_host(value: Seq<char>) -> Seq<char> {
    if url_accepts(value) {
        match url_host(value) {
            Some(h) => h,
            None => Seq::empty(),
        }
    } else {
        Seq::empty()
    }
}

/// The path of a hint: a URL's path, else the normalised value.
pub open spec fn hint_path(value: Seq<char>) -> Seq<char> {
    if url_accepts(value) {
        url_path(value)
    } else {
        hint_value(value)
    }
}

/// The protocol of a hint: a URL's scheme, `storage` for a pair, `path` for
/// a path, else the lowercase source (empty for an empty value).
pub open spec fn hint_protocol(value: Seq<char>, source: Seq<char>) -> Seq<char> {
    if url_accepts(value) {
        url_scheme(value)
    } else if value.contains('=') {
        "storage"@
    } else if has_prefix(hint_value(value), "/"@) {
        "path"@
    } else if hint_value(value).len() > 0 {
        unicode_lower(source)
    } else {
        Seq::empty()
    }
}

/// `n` is the normalised form of `h`.
#[verifier::opaque]
pub open spec fn normalizes(n: MelbetNormalizedTransportHint, h: MelbetTransportHint) -> bool {
    &&& n.kind@ == h.kind@
    &&& n.family@ == hint_family(h.kind@)
    &&& n.source@ == h.source@
    &&& n.normalized_value@ == hint_value(h.value@)
    &&& n.host@ == hint_host(h.value@)
    &&& n.path@ == hint_path(h.value@)
    &&& n.protocol@ == hint_protocol(h.value@, h.source@)
    &&& n.confidence@ == hint_confidence(h.kind@)
}

/// The key normalised hints are ordered and merged by: family, host, value.
pub open spec fn hint_key(n: MelbetNormalizedTransportHint) -> (Seq<char>, Seq<char>, Seq<char>) {
    (n.family@, n.host@, n.normalized_value@)
}

/// Lexicographic order on keys.
pub open spec fn key_lt(a: (Seq<char>, Seq<char>, Seq<char>), b: (Seq<char>, Seq<char>, Seq<char>)) -> bool {
    ||| lex_lt(a.0, b.0)
    ||| (a.0 == b.0 && lex_lt(a.1, b.1))
    ||| (a.0 == b.0 && a.1 == b.1 && lex_lt(a.2, b.2))
}

proof fn lemma_key_transitive(a: (Seq<char>, Seq<char>, Seq<char>), b: (Seq<char>, Seq<char>, Seq<char>), c: (Seq<char>, Seq<char>, Seq<char>))
    requires
        key_lt(a, b),
        key_lt(b, c),
    ensures
        key_lt(a, c),
{
    if lex_lt(a.0, b.0) && lex_lt(b.0, c.0) {
        lemma_lex_transitive(a.0, b.0, c.0);
    } else if a.0 == b.0 && b.0 == c.0 {
        if lex_lt(a.1, b.1) && lex_lt(b.1, c.1) {
            lemma_lex_transitive(a.1, b.1, c.1);
        } else if a.1 == b.1 && b.1 == c.1 {
            lemma_lex_transitive(a.2, b.2, c.2);
        }
    }
}

proof fn lemma_key_total(a: (Seq<char>, Seq<char>, Seq<char>), b: (Seq<char>, Seq<char>, Seq<char>))
    requires
        a != b,
    ensures
        key_lt(a, b) || key_lt(b, a),
{
    if a.0 != b.0 {
        lemma_lex_total(a.0, b.0);
    } else if a.1 != b.1 {
        lemma_lex_total(a.1, b.1);
    } else {
        assert(a.2 != b.2);
        lemma_lex_total(a.2, b.2);
    }
}

proof fn lemma_key_irreflexive(a: (Seq<char>, Seq<char>, Seq<char>))
    ensures
        !key_lt(a, a),
{
    lemma_lex_irreflexive(a.0);
    lemma_lex_irreflexive(a.1);
    lemma_lex_irreflexive(a.2);
}

/// The keys of `list` strictly increase.
pub open spec fn keys_increase(list: Seq<MelbetNormalizedTransportHint>) -> bool {
    forall|i: int, j: int| 0 <= i < j < list.len() ==> key_lt(hint_key(#[trigger] list[i]), hint_key(#[trigger] list[j]))
}

/// `n` is the normalised form of a hint of `hints` that is the first there
/// with `n`'s key.
#[verifier::opaque]
pub open spec fn first_of_key(n: MelbetNormalizedTransportHint, hints: Seq<MelbetTransportHint>) -> bool {
    exists|i: int|
        0 <= i < hints.len() && #[trigger] normalizes(n, hints[i]) && forall|q: int|
            0 <= q < i ==> !normalizes_to_key(#[trigger] hints[q], hint_key(n))
}

/// Some entry of `out` has the key `h` normalises to.
#[verifier::opaque]
pub open spec fn key_listed(out: Seq<MelbetNormalizedTransportHint>, h: MelbetTransportHint) -> bool {
    exists|e: int| 0 <= e < out.len() && normalizes_to_key(h, hint_key(#[trigger] out[e]))
}

/// `out` lists, in increasing key order, the normalised form of the first
/// hint of `hints` for each key that occurs.
pub open spec fn merged_hints(out: Seq<MelbetNormalizedTransportHint>, hints: Seq<MelbetTransportHint>) -> bool {
    &&& keys_increase(out)
    &&& forall|e: int| 0 <= e < out.len() ==> first_of_key(#[trigger] out[e], hints)
    &&& forall|i: int| 0 <= i < hints.len() ==> key_listed(out, #[trigger] hints[i])
}

/// The normalised form of `h` has key `key`.
#[verifier::opaque]
pub open spec fn normalizes_to_key(h: MelbetTransportHint, key: (Seq<char>, Seq<char>, Seq<char>)) -> bool {
    key == (hint_family(h.kind@), hint_host(h.value@), hint_value(h.value@))
}

/// The normalised form of a hint has that hint's key.
pub proof fn lemma_normalized_key(n: MelbetNormalizedTransportHint, h: MelbetTransportHint)
    requires
        normalizes(n, h),
    ensures
        normalizes_to_key(h, hint_key(n)),
{
    reveal(normalizes);
    reveal(normalizes_to_key);
}

/// Whether `a`'s key sorts strictly before `b`'s.
fn key_less(a: &MelbetNormalizedTransportHint, b: &MelbetNormalizedTransportHint) -> (r: bool)
    ensures
        r == key_lt(hint_key(*a), hint_key(*b)),
{
    if lex_less(a.family.as_str(), b.family.as_str()) {
        return true;
    }
    if !str_eq(a.family.as_str(), b.family.as_str()) {
        return false;
    }
    if lex_less(a.host.as_str(), b.host.as_str()) {
        return true;
    }
    if !str_eq(a.host.as_str(), b.host.as_str()) {
        return false;
    }
    lex_less(a.normalized_value.as_str(), b.normalized_value.as_str())
}

/// Whether `a` and `b` have the same key.
fn key_equal(a: &MelbetNormalizedTransportHint, b: &MelbetNormalizedTransportHint) -> (r: bool)
    ensures
        r == (hint_key(*a) == hint_key(*b)),
{
    str_eq(a.family.as_str(), b.family.as_str()) && str_eq(a.host.as_str(), b.host.as_str())
        && str_eq(a.normalized_value.as_str(), b.normalized_value.as_str())
}

impl MelbetParser {
    /// The normalised form of a transport hint.
    pub fn normalize_transport_hint(hint: &MelbetTransportHint) -> (r: MelbetNormalizedTransportHint)
        ensures
            normalizes(r, *hint),
    {
        let trimmed = trim_str(hint.value.as_str());
        let trimmed_text = string_of(trimmed.as_slice());
        let mut normalized_value = to_lowercase(trimmed_text.as_str());
        let mut host = String::new();
        let mut path = String::new();
        let mut protocol = String::new();
        let value_chars = chars_of(hint.value.as_str());
        match parse_url(hint.value.as_str()) {
            Some(url) => {
                let stripped = strip_trailing_char(url.serialization.as_str(), '/');
                normalized_value = to_lowercase(stripped.as_str());
                host = match url.host {
                    Some(h) => h,
                    None => String::new(),
                };
                path = url.path;
                protocol = url.scheme;
            },
            None => {
                if contains_char(value_chars.as_slice(), '=') {
                    let key = text_before_char(hint.value.as_str(), '=');
                    let key_trimmed = trim_str(key.as_str());
                    let key_text = string_of(key_trimmed.as_slice());
                    normalized_value = to_lowercase(key_text.as_str());
                    path = normalized_value.clone();
                    protocol = owned("storage");
                } else if str_starts_with(normalized_value.as_str(), "/") {
                    path = normalized_value.clone();
                    protocol = owned("path");
                } else if !normalized_value.as_str().is_empty() {
                    path = normalized_value.clone();
                    protocol = to_lowercase(hint.source.as_str());
                }
            },
        }
        let k = hint.kind.as_str();
        let family = if str_eq(k, "websocket_endpoint") || str_eq(k, "websocket_candidate") {
            "websocket_like"
        } else if str_eq(k, "script_transport_marker") || str_eq(k, "body_transport_marker")
            || str_eq(k, "storage_transport_marker") {
            "transport_marker"
        } else if str_eq(k, "data_endpoint") || str_eq(k, "script_feed_marker") {
            "feed_endpoint"
        } else if str_eq(k, "http2_transport") {
            "http_transport"
        } else {
            "other"
        };
        let confidence = if str_eq(k, "websocket_endpoint") || str_eq(k, "data_endpoint") {
            "high"
        } else if str_eq(k, "websocket_candidate") || str_eq(k, "storage_transport_marker")
            || str_eq(k, "script_transport_marker") {
            "medium"
        } else {
            "low"
        };
        assert(normalized_value@ == hint_value(hint.value@));
        assert(host@ == hint_host(hint.value@));
        assert(path@ == hint_path(hint.value@));
        assert(protocol@ == hint_protocol(hint.value@, hint.source@));
        assert(family@ == hint_family(hint.kind@));
        assert(confidence@ == hint_confidence(hint.kind@));
        reveal(normalizes);
        MelbetNormalizedTransportHint {
            kind: hint.kind.clone(),
            family: owned(family),
            source: hint.source.clone(),
            normalized_value,
            host,
            path,
            protocol,
            confidence: owned(confidence),
        }
    }
}

/// Inserting a hint whose key is new at its place keeps the keys
/// increasing.
proof fn lemma_insert_keeps_order(
    out: Seq<MelbetNormalizedTransportHint>,
    k: int,
    n: MelbetNormalizedTransportHint,
)
    requires
        keys_increase(out),
        0 <= k <= out.len(),
        forall|m: int| 0 <= m < k ==> key_lt(hint_key(#[trigger] out[m]), hint_key(n)),
        forall|m: int| k <= m < out.len() ==> key_lt(hint_key(n), hint_key(#[trigger] out[m])),
    ensures
        keys_increase(out.insert(k, n)),
{
    let after = out.insert(k, n);
    assert forall|a: int, b: int| 0 <= a < b < after.len() implies key_lt(
        hint_key(#[trigger] after[a]),
        hint_key(#[trigger] after[b]),
    ) by {
        if b < k {
            assert(after[a] == out[a] && after[b] == out[b]);
        } else if a > k {
            assert(after[a] == out[a - 1] && after[b] == out[b - 1]);
        } else if a == k {
            assert(after[b] == out[b - 1]);
        } else if b == k {
            assert(after[a] == out[a]);
        } else {
            assert(after[a] == out[a] && after[b] == out[b - 1]);
            lemma_key_transitive(hint_key(out[a]), hint_key(n), hint_key(out[b - 1]));
        }
    }
}

/// A hint normalises to one key only.
proof fn lemma_key_unique(h: MelbetTransportHint, a: (Seq<char>, Seq<char>, Seq<char>), b: (Seq<char>, Seq<char>, Seq<char>))
    requires
        normalizes_to_key(h, a),
        normalizes_to_key(h, b),
    ensures
        a == b,
{
    reveal(normalizes_to_key);
}

/// Being the first of its key survives more hints after.
proof fn lemma_first_extends(n: MelbetNormalizedTransportHint, pre: Seq<MelbetTransportHint>, h: MelbetTransportHint)
    requires
        first_of_key(n, pre),
    ensures
        first_of_key(n, pre.push(h)),
{
    reveal(first_of_key);
    let post = pre.push(h);
    let i = choose|i: int|
        0 <= i < pre.len() && #[trigger] normalizes(n, pre[i]) && forall|q: int|
            0 <= q < i ==> !normalizes_to_key(#[trigger] pre[q], hint_key(n));
    assert(post[i] == pre[i]);
    assert forall|q: int| 0 <= q < i implies !normalizes_to_key(#[trigger] post[q], hint_key(n)) by {
        assert(post[q] == pre[q]);
    }
}

/// The hint just added is the first of its key where no earlier hint has it.
proof fn lemma_first_new(n: MelbetNormalizedTransportHint, pre: Seq<MelbetTransportHint>, h: MelbetTransportHint)
    requires
        normalizes(n, h),
        forall|q: int| 0 <= q < pre.len() ==> !normalizes_to_key(#[trigger] pre[q], hint_key(n)),
    ensures
        first_of_key(n, pre.push(h)),
{
    reveal(first_of_key);
    let post = pre.push(h);
    let i = pre.len() as int;
    assert(post[i] == h);
    assert forall|q: int| 0 <= q < i implies !normalizes_to_key(#[trigger] post[q], hint_key(n)) by {
        assert(post[q] == pre[q]);
    }
    assert(normalizes(n, post[i]));
}

/// A listed key stays listed when an entry is inserted.
proof fn lemma_listed_insert(out: Seq<MelbetNormalizedTransportHint>, k: int, n: MelbetNormalizedTransportHint, h: MelbetTransportHint)
    requires
        key_listed(out, h),
        0 <= k <= out.len(),
    ensures
        key_listed(out.insert(k, n), h),
{
    reveal(key_listed);
    let after = out.insert(k, n);
    let e = choose|e: int| 0 <= e < out.len() && normalizes_to_key(h, hint_key(#[trigger] out[e]));
    if e < k {
        assert(after[e] == out[e]);
    } else {
        assert(after[e + 1] == out[e]);
    }
}

/// An entry with the key lists it.
proof fn lemma_listed_at(out: Seq<MelbetNormalizedTransportHint>, e: int, h: MelbetTransportHint)
    requires
        0 <= e < out.len(),
        normalizes_to_key(h, hint_key(out[e])),
    ensures
        key_listed(out, h),
{
    reveal(key_listed);
}

/// A listed hint's key is the key of some entry.
proof fn lemma_listed_key(out: Seq<MelbetNormalizedTransportHint>, h: MelbetTransportHint, key: (Seq<char>, Seq<char>, Seq<char>))
    requires
        key_listed(out, h),
        normalizes_to_key(h, key),
    ensures
        exists|e: int| 0 <= e < out.len() && hint_key(#[trigger] out[e]) == key,
{
    reveal(key_listed);
    let e = choose|e: int| 0 <= e < out.len() && normalizes_to_key(h, hint_key(#[trigger] out[e]));
    lemma_key_unique(h, key, hint_key(out[e]));
}

/// A hint whose key is already listed leaves the merged list as it is.
proof fn lemma_merge_skip(
    prev: Seq<MelbetNormalizedTransportHint>,
    pre: Seq<MelbetTransportHint>,
    h: MelbetTransportHint,
    n: MelbetNormalizedTransportHint,
    k: int,
)
    requires
        merged_hints(prev, pre),
        normalizes(n, h),
        0 <= k < prev.len(),
        hint_key(prev[k]) == hint_key(n),
    ensures
        merged_hints(prev, pre.push(h)),
{
    lemma_normalized_key(n, h);
    let post = pre.push(h);
    assert forall|j: int| 0 <= j < post.len() implies key_listed(prev, #[trigger] post[j]) by {
        if j < pre.len() {
            assert(post[j] == pre[j]);
        } else {
            assert(post[j] == h);
            lemma_listed_at(prev, k, h);
        }
    }
    assert forall|e: int| 0 <= e < prev.len() implies first_of_key(#[trigger] prev[e], post) by {
        lemma_first_extends(prev[e], pre, h);
    }
}

/// A hint whose key is new is inserted at its place.
proof fn lemma_merge_insert(
    prev: Seq<MelbetNormalizedTransportHint>,
    pre: Seq<MelbetTransportHint>,
    h: MelbetTransportHint,
    n: MelbetNormalizedTransportHint,
    k: int,
)
    requires
        merged_hints(prev, pre),
        normalizes(n, h),
        0 <= k <= prev.len(),
        forall|m: int| 0 <= m < k ==> key_lt(hint_key(#[trigger] prev[m]), hint_key(n)),
        k < prev.len() ==> !key_lt(hint_key(prev[k]), hint_key(n)) && hint_key(prev[k]) != hint_key(n),
    ensures
        merged_hints(prev.insert(k, n), pre.push(h)),
{
    let kn = hint_key(n);
    let post = pre.push(h);
    let after = prev.insert(k, n);
    lemma_normalized_key(n, h);
    if k < prev.len() {
        lemma_key_total(hint_key(prev[k]), kn);
        assert forall|m: int| k <= m < prev.len() implies key_lt(kn, hint_key(#[trigger] prev[m])) by {
            if m > k {
                lemma_key_transitive(kn, hint_key(prev[k]), hint_key(prev[m]));
            }
        }
    }
    lemma_insert_keeps_order(prev, k, n);
    assert forall|e: int| 0 <= e < prev.len() implies hint_key(#[trigger] prev[e]) != kn by {
        lemma_key_irreflexive(kn);
    }
    assert forall|j: int| 0 <= j < post.len() implies key_listed(after, #[trigger] post[j]) by {
        if j < pre.len() {
            assert(post[j] == pre[j]);
            lemma_listed_insert(prev, k, n, pre[j]);
        } else {
            assert(post[j] == h);
            assert(after[k] == n);
            lemma_listed_at(after, k, h);
        }
    }
    assert forall|q: int| 0 <= q < pre.len() implies !normalizes_to_key(#[trigger] pre[q], kn) by {
        if normalizes_to_key(pre[q], kn) {
            lemma_listed_key(prev, pre[q], kn);
        }
    }
    assert forall|e: int| 0 <= e < after.len() implies first_of_key(#[trigger] after[e], post) by {
        if e == k {
            assert(after[e] == n);
            lemma_first_new(n, pre, h);
        } else if e < k {
            assert(after[e] == prev[e]);
            lemma_first_extends(prev[e], pre, h);
        } else {
            assert(after[e] == prev[e - 1]);
            lemma_first_extends(prev[e - 1], pre, h);
        }
    }
}

impl MelbetBootstrapSnapshot {
    /// The normalised transport hints, one per key (family, host, value) —
    /// the first hint with that key — in increasing key order.
    pub fn normalized_transport_hints(&self) -> (r: Vec<MelbetNormalizedTransportHint>)
        ensures
            merged_hints(r@, self.transport_hints@),
    {
        let hints = &self.transport_hints;
        let mut out: Vec<MelbetNormalizedTransportHint> = Vec::new();
        let mut i: usize = 0;
        while i < hints.len()
            invariant
                i <= hints@.len(),
                hints == &self.transport_hints,
                merged_hints(out@, hints@.take(i as int)),
            decreases hints@.len() - i,
        {
            let ghost prev = out@;
            let ghost pre = hints@.take(i as int);
            assert(hints@.take(i + 1) =~= pre.push(hints@[i as int]));
            let n = MelbetParser::normalize_transport_hint(&hints[i]);
            let ghost kn = hint_key(n);
            let mut k: usize = 0;
            while k < out.len() && key_less(&out[k], &n)
                invariant
                    k <= out@.len(),
                    out@ == prev,
                    kn == hint_key(n),
                    forall|m: int| 0 <= m < k ==> key_lt(hint_key(#[trigger] prev[m]), kn),
                decreases out@.len() - k,
            {
                k = k + 1;
            }
            if k < out.len() && key_equal(&out[k], &n) {
                proof {
                    lemma_merge_skip(prev, pre, hints@[i as int], n, k as int);
                }
            } else {
                proof {
                    lemma_merge_insert(prev, pre, hints@[i as int], n, k as int);
                }
                out.insert(k, n);
            }
            i = i + 1;
        }
        assert(hints@.take(hints@.len() as int) =~= hints@);
        out
    }
}

/// Number of entries of `list` in family `f`.
pub open spec fn count_family(list: Seq<MelbetNormalizedTransportHint>, f: Seq<char>) -> nat
    decreases list.len(),
{
    if list.len() == 0 {
        0
    } else {
        count_family(list.drop_last(), f) + (if list.last().family@ == f {
            1nat
        } else {
            0nat
        })
    }
}

/// Number of entries of `list` with confidence `c`.
pub open spec fn count_confidence(list: Seq<MelbetNormalizedTransportHint>, c: Seq<char>) -> nat
    decreases list.len(),
{
    if list.len() == 0 {
        0
    } else {
        count_confidence(list.drop_last(), c) + (if list.last().confidence@ == c {
            1nat
        } else {
            0nat
        })
    }
}

/// Which text of a normalised hint is summarised.
pub enum HintField {
    Family,
    Host,
    Protocol,
}

/// The `field` text of `n`.
pub open spec fn field_of(n: MelbetNormalizedTransportHint, field: HintField) -> Seq<char> {
    match field {
        HintField::Family => n.family@,
        HintField::Host => n.host@,
        HintField::Protocol => n.protocol@,
    }
}

/// `names` lists, sorted and once each, the `field` texts of the entries of
/// `list` (nonempty ones only where `nonempty`).
pub open spec fn distinct_sorted(
    names: Seq<Seq<char>>,
    list: Seq<MelbetNormalizedTransportHint>,
    field: HintField,
    nonempty: bool,
) -> bool {
    &&& is_strictly_sorted(names)
    &&& forall|t: Seq<char>|
        names.contains(t) <==> exists|e: int|
            0 <= e < list.len() && #[trigger] field_of(list[e], field) == t && (!nonempty || t.len() > 0)
}

/// The mapping summary of the normalised hints `list`: their families,
/// nonempty hosts and nonempty protocols, sorted and once each, and how many
/// are high-confidence, websocket-like and feed endpoints.
pub open spec fn mapping_of(m: MelbetTransportMappingSummary, list: Seq<MelbetNormalizedTransportHint>) -> bool {
    &&& distinct_sorted(views(m.families@), list, HintField::Family, false)
    &&& distinct_sorted(views(m.hosts@), list, HintField::Host, true)
    &&& distinct_sorted(views(m.protocols@), list, HintField::Protocol, true)
    &&& m.high_confidence_count == count_confidence(list, "high"@)
    &&& m.websocket_like_count == count_family(list, "websocket_like"@)
    &&& m.feed_like_count == count_family(list, "feed_endpoint"@)
}

impl MelbetParser {
    /// The mapping summary of the snapshot's normalised transport hints.
    pub fn summarize_transport_mapping(snapshot: &MelbetBootstrapSnapshot) -> (r: MelbetTransportMappingSummary)
        ensures
            exists|list: Seq<MelbetNormalizedTransportHint>|
                merged_hints(list, snapshot.transport_hints@) && mapping_of(r, list),
    {
        let normalized = snapshot.normalized_transport_hints();
        let ghost list = normalized@;
        let mut families: Vec<String> = Vec::new();
        let mut hosts: Vec<String> = Vec::new();
        let mut protocols: Vec<String> = Vec::new();
        let mut high: usize = 0;
        let mut ws: usize = 0;
        let mut feed: usize = 0;
        let mut i: usize = 0;
        while i < normalized.len()
            invariant
                i <= list.len(),
                list == normalized@,
                distinct_sorted(views(families@), list.take(i as int), HintField::Family, false),
                distinct_sorted(views(hosts@), list.take(i as int), HintField::Host, true),
                distinct_sorted(views(protocols@), list.take(i as int), HintField::Protocol, true),
                high == count_confidence(list.take(i as int), "high"@),
                ws == count_family(list.take(i as int), "websocket_like"@),
                feed == count_family(list.take(i as int), "feed_endpoint"@),
                high <= i && ws <= i && feed <= i,
            decreases list.len() - i,
        {
            let ghost pre = list.take(i as int);
            let ghost post = list.take(i + 1);
            assert(post =~= pre.push(list[i as int]));
            assert(post.drop_last() =~= pre);
            let n = &normalized[i];
            let ghost fam_before = views(families@);
            insert_sorted_unique(&mut families, n.family.clone());
            proof {
                assert forall|t: Seq<char>| views(families@).contains(t) <==> exists|e: int|
                    0 <= e < post.len() && #[trigger] field_of(post[e], HintField::Family) == t && (!false || t.len() > 0) by {
                    if views(families@).contains(t) {
                        if fam_before.contains(t) {
                            let e = choose|e: int| 0 <= e < pre.len() && #[trigger] field_of(pre[e], HintField::Family) == t && (!false || t.len() > 0);
                            assert(post[e] == pre[e]);
                        } else {
                            assert(field_of(post[i as int], HintField::Family) == t);
                        }
                    }
                    if exists|e: int| 0 <= e < post.len() && #[trigger] field_of(post[e], HintField::Family) == t && (!false || t.len() > 0) {
                        let e = choose|e: int| 0 <= e < post.len() && #[trigger] field_of(post[e], HintField::Family) == t && (!false || t.len() > 0);
                        if e < i {
                            assert(post[e] == pre[e]);
                            assert(field_of(pre[e], HintField::Family) == t);
                        }
                    }
                }
            }
            if !n.host.as_str().is_empty() {
                let ghost before = views(hosts@);
                insert_sorted_unique(&mut hosts, n.host.clone());
                proof {
                    assert forall|t: Seq<char>| views(hosts@).contains(t) <==> exists|e: int|
                        0 <= e < post.len() && #[trigger] field_of(post[e], HintField::Host) == t && (!true || t.len() > 0) by {
                        if views(hosts@).contains(t) {
                            if before.contains(t) {
                                let e = choose|e: int| 0 <= e < pre.len() && #[trigger] field_of(pre[e], HintField::Host) == t && (!true || t.len() > 0);
                                assert(post[e] == pre[e]);
                            } else {
                                assert(field_of(post[i as int], HintField::Host) == t);
                            }
                        }
                        if exists|e: int| 0 <= e < post.len() && #[trigger] field_of(post[e], HintField::Host) == t && (!true || t.len() > 0) {
                            let e = choose|e: int| 0 <= e < post.len() && #[trigger] field_of(post[e], HintField::Host) == t && (!true || t.len() > 0);
                            if e < i {
                                assert(post[e] == pre[e]);
                                assert(field_of(pre[e], HintField::Host) == t);
                            }
                        }
                    }
                }
            } else {
                proof {
                    assert forall|t: Seq<char>| views(hosts@).contains(t) <==> exists|e: int|
                        0 <= e < post.len() && #[trigger] field_of(post[e], HintField::Host) == t && (!true || t.len() > 0) by {
                        if views(hosts@).contains(t) {
                            let e = choose|e: int| 0 <= e < pre.len() && #[trigger] field_of(pre[e], HintField::Host) == t && (!true || t.len() > 0);
                            assert(post[e] == pre[e]);
                        }
                        if exists|e: int| 0 <= e < post.len() && #[trigger] field_of(post[e], HintField::Host) == t && (!true || t.len() > 0) {
                            let e = choose|e: int| 0 <= e < post.len() && #[trigger] field_of(post[e], HintField::Host) == t && (!true || t.len() > 0);
                            if e < i {
                                assert(post[e] == pre[e]);
                                assert(field_of(pre[e], HintField::Host) == t);
                            }
                        }
                    }
                }
            }
            if !n.protocol.as_str().is_empty() {
                let ghost before = views(protocols@);
                insert_sorted_unique(&mut protocols, n.protocol.clone());
                proof {
                    assert forall|t: Seq<char>| views(protocols@).contains(t) <==> exists|e: int|
                        0 <= e < post.len() && #[trigger] field_of(post[e], HintField::Protocol) == t && (!true || t.len() > 0) by {
                        if views(protocols@).contains(t) {
                            if before.contains(t) {
                                let e = choose|e: int| 0 <= e < pre.len() && #[trigger] field_of(pre[e], HintField::Protocol) == t && (!true || t.len() > 0);
                                assert(post[e] == pre[e]);
                            } else {
                                assert(field_of(post[i as int], HintField::Protocol) == t);
                            }
                        }
                        if exists|e: int| 0 <= e < post.len() && #[trigger] field_of(post[e], HintField::Protocol) == t && (!true || t.len() > 0) {
                            let e = choose|e: int| 0 <= e < post.len() && #[trigger] field_of(post[e], HintField::Protocol) == t && (!true || t.len() > 0);
                            if e < i {
                                assert(post[e] == pre[e]);
                                assert(field_of(pre[e], HintField::Protocol) == t);
                            }
                        }
                    }
                }
            } else {
                proof {
                    assert forall|t: Seq<char>| views(protocols@).contains(t) <==> exists|e: int|
                        0 <= e < post.len() && #[trigger] field_of(post[e], HintField::Protocol) == t && (!true || t.len() > 0) by {
                        if views(protocols@).contains(t) {
                            let e = choose|e: int| 0 <= e < pre.len() && #[trigger] field_of(pre[e], HintField::Protocol) == t && (!true || t.len() > 0);
                            assert(post[e] == pre[e]);
                        }
                        if exists|e: int| 0 <= e < post.len() && #[trigger] field_of(post[e], HintField::Protocol) == t && (!true || t.len() > 0) {
                            let e = choose|e: int| 0 <= e < post.len() && #[trigger] field_of(post[e], HintField::Protocol) == t && (!true || t.len() > 0);
                            if e < i {
                                assert(post[e] == pre[e]);
                                assert(field_of(pre[e], HintField::Protocol) == t);
                            }
                        }
                    }
                }
            }
            if str_eq(n.confidence.as_str(), "high") {
                high = high + 1;
            }
            if str_eq(n.family.as_str(), "websocket_like") {
                ws = ws + 1;
            }
            if str_eq(n.family.as_str(), "feed_endpoint") {
                feed = feed + 1;
            }
            assert(post.last() == list[i as int]);
            i = i + 1;
        }
        assert(list.take(list.len() as int) =~= list);
        let r = MelbetTransportMappingSummary {
            families,
            hosts,
            protocols,
            high_confidence_count: high,
            websocket_like_count: ws,
            feed_like_count: feed,
        };
        assert(merged_hints(list, snapshot.transport_hints@) && mapping_of(r, list));
        r
    }
}

} // verus!
