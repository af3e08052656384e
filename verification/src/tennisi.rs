//! Tennisi: the prematch categories probed, and the rules that read the
//! line tables (titles, competitors, headers, sports, links).

use crate::sport::Sport;
use crate::text::{
    chars_of, contains_any, find_first, first_index, has_infix, has_prefix, has_suffix, is_digit,
    is_whitespace, is_ws, normalize_whitespace, normalize_whitespace_chars, normalize_ws, owned,
    push_str, slice_chars, spaced_text, static_views, str_contains, str_contains_any, str_eq,
    str_starts_with, string_of, to_lowercase, to_uppercase, trim, trim_str, unicode_lower,
    unicode_upper, ends_with, utf8_len_upto, lemma_utf8_len,
};
use crate::pattern::{regex_is_match, regex_matches};
use vstd::prelude::*;
use vstd::utf8::encode_utf8;

verus! {

/// A prematch sport page and the category it lists.
#[derive(Clone, Copy, Debug)]
pub struct PrematchProbe {
    pub slug: &'static str,
    pub sport: Sport,
    pub category_id: Option<&'static str>,
}

/// The probe for one sport page.
pub open spec fn probe_is(p: PrematchProbe, slug: Seq<char>, sport: Sport, category: Seq<char>) -> bool {
    p.slug@ == slug && p.sport == sport && (p.category_id matches Some(c) && c@ == category)
}

/// The prematch sport pages probed, each with its category id.
pub fn prematch_probes() -> (r: Vec<PrematchProbe>)
    ensures
        r@.len() == 19,
        probe_is(r@[0], "football"@, Sport::Football, "137"@),
        probe_is(r@[1], "hockey"@, Sport::Hockey, "138"@),
        probe_is(r@[2], "tennis"@, Sport::Tennis, "139"@),
        probe_is(r@[3], "basketball"@, Sport::Basketball, "140"@),
        probe_is(r@[4], "volleyball"@, Sport::Volleyball, "9027116"@),
        probe_is(r@[5], "cybersport"@, Sport::Esports, "439908280"@),
        probe_is(r@[6], "pingpong"@, Sport::TableTennis, "1085860065"@),
        probe_is(r@[7], "baseball"@, Sport::Baseball, "326835"@),
        probe_is(r@[8], "handball"@, Sport::Handball, "5662396"@),
        probe_is(r@[9], "waterpolo"@, Sport::WaterPolo, "8029783"@),
        probe_is(r@[10], "futsal"@, Sport::Futsal, "23565786"@),
        probe_is(r@[11], "rugby"@, Sport::Rugby, "466447415"@),
        probe_is(r@[12], "box"@, Sport::Boxing, "8152637"@),
        probe_is(r@[13], "billiard"@, Sport::Snooker, "17076577"@),
        probe_is(r@[14], "races"@, Sport::Motorsport, "17076134"@),
        probe_is(r@[15], "amfootball"@, Sport::Other, "4076387"@),
        probe_is(r@[16], "other"@, Sport::Other, "1960530"@),
        probe_is(r@[17], "darts"@, Sport::Other, "58446467"@),
        probe_is(r@[18], "trends"@, Sport::Other, "491109347"@),
{
    let mut r: Vec<PrematchProbe> = Vec::new();
    r.push(PrematchProbe { slug: "football", sport: Sport::Football, category_id: Some("137") });
    r.push(PrematchProbe { slug: "hockey", sport: Sport::Hockey, category_id: Some("138") });
    r.push(PrematchProbe { slug: "tennis", sport: Sport::Tennis, category_id: Some("139") });
    r.push(PrematchProbe { slug: "basketball", sport: Sport::Basketball, category_id: Some("140") });
    r.push(PrematchProbe { slug: "volleyball", sport: Sport::Volleyball, category_id: Some("9027116") });
    r.push(PrematchProbe { slug: "cybersport", sport: Sport::Esports, category_id: Some("439908280") });
    r.push(PrematchProbe { slug: "pingpong", sport: Sport::TableTennis, category_id: Some("1085860065") });
    r.push(PrematchProbe { slug: "baseball", sport: Sport::Baseball, category_id: Some("326835") });
    r.push(PrematchProbe { slug: "handball", sport: Sport::Handball, category_id: Some("5662396") });
    r.push(PrematchProbe { slug: "waterpolo", sport: Sport::WaterPolo, category_id: Some("8029783") });
    r.push(PrematchProbe { slug: "futsal", sport: Sport::Futsal, category_id: Some("23565786") });
    r.push(PrematchProbe { slug: "rugby", sport: Sport::Rugby, category_id: Some("466447415") });
    r.push(PrematchProbe { slug: "box", sport: Sport::Boxing, category_id: Some("8152637") });
    r.push(PrematchProbe { slug: "billiard", sport: Sport::Snooker, category_id: Some("17076577") });
    r.push(PrematchProbe { slug: "races", sport: Sport::Motorsport, category_id: Some("17076134") });
    r.push(PrematchProbe { slug: "amfootball", sport: Sport::Other, category_id: Some("4076387") });
    r.push(PrematchProbe { slug: "other", sport: Sport::Other, category_id: Some("1960530") });
    r.push(PrematchProbe { slug: "darts", sport: Sport::Other, category_id: Some("58446467") });
    r.push(PrematchProbe { slug: "trends", sport: Sport::Other, category_id: Some("491109347") });
    r
}

/// Names that are placeholders rather than competitors.
pub open spec fn placeholder_names() -> Seq<Seq<char>> {
    seq![
        "live"@,
        "матч"@,
        "событие"@,
        "ставки"@,
        "specials"@,
        "специальные ставки"@,
        "unknown"@,
        "tbd"@,
        "n/a"@,
    ]
}

/// Only digits, dots, dashes and whitespace.
pub open spec fn is_numeric_like(s: Seq<char>) -> bool {
    forall|k: int| 0 <= k < s.len() ==> is_digit(#[trigger] s[k]) || s[k] == '.' || s[k] == '-' || is_ws(s[k])
}

/// A competitor name: 2 to 120 bytes of UTF-8 once trimmed, not a
/// placeholder (in lowercase), and not only digits, dots, dashes and spaces.
pub open spec fn valid_competitor(name: Seq<char>) -> bool {
    let t = trim(name);
    &&& 2 <= encode_utf8(t).len() <= 120
    &&& !placeholder_names().contains(unicode_lower(t))
    &&& !is_numeric_like(t)
}

/// Whether `s` holds only digits, dots, dashes and whitespace.
fn numeric_like(s: &[char]) -> (r: bool)
    ensures
        r == is_numeric_like(s@),
{
    let mut i: usize = 0;
    while i < s.len()
        invariant
            i <= s@.len(),
            forall|k: int| 0 <= k < i ==> is_digit(#[trigger] s@[k]) || s@[k] == '.' || s@[k] == '-' || is_ws(s@[k]),
        decreases s@.len() - i,
    {
        let c = s[i];
        if !((c >= '0' && c <= '9') || c == '.' || c == '-' || is_whitespace(c)) {
            return false;
        }
        i = i + 1;
    }
    true
}

/// Whether `name` names a competitor.
pub fn is_valid_competitor(name: &str) -> (r: bool)
    ensures
        r == valid_competitor(name@),
{
    let t = trim_str(name);
    let trimmed = string_of(t.as_slice());
    let bytes = utf8_len_upto(t.as_slice(), 120);
    proof {
        lemma_utf8_len(trim(name@));
    }
    if bytes < 2 || bytes > 120 {
        return false;
    }
    let lower = to_lowercase(trimmed.as_str());
    let l = lower.as_str();
    let placeholders: Vec<&'static str> = vec![
        "live",
        "матч",
        "событие",
        "ставки",
        "specials",
        "специальные ставки",
        "unknown",
        "tbd",
        "n/a",
    ];
    assert(static_views(placeholders@) =~= placeholder_names());
    let mut i: usize = 0;
    while i < placeholders.len()
        invariant
            i <= placeholders@.len(),
            static_views(placeholders@) == placeholder_names(),
            l@ == unicode_lower(trim(name@)),
            forall|k: int| 0 <= k < i ==> #[trigger] placeholder_names()[k] != l@,
        decreases placeholders@.len() - i,
    {
        assert(placeholder_names()[i as int] == placeholders@[i as int]@);
        if str_eq(l, placeholders[i]) {
            assert(placeholder_names()[i as int] == l@);
            assert(placeholder_names().contains(unicode_lower(trim(name@))));
            return false;
        }
        i = i + 1;
    }
    assert(!placeholder_names().contains(unicode_lower(trim(name@))));
    !numeric_like(t.as_slice())
}

/// A link made absolute on `https://tennisi.bet`: links starting with `http`
/// as they are, absolute paths on the site, anything else under the
/// `/rt/cgi/` scripts.
pub open spec fn absolute_link(path: Seq<char>) -> Seq<char> {
    if has_prefix(path, "http"@) {
        path
    } else if has_prefix(path, "/"@) {
        "https://tennisi.bet"@ + path
    } else {
        "https://tennisi.bet/rt/cgi/"@ + path
    }
}

/// A link made absolute.
pub fn absolute_url(path: &str) -> (r: String)
    ensures
        r@ == absolute_link(path@),
{
    if str_starts_with(path, "http") {
        return owned(path);
    }
    let mut out = String::new();
    if str_starts_with(path, "/") {
        push_str(&mut out, "https://tennisi.bet");
    } else {
        push_str(&mut out, "https://tennisi.bet/rt/cgi/");
    }
    push_str(&mut out, path);
    out
}

/// A row of the live table that only switches filters.
pub open spec fn generic_filter_row(text: Seq<char>) -> bool {
    let l = unicode_lower(text);
    has_infix(l, "выключить"@) || has_infix(l, "включить"@) || l == "- все + все"@
}

/// Whether a row of the live table only switches filters.
pub fn is_generic_live_filter_row(text: &str) -> (r: bool)
    ensures
        r == generic_filter_row(text@),
{
    let lower = to_lowercase(text);
    let l = lower.as_str();
    str_contains(l, "выключить") || str_contains(l, "включить") || str_eq(l, "- все + все")
}

/// The characters of `s` that are neither whitespace nor no-break spaces.
pub open spec fn without_spaces(s: Seq<char>) -> Seq<char>
    decreases s.len(),
{
    if s.len() == 0 {
        s
    } else if is_ws(s.last()) || s.last() == '\u{a0}' {
        without_spaces(s.drop_last())
    } else {
        without_spaces(s.drop_last()).push(s.last())
    }
}

/// A table header without spaces, in uppercase.
pub open spec fn canonical(value: Seq<char>) -> Seq<char> {
    unicode_upper(without_spaces(value))
}

/// A table header without spaces, in uppercase.
pub fn canonical_header(value: &str) -> (r: String)
    ensures
        r@ == canonical(value@),
{
    let v = chars_of(value);
    let mut kept: Vec<char> = Vec::new();
    let mut i: usize = 0;
    while i < v.len()
        invariant
            i <= v@.len(),
            v@ == value@,
            kept@ == without_spaces(v@.take(i as int)),
        decreases v@.len() - i,
    {
        assert(v@.take(i + 1).drop_last() =~= v@.take(i as int));
        assert(v@.take(i + 1).last() == v@[i as int]);
        let c = v[i];
        if !(is_whitespace(c) || c == '\u{a0}') {
            kept.push(c);
        }
        i = i + 1;
    }
    assert(v@.take(v@.len() as int) =~= v@);
    let s = string_of(kept.as_slice());
    to_uppercase(s.as_str())
}

/// The canonical headers of the market columns.
pub open spec fn market_labels() -> Seq<Seq<char>> {
    seq![
        "№"@,
        "ДАТА"@,
        "СОБЫТИЕ"@,
        "П1"@,
        "П2"@,
        "X"@,
        "Х"@,
        "1X"@,
        "12"@,
        "2X"@,
        "Ф1"@,
        "Ф2"@,
        "К1"@,
        "К2"@,
        "TM"@,
        "ТМ"@,
        "<"@,
        ">"@,
        "ДОП"@,
    ]
}

/// Whether a cell's text is a market column header.
pub fn looks_like_market_label(text: &str) -> (r: bool)
    ensures
        r == market_labels().contains(canonical(text@)),
{
    let h = canonical_header(text);
    let labels: Vec<&'static str> = vec![
        "№",
        "ДАТА",
        "СОБЫТИЕ",
        "П1",
        "П2",
        "X",
        "Х",
        "1X",
        "12",
        "2X",
        "Ф1",
        "Ф2",
        "К1",
        "К2",
        "TM",
        "ТМ",
        "<",
        ">",
        "ДОП",
    ];
    assert(static_views(labels@) =~= market_labels());
    let mut i: usize = 0;
    while i < labels.len()
        invariant
            i <= labels@.len(),
            static_views(labels@) == market_labels(),
            h@ == canonical(text@),
            forall|k: int| 0 <= k < i ==> #[trigger] market_labels()[k] != h@,
        decreases labels@.len() - i,
    {
        assert(market_labels()[i as int] == labels@[i as int]@);
        if str_eq(h.as_str(), labels[i]) {
            assert(market_labels()[i as int] == h@);
            return true;
        }
        i = i + 1;
    }
    false
}

/// The sport of a live row, from its league and title (first match wins).
pub open spec fn live_sport(league: Seq<char>, title: Seq<char>) -> Sport {
    let p = unicode_lower(league + " "@ + title);
    if has_infix(p, "настоль"@) || has_infix(p, "table tennis"@) || has_infix(p, "ping pong"@) {
        Sport::TableTennis
    } else if has_infix(p, "теннис"@) || has_infix(p, "tennis"@) {
        Sport::Tennis
    } else if has_infix(p, "кибер"@) || has_infix(p, "fifa"@) || has_infix(p, "esports"@) || has_infix(p, "cyber"@) {
        Sport::Esports
    } else if has_infix(p, "баскет"@) || has_infix(p, "basket"@) {
        Sport::Basketball
    } else if has_infix(p, "хоккей"@) || has_infix(p, "hockey"@) {
        Sport::Hockey
    } else if has_infix(p, "волей"@) || has_infix(p, "volley"@) {
        Sport::Volleyball
    } else if has_infix(p, "водное поло"@) || has_infix(p, "water polo"@) {
        Sport::WaterPolo
    } else if has_infix(p, "гандбол"@) || has_infix(p, "handball"@) {
        Sport::Handball
    } else if has_infix(p, "бейсбол"@) || has_infix(p, "baseball"@) {
        Sport::Baseball
    } else if has_infix(p, "футзал"@) || has_infix(p, "futsal"@) {
        Sport::Futsal
    } else if has_infix(p, "регби"@) || has_infix(p, "rugby"@) {
        Sport::Rugby
    } else if has_infix(p, "бокс"@) || has_infix(p, "boxing"@) {
        Sport::Boxing
    } else if has_infix(p, "футбол"@) || has_infix(p, "soccer"@) || has_infix(p, "football"@) {
        Sport::Football
    } else {
        Sport::Other
    }
}

/// The sport of a live row.
pub fn detect_live_sport(league: &str, title: &str) -> (r: Sport)
    ensures
        r == live_sport(league@, title@),
{
    let joined = spaced_text(league, title);
    let lower = to_lowercase(joined.as_str());
    let p = lower.as_str();
    if str_contains(p, "настоль") || str_contains(p, "table tennis") || str_contains(p, "ping pong") {
        Sport::TableTennis
    } else if str_contains(p, "теннис") || str_contains(p, "tennis") {
        Sport::Tennis
    } else if str_contains(p, "кибер") || str_contains(p, "fifa") || str_contains(p, "esports")
        || str_contains(p, "cyber") {
        Sport::Esports
    } else if str_contains(p, "баскет") || str_contains(p, "basket") {
        Sport::Basketball
    } else if str_contains(p, "хоккей") || str_contains(p, "hockey") {
        Sport::Hockey
    } else if str_contains(p, "волей") || str_contains(p, "volley") {
        Sport::Volleyball
    } else if str_contains(p, "водное поло") || str_contains(p, "water polo") {
        Sport::WaterPolo
    } else if str_contains(p, "гандбол") || str_contains(p, "handball") {
        Sport::Handball
    } else if str_contains(p, "бейсбол") || str_contains(p, "baseball") {
        Sport::Baseball
    } else if str_contains(p, "футзал") || str_contains(p, "futsal") {
        Sport::Futsal
    } else if str_contains(p, "регби") || str_contains(p, "rugby") {
        Sport::Rugby
    } else if str_contains(p, "бокс") || str_contains(p, "boxing") {
        Sport::Boxing
    } else if str_contains(p, "футбол") || str_contains(p, "soccer") || str_contains(p, "football") {
        Sport::Football
    } else {
        Sport::Other
    }
}

/// The two names, where both are non-empty and differ.
pub open spec fn distinct_pair(h: Seq<char>, a: Seq<char>) -> Option<(Seq<char>, Seq<char>)> {
    if h.len() > 0 && a.len() > 0 && h != a {
        Some((h, a))
    } else {
        None
    }
}

/// The names on either side of the first `sep` in `title`, normalised.
pub open spec fn split_on_text(title: Seq<char>, sep: Seq<char>) -> Option<(Seq<char>, Seq<char>)> {
    if has_infix(title, sep) {
        let i = first_index(title, sep);
        distinct_pair(normalize_ws(title.take(i)), normalize_ws(title.skip(i + sep.len())))
    } else {
        None
    }
}

/// Whitespace stands just before or just after position `i`.
#[verifier::opaque]
pub open spec fn ws_beside(title: Seq<char>, i: int) -> bool {
    (i > 0 && is_ws(title[i - 1])) || (i + 1 < title.len() && is_ws(title[i + 1]))
}

/// Whether whitespace stands just before or just after position `i`.
fn has_ws_beside(title: &Vec<char>, i: usize) -> (r: bool)
    requires
        i < title@.len(),
    ensures
        r == ws_beside(title@, i as int),
{
    reveal(ws_beside);
    let n = title.len();
    (i > 0 && is_whitespace(title[i - 1])) || (i + 1 < n && is_whitespace(title[i + 1]))
}

/// The names on either side of the first dash `c` in `title`, where
/// whitespace stands next to it.
pub open spec fn split_on_dash(title: Seq<char>, c: char) -> Option<(Seq<char>, Seq<char>)> {
    if has_infix(title, seq![c]) {
        let i = first_index(title, seq![c]);
        if ws_beside(title, i) {
            distinct_pair(normalize_ws(title.take(i)), normalize_ws(title.skip(i + 1)))
        } else {
            None
        }
    } else {
        None
    }
}

/// `a`, or `b` where `a` is none.
pub open spec fn first_of(a: Option<(Seq<char>, Seq<char>)>, b: Option<(Seq<char>, Seq<char>)>) -> Option<(Seq<char>, Seq<char>)> {
    if a is Some {
        a
    } else {
        b
    }
}

/// The two sides of a match title: the first separator among ` - `, ` – `,
/// ` — `, ` vs `, ` VS `, ` v ` that splits it into two distinct names,
/// else the first of the dashes `-`, `–`, `—` that has whitespace beside it
/// and does.
pub open spec fn title_sides(title: Seq<char>) -> Option<(Seq<char>, Seq<char>)> {
    first_of(split_on_text(title, " - "@), first_of(split_on_text(title, " – "@), first_of(
        split_on_text(title, " — "@),
        first_of(split_on_text(title, " vs "@), first_of(split_on_text(title, " VS "@), first_of(
            split_on_text(title, " v "@),
            first_of(split_on_dash(title, '-'), first_of(split_on_dash(title, '–'), split_on_dash(title, '—'))),
        ))),
    )))
}

/// The spec value of a pair of strings.
pub open spec fn pair_view(p: Option<(String, String)>) -> Option<(Seq<char>, Seq<char>)> {
    match p {
        Some((h, a)) => Some((h@, a@)),
        None => None,
    }
}

/// The two names, where both are non-empty and differ.
fn make_pair(h: Vec<char>, a: Vec<char>) -> (r: Option<(String, String)>)
    ensures
        pair_view(r) == distinct_pair(h@, a@),
{
    if h.len() > 0 && a.len() > 0 && !crate::text::seq_eq(h.as_slice(), a.as_slice()) {
        Some((string_of(h.as_slice()), string_of(a.as_slice())))
    } else {
        None
    }
}

/// The normalised names before position `i` and from position `j` on.
fn sides(title: &Vec<char>, i: usize, j: usize) -> (r: Option<(String, String)>)
    requires
        i <= j <= title@.len(),
    ensures
        pair_view(r) == distinct_pair(normalize_ws(title@.take(i as int)), normalize_ws(title@.skip(j as int))),
{
    let n = title.len();
    let before = slice_chars(title.as_slice(), 0, i);
    let after = slice_chars(title.as_slice(), j, n);
    assert(before@ =~= title@.take(i as int));
    assert(after@ =~= title@.skip(j as int));
    let h = normalize_whitespace_chars(before.as_slice());
    let a = normalize_whitespace_chars(after.as_slice());
    make_pair(h, a)
}

/// Splits `title` at the first `sep`.
fn try_split_text(title: &Vec<char>, sep: &str) -> (r: Option<(String, String)>)
    ensures
        pair_view(r) == split_on_text(title@, sep@),
{
    let sv = chars_of(sep);
    match find_first(title.as_slice(), sv.as_slice()) {
        Some(i) => {
            let n = title.len();
            assert(i + sv@.len() <= n);
            sides(title, i, i + sv.len())
        },
        None => None,
    }
}

/// Splits `title` at the first dash `c`, where whitespace stands next to it.
fn try_split_dash(title: &Vec<char>, c: char) -> (r: Option<(String, String)>)
    ensures
        pair_view(r) == split_on_dash(title@, c),
{
    let mut cv: Vec<char> = Vec::new();
    cv.push(c);
    assert(cv@ =~= seq![c]);
    match find_first(title.as_slice(), cv.as_slice()) {
        Some(i) => {
            let n = title.len();
            assert(i + 1 <= n);
            if !has_ws_beside(title, i) {
                return None;
            }
            sides(title, i, i + 1)
        },
        None => None,
    }
}

/// The two sides of a match title, if it names two.
pub fn split_match_title(title: &str) -> (r: Option<(String, String)>)
    ensures
        pair_view(r) == title_sides(title@),
{
    let t = chars_of(title);
    let r = try_split_text(&t, " - ");
    if r.is_some() {
        return r;
    }
    let r = try_split_text(&t, " – ");
    if r.is_some() {
        return r;
    }
    let r = try_split_text(&t, " — ");
    if r.is_some() {
        return r;
    }
    let r = try_split_text(&t, " vs ");
    if r.is_some() {
        return r;
    }
    let r = try_split_text(&t, " VS ");
    if r.is_some() {
        return r;
    }
    let r = try_split_text(&t, " v ");
    if r.is_some() {
        return r;
    }
    let r = try_split_dash(&t, '-');
    if r.is_some() {
        return r;
    }
    let r = try_split_dash(&t, '–');
    if r.is_some() {
        return r;
    }
    try_split_dash(&t, '—')
}

/// Words that mark a title as a special market rather than an outright.
pub open spec fn special_market_words() -> Seq<Seq<char>> {
    seq![
        "лучший"@,
        "количество"@,
        "тотал"@,
        "гандикап"@,
        "фора"@,
        "точный счет"@,
        "специальные ставки"@,
        "спец. ставки"@,
    ]
}

/// An outright title: a valid competitor name once whitespace is
/// normalised, and no special-market word in it.
pub open spec fn outright_title(title: Seq<char>) -> bool {
    let n = normalize_ws(title);
    valid_competitor(n) && !contains_any(unicode_lower(n), special_market_words())
}

/// Whether a title names an outright market.
pub fn is_valid_outright_title(title: &str) -> (r: bool)
    ensures
        r == outright_title(title@),
{
    let n = normalize_whitespace(title);
    if !is_valid_competitor(n.as_str()) {
        return false;
    }
    let lower = to_lowercase(n.as_str());
    let words: Vec<&'static str> = vec![
        "лучший",
        "количество",
        "тотал",
        "гандикап",
        "фора",
        "точный счет",
        "специальные ставки",
        "спец. ставки",
    ];
    assert(static_views(words@) =~= special_market_words());
    !str_contains_any(lower.as_str(), words.as_slice())
}

/// How a title is filed: the two sides of a match; else, for a prematch
/// outright, the title against `Field`.
pub open spec fn title_class(title: Seq<char>, is_live: bool) -> Option<(Seq<char>, Seq<char>, bool)> {
    match title_sides(title) {
        Some((h, a)) => Some((h, a, false)),
        None => if !is_live && outright_title(title) {
            Some((title, "Field"@, true))
        } else {
            None
        },
    }
}

/// How a title is filed.
pub fn classify_event_title(title: &str, is_live: bool) -> (r: Option<(String, String, bool)>)
    ensures
        match r {
            Some((h, a, outright)) => title_class(title@, is_live) == Some((h@, a@, outright)),
            None => title_class(title@, is_live) is None,
        },
{
    match split_match_title(title) {
        Some((h, a)) => Some((h, a, false)),
        None => {
            if !is_live && is_valid_outright_title(title) {
                Some((owned(title), owned("Field"), true))
            } else {
                None
            }
        },
    }
}

/// `s` without the suffix `suf`, where it ends with it.
pub open spec fn cut_suffix(s: Seq<char>, suf: Seq<char>) -> Seq<char> {
    if has_suffix(s, suf) {
        s.take(s.len() - suf.len())
    } else {
        s
    }
}

/// An event title without the special-bets suffixes, whitespace
/// normalised.
pub open spec fn sanitized_title(value: Seq<char>) -> Seq<char> {
    normalize_ws(cut_suffix(
        cut_suffix(
            cut_suffix(cut_suffix(value, ". Специальные ставки"@), " Специальные ставки"@),
            ". Спец. ставки"@,
        ),
        " Спец. ставки"@,
    ))
}

/// `s` without the suffix `suf`, where it ends with it.
fn drop_suffix(s: Vec<char>, suf: &str) -> (r: Vec<char>)
    ensures
        r@ == cut_suffix(s@, suf@),
{
    let sv = chars_of(suf);
    if ends_with(s.as_slice(), sv.as_slice()) {
        let n = s.len();
        let r = slice_chars(s.as_slice(), 0, n - sv.len());
        assert(r@ =~= s@.take(s@.len() - suf@.len()));
        r
    } else {
        s
    }
}

/// An event title without the special-bets suffixes, whitespace normalised.
pub fn sanitize_event_title(value: &str) -> (r: String)
    ensures
        r@ == sanitized_title(value@),
{
    let v = chars_of(value);
    let v = drop_suffix(v, ". Специальные ставки");
    let v = drop_suffix(v, " Специальные ставки");
    let v = drop_suffix(v, ". Спец. ставки");
    let v = drop_suffix(v, " Спец. ставки");
    let n = normalize_whitespace_chars(v.as_slice());
    string_of(n.as_slice())
}

/// The pattern of a numeric day and month, optionally with a year.
pub const NUMERIC_DATE_PATTERN: &'static str = r"\b\d{1,2}[./]\d{1,2}(?:[./]\d{2,4})?\b";

/// Whether the numeric-date pattern matches somewhere in `text`.
pub open spec fn has_numeric_date(text: Seq<char>) -> bool {
    regex_matches(NUMERIC_DATE_PATTERN@, text) == Some(true)
}

/// Whether the numeric-date pattern matches somewhere in `text`.
fn numeric_date_match(text: &str) -> (r: bool)
    ensures
        r == has_numeric_date(text@),
{
    match regex_is_match(NUMERIC_DATE_PATTERN, text) {
        Some(b) => b,
        None => false,
    }
}

/// A date heading: `сегодня`, `завтра` (in lowercase) or a numeric date.
pub open spec fn date_marker(text: Seq<char>) -> bool {
    has_infix(unicode_lower(text), "сегодня"@) || has_infix(unicode_lower(text), "завтра"@)
        || has_numeric_date(text)
}

/// Whether a row's text is a date heading.
pub fn is_date_marker(text: &str) -> (r: bool)
    ensures
        r == date_marker(text@),
{
    let lower = to_lowercase(text);
    str_contains(lower.as_str(), "сегодня") || str_contains(lower.as_str(), "завтра")
        || numeric_date_match(text)
}

} // verus!
