//! Character-level text helpers with exact specifications over `Seq<char>`.

use vstd::prelude::*;

verus! {

// ---------------------------------------------------------------------------
// Basic conversions
// ---------------------------------------------------------------------------

/// Appends one character to a `String` (std `String::push`): the new text is
/// the old text followed by `c`.
#[verifier::external_body]
pub(crate) fn push_char(s: &mut String, c: char)
    ensures
        final(s)@ == old(s)@.push(c),
{
    s.push(c);
}

/// The characters of `s`, in order.
pub fn chars_of(s: &str) -> (v: Vec<char>)
    ensures
        v@ == s@,
{
    let n = s.unicode_len();
    let mut v: Vec<char> = Vec::new();
    let mut i: usize = 0;
    while i < n
        invariant
            n == s@.len(),
            i <= n,
            v@ == s@.subrange(0, i as int),
        decreases n - i,
    {
        let c = s.get_char(i);
        v.push(c);
        i = i + 1;
    }
    v
}

/// A `String` holding exactly the characters of `v`.
pub fn string_of(v: &[char]) -> (s: String)
    ensures
        s@ == v@,
{
    let mut s = String::new();
    let mut i: usize = 0;
    while i < v.len()
        invariant
            i <= v@.len(),
            s@ == v@.subrange(0, i as int),
        decreases v@.len() - i,
    {
        push_char(&mut s, v[i]);
        i = i + 1;
    }
    s
}

/// Appends the characters of `v` to `s`.
pub fn push_chars(s: &mut String, v: &[char])
    ensures
        final(s)@ == old(s)@ + v@,
{
    let mut i: usize = 0;
    while i < v.len()
        invariant
            i <= v@.len(),
            s@ == old(s)@ + v@.subrange(0, i as int),
        decreases v@.len() - i,
    {
        push_char(s, v[i]);
        i = i + 1;
    }
    assert(v@.subrange(0, v@.len() as int) =~= v@);
}

/// Appends `t` to `s`.
pub fn push_str(s: &mut String, t: &str)
    ensures
        final(s)@ == old(s)@ + t@,
{
    s.append(t);
}

/// An owned copy of `s`.
pub fn owned(s: &str) -> (r: String)
    ensures
        r@ == s@,
{
    String::from_str(s)
}

/// Whether two character sequences are equal.
pub fn seq_eq(a: &[char], b: &[char]) -> (r: bool)
    ensures
        r == (a@ == b@),
{
    if a.len() != b.len() {
        return false;
    }
    let mut i: usize = 0;
    while i < a.len()
        invariant
            a@.len() == b@.len(),
            i <= a@.len(),
            forall|k: int| 0 <= k < i ==> a@[k] == b@[k],
        decreases a@.len() - i,
    {
        if a[i] != b[i] {
            return false;
        }
        i = i + 1;
    }
    assert(a@ =~= b@);
    true
}

/// Whether two strings hold the same characters.
pub fn str_eq(a: &str, b: &str) -> (r: bool)
    ensures
        r == (a@ == b@),
{
    let va = chars_of(a);
    let vb = chars_of(b);
    seq_eq(va.as_slice(), vb.as_slice())
}

// ---------------------------------------------------------------------------
// Whitespace
// ---------------------------------------------------------------------------

/// Unicode `White_Space`, the property that `char::is_whitespace` tests.
pub open spec fn is_ws(c: char) -> bool {
    ||| ('\u{9}' <= c && c <= '\u{d}')
    ||| c == ' '
    ||| c == '\u{85}'
    ||| c == '\u{a0}'
    ||| c == '\u{1680}'
    ||| ('\u{2000}' <= c && c <= '\u{200a}')
    ||| c == '\u{2028}'
    ||| c == '\u{2029}'
    ||| c == '\u{202f}'
    ||| c == '\u{205f}'
    ||| c == '\u{3000}'
}

/// Whether `c` is Unicode whitespace.
pub fn is_whitespace(c: char) -> (r: bool)
    ensures
        r == is_ws(c),
{
    ('\u{9}' <= c && c <= '\u{d}') || c == ' ' || c == '\u{85}' || c == '\u{a0}' || c
        == '\u{1680}' || ('\u{2000}' <= c && c <= '\u{200a}') || c == '\u{2028}' || c
        == '\u{2029}' || c == '\u{202f}' || c == '\u{205f}' || c == '\u{3000}'
}

/// Number of leading whitespace characters.
pub open spec fn lead_ws(s: Seq<char>) -> nat
    decreases s.len(),
{
    if s.len() > 0 && is_ws(s[0]) {
        1 + lead_ws(s.drop_first())
    } else {
        0
    }
}

/// Number of trailing whitespace characters.
pub open spec fn trail_ws(s: Seq<char>) -> nat
    decreases s.len(),
{
    if s.len() > 0 && is_ws(s.last()) {
        1 + trail_ws(s.drop_last())
    } else {
        0
    }
}

/// `s` without leading whitespace (`str::trim_start`).
pub open spec fn trim_start(s: Seq<char>) -> Seq<char> {
    s.subrange(lead_ws(s) as int, s.len() as int)
}

/// `s` without trailing whitespace (`str::trim_end`).
pub open spec fn trim_end(s: Seq<char>) -> Seq<char> {
    s.subrange(0, s.len() - trail_ws(s))
}

/// `s` without leading and trailing whitespace (`str::trim`).
pub open spec fn trim(s: Seq<char>) -> Seq<char> {
    trim_end(trim_start(s))
}

proof fn lemma_lead_ws_bound(s: Seq<char>)
    ensures
        lead_ws(s) <= s.len(),
        forall|k: int| 0 <= k < lead_ws(s) ==> is_ws(#[trigger] s[k]),
        lead_ws(s) < s.len() ==> !is_ws(s[lead_ws(s) as int]),
    decreases s.len(),
{
    if s.len() > 0 && is_ws(s[0]) {
        lemma_lead_ws_bound(s.drop_first());
        assert forall|k: int| 0 <= k < lead_ws(s) implies is_ws(#[trigger] s[k]) by {
            if k > 0 {
                assert(s[k] == s.drop_first()[k - 1]);
            }
        }
    }
}

proof fn lemma_lead_ws_char(s: Seq<char>, i: int)
    requires
        0 <= i <= s.len(),
        forall|k: int| 0 <= k < i ==> is_ws(#[trigger] s[k]),
        i == s.len() || !is_ws(s[i]),
    ensures
        lead_ws(s) == i,
    decreases s.len(),
{
    if s.len() > 0 && is_ws(s[0]) {
        assert(i > 0);
        assert forall|k: int| 0 <= k < i - 1 implies is_ws(#[trigger] s.drop_first()[k]) by {
            assert(s.drop_first()[k] == s[k + 1]);
        }
        lemma_lead_ws_char(s.drop_first(), i - 1);
    } else if s.len() > 0 {
        assert(i == 0);
    }
}

proof fn lemma_trail_ws_char(s: Seq<char>, j: int)
    requires
        0 <= j <= s.len(),
        forall|k: int| j <= k < s.len() ==> is_ws(#[trigger] s[k]),
        j == 0 || !is_ws(s[j - 1]),
    ensures
        trail_ws(s) == s.len() - j,
    decreases s.len(),
{
    if s.len() > 0 && is_ws(s.last()) {
        assert(j < s.len());
        assert forall|k: int| j <= k < s.drop_last().len() implies is_ws(
            #[trigger] s.drop_last()[k],
        ) by {
            assert(s.drop_last()[k] == s[k]);
        }
        lemma_trail_ws_char(s.drop_last(), j);
    } else if s.len() > 0 {
        assert(j == s.len());
    }
}

/// `s` without leading and trailing whitespace.
pub fn trim_chars(s: &[char]) -> (r: Vec<char>)
    ensures
        r@ == trim(s@),
{
    let n = s.len();
    let mut i: usize = 0;
    while i < n && is_whitespace(s[i])
        invariant
            n == s@.len(),
            i <= n,
            forall|k: int| 0 <= k < i ==> is_ws(#[trigger] s@[k]),
        decreases n - i,
    {
        i = i + 1;
    }
    proof {
        lemma_lead_ws_char(s@, i as int);
    }
    let mut j: usize = n;
    while j > i && is_whitespace(s[j - 1])
        invariant
            n == s@.len(),
            i <= j <= n,
            forall|k: int| j <= k < n ==> is_ws(#[trigger] s@[k]),
        decreases j,
    {
        j = j - 1;
    }
    let ghost t = s@.subrange(i as int, n as int);
    proof {
        assert(t == trim_start(s@));
        assert forall|k: int| j - i <= k < t.len() implies is_ws(#[trigger] t[k]) by {
            assert(t[k] == s@[k + i]);
        }
        if j > i {
            assert(t[j - i - 1] == s@[j - 1]);
        }
        lemma_trail_ws_char(t, j - i);
    }
    let mut r: Vec<char> = Vec::new();
    let mut k: usize = i;
    while k < j
        invariant
            i <= k <= j <= n,
            n == s@.len(),
            r@ == s@.subrange(i as int, k as int),
        decreases j - k,
    {
        r.push(s[k]);
        k = k + 1;
    }
    assert(r@ =~= trim(s@));
    r
}

/// `s` (a string) without leading and trailing whitespace.
pub fn trim_str(s: &str) -> (r: Vec<char>)
    ensures
        r@ == trim(s@),
{
    let v = chars_of(s);
    trim_chars(v.as_slice())
}

// ---------------------------------------------------------------------------
// Prefixes, suffixes, substrings
// ---------------------------------------------------------------------------

/// `p` is a prefix of `s`.
pub open spec fn has_prefix(s: Seq<char>, p: Seq<char>) -> bool {
    p.len() <= s.len() && s.subrange(0, p.len() as int) == p
}

/// `p` is a suffix of `s`.
pub open spec fn has_suffix(s: Seq<char>, p: Seq<char>) -> bool {
    p.len() <= s.len() && s.subrange(s.len() - p.len(), s.len() as int) == p
}

/// `n` occurs in `s` starting at position `i`.
pub open spec fn occurs_at(s: Seq<char>, n: Seq<char>, i: int) -> bool {
    0 <= i && i + n.len() <= s.len() && s.subrange(i, i + n.len()) == n
}

/// `n` occurs somewhere in `s` (`str::contains`).
pub open spec fn has_infix(s: Seq<char>, n: Seq<char>) -> bool {
    exists|i: int| occurs_at(s, n, i)
}

/// Whether `n` occurs in `s` at position `i`.
pub fn matches_at(s: &[char], n: &[char], i: usize) -> (r: bool)
    ensures
        r == occurs_at(s@, n@, i as int),
{
    if i > s.len() || n.len() > s.len() - i {
        return false;
    }
    let mut k: usize = 0;
    while k < n.len()
        invariant
            i + n@.len() <= s.len(),
            k <= n@.len(),
            forall|m: int| 0 <= m < k ==> s@[i + m] == n@[m],
        decreases n@.len() - k,
    {
        if s[i + k] != n[k] {
            assert(s@.subrange(i as int, i + n@.len())[k as int] != n@[k as int]);
            return false;
        }
        k = k + 1;
    }
    assert(s@.subrange(i as int, i + n@.len()) =~= n@);
    true
}

/// Whether `s` starts with `p`.
pub fn starts_with(s: &[char], p: &[char]) -> (r: bool)
    ensures
        r == has_prefix(s@, p@),
{
    matches_at(s, p, 0)
}

/// Whether `s` ends with `p`.
pub fn ends_with(s: &[char], p: &[char]) -> (r: bool)
    ensures
        r == has_suffix(s@, p@),
{
    if p.len() > s.len() {
        return false;
    }
    matches_at(s, p, s.len() - p.len())
}

/// First position at which `n` occurs in `s`, if any (`str::find`).
pub fn find(s: &[char], n: &[char]) -> (r: Option<usize>)
    ensures
        r matches Some(i) ==> occurs_at(s@, n@, i as int) && forall|j: int|
            0 <= j < i ==> !occurs_at(s@, n@, j),
        r is None ==> !has_infix(s@, n@),
{
    if n.len() > s.len() {
        return None;
    }
    if n.len() == 0 {
        assert(s@.subrange(0, 0) =~= n@);
        return Some(0);
    }
    let last = s.len() - n.len();
    let mut i: usize = 0;
    while i <= last
        invariant
            last == s@.len() - n@.len(),
            n@.len() > 0,
            last < s.len(),
            i <= last + 1,
            forall|j: int| 0 <= j < i ==> !occurs_at(s@, n@, j),
        decreases last + 1 - i,
    {
        if matches_at(s, n, i) {
            return Some(i);
        }
        i = i + 1;
    }
    None
}

/// Where `n` first occurs in `s`.
#[verifier::opaque]
pub open spec fn first_index(s: Seq<char>, n: Seq<char>) -> int {
    choose|i: int| occurs_at(s, n, i) && forall|j: int| 0 <= j < i ==> !occurs_at(s, n, j)
}

/// Where `n` first occurs in `s`, if it does.
pub fn find_first(s: &[char], n: &[char]) -> (r: Option<usize>)
    ensures
        match r {
            Some(i) => has_infix(s@, n@) && i == first_index(s@, n@) && occurs_at(s@, n@, i as int),
            None => !has_infix(s@, n@),
        },
{
    match find(s, n) {
        Some(i) => {
            proof {
                reveal(first_index);
                let c = first_index(s@, n@);
                assert(occurs_at(s@, n@, c) && forall|j: int| 0 <= j < c ==> !occurs_at(s@, n@, j));
                assert(c == i as int);
            }
            Some(i)
        },
        None => None,
    }
}

/// Whether `n` occurs in `s`.
pub fn contains(s: &[char], n: &[char]) -> (r: bool)
    ensures
        r == has_infix(s@, n@),
{
    find(s, n).is_some()
}

/// Whether the text `n` occurs in the text `h` (`str::contains`).
pub fn str_contains(h: &str, n: &str) -> (r: bool)
    ensures
        r == has_infix(h@, n@),
{
    let hv = chars_of(h);
    let nv = chars_of(n);
    contains(hv.as_slice(), nv.as_slice())
}

/// Whether the text `h` starts with `p` (`str::starts_with`).
pub fn str_starts_with(h: &str, p: &str) -> (r: bool)
    ensures
        r == has_prefix(h@, p@),
{
    let hv = chars_of(h);
    let pv = chars_of(p);
    starts_with(hv.as_slice(), pv.as_slice())
}

/// Whether the lowercase form of `h` contains `n`.
pub fn lower_contains(h: &str, n: &str) -> (r: bool)
    ensures
        r == has_infix(unicode_lower(h@), n@),
{
    let l = to_lowercase(h);
    str_contains(l.as_str(), n)
}

/// Whether `s` is empty once trimmed (`s.trim().is_empty()`).
pub fn is_blank(s: &str) -> (r: bool)
    ensures
        r == (trim(s@).len() == 0),
{
    let t = trim_str(s);
    t.len() == 0
}

/// `a`, a space, then `b` (`format!("{} {}", a, b)`).
pub fn spaced_text(a: &str, b: &str) -> (r: String)
    ensures
        r@ == a@ + " "@ + b@,
{
    let mut out = String::new();
    push_str(&mut out, a);
    push_str(&mut out, " ");
    push_str(&mut out, b);
    out
}

/// `s`, or `fallback` where `s` is empty.
pub open spec fn or_text(s: Seq<char>, fallback: Seq<char>) -> Seq<char> {
    if s.len() == 0 {
        fallback
    } else {
        s
    }
}

/// Appends `s` to `out`, or `fallback` where `s` is empty.
pub fn push_or(out: &mut String, s: &str, fallback: &str)
    ensures
        final(out)@ == old(out)@ + or_text(s@, fallback@),
{
    if s.is_empty() {
        push_str(out, fallback);
    } else {
        push_str(out, s);
    }
}

/// Views of a list of static texts.
pub open spec fn static_views(v: Seq<&'static str>) -> Seq<Seq<char>> {
    v.map_values(|s: &'static str| s@)
}

/// Some text of `needles` occurs in `h`.
pub open spec fn contains_any(h: Seq<char>, needles: Seq<Seq<char>>) -> bool {
    exists|j: int| 0 <= j < needles.len() && has_infix(h, #[trigger] needles[j])
}

/// Whether some text of `needles` occurs in `h`.
pub fn str_contains_any(h: &str, needles: &[&'static str]) -> (r: bool)
    ensures
        r == contains_any(h@, static_views(needles@)),
{
    let mut j: usize = 0;
    while j < needles.len()
        invariant
            j <= needles@.len(),
            forall|k: int| 0 <= k < j ==> !has_infix(h@, #[trigger] static_views(needles@)[k]),
        decreases needles@.len() - j,
    {
        if str_contains(h, needles[j]) {
            assert(has_infix(h@, static_views(needles@)[j as int]));
            return true;
        }
        j = j + 1;
    }
    false
}

/// The lowercase form of some text of `list` contains some text of
/// `needles`.
pub open spec fn some_lower_contains_any(list: Seq<Seq<char>>, needles: Seq<Seq<char>>) -> bool {
    exists|i: int| 0 <= i < list.len() && contains_any(unicode_lower(#[trigger] list[i]), needles)
}

/// Whether the lowercase form of some string of `list` contains some text
/// of `needles`.
pub fn list_lower_contains_any(list: &[String], needles: &[&'static str]) -> (r: bool)
    ensures
        r == some_lower_contains_any(views(list@), static_views(needles@)),
{
    let mut i: usize = 0;
    while i < list.len()
        invariant
            i <= list@.len(),
            forall|k: int|
                0 <= k < i ==> !contains_any(
                    unicode_lower(#[trigger] views(list@)[k]),
                    static_views(needles@),
                ),
        decreases list@.len() - i,
    {
        let l = to_lowercase(list[i].as_str());
        assert(views(list@)[i as int] == list@[i as int]@);
        if str_contains_any(l.as_str(), needles) {
            return true;
        }
        i = i + 1;
    }
    false
}

/// Whether `c` occurs in `s`.
pub fn contains_char(s: &[char], c: char) -> (r: bool)
    ensures
        r == s@.contains(c),
{
    let mut i: usize = 0;
    while i < s.len()
        invariant
            i <= s@.len(),
            forall|k: int| 0 <= k < i ==> s@[k] != c,
        decreases s@.len() - i,
    {
        if s[i] == c {
            return true;
        }
        i = i + 1;
    }
    false
}

/// The characters of `s` from `a` up to (not including) `b`.
pub fn slice_chars(s: &[char], a: usize, b: usize) -> (r: Vec<char>)
    requires
        a <= b <= s@.len(),
    ensures
        r@ == s@.subrange(a as int, b as int),
{
    let mut r: Vec<char> = Vec::new();
    let mut k: usize = a;
    while k < b
        invariant
            a <= k <= b <= s@.len(),
            r@ == s@.subrange(a as int, k as int),
        decreases b - k,
    {
        r.push(s[k]);
        k = k + 1;
    }
    r
}

// ---------------------------------------------------------------------------
// ASCII case
// ---------------------------------------------------------------------------

/// ASCII lowercase of one character (`char::to_ascii_lowercase`).
pub open spec fn ascii_lower(c: char) -> char {
    if 'A' <= c && c <= 'Z' {
        ((c as u32) + 32) as char
    } else {
        c
    }
}

/// ASCII uppercase of one character (`char::to_ascii_uppercase`).
pub open spec fn ascii_upper(c: char) -> char {
    if 'a' <= c && c <= 'z' {
        ((c as u32) - 32) as char
    } else {
        c
    }
}

/// ASCII lowercase of a sequence (`str::to_ascii_lowercase`).
pub open spec fn ascii_lower_seq(s: Seq<char>) -> Seq<char> {
    s.map_values(|c: char| ascii_lower(c))
}

/// ASCII uppercase of a sequence (`str::to_ascii_uppercase`).
pub open spec fn ascii_upper_seq(s: Seq<char>) -> Seq<char> {
    s.map_values(|c: char| ascii_upper(c))
}

/// Whether every character of `s` is ASCII.
pub open spec fn is_ascii_text(s: Seq<char>) -> bool {
    forall|i: int| 0 <= i < s.len() ==> (#[trigger] s[i] as u32) < 128
}

/// Lowercases one ASCII letter, leaves every other character alone.
pub fn to_ascii_lower(c: char) -> (r: char)
    ensures
        r == ascii_lower(c),
{
    if 'A' <= c && c <= 'Z' {
        let n: u32 = c as u32 + 32;
        assert(0x61 <= n <= 0x7a);
        char_from_ascii(n)
    } else {
        c
    }
}

/// Uppercases one ASCII letter, leaves every other character alone.
pub fn to_ascii_upper(c: char) -> (r: char)
    ensures
        r == ascii_upper(c),
{
    if 'a' <= c && c <= 'z' {
        let n: u32 = c as u32 - 32;
        assert(0x41 <= n <= 0x5a);
        char_from_ascii(n)
    } else {
        c
    }
}

/// The character with ASCII code `n`.
fn char_from_ascii(n: u32) -> (c: char)
    requires
        n < 128,
    ensures
        c == n as char,
        c as u32 == n,
{
    let b: u8 = n as u8;
    b as char
}

/// ASCII lowercase of a sequence.
pub fn ascii_lowercase(s: &[char]) -> (r: Vec<char>)
    ensures
        r@ == ascii_lower_seq(s@),
{
    let mut r: Vec<char> = Vec::new();
    let mut k: usize = 0;
    while k < s.len()
        invariant
            k <= s@.len(),
            r@ == ascii_lower_seq(s@.subrange(0, k as int)),
        decreases s@.len() - k,
    {
        r.push(to_ascii_lower(s[k]));
        assert(ascii_lower_seq(s@.subrange(0, k + 1)) =~= ascii_lower_seq(
            s@.subrange(0, k as int),
        ).push(ascii_lower(s@[k as int])));
        k = k + 1;
    }
    assert(s@.subrange(0, s@.len() as int) =~= s@);
    r
}

/// Whether `a` and `b` are equal ignoring ASCII case (`str::eq_ignore_ascii_case`).
pub fn eq_ignore_ascii_case(a: &[char], b: &[char]) -> (r: bool)
    ensures
        r == (ascii_lower_seq(a@) == ascii_lower_seq(b@)),
{
    let la = ascii_lowercase(a);
    let lb = ascii_lowercase(b);
    seq_eq(la.as_slice(), lb.as_slice())
}

// ---------------------------------------------------------------------------
// Whitespace collapsing (`split_whitespace().join(" ")`)
// ---------------------------------------------------------------------------

/// Scans `s` left to right after `out` was already emitted: every maximal run
/// of non-whitespace characters is emitted, runs separated by one space.
/// `gap` records that whitespace followed the last emitted character.
pub open spec fn collapse_ws(s: Seq<char>, out: Seq<char>, gap: bool) -> Seq<char>
    decreases s.len(),
{
    if s.len() == 0 {
        out
    } else if is_ws(s[0]) {
        collapse_ws(s.drop_first(), out, out.len() > 0)
    } else {
        collapse_ws(s.drop_first(), (if gap { out.push(' ') } else { out }).push(s[0]), false)
    }
}

/// The words of `s` joined by single spaces.
pub open spec fn normalize_ws(s: Seq<char>) -> Seq<char> {
    collapse_ws(s, Seq::empty(), false)
}

/// The words of `s` (split at Unicode whitespace) joined by single spaces.
pub fn normalize_whitespace_chars(s: &[char]) -> (r: Vec<char>)
    ensures
        r@ == normalize_ws(s@),
{
    let n = s.len();
    let mut out: Vec<char> = Vec::new();
    let mut gap = false;
    let mut i: usize = 0;
    assert(s@.subrange(0, n as int) =~= s@);
    while i < n
        invariant
            n == s@.len(),
            i <= n,
            gap ==> out@.len() > 0,
            normalize_ws(s@) == collapse_ws(s@.subrange(i as int, n as int), out@, gap),
        decreases n - i,
    {
        let ghost rest = s@.subrange(i as int, n as int);
        assert(rest[0] == s@[i as int]);
        assert(rest.drop_first() =~= s@.subrange(i + 1, n as int));
        let c = s[i];
        if is_whitespace(c) {
            gap = out.len() > 0;
        } else {
            if gap {
                out.push(' ');
            }
            out.push(c);
            gap = false;
        }
        i = i + 1;
    }
    assert(s@.subrange(n as int, n as int) =~= Seq::<char>::empty());
    out
}

/// The words of `s` joined by single spaces.
pub fn normalize_whitespace(s: &str) -> (r: String)
    ensures
        r@ == normalize_ws(s@),
{
    let v = chars_of(s);
    let w = normalize_whitespace_chars(v.as_slice());
    string_of(w.as_slice())
}

// ---------------------------------------------------------------------------
// Decimal numbers
// ---------------------------------------------------------------------------

/// The ASCII digit for `d < 10`.
pub open spec fn digit_char(d: nat) -> char {
    (48 + d) as char
}

/// Decimal representation of `n`, as `to_string` prints an unsigned integer.
pub open spec fn dec(n: nat) -> Seq<char>
    decreases n,
{
    if n < 10 {
        seq![digit_char(n)]
    } else {
        dec(n / 10).push(digit_char(n % 10))
    }
}

/// Appends the decimal representation of `n` to `s`.
pub fn push_decimal(s: &mut String, n: u64)
    ensures
        final(s)@ == old(s)@ + dec(n as nat),
    decreases n,
{
    if n >= 10 {
        push_decimal(s, n / 10);
    }
    let d: u32 = (n % 10) as u32;
    let c = char_from_ascii(48 + d);
    push_char(s, c);
    proof {
        if n < 10 {
            assert(dec(n as nat) == seq![digit_char(n as nat)]);
        } else {
            assert(dec(n as nat) == dec((n / 10) as nat).push(digit_char((n % 10) as nat)));
        }
    }
}

/// The decimal text of an `i64`.
pub open spec fn signed_dec(k: i64) -> Seq<char> {
    if k < 0 {
        "-"@ + dec((0 - k) as nat)
    } else {
        dec(k as nat)
    }
}

/// The decimal text of `k`, appended to `out`.
pub fn push_signed_decimal(out: &mut String, k: i64)
    ensures
        final(out)@ == old(out)@ + signed_dec(k),
{
    if k < 0 {
        push_str(out, "-");
        let m: i128 = 0 - (k as i128);
        push_decimal(out, m as u64);
        proof {
            reveal_strlit("-");
        }
    } else {
        push_decimal(out, k as u64);
    }
}

/// Appends `true` or `false` as `to_string` prints a `bool`.
pub fn push_bool(s: &mut String, b: bool)
    ensures
        final(s)@ == old(s)@ + bool_text(b),
{
    if b {
        push_str(s, "true");
        proof {
            reveal_strlit("true");
        }
    } else {
        push_str(s, "false");
        proof {
            reveal_strlit("false");
        }
    }
}

/// `true` or `false` as text.
pub open spec fn bool_text(b: bool) -> Seq<char> {
    if b {
        seq!['t', 'r', 'u', 'e']
    } else {
        seq!['f', 'a', 'l', 's', 'e']
    }
}

/// Whether `c` is an ASCII digit.
pub open spec fn is_digit(c: char) -> bool {
    '0' <= c && c <= '9'
}

/// Value of a sequence of ASCII digits read in base ten.
pub open spec fn dec_value(s: Seq<char>) -> nat
    decreases s.len(),
{
    if s.len() == 0 {
        0
    } else {
        dec_value(s.drop_last()) * 10 + ((s.last() as nat) - 48) as nat
    }
}

proof fn lemma_dec_value_step(s: Seq<char>, k: int)
    requires
        0 <= k < s.len(),
        is_digit(s[k]),
    ensures
        dec_value(s.subrange(0, k + 1)) == dec_value(s.subrange(0, k)) * 10 + ((s[k] as nat)
            - 48) as nat,
        dec_value(s.subrange(0, k + 1)) >= dec_value(s.subrange(0, k)),
{
    assert(s.subrange(0, k + 1).drop_last() =~= s.subrange(0, k));
}

/// Parses a non-empty all-digit sequence as a `u16` (`str::parse::<u16>` on
/// such input): `None` when the value does not fit.
pub fn parse_u16_digits(s: &[char]) -> (r: Option<u16>)
    requires
        s@.len() > 0,
        forall|k: int| 0 <= k < s@.len() ==> is_digit(#[trigger] s@[k]),
    ensures
        r matches Some(v) ==> v as nat == dec_value(s@),
        r is None ==> dec_value(s@) > 65535,
{
    let mut acc: u32 = 0;
    let mut i: usize = 0;
    while i < s.len()
        invariant
            i <= s@.len(),
            forall|k: int| 0 <= k < s@.len() ==> is_digit(#[trigger] s@[k]),
            acc as nat == dec_value(s@.subrange(0, i as int)),
            acc <= 65535,
        decreases s@.len() - i,
    {
        proof {
            lemma_dec_value_step(s@, i as int);
        }
        let d: u32 = s[i] as u32 - 48;
        let next: u32 = acc * 10 + d;
        if next > 65535 {
            proof {
                lemma_dec_value_grows(s@, i + 1);
            }
            return None;
        }
        acc = next;
        i = i + 1;
    }
    assert(s@.subrange(0, s@.len() as int) =~= s@);
    Some(acc as u16)
}

/// Parses a non-empty all-digit sequence whose value is at most `cap`:
/// `None` when the value is above `cap`.
pub fn parse_digits_up_to(s: &[char], cap: u64) -> (r: Option<u64>)
    requires
        s@.len() > 0,
        forall|k: int| 0 <= k < s@.len() ==> is_digit(#[trigger] s@[k]),
    ensures
        r matches Some(v) ==> v as nat == dec_value(s@) && v <= cap,
        r is None ==> dec_value(s@) > cap,
{
    let mut acc: u64 = 0;
    let mut i: usize = 0;
    while i < s.len()
        invariant
            i <= s@.len(),
            forall|k: int| 0 <= k < s@.len() ==> is_digit(#[trigger] s@[k]),
            acc as nat == dec_value(s@.subrange(0, i as int)),
            acc <= cap,
        decreases s@.len() - i,
    {
        proof {
            lemma_dec_value_step(s@, i as int);
        }
        let d: u64 = s[i] as u64 - 48;
        let too_big = if d > cap {
            true
        } else {
            acc > (cap - d) / 10
        };
        if too_big {
            assert(acc * 10 + d > cap) by (nonlinear_arith)
                requires
                    d > cap || acc > (cap - d) / 10,
                    acc >= 0,
                    d <= 9,
            ;
            proof {
                lemma_dec_value_grows(s@, i + 1);
            }
            return None;
        }
        assert(acc * 10 + d <= cap) by (nonlinear_arith)
            requires
                d <= cap,
                acc <= (cap - d) / 10,
                d <= 9,
        ;
        acc = acc * 10 + d;
        i = i + 1;
    }
    assert(s@.subrange(0, s@.len() as int) =~= s@);
    Some(acc)
}

proof fn lemma_dec_value_grows(s: Seq<char>, k: int)
    requires
        0 <= k <= s.len(),
        forall|m: int| 0 <= m < s.len() ==> is_digit(#[trigger] s[m]),
    ensures
        dec_value(s) >= dec_value(s.subrange(0, k)),
    decreases s.len() - k,
{
    if k < s.len() {
        lemma_dec_value_step(s, k);
        lemma_dec_value_grows(s, k + 1);
    } else {
        assert(s.subrange(0, k) =~= s);
    }
}

// ---------------------------------------------------------------------------
// Joining
// ---------------------------------------------------------------------------

/// The parts joined by `sep` (`[..].join(sep)`).
pub open spec fn join(parts: Seq<Seq<char>>, sep: Seq<char>) -> Seq<char>
    decreases parts.len(),
{
    if parts.len() == 0 {
        Seq::empty()
    } else if parts.len() == 1 {
        parts[0]
    } else {
        join(parts.drop_last(), sep) + sep + parts.last()
    }
}

/// Views of a list of strings.
pub open spec fn views(v: Seq<String>) -> Seq<Seq<char>> {
    v.map_values(|s: String| s@)
}

/// Whether `list` holds the text `t`.
pub fn strings_contain(list: &Vec<String>, t: &str) -> (r: bool)
    ensures
        r == views(list@).contains(t@),
{
    let mut i: usize = 0;
    while i < list.len()
        invariant
            i <= list@.len(),
            forall|k: int| 0 <= k < i ==> list@[k]@ != t@,
        decreases list@.len() - i,
    {
        if str_eq(list[i].as_str(), t) {
            assert(views(list@)[i as int] == t@);
            return true;
        }
        i = i + 1;
    }
    assert forall|k: int| 0 <= k < views(list@).len() implies views(list@)[k] != t@ by {
        assert(views(list@)[k] == list@[k]@);
    }
    false
}

/// Appends the strings of `parts` joined by `sep` to `out`.
pub fn push_joined(out: &mut String, parts: &[String], sep: &str)
    ensures
        final(out)@ == old(out)@ + join(views(parts@), sep@),
{
    let ghost start = out@;
    let mut i: usize = 0;
    while i < parts.len()
        invariant
            i <= parts@.len(),
            out@ == start + join(views(parts@.subrange(0, i as int)), sep@),
        decreases parts@.len() - i,
    {
        let ghost before = views(parts@.subrange(0, i as int));
        let ghost after = views(parts@.subrange(0, i + 1));
        assert(after.drop_last() =~= before);
        assert(after.last() == parts@[i as int]@);
        if i > 0 {
            push_str(out, sep);
        }
        push_str(out, parts[i].as_str());
        proof {
            if i == 0 {
                assert(after.len() == 1);
                assert(join(after, sep@) == after[0]);
                assert(join(before, sep@) =~= Seq::<char>::empty());
            }
        }
        i = i + 1;
        assert(out@ =~= start + join(views(parts@.subrange(0, i as int)), sep@));
    }
    assert(parts@.subrange(0, parts@.len() as int) =~= parts@);
}

/// The parts joined by `|`, or `none` where there are none.
pub open spec fn joined_or_none(parts: Seq<Seq<char>>) -> Seq<char> {
    if parts.len() == 0 {
        seq!['n', 'o', 'n', 'e']
    } else {
        join(parts, seq!['|'])
    }
}

/// Appends the strings of `parts` joined by `|` to `out`, or `none` where
/// there are none.
pub fn push_joined_or_none(out: &mut String, parts: &[String])
    ensures
        final(out)@ == old(out)@ + joined_or_none(views(parts@)),
{
    if parts.len() == 0 {
        push_str(out, "none");
        proof {
            reveal_strlit("none");
            assert("none"@ =~= seq!['n', 'o', 'n', 'e']);
        }
    } else {
        push_joined(out, parts, "|");
        proof {
            reveal_strlit("|");
            assert("|"@ =~= seq!['|']);
        }
    }
}

/// A copy of `v`, string by string.
pub fn clone_strings(v: &Vec<String>) -> (r: Vec<String>)
    ensures
        views(r@) == views(v@),
{
    let mut r: Vec<String> = Vec::new();
    let mut i: usize = 0;
    while i < v.len()
        invariant
            i <= v@.len(),
            views(r@) == views(v@.take(i as int)),
        decreases v@.len() - i,
    {
        let ghost prev = r@;
        r.push(v[i].clone());
        assert(v@.take(i + 1) =~= v@.take(i as int).push(v@[i as int]));
        assert(views(r@) =~= views(prev).push(v@[i as int]@));
        i = i + 1;
        assert(views(r@) =~= views(v@.take(i as int)));
    }
    assert(v@.take(v@.len() as int) =~= v@);
    r
}

/// The strings of `parts` joined by `sep`.
pub fn join_strings(parts: &[String], sep: &str) -> (r: String)
    ensures
        r@ == join(views(parts@), sep@),
{
    let mut out = String::new();
    push_joined(&mut out, parts, sep);
    out
}


// ---------------------------------------------------------------------------
// Lexicographic order and sorting (`String`'s `Ord`)
// ---------------------------------------------------------------------------

/// `a` sorts strictly before `b`, character by character; a proper prefix
/// sorts first. (`String`'s order compares UTF-8 bytes, which orders
/// characters by code point, as this does.)
pub open spec fn lex_lt(a: Seq<char>, b: Seq<char>) -> bool
    decreases a.len(),
{
    if a.len() == 0 {
        b.len() > 0
    } else if b.len() == 0 {
        false
    } else if a[0] < b[0] {
        true
    } else if a[0] == b[0] {
        lex_lt(a.drop_first(), b.drop_first())
    } else {
        false
    }
}

/// `a` sorts before `b` or equals it.
pub open spec fn lex_le(a: Seq<char>, b: Seq<char>) -> bool {
    !lex_lt(b, a)
}

/// Strict order is irreflexive.
pub proof fn lemma_lex_irreflexive(a: Seq<char>)
    ensures
        !lex_lt(a, a),
    decreases a.len(),
{
    if a.len() > 0 {
        lemma_lex_irreflexive(a.drop_first());
    }
}

/// Strict order is transitive.
pub proof fn lemma_lex_transitive(a: Seq<char>, b: Seq<char>, c: Seq<char>)
    requires
        lex_lt(a, b),
        lex_lt(b, c),
    ensures
        lex_lt(a, c),
    decreases a.len(),
{
    if a.len() > 0 && b.len() > 0 && c.len() > 0 && a[0] == b[0] && b[0] == c[0] {
        lemma_lex_transitive(a.drop_first(), b.drop_first(), c.drop_first());
    }
}

/// Strict order is total on distinct sequences.
pub proof fn lemma_lex_total(a: Seq<char>, b: Seq<char>)
    requires
        a != b,
    ensures
        lex_lt(a, b) || lex_lt(b, a),
    decreases a.len(),
{
    if a.len() > 0 && b.len() > 0 && a[0] == b[0] {
        if a.drop_first() == b.drop_first() {
            assert(a =~= seq![a[0]] + a.drop_first());
            assert(b =~= seq![b[0]] + b.drop_first());
        }
        lemma_lex_total(a.drop_first(), b.drop_first());
    } else if a.len() == 0 && b.len() == 0 {
        assert(a =~= b);
    }
}

/// Whether `a` sorts strictly before `b`.
pub fn lex_less(a: &str, b: &str) -> (r: bool)
    ensures
        r == lex_lt(a@, b@),
{
    let av = chars_of(a);
    let bv = chars_of(b);
    let mut i: usize = 0;
    assert(a@.skip(0) =~= a@);
    assert(b@.skip(0) =~= b@);
    while i < av.len() && i < bv.len() && av[i] == bv[i]
        invariant
            av@ == a@,
            bv@ == b@,
            i <= a@.len(),
            i <= b@.len(),
            lex_lt(a@, b@) == lex_lt(a@.skip(i as int), b@.skip(i as int)),
        decreases a@.len() - i,
    {
        let ghost sa = a@.skip(i as int);
        let ghost sb = b@.skip(i as int);
        assert(sa.drop_first() =~= a@.skip(i + 1));
        assert(sb.drop_first() =~= b@.skip(i + 1));
        i = i + 1;
    }
    let ghost sa = a@.skip(i as int);
    let ghost sb = b@.skip(i as int);
    if i == av.len() {
        assert(sa.len() == 0);
        i < bv.len()
    } else if i == bv.len() {
        false
    } else {
        assert(sa[0] == av@[i as int] && sb[0] == bv@[i as int]);
        av[i] < bv[i]
    }
}

/// The texts are in non-decreasing order.
pub open spec fn is_sorted_texts(s: Seq<Seq<char>>) -> bool {
    forall|i: int, j: int| 0 <= i < j < s.len() ==> lex_le(#[trigger] s[i], #[trigger] s[j])
}

/// `v` sorted (`slice::sort` on strings): the same texts, in non-decreasing
/// order.
pub fn sort_strings(v: Vec<String>) -> (r: Vec<String>)
    ensures
        views(r@).to_multiset() == views(v@).to_multiset(),
        r@.len() == v@.len(),
        is_sorted_texts(views(r@)),
{
    let mut out: Vec<String> = Vec::new();
    let mut i: usize = 0;
    assert(views(out@) =~= views(v@.take(0)));
    while i < v.len()
        invariant
            i <= v@.len(),
            views(out@).to_multiset() == views(v@.take(i as int)).to_multiset(),
            out@.len() == i,
            is_sorted_texts(views(out@)),
        decreases v@.len() - i,
    {
        let x = v[i].clone();
        let mut k: usize = 0;
        while k < out.len() && !lex_less(x.as_str(), out[k].as_str())
            invariant
                k <= out@.len(),
                forall|m: int| 0 <= m < k ==> !lex_lt(x@, #[trigger] out@[m]@),
            decreases out@.len() - k,
        {
            k = k + 1;
        }
        let ghost before = out@;
        proof {
            assert forall|m: int| k <= m < before.len() implies lex_le(x@, #[trigger] before[m]@) by {
                if lex_lt(before[m]@, x@) {
                    assert(lex_lt(x@, before[k as int]@));
                    assert(lex_le(before[k as int]@, before[m]@)) by {
                        if k < m {
                            assert(views(before)[k as int] == before[k as int]@);
                            assert(views(before)[m] == before[m]@);
                        } else {
                            lemma_lex_irreflexive(before[m]@);
                        }
                    }
                    lemma_lex_transitive(before[m]@, x@, before[k as int]@);
                }
            }
        }
        out.insert(k, x);
        proof {
            assert(views(out@) =~= views(before).insert(k as int, x@));
            vstd::seq_lib::to_multiset_insert(views(before), k as int, x@);
            assert(views(v@.take(i + 1)) =~= views(v@.take(i as int)).push(v@[i as int]@));
            vstd::seq_lib::to_multiset_build(views(v@.take(i as int)), v@[i as int]@);
            assert forall|a: int, b: int| 0 <= a < b < views(out@).len() implies lex_le(
                #[trigger] views(out@)[a],
                #[trigger] views(out@)[b],
            ) by {
                let w = views(before);
                if b < k {
                    assert(views(out@)[a] == w[a] && views(out@)[b] == w[b]);
                } else if a > k {
                    assert(views(out@)[a] == w[a - 1] && views(out@)[b] == w[b - 1]);
                } else if a == k {
                    assert(views(out@)[b] == w[b - 1]);
                    assert(w[b - 1] == before[b - 1]@);
                } else if b == k {
                    assert(views(out@)[a] == w[a]);
                    assert(w[a] == before[a]@);
                } else {
                    assert(views(out@)[a] == w[a] && views(out@)[b] == w[b - 1]);
                }
            }
        }
        i = i + 1;
    }
    assert(v@.take(v@.len() as int) =~= v@);
    out
}

/// The texts are in strictly increasing order.
pub open spec fn is_strictly_sorted(s: Seq<Seq<char>>) -> bool {
    forall|i: int, j: int| 0 <= i < j < s.len() ==> lex_lt(#[trigger] s[i], #[trigger] s[j])
}

/// Adds `x` to the strictly sorted list `out`, unless it is already there.
pub fn insert_sorted_unique(out: &mut Vec<String>, x: String)
    requires
        is_strictly_sorted(views(old(out)@)),
    ensures
        is_strictly_sorted(views(final(out)@)),
        forall|t: Seq<char>|
            views(final(out)@).contains(t) <==> (views(old(out)@).contains(t) || t == x@),
{
    let ghost before = views(out@);
    let mut k: usize = 0;
    while k < out.len() && lex_less(out[k].as_str(), x.as_str())
        invariant
            k <= out@.len(),
            before == views(out@),
            forall|m: int| 0 <= m < k ==> lex_lt(#[trigger] before[m], x@),
        decreases out@.len() - k,
    {
        assert(before[k as int] == out@[k as int]@);
        k = k + 1;
    }
    if k < out.len() && str_eq(out[k].as_str(), x.as_str()) {
        assert(before[k as int] == x@);
        return;
    }
    proof {
        if k < before.len() {
            assert(before[k as int] == out@[k as int]@);
            assert(!lex_lt(before[k as int], x@));
            assert(before[k as int] != x@);
            lemma_lex_total(before[k as int], x@);
            assert forall|m: int| k <= m < before.len() implies lex_lt(x@, #[trigger] before[m]) by {
                if m > k {
                    lemma_lex_transitive(x@, before[k as int], before[m]);
                }
            }
        }
    }
    let ghost xv = x@;
    out.insert(k, x);
    proof {
        let after = views(out@);
        assert(after =~= before.insert(k as int, xv));
        assert forall|a: int, b: int| 0 <= a < b < after.len() implies lex_lt(
            #[trigger] after[a],
            #[trigger] after[b],
        ) by {
            if b < k {
                assert(after[a] == before[a] && after[b] == before[b]);
            } else if a > k {
                assert(after[a] == before[a - 1] && after[b] == before[b - 1]);
            } else if a == k {
                assert(after[b] == before[b - 1]);
            } else if b == k {
                assert(after[a] == before[a]);
            } else {
                assert(after[a] == before[a] && after[b] == before[b - 1]);
                assert(lex_lt(before[a], xv));
                assert(lex_lt(xv, before[b - 1]));
                lemma_lex_transitive(before[a], xv, before[b - 1]);
            }
        }
        assert forall|t: Seq<char>| after.contains(t) <==> (before.contains(t) || t == xv) by {
            if after.contains(t) {
                let i = choose|i: int| 0 <= i < after.len() && after[i] == t;
                if i < k {
                    assert(before[i] == t);
                } else if i > k {
                    assert(before[i - 1] == t);
                }
            }
            if before.contains(t) {
                let i = choose|i: int| 0 <= i < before.len() && before[i] == t;
                if i < k {
                    assert(after[i] == t);
                } else {
                    assert(after[i + 1] == t);
                }
            }
            if t == xv {
                assert(after[k as int] == t);
            }
        }
    }
}

/// `s` without the trailing run of `c` (`str::trim_end_matches(c)`).
pub open spec fn strip_trailing(s: Seq<char>, c: char) -> Seq<char>
    decreases s.len(),
{
    if s.len() > 0 && s.last() == c {
        strip_trailing(s.drop_last(), c)
    } else {
        s
    }
}

/// `s` without the trailing run of `c`.
pub fn strip_trailing_char(s: &str, c: char) -> (r: String)
    ensures
        r@ == strip_trailing(s@, c),
{
    let v = chars_of(s);
    let mut n: usize = v.len();
    assert(v@.take(n as int) =~= v@);
    while n > 0 && v[n - 1] == c
        invariant
            n <= v@.len(),
            v@ == s@,
            strip_trailing(s@, c) == strip_trailing(v@.take(n as int), c),
        decreases n,
    {
        assert(v@.take(n as int).drop_last() =~= v@.take(n - 1));
        n = n - 1;
    }
    let w = slice_chars(v.as_slice(), 0, n);
    assert(w@ =~= v@.take(n as int));
    string_of(w.as_slice())
}

/// The part of `s` before the first `c` (all of `s` where there is none).
pub open spec fn before_char(s: Seq<char>, c: char) -> Seq<char>
    decreases s.len(),
{
    if s.len() == 0 {
        s
    } else if s[0] == c {
        Seq::empty()
    } else {
        seq![s[0]] + before_char(s.drop_first(), c)
    }
}

/// The part of `s` before the first `c`.
pub fn text_before_char(s: &str, c: char) -> (r: String)
    ensures
        r@ == before_char(s@, c),
{
    let v = chars_of(s);
    let mut out = String::new();
    let mut i: usize = 0;
    assert(v@.skip(0) =~= v@);
    while i < v.len() && v[i] != c
        invariant
            i <= v@.len(),
            v@ == s@,
            out@ == v@.take(i as int),
            before_char(s@, c) == out@ + before_char(v@.skip(i as int), c),
        decreases v@.len() - i,
    {
        let ghost rest = v@.skip(i as int);
        assert(rest[0] == v@[i as int]);
        assert(rest.drop_first() =~= v@.skip(i + 1));
        push_char(&mut out, v[i]);
        assert(v@.take(i + 1) =~= v@.take(i as int).push(v@[i as int]));
        i = i + 1;
    }
    assert(before_char(v@.skip(i as int), c) =~= Seq::<char>::empty()) by {
        if i < v@.len() {
            assert(v@.skip(i as int)[0] == v@[i as int]);
        }
    }
    out
}

/// Number of bytes `c` takes in UTF-8.
pub open spec fn char_width(c: char) -> nat {
    let v = c as u32;
    if v <= 0x7F {
        1
    } else if v <= 0x7FF {
        2
    } else if v <= 0xFFFF {
        3
    } else {
        4
    }
}

/// Number of bytes `s` takes in UTF-8 (`str::len`).
pub open spec fn utf8_len(s: Seq<char>) -> nat
    decreases s.len(),
{
    if s.len() == 0 {
        0
    } else {
        char_width(s[0]) + utf8_len(s.drop_first())
    }
}

/// The UTF-8 encoding of `s` is `utf8_len(s)` bytes long.
pub proof fn lemma_utf8_len(s: Seq<char>)
    ensures
        vstd::utf8::encode_utf8(s).len() == utf8_len(s),
    decreases s.len(),
{
    if s.len() > 0 {
        lemma_utf8_len(s.drop_first());
        vstd::utf8::char_is_scalar(s[0]);
    }
}

/// The UTF-8 length of `s`, exactly where it is at most `cap`; some value
/// above `cap` otherwise.
pub fn utf8_len_upto(s: &[char], cap: usize) -> (r: usize)
    requires
        cap <= usize::MAX - 4,
    ensures
        r <= cap ==> r == utf8_len(s@),
        r > cap ==> utf8_len(s@) > cap,
{
    let mut acc: usize = 0;
    let mut i: usize = 0;
    assert(s@.skip(0) =~= s@);
    while i < s.len()
        invariant
            i <= s@.len(),
            acc <= cap,
            cap <= usize::MAX - 4,
            utf8_len(s@) == acc + utf8_len(s@.skip(i as int)),
        decreases s@.len() - i,
    {
        let ghost rest = s@.skip(i as int);
        assert(rest.drop_first() =~= s@.skip(i + 1));
        assert(rest[0] == s@[i as int]);
        let v = s[i] as u32;
        let w: usize = if v <= 0x7F {
            1
        } else if v <= 0x7FF {
            2
        } else if v <= 0xFFFF {
            3
        } else {
            4
        };
        acc = acc + w;
        i = i + 1;
        if acc > cap {
            return acc;
        }
    }
    acc
}

// ---------------------------------------------------------------------------
// Unicode case mapping (std)
// ---------------------------------------------------------------------------

/// What `str::to_lowercase` returns for the text `s`.
pub uninterp spec fn unicode_lower(s: Seq<char>) -> Seq<char>;

/// What `str::to_uppercase` returns for the text `s`.
pub uninterp spec fn unicode_upper(s: Seq<char>) -> Seq<char>;

/// `str::to_lowercase`: the Unicode lowercase mapping of `s`; the mapping is
/// a function of the text alone, named `unicode_lower`.
#[verifier::external_body]
pub fn to_lowercase(s: &str) -> (r: String)
    ensures
        r@ == unicode_lower(s@),
{
    s.to_lowercase()
}

/// `str::to_uppercase`: the Unicode uppercase mapping of `s`; the mapping is
/// a function of the text alone, named `unicode_upper`. On ASCII text it is
/// the ASCII uppercase (letters `a`..`z` to `A`..`Z`, all else kept).
#[verifier::external_body]
pub fn to_uppercase(s: &str) -> (r: String)
    ensures
        r@ == unicode_upper(s@),
        is_ascii_text(s@) ==> r@ == ascii_upper_seq(s@),
{
    s.to_uppercase()
}

} // verus!
