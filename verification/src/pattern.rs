//! Regular expressions, run by the `regex` crate.

use vstd::prelude::*;

verus! {

/// Whether the `regex` crate compiles `pattern` and then finds a match of
/// it in `text` (`None` where the pattern does not compile).
pub uninterp spec fn regex_matches(pattern: Seq<char>, text: Seq<char>) -> Option<bool>;

/// `Regex::new(pattern)` and then `is_match(text)`; `None` where the pattern
/// does not compile. Which texts match is named here without being stated.
#[verifier::external_body]
pub fn regex_is_match(pattern: &str, text: &str) -> (r: Option<bool>)
    ensures
        r == regex_matches(pattern@, text@),
{
    match regex::Regex::new(pattern) {
        Ok(re) => Some(re.is_match(text)),
        Err(_) => None,
    }
}

/// The first three groups of each successive match of `pattern` in `text`,
/// as the `regex` crate finds them, where it compiles the pattern (a group
/// that took no part in a match is `None`).
pub uninterp spec fn regex_group_triples(pattern: Seq<char>, text: Seq<char>) -> Option<
    Seq<(Option<Seq<char>>, Option<Seq<char>>, Option<Seq<char>>)>,
>;

/// A captured group as plain text.
pub open spec fn group_view(g: Option<String>) -> Option<Seq<char>> {
    match g {
        Some(s) => Some(s@),
        None => None,
    }
}

/// The view of a list of captured group triples.
pub open spec fn triple_views(v: Seq<(Option<String>, Option<String>, Option<String>)>) -> Seq<
    (Option<Seq<char>>, Option<Seq<char>>, Option<Seq<char>>),
> {
    v.map_values(
        |t: (Option<String>, Option<String>, Option<String>)|
            (group_view(t.0), group_view(t.1), group_view(t.2)),
    )
}

/// `Regex::new(pattern)` and then `captures_iter(text)`, each match taken to
/// its groups 1 to 3; `None` where the pattern does not compile. The
/// matches are named here without being stated.
#[verifier::external_body]
pub fn regex_capture_triples(pattern: &str, text: &str) -> (r: Option<
    Vec<(Option<String>, Option<String>, Option<String>)>,
>)
    ensures
        match r {
            Some(v) => regex_group_triples(pattern@, text@) == Some(triple_views(v@)),
            None => regex_group_triples(pattern@, text@) is None,
        },
{
    let group = |c: &regex::Captures, i: usize| c.get(i).map(|m| m.as_str().to_string());
    match regex::Regex::new(pattern) {
        Ok(re) => Some(re.captures_iter(text).map(|c| (group(&c, 1), group(&c, 2), group(&c, 3))).collect()),
        Err(_) => None,
    }
}

} // verus!
