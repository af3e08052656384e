//! The shared line platform behind Marathon and its sister sites: the feed
//! address, the body as it comes, and the events and prices read from the
//! feed's JSON with the help of the factors catalog.

use crate::json::{
    json_parsed, parse_json_bytes,
    array_field, array_of, at_most_one, is_positive, jget, number_at_most_one, number_field,
    number_is_positive, number_of, opt_text_field, opt_u64_field, text_field, text_of,
    text_or_empty, u64_of, JsonNumber, JsonValue,
};
use crate::model::{odd_views, Event, EventView, Odd, OddView, OddsType};
use crate::sport::Sport;
use crate::text::{
    before_char, dec, has_infix, owned, push_char, push_decimal, push_str, str_contains, str_eq,
    text_before_char, to_lowercase, trim, trim_str, string_of, unicode_lower,
};
use crate::registry::BookmakerParser;
use std::sync::Arc;
use vstd::prelude::*;

verus! {

/// One entry of the factors catalog: what the factor `id` prices.
pub struct FactorDef {
    pub id: u64,
    pub market_type: String,
    pub selection_name: String,
}

/// The first catalog entry for `fid`.
pub open spec fn factor_lookup(cat: Seq<FactorDef>, fid: u64) -> Option<FactorDef>
    decreases cat.len(),
{
    if cat.len() == 0 {
        None
    } else if cat[0].id == fid {
        Some(cat[0])
    } else {
        factor_lookup(cat.drop_first(), fid)
    }
}

/// Where the catalog entry for `fid` is.
pub fn find_factor(cat: &[FactorDef], fid: u64) -> (r: Option<usize>)
    ensures
        match r {
            Some(i) => i < cat@.len() && factor_lookup(cat@, fid) == Some(cat@[i as int]),
            None => factor_lookup(cat@, fid) is None,
        },
{
    let mut i: usize = 0;
    assert(cat@.skip(0) =~= cat@);
    while i < cat.len()
        invariant
            i <= cat@.len(),
            factor_lookup(cat@, fid) == factor_lookup(cat@.skip(i as int), fid),
        decreases cat@.len() - i,
    {
        let ghost rest = cat@.skip(i as int);
        assert(rest[0] == cat@[i as int]);
        if cat[i].id == fid {
            return Some(i);
        }
        assert(rest.drop_first() =~= cat@.skip(i + 1));
        i = i + 1;
    }
    None
}

/// What a price is on, as plain values: market, selection, line and kind.
pub struct PriceShape {
    pub market: Seq<char>,
    pub selection: Seq<char>,
    pub line: Option<JsonNumber>,
    pub odds_type: OddsType,
}

/// The shape with these parts.
pub open spec fn shape_of(
    market: Seq<char>,
    selection: Seq<char>,
    line: Option<JsonNumber>,
    odds_type: OddsType,
) -> PriceShape {
    PriceShape { market, selection, line, odds_type }
}

/// What a price is on: market, selection, line and kind.
pub struct Shape {
    pub market: String,
    pub selection: String,
    pub line: Option<JsonNumber>,
    pub odds_type: OddsType,
}

impl View for Shape {
    type V = PriceShape;

    open spec fn view(&self) -> PriceShape {
        shape_of(self.market@, self.selection@, self.line, self.odds_type)
    }
}

fn shape(market: &str, selection: &str, line: Option<JsonNumber>, odds_type: OddsType) -> (r:
    Shape)
    ensures
        r@ == shape_of(market@, selection@, line, odds_type),
{
    Shape { market: owned(market), selection: owned(selection), line, odds_type }
}

/// Whether `s` holds one of three texts.
pub open spec fn has_any3(s: Seq<char>, a: Seq<char>, b: Seq<char>, c: Seq<char>) -> bool {
    has_infix(s, a) || has_infix(s, b) || has_infix(s, c)
}

/// Whether `s` holds one of four texts.
pub open spec fn has_any4(
    s: Seq<char>,
    a: Seq<char>,
    b: Seq<char>,
    c: Seq<char>,
    d: Seq<char>,
) -> bool {
    has_infix(s, a) || has_infix(s, b) || has_infix(s, c) || has_infix(s, d)
}

fn contains3(s: &str, a: &str, b: &str, c: &str) -> (r: bool)
    ensures
        r == has_any3(s@, a@, b@, c@),
{
    str_contains(s, a) || str_contains(s, b) || str_contains(s, c)
}

fn contains4(s: &str, a: &str, b: &str, c: &str, d: &str) -> (r: bool)
    ensures
        r == has_any4(s@, a@, b@, c@, d@),
{
    str_contains(s, a) || str_contains(s, b) || str_contains(s, c) || str_contains(s, d)
}

/// The price that a catalog factor with lowercase market type `mt` and
/// lowercase selection `sel` stands for, if the rules know it.
pub open spec fn classify(mt: Seq<char>, sel: Seq<char>, line: Option<JsonNumber>) -> Option<
    PriceShape,
> {
    if has_any3(mt, "1x2"@, "исход"@, "winner"@) {
        if has_infix(sel, "п1"@) || sel == "1"@ || has_infix(sel, "home"@) {
            Some(shape_of("1X2"@, "1"@, None, OddsType::Home))
        } else if has_infix(sel, "х"@) || sel == "x"@ || has_infix(sel, "draw"@) {
            Some(shape_of("1X2"@, "X"@, None, OddsType::Draw))
        } else if has_infix(sel, "п2"@) || sel == "2"@ || has_infix(sel, "away"@) {
            Some(shape_of("1X2"@, "2"@, None, OddsType::Away))
        } else {
            None
        }
    } else if has_infix(mt, "total"@) || has_infix(mt, "тотал"@) {
        match line {
            Some(l) => if has_any3(sel, "больше"@, "over"@, "тб"@) {
                Some(shape_of("Total"@, "Over"@, Some(l), OddsType::Over))
            } else if has_any3(sel, "меньше"@, "under"@, "тм"@) {
                Some(shape_of("Total"@, "Under"@, Some(l), OddsType::Under))
            } else {
                None
            },
            None => None,
        }
    } else if has_infix(mt, "handicap"@) || has_infix(mt, "фора"@) {
        match line {
            Some(l) => Some(
                shape_of(
                    "Handicap"@,
                    if is_positive(l) {
                        "1"@
                    } else {
                        "2"@
                    },
                    Some(l),
                    OddsType::Handicap,
                ),
            ),
            None => None,
        }
    } else if has_any4(mt, "both"@, "обе"@, "oz"@, "btts"@) {
        if has_infix(sel, "да"@) || has_infix(sel, "yes"@) {
            Some(shape_of("BothTeamsScore"@, "Yes"@, None, OddsType::BothTeamsScoreYes))
        } else if has_infix(sel, "нет"@) || has_infix(sel, "no"@) {
            Some(shape_of("BothTeamsScore"@, "No"@, None, OddsType::BothTeamsScoreNo))
        } else {
            None
        }
    } else if has_any4(mt, "even"@, "odd"@, "чёт"@, "нечет"@) {
        if has_infix(sel, "чёт"@) || has_infix(sel, "even"@) {
            Some(shape_of("EvenOdd"@, "Even"@, None, OddsType::Even))
        } else if has_infix(sel, "нечет"@) || has_infix(sel, "odd"@) {
            Some(shape_of("EvenOdd"@, "Odd"@, None, OddsType::Odd))
        } else {
            None
        }
    } else if has_infix(mt, "double"@) || has_infix(mt, "двойн"@) {
        Some(shape_of("DoubleChance"@, sel, None, OddsType::Custom))
    } else if has_any3(mt, "correct"@, "точн"@, "score"@) {
        Some(shape_of("CorrectScore"@, sel, None, OddsType::Custom))
    } else {
        None
    }
}

/// The price that the rules make of a catalog factor, its market type `mt`
/// and selection `sel` already lowercase.
pub fn classify_factor(mt: &str, sel: &str, line: Option<JsonNumber>) -> (r: Option<Shape>)
    ensures
        match r {
            Some(s) => classify(mt@, sel@, line) == Some(s@),
            None => classify(mt@, sel@, line) is None,
        },
{
    if contains3(mt, "1x2", "исход", "winner") {
        if str_contains(sel, "п1") || str_eq(sel, "1") || str_contains(sel, "home") {
            Some(shape("1X2", "1", None, OddsType::Home))
        } else if str_contains(sel, "х") || str_eq(sel, "x") || str_contains(sel, "draw") {
            Some(shape("1X2", "X", None, OddsType::Draw))
        } else if str_contains(sel, "п2") || str_eq(sel, "2") || str_contains(sel, "away") {
            Some(shape("1X2", "2", None, OddsType::Away))
        } else {
            None
        }
    } else if str_contains(mt, "total") || str_contains(mt, "тотал") {
        match line {
            Some(l) => if contains3(sel, "больше", "over", "тб") {
                Some(shape("Total", "Over", Some(l), OddsType::Over))
            } else if contains3(sel, "меньше", "under", "тм") {
                Some(shape("Total", "Under", Some(l), OddsType::Under))
            } else {
                None
            },
            None => None,
        }
    } else if str_contains(mt, "handicap") || str_contains(mt, "фора") {
        match line {
            Some(l) => {
                if number_is_positive(l) {
                    Some(shape("Handicap", "1", Some(l), OddsType::Handicap))
                } else {
                    Some(shape("Handicap", "2", Some(l), OddsType::Handicap))
                }
            },
            None => None,
        }
    } else if contains4(mt, "both", "обе", "oz", "btts") {
        if str_contains(sel, "да") || str_contains(sel, "yes") {
            Some(shape("BothTeamsScore", "Yes", None, OddsType::BothTeamsScoreYes))
        } else if str_contains(sel, "нет") || str_contains(sel, "no") {
            Some(shape("BothTeamsScore", "No", None, OddsType::BothTeamsScoreNo))
        } else {
            None
        }
    } else if contains4(mt, "even", "odd", "чёт", "нечет") {
        if str_contains(sel, "чёт") || str_contains(sel, "even") {
            Some(shape("EvenOdd", "Even", None, OddsType::Even))
        } else if str_contains(sel, "нечет") || str_contains(sel, "odd") {
            Some(shape("EvenOdd", "Odd", None, OddsType::Odd))
        } else {
            None
        }
    } else if str_contains(mt, "double") || str_contains(mt, "двойн") {
        Some(shape("DoubleChance", sel, None, OddsType::Custom))
    } else if contains3(mt, "correct", "точн", "score") {
        Some(shape("CorrectScore", sel, None, OddsType::Custom))
    } else {
        None
    }
}

/// The price that the platform's own factor ids stand for where the
/// catalog does not say.
pub open spec fn fallback(fid: u64, line: Option<JsonNumber>) -> Option<PriceShape> {
    if fid == 921 {
        Some(shape_of("1X2"@, "1"@, None, OddsType::Home))
    } else if fid == 922 {
        Some(shape_of("1X2"@, "X"@, None, OddsType::Draw))
    } else if fid == 923 {
        Some(shape_of("1X2"@, "2"@, None, OddsType::Away))
    } else if fid == 924 || fid == 1002 || fid == 1010 || fid == 1054 {
        match line {
            Some(l) => Some(shape_of("Total"@, "Over"@, Some(l), OddsType::Over)),
            None => None,
        }
    } else if fid == 925 || fid == 1003 || fid == 1011 || fid == 1055 {
        match line {
            Some(l) => Some(shape_of("Total"@, "Under"@, Some(l), OddsType::Under)),
            None => None,
        }
    } else if fid == 1006 || fid == 1004 || fid == 1005 || fid == 1012 || fid == 1013 {
        match line {
            Some(l) => Some(
                shape_of(
                    "Handicap"@,
                    if is_positive(l) {
                        "1"@
                    } else {
                        "2"@
                    },
                    Some(l),
                    OddsType::Handicap,
                ),
            ),
            None => None,
        }
    } else if fid == 926 {
        Some(shape_of("BothTeamsScore"@, "Yes"@, None, OddsType::BothTeamsScoreYes))
    } else if fid == 927 {
        Some(shape_of("BothTeamsScore"@, "No"@, None, OddsType::BothTeamsScoreNo))
    } else if fid == 928 {
        Some(shape_of("EvenOdd"@, "Even"@, None, OddsType::Even))
    } else if fid == 929 {
        Some(shape_of("EvenOdd"@, "Odd"@, None, OddsType::Odd))
    } else {
        None
    }
}

/// The price that a factor id stands for by the platform's own ids.
pub fn fallback_factor(fid: u64, line: Option<JsonNumber>) -> (r: Option<Shape>)
    ensures
        match r {
            Some(s) => fallback(fid, line) == Some(s@),
            None => fallback(fid, line) is None,
        },
{
    if fid == 921 {
        Some(shape("1X2", "1", None, OddsType::Home))
    } else if fid == 922 {
        Some(shape("1X2", "X", None, OddsType::Draw))
    } else if fid == 923 {
        Some(shape("1X2", "2", None, OddsType::Away))
    } else if fid == 924 || fid == 1002 || fid == 1010 || fid == 1054 {
        match line {
            Some(l) => Some(shape("Total", "Over", Some(l), OddsType::Over)),
            None => None,
        }
    } else if fid == 925 || fid == 1003 || fid == 1011 || fid == 1055 {
        match line {
            Some(l) => Some(shape("Total", "Under", Some(l), OddsType::Under)),
            None => None,
        }
    } else if fid == 1006 || fid == 1004 || fid == 1005 || fid == 1012 || fid == 1013 {
        match line {
            Some(l) => {
                if number_is_positive(l) {
                    Some(shape("Handicap", "1", Some(l), OddsType::Handicap))
                } else {
                    Some(shape("Handicap", "2", Some(l), OddsType::Handicap))
                }
            },
            None => None,
        }
    } else if fid == 926 {
        Some(shape("BothTeamsScore", "Yes", None, OddsType::BothTeamsScoreYes))
    } else if fid == 927 {
        Some(shape("BothTeamsScore", "No", None, OddsType::BothTeamsScoreNo))
    } else if fid == 928 {
        Some(shape("EvenOdd", "Even", None, OddsType::Even))
    } else if fid == 929 {
        Some(shape("EvenOdd", "Odd", None, OddsType::Odd))
    } else {
        None
    }
}

/// The platform's total factors read by their ids alone: ids 925, 1003,
/// 1011 and 1055 are the under side of the total on the factor's own line,
/// ids 924, 1002, 1010 and 1054 the over side; a total factor without a
/// line is not priced. The two sides never share a kind.
pub proof fn law_fallback_total_sides(fid: u64, line: Option<JsonNumber>)
    ensures
        (fid == 925 || fid == 1003 || fid == 1011 || fid == 1055) ==> match line {
            Some(l) => fallback(fid, line) matches Some(s) && s.market == "Total"@
                && s.selection == "Under"@ && s.odds_type == OddsType::Under && s.line == Some(l),
            None => fallback(fid, line) is None,
        },
        (fid == 924 || fid == 1002 || fid == 1010 || fid == 1054) ==> match line {
            Some(l) => fallback(fid, line) matches Some(s) && s.market == "Total"@
                && s.selection == "Over"@ && s.odds_type == OddsType::Over && s.line == Some(l),
            None => fallback(fid, line) is None,
        },
        fallback(fid, line) matches Some(s) && s.odds_type == OddsType::Under ==> (fid == 925 || fid
            == 1003 || fid == 1011 || fid == 1055),
        fallback(fid, line) matches Some(s) && s.odds_type == OddsType::Over ==> (fid == 924 || fid
            == 1002 || fid == 1010 || fid == 1054),
{
}

/// A selection with each `.`, space and `/` turned into `_`, as price ids
/// carry it.
pub open spec fn underscored(s: Seq<char>) -> Seq<char> {
    s.map_values(|c: char| if c == '.' || c == ' ' || c == '/' { '_' } else { c })
}

fn push_underscored(out: &mut String, s: &str)
    ensures
        final(out)@ == old(out)@ + underscored(s@),
{
    let v = crate::text::chars_of(s);
    let mut i: usize = 0;
    while i < v.len()
        invariant
            i <= v@.len(),
            v@ == s@,
            out@ == old(out)@ + underscored(v@.take(i as int)),
        decreases v@.len() - i,
    {
        let c = v[i];
        let d = if c == '.' || c == ' ' || c == '/' {
            '_'
        } else {
            c
        };
        push_char(out, d);
        assert(underscored(v@.take(i + 1)) =~= underscored(v@.take(i as int)).push(d));
        i = i + 1;
    }
    assert(v@.take(v@.len() as int) =~= v@);
}

/// The price `odds` on `shape` for the event `event_id` of `slug`, read at
/// `ts`.
pub open spec fn price_view(
    slug: Seq<char>,
    event_id: Seq<char>,
    shape: PriceShape,
    odds: JsonNumber,
    ts: i64,
) -> OddView {
    OddView {
        id: slug + "-"@ + event_id + "-"@ + underscored(shape.selection),
        event_id,
        bookmaker_slug: slug,
        market: shape.market,
        selection: shape.selection,
        price: odds,
        odds_type: shape.odds_type,
        line: shape.line,
        timestamp_ms: ts,
    }
}

/// The price `odds` on `market` / `selection` of `event`, read at
/// `timestamp_ms`; its id is the slug, the event id and the selection.
pub fn make_odd(
    slug: &str,
    event: &Event,
    market: &str,
    selection: &str,
    odds: JsonNumber,
    line: Option<JsonNumber>,
    odds_type: OddsType,
    timestamp_ms: i64,
) -> (r: Odd)
    ensures
        r@ == price_view(
            slug@,
            event.id@,
            shape_of(market@, selection@, line, odds_type),
            odds,
            timestamp_ms,
        ),
{
    let mut id = owned(slug);
    push_str(&mut id, "-");
    push_str(&mut id, event.id.as_str());
    push_str(&mut id, "-");
    push_underscored(&mut id, selection);
    Odd {
        id,
        event_id: event.id.clone(),
        bookmaker_slug: owned(slug),
        market: owned(market),
        selection: owned(selection),
        price: odds,
        odds_type,
        line,
        timestamp_ms,
    }
}

/// Adds the price that the rules make of a catalog factor (market type and
/// selection already lowercase) to `odds`; whether they made one.
pub fn classify_and_add_odd(
    odds: &mut Vec<Odd>,
    slug: &str,
    event: &Event,
    val: JsonNumber,
    line: Option<JsonNumber>,
    market_type: &str,
    selection: &str,
    now_ms: i64,
) -> (added: bool)
    ensures
        added == classify(market_type@, selection@, line) is Some,
        match classify(market_type@, selection@, line) {
            Some(sh) => odd_views(final(odds)@) == odd_views(old(odds)@).push(
                price_view(slug@, event.id@, sh, val, now_ms),
            ),
            None => final(odds)@ == old(odds)@,
        },
{
    match classify_factor(market_type, selection, line) {
        Some(sh) => {
            let o = make_odd(
                slug,
                event,
                sh.market.as_str(),
                sh.selection.as_str(),
                val,
                sh.line,
                sh.odds_type,
                now_ms,
            );
            let ghost before = odds@;
            odds.push(o);
            assert(odd_views(odds@) =~= odd_views(before).push(o@));
            true
        },
        None => false,
    }
}

/// The sport that an event name points to, read from its lowercase form.
pub open spec fn sport_of_name(lower: Seq<char>) -> Sport {
    if has_infix(lower, "футбол"@) || has_infix(lower, "football"@) {
        Sport::Football
    } else if has_infix(lower, "баскет"@) || has_infix(lower, "basket"@) {
        Sport::Basketball
    } else if has_infix(lower, "хоккей"@) || has_infix(lower, "hockey"@) {
        Sport::Hockey
    } else if has_infix(lower, "теннис"@) || has_infix(lower, "tennis"@) {
        Sport::Tennis
    } else if has_infix(lower, "волейбол"@) || has_infix(lower, "volley"@) {
        Sport::Volleyball
    } else {
        Sport::Football
    }
}

/// The sport of an event by its name; football where the name says none.
pub fn detect_sport(event_name: &str) -> (r: Sport)
    ensures
        r == sport_of_name(unicode_lower(event_name@)),
{
    let l = to_lowercase(event_name);
    let name = l.as_str();
    if str_contains(name, "футбол") || str_contains(name, "football") {
        Sport::Football
    } else if str_contains(name, "баскет") || str_contains(name, "basket") {
        Sport::Basketball
    } else if str_contains(name, "хоккей") || str_contains(name, "hockey") {
        Sport::Hockey
    } else if str_contains(name, "теннис") || str_contains(name, "tennis") {
        Sport::Tennis
    } else if str_contains(name, "волейбол") || str_contains(name, "volley") {
        Sport::Volleyball
    } else {
        Sport::Football
    }
}

/// The league of an event name: what stands before its first `:`, trimmed.
pub open spec fn league_of(name: Seq<char>) -> Seq<char> {
    trim(before_char(name, ':'))
}

/// The league part of an event name.
pub fn extract_league(event_name: &str) -> (r: String)
    ensures
        r@ == league_of(event_name@),
{
    let head = text_before_char(event_name, ':');
    let t = trim_str(head.as_str());
    string_of(t.as_slice())
}

/// One price row of the feed: the event it is for, the factor id, the price
/// and the line.
#[derive(Clone, Copy)]
pub struct FactorRow {
    pub event_id: u64,
    pub fid: u64,
    pub val: JsonNumber,
    pub line: Option<JsonNumber>,
}

/// The row that the factor item `f` of the entry for `eid` gives: it needs
/// an integer `f` and a number `v`; the line is `p`, else `pt`.
pub open spec fn factor_row(eid: u64, f: JsonValue) -> Option<FactorRow> {
    match (u64_of(jget(f, "f"@)), number_of(jget(f, "v"@))) {
        (Some(fid), Some(v)) => Some(
            FactorRow {
                event_id: eid,
                fid,
                val: v,
                line: match number_of(jget(f, "p"@)) {
                    Some(p) => Some(p),
                    None => number_of(jget(f, "pt"@)),
                },
            },
        ),
        _ => None,
    }
}

/// The rows of the factor items `fs` of the entry for `eid`, in order.
pub open spec fn factor_rows(eid: u64, fs: Seq<JsonValue>) -> Seq<FactorRow>
    decreases fs.len(),
{
    if fs.len() == 0 {
        Seq::empty()
    } else {
        let rest = factor_rows(eid, fs.drop_last());
        match factor_row(eid, fs.last()) {
            Some(r) => rest.push(r),
            None => rest,
        }
    }
}

/// The rows of one `customFactors` entry: it needs an integer `e` and an
/// array `factors`.
pub open spec fn entry_rows(entry: JsonValue) -> Seq<FactorRow> {
    match (u64_of(jget(entry, "e"@)), array_of(jget(entry, "factors"@))) {
        (Some(eid), Some(fs)) => factor_rows(eid, fs),
        _ => Seq::empty(),
    }
}

/// The rows of all `customFactors` entries, in order.
pub open spec fn all_rows(cfs: Seq<JsonValue>) -> Seq<FactorRow>
    decreases cfs.len(),
{
    if cfs.len() == 0 {
        Seq::empty()
    } else {
        all_rows(cfs.drop_last()) + entry_rows(cfs.last())
    }
}

fn push_entry_rows(entry: &JsonValue, out: &mut Vec<FactorRow>)
    ensures
        final(out)@ == old(out)@ + entry_rows(*entry),
{
    let eid = match opt_u64_field(entry, "e") {
        Some(e) => e,
        None => {
            assert(old(out)@ + entry_rows(*entry) =~= old(out)@);
            return;
        },
    };
    let fs = match array_field(entry, "factors") {
        Some(fs) => fs,
        None => {
            assert(old(out)@ + entry_rows(*entry) =~= old(out)@);
            return;
        },
    };
    let mut i: usize = 0;
    assert(fs@.take(0) =~= Seq::<JsonValue>::empty());
    assert(old(out)@ + factor_rows(eid, fs@.take(0)) =~= old(out)@);
    while i < fs.len()
        invariant
            i <= fs@.len(),
            out@ == old(out)@ + factor_rows(eid, fs@.take(i as int)),
        decreases fs@.len() - i,
    {
        let f = &fs[i];
        let ghost pre = fs@.take(i as int);
        assert(fs@.take(i + 1).drop_last() =~= pre);
        assert(fs@.take(i + 1).last() == fs@[i as int]);
        match (opt_u64_field(f, "f"), number_field(f, "v")) {
            (Some(fid), Some(v)) => {
                let line = match number_field(f, "p") {
                    Some(p) => Some(p),
                    None => number_field(f, "pt"),
                };
                let row = FactorRow { event_id: eid, fid, val: v, line };
                let ghost before = out@;
                out.push(row);
                assert(out@ =~= before.push(row));
                assert(old(out)@ + factor_rows(eid, pre).push(row) =~= (old(out)@ + factor_rows(
                    eid,
                    pre,
                )).push(row));
            },
            _ => {},
        }
        i = i + 1;
    }
    assert(fs@.take(fs@.len() as int) =~= fs@);
}

/// All rows of the `customFactors` entries `cfs`, in order.
pub fn collect_rows(cfs: &Vec<JsonValue>) -> (r: Vec<FactorRow>)
    ensures
        r@ == all_rows(cfs@),
{
    let mut out: Vec<FactorRow> = Vec::new();
    let mut i: usize = 0;
    assert(cfs@.take(0) =~= Seq::<JsonValue>::empty());
    while i < cfs.len()
        invariant
            i <= cfs@.len(),
            out@ == all_rows(cfs@.take(i as int)),
        decreases cfs@.len() - i,
    {
        let ghost pre = cfs@.take(i as int);
        assert(cfs@.take(i + 1).drop_last() =~= pre);
        assert(cfs@.take(i + 1).last() == cfs@[i as int]);
        push_entry_rows(&cfs[i], &mut out);
        i = i + 1;
    }
    assert(cfs@.take(cfs@.len() as int) =~= cfs@);
    out
}

/// The price a row stands for: the catalog's rules first, the platform's
/// own ids where they make none.
pub open spec fn row_shape(row: FactorRow, cat: Seq<FactorDef>) -> Option<PriceShape> {
    let by_catalog = match factor_lookup(cat, row.fid) {
        Some(d) => classify(unicode_lower(d.market_type@), unicode_lower(d.selection_name@), row.line),
        None => None,
    };
    match by_catalog {
        Some(sh) => Some(sh),
        None => fallback(row.fid, row.line),
    }
}

/// The prices of the event `eid`: its rows in order, those priced above 1.0
/// that the rules know, read at `ts`.
pub open spec fn event_prices(
    rows: Seq<FactorRow>,
    eid: u64,
    slug: Seq<char>,
    event_id: Seq<char>,
    cat: Seq<FactorDef>,
    ts: i64,
) -> Seq<OddView>
    decreases rows.len(),
{
    if rows.len() == 0 {
        Seq::empty()
    } else {
        let rest = event_prices(rows.drop_last(), eid, slug, event_id, cat, ts);
        let r = rows.last();
        if r.event_id != eid || at_most_one(r.val) {
            rest
        } else {
            match row_shape(r, cat) {
                Some(sh) => rest.push(price_view(slug, event_id, sh, r.val, ts)),
                None => rest,
            }
        }
    }
}

/// The prices of the event `eid` of `event`, from the rows of the feed.
pub fn prices_for(
    rows: &Vec<FactorRow>,
    eid: u64,
    slug: &str,
    event: &Event,
    cat: &[FactorDef],
    ts: i64,
) -> (r: Vec<Odd>)
    ensures
        odd_views(r@) == event_prices(rows@, eid, slug@, event.id@, cat@, ts),
{
    let mut odds: Vec<Odd> = Vec::new();
    let mut i: usize = 0;
    assert(rows@.take(0) =~= Seq::<FactorRow>::empty());
    assert(odd_views(odds@) =~= Seq::<OddView>::empty());
    while i < rows.len()
        invariant
            i <= rows@.len(),
            odd_views(odds@) == event_prices(rows@.take(i as int), eid, slug@, event.id@, cat@, ts),
        decreases rows@.len() - i,
    {
        let ghost pre = rows@.take(i as int);
        assert(rows@.take(i + 1).drop_last() =~= pre);
        assert(rows@.take(i + 1).last() == rows@[i as int]);
        let row = rows[i];
        if row.event_id == eid && !number_at_most_one(row.val) {
            let ghost before = odds@;
            let mut added = false;
            match find_factor(cat, row.fid) {
                Some(k) => {
                    let mt = to_lowercase(cat[k].market_type.as_str());
                    let sel = to_lowercase(cat[k].selection_name.as_str());
                    added =
                        classify_and_add_odd(
                            &mut odds,
                            slug,
                            event,
                            row.val,
                            row.line,
                            mt.as_str(),
                            sel.as_str(),
                            ts,
                        );
                },
                None => {},
            }
            if !added {
                assert(odds@ == before);
                match fallback_factor(row.fid, row.line) {
                    Some(sh) => {
                        let o = make_odd(
                            slug,
                            event,
                            sh.market.as_str(),
                            sh.selection.as_str(),
                            row.val,
                            sh.line,
                            sh.odds_type,
                            ts,
                        );
                        odds.push(o);
                        assert(odd_views(odds@) =~= odd_views(before).push(o@));
                    },
                    None => {},
                }
            }
        }
        i = i + 1;
    }
    assert(rows@.take(rows@.len() as int) =~= rows@);
    odds
}

/// The event that an item of the feed's `events` gives: it needs an
/// integer `id` and two non-empty team names; sport and league come from
/// its `name`. The id comes with it.
pub open spec fn feed_event(ev: JsonValue, is_live: bool, slug: Seq<char>) -> Option<
    (u64, EventView),
> {
    match (u64_of(jget(ev, "id"@)), text_of(jget(ev, "team1"@)), text_of(jget(ev, "team2"@))) {
        (Some(id), Some(t1), Some(t2)) => if t1.len() == 0 || t2.len() == 0 {
            None
        } else {
            let name = text_or_empty(jget(ev, "name"@));
            Some(
                (
                    id,
                    EventView {
                        id: slug + "-"@ + dec(id as nat),
                        sport: sport_of_name(unicode_lower(name)),
                        league: league_of(name),
                        home_team: t1,
                        away_team: t2,
                        start_time_ms: None,
                        is_live,
                        bookmaker_slug: slug,
                        raw_url: None,
                        extra: Seq::empty(),
                    },
                ),
            )
        },
        _ => None,
    }
}

/// The event of one item of the feed's `events`, with its id.
pub fn feed_event_of(ev: &JsonValue, is_live: bool, slug: &str) -> (r: Option<(u64, Event)>)
    ensures
        match r {
            Some((id, e)) => feed_event(*ev, is_live, slug@) == Some((id, e@)),
            None => feed_event(*ev, is_live, slug@) is None,
        },
{
    let id = match opt_u64_field(ev, "id") {
        Some(id) => id,
        None => return None,
    };
    let t1 = match opt_text_field(ev, "team1") {
        Some(t) => t,
        None => return None,
    };
    let t2 = match opt_text_field(ev, "team2") {
        Some(t) => t,
        None => return None,
    };
    if t1.as_str().is_empty() || t2.as_str().is_empty() {
        return None;
    }
    let name = text_field(ev, "name");
    let sport = detect_sport(name.as_str());
    let league = extract_league(name.as_str());
    let mut eid = owned(slug);
    push_str(&mut eid, "-");
    push_decimal(&mut eid, id);
    let e = Event {
        id: eid,
        sport,
        league,
        home_team: t1,
        away_team: t2,
        start_time_ms: None,
        is_live,
        bookmaker_slug: owned(slug),
        raw_url: None,
        extra: Vec::new(),
    };
    assert(e@.extra =~= Seq::empty());
    Some((id, e))
}

/// The events of the items `evs` with their prices, in order.
pub open spec fn feed_results(
    evs: Seq<JsonValue>,
    rows: Seq<FactorRow>,
    is_live: bool,
    slug: Seq<char>,
    cat: Seq<FactorDef>,
    ts: i64,
) -> Seq<(EventView, Seq<OddView>)>
    decreases evs.len(),
{
    if evs.len() == 0 {
        Seq::empty()
    } else {
        let rest = feed_results(evs.drop_last(), rows, is_live, slug, cat, ts);
        match feed_event(evs.last(), is_live, slug) {
            Some((id, e)) => rest.push((e, event_prices(rows, id, slug, e.id, cat, ts))),
            None => rest,
        }
    }
}

/// What a feed response gives: nothing unless it has both an `events` and a
/// `customFactors` array.
pub open spec fn feed(
    json: JsonValue,
    is_live: bool,
    slug: Seq<char>,
    cat: Seq<FactorDef>,
    ts: i64,
) -> Seq<(EventView, Seq<OddView>)> {
    match (array_of(jget(json, "events"@)), array_of(jget(json, "customFactors"@))) {
        (Some(evs), Some(cfs)) => feed_results(evs, all_rows(cfs), is_live, slug, cat, ts),
        _ => Seq::empty(),
    }
}

/// The views of a list of events with their prices.
pub open spec fn results_view(r: Seq<(Event, Vec<Odd>)>) -> Seq<(EventView, Seq<OddView>)> {
    r.map_values(|p: (Event, Vec<Odd>)| (p.0@, odd_views(p.1@)))
}

/// The events and prices of a feed response, prices read at `now_ms`.
pub fn parse_api_response_at(
    json: &JsonValue,
    is_live: bool,
    slug: &str,
    factors: &[FactorDef],
    now_ms: i64,
) -> (r: Vec<(Event, Vec<Odd>)>)
    ensures
        results_view(r@) == feed(*json, is_live, slug@, factors@, now_ms),
{
    let mut results: Vec<(Event, Vec<Odd>)> = Vec::new();
    let evs = match array_field(json, "events") {
        Some(e) => e,
        None => {
            assert(results_view(results@) =~= Seq::<(EventView, Seq<OddView>)>::empty());
            return results;
        },
    };
    let cfs = match array_field(json, "customFactors") {
        Some(c) => c,
        None => {
            assert(results_view(results@) =~= Seq::<(EventView, Seq<OddView>)>::empty());
            return results;
        },
    };
    let rows = collect_rows(cfs);
    let mut i: usize = 0;
    assert(evs@.take(0) =~= Seq::<JsonValue>::empty());
    assert(results_view(results@) =~= Seq::<(EventView, Seq<OddView>)>::empty());
    while i < evs.len()
        invariant
            i <= evs@.len(),
            rows@ == all_rows(cfs@),
            results_view(results@) == feed_results(
                evs@.take(i as int),
                rows@,
                is_live,
                slug@,
                factors@,
                now_ms,
            ),
        decreases evs@.len() - i,
    {
        let ghost pre = evs@.take(i as int);
        assert(evs@.take(i + 1).drop_last() =~= pre);
        assert(evs@.take(i + 1).last() == evs@[i as int]);
        match feed_event_of(&evs[i], is_live, slug) {
            Some((id, e)) => {
                let odds = prices_for(&rows, id, slug, &e, factors, now_ms);
                let ghost before = results@;
                let ghost ev = e@;
                let ghost ov = odd_views(odds@);
                results.push((e, odds));
                assert(results_view(results@) =~= results_view(before).push((ev, ov)));
            },
            None => {},
        }
        i = i + 1;
    }
    assert(evs@.take(evs@.len() as int) =~= evs@);
    results
}

/// The events and prices of a feed response, prices stamped with the
/// current time.
pub fn parse_api_response(json: &JsonValue, is_live: bool, slug: &str, factors: &[FactorDef]) -> (r:
    Vec<(Event, Vec<Odd>)>)
    ensures
        exists|ts: i64| results_view(r@) == feed(*json, is_live, slug@, factors@, ts),
{
    let now = crate::clock::utc_now_millis();
    parse_api_response_at(json, is_live, slug, factors, now)
}

/// The `scopeMarket` of a site of the platform.
pub open spec fn scope_of(slug: Seq<char>) -> Seq<char> {
    if slug == "pari"@ {
        "2300"@
    } else if slug == "marathon"@ {
        "3000"@
    } else if slug == "bettery"@ {
        "501"@
    } else if slug == "zenit"@ {
        "1300"@
    } else {
        "3000"@
    }
}

/// The feed address of a site: the live list or the base line, in Russian,
/// for the site's market scope.
pub open spec fn events_url(base_url: Seq<char>, is_live: bool, slug: Seq<char>) -> Seq<char> {
    base_url + "/"@ + (if is_live {
        "events/list"@
    } else {
        "events/listBase"@
    }) + "?lang=ru&scopeMarket="@ + scope_of(slug)
}

/// The feed address of the site `slug` at `base_url`.
pub fn platform_events_url(base_url: &str, is_live: bool, slug: &str) -> (r: String)
    ensures
        r@ == events_url(base_url@, is_live, slug@),
{
    let scope = if str_eq(slug, "pari") {
        "2300"
    } else if str_eq(slug, "marathon") {
        "3000"
    } else if str_eq(slug, "bettery") {
        "501"
    } else if str_eq(slug, "zenit") {
        "1300"
    } else {
        "3000"
    };
    let mut url = owned(base_url);
    push_str(&mut url, "/");
    push_str(
        &mut url,
        if is_live {
            "events/list"
        } else {
            "events/listBase"
        },
    );
    push_str(&mut url, "?lang=ru&scopeMarket=");
    push_str(&mut url, scope);
    url
}

/// The `Origin` a site's requests carry: `https://{slug}.ru` (its `Referer`
/// is the same with a closing `/`).
pub fn platform_origin(slug: &str) -> (r: String)
    ensures
        r@ == "https://"@ + slug@ + ".ru"@,
{
    let mut o = owned("https://");
    push_str(&mut o, slug);
    push_str(&mut o, ".ru");
    o
}

/// Whether a body starts with the gzip magic bytes (and has more than two
/// bytes).
pub open spec fn gzip_framed(bytes: Seq<u8>) -> bool {
    bytes.len() > 2 && bytes[0] == 0x1f && bytes[1] == 0x8b
}

/// What flate2's gzip decoder makes of `bytes`: the decompressed bytes, or
/// nothing where it fails.
pub uninterp spec fn gzip_decoded(bytes: Seq<u8>) -> Option<Seq<u8>>;

/// Decompresses a gzip stream with flate2 (`GzDecoder::read_to_end`); the
/// outcome, a function of the bytes alone, is named `gzip_decoded`.
#[verifier::external_body]
fn gunzip(bytes: &[u8]) -> (r: Option<Vec<u8>>)
    ensures
        match r {
            Some(v) => gzip_decoded(bytes@) == Some(v@),
            None => gzip_decoded(bytes@) is None,
        },
{
    let mut decoder = flate2::read::GzDecoder::new(bytes);
    let mut out = Vec::new();
    match std::io::Read::read_to_end(&mut decoder, &mut out) {
        Ok(_) => Some(out),
        Err(_) => None,
    }
}

/// The JSON bytes of a feed body: decompressed where it is gzip framed and
/// decompresses, as it came otherwise.
pub open spec fn decoded_body(bytes: Seq<u8>) -> Seq<u8> {
    if gzip_framed(bytes) {
        match gzip_decoded(bytes) {
            Some(d) => d,
            None => bytes,
        }
    } else {
        bytes
    }
}

fn copy_bytes(bytes: &[u8]) -> (r: Vec<u8>)
    ensures
        r@ == bytes@,
{
    let mut out: Vec<u8> = Vec::new();
    let mut i: usize = 0;
    while i < bytes.len()
        invariant
            i <= bytes@.len(),
            out@ == bytes@.take(i as int),
        decreases bytes@.len() - i,
    {
        out.push(bytes[i]);
        i = i + 1;
        assert(out@ =~= bytes@.take(i as int));
    }
    assert(bytes@.take(bytes@.len() as int) =~= bytes@);
    out
}

/// The JSON bytes of a feed body.
pub fn decode_body(bytes: &[u8]) -> (r: Vec<u8>)
    ensures
        r@ == decoded_body(bytes@),
{
    if bytes.len() > 2 && bytes[0] == 0x1f && bytes[1] == 0x8b {
        match gunzip(bytes) {
            Some(d) => d,
            None => copy_bytes(bytes),
        }
    } else {
        copy_bytes(bytes)
    }
}

/// The events and prices of a feed body: its decoded bytes read as JSON
/// and then as a feed; none where they are no JSON.
pub open spec fn body_feed(body: Seq<u8>, is_live: bool, slug: Seq<char>, factors: Seq<FactorDef>, ts: i64) -> Seq<
    (EventView, Seq<OddView>),
> {
    match json_parsed(decoded_body(body)) {
        Some(j) => feed(j, is_live, slug, factors, ts),
        None => Seq::empty(),
    }
}

/// The events and prices of a feed body as it came over the wire (gzip or
/// not), prices read at `now_ms`; none where the bytes are no JSON.
pub fn parse_platform_body_at(body: &[u8], is_live: bool, slug: &str, factors: &[FactorDef], now_ms: i64) -> (r: Vec<
    (Event, Vec<Odd>),
>)
    ensures
        results_view(r@) == body_feed(body@, is_live, slug@, factors@, now_ms),
{
    let bytes = decode_body(body);
    match parse_json_bytes(bytes.as_slice()) {
        Some(json) => parse_api_response_at(&json, is_live, slug, factors, now_ms),
        None => {
            let r: Vec<(Event, Vec<Odd>)> = Vec::new();
            assert(results_view(r@) =~= Seq::<(EventView, Seq<OddView>)>::empty());
            r
        },
    }
}

/// The events and prices of a feed body, prices stamped with the current
/// time.
pub fn parse_platform_body(body: &[u8], is_live: bool, slug: &str, factors: &[FactorDef]) -> (r: Vec<
    (Event, Vec<Odd>),
>)
    ensures
        exists|ts: i64| results_view(r@) == #[trigger] body_feed(body@, is_live, slug@, factors@, ts),
{
    let now = crate::clock::utc_now_millis();
    parse_platform_body_at(body, is_live, slug, factors, now)
}

/// The Marathon parser: its HTTP client, its pages and the factors catalog
/// that names the feed's factor ids.
pub struct MarathonParser {
    pub http_client: Arc<reqwest::Client>,
    pub live_url: String,
    pub prematch_url: String,
    pub factors: Vec<FactorDef>,
    pub api_base: String,
}

impl MarathonParser {
    /// A parser on `client`, with an empty catalog until it is loaded.
    pub fn new(client: Arc<reqwest::Client>) -> (r: MarathonParser)
        ensures
            r.http_client == client,
            r.live_url@ == "https://www.marathonbet.ru/su/live"@,
            r.prematch_url@ == "https://www.marathonbet.ru/su/line"@,
            r.factors@.len() == 0,
            r.api_base@ == "https://line51.tf39be-resources.com"@,
    {
        MarathonParser {
            http_client: client,
            live_url: owned("https://www.marathonbet.ru/su/live"),
            prematch_url: owned("https://www.marathonbet.ru/su/line"),
            factors: Vec::new(),
            api_base: owned("https://line51.tf39be-resources.com"),
        }
    }

    /// The feed address for the live list or the base line.
    pub fn feed_url(&self, is_live: bool) -> (r: String)
        ensures
            r@ == events_url(self.api_base@, is_live, "marathon"@),
    {
        platform_events_url(self.api_base.as_str(), is_live, "marathon")
    }

    /// The events and prices of a feed response, read with this parser's
    /// catalog.
    pub fn parse_feed(&self, json: &JsonValue, is_live: bool) -> (r: Vec<(Event, Vec<Odd>)>)
        ensures
            exists|ts: i64| results_view(r@) == feed(*json, is_live, "marathon"@, self.factors@, ts),
    {
        parse_api_response(json, is_live, "marathon", self.factors.as_slice())
    }

    /// The site's address.
    pub fn base_url(&self) -> (r: &'static str)
        ensures
            r@ == "https://www.marathonbet.ru"@,
    {
        "https://www.marathonbet.ru"
    }

    /// The browser identity its requests carry.
    pub fn user_agent(&self) -> (r: &'static str)
        ensures
            r@ == "Mozilla/5.0 (Windows NT 10.0; Win64; x64) AppleWebKit/537.36 (KHTML, like Gecko) Chrome/120.0.0.0 Safari/537.36"@,
    {
        "Mozilla/5.0 (Windows NT 10.0; Win64; x64) AppleWebKit/537.36 (KHTML, like Gecko) Chrome/120.0.0.0 Safari/537.36"
    }
}

impl BookmakerParser for MarathonParser {
    open spec fn name_spec(&self) -> Seq<char> {
        "Marathon"@
    }

    open spec fn slug_spec(&self) -> Seq<char> {
        "marathon"@
    }

    open spec fn enabled_spec(&self) -> bool {
        true
    }

    fn name(&self) -> (r: &str) {
        "Marathon"
    }

    fn slug(&self) -> (r: &str) {
        "marathon"
    }

    fn is_enabled(&self) -> (r: bool) {
        true
    }

    open spec fn readiness_spec(&self) -> Option<crate::readiness::ReadinessView> {
        None
    }

    fn readiness(&self) -> (r: Option<crate::readiness::ParserReadiness>) {
        None
    }
}

} // verus!
