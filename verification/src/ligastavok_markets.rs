//! Liga Stavok: the prices of an `eventsList` item, read from its markets
//! and their outcomes. Prices and lines come as JSON numbers or as texts
//! (with a decimal comma or point); a text is read as an `f64` by the
//! caller, and what it reads as is handed back here.

use crate::json::{get, jget, text_of, text_or_empty, JsonMember, JsonNumber, JsonValue, at_most_one};
use crate::ligastavok::{
    format_market_name, format_selection, is_locked_or_corrupted, locked_or_corrupted,
    market_label, odds_kind, part_title, selection_text, selection_to_odds_type, LigaStavokParser,
};
use crate::model::{odd_views, Odd, OddView, OddsType};
use crate::olimp::{id_text, OlimpParser};
use crate::text::{
    chars_of, owned, push_char, push_signed_decimal, push_str, signed_dec, str_eq, string_of,
    trim, trim_str, unicode_lower,
};
use vstd::prelude::*;

verus! {

/// A price or line as the feed wrote it: a JSON number, or a text to be
/// read as an `f64` (trimmed, decimal comma made a point).
pub enum LigaRaw {
    Number(JsonNumber),
    Text(String),
}

/// A raw price as plain values.
pub enum LigaRawView {
    Number(JsonNumber),
    Text(Seq<char>),
}

impl View for LigaRaw {
    type V = LigaRawView;

    open spec fn view(&self) -> LigaRawView {
        match self {
            LigaRaw::Number(n) => LigaRawView::Number(*n),
            LigaRaw::Text(t) => LigaRawView::Text(t@),
        }
    }
}

/// The view of an optional raw price.
pub open spec fn raw_opt_view(r: Option<LigaRaw>) -> Option<LigaRawView> {
    match r {
        Some(x) => Some(x@),
        None => None,
    }
}

/// `s` with each decimal comma made a point.
pub open spec fn comma_to_dot(s: Seq<char>) -> Seq<char> {
    s.map_values(|c: char| if c == ',' { '.' } else { c })
}

/// What a looked-up value gives as a number: a JSON number as it is, a
/// text trimmed with its commas made points; nothing for other values.
pub open spec fn raw_number(o: Option<JsonValue>) -> Option<LigaRawView> {
    match o {
        Some(JsonValue::Number(n)) => Some(LigaRawView::Number(n)),
        Some(JsonValue::Str(t)) => Some(LigaRawView::Text(comma_to_dot(trim(t@)))),
        _ => None,
    }
}

/// `as_i64()` on a looked-up value, or zero.
pub open spec fn i64_or_zero(o: Option<JsonValue>) -> i64 {
    match o {
        Some(JsonValue::Number(JsonNumber::PosInt(k))) => if k <= 0x7FFF_FFFF_FFFF_FFFFu64 {
            k as i64
        } else {
            0
        },
        Some(JsonValue::Number(JsonNumber::NegInt(k))) => k,
        _ => 0,
    }
}

/// One priced outcome, before its texts are read as numbers.
pub struct LigaRow {
    pub id: String,
    pub event_id: String,
    pub market: String,
    pub selection: String,
    pub odds_type: OddsType,
    pub price: LigaRaw,
    pub ad_value: Option<LigaRaw>,
    pub line: Option<LigaRaw>,
}

/// A row as plain values.
pub struct LigaRowView {
    pub id: Seq<char>,
    pub event_id: Seq<char>,
    pub market: Seq<char>,
    pub selection: Seq<char>,
    pub odds_type: OddsType,
    pub price: LigaRawView,
    pub ad_value: Option<LigaRawView>,
    pub line: Option<LigaRawView>,
}

impl View for LigaRow {
    type V = LigaRowView;

    open spec fn view(&self) -> LigaRowView {
        LigaRowView {
            id: self.id@,
            event_id: self.event_id@,
            market: self.market@,
            selection: self.selection@,
            odds_type: self.odds_type,
            price: self.price@,
            ad_value: raw_opt_view(self.ad_value),
            line: raw_opt_view(self.line),
        }
    }
}

/// The views of a list of rows.
pub open spec fn row_views(s: Seq<LigaRow>) -> Seq<LigaRowView> {
    s.map_values(|r: LigaRow| r@)
}

/// The row an outcome gives in a market: none where the outcome is locked
/// or corrupted or has no price; its id is the event's, the market's and
/// its own (each id zero where missing).
pub open spec fn outcome_row(
    event_id: Seq<char>,
    market_id: i64,
    label: Seq<char>,
    market_name: Seq<char>,
    market_type: Seq<char>,
    outcome: JsonValue,
) -> Seq<LigaRowView> {
    if locked_or_corrupted(outcome) {
        Seq::empty()
    } else {
        match raw_number(jget(outcome, "value"@)) {
            None => Seq::empty(),
            Some(price) => {
                let sel = selection_text(outcome);
                seq![
                    LigaRowView {
                        id: event_id + "-"@ + signed_dec(market_id) + "-"@ + signed_dec(
                            i64_or_zero(jget(outcome, "id"@)),
                        ),
                        event_id,
                        market: label,
                        selection: sel,
                        odds_type: odds_kind(
                            unicode_lower(sel),
                            unicode_lower(market_name),
                            unicode_lower(market_type),
                        ),
                        price,
                        ad_value: raw_number(jget(outcome, "adValue"@)),
                        line: raw_number(jget(outcome, "line"@)),
                    },
                ]
            },
        }
    }
}

/// Whether an outcome belongs to the market keyed `key`.
pub open spec fn linked(outcome: JsonValue, key: Seq<char>) -> bool {
    text_of(jget(outcome, "marketId"@)) == Some(key)
}

/// The rows of the outcomes of `outs` that belong to the market keyed
/// `key`, in order.
pub open spec fn linked_rows(
    event_id: Seq<char>,
    key: Seq<char>,
    market_id: i64,
    label: Seq<char>,
    market_name: Seq<char>,
    market_type: Seq<char>,
    outs: Seq<JsonValue>,
) -> Seq<LigaRowView>
    decreases outs.len(),
{
    if outs.len() == 0 {
        Seq::empty()
    } else {
        linked_rows(event_id, key, market_id, label, market_name, market_type, outs.drop_last()) + if linked(
            outs.last(),
            key,
        ) {
            outcome_row(event_id, market_id, label, market_name, market_type, outs.last())
        } else {
            Seq::empty()
        }
    }
}

/// The rows of one market: none where it is no object, is locked or
/// corrupted, or has no title.
pub open spec fn market_rows(
    event_id: Seq<char>,
    m: JsonMember,
    outs: Seq<JsonValue>,
    parts: Option<JsonValue>,
) -> Seq<LigaRowView> {
    let mv = m.value;
    if !(mv is Object) || locked_or_corrupted(mv) {
        Seq::empty()
    } else {
        match text_of(jget(mv, "title"@)) {
            None => Seq::empty(),
            Some(name) => {
                let ty = text_or_empty(jget(mv, "type"@));
                let label = market_label(name, part_title(text_of(jget(mv, "partId"@)), parts));
                linked_rows(event_id, m.key@, i64_or_zero(jget(mv, "id"@)), label, name, ty, outs)
            },
        }
    }
}

/// The rows of a list of markets, in order.
pub open spec fn markets_rows(
    event_id: Seq<char>,
    ms: Seq<JsonMember>,
    outs: Seq<JsonValue>,
    parts: Option<JsonValue>,
) -> Seq<LigaRowView>
    decreases ms.len(),
{
    if ms.len() == 0 {
        Seq::empty()
    } else {
        markets_rows(event_id, ms.drop_last(), outs, parts) + market_rows(event_id, ms.last(), outs, parts)
    }
}

/// The values of a list of members.
pub open spec fn member_values(ms: Seq<JsonMember>) -> Seq<JsonValue> {
    ms.map_values(|m: JsonMember| m.value)
}

/// The rows of an item: its `markets` object's markets, in order, each with
/// its outcomes from the `outcomes` object; none where either is missing
/// or no object.
pub open spec fn item_rows(event_id: Seq<char>, item: JsonValue) -> Seq<LigaRowView> {
    match (jget(item, "markets"@), jget(item, "outcomes"@)) {
        (Some(JsonValue::Object(ms)), Some(JsonValue::Object(os))) => markets_rows(
            event_id,
            ms@,
            member_values(os@),
            jget(item, "parts"@),
        ),
        _ => Seq::empty(),
    }
}

/// What a raw number reads as, given what its text read as.
pub open spec fn read_raw(r: LigaRawView, parsed: Option<u64>) -> Option<JsonNumber> {
    match r {
        LigaRawView::Number(n) => Some(n),
        LigaRawView::Text(_) => match parsed {
            Some(b) => Some(JsonNumber::FloatBits(b)),
            None => None,
        },
    }
}

/// What an optional raw number reads as.
pub open spec fn read_opt(r: Option<LigaRawView>, parsed: Option<u64>) -> Option<JsonNumber> {
    match r {
        Some(x) => read_raw(x, parsed),
        None => None,
    }
}

/// The price a row gives, read at `ts`, with what its price, `adValue` and
/// `line` texts read as: one where the price reads as a number above 1.0;
/// its line is the `adValue`, else the `line`.
pub open spec fn row_price(r: LigaRowView, parsed: (Option<u64>, Option<u64>, Option<u64>), ts: i64) -> Seq<OddView> {
    match read_raw(r.price, parsed.0) {
        None => Seq::empty(),
        Some(p) => if at_most_one(p) {
            Seq::empty()
        } else {
            seq![
                OddView {
                    id: r.id,
                    event_id: r.event_id,
                    bookmaker_slug: "ligastavok"@,
                    market: r.market,
                    selection: r.selection,
                    price: p,
                    odds_type: r.odds_type,
                    line: match read_opt(r.ad_value, parsed.1) {
                        Some(x) => Some(x),
                        None => read_opt(r.line, parsed.2),
                    },
                    timestamp_ms: ts,
                },
            ]
        },
    }
}

/// The prices of a list of rows, in order.
pub open spec fn rows_prices(
    rows: Seq<LigaRowView>,
    parsed: Seq<(Option<u64>, Option<u64>, Option<u64>)>,
    ts: i64,
) -> Seq<OddView>
    decreases rows.len(),
{
    if rows.len() == 0 || parsed.len() != rows.len() {
        Seq::empty()
    } else {
        rows_prices(rows.drop_last(), parsed.drop_last(), ts) + row_price(rows.last(), parsed.last(), ts)
    }
}

/// What a looked-up value gives as a number.
fn raw_of(v: Option<&JsonValue>) -> (r: Option<LigaRaw>)
    ensures
        raw_opt_view(r) == raw_number(
            match v {
                Some(x) => Some(*x),
                None => None,
            },
        ),
{
    match v {
        Some(JsonValue::Number(n)) => Some(LigaRaw::Number(*n)),
        Some(JsonValue::Str(t)) => {
            let tr = trim_str(t.as_str());
            let mut out = String::new();
            let mut i: usize = 0;
            while i < tr.len()
                invariant
                    i <= tr@.len(),
                    out@ == comma_to_dot(tr@.take(i as int)),
                decreases tr@.len() - i,
            {
                let c = tr[i];
                let d = if c == ',' {
                    '.'
                } else {
                    c
                };
                push_char(&mut out, d);
                assert(comma_to_dot(tr@.take(i + 1)) =~= comma_to_dot(tr@.take(i as int)).push(d));
                i = i + 1;
            }
            assert(tr@.take(tr@.len() as int) =~= tr@);
            Some(LigaRaw::Text(out))
        },
        _ => None,
    }
}

/// `as_i64()` on a looked-up value, or zero.
fn i64_of(v: Option<&JsonValue>) -> (r: i64)
    ensures
        r == i64_or_zero(
            match v {
                Some(x) => Some(*x),
                None => None,
            },
        ),
{
    match v {
        Some(JsonValue::Number(JsonNumber::PosInt(k))) => if *k <= 0x7FFF_FFFF_FFFF_FFFFu64 {
            *k as i64
        } else {
            0
        },
        Some(JsonValue::Number(JsonNumber::NegInt(k))) => *k,
        _ => 0,
    }
}

/// Appends to `rows` the rows of the outcomes of `outs` linked to the
/// market keyed `key`.
fn push_linked_rows(
    event_id: &str,
    key: &str,
    market_id: i64,
    label: &str,
    market_name: &str,
    market_type: &str,
    outs: &Vec<&JsonValue>,
    rows: &mut Vec<LigaRow>,
)
    ensures
        row_views(final(rows)@) == row_views(old(rows)@) + linked_rows(
            event_id@,
            key@,
            market_id,
            label@,
            market_name@,
            market_type@,
            deref_all(outs@),
        ),
{
    let ghost os = deref_all(outs@);
    let mut i: usize = 0;
    assert(row_views(rows@) =~= row_views(old(rows)@) + linked_rows(
        event_id@, key@, market_id, label@, market_name@, market_type@, os.take(0)));
    while i < outs.len()
        invariant
            i <= outs@.len(),
            os == deref_all(outs@),
            row_views(rows@) == row_views(old(rows)@) + linked_rows(
                event_id@,
                key@,
                market_id,
                label@,
                market_name@,
                market_type@,
                os.take(i as int),
            ),
        decreases outs@.len() - i,
    {
        let ghost before = rows@;
        assert(os.take(i + 1).drop_last() =~= os.take(i as int));
        assert(os.take(i + 1).last() == *outs@[i as int]);
        let o: &JsonValue = outs[i];
        let is_linked = match get(o, "marketId") {
            Some(JsonValue::Str(m)) => str_eq(m.as_str(), key),
            _ => false,
        };
        assert(is_linked == linked(*o, key@));
        if is_linked && !is_locked_or_corrupted(o) {
            match raw_of(get(o, "value")) {
                Some(price) => {
                    let selection = format_selection(o);
                    let odds_type = selection_to_odds_type(selection.as_str(), market_name, market_type);
                    let mut id = owned(event_id);
                    push_str(&mut id, "-");
                    push_signed_decimal(&mut id, market_id);
                    push_str(&mut id, "-");
                    push_signed_decimal(&mut id, i64_of(get(o, "id")));
                    let row = LigaRow {
                        id,
                        event_id: owned(event_id),
                        market: owned(label),
                        selection,
                        odds_type,
                        price,
                        ad_value: raw_of(get(o, "adValue")),
                        line: raw_of(get(o, "line")),
                    };
                    assert(outcome_row(event_id@, market_id, label@, market_name@, market_type@, *o)
                        =~= seq![row@]);
                    rows.push(row);
                    assert(row_views(rows@) =~= row_views(before).push(row@));
                },
                None => {},
            }
        }
        assert(row_views(rows@) =~= row_views(old(rows)@) + linked_rows(
            event_id@,
            key@,
            market_id,
            label@,
            market_name@,
            market_type@,
            os.take(i + 1),
        ));
        i = i + 1;
    }
    assert(os.take(outs@.len() as int) =~= os);
}

/// The values behind a list of references.
pub open spec fn deref_all(s: Seq<&JsonValue>) -> Seq<JsonValue> {
    s.map_values(|x: &JsonValue| *x)
}

impl LigaStavokParser {
    /// The priced outcomes of an `eventsList` item for the event
    /// `event_id`: market by market, in the order the item lists them, the
    /// outcomes linked to each, in the order of the item's outcomes.
    pub fn market_rows(event_id: &str, item: &JsonValue) -> (r: Vec<LigaRow>)
        ensures
            row_views(r@) == item_rows(event_id@, *item),
    {
        let mut rows: Vec<LigaRow> = Vec::new();
        let (ms, os) = match (get(item, "markets"), get(item, "outcomes")) {
            (Some(JsonValue::Object(ms)), Some(JsonValue::Object(os))) => (ms, os),
            _ => {
                assert(row_views(rows@) =~= Seq::<LigaRowView>::empty());
                return rows;
            },
        };
        let parts = get(item, "parts");
        let mut outs: Vec<&JsonValue> = Vec::new();
        let mut k: usize = 0;
        while k < os.len()
            invariant
                k <= os@.len(),
                deref_all(outs@) == member_values(os@.take(k as int)),
            decreases os@.len() - k,
        {
            let ghost before = outs@;
            let r: &JsonValue = &os[k].value;
            outs.push(r);
            assert(deref_all(outs@) =~= deref_all(before).push(*r));
            assert(member_values(os@.take(k + 1)) =~= member_values(os@.take(k as int)).push(os@[k as int].value));
            assert(deref_all(outs@) =~= member_values(os@.take(k + 1)));
            k = k + 1;
        }
        assert(os@.take(os@.len() as int) =~= os@);
        let ghost vs = member_values(os@);
        let ghost pv = match parts {
            Some(x) => Some(*x),
            None => None,
        };
        let mut i: usize = 0;
        assert(row_views(rows@) =~= markets_rows(event_id@, ms@.take(0), vs, pv));
        while i < ms.len()
            invariant
                i <= ms@.len(),
                deref_all(outs@) == vs,
                pv == jget(*item, "parts"@),
                pv == (match parts {
                    Some(x) => Some(*x),
                    None => None,
                }),
                row_views(rows@) == markets_rows(event_id@, ms@.take(i as int), vs, pv),
            decreases ms@.len() - i,
        {
            let ghost before = rows@;
            assert(ms@.take(i + 1).drop_last() =~= ms@.take(i as int));
            assert(ms@.take(i + 1).last() == ms@[i as int]);
            let m = &ms[i];
            let mv = &m.value;
            let is_object = match mv {
                JsonValue::Object(_) => true,
                _ => false,
            };
            if is_object && !is_locked_or_corrupted(mv) {
                match get(mv, "title") {
                    Some(JsonValue::Str(name)) => {
                        let ty: String = match get(mv, "type") {
                            Some(JsonValue::Str(t)) => t.clone(),
                            _ => String::new(),
                        };
                        assert(ty@ == text_or_empty(jget(*mv, "type"@)));
                        let part_id: Option<&str> = match get(mv, "partId") {
                            Some(JsonValue::Str(p)) => Some(p.as_str()),
                            _ => None,
                        };
                        assert(match part_id {
                            Some(p) => Some(p@),
                            None => None,
                        } == text_of(jget(*mv, "partId"@)));
                        let label = format_market_name(name.as_str(), part_id, parts);
                        let market_id = i64_of(get(mv, "id"));
                        assert(label@ == market_label(name@, part_title(text_of(jget(*mv, "partId"@)), pv)));
                        push_linked_rows(
                            event_id,
                            m.key.as_str(),
                            market_id,
                            label.as_str(),
                            name.as_str(),
                            ty.as_str(),
                            &outs,
                            &mut rows,
                        );
                        assert(market_rows(event_id@, *m, vs, pv) == linked_rows(
                            event_id@,
                            m.key@,
                            market_id,
                            label@,
                            name@,
                            ty@,
                            vs,
                        ));
                        assert(row_views(rows@) == row_views(before) + market_rows(event_id@, *m, vs, pv));
                    },
                    _ => {
                        assert(market_rows(event_id@, *m, vs, pv) =~= Seq::<LigaRowView>::empty());
                        assert(row_views(rows@) =~= row_views(before) + market_rows(event_id@, *m, vs, pv));
                    },
                }
            } else {
                assert(market_rows(event_id@, *m, vs, pv) =~= Seq::<LigaRowView>::empty());
                assert(row_views(rows@) =~= row_views(before) + market_rows(event_id@, *m, vs, pv));
            }
            assert(row_views(rows@) =~= markets_rows(event_id@, ms@.take(i + 1), vs, pv));
            i = i + 1;
        }
        assert(ms@.take(ms@.len() as int) =~= ms@);
        rows
    }

    /// The prices of `rows`, read at `ts`: `parsed[i]` holds what the price,
    /// `adValue` and `line` texts of `rows[i]` read as (the bits of an
    /// `f64`; `None` for a number, a missing value or a text that is no
    /// number). A row is priced where its price reads as a number above
    /// 1.0.
    pub fn price_rows(rows: &Vec<LigaRow>, parsed: &Vec<(Option<u64>, Option<u64>, Option<u64>)>, ts: i64) -> (r:
        Vec<Odd>)
        requires
            parsed@.len() == rows@.len(),
        ensures
            odd_views(r@) == rows_prices(row_views(rows@), parsed@, ts),
    {
        let ghost rs = row_views(rows@);
        let mut out: Vec<Odd> = Vec::new();
        let mut i: usize = 0;
        assert(odd_views(out@) =~= rows_prices(rs.take(0), parsed@.take(0), ts));
        while i < rows.len()
            invariant
                i <= rows@.len(),
                parsed@.len() == rows@.len(),
                rs == row_views(rows@),
                odd_views(out@) == rows_prices(rs.take(i as int), parsed@.take(i as int), ts),
            decreases rows@.len() - i,
        {
            let ghost before = out@;
            assert(rs.take(i + 1).drop_last() =~= rs.take(i as int));
            assert(parsed@.take(i + 1).drop_last() =~= parsed@.take(i as int));
            assert(rs.take(i + 1).last() == rows@[i as int]@);
            assert(parsed@.take(i + 1).last() == parsed@[i as int]);
            let row = &rows[i];
            let (pp, pa, pl) = parsed[i];
            let price = read_number(&row.price, pp);
            match price {
                Some(p) => {
                    if !crate::json::number_at_most_one(p) {
                        let line = match &row.ad_value {
                            Some(a) => match read_number(a, pa) {
                                Some(x) => Some(x),
                                None => match &row.line {
                                    Some(l) => read_number(l, pl),
                                    None => None,
                                },
                            },
                            None => match &row.line {
                                Some(l) => read_number(l, pl),
                                None => None,
                            },
                        };
                        let odd = Odd {
                            id: row.id.clone(),
                            event_id: row.event_id.clone(),
                            bookmaker_slug: owned("ligastavok"),
                            market: row.market.clone(),
                            selection: row.selection.clone(),
                            price: p,
                            odds_type: row.odds_type,
                            line,
                            timestamp_ms: ts,
                        };
                        assert(row_price(row@, parsed@[i as int], ts) =~= seq![odd@]);
                        out.push(odd);
                        assert(odd_views(out@) =~= odd_views(before).push(odd@));
                    }
                },
                None => {},
            }
            assert(odd_views(out@) =~= rows_prices(rs.take(i + 1), parsed@.take(i + 1), ts));
            i = i + 1;
        }
        assert(rs.take(rows@.len() as int) =~= rs);
        assert(parsed@.take(rows@.len() as int) =~= parsed@);
        out
    }
}

/// What a raw number reads as, given what its text read as.
fn read_number(r: &LigaRaw, parsed: Option<u64>) -> (n: Option<JsonNumber>)
    ensures
        n == read_raw(r@, parsed),
{
    match r {
        LigaRaw::Number(x) => Some(*x),
        LigaRaw::Text(_) => match parsed {
            Some(b) => Some(JsonNumber::FloatBits(b)),
            None => None,
        },
    }
}

/// The competitors' names of an item's `event`: the first two of its
/// `competitors` where it lists at least two (a missing name there ends the
/// search), trimmed and both non-empty; else its trimmed `team1` and
/// `team2`, both non-empty.
pub open spec fn event_teams(event: JsonValue) -> Option<(Seq<char>, Seq<char>)> {
    match jget(event, "competitors"@) {
        Some(JsonValue::Array(list)) => if list@.len() >= 2 {
            let h = text_of(jget(list@[0], "name"@));
            let a = text_of(jget(list@[1], "name"@));
            if h is None || a is None {
                None
            } else if trim(h->0).len() > 0 && trim(a->0).len() > 0 {
                Some((trim(h->0), trim(a->0)))
            } else {
                fallback_teams(event)
            }
        } else {
            fallback_teams(event)
        },
        _ => fallback_teams(event),
    }
}

/// The trimmed `team1` and `team2` of an event, both non-empty.
pub open spec fn fallback_teams(event: JsonValue) -> Option<(Seq<char>, Seq<char>)> {
    let h = text_of(jget(event, "team1"@));
    let a = text_of(jget(event, "team2"@));
    if h is None || a is None || trim(h->0).len() == 0 || trim(a->0).len() == 0 {
        None
    } else {
        Some((trim(h->0), trim(a->0)))
    }
}

/// An item's id text and its two competitors, where it has all three.
pub open spec fn item_teams(item: JsonValue) -> Option<(Seq<char>, Seq<char>, Seq<char>)> {
    match jget(item, "id"@) {
        None => None,
        Some(idv) => match id_text(idv) {
            None => None,
            Some(id) => match jget(item, "event"@) {
                None => None,
                Some(event) => match event_teams(event) {
                    None => None,
                    Some((h, a)) => Some((id, h, a)),
                },
            },
        },
    }
}

/// The trimmed text of a looked-up string.
fn trimmed_string(v: Option<&JsonValue>) -> (r: Option<String>)
    ensures
        match r {
            Some(s) => text_of(
                match v {
                    Some(x) => Some(*x),
                    None => None,
                },
            ) matches Some(t) && s@ == trim(t),
            None => text_of(
                match v {
                    Some(x) => Some(*x),
                    None => None,
                },
            ) is None,
        },
{
    match v {
        Some(JsonValue::Str(t)) => {
            let tr = trim_str(t.as_str());
            Some(string_of(tr.as_slice()))
        },
        _ => None,
    }
}

/// The trimmed `team1` and `team2` of an event, both non-empty.
fn fallback_team_names(event: &JsonValue) -> (r: Option<(String, String)>)
    ensures
        match r {
            Some((h, a)) => fallback_teams(*event) == Some((h@, a@)),
            None => fallback_teams(*event) is None,
        },
{
    let h = match trimmed_string(get(event, "team1")) {
        Some(h) => h,
        None => return None,
    };
    let a = match trimmed_string(get(event, "team2")) {
        Some(a) => a,
        None => return None,
    };
    if h.as_str().unicode_len() == 0 || a.as_str().unicode_len() == 0 {
        return None;
    }
    Some((h, a))
}

impl LigaStavokParser {
    /// An item's id text and its two competitors, where it has all three.
    pub fn extract_teams(item: &JsonValue) -> (r: Option<(String, String, String)>)
        ensures
            match r {
                Some((id, h, a)) => item_teams(*item) == Some((id@, h@, a@)),
                None => item_teams(*item) is None,
            },
    {
        let id = match get(item, "id") {
            Some(idv) => match OlimpParser::event_id_text(idv) {
                Some(t) => t,
                None => return None,
            },
            None => return None,
        };
        let event = match get(item, "event") {
            Some(e) => e,
            None => return None,
        };
        let teams = match get(event, "competitors") {
            Some(JsonValue::Array(list)) => {
                if list.len() >= 2 {
                    let h = match trimmed_string(get(&list[0], "name")) {
                        Some(h) => h,
                        None => return None,
                    };
                    let a = match trimmed_string(get(&list[1], "name")) {
                        Some(a) => a,
                        None => return None,
                    };
                    if h.as_str().unicode_len() > 0 && a.as_str().unicode_len() > 0 {
                        Some((h, a))
                    } else {
                        fallback_team_names(event)
                    }
                } else {
                    fallback_team_names(event)
                }
            },
            _ => fallback_team_names(event),
        };
        match teams {
            Some((h, a)) => Some((id, h, a)),
            None => None,
        }
    }
}

} // verus!
