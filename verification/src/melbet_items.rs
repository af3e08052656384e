//! Melbet: the events and prices read from one item that the page script
//! collected (a card of the DOM, or an event of the sportsbook HTTP API).

use crate::json::{array_field, array_of, jget, opt_text_field, text_of, JsonNumber, JsonValue};
use crate::melbet_rules::{
    absolute_event_url, is_valid_competitor, melbet_valid_competitor, sport_named, MelbetParser,
};
use crate::model::{odd_views, Event, EventView, Odd, OddView, OddsType};
use crate::text::{push_char, push_str, string_of, trim, trim_str};
use vstd::prelude::*;

verus! {

/// Whether a price, read as an `f64`, lies in `1.01..=100.0`. An integer
/// does where it is 2 to 100; for the bits of an `f64` (which, with a clear
/// sign bit, order as the values they encode), 1.01 is
/// `0x3FF0_28F5_C28F_5C29` and 100.0 is `0x4059_0000_0000_0000`; a NaN or a
/// negative value lies above the latter.
pub open spec fn in_price_band(n: JsonNumber) -> bool {
    match n {
        JsonNumber::PosInt(k) => 2 <= k <= 100,
        JsonNumber::NegInt(k) => 2 <= k <= 100,
        JsonNumber::FloatBits(b) => 0x3FF0_28F5_C28F_5C29u64 <= b <= 0x4059_0000_0000_0000u64,
    }
}

/// The numbers among `items` that lie in the price band, in order.
pub open spec fn banded_prices(items: Seq<JsonValue>) -> Seq<JsonNumber>
    decreases items.len(),
{
    if items.len() == 0 {
        Seq::empty()
    } else {
        let rest = banded_prices(items.drop_last());
        match items.last() {
            JsonValue::Number(n) => if in_price_band(n) {
                rest.push(n)
            } else {
                rest
            },
            _ => rest,
        }
    }
}

/// `s` with each space turned into `_`.
pub open spec fn spaces_underscored(s: Seq<char>) -> Seq<char> {
    s.map_values(|c: char| if c == ' ' { '_' } else { c })
}

/// The item's own id (`eventId`, trimmed) where it has a non-blank one; else
/// one made of the section and the two competitors.
pub open spec fn headless_raw_id(
    item: JsonValue,
    live: bool,
    home: Seq<char>,
    away: Seq<char>,
) -> Seq<char> {
    let id = text_of(jget(item, "eventId"@));
    if id is Some && trim(id->0).len() > 0 {
        trim(id->0)
    } else {
        (if live {
            "live"@
        } else {
            "line"@
        }) + "-"@ + spaces_underscored(home) + "-"@ + spaces_underscored(away)
    }
}

/// The page the item came from: its non-blank `sourceUrl`, else the page
/// probed.
pub open spec fn headless_source(item: JsonValue, probe_url: Seq<char>) -> Seq<char> {
    let s = text_of(jget(item, "sourceUrl"@));
    if s is Some && trim(s->0).len() > 0 {
        s->0
    } else {
        probe_url
    }
}

/// The event an item describes, with its two competitors already trimmed.
pub open spec fn headless_event(
    item: JsonValue,
    live: bool,
    probe_url: Seq<char>,
    home: Seq<char>,
    away: Seq<char>,
) -> EventView {
    let source = headless_source(item, probe_url);
    EventView {
        id: "melbet-"@ + headless_raw_id(item, live, home, away),
        sport: sport_named(
            match text_of(jget(item, "sport"@)) {
                Some(s) => s,
                None => Seq::empty(),
            },
            source,
        ),
        league: trim(
            match text_of(jget(item, "league"@)) {
                Some(s) => s,
                None => Seq::empty(),
            },
        ),
        home_team: home,
        away_team: away,
        start_time_ms: None,
        is_live: live,
        bookmaker_slug: "melbet"@,
        raw_url: Some(
            match text_of(jget(item, "href"@)) {
                Some(h) => absolute_event_url(h, source),
                None => source,
            },
        ),
        extra: Seq::empty(),
    }
}

/// One price of an item's event.
pub open spec fn headless_odd(
    event_id: Seq<char>,
    market: Seq<char>,
    selection: Seq<char>,
    odds_type: OddsType,
    price: JsonNumber,
    ts: i64,
) -> OddView {
    OddView {
        id: event_id + "-"@ + selection,
        event_id,
        bookmaker_slug: "melbet"@,
        market,
        selection,
        price,
        odds_type,
        line: None,
        timestamp_ms: ts,
    }
}

/// The prices of an event with at least two banded prices: three make a
/// `1X2` market (home, draw, away), fewer a `Moneyline` (home, away).
pub open spec fn headless_odds(event_id: Seq<char>, p: Seq<JsonNumber>, ts: i64) -> Seq<OddView> {
    if p.len() >= 3 {
        seq![
            headless_odd(event_id, "1X2"@, "1"@, OddsType::Home, p[0], ts),
            headless_odd(event_id, "1X2"@, "X"@, OddsType::Draw, p[1], ts),
            headless_odd(event_id, "1X2"@, "2"@, OddsType::Away, p[2], ts),
        ]
    } else {
        seq![
            headless_odd(event_id, "Moneyline"@, "1"@, OddsType::Home, p[0], ts),
            headless_odd(event_id, "Moneyline"@, "2"@, OddsType::Away, p[1], ts),
        ]
    }
}

/// What an item gives, read at `ts`: nothing unless it names two valid
/// competitors (once trimmed) and holds an `odds` array with at least two
/// banded prices; else its event and that event's prices.
pub open spec fn headless_item(
    item: JsonValue,
    live: bool,
    probe_url: Seq<char>,
    ts: i64,
) -> Option<(EventView, Seq<OddView>)> {
    let h = text_of(jget(item, "home"@));
    let a = text_of(jget(item, "away"@));
    if h is None || a is None {
        None
    } else {
        let home = trim(h->0);
        let away = trim(a->0);
        if !melbet_valid_competitor(home) || !melbet_valid_competitor(away) {
            None
        } else {
            match array_of(jget(item, "odds"@)) {
                None => None,
                Some(arr) => {
                    let p = banded_prices(arr);
                    if p.len() < 2 {
                        None
                    } else {
                        let ev = headless_event(item, live, probe_url, home, away);
                        Some((ev, headless_odds(ev.id, p, ts)))
                    }
                },
            }
        }
    }
}

/// Every banded price lies in the band.
proof fn lemma_banded_prices_in_band(items: Seq<JsonValue>)
    ensures
        forall|i: int| 0 <= i < banded_prices(items).len() ==> in_price_band(#[trigger] banded_prices(items)[i]),
    decreases items.len(),
{
    if items.len() > 0 {
        lemma_banded_prices_in_band(items.drop_last());
        let rest = banded_prices(items.drop_last());
        assert forall|i: int| 0 <= i < banded_prices(items).len() implies in_price_band(
            #[trigger] banded_prices(items)[i],
        ) by {
            if i < rest.len() {
                assert(banded_prices(items)[i] == rest[i]);
            }
        }
    }
}

/// What an item gives hangs together: two or three prices, all on its
/// event, under distinct ids, each within `1.01..=100.0`.
pub proof fn law_headless_prices_belong_to_event(item: JsonValue, live: bool, probe_url: Seq<char>, ts: i64)
    requires
        headless_item(item, live, probe_url, ts) is Some,
    ensures
        ({
            let (e, os) = headless_item(item, live, probe_url, ts)->0;
            &&& 2 <= os.len() <= 3
            &&& forall|i: int| 0 <= i < os.len() ==> (#[trigger] os[i]).event_id == e.id
            &&& forall|i: int| 0 <= i < os.len() ==> in_price_band((#[trigger] os[i]).price)
            &&& forall|i: int, j: int| 0 <= i < j < os.len() ==> os[i].id != os[j].id
        }),
{
    reveal_strlit("1");
    reveal_strlit("X");
    reveal_strlit("2");
    reveal_strlit("-");
    let arr = array_of(jget(item, "odds"@))->0;
    lemma_banded_prices_in_band(arr);
    let (e, os) = headless_item(item, live, probe_url, ts)->0;
    let p = banded_prices(arr);
    assert(in_price_band(p[0]) && in_price_band(p[1]));
    if p.len() >= 3 {
        assert(in_price_band(p[2]));
    }
    assert forall|i: int, j: int| 0 <= i < j < os.len() implies os[i].id != os[j].id by {
        let sel_i = os[i].selection;
        let sel_j = os[j].selection;
        assert(os[i].id == e.id + "-"@ + sel_i);
        assert(os[j].id == e.id + "-"@ + sel_j);
        assert(sel_i.len() == 1 && sel_j.len() == 1 && sel_i[0] != sel_j[0]);
        let k: int = e.id.len() as int + 1;
        assert((e.id + "-"@ + sel_i)[k] == sel_i[0]);
        assert((e.id + "-"@ + sel_j)[k] == sel_j[0]);
    }
}

/// Each side of an item's match result carries its own banded price, in
/// the order the item lists them: with three or more banded prices the
/// home side carries the first, the draw the second and the away side the
/// third, all in the `1X2` market; with two, the home side the first and
/// the away side the second, in the `Moneyline` market. Each side is
/// priced once.
pub proof fn law_headless_sides_carry_their_prices(item: JsonValue, live: bool, probe_url: Seq<char>, ts: i64)
    requires
        headless_item(item, live, probe_url, ts) is Some,
    ensures
        ({
            let os = (headless_item(item, live, probe_url, ts)->0).1;
            let p = banded_prices(array_of(jget(item, "odds"@))->0);
            &&& p.len() >= 3 ==> {
                &&& os.len() == 3
                &&& forall|i: int| 0 <= i < os.len() ==> (#[trigger] os[i]).market == "1X2"@
                &&& forall|i: int|
                    0 <= i < os.len() && (#[trigger] os[i]).odds_type == OddsType::Home ==> os[i].price == p[0]
                &&& forall|i: int|
                    0 <= i < os.len() && (#[trigger] os[i]).odds_type == OddsType::Draw ==> os[i].price == p[1]
                &&& forall|i: int|
                    0 <= i < os.len() && (#[trigger] os[i]).odds_type == OddsType::Away ==> os[i].price == p[2]
            }
            &&& p.len() < 3 ==> {
                &&& p.len() == 2
                &&& os.len() == 2
                &&& forall|i: int| 0 <= i < os.len() ==> (#[trigger] os[i]).market == "Moneyline"@
                &&& forall|i: int|
                    0 <= i < os.len() && (#[trigger] os[i]).odds_type == OddsType::Home ==> os[i].price == p[0]
                &&& forall|i: int|
                    0 <= i < os.len() && (#[trigger] os[i]).odds_type == OddsType::Away ==> os[i].price == p[1]
                &&& forall|i: int| 0 <= i < os.len() ==> (#[trigger] os[i]).odds_type != OddsType::Draw
            }
            &&& forall|k: OddsType|
                #![trigger kind_count(os, k)]
                (k == OddsType::Home || k == OddsType::Away) ==> kind_count(os, k) == 1
        }),
{
    let os = (headless_item(item, live, probe_url, ts)->0).1;
    let p = banded_prices(array_of(jget(item, "odds"@))->0);
    reveal_with_fuel(kind_count, 4);
    if os.len() == 2 {
        assert(os.drop_last().drop_last() =~= Seq::<OddView>::empty());
    } else {
        assert(os.drop_last().drop_last().drop_last() =~= Seq::<OddView>::empty());
    }
}

/// How many of `os` are of kind `k`.
pub open spec fn kind_count(os: Seq<OddView>, k: OddsType) -> nat
    decreases os.len(),
{
    if os.len() == 0 {
        0
    } else {
        kind_count(os.drop_last(), k) + if os.last().odds_type == k {
            1nat
        } else {
            0nat
        }
    }
}

/// Whether `n`, read as an `f64`, lies in `1.01..=100.0`.
pub fn number_in_price_band(n: JsonNumber) -> (r: bool)
    ensures
        r == in_price_band(n),
{
    match n {
        JsonNumber::PosInt(k) => 2 <= k && k <= 100,
        JsonNumber::NegInt(k) => 2 <= k && k <= 100,
        JsonNumber::FloatBits(b) => 0x3FF0_28F5_C28F_5C29u64 <= b && b <= 0x4059_0000_0000_0000u64,
    }
}

/// The numbers among `items` that lie in the price band, in order.
pub fn banded_prices_of(items: &Vec<JsonValue>) -> (r: Vec<JsonNumber>)
    ensures
        r@ == banded_prices(items@),
{
    let mut out: Vec<JsonNumber> = Vec::new();
    let mut i: usize = 0;
    while i < items.len()
        invariant
            i <= items@.len(),
            out@ == banded_prices(items@.take(i as int)),
        decreases items@.len() - i,
    {
        let ghost before = items@.take(i as int);
        let ghost after = items@.take(i + 1);
        assert(after.drop_last() =~= before);
        assert(after.last() == items@[i as int]);
        match &items[i] {
            JsonValue::Number(n) => {
                if number_in_price_band(*n) {
                    out.push(*n);
                }
            },
            _ => {},
        }
        i = i + 1;
    }
    assert(items@.take(items@.len() as int) =~= items@);
    out
}

/// Appends `s` to `out` with each space turned into `_`.
fn push_spaces_underscored(out: &mut String, s: &[char])
    ensures
        final(out)@ == old(out)@ + spaces_underscored(s@),
{
    let mut i: usize = 0;
    while i < s.len()
        invariant
            i <= s@.len(),
            out@ == old(out)@ + spaces_underscored(s@.take(i as int)),
        decreases s@.len() - i,
    {
        let c = s[i];
        let d = if c == ' ' {
            '_'
        } else {
            c
        };
        push_char(out, d);
        assert(spaces_underscored(s@.take(i + 1)) =~= spaces_underscored(s@.take(i as int)).push(
            d,
        ));
        i = i + 1;
    }
    assert(s@.take(s@.len() as int) =~= s@);
}

/// One price of an event, as `headless_odd` describes it.
fn headless_price(
    event_id: &str,
    market: &str,
    selection: &str,
    odds_type: OddsType,
    price: JsonNumber,
    ts: i64,
) -> (r: Odd)
    ensures
        r@ == headless_odd(event_id@, market@, selection@, odds_type, price, ts),
{
    let mut id = String::new();
    push_str(&mut id, event_id);
    push_str(&mut id, "-");
    push_str(&mut id, selection);
    Odd {
        id,
        event_id: event_id.to_owned(),
        bookmaker_slug: "melbet".to_owned(),
        market: market.to_owned(),
        selection: selection.to_owned(),
        price,
        odds_type,
        line: None,
        timestamp_ms: ts,
    }
}

impl MelbetParser {
    /// The event and prices of one collected item, read at `ts`
    /// (milliseconds since the Unix epoch); `None` where the item names no
    /// two valid competitors or shows fewer than two prices in
    /// `1.01..=100.0`.
    pub fn parse_headless_item_at(item: &JsonValue, fallback_live: bool, probe_url: &str, ts: i64) -> (r:
        Option<(Event, Vec<Odd>)>)
        ensures
            match r {
                Some((e, o)) => headless_item(*item, fallback_live, probe_url@, ts) == Some(
                    (e@, odd_views(o@)),
                ),
                None => headless_item(*item, fallback_live, probe_url@, ts) is None,
            },
    {
        let h = match opt_text_field(item, "home") {
            Some(h) => h,
            None => return None,
        };
        let a = match opt_text_field(item, "away") {
            Some(a) => a,
            None => return None,
        };
        let home_chars = trim_str(h.as_str());
        let away_chars = trim_str(a.as_str());
        let home = string_of(home_chars.as_slice());
        let away = string_of(away_chars.as_slice());
        if !is_valid_competitor(home.as_str()) || !is_valid_competitor(away.as_str()) {
            return None;
        }
        let arr = match array_field(item, "odds") {
            Some(arr) => arr,
            None => return None,
        };
        let prices = banded_prices_of(arr);
        if prices.len() < 2 {
            return None;
        }
        let ghost ev = headless_event(*item, fallback_live, probe_url@, home@, away@);
        // the id
        let mut event_id = String::new();
        push_str(&mut event_id, "melbet-");
        let own_id = opt_text_field(item, "eventId");
        let own_trimmed: Option<Vec<char>> = match &own_id {
            Some(s) => {
                let t = trim_str(s.as_str());
                if t.len() > 0 {
                    Some(t)
                } else {
                    None
                }
            },
            None => None,
        };
        match own_trimmed {
            Some(t) => {
                let t_str = string_of(t.as_slice());
                push_str(&mut event_id, t_str.as_str());
            },
            None => {
                if fallback_live {
                    push_str(&mut event_id, "live");
                } else {
                    push_str(&mut event_id, "line");
                }
                push_str(&mut event_id, "-");
                push_spaces_underscored(&mut event_id, home_chars.as_slice());
                push_str(&mut event_id, "-");
                push_spaces_underscored(&mut event_id, away_chars.as_slice());
            },
        }
        assert(event_id@ == ev.id);
        // the page it came from
        let src_field = opt_text_field(item, "sourceUrl");
        let source: String = match src_field {
            Some(s) => {
                let t = trim_str(s.as_str());
                if t.len() > 0 {
                    s
                } else {
                    probe_url.to_owned()
                }
            },
            None => probe_url.to_owned(),
        };
        assert(source@ == headless_source(*item, probe_url@));
        let sport = match opt_text_field(item, "sport") {
            Some(s) => MelbetParser::infer_sport(s.as_str(), source.as_str()),
            None => MelbetParser::infer_sport("", source.as_str()),
        };
        proof {
            reveal_strlit("");
        }
        let league = match opt_text_field(item, "league") {
            Some(s) => {
                let t = trim_str(s.as_str());
                string_of(t.as_slice())
            },
            None => {
                let t = trim_str("");
                string_of(t.as_slice())
            },
        };
        let raw_url = match opt_text_field(item, "href") {
            Some(href) => MelbetParser::normalize_url(href.as_str(), source.as_str()),
            None => source.clone(),
        };
        let event = Event {
            id: event_id,
            sport,
            league,
            home_team: home,
            away_team: away,
            start_time_ms: None,
            is_live: fallback_live,
            bookmaker_slug: "melbet".to_owned(),
            raw_url: Some(raw_url),
            extra: Vec::new(),
        };
        assert(event@.extra =~= Seq::<crate::json::JsonMember>::empty());
        assert(event@.sport == ev.sport);
        assert(event@.league == ev.league);
        assert(event@.raw_url == ev.raw_url);
        assert(event@.home_team == ev.home_team);
        assert(event@ == ev);
        let mut odds: Vec<Odd> = Vec::new();
        if prices.len() >= 3 {
            odds.push(headless_price(event.id.as_str(), "1X2", "1", OddsType::Home, prices[0], ts));
            odds.push(headless_price(event.id.as_str(), "1X2", "X", OddsType::Draw, prices[1], ts));
            odds.push(headless_price(event.id.as_str(), "1X2", "2", OddsType::Away, prices[2], ts));
        } else {
            odds.push(
                headless_price(event.id.as_str(), "Moneyline", "1", OddsType::Home, prices[0], ts),
            );
            odds.push(
                headless_price(event.id.as_str(), "Moneyline", "2", OddsType::Away, prices[1], ts),
            );
        }
        assert(odd_views(odds@) =~= headless_odds(ev.id, prices@, ts));
        Some((event, odds))
    }

    /// The event and prices of one collected item, stamped with the time of
    /// reading; `None` where the item names no two valid competitors or
    /// shows fewer than two prices in `1.01..=100.0`.
    pub fn parse_headless_item(item: &JsonValue, fallback_live: bool, probe_url: &str) -> (r:
        Option<(Event, Vec<Odd>)>)
        ensures
            match r {
                Some((e, o)) => exists|ts: i64| headless_item(*item, fallback_live, probe_url@, ts) == Some(
                    (e@, odd_views(o@)),
                ),
                None => forall|ts: i64| headless_item(*item, fallback_live, probe_url@, ts) is None,
            },
    {
        let now = crate::clock::utc_now_millis();
        let r = Self::parse_headless_item_at(item, fallback_live, probe_url, now);
        proof {
            assert forall|ts: i64| (headless_item(*item, fallback_live, probe_url@, ts) is None)
                == (headless_item(*item, fallback_live, probe_url@, now) is None) by {}
        }
        r
    }
}

} // verus!
