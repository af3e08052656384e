//! Sportbet: the events and prices of its fixtures-tree API, read from the
//! `fixtures` object, the markets of the `m` object and the league list
//! `l`.

use crate::json::{get, items_of, jget, number_of, text_of, text_or_empty, u64_of, JsonNumber, JsonValue};
use crate::ligastavok::{first_of, get_opt, jget_opt, or_else};
use crate::model::{event_views, odd_views, Event, EventView, Odd, OddView, OddsType};
use crate::olimp::above_one_bits;
use crate::readiness::{ParserReadiness, ReadinessView};
use crate::registry::BookmakerParser;
use crate::sport::Sport;
use crate::text::{has_infix, owned, push_decimal, push_str, str_contains, str_eq, to_lowercase, unicode_lower, dec};
use std::sync::Arc;
use vstd::prelude::*;

verus! {

/// The Sportbet parser: the shared HTTP client and the live and prematch
/// feed addresses.
pub struct SportbetParser {
    pub client: Arc<reqwest::Client>,
    pub live_url: String,
    pub prematch_url: String,
}

impl SportbetParser {
    /// A parser on `client` for the live fixtures tree and the full
    /// prematch tree.
    pub fn new(client: Arc<reqwest::Client>) -> (r: SportbetParser)
        ensures
            r.client == client,
            r.live_url@ == "https://sportbet.ru/sport/v1/fixtures-tree-live"@,
            r.prematch_url@ == "https://sportbet.ru/sport/v1/all-fixtures-tree?period=ALL"@,
    {
        SportbetParser {
            client,
            live_url: owned("https://sportbet.ru/sport/v1/fixtures-tree-live"),
            prematch_url: owned("https://sportbet.ru/sport/v1/all-fixtures-tree?period=ALL"),
        }
    }

    /// The site's root address.
    pub fn base_url(&self) -> (r: &str)
        ensures
            r@ == "https://sportbet.ru"@,
    {
        "https://sportbet.ru"
    }

    /// The browser identity the parser presents.
    pub fn user_agent(&self) -> (r: &str)
        ensures
            r@ == "Mozilla/5.0 (Windows NT 10.0; Win64; x64) AppleWebKit/537.36 (KHTML, like Gecko) Chrome/120.0.0.0 Safari/537.36"@,
    {
        "Mozilla/5.0 (Windows NT 10.0; Win64; x64) AppleWebKit/537.36 (KHTML, like Gecko) Chrome/120.0.0.0 Safari/537.36"
    }
}

impl BookmakerParser for SportbetParser {
    open spec fn name_spec(&self) -> Seq<char> {
        "Sportbet"@
    }

    open spec fn slug_spec(&self) -> Seq<char> {
        "sportbet"@
    }

    open spec fn enabled_spec(&self) -> bool {
        true
    }

    open spec fn readiness_spec(&self) -> Option<ReadinessView> {
        None
    }

    fn name(&self) -> (r: &str) {
        "Sportbet"
    }

    fn slug(&self) -> (r: &str) {
        "sportbet"
    }

    fn is_enabled(&self) -> (r: bool) {
        true
    }

    fn readiness(&self) -> (r: Option<ParserReadiness>) {
        None
    }
}

/// The sport a Sportbet sport id names.
pub open spec fn sportbet_sport(id: u64) -> Sport {
    if id == 1 || id == 3 {
        Sport::Football
    } else if id == 6 || id == 31118 {
        Sport::Tennis
    } else if id == 9 {
        Sport::Hockey
    } else if id == 12 || id == 129 {
        Sport::Basketball
    } else if id == 15 {
        Sport::Volleyball
    } else if id == 24 {
        Sport::Badminton
    } else if id == 30 {
        Sport::Baseball
    } else if id == 46 {
        Sport::WaterPolo
    } else if id == 49 {
        Sport::Handball
    } else if id == 63 {
        Sport::Darts
    } else if id == 72 {
        Sport::Cricket
    } else if id == 89 {
        Sport::TableTennis
    } else if id == 107 {
        Sport::Rugby
    } else if id == 134 {
        Sport::Futsal
    } else {
        Sport::Other
    }
}

/// The kind of a price by its lowercase selection `l` and market `m`:
/// over or under on totals, handicap on handicaps, else by the selection.
pub open spec fn sportbet_kind(l: Seq<char>, m: Seq<char>) -> OddsType {
    let total = has_infix(m, "total"@) || has_infix(m, "тотал"@);
    if total && (has_infix(l, "over"@) || has_infix(l, "больше"@) || has_infix(l, "tb"@)) {
        OddsType::Over
    } else if total && (has_infix(l, "under"@) || has_infix(l, "меньше"@) || has_infix(l, "tm"@)) {
        OddsType::Under
    } else if has_infix(m, "handicap"@) || has_infix(m, "фора"@) {
        OddsType::Handicap
    } else if l == "1"@ || l == "home"@ || l == "п1"@ {
        OddsType::Home
    } else if l == "x"@ || l == "draw"@ || l == "ничья"@ {
        OddsType::Draw
    } else if l == "2"@ || l == "away"@ || l == "п2"@ {
        OddsType::Away
    } else if l == "over"@ || l == "больше"@ || l == "тб"@ || l == "tb"@ {
        OddsType::Over
    } else if l == "under"@ || l == "меньше"@ || l == "тм"@ || l == "tm"@ {
        OddsType::Under
    } else {
        OddsType::Custom
    }
}

/// Whether a price, read as an `f64`, is above 1.0.
pub open spec fn number_above_one(n: JsonNumber) -> bool {
    match n {
        JsonNumber::PosInt(k) => k >= 2,
        JsonNumber::NegInt(k) => k >= 2,
        JsonNumber::FloatBits(b) => above_one_bits(b),
    }
}

/// A fixture's competitors (the names of its first two `c` entries), its
/// league id (`tid`, else `l`; 0 where none), its sport id (`sid`; 1 where
/// none) and its league name (`tn`, else `l`; empty where none).
pub open spec fn fixture_info(d: JsonValue) -> Option<(Seq<char>, Seq<char>, u64, u64, Seq<char>)> {
    match jget(d, "c"@) {
        Some(JsonValue::Array(cs)) => if cs@.len() < 2 {
            None
        } else {
            let h = text_of(jget(cs@[0], "n"@));
            let a = text_of(jget(cs@[1], "n"@));
            if h is None || a is None {
                None
            } else {
                Some(
                    (
                        h->0,
                        a->0,
                        match u64_of(or_else(jget(d, "tid"@), jget(d, "l"@))) {
                            Some(x) => x,
                            None => 0,
                        },
                        match u64_of(jget(d, "sid"@)) {
                            Some(x) => x,
                            None => 1,
                        },
                        text_or_empty(or_else(jget(d, "tn"@), jget(d, "l"@))),
                    ),
                )
            }
        },
        _ => None,
    }
}

/// The league name the last entry of `items` with id `id` gives (the list
/// read into a map, later entries winning).
pub open spec fn league_lookup(items: Seq<JsonValue>, id: u64) -> Option<Seq<char>>
    decreases items.len(),
{
    if items.len() == 0 {
        None
    } else if u64_of(jget(items.last(), "i"@)) == Some(id) {
        Some(text_or_empty(jget(items.last(), "l"@)))
    } else {
        league_lookup(items.drop_last(), id)
    }
}

/// The prices of a list of selections of the market `mname` of the event
/// `key`, read at `ts`, in order: one per selection with a string `n` and
/// a number `o` above 1.0.
pub open spec fn sel_prices(key: Seq<char>, mname: Seq<char>, sels: Seq<JsonValue>, ts: i64) -> Seq<OddView>
    decreases sels.len(),
{
    if sels.len() == 0 {
        Seq::empty()
    } else {
        let rest = sel_prices(key, mname, sels.drop_last(), ts);
        let s = sels.last();
        let n = text_of(jget(s, "n"@));
        let o = number_of(jget(s, "o"@));
        if n is Some && o is Some && number_above_one(o->0) {
            rest.push(
                OddView {
                    id: key + "-"@ + mname + "-"@ + n->0,
                    event_id: key,
                    bookmaker_slug: "sportbet"@,
                    market: mname,
                    selection: n->0,
                    price: o->0,
                    odds_type: sportbet_kind(unicode_lower(n->0), unicode_lower(mname)),
                    line: None,
                    timestamp_ms: ts,
                },
            )
        } else {
            rest
        }
    }
}

/// The prices of a market's items (each with its `sel` list), in order.
pub open spec fn item_prices(key: Seq<char>, mname: Seq<char>, items: Seq<JsonValue>, ts: i64) -> Seq<OddView>
    decreases items.len(),
{
    if items.len() == 0 {
        Seq::empty()
    } else {
        item_prices(key, mname, items.drop_last(), ts) + sel_prices(
            key,
            mname,
            items_of(jget(items.last(), "sel"@)),
            ts,
        )
    }
}

/// The name of a market (`unknown` where it has none).
pub open spec fn market_name_of(mk: JsonValue) -> Seq<char> {
    match text_of(jget(mk, "n"@)) {
        Some(n) => n,
        None => "unknown"@,
    }
}

/// The prices of a list of markets of the event `key`, in order.
pub open spec fn market_prices(key: Seq<char>, markets: Seq<JsonValue>, ts: i64) -> Seq<OddView>
    decreases markets.len(),
{
    if markets.len() == 0 {
        Seq::empty()
    } else {
        market_prices(key, markets.drop_last(), ts) + item_prices(
            key,
            market_name_of(markets.last()),
            items_of(jget(markets.last(), "m"@)),
            ts,
        )
    }
}

/// The event a fixture describes, keyed `fid` in the `fixtures` object.
pub open spec fn fixture_event(fid: Seq<char>, d: JsonValue, leagues: Seq<JsonValue>, live: bool) -> Seq<EventView> {
    match fixture_info(d) {
        None => Seq::empty(),
        Some((h, a, lid, sid, lname)) => seq![
            EventView {
                id: "sportbet-"@ + fid,
                sport: sportbet_sport(sid),
                league: if lname.len() > 0 {
                    lname
                } else {
                    match league_lookup(leagues, lid) {
                        Some(n) => n,
                        None => if live {
                            "Live"@
                        } else {
                            "Prematch"@
                        },
                    }
                },
                home_team: h,
                away_team: a,
                start_time_ms: None,
                is_live: live,
                bookmaker_slug: "sportbet"@,
                raw_url: None,
                extra: Seq::empty(),
            },
        ],
    }
}

/// The markets of the fixture keyed `fid`, from the `m` object.
pub open spec fn fixture_markets(matches: Option<JsonValue>, fid: Seq<char>) -> Seq<JsonValue> {
    items_of(jget_opt(matches, fid))
}

/// The prices of the fixture keyed `fid`, where it describes an event.
pub open spec fn fixture_prices(fid: Seq<char>, d: JsonValue, matches: Option<JsonValue>, ts: i64) -> Seq<OddView> {
    match fixture_info(d) {
        None => Seq::empty(),
        Some(_) => market_prices("sportbet-"@ + fid, fixture_markets(matches, fid), ts),
    }
}

/// The events of a list of fixtures, in order.
pub open spec fn fixtures_events(fs: Seq<crate::json::JsonMember>, leagues: Seq<JsonValue>, live: bool) -> Seq<EventView>
    decreases fs.len(),
{
    if fs.len() == 0 {
        Seq::empty()
    } else {
        fixtures_events(fs.drop_last(), leagues, live) + fixture_event(fs.last().key@, fs.last().value, leagues, live)
    }
}

/// The prices of a list of fixtures, in order.
pub open spec fn fixtures_prices(fs: Seq<crate::json::JsonMember>, matches: Option<JsonValue>, ts: i64) -> Seq<OddView>
    decreases fs.len(),
{
    if fs.len() == 0 {
        Seq::empty()
    } else {
        fixtures_prices(fs.drop_last(), matches, ts) + fixture_prices(fs.last().key@, fs.last().value, matches, ts)
    }
}

/// The fixtures of an answer (none where `fixtures` is no object).
pub open spec fn answer_fixtures(json: JsonValue) -> Seq<crate::json::JsonMember> {
    match jget(json, "fixtures"@) {
        Some(JsonValue::Object(fs)) => fs@,
        _ => Seq::empty(),
    }
}

/// The `m` object of an answer, where it is one.
pub open spec fn answer_matches(json: JsonValue) -> Option<JsonValue> {
    match jget(json, "m"@) {
        Some(JsonValue::Object(ms)) => Some(JsonValue::Object(ms)),
        _ => None,
    }
}

impl SportbetParser {
    /// The sport a Sportbet sport id names.
    pub fn sport_id_to_sport(id: u64) -> (r: Sport)
        ensures
            r == sportbet_sport(id),
    {
        if id == 1 || id == 3 {
            Sport::Football
        } else if id == 6 || id == 31118 {
            Sport::Tennis
        } else if id == 9 {
            Sport::Hockey
        } else if id == 12 || id == 129 {
            Sport::Basketball
        } else if id == 15 {
            Sport::Volleyball
        } else if id == 24 {
            Sport::Badminton
        } else if id == 30 {
            Sport::Baseball
        } else if id == 46 {
            Sport::WaterPolo
        } else if id == 49 {
            Sport::Handball
        } else if id == 63 {
            Sport::Darts
        } else if id == 72 {
            Sport::Cricket
        } else if id == 89 {
            Sport::TableTennis
        } else if id == 107 {
            Sport::Rugby
        } else if id == 134 {
            Sport::Futsal
        } else {
            Sport::Other
        }
    }

    /// The kind of a price by its selection and market.
    pub fn selection_to_odds_type(selection: &str, market_name: &str) -> (r: OddsType)
        ensures
            r == sportbet_kind(unicode_lower(selection@), unicode_lower(market_name@)),
    {
        let lower_s = to_lowercase(selection);
        let lower_m = to_lowercase(market_name);
        let l = lower_s.as_str();
        let m = lower_m.as_str();
        let total = str_contains(m, "total") || str_contains(m, "тотал");
        if total && (str_contains(l, "over") || str_contains(l, "больше") || str_contains(l, "tb")) {
            OddsType::Over
        } else if total && (str_contains(l, "under") || str_contains(l, "меньше") || str_contains(l, "tm")) {
            OddsType::Under
        } else if str_contains(m, "handicap") || str_contains(m, "фора") {
            OddsType::Handicap
        } else if str_eq(l, "1") || str_eq(l, "home") || str_eq(l, "п1") {
            OddsType::Home
        } else if str_eq(l, "x") || str_eq(l, "draw") || str_eq(l, "ничья") {
            OddsType::Draw
        } else if str_eq(l, "2") || str_eq(l, "away") || str_eq(l, "п2") {
            OddsType::Away
        } else if str_eq(l, "over") || str_eq(l, "больше") || str_eq(l, "тб") || str_eq(l, "tb") {
            OddsType::Over
        } else if str_eq(l, "under") || str_eq(l, "меньше") || str_eq(l, "тм") || str_eq(l, "tm") {
            OddsType::Under
        } else {
            OddsType::Custom
        }
    }

    /// A fixture's competitors, league id, sport id and league name, where
    /// it names two competitors.
    pub fn extract_event_info(data: &JsonValue) -> (r: Option<(String, String, u64, u64, String)>)
        ensures
            match r {
                Some((h, a, lid, sid, ln)) => fixture_info(*data) == Some((h@, a@, lid, sid, ln@)),
                None => fixture_info(*data) is None,
            },
    {
        let cs = match get(data, "c") {
            Some(JsonValue::Array(cs)) => cs,
            _ => return None,
        };
        if cs.len() < 2 {
            return None;
        }
        let h = match get(&cs[0], "n") {
            Some(JsonValue::Str(s)) => s.clone(),
            _ => return None,
        };
        let a = match get(&cs[1], "n") {
            Some(JsonValue::Str(s)) => s.clone(),
            _ => return None,
        };
        let lid = match first_of(get(data, "tid"), get(data, "l")) {
            Some(JsonValue::Number(JsonNumber::PosInt(x))) => *x,
            _ => 0,
        };
        let sid = match get(data, "sid") {
            Some(JsonValue::Number(JsonNumber::PosInt(x))) => *x,
            _ => 1,
        };
        let ln = match first_of(get(data, "tn"), get(data, "l")) {
            Some(JsonValue::Str(s)) => s.clone(),
            _ => String::new(),
        };
        assert(ln@ == text_or_empty(or_else(jget(*data, "tn"@), jget(*data, "l"@))));
        Some((h, a, lid, sid, ln))
    }
}

/// The league name the last entry of `items` with id `id` gives.
fn lookup_league(items: &Vec<JsonValue>, id: u64) -> (r: Option<String>)
    ensures
        match r {
            Some(n) => league_lookup(items@, id) == Some(n@),
            None => league_lookup(items@, id) is None,
        },
{
    let mut i: usize = items.len();
    assert(items@.take(items@.len() as int) =~= items@);
    while i > 0
        invariant
            i <= items@.len(),
            league_lookup(items@, id) == league_lookup(items@.take(i as int), id),
        decreases i,
    {
        let ghost pre = items@.take(i as int);
        assert(pre.last() == items@[i - 1]);
        assert(pre.drop_last() =~= items@.take(i - 1));
        match get(&items[i - 1], "i") {
            Some(JsonValue::Number(JsonNumber::PosInt(x))) => {
                if *x == id {
                    let n: String = match get(&items[i - 1], "l") {
                        Some(JsonValue::Str(s)) => s.clone(),
                        _ => String::new(),
                    };
                    assert(n@ == text_or_empty(jget(items@[i - 1], "l"@)));
                    return Some(n);
                }
            },
            _ => {},
        }
        i = i - 1;
    }
    None
}

/// Appends the prices of the selections `sels` to `out`.
fn push_sel_prices(key: &str, mname: &str, sels: &Vec<JsonValue>, ts: i64, out: &mut Vec<Odd>)
    ensures
        odd_views(final(out)@) == odd_views(old(out)@) + sel_prices(key@, mname@, sels@, ts),
{
    let mut i: usize = 0;
    assert(odd_views(out@) =~= odd_views(old(out)@) + sel_prices(key@, mname@, sels@.take(0), ts));
    while i < sels.len()
        invariant
            i <= sels@.len(),
            odd_views(out@) == odd_views(old(out)@) + sel_prices(key@, mname@, sels@.take(i as int), ts),
        decreases sels@.len() - i,
    {
        let ghost before = out@;
        assert(sels@.take(i + 1).drop_last() =~= sels@.take(i as int));
        assert(sels@.take(i + 1).last() == sels@[i as int]);
        let s = &sels[i];
        let n = match get(s, "n") {
            Some(JsonValue::Str(t)) => Some(t),
            _ => None,
        };
        let o = match get(s, "o") {
            Some(JsonValue::Number(x)) => Some(*x),
            _ => None,
        };
        match (n, o) {
            (Some(n), Some(o)) => {
                let above = match o {
                    JsonNumber::PosInt(k) => k >= 2,
                    JsonNumber::NegInt(k) => k >= 2,
                    JsonNumber::FloatBits(b) => 0x3FF0_0000_0000_0000u64 < b && b <= 0x7FF0_0000_0000_0000u64,
                };
                if above {
                    let mut id = owned(key);
                    push_str(&mut id, "-");
                    push_str(&mut id, mname);
                    push_str(&mut id, "-");
                    push_str(&mut id, n.as_str());
                    let odd = Odd {
                        id,
                        event_id: owned(key),
                        bookmaker_slug: owned("sportbet"),
                        market: owned(mname),
                        selection: n.clone(),
                        price: o,
                        odds_type: SportbetParser::selection_to_odds_type(n.as_str(), mname),
                        line: None,
                        timestamp_ms: ts,
                    };
                    out.push(odd);
                    assert(odd_views(out@) =~= odd_views(before).push(odd@));
                }
            },
            _ => {},
        }
        i = i + 1;
    }
    assert(sels@.take(sels@.len() as int) =~= sels@);
}

/// Appends the prices of a market's items to `out`.
fn push_item_prices(key: &str, mname: &str, items: &Vec<JsonValue>, ts: i64, out: &mut Vec<Odd>)
    ensures
        odd_views(final(out)@) == odd_views(old(out)@) + item_prices(key@, mname@, items@, ts),
{
    let mut i: usize = 0;
    assert(odd_views(out@) =~= odd_views(old(out)@) + item_prices(key@, mname@, items@.take(0), ts));
    while i < items.len()
        invariant
            i <= items@.len(),
            odd_views(out@) == odd_views(old(out)@) + item_prices(key@, mname@, items@.take(i as int), ts),
        decreases items@.len() - i,
    {
        assert(items@.take(i + 1).drop_last() =~= items@.take(i as int));
        assert(items@.take(i + 1).last() == items@[i as int]);
        match get(&items[i], "sel") {
            Some(JsonValue::Array(sels)) => push_sel_prices(key, mname, sels, ts, out),
            _ => {},
        }
        assert(odd_views(out@) =~= odd_views(old(out)@) + item_prices(key@, mname@, items@.take(i + 1), ts));
        i = i + 1;
    }
    assert(items@.take(items@.len() as int) =~= items@);
}

/// Appends the prices of a list of markets to `out`.
fn push_market_prices(key: &str, markets: &Vec<JsonValue>, ts: i64, out: &mut Vec<Odd>)
    ensures
        odd_views(final(out)@) == odd_views(old(out)@) + market_prices(key@, markets@, ts),
{
    let mut i: usize = 0;
    assert(odd_views(out@) =~= odd_views(old(out)@) + market_prices(key@, markets@.take(0), ts));
    while i < markets.len()
        invariant
            i <= markets@.len(),
            odd_views(out@) == odd_views(old(out)@) + market_prices(key@, markets@.take(i as int), ts),
        decreases markets@.len() - i,
    {
        assert(markets@.take(i + 1).drop_last() =~= markets@.take(i as int));
        assert(markets@.take(i + 1).last() == markets@[i as int]);
        let mk = &markets[i];
        let mname: String = match get(mk, "n") {
            Some(JsonValue::Str(t)) => t.clone(),
            _ => owned("unknown"),
        };
        assert(mname@ == market_name_of(*mk));
        match get(mk, "m") {
            Some(JsonValue::Array(items)) => push_item_prices(key, mname.as_str(), items, ts, out),
            _ => {},
        }
        assert(odd_views(out@) =~= odd_views(old(out)@) + market_prices(key@, markets@.take(i + 1), ts));
        i = i + 1;
    }
    assert(markets@.take(markets@.len() as int) =~= markets@);
}

impl SportbetParser {
    /// The events and prices of a fixtures-tree answer, read at `ts`:
    /// fixture by fixture, in the answer's order, the event and then the
    /// prices of its markets.
    pub fn parse_api_response_at(json: &JsonValue, is_live: bool, ts: i64) -> (r: (Vec<Event>, Vec<Odd>))
        ensures
            event_views(r.0@) == fixtures_events(
                answer_fixtures(*json),
                items_of(jget(*json, "l"@)),
                is_live,
            ),
            odd_views(r.1@) == fixtures_prices(answer_fixtures(*json), answer_matches(*json), ts),
    {
        let mut events: Vec<Event> = Vec::new();
        let mut odds: Vec<Odd> = Vec::new();
        let fs = match get(json, "fixtures") {
            Some(JsonValue::Object(fs)) => fs,
            _ => {
                assert(event_views(events@) =~= Seq::<EventView>::empty());
                assert(odd_views(odds@) =~= Seq::<OddView>::empty());
                return (events, odds);
            },
        };
        let matches: Option<&JsonValue> = match get(json, "m") {
            Some(JsonValue::Object(ms)) => get(json, "m"),
            _ => None,
        };
        let ghost mv = answer_matches(*json);
        assert(mv == match matches {
            Some(x) => Some(*x),
            None => None,
        });
        let empty: Vec<JsonValue> = Vec::new();
        let leagues: &Vec<JsonValue> = match get(json, "l") {
            Some(JsonValue::Array(items)) => items,
            _ => &empty,
        };
        let ghost lv = items_of(jget(*json, "l"@));
        assert(leagues@ == lv);
        let mut i: usize = 0;
        assert(event_views(events@) =~= fixtures_events(fs@.take(0), lv, is_live));
        assert(odd_views(odds@) =~= fixtures_prices(fs@.take(0), mv, ts));
        while i < fs.len()
            invariant
                i <= fs@.len(),
                leagues@ == lv,
                mv == (match matches {
                    Some(x) => Some(*x),
                    None => None,
                }),
                event_views(events@) == fixtures_events(fs@.take(i as int), lv, is_live),
                odd_views(odds@) == fixtures_prices(fs@.take(i as int), mv, ts),
            decreases fs@.len() - i,
        {
            let ghost ev_before = events@;
            let ghost od_before = odds@;
            assert(fs@.take(i + 1).drop_last() =~= fs@.take(i as int));
            assert(fs@.take(i + 1).last() == fs@[i as int]);
            let f = &fs[i];
            match SportbetParser::extract_event_info(&f.value) {
                Some((h, a, lid, sid, lname)) => {
                    let league = if lname.as_str().unicode_len() > 0 {
                        lname
                    } else {
                        match lookup_league(leagues, lid) {
                            Some(n) => n,
                            None => if is_live {
                                owned("Live")
                            } else {
                                owned("Prematch")
                            },
                        }
                    };
                    let mut key = owned("sportbet-");
                    push_str(&mut key, f.key.as_str());
                    let e = Event {
                        id: key.clone(),
                        sport: SportbetParser::sport_id_to_sport(sid),
                        league,
                        home_team: h,
                        away_team: a,
                        start_time_ms: None,
                        is_live,
                        bookmaker_slug: owned("sportbet"),
                        raw_url: None,
                        extra: Vec::new(),
                    };
                    assert(e@.extra =~= Seq::<crate::json::JsonMember>::empty());
                    assert(fixture_event(f.key@, f.value, lv, is_live) =~= seq![e@]);
                    events.push(e);
                    assert(event_views(events@) =~= event_views(ev_before).push(e@));
                    let markets = get_opt(matches, f.key.as_str());
                    match markets {
                        Some(JsonValue::Array(ms)) => push_market_prices(key.as_str(), ms, ts, &mut odds),
                        _ => {},
                    }
                    assert(odd_views(odds@) =~= odd_views(od_before) + fixture_prices(f.key@, f.value, mv, ts));
                },
                None => {},
            }
            assert(event_views(events@) =~= fixtures_events(fs@.take(i + 1), lv, is_live));
            assert(odd_views(odds@) =~= fixtures_prices(fs@.take(i + 1), mv, ts));
            i = i + 1;
        }
        assert(fs@.take(fs@.len() as int) =~= fs@);
        (events, odds)
    }
}

impl SportbetParser {
    /// The events and prices of a fixtures-tree answer, stamped with the
    /// time of reading.
    pub fn parse_api_response(json: &JsonValue, is_live: bool) -> (r: (Vec<Event>, Vec<Odd>))
        ensures
            event_views(r.0@) == fixtures_events(
                answer_fixtures(*json),
                items_of(jget(*json, "l"@)),
                is_live,
            ),
            exists|ts: i64| odd_views(r.1@) == fixtures_prices(answer_fixtures(*json), answer_matches(*json), ts),
    {
        let now = crate::clock::utc_now_millis();
        SportbetParser::parse_api_response_at(json, is_live, now)
    }
}

} // verus!
