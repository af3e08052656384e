//! Pari: events and prices of its line API. The answer lists `events`
//! (`id`, `team1`, `team2`, `sportId`, `startTime`) and `customFactors`
//! (`e`: an event id; `factors`: `f` a factor id, `v` the price, `p` the
//! line times a hundred).

use crate::clock::{utc_millis_from_secs, utc_secs_in_range};
use crate::json::{
    array_field, array_of, at_most_one, get, items_of, jget, number_field, number_at_most_one,
    number_of, opt_u64_field, text_field, text_of, text_or_empty, u64_field, u64_of, u64_or_zero,
    JsonNumber, JsonValue,
};
use crate::model::{event_views, odd_views, Event, EventView, Odd, OddView, OddsType};
use crate::readiness::{ParserReadiness, ReadinessView};
use crate::registry::BookmakerParser;
use crate::sport::Sport;
use crate::text::{dec, owned, push_decimal, push_str};
use std::sync::Arc;
use vstd::prelude::*;

verus! {

/// The Pari parser: the shared HTTP client and the live and prematch list
/// addresses.
pub struct PariParser {
    pub client: Arc<reqwest::Client>,
    pub live_url: String,
    pub prematch_url: String,
}

impl PariParser {
    /// A parser on `client` for the live list and the base (prematch) list.
    pub fn new(client: Arc<reqwest::Client>) -> (r: PariParser)
        ensures
            r.client == client,
            r.live_url@ == "https://line-lb01-w.pb06e2-resources.com/events/list?lang=ru&scopeMarket=2300"@,
            r.prematch_url@ == "https://line-lb01-w.pb06e2-resources.com/events/listBase?lang=ru&scopeMarket=2300"@,
    {
        PariParser {
            client,
            live_url: owned("https://line-lb01-w.pb06e2-resources.com/events/list?lang=ru&scopeMarket=2300"),
            prematch_url: owned(
                "https://line-lb01-w.pb06e2-resources.com/events/listBase?lang=ru&scopeMarket=2300",
            ),
        }
    }

    /// The site's root address.
    pub fn base_url(&self) -> (r: &str)
        ensures
            r@ == "https://pari.ru"@,
    {
        "https://pari.ru"
    }

    /// The browser identity the parser presents.
    pub fn user_agent(&self) -> (r: &str)
        ensures
            r@ == "Mozilla/5.0 (Windows NT 10.0; Win64; x64) AppleWebKit/537.36 (KHTML, like Gecko) Chrome/120.0.0.0 Safari/537.36"@,
    {
        "Mozilla/5.0 (Windows NT 10.0; Win64; x64) AppleWebKit/537.36 (KHTML, like Gecko) Chrome/120.0.0.0 Safari/537.36"
    }
}

impl BookmakerParser for PariParser {
    open spec fn name_spec(&self) -> Seq<char> {
        "Pari"@
    }

    open spec fn slug_spec(&self) -> Seq<char> {
        "pari"@
    }

    open spec fn enabled_spec(&self) -> bool {
        true
    }

    open spec fn readiness_spec(&self) -> Option<ReadinessView> {
        None
    }

    fn name(&self) -> (r: &str) {
        "Pari"
    }

    fn slug(&self) -> (r: &str) {
        "pari"
    }

    fn is_enabled(&self) -> (r: bool) {
        true
    }

    fn readiness(&self) -> (r: Option<ParserReadiness>) {
        None
    }
}

/// The sport a Pari sport id names; football for ids it does not know.
pub open spec fn pari_sport(id: u64) -> Sport {
    if id == 15869 || id == 15870 || id == 15871 {
        Sport::Football
    } else if id == 15872 || id == 15873 {
        Sport::Basketball
    } else if id == 15874 || id == 15875 {
        Sport::Hockey
    } else if id == 15876 || id == 15877 {
        Sport::Tennis
    } else if id == 15878 || id == 15879 {
        Sport::Volleyball
    } else {
        Sport::Football
    }
}

/// The market, selection and kind a factor id stands for: 921/922/923 the
/// home, draw and away of 1X2; 930/931 over and under of the total;
/// 910/912 the handicap; any other id a custom `factor_<id>` market whose
/// selection is the id.
pub open spec fn pari_market(fid: u64) -> (Seq<char>, Seq<char>, OddsType) {
    if fid == 921 {
        ("1X2"@, "1"@, OddsType::Home)
    } else if fid == 922 {
        ("1X2"@, "X"@, OddsType::Draw)
    } else if fid == 923 {
        ("1X2"@, "2"@, OddsType::Away)
    } else if fid == 930 {
        ("Total"@, "Over"@, OddsType::Over)
    } else if fid == 931 {
        ("Total"@, "Under"@, OddsType::Under)
    } else if fid == 910 || fid == 912 {
        ("Handicap"@, "1"@, OddsType::Handicap)
    } else {
        ("factor_"@ + dec(fid as nat), dec(fid as nat), OddsType::Custom)
    }
}

/// A price read from the custom factors, before its line is scaled: the
/// event, the factor, the price and the raw line `p` (a hundred times the
/// line) as the feed wrote them.
#[derive(Clone, Copy, Debug)]
pub struct PariPrice {
    pub event_id: u64,
    pub factor_id: u64,
    pub price: JsonNumber,
    pub raw_line: Option<JsonNumber>,
}

/// Whether an event entry names both teams.
pub open spec fn has_teams(e: JsonValue) -> bool {
    text_of(jget(e, "team1"@)) is Some && text_of(jget(e, "team2"@)) is Some
}

/// The entry the event list holds for `id`: the last one with that id that
/// names both teams (the list read into a map, later entries winning).
pub open spec fn event_data(events: Seq<JsonValue>, id: u64) -> Option<JsonValue>
    decreases events.len(),
{
    if events.len() == 0 {
        None
    } else if u64_of(jget(events.last(), "id"@)) == Some(id) && has_teams(events.last()) {
        Some(events.last())
    } else {
        event_data(events.drop_last(), id)
    }
}

/// The event a custom-factor entry prices: its `e`, where it has a
/// `factors` list and the event list holds that event.
pub open spec fn cf_event(cf: JsonValue, events: Seq<JsonValue>) -> Option<u64> {
    match u64_of(jget(cf, "e"@)) {
        Some(id) => if array_of(jget(cf, "factors"@)) is Some && event_data(events, id) is Some {
            Some(id)
        } else {
            None
        },
        None => None,
    }
}

/// The priced events, each once, in the order of their first custom-factor
/// entry.
pub open spec fn first_ids(cfs: Seq<JsonValue>, events: Seq<JsonValue>) -> Seq<u64>
    decreases cfs.len(),
{
    if cfs.len() == 0 {
        Seq::empty()
    } else {
        let ids = first_ids(cfs.drop_last(), events);
        match cf_event(cfs.last(), events) {
            Some(id) => if ids.contains(id) {
                ids
            } else {
                ids.push(id)
            },
            None => ids,
        }
    }
}

/// Every event of `first_ids` is held by the event list, and each comes
/// once.
pub proof fn lemma_first_ids_priced(cfs: Seq<JsonValue>, events: Seq<JsonValue>)
    ensures
        forall|j: int|
            0 <= j < first_ids(cfs, events).len() ==> #[trigger] event_data(events, first_ids(cfs, events)[j]) is Some,
        first_ids(cfs, events).no_duplicates(),
    decreases cfs.len(),
{
    if cfs.len() > 0 {
        lemma_first_ids_priced(cfs.drop_last(), events);
    }
}

/// The prices of a list of factors of the event `id`, in order: one per
/// factor with an integer `f` and a number `v` above 1.0.
pub open spec fn factor_rows(id: u64, factors: Seq<JsonValue>) -> Seq<PariPrice>
    decreases factors.len(),
{
    if factors.len() == 0 {
        Seq::empty()
    } else {
        let rest = factor_rows(id, factors.drop_last());
        let f = factors.last();
        let fid = u64_of(jget(f, "f"@));
        let v = number_of(jget(f, "v"@));
        if fid is Some && v is Some && !at_most_one(v->0) {
            rest.push(
                PariPrice {
                    event_id: id,
                    factor_id: fid->0,
                    price: v->0,
                    raw_line: number_of(jget(f, "p"@)),
                },
            )
        } else {
            rest
        }
    }
}

/// The prices of every custom-factor entry of the event `id`, in order.
pub open spec fn rows_for(cfs: Seq<JsonValue>, events: Seq<JsonValue>, id: u64) -> Seq<PariPrice>
    decreases cfs.len(),
{
    if cfs.len() == 0 {
        Seq::empty()
    } else {
        rows_for(cfs.drop_last(), events, id) + if cf_event(cfs.last(), events) == Some(id) {
            factor_rows(id, items_of(jget(cfs.last(), "factors"@)))
        } else {
            Seq::empty()
        }
    }
}

/// The prices of the events `ids`, event by event.
pub open spec fn rows_in_order(ids: Seq<u64>, cfs: Seq<JsonValue>, events: Seq<JsonValue>) -> Seq<PariPrice>
    decreases ids.len(),
{
    if ids.len() == 0 {
        Seq::empty()
    } else {
        rows_in_order(ids.drop_last(), cfs, events) + rows_for(cfs, events, ids.last())
    }
}

/// The prices of an event's entries are all of that event and above 1.0.
proof fn lemma_rows_of_event(cfs: Seq<JsonValue>, events: Seq<JsonValue>, id: u64)
    ensures
        forall|i: int|
            0 <= i < rows_for(cfs, events, id).len() ==> (#[trigger] rows_for(cfs, events, id)[i]).event_id == id
                && !at_most_one(rows_for(cfs, events, id)[i].price),
    decreases cfs.len(),
{
    if cfs.len() > 0 {
        lemma_rows_of_event(cfs.drop_last(), events, id);
        let f = items_of(jget(cfs.last(), "factors"@));
        lemma_factor_rows(id, f);
    }
}

/// The prices of a list of factors are all of the event and above 1.0.
proof fn lemma_factor_rows(id: u64, factors: Seq<JsonValue>)
    ensures
        forall|i: int|
            0 <= i < factor_rows(id, factors).len() ==> (#[trigger] factor_rows(id, factors)[i]).event_id == id
                && !at_most_one(factor_rows(id, factors)[i].price),
    decreases factors.len(),
{
    if factors.len() > 0 {
        lemma_factor_rows(id, factors.drop_last());
    }
}

/// The prices of the events `ids` are each of one of them.
proof fn lemma_rows_in_order(ids: Seq<u64>, cfs: Seq<JsonValue>, events: Seq<JsonValue>)
    ensures
        forall|i: int|
            0 <= i < rows_in_order(ids, cfs, events).len() ==> ids.contains(
                (#[trigger] rows_in_order(ids, cfs, events)[i]).event_id,
            ) && !at_most_one(rows_in_order(ids, cfs, events)[i].price),
    decreases ids.len(),
{
    if ids.len() > 0 {
        let init = ids.drop_last();
        lemma_rows_in_order(init, cfs, events);
        lemma_rows_of_event(cfs, events, ids.last());
        let a = rows_in_order(init, cfs, events);
        let b = rows_for(cfs, events, ids.last());
        assert forall|i: int| 0 <= i < rows_in_order(ids, cfs, events).len() implies ids.contains(
            (#[trigger] rows_in_order(ids, cfs, events)[i]).event_id,
        ) && !at_most_one(rows_in_order(ids, cfs, events)[i].price) by {
            if i < a.len() {
                assert(rows_in_order(ids, cfs, events)[i] == a[i]);
                let j = choose|j: int| 0 <= j < init.len() && init[j] == a[i].event_id;
                assert(ids[j] == init[j]);
            } else {
                assert(rows_in_order(ids, cfs, events)[i] == b[i - a.len()]);
                assert(ids[ids.len() - 1] == ids.last());
            }
        }
    }
}

/// Every price read from a list answer is above 1.0 and belongs to one of
/// the events read from it, and no event is read twice.
pub proof fn law_pari_prices_belong_to_events(cfs: Seq<JsonValue>, events: Seq<JsonValue>)
    ensures
        first_ids(cfs, events).no_duplicates(),
        forall|i: int|
            0 <= i < rows_in_order(first_ids(cfs, events), cfs, events).len() ==> first_ids(cfs, events).contains(
                (#[trigger] rows_in_order(first_ids(cfs, events), cfs, events)[i]).event_id,
            ) && !at_most_one(rows_in_order(first_ids(cfs, events), cfs, events)[i].price),
{
    lemma_first_ids_priced(cfs, events);
    lemma_rows_in_order(first_ids(cfs, events), cfs, events);
}

/// `as_i64()` on a looked-up value.
pub open spec fn i64_of_value(o: Option<JsonValue>) -> Option<i64> {
    match o {
        Some(JsonValue::Number(JsonNumber::PosInt(k))) => if k <= 0x7FFF_FFFF_FFFF_FFFFu64 {
            Some(k as i64)
        } else {
            None
        },
        Some(JsonValue::Number(JsonNumber::NegInt(k))) => Some(k),
        _ => None,
    }
}

/// The start of an event that starts `secs` seconds after the Unix epoch, in
/// milliseconds; the epoch itself where chrono holds no such instant.
pub open spec fn start_millis(secs: i64) -> i64 {
    if utc_secs_in_range(secs) {
        (secs * 1000) as i64
    } else {
        0
    }
}

/// The event `pari-<id>` of the entry `d`.
pub open spec fn pari_event(id: u64, d: JsonValue, live: bool) -> EventView {
    EventView {
        id: "pari-"@ + dec(id as nat),
        sport: pari_sport(u64_or_zero(jget(d, "sportId"@))),
        league: Seq::empty(),
        home_team: text_or_empty(jget(d, "team1"@)),
        away_team: text_or_empty(jget(d, "team2"@)),
        start_time_ms: match i64_of_value(jget(d, "startTime"@)) {
            Some(secs) => Some(start_millis(secs)),
            None => None,
        },
        is_live: live,
        bookmaker_slug: "pari"@,
        raw_url: None,
        extra: Seq::empty(),
    }
}

/// The events of `ids`, in order.
pub open spec fn pari_events(ids: Seq<u64>, events: Seq<JsonValue>, live: bool) -> Seq<EventView> {
    ids.map_values(|id: u64| pari_event(id, event_data(events, id)->0, live))
}

/// The price `p` as handed on, its line the `f64` bits `line_bits` where the
/// feed gave one, read at `ts`.
pub open spec fn pari_odd(p: PariPrice, line_bits: u64, ts: i64) -> OddView {
    OddView {
        id: "pari-"@ + dec(p.event_id as nat) + "-"@ + dec(p.factor_id as nat),
        event_id: "pari-"@ + dec(p.event_id as nat),
        bookmaker_slug: "pari"@,
        market: pari_market(p.factor_id).0,
        selection: pari_market(p.factor_id).1,
        price: p.price,
        odds_type: pari_market(p.factor_id).2,
        line: if p.raw_line is Some {
            Some(JsonNumber::FloatBits(line_bits))
        } else {
            None
        },
        timestamp_ms: ts,
    }
}

/// The entry the event list holds for `id` (the last one that names both
/// teams).
fn event_data_of(events: &Vec<JsonValue>, id: u64) -> (r: Option<&JsonValue>)
    ensures
        match r {
            Some(d) => event_data(events@, id) == Some(*d),
            None => event_data(events@, id) is None,
        },
{
    let mut i: usize = events.len();
    assert(events@.take(i as int) =~= events@);
    while i > 0
        invariant
            i <= events@.len(),
            event_data(events@, id) == event_data(events@.take(i as int), id),
        decreases i,
    {
        let ghost pre = events@.take(i as int);
        assert(pre.last() == events@[i - 1]);
        assert(pre.drop_last() =~= events@.take(i - 1));
        let e = &events[i - 1];
        if opt_u64_field(e, "id") == Some(id) {
            match (get(e, "team1"), get(e, "team2")) {
                (Some(JsonValue::Str(_)), Some(JsonValue::Str(_))) => {
                    return Some(e);
                },
                _ => {},
            }
        }
        i = i - 1;
    }
    None
}

/// The event a custom-factor entry prices, where the event list holds it.
fn cf_event_of(cf: &JsonValue, events: &Vec<JsonValue>) -> (r: Option<u64>)
    ensures
        r == cf_event(*cf, events@),
{
    match opt_u64_field(cf, "e") {
        Some(id) => match array_field(cf, "factors") {
            Some(_) => match event_data_of(events, id) {
                Some(_) => Some(id),
                None => None,
            },
            None => None,
        },
        None => None,
    }
}

/// Whether `ids` holds `id`.
fn holds_id(ids: &Vec<u64>, id: u64) -> (r: bool)
    ensures
        r == ids@.contains(id),
{
    let mut i: usize = 0;
    while i < ids.len()
        invariant
            i <= ids@.len(),
            forall|j: int| 0 <= j < i ==> ids@[j] != id,
        decreases ids@.len() - i,
    {
        if ids[i] == id {
            return true;
        }
        i = i + 1;
    }
    false
}

/// The priced events, each once, in the order of their first entry.
fn first_event_ids(cfs: &Vec<JsonValue>, events: &Vec<JsonValue>) -> (r: Vec<u64>)
    ensures
        r@ == first_ids(cfs@, events@),
{
    let mut ids: Vec<u64> = Vec::new();
    let mut i: usize = 0;
    while i < cfs.len()
        invariant
            i <= cfs@.len(),
            ids@ == first_ids(cfs@.take(i as int), events@),
        decreases cfs@.len() - i,
    {
        let ghost pre = cfs@.take(i + 1);
        assert(pre.last() == cfs@[i as int]);
        assert(pre.drop_last() =~= cfs@.take(i as int));
        match cf_event_of(&cfs[i], events) {
            Some(id) => {
                if !holds_id(&ids, id) {
                    ids.push(id);
                }
            },
            None => {},
        }
        i = i + 1;
    }
    assert(cfs@.take(cfs@.len() as int) =~= cfs@);
    ids
}

/// The prices of a list of factors of the event `id`.
fn factor_rows_of(id: u64, factors: &Vec<JsonValue>) -> (r: Vec<PariPrice>)
    ensures
        r@ == factor_rows(id, factors@),
{
    let mut out: Vec<PariPrice> = Vec::new();
    let mut i: usize = 0;
    while i < factors.len()
        invariant
            i <= factors@.len(),
            out@ == factor_rows(id, factors@.take(i as int)),
        decreases factors@.len() - i,
    {
        let ghost pre = factors@.take(i + 1);
        assert(pre.last() == factors@[i as int]);
        assert(pre.drop_last() =~= factors@.take(i as int));
        let f = &factors[i];
        match (opt_u64_field(f, "f"), number_field(f, "v")) {
            (Some(fid), Some(v)) => {
                if !number_at_most_one(v) {
                    out.push(PariPrice { event_id: id, factor_id: fid, price: v, raw_line: number_field(f, "p") });
                }
            },
            _ => {},
        }
        i = i + 1;
    }
    assert(factors@.take(factors@.len() as int) =~= factors@);
    out
}

/// The prices of every custom-factor entry of the event `id`, appended to
/// `out`.
fn push_rows_for(out: &mut Vec<PariPrice>, cfs: &Vec<JsonValue>, events: &Vec<JsonValue>, id: u64)
    ensures
        final(out)@ == old(out)@ + rows_for(cfs@, events@, id),
{
    let mut i: usize = 0;
    while i < cfs.len()
        invariant
            i <= cfs@.len(),
            out@ == old(out)@ + rows_for(cfs@.take(i as int), events@, id),
        decreases cfs@.len() - i,
    {
        let ghost pre = cfs@.take(i + 1);
        assert(pre.last() == cfs@[i as int]);
        assert(pre.drop_last() =~= cfs@.take(i as int));
        let ghost before = out@;
        let cf = &cfs[i];
        if cf_event_of(cf, events) == Some(id) {
            match array_field(cf, "factors") {
                Some(factors) => {
                    let mut rows = factor_rows_of(id, factors);
                    out.append(&mut rows);
                },
                None => {},
            }
        }
        assert(out@ =~= old(out)@ + rows_for(pre, events@, id));
        i = i + 1;
    }
    assert(cfs@.take(cfs@.len() as int) =~= cfs@);
}

/// The event `pari-<id>` of the entry `d`.
fn pari_event_of(id: u64, d: &JsonValue, is_live: bool) -> (r: Event)
    ensures
        r@ == pari_event(id, *d, is_live),
{
    let mut eid = owned("pari-");
    push_decimal(&mut eid, id);
    let start = match get(d, "startTime") {
        Some(JsonValue::Number(JsonNumber::PosInt(k))) => if *k <= 0x7FFF_FFFF_FFFF_FFFFu64 {
            Some(*k as i64)
        } else {
            None
        },
        Some(JsonValue::Number(JsonNumber::NegInt(k))) => Some(*k),
        _ => None,
    };
    let start_time_ms = match start {
        Some(secs) => Some(
            match utc_millis_from_secs(secs) {
                Some(ms) => ms,
                None => 0,
            },
        ),
        None => None,
    };
    let r = Event {
        id: eid,
        sport: PariParser::sport_id_to_sport(u64_field(d, "sportId")),
        league: String::new(),
        home_team: text_field(d, "team1"),
        away_team: text_field(d, "team2"),
        start_time_ms,
        is_live,
        bookmaker_slug: owned("pari"),
        raw_url: None,
        extra: Vec::new(),
    };
    proof {
        assert(r@.extra =~= Seq::<crate::json::JsonMember>::empty());
        assert(r@.league =~= Seq::<char>::empty());
    }
    r
}

impl PariParser {
    /// The sport a Pari sport id names.
    pub fn sport_id_to_sport(id: u64) -> (r: Sport)
        ensures
            r == pari_sport(id),
    {
        if id == 15869 || id == 15870 || id == 15871 {
            Sport::Football
        } else if id == 15872 || id == 15873 {
            Sport::Basketball
        } else if id == 15874 || id == 15875 {
            Sport::Hockey
        } else if id == 15876 || id == 15877 {
            Sport::Tennis
        } else if id == 15878 || id == 15879 {
            Sport::Volleyball
        } else {
            Sport::Football
        }
    }

    /// Reads a list answer: no events and no prices where it has no
    /// `events` list; else the events that some custom-factor entry prices
    /// (each once, in the order of their first entry, built from the last
    /// entry of the event list that names both teams) and their prices,
    /// event by event, each with its raw line. The lines are scaled by
    /// `prices_to_odds`.
    pub fn parse_api_response(json: &JsonValue, is_live: bool) -> (r: (Vec<Event>, Vec<PariPrice>))
        ensures
            match array_of(jget(*json, "events"@)) {
                None => r.0@.len() == 0 && r.1@.len() == 0,
                Some(events) => {
                    let cfs = items_of(jget(*json, "customFactors"@));
                    let ids = first_ids(cfs, events);
                    &&& event_views(r.0@) == pari_events(ids, events, is_live)
                    &&& r.1@ == rows_in_order(ids, cfs, events)
                },
            },
    {
        let events = match array_field(json, "events") {
            Some(e) => e,
            None => {
                return (Vec::new(), Vec::new());
            },
        };
        let empty: Vec<JsonValue> = Vec::new();
        let cfs = match array_field(json, "customFactors") {
            Some(c) => c,
            None => &empty,
        };
        assert(cfs@ == items_of(jget(*json, "customFactors"@)));
        let ids = first_event_ids(cfs, events);
        proof {
            lemma_first_ids_priced(cfs@, events@);
        }
        let mut out_events: Vec<Event> = Vec::new();
        let mut rows: Vec<PariPrice> = Vec::new();
        let mut k: usize = 0;
        while k < ids.len()
            invariant
                k <= ids@.len(),
                ids@ == first_ids(cfs@, events@),
                event_views(out_events@) == pari_events(ids@.take(k as int), events@, is_live),
                rows@ == rows_in_order(ids@.take(k as int), cfs@, events@),
                forall|j: int| 0 <= j < ids@.len() ==> #[trigger] event_data(events@, ids@[j]) is Some,
            decreases ids@.len() - k,
        {
            let id = ids[k];
            let ghost pre = ids@.take(k + 1);
            assert(pre.last() == id);
            assert(pre.drop_last() =~= ids@.take(k as int));
            assert(event_data(events@, ids@[k as int]) is Some);
            let ghost prev = out_events@;
            match event_data_of(events, id) {
                Some(d) => {
                    let ev = pari_event_of(id, d, is_live);
                    out_events.push(ev);
                    assert(out_events@ == prev.push(ev));
                    assert(event_views(out_events@) =~= event_views(prev).push(ev@));
                },
                None => {},
            }
            push_rows_for(&mut rows, cfs, events, id);
            assert(event_views(out_events@) =~= pari_events(pre, events@, is_live));
            k = k + 1;
        }
        assert(ids@.take(ids@.len() as int) =~= ids@);
        (out_events, rows)
    }

    /// The odds of read prices at `ts`, in order: each price's line is the
    /// `f64` bits at its position in `line_bits` (the raw line divided by a
    /// hundred), where the feed gave one.
    pub fn prices_to_odds(prices: &Vec<PariPrice>, line_bits: &Vec<u64>, ts: i64) -> (r: Vec<Odd>)
        requires
            line_bits@.len() == prices@.len(),
        ensures
            odd_views(r@) == Seq::new(prices@.len(), |i: int| pari_odd(prices@[i], line_bits@[i], ts)),
    {
        let mut out: Vec<Odd> = Vec::new();
        let mut i: usize = 0;
        while i < prices.len()
            invariant
                i <= prices@.len(),
                line_bits@.len() == prices@.len(),
                odd_views(out@) == Seq::new(i as nat, |j: int| pari_odd(prices@[j], line_bits@[j], ts)),
            decreases prices@.len() - i,
        {
            let p = prices[i];
            let mut event_id = owned("pari-");
            push_decimal(&mut event_id, p.event_id);
            let mut id = event_id.clone();
            push_str(&mut id, "-");
            push_decimal(&mut id, p.factor_id);
            let (market, selection, odds_type) = Self::factor_to_market(p.factor_id);
            let line = match p.raw_line {
                Some(_) => Some(JsonNumber::FloatBits(line_bits[i])),
                None => None,
            };
            let odd = Odd {
                id,
                event_id,
                bookmaker_slug: owned("pari"),
                market,
                selection,
                price: p.price,
                odds_type,
                line,
                timestamp_ms: ts,
            };
            assert(odd@ == pari_odd(prices@[i as int], line_bits@[i as int], ts));
            let ghost prev = out@;
            out.push(odd);
            assert(out@ == prev.push(odd));
            assert(odd_views(out@) =~= odd_views(prev).push(odd@));
            assert(odd_views(out@) =~= Seq::new((i + 1) as nat, |j: int| pari_odd(prices@[j], line_bits@[j], ts)));
            i = i + 1;
        }
        out
    }

    /// The market, selection and kind of price a factor id stands for.
    pub fn factor_to_market(fid: u64) -> (r: (String, String, OddsType))
        ensures
            (r.0@, r.1@, r.2) == pari_market(fid),
    {
        if fid == 921 {
            (owned("1X2"), owned("1"), OddsType::Home)
        } else if fid == 922 {
            (owned("1X2"), owned("X"), OddsType::Draw)
        } else if fid == 923 {
            (owned("1X2"), owned("2"), OddsType::Away)
        } else if fid == 930 {
            (owned("Total"), owned("Over"), OddsType::Over)
        } else if fid == 931 {
            (owned("Total"), owned("Under"), OddsType::Under)
        } else if fid == 910 || fid == 912 {
            (owned("Handicap"), owned("1"), OddsType::Handicap)
        } else {
            let mut market = owned("factor_");
            push_decimal(&mut market, fid);
            let mut selection = String::new();
            push_decimal(&mut selection, fid);
            proof {
                assert(selection@ =~= dec(fid as nat));
            }
            (market, selection, OddsType::Custom)
        }
    }
}

} // verus!
