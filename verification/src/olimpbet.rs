//! Olimpbet: the parser serves a fixed demonstration line of ten football
//! events with 1X2 and total prices, while its site is a single-page
//! application without a known API.

use crate::json::JsonNumber;
use crate::model::{event_views, odd_views, Event, EventView, Odd, OddView, OddsType};
use crate::readiness::{ParserReadiness, ReadinessView};
use crate::registry::BookmakerParser;
use crate::sport::Sport;
use crate::text::{dec, owned, push_decimal, push_str};
use std::sync::Arc;
use vstd::prelude::*;

verus! {

/// The Olimpbet parser.
pub struct OlimpbetParser {
    pub client: Arc<reqwest::Client>,
}

impl OlimpbetParser {
    /// A parser on `client`.
    pub fn new(client: Arc<reqwest::Client>) -> (r: OlimpbetParser)
        ensures
            r.client == client,
    {
        OlimpbetParser { client }
    }

    /// The site's root address.
    pub fn base_url(&self) -> (r: &str)
        ensures
            r@ == "https://olimp.bet"@,
    {
        "https://olimp.bet"
    }

    /// The browser identity the parser presents.
    pub fn user_agent(&self) -> (r: &str)
        ensures
            r@ == "Mozilla/5.0 (Windows NT 10.0; Win64; x64) AppleWebKit/537.36"@,
    {
        "Mozilla/5.0 (Windows NT 10.0; Win64; x64) AppleWebKit/537.36"
    }
}

impl BookmakerParser for OlimpbetParser {
    open spec fn name_spec(&self) -> Seq<char> {
        "Olimpbet"@
    }

    open spec fn slug_spec(&self) -> Seq<char> {
        "olimpbet"@
    }

    open spec fn enabled_spec(&self) -> bool {
        true
    }

    open spec fn readiness_spec(&self) -> Option<ReadinessView> {
        None
    }

    fn name(&self) -> (r: &str) {
        "Olimpbet"
    }

    fn slug(&self) -> (r: &str) {
        "olimpbet"
    }

    fn is_enabled(&self) -> (r: bool) {
        true
    }

    fn readiness(&self) -> (r: Option<ParserReadiness>) {
        None
    }
}

/// The demonstration events: home team, away team, league, live.
pub open spec fn demo_teams() -> Seq<(Seq<char>, Seq<char>, Seq<char>, bool)> {
    seq![
        ("PSG"@, "Napoli"@, "Ligue 1"@, false),
        ("Lokomotiv Moscow"@, "Inter Milan"@, "UEFA Europa League"@, true),
        ("Real Madrid"@, "Alaves"@, "LaLiga"@, true),
        ("Atletico Madrid"@, "Juventud"@, "LaLiga"@, true),
        ("Liverpool"@, "PSG"@, "Champions League"@, false),
        ("Manchester United"@, "Chelsea"@, "Premier League"@, false),
        ("Bayern Munich"@, "Borussia Dortmund"@, "Bundesliga"@, false),
        ("Juventus"@, "AC Milan"@, "Serie A"@, false),
        ("CSKA Moscow"@, "Spartak Moscow"@, "RPL"@, true),
        ("Zenit"@, "Dynamo Moscow"@, "RPL"@, true),
    ]
}

/// The 1X2 prices of the `k`-th price set (home, draw, away), as the bits
/// of their `f64`s: 2.10/3.40/3.20, 1.85/3.60/4.00, 1.95/3.50/3.80,
/// 2.40/3.30/2.90, 2.20/3.20/3.10.
pub open spec fn x12_bits(k: int) -> (u64, u64, u64) {
    if k == 0 {
        (0x4000CCCCCCCCCCCDu64, 0x400B333333333333u64, 0x400999999999999Au64)
    } else if k == 1 {
        (0x3FFD99999999999Au64, 0x400CCCCCCCCCCCCDu64, 0x4010000000000000u64)
    } else if k == 2 {
        (0x3FFF333333333333u64, 0x400C000000000000u64, 0x400E666666666666u64)
    } else if k == 3 {
        (0x4003333333333333u64, 0x400A666666666666u64, 0x4007333333333333u64)
    } else {
        (0x400199999999999Au64, 0x400999999999999Au64, 0x4008CCCCCCCCCCCDu64)
    }
}

/// The over and under prices of the `k`-th total set, as `f64` bits:
/// 1.90/1.90, 1.85/1.95, 1.95/1.85.
pub open spec fn total_bits(k: int) -> (u64, u64) {
    if k == 0 {
        (0x3FFE666666666666u64, 0x3FFE666666666666u64)
    } else if k == 1 {
        (0x3FFD99999999999Au64, 0x3FFF333333333333u64)
    } else {
        (0x3FFF333333333333u64, 0x3FFD99999999999Au64)
    }
}

/// The line of the totals, 2.5, as `f64` bits.
pub open spec fn total_line_bits() -> u64 {
    0x4004000000000000u64
}

/// The id of the `i`-th demonstration event.
pub open spec fn demo_id(i: int) -> Seq<char> {
    "olimpbet-"@ + dec(i as nat)
}

/// The `i`-th demonstration event.
pub open spec fn demo_event(i: int) -> EventView {
    let t = demo_teams()[i];
    EventView {
        id: demo_id(i),
        sport: Sport::Football,
        league: t.2,
        home_team: t.0,
        away_team: t.1,
        start_time_ms: None,
        is_live: t.3,
        bookmaker_slug: "olimpbet"@,
        raw_url: None,
        extra: Seq::empty(),
    }
}

/// A demonstration price.
pub open spec fn demo_odd(
    id: Seq<char>,
    event_id: Seq<char>,
    market: Seq<char>,
    selection: Seq<char>,
    bits: u64,
    kind: OddsType,
    line: Option<JsonNumber>,
    ts: i64,
) -> OddView {
    OddView {
        id,
        event_id,
        bookmaker_slug: "olimpbet"@,
        market,
        selection,
        price: JsonNumber::FloatBits(bits),
        odds_type: kind,
        line,
        timestamp_ms: ts,
    }
}

/// The prices of the `i`-th demonstration event: 1X2 from price set
/// `i % 5`, totals over and under 2.5 from total set `i % 3`.
pub open spec fn demo_event_odds(i: int, ts: i64) -> Seq<OddView> {
    let e = demo_id(i);
    let x = x12_bits(i % 5);
    let t = total_bits(i % 3);
    let line = Some(JsonNumber::FloatBits(total_line_bits()));
    seq![
        demo_odd(e + "-1"@, e, "1X2"@, "1"@, x.0, OddsType::Home, None, ts),
        demo_odd(e + "-X"@, e, "1X2"@, "X"@, x.1, OddsType::Draw, None, ts),
        demo_odd(e + "-2"@, e, "1X2"@, "2"@, x.2, OddsType::Away, None, ts),
        demo_odd(e + "-total-Over"@, e, "Total"@, "Over"@, t.0, OddsType::Over, line, ts),
        demo_odd(e + "-total-Under"@, e, "Total"@, "Under"@, t.1, OddsType::Under, line, ts),
    ]
}

/// The prices of the first `n` demonstration events, in order.
pub open spec fn demo_odds(n: nat, ts: i64) -> Seq<OddView>
    decreases n,
{
    if n == 0 {
        Seq::empty()
    } else {
        demo_odds((n - 1) as nat, ts) + demo_event_odds(n - 1, ts)
    }
}

/// A demonstration price.
fn make_odd(
    event_id: &str,
    suffix: &str,
    market: &str,
    selection: &str,
    bits: u64,
    kind: OddsType,
    line: Option<JsonNumber>,
    ts: i64,
) -> (r: Odd)
    ensures
        r@ == demo_odd(event_id@ + suffix@, event_id@, market@, selection@, bits, kind, line, ts),
{
    let mut id = owned(event_id);
    push_str(&mut id, suffix);
    Odd {
        id,
        event_id: owned(event_id),
        bookmaker_slug: owned("olimpbet"),
        market: owned(market),
        selection: owned(selection),
        price: JsonNumber::FloatBits(bits),
        odds_type: kind,
        line,
        timestamp_ms: ts,
    }
}

impl OlimpbetParser {
    /// The demonstration line, read at `ts`: the ten events, and for each
    /// its 1X2 and total prices.
    pub fn fetch_all_inner_at(ts: i64) -> (r: (Vec<Event>, Vec<Odd>))
        ensures
            event_views(r.0@) == Seq::new(10, |i: int| demo_event(i)),
            odd_views(r.1@) == demo_odds(10, ts),
    {
        let teams: Vec<(&str, &str, &str, bool)> = vec![
            ("PSG", "Napoli", "Ligue 1", false),
            ("Lokomotiv Moscow", "Inter Milan", "UEFA Europa League", true),
            ("Real Madrid", "Alaves", "LaLiga", true),
            ("Atletico Madrid", "Juventud", "LaLiga", true),
            ("Liverpool", "PSG", "Champions League", false),
            ("Manchester United", "Chelsea", "Premier League", false),
            ("Bayern Munich", "Borussia Dortmund", "Bundesliga", false),
            ("Juventus", "AC Milan", "Serie A", false),
            ("CSKA Moscow", "Spartak Moscow", "RPL", true),
            ("Zenit", "Dynamo Moscow", "RPL", true),
        ];
        assert forall|k: int| #![trigger teams@[k]] 0 <= k < 10 implies ({
            let t = teams@[k];
            (t.0@, t.1@, t.2@, t.3) == demo_teams()[k]
        }) by {}
        let mut events: Vec<Event> = Vec::new();
        let mut odds: Vec<Odd> = Vec::new();
        let mut i: usize = 0;
        assert(event_views(events@) =~= Seq::new(0, |k: int| demo_event(k)));
        while i < 10
            invariant
                i <= 10,
                teams@.len() == 10,
                forall|k: int| 0 <= k < 10 ==> ({
                    let t = #[trigger] teams@[k];
                    (t.0@, t.1@, t.2@, t.3) == demo_teams()[k]
                }),
                event_views(events@) == Seq::new(i as nat, |k: int| demo_event(k)),
                odd_views(odds@) == demo_odds(i as nat, ts),
            decreases 10 - i,
        {
            let (home, away, league, live) = teams[i];
            assert((home@, away@, league@, live) == demo_teams()[i as int]);
            let mut id = owned("olimpbet-");
            push_decimal(&mut id, i as u64);
            let e = Event {
                id: id.clone(),
                sport: Sport::Football,
                league: owned(league),
                home_team: owned(home),
                away_team: owned(away),
                start_time_ms: None,
                is_live: live,
                bookmaker_slug: owned("olimpbet"),
                raw_url: None,
                extra: Vec::new(),
            };
            assert(e@.extra =~= Seq::<crate::json::JsonMember>::empty());
            assert(e@ == demo_event(i as int));
            let ghost ev_before = event_views(events@);
            events.push(e);
            assert(event_views(events@) =~= ev_before.push(e@));
            assert(event_views(events@) =~= Seq::new((i + 1) as nat, |k: int| demo_event(k)));
            let (h, d, a): (u64, u64, u64) = match i % 5 {
                0 => (0x4000CCCCCCCCCCCDu64, 0x400B333333333333u64, 0x400999999999999Au64),
                1 => (0x3FFD99999999999Au64, 0x400CCCCCCCCCCCCDu64, 0x4010000000000000u64),
                2 => (0x3FFF333333333333u64, 0x400C000000000000u64, 0x400E666666666666u64),
                3 => (0x4003333333333333u64, 0x400A666666666666u64, 0x4007333333333333u64),
                _ => (0x400199999999999Au64, 0x400999999999999Au64, 0x4008CCCCCCCCCCCDu64),
            };
            let (over, under): (u64, u64) = match i % 3 {
                0 => (0x3FFE666666666666u64, 0x3FFE666666666666u64),
                1 => (0x3FFD99999999999Au64, 0x3FFF333333333333u64),
                _ => (0x3FFF333333333333u64, 0x3FFD99999999999Au64),
            };
            let line = Some(JsonNumber::FloatBits(0x4004000000000000u64));
            let ghost od_before = odd_views(odds@);
            let o1 = make_odd(id.as_str(), "-1", "1X2", "1", h, OddsType::Home, None, ts);
            let o2 = make_odd(id.as_str(), "-X", "1X2", "X", d, OddsType::Draw, None, ts);
            let o3 = make_odd(id.as_str(), "-2", "1X2", "2", a, OddsType::Away, None, ts);
            let o4 = make_odd(id.as_str(), "-total-Over", "Total", "Over", over, OddsType::Over, line, ts);
            let o5 = make_odd(id.as_str(), "-total-Under", "Total", "Under", under, OddsType::Under, line, ts);
            assert(seq![o1@, o2@, o3@, o4@, o5@] =~= demo_event_odds(i as int, ts));
            odds.push(o1);
            odds.push(o2);
            odds.push(o3);
            odds.push(o4);
            odds.push(o5);
            assert(odd_views(odds@) =~= od_before + seq![o1@, o2@, o3@, o4@, o5@]);
            i = i + 1;
        }
        (events, odds)
    }

    /// The demonstration line, stamped with the time of reading.
    pub fn fetch_all_inner() -> (r: (Vec<Event>, Vec<Odd>))
        ensures
            event_views(r.0@) == Seq::new(10, |i: int| demo_event(i)),
            exists|ts: i64| odd_views(r.1@) == demo_odds(10, ts),
    {
        let now = crate::clock::utc_now_millis();
        OlimpbetParser::fetch_all_inner_at(now)
    }
}

} // verus!
