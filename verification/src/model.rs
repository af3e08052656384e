//! Events, prices and parser results, as the parsers hand them on.

use crate::json::{JsonMember, JsonNumber};
use crate::sport::Sport;
use crate::text::str_eq;
use vstd::prelude::*;

verus! {

/// What a price is on.
#[derive(Clone, Copy, Debug, PartialEq, Eq, Structural)]
pub enum OddsType {
    Home,
    Away,
    Draw,
    Over,
    Under,
    Handicap,
    BothTeamsScoreYes,
    BothTeamsScoreNo,
    Odd,
    Even,
    Decimal,
    Custom,
}

/// A sporting event offered by a bookmaker.
#[derive(Debug)]
pub struct Event {
    pub id: String,
    pub sport: Sport,
    pub league: String,
    pub home_team: String,
    pub away_team: String,
    /// Start time, in milliseconds since the Unix epoch, where known.
    pub start_time_ms: Option<i64>,
    pub is_live: bool,
    pub bookmaker_slug: String,
    pub raw_url: Option<String>,
    pub extra: Vec<JsonMember>,
}

/// A price offered on an event.
#[derive(Debug)]
pub struct Odd {
    pub id: String,
    pub event_id: String,
    pub bookmaker_slug: String,
    pub market: String,
    pub selection: String,
    /// The decimal price, as the feed wrote it.
    pub price: JsonNumber,
    pub odds_type: OddsType,
    /// The line (handicap or total), as the feed wrote it, where the market
    /// has one.
    pub line: Option<JsonNumber>,
    /// When the price was read, in milliseconds since the Unix epoch.
    pub timestamp_ms: i64,
}

/// An event as plain values.
pub struct EventView {
    pub id: Seq<char>,
    pub sport: Sport,
    pub league: Seq<char>,
    pub home_team: Seq<char>,
    pub away_team: Seq<char>,
    pub start_time_ms: Option<i64>,
    pub is_live: bool,
    pub bookmaker_slug: Seq<char>,
    pub raw_url: Option<Seq<char>>,
    pub extra: Seq<JsonMember>,
}

impl View for Event {
    type V = EventView;

    open spec fn view(&self) -> EventView {
        EventView {
            id: self.id@,
            sport: self.sport,
            league: self.league@,
            home_team: self.home_team@,
            away_team: self.away_team@,
            start_time_ms: self.start_time_ms,
            is_live: self.is_live,
            bookmaker_slug: self.bookmaker_slug@,
            raw_url: match self.raw_url {
                Some(u) => Some(u@),
                None => None,
            },
            extra: self.extra@,
        }
    }
}

/// A price as plain values.
pub struct OddView {
    pub id: Seq<char>,
    pub event_id: Seq<char>,
    pub bookmaker_slug: Seq<char>,
    pub market: Seq<char>,
    pub selection: Seq<char>,
    pub price: JsonNumber,
    pub odds_type: OddsType,
    pub line: Option<JsonNumber>,
    pub timestamp_ms: i64,
}

impl View for Odd {
    type V = OddView;

    open spec fn view(&self) -> OddView {
        OddView {
            id: self.id@,
            event_id: self.event_id@,
            bookmaker_slug: self.bookmaker_slug@,
            market: self.market@,
            selection: self.selection@,
            price: self.price,
            odds_type: self.odds_type,
            line: self.line,
            timestamp_ms: self.timestamp_ms,
        }
    }
}

/// The views of a list of events.
pub open spec fn event_views(s: Seq<Event>) -> Seq<EventView> {
    s.map_values(|e: Event| e@)
}

/// The views of a list of prices.
pub open spec fn odd_views(s: Seq<Odd>) -> Seq<OddView> {
    s.map_values(|o: Odd| o@)
}

/// The ids of a list of events.
pub open spec fn event_ids_of(es: Seq<Event>) -> Seq<Seq<char>> {
    es.map_values(|e: Event| e.id@)
}

/// The ids of a list of prices.
pub open spec fn odd_ids_of(os: Seq<Odd>) -> Seq<Seq<char>> {
    os.map_values(|o: Odd| o.id@)
}

/// Adds `event` to `events` unless an event with its id is there.
pub fn push_new_event(events: &mut Vec<Event>, event: Event)
    ensures
        event_ids_of(old(events)@).contains(event.id@) ==> final(events)@ == old(events)@,
        !event_ids_of(old(events)@).contains(event.id@) ==> final(events)@ == old(events)@.push(event),
{
    let mut i: usize = 0;
    while i < events.len()
        invariant
            i <= events@.len(),
            events@ == old(events)@,
            forall|k: int| 0 <= k < i ==> events@[k].id@ != event.id@,
        decreases events@.len() - i,
    {
        if str_eq(events[i].id.as_str(), event.id.as_str()) {
            assert(event_ids_of(events@)[i as int] == event.id@);
            return;
        }
        i = i + 1;
    }
    assert(!event_ids_of(events@).contains(event.id@)) by {
        if event_ids_of(events@).contains(event.id@) {
            let k = choose|k: int| 0 <= k < event_ids_of(events@).len() && event_ids_of(events@)[k] == event.id@;
            assert(events@[k].id@ == event.id@);
        }
    }
    events.push(event);
}

/// Adds `odd` to `odds` unless a price with its id is there.
pub fn push_new_odd(odds: &mut Vec<Odd>, odd: Odd)
    ensures
        odd_ids_of(old(odds)@).contains(odd.id@) ==> final(odds)@ == old(odds)@,
        !odd_ids_of(old(odds)@).contains(odd.id@) ==> final(odds)@ == old(odds)@.push(odd),
{
    let mut i: usize = 0;
    while i < odds.len()
        invariant
            i <= odds@.len(),
            odds@ == old(odds)@,
            forall|k: int| 0 <= k < i ==> odds@[k].id@ != odd.id@,
        decreases odds@.len() - i,
    {
        if str_eq(odds[i].id.as_str(), odd.id.as_str()) {
            assert(odd_ids_of(odds@)[i as int] == odd.id@);
            return;
        }
        i = i + 1;
    }
    assert(!odd_ids_of(odds@).contains(odd.id@)) by {
        if odd_ids_of(odds@).contains(odd.id@) {
            let k = choose|k: int| 0 <= k < odd_ids_of(odds@).len() && odd_ids_of(odds@)[k] == odd.id@;
            assert(odds@[k].id@ == odd.id@);
        }
    }
    odds.push(odd);
}

/// Pushing only what is new keeps ids unique: where `events` has no two
/// events with one id, neither has the list after `push_new_event`.
pub proof fn law_push_new_event_keeps_ids_unique(before: Seq<Event>, event: Event)
    requires
        event_ids_of(before).no_duplicates(),
    ensures
        !event_ids_of(before).contains(event.id@) ==> event_ids_of(before.push(event)).no_duplicates(),
{
    if !event_ids_of(before).contains(event.id@) {
        let after = before.push(event);
        assert(event_ids_of(after) =~= event_ids_of(before).push(event.id@));
        assert forall|i: int, j: int|
            0 <= i < event_ids_of(after).len() && 0 <= j < event_ids_of(after).len() && i != j implies event_ids_of(
            after,
        )[i] != event_ids_of(after)[j] by {
            if i == before.len() {
                assert(event_ids_of(before).contains(event_ids_of(before)[j]));
            } else if j == before.len() {
                assert(event_ids_of(before).contains(event_ids_of(before)[i]));
            }
        }
    }
}

/// What one run of a parser produced.
#[derive(Debug)]
pub struct ParserResult {
    pub bookmaker: String,
    pub events: Vec<Event>,
    pub odds: Vec<Odd>,
    pub fetch_time_ms: u64,
}

impl ParserResult {
    /// The result of a run of `bookmaker` that took `fetch_time_ms`.
    pub fn new(bookmaker: &str, events: Vec<Event>, odds: Vec<Odd>, fetch_time_ms: u64) -> (r: ParserResult)
        ensures
            r.bookmaker@ == bookmaker@,
            r.events@ == events@,
            r.odds@ == odds@,
            r.fetch_time_ms == fetch_time_ms,
    {
        ParserResult { bookmaker: bookmaker.to_owned(), events, odds, fetch_time_ms }
    }

    /// Whether the run produced neither events nor prices.
    pub fn is_empty(&self) -> (r: bool)
        ensures
            r == (self.events@.len() == 0 && self.odds@.len() == 0),
    {
        self.events.len() == 0 && self.odds.len() == 0
    }
}

} // verus!
