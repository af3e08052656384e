//! Tennis (ATP/WTA): tournaments, matches and scores, the circuit breaker
//! that guards the feed, and the conversion of a match into an event.

use crate::json::{JsonMember, JsonNumber, JsonValue};
use crate::model::{odd_views, Event, Odd, OddView, OddsType};
use crate::sport::Sport;
use crate::text::{dec, owned, push_decimal, push_str, str_eq};
use vstd::prelude::*;

verus! {

/// The grade of a tournament.
#[derive(Clone, Copy, Debug, PartialEq, Eq, Structural)]
pub enum TournamentCategory {
    GrandSlam,
    Masters1000,
    Masters500,
    Masters250,
    WTA1000,
    WTA500,
    WTA250,
}

/// A court surface.
#[derive(Clone, Copy, Debug, PartialEq, Eq, Structural)]
pub enum Surface {
    Hard,
    Clay,
    Grass,
    Carpet,
}

/// Where a match stands.
#[derive(Clone, Copy, Debug, PartialEq, Eq, Structural)]
pub enum MatchStatus {
    Scheduled,
    Live,
    Completed,
    Postponed,
    Cancelled,
}

/// The score of one set.
#[derive(Clone, Copy, Debug)]
pub struct SetScore {
    pub set_number: u32,
    pub player1_games: u32,
    pub player2_games: u32,
    pub player1_points: Option<u32>,
    pub player2_points: Option<u32>,
}

/// The points of the game in play.
#[derive(Clone, Copy, Debug)]
pub struct GameScore {
    pub player1_points: u32,
    pub player2_points: u32,
}

/// The score of a match: its sets and the game in play.
#[derive(Clone, Debug)]
pub struct Score {
    pub sets: Vec<SetScore>,
    pub current_game: Option<GameScore>,
}

/// A tournament.
#[derive(Debug)]
pub struct TournamentInfo {
    pub id: String,
    pub name: String,
    pub category: TournamentCategory,
    pub country: String,
    pub surface: Surface,
    /// First day, in milliseconds since the Unix epoch.
    pub start_date_ms: i64,
    /// Last day, in milliseconds since the Unix epoch.
    pub end_date_ms: i64,
    pub is_live: bool,
}

/// A match.
#[derive(Debug)]
pub struct TennisMatch {
    pub id: String,
    pub tournament_id: String,
    pub player1: String,
    pub player2: String,
    pub player1_seed: Option<u32>,
    pub player2_seed: Option<u32>,
    pub status: MatchStatus,
    pub score: Option<Score>,
    /// Scheduled start, in milliseconds since the Unix epoch.
    pub scheduled_time_ms: i64,
    /// Actual start, in milliseconds since the Unix epoch, once started.
    pub started_at_ms: Option<i64>,
    pub round: String,
    pub court: Option<String>,
}

/// The surface a tournament is played on: clay at the French Open, grass at
/// Wimbledon, hard courts elsewhere.
pub open spec fn surface_of(tournament_id: Seq<char>) -> Surface {
    if tournament_id == "french-open"@ {
        Surface::Clay
    } else if tournament_id == "wimbledon"@ {
        Surface::Grass
    } else {
        Surface::Hard
    }
}

/// The surface a tournament is played on.
pub fn get_surface(tournament_id: &str) -> (r: Surface)
    ensures
        r == surface_of(tournament_id@),
{
    if str_eq(tournament_id, "french-open") {
        Surface::Clay
    } else if str_eq(tournament_id, "wimbledon") {
        Surface::Grass
    } else {
        Surface::Hard
    }
}

/// Stops calls to a failing feed: opens after `threshold` failures and
/// closes again once `timeout_secs` whole seconds have passed since the last
/// failure.
#[derive(Clone, Copy, Debug)]
pub struct CircuitBreaker {
    pub failure_count: u32,
    /// When the last failure happened, in milliseconds on a monotonic clock.
    pub last_failure_ms: Option<u64>,
    pub threshold: u32,
    pub timeout_secs: u64,
}

impl CircuitBreaker {
    /// A closed breaker.
    pub fn new(threshold: u32, timeout_secs: u64) -> (r: CircuitBreaker)
        ensures
            r.failure_count == 0,
            r.last_failure_ms is None,
            r.threshold == threshold,
            r.timeout_secs == timeout_secs,
    {
        CircuitBreaker { failure_count: 0, last_failure_ms: None, threshold, timeout_secs }
    }

    /// Whether the timeout has run out at `now_ms`.
    pub open spec fn timed_out(self, now_ms: u64) -> bool {
        match self.last_failure_ms {
            Some(t) => now_ms >= t && (now_ms - t) / 1000 > self.timeout_secs,
            None => false,
        }
    }

    /// Whether calls are blocked at `now_ms`. A breaker whose timeout has run
    /// out closes: its count and last failure are cleared.
    pub fn is_open_at(&mut self, now_ms: u64) -> (r: bool)
        ensures
            old(self).failure_count < old(self).threshold ==> !r && *final(self) == *old(self),
            old(self).failure_count >= old(self).threshold && old(self).timed_out(now_ms) ==> !r
                && final(self).failure_count == 0 && final(self).last_failure_ms is None
                && final(self).threshold == old(self).threshold && final(self).timeout_secs == old(self).timeout_secs,
            old(self).failure_count >= old(self).threshold && !old(self).timed_out(now_ms) ==> r
                && *final(self) == *old(self),
    {
        if self.failure_count < self.threshold {
            return false;
        }
        match self.last_failure_ms {
            Some(t) => {
                if now_ms >= t && (now_ms - t) / 1000 > self.timeout_secs {
                    self.failure_count = 0;
                    self.last_failure_ms = None;
                    return false;
                }
            },
            None => {},
        }
        true
    }

    /// Records a failure at `now_ms`.
    pub fn record_failure_at(&mut self, now_ms: u64)
        ensures
            final(self).failure_count == (if old(self).failure_count == u32::MAX {
                0
            } else {
                old(self).failure_count + 1
            }),
            final(self).last_failure_ms == Some(now_ms),
            final(self).threshold == old(self).threshold,
            final(self).timeout_secs == old(self).timeout_secs,
    {
        self.failure_count = self.failure_count.wrapping_add(1);
        self.last_failure_ms = Some(now_ms);
    }

    /// Records a success: the failure count starts again from zero.
    pub fn record_success(&mut self)
        ensures
            final(self).failure_count == 0,
            final(self).last_failure_ms == old(self).last_failure_ms,
            final(self).threshold == old(self).threshold,
            final(self).timeout_secs == old(self).timeout_secs,
    {
        self.failure_count = 0;
    }
}

/// Whether the breaker blocks calls at `now_ms`: enough failures, and the
/// timeout since the last one not yet run out.
pub open spec fn blocks(b: CircuitBreaker, now_ms: u64) -> bool {
    b.failure_count >= b.threshold && !b.timed_out(now_ms)
}

/// The breaker after failures recorded at the times `ts`, in order (the
/// count wrapping as `record_failure_at` wraps it).
pub open spec fn after_failures(b: CircuitBreaker, ts: Seq<u64>) -> CircuitBreaker
    decreases ts.len(),
{
    if ts.len() == 0 {
        b
    } else {
        let p = after_failures(b, ts.drop_last());
        CircuitBreaker {
            failure_count: if p.failure_count == u32::MAX {
                0
            } else {
                (p.failure_count + 1) as u32
            },
            last_failure_ms: Some(ts.last()),
            threshold: p.threshold,
            timeout_secs: p.timeout_secs,
        }
    }
}

/// Failures add up: after `ts` the count has grown by their number (short
/// of wrapping), and the last failure is the last of `ts`.
proof fn lemma_after_failures(b: CircuitBreaker, ts: Seq<u64>)
    requires
        b.failure_count + ts.len() <= u32::MAX,
    ensures
        after_failures(b, ts).failure_count == b.failure_count + ts.len(),
        after_failures(b, ts).threshold == b.threshold,
        after_failures(b, ts).timeout_secs == b.timeout_secs,
        ts.len() > 0 ==> after_failures(b, ts).last_failure_ms == Some(ts.last()),
    decreases ts.len(),
{
    if ts.len() > 0 {
        lemma_after_failures(b, ts.drop_last());
    }
}

/// A breaker opens once `threshold` failures are counted: right after the
/// last of them, calls are blocked (the count not wrapping).
pub proof fn law_failures_open_breaker(b: CircuitBreaker, ts: Seq<u64>)
    requires
        ts.len() > 0,
        b.failure_count + ts.len() >= b.threshold,
        b.failure_count + ts.len() <= u32::MAX,
    ensures
        blocks(after_failures(b, ts), ts.last()),
{
    lemma_after_failures(b, ts);
}

/// A success closes the breaker: with its count back at zero, calls pass
/// whenever the threshold is above zero.
pub proof fn law_success_closes_breaker(b: CircuitBreaker, now_ms: u64)
    requires
        b.threshold > 0,
    ensures
        !blocks(CircuitBreaker { failure_count: 0, ..b }, now_ms),
{
}

/// An open breaker lets calls through again once more than `timeout_secs`
/// whole seconds have passed since the last failure.
pub proof fn law_breaker_recovers_after_timeout(b: CircuitBreaker, t: u64, now_ms: u64)
    requires
        b.last_failure_ms == Some(t),
        now_ms >= t + (b.timeout_secs + 1) * 1000,
    ensures
        !blocks(b, now_ms),
{
    assert((now_ms - t) / 1000 >= b.timeout_secs + 1) by (nonlinear_arith)
        requires
            now_ms - t >= (b.timeout_secs + 1) * 1000,
    ;
}

/// A string member.
fn text_member(key: &str, value: String) -> (r: JsonMember)
    ensures
        is_text_member(r, key@, value@),
{
    JsonMember { key: owned(key), value: JsonValue::Str(value) }
}

/// A number member.
fn number_member(key: &str, value: u32) -> (r: JsonMember)
    ensures
        is_number_member(r, key@, value as u64),
{
    JsonMember { key: owned(key), value: JsonValue::Number(JsonNumber::PosInt(value as u64)) }
}

/// A member `key` holding the text `v`.
pub open spec fn is_text_member(m: JsonMember, key: Seq<char>, v: Seq<char>) -> bool {
    m.key@ == key && (m.value matches JsonValue::Str(s) && s@ == v)
}

/// A member `key` holding the number `n`.
pub open spec fn is_number_member(m: JsonMember, key: Seq<char>, n: u64) -> bool {
    m.key@ == key && (m.value matches JsonValue::Number(JsonNumber::PosInt(x)) && x == n)
}

/// A seed, or zero when unseeded.
pub open spec fn seed_or_zero(s: Option<u32>) -> u64 {
    match s {
        Some(x) => x as u64,
        None => 0,
    }
}

/// The event for a match: `tennis_<id>` in league `ATP/WTA <tournament>`,
/// live while the match is, linked to the match page, with the tournament,
/// round, seeds (zero when unseeded) and court as extra members.
pub open spec fn is_match_event(e: Event, m: TennisMatch) -> bool {
    &&& e.id@ == "tennis_"@ + m.id@
    &&& e.sport == Sport::Tennis
    &&& e.league@ == "ATP/WTA "@ + m.tournament_id@
    &&& e.home_team@ == m.player1@
    &&& e.away_team@ == m.player2@
    &&& e.start_time_ms == Some(m.scheduled_time_ms)
    &&& e.is_live == (m.status == MatchStatus::Live)
    &&& e.bookmaker_slug@ == "tennis"@
    &&& e.raw_url matches Some(u) && u@ == "https://tennis.api.espn.com/match/"@ + m.id@
    &&& e.extra@.len() == (if m.court is Some { 5int } else { 4int })
    &&& is_text_member(e.extra@[0], "tournament_id"@, m.tournament_id@)
    &&& is_text_member(e.extra@[1], "round"@, m.round@)
    &&& is_number_member(e.extra@[2], "player1_seed"@, seed_or_zero(m.player1_seed))
    &&& is_number_member(e.extra@[3], "player2_seed"@, seed_or_zero(m.player2_seed))
    &&& (m.court matches Some(c) ==> is_text_member(e.extra@[4], "court"@, c@))
}

/// The event for a match.
pub fn match_to_event(m: &TennisMatch) -> (r: Event)
    ensures
        is_match_event(r, *m),
{
    let mut id = owned("tennis_");
    push_str(&mut id, m.id.as_str());
    let mut league = owned("ATP/WTA ");
    push_str(&mut league, m.tournament_id.as_str());
    let mut url = owned("https://tennis.api.espn.com/match/");
    push_str(&mut url, m.id.as_str());
    let mut extra: Vec<JsonMember> = Vec::new();
    extra.push(text_member("tournament_id", m.tournament_id.clone()));
    extra.push(text_member("round", m.round.clone()));
    let seed1 = match m.player1_seed {
        Some(x) => x,
        None => 0,
    };
    let seed2 = match m.player2_seed {
        Some(x) => x,
        None => 0,
    };
    extra.push(number_member("player1_seed", seed1));
    extra.push(number_member("player2_seed", seed2));
    match &m.court {
        Some(c) => extra.push(text_member("court", c.clone())),
        None => {},
    }
    Event {
        id,
        sport: Sport::Tennis,
        league,
        home_team: m.player1.clone(),
        away_team: m.player2.clone(),
        start_time_ms: Some(m.scheduled_time_ms),
        is_live: m.status == MatchStatus::Live,
        bookmaker_slug: owned("tennis"),
        raw_url: Some(url),
        extra,
    }
}

/// The markets tennis prices are offered on.
#[derive(Clone, Copy, Debug, PartialEq, Eq, Structural)]
pub enum MarketType {
    MatchWinner,
    SetBetting,
    GameBetting,
    CorrectScore,
    TieBreak,
    FirstSetWinner,
    TotalGames,
    TotalGamesSets,
}

/// The position of a market type in its declaration (its `as u8`).
pub open spec fn market_index(m: MarketType) -> nat {
    match m {
        MarketType::MatchWinner => 0,
        MarketType::SetBetting => 1,
        MarketType::GameBetting => 2,
        MarketType::CorrectScore => 3,
        MarketType::TieBreak => 4,
        MarketType::FirstSetWinner => 5,
        MarketType::TotalGames => 6,
        MarketType::TotalGamesSets => 7,
    }
}

/// The name of a market type (its `Debug` text).
pub open spec fn market_name(m: MarketType) -> Seq<char> {
    match m {
        MarketType::MatchWinner => "MatchWinner"@,
        MarketType::SetBetting => "SetBetting"@,
        MarketType::GameBetting => "GameBetting"@,
        MarketType::CorrectScore => "CorrectScore"@,
        MarketType::TieBreak => "TieBreak"@,
        MarketType::FirstSetWinner => "FirstSetWinner"@,
        MarketType::TotalGames => "TotalGames"@,
        MarketType::TotalGamesSets => "TotalGamesSets"@,
    }
}

impl MarketType {
    /// The position of the market type in its declaration.
    pub fn index(self) -> (r: u8)
        ensures
            r == market_index(self),
    {
        match self {
            MarketType::MatchWinner => 0,
            MarketType::SetBetting => 1,
            MarketType::GameBetting => 2,
            MarketType::CorrectScore => 3,
            MarketType::TieBreak => 4,
            MarketType::FirstSetWinner => 5,
            MarketType::TotalGames => 6,
            MarketType::TotalGamesSets => 7,
        }
    }

    /// The name of the market type.
    pub fn name(self) -> (r: &'static str)
        ensures
            r@ == market_name(self),
    {
        match self {
            MarketType::MatchWinner => "MatchWinner",
            MarketType::SetBetting => "SetBetting",
            MarketType::GameBetting => "GameBetting",
            MarketType::CorrectScore => "CorrectScore",
            MarketType::TieBreak => "TieBreak",
            MarketType::FirstSetWinner => "FirstSetWinner",
            MarketType::TotalGames => "TotalGames",
            MarketType::TotalGamesSets => "TotalGamesSets",
        }
    }
}

/// The two prices of a tennis market: the players' prices and lines as the
/// feed wrote them, read at `timestamp_ms`.
#[derive(Debug)]
pub struct TennisOdds {
    pub match_id: String,
    pub market_type: MarketType,
    pub player1: String,
    pub player2: String,
    pub odds1: JsonNumber,
    pub odds2: JsonNumber,
    pub player1_line: Option<JsonNumber>,
    pub player2_line: Option<JsonNumber>,
    pub timestamp_ms: i64,
}

/// The price of one player of a tennis market.
pub open spec fn tennis_odd(o: TennisOdds, second: bool) -> OddView {
    OddView {
        id: o.match_id@ + "_"@ + dec(market_index(o.market_type)) + if second {
            "_p2"@
        } else {
            "_p1"@
        },
        event_id: "tennis_"@ + o.match_id@,
        bookmaker_slug: "tennis"@,
        market: market_name(o.market_type),
        selection: if second {
            o.player2@
        } else {
            o.player1@
        },
        price: if second {
            o.odds2
        } else {
            o.odds1
        },
        odds_type: if second {
            OddsType::Away
        } else {
            OddsType::Home
        },
        line: if second {
            o.player2_line
        } else {
            o.player1_line
        },
        timestamp_ms: o.timestamp_ms,
    }
}

/// The prices of a tennis market: the first player's (home) and the
/// second's (away), on the market named by its type.
pub fn odds_to_odd(odds: &TennisOdds) -> (r: Vec<Odd>)
    ensures
        odd_views(r@) == seq![tennis_odd(*odds, false), tennis_odd(*odds, true)],
{
    let mut out: Vec<Odd> = Vec::new();
    let mut k: usize = 0;
    while k < 2
        invariant
            k <= 2,
            odd_views(out@) == seq![tennis_odd(*odds, false), tennis_odd(*odds, true)].take(k as int),
        decreases 2 - k,
    {
        let second = k == 1;
        let mut id = odds.match_id.clone();
        push_str(&mut id, "_");
        push_decimal(&mut id, odds.market_type.index() as u64);
        push_str(&mut id, if second { "_p2" } else { "_p1" });
        let mut event_id = owned("tennis_");
        push_str(&mut event_id, odds.match_id.as_str());
        let o = Odd {
            id,
            event_id,
            bookmaker_slug: owned("tennis"),
            market: owned(odds.market_type.name()),
            selection: if second { odds.player2.clone() } else { odds.player1.clone() },
            price: if second { odds.odds2 } else { odds.odds1 },
            odds_type: if second { OddsType::Away } else { OddsType::Home },
            line: if second { odds.player2_line } else { odds.player1_line },
            timestamp_ms: odds.timestamp_ms,
        };
        assert(o@ == tennis_odd(*odds, second));
        let ghost prev = out@;
        out.push(o);
        assert(out@ == prev.push(o));
        assert(odd_views(out@) =~= odd_views(prev).push(o@));
        assert(odd_views(out@) =~= seq![tennis_odd(*odds, false), tennis_odd(*odds, true)].take(k + 1));
        k = k + 1;
    }
    out
}

} // verus!
