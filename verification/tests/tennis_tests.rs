use bookparsers::sport::Sport;
use bookparsers::tennis::{
    get_surface, match_to_event, CircuitBreaker, GameScore, MatchStatus, Score, SetScore, Surface,
    TennisMatch, TournamentCategory, TournamentInfo,
};

const NOW_MS: i64 = 1_700_000_000_000;
const HOUR_MS: i64 = 3_600_000;

fn scheduled_match(id: &str, tournament_id: &str, p1: &str, p2: &str, round: &str) -> TennisMatch {
    TennisMatch {
        id: id.to_string(),
        tournament_id: tournament_id.to_string(),
        player1: p1.to_string(),
        player2: p2.to_string(),
        player1_seed: None,
        player2_seed: None,
        status: MatchStatus::Scheduled,
        score: None,
        scheduled_time_ms: NOW_MS,
        started_at_ms: None,
        round: round.to_string(),
        court: None,
    }
}

#[test]
fn test_match_to_event_conversion() {
    let tennis_match = TennisMatch {
        id: "match123".to_string(),
        tournament_id: "wimbledon".to_string(),
        player1: "Novak Djokovic".to_string(),
        player2: "Carlos Alcaraz".to_string(),
        player1_seed: Some(1),
        player2_seed: Some(2),
        status: MatchStatus::Scheduled,
        score: None,
        scheduled_time_ms: NOW_MS,
        started_at_ms: None,
        round: "Final".to_string(),
        court: Some("Centre Court".to_string()),
    };

    let event = match_to_event(&tennis_match);
    assert_eq!(event.sport, Sport::Tennis);
    assert_eq!(event.home_team, "Novak Djokovic");
    assert_eq!(event.away_team, "Carlos Alcaraz");
    assert_eq!(event.bookmaker_slug, "tennis");
    assert!(!event.is_live);
}

#[test]
fn test_match_status_live_detection() {
    let tennis_match_live = TennisMatch {
        id: "match123".to_string(),
        tournament_id: "wimbledon".to_string(),
        player1: "Roger Federer".to_string(),
        player2: "Rafael Nadal".to_string(),
        player1_seed: None,
        player2_seed: None,
        status: MatchStatus::Live,
        score: Some(Score {
            sets: vec![SetScore {
                set_number: 1,
                player1_games: 6,
                player2_games: 4,
                player1_points: None,
                player2_points: None,
            }],
            current_game: Some(GameScore { player1_points: 30, player2_points: 15 }),
        }),
        scheduled_time_ms: NOW_MS - HOUR_MS,
        started_at_ms: Some(NOW_MS - HOUR_MS),
        round: "Semi-Final".to_string(),
        court: Some("Court 1".to_string()),
    };

    let event = match_to_event(&tennis_match_live);
    assert!(event.is_live);
}

#[test]
fn test_tournament_category_mapping() {
    assert_eq!(get_surface("french-open"), Surface::Clay);
    assert_eq!(get_surface("wimbledon"), Surface::Grass);
    assert_eq!(get_surface("us-open"), Surface::Hard);
    assert_eq!(get_surface("australian-open"), Surface::Hard);
}

#[test]
fn test_circuit_breaker_threshold() {
    let mut cb = CircuitBreaker::new(3, 60);
    assert!(!cb.is_open_at(0));
}

#[test]
fn test_circuit_breaker_opens_after_failures() {
    let mut cb = CircuitBreaker::new(2, 60);

    cb.record_failure_at(1_000);
    assert!(!cb.is_open_at(1_000));

    cb.record_failure_at(1_000);
    assert!(cb.is_open_at(1_000));
}

#[test]
fn test_circuit_breaker_resets_on_success() {
    let mut cb = CircuitBreaker::new(2, 60);
    cb.record_failure_at(1_000);
    cb.record_failure_at(1_000);
    assert!(cb.is_open_at(1_000));

    cb.record_success();
    assert!(!cb.is_open_at(1_000));
}

#[test]
fn circuit_breaker_closes_once_the_timeout_has_passed() {
    let mut cb = CircuitBreaker::new(1, 60);
    cb.record_failure_at(1_000);
    assert!(cb.is_open_at(61_000));
    assert!(!cb.is_open_at(62_000));
    assert_eq!(cb.failure_count, 0);
    assert!(!cb.is_open_at(62_001));
}

#[test]
fn test_event_id_format() {
    let tennis_match = scheduled_match("abc123", "ao", "P1", "P2", "R1");

    let event = match_to_event(&tennis_match);
    assert_eq!(event.id, "tennis_abc123");
    assert!(event.raw_url.is_some());
}

#[test]
fn test_tournament_info_creation() {
    let tournament = TournamentInfo {
        id: "wimbledon".to_string(),
        name: "Wimbledon".to_string(),
        category: TournamentCategory::GrandSlam,
        country: "United Kingdom".to_string(),
        surface: Surface::Grass,
        start_date_ms: NOW_MS,
        end_date_ms: NOW_MS + 14 * 24 * HOUR_MS,
        is_live: true,
    };

    assert_eq!(tournament.id, "wimbledon");
    assert_eq!(tournament.category as u8, TournamentCategory::GrandSlam as u8);
}

#[test]
fn match_event_carries_league_url_and_extras() {
    let mut m = scheduled_match("m9", "us-open", "A", "B", "QF");
    m.player1_seed = Some(4);
    m.court = Some("Ashe".to_string());
    let event = match_to_event(&m);
    assert_eq!(event.league, "ATP/WTA us-open");
    assert_eq!(event.raw_url.as_deref(), Some("https://tennis.api.espn.com/match/m9"));
    assert_eq!(event.start_time_ms, Some(NOW_MS));
    assert_eq!(event.extra.len(), 5);
    assert_eq!(event.extra[0].key, "tournament_id");
    assert_eq!(event.extra[4].key, "court");
}

#[test]
fn market_prices_carry_both_players() {
    use_odds();
}

fn use_odds() {
    let o = bookparsers::tennis::TennisOdds {
        match_id: "m9".to_string(),
        market_type: bookparsers::tennis::MarketType::FirstSetWinner,
        player1: "Sinner".to_string(),
        player2: "Alcaraz".to_string(),
        odds1: bookparsers::json::JsonNumber::FloatBits(1.7f64.to_bits()),
        odds2: bookparsers::json::JsonNumber::FloatBits(2.1f64.to_bits()),
        player1_line: None,
        player2_line: Some(bookparsers::json::JsonNumber::FloatBits((-1.5f64).to_bits())),
        timestamp_ms: 11,
    };
    let odds = bookparsers::tennis::odds_to_odd(&o);
    assert_eq!(odds.len(), 2);
    assert_eq!(odds[0].id, "m9_5_p1");
    assert_eq!(odds[1].id, "m9_5_p2");
    assert_eq!(odds[0].event_id, "tennis_m9");
    assert_eq!(odds[0].market, "FirstSetWinner");
    assert_eq!(odds[1].selection, "Alcaraz");
    assert_eq!(odds[1].odds_type, bookparsers::model::OddsType::Away);
    assert_eq!(odds[1].line, o.player2_line);
    assert_eq!(odds[0].timestamp_ms, 11);
}
