use bookparsers::model::{push_new_event, push_new_odd};
use bookparsers::model::ParserResult;
use bookparsers::olimp::extract_status_code;
use bookparsers::sport::Sport;
use bookparsers::tennis::{
    get_surface, match_to_event, CircuitBreaker, GameScore, MatchStatus, Score, SetScore, Surface,
    TennisMatch,
};
use bookparsers::tennisi::{
    absolute_url, canonical_header, classify_event_title, detect_live_sport, is_date_marker,
    is_generic_live_filter_row, is_valid_competitor, is_valid_outright_title, looks_like_market_label,
    prematch_probes, sanitize_event_title, split_match_title,
};

#[test]
fn status_code_extraction() {
    let error = std::io::Error::other("HTTP 403: Forbidden");
    let code = extract_status_code(&error.to_string());

    assert_eq!(code, Some(403));
}

#[test]
fn status_code_needs_http_marker_and_digits() {
    assert_eq!(extract_status_code("connection reset"), None);
    assert_eq!(extract_status_code("HTTP status unknown"), None);
    assert_eq!(extract_status_code("upstream said HTTP code=502 (bad gateway)"), Some(502));
    assert_eq!(extract_status_code("HTTP 70000"), None);
    assert_eq!(extract_status_code("HTTP 200 then HTTP 404"), Some(200));
}

#[test]
fn test_match_score_parsing() {
    let score = Score {
        sets: vec![
            SetScore {
                set_number: 1,
                player1_games: 6,
                player2_games: 4,
                player1_points: None,
                player2_points: None,
            },
            SetScore {
                set_number: 2,
                player1_games: 5,
                player2_games: 3,
                player1_points: Some(30),
                player2_points: Some(15),
            },
        ],
        current_game: Some(GameScore {
            player1_points: 30,
            player2_points: 15,
        }),
    };

    assert_eq!(score.sets.len(), 2);
    assert_eq!(score.sets[0].player1_games, 6);
    assert_eq!(score.current_game.unwrap().player1_points, 30);
}

#[test]
fn test_parser_result_creation() {
    let events = vec![];
    let odds = vec![];
    let result = ParserResult::new("tennis", events, odds, 100);

    assert_eq!(result.bookmaker, "tennis");
    assert_eq!(result.fetch_time_ms, 100);
    assert!(result.is_empty());
}

#[test]
fn surfaces_by_tournament() {
    assert_eq!(get_surface("french-open"), Surface::Clay);
    assert_eq!(get_surface("wimbledon"), Surface::Grass);
    assert_eq!(get_surface("us-open"), Surface::Hard);
    assert_eq!(get_surface("somewhere"), Surface::Hard);
}

#[test]
fn circuit_breaker_opens_and_times_out() {
    let mut breaker = CircuitBreaker::new(2, 5);
    assert!(!breaker.is_open_at(0));
    breaker.record_failure_at(1_000);
    assert!(!breaker.is_open_at(1_500));
    breaker.record_failure_at(2_000);
    assert!(breaker.is_open_at(2_500));
    assert!(breaker.is_open_at(7_999));
    assert!(!breaker.is_open_at(8_000));
    assert_eq!(breaker.failure_count, 0);
    breaker.record_failure_at(9_000);
    breaker.record_success();
    assert_eq!(breaker.failure_count, 0);
}

#[test]
fn match_becomes_event() {
    let m = TennisMatch {
        id: "m1".to_string(),
        tournament_id: "wimbledon".to_string(),
        player1: "A".to_string(),
        player2: "B".to_string(),
        player1_seed: Some(3),
        player2_seed: None,
        status: MatchStatus::Live,
        score: None,
        scheduled_time_ms: 1_700_000_000_000,
        started_at_ms: None,
        round: "R16".to_string(),
        court: Some("Centre".to_string()),
    };
    let e = match_to_event(&m);
    assert_eq!(e.id, "tennis_m1");
    assert_eq!(e.league, "ATP/WTA wimbledon");
    assert_eq!(e.sport, Sport::Tennis);
    assert!(e.is_live);
    assert_eq!(e.raw_url.as_deref(), Some("https://tennis.api.espn.com/match/m1"));
    assert_eq!(e.extra.len(), 5);
    assert_eq!(e.extra[4].key, "court");
}

#[test]
fn prematch_probes_pin_known_category_ids_for_core_sports() {
    let probes = prematch_probes();
    let football = probes
        .iter()
        .find(|probe| probe.slug == "football")
        .expect("football probe should exist");
    let basketball = probes
        .iter()
        .find(|probe| probe.slug == "basketball")
        .expect("basketball probe should exist");
    let darts = probes
        .iter()
        .find(|probe| probe.slug == "darts")
        .expect("darts probe should exist");
    let trends = probes
        .iter()
        .find(|probe| probe.slug == "trends")
        .expect("trends probe should exist");

    assert_eq!(football.category_id, Some("137"));
    assert_eq!(basketball.category_id, Some("140"));
    assert_eq!(darts.category_id, Some("58446467"));
    assert_eq!(trends.category_id, Some("491109347"));
}

#[test]
fn splits_titles_with_relaxed_dash_spacing() {
    assert_eq!(
        split_match_title("Спартак -ЦСКА"),
        Some(("Спартак".to_string(), "ЦСКА".to_string()))
    );
    assert_eq!(
        split_match_title("Real Madrid - Barcelona"),
        Some(("Real Madrid".to_string(), "Barcelona".to_string()))
    );
    assert_eq!(
        split_match_title("A  vs   B"),
        Some(("A".to_string(), "B".to_string()))
    );
    assert_eq!(split_match_title("Saint-Etienne"), None);
    assert_eq!(split_match_title("X - X"), None);
}

#[test]
fn classifies_outrights_only_prematch() {
    assert_eq!(
        classify_event_title("Чемпионат мира. Победитель", false),
        Some(("Чемпионат мира. Победитель".to_string(), "Field".to_string(), true))
    );
    assert_eq!(classify_event_title("Чемпионат мира. Победитель", true), None);
    assert!(!is_valid_outright_title("Тотал голов"));
    assert_eq!(
        classify_event_title("A - B", true),
        Some(("A".to_string(), "B".to_string(), false))
    );
}

#[test]
fn competitor_names() {
    assert!(is_valid_competitor("  Зенит "));
    assert!(!is_valid_competitor("A"));
    assert!(!is_valid_competitor("TBD"));
    assert!(!is_valid_competitor("12.03 - 15"));
    assert!(!is_valid_competitor(&"x".repeat(121)));
    assert!(is_valid_competitor(&"x".repeat(120)));
}

#[test]
fn titles_and_headers() {
    assert_eq!(sanitize_event_title("Финал  кубка. Специальные ставки"), "Финал кубка");
    assert_eq!(canonical_header(" п 1 "), "П1");
    assert!(looks_like_market_label("tm"));
    assert!(!looks_like_market_label("Команда"));
    assert!(is_generic_live_filter_row("- Все + Все"));
    assert!(!is_generic_live_filter_row("Футбол"));
}

#[test]
fn links_dates_and_sports() {
    assert_eq!(absolute_url("http://x.y/z"), "http://x.y/z");
    assert_eq!(absolute_url("/sport/a"), "https://tennisi.bet/sport/a");
    assert_eq!(absolute_url("!book"), "https://tennisi.bet/rt/cgi/!book");
    assert!(is_date_marker("Сегодня"));
    assert!(is_date_marker("12.05"));
    assert!(!is_date_marker("Футбол"));
    assert_eq!(detect_live_sport("Настольный теннис", "A - B"), Sport::TableTennis);
    assert_eq!(detect_live_sport("ATP", "Tennis match"), Sport::Tennis);
    assert_eq!(detect_live_sport("Лига", "Футбол"), Sport::Football);
    assert_eq!(detect_live_sport("?", "?"), Sport::Other);
}

#[test]
fn keeps_each_event_and_price_id_once() {
    let event = |id: &str| bookparsers::model::Event {
        id: id.to_string(),
        sport: bookparsers::sport::Sport::Football,
        league: String::new(),
        home_team: "A".to_string(),
        away_team: "B".to_string(),
        start_time_ms: None,
        is_live: false,
        bookmaker_slug: "x".to_string(),
        raw_url: None,
        extra: Vec::new(),
    };
    let mut events = Vec::new();
    push_new_event(&mut events, event("e1"));
    push_new_event(&mut events, event("e2"));
    push_new_event(&mut events, event("e1"));
    assert_eq!(events.len(), 2);
    let odd = |id: &str| bookparsers::model::Odd {
        id: id.to_string(),
        event_id: "e1".to_string(),
        bookmaker_slug: "x".to_string(),
        market: "1X2".to_string(),
        selection: "1".to_string(),
        price: bookparsers::json::JsonNumber::PosInt(2),
        odds_type: bookparsers::model::OddsType::Home,
        line: None,
        timestamp_ms: 0,
    };
    let mut odds = Vec::new();
    push_new_odd(&mut odds, odd("o1"));
    push_new_odd(&mut odds, odd("o1"));
    assert_eq!(odds.len(), 1);
}

#[test]
fn stealth_profiles_and_headers() {
    let config = bookparsers::stealth::StealthConfig::default();
    assert_eq!(config.user_agents.len(), 4);
    assert_eq!(config.viewports[4], (2560, 1440));
    assert_eq!(config.pixel_ratio_bits[1], 1.25f64.to_bits());
    let ua = config.random_ua();
    assert!(config.user_agents.iter().any(|u| u == ua));
    assert!(config.viewports.contains(&config.random_viewport()));
    let headers = config.get_headers();
    assert_eq!(headers.len(), 13);
    assert_eq!(headers[0].0, "User-Agent");
    assert!(config.languages.contains(&headers[1].1));
    assert_eq!(headers[12], ("Cache-Control".to_string(), "max-age=0".to_string()));
}

#[test]
fn json_text_escapes_as_serde_json_does() {
    assert_eq!(bookparsers::json::json_string_text("a\"b\\\n\u{1}é/"), "\"a\\\"b\\\\\\n\\u0001é/\"");
    assert_eq!(bookparsers::json::single_member_json_text("path", "/live\t"), "{\"path\":\"/live\\t\"}");
}
