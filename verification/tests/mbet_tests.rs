use bookparsers::json::{JsonMember, JsonNumber, JsonValue};
use bookparsers::mbet::{MbetEvent, MbetParser};
use bookparsers::model::OddsType;
use bookparsers::proxy::ProxyConfig;
use bookparsers::readiness::ParserReadinessStage;
use bookparsers::registry::BookmakerParser;
use bookparsers::sport::Sport;
use std::sync::Arc;
use std::time::Duration;

fn jv(v: &serde_json::Value) -> JsonValue {
    match v {
        serde_json::Value::Null => JsonValue::Null,
        serde_json::Value::Bool(b) => JsonValue::Bool(*b),
        serde_json::Value::Number(n) => JsonValue::Number(if let Some(u) = n.as_u64() {
            JsonNumber::PosInt(u)
        } else if let Some(i) = n.as_i64() {
            JsonNumber::NegInt(i)
        } else {
            JsonNumber::FloatBits(n.as_f64().unwrap().to_bits())
        }),
        serde_json::Value::String(s) => JsonValue::Str(s.clone()),
        serde_json::Value::Array(a) => JsonValue::Array(a.iter().map(jv).collect()),
        serde_json::Value::Object(m) => JsonValue::Object(
            m.iter()
                .map(|(k, v)| JsonMember { key: k.clone(), value: jv(v) })
                .collect(),
        ),
    }
}

fn json(text: &str) -> JsonValue {
    jv(&serde_json::from_str::<serde_json::Value>(text).expect("test json"))
}

fn client() -> Arc<reqwest::Client> {
    Arc::new(
        reqwest::Client::builder()
            .timeout(Duration::from_secs(30))
            .build()
            .unwrap(),
    )
}

fn event(home: &str, away: &str, start_ms: Option<i64>, fingerprint: &str) -> MbetEvent {
    MbetEvent {
        id: "1".to_string(),
        name: format!("{home} vs {away}"),
        sport: Sport::Football,
        is_live: false,
        start_time_ms: start_ms,
        home_team: home.to_string(),
        away_team: away.to_string(),
        league: Some("RPL".to_string()),
        fingerprint: fingerprint.to_string(),
    }
}

#[test]
fn test_sport_id_mapping() {
    assert_eq!(MbetParser::sport_id(Sport::Football), Some(1));
    assert_eq!(MbetParser::sport_id(Sport::Hockey), Some(2));
    assert_eq!(MbetParser::sport_id(Sport::Basketball), Some(3));
    assert_eq!(MbetParser::sport_id(Sport::Volleyball), Some(4));
    assert_eq!(MbetParser::sport_id(Sport::Tennis), Some(5));
}

#[test]
fn test_sport_from_id() {
    assert_eq!(MbetParser::sport_from_id(1), Sport::Football);
    assert_eq!(MbetParser::sport_from_id(2), Sport::Hockey);
    assert_eq!(MbetParser::sport_from_id(3), Sport::Basketball);
    assert_eq!(MbetParser::sport_from_id(4), Sport::Volleyball);
    assert_eq!(MbetParser::sport_from_id(5), Sport::Tennis);
}

#[test]
fn test_parse_market_factor_1x2() {
    let home = MbetParser::parse_market_factor("1");
    assert!(home.is_some());
    let home = home.unwrap();
    assert_eq!(home.name, "1X2");
    assert_eq!(home.odds_type, OddsType::Home);

    let draw = MbetParser::parse_market_factor("X");
    assert!(draw.is_some());
    let draw = draw.unwrap();
    assert_eq!(draw.name, "1X2");
    assert_eq!(draw.odds_type, OddsType::Draw);

    let away = MbetParser::parse_market_factor("2");
    assert!(away.is_some());
    let away = away.unwrap();
    assert_eq!(away.name, "1X2");
    assert_eq!(away.odds_type, OddsType::Away);
}

#[test]
fn test_parse_market_factor_totals() {
    let over = MbetParser::parse_market_factor("TM_O");
    assert!(over.is_some());
    let over = over.unwrap();
    assert_eq!(over.name, "Total");
    assert_eq!(over.odds_type, OddsType::Over);

    let under = MbetParser::parse_market_factor("TM_U");
    assert!(under.is_some());
    let under = under.unwrap();
    assert_eq!(under.name, "Total");
    assert_eq!(under.odds_type, OddsType::Under);
}

#[test]
fn test_parse_market_factor_corners() {
    let over = MbetParser::parse_market_factor("COR_O");
    assert!(over.is_some());
    let over = over.unwrap();
    assert_eq!(over.name, "Corners");
    assert_eq!(over.odds_type, OddsType::Over);

    let under = MbetParser::parse_market_factor("COR_U");
    assert!(under.is_some());
    let under = under.unwrap();
    assert_eq!(under.name, "Corners");
    assert_eq!(under.odds_type, OddsType::Under);
}

#[test]
fn test_parse_market_factor_cards() {
    let over = MbetParser::parse_market_factor("YC_O");
    assert!(over.is_some());
    let over = over.unwrap();
    assert_eq!(over.name, "Cards");
    assert_eq!(over.odds_type, OddsType::Over);

    let under = MbetParser::parse_market_factor("YC_U");
    assert!(under.is_some());
    let under = under.unwrap();
    assert_eq!(under.name, "Cards");
    assert_eq!(under.odds_type, OddsType::Under);
}

#[test]
fn test_parse_market_factor_invalid() {
    let invalid = MbetParser::parse_market_factor("INVALID");
    assert!(invalid.is_none());
}

#[test]
fn test_fingerprint_generation() {
    // 2026-04-19T15:00:00Z
    let event = event("Team A", "Team B", Some(1_776_610_800_000), "");

    let fingerprint = MbetParser::generate_fingerprint(&event);
    assert!(!fingerprint.is_empty());
    assert!(fingerprint.contains("team a"));
    assert!(fingerprint.contains("team b"));
}

#[test]
fn fingerprint_is_sport_teams_and_start_seconds() {
    let timed = event("Team A", "Team B", Some(1_776_610_800_999), "");
    assert_eq!(MbetParser::generate_fingerprint(&timed), "0_team a_team b_1776610800");
    let before_epoch = event("Спартак", "ЦСКА", Some(-1), "");
    assert_eq!(MbetParser::generate_fingerprint(&before_epoch), "0_спартак_цска_-1");
    let live = event("A", "B", None, "");
    assert_eq!(MbetParser::generate_fingerprint(&live), "0_a_b_live");
}

#[test]
fn test_parser_creation() {
    let parser = MbetParser::new(client());
    assert_eq!(parser.name(), "мБет");
    assert_eq!(parser.slug(), "mbet");
    assert!(parser.is_enabled());
}

#[test]
fn test_parser_with_proxies() {
    let proxy_configs = vec![ProxyConfig::http("http://127.0.0.1:8080")];
    let parser = MbetParser::with_proxies(client(), proxy_configs);
    assert_eq!(parser.slug(), "mbet");
    assert!(parser.proxy_manager.is_some());
}

#[test]
fn test_readiness_checks() {
    let readiness = MbetParser::readiness_snapshot();
    assert_eq!(readiness.stage, ParserReadinessStage::RolloutReady);
    assert!(!readiness.production_enabled);
    assert!(readiness.self_check_available);
    assert!(!readiness.checks.is_empty());
}

#[test]
fn test_mbet_event_to_shared() {
    let mbet_event = MbetEvent {
        id: "12345".to_string(),
        name: "Спартак vs ЦСКА".to_string(),
        sport: Sport::Football,
        is_live: true,
        // 2026-04-19T19:00:00Z
        start_time_ms: Some(1_776_625_200_000),
        home_team: "Спартак".to_string(),
        away_team: "ЦСКА".to_string(),
        league: Some("РПЛ".to_string()),
        fingerprint: "1_спартак_цска_1713627600".to_string(),
    };

    let shared_event = MbetParser::event_to_shared(&mbet_event);
    assert_eq!(shared_event.id, "12345");
    assert_eq!(shared_event.bookmaker_slug, "mbet");
    assert_eq!(shared_event.sport, Sport::Football);
    assert_eq!(shared_event.home_team, "Спартак");
    assert_eq!(shared_event.away_team, "ЦСКА");
    assert!(shared_event.is_live);
}

#[test]
fn test_base_url_and_user_agent() {
    let parser = MbetParser::new(client());
    assert_eq!(parser.base_url(), "https://www.mbet.ru");
    assert!(!parser.user_agent().is_empty());
    assert!(parser.user_agent().contains("Mozilla"));
}

#[test]
fn parses_events_from_api_document() {
    let doc = json(
        r#"{"events": [
            {"id": "e1", "name": "A vs B", "sport_id": 2, "home_team": "A", "away_team": "B",
             "start_time": "2026-04-19T15:00:00Z", "league": "KHL"},
            {"id": "e2", "name": "C vs D", "sport_id": 4294967297, "home_team": "C", "away_team": "D"},
            {"id": "e3", "name": "no teams", "sport_id": 1},
            {"id": 4, "name": "numeric id", "sport_id": 1, "home_team": "E", "away_team": "F"}
        ]}"#,
    );
    let events = MbetParser::parse_events_from_json(&doc, true);
    assert_eq!(events.len(), 2);
    assert_eq!(events[0].id, "e1");
    assert_eq!(events[0].sport, Sport::Hockey);
    assert_eq!(events[0].start_time_ms, Some(1_776_610_800_000));
    assert_eq!(events[0].league.as_deref(), Some("KHL"));
    assert_eq!(events[0].fingerprint, "2_a_b_1776610800");
    assert!(events[0].is_live);
    assert_eq!(events[1].sport, Sport::Football);
    assert_eq!(events[1].fingerprint, "1_c_d_0");
    assert!(MbetParser::parse_events_from_json(&json("[]"), false).is_empty());
}

#[test]
fn parses_odds_from_api_document() {
    let doc = json(
        r#"{"odds": [
            {"event_id": "e1", "factor": "TM_O", "coefficient": 1.85},
            {"event_id": "e1", "factor": "??", "coefficient": 2.0},
            {"event_id": "e1", "factor": "1", "coefficient": 3},
            {"event_id": "e1", "factor": "X"}
        ]}"#,
    );
    let odds = MbetParser::parse_odds_from_json(&doc);
    assert_eq!(odds.len(), 2);
    assert_eq!(odds[0].market, "Total");
    assert_eq!(odds[0].selection, "Total");
    assert_eq!(odds[0].odds_type, OddsType::Over);
    assert_eq!(odds[0].price, JsonNumber::FloatBits(1.85f64.to_bits()));
    assert_eq!(odds[0].id.len(), 36);
    assert_ne!(odds[0].id, odds[1].id);
    assert_eq!(odds[1].price, JsonNumber::PosInt(3));
    assert_eq!(odds[1].bookmaker_slug, "mbet");
}

#[test]
fn parses_event_cards_from_html() {
    let html = r#"<div class="event-row" data-event-id="77"><span class="team-home">Зенит</span> - <span class="team-away">Спартак</span></div>"#;
    let events = MbetParser::parse_events_from_html_at(html, false, 42).expect("pattern compiles");
    assert_eq!(events.len(), 1);
    assert_eq!(events[0].id, "77");
    assert_eq!(events[0].name, "Зенит vs Спартак");
    assert_eq!(events[0].fingerprint, "1_зенит_спартак");
    assert_eq!(events[0].start_time_ms, Some(42));
    assert!(MbetParser::parse_events_from_html_at("<p>none</p>", true, 0).unwrap().is_empty());
}

#[test]
fn keeps_one_event_per_fingerprint() {
    let mut seen = vec!["0_x_y_live".to_string()];
    let events = vec![
        event("A", "B", None, "f1"),
        event("C", "D", None, "f2"),
        event("A2", "B2", None, "f1"),
        event("X", "Y", None, "0_x_y_live"),
    ];
    let mut out = Vec::new();
    MbetParser::push_unique_events(&mut seen, &events, &mut out);
    assert_eq!(out.len(), 2);
    assert_eq!(out[0].home_team, "A");
    assert_eq!(out[1].home_team, "C");
    assert_eq!(seen, vec!["0_x_y_live", "f1", "f2"]);
}
