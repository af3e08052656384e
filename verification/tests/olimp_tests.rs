use bookparsers::json::{JsonMember, JsonNumber, JsonValue};
use bookparsers::model::OddsType;
use bookparsers::olimp::OlimpParser;
use bookparsers::proxy::ProxyConfig;
use bookparsers::readiness::{DiagnosticSeverity, ParserReadinessStage};
use bookparsers::sport::Sport;
use std::sync::Arc;

fn jv(v: &serde_json::Value) -> JsonValue {
    match v {
        serde_json::Value::Null => JsonValue::Null,
        serde_json::Value::Bool(b) => JsonValue::Bool(*b),
        serde_json::Value::Number(n) => JsonValue::Number(if let Some(u) = n.as_u64() {
            JsonNumber::PosInt(u)
        } else if let Some(i) = n.as_i64() {
            JsonNumber::NegInt(i)
        } else {
            JsonNumber::FloatBits(n.as_f64().unwrap().to_bits())
        }),
        serde_json::Value::String(s) => JsonValue::Str(s.clone()),
        serde_json::Value::Array(a) => JsonValue::Array(a.iter().map(jv).collect()),
        serde_json::Value::Object(m) => JsonValue::Object(
            m.iter()
                .map(|(k, v)| JsonMember { key: k.clone(), value: jv(v) })
                .collect(),
        ),
    }
}

fn json(text: &str) -> JsonValue {
    jv(&serde_json::from_str::<serde_json::Value>(text).expect("test json"))
}

#[test]
fn builds_live_section_url_without_duplicate_version_segment() {
    let client = Arc::new(reqwest::Client::new());
    let parser = OlimpParser::new(client);

    assert_eq!(
        parser.section_url(0, "live"),
        "https://www.olimp.bet/api/v4/0/live/sports-with-competitions-with-events?vids%5B%5D="
    );
}

#[test]
fn readiness_snapshot_includes_proxy_rotation() {
    let readiness = OlimpParser::readiness_snapshot();

    assert_eq!(readiness.stage, ParserReadinessStage::RolloutReady);
    assert!(!readiness.production_enabled);
    assert!(readiness.self_check_available);

    assert!(readiness.checks.iter().any(|check| {
        check.code == "proxy_rotation_enabled"
            && matches!(check.severity, DiagnosticSeverity::Pass)
            && check.message.contains("proxy rotation")
    }));
}

#[test]
fn readiness_snapshot_locks_runtime_event_volume_truth() {
    let readiness = OlimpParser::readiness_snapshot();

    assert_eq!(readiness.stage, ParserReadinessStage::RolloutReady);
    assert!(!readiness.production_enabled);
    assert!(readiness.self_check_available);
    assert!(readiness.checks.iter().any(|check| {
        check.code == "runtime_event_volume_observed"
            && matches!(check.severity, DiagnosticSeverity::Pass)
            && check.message.contains("445 live parseable events")
            && check.message.contains("1110 prematch parseable events")
            && check.message.contains("1243 prematch nested events")
    }));
    assert!(readiness.checks.iter().any(|check| {
        check.code == "production_volume_still_unlocked"
            && matches!(check.severity, DiagnosticSeverity::Warn)
    }));
}

#[test]
fn creates_parser_with_proxies() {
    let client = Arc::new(reqwest::Client::new());
    let proxies = vec![
        ProxyConfig::http("proxy1:8080"),
        ProxyConfig::socks5("proxy2:1080"),
    ];

    let parser = OlimpParser::with_proxies(client, proxies);

    assert_eq!(parser.healthy_proxy_count(), 2);
}

#[test]
fn parses_competitions_with_events_document() {
    let doc = json(
        r#"[
          {"payload": {
            "sport": {"id": "1", "name": "Футбол"},
            "competitionsWithEvents": [
              {"competition": {"names": {"0": "Лига Чемпионов UEFA"}},
               "events": [
                 {"id": "123", "team1Name": "ПСЖ", "team2Name": "Арсенал",
                  "startDateTime": "2026-04-30T19:00:00Z",
                  "outcomes": [
                    {"shortName": "П1", "probability": "2.10", "groupName": "Исход матча"},
                    {"shortName": "Х", "probability": "0.95", "groupName": "Исход матча"},
                    {"shortName": "ТБ", "probability": "1.9", "param": 2.5},
                    {"shortName": "П2"}
                  ]},
                 {"id": 77, "competitor1": "A"}
               ]},
              {"events": [{"id": 5, "competitor1": "C", "competitor2": "D"}]}
            ]}},
          {"payload": {"sport": {"id": "5", "names": {"0": "Теннис"}}}},
          {"nopayload": true}
        ]"#,
    );
    let (events, outcomes) = OlimpParser::parse_sports_outcomes(&doc, false);
    assert_eq!(events.len(), 2);
    assert_eq!(events[0].id, "olimp-123");
    assert_eq!(events[0].sport, Sport::Football);
    assert_eq!(events[0].league, "Лига Чемпионов UEFA");
    assert_eq!(events[0].home_team, "ПСЖ");
    assert_eq!(events[0].start_time_ms, Some(1_777_575_600_000));
    assert_eq!(events[1].id, "olimp-5");
    assert_eq!(events[1].league, "Футбол");
    assert_eq!(outcomes.len(), 3);
    assert_eq!(outcomes[2].market, "unknown");
    assert_eq!(outcomes[2].odds_type, OddsType::Over);
    assert_eq!(outcomes[2].line, Some(JsonNumber::FloatBits(2.5f64.to_bits())));

    let parsed: Vec<Option<u64>> = outcomes
        .iter()
        .map(|o| o.probability.parse::<f64>().ok().map(f64::to_bits))
        .collect();
    let odds = OlimpParser::price_outcomes(&outcomes, &parsed, 9);
    assert_eq!(odds.len(), 2);
    assert_eq!(odds[0].id, "olimp-123-Исход матча-П1");
    assert_eq!(odds[0].odds_type, OddsType::Home);
    assert_eq!(odds[0].price, JsonNumber::FloatBits(2.10f64.to_bits()));
    assert_eq!(odds[0].timestamp_ms, 9);
    assert_eq!(odds[1].selection, "ТБ");
}

#[test]
fn keys_events_by_the_trimmed_json_text_of_their_id() {
    let doc = json(r#"{"id": "\"q\"", "team1Name": "A", "team2Name": "B"}"#);
    let (id, home, away) = OlimpParser::extract_event_info(&doc).expect("event info");
    assert_eq!(id, "\\\"q\\");
    assert_eq!((home.as_str(), away.as_str()), ("A", "B"));
    let neg = json(r#"{"id": -17, "team1Name": "A", "team2Name": "B"}"#);
    assert_eq!(OlimpParser::extract_event_info(&neg).unwrap().0, "-17");
    assert_eq!(OlimpParser::selection_to_odds_type("меньше"), OddsType::Under);
    assert_eq!(OlimpParser::selection_to_odds_type("Ф2"), OddsType::Handicap);
    assert_eq!(OlimpParser::selection_to_odds_type("?"), OddsType::Custom);
}

#[test]
fn sweeps_sections_with_bounded_backoff() {
    assert_eq!(OlimpParser::sweep_sport_ids(true), vec![0]);
    let prematch = OlimpParser::sweep_sport_ids(false);
    assert_eq!(prematch.len(), 41);
    assert_eq!(prematch[40], 40);
    assert_eq!(OlimpParser::retry_backoff_ms(0), 100);
    assert_eq!(OlimpParser::retry_backoff_ms(1), 200);
    assert_eq!(OlimpParser::retry_backoff_ms(5), 3200);
    assert_eq!(OlimpParser::retry_backoff_ms(6), 5000);
    assert_eq!(OlimpParser::retry_backoff_ms(u32::MAX), 5000);
    assert!(OlimpParser::retries_after(1));
    assert!(!OlimpParser::retries_after(2));
    assert!(OlimpParser::reached_prematch_target(false, 3500));
    assert!(!OlimpParser::reached_prematch_target(true, 9000));
    assert!(OlimpParser::retries_through_proxy("HTTP 403: Forbidden"));
    assert!(!OlimpParser::retries_through_proxy("HTTP 500: Internal Server Error"));
    assert!(!OlimpParser::retries_through_proxy("connection reset"));
}
