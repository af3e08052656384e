use bookparsers::json::{JsonMember, JsonNumber, JsonValue};
use bookparsers::model::OddsType;
use bookparsers::pari::{PariParser, PariPrice};
use bookparsers::registry::BookmakerParser;
use bookparsers::sport::Sport;
use std::sync::Arc;

fn jv(v: &serde_json::Value) -> JsonValue {
    match v {
        serde_json::Value::Null => JsonValue::Null,
        serde_json::Value::Bool(b) => JsonValue::Bool(*b),
        serde_json::Value::Number(n) => JsonValue::Number(if let Some(u) = n.as_u64() {
            JsonNumber::PosInt(u)
        } else if let Some(i) = n.as_i64() {
            JsonNumber::NegInt(i)
        } else {
            JsonNumber::FloatBits(n.as_f64().unwrap().to_bits())
        }),
        serde_json::Value::String(s) => JsonValue::Str(s.clone()),
        serde_json::Value::Array(a) => JsonValue::Array(a.iter().map(jv).collect()),
        serde_json::Value::Object(m) => JsonValue::Object(
            m.iter()
                .map(|(k, v)| JsonMember { key: k.clone(), value: jv(v) })
                .collect(),
        ),
    }
}

fn json(text: &str) -> JsonValue {
    jv(&serde_json::from_str::<serde_json::Value>(text).expect("test json"))
}

fn number_f64(n: JsonNumber) -> f64 {
    match n {
        JsonNumber::PosInt(u) => u as f64,
        JsonNumber::NegInt(i) => i as f64,
        JsonNumber::FloatBits(b) => f64::from_bits(b),
    }
}

#[test]
fn parses_events_and_factors_grouped_by_event() {
    let answer = json(
        r#"{
          "events": [
            {"id": 1, "team1": "Old", "team2": "Name", "sportId": 15870},
            {"id": 2, "team1": "Lakers", "team2": "Celtics", "sportId": 15872, "startTime": 1700000000},
            {"id": 1, "team1": "Спартак", "team2": "Динамо", "sportId": 15870},
            {"id": 3, "team1": "No opponent"},
            {"id": 4, "team1": "A", "team2": "B", "sportId": 99}
          ],
          "customFactors": [
            {"e": 1, "factors": [{"f": 921, "v": 1.95}, {"f": 922, "v": 1.0}, {"f": 930, "v": 1.8, "p": 250}]},
            {"e": 3, "factors": [{"f": 921, "v": 2.0}]},
            {"e": 2, "factors": [{"f": 923, "v": 3.1}, {"f": 777, "v": 5}]},
            {"e": 1, "factors": [{"f": 931, "v": 2.05, "p": 250}]},
            {"e": 9, "factors": [{"f": 921, "v": 2.0}]},
            {"e": 4, "factors": []}
          ]
        }"#,
    );
    let (events, prices) = PariParser::parse_api_response(&answer, true);
    let ids: Vec<&str> = events.iter().map(|e| e.id.as_str()).collect();
    assert_eq!(ids, vec!["pari-1", "pari-2", "pari-4"]);
    assert_eq!(events[0].home_team, "Спартак");
    assert_eq!(events[0].away_team, "Динамо");
    assert_eq!(events[0].sport, Sport::Football);
    assert_eq!(events[0].start_time_ms, None);
    assert!(events[0].is_live);
    assert_eq!(events[0].bookmaker_slug, "pari");
    assert_eq!(events[1].sport, Sport::Basketball);
    assert_eq!(events[1].start_time_ms, Some(1_700_000_000_000));
    assert_eq!(events[2].sport, Sport::Football);

    let rows: Vec<(u64, u64)> = prices.iter().map(|p| (p.event_id, p.factor_id)).collect();
    assert_eq!(rows, vec![(1, 921), (1, 930), (1, 931), (2, 923), (2, 777)]);
    assert_eq!(prices[1].raw_line, Some(JsonNumber::PosInt(250)));
    assert_eq!(prices[0].raw_line, None);

    let line_bits: Vec<u64> = prices
        .iter()
        .map(|p| p.raw_line.map(|l| (number_f64(l) / 100.0).to_bits()).unwrap_or(0))
        .collect();
    let odds = PariParser::prices_to_odds(&prices, &line_bits, 42);
    assert_eq!(odds.len(), 5);
    assert_eq!(odds[0].id, "pari-1-921");
    assert_eq!(odds[0].event_id, "pari-1");
    assert_eq!(odds[0].market, "1X2");
    assert_eq!(odds[0].selection, "1");
    assert_eq!(odds[0].odds_type, OddsType::Home);
    assert_eq!(odds[0].line, None);
    assert_eq!(odds[0].timestamp_ms, 42);
    assert_eq!(odds[1].odds_type, OddsType::Over);
    assert_eq!(odds[1].line, Some(JsonNumber::FloatBits(2.5f64.to_bits())));
    assert_eq!(odds[2].selection, "Under");
    assert_eq!(odds[4].market, "factor_777");
    assert_eq!(odds[4].selection, "777");
    assert_eq!(odds[4].odds_type, OddsType::Custom);
    assert_eq!(odds[4].price, JsonNumber::PosInt(5));
}

#[test]
fn answer_without_events_list_reads_nothing() {
    let answer = json(r#"{"customFactors": [{"e": 1, "factors": [{"f": 921, "v": 2.0}]}]}"#);
    let (events, prices) = PariParser::parse_api_response(&answer, false);
    assert!(events.is_empty());
    assert!(prices.is_empty());
    let answer = json(r#"{"events": [{"id": 1, "team1": "A", "team2": "B"}]}"#);
    let (events, prices) = PariParser::parse_api_response(&answer, false);
    assert!(events.is_empty());
    assert!(prices.is_empty());
}

#[test]
fn maps_factor_ids_and_sport_ids() {
    assert_eq!(PariParser::factor_to_market(922), ("1X2".to_string(), "X".to_string(), OddsType::Draw));
    assert_eq!(PariParser::factor_to_market(912), ("Handicap".to_string(), "1".to_string(), OddsType::Handicap));
    assert_eq!(PariParser::factor_to_market(5), ("factor_5".to_string(), "5".to_string(), OddsType::Custom));
    assert_eq!(PariParser::sport_id_to_sport(15877), Sport::Tennis);
    assert_eq!(PariParser::sport_id_to_sport(15879), Sport::Volleyball);
    assert_eq!(PariParser::sport_id_to_sport(15875), Sport::Hockey);
    assert_eq!(PariParser::sport_id_to_sport(1), Sport::Football);
}

#[test]
fn start_time_out_of_chrono_range_falls_back_to_epoch() {
    let answer = json(
        r#"{
          "events": [{"id": 5, "team1": "A", "team2": "B", "startTime": 9223372036854775807}],
          "customFactors": [{"e": 5, "factors": [{"f": 921, "v": 2.5}]}]
        }"#,
    );
    let (events, _) = PariParser::parse_api_response(&answer, false);
    assert_eq!(events[0].start_time_ms, Some(0));
}

#[test]
fn pari_parser_identity() {
    let parser = PariParser::new(Arc::new(reqwest::Client::new()));
    assert_eq!(parser.name(), "Pari");
    assert_eq!(parser.slug(), "pari");
    assert!(parser.is_enabled());
    assert!(parser.readiness().is_none());
    assert_eq!(parser.base_url(), "https://pari.ru");
    assert!(parser.live_url.contains("events/list?"));
    assert!(parser.prematch_url.contains("events/listBase?"));
    let p = PariPrice { event_id: 1, factor_id: 930, price: JsonNumber::PosInt(2), raw_line: None };
    let odds = PariParser::prices_to_odds(&vec![p], &vec![0], 0);
    assert_eq!(odds[0].line, None);
}
