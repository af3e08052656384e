use bookparsers::json::{JsonMember, JsonNumber, JsonValue};
use bookparsers::model::OddsType;
use bookparsers::registry::BookmakerParser;
use bookparsers::sport::Sport;
use bookparsers::sportbet::SportbetParser;
use std::sync::Arc;

fn jv(v: &serde_json::Value) -> JsonValue {
    match v {
        serde_json::Value::Null => JsonValue::Null,
        serde_json::Value::Bool(b) => JsonValue::Bool(*b),
        serde_json::Value::Number(n) => JsonValue::Number(if let Some(u) = n.as_u64() {
            JsonNumber::PosInt(u)
        } else if let Some(i) = n.as_i64() {
            JsonNumber::NegInt(i)
        } else {
            JsonNumber::FloatBits(n.as_f64().unwrap().to_bits())
        }),
        serde_json::Value::String(s) => JsonValue::Str(s.clone()),
        serde_json::Value::Array(a) => JsonValue::Array(a.iter().map(jv).collect()),
        serde_json::Value::Object(m) => JsonValue::Object(
            m.iter()
                .map(|(k, v)| JsonMember { key: k.clone(), value: jv(v) })
                .collect(),
        ),
    }
}

fn json(text: &str) -> JsonValue {
    jv(&serde_json::from_str::<serde_json::Value>(text).expect("test json"))
}

#[test]
fn parses_fixtures_tree() {
    let answer = json(
        r#"{
          "fixtures": {
            "100": {"c": [{"n": "Зенит"}, {"n": "ЦСКА"}], "tid": 7, "sid": 1},
            "200": {"c": [{"n": "A"}, {"n": "B"}], "tn": "ATP", "sid": 6},
            "300": {"c": [{"n": "only"}]},
            "400": {"c": [{"n": "C"}, {"n": "D"}], "tid": 99, "sid": 31118}
          },
          "m": {
            "100": [
              {"n": "1x2", "m": [{"sel": [{"n": "1", "o": 1.85}, {"n": "X", "o": 1.0}, {"n": "2", "o": 4}]}]},
              {"n": "Тотал", "m": [{"sel": [{"n": "Больше 2.5", "o": 2.05}]}]}
            ],
            "300": [{"n": "1x2", "m": [{"sel": [{"n": "1", "o": 2.0}]}]}]
          },
          "l": [{"i": 7, "l": "РПЛ old"}, {"i": 7, "l": "РПЛ"}]
        }"#,
    );
    let (events, odds) = SportbetParser::parse_api_response_at(&answer, false, 3);
    assert_eq!(events.len(), 3);
    assert_eq!(events[0].id, "sportbet-100");
    assert_eq!(events[0].league, "РПЛ");
    assert_eq!(events[0].sport, Sport::Football);
    assert_eq!(events[1].league, "ATP");
    assert_eq!(events[1].sport, Sport::Tennis);
    assert_eq!(events[2].league, "Prematch");
    assert_eq!(odds.len(), 3);
    assert_eq!(odds[0].id, "sportbet-100-1x2-1");
    assert_eq!(odds[0].odds_type, OddsType::Home);
    assert_eq!(odds[1].price, JsonNumber::PosInt(4));
    assert_eq!(odds[1].odds_type, OddsType::Away);
    assert_eq!(odds[2].odds_type, OddsType::Over);
    assert_eq!(odds[2].timestamp_ms, 3);
    let (live, _) = SportbetParser::parse_api_response(&answer, true);
    assert_eq!(live[2].league, "Live");
    assert!(SportbetParser::parse_api_response(&json("{}"), true).0.is_empty());
}

#[test]
fn sportbet_parser_identity() {
    let parser = SportbetParser::new(Arc::new(reqwest::Client::new()));
    assert_eq!(parser.slug(), "sportbet");
    assert!(parser.is_enabled());
    assert_eq!(parser.base_url(), "https://sportbet.ru");
    assert_eq!(SportbetParser::selection_to_odds_type("Фора 1", "Фора"), OddsType::Handicap);
    assert_eq!(SportbetParser::selection_to_odds_type("ТМ", "Итоги"), OddsType::Under);
    assert_eq!(SportbetParser::sport_id_to_sport(129), Sport::Basketball);
}
