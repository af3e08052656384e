use bookparsers::json::{JsonMember, JsonNumber, JsonValue};
use bookparsers::rest::{lines_of, MarathonRestParser, MelbetRestParser, OnexbetRestParser};

fn jv(v: &serde_json::Value) -> JsonValue {
    match v {
        serde_json::Value::Null => JsonValue::Null,
        serde_json::Value::Bool(b) => JsonValue::Bool(*b),
        serde_json::Value::Number(n) => JsonValue::Number(if let Some(u) = n.as_u64() {
            JsonNumber::PosInt(u)
        } else if let Some(i) = n.as_i64() {
            JsonNumber::NegInt(i)
        } else {
            JsonNumber::FloatBits(n.as_f64().unwrap().to_bits())
        }),
        serde_json::Value::String(s) => JsonValue::Str(s.clone()),
        serde_json::Value::Array(a) => JsonValue::Array(a.iter().map(jv).collect()),
        serde_json::Value::Object(m) => JsonValue::Object(
            m.iter()
                .map(|(k, v)| JsonMember { key: k.clone(), value: jv(v) })
                .collect(),
        ),
    }
}

fn json(text: &str) -> JsonValue {
    jv(&serde_json::from_str::<serde_json::Value>(text).expect("test json"))
}

#[test]
fn splits_lines_as_str_lines_does() {
    for text in ["", "a", "a\n", "a\r\nb", "\n", "a\n\nb\r", "x\r\n\r\n"] {
        let expected: Vec<String> = text.lines().map(str::to_string).collect();
        assert_eq!(lines_of(text), expected, "{text:?}");
    }
}

#[test]
fn reads_marathon_and_melbet_api_events() {
    let answer = json(
        r#"{"data": {"events": [
            {"eventId": 11, "home": "A", "awayTeam": "B", "league": "L", "is_live": true},
            {"id": "12", "home": "C", "away": "D"},
            {"id": 13, "home": "E"}
        ]}}"#,
    );
    let events = MarathonRestParser::parse_api(&answer);
    assert_eq!(events.len(), 1);
    assert_eq!(events[0].id, "11");
    assert_eq!(events[0].league, "L");
    assert!(events[0].is_live);
    assert_eq!(events[0].raw_url.as_deref(), Some("https://marathonbet.com/event/11"));

    let melbet = json(r#"[{"id": 5, "homeTeam": "X", "away": "Y", "isLive": true}, {"eventId": 6, "home": "A", "away": "B"}]"#);
    let events = MelbetRestParser::parse_api(&melbet);
    assert_eq!(events.len(), 1);
    assert_eq!(events[0].league, "Unknown");
    assert!(events[0].is_live);
    assert_eq!(events[0].bookmaker_slug, "melbet");
    assert!(MelbetRestParser::parse_api(&json(r#"{"events": {"not": "array"}, "data": {"events": [{"id": 1, "home": "a", "away": "b"}]}}"#)).is_empty());
}

#[test]
fn reads_onexbet_answers() {
    let bff = json(
        r#"{"events": [{"id": "x1", "team1": "A", "team2": "B", "tournament": "T", "live": true}],
            "data": {"events": [{"event_id": 7, "home": "C", "away": "D"}]},
            "result": [{"id": 1.5, "home": "E", "away": "F"}]}"#,
    );
    let events = OnexbetRestParser::parse_bff_response(&bff);
    assert_eq!(events.len(), 2);
    assert_eq!(events[0].id, "x1");
    assert_eq!(events[0].league, "T");
    assert!(events[0].is_live);
    assert_eq!(events[1].id, "7");
    assert_eq!(events[1].raw_url.as_deref(), Some("https://1xstavka.ru/betting/7"));
    let sports = OnexbetRestParser::parse_sports_response(&json(r#"[{"id": 3, "homeTeam": "H", "awayTeam": "W"}]"#));
    assert_eq!(sports.len(), 1);
}

#[test]
fn reads_event_ids_from_page_lines() {
    let html = "<div class=\"event\" data-event-id=\"101\">x</div>\n<span data-event-id=\"202\">live</span>\r\n<p data-event-id=\"303>\n";
    let marathon = MarathonRestParser::extract_from_html(html);
    assert_eq!(marathon.len(), 2);
    assert_eq!(marathon[0].id, "101");
    let plain = MarathonRestParser::extract_from_html("<i class=\"event\" id=\"9\">\n");
    assert!(plain.is_empty());
    let melbet = MelbetRestParser::extract_from_html(html);
    assert_eq!(melbet.len(), 2);
    assert_eq!(melbet[1].id, "202");
    assert_eq!(melbet[1].home_team, "Unknown");
    let onexbet = OnexbetRestParser::extract_from_html(html);
    assert_eq!(onexbet.len(), 2);
    assert!(!onexbet[0].is_live);
    assert!(onexbet[1].is_live);
}

#[test]
fn rest_bodies_that_are_no_json_give_no_events() {
    assert!(bookparsers::rest::MarathonRestParser::parse_api_body(b"<html>").is_empty());
    assert!(bookparsers::rest::MelbetRestParser::parse_api_body(b"").is_empty());
    assert!(bookparsers::rest::OnexbetRestParser::parse_bff_body(b"{").is_empty());
    assert!(bookparsers::rest::OnexbetRestParser::parse_sports_body(b"{}").is_empty());
}

#[test]
fn rest_bodies_are_read_as_json_first() {
    let body = br#"{"data": {"events": [{"eventId": 11, "home": "A", "awayTeam": "B", "league": "L", "is_live": true}]}}"#;
    let events = MarathonRestParser::parse_api_body(body);
    assert_eq!(events.len(), 1);
    assert_eq!(events[0].id, "11");
    assert_eq!(events[0].league, "L");
    let melbet = MelbetRestParser::parse_api_body(br#"[{"id": 5, "homeTeam": "X", "away": "Y", "isLive": true}]"#);
    assert_eq!(melbet.len(), 1);
    assert_eq!(melbet[0].id, "5");
}
