use std::io::Write;
use bookparsers::json::{JsonMember, JsonNumber, JsonValue};
use bookparsers::marathon::{
    decode_body, detect_sport, extract_league, parse_api_response_at, parse_platform_body_at, platform_events_url,
    platform_origin, FactorDef,
};
use bookparsers::model::OddsType;
use bookparsers::sport::Sport;

fn obj(members: Vec<(&str, JsonValue)>) -> JsonValue {
    JsonValue::Object(
        members
            .into_iter()
            .map(|(k, v)| JsonMember { key: k.to_string(), value: v })
            .collect(),
    )
}

fn num(n: u64) -> JsonValue {
    JsonValue::Number(JsonNumber::PosInt(n))
}

fn float(x: f64) -> JsonValue {
    JsonValue::Number(JsonNumber::FloatBits(x.to_bits()))
}

fn text(s: &str) -> JsonValue {
    JsonValue::Str(s.to_string())
}

fn factor(f: u64, v: JsonValue, p: Option<JsonValue>) -> JsonValue {
    let mut m = vec![("f", num(f)), ("v", v)];
    if let Some(p) = p {
        m.push(("p", p));
    }
    obj(m)
}

fn feed() -> JsonValue {
    obj(vec![
        (
            "events",
            JsonValue::Array(vec![
                obj(vec![
                    ("id", num(7)),
                    ("team1", text("Зенит")),
                    ("team2", text("Спартак")),
                    ("name", text("Футбол. Россия : тур 5")),
                ]),
                obj(vec![("id", num(8)), ("team1", text("")), ("team2", text("B"))]),
                obj(vec![("id", num(9)), ("team1", text("A")), ("team2", text("B"))]),
            ]),
        ),
        (
            "customFactors",
            JsonValue::Array(vec![
                obj(vec![
                    ("e", num(7)),
                    (
                        "factors",
                        JsonValue::Array(vec![
                            factor(921, float(1.85), None),
                            factor(922, float(1.0), None),
                            factor(5000, float(2.5), None),
                            factor(1006, float(1.9), Some(float(-1.5))),
                            factor(924, num(2), None),
                            factor(6000, float(3.1), Some(float(2.5))),
                        ]),
                    ),
                ]),
                obj(vec![("e", num(9)), ("factors", JsonValue::Array(vec![factor(929, num(2), None)]))]),
            ]),
        ),
    ])
}

fn catalog() -> Vec<FactorDef> {
    vec![
        FactorDef { id: 5000, market_type: "Двойной шанс".to_string(), selection_name: "1X".to_string() },
        FactorDef { id: 6000, market_type: "Тотал".to_string(), selection_name: "Меньше".to_string() },
    ]
}

#[test]
fn feed_gives_events_with_their_prices() {
    let results = parse_api_response_at(&feed(), false, "marathon", &catalog(), 1_000);
    assert_eq!(results.len(), 2);

    let (event, odds) = &results[0];
    assert_eq!(event.id, "marathon-7");
    assert_eq!(event.sport, Sport::Football);
    assert_eq!(event.league, "Футбол. Россия");
    assert_eq!(event.home_team, "Зенит");
    assert!(!event.is_live);
    assert_eq!(odds.len(), 4);
    assert_eq!(odds[0].market, "1X2");
    assert_eq!(odds[0].selection, "1");
    assert_eq!(odds[0].odds_type, OddsType::Home);
    assert_eq!(odds[0].id, "marathon-marathon-7-1");
    assert_eq!(odds[0].timestamp_ms, 1_000);
    assert_eq!(odds[1].market, "DoubleChance");
    assert_eq!(odds[1].selection, "1x");
    assert_eq!(odds[2].market, "Handicap");
    assert_eq!(odds[2].selection, "2");
    assert_eq!(odds[2].line, Some(JsonNumber::FloatBits((-1.5f64).to_bits())));
    assert_eq!(odds[3].market, "Total");
    assert_eq!(odds[3].selection, "Under");
    assert_eq!(odds[3].line, Some(JsonNumber::FloatBits(2.5f64.to_bits())));

    let (event, odds) = &results[1];
    assert_eq!(event.id, "marathon-9");
    assert_eq!(event.league, "");
    assert_eq!(odds.len(), 1);
    assert_eq!(odds[0].odds_type, OddsType::Odd);
    assert_eq!(odds[0].price, JsonNumber::PosInt(2));
}

#[test]
fn feed_without_factors_gives_nothing() {
    let json = obj(vec![("events", JsonValue::Array(vec![]))]);
    assert!(parse_api_response_at(&json, true, "pari", &[], 0).is_empty());
}

#[test]
fn sport_and_league_from_names() {
    assert_eq!(detect_sport("Хоккей. КХЛ"), Sport::Hockey);
    assert_eq!(detect_sport("VOLLEYBALL cup"), Sport::Volleyball);
    assert_eq!(detect_sport("Шахматы"), Sport::Football);
    assert_eq!(extract_league("  Premier League : Round 3 "), "Premier League");
    assert_eq!(extract_league("no colon "), "no colon");
}

#[test]
fn feed_urls_follow_the_site_scope() {
    assert_eq!(
        platform_events_url("https://x", true, "pari"),
        "https://x/events/list?lang=ru&scopeMarket=2300"
    );
    assert_eq!(
        platform_events_url("https://x", false, "other"),
        "https://x/events/listBase?lang=ru&scopeMarket=3000"
    );
    assert_eq!(platform_origin("zenit"), "https://zenit.ru");
}

#[test]
fn bodies_are_decompressed_when_gzip_framed() {
    let mut enc = flate2::write::GzEncoder::new(Vec::new(), flate2::Compression::default());
    enc.write_all(b"{\"events\":[]}").unwrap();
    let gz = enc.finish().unwrap();
    assert_eq!(decode_body(&gz), b"{\"events\":[]}".to_vec());
    assert_eq!(decode_body(b"{}"), b"{}".to_vec());
    assert_eq!(decode_body(&[0x1f, 0x8b, 0x00]), vec![0x1f, 0x8b, 0x00]);
}

const BODY: &str = r#"{"events":[{"id":7,"team1":"Зенит","team2":"Спартак","name":"Футбол. Россия : тур 5"}],
  "customFactors":[{"e":7,"factors":[{"f":921,"v":1.85},{"f":1006,"v":1.9,"p":-1.5}]}]}"#;

#[test]
fn platform_body_is_read_as_json_then_as_feed() {
    let plain = parse_platform_body_at(BODY.as_bytes(), true, "marathon", &[], 5);
    assert_eq!(plain.len(), 1);
    assert_eq!(plain[0].0.id, "marathon-7");
    assert!(plain[0].0.is_live);
    assert_eq!(plain[0].1.len(), 2);
    assert_eq!(plain[0].1[0].price, JsonNumber::FloatBits(1.85f64.to_bits()));
    assert_eq!(plain[0].1[1].line, Some(JsonNumber::FloatBits((-1.5f64).to_bits())));
    let mut enc = flate2::write::GzEncoder::new(Vec::new(), flate2::Compression::default());
    enc.write_all(BODY.as_bytes()).unwrap();
    let gz = enc.finish().unwrap();
    let packed = parse_platform_body_at(&gz, true, "marathon", &[], 5);
    assert_eq!(packed.len(), 1);
    assert_eq!(packed[0].1.len(), 2);
    assert!(parse_platform_body_at(b"not json", true, "marathon", &[], 5).is_empty());
}

#[test]
fn json_bytes_keep_integers_and_float_bits() {
    let v = bookparsers::json::parse_json_bytes(br#"{"a":[1,-2,2.5,"x",true,null]}"#).expect("json");
    match v {
        JsonValue::Object(m) => {
            assert_eq!(m[0].key, "a");
            match &m[0].value {
                JsonValue::Array(items) => {
                    assert!(matches!(items[0], JsonValue::Number(JsonNumber::PosInt(1))));
                    assert!(matches!(items[1], JsonValue::Number(JsonNumber::NegInt(-2))));
                    assert!(matches!(items[2], JsonValue::Number(JsonNumber::FloatBits(b)) if b == 2.5f64.to_bits()));
                    assert!(matches!(&items[3], JsonValue::Str(s) if s == "x"));
                    assert!(matches!(items[4], JsonValue::Bool(true)));
                    assert!(matches!(items[5], JsonValue::Null));
                }
                _ => panic!("not an array"),
            }
        }
        _ => panic!("not an object"),
    }
    assert!(bookparsers::json::parse_json_bytes(b"{").is_none());
}
