use bookparsers::json::{get, JsonMember, JsonNumber, JsonValue};
use bookparsers::ligastavok::{
    build_cookie_header, build_cookie_header_for_url, cookie_matches_target,
    describe_events_list_payload, describe_filter_payload, describe_tournament_tree_payload,
    extract_cookie_values, extract_header_profile, extract_storage_state_bootstrap,
    merge_cookie_headers, merge_filter_catalog, namespace_payload_candidates,
    parse_bootstrap_cookies, parse_filter_catalog, parse_tournament_tree, session_bootstrap_from,
    BootstrapCookie, FilterCatalogEntry, LigaStavokParser, SessionBootstrap, SportCatalogEntry,
};
use bookparsers::ligastavok_markets::LigaRaw;
use std::sync::Arc;

const DEFAULT_ACCEPT_LANGUAGE: &str = "ru-RU,ru;q=0.9,en;q=0.8";
const BASE_URL: &str = "https://www.ligastavok.ru";
const ROOT_REFERER: &str = "https://www.ligastavok.ru/";
const NOW: i64 = 1_700_000_000;

fn jv(v: &serde_json::Value) -> JsonValue {
    match v {
        serde_json::Value::Null => JsonValue::Null,
        serde_json::Value::Bool(b) => JsonValue::Bool(*b),
        serde_json::Value::Number(n) => JsonValue::Number(if let Some(u) = n.as_u64() {
            JsonNumber::PosInt(u)
        } else if let Some(i) = n.as_i64() {
            JsonNumber::NegInt(i)
        } else {
            JsonNumber::FloatBits(n.as_f64().unwrap().to_bits())
        }),
        serde_json::Value::String(s) => JsonValue::Str(s.clone()),
        serde_json::Value::Array(a) => JsonValue::Array(a.iter().map(jv).collect()),
        serde_json::Value::Object(m) => JsonValue::Object(
            m.iter()
                .map(|(k, v)| JsonMember { key: k.clone(), value: jv(v) })
                .collect(),
        ),
    }
}

fn json(text: &str) -> JsonValue {
    jv(&serde_json::from_str::<serde_json::Value>(text).expect("test json"))
}

fn text_at<'a>(v: &'a JsonValue, key: &str) -> Option<&'a str> {
    match get(v, key) {
        Some(JsonValue::Str(s)) => Some(s.as_str()),
        _ => None,
    }
}

fn number_at(v: &JsonValue, key: &str) -> Option<u64> {
    match get(v, key) {
        Some(JsonValue::Number(JsonNumber::PosInt(n))) => Some(*n),
        _ => None,
    }
}

fn first_item<'a>(v: &'a JsonValue, key: &str) -> Option<&'a JsonValue> {
    match get(v, key) {
        Some(JsonValue::Array(items)) => items.first(),
        _ => None,
    }
}

fn parser_with(bootstrap: SessionBootstrap) -> LigaStavokParser {
    LigaStavokParser {
        client: Arc::new(reqwest::Client::new()),
        endpoints: vec![],
        bootstrap,
    }
}

fn protection_cookie() -> BootstrapCookie {
    BootstrapCookie {
        name: "qrator_jsr".to_string(),
        value: "abc".to_string(),
        domain: ".ligastavok.ru".to_string(),
        path: "/".to_string(),
        expires: None,
        secure: true,
        host_only: false,
    }
}

fn bootstrap(
    cookie_jar: Vec<BootstrapCookie>,
    cookie_header: Option<&str>,
    accept_language: &str,
) -> SessionBootstrap {
    SessionBootstrap {
        cookie_jar,
        cookie_header: cookie_header.map(str::to_string),
        accept_language: accept_language.to_string(),
        origin: BASE_URL.to_string(),
        referer: ROOT_REFERER.to_string(),
        api_accept_language: None,
        api_origin: None,
        api_referer: None,
        browser_verified_api_probe_status: None,
        direct_probe_status: None,
    }
}

#[test]
fn describes_branch_payload_failures_explicitly() {
    let filter_message = describe_filter_payload(&json(r#"{ "result": [] }"#));
    let tournament_message = describe_tournament_tree_payload(&json(
        r#"{ "result": [{ "gameId": 33, "gameTitle": "Футбол", "total": 0 }] }"#,
    ));
    let events_message = describe_events_list_payload(&json(r#"{ "result": { "meta": { "skip": 0 } } }"#));

    assert_eq!(filter_message, "result array is empty");
    assert_eq!(tournament_message, "result array has 1 entries but none with non-zero sport totals");
    assert!(events_message.contains("schema does not expose result.data or data arrays"));
    assert!(events_message.contains("result=object"));
}

#[test]
fn describes_events_list_namespaces_when_payload_is_present() {
    let message = describe_events_list_payload(&json(
        r#"{
        "result": {
            "data": [
                { "id": 1, "ns": "live" },
                { "id": 2, "ns": "live" },
                { "id": 3, "ns": "prematch" }
            ]
        }
    }"#,
    ));

    assert_eq!(message, "result.data has 3 entries with namespaces live,live,prematch");
}

#[test]
fn builds_sport_scoped_payload() {
    let parser = LigaStavokParser::new(
        Arc::new(reqwest::Client::new()),
        session_bootstrap_from(None, None, None, None),
    );
    let payload = parser.build_events_payload(33, "prematch", 400);

    assert_eq!(number_at(&payload, "sportId"), Some(33));
    assert!(matches!(first_item(&payload, "gameId"), Some(JsonValue::Number(JsonNumber::PosInt(33)))));
    assert!(matches!(first_item(&payload, "ns"), Some(JsonValue::Str(s)) if s == "prematch"));
    assert_eq!(number_at(&payload, "limit"), Some(200));
    assert_eq!(number_at(&payload, "skip"), Some(400));
    assert_eq!(text_at(&payload, "lineType"), Some("home"));
    assert_eq!(text_at(&payload, "method"), Some("standard"));
    assert_eq!(text_at(&payload, "proposedType"), Some("MAINOFFER"));
}

#[test]
fn parses_tournament_tree_totals() {
    let payload = json(
        r#"{
        "result": [
            { "gameId": 33, "gameTitle": "Футбол", "total": 1490, "totalLive": 29 },
            { "gameId": 25, "gameTitle": "Баскетбол", "total": 170, "totalLive": 23 }
        ]
    }"#,
    );

    let sports = parse_tournament_tree(&payload);
    assert_eq!(sports.len(), 2);
    assert_eq!(sports[0].sport_id, 33);
    assert_eq!(sports[0].sport_name, "Футбол");
    assert_eq!(sports[0].total, 1490);
    assert_eq!(sports[0].total_live, 29);
    assert_eq!(sports[0].filter_live_total, None);
    assert_eq!(sports[1].sport_id, 25);
}

#[test]
fn parses_filter_preflight_totals() {
    let payload = json(
        r#"{
        "result": [
            { "_id": 33, "title": "Футбол", "total": 29, "lmt": 23 },
            { "_id": 25, "total": 23, "lmt": 23 },
            { "_id": 31, "total": 0, "lmt": 0 }
        ]
    }"#,
    );

    let sports = parse_filter_catalog(&payload);
    assert_eq!(sports.len(), 2);
    assert_eq!(sports[0].sport_id, 33);
    assert_eq!(sports[0].sport_name.as_deref(), Some("Футбол"));
    assert_eq!(sports[0].total, 29);
    assert_eq!(sports[1].sport_id, 25);
    assert_eq!(sports[1].sport_name, None);
    assert_eq!(sports[1].total, 23);
}

#[test]
fn merges_filter_preflight_into_tournament_tree_catalog() {
    let sports = vec![
        SportCatalogEntry {
            sport_id: 33,
            sport_name: "Футбол".to_string(),
            total: 1490,
            total_live: 29,
            filter_live_total: None,
        },
        SportCatalogEntry {
            sport_id: 25,
            sport_name: "Баскетбол".to_string(),
            total: 170,
            total_live: 23,
            filter_live_total: None,
        },
    ];
    let filter = vec![FilterCatalogEntry {
        sport_id: 25,
        sport_name: Some("Баскетбол".to_string()),
        total: 21,
    }];

    let merged = merge_filter_catalog(sports, &filter);

    assert_eq!(merged[0].filter_live_total, None);
    assert_eq!(merged[1].filter_live_total, Some(21));
    assert_eq!(merged[1].total_live, 23);
}

#[test]
fn adds_live_only_sport_from_filter_catalog_when_tree_misses_it() {
    let sports = vec![SportCatalogEntry {
        sport_id: 33,
        sport_name: "Футбол".to_string(),
        total: 1490,
        total_live: 29,
        filter_live_total: None,
    }];
    let filter = vec![FilterCatalogEntry {
        sport_id: 25,
        sport_name: Some("Баскетбол".to_string()),
        total: 21,
    }];

    let merged = merge_filter_catalog(sports, &filter);

    assert_eq!(merged.len(), 2);
    assert_eq!(merged[1].sport_id, 25);
    assert_eq!(merged[1].sport_name, "Баскетбол");
    assert_eq!(merged[1].total, 21);
    assert_eq!(merged[1].total_live, 21);
    assert_eq!(merged[1].filter_live_total, Some(21));
}

#[test]
fn provides_safe_namespace_fallback_for_prematch_events_list() {
    assert_eq!(namespace_payload_candidates("prematch"), vec!["prematch", "line"]);
    assert_eq!(namespace_payload_candidates("live"), vec!["live"]);
}

#[test]
fn supports_storage_state_cookie_shape() {
    let payload = json(
        r#"{
        "cookies": [
            { "name": "qrator_jsr", "value": "abc", "domain": ".ligastavok.ru", "path": "/" }
        ]
    }"#,
    );

    let cookies = extract_cookie_values(&payload).expect("cookies");
    assert_eq!(cookies.len(), 1);
    assert_eq!(text_at(&cookies[0], "name"), Some("qrator_jsr"));
}

#[test]
fn supports_nested_storage_state_cookie_shape() {
    let payload = json(
        r#"{
        "storageState": {
            "cookies": [
                { "name": "sessionid", "value": "safe", "domain": ".ligastavok.ru", "path": "/" }
            ]
        }
    }"#,
    );

    let cookies = extract_cookie_values(&payload).expect("cookies");
    assert_eq!(cookies.len(), 1);
    assert_eq!(text_at(&cookies[0], "name"), Some("sessionid"));
}

#[test]
fn parses_storage_state_bootstrap_profile() {
    let payload = json(
        r#"{
        "cookies": [
            { "name": "qrator_jsr", "value": "abc", "domain": ".ligastavok.ru", "path": "/" },
            { "name": "other", "value": "skip", "domain": ".example.com", "path": "/" }
        ],
        "origins": [
            {
                "origin": "https://www.ligastavok.ru",
                "localStorage": [
                    { "name": "i18nextLng", "value": "ru-RU" }
                ]
            }
        ]
    }"#,
    );

    let bootstrap = extract_storage_state_bootstrap(&payload, NOW).expect("bootstrap");

    assert_eq!(bootstrap.cookie_header.as_deref(), Some("qrator_jsr=abc"));
    assert_eq!(bootstrap.accept_language.as_deref(), Some("ru-RU,ru;q=0.9,en;q=0.8"));
    assert_eq!(bootstrap.origin.as_deref(), Some("https://www.ligastavok.ru"));
    assert_eq!(bootstrap.referer.as_deref(), Some("https://www.ligastavok.ru/"));
}

#[test]
fn extracts_safe_header_profile() {
    let payload = json(
        r#"{
        "extraHTTPHeaders": {
            "Accept-Language": "ru-RU,ru;q=0.9,en;q=0.8",
            "Origin": "https://www.ligastavok.ru/",
            "Referer": "https://www.ligastavok.ru/live/football"
        }
    }"#,
    );

    let profile = extract_header_profile(&payload).expect("profile");
    assert_eq!(profile.accept_language.as_deref(), Some("ru-RU,ru;q=0.9,en;q=0.8"));
    assert_eq!(profile.origin.as_deref(), Some("https://www.ligastavok.ru"));
    assert_eq!(profile.referer.as_deref(), Some("https://www.ligastavok.ru/live/football"));
}

#[test]
fn extracts_header_profile_from_bootstrap_bundle_shape() {
    let payload = json(
        r#"{
        "headerProfile": {
            "accept_language": "ru-RU,ru;q=0.9,en;q=0.8",
            "origin": "https://www.ligastavok.ru",
            "referer": "https://www.ligastavok.ru/live/football"
        }
    }"#,
    );

    let profile = extract_header_profile(&payload).expect("profile");
    assert_eq!(profile.accept_language.as_deref(), Some("ru-RU,ru;q=0.9,en;q=0.8"));
    assert_eq!(profile.origin.as_deref(), Some("https://www.ligastavok.ru"));
    assert_eq!(profile.referer.as_deref(), Some("https://www.ligastavok.ru/live/football"));
}

#[test]
fn extracts_api_header_profile_and_probe_status() {
    let payload = json(
        r#"{
        "headerProfile": {
            "accept_language": "ru-RU,ru;q=0.9,en;q=0.8",
            "origin": "https://www.ligastavok.ru",
            "referer": "https://www.ligastavok.ru/live/football",
            "browser_verified_api_probe": {
                "endpoint_kind": "events_list",
                "status": 204
            },
            "direct_probe_status": 200,
            "api_headers": {
                "Accept-Language": "ru-RU",
                "Origin": "https://www.ligastavok.ru",
                "Referer": "https://www.ligastavok.ru/",
                "X-Application-Name": "mobile"
            }
        }
    }"#,
    );

    let profile = extract_header_profile(&payload).expect("profile");

    assert_eq!(profile.api_accept_language.as_deref(), Some("ru-RU"));
    assert_eq!(profile.api_origin.as_deref(), Some("https://www.ligastavok.ru"));
    assert_eq!(profile.api_referer.as_deref(), Some("https://www.ligastavok.ru/"));
    assert_eq!(profile.browser_verified_api_probe_status, Some(204));
    assert_eq!(profile.direct_probe_status, Some(200));
}

#[test]
fn extracts_browser_verified_probe_status_from_runtime_bootstrap_shape() {
    let payload = json(
        r#"{
        "runtimeBootstrap": {
            "browser_verified_api_probe": {
                "endpoint_kind": "filter",
                "status": 202
            },
            "direct_probe_status": 0
        }
    }"#,
    );

    let profile = extract_header_profile(&payload).expect("profile");

    assert_eq!(profile.browser_verified_api_probe_status, Some(202));
    assert_eq!(profile.direct_probe_status, None);
}

#[test]
fn parses_bootstrap_bundle_storage_state_profile() {
    let payload = json(
        r#"{
        "cookieHeader": "qrator_jsr=abc; sessionid=live",
        "final_url": "https://www.ligastavok.ru/live/football",
        "storageState": {
            "cookies": [
                { "name": "qrator_jsr", "value": "abc", "domain": ".ligastavok.ru", "path": "/" },
                { "name": "sessionid", "value": "live", "domain": ".ligastavok.ru", "path": "/" }
            ]
        },
        "headerProfile": {
            "accept_language": "ru-RU,ru;q=0.9,en;q=0.8",
            "origin": "https://www.ligastavok.ru"
        }
    }"#,
    );

    let bootstrap = extract_storage_state_bootstrap(&payload, NOW).expect("bootstrap");

    assert_eq!(bootstrap.cookie_header.as_deref(), Some("qrator_jsr=abc; sessionid=live"));
    assert_eq!(bootstrap.accept_language.as_deref(), Some("ru-RU,ru;q=0.9,en;q=0.8"));
    assert_eq!(bootstrap.origin.as_deref(), Some("https://www.ligastavok.ru"));
    assert_eq!(bootstrap.referer.as_deref(), Some("https://www.ligastavok.ru/live/football"));
}

#[test]
fn parses_raw_discovery_artifact_storage_state_profile() {
    let payload = json(
        r#"{
        "cookies": [
            { "name": "sessionid", "value": "live", "domain": ".ligastavok.ru", "path": "/" }
        ],
        "final_url": "https://www.ligastavok.ru/line/football"
    }"#,
    );

    let bootstrap = extract_storage_state_bootstrap(&payload, NOW).expect("bootstrap");

    assert_eq!(bootstrap.cookie_header.as_deref(), Some("sessionid=live"));
    assert_eq!(bootstrap.origin.as_deref(), Some("https://www.ligastavok.ru"));
    assert_eq!(bootstrap.referer.as_deref(), Some("https://www.ligastavok.ru/line/football"));
}

#[test]
fn drops_expired_cookies_from_cookie_header() {
    let payload = json(
        r#"[
        { "name": "expired", "value": "1", "domain": ".ligastavok.ru", "path": "/", "expires": 1 },
        { "name": "alive", "value": "2", "domain": ".ligastavok.ru", "path": "/" }
    ]"#,
    );

    let cookies = extract_cookie_values(&payload).expect("cookies");
    let header = build_cookie_header(cookies, NOW).expect("header");
    assert_eq!(header, "alive=2");
}

#[test]
fn filters_cookie_domains_to_ligastavok() {
    assert!(cookie_matches_target(".ligastavok.ru", "/"));
    assert!(cookie_matches_target("lds-api-sites.ligastavok.ru", "/rest"));
    assert!(!cookie_matches_target("example.com", "/"));
}

#[test]
fn builds_cookie_header_for_matching_url_only() {
    let payload = json(
        r#"[
        { "name": "root", "value": "1", "domain": ".ligastavok.ru", "path": "/" },
        { "name": "api_only", "value": "2", "domain": "lds-api-sites.ligastavok.ru", "path": "/rest" },
        { "name": "host_only", "value": "3", "domain": "www.ligastavok.ru", "path": "/", "hostOnly": true }
    ]"#,
    );

    let cookies = extract_cookie_values(&payload).expect("cookies");
    let jar = parse_bootstrap_cookies(cookies, NOW);

    let api_header = build_cookie_header_for_url(
        &jar,
        "https://lds-api-sites.ligastavok.ru/rest/events/v8/eventsList",
    )
    .expect("api header");
    let page_header =
        build_cookie_header_for_url(&jar, "https://www.ligastavok.ru/live/football").expect("page header");

    assert_eq!(api_header, "api_only=2; root=1");
    assert_eq!(page_header, "host_only=3; root=1");
}

#[test]
fn merges_manual_cookie_header_without_overwriting_existing_names() {
    let merged = merge_cookie_headers(
        Some("session=manual; locale=ru".to_string()),
        Some("session=jar; qrator_jsr=abc".to_string()),
    )
    .expect("merged");

    assert_eq!(merged, "session=manual; locale=ru; qrator_jsr=abc");
}

#[test]
fn session_bootstrap_validation_rejects_protection_only_cookies() {
    let parser = parser_with(bootstrap(
        vec![protection_cookie()],
        Some("qrator_jsr=abc"),
        DEFAULT_ACCEPT_LANGUAGE,
    ));

    assert!(parser.has_cookie_bootstrap());
    assert!(!parser.has_validated_session_bootstrap());
    assert_eq!(parser.session_bootstrap_blocker().label(), "protection_only_unverified_api");
    assert!(parser.session_bootstrap_summary().contains("bootstrap_blocker=protection_only_unverified_api"));
    assert!(parser.session_bootstrap_summary().contains("validated_session_bootstrap=false"));
    assert!(parser.session_bootstrap_summary().contains("protection_only=true"));
    assert!(parser.session_bootstrap_summary().contains("cookie_names=qrator_jsr"));
}

#[test]
fn session_bootstrap_validation_marks_header_only_bootstrap() {
    let parser = parser_with(bootstrap(vec![], None, "ru-RU,ru;q=0.9,en;q=0.7"));

    assert_eq!(parser.session_bootstrap_blocker().label(), "header_only");
    assert!(!parser.has_validated_session_bootstrap());
    assert!(parser.session_bootstrap_summary().contains("bootstrap_blocker=header_only"));
    assert!(parser.session_bootstrap_summary().contains("validated_session_bootstrap=false"));
}

#[test]
fn session_bootstrap_validation_marks_missing_bootstrap() {
    let parser = parser_with(bootstrap(vec![], None, DEFAULT_ACCEPT_LANGUAGE));

    assert_eq!(parser.session_bootstrap_blocker().label(), "bootstrap_unavailable");
    assert!(!parser.has_validated_session_bootstrap());
    assert!(parser.session_bootstrap_summary().contains("bootstrap_blocker=bootstrap_unavailable"));
    assert!(parser.session_bootstrap_summary().contains("validated_session_bootstrap=false"));
}

#[test]
fn session_bootstrap_validation_accepts_non_protection_cookie() {
    let parser = parser_with(bootstrap(
        vec![],
        Some("qrator_jsr=abc; sessionid=live"),
        DEFAULT_ACCEPT_LANGUAGE,
    ));

    assert!(parser.has_validated_session_bootstrap());
    assert_eq!(parser.session_bootstrap_blocker().label(), "ready");
    assert!(parser.session_bootstrap_summary().contains("bootstrap_blocker=ready"));
    assert!(parser.session_bootstrap_summary().contains("validated_session_bootstrap=true"));
    assert!(parser.session_bootstrap_summary().contains("non_protection_cookie_count=1"));
    assert!(parser.session_bootstrap_summary().contains("cookie_names=qrator_jsr|sessionid"));
}

fn api_bootstrap(browser_verified: Option<u16>) -> SessionBootstrap {
    let mut b = bootstrap(vec![protection_cookie()], Some("qrator_jsr=abc"), DEFAULT_ACCEPT_LANGUAGE);
    b.api_accept_language = Some("ru-RU".to_string());
    b.api_origin = Some(BASE_URL.to_string());
    b.api_referer = Some(ROOT_REFERER.to_string());
    b.browser_verified_api_probe_status = browser_verified;
    b.direct_probe_status = Some(200);
    b
}

#[test]
fn direct_probe_does_not_count_as_browser_verified_runtime_proof() {
    let parser = parser_with(api_bootstrap(None));

    assert!(!parser.has_validated_session_bootstrap());
    assert!(!parser.has_browser_verified_api_probe());
    assert!(parser.has_direct_probe_success());
    assert!(!parser.can_attempt_runtime_with_bootstrap());
    assert_eq!(parser.session_bootstrap_blocker().label(), "protection_only_unverified_api");
    assert!(parser.session_bootstrap_summary().contains("browser_verified_api_probe=false"));
    assert!(parser.session_bootstrap_summary().contains("direct_probe_success=true"));
}

#[test]
fn browser_verified_probe_allows_runtime_attempt_with_protection_cookies() {
    let parser = parser_with(api_bootstrap(Some(204)));

    assert!(!parser.has_validated_session_bootstrap());
    assert!(parser.has_browser_verified_api_probe());
    assert!(parser.can_attempt_runtime_with_bootstrap());
    assert!(parser.session_bootstrap_summary().contains("browser_verified_api_probe=true"));
    assert!(parser.session_bootstrap_summary().contains("browser_verified_api_probe_status=204"));
    assert!(parser.session_bootstrap_summary().contains("direct_probe_status=200"));
}

#[test]
fn extracts_probe_status_from_discovery_status_shape() {
    let payload = json(
        r#"{
        "status": {
            "bootstrap_blocker": "protection_only_unverified_api",
            "browser_verified_api_probe_status": 204,
            "direct_probe_status": 200,
            "can_attempt_runtime_with_bootstrap": true
        }
    }"#,
    );

    let profile = extract_header_profile(&payload).expect("profile");

    assert_eq!(profile.browser_verified_api_probe_status, Some(204));
    assert_eq!(profile.direct_probe_status, Some(200));
}

#[test]
fn session_prefers_environment_then_profile_then_storage() {
    let profile = extract_header_profile(&json(
        r#"{ "headerProfile": { "origin": "https://m.ligastavok.ru", "accept_language": "en-US" } }"#,
    ));
    let storage = extract_storage_state_bootstrap(
        &json(r#"{ "cookieHeader": "a=1; b=2", "final_url": "https://www.ligastavok.ru/live" }"#),
        NOW,
    );
    let session = session_bootstrap_from(
        profile,
        storage,
        Some(" b=env ;c=3;junk ".to_string()),
        Some("  de-DE   ".to_string()),
    );
    assert_eq!(session.cookie_header.as_deref(), Some("b=env; c=3; a=1"));
    assert_eq!(session.accept_language, "de-DE");
    assert_eq!(session.origin, "https://m.ligastavok.ru");
    assert_eq!(session.referer, "https://www.ligastavok.ru/live");
    let defaults = session_bootstrap_from(None, None, None, None);
    assert_eq!(defaults.accept_language, DEFAULT_ACCEPT_LANGUAGE);
    assert_eq!(defaults.origin, BASE_URL);
    assert_eq!(defaults.referer, ROOT_REFERER);
    assert!(defaults.cookie_header.is_none());
}

#[test]
fn browser_headers_differ_for_pages_and_api_calls() {
    let parser = LigaStavokParser::new(Arc::new(reqwest::Client::new()), api_bootstrap(Some(204)));
    let endpoint = parser.endpoint_for_namespace("live");
    assert_eq!(endpoint.route_hint, "live");
    let page = parser.browser_headers(endpoint, true, "https://www.ligastavok.ru/live/football");
    let api = parser.browser_headers(endpoint, false, "https://lds-api-sites.ligastavok.ru/rest/events/v8/eventsList");
    let find = |hs: &Vec<(String, String)>, name: &str| {
        hs.iter().find(|(n, _)| n == name).map(|(_, v)| v.clone())
    };
    assert_eq!(find(&page, "referer").as_deref(), Some("https://www.ligastavok.ru/live/football"));
    assert_eq!(find(&page, "sec-fetch-mode").as_deref(), Some("navigate"));
    assert_eq!(find(&api, "accept-language").as_deref(), Some("ru-RU"));
    assert_eq!(find(&api, "x-application-name").as_deref(), Some("mobile"));
    assert_eq!(find(&api, "cookie").as_deref(), Some("qrator_jsr=abc"));
    assert_eq!(parser.endpoint_for_namespace("unknown").namespace, "prematch");
}

#[test]
fn exposes_rollout_readiness_diagnostics() {
    let readiness = LigaStavokParser::readiness_snapshot();

    assert_eq!(
        readiness.stage,
        bookparsers::readiness::ParserReadinessStage::DiagnosticOnly
    );
    assert!(!readiness.production_enabled);
    assert!(readiness.self_check_available);
    assert!(readiness
        .checks
        .iter()
        .any(|check| check.code == "qrator_unattended_bootstrap_unverified"));
    assert!(readiness
        .checks
        .iter()
        .any(|check| check.code == "preflight_branch_diagnostics_recorded"));
    assert!(readiness
        .checks
        .iter()
        .any(|check| check.code == "filter_branch_diagnostics_recorded"));
    assert!(readiness
        .checks
        .iter()
        .any(|check| check.code == "tournament_tree_branch_diagnostics_recorded"));
    assert!(readiness
        .checks
        .iter()
        .any(|check| check.code == "events_list_branch_diagnostics_recorded"));
    assert!(readiness
        .checks
        .iter()
        .any(|check| check.code == "session_bootstrap_validation_recorded"));
    assert!(readiness
        .checks
        .iter()
        .any(|check| check.code == "session_bootstrap_blocker_recorded"));
    assert!(readiness
        .checks
        .iter()
        .any(|check| check.code == "browser_verified_api_probe_required_for_protection_only"));
    assert!(readiness
        .checks
        .iter()
        .any(|check| check.code == "runtime_refusal_reasons_recorded"));
}

const EVENTS_LIST_ITEM: &str = r#"{
    "id": 22957768,
    "gameTitle": "Футбол",
    "ns": "live",
    "event": {
        "team1": "СКА Хабаровск",
        "team2": "Волга Ульяновск",
        "categoryTitle": "Россия",
        "tournamentTitle": "Первая лига",
        "competitors": [{ "name": " ФК СКА-Хабаровск " }, { "name": "Волга Ульяновск" }]
    },
    "parts": { "main": { "title": "Основное время" }, "half": { "title": "1-й тайм" } },
    "markets": {
        "_759248971": { "id": 759248971, "title": "Победитель", "type": "WIN", "partId": "main" },
        "_759248982": { "id": 759248982, "title": "Тотал", "type": "TTL", "partId": "half" },
        "_locked": { "id": 1, "title": "Locked", "locked": true }
    },
    "outcomes": {
        "_1": { "id": 1, "marketId": "_759248971", "title": "1", "value": 3.6 },
        "_x": { "id": 2, "marketId": "_759248971", "title": "X", "value": "1,00" },
        "_2": { "id": 3, "marketId": "_759248971", "title": "2", "value": 5.5, "locked": true },
        "_l": { "id": 9, "marketId": "_locked", "title": "1", "value": 2.0 },
        "_over": { "id": 4, "marketId": "_759248982", "title": "Бол", "adValue": " 2,50 ", "value": "2.04" },
        "_under": { "id": 5, "marketId": "_759248982", "title": "Мен", "adValue": "n/a", "line": 3, "value": 1.66 }
    }
}"#;

fn parsed_text(raw: &Option<LigaRaw>) -> Option<u64> {
    match raw {
        Some(LigaRaw::Text(t)) => t.parse::<f64>().ok().map(f64::to_bits),
        _ => None,
    }
}

#[test]
fn prices_events_list_markets() {
    let item = json(EVENTS_LIST_ITEM);
    let rows = LigaStavokParser::market_rows("ligastavok-22957768", &item);
    assert_eq!(rows.len(), 4);
    assert_eq!(rows[0].id, "ligastavok-22957768-759248971-1");
    assert_eq!(rows[0].market, "Победитель");
    assert_eq!(rows[2].market, "1-й тайм / Тотал");
    assert_eq!(rows[2].odds_type, bookparsers::model::OddsType::Over);
    assert_eq!(rows[3].odds_type, bookparsers::model::OddsType::Under);

    let parsed: Vec<(Option<u64>, Option<u64>, Option<u64>)> = rows
        .iter()
        .map(|r| (parsed_text(&Some(match &r.price {
            LigaRaw::Number(n) => LigaRaw::Number(*n),
            LigaRaw::Text(t) => LigaRaw::Text(t.clone()),
        })), parsed_text(&r.ad_value), parsed_text(&r.line)))
        .collect();
    let odds = LigaStavokParser::price_rows(&rows, &parsed, 7);
    assert_eq!(odds.len(), 3);
    assert_eq!(odds[0].price, JsonNumber::FloatBits(3.6f64.to_bits()));
    assert_eq!(odds[1].price, JsonNumber::FloatBits(2.04f64.to_bits()));
    assert_eq!(odds[1].line, Some(JsonNumber::FloatBits(2.5f64.to_bits())));
    assert_eq!(odds[2].line, Some(JsonNumber::PosInt(3)));
    assert_eq!(odds[2].timestamp_ms, 7);
    assert_eq!(odds[2].bookmaker_slug, "ligastavok");
}

#[test]
fn extracts_events_list_teams() {
    let item = json(EVENTS_LIST_ITEM);
    let (id, home, away) = LigaStavokParser::extract_teams(&item).expect("teams");
    assert_eq!(id, "22957768");
    assert_eq!(home, "ФК СКА-Хабаровск");
    assert_eq!(away, "Волга Ульяновск");
    let blank = json(r#"{"id": "7", "event": {"competitors": [{"name": " "}, {"name": "B"}], "team1": "A", "team2": "B"}}"#);
    assert_eq!(LigaStavokParser::extract_teams(&blank).unwrap().1, "A");
    let missing = json(r#"{"id": "7", "event": {"competitors": [{"x": 1}, {"name": "B"}], "team1": "A", "team2": "B"}}"#);
    assert!(LigaStavokParser::extract_teams(&missing).is_none());
}

fn raw_bits(r: &LigaRaw) -> Option<u64> {
    match r {
        LigaRaw::Number(_) => None,
        LigaRaw::Text(t) => t.parse::<f64>().ok().map(f64::to_bits),
    }
}

#[test]
fn parses_events_list_shape() {
    let payload = json(
        r#"{"result": {"data": [{
            "id": 22957768, "gameTitle": "Футбол", "gameSeoName": "football", "gameTs": 1775365200000,
            "ns": "live", "ids": {"extId": 685893},
            "event": {"team1": "СКА Хабаровск", "team2": "Волга Ульяновск", "categoryTitle": "Россия",
                      "tournamentTitle": "Первая лига",
                      "competitors": [{"name": "ФК СКА-Хабаровск"}, {"name": "Волга Ульяновск"}]},
            "parts": {"main": {"title": "Основное время"}},
            "markets": {
              "_759248971": {"id": 759248971, "title": "Победитель", "type": "WIN", "partId": "main", "locked": false, "corrupted": false},
              "_759248982": {"id": 759248982, "title": "Тотал", "type": "TTL", "partId": "main", "locked": false, "corrupted": false}},
            "outcomes": {
              "_1": {"id": 1, "marketId": "_759248971", "title": "1", "value": 3.6, "locked": false, "corrupted": false},
              "_x": {"id": 2, "marketId": "_759248971", "title": "X", "value": 1.57, "locked": false, "corrupted": false},
              "_2": {"id": 3, "marketId": "_759248971", "title": "2", "value": 5.5, "locked": false, "corrupted": false},
              "_over": {"id": 4, "marketId": "_759248982", "title": "Бол", "adValue": "2.50", "value": 2.04, "locked": false, "corrupted": false},
              "_under": {"id": 5, "marketId": "_759248982", "title": "Мен", "adValue": "2.50", "value": 1.66, "locked": false, "corrupted": false}}
        }]}}"#,
    );
    let (drafts, rows) = LigaStavokParser::parse_response(payload, "live");
    let parsed: Vec<(Option<u64>, Option<u64>, Option<u64>)> = rows
        .iter()
        .map(|r| (raw_bits(&r.price), r.ad_value.as_ref().and_then(raw_bits), r.line.as_ref().and_then(raw_bits)))
        .collect();
    let odds = LigaStavokParser::price_rows(&rows, &parsed, 0);
    let events: Vec<_> = drafts.into_iter().map(|d| d.into_event(bookparsers::sport::Sport::Football)).collect();

    assert_eq!(events.len(), 1);
    assert_eq!(odds.len(), 5);
    assert_eq!(events[0].league, "Россия. Первая лига");
    assert!(events[0].is_live);
    assert!(odds.iter().any(|odd| odd.market == "Победитель" && odd.selection == "1"));
    assert!(odds
        .iter()
        .any(|odd| odd.market == "Тотал" && odd.line == Some(JsonNumber::FloatBits(2.5f64.to_bits()))));
}

#[test]
fn events_list_drafts_carry_title_start_and_extras() {
    let payload = json(
        r#"{"data": [{"id": 7, "title": "Хоккей", "gameTs": 1775365200000, "ns": "line", "ids": {"extId": "x7"},
                      "event": {"team1": "A", "team2": "B", "topicTitle": "КХЛ"}},
                     {"id": 8, "event": {"team1": "only"}}]}"#,
    );
    let (drafts, rows) = LigaStavokParser::parse_response(payload, "live");
    assert!(rows.is_empty());
    assert_eq!(drafts.len(), 1);
    let d = &drafts[0];
    assert_eq!(d.id, "ligastavok-7");
    assert_eq!(d.sport_title, "Хоккей");
    assert_eq!(d.league, "КХЛ");
    assert_eq!(d.start_time_ms, Some(1_775_365_200_000));
    assert!(!d.is_live);
    assert_eq!(d.extra.len(), 2);
    assert!(d.extra.iter().any(|m| m.key == "namespace" && matches!(&m.value, JsonValue::Str(s) if s == "line")));
    assert!(d.extra.iter().any(|m| m.key == "ext_id" && matches!(&m.value, JsonValue::Str(s) if s == "x7")));
    let (none, _) = LigaStavokParser::parse_response(json(r#"{"result": {}}"#), "live");
    assert!(none.is_empty());
}
