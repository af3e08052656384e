use bookparsers::melbet_sweep::MelbetSweep;
use bookparsers::melbet_http_api::{sport_seeds_from_value, MelbetSportApiContext};
use bookparsers::json::{JsonMember, JsonNumber, JsonValue};
use bookparsers::melbet_readiness::MelbetRouteProbeResult;
use bookparsers::melbet_rules::MelbetParser;
use bookparsers::melbet_runtime::{
    MelbetExtractionDiagnostics, MelbetReadinessDiagnostics, MelbetResourceTimelineEntry,
    MelbetRouteMatrixCounts, MelbetRouteStatus, MelbetRuntimeContext, MelbetRuntimeState,
    MelbetTransportHint,
};
use bookparsers::melbet_snapshot::{headless_probes, runtime_probe_plan, MelbetBootstrapSnapshot};

const SPORTSBOOK_HOME_URL: &str =
    "https://sport.melbet.ru/partner/SportsBook/Home?initialRoute=%7B%22path%22%3A%22%2F%22%7D";
const DESKTOP_USER_AGENT: &str = "Mozilla/5.0 (Windows NT 10.0; Win64; x64) AppleWebKit/537.36 (KHTML, like Gecko) Chrome/124.0.0.0 Safari/537.36";
const MOBILE_USER_AGENT: &str = "Mozilla/5.0 (Linux; Android 13; Pixel 7) AppleWebKit/537.36 (KHTML, like Gecko) Chrome/124.0.0.0 Mobile Safari/537.36";
const MISSING_CONTEXT: &str = "missing_http_api_context:http_api_runtime|partner_id|lang_id|country_code|getTopLiveSports|getTopLiveEvents:additional_bootstrap_source_required";

fn jv(v: &serde_json::Value) -> JsonValue {
    match v {
        serde_json::Value::Null => JsonValue::Null,
        serde_json::Value::Bool(b) => JsonValue::Bool(*b),
        serde_json::Value::Number(n) => JsonValue::Number(if let Some(u) = n.as_u64() {
            JsonNumber::PosInt(u)
        } else if let Some(i) = n.as_i64() {
            JsonNumber::NegInt(i)
        } else {
            JsonNumber::FloatBits(n.as_f64().unwrap().to_bits())
        }),
        serde_json::Value::String(s) => JsonValue::Str(s.clone()),
        serde_json::Value::Array(a) => JsonValue::Array(a.iter().map(jv).collect()),
        serde_json::Value::Object(m) => JsonValue::Object(
            m.iter()
                .map(|(k, v)| JsonMember { key: k.clone(), value: jv(v) })
                .collect(),
        ),
    }
}

fn json(text: &str) -> JsonValue {
    jv(&serde_json::from_str::<serde_json::Value>(text).expect("test json"))
}

fn snapshot(text: &str) -> MelbetBootstrapSnapshot {
    MelbetBootstrapSnapshot::from_value(&json(text))
}

fn extraction(source: &str, dom_payload_len: usize, blocker: &str) -> MelbetExtractionDiagnostics {
    let mut e = MelbetExtractionDiagnostics::new();
    e.source = source.to_string();
    e.dom_payload_len = dom_payload_len;
    e.blocker = blocker.to_string();
    e
}

#[test]
fn extracts_bootstrap_snapshot_storage_keys() {
    let snapshot = snapshot(&format!(
        r#"{{
        "url": "https://melbet.ru/live",
        "origin": "https://melbet.ru",
        "path": "/live",
        "iframeSources": [
            "https://sport.melbet.ru/partner/SportsBook/Home?initialRoute=%7B%22path%22%3A%22%2F%22%7D"
        ],
        "title": "Melbet Live",
        "bodyTextSample": "Live events",
        "cookie": "SESSION=abc123",
        "htmlClassList": ["hydrated", "app-root"],
        "bodyClassList": ["page-live"],
        "rootNodeIds": ["app"],
        "metaViewport": "width=device-width,initial-scale=1",
        "localStorage": {{
            "app.session": "1",
            "device.id": "2"
        }},
        "sessionStorage": {{
            "bootstrap.route": "live"
        }},
        "scriptSources": ["/assets/app.js", "/assets/chunk-vendors.js"],
        "userAgent": "{}",
        "profileLabel": "webview",
        "appMarker": "com.melbet.app",
        "maxTouchPoints": 5,
        "innerWidth": 412,
        "innerHeight": 915,
        "hasServiceWorker": true
    }}"#,
        "Mozilla/5.0 (Linux; Android 13; Pixel 7 Build/TQ3A.230805.001; wv) AppleWebKit/537.36 (KHTML, like Gecko) Version/4.0 Chrome/124.0.0.0 Mobile Safari/537.36"
    ));

    assert_eq!(snapshot.final_url, "https://melbet.ru/live");
    assert_eq!(snapshot.storage_key_count(), 3);
    assert_eq!(snapshot.origin, "https://melbet.ru");
    assert_eq!(snapshot.path, "/live");
    assert_eq!(snapshot.local_storage_keys, vec!["app.session", "device.id"]);
    assert_eq!(snapshot.session_storage_keys, vec!["bootstrap.route"]);
    assert_eq!(snapshot.profile_label, "webview");
    assert_eq!(snapshot.app_marker, "com.melbet.app");
    assert_eq!(snapshot.max_touch_points, 5);
    assert_eq!(snapshot.root_node_ids, vec!["app"]);
    assert_eq!(snapshot.iframe_source_count(), 1);
    assert_eq!(snapshot.transport_hint_count(), 0);
    assert!(!snapshot.runtime_context.has_http_api);
}

#[test]
fn selects_embedded_sportsbook_route_from_bootstrap_snapshot() {
    let probes = headless_probes();
    let snapshot = snapshot(
        r#"{
        "url": "https://melbet.ru/ru/sport",
        "origin": "https://melbet.ru",
        "path": "/ru/sport",
        "iframeSources": [
            "https://sport.melbet.ru/partner/SportsBook/Home?initialRoute=%7B%22path%22%3A%22%2F%22%7D",
            "https://example.com/other"
        ]
    }"#,
    );

    assert!(MelbetParser::route_matches_probe(&probes[0], &snapshot));
    assert_eq!(
        MelbetParser::select_embedded_route(&probes[0], &snapshot),
        Some(
            "https://sport.melbet.ru/partner/SportsBook/Home?initialRoute=%7B%22path%22%3A%22%2F%22%7D"
                .to_string()
        )
    );
}

#[test]
fn selects_direct_sportsbook_route_from_shell_markers() {
    let probes = headless_probes();
    let snapshot = snapshot(
        r#"{
        "url": "https://melbet.ru/ru/sport",
        "origin": "https://melbet.ru",
        "path": "/ru/sport",
        "title": "melbet.ru",
        "scriptSources": [
            "https://cdn.dgbuilder1.ru/version/0.7.460/main.js"
        ],
        "rootNodeIds": ["root"]
    }"#,
    );

    assert!(MelbetParser::has_sportsbook_shell_markers(&snapshot));
    assert_eq!(
        MelbetParser::select_sportsbook_route(&probes[0], &snapshot),
        Some(
            "https://sport.melbet.ru/partner/SportsBook/Home?initialRoute=%7B%22path%22%3A%22%2Flive%22%7D"
                .to_string()
        )
    );
    assert_eq!(MelbetParser::select_sportsbook_route(&probes[2], &snapshot), None);
}

#[test]
fn expands_desktop_live_sportsbook_route_candidates_from_bootstrap_markers() {
    let probes = headless_probes();
    let snapshot = snapshot(
        r#"{
        "url": "https://melbet.ru/live",
        "origin": "https://melbet.ru",
        "path": "/live",
        "bodyTextSample": "",
        "runtimeContext": {
            "hasHttpApi": false,
            "httpApiMethods": [],
            "partnerId": 0,
            "langId": 0,
            "countryCode": "",
            "hasGlobalSettings": true,
            "hasPartnerConfig": false,
            "inlineScriptCount": 1,
            "bootstrapMarkers": ["inline:$globalSettings"]
        },
        "readinessDiagnostics": {
            "readyState": "complete",
            "fetchLikeCount": 1,
            "hasVisibleAppShell": true
        }
    }"#,
    );

    let candidates = MelbetParser::sportsbook_route_candidates(&probes[0], &snapshot);

    assert_eq!(
        candidates.first().map(String::as_str),
        Some(
            "https://sport.melbet.ru/partner/SportsBook/Home?initialRoute=%7B%22path%22%3A%22%2Flive%22%7D"
        )
    );
    assert!(candidates.iter().any(|route| route == SPORTSBOOK_HOME_URL));
}

#[test]
fn collects_sportsbook_route_candidates_from_resource_timeline() {
    let probes = headless_probes();
    let snapshot = snapshot(
        r#"{
        "url": "https://melbet.ru/live",
        "origin": "https://melbet.ru",
        "path": "/live",
        "resourceTimeline": [
            {
                "name": "https://sport.melbet.ru/partner/SportsBook/Home?initialRoute=%7B%22path%22%3A%22%2Fline%22%7D",
                "initiatorType": "iframe",
                "nextHopProtocol": "h2",
                "transferSize": 1024,
                "durationMs": 11,
                "startTimeMs": 3,
                "responseEndMs": 14
            }
        ]
    }"#,
    );

    assert_eq!(
        MelbetParser::select_sportsbook_route(&probes[0], &snapshot),
        Some(
            "https://sport.melbet.ru/partner/SportsBook/Home?initialRoute=%7B%22path%22%3A%22%2Fline%22%7D"
                .to_string()
        )
    );
}

#[test]
fn focuses_default_desktop_sportsbook_routes() {
    let probes = headless_probes();
    let candidates = MelbetParser::default_sportsbook_route_candidates(&probes[0]);

    assert_eq!(candidates.len(), 2);
    assert_eq!(
        candidates.first().map(String::as_str),
        Some(
            "https://sport.melbet.ru/partner/SportsBook/Home?initialRoute=%7B%22path%22%3A%22%2Flive%22%7D"
        )
    );
    assert_eq!(candidates.get(1).map(String::as_str), Some(SPORTSBOOK_HOME_URL));
}

#[test]
fn detects_empty_runtime_bootstrap_snapshot() {
    let empty = MelbetBootstrapSnapshot::from_value(&JsonValue::Null);
    let bootstrap = snapshot(
        r#"{
        "url": "https://melbet.ru/live",
        "path": "/live",
        "runtimeState": {
            "href": "https://melbet.ru/live",
            "pathname": "/live",
            "bodyChildCount": 1,
            "bodyTextLength": 8
        }
    }"#,
    );

    assert!(MelbetParser::has_empty_runtime_bootstrap(&empty));
    assert!(!MelbetParser::has_empty_runtime_bootstrap(&bootstrap));
}

const REUSED_SNAPSHOT: &str = r#"{
    "url": "https://melbet.ru/ru/sport",
    "origin": "https://melbet.ru",
    "path": "/ru/sport",
    "title": "Melbet sportsbook",
    "scriptSources": [
        "https://cdn.dgbuilder1.ru/version/0.7.460/main.js"
    ],
    "runtimeContext": {
        "hasHttpApi": false,
        "httpApiMethods": [],
        "partnerId": 0,
        "langId": 0,
        "countryCode": "",
        "hasGlobalSettings": true,
        "hasPartnerConfig": true,
        "inlineScriptCount": 1,
        "bootstrapMarkers": ["inline:$globalSettings"]
    },
    "readinessDiagnostics": {
        "readyState": "complete",
        "bodyTextLength": 32,
        "bodyChildCount": 4,
        "resourceCount": 1,
        "fetchLikeCount": 1,
        "hasVisibleAppShell": true
    },
    "runtimeState": {
        "href": "https://melbet.ru/ru/sport",
        "pathname": "/ru/sport",
        "title": "Melbet sportsbook",
        "readyState": "complete",
        "bodyChildCount": 4,
        "bodyTextLength": 32,
        "customElementCount": 2,
        "buttonCount": 1,
        "linkCount": 3,
        "routeLinkCount": 1,
        "routerShellCount": 2,
        "bodyTextSample": "Sport Live Prematch"
    }
}"#;

#[test]
fn reuses_bootstrap_snapshot_when_sportsbook_navigation_fails() {
    let probes = headless_probes();
    let snapshot = snapshot(REUSED_SNAPSHOT);

    let attempt = MelbetParser::sportsbook_navigation_failure_fallback(
        &probes[0],
        snapshot,
        Some(SPORTSBOOK_HOME_URL.to_string()),
    );

    assert_eq!(attempt.route, SPORTSBOOK_HOME_URL);
    assert_eq!(attempt.blocker, MISSING_CONTEXT);
    assert_eq!(
        attempt.bootstrap.as_ref().map(|item| item.final_url.as_str()),
        Some("https://melbet.ru/ru/sport")
    );
    assert_eq!(
        MelbetParser::classify_route_status(
            &probes[0],
            attempt.bootstrap.as_ref().expect("bootstrap snapshot"),
            attempt.payload.len(),
        ),
        MelbetRouteStatus::BootstrapOnly
    );
}

const LIVE_MISSING_SOURCE: &str = r#"{
    "url": "https://melbet.ru/live",
    "origin": "https://melbet.ru",
    "path": "/live",
    "title": "Melbet Live",
    "runtimeContext": {
        "hasHttpApi": false,
        "httpApiMethods": [],
        "partnerId": 0,
        "langId": 0,
        "countryCode": "",
        "hasGlobalSettings": true,
        "hasPartnerConfig": false,
        "inlineScriptCount": 1,
        "bootstrapMarkers": ["inline:$globalSettings"]
    },
    "readinessDiagnostics": {
        "readyState": "complete",
        "bodyTextLength": 24,
        "bodyChildCount": 3,
        "resourceCount": 1,
        "fetchLikeCount": 1,
        "hasVisibleAppShell": true
    },
    "runtimeState": {
        "href": "https://melbet.ru/live",
        "pathname": "/live",
        "title": "Melbet Live",
        "readyState": "complete",
        "bodyChildCount": 3,
        "bodyTextLength": 24,
        "routeLinkCount": 1,
        "routerShellCount": 1,
        "bodyTextSample": "Live events"
    }
}"#;

#[test]
fn short_circuits_http_api_route_probe_when_bootstrap_source_is_still_missing() {
    let probes = headless_probes();
    let snapshot = snapshot(LIVE_MISSING_SOURCE);

    assert!(MelbetParser::should_short_circuit_sportsbook_http_api(&snapshot, true));

    let fallback = MelbetParser::sportsbook_navigation_failure_fallback(
        &probes[0],
        snapshot,
        Some(SPORTSBOOK_HOME_URL.to_string()),
    );

    assert_eq!(fallback.payload.len(), 0);
    assert_eq!(fallback.seed_count, 0);
    assert_eq!(fallback.route, SPORTSBOOK_HOME_URL);
    assert_eq!(fallback.blocker, MISSING_CONTEXT);
    assert_eq!(
        fallback.bootstrap.as_ref().map(|item| item.final_url.as_str()),
        Some("https://melbet.ru/live")
    );
}

#[test]
fn desktop_live_navigation_fallback_keeps_useful_blocker_for_sportsbook_shell_route() {
    let probes = headless_probes();
    let snapshot = snapshot(
        r#"{
        "url": "https://sport.melbet.ru/partner/SportsBook/Home?initialRoute=%7B%22path%22%3A%22%2Flive%22%7D",
        "origin": "https://sport.melbet.ru",
        "path": "/partner/SportsBook/Home",
        "title": "Melbet sportsbook",
        "runtimeContext": {
            "hasHttpApi": false,
            "httpApiMethods": [],
            "partnerId": 0,
            "langId": 0,
            "countryCode": "",
            "hasGlobalSettings": true,
            "hasPartnerConfig": true,
            "inlineScriptCount": 1,
            "bootstrapMarkers": ["inline:$globalSettings", "route_family:href:sportsbook"]
        },
        "readinessDiagnostics": {
            "readyState": "interactive",
            "bodyTextLength": 0,
            "bodyChildCount": 0,
            "fetchLikeCount": 1,
            "hasVisibleAppShell": true
        },
        "runtimeState": {
            "href": "https://sport.melbet.ru/partner/SportsBook/Home?initialRoute=%7B%22path%22%3A%22%2Flive%22%7D",
            "pathname": "/partner/SportsBook/Home",
            "title": "Melbet sportsbook",
            "readyState": "interactive",
            "bodyChildCount": 0,
            "bodyTextLength": 0,
            "routeLinkCount": 1,
            "routerShellCount": 1,
            "bodyTextSample": ""
        }
    }"#,
    );

    let fallback = MelbetParser::sportsbook_navigation_failure_fallback(
        &probes[0],
        snapshot,
        Some(
            "https://sport.melbet.ru/partner/SportsBook/Home?initialRoute=%7B%22path%22%3A%22%2Flive%22%7D"
                .to_string(),
        ),
    );

    assert_eq!(fallback.blocker, MISSING_CONTEXT);
    assert_eq!(
        fallback.bootstrap.as_ref().map(|item| item.final_url.as_str()),
        Some(
            "https://sport.melbet.ru/partner/SportsBook/Home?initialRoute=%7B%22path%22%3A%22%2Flive%22%7D"
        )
    );
    assert_eq!(
        MelbetParser::classify_route_status(
            &probes[0],
            fallback.bootstrap.as_ref().expect("sportsbook bootstrap"),
            fallback.payload.len(),
        ),
        MelbetRouteStatus::BootstrapOnly
    );
}

#[test]
fn short_circuits_http_api_route_probe_when_runtime_blocker_is_detected() {
    let probes = headless_probes();
    let snapshot = snapshot(
        r#"{
        "url": "https://melbet.ru/live",
        "origin": "https://melbet.ru",
        "path": "/live",
        "title": "Just a moment...",
        "bodyTextSample": "Checking your browser before accessing Melbet",
        "runtimeState": {
            "href": "https://melbet.ru/live",
            "pathname": "/live",
            "title": "Just a moment...",
            "readyState": "complete",
            "historyLength": 2,
            "bodyChildCount": 1,
            "bodyTextLength": 46,
            "blocker": {
                "kind": "cloudflare_challenge",
                "source": "title",
                "matchedText": "Just a moment..."
            }
        }
    }"#,
    );

    assert!(MelbetParser::should_short_circuit_sportsbook_http_api(&snapshot, true));

    let fallback = MelbetParser::sportsbook_navigation_failure_fallback(
        &probes[0],
        snapshot,
        Some(SPORTSBOOK_HOME_URL.to_string()),
    );

    assert_eq!(fallback.payload.len(), 0);
    assert_eq!(fallback.seed_count, 0);
    assert_eq!(fallback.route, SPORTSBOOK_HOME_URL);
    assert_eq!(fallback.blocker, "runtime_blocker:cloudflare_challenge@title");
    assert_eq!(
        fallback.bootstrap.as_ref().map(|item| item.final_url.as_str()),
        Some("https://melbet.ru/live")
    );
}

#[test]
fn builds_early_runtime_cutoff_attempt_for_missing_bootstrap_source() {
    let probes = headless_probes();
    let snapshot = snapshot(LIVE_MISSING_SOURCE);

    let attempt = MelbetParser::runtime_blocker_cutoff_attempt(
        &probes[0],
        snapshot,
        Some(SPORTSBOOK_HOME_URL.to_string()),
    )
    .expect("early cutoff attempt");

    assert_eq!(attempt.payload.len(), 0);
    assert_eq!(attempt.seed_count, 0);
    assert_eq!(attempt.route, SPORTSBOOK_HOME_URL);
    assert_eq!(attempt.blocker, MISSING_CONTEXT);
}

#[test]
fn classifies_sparse_desktop_live_runtime_as_bootstrap_only() {
    let probes = headless_probes();
    let snapshot = snapshot(
        r#"{
        "url": "https://melbet.ru/live",
        "origin": "https://melbet.ru",
        "path": "/live",
        "title": "Melbet Live",
        "runtimeContext": {
            "hasHttpApi": false,
            "httpApiMethods": [],
            "partnerId": 0,
            "langId": 0,
            "countryCode": "",
            "hasGlobalSettings": false,
            "hasPartnerConfig": false,
            "inlineScriptCount": 0,
            "bootstrapMarkers": []
        },
        "readinessDiagnostics": {
            "readyState": "complete",
            "bodyTextLength": 18,
            "bodyChildCount": 2,
            "resourceCount": 0,
            "fetchLikeCount": 0,
            "hasVisibleAppShell": false
        },
        "runtimeState": {
            "href": "https://melbet.ru/live",
            "pathname": "/live",
            "title": "Melbet Live",
            "readyState": "complete",
            "bodyChildCount": 2,
            "bodyTextLength": 18,
            "linkCount": 1,
            "routeLinkCount": 0,
            "routerShellCount": 0,
            "bodyTextSample": "Live events",
            "bootstrapMarkers": []
        }
    }"#,
    );

    assert!(MelbetParser::has_useful_desktop_bootstrap(&snapshot));
    assert_eq!(
        MelbetParser::classify_route_status(&probes[0], &snapshot, 0),
        MelbetRouteStatus::BootstrapOnly
    );
}

fn blank_snapshot_with(final_url: &str, path: &str, title: &str, body: &str) -> MelbetBootstrapSnapshot {
    MelbetBootstrapSnapshot {
        final_url: final_url.to_string(),
        origin: "https://melbet.ru".to_string(),
        path: path.to_string(),
        referrer: String::new(),
        iframe_sources: Vec::new(),
        title: title.to_string(),
        body_text_sample: body.to_string(),
        cookie: String::new(),
        local_storage_keys: Vec::new(),
        session_storage_keys: Vec::new(),
        html_class_list: Vec::new(),
        body_class_list: Vec::new(),
        root_node_ids: Vec::new(),
        meta_viewport: String::new(),
        script_sources: Vec::new(),
        user_agent: String::new(),
        profile_label: String::new(),
        app_marker: String::new(),
        max_touch_points: 0,
        inner_width: 0,
        inner_height: 0,
        has_service_worker: false,
        resource_timeline: Vec::new(),
        transport_hints: Vec::new(),
        runtime_context: MelbetRuntimeContext::empty(),
        readiness: MelbetReadinessDiagnostics::from_value(&JsonValue::Null),
        runtime_state: MelbetRuntimeState::empty(),
    }
}

#[test]
fn detects_block_page_from_snapshot() {
    let probes = headless_probes();
    let snapshot = blank_snapshot_with(
        "https://melbet.ru/blocked",
        "/blocked",
        "Access denied",
        "Please complete the captcha to continue",
    );

    assert!(MelbetParser::looks_like_block_page(&snapshot));
    assert_eq!(
        MelbetParser::classify_route_status(&probes[4], &snapshot, 0),
        MelbetRouteStatus::Blocked
    );
}

#[test]
fn classifies_mobile_route_as_bootstrap_only_without_payload() {
    let probes = headless_probes();
    let snapshot = MelbetBootstrapSnapshot {
        final_url: "https://melbet.ru/m/live".to_string(),
        origin: "https://melbet.ru".to_string(),
        path: "/m/live".to_string(),
        referrer: String::new(),
        iframe_sources: Vec::new(),
        title: "Melbet Live".to_string(),
        body_text_sample: "Live events and coupons".to_string(),
        cookie: "SESSION=abc123".to_string(),
        local_storage_keys: vec!["app.session".to_string()],
        session_storage_keys: vec!["bootstrap.route".to_string()],
        html_class_list: vec!["hydrated".to_string(), "app-root".to_string()],
        body_class_list: vec!["page-live".to_string()],
        root_node_ids: vec!["app".to_string()],
        meta_viewport: "width=device-width,initial-scale=1".to_string(),
        script_sources: vec!["/assets/app.js".to_string()],
        user_agent: MOBILE_USER_AGENT.to_string(),
        profile_label: "mobile".to_string(),
        app_marker: String::new(),
        max_touch_points: 5,
        inner_width: 412,
        inner_height: 915,
        has_service_worker: true,
        resource_timeline: vec![MelbetResourceTimelineEntry {
            name: "https://melbet.ru/m/live-feed".to_string(),
            initiator_type: "fetch".to_string(),
            next_hop_protocol: "h2".to_string(),
            transfer_size: 2_048,
            duration_ms: 88,
            start_time_ms: 12,
            response_end_ms: 100,
        }],
        transport_hints: vec![MelbetTransportHint {
            kind: "data_endpoint".to_string(),
            value: "https://melbet.ru/m/live-feed".to_string(),
            source: "resource".to_string(),
        }],
        runtime_context: MelbetRuntimeContext::empty(),
        readiness: MelbetReadinessDiagnostics {
            ready_state: "complete".to_string(),
            body_text_length: 24,
            body_child_count: 3,
            resource_count: 4,
            script_count: 1,
            storage_key_count: 2,
            root_node_count: 1,
            fetch_like_count: 1,
            websocket_hint_count: 0,
            dom_content_loaded_ms: 350,
            load_event_ms: 610,
            last_resource_end_ms: 100,
            has_visible_app_shell: true,
        },
        runtime_state: MelbetRuntimeState::empty(),
    };

    assert_eq!(
        MelbetParser::classify_route_status(&probes[2], &snapshot, 0),
        MelbetRouteStatus::BootstrapOnly
    );
    assert_eq!(
        MelbetParser::classify_route_status(&probes[0], &snapshot, 0),
        MelbetRouteStatus::Blocked
    );
}

#[test]
fn classifies_webview_shell_as_bootstrap_only_without_dom_payload() {
    let probes = headless_probes();
    let snapshot = snapshot(&format!(
        r#"{{
        "url": "https://m.melbet.com/live",
        "origin": "https://m.melbet.com",
        "path": "/live",
        "title": "Melbet app shell",
        "bodyTextSample": "Loading live data",
        "cookie": "SESSION=wv-123",
        "localStorage": {{
            "app.token": "1"
        }},
        "sessionStorage": {{
            "route.name": "live"
        }},
        "htmlClassList": ["app-shell"],
        "rootNodeIds": ["root"],
        "metaViewport": "width=device-width,initial-scale=1",
        "scriptSources": ["https://m.melbet.com/assets/app.js", "https://m.melbet.com/assets/chunk.js", "https://m.melbet.com/assets/runtime.js"],
        "resourceTimeline": [
            {{
                "name": "https://m.melbet.com/api/live-feed",
                "initiatorType": "fetch",
                "nextHopProtocol": "h2",
                "transferSize": 4096,
                "durationMs": 72,
                "startTimeMs": 15,
                "responseEndMs": 87
            }}
        ],
        "transportHints": [
            {{
                "kind": "data_endpoint",
                "value": "https://m.melbet.com/api/live-feed",
                "source": "resource"
            }}
        ],
        "readinessDiagnostics": {{
            "readyState": "complete",
            "bodyTextLength": 18,
            "resourceCount": 3,
            "fetchLikeCount": 1,
            "websocketHintCount": 0,
            "domContentLoadedMs": 440,
            "loadEventMs": 700,
            "lastResourceEndMs": 87,
            "hasVisibleAppShell": true
        }},
        "userAgent": "{}",
        "profileLabel": "webview",
        "appMarker": "com.melbet.app",
        "maxTouchPoints": 5,
        "innerWidth": 412,
        "innerHeight": 915,
        "hasServiceWorker": true
    }}"#,
        "Mozilla/5.0 (Linux; Android 13; Pixel 7 Build/TQ3A.230805.001; wv) AppleWebKit/537.36 (KHTML, like Gecko) Version/4.0 Chrome/124.0.0.0 Mobile Safari/537.36"
    ));

    assert!(MelbetParser::route_matches_probe(&probes[4], &snapshot));
    assert!(MelbetParser::has_bootstrap_markers(&probes[4], &snapshot));
    assert_eq!(snapshot.transport_hint_count(), 1);
    assert_eq!(snapshot.resource_timeline_count(), 1);
    assert_eq!(snapshot.readiness.fetch_like_count, 1);
    assert_eq!(
        MelbetParser::classify_route_status(&probes[4], &snapshot, 0),
        MelbetRouteStatus::BootstrapOnly
    );
}

const M_LIVE: &str = r#"{
    "url": "https://m.melbet.com/live",
    "origin": "https://m.melbet.com",
    "path": "/live"
}"#;

#[test]
fn summarizes_route_matrix_with_statuses() {
    let probes = headless_probes();
    let matrix = vec![
        MelbetRouteProbeResult {
            probe: probes[0],
            status: MelbetRouteStatus::Ready,
            payload_len: 7,
            bootstrap: snapshot(M_LIVE),
            extraction: extraction("dom", 7, "payload_ready"),
        },
        MelbetRouteProbeResult {
            probe: probes[4],
            status: MelbetRouteStatus::BootstrapOnly,
            payload_len: 0,
            bootstrap: snapshot(M_LIVE),
            extraction: extraction(
                "none",
                0,
                "no_http_api_runtime:additional_bootstrap_source_required",
            ),
        },
    ];

    assert_eq!(
        MelbetParser::summarize_route_matrix(&matrix),
        "desktop-live:canonical-live:ready:7:0:dom:payload_ready:dom_payload_ready:rendered_dom_payload_detected:/live,webview-live:webview-shell-live:bootstrap_only:0:0:none:no_http_api_runtime:additional_bootstrap_source_required:shell_bootstrapped:bootstrap_signals_without_dom_payload:/live"
    );
}

#[test]
fn summarizes_route_matrix_counts_by_status() {
    let probes = headless_probes();
    let matrix = vec![
        MelbetRouteProbeResult {
            probe: probes[0],
            status: MelbetRouteStatus::Ready,
            payload_len: 7,
            bootstrap: snapshot(M_LIVE),
            extraction: extraction("dom", 7, "payload_ready"),
        },
        MelbetRouteProbeResult {
            probe: probes[2],
            status: MelbetRouteStatus::BootstrapOnly,
            payload_len: 0,
            bootstrap: snapshot(M_LIVE),
            extraction: extraction("none", 0, "no_sportsbook_route"),
        },
        MelbetRouteProbeResult {
            probe: probes[4],
            status: MelbetRouteStatus::Blocked,
            payload_len: 0,
            bootstrap: snapshot(M_LIVE),
            extraction: extraction("none", 0, "dom_payload_empty"),
        },
    ];

    let counts = MelbetParser::summarize_route_matrix_counts(&matrix);
    assert_eq!(counts, MelbetRouteMatrixCounts { ready: 1, bootstrap_only: 1, blocked: 1 });
    assert_eq!(counts.as_summary(), "ready=1,bootstrap_only=1,blocked=1");
}

#[test]
fn runtime_probe_plan_focuses_desktop_live_route() {
    let plan = runtime_probe_plan();
    assert_eq!(plan.len(), 1);
    assert_eq!(plan[0].route_hint, "desktop-live");
    assert_eq!(plan[0].route_family, "canonical-live");
}

#[test]
fn builds_synthetic_snapshot_for_navigation_failure() {
    let probes = headless_probes();
    let snapshot = MelbetParser::synthetic_navigation_failure_snapshot(&probes[0]);

    assert_eq!(snapshot.final_url, "https://melbet.ru/live");
    assert_eq!(snapshot.origin, "https://melbet.ru");
    assert_eq!(snapshot.path, "/live");
    assert_eq!(snapshot.profile_label, "desktop");
    assert_eq!(snapshot.user_agent, DESKTOP_USER_AGENT);
    assert_eq!(snapshot.inner_width, 1440);
    assert_eq!(snapshot.inner_height, 2200);
    assert_eq!(snapshot.transport_hint_count(), 0);
    assert_eq!(snapshot.resource_timeline_count(), 0);
}

#[test]
fn summarizes_runtime_blocker_for_focused_route() {
    let probes = headless_probes();
    let bootstrap = snapshot(
        r#"{
        "url": "https://melbet.ru/live",
        "origin": "https://melbet.ru",
        "path": "/live"
    }"#,
    );
    let blocker = MelbetParser::summarize_runtime_blocker(&MelbetRouteProbeResult {
        probe: probes[0],
        status: MelbetRouteStatus::Blocked,
        payload_len: 0,
        bootstrap,
        extraction: extraction("none", 0, MISSING_CONTEXT),
    });

    assert_eq!(
        blocker,
        "route_hint=desktop-live,route_family=canonical-live,status=blocked,source=none,blocker=missing_http_api_context:http_api_runtime|partner_id|lang_id|country_code|getTopLiveSports|getTopLiveEvents:additional_bootstrap_source_required,confirmed_blocker=additional_bootstrap_source_required,next_step=manual_bootstrap_acquisition,target_route=https://sport.melbet.ru/partner/SportsBook/Home?initialRoute=%7B%22path%22%3A%22%2Flive%22%7D,state=blocked_or_unconfirmed,reason=insufficient_bootstrap_signals,payload_len=0,final_url=https://melbet.ru/live"
    );
}

#[test]
fn preserves_early_blocker_summary_when_classifier_keeps_bootstrap_only() {
    let probes = headless_probes();
    let bootstrap = snapshot(
        r#"{
        "url": "https://melbet.ru/live",
        "origin": "https://melbet.ru",
        "path": "/live",
        "title": "Melbet Live",
        "readinessDiagnostics": {
            "readyState": "complete",
            "bodyTextLength": 24,
            "bodyChildCount": 3,
            "hasVisibleAppShell": true
        },
        "runtimeState": {
            "href": "https://melbet.ru/live",
            "pathname": "/live",
            "title": "Melbet Live",
            "readyState": "complete",
            "bodyChildCount": 3,
            "bodyTextLength": 24,
            "routeLinkCount": 1,
            "routerShellCount": 1,
            "bodyTextSample": "Live events"
        }
    }"#,
    );

    let blocker = MelbetParser::summarize_runtime_blocker(&MelbetRouteProbeResult {
        probe: probes[0],
        status: MelbetRouteStatus::BootstrapOnly,
        payload_len: 0,
        bootstrap,
        extraction: extraction("none", 0, MISSING_CONTEXT),
    });

    assert!(blocker.contains("status=blocked"));
    assert!(blocker.contains("confirmed_blocker=additional_bootstrap_source_required"));
    assert!(blocker.contains("next_step=manual_bootstrap_acquisition"));
    assert!(blocker.contains("state=blocked_or_unconfirmed"));
}

#[test]
fn rewrites_desktop_live_navigation_failure_into_actionable_blocker() {
    let probes = headless_probes();
    let bootstrap = MelbetParser::synthetic_navigation_failure_snapshot(&probes[0]);

    let blocker = MelbetParser::summarize_runtime_blocker(&MelbetRouteProbeResult {
        probe: probes[0],
        status: MelbetRouteStatus::Blocked,
        payload_len: 0,
        bootstrap,
        extraction: extraction("none", 0, "navigation_failed"),
    });

    assert!(blocker.contains("blocker=navigation_failed:retry_known_sportsbook_route"));
    assert!(blocker.contains("confirmed_blocker=desktop_live_navigation_failed"));
    assert!(blocker.contains("next_step=retry_known_sportsbook_route"));
    assert!(blocker.contains("reason=canonical_navigation_failed_before_bootstrap_capture"));
    assert!(blocker.contains(
        "target_route=https://sport.melbet.ru/partner/SportsBook/Home?initialRoute=%7B%22path%22%3A%22%2Flive%22%7D"
    ));
}

#[test]
fn builds_manual_bootstrap_acquisition_plan_for_confirmed_blocker() {
    let probes = headless_probes();
    let snapshot = snapshot(
        r#"{
        "url": "https://melbet.ru/ru/sport",
        "origin": "https://melbet.ru",
        "path": "/ru/sport",
        "referrer": "https://melbet.ru/live",
        "iframeSources": [
            "https://sport.melbet.ru/partner/SportsBook/Home?initialRoute=%7B%22path%22%3A%22%2F%22%7D"
        ],
        "runtimeContext": {
            "hasHttpApi": false,
            "httpApiMethods": [],
            "partnerId": 0,
            "langId": 0,
            "countryCode": "",
            "hasGlobalSettings": true,
            "hasPartnerConfig": true,
            "inlineScriptCount": 2,
            "bootstrapMarkers": ["inline:$globalSettings", "inline:$httpApi"]
        }
    }"#,
    );

    let plan = MelbetParser::build_bootstrap_acquisition_plan(
        &probes[0],
        &snapshot,
        "no_http_api_runtime:additional_bootstrap_source_required",
    );

    assert_eq!(plan.confirmed_blocker, "additional_bootstrap_source_required");
    assert_eq!(plan.next_step, "manual_bootstrap_acquisition");
    assert_eq!(plan.primary_target, SPORTSBOOK_HOME_URL);
    assert_eq!(plan.referer, "https://melbet.ru/live");
    assert!(plan.route_candidates.iter().any(|item| item
        == "https://sport.melbet.ru/partner/SportsBook/Home?initialRoute=%7B%22path%22%3A%22%2Flive%22%7D"));
    assert!(plan.required_runtime_fields.iter().any(|item| item == "getTopLiveSports"));
}

#[test]
fn classifies_live_http_api_context_gap_with_missing_methods_and_ids() {
    let context = MelbetRuntimeContext::from_value(&json(
        r#"{
        "hasHttpApi": true,
        "httpApiMethods": ["getTopEvents"],
        "partnerId": 0,
        "langId": 1,
        "countryCode": "RU",
        "hasGlobalSettings": true,
        "hasPartnerConfig": true
    }"#,
    ));

    assert_eq!(
        context.missing_http_api_requirements(true),
        vec!["partner_id", "getTopLiveSports", "getTopLiveEvents"]
    );
    assert_eq!(
        context.http_api_blocker(true),
        "missing_http_api_context:partner_id|getTopLiveSports|getTopLiveEvents:additional_bootstrap_source_required"
    );
}

#[test]
fn classifies_live_http_api_runtime_gap_without_bootstrap_markers() {
    let context = MelbetRuntimeContext::from_value(&json(
        r#"{
        "hasHttpApi": false,
        "httpApiMethods": [],
        "partnerId": 0,
        "langId": 0,
        "countryCode": "",
        "hasGlobalSettings": false,
        "hasPartnerConfig": false,
        "inlineScriptCount": 0,
        "bootstrapMarkers": []
    }"#,
    ));

    assert_eq!(
        context.http_api_blocker(true),
        "missing_http_api_context:http_api_runtime|partner_id|lang_id|country_code|getTopLiveSports|getTopLiveEvents"
    );
}

#[test]
fn parses_transport_hints_and_readiness_diagnostics_from_snapshot() {
    let snapshot = snapshot(
        r#"{
        "url": "https://m.melbet.com/live",
        "origin": "https://m.melbet.com",
        "path": "/live",
        "runtimeContext": {
            "hasHttpApi": true,
            "httpApiMethods": ["getTopEvents", "getTopLiveEvents", "getTopLiveSports"],
            "partnerId": 532,
            "langId": 1,
            "countryCode": "RU",
            "hasGlobalSettings": true,
            "hasPartnerConfig": true,
            "inlineScriptCount": 2,
            "bootstrapMarkers": ["inline:$globalSettings", "inline:partnerId"]
        },
        "resourceTimeline": [
            {
                "name": "https://m.melbet.com/api/live-feed",
                "initiatorType": "fetch",
                "nextHopProtocol": "h2",
                "transferSize": 5120,
                "durationMs": 95,
                "startTimeMs": 20,
                "responseEndMs": 115
            },
            {
                "name": "https://m.melbet.com/assets/app.js",
                "initiatorType": "script",
                "nextHopProtocol": "h2",
                "transferSize": 8192,
                "durationMs": 31,
                "startTimeMs": 5,
                "responseEndMs": 36
            }
        ],
        "transportHints": [
            {
                "kind": "data_endpoint",
                "value": "https://m.melbet.com/api/live-feed",
                "source": "resource"
            },
            {
                "kind": "http2_transport",
                "value": "h2",
                "source": "resource"
            }
        ],
        "readinessDiagnostics": {
            "readyState": "complete",
            "bodyTextLength": 25,
            "resourceCount": 2,
            "fetchLikeCount": 1,
            "websocketHintCount": 0,
            "domContentLoadedMs": 501,
            "loadEventMs": 780,
            "lastResourceEndMs": 115,
            "hasVisibleAppShell": true
        }
    }"#,
    );

    assert_eq!(snapshot.transport_hint_count(), 2);
    assert_eq!(snapshot.resource_timeline_count(), 2);
    assert_eq!(snapshot.readiness.ready_state, "complete");
    assert_eq!(snapshot.readiness.fetch_like_count, 1);
    assert_eq!(snapshot.readiness.script_count, 0);
    assert!(snapshot.runtime_context.has_http_api);
    assert_eq!(snapshot.runtime_context.partner_id, 532);
    assert!(MelbetParser::summarize_runtime_context(&snapshot)
        .contains("methods=getTopEvents|getTopLiveEvents|getTopLiveSports"));
    assert!(MelbetParser::summarize_runtime_context(&snapshot).contains("inline_scripts=2"));
    assert!(MelbetParser::summarize_runtime_context(&snapshot)
        .contains("bootstrap_markers=inline:$globalSettings|inline:partnerId"));
    assert!(MelbetParser::summarize_transport_hints(&snapshot)
        .contains("feed_endpoint:https:m.melbet.com:https://m.melbet.com/api/live-feed"));
    assert!(MelbetParser::summarize_resource_timeline(&snapshot)
        .contains("fetch:h2:95:https://m.melbet.com/api/live-feed"));
    let mapping = MelbetParser::summarize_transport_mapping(&snapshot);
    assert_eq!(mapping.families, vec!["feed_endpoint".to_string(), "http_transport".to_string()]);
    assert_eq!(mapping.hosts, vec!["m.melbet.com".to_string()]);
    assert_eq!(mapping.protocols, vec!["https".to_string(), "resource".to_string()]);
}

#[test]
fn wraps_http_api_calls_with_timeout_guard() {
    let wrapped = MelbetParser::wrap_http_api_call_with_timeout(
        "window.$httpApi.getTopLiveSports()",
        "getTopLiveSports",
    );

    assert!(wrapped.contains("Promise.race"));
    assert!(wrapped.contains("getTopLiveSports"));
    assert!(wrapped.contains("5000"));
    assert!(wrapped.contains("window.$httpApi.getTopLiveSports()"));
}

#[test]
fn parses_runtime_state_from_snapshot_and_marks_desktop_shell_bootstrap_only() {
    let probes = headless_probes();
    let snapshot = snapshot(
        r##"{
        "url": "https://melbet.ru/ru/sport",
        "origin": "https://melbet.ru",
        "path": "/ru/sport",
        "runtimeState": {
            "href": "https://melbet.ru/ru/sport",
            "pathname": "/ru/sport",
            "search": "?mode=live",
            "hash": "#top",
            "title": "Melbet sportsbook",
            "readyState": "complete",
            "historyLength": 4,
            "bodyChildCount": 6,
            "bodyTextLength": 64,
            "customElementCount": 4,
            "buttonCount": 7,
            "linkCount": 14,
            "routeLinkCount": 3,
            "routerShellCount": 5,
            "firstButtonText": "Live",
            "bodyTextSample": "Sport Live Prematch",
            "navigationEntry": {
                "type": "navigate",
                "domContentLoadedMs": 420,
                "loadMs": 710
            }
        }
    }"##,
    );

    assert_eq!(snapshot.runtime_state.pathname, "/ru/sport");
    assert_eq!(snapshot.runtime_state.search, "?mode=live");
    assert_eq!(snapshot.runtime_state.hash, "#top");
    assert_eq!(snapshot.runtime_state.history_length, 4);
    assert_eq!(snapshot.runtime_state.router_shell_count, 5);
    assert!(snapshot.runtime_state.has_sportsbook_shell_markers());
    assert!(MelbetParser::has_sportsbook_shell_markers(&snapshot));
    assert!(MelbetParser::summarize_runtime_state(&snapshot).contains("search=?mode=live"));
    assert!(MelbetParser::summarize_runtime_state(&snapshot).contains("hash=#top"));
    assert!(MelbetParser::summarize_runtime_state(&snapshot).contains("history=4"));
    assert_eq!(
        MelbetParser::classify_route_status(&probes[0], &snapshot, 0),
        MelbetRouteStatus::BootstrapOnly
    );
}

#[test]
fn desktop_live_route_uses_bootstrap_markers_for_shell_recovery() {
    let probes = headless_probes();
    let snapshot = snapshot(
        r#"{
        "url": "https://melbet.ru/live",
        "origin": "https://melbet.ru",
        "path": "/live",
        "runtimeContext": {
            "bootstrapMarkers": [
                "route:href:https://melbet.ru/live",
                "route_family:href:live",
                "route_family:history:sportsbook",
                "shell:ww-app-dsk",
                "shell:route_links:3"
            ]
        },
        "runtimeState": {
            "href": "https://melbet.ru/ru/sport",
            "pathname": "/ru/sport",
            "readyState": "complete",
            "bodyChildCount": 2,
            "bodyTextLength": 0,
            "routeLinkCount": 3,
            "routerShellCount": 1
        }
    }"#,
    );

    assert!(MelbetParser::has_sportsbook_shell_markers(&snapshot));
    assert!(!MelbetParser::has_empty_runtime_bootstrap(&snapshot));
    assert_eq!(
        MelbetParser::classify_route_status(&probes[0], &snapshot, 0),
        MelbetRouteStatus::BootstrapOnly
    );
}

#[test]
fn runtime_state_bootstrap_markers_recover_desktop_live_shell() {
    let probes = headless_probes();
    let runtime_state = MelbetRuntimeState::from_value(&json(
        r#"{
        "href": "https://melbet.ru/live",
        "pathname": "/live",
        "readyState": "complete",
        "bodyChildCount": 0,
        "bodyTextLength": 0,
        "bootstrapMarkers": [
            "route:iframe:https://sport.melbet.ru/partner/SportsBook/Home?initialRoute=%7B%22path%22%3A%22%2Flive%22%7D",
            "route_family:iframe:sportsbook",
            "iframe:sportsbook",
            "shell:route_links:1"
        ]
    }"#,
    ));

    let snapshot = MelbetParser::recovered_bootstrap_snapshot_from_runtime_state(&runtime_state)
        .expect("recovered snapshot");

    assert!(snapshot.runtime_state.has_bootstrap_markers());
    assert!(snapshot.runtime_state.has_sportsbook_shell_markers());
    assert!(!MelbetParser::has_empty_runtime_bootstrap(&snapshot));
    assert_eq!(
        MelbetParser::classify_route_status(&probes[0], &snapshot, 0),
        MelbetRouteStatus::BootstrapOnly
    );
}

#[test]
fn interactive_runtime_nodes_keep_sparse_desktop_live_bootstrap_useful() {
    let probes = headless_probes();
    let snapshot = snapshot(
        r#"{
        "url": "https://melbet.ru/live",
        "origin": "https://melbet.ru",
        "path": "/live",
        "title": "Melbet Live",
        "runtimeState": {
            "href": "https://melbet.ru/live",
            "pathname": "/live",
            "title": "Melbet Live",
            "readyState": "complete",
            "bodyChildCount": 0,
            "bodyTextLength": 0,
            "buttonCount": 0,
            "interactiveNodeCount": 6,
            "linkCount": 0,
            "routeLinkCount": 0,
            "routerShellCount": 0,
            "bodyTextSample": ""
        }
    }"#,
    );

    assert!(MelbetParser::has_useful_desktop_bootstrap(&snapshot));
    assert!(!MelbetParser::has_empty_runtime_bootstrap(&snapshot));
    assert_eq!(
        MelbetParser::classify_route_status(&probes[0], &snapshot, 0),
        MelbetRouteStatus::BootstrapOnly
    );
}

#[test]
fn recovers_bootstrap_snapshot_from_runtime_state_when_full_capture_is_missing() {
    let probes = headless_probes();
    let runtime_state = MelbetRuntimeState::from_value(&json(
        r#"{
        "href": "https://melbet.ru/ru/sport",
        "pathname": "/ru/sport",
        "title": "Melbet sportsbook",
        "readyState": "complete",
        "bodyChildCount": 2,
        "bodyTextLength": 0,
        "routeLinkCount": 2,
        "routerShellCount": 2,
        "navigationEntry": {
            "domContentLoadedMs": 420,
            "loadMs": 650
        }
    }"#,
    ));

    let snapshot = MelbetParser::recovered_bootstrap_snapshot_from_runtime_state(&runtime_state)
        .expect("recovered snapshot");

    assert_eq!(snapshot.final_url, "https://melbet.ru/ru/sport");
    assert_eq!(snapshot.path, "/ru/sport");
    assert!(snapshot.runtime_context.has_bootstrap_source_markers());
    assert!(snapshot
        .runtime_context
        .bootstrap_markers
        .iter()
        .any(|item| item == "route_family:runtime:sportsbook"));
    assert!(!MelbetParser::has_empty_runtime_bootstrap(&snapshot));
    assert_eq!(
        MelbetParser::classify_route_status(&probes[0], &snapshot, 0),
        MelbetRouteStatus::BootstrapOnly
    );
}

#[test]
fn recovers_sparse_runtime_state_with_interactive_nodes() {
    let probes = headless_probes();
    let runtime_state = MelbetRuntimeState::from_value(&json(
        r#"{
        "href": "https://melbet.ru/live",
        "pathname": "/live",
        "title": "Melbet Live",
        "readyState": "complete",
        "bodyChildCount": 0,
        "bodyTextLength": 0,
        "interactiveNodeCount": 4,
        "linkCount": 0,
        "routeLinkCount": 0,
        "routerShellCount": 0
    }"#,
    ));

    let snapshot = MelbetParser::recovered_bootstrap_snapshot_from_runtime_state(&runtime_state)
        .expect("recovered snapshot");

    assert!(snapshot.readiness.has_visible_app_shell);
    assert!(!MelbetParser::has_empty_runtime_bootstrap(&snapshot));
    assert_eq!(
        MelbetParser::classify_route_status(&probes[0], &snapshot, 0),
        MelbetRouteStatus::BootstrapOnly
    );
}

#[test]
fn runtime_context_bootstrap_markers_keep_runtime_diagnostics() {
    let snapshot = snapshot(
        r#"{
        "runtimeContext": {
            "hasHttpApi": true,
            "httpApiMethods": ["getTopLiveSports", "getTopLiveEvents"],
            "partnerId": 532,
            "langId": 1,
            "countryCode": "RU",
            "hasGlobalSettings": true,
            "hasPartnerConfig": true,
            "inlineScriptCount": 2,
            "bootstrapMarkers": [
                "inline:$globalSettings",
                "runtime:$globalSettings",
                "runtime:$httpApi",
                "runtime:partnerId",
                "runtime:langId",
                "runtime:countryCode"
            ]
        }
    }"#,
    );

    assert!(snapshot.runtime_context.has_bootstrap_source_markers());
    assert!(MelbetParser::summarize_runtime_context(&snapshot).contains(
        "bootstrap_markers=inline:$globalSettings|runtime:$globalSettings|runtime:$httpApi|runtime:partnerId|runtime:langId|runtime:countryCode"
    ));
}

#[test]
fn recovered_runtime_state_preserves_bootstrap_source_blocker_context() {
    let runtime_state = MelbetRuntimeState::from_value(&json(
        r#"{
        "href": "https://melbet.ru/live",
        "pathname": "/live",
        "title": "Melbet Live",
        "readyState": "complete",
        "bodyChildCount": 1,
        "bodyTextLength": 0,
        "bootstrapMarkers": [
            "route:href:https://melbet.ru/live",
            "route_family:href:live",
            "runtime:$globalSettings",
            "runtime:$httpApi",
            "runtime:partnerId",
            "runtime:langId",
            "runtime:countryCode"
        ]
    }"#,
    ));

    let snapshot = MelbetParser::recovered_bootstrap_snapshot_from_runtime_state(&runtime_state)
        .expect("recovered snapshot");

    assert!(snapshot.runtime_context.has_bootstrap_source_markers());
    assert!(snapshot.runtime_context.bootstrap_markers.iter().any(|item| item == "runtime:$httpApi"));
    assert_eq!(
        snapshot.runtime_context.http_api_blocker(true),
        "missing_http_api_context:partner_id|lang_id|country_code|getTopLiveSports|getTopLiveEvents:additional_bootstrap_source_required"
    );
}

#[test]
fn exposes_transport_groundwork_readiness_diagnostics() {
    let readiness = MelbetParser::readiness_snapshot();

    assert_eq!(
        readiness.stage,
        bookparsers::readiness::ParserReadinessStage::DiagnosticOnly
    );
    assert!(!readiness.production_enabled);
    assert!(readiness.self_check_available);
    assert!(readiness
        .checks
        .iter()
        .any(|check| check.code == "melbet_resource_timeline_capture_available"));
    assert!(readiness
        .checks
        .iter()
        .any(|check| check.code == "melbet_transport_mapping_classification_available"));
    assert!(readiness
        .checks
        .iter()
        .any(|check| check.code == "melbet_transport_runtime_guardrail"));
}

#[test]
fn parses_three_way_and_two_way_headless_items() {
    let three = json(
        r#"{"eventId": " 7845123 ", "home": " Arsenal ", "away": "Chelsea", "league": " England. Premier League ",
            "sport": "Football", "odds": [2.1, "x", 3.4, 1.005, 3.25, 101]}"#,
    );
    let (event, odds) =
        MelbetParser::parse_headless_item_at(&three, true, "https://melbet.ru/live", 5).expect("three-way item");
    assert_eq!(event.id, "melbet-7845123");
    assert_eq!(event.sport, bookparsers::sport::Sport::Football);
    assert_eq!(event.league, "England. Premier League");
    assert_eq!(event.home_team, "Arsenal");
    assert_eq!(event.raw_url.as_deref(), Some("https://melbet.ru/live"));
    assert!(event.is_live);
    assert!(event.extra.is_empty());
    assert_eq!(odds.len(), 3);
    assert_eq!(odds[0].id, "melbet-7845123-1");
    assert_eq!(odds[0].market, "1X2");
    assert_eq!(odds[1].selection, "X");
    assert_eq!(odds[1].price, JsonNumber::FloatBits(3.4f64.to_bits()));
    assert_eq!(odds[2].price, JsonNumber::FloatBits(3.25f64.to_bits()));
    assert_eq!(odds[2].timestamp_ms, 5);

    let two = json(
        r#"{"home": "Novak Djokovic", "away": "Daniil Medvedev", "href": "/line/tennis/1",
            "odds": [1.55, 2]}"#,
    );
    let (event, odds) =
        MelbetParser::parse_headless_item_at(&two, false, "https://melbet.ru/line", 0).expect("two-way item");
    assert_eq!(event.id, "melbet-line-Novak_Djokovic-Daniil_Medvedev");
    assert_eq!(event.sport, bookparsers::sport::Sport::Other);
    assert_eq!(event.raw_url.as_deref(), Some("https://melbet.ru/line/tennis/1"));
    assert_eq!(odds.len(), 2);
    assert_eq!(odds[0].market, "Moneyline");
    assert_eq!(odds[1].selection, "2");
    assert_eq!(odds[1].price, JsonNumber::PosInt(2));
}

#[test]
fn refuses_headless_items_without_competitors_or_prices() {
    let one_price = json(r#"{"home": "A team", "away": "B team", "odds": [1.5, 1.0]}"#);
    assert!(MelbetParser::parse_headless_item_at(&one_price, true, "u", 0).is_none());
    let score = json(r#"{"home": "2:1", "away": "B team", "odds": [1.5, 2.5]}"#);
    assert!(MelbetParser::parse_headless_item_at(&score, true, "u", 0).is_none());
    let placeholder = json(r#"{"home": "Live", "away": "B team", "odds": [1.5, 2.5]}"#);
    assert!(MelbetParser::parse_headless_item(&placeholder, true, "u").is_none());
    let no_odds = json(r#"{"home": "A team", "away": "B team"}"#);
    assert!(MelbetParser::parse_headless_item(&no_odds, true, "u").is_none());
}

#[test]
fn collects_each_http_api_event_once() {
    let batches = vec![
        vec![json(r#"{"eventId": "1", "n": 1}"#), json(r#"{"eventId": ""}"#), json(r#"{"n": 3}"#)],
        vec![json(r#"{"eventId": "2"}"#), json(r#"{"eventId": "1", "n": 2}"#)],
    ];
    let items = MelbetParser::collect_event_items(batches);
    assert_eq!(items.len(), 2);
    assert_eq!(bookparsers::json::u64_field(&items[0], "n"), 1);
    assert_eq!(bookparsers::json::text_field(&items[1], "eventId"), "2");
}

#[test]
fn records_sweep_decisions() {
    let attempt = MelbetParser::no_sportsbook_route_attempt();
    assert_eq!(attempt.blocker, "no_sportsbook_route");
    assert!(attempt.bootstrap.is_none() && attempt.payload.is_empty());

    let empty = MelbetParser::dom_extraction(0);
    assert_eq!((empty.source.as_str(), empty.blocker.as_str()), ("none", "dom_payload_empty"));
    let mut extraction = MelbetParser::dom_extraction(1);
    assert_eq!((extraction.source.as_str(), extraction.blocker.as_str()), ("dom", "payload_ready"));
    let mut payload = vec![json("1")];
    MelbetParser::note_scrolled_payload(&mut extraction, &mut payload, vec![json("1"), json("2")]);
    assert_eq!((payload.len(), extraction.dom_payload_len), (2, 2));
    MelbetParser::note_scrolled_payload(&mut extraction, &mut payload, vec![json("3")]);
    assert_eq!(payload.len(), 2);
    assert_eq!(MelbetParser::keep_longer_payload(vec![json("1")], vec![json("2")]).len(), 1);

    let probes = headless_probes();
    let blocker = MelbetParser::budget_exhausted_blocker(None, &probes[0]);
    assert!(blocker.starts_with(&format!("route_hint={},", probes[0].route_hint)));
    assert!(blocker.contains("blocker=runtime_budget_exhausted"));
    assert!(blocker.ends_with(&format!("final_url={}", probes[0].url)));
    let failed = MelbetParser::navigation_failed_result(&probes[0]);
    assert_eq!(failed.extraction.blocker, "navigation_failed");
    assert_eq!(failed.bootstrap.final_url, probes[0].url);
    assert!(MelbetParser::sweep_failure(&Vec::new(), false).is_none());
    let matrix = vec![failed];
    assert!(MelbetParser::sweep_failure(&matrix, true).is_none());
    let failure = MelbetParser::sweep_failure(&matrix, false).expect("no events");
    assert!(failure.contains("route_hint="));
    assert!(MelbetParser::stops_sweep(true, probes[0].surface));
}

fn extra_text<'a>(members: &'a [JsonMember], key: &str) -> Option<&'a str> {
    members.iter().find(|m| m.key == key).and_then(|m| match &m.value {
        JsonValue::Str(s) => Some(s.as_str()),
        _ => None,
    })
}

#[test]
fn annotates_event_route_metadata_on_webview_probe() {
    let probes = headless_probes();
    let mut event = bookparsers::model::Event {
        id: "melbet-1".to_string(),
        sport: bookparsers::sport::Sport::Football,
        league: "Premier League".to_string(),
        home_team: "Arsenal".to_string(),
        away_team: "Chelsea".to_string(),
        start_time_ms: None,
        is_live: true,
        bookmaker_slug: "melbet".to_string(),
        raw_url: None,
        extra: vec![
            JsonMember { key: "melbet_route_status".to_string(), value: JsonValue::Str("blocked".to_string()) },
            JsonMember { key: "kept".to_string(), value: JsonValue::Bool(true) },
        ],
    };
    MelbetParser::annotate_event_route(&mut event, &probes[4], &MelbetRouteStatus::Ready);

    assert_eq!(extra_text(&event.extra, "melbet_surface"), Some("webview"));
    assert_eq!(extra_text(&event.extra, "melbet_route_hint"), Some("webview-live"));
    assert_eq!(extra_text(&event.extra, "melbet_route_family"), Some("webview-shell-live"));
    assert_eq!(extra_text(&event.extra, "melbet_route_status"), Some("ready"));
    assert_eq!(extra_text(&event.extra, "source_url"), Some(probes[4].url));
    assert_eq!(event.extra.iter().filter(|m| m.key == "melbet_route_status").count(), 1);
    assert!(event.extra.iter().any(|m| m.key == "kept" && matches!(m.value, JsonValue::Bool(true))));
    let hints = event.extra.iter().find(|m| m.key == "melbet_transport_hints").expect("hints");
    match &hints.value {
        JsonValue::Array(items) => {
            assert_eq!(items.len(), if probes[4].profile.app_marker.is_some() { 1 } else { 0 });
        }
        _ => panic!("hints are not an array"),
    }
    assert_eq!(event.home_team, "Arsenal");
}

#[test]
fn desktop_probe_route_carries_no_transport_hints() {
    let probes = headless_probes();
    let mut event = bookparsers::model::Event {
        id: "melbet-2".to_string(),
        sport: bookparsers::sport::Sport::Tennis,
        league: String::new(),
        home_team: "A".to_string(),
        away_team: "B".to_string(),
        start_time_ms: None,
        is_live: false,
        bookmaker_slug: "melbet".to_string(),
        raw_url: None,
        extra: Vec::new(),
    };
    MelbetParser::annotate_event_route(&mut event, &probes[0], &MelbetRouteStatus::BootstrapOnly);
    assert_eq!(extra_text(&event.extra, "melbet_surface"), Some("desktop"));
    assert_eq!(extra_text(&event.extra, "melbet_route_status"), Some("bootstrap_only"));
    assert_eq!(event.extra.len(), 6);
    let hints = event.extra.iter().find(|m| m.key == "melbet_transport_hints").expect("hints");
    assert!(matches!(&hints.value, JsonValue::Array(items) if items.is_empty()));
}

#[test]
fn reads_sport_api_context_with_defaults() {
    let c = MelbetSportApiContext::from_value(&json(
        r#"{"partnerId": 8, "langId": 0, "countryCode": "  ", "hasHttpApi": true}"#,
    ))
    .expect("context");
    assert_eq!((c.partner_id, c.lang_id, c.country_code.as_str()), (8, 1, "RU"));
    let c = MelbetSportApiContext::from_value(&json(
        r#"{"partnerId": 8, "langId": 3, "countryCode": "KZ", "hasHttpApi": true}"#,
    ))
    .expect("context");
    assert_eq!((c.partner_id, c.lang_id, c.country_code.as_str()), (8, 3, "KZ"));
    assert!(MelbetSportApiContext::from_value(&json(r#"{"partnerId": 8, "hasHttpApi": false}"#)).is_none());
    assert!(MelbetSportApiContext::from_value(&json(r#"{"partnerId": 0, "hasHttpApi": true}"#)).is_none());
    assert!(MelbetSportApiContext::from_value(&json(r#"{"hasHttpApi": true}"#)).is_none());
}

#[test]
fn keeps_sport_seeds_with_events() {
    let seeds = sport_seeds_from_value(&json(
        r#"[{"sportId": 1, "eventCount": 40}, {"sportId": 0, "eventCount": 3}, {"sportId": 2},
            {"sportId": 4, "eventCount": 0}, {"sportId": 3, "eventCount": 7}]"#,
    ));
    let got: Vec<(u64, usize)> = seeds.iter().map(|s| (s.sport_id, s.event_count)).collect();
    assert_eq!(got, vec![(1, 40), (3, 7)]);
    assert!(sport_seeds_from_value(&json(r#"{"sportId": 1}"#)).is_empty());
}

fn sweep_event(id: &str) -> bookparsers::model::Event {
    bookparsers::model::Event {
        id: id.to_string(),
        sport: bookparsers::sport::Sport::Football,
        league: String::new(),
        home_team: "A".to_string(),
        away_team: "B".to_string(),
        start_time_ms: None,
        is_live: true,
        bookmaker_slug: "melbet".to_string(),
        raw_url: None,
        extra: Vec::new(),
    }
}

fn sweep_odd(id: &str) -> bookparsers::model::Odd {
    bookparsers::model::Odd {
        id: id.to_string(),
        event_id: "e".to_string(),
        bookmaker_slug: "melbet".to_string(),
        market: "1X2".to_string(),
        selection: "1".to_string(),
        price: JsonNumber::PosInt(2),
        odds_type: bookparsers::model::OddsType::Home,
        line: None,
        timestamp_ms: 0,
    }
}

#[test]
fn sweep_keeps_each_id_once_and_stops_on_ready_desktop() {
    let probes = headless_probes();
    let mut sweep = MelbetSweep::start();
    let blocked = MelbetRouteProbeResult {
        probe: probes[4],
        status: MelbetRouteStatus::Blocked,
        payload_len: 0,
        bootstrap: snapshot(M_LIVE),
        extraction: extraction("none", 0, "navigation_failed"),
    };
    let stop = sweep.record_route(blocked, vec![(sweep_event("x"), vec![sweep_odd("x-1")])]);
    assert!(!stop);
    assert!(sweep.events.is_empty());
    assert_eq!(sweep.route_matrix.len(), 1);
    let ready = MelbetRouteProbeResult {
        probe: probes[0],
        status: MelbetRouteStatus::Ready,
        payload_len: 3,
        bootstrap: snapshot(M_LIVE),
        extraction: extraction("dom", 3, "payload_ready"),
    };
    let items = vec![
        (sweep_event("a"), vec![sweep_odd("a-1"), sweep_odd("a-2")]),
        (sweep_event("b"), vec![sweep_odd("a-1"), sweep_odd("b-1")]),
        (sweep_event("a"), vec![sweep_odd("a-3")]),
    ];
    let stop = sweep.record_route(ready, items);
    assert!(stop);
    let ids: Vec<&str> = sweep.events.iter().map(|e| e.id.as_str()).collect();
    assert_eq!(ids, vec!["a", "b"]);
    let odd_ids: Vec<&str> = sweep.odds.iter().map(|o| o.id.as_str()).collect();
    assert_eq!(odd_ids, vec!["a-1", "a-2", "b-1", "a-3"]);
    assert_eq!(sweep.route_matrix.len(), 2);
}
