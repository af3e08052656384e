use bookparsers::json::{JsonMember, JsonNumber, JsonValue};
use bookparsers::melbet_readiness::MelbetRouteProbeResult;
use bookparsers::melbet_rules::{is_valid_competitor, MelbetParser};
use bookparsers::melbet_runtime::{
    MelbetExtractionDiagnostics, MelbetReadinessDiagnostics, MelbetRouteMatrixCounts,
    MelbetRouteStatus, MelbetRuntimeContext, MelbetRuntimeState, MelbetSurface,
    MelbetTransportHint,
};
use bookparsers::melbet_snapshot::{headless_probes, runtime_probe_plan, MelbetBootstrapSnapshot};
use bookparsers::sport::Sport;

fn s(v: &str) -> JsonValue {
    JsonValue::Str(v.to_string())
}

fn n(v: u64) -> JsonValue {
    JsonValue::Number(JsonNumber::PosInt(v))
}

fn obj(members: Vec<(&str, JsonValue)>) -> JsonValue {
    JsonValue::Object(
        members
            .into_iter()
            .map(|(k, v)| JsonMember { key: k.to_string(), value: v })
            .collect(),
    )
}

fn arr(items: Vec<JsonValue>) -> JsonValue {
    JsonValue::Array(items)
}

fn empty_snapshot() -> MelbetBootstrapSnapshot {
    MelbetBootstrapSnapshot::from_value(&JsonValue::Null)
}

#[test]
fn surfaces_and_statuses_have_names() {
    assert_eq!(MelbetSurface::Desktop.as_str(), "desktop");
    assert_eq!(MelbetSurface::WebView.as_str(), "webview");
    assert_eq!(MelbetRouteStatus::BootstrapOnly.as_str(), "bootstrap_only");
}

#[test]
fn probes_cover_three_surfaces() {
    let probes = headless_probes();
    assert_eq!(probes.len(), 6);
    assert_eq!(probes[0].url, "https://melbet.ru/live");
    assert_eq!(probes[5].route_hint, "webview-line");
    assert_eq!(probes[4].profile.app_marker, Some("com.melbet.app"));
    let plan = runtime_probe_plan();
    assert_eq!(plan.len(), 1);
    assert_eq!(plan[0].route_hint, "desktop-live");
}

#[test]
fn parses_runtime_state_from_report() {
    let v = obj(vec![
        ("href", s("https://melbet.ru/ru/sport")),
        ("pathname", s("/ru/sport")),
        ("readyState", s("complete")),
        ("historyLength", n(3)),
        ("routerShellCount", n(0)),
        ("navigationEntry", obj(vec![("type", s("navigate")), ("loadMs", n(900))])),
        ("blocker", obj(vec![("kind", s("captcha")), ("source", s("body"))])),
        ("bootstrapMarkers", arr(vec![s("shell:#root"), n(4), s("x")])),
    ]);
    let state = MelbetRuntimeState::from_value(&v);
    assert_eq!(state.href, "https://melbet.ru/ru/sport");
    assert_eq!(state.history_length, 3);
    assert_eq!(state.navigation_type, "navigate");
    assert_eq!(state.load_ms, 900);
    assert_eq!(state.dom_content_loaded_ms, 0);
    assert_eq!(state.bootstrap_markers, vec!["shell:#root".to_string(), "x".to_string()]);
    assert!(state.has_runtime_blocker());
    assert_eq!(state.blocker_code(), "runtime_blocker:captcha@body");
    assert!(state.has_sportsbook_shell_markers());
    assert!(state.has_bootstrap_markers());
    assert!(state.as_summary().starts_with("href=https://melbet.ru/ru/sport,path=/ru/sport,search=none,"));
    assert!(state.as_summary().ends_with(",blocker=captcha@body:-,bootstrap_markers=shell:#root|x"));
}

#[test]
fn empty_runtime_state_shows_nothing() {
    let state = MelbetRuntimeState::from_value(&JsonValue::Null);
    assert!(!state.has_runtime_blocker());
    assert_eq!(state.blocker_code(), "");
    assert!(!state.has_bootstrap_markers());
}

#[test]
fn runtime_context_requirements_and_blockers() {
    let v = obj(vec![
        ("hasHttpApi", JsonValue::Bool(true)),
        ("httpApiMethods", arr(vec![s("getTopLiveSports")])),
        ("partnerId", n(8)),
        ("countryCode", s("  ")),
    ]);
    let ctx = MelbetRuntimeContext::from_value(&v);
    assert_eq!(ctx.missing_http_api_requirements(true), vec!["lang_id", "country_code", "getTopLiveEvents"]);
    assert_eq!(ctx.http_api_blocker(true), "missing_http_api_context:lang_id|country_code|getTopLiveEvents");
    assert!(ctx.as_summary().contains(",country=none,"));

    let bare = MelbetRuntimeContext::from_value(&obj(vec![
        ("partnerId", n(1)),
        ("langId", n(1)),
        ("countryCode", s("ru")),
        ("httpApiMethods", arr(vec![s("getPrematchSports"), s("getTopEvents")])),
        ("inlineScriptCount", n(2)),
    ]));
    assert_eq!(bare.missing_http_api_requirements(false), vec!["http_api_runtime"]);
    assert_eq!(bare.http_api_blocker(false), "no_http_api_runtime:additional_bootstrap_source_required");
}

#[test]
fn readiness_and_counts_summaries() {
    let d = MelbetReadinessDiagnostics::from_value(&obj(vec![
        ("readyState", s("complete")),
        ("hasVisibleAppShell", JsonValue::Bool(true)),
        ("resourceCount", n(7)),
    ]));
    assert_eq!(
        d.as_summary(),
        "state=complete,resources=7,fetch_like=0,ws_hints=0,scripts=0,storage_keys=0,roots=0,body_children=0,dcl_ms=0,load_ms=0,last_res_ms=0,visible_shell=true,body_len=0"
    );
    let counts = MelbetRouteMatrixCounts { ready: 1, bootstrap_only: 2, blocked: 3 };
    assert_eq!(counts.as_summary(), "ready=1,bootstrap_only=2,blocked=3");
    let mut diag = MelbetExtractionDiagnostics::new();
    assert_eq!(diag.as_summary(), "source=none,blocker=unknown,dom=0,embedded=0,http_api=0,seeds=0");
    diag.source = "dom".to_string();
    assert!(diag.as_summary().starts_with("source=dom,"));
}

#[test]
fn snapshot_reads_sorted_storage_keys_and_skips_bad_items() {
    let v = obj(vec![
        ("url", s("https://melbet.ru/live")),
        ("localStorage", obj(vec![("zeta", n(1)), ("alpha", n(2))])),
        ("scriptSources", arr(vec![s("/app.js"), JsonValue::Null])),
        (
            "resourceTimeline",
            arr(vec![obj(vec![("name", s("https://x/feed")), ("durationMs", n(12))]), obj(vec![("durationMs", n(1))])]),
        ),
        ("transportHints", arr(vec![obj(vec![("kind", s("data_endpoint")), ("value", s("wss://feed.melbet.ru/ws"))])])),
        ("runtimeState", obj(vec![("title", s("Melbet"))])),
    ]);
    let snap = MelbetBootstrapSnapshot::from_value(&v);
    assert_eq!(snap.local_storage_keys, vec!["alpha".to_string(), "zeta".to_string()]);
    assert_eq!(snap.script_count(), 1);
    assert_eq!(snap.resource_timeline_count(), 1);
    assert_eq!(snap.resource_timeline[0].duration_ms, 12);
    assert_eq!(snap.transport_hint_count(), 1);
    assert_eq!(snap.storage_key_count(), 2);
    assert_eq!(snap.runtime_state.title, "Melbet");
    assert_eq!(MelbetParser::summarize_resource_timeline(&snap), "::12:https://x/feed");
}

#[test]
fn block_pages_and_classification() {
    let mut snap = empty_snapshot();
    let probes = headless_probes();
    assert!(MelbetParser::has_empty_runtime_bootstrap(&snap));
    assert!(!MelbetParser::looks_like_block_page(&snap));
    assert_eq!(
        MelbetParser::classify_route_status(&probes[0], &snap, 0),
        MelbetRouteStatus::Blocked
    );
    assert_eq!(
        MelbetParser::classify_route_status(&probes[0], &snap, 5),
        MelbetRouteStatus::Ready
    );
    snap.title = "Проверка безопасности".to_string();
    assert!(MelbetParser::looks_like_block_page(&snap));
    assert!(snap.looks_like_blocked_runtime());
    assert_eq!(
        MelbetParser::classify_route_status(&probes[0], &snap, 5),
        MelbetRouteStatus::Blocked
    );
}

#[test]
fn mobile_route_with_markers_is_bootstrap_only() {
    let mut snap = empty_snapshot();
    let probes = headless_probes();
    snap.final_url = "https://melbet.ru/m/live".to_string();
    snap.inner_width = 412;
    assert!(MelbetParser::route_matches_probe(&probes[2], &snap));
    assert!(MelbetParser::has_bootstrap_markers(&probes[2], &snap));
    assert_eq!(
        MelbetParser::classify_route_status(&probes[2], &snap, 0),
        MelbetRouteStatus::BootstrapOnly
    );
    assert!(!MelbetParser::route_matches_probe(&probes[4], &snap));
}

#[test]
fn sportsbook_routes_from_iframes_and_defaults() {
    let mut snap = empty_snapshot();
    let probes = headless_probes();
    snap.iframe_sources = vec![
        "https://example.com/ad".to_string(),
        "https://sport.melbet.ru/partner/SportsBook/Home?x=1".to_string(),
    ];
    assert_eq!(
        MelbetParser::select_embedded_route(&probes[0], &snap),
        Some("https://sport.melbet.ru/partner/SportsBook/Home?x=1".to_string())
    );
    assert_eq!(MelbetParser::select_embedded_route(&probes[2], &snap), None);
    let routes = MelbetParser::sportsbook_route_candidates(&probes[0], &snap);
    assert_eq!(routes[0], "https://sport.melbet.ru/partner/SportsBook/Home?x=1");
    assert_eq!(
        routes[1],
        "https://sport.melbet.ru/partner/SportsBook/Home?initialRoute=%7B%22path%22%3A%22%2Flive%22%7D"
    );
    assert_eq!(
        routes[2],
        "https://sport.melbet.ru/partner/SportsBook/Home?initialRoute=%7B%22path%22%3A%22%2F%22%7D"
    );
    assert_eq!(routes.len(), 3);
    assert!(MelbetParser::has_explicit_sportsbook_route_candidate(&snap));
    assert!(MelbetParser::sportsbook_route_candidates(&probes[2], &snap).is_empty());
    assert_eq!(
        MelbetParser::as_sportsbook_route_candidate("  javascript:void(0)"),
        None
    );
    assert_eq!(
        MelbetParser::as_sportsbook_route_candidate("https://SPORT.melbet.ru/"),
        Some("https://sport.melbet.ru/".to_string())
    );
}

#[test]
fn unique_route_candidates() {
    let mut routes = vec!["a".to_string()];
    MelbetParser::push_unique_route_candidate(&mut routes, "a".to_string());
    MelbetParser::push_unique_route_candidate(&mut routes, "  ".to_string());
    MelbetParser::push_unique_route_candidate(&mut routes, "b".to_string());
    assert_eq!(routes, vec!["a".to_string(), "b".to_string()]);
}

#[test]
fn transport_hints_are_normalised_merged_and_summarised() {
    let mut snap = empty_snapshot();
    snap.transport_hints = vec![
        MelbetTransportHint { kind: "websocket_endpoint".to_string(), value: "wss://Feed.melbet.ru/ws/".to_string(), source: "script".to_string() },
        MelbetTransportHint { kind: "storage_transport_marker".to_string(), value: " Token = abc".to_string(), source: "storage".to_string() },
        MelbetTransportHint { kind: "websocket_candidate".to_string(), value: "wss://feed.melbet.ru/ws".to_string(), source: "body".to_string() },
        MelbetTransportHint { kind: "data_endpoint".to_string(), value: "/api/feed".to_string(), source: "timeline".to_string() },
    ];
    let hints = snap.normalized_transport_hints();
    assert_eq!(hints.len(), 3);
    assert_eq!(hints[0].family, "feed_endpoint");
    assert_eq!(hints[0].protocol, "path");
    assert_eq!(hints[1].family, "transport_marker");
    assert_eq!(hints[1].normalized_value, "token");
    assert_eq!(hints[1].protocol, "storage");
    assert_eq!(hints[2].family, "websocket_like");
    assert_eq!(hints[2].host, "feed.melbet.ru");
    assert_eq!(hints[2].kind, "websocket_endpoint");
    assert_eq!(hints[2].confidence, "high");
    let mapping = MelbetParser::summarize_transport_mapping(&snap);
    assert_eq!(mapping.families, vec!["feed_endpoint", "transport_marker", "websocket_like"]);
    assert_eq!(mapping.hosts, vec!["feed.melbet.ru"]);
    assert_eq!(mapping.protocols, vec!["path", "storage", "wss"]);
    assert_eq!(mapping.high_confidence_count, 2);
    assert_eq!(mapping.websocket_like_count, 1);
    assert_eq!(mapping.feed_like_count, 1);
}

#[test]
fn readiness_output_and_blocker_summary() {
    let snap = empty_snapshot();
    let probes = headless_probes();
    let out = MelbetParser::build_readiness_output(
        &probes[0],
        &snap,
        &MelbetRouteStatus::Blocked,
        0,
        "no_http_api_runtime:additional_bootstrap_source_required",
    );
    assert_eq!(out.state, "blocked_or_unconfirmed");
    assert_eq!(out.reason, "insufficient_bootstrap_signals");
    assert_eq!(out.confirmed_blocker, "additional_bootstrap_source_required");
    assert_eq!(out.next_step, "manual_bootstrap_acquisition");
    assert_eq!(out.bootstrap_score, 0);

    let result = MelbetRouteProbeResult {
        probe: probes[0],
        status: MelbetRouteStatus::BootstrapOnly,
        payload_len: 0,
        bootstrap: empty_snapshot(),
        extraction: {
            let mut d = MelbetExtractionDiagnostics::new();
            d.blocker = "navigation_failed".to_string();
            d
        },
    };
    let line = MelbetParser::summarize_runtime_blocker(&result);
    assert!(line.starts_with("route_hint=desktop-live,route_family=canonical-live,status=blocked,source=none,blocker=navigation_failed:retry_known_sportsbook_route,confirmed_blocker=desktop_live_navigation_failed,next_step=retry_known_sportsbook_route,"));
    assert!(line.ends_with(",state=blocked_or_unconfirmed,reason=canonical_navigation_failed_before_bootstrap_capture,payload_len=0,final_url=https://melbet.ru/live"));
    let counts = MelbetParser::summarize_route_matrix_counts(&[result]);
    assert_eq!(counts, MelbetRouteMatrixCounts { ready: 0, bootstrap_only: 1, blocked: 0 });
}

#[test]
fn recovered_and_synthetic_snapshots() {
    let empty = MelbetRuntimeState::from_value(&JsonValue::Null);
    assert!(MelbetParser::recovered_bootstrap_snapshot_from_runtime_state(&empty).is_none());
    let state = MelbetRuntimeState::from_value(&obj(vec![
        ("href", s("https://melbet.ru:8443/live?x=1")),
        ("readyState", s("interactive")),
    ]));
    let snap = MelbetParser::recovered_bootstrap_snapshot_from_runtime_state(&state).expect("recovered");
    assert_eq!(snap.origin, "https://melbet.ru:8443");
    assert_eq!(snap.path, "/live");
    assert_eq!(
        snap.runtime_context.bootstrap_markers,
        vec!["route:runtime:https://melbet.ru:8443/live?x=1".to_string(), "route_family:runtime:live".to_string()]
    );
    assert!(snap.readiness.has_visible_app_shell);
    let probes = headless_probes();
    let synthetic = MelbetParser::synthetic_navigation_failure_snapshot(&probes[4]);
    assert_eq!(synthetic.origin, "https://m.melbet.com");
    assert_eq!(synthetic.path, "/live");
    assert_eq!(synthetic.app_marker, "com.melbet.app");
    assert_eq!(synthetic.inner_width, 412);
}

#[test]
fn urls_sports_and_competitors() {
    assert_eq!(MelbetParser::normalize_url("  ", "https://src"), "https://src");
    assert_eq!(MelbetParser::normalize_url(" /live/1 ", "s"), "https://melbet.ru/live/1");
    assert_eq!(MelbetParser::normalize_url("live/1", "s"), "https://melbet.ru/live/1");
    assert_eq!(MelbetParser::normalize_url("https://a/b", "s"), "https://a/b");
    assert_eq!(MelbetParser::infer_sport("Хоккей. КХЛ", ""), Sport::Hockey);
    assert_eq!(MelbetParser::infer_sport("x", "https://melbet.ru/line/table-tennis"), Sport::Tennis);
    assert_eq!(MelbetParser::infer_sport("x", "y"), Sport::Other);
    assert!(is_valid_competitor("Барселона"));
    assert!(!is_valid_competitor("2:1"));
    assert!(!is_valid_competitor("Player"));
}

#[test]
fn required_runtime_fields_by_feed() {
    assert_eq!(
        MelbetParser::required_runtime_fields(true),
        vec!["window.$httpApi", "partnerId", "langId", "countryCode", "getTopLiveSports", "getTopLiveEvents"]
    );
}
