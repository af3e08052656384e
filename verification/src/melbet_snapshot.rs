//! The bootstrap snapshot a headless Melbet probe takes of a page, the
//! probes themselves, and the rules that read the snapshot.

use crate::json::{
    bool_field, get, jget, jget_or_null, keys_of, items_of, object_keys_field, string_array_field,
    string_items, text_field, text_or_empty, u64_field, u64_or_zero, bool_or_false, JsonValue,
};
use crate::melbet_runtime::{
    MelbetReadinessDiagnostics, MelbetResourceTimelineEntry, MelbetRuntimeContext,
    MelbetRuntimeState, MelbetSurface, MelbetTransportHint,
};
use crate::text::{
    has_infix, is_sorted_texts, push_str, sort_strings, to_lowercase, str_contains, unicode_lower,
    views,
};
use vstd::prelude::*;

verus! {

// ---------------------------------------------------------------------------
// Browser profiles and probes
// ---------------------------------------------------------------------------

/// The browser a probe imitates.
#[derive(Clone, Copy, Debug)]
pub struct HeadlessProfile {
    pub label: &'static str,
    pub user_agent: &'static str,
    pub accept_language: &'static str,
    pub platform: &'static str,
    pub viewport_width: u32,
    pub viewport_height: u32,
    pub is_mobile: bool,
    pub app_marker: Option<&'static str>,
}

/// A page a headless browser opens to find Melbet's events.
#[derive(Clone, Copy, Debug)]
pub struct HeadlessProbe {
    pub url: &'static str,
    pub is_live: bool,
    pub surface: MelbetSurface,
    pub route_hint: &'static str,
    pub route_family: &'static str,
    pub profile: HeadlessProfile,
}

/// The desktop browser.
pub fn desktop_profile() -> (p: HeadlessProfile)
    ensures
        p.label@ == "desktop"@,
        p.viewport_width == 1440 && p.viewport_height == 2200,
        !p.is_mobile,
        p.app_marker is None,
{
    HeadlessProfile {
        label: "desktop",
        user_agent: "Mozilla/5.0 (Windows NT 10.0; Win64; x64) AppleWebKit/537.36 (KHTML, like Gecko) Chrome/124.0.0.0 Safari/537.36",
        accept_language: "ru-RU,ru;q=0.9",
        platform: "Win32",
        viewport_width: 1440,
        viewport_height: 2200,
        is_mobile: false,
        app_marker: None,
    }
}

/// The mobile browser.
pub fn mobile_profile() -> (p: HeadlessProfile)
    ensures
        p.label@ == "mobile"@,
        p.viewport_width == 412 && p.viewport_height == 915,
        p.is_mobile,
        p.app_marker is None,
{
    HeadlessProfile {
        label: "mobile",
        user_agent: "Mozilla/5.0 (Linux; Android 13; Pixel 7) AppleWebKit/537.36 (KHTML, like Gecko) Chrome/124.0.0.0 Mobile Safari/537.36",
        accept_language: "ru-RU,ru;q=0.9",
        platform: "Linux armv8l",
        viewport_width: 412,
        viewport_height: 915,
        is_mobile: true,
        app_marker: None,
    }
}

/// The in-app web view.
pub fn webview_profile() -> (p: HeadlessProfile)
    ensures
        p.label@ == "webview"@,
        p.viewport_width == 412 && p.viewport_height == 915,
        p.is_mobile,
        p.app_marker matches Some(m) && m@ == "com.melbet.app"@,
{
    HeadlessProfile {
        label: "webview",
        user_agent: "Mozilla/5.0 (Linux; Android 13; Pixel 7 Build/TQ3A.230805.001; wv) AppleWebKit/537.36 (KHTML, like Gecko) Version/4.0 Chrome/124.0.0.0 Mobile Safari/537.36",
        accept_language: "ru-RU,ru;q=0.9",
        platform: "Linux armv8l",
        viewport_width: 412,
        viewport_height: 915,
        is_mobile: true,
        app_marker: Some("com.melbet.app"),
    }
}

/// The probe for one route.
pub open spec fn probe_is(
    p: HeadlessProbe,
    url: Seq<char>,
    is_live: bool,
    surface: MelbetSurface,
    hint: Seq<char>,
    family: Seq<char>,
) -> bool {
    &&& p.url@ == url
    &&& p.is_live == is_live
    &&& p.surface == surface
    &&& p.route_hint@ == hint
    &&& p.route_family@ == family
    &&& p.profile.label@ == surface_label(surface)
}

/// The label of the profile a surface is probed with.
pub open spec fn surface_label(s: MelbetSurface) -> Seq<char> {
    match s {
        MelbetSurface::Desktop => "desktop"@,
        MelbetSurface::Mobile => "mobile"@,
        MelbetSurface::WebView => "webview"@,
    }
}

/// The routes probed: live and line on the desktop site, the mobile site and
/// the app's web view, in this order.
pub fn headless_probes() -> (r: Vec<HeadlessProbe>)
    ensures
        r@.len() == 6,
        probe_is(r@[0], "https://melbet.ru/live"@, true, MelbetSurface::Desktop, "desktop-live"@, "canonical-live"@),
        probe_is(r@[1], "https://melbet.ru/line"@, false, MelbetSurface::Desktop, "desktop-line"@, "canonical-line"@),
        probe_is(r@[2], "https://melbet.ru/m/live"@, true, MelbetSurface::Mobile, "mobile-live"@, "mobile-shell-live"@),
        probe_is(r@[3], "https://melbet.ru/m/line"@, false, MelbetSurface::Mobile, "mobile-line"@, "mobile-shell-line"@),
        probe_is(r@[4], "https://m.melbet.com/live"@, true, MelbetSurface::WebView, "webview-live"@, "webview-shell-live"@),
        probe_is(r@[5], "https://m.melbet.com/line"@, false, MelbetSurface::WebView, "webview-line"@, "webview-shell-line"@),
{
    let mut r: Vec<HeadlessProbe> = Vec::new();
    r.push(HeadlessProbe {
        url: "https://melbet.ru/live",
        is_live: true,
        surface: MelbetSurface::Desktop,
        route_hint: "desktop-live",
        route_family: "canonical-live",
        profile: desktop_profile(),
    });
    r.push(HeadlessProbe {
        url: "https://melbet.ru/line",
        is_live: false,
        surface: MelbetSurface::Desktop,
        route_hint: "desktop-line",
        route_family: "canonical-line",
        profile: desktop_profile(),
    });
    r.push(HeadlessProbe {
        url: "https://melbet.ru/m/live",
        is_live: true,
        surface: MelbetSurface::Mobile,
        route_hint: "mobile-live",
        route_family: "mobile-shell-live",
        profile: mobile_profile(),
    });
    r.push(HeadlessProbe {
        url: "https://melbet.ru/m/line",
        is_live: false,
        surface: MelbetSurface::Mobile,
        route_hint: "mobile-line",
        route_family: "mobile-shell-line",
        profile: mobile_profile(),
    });
    r.push(HeadlessProbe {
        url: "https://m.melbet.com/live",
        is_live: true,
        surface: MelbetSurface::WebView,
        route_hint: "webview-live",
        route_family: "webview-shell-live",
        profile: webview_profile(),
    });
    r.push(HeadlessProbe {
        url: "https://m.melbet.com/line",
        is_live: false,
        surface: MelbetSurface::WebView,
        route_hint: "webview-line",
        route_family: "webview-shell-line",
        profile: webview_profile(),
    });
    r
}

/// The probes a runtime fetch runs: only the desktop live route.
pub fn runtime_probe_plan() -> (r: Vec<HeadlessProbe>)
    ensures
        r@.len() == 1,
        probe_is(r@[0], "https://melbet.ru/live"@, true, MelbetSurface::Desktop, "desktop-live"@, "canonical-live"@),
{
    let all = headless_probes();
    let mut r: Vec<HeadlessProbe> = Vec::new();
    r.push(all[0]);
    r
}

// ---------------------------------------------------------------------------
// Bootstrap snapshot
// ---------------------------------------------------------------------------

/// What a probe recorded of the page it opened.
#[derive(Debug)]
pub struct MelbetBootstrapSnapshot {
    pub final_url: String,
    pub origin: String,
    pub path: String,
    pub referrer: String,
    pub iframe_sources: Vec<String>,
    pub title: String,
    pub body_text_sample: String,
    pub cookie: String,
    pub local_storage_keys: Vec<String>,
    pub session_storage_keys: Vec<String>,
    pub html_class_list: Vec<String>,
    pub body_class_list: Vec<String>,
    pub root_node_ids: Vec<String>,
    pub meta_viewport: String,
    pub script_sources: Vec<String>,
    pub user_agent: String,
    pub profile_label: String,
    pub app_marker: String,
    pub max_touch_points: u64,
    pub inner_width: u64,
    pub inner_height: u64,
    pub has_service_worker: bool,
    pub resource_timeline: Vec<MelbetResourceTimelineEntry>,
    pub transport_hints: Vec<MelbetTransportHint>,
    pub runtime_context: MelbetRuntimeContext,
    pub readiness: MelbetReadinessDiagnostics,
    pub runtime_state: MelbetRuntimeState,
}

/// `keys` are the keys of the object `o`, sorted.
pub open spec fn sorted_keys(keys: Seq<Seq<char>>, o: Option<JsonValue>) -> bool {
    keys.to_multiset() == keys_of(o).to_multiset() && is_sorted_texts(keys)
}

/// `entries` are the timeline entries read from `items`, skipping items that
/// do not describe one, in order.
pub open spec fn timeline_from(
    entries: Seq<MelbetResourceTimelineEntry>,
    items: Seq<JsonValue>,
) -> bool
    decreases items.len(),
{
    if items.len() == 0 {
        entries.len() == 0
    } else if MelbetResourceTimelineEntry::readable(items.last()) {
        &&& entries.len() > 0
        &&& entries.last().read_from(items.last())
        &&& timeline_from(entries.drop_last(), items.drop_last())
    } else {
        timeline_from(entries, items.drop_last())
    }
}

/// `hints` are the transport hints read from `items`, skipping items that do
/// not describe one, in order.
pub open spec fn hints_from(hints: Seq<MelbetTransportHint>, items: Seq<JsonValue>) -> bool
    decreases items.len(),
{
    if items.len() == 0 {
        hints.len() == 0
    } else if MelbetTransportHint::readable(items.last()) {
        &&& hints.len() > 0
        &&& hints.last().read_from(items.last())
        &&& hints_from(hints.drop_last(), items.drop_last())
    } else {
        hints_from(hints, items.drop_last())
    }
}

/// Reads the timeline entries among `items`.
fn read_timeline(items: &Vec<JsonValue>) -> (r: Vec<MelbetResourceTimelineEntry>)
    ensures
        timeline_from(r@, items@),
{
    let mut out: Vec<MelbetResourceTimelineEntry> = Vec::new();
    let mut i: usize = 0;
    while i < items.len()
        invariant
            i <= items@.len(),
            timeline_from(out@, items@.take(i as int)),
        decreases items@.len() - i,
    {
        let ghost prev = out@;
        assert(items@.take(i + 1).drop_last() =~= items@.take(i as int));
        assert(items@.take(i + 1).last() == items@[i as int]);
        match MelbetResourceTimelineEntry::from_value(&items[i]) {
            Some(e) => {
                out.push(e);
                assert(out@.drop_last() =~= prev);
            },
            None => {},
        }
        i = i + 1;
    }
    assert(items@.take(items@.len() as int) =~= items@);
    out
}

/// Reads the transport hints among `items`.
fn read_hints(items: &Vec<JsonValue>) -> (r: Vec<MelbetTransportHint>)
    ensures
        hints_from(r@, items@),
{
    let mut out: Vec<MelbetTransportHint> = Vec::new();
    let mut i: usize = 0;
    while i < items.len()
        invariant
            i <= items@.len(),
            hints_from(out@, items@.take(i as int)),
        decreases items@.len() - i,
    {
        let ghost prev = out@;
        assert(items@.take(i + 1).drop_last() =~= items@.take(i as int));
        assert(items@.take(i + 1).last() == items@[i as int]);
        match MelbetTransportHint::from_value(&items[i]) {
            Some(h) => {
                out.push(h);
                assert(out@.drop_last() =~= prev);
            },
            None => {},
        }
        i = i + 1;
    }
    assert(items@.take(items@.len() as int) =~= items@);
    out
}

/// The sorted keys of the object member `key` of `v`.
fn sorted_object_keys(v: &JsonValue, key: &str) -> (r: Vec<String>)
    ensures
        sorted_keys(views(r@), jget(*v, key@)),
{
    let keys = object_keys_field(v, key);
    sort_strings(keys)
}

impl MelbetBootstrapSnapshot {
    /// The page-level fields read from `v`.
    pub open spec fn page_read_from(self, v: JsonValue) -> bool {
        &&& self.final_url@ == text_or_empty(jget(v, "url"@))
        &&& self.origin@ == text_or_empty(jget(v, "origin"@))
        &&& self.path@ == text_or_empty(jget(v, "path"@))
        &&& self.referrer@ == text_or_empty(jget(v, "referrer"@))
        &&& views(self.iframe_sources@) == string_items(items_of(jget(v, "iframeSources"@)))
        &&& self.title@ == text_or_empty(jget(v, "title"@))
        &&& self.body_text_sample@ == text_or_empty(jget(v, "bodyTextSample"@))
        &&& self.cookie@ == text_or_empty(jget(v, "cookie"@))
        &&& sorted_keys(views(self.local_storage_keys@), jget(v, "localStorage"@))
        &&& sorted_keys(views(self.session_storage_keys@), jget(v, "sessionStorage"@))
        &&& views(self.html_class_list@) == string_items(items_of(jget(v, "htmlClassList"@)))
        &&& views(self.body_class_list@) == string_items(items_of(jget(v, "bodyClassList"@)))
        &&& views(self.root_node_ids@) == string_items(items_of(jget(v, "rootNodeIds"@)))
        &&& self.meta_viewport@ == text_or_empty(jget(v, "metaViewport"@))
        &&& views(self.script_sources@) == string_items(items_of(jget(v, "scriptSources"@)))
    }

    /// The browser-level and nested fields read from `v`.
    pub open spec fn runtime_read_from(self, v: JsonValue) -> bool {
        &&& self.user_agent@ == text_or_empty(jget(v, "userAgent"@))
        &&& self.profile_label@ == text_or_empty(jget(v, "profileLabel"@))
        &&& self.app_marker@ == text_or_empty(jget(v, "appMarker"@))
        &&& self.max_touch_points == u64_or_zero(jget(v, "maxTouchPoints"@))
        &&& self.inner_width == u64_or_zero(jget(v, "innerWidth"@))
        &&& self.inner_height == u64_or_zero(jget(v, "innerHeight"@))
        &&& self.has_service_worker == bool_or_false(jget(v, "hasServiceWorker"@))
        &&& timeline_from(self.resource_timeline@, items_of(jget(v, "resourceTimeline"@)))
        &&& hints_from(self.transport_hints@, items_of(jget(v, "transportHints"@)))
        &&& self.runtime_context.read_from(jget_or_null(v, "runtimeContext"@))
        &&& self.readiness.read_from(jget_or_null(v, "readinessDiagnostics"@))
        &&& self.runtime_state.read_from(jget_or_null(v, "runtimeState"@))
    }

    /// The snapshot read from `v`: missing text and number fields are empty
    /// or zero, storage keys come sorted, and list items that are not of the
    /// expected shape are skipped.
    pub open spec fn read_from(self, v: JsonValue) -> bool {
        self.page_read_from(v) && self.runtime_read_from(v)
    }

    /// Reads a snapshot from `v`.
    #[verifier::rlimit(40)]
    pub fn from_value(v: &JsonValue) -> (r: MelbetBootstrapSnapshot)
        ensures
            r.read_from(*v),
    {
        let null = JsonValue::Null;
        let timeline = match get(v, "resourceTimeline") {
            Some(JsonValue::Array(items)) => read_timeline(items),
            _ => Vec::new(),
        };
        let hints = match get(v, "transportHints") {
            Some(JsonValue::Array(items)) => read_hints(items),
            _ => Vec::new(),
        };
        let context = match get(v, "runtimeContext") {
            Some(c) => MelbetRuntimeContext::from_value(c),
            None => MelbetRuntimeContext::from_value(&null),
        };
        let readiness = match get(v, "readinessDiagnostics") {
            Some(c) => MelbetReadinessDiagnostics::from_value(c),
            None => MelbetReadinessDiagnostics::from_value(&null),
        };
        let state = match get(v, "runtimeState") {
            Some(c) => MelbetRuntimeState::from_value(c),
            None => MelbetRuntimeState::from_value(&null),
        };
        MelbetBootstrapSnapshot {
            final_url: text_field(v, "url"),
            origin: text_field(v, "origin"),
            path: text_field(v, "path"),
            referrer: text_field(v, "referrer"),
            iframe_sources: string_array_field(v, "iframeSources"),
            title: text_field(v, "title"),
            body_text_sample: text_field(v, "bodyTextSample"),
            cookie: text_field(v, "cookie"),
            local_storage_keys: sorted_object_keys(v, "localStorage"),
            session_storage_keys: sorted_object_keys(v, "sessionStorage"),
            html_class_list: string_array_field(v, "htmlClassList"),
            body_class_list: string_array_field(v, "bodyClassList"),
            root_node_ids: string_array_field(v, "rootNodeIds"),
            meta_viewport: text_field(v, "metaViewport"),
            script_sources: string_array_field(v, "scriptSources"),
            user_agent: text_field(v, "userAgent"),
            profile_label: text_field(v, "profileLabel"),
            app_marker: text_field(v, "appMarker"),
            max_touch_points: u64_field(v, "maxTouchPoints"),
            inner_width: u64_field(v, "innerWidth"),
            inner_height: u64_field(v, "innerHeight"),
            has_service_worker: bool_field(v, "hasServiceWorker"),
            resource_timeline: timeline,
            transport_hints: hints,
            runtime_context: context,
            readiness,
            runtime_state: state,
        }
    }

    /// Number of storage keys, local and session.
    pub fn storage_key_count(&self) -> (r: usize)
        requires
            self.local_storage_keys@.len() + self.session_storage_keys@.len() <= usize::MAX,
        ensures
            r == self.local_storage_keys@.len() + self.session_storage_keys@.len(),
    {
        self.local_storage_keys.len() + self.session_storage_keys.len()
    }

    /// Number of script sources.
    pub fn script_count(&self) -> (r: usize)
        ensures
            r == self.script_sources@.len(),
    {
        self.script_sources.len()
    }

    /// Number of root node ids.
    pub fn root_node_count(&self) -> (r: usize)
        ensures
            r == self.root_node_ids@.len(),
    {
        self.root_node_ids.len()
    }

    /// Number of transport hints.
    pub fn transport_hint_count(&self) -> (r: usize)
        ensures
            r == self.transport_hints@.len(),
    {
        self.transport_hints.len()
    }

    /// Number of iframe sources.
    pub fn iframe_source_count(&self) -> (r: usize)
        ensures
            r == self.iframe_sources@.len(),
    {
        self.iframe_sources.len()
    }

    /// Number of resource timeline entries.
    pub fn resource_timeline_count(&self) -> (r: usize)
        ensures
            r == self.resource_timeline@.len(),
    {
        self.resource_timeline.len()
    }
}

} // verus!
