//! What a headless Melbet page reports about itself: the runtime state of
//! the document, the sportsbook runtime context, readiness timings, transport
//! hints and the resource timeline, read from the page's JSON report, with the
//! one-line summaries that the diagnostics print.

use crate::json::{
    bool_field, get, jget, jget_or_null, opt_text_field, string_array_field, string_items, items_of,
    text_field, text_of, text_or_empty, u64_field, u64_or_zero, bool_or_false, JsonValue,
};
use crate::text::{
    dec, bool_text, has_infix, joined_or_none, lower_contains, or_text, push_bool, push_decimal,
    push_joined_or_none, push_or, push_str, trim, unicode_lower, views, ascii_lower_seq,
    chars_of, eq_ignore_ascii_case, is_blank, str_eq, owned, join, static_views, clone_strings,
};
use vstd::prelude::*;

verus! {

// ---------------------------------------------------------------------------
// Surfaces and route statuses
// ---------------------------------------------------------------------------

/// The page family a probe opens.
#[derive(Clone, Copy, Debug, PartialEq, Eq, Structural)]
pub enum MelbetSurface {
    Desktop,
    Mobile,
    WebView,
}

/// Name of a surface.
pub open spec fn surface_name(s: MelbetSurface) -> Seq<char> {
    match s {
        MelbetSurface::Desktop => "desktop"@,
        MelbetSurface::Mobile => "mobile"@,
        MelbetSurface::WebView => "webview"@,
    }
}

impl MelbetSurface {
    /// The surface's name.
    pub fn as_str(self) -> (r: &'static str)
        ensures
            r@ == surface_name(self),
    {
        match self {
            MelbetSurface::Desktop => "desktop",
            MelbetSurface::Mobile => "mobile",
            MelbetSurface::WebView => "webview",
        }
    }
}

/// How far a probed route got.
#[derive(Clone, Copy, Debug, PartialEq, Eq, Structural)]
pub enum MelbetRouteStatus {
    Ready,
    BootstrapOnly,
    Blocked,
}

/// Name of a route status.
pub open spec fn route_status_name(s: MelbetRouteStatus) -> Seq<char> {
    match s {
        MelbetRouteStatus::Ready => "ready"@,
        MelbetRouteStatus::BootstrapOnly => "bootstrap_only"@,
        MelbetRouteStatus::Blocked => "blocked"@,
    }
}

impl MelbetRouteStatus {
    /// The status's name.
    pub fn as_str(&self) -> (r: &'static str)
        ensures
            r@ == route_status_name(*self),
    {
        match self {
            MelbetRouteStatus::Ready => "ready",
            MelbetRouteStatus::BootstrapOnly => "bootstrap_only",
            MelbetRouteStatus::Blocked => "blocked",
        }
    }
}

// ---------------------------------------------------------------------------
// Transport hints
// ---------------------------------------------------------------------------

/// A transport endpoint the page mentioned.
#[derive(Debug)]
pub struct MelbetTransportHint {
    pub kind: String,
    pub value: String,
    pub source: String,
}

impl MelbetTransportHint {
    /// A hint read from `v`: present exactly where `v` has string members
    /// `kind` and `value`; `source` defaults to empty.
    pub open spec fn read_from(self, v: JsonValue) -> bool {
        &&& text_of(jget(v, "kind"@)) == Some(self.kind@)
        &&& text_of(jget(v, "value"@)) == Some(self.value@)
        &&& self.source@ == text_or_empty(jget(v, "source"@))
    }

    /// Whether `v` describes a hint.
    pub open spec fn readable(v: JsonValue) -> bool {
        text_of(jget(v, "kind"@)) is Some && text_of(jget(v, "value"@)) is Some
    }

    /// Reads a hint from `v`.
    pub fn from_value(v: &JsonValue) -> (r: Option<MelbetTransportHint>)
        ensures
            r is Some <==> Self::readable(*v),
            r matches Some(h) ==> h.read_from(*v),
    {
        let kind = match opt_text_field(v, "kind") {
            Some(k) => k,
            None => return None,
        };
        let value = match opt_text_field(v, "value") {
            Some(x) => x,
            None => return None,
        };
        let source = text_field(v, "source");
        Some(MelbetTransportHint { kind, value, source })
    }
}

/// A transport hint after classification.
#[derive(Debug)]
pub struct MelbetNormalizedTransportHint {
    pub kind: String,
    pub family: String,
    pub source: String,
    pub normalized_value: String,
    pub host: String,
    pub path: String,
    pub protocol: String,
    pub confidence: String,
}

impl MelbetNormalizedTransportHint {
    /// `family:protocol:host:value`.
    pub open spec fn summary(self) -> Seq<char> {
        self.family@ + ":"@ + self.protocol@ + ":"@ + self.host@ + ":"@ + self.normalized_value@
    }

    /// The one-line summary.
    pub fn as_summary(&self) -> (r: String)
        ensures
            r@ == self.summary(),
    {
        let mut out = String::new();
        push_str(&mut out, self.family.as_str());
        push_str(&mut out, ":");
        push_str(&mut out, self.protocol.as_str());
        push_str(&mut out, ":");
        push_str(&mut out, self.host.as_str());
        push_str(&mut out, ":");
        push_str(&mut out, self.normalized_value.as_str());
        out
    }
}

// ---------------------------------------------------------------------------
// Resource timeline
// ---------------------------------------------------------------------------

/// One entry of the page's resource timeline.
#[derive(Debug)]
pub struct MelbetResourceTimelineEntry {
    pub name: String,
    pub initiator_type: String,
    pub next_hop_protocol: String,
    pub transfer_size: u64,
    pub duration_ms: u64,
    pub start_time_ms: u64,
    pub response_end_ms: u64,
}

impl MelbetResourceTimelineEntry {
    /// Whether `v` describes an entry: it has a string member `name`.
    pub open spec fn readable(v: JsonValue) -> bool {
        text_of(jget(v, "name"@)) is Some
    }

    /// An entry read from `v`; missing fields default to empty or zero.
    pub open spec fn read_from(self, v: JsonValue) -> bool {
        &&& text_of(jget(v, "name"@)) == Some(self.name@)
        &&& self.initiator_type@ == text_or_empty(jget(v, "initiatorType"@))
        &&& self.next_hop_protocol@ == text_or_empty(jget(v, "nextHopProtocol"@))
        &&& self.transfer_size == u64_or_zero(jget(v, "transferSize"@))
        &&& self.duration_ms == u64_or_zero(jget(v, "durationMs"@))
        &&& self.start_time_ms == u64_or_zero(jget(v, "startTimeMs"@))
        &&& self.response_end_ms == u64_or_zero(jget(v, "responseEndMs"@))
    }

    /// Reads an entry from `v`.
    pub fn from_value(v: &JsonValue) -> (r: Option<MelbetResourceTimelineEntry>)
        ensures
            r is Some <==> Self::readable(*v),
            r matches Some(e) ==> e.read_from(*v),
    {
        let name = match opt_text_field(v, "name") {
            Some(n) => n,
            None => return None,
        };
        Some(MelbetResourceTimelineEntry {
            name,
            initiator_type: text_field(v, "initiatorType"),
            next_hop_protocol: text_field(v, "nextHopProtocol"),
            transfer_size: u64_field(v, "transferSize"),
            duration_ms: u64_field(v, "durationMs"),
            start_time_ms: u64_field(v, "startTimeMs"),
            response_end_ms: u64_field(v, "responseEndMs"),
        })
    }

    /// `initiator:protocol:duration:name`.
    pub open spec fn summary(self) -> Seq<char> {
        self.initiator_type@ + ":"@ + self.next_hop_protocol@ + ":"@ + dec(
            self.duration_ms as nat,
        ) + ":"@ + self.name@
    }

    /// The one-line summary.
    pub fn as_summary(&self) -> (r: String)
        ensures
            r@ == self.summary(),
    {
        let mut out = String::new();
        push_str(&mut out, self.initiator_type.as_str());
        push_str(&mut out, ":");
        push_str(&mut out, self.next_hop_protocol.as_str());
        push_str(&mut out, ":");
        push_decimal(&mut out, self.duration_ms);
        push_str(&mut out, ":");
        push_str(&mut out, self.name.as_str());
        out
    }
}

// ---------------------------------------------------------------------------
// Readiness diagnostics
// ---------------------------------------------------------------------------

/// Document readiness and load timings.
#[derive(Debug)]
pub struct MelbetReadinessDiagnostics {
    pub ready_state: String,
    pub body_text_length: usize,
    pub body_child_count: usize,
    pub resource_count: usize,
    pub script_count: usize,
    pub storage_key_count: usize,
    pub root_node_count: usize,
    pub fetch_like_count: usize,
    pub websocket_hint_count: usize,
    pub dom_content_loaded_ms: u64,
    pub load_event_ms: u64,
    pub last_resource_end_ms: u64,
    pub has_visible_app_shell: bool,
}

impl MelbetReadinessDiagnostics {
    /// The diagnostics read from `v`; missing fields are empty, zero or false.
    pub open spec fn read_from(self, v: JsonValue) -> bool {
        &&& self.ready_state@ == text_or_empty(jget(v, "readyState"@))
        &&& self.body_text_length == u64_or_zero(jget(v, "bodyTextLength"@)) as usize
        &&& self.body_child_count == u64_or_zero(jget(v, "bodyChildCount"@)) as usize
        &&& self.resource_count == u64_or_zero(jget(v, "resourceCount"@)) as usize
        &&& self.script_count == u64_or_zero(jget(v, "scriptCount"@)) as usize
        &&& self.storage_key_count == u64_or_zero(jget(v, "storageKeyCount"@)) as usize
        &&& self.root_node_count == u64_or_zero(jget(v, "rootNodeCount"@)) as usize
        &&& self.fetch_like_count == u64_or_zero(jget(v, "fetchLikeCount"@)) as usize
        &&& self.websocket_hint_count == u64_or_zero(jget(v, "websocketHintCount"@)) as usize
        &&& self.dom_content_loaded_ms == u64_or_zero(jget(v, "domContentLoadedMs"@))
        &&& self.load_event_ms == u64_or_zero(jget(v, "loadEventMs"@))
        &&& self.last_resource_end_ms == u64_or_zero(jget(v, "lastResourceEndMs"@))
        &&& self.has_visible_app_shell == bool_or_false(jget(v, "hasVisibleAppShell"@))
    }

    /// Reads the diagnostics from `v`.
    pub fn from_value(v: &JsonValue) -> (r: MelbetReadinessDiagnostics)
        ensures
            r.read_from(*v),
    {
        MelbetReadinessDiagnostics {
            ready_state: text_field(v, "readyState"),
            body_text_length: u64_field(v, "bodyTextLength") as usize,
            body_child_count: u64_field(v, "bodyChildCount") as usize,
            resource_count: u64_field(v, "resourceCount") as usize,
            script_count: u64_field(v, "scriptCount") as usize,
            storage_key_count: u64_field(v, "storageKeyCount") as usize,
            root_node_count: u64_field(v, "rootNodeCount") as usize,
            fetch_like_count: u64_field(v, "fetchLikeCount") as usize,
            websocket_hint_count: u64_field(v, "websocketHintCount") as usize,
            dom_content_loaded_ms: u64_field(v, "domContentLoadedMs"),
            load_event_ms: u64_field(v, "loadEventMs"),
            last_resource_end_ms: u64_field(v, "lastResourceEndMs"),
            has_visible_app_shell: bool_field(v, "hasVisibleAppShell"),
        }
    }

    /// The one-line summary.
    pub open spec fn summary(self) -> Seq<char> {
        "state="@ + self.ready_state@ + ",resources="@ + dec(self.resource_count as nat)
            + ",fetch_like="@ + dec(self.fetch_like_count as nat) + ",ws_hints="@ + dec(
            self.websocket_hint_count as nat,
        ) + ",scripts="@ + dec(self.script_count as nat) + ",storage_keys="@ + dec(
            self.storage_key_count as nat,
        ) + ",roots="@ + dec(self.root_node_count as nat) + ",body_children="@ + dec(
            self.body_child_count as nat,
        ) + ",dcl_ms="@ + dec(self.dom_content_loaded_ms as nat) + ",load_ms="@ + dec(
            self.load_event_ms as nat,
        ) + ",last_res_ms="@ + dec(self.last_resource_end_ms as nat) + ",visible_shell="@
            + bool_text(self.has_visible_app_shell) + ",body_len="@ + dec(
            self.body_text_length as nat,
        )
    }

    /// The one-line summary.
    pub fn as_summary(&self) -> (r: String)
        ensures
            r@ == self.summary(),
    {
        let mut out = String::new();
        push_str(&mut out, "state=");
        push_str(&mut out, self.ready_state.as_str());
        push_str(&mut out, ",resources=");
        push_decimal(&mut out, self.resource_count as u64);
        push_str(&mut out, ",fetch_like=");
        push_decimal(&mut out, self.fetch_like_count as u64);
        push_str(&mut out, ",ws_hints=");
        push_decimal(&mut out, self.websocket_hint_count as u64);
        push_str(&mut out, ",scripts=");
        push_decimal(&mut out, self.script_count as u64);
        push_str(&mut out, ",storage_keys=");
        push_decimal(&mut out, self.storage_key_count as u64);
        push_str(&mut out, ",roots=");
        push_decimal(&mut out, self.root_node_count as u64);
        push_str(&mut out, ",body_children=");
        push_decimal(&mut out, self.body_child_count as u64);
        push_str(&mut out, ",dcl_ms=");
        push_decimal(&mut out, self.dom_content_loaded_ms);
        push_str(&mut out, ",load_ms=");
        push_decimal(&mut out, self.load_event_ms);
        push_str(&mut out, ",last_res_ms=");
        push_decimal(&mut out, self.last_resource_end_ms);
        push_str(&mut out, ",visible_shell=");
        push_bool(&mut out, self.has_visible_app_shell);
        push_str(&mut out, ",body_len=");
        push_decimal(&mut out, self.body_text_length as u64);
        out
    }
}

// ---------------------------------------------------------------------------
// Runtime state of the document
// ---------------------------------------------------------------------------

/// What the page's document looked like when it was read.
#[derive(Debug)]
pub struct MelbetRuntimeState {
    pub href: String,
    pub pathname: String,
    pub search: String,
    pub hash: String,
    pub title: String,
    pub ready_state: String,
    pub history_length: usize,
    pub body_child_count: usize,
    pub body_text_length: usize,
    pub custom_element_count: usize,
    pub button_count: usize,
    pub interactive_node_count: usize,
    pub link_count: usize,
    pub route_link_count: usize,
    pub router_shell_count: usize,
    pub first_button_text: String,
    pub body_text_sample: String,
    pub navigation_type: String,
    pub dom_content_loaded_ms: u64,
    pub load_ms: u64,
    pub blocker_kind: String,
    pub blocker_source: String,
    pub blocker_text: String,
    pub bootstrap_markers: Vec<String>,
}

/// A bootstrap marker that points at the sportsbook shell.
pub open spec fn state_shell_marker(m: Seq<char>) -> bool {
    let l = unicode_lower(m);
    (has_infix(l, "route_family:"@) && has_infix(l, "sportsbook"@)) || has_infix(
        l,
        "iframe:sportsbook"@,
    ) || has_infix(l, "shell:"@)
}

/// `interactive` or `complete`.
pub open spec fn is_loaded_state(s: Seq<char>) -> bool {
    s == "interactive"@ || s == "complete"@
}

/// Whether `s` is `interactive` or `complete`.
pub fn loaded_state(s: &str) -> (r: bool)
    ensures
        r == is_loaded_state(s@),
{
    str_eq(s, "interactive") || str_eq(s, "complete")
}

impl MelbetRuntimeState {
    /// The state read from `v`; missing fields are empty or zero.
    pub open spec fn read_from(self, v: JsonValue) -> bool {
        let nav = jget_or_null(v, "navigationEntry"@);
        let blocker = jget_or_null(v, "blocker"@);
        &&& self.href@ == text_or_empty(jget(v, "href"@))
        &&& self.pathname@ == text_or_empty(jget(v, "pathname"@))
        &&& self.search@ == text_or_empty(jget(v, "search"@))
        &&& self.hash@ == text_or_empty(jget(v, "hash"@))
        &&& self.title@ == text_or_empty(jget(v, "title"@))
        &&& self.ready_state@ == text_or_empty(jget(v, "readyState"@))
        &&& self.history_length == u64_or_zero(jget(v, "historyLength"@)) as usize
        &&& self.body_child_count == u64_or_zero(jget(v, "bodyChildCount"@)) as usize
        &&& self.body_text_length == u64_or_zero(jget(v, "bodyTextLength"@)) as usize
        &&& self.custom_element_count == u64_or_zero(jget(v, "customElementCount"@)) as usize
        &&& self.button_count == u64_or_zero(jget(v, "buttonCount"@)) as usize
        &&& self.interactive_node_count == u64_or_zero(jget(v, "interactiveNodeCount"@)) as usize
        &&& self.link_count == u64_or_zero(jget(v, "linkCount"@)) as usize
        &&& self.route_link_count == u64_or_zero(jget(v, "routeLinkCount"@)) as usize
        &&& self.router_shell_count == u64_or_zero(jget(v, "routerShellCount"@)) as usize
        &&& self.first_button_text@ == text_or_empty(jget(v, "firstButtonText"@))
        &&& self.body_text_sample@ == text_or_empty(jget(v, "bodyTextSample"@))
        &&& self.navigation_type@ == text_or_empty(jget(nav, "type"@))
        &&& self.dom_content_loaded_ms == u64_or_zero(jget(nav, "domContentLoadedMs"@))
        &&& self.load_ms == u64_or_zero(jget(nav, "loadMs"@))
        &&& self.blocker_kind@ == text_or_empty(jget(blocker, "kind"@))
        &&& self.blocker_source@ == text_or_empty(jget(blocker, "source"@))
        &&& self.blocker_text@ == text_or_empty(jget(blocker, "matchedText"@))
        &&& views(self.bootstrap_markers@) == string_items(
            items_of(jget(v, "bootstrapMarkers"@)),
        )
    }

    /// Both states hold the same texts, counts and markers.
    pub open spec fn same_as(self, o: MelbetRuntimeState) -> bool {
        &&& self.href@ == o.href@
        &&& self.pathname@ == o.pathname@
        &&& self.search@ == o.search@
        &&& self.hash@ == o.hash@
        &&& self.title@ == o.title@
        &&& self.ready_state@ == o.ready_state@
        &&& self.history_length == o.history_length
        &&& self.body_child_count == o.body_child_count
        &&& self.body_text_length == o.body_text_length
        &&& self.custom_element_count == o.custom_element_count
        &&& self.button_count == o.button_count
        &&& self.interactive_node_count == o.interactive_node_count
        &&& self.link_count == o.link_count
        &&& self.route_link_count == o.route_link_count
        &&& self.router_shell_count == o.router_shell_count
        &&& self.first_button_text@ == o.first_button_text@
        &&& self.body_text_sample@ == o.body_text_sample@
        &&& self.navigation_type@ == o.navigation_type@
        &&& self.dom_content_loaded_ms == o.dom_content_loaded_ms
        &&& self.load_ms == o.load_ms
        &&& self.blocker_kind@ == o.blocker_kind@
        &&& self.blocker_source@ == o.blocker_source@
        &&& self.blocker_text@ == o.blocker_text@
        &&& views(self.bootstrap_markers@) == views(o.bootstrap_markers@)
    }

    /// A state with nothing recorded.
    pub open spec fn is_blank_state(self) -> bool {
        self.read_from(JsonValue::Null)
    }

    /// A state with nothing recorded.
    pub fn empty() -> (r: MelbetRuntimeState)
        ensures
            r.is_blank_state(),
    {
        let null = JsonValue::Null;
        Self::from_value(&null)
    }

    /// A copy of the state.
    pub fn duplicate(&self) -> (r: MelbetRuntimeState)
        ensures
            r.same_as(*self),
    {
        MelbetRuntimeState {
            href: self.href.clone(),
            pathname: self.pathname.clone(),
            search: self.search.clone(),
            hash: self.hash.clone(),
            title: self.title.clone(),
            ready_state: self.ready_state.clone(),
            history_length: self.history_length,
            body_child_count: self.body_child_count,
            body_text_length: self.body_text_length,
            custom_element_count: self.custom_element_count,
            button_count: self.button_count,
            interactive_node_count: self.interactive_node_count,
            link_count: self.link_count,
            route_link_count: self.route_link_count,
            router_shell_count: self.router_shell_count,
            first_button_text: self.first_button_text.clone(),
            body_text_sample: self.body_text_sample.clone(),
            navigation_type: self.navigation_type.clone(),
            dom_content_loaded_ms: self.dom_content_loaded_ms,
            load_ms: self.load_ms,
            blocker_kind: self.blocker_kind.clone(),
            blocker_source: self.blocker_source.clone(),
            blocker_text: self.blocker_text.clone(),
            bootstrap_markers: clone_strings(&self.bootstrap_markers),
        }
    }

    /// Reads the state from `v`.
    pub fn from_value(v: &JsonValue) -> (r: MelbetRuntimeState)
        ensures
            r.read_from(*v),
    {
        let null = JsonValue::Null;
        let nav = match get(v, "navigationEntry") {
            Some(n) => n,
            None => &null,
        };
        let blocker = match get(v, "blocker") {
            Some(b) => b,
            None => &null,
        };
        MelbetRuntimeState {
            href: text_field(v, "href"),
            pathname: text_field(v, "pathname"),
            search: text_field(v, "search"),
            hash: text_field(v, "hash"),
            title: text_field(v, "title"),
            ready_state: text_field(v, "readyState"),
            history_length: u64_field(v, "historyLength") as usize,
            body_child_count: u64_field(v, "bodyChildCount") as usize,
            body_text_length: u64_field(v, "bodyTextLength") as usize,
            custom_element_count: u64_field(v, "customElementCount") as usize,
            button_count: u64_field(v, "buttonCount") as usize,
            interactive_node_count: u64_field(v, "interactiveNodeCount") as usize,
            link_count: u64_field(v, "linkCount") as usize,
            route_link_count: u64_field(v, "routeLinkCount") as usize,
            router_shell_count: u64_field(v, "routerShellCount") as usize,
            first_button_text: text_field(v, "firstButtonText"),
            body_text_sample: text_field(v, "bodyTextSample"),
            navigation_type: text_field(nav, "type"),
            dom_content_loaded_ms: u64_field(nav, "domContentLoadedMs"),
            load_ms: u64_field(nav, "loadMs"),
            blocker_kind: text_field(blocker, "kind"),
            blocker_source: text_field(blocker, "source"),
            blocker_text: text_field(blocker, "matchedText"),
            bootstrap_markers: string_array_field(v, "bootstrapMarkers"),
        }
    }

    /// The one-line summary.
    pub open spec fn summary(self) -> Seq<char> {
        "href="@ + or_text(self.href@, "none"@) + ",path="@ + or_text(self.pathname@, "none"@)
            + ",search="@ + or_text(self.search@, "none"@) + ",hash="@ + or_text(
            self.hash@,
            "none"@,
        ) + ",state="@ + or_text(self.ready_state@, "unknown"@) + ",history="@ + dec(
            self.history_length as nat,
        ) + ",shells="@ + dec(self.router_shell_count as nat) + ",route_links="@ + dec(
            self.route_link_count as nat,
        ) + ",links="@ + dec(self.link_count as nat) + ",buttons="@ + dec(
            self.button_count as nat,
        ) + ",interactive_nodes="@ + dec(self.interactive_node_count as nat)
            + ",custom_elements="@ + dec(self.custom_element_count as nat) + ",body_children="@
            + dec(self.body_child_count as nat) + ",body_len="@ + dec(
            self.body_text_length as nat,
        ) + ",nav_type="@ + or_text(self.navigation_type@, "none"@) + ",dcl_ms="@ + dec(
            self.dom_content_loaded_ms as nat,
        ) + ",load_ms="@ + dec(self.load_ms as nat) + ",blocker="@ + or_text(
            self.blocker_kind@,
            "none"@,
        ) + "@"@ + or_text(self.blocker_source@, "none"@) + ":"@ + or_text(
            self.blocker_text@,
            "-"@,
        ) + ",bootstrap_markers="@ + joined_or_none(views(self.bootstrap_markers@))
    }

    /// The one-line summary.
    pub fn as_summary(&self) -> (r: String)
        ensures
            r@ == self.summary(),
    {
        let mut out = String::new();
        push_str(&mut out, "href=");
        push_or(&mut out, self.href.as_str(), "none");
        push_str(&mut out, ",path=");
        push_or(&mut out, self.pathname.as_str(), "none");
        push_str(&mut out, ",search=");
        push_or(&mut out, self.search.as_str(), "none");
        push_str(&mut out, ",hash=");
        push_or(&mut out, self.hash.as_str(), "none");
        push_str(&mut out, ",state=");
        push_or(&mut out, self.ready_state.as_str(), "unknown");
        push_str(&mut out, ",history=");
        push_decimal(&mut out, self.history_length as u64);
        push_str(&mut out, ",shells=");
        push_decimal(&mut out, self.router_shell_count as u64);
        push_str(&mut out, ",route_links=");
        push_decimal(&mut out, self.route_link_count as u64);
        push_str(&mut out, ",links=");
        push_decimal(&mut out, self.link_count as u64);
        push_str(&mut out, ",buttons=");
        push_decimal(&mut out, self.button_count as u64);
        push_str(&mut out, ",interactive_nodes=");
        push_decimal(&mut out, self.interactive_node_count as u64);
        push_str(&mut out, ",custom_elements=");
        push_decimal(&mut out, self.custom_element_count as u64);
        push_str(&mut out, ",body_children=");
        push_decimal(&mut out, self.body_child_count as u64);
        push_str(&mut out, ",body_len=");
        push_decimal(&mut out, self.body_text_length as u64);
        push_str(&mut out, ",nav_type=");
        push_or(&mut out, self.navigation_type.as_str(), "none");
        push_str(&mut out, ",dcl_ms=");
        push_decimal(&mut out, self.dom_content_loaded_ms);
        push_str(&mut out, ",load_ms=");
        push_decimal(&mut out, self.load_ms);
        push_str(&mut out, ",blocker=");
        push_or(&mut out, self.blocker_kind.as_str(), "none");
        push_str(&mut out, "@");
        push_or(&mut out, self.blocker_source.as_str(), "none");
        push_str(&mut out, ":");
        push_or(&mut out, self.blocker_text.as_str(), "-");
        push_str(&mut out, ",bootstrap_markers=");
        push_joined_or_none(&mut out, self.bootstrap_markers.as_slice());
        out
    }

    /// Whether the document shows the sportsbook shell.
    pub open spec fn shows_sportsbook_shell(self) -> bool {
        ||| self.router_shell_count > 0
        ||| self.route_link_count > 0
        ||| self.custom_element_count > 0
        ||| exists|i: int|
            0 <= i < self.bootstrap_markers@.len() && state_shell_marker(
                #[trigger] self.bootstrap_markers@[i]@,
            )
        ||| ascii_lower_seq(self.pathname@) == ascii_lower_seq("/ru/sport"@)
        ||| ascii_lower_seq(self.pathname@) == ascii_lower_seq("/ru/sport/"@)
        ||| has_infix(unicode_lower(self.href@), "/ru/sport"@)
    }

    /// Whether any bootstrap marker points at the sportsbook shell.
    fn any_shell_marker(&self) -> (r: bool)
        ensures
            r == exists|i: int|
                0 <= i < self.bootstrap_markers@.len() && state_shell_marker(
                    #[trigger] self.bootstrap_markers@[i]@,
                ),
    {
        let mut i: usize = 0;
        while i < self.bootstrap_markers.len()
            invariant
                i <= self.bootstrap_markers@.len(),
                forall|k: int|
                    0 <= k < i ==> !state_shell_marker(#[trigger] self.bootstrap_markers@[k]@),
            decreases self.bootstrap_markers@.len() - i,
        {
            let m = self.bootstrap_markers[i].as_str();
            let hit = (lower_contains(m, "route_family:") && lower_contains(m, "sportsbook"))
                || lower_contains(m, "iframe:sportsbook") || lower_contains(m, "shell:");
            if hit {
                return true;
            }
            i = i + 1;
        }
        false
    }

    /// Whether the document shows the sportsbook shell.
    pub fn has_sportsbook_shell_markers(&self) -> (r: bool)
        ensures
            r == self.shows_sportsbook_shell(),
    {
        if self.router_shell_count > 0 || self.route_link_count > 0
            || self.custom_element_count > 0 {
            return true;
        }
        if self.any_shell_marker() {
            return true;
        }
        let path = chars_of(self.pathname.as_str());
        let a = chars_of("/ru/sport");
        let b = chars_of("/ru/sport/");
        eq_ignore_ascii_case(path.as_slice(), a.as_slice()) || eq_ignore_ascii_case(
            path.as_slice(),
            b.as_slice(),
        ) || lower_contains(self.href.as_str(), "/ru/sport")
    }

    /// Whether the document shows any sign of a bootstrapped page.
    pub open spec fn shows_bootstrap(self) -> bool {
        ||| self.bootstrap_markers@.len() > 0
        ||| self.shows_sportsbook_shell()
        ||| self.body_child_count > 0
        ||| self.body_text_length > 0
        ||| self.interactive_node_count > 0
        ||| self.link_count > 0
        ||| self.button_count > 0
        ||| is_loaded_state(self.ready_state@)
    }

    /// Whether the document shows any sign of a bootstrapped page.
    pub fn has_bootstrap_markers(&self) -> (r: bool)
        ensures
            r == self.shows_bootstrap(),
    {
        self.bootstrap_markers.len() > 0 || self.has_sportsbook_shell_markers()
            || self.body_child_count > 0 || self.body_text_length > 0
            || self.interactive_node_count > 0 || self.link_count > 0 || self.button_count > 0
            || loaded_state(self.ready_state.as_str())
    }

    /// Whether the page reported a blocker.
    pub fn has_runtime_blocker(&self) -> (r: bool)
        ensures
            r == (self.blocker_kind@.len() > 0),
    {
        !self.blocker_kind.as_str().is_empty()
    }

    /// `runtime_blocker:kind[@source]`, or empty where there is no blocker.
    pub open spec fn blocker(self) -> Seq<char> {
        if self.blocker_kind@.len() == 0 {
            Seq::empty()
        } else if self.blocker_source@.len() == 0 {
            "runtime_blocker:"@ + self.blocker_kind@
        } else {
            "runtime_blocker:"@ + self.blocker_kind@ + "@"@ + self.blocker_source@
        }
    }

    /// The blocker code.
    pub fn blocker_code(&self) -> (r: String)
        ensures
            r@ == self.blocker(),
    {
        if self.blocker_kind.as_str().is_empty() {
            return String::new();
        }
        let mut code = String::new();
        push_str(&mut code, "runtime_blocker:");
        push_str(&mut code, self.blocker_kind.as_str());
        if !self.blocker_source.as_str().is_empty() {
            push_str(&mut code, "@");
            push_str(&mut code, self.blocker_source.as_str());
        }
        code
    }
}

// ---------------------------------------------------------------------------
// Sportsbook runtime context
// ---------------------------------------------------------------------------

/// What the page exposed of the sportsbook's HTTP API runtime.
#[derive(Debug)]
pub struct MelbetRuntimeContext {
    pub has_http_api: bool,
    pub http_api_methods: Vec<String>,
    pub partner_id: u64,
    pub lang_id: u64,
    pub country_code: String,
    pub has_global_settings: bool,
    pub has_partner_config: bool,
    pub inline_script_count: usize,
    pub bootstrap_markers: Vec<String>,
}

/// `[x]` where `cond` holds, else nothing.
pub open spec fn listed_if(cond: bool, x: Seq<char>) -> Seq<Seq<char>> {
    if cond {
        seq![x]
    } else {
        Seq::empty()
    }
}

impl MelbetRuntimeContext {
    /// An empty context, as read from `null`.
    pub open spec fn is_empty_context(self) -> bool {
        &&& !self.has_http_api
        &&& self.http_api_methods@.len() == 0
        &&& self.partner_id == 0
        &&& self.lang_id == 0
        &&& self.country_code@.len() == 0
        &&& !self.has_global_settings
        &&& !self.has_partner_config
        &&& self.inline_script_count == 0
        &&& self.bootstrap_markers@.len() == 0
    }

    /// The context read from `v`; missing fields are empty, zero or false.
    pub open spec fn read_from(self, v: JsonValue) -> bool {
        &&& self.has_http_api == bool_or_false(jget(v, "hasHttpApi"@))
        &&& views(self.http_api_methods@) == string_items(items_of(jget(v, "httpApiMethods"@)))
        &&& self.partner_id == u64_or_zero(jget(v, "partnerId"@))
        &&& self.lang_id == u64_or_zero(jget(v, "langId"@))
        &&& self.country_code@ == text_or_empty(jget(v, "countryCode"@))
        &&& self.has_global_settings == bool_or_false(jget(v, "hasGlobalSettings"@))
        &&& self.has_partner_config == bool_or_false(jget(v, "hasPartnerConfig"@))
        &&& self.inline_script_count == u64_or_zero(jget(v, "inlineScriptCount"@)) as usize
        &&& views(self.bootstrap_markers@) == string_items(
            items_of(jget(v, "bootstrapMarkers"@)),
        )
    }

    /// Reads the context from `v`.
    pub fn from_value(v: &JsonValue) -> (r: MelbetRuntimeContext)
        ensures
            r.read_from(*v),
    {
        MelbetRuntimeContext {
            has_http_api: bool_field(v, "hasHttpApi"),
            http_api_methods: string_array_field(v, "httpApiMethods"),
            partner_id: u64_field(v, "partnerId"),
            lang_id: u64_field(v, "langId"),
            country_code: text_field(v, "countryCode"),
            has_global_settings: bool_field(v, "hasGlobalSettings"),
            has_partner_config: bool_field(v, "hasPartnerConfig"),
            inline_script_count: u64_field(v, "inlineScriptCount") as usize,
            bootstrap_markers: string_array_field(v, "bootstrapMarkers"),
        }
    }

    /// The empty context.
    pub fn empty() -> (r: MelbetRuntimeContext)
        ensures
            r.is_empty_context(),
    {
        MelbetRuntimeContext {
            has_http_api: false,
            http_api_methods: Vec::new(),
            partner_id: 0,
            lang_id: 0,
            country_code: String::new(),
            has_global_settings: false,
            has_partner_config: false,
            inline_script_count: 0,
            bootstrap_markers: Vec::new(),
        }
    }

    /// The one-line summary.
    pub open spec fn summary(self) -> Seq<char> {
        "http_api="@ + bool_text(self.has_http_api) + ",methods="@ + joined_or_none(
            views(self.http_api_methods@),
        ) + ",partner_id="@ + dec(self.partner_id as nat) + ",lang_id="@ + dec(
            self.lang_id as nat,
        ) + ",country="@ + (if trim(self.country_code@).len() == 0 {
            "none"@
        } else {
            self.country_code@
        }) + ",globals="@ + bool_text(self.has_global_settings) + ",partner_cfg="@ + bool_text(
            self.has_partner_config,
        ) + ",inline_scripts="@ + dec(self.inline_script_count as nat) + ",bootstrap_markers="@
            + joined_or_none(views(self.bootstrap_markers@))
    }

    /// The one-line summary.
    pub fn as_summary(&self) -> (r: String)
        ensures
            r@ == self.summary(),
    {
        let mut out = String::new();
        push_str(&mut out, "http_api=");
        push_bool(&mut out, self.has_http_api);
        push_str(&mut out, ",methods=");
        push_joined_or_none(&mut out, self.http_api_methods.as_slice());
        push_str(&mut out, ",partner_id=");
        push_decimal(&mut out, self.partner_id);
        push_str(&mut out, ",lang_id=");
        push_decimal(&mut out, self.lang_id);
        push_str(&mut out, ",country=");
        if is_blank(self.country_code.as_str()) {
            push_str(&mut out, "none");
        } else {
            push_str(&mut out, self.country_code.as_str());
        }
        push_str(&mut out, ",globals=");
        push_bool(&mut out, self.has_global_settings);
        push_str(&mut out, ",partner_cfg=");
        push_bool(&mut out, self.has_partner_config);
        push_str(&mut out, ",inline_scripts=");
        push_decimal(&mut out, self.inline_script_count as u64);
        push_str(&mut out, ",bootstrap_markers=");
        push_joined_or_none(&mut out, self.bootstrap_markers.as_slice());
        out
    }

    /// Whether the page shipped any source the sportsbook bootstraps from.
    pub open spec fn has_bootstrap_source(self) -> bool {
        self.has_global_settings || self.has_partner_config || self.inline_script_count > 0
            || self.bootstrap_markers@.len() > 0
    }

    /// Whether the page shipped any source the sportsbook bootstraps from.
    pub fn has_bootstrap_source_markers(&self) -> (r: bool)
        ensures
            r == self.has_bootstrap_source(),
    {
        self.has_global_settings || self.has_partner_config || self.inline_script_count > 0
            || self.bootstrap_markers.len() > 0
    }

    /// Whether `m` is among the exposed API methods.
    pub open spec fn exposes(self, m: Seq<char>) -> bool {
        exists|i: int| 0 <= i < self.http_api_methods@.len() && #[trigger] self.http_api_methods@[i]@ == m
    }

    /// The API methods a live or a prematch feed needs.
    pub open spec fn required_methods(is_live: bool) -> (Seq<char>, Seq<char>) {
        if is_live {
            ("getTopLiveSports"@, "getTopLiveEvents"@)
        } else {
            ("getPrematchSports"@, "getTopEvents"@)
        }
    }

    /// What the HTTP API runtime still lacks, in this order: the runtime
    /// itself, the partner id, the language id, the country code, and each
    /// required method that is not exposed.
    pub open spec fn missing(self, is_live: bool) -> Seq<Seq<char>> {
        let (m1, m2) = Self::required_methods(is_live);
        listed_if(!self.has_http_api, "http_api_runtime"@) + listed_if(self.partner_id == 0, "partner_id"@)
            + listed_if(self.lang_id == 0, "lang_id"@) + listed_if(
            trim(self.country_code@).len() == 0,
            "country_code"@,
        ) + listed_if(!self.exposes(m1), m1) + listed_if(!self.exposes(m2), m2)
    }

    /// Whether `m` is among the exposed API methods.
    fn has_method(&self, m: &str) -> (r: bool)
        ensures
            r == self.exposes(m@),
    {
        let mut i: usize = 0;
        while i < self.http_api_methods.len()
            invariant
                i <= self.http_api_methods@.len(),
                forall|k: int| 0 <= k < i ==> #[trigger] self.http_api_methods@[k]@ != m@,
            decreases self.http_api_methods@.len() - i,
        {
            if str_eq(self.http_api_methods[i].as_str(), m) {
                return true;
            }
            i = i + 1;
        }
        false
    }

    /// What the HTTP API runtime still lacks for a live or a prematch feed.
    pub fn missing_http_api_requirements(&self, is_live: bool) -> (r: Vec<&'static str>)
        ensures
            static_views(r@) == self.missing(is_live),
    {
        let mut missing: Vec<&'static str> = Vec::new();
        let ghost (m1, m2) = Self::required_methods(is_live);
        if !self.has_http_api {
            missing.push("http_api_runtime");
        }
        assert(static_views(missing@) =~= listed_if(!self.has_http_api, "http_api_runtime"@));
        let ghost acc1 = static_views(missing@);
        if self.partner_id == 0 {
            missing.push("partner_id");
        }
        assert(static_views(missing@) =~= acc1 + listed_if(self.partner_id == 0, "partner_id"@));
        let ghost acc2 = static_views(missing@);
        if self.lang_id == 0 {
            missing.push("lang_id");
        }
        assert(static_views(missing@) =~= acc2 + listed_if(self.lang_id == 0, "lang_id"@));
        let ghost acc3 = static_views(missing@);
        if is_blank(self.country_code.as_str()) {
            missing.push("country_code");
        }
        assert(static_views(missing@) =~= acc3 + listed_if(
            trim(self.country_code@).len() == 0,
            "country_code"@,
        ));
        let ghost acc4 = static_views(missing@);
        let (a, b) = if is_live {
            ("getTopLiveSports", "getTopLiveEvents")
        } else {
            ("getPrematchSports", "getTopEvents")
        };
        assert(a@ == m1 && b@ == m2);
        if !self.has_method(a) {
            missing.push(a);
        }
        assert(static_views(missing@) =~= acc4 + listed_if(!self.exposes(m1), m1));
        let ghost acc5 = static_views(missing@);
        if !self.has_method(b) {
            missing.push(b);
        }
        assert(static_views(missing@) =~= acc5 + listed_if(!self.exposes(m2), m2));
        missing
    }

    /// The blocker that keeps the HTTP API path closed.
    pub open spec fn api_blocker(self, is_live: bool) -> Seq<char> {
        let missing = self.missing(is_live);
        if missing.len() == 0 {
            "http_api_context_unconfirmed"@
        } else if missing.len() == 1 && missing[0] == "http_api_runtime"@ {
            if self.has_bootstrap_source() {
                "no_http_api_runtime:additional_bootstrap_source_required"@
            } else {
                "no_http_api_runtime"@
            }
        } else {
            "missing_http_api_context:"@ + join_static(missing) + (if self.has_bootstrap_source() {
                ":additional_bootstrap_source_required"@
            } else {
                Seq::empty()
            })
        }
    }

    /// The blocker that keeps the HTTP API path closed.
    pub fn http_api_blocker(&self, is_live: bool) -> (r: String)
        ensures
            r@ == self.api_blocker(is_live),
    {
        let missing = self.missing_http_api_requirements(is_live);
        if missing.len() == 0 {
            return owned("http_api_context_unconfirmed");
        }
        if missing.len() == 1 && str_eq(missing[0], "http_api_runtime") {
            if self.has_bootstrap_source_markers() {
                return owned("no_http_api_runtime:additional_bootstrap_source_required");
            } else {
                return owned("no_http_api_runtime");
            }
        }
        let mut out = String::new();
        push_str(&mut out, "missing_http_api_context:");
        push_joined_static(&mut out, missing.as_slice());
        if self.has_bootstrap_source_markers() {
            push_str(&mut out, ":additional_bootstrap_source_required");
        }
        out
    }
}

/// The texts joined by `|`.
pub open spec fn join_static(parts: Seq<Seq<char>>) -> Seq<char> {
    join(parts, "|"@)
}

/// Appends the texts of `parts` joined by `|` to `out`.
pub fn push_joined_static(out: &mut String, parts: &[&'static str])
    ensures
        final(out)@ == old(out)@ + join_static(static_views(parts@)),
{
    let ghost start = out@;
    let mut i: usize = 0;
    while i < parts.len()
        invariant
            i <= parts@.len(),
            out@ == start + join(static_views(parts@.subrange(0, i as int)), "|"@),
        decreases parts@.len() - i,
    {
        let ghost before = static_views(parts@.subrange(0, i as int));
        let ghost after = static_views(parts@.subrange(0, i + 1));
        assert(after.drop_last() =~= before);
        assert(after.last() == parts@[i as int]@);
        if i > 0 {
            push_str(out, "|");
        }
        push_str(out, parts[i]);
        proof {
            if i == 0 {
                assert(after.len() == 1);
                assert(join(after, "|"@) == after[0]);
                assert(join(before, "|"@) =~= Seq::<char>::empty());
            }
        }
        i = i + 1;
        assert(out@ =~= start + join(static_views(parts@.subrange(0, i as int)), "|"@));
    }
    assert(parts@.subrange(0, parts@.len() as int) =~= parts@);
}

// ---------------------------------------------------------------------------
// Summaries of a probe's outcome
// ---------------------------------------------------------------------------

/// How the page's transport hints map onto endpoint families.
#[derive(Debug)]
pub struct MelbetTransportMappingSummary {
    pub families: Vec<String>,
    pub hosts: Vec<String>,
    pub protocols: Vec<String>,
    pub high_confidence_count: usize,
    pub websocket_like_count: usize,
    pub feed_like_count: usize,
}

impl MelbetTransportMappingSummary {
    /// The one-line summary.
    pub open spec fn summary(self) -> Seq<char> {
        "families="@ + joined_or_none(views(self.families@)) + ",hosts="@ + joined_or_none(
            views(self.hosts@),
        ) + ",protocols="@ + joined_or_none(views(self.protocols@)) + ",high_conf="@ + dec(
            self.high_confidence_count as nat,
        ) + ",ws_like="@ + dec(self.websocket_like_count as nat) + ",feed_like="@ + dec(
            self.feed_like_count as nat,
        )
    }

    /// The one-line summary.
    pub fn as_summary(&self) -> (r: String)
        ensures
            r@ == self.summary(),
    {
        let mut out = String::new();
        push_str(&mut out, "families=");
        push_joined_or_none(&mut out, self.families.as_slice());
        push_str(&mut out, ",hosts=");
        push_joined_or_none(&mut out, self.hosts.as_slice());
        push_str(&mut out, ",protocols=");
        push_joined_or_none(&mut out, self.protocols.as_slice());
        push_str(&mut out, ",high_conf=");
        push_decimal(&mut out, self.high_confidence_count as u64);
        push_str(&mut out, ",ws_like=");
        push_decimal(&mut out, self.websocket_like_count as u64);
        push_str(&mut out, ",feed_like=");
        push_decimal(&mut out, self.feed_like_count as u64);
        out
    }
}

/// The readiness verdict of a probe.
#[derive(Debug)]
pub struct MelbetReadinessOutput {
    pub state: String,
    pub reason: String,
    pub route_status: String,
    pub bootstrap_score: usize,
    pub blocker: String,
    pub confirmed_blocker: String,
    pub next_step: String,
    pub transport_mapping: MelbetTransportMappingSummary,
}

impl MelbetReadinessOutput {
    /// The one-line summary.
    pub open spec fn summary(self) -> Seq<char> {
        "state="@ + self.state@ + ",reason="@ + self.reason@ + ",route_status="@
            + self.route_status@ + ",bootstrap_score="@ + dec(self.bootstrap_score as nat)
            + ",blocker="@ + self.blocker@ + ",confirmed_blocker="@ + self.confirmed_blocker@
            + ",next_step="@ + self.next_step@ + ","@ + self.transport_mapping.summary()
    }

    /// The one-line summary.
    pub fn as_summary(&self) -> (r: String)
        ensures
            r@ == self.summary(),
    {
        let mut out = String::new();
        push_str(&mut out, "state=");
        push_str(&mut out, self.state.as_str());
        push_str(&mut out, ",reason=");
        push_str(&mut out, self.reason.as_str());
        push_str(&mut out, ",route_status=");
        push_str(&mut out, self.route_status.as_str());
        push_str(&mut out, ",bootstrap_score=");
        push_decimal(&mut out, self.bootstrap_score as u64);
        push_str(&mut out, ",blocker=");
        push_str(&mut out, self.blocker.as_str());
        push_str(&mut out, ",confirmed_blocker=");
        push_str(&mut out, self.confirmed_blocker.as_str());
        push_str(&mut out, ",next_step=");
        push_str(&mut out, self.next_step.as_str());
        push_str(&mut out, ",");
        let mapping = self.transport_mapping.as_summary();
        push_str(&mut out, mapping.as_str());
        out
    }
}

/// Where a probe's events came from, and what stopped the other sources.
#[derive(Debug)]
pub struct MelbetExtractionDiagnostics {
    pub source: String,
    pub dom_payload_len: usize,
    pub embedded_route: String,
    pub embedded_payload_len: usize,
    pub sportsbook_route: String,
    pub http_api_seed_count: usize,
    pub http_api_payload_len: usize,
    pub blocker: String,
}

impl MelbetExtractionDiagnostics {
    /// Diagnostics with nothing recorded.
    pub open spec fn is_blank_record(self) -> bool {
        &&& self.source@.len() == 0
        &&& self.dom_payload_len == 0
        &&& self.embedded_route@.len() == 0
        &&& self.embedded_payload_len == 0
        &&& self.sportsbook_route@.len() == 0
        &&& self.http_api_seed_count == 0
        &&& self.http_api_payload_len == 0
        &&& self.blocker@.len() == 0
    }

    /// Diagnostics with nothing recorded.
    pub fn new() -> (r: MelbetExtractionDiagnostics)
        ensures
            r.is_blank_record(),
    {
        MelbetExtractionDiagnostics {
            source: String::new(),
            dom_payload_len: 0,
            embedded_route: String::new(),
            embedded_payload_len: 0,
            sportsbook_route: String::new(),
            http_api_seed_count: 0,
            http_api_payload_len: 0,
            blocker: String::new(),
        }
    }

    /// The one-line summary.
    pub open spec fn summary(self) -> Seq<char> {
        "source="@ + or_text(self.source@, "none"@) + ",blocker="@ + or_text(
            self.blocker@,
            "unknown"@,
        ) + ",dom="@ + dec(self.dom_payload_len as nat) + ",embedded="@ + dec(
            self.embedded_payload_len as nat,
        ) + ",http_api="@ + dec(self.http_api_payload_len as nat) + ",seeds="@ + dec(
            self.http_api_seed_count as nat,
        )
    }

    /// The one-line summary.
    pub fn as_summary(&self) -> (r: String)
        ensures
            r@ == self.summary(),
    {
        let mut out = String::new();
        push_str(&mut out, "source=");
        push_or(&mut out, self.source.as_str(), "none");
        push_str(&mut out, ",blocker=");
        push_or(&mut out, self.blocker.as_str(), "unknown");
        push_str(&mut out, ",dom=");
        push_decimal(&mut out, self.dom_payload_len as u64);
        push_str(&mut out, ",embedded=");
        push_decimal(&mut out, self.embedded_payload_len as u64);
        push_str(&mut out, ",http_api=");
        push_decimal(&mut out, self.http_api_payload_len as u64);
        push_str(&mut out, ",seeds=");
        push_decimal(&mut out, self.http_api_seed_count as u64);
        out
    }
}

/// How many probed routes ended in each status.
#[derive(Clone, Copy, Debug, PartialEq, Eq, Structural)]
pub struct MelbetRouteMatrixCounts {
    pub ready: usize,
    pub bootstrap_only: usize,
    pub blocked: usize,
}

impl MelbetRouteMatrixCounts {
    /// `ready=..,bootstrap_only=..,blocked=..`.
    pub open spec fn summary(self) -> Seq<char> {
        "ready="@ + dec(self.ready as nat) + ",bootstrap_only="@ + dec(
            self.bootstrap_only as nat,
        ) + ",blocked="@ + dec(self.blocked as nat)
    }

    /// The one-line summary.
    pub fn as_summary(&self) -> (r: String)
        ensures
            r@ == self.summary(),
    {
        let mut out = String::new();
        push_str(&mut out, "ready=");
        push_decimal(&mut out, self.ready as u64);
        push_str(&mut out, ",bootstrap_only=");
        push_decimal(&mut out, self.bootstrap_only as u64);
        push_str(&mut out, ",blocked=");
        push_decimal(&mut out, self.blocked as u64);
        out
    }
}

} // verus!
