//! The rules that read a Melbet bootstrap snapshot: block pages, route
//! matching, bootstrap and sportsbook-shell markers.

use crate::json::{json_single_member_text, single_member_json_text};
use crate::sport::Sport;
use crate::json::JsonValue;
use crate::melbet_runtime::{
    is_loaded_state, loaded_state, listed_if, MelbetReadinessDiagnostics, MelbetResourceTimelineEntry,
    MelbetRouteStatus, MelbetRuntimeContext, MelbetRuntimeState, MelbetSurface,
};
use crate::url::{
    append_query_pair, parse_url, url_accepts, url_host, url_path, url_port, url_scheme,
    url_serialization, url_with_query_pair,
};
use crate::melbet_snapshot::{HeadlessProbe, MelbetBootstrapSnapshot};
use crate::text::{
    contains_any, has_infix, is_blank, list_lower_contains_any, lower_contains, push_str,
    some_lower_contains_any, static_views, str_contains, str_contains_any, str_eq, to_lowercase,
    trim, unicode_lower, views, has_prefix, owned, str_starts_with, string_of, trim_str, dec,
    push_decimal, clone_strings, is_digit, is_ws, is_whitespace, utf8_len, utf8_len_upto,
};
use std::sync::Arc;
use vstd::prelude::*;

verus! {

/// The Melbet parser: an HTTP client and the rules below.
pub struct MelbetParser {
    client: Arc<reqwest::Client>,
}

/// Texts whose presence marks a block or challenge page.
pub open spec fn block_needles() -> Seq<Seq<char>> {
    seq![
        "captcha"@,
        "cloudflare"@,
        "access denied"@,
        "forbidden"@,
        "verify you are human"@,
        "blocked"@,
        "robot"@,
        "ddos"@,
        "security check"@,
        "доступ ограничен"@,
        "доступ запрещен"@,
        "проверка безопасности"@,
        "подтвердите, что вы не робот"@,
        "browser check"@,
        "cf-challenge"@,
    ]
}

/// The lowercase text a block page is recognised in: the final URL, path,
/// title, body sample, user agent and viewport, separated by spaces.
pub open spec fn block_haystack(s: MelbetBootstrapSnapshot) -> Seq<char> {
    unicode_lower(
        s.final_url@ + " "@ + s.path@ + " "@ + s.title@ + " "@ + s.body_text_sample@ + " "@
            + s.user_agent@ + " "@ + s.meta_viewport@,
    )
}

/// The snapshot shows a block page.
pub open spec fn is_block_page(s: MelbetBootstrapSnapshot) -> bool {
    contains_any(block_haystack(s), block_needles())
}

/// The token a route's URL carries for live or line.
pub open spec fn route_token(is_live: bool) -> Seq<char> {
    if is_live {
        "live"@
    } else {
        "line"@
    }
}

/// The token a surface's URLs carry.
pub open spec fn surface_token(s: MelbetSurface) -> Seq<char> {
    match s {
        MelbetSurface::Desktop => "melbet.ru"@,
        MelbetSurface::Mobile => "/m/"@,
        MelbetSurface::WebView => "m.melbet.com"@,
    }
}

/// An iframe source that embeds the sportsbook home.
pub open spec fn is_sportsbook_frame(src: Seq<char>) -> bool {
    has_infix(unicode_lower(src), "sport.melbet.ru"@) && has_infix(
        unicode_lower(src),
        "sportsbook/home"@,
    )
}

/// Some iframe source embeds the sportsbook home.
pub open spec fn has_sportsbook_frame(s: MelbetBootstrapSnapshot) -> bool {
    exists|i: int|
        0 <= i < s.iframe_sources@.len() && is_sportsbook_frame(#[trigger] s.iframe_sources@[i]@)
}

/// The first iframe source of `list` that embeds the sportsbook home.
pub open spec fn first_sportsbook_frame(list: Seq<Seq<char>>) -> Option<Seq<char>>
    decreases list.len(),
{
    if list.len() == 0 {
        None
    } else if is_sportsbook_frame(list[0]) {
        Some(list[0])
    } else {
        first_sportsbook_frame(list.drop_first())
    }
}

/// The lowercase path is the sportsbook page.
pub open spec fn is_sport_path(path: Seq<char>) -> bool {
    path == "/ru/sport"@ || path == "/ru/sport/"@
}

/// The snapshot was taken on the route the probe opened.
pub open spec fn matches_probe(p: HeadlessProbe, s: MelbetBootstrapSnapshot) -> bool {
    let url = unicode_lower(s.final_url@);
    let path = unicode_lower(s.path@);
    let route = route_token(p.is_live);
    let surface = surface_token(p.surface);
    ||| ((has_infix(url, route) || has_infix(path, route)) && (has_infix(url, surface)
        || has_infix(path, surface)))
    ||| (p.surface == MelbetSurface::Desktop && (has_infix(url, "/ru/sport"@) || is_sport_path(
        path,
    )) && has_sportsbook_frame(s))
}

/// The app marker a profile expects, or empty.
pub open spec fn expected_app_marker(p: HeadlessProbe) -> Seq<char> {
    match p.profile.app_marker {
        Some(m) => m@,
        None => Seq::empty(),
    }
}

/// The snapshot shows any sign that the page bootstrapped.
pub open spec fn shows_bootstrap_markers(p: HeadlessProbe, s: MelbetBootstrapSnapshot) -> bool {
    ||| trim(s.cookie@).len() > 0
    ||| s.local_storage_keys@.len() > 0
    ||| s.session_storage_keys@.len() > 0
    ||| s.root_node_ids@.len() > 0
    ||| s.iframe_sources@.len() > 0
    ||| s.script_sources@.len() > 2
    ||| s.has_service_worker
    ||| s.transport_hints@.len() > 0
    ||| s.resource_timeline@.len() > 0
    ||| s.readiness.has_visible_app_shell
    ||| s.readiness.fetch_like_count > 0
    ||| s.runtime_state.shows_bootstrap()
    ||| s.max_touch_points >= 1
    ||| s.inner_width >= 320
    ||| s.inner_height >= 480
    ||| trim(s.meta_viewport@).len() > 0
    ||| trim(s.profile_label@).len() > 0
    ||| s.app_marker@ == expected_app_marker(p)
    ||| contains_any(
        unicode_lower(s.title@ + " "@ + s.body_text_sample@),
        seq!["melbet"@, "live"@, "prematch"@],
    )
    ||| some_lower_contains_any(views(s.html_class_list@), seq!["app"@, "root"@])
    ||| some_lower_contains_any(views(s.body_class_list@), seq!["app"@, "root"@])
    ||| some_lower_contains_any(
        views(s.local_storage_keys@),
        seq!["app"@, "session"@, "route"@, "token"@, "device"@],
    )
    ||| some_lower_contains_any(
        views(s.session_storage_keys@),
        seq!["app"@, "session"@, "route"@, "token"@, "device"@],
    )
    ||| some_lower_contains_any(
        views(s.script_sources@),
        seq!["app"@, "bundle"@, "chunk"@, "integrationloader"@],
    )
    ||| some_lower_contains_any(
        views(s.iframe_sources@),
        seq!["sport.melbet.ru"@, "sportsbook/home"@],
    )
}

/// A desktop snapshot (not a page under the mobile `/m/` path) that loaded
/// and shows Melbet content.
pub open spec fn is_useful_desktop_bootstrap(s: MelbetBootstrapSnapshot) -> bool {
    let rt = s.runtime_state;
    let rd = s.readiness;
    let title = unicode_lower(s.title@ + " "@ + rt.title@);
    let body = unicode_lower(s.body_text_sample@ + " "@ + rt.body_text_sample@);
    &&& (is_loaded_state(rt.ready_state@) || is_loaded_state(rd.ready_state@))
    &&& (rt.router_shell_count > 0 || rt.route_link_count > 0 || rt.link_count > 0
        || rt.interactive_node_count > 0 || rt.body_child_count > 0 || rt.body_text_length > 0
        || rd.body_child_count > 0 || rd.body_text_length > 0 || rd.has_visible_app_shell
        || rd.fetch_like_count > 0)
    &&& (has_infix(title, "melbet"@) || has_infix(title, "live"@) || has_infix(body, "melbet"@)
        || has_infix(body, "sport"@) || has_infix(body, "live"@)
        || rt.shows_sportsbook_shell())
    &&& !(has_infix(unicode_lower(s.final_url@), "/m/"@) || has_infix(unicode_lower(s.path@), "/m/"@))
}

/// The snapshot recorded nothing at all.
pub open spec fn is_empty_bootstrap(s: MelbetBootstrapSnapshot) -> bool {
    &&& trim(s.final_url@).len() == 0
    &&& trim(s.path@).len() == 0
    &&& trim(s.title@).len() == 0
    &&& trim(s.body_text_sample@).len() == 0
    &&& s.iframe_sources@.len() == 0
    &&& s.script_sources@.len() == 0
    &&& s.resource_timeline@.len() == 0
    &&& trim(s.cookie@).len() == 0
    &&& s.local_storage_keys@.len() == 0
    &&& s.session_storage_keys@.len() == 0
    &&& s.root_node_ids@.len() == 0
    &&& s.transport_hints@.len() == 0
    &&& !s.readiness.has_visible_app_shell
    &&& s.readiness.body_child_count == 0
    &&& s.readiness.body_text_length == 0
    &&& s.runtime_state.body_child_count == 0
    &&& s.runtime_state.body_text_length == 0
    &&& s.runtime_state.interactive_node_count == 0
    &&& !s.runtime_state.shows_bootstrap()
    &&& !s.runtime_context.has_bootstrap_source()
}

/// A runtime-context bootstrap marker that points at the sportsbook shell.
pub open spec fn context_shell_marker(m: Seq<char>) -> bool {
    let l = unicode_lower(m);
    ||| (has_infix(l, "route_family:"@) && has_infix(l, "sportsbook"@))
    ||| has_infix(l, "sportsbook_route"@)
    ||| has_infix(l, "inline:initialroute"@)
    ||| has_infix(l, "shell:ww-"@)
    ||| has_infix(l, "shell:#root"@)
    ||| has_infix(l, "shell:#app"@)
    ||| has_infix(l, "shell:route_links:"@)
}

/// The snapshot shows the sportsbook shell.
pub open spec fn shows_sportsbook_shell(s: MelbetBootstrapSnapshot) -> bool {
    let url = unicode_lower(s.final_url@);
    let path = unicode_lower(s.path@);
    let title = unicode_lower(s.title@);
    let body = unicode_lower(s.body_text_sample@);
    let rtitle = unicode_lower(s.runtime_state.title@);
    let rbody = unicode_lower(s.runtime_state.body_text_sample@);
    ||| has_infix(url, "/ru/sport"@)
    ||| is_sport_path(path)
    ||| s.runtime_state.shows_sportsbook_shell()
    ||| has_infix(title, "melbet.ru"@)
    ||| has_infix(rtitle, "melbet"@)
    ||| has_infix(body, "sport"@)
    ||| has_infix(body, "melbet"@)
    ||| has_infix(rbody, "sport"@)
    ||| has_infix(rbody, "melbet"@)
    ||| some_lower_contains_any(
        views(s.script_sources@),
        seq!["main.js"@, "bundle.js"@, "bootstrapper"@, "sport"@],
    )
    ||| exists|i: int|
        0 <= i < s.runtime_context.bootstrap_markers@.len() && context_shell_marker(
            #[trigger] s.runtime_context.bootstrap_markers@[i]@,
        )
}

/// `a + " " + b`.
fn spaced(a: &str, b: &str) -> (r: String)
    ensures
        r@ == a@ + " "@ + b@,
{
    let mut out = String::new();
    push_str(&mut out, a);
    push_str(&mut out, " ");
    push_str(&mut out, b);
    out
}

/// Whether some iframe source embeds the sportsbook home.
fn any_sportsbook_frame(s: &MelbetBootstrapSnapshot) -> (r: bool)
    ensures
        r == has_sportsbook_frame(*s),
{
    let mut i: usize = 0;
    while i < s.iframe_sources.len()
        invariant
            i <= s.iframe_sources@.len(),
            forall|k: int| 0 <= k < i ==> !is_sportsbook_frame(#[trigger] s.iframe_sources@[k]@),
        decreases s.iframe_sources@.len() - i,
    {
        let src = s.iframe_sources[i].as_str();
        if lower_contains(src, "sport.melbet.ru") && lower_contains(src, "sportsbook/home") {
            return true;
        }
        i = i + 1;
    }
    false
}

/// Whether some runtime-context marker points at the sportsbook shell.
fn any_context_shell_marker(markers: &Vec<String>) -> (r: bool)
    ensures
        r == exists|i: int| 0 <= i < markers@.len() && context_shell_marker(#[trigger] markers@[i]@),
{
    let mut i: usize = 0;
    while i < markers.len()
        invariant
            i <= markers@.len(),
            forall|k: int| 0 <= k < i ==> !context_shell_marker(#[trigger] markers@[k]@),
        decreases markers@.len() - i,
    {
        let l = to_lowercase(markers[i].as_str());
        let t = l.as_str();
        let hit = (str_contains(t, "route_family:") && str_contains(t, "sportsbook"))
            || str_contains(t, "sportsbook_route") || str_contains(t, "inline:initialroute")
            || str_contains(t, "shell:ww-") || str_contains(t, "shell:#root")
            || str_contains(t, "shell:#app") || str_contains(t, "shell:route_links:");
        if hit {
            return true;
        }
        i = i + 1;
    }
    false
}

/// Whether the lowercase path is the sportsbook page.
fn sport_path(path: &str) -> (r: bool)
    ensures
        r == is_sport_path(path@),
{
    str_eq(path, "/ru/sport") || str_eq(path, "/ru/sport/")
}

impl MelbetParser {
    /// The client the parser fetches with.
    pub closed spec fn client_of(&self) -> Arc<reqwest::Client> {
        self.client
    }

    /// A parser that fetches with `client`.
    pub fn new(client: Arc<reqwest::Client>) -> (r: MelbetParser)
        ensures
            r.client_of() == client,
    {
        MelbetParser { client }
    }

    /// Whether the snapshot shows a block or challenge page.
    pub fn looks_like_block_page(snapshot: &MelbetBootstrapSnapshot) -> (r: bool)
        ensures
            r == is_block_page(*snapshot),
    {
        let mut h = String::new();
        push_str(&mut h, snapshot.final_url.as_str());
        push_str(&mut h, " ");
        push_str(&mut h, snapshot.path.as_str());
        push_str(&mut h, " ");
        push_str(&mut h, snapshot.title.as_str());
        push_str(&mut h, " ");
        push_str(&mut h, snapshot.body_text_sample.as_str());
        push_str(&mut h, " ");
        push_str(&mut h, snapshot.user_agent.as_str());
        push_str(&mut h, " ");
        push_str(&mut h, snapshot.meta_viewport.as_str());
        let lower = to_lowercase(h.as_str());
        let needles: Vec<&'static str> = vec![
            "captcha",
            "cloudflare",
            "access denied",
            "forbidden",
            "verify you are human",
            "blocked",
            "robot",
            "ddos",
            "security check",
            "доступ ограничен",
            "доступ запрещен",
            "проверка безопасности",
            "подтвердите, что вы не робот",
            "browser check",
            "cf-challenge",
        ];
        assert(static_views(needles@) =~= block_needles());
        str_contains_any(lower.as_str(), needles.as_slice())
    }

    /// Whether the snapshot was taken on the route the probe opened.
    pub fn route_matches_probe(probe: &HeadlessProbe, snapshot: &MelbetBootstrapSnapshot) -> (r:
        bool)
        ensures
            r == matches_probe(*probe, *snapshot),
    {
        let url = to_lowercase(snapshot.final_url.as_str());
        let path = to_lowercase(snapshot.path.as_str());
        let route = if probe.is_live {
            "live"
        } else {
            "line"
        };
        let surface = match probe.surface {
            MelbetSurface::Desktop => "melbet.ru",
            MelbetSurface::Mobile => "/m/",
            MelbetSurface::WebView => "m.melbet.com",
        };
        if (str_contains(url.as_str(), route) || str_contains(path.as_str(), route)) && (
        str_contains(url.as_str(), surface) || str_contains(path.as_str(), surface)) {
            return true;
        }
        probe.surface == MelbetSurface::Desktop && (str_contains(url.as_str(), "/ru/sport")
            || sport_path(path.as_str())) && any_sportsbook_frame(snapshot)
    }

    /// Whether the snapshot shows any sign that the page bootstrapped.
    pub fn has_bootstrap_markers(probe: &HeadlessProbe, snapshot: &MelbetBootstrapSnapshot) -> (r:
        bool)
        ensures
            r == shows_bootstrap_markers(*probe, *snapshot),
    {
        let s = snapshot;
        let expected = match probe.profile.app_marker {
            Some(m) => m,
            None => "",
        };
        proof {
            reveal_strlit("");
            assert(expected@ == expected_app_marker(*probe));
        }
        if !is_blank(s.cookie.as_str()) || s.local_storage_keys.len() > 0
            || s.session_storage_keys.len() > 0 || s.root_node_ids.len() > 0
            || s.iframe_sources.len() > 0 || s.script_sources.len() > 2 || s.has_service_worker
            || s.transport_hints.len() > 0 || s.resource_timeline.len() > 0
            || s.readiness.has_visible_app_shell || s.readiness.fetch_like_count > 0
            || s.runtime_state.has_bootstrap_markers() || s.max_touch_points >= 1
            || s.inner_width >= 320 || s.inner_height >= 480 || !is_blank(
            s.meta_viewport.as_str(),
        ) || !is_blank(s.profile_label.as_str()) || str_eq(s.app_marker.as_str(), expected) {
            return true;
        }
        let text = spaced(s.title.as_str(), s.body_text_sample.as_str());
        let lower_text = to_lowercase(text.as_str());
        let text_needles: Vec<&'static str> = vec!["melbet", "live", "prematch"];
        assert(static_views(text_needles@) =~= seq!["melbet"@, "live"@, "prematch"@]);
        if str_contains_any(lower_text.as_str(), text_needles.as_slice()) {
            return true;
        }
        let class_needles: Vec<&'static str> = vec!["app", "root"];
        assert(static_views(class_needles@) =~= seq!["app"@, "root"@]);
        let key_needles: Vec<&'static str> = vec!["app", "session", "route", "token", "device"];
        assert(static_views(key_needles@) =~= seq![
            "app"@,
            "session"@,
            "route"@,
            "token"@,
            "device"@,
        ]);
        let script_needles: Vec<&'static str> = vec!["app", "bundle", "chunk", "integrationloader"];
        assert(static_views(script_needles@) =~= seq![
            "app"@,
            "bundle"@,
            "chunk"@,
            "integrationloader"@,
        ]);
        let frame_needles: Vec<&'static str> = vec!["sport.melbet.ru", "sportsbook/home"];
        assert(static_views(frame_needles@) =~= seq!["sport.melbet.ru"@, "sportsbook/home"@]);
        list_lower_contains_any(s.html_class_list.as_slice(), class_needles.as_slice())
            || list_lower_contains_any(s.body_class_list.as_slice(), class_needles.as_slice())
            || list_lower_contains_any(s.local_storage_keys.as_slice(), key_needles.as_slice())
            || list_lower_contains_any(s.session_storage_keys.as_slice(), key_needles.as_slice())
            || list_lower_contains_any(s.script_sources.as_slice(), script_needles.as_slice())
            || list_lower_contains_any(s.iframe_sources.as_slice(), frame_needles.as_slice())
    }

    /// Whether a desktop snapshot loaded and shows Melbet content (a page
    /// under the mobile `/m/` path is not a desktop one).
    pub fn has_useful_desktop_bootstrap(snapshot: &MelbetBootstrapSnapshot) -> (r: bool)
        ensures
            r == is_useful_desktop_bootstrap(*snapshot),
    {
        let rt = &snapshot.runtime_state;
        let rd = &snapshot.readiness;
        let title_text = spaced(snapshot.title.as_str(), rt.title.as_str());
        let title = to_lowercase(title_text.as_str());
        let body_text = spaced(snapshot.body_text_sample.as_str(), rt.body_text_sample.as_str());
        let body = to_lowercase(body_text.as_str());
        (loaded_state(rt.ready_state.as_str()) || loaded_state(rd.ready_state.as_str())) && (
        rt.router_shell_count > 0 || rt.route_link_count > 0 || rt.link_count > 0
            || rt.interactive_node_count > 0 || rt.body_child_count > 0 || rt.body_text_length > 0
            || rd.body_child_count > 0 || rd.body_text_length > 0 || rd.has_visible_app_shell
            || rd.fetch_like_count > 0) && (str_contains(title.as_str(), "melbet") || str_contains(
            title.as_str(),
            "live",
        ) || str_contains(body.as_str(), "melbet") || str_contains(body.as_str(), "sport")
            || str_contains(body.as_str(), "live") || rt.has_sportsbook_shell_markers()) && !(
        lower_contains(snapshot.final_url.as_str(), "/m/") || lower_contains(
            snapshot.path.as_str(),
            "/m/",
        ))
    }

    /// The first iframe source that embeds the sportsbook home, for a
    /// desktop probe.
    pub fn select_embedded_route(probe: &HeadlessProbe, snapshot: &MelbetBootstrapSnapshot) -> (r:
        Option<String>)
        ensures
            probe.surface != MelbetSurface::Desktop ==> r is None,
            probe.surface == MelbetSurface::Desktop ==> match r {
                Some(x) => first_sportsbook_frame(views(snapshot.iframe_sources@)) == Some(x@),
                None => first_sportsbook_frame(views(snapshot.iframe_sources@)) is None,
            },
    {
        if probe.surface != MelbetSurface::Desktop {
            return None;
        }
        let list = &snapshot.iframe_sources;
        let ghost all = views(list@);
        let mut i: usize = 0;
        assert(all.skip(0) =~= all);
        while i < list.len()
            invariant
                all == views(list@),
                list == &snapshot.iframe_sources,
                probe.surface == MelbetSurface::Desktop,
                i <= list@.len(),
                first_sportsbook_frame(all) == first_sportsbook_frame(all.skip(i as int)),
            decreases list@.len() - i,
        {
            let ghost rest = all.skip(i as int);
            assert(rest[0] == list@[i as int]@);
            let src = list[i].as_str();
            if lower_contains(src, "sport.melbet.ru") && lower_contains(src, "sportsbook/home") {
                assert(first_sportsbook_frame(rest) == Some(rest[0]));
                return Some(list[i].clone());
            }
            assert(rest.drop_first() =~= all.skip(i + 1));
            i = i + 1;
        }
        None
    }

    /// Whether the snapshot recorded nothing at all.
    pub fn has_empty_runtime_bootstrap(snapshot: &MelbetBootstrapSnapshot) -> (r: bool)
        ensures
            r == is_empty_bootstrap(*snapshot),
    {
        let s = snapshot;
        is_blank(s.final_url.as_str()) && is_blank(s.path.as_str()) && is_blank(s.title.as_str())
            && is_blank(s.body_text_sample.as_str()) && s.iframe_sources.len() == 0
            && s.script_sources.len() == 0 && s.resource_timeline.len() == 0 && is_blank(
            s.cookie.as_str(),
        ) && s.local_storage_keys.len() == 0 && s.session_storage_keys.len() == 0
            && s.root_node_ids.len() == 0 && s.transport_hints.len() == 0
            && !s.readiness.has_visible_app_shell && s.readiness.body_child_count == 0
            && s.readiness.body_text_length == 0 && s.runtime_state.body_child_count == 0
            && s.runtime_state.body_text_length == 0 && s.runtime_state.interactive_node_count == 0
            && !s.runtime_state.has_bootstrap_markers()
            && !s.runtime_context.has_bootstrap_source_markers()
    }

    /// Whether the snapshot shows the sportsbook shell.
    pub fn has_sportsbook_shell_markers(snapshot: &MelbetBootstrapSnapshot) -> (r: bool)
        ensures
            r == shows_sportsbook_shell(*snapshot),
    {
        let s = snapshot;
        let url = to_lowercase(s.final_url.as_str());
        let path = to_lowercase(s.path.as_str());
        let title = to_lowercase(s.title.as_str());
        let body = to_lowercase(s.body_text_sample.as_str());
        let rtitle = to_lowercase(s.runtime_state.title.as_str());
        let rbody = to_lowercase(s.runtime_state.body_text_sample.as_str());
        if str_contains(url.as_str(), "/ru/sport") || sport_path(path.as_str())
            || s.runtime_state.has_sportsbook_shell_markers() || str_contains(
            title.as_str(),
            "melbet.ru",
        ) || str_contains(rtitle.as_str(), "melbet") || str_contains(body.as_str(), "sport")
            || str_contains(body.as_str(), "melbet") || str_contains(rbody.as_str(), "sport")
            || str_contains(rbody.as_str(), "melbet") {
            return true;
        }
        let script_needles: Vec<&'static str> = vec!["main.js", "bundle.js", "bootstrapper", "sport"];
        assert(static_views(script_needles@) =~= seq![
            "main.js"@,
            "bundle.js"@,
            "bootstrapper"@,
            "sport"@,
        ]);
        list_lower_contains_any(s.script_sources.as_slice(), script_needles.as_slice())
            || any_context_shell_marker(&s.runtime_context.bootstrap_markers)
    }
}

impl MelbetBootstrapSnapshot {
    /// Whether the page reported a runtime blocker or looks like a block
    /// page.
    pub fn looks_like_blocked_runtime(&self) -> (r: bool)
        ensures
            r == (self.runtime_state.blocker_kind@.len() > 0 || is_block_page(*self)),
    {
        self.runtime_state.has_runtime_blocker() || MelbetParser::looks_like_block_page(self)
    }
}

// ---------------------------------------------------------------------------
// Sportsbook route candidates
// ---------------------------------------------------------------------------

/// The sportsbook home the desktop site embeds.
pub open spec fn sportsbook_home_base() -> Seq<char> {
    "https://sport.melbet.ru/partner/SportsBook/Home"@
}

/// The sportsbook home with the root as its initial route.
pub open spec fn sportsbook_home_url() -> Seq<char> {
    "https://sport.melbet.ru/partner/SportsBook/Home?initialRoute=%7B%22path%22%3A%22%2F%22%7D"@
}

/// The sportsbook home opening on `path`: the JSON object `{"path": path}`
/// as the `initialRoute` query parameter; empty where the base does not
/// parse.
pub open spec fn initial_route_url(path: Seq<char>) -> Seq<char> {
    if url_accepts(sportsbook_home_base()) {
        url_with_query_pair(
            sportsbook_home_base(),
            "initialRoute"@,
            json_single_member_text("path"@, path),
        )
    } else {
        Seq::empty()
    }
}

/// The sportsbook routes a desktop probe falls back to.
pub open spec fn default_routes(is_live: bool) -> Seq<Seq<char>> {
    seq![
        initial_route_url(if is_live {
            "/live"@
        } else {
            "/line"@
        }),
        sportsbook_home_url(),
    ]
}

/// The sportsbook route `raw` names, if it names one: an absolute URL on
/// `sport.melbet.ru` whose path is the root or the sportsbook home, as the
/// URL's normalised text.
pub open spec fn route_candidate(raw: Seq<char>) -> Option<Seq<char>> {
    let t = trim(raw);
    if t.len() == 0 || has_prefix(t, "javascript:"@) || !url_accepts(t) {
        None
    } else {
        match url_host(t) {
            None => None,
            Some(h) => {
                let p = unicode_lower(url_path(t));
                if unicode_lower(h) != "sport.melbet.ru"@ {
                    None
                } else if p == "/"@ || has_infix(p, "/partner/sportsbook/home"@) || has_infix(
                    p,
                    "/sportsbook/home"@,
                ) {
                    Some(url_serialization(t))
                } else {
                    None
                }
            },
        }
    }
}

/// The route candidates among `raws`, in order.
pub open spec fn route_candidates_of(raws: Seq<Seq<char>>) -> Seq<Seq<char>>
    decreases raws.len(),
{
    if raws.len() == 0 {
        Seq::empty()
    } else {
        let rest = route_candidates_of(raws.drop_last());
        match route_candidate(raws.last()) {
            Some(c) => rest.push(c),
            None => rest,
        }
    }
}

/// `list` with `route` appended, unless `route` is blank or already listed.
pub open spec fn push_unique(list: Seq<Seq<char>>, route: Seq<char>) -> Seq<Seq<char>> {
    if trim(route).len() == 0 || list.contains(route) {
        list
    } else {
        list.push(route)
    }
}

/// `list` after appending each of `routes` in turn, skipping blanks and
/// repeats.
pub open spec fn push_all(list: Seq<Seq<char>>, routes: Seq<Seq<char>>) -> Seq<Seq<char>>
    decreases routes.len(),
{
    if routes.len() == 0 {
        list
    } else {
        push_unique(push_all(list, routes.drop_last()), routes.last())
    }
}

/// The page-level sources a route may be read from: iframe sources, the
/// final URL, the referrer and the runtime location.
pub open spec fn page_route_sources(s: MelbetBootstrapSnapshot) -> Seq<Seq<char>> {
    views(s.iframe_sources@) + seq![s.final_url@, s.referrer@, s.runtime_state.href@]
}

/// The resource-level sources a route may be read from: timeline entry names
/// and script sources.
pub open spec fn resource_route_sources(s: MelbetBootstrapSnapshot) -> Seq<Seq<char>> {
    s.resource_timeline@.map_values(|e: MelbetResourceTimelineEntry| e.name@) + views(
        s.script_sources@,
    )
}

/// The sportsbook routes worth opening for a desktop probe, in order of
/// preference, without blanks or repeats: the embedded sportsbook frame,
/// routes named by the page, routes named by its resources, then the
/// defaults. Other surfaces get none.
pub open spec fn route_candidates(p: HeadlessProbe, s: MelbetBootstrapSnapshot) -> Seq<Seq<char>> {
    if p.surface != MelbetSurface::Desktop {
        Seq::empty()
    } else {
        let embedded = match first_sportsbook_frame(views(s.iframe_sources@)) {
            Some(e) => seq![e],
            None => Seq::empty(),
        };
        push_all(
            push_all(
                push_all(push_all(Seq::empty(), embedded), route_candidates_of(page_route_sources(s))),
                route_candidates_of(resource_route_sources(s)),
            ),
            default_routes(p.is_live),
        )
    }
}

/// Some source of the snapshot names a sportsbook route.
pub open spec fn has_explicit_route(s: MelbetBootstrapSnapshot) -> bool {
    route_candidates_of(page_route_sources(s)).len() > 0 || route_candidates_of(
        resource_route_sources(s),
    ).len() > 0
}

/// How far a probe got: blocked where the page is a block page, ready where
/// it yielded events, bootstrap-only where it bootstrapped on the right route
/// (for a desktop probe: shows the sportsbook shell, names a sportsbook route
/// or loaded Melbet content), blocked otherwise.
pub open spec fn route_status(p: HeadlessProbe, s: MelbetBootstrapSnapshot, payload_len: usize) -> MelbetRouteStatus {
    if is_block_page(s) {
        MelbetRouteStatus::Blocked
    } else if payload_len > 0 {
        MelbetRouteStatus::Ready
    } else if shows_bootstrap_markers(p, s) && ((p.surface != MelbetSurface::Desktop
        && matches_probe(p, s)) || (p.surface == MelbetSurface::Desktop && (shows_sportsbook_shell(
        s,
    ) || has_explicit_route(s) || is_useful_desktop_bootstrap(s)))) {
        MelbetRouteStatus::BootstrapOnly
    } else {
        MelbetRouteStatus::Blocked
    }
}

/// Whether `list` holds a string with the text of `route`.
fn listed(list: &Vec<String>, route: &str) -> (r: bool)
    ensures
        r == views(list@).contains(route@),
{
    let mut i: usize = 0;
    while i < list.len()
        invariant
            i <= list@.len(),
            forall|k: int| 0 <= k < i ==> #[trigger] views(list@)[k] != route@,
        decreases list@.len() - i,
    {
        if str_eq(list[i].as_str(), route) {
            assert(views(list@)[i as int] == route@);
            return true;
        }
        i = i + 1;
    }
    false
}

/// Appends each route candidate among `raws` in turn.
fn push_candidates(out: &mut Vec<String>, raws: &[String])
    ensures
        views(final(out)@) == push_all(views(old(out)@), route_candidates_of(views(raws@))),
{
    let ghost start = views(out@);
    let mut i: usize = 0;
    while i < raws.len()
        invariant
            i <= raws@.len(),
            views(out@) == push_all(start, route_candidates_of(views(raws@.take(i as int)))),
        decreases raws@.len() - i,
    {
        let ghost prefix = views(raws@.take(i as int));
        let ghost next = views(raws@.take(i + 1));
        assert(next =~= prefix.push(raws@[i as int]@));
        assert(next.drop_last() =~= prefix);
        assert(next.last() == raws@[i as int]@);
        let ghost found = route_candidates_of(prefix);
        match MelbetParser::as_sportsbook_route_candidate(raws[i].as_str()) {
            Some(c) => {
                let ghost cv = c@;
                assert(route_candidates_of(next) == found.push(cv));
                assert(found.push(cv).drop_last() =~= found);
                MelbetParser::push_unique_route_candidate(out, c);
            },
            None => {
                assert(route_candidates_of(next) == found);
            },
        }
        i = i + 1;
    }
    assert(raws@.take(raws@.len() as int) =~= raws@);
}

/// The page-level route sources of the snapshot.
fn collect_page_sources(s: &MelbetBootstrapSnapshot) -> (r: Vec<String>)
    ensures
        views(r@) == page_route_sources(*s),
{
    let mut r: Vec<String> = Vec::new();
    let mut i: usize = 0;
    while i < s.iframe_sources.len()
        invariant
            i <= s.iframe_sources@.len(),
            views(r@) == views(s.iframe_sources@.take(i as int)),
        decreases s.iframe_sources@.len() - i,
    {
        let ghost prev = r@;
        r.push(s.iframe_sources[i].clone());
        assert(s.iframe_sources@.take(i + 1) =~= s.iframe_sources@.take(i as int).push(
            s.iframe_sources@[i as int],
        ));
        assert(views(r@) =~= views(prev).push(s.iframe_sources@[i as int]@));
        i = i + 1;
        assert(views(r@) =~= views(s.iframe_sources@.take(i as int)));
    }
    assert(s.iframe_sources@.take(s.iframe_sources@.len() as int) =~= s.iframe_sources@);
    r.push(s.final_url.clone());
    r.push(s.referrer.clone());
    r.push(s.runtime_state.href.clone());
    assert(views(r@) =~= page_route_sources(*s));
    r
}

/// The resource-level route sources of the snapshot.
fn collect_resource_sources(s: &MelbetBootstrapSnapshot) -> (r: Vec<String>)
    ensures
        views(r@) == resource_route_sources(*s),
{
    let ghost names = s.resource_timeline@.map_values(|e: MelbetResourceTimelineEntry| e.name@);
    let mut r: Vec<String> = Vec::new();
    let mut i: usize = 0;
    while i < s.resource_timeline.len()
        invariant
            i <= s.resource_timeline@.len(),
            names == s.resource_timeline@.map_values(|e: MelbetResourceTimelineEntry| e.name@),
            views(r@) == names.take(i as int),
        decreases s.resource_timeline@.len() - i,
    {
        let ghost prev = r@;
        r.push(s.resource_timeline[i].name.clone());
        assert(names.take(i + 1) =~= names.take(i as int).push(s.resource_timeline@[i as int].name@));
        assert(views(r@) =~= views(prev).push(s.resource_timeline@[i as int].name@));
        i = i + 1;
        assert(views(r@) =~= names.take(i as int));
    }
    assert(names.take(names.len() as int) =~= names);
    let ghost mid = views(r@);
    let mut j: usize = 0;
    while j < s.script_sources.len()
        invariant
            j <= s.script_sources@.len(),
            views(r@) == mid + views(s.script_sources@.take(j as int)),
        decreases s.script_sources@.len() - j,
    {
        let ghost prev = r@;
        r.push(s.script_sources[j].clone());
        assert(s.script_sources@.take(j + 1) =~= s.script_sources@.take(j as int).push(
            s.script_sources@[j as int],
        ));
        assert(views(r@) =~= views(prev).push(s.script_sources@[j as int]@));
        j = j + 1;
        assert(views(r@) =~= mid + views(s.script_sources@.take(j as int)));
    }
    assert(s.script_sources@.take(s.script_sources@.len() as int) =~= s.script_sources@);
    r
}

/// Whether some source among `raws` names a sportsbook route.
fn any_route_candidate(raws: &[String]) -> (r: bool)
    ensures
        r == (route_candidates_of(views(raws@)).len() > 0),
{
    let mut i: usize = 0;
    while i < raws.len()
        invariant
            i <= raws@.len(),
            route_candidates_of(views(raws@.take(i as int))).len() == 0,
        decreases raws@.len() - i,
    {
        let ghost prefix = views(raws@.take(i as int));
        assert(views(raws@.take(i + 1)) =~= prefix.push(raws@[i as int]@));
        assert(views(raws@.take(i + 1)).drop_last() =~= prefix);
        if MelbetParser::as_sportsbook_route_candidate(raws[i].as_str()).is_some() {
            proof {
                lemma_candidates_grow(views(raws@), i as int);
            }
            return true;
        }
        i = i + 1;
    }
    assert(raws@.take(raws@.len() as int) =~= raws@);
    false
}

/// Once a prefix of the sources names a route, so do all of them.
proof fn lemma_candidates_grow(raws: Seq<Seq<char>>, i: int)
    requires
        0 <= i < raws.len(),
        route_candidate(raws[i]) is Some,
    ensures
        route_candidates_of(raws).len() > 0,
    decreases raws.len(),
{
    if i < raws.len() - 1 {
        assert(raws.drop_last()[i] == raws[i]);
        lemma_candidates_grow(raws.drop_last(), i);
        lemma_candidates_monotone(raws);
    }
}

/// Adding a source never removes a candidate.
proof fn lemma_candidates_monotone(raws: Seq<Seq<char>>)
    requires
        raws.len() > 0,
    ensures
        route_candidates_of(raws).len() >= route_candidates_of(raws.drop_last()).len(),
{
}

impl MelbetParser {
    /// The sportsbook home opening on `path` as its initial route.
    pub fn sportsbook_initial_route_url(path: &str) -> (r: String)
        ensures
            r@ == initial_route_url(path@),
    {
        let route = single_member_json_text("path", path);
        match append_query_pair(
            "https://sport.melbet.ru/partner/SportsBook/Home",
            "initialRoute",
            route.as_str(),
        ) {
            Some(u) => u,
            None => String::new(),
        }
    }

    /// The sportsbook routes a desktop probe falls back to.
    pub fn default_sportsbook_route_candidates(probe: &HeadlessProbe) -> (r: Vec<String>)
        ensures
            views(r@) == default_routes(probe.is_live),
    {
        let path = if probe.is_live {
            "/live"
        } else {
            "/line"
        };
        let mut r: Vec<String> = Vec::new();
        r.push(Self::sportsbook_initial_route_url(path));
        r.push(owned("https://sport.melbet.ru/partner/SportsBook/Home?initialRoute=%7B%22path%22%3A%22%2F%22%7D"));
        assert(views(r@) =~= default_routes(probe.is_live));
        r
    }

    /// Appends `route` unless it is blank or already listed.
    pub fn push_unique_route_candidate(route_candidates: &mut Vec<String>, route: String)
        ensures
            views(final(route_candidates)@) == push_unique(views(old(route_candidates)@), route@),
    {
        if is_blank(route.as_str()) || listed(route_candidates, route.as_str()) {
            return;
        }
        let ghost before = views(route_candidates@);
        route_candidates.push(route);
        assert(views(route_candidates@) =~= before.push(route@));
    }

    /// The sportsbook route `raw` names, if it names one.
    pub fn as_sportsbook_route_candidate(raw: &str) -> (r: Option<String>)
        ensures
            match r {
                Some(c) => route_candidate(raw@) == Some(c@),
                None => route_candidate(raw@) is None,
            },
    {
        let trimmed_chars = trim_str(raw);
        let trimmed = string_of(trimmed_chars.as_slice());
        if trimmed.as_str().is_empty() || str_starts_with(trimmed.as_str(), "javascript:") {
            return None;
        }
        let url = match parse_url(trimmed.as_str()) {
            Some(u) => u,
            None => return None,
        };
        let host = match &url.host {
            Some(h) => to_lowercase(h.as_str()),
            None => return None,
        };
        let path = to_lowercase(url.path.as_str());
        if !str_eq(host.as_str(), "sport.melbet.ru") {
            return None;
        }
        if str_eq(path.as_str(), "/") || str_contains(path.as_str(), "/partner/sportsbook/home")
            || str_contains(path.as_str(), "/sportsbook/home") {
            return Some(url.serialization);
        }
        None
    }

    /// The sportsbook routes worth opening for the probe, in order of
    /// preference, without blanks or repeats.
    pub fn sportsbook_route_candidates(probe: &HeadlessProbe, snapshot: &MelbetBootstrapSnapshot) -> (r: Vec<String>)
        ensures
            views(r@) == route_candidates(*probe, *snapshot),
    {
        let mut out: Vec<String> = Vec::new();
        if probe.surface != MelbetSurface::Desktop {
            assert(views(out@) =~= Seq::<Seq<char>>::empty());
            return out;
        }
        let ghost empty = views(out@);
        assert(empty =~= Seq::<Seq<char>>::empty());
        match Self::select_embedded_route(probe, snapshot) {
            Some(route) => {
                let ghost e = route@;
                Self::push_unique_route_candidate(&mut out, route);
                assert(seq![e].drop_last() =~= Seq::<Seq<char>>::empty());
                assert(push_all(empty, Seq::<Seq<char>>::empty()) == empty);
                assert(push_all(empty, seq![e]) == push_unique(empty, e));
                assert(views(out@) == push_all(empty, seq![e]));
            },
            None => {},
        }
        let page = collect_page_sources(snapshot);
        push_candidates(&mut out, page.as_slice());
        let resources = collect_resource_sources(snapshot);
        push_candidates(&mut out, resources.as_slice());
        let defaults = Self::default_sportsbook_route_candidates(probe);
        let ghost before_defaults = views(out@);
        let ghost d = views(defaults@);
        assert(d.len() == 2);
        assert(defaults@.len() == 2);
        assert(d[0] == defaults@[0]@ && d[1] == defaults@[1]@);
        Self::push_unique_route_candidate(&mut out, defaults[0].clone());
        let ghost after_first = views(out@);
        Self::push_unique_route_candidate(&mut out, defaults[1].clone());
        proof {
            let d1 = d.drop_last();
            assert(d1.drop_last() =~= Seq::<Seq<char>>::empty());
            assert(d1.last() == d[0]);
            assert(push_all(before_defaults, d1.drop_last()) == before_defaults);
            assert(push_all(before_defaults, d1) == after_first);
            assert(views(out@) == push_all(before_defaults, d));
        }
        out
    }

    /// The first sportsbook route worth opening, if any.
    pub fn select_sportsbook_route(probe: &HeadlessProbe, snapshot: &MelbetBootstrapSnapshot) -> (r: Option<String>)
        ensures
            match r {
                Some(x) => route_candidates(*probe, *snapshot).len() > 0 && x@ == route_candidates(*probe, *snapshot)[0],
                None => route_candidates(*probe, *snapshot).len() == 0,
            },
    {
        let mut all = Self::sportsbook_route_candidates(probe, snapshot);
        if all.len() == 0 {
            return None;
        }
        assert(views(all@)[0] == all@[0]@);
        Some(all.remove(0))
    }

    /// Whether some source of the snapshot names a sportsbook route.
    pub fn has_explicit_sportsbook_route_candidate(snapshot: &MelbetBootstrapSnapshot) -> (r: bool)
        ensures
            r == has_explicit_route(*snapshot),
    {
        let page = collect_page_sources(snapshot);
        if any_route_candidate(page.as_slice()) {
            return true;
        }
        let resources = collect_resource_sources(snapshot);
        any_route_candidate(resources.as_slice())
    }

    /// How far a probe got.
    pub fn classify_route_status(probe: &HeadlessProbe, snapshot: &MelbetBootstrapSnapshot, payload_len: usize) -> (r: MelbetRouteStatus)
        ensures
            r == route_status(*probe, *snapshot, payload_len),
    {
        if Self::looks_like_block_page(snapshot) {
            return MelbetRouteStatus::Blocked;
        }
        if payload_len > 0 {
            return MelbetRouteStatus::Ready;
        }
        if Self::has_bootstrap_markers(probe, snapshot) && ((probe.surface != MelbetSurface::Desktop
            && Self::route_matches_probe(probe, snapshot)) || (probe.surface == MelbetSurface::Desktop
            && (Self::has_sportsbook_shell_markers(snapshot)
            || Self::has_explicit_sportsbook_route_candidate(snapshot)
            || Self::has_useful_desktop_bootstrap(snapshot)))) {
            return MelbetRouteStatus::BootstrapOnly;
        }
        MelbetRouteStatus::Blocked
    }
}

// ---------------------------------------------------------------------------
// Event URLs and sports
// ---------------------------------------------------------------------------

/// An event link made absolute: the source page for a blank link, absolute
/// links as they are (trimmed), and anything else under `https://melbet.ru`.
pub open spec fn absolute_event_url(raw: Seq<char>, source_url: Seq<char>) -> Seq<char> {
    let t = trim(raw);
    if t.len() == 0 {
        source_url
    } else if has_prefix(t, "http://"@) || has_prefix(t, "https://"@) {
        t
    } else if has_prefix(t, "/"@) {
        "https://melbet.ru"@ + t
    } else {
        "https://melbet.ru/"@ + t
    }
}

/// The sport a value and its source page name, first match wins: football,
/// tennis, basketball, hockey, volleyball, table tennis, esports, handball,
/// futsal, else other.
pub open spec fn sport_named(value: Seq<char>, source_url: Seq<char>) -> Sport {
    let c = unicode_lower(value + " "@ + source_url);
    if has_infix(c, "football"@) || has_infix(c, "soccer"@) || has_infix(c, "футбол"@) {
        Sport::Football
    } else if has_infix(c, "tennis"@) || has_infix(c, "теннис"@) {
        Sport::Tennis
    } else if has_infix(c, "basket"@) || has_infix(c, "баскет"@) {
        Sport::Basketball
    } else if has_infix(c, "hockey"@) || has_infix(c, "хоккей"@) {
        Sport::Hockey
    } else if has_infix(c, "volley"@) || has_infix(c, "волейбол"@) {
        Sport::Volleyball
    } else if has_infix(c, "table tennis"@) || has_infix(c, "настольный"@) {
        Sport::TableTennis
    } else if has_infix(c, "esport"@) || has_infix(c, "кибер"@) {
        Sport::Esports
    } else if has_infix(c, "handball"@) || has_infix(c, "гандбол"@) {
        Sport::Handball
    } else if has_infix(c, "futsal"@) || has_infix(c, "мини-футбол"@) {
        Sport::Futsal
    } else {
        Sport::Other
    }
}

impl MelbetParser {
    /// An event link made absolute.
    pub fn normalize_url(raw: &str, source_url: &str) -> (r: String)
        ensures
            r@ == absolute_event_url(raw@, source_url@),
    {
        let t = trim_str(raw);
        let trimmed = string_of(t.as_slice());
        if trimmed.as_str().is_empty() {
            return owned(source_url);
        }
        if str_starts_with(trimmed.as_str(), "http://") || str_starts_with(
            trimmed.as_str(),
            "https://",
        ) {
            return trimmed;
        }
        let mut out = String::new();
        if str_starts_with(trimmed.as_str(), "/") {
            push_str(&mut out, "https://melbet.ru");
        } else {
            push_str(&mut out, "https://melbet.ru/");
        }
        push_str(&mut out, trimmed.as_str());
        out
    }

    /// The sport a value and its source page name.
    pub fn infer_sport(value: &str, source_url: &str) -> (r: Sport)
        ensures
            r == sport_named(value@, source_url@),
    {
        let combined = spaced(value, source_url);
        let l = to_lowercase(combined.as_str());
        let c = l.as_str();
        if str_contains(c, "football") || str_contains(c, "soccer") || str_contains(c, "футбол") {
            Sport::Football
        } else if str_contains(c, "tennis") || str_contains(c, "теннис") {
            Sport::Tennis
        } else if str_contains(c, "basket") || str_contains(c, "баскет") {
            Sport::Basketball
        } else if str_contains(c, "hockey") || str_contains(c, "хоккей") {
            Sport::Hockey
        } else if str_contains(c, "volley") || str_contains(c, "волейбол") {
            Sport::Volleyball
        } else if str_contains(c, "table tennis") || str_contains(c, "настольный") {
            Sport::TableTennis
        } else if str_contains(c, "esport") || str_contains(c, "кибер") {
            Sport::Esports
        } else if str_contains(c, "handball") || str_contains(c, "гандбол") {
            Sport::Handball
        } else if str_contains(c, "futsal") || str_contains(c, "мини-футбол") {
            Sport::Futsal
        } else {
            Sport::Other
        }
    }
}

// ---------------------------------------------------------------------------
// Snapshots built without a full capture
// ---------------------------------------------------------------------------

/// `scheme://host[:port]` of the URL `raw`, or empty where it does not parse.
pub open spec fn url_origin(raw: Seq<char>) -> Seq<char> {
    if url_accepts(raw) {
        url_scheme(raw) + "://"@ + (match url_host(raw) {
            Some(h) => h,
            None => Seq::empty(),
        }) + (match url_port(raw) {
            Some(p) => ":"@ + dec(p as nat),
            None => Seq::empty(),
        })
    } else {
        Seq::empty()
    }
}

/// The path of the URL `raw`, or empty where it does not parse.
pub open spec fn url_path_or_empty(raw: Seq<char>) -> Seq<char> {
    if url_accepts(raw) {
        url_path(raw)
    } else {
        Seq::empty()
    }
}

/// The runtime state recorded nothing worth recovering.
pub open spec fn is_blank_runtime(rt: MelbetRuntimeState) -> bool {
    &&& trim(rt.href@).len() == 0
    &&& trim(rt.pathname@).len() == 0
    &&& trim(rt.title@).len() == 0
    &&& trim(rt.body_text_sample@).len() == 0
    &&& trim(rt.ready_state@).len() == 0
    &&& rt.body_child_count == 0
    &&& rt.body_text_length == 0
    &&& rt.interactive_node_count == 0
    &&& !rt.shows_bootstrap()
}

/// The bootstrap markers a recovered snapshot carries: the state's own,
/// then its location and route family.
pub open spec fn recovered_markers(rt: MelbetRuntimeState) -> Seq<Seq<char>> {
    views(rt.bootstrap_markers@) + listed_if(trim(rt.href@).len() > 0, "route:runtime:"@ + rt.href@)
        + listed_if(trim(rt.pathname@).len() > 0, "route:path:"@ + rt.pathname@) + listed_if(
        has_infix(rt.pathname@, "/live"@) || has_infix(rt.href@, "/live"@),
        "route_family:runtime:live"@,
    ) + listed_if(
        has_infix(rt.pathname@, "/line"@) || has_infix(rt.href@, "/line"@),
        "route_family:runtime:line"@,
    ) + (if rt.shows_sportsbook_shell() {
        seq!["route_family:runtime:sportsbook"@, "shell:runtime_state"@]
    } else {
        Seq::empty()
    })
}

/// Fields of a snapshot that were not captured.
pub open spec fn uncaptured_page(s: MelbetBootstrapSnapshot) -> bool {
    &&& s.referrer@.len() == 0
    &&& s.iframe_sources@.len() == 0
    &&& s.cookie@.len() == 0
    &&& s.local_storage_keys@.len() == 0
    &&& s.session_storage_keys@.len() == 0
    &&& s.html_class_list@.len() == 0
    &&& s.body_class_list@.len() == 0
    &&& s.root_node_ids@.len() == 0
    &&& s.meta_viewport@.len() == 0
    &&& s.script_sources@.len() == 0
    &&& s.max_touch_points == 0
    &&& !s.has_service_worker
    &&& s.resource_timeline@.len() == 0
    &&& s.transport_hints@.len() == 0
}

/// The snapshot recovered from a runtime state alone.
pub open spec fn recovered_from(s: MelbetBootstrapSnapshot, rt: MelbetRuntimeState) -> bool {
    let c = s.runtime_context;
    let d = s.readiness;
    &&& uncaptured_page(s)
    &&& s.final_url@ == rt.href@
    &&& s.origin@ == url_origin(rt.href@)
    &&& s.path@ == (if trim(rt.pathname@).len() == 0 {
        url_path_or_empty(rt.href@)
    } else {
        rt.pathname@
    })
    &&& s.title@ == rt.title@
    &&& s.body_text_sample@ == rt.body_text_sample@
    &&& s.user_agent@.len() == 0
    &&& s.profile_label@.len() == 0
    &&& s.app_marker@.len() == 0
    &&& s.inner_width == 0
    &&& s.inner_height == 0
    &&& c.has_http_api == recovered_markers(rt).contains("runtime:$httpApi"@)
    &&& c.http_api_methods@.len() == 0 && c.partner_id == 0 && c.lang_id == 0
    &&& c.country_code@.len() == 0 && !c.has_global_settings && !c.has_partner_config
    &&& c.inline_script_count == 0
    &&& views(c.bootstrap_markers@) == recovered_markers(rt)
    &&& d.ready_state@ == rt.ready_state@
    &&& d.body_text_length == rt.body_text_length
    &&& d.body_child_count == rt.body_child_count
    &&& d.resource_count == 0 && d.script_count == 0 && d.storage_key_count == 0
    &&& d.root_node_count == 0 && d.fetch_like_count == 0 && d.websocket_hint_count == 0
    &&& d.dom_content_loaded_ms == rt.dom_content_loaded_ms
    &&& d.load_event_ms == rt.load_ms
    &&& d.last_resource_end_ms == 0
    &&& d.has_visible_app_shell == (rt.shows_bootstrap() || rt.interactive_node_count > 0)
    &&& s.runtime_state.same_as(rt)
}

/// The snapshot standing in for a probe whose navigation failed: the probe's
/// URL and its parts, the profile's browser, and nothing captured.
pub open spec fn navigation_failure_snapshot(s: MelbetBootstrapSnapshot, p: HeadlessProbe) -> bool {
    &&& uncaptured_page(s)
    &&& s.final_url@ == p.url@
    &&& s.origin@ == url_origin(p.url@)
    &&& s.path@ == url_path_or_empty(p.url@)
    &&& s.title@.len() == 0
    &&& s.body_text_sample@.len() == 0
    &&& s.user_agent@ == p.profile.user_agent@
    &&& s.profile_label@ == p.profile.label@
    &&& s.app_marker@ == expected_app_marker(p)
    &&& s.inner_width == p.profile.viewport_width
    &&& s.inner_height == p.profile.viewport_height
    &&& s.runtime_context.is_empty_context()
    &&& s.readiness.read_from(JsonValue::Null)
    &&& s.runtime_state.is_blank_state()
}

/// `scheme://host[:port]` of the URL `raw`, or empty where it does not parse.
fn origin_of(raw: &str) -> (r: String)
    ensures
        r@ == url_origin(raw@),
{
    let mut out = String::new();
    match parse_url(raw) {
        Some(u) => {
            push_str(&mut out, u.scheme.as_str());
            push_str(&mut out, "://");
            match &u.host {
                Some(h) => push_str(&mut out, h.as_str()),
                None => {},
            }
            match u.port {
                Some(p) => {
                    push_str(&mut out, ":");
                    push_decimal(&mut out, p as u64);
                },
                None => {},
            }
        },
        None => {},
    }
    out
}

/// The path of the URL `raw`, or empty where it does not parse.
fn path_of(raw: &str) -> (r: String)
    ensures
        r@ == url_path_or_empty(raw@),
{
    match parse_url(raw) {
        Some(u) => u.path,
        None => String::new(),
    }
}

/// A snapshot whose page-level captures are all empty.
fn blank_snapshot(
    final_url: String,
    origin: String,
    path: String,
    title: String,
    body_text_sample: String,
    user_agent: String,
    profile_label: String,
    app_marker: String,
    inner_width: u64,
    inner_height: u64,
    runtime_context: MelbetRuntimeContext,
    readiness: MelbetReadinessDiagnostics,
    runtime_state: MelbetRuntimeState,
) -> (r: MelbetBootstrapSnapshot)
    ensures
        uncaptured_page(r),
        r.final_url == final_url && r.origin == origin && r.path == path,
        r.title == title && r.body_text_sample == body_text_sample,
        r.user_agent == user_agent && r.profile_label == profile_label,
        r.app_marker == app_marker,
        r.inner_width == inner_width && r.inner_height == inner_height,
        r.runtime_context == runtime_context,
        r.readiness == readiness,
        r.runtime_state == runtime_state,
{
    MelbetBootstrapSnapshot {
        final_url,
        origin,
        path,
        referrer: String::new(),
        iframe_sources: Vec::new(),
        title,
        body_text_sample,
        cookie: String::new(),
        local_storage_keys: Vec::new(),
        session_storage_keys: Vec::new(),
        html_class_list: Vec::new(),
        body_class_list: Vec::new(),
        root_node_ids: Vec::new(),
        meta_viewport: String::new(),
        script_sources: Vec::new(),
        user_agent,
        profile_label,
        app_marker,
        max_touch_points: 0,
        inner_width,
        inner_height,
        has_service_worker: false,
        resource_timeline: Vec::new(),
        transport_hints: Vec::new(),
        runtime_context,
        readiness,
        runtime_state,
    }
}

impl MelbetParser {
    /// The snapshot standing in for a probe whose navigation failed.
    pub fn synthetic_navigation_failure_snapshot(probe: &HeadlessProbe) -> (r: MelbetBootstrapSnapshot)
        ensures
            navigation_failure_snapshot(r, *probe),
    {
        let null = JsonValue::Null;
        let marker = match probe.profile.app_marker {
            Some(m) => owned(m),
            None => String::new(),
        };
        blank_snapshot(
            owned(probe.url),
            origin_of(probe.url),
            path_of(probe.url),
            String::new(),
            String::new(),
            owned(probe.profile.user_agent),
            owned(probe.profile.label),
            marker,
            probe.profile.viewport_width as u64,
            probe.profile.viewport_height as u64,
            MelbetRuntimeContext::empty(),
            MelbetReadinessDiagnostics::from_value(&null),
            MelbetRuntimeState::empty(),
        )
    }

    /// The markers a recovered snapshot carries.
    fn recovered_bootstrap_markers(rt: &MelbetRuntimeState) -> (r: Vec<String>)
        ensures
            views(r@) == recovered_markers(*rt),
    {
        let mut markers = clone_strings(&rt.bootstrap_markers);
        let ghost m0 = views(markers@);
        if !is_blank(rt.href.as_str()) {
            let mut m = String::new();
            push_str(&mut m, "route:runtime:");
            push_str(&mut m, rt.href.as_str());
            markers.push(m);
        }
        assert(views(markers@) =~= m0 + listed_if(trim(rt.href@).len() > 0, "route:runtime:"@ + rt.href@));
        let ghost m1 = views(markers@);
        if !is_blank(rt.pathname.as_str()) {
            let mut m = String::new();
            push_str(&mut m, "route:path:");
            push_str(&mut m, rt.pathname.as_str());
            markers.push(m);
        }
        assert(views(markers@) =~= m1 + listed_if(trim(rt.pathname@).len() > 0, "route:path:"@ + rt.pathname@));
        let ghost m2 = views(markers@);
        if str_contains(rt.pathname.as_str(), "/live") || str_contains(rt.href.as_str(), "/live") {
            markers.push(owned("route_family:runtime:live"));
        }
        assert(views(markers@) =~= m2 + listed_if(
            has_infix(rt.pathname@, "/live"@) || has_infix(rt.href@, "/live"@),
            "route_family:runtime:live"@,
        ));
        let ghost m3 = views(markers@);
        if str_contains(rt.pathname.as_str(), "/line") || str_contains(rt.href.as_str(), "/line") {
            markers.push(owned("route_family:runtime:line"));
        }
        assert(views(markers@) =~= m3 + listed_if(
            has_infix(rt.pathname@, "/line"@) || has_infix(rt.href@, "/line"@),
            "route_family:runtime:line"@,
        ));
        let ghost m4 = views(markers@);
        if rt.has_sportsbook_shell_markers() {
            markers.push(owned("route_family:runtime:sportsbook"));
            markers.push(owned("shell:runtime_state"));
            assert(views(markers@) =~= m4 + seq!["route_family:runtime:sportsbook"@, "shell:runtime_state"@]);
        } else {
            assert(views(markers@) =~= m4 + Seq::<Seq<char>>::empty());
        }
        markers
    }

    /// The snapshot recovered from a runtime state alone, where the state
    /// recorded anything worth recovering.
    pub fn recovered_bootstrap_snapshot_from_runtime_state(runtime_state: &MelbetRuntimeState) -> (r: Option<MelbetBootstrapSnapshot>)
        ensures
            r is None <==> is_blank_runtime(*runtime_state),
            r matches Some(s) ==> recovered_from(s, *runtime_state),
    {
        let rt = runtime_state;
        if is_blank(rt.href.as_str()) && is_blank(rt.pathname.as_str()) && is_blank(rt.title.as_str())
            && is_blank(rt.body_text_sample.as_str()) && is_blank(rt.ready_state.as_str())
            && rt.body_child_count == 0 && rt.body_text_length == 0
            && rt.interactive_node_count == 0 && !rt.has_bootstrap_markers() {
            return None;
        }
        let markers = Self::recovered_bootstrap_markers(rt);
        let mut context = MelbetRuntimeContext::empty();
        context.has_http_api = crate::text::strings_contain(&markers, "runtime:$httpApi");
        context.bootstrap_markers = markers;
        let null = JsonValue::Null;
        let mut readiness = MelbetReadinessDiagnostics::from_value(&null);
        readiness.ready_state = rt.ready_state.clone();
        readiness.body_text_length = rt.body_text_length;
        readiness.body_child_count = rt.body_child_count;
        readiness.dom_content_loaded_ms = rt.dom_content_loaded_ms;
        readiness.load_event_ms = rt.load_ms;
        readiness.has_visible_app_shell = rt.has_bootstrap_markers() || rt.interactive_node_count > 0;
        let path = if is_blank(rt.pathname.as_str()) {
            path_of(rt.href.as_str())
        } else {
            rt.pathname.clone()
        };
        Some(blank_snapshot(
            rt.href.clone(),
            origin_of(rt.href.as_str()),
            path,
            rt.title.clone(),
            rt.body_text_sample.clone(),
            String::new(),
            String::new(),
            String::new(),
            0,
            0,
            context,
            readiness,
            rt.duplicate(),
        ))
    }
}

// ---------------------------------------------------------------------------
// Competitor names
// ---------------------------------------------------------------------------

/// Names that are placeholders rather than competitors.
pub open spec fn melbet_placeholder_names() -> Seq<Seq<char>> {
    seq![
        "live"@,
        "prematch"@,
        "match"@,
        "event"@,
        "sport"@,
        "команда"@,
        "игрок"@,
        "player"@,
        "unknown"@,
        "неизвестно"@,
    ]
}

/// Only digits, whitespace, colons, dots and dashes.
pub open spec fn is_score_like(s: Seq<char>) -> bool {
    forall|k: int| 0 <= k < s.len() ==> is_digit(#[trigger] s[k]) || is_ws(s[k]) || s[k] == ':' || s[k] == '.' || s[k] == '-'
}

/// A competitor name: 2 to 80 bytes of UTF-8 once trimmed, not only digits
/// and score punctuation, and not a placeholder (in lowercase).
pub open spec fn melbet_valid_competitor(name: Seq<char>) -> bool {
    let t = trim(name);
    &&& 2 <= utf8_len(t) <= 80
    &&& !is_score_like(t)
    &&& !melbet_placeholder_names().contains(unicode_lower(t))
}

/// Whether `s` holds only digits, whitespace, colons, dots and dashes.
fn score_like(s: &[char]) -> (r: bool)
    ensures
        r == is_score_like(s@),
{
    let mut i: usize = 0;
    while i < s.len()
        invariant
            i <= s@.len(),
            forall|k: int| 0 <= k < i ==> is_digit(#[trigger] s@[k]) || is_ws(s@[k]) || s@[k] == ':' || s@[k] == '.' || s@[k] == '-',
        decreases s@.len() - i,
    {
        let c = s[i];
        if !((c >= '0' && c <= '9') || is_whitespace(c) || c == ':' || c == '.' || c == '-') {
            return false;
        }
        i = i + 1;
    }
    true
}

/// Whether `name` names a competitor.
pub fn is_valid_competitor(name: &str) -> (r: bool)
    ensures
        r == melbet_valid_competitor(name@),
{
    let t = trim_str(name);
    let bytes = utf8_len_upto(t.as_slice(), 80);
    if bytes < 2 || bytes > 80 {
        return false;
    }
    if score_like(t.as_slice()) {
        return false;
    }
    let trimmed = string_of(t.as_slice());
    let lower = to_lowercase(trimmed.as_str());
    let l = lower.as_str();
    let names: Vec<&'static str> = vec![
        "live",
        "prematch",
        "match",
        "event",
        "sport",
        "команда",
        "игрок",
        "player",
        "unknown",
        "неизвестно",
    ];
    assert(static_views(names@) =~= melbet_placeholder_names());
    let mut i: usize = 0;
    while i < names.len()
        invariant
            i <= names@.len(),
            static_views(names@) == melbet_placeholder_names(),
            l@ == unicode_lower(trim(name@)),
            forall|k: int| 0 <= k < i ==> #[trigger] melbet_placeholder_names()[k] != l@,
        decreases names@.len() - i,
    {
        assert(melbet_placeholder_names()[i as int] == names@[i as int]@);
        if str_eq(l, names[i]) {
            assert(melbet_placeholder_names()[i as int] == l@);
            assert(melbet_placeholder_names().contains(unicode_lower(trim(name@))));
            return false;
        }
        i = i + 1;
    }
    assert(!melbet_placeholder_names().contains(unicode_lower(trim(name@))));
    true
}

/// What one attempt on the sportsbook HTTP API produced: the snapshot it
/// bootstrapped from, the route it used, the seeds it found, its blocker and
/// the event items it collected.
pub struct MelbetSportsbookHttpApiAttempt {
    pub bootstrap: Option<MelbetBootstrapSnapshot>,
    pub route: String,
    pub seed_count: usize,
    pub blocker: String,
    pub payload: Vec<JsonValue>,
}

/// Whether the HTTP API probe should stop before it starts: the runtime is
/// blocked, or its context still lacks a bootstrap source.
pub open spec fn short_circuits(s: MelbetBootstrapSnapshot, is_live: bool) -> bool {
    (s.runtime_state.blocker_kind@.len() > 0 || is_block_page(s)) || has_infix(
        s.runtime_context.api_blocker(is_live),
        "additional_bootstrap_source_required"@,
    )
}

/// Whether the snapshot shows a bootstrapped sportsbook shell for `p`.
pub open spec fn bootstrapped_shell(p: HeadlessProbe, s: MelbetBootstrapSnapshot) -> bool {
    shows_bootstrap_markers(p, s) && (shows_sportsbook_shell(s) || has_explicit_route(s) || (
    p.surface == MelbetSurface::Desktop && is_useful_desktop_bootstrap(s)))
}

/// The route an attempt reports: the given one, else the first candidate,
/// else none (empty).
pub open spec fn attempt_route(
    p: HeadlessProbe,
    s: MelbetBootstrapSnapshot,
    route: Option<Seq<char>>,
) -> Seq<char> {
    match route {
        Some(r) => r,
        None => if route_candidates(p, s).len() > 0 {
            route_candidates(p, s)[0]
        } else {
            Seq::empty()
        },
    }
}

/// The attempt made when sportsbook navigation failed: a blocked runtime
/// keeps the snapshot with its blocker; a bootstrapped shell keeps it with
/// its HTTP API blocker; anything else reports the failed navigation with
/// no snapshot. No seeds or payload either way.
pub open spec fn is_failure_fallback(
    a: MelbetSportsbookHttpApiAttempt,
    p: HeadlessProbe,
    s: MelbetBootstrapSnapshot,
    route: Option<Seq<char>>,
) -> bool {
    &&& a.route@ == attempt_route(p, s, route)
    &&& a.seed_count == 0
    &&& a.payload@.len() == 0
    &&& if s.runtime_state.blocker_kind@.len() > 0 || is_block_page(s) {
        a.bootstrap == Some(s) && a.blocker@ == s.runtime_state.blocker()
    } else if bootstrapped_shell(p, s) {
        a.bootstrap == Some(s) && a.blocker@ == s.runtime_context.api_blocker(p.is_live)
    } else {
        a.bootstrap is None && a.blocker@ == "sportsbook_navigation_failed"@
    }
}

impl MelbetParser {
    /// Whether the HTTP API probe of `snapshot` should stop before it starts.
    pub fn should_short_circuit_sportsbook_http_api(snapshot: &MelbetBootstrapSnapshot, is_live: bool) -> (r: bool)
        ensures
            r == short_circuits(*snapshot, is_live),
    {
        if snapshot.looks_like_blocked_runtime() {
            return true;
        }
        let b = snapshot.runtime_context.http_api_blocker(is_live);
        str_contains(b.as_str(), "additional_bootstrap_source_required")
    }

    /// The attempt reported when sportsbook navigation failed; it keeps the
    /// snapshot where that snapshot explains the failure.
    pub fn sportsbook_navigation_failure_fallback(
        probe: &HeadlessProbe,
        snapshot: MelbetBootstrapSnapshot,
        route: Option<String>,
    ) -> (r: MelbetSportsbookHttpApiAttempt)
        ensures
            is_failure_fallback(
                r,
                *probe,
                snapshot,
                match route {
                    Some(x) => Some(x@),
                    None => None,
                },
            ),
    {
        let route = match route {
            Some(x) => x,
            None => match Self::select_sportsbook_route(probe, &snapshot) {
                Some(x) => x,
                None => String::new(),
            },
        };
        if snapshot.looks_like_blocked_runtime() {
            let blocker = snapshot.runtime_state.blocker_code();
            return MelbetSportsbookHttpApiAttempt {
                bootstrap: Some(snapshot),
                route,
                seed_count: 0,
                blocker,
                payload: Vec::new(),
            };
        }
        let shell = Self::has_bootstrap_markers(probe, &snapshot) && (
        Self::has_sportsbook_shell_markers(&snapshot)
            || Self::has_explicit_sportsbook_route_candidate(&snapshot) || (probe.surface
            == MelbetSurface::Desktop && Self::has_useful_desktop_bootstrap(&snapshot)));
        if shell {
            let blocker = snapshot.runtime_context.http_api_blocker(probe.is_live);
            return MelbetSportsbookHttpApiAttempt {
                bootstrap: Some(snapshot),
                route,
                seed_count: 0,
                blocker,
                payload: Vec::new(),
            };
        }
        MelbetSportsbookHttpApiAttempt {
            bootstrap: None,
            route,
            seed_count: 0,
            blocker: owned("sportsbook_navigation_failed"),
            payload: Vec::new(),
        }
    }

    /// The early attempt that stops the HTTP API probe where it should not
    /// start; nothing where it may go on.
    pub fn runtime_blocker_cutoff_attempt(
        probe: &HeadlessProbe,
        snapshot: MelbetBootstrapSnapshot,
        route: Option<String>,
    ) -> (r: Option<MelbetSportsbookHttpApiAttempt>)
        ensures
            r is Some <==> short_circuits(snapshot, probe.is_live),
            r matches Some(a) ==> is_failure_fallback(
                a,
                *probe,
                snapshot,
                match route {
                    Some(x) => Some(x@),
                    None => None,
                },
            ),
    {
        if Self::should_short_circuit_sportsbook_http_api(&snapshot, probe.is_live) {
            Some(Self::sportsbook_navigation_failure_fallback(probe, snapshot, route))
        } else {
            None
        }
    }
}

/// What `format!("{:?}", s)` prints for the text `s`: `s` quoted and
/// escaped as Rust's `Debug` for `str` does.
pub uninterp spec fn debug_quoted(s: Seq<char>) -> Seq<char>;

/// `format!("{:?}", s)`: the text quoted and escaped by `str`'s `Debug`; the
/// escaping is named `debug_quoted` without being stated.
#[verifier::external_body]
fn debug_text(s: &str) -> (r: String)
    ensures
        r@ == debug_quoted(s@),
{
    format!("{:?}", s)
}

impl MelbetParser {
    /// A script expression that awaits `call_expr` but rejects with an error
    /// naming `label` once the HTTP API budget of 5000 ms is spent.
    pub fn wrap_http_api_call_with_timeout(call_expr: &str, label: &str) -> (r: String)
        ensures
            r@ == "await Promise.race([Promise.resolve("@ + call_expr@
                + "), new Promise((_, reject) => setTimeout(() => reject(new Error("@
                + debug_quoted(label@) + " + ' timed out after ' + 5000 + 'ms')), 5000))])"@,
    {
        let mut out = owned("await Promise.race([Promise.resolve(");
        push_str(&mut out, call_expr);
        push_str(&mut out, "), new Promise((_, reject) => setTimeout(() => reject(new Error(");
        let quoted = debug_text(label);
        push_str(&mut out, quoted.as_str());
        push_str(&mut out, " + ' timed out after ' + 5000 + 'ms')), 5000))])");
        out
    }
}

} // verus!
