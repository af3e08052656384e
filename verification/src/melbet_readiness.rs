//! The verdicts a Melbet probe ends with: the bootstrap acquisition plan,
//! the readiness output, and the one-line summaries of a route matrix.

use crate::melbet_rules::{is_block_page, route_candidates, MelbetParser};
use crate::melbet_runtime::{
    MelbetNormalizedTransportHint, MelbetResourceTimelineEntry, route_status_name, surface_name, MelbetExtractionDiagnostics, MelbetReadinessOutput,
    MelbetRouteMatrixCounts, MelbetRouteStatus, MelbetSurface, MelbetTransportMappingSummary,
};
use crate::melbet_snapshot::{HeadlessProbe, MelbetBootstrapSnapshot};
use crate::melbet_transport::{count_family, mapping_of, merged_hints};
use crate::text::{
    clone_strings, dec, has_infix, is_blank, join, owned, push_decimal, push_or, push_str,
    str_contains, str_eq, trim, views, or_text, join_strings,
};
use crate::readiness::{
    check, check_of, check_views, DiagnosticSeverity, ParserReadiness, ParserReadinessStage,
    ReadinessView,
};
use crate::registry::BookmakerParser;
use vstd::prelude::*;

verus! {

/// What must be acquired by hand before the HTTP API path can run.
#[derive(Debug)]
pub struct MelbetBootstrapAcquisitionPlan {
    pub blocker: String,
    pub confirmed_blocker: String,
    pub next_step: String,
    pub primary_target: String,
    pub referer: String,
    pub route_candidates: Vec<String>,
    pub required_runtime_fields: Vec<String>,
    pub bootstrap_markers: Vec<String>,
}

/// The outcome of probing one route.
#[derive(Debug)]
pub struct MelbetRouteProbeResult {
    pub probe: HeadlessProbe,
    pub status: MelbetRouteStatus,
    pub payload_len: usize,
    pub bootstrap: MelbetBootstrapSnapshot,
    pub extraction: MelbetExtractionDiagnostics,
}

/// The runtime fields the HTTP API path needs, for a live or a prematch
/// feed.
pub open spec fn runtime_fields(is_live: bool) -> Seq<Seq<char>> {
    seq!["window.$httpApi"@, "partnerId"@, "langId"@, "countryCode"@] + if is_live {
        seq!["getTopLiveSports"@, "getTopLiveEvents"@]
    } else {
        seq!["getPrematchSports"@, "getTopEvents"@]
    }
}

/// The blocker is confirmed as needing another bootstrap source.
pub open spec fn confirmed_blocker(blocker: Seq<char>) -> Seq<char> {
    if has_infix(blocker, "additional_bootstrap_source_required"@) {
        "additional_bootstrap_source_required"@
    } else {
        "not_confirmed"@
    }
}

/// The next step for a confirmed blocker.
pub open spec fn next_step(blocker: Seq<char>) -> Seq<char> {
    if confirmed_blocker(blocker) == "additional_bootstrap_source_required"@ {
        "manual_bootstrap_acquisition"@
    } else {
        "no_manual_bootstrap_acquisition_required"@
    }
}

/// The routes a plan targets: the sportsbook route candidates, then the
/// final URL where it is not blank and not yet listed; the probe's URL where
/// that leaves none.
pub open spec fn plan_routes(p: HeadlessProbe, s: MelbetBootstrapSnapshot) -> Seq<Seq<char>> {
    let c = route_candidates(p, s);
    let c1 = if trim(s.final_url@).len() > 0 && !c.contains(s.final_url@) {
        c.push(s.final_url@)
    } else {
        c
    };
    if c1.len() == 0 {
        seq![p.url@]
    } else {
        c1
    }
}

/// The plan for the probe's snapshot and blocker.
pub open spec fn is_plan(plan: MelbetBootstrapAcquisitionPlan, p: HeadlessProbe, s: MelbetBootstrapSnapshot, blocker: Seq<char>) -> bool {
    &&& plan.blocker@ == blocker
    &&& plan.confirmed_blocker@ == confirmed_blocker(blocker)
    &&& plan.next_step@ == next_step(blocker)
    &&& views(plan.route_candidates@) == plan_routes(p, s)
    &&& plan.primary_target@ == plan_routes(p, s)[0]
    &&& plan.referer@ == (if trim(s.referrer@).len() == 0 {
        s.final_url@
    } else {
        s.referrer@
    })
    &&& views(plan.required_runtime_fields@) == runtime_fields(p.is_live)
    &&& views(plan.bootstrap_markers@) == views(s.runtime_context.bootstrap_markers@)
}

/// One for `true`, zero for `false`.
pub open spec fn point(b: bool) -> nat {
    if b {
        1
    } else {
        0
    }
}

/// Points for the page-level bootstrap signals: a cookie, storage keys,
/// root nodes, more than two scripts, a service worker.
pub open spec fn page_score(s: MelbetBootstrapSnapshot) -> nat {
    point(trim(s.cookie@).len() > 0) + point(s.local_storage_keys@.len() + s.session_storage_keys@.len() > 0)
        + point(s.root_node_ids@.len() > 0) + point(s.script_sources@.len() > 2) + point(s.has_service_worker)
}

/// Points for the runtime bootstrap signals: transport hints, timeline
/// entries, a visible app shell, fetch-like resources, a complete document.
pub open spec fn runtime_score(s: MelbetBootstrapSnapshot) -> nat {
    point(s.transport_hints@.len() > 0) + point(s.resource_timeline@.len() > 0)
        + point(s.readiness.has_visible_app_shell) + point(s.readiness.fetch_like_count > 0)
        + point(s.readiness.ready_state@ == "complete"@)
}

/// One point for each bootstrap signal the snapshot shows.
pub open spec fn bootstrap_score(s: MelbetBootstrapSnapshot) -> nat {
    page_score(s) + runtime_score(s)
}

/// One for `true`, zero for `false`.
fn point_of(b: bool) -> (r: usize)
    ensures
        r == point(b),
{
    if b {
        1
    } else {
        0
    }
}

/// The readiness state for a route status.
pub open spec fn readiness_state(p: HeadlessProbe, status: MelbetRouteStatus) -> Seq<char> {
    match status {
        MelbetRouteStatus::Ready => "dom_payload_ready"@,
        MelbetRouteStatus::BootstrapOnly => if p.surface == MelbetSurface::WebView {
            "shell_bootstrapped"@
        } else {
            "bootstrap_only"@
        },
        MelbetRouteStatus::Blocked => "blocked_or_unconfirmed"@,
    }
}

/// Why the route is in that state, given how many feed endpoints its hints
/// name.
pub open spec fn readiness_reason(s: MelbetBootstrapSnapshot, status: MelbetRouteStatus, payload_len: usize, feeds: nat) -> Seq<char> {
    match status {
        MelbetRouteStatus::Ready => if payload_len > 0 {
            "rendered_dom_payload_detected"@
        } else {
            "route_ready_without_payload"@
        },
        MelbetRouteStatus::BootstrapOnly => if feeds > 0 {
            "bootstrap_signals_with_feed_hints"@
        } else {
            "bootstrap_signals_without_dom_payload"@
        },
        MelbetRouteStatus::Blocked => if is_block_page(s) {
            "block_page_markers_detected"@
        } else {
            "insufficient_bootstrap_signals"@
        },
    }
}

/// The readiness output of a probe.
pub open spec fn is_readiness_output(
    out: MelbetReadinessOutput,
    p: HeadlessProbe,
    s: MelbetBootstrapSnapshot,
    status: MelbetRouteStatus,
    payload_len: usize,
    blocker: Seq<char>,
) -> bool {
    &&& exists|list| merged_hints(list, s.transport_hints@) && mapping_of(out.transport_mapping, list)
    &&& out.state@ == readiness_state(p, status)
    &&& out.reason@ == readiness_reason(s, status, payload_len, out.transport_mapping.feed_like_count as nat)
    &&& out.route_status@ == route_status_name(status)
    &&& out.bootstrap_score == bootstrap_score(s)
    &&& out.blocker@ == blocker
    &&& out.confirmed_blocker@ == confirmed_blocker(blocker)
    &&& out.next_step@ == next_step(blocker)
}

/// The feed-endpoint count of the snapshot's merged hints is `f`.
pub open spec fn feed_count_is(s: MelbetBootstrapSnapshot, f: nat) -> bool {
    exists|list| merged_hints(list, s.transport_hints@) && f == count_family(list, "feed_endpoint"@)
}

/// The one-line matrix entry of a probe result, given its feed count.
pub open spec fn matrix_entry(r: MelbetRouteProbeResult, feeds: nat) -> Seq<char> {
    r.probe.route_hint@ + ":"@ + r.probe.route_family@ + ":"@ + route_status_name(r.status) + ":"@
        + dec(r.payload_len as nat) + ":"@ + dec(r.bootstrap.transport_hints@.len()) + ":"@
        + r.extraction.source@ + ":"@ + r.extraction.blocker@ + ":"@ + readiness_state(r.probe, r.status)
        + ":"@ + readiness_reason(r.bootstrap, r.status, r.payload_len, feeds) + ":"@ + or_text(
        r.bootstrap.path@,
        "/"@,
    )
}

/// The matrix entries of `results`, given their feed counts.
pub open spec fn matrix_entries(results: Seq<MelbetRouteProbeResult>, feeds: Seq<nat>) -> Seq<Seq<char>> {
    Seq::new(results.len(), |i: int| matrix_entry(results[i], feeds[i]))
}

/// How many results ended in each status.
pub open spec fn status_counts(results: Seq<MelbetRouteProbeResult>) -> (nat, nat, nat)
    decreases results.len(),
{
    if results.len() == 0 {
        (0, 0, 0)
    } else {
        let c = status_counts(results.drop_last());
        match results.last().status {
            MelbetRouteStatus::Ready => (c.0 + 1, c.1, c.2),
            MelbetRouteStatus::BootstrapOnly => (c.0, c.1 + 1, c.2),
            MelbetRouteStatus::Blocked => (c.0, c.1, c.2 + 1),
        }
    }
}

/// Status counts never exceed the number of results.
proof fn lemma_status_counts_bound(results: Seq<MelbetRouteProbeResult>)
    ensures
        status_counts(results).0 + status_counts(results).1 + status_counts(results).2 == results.len(),
    decreases results.len(),
{
    if results.len() > 0 {
        lemma_status_counts_bound(results.drop_last());
    }
}

impl MelbetParser {
    /// The runtime fields the HTTP API path needs.
    pub fn required_runtime_fields(is_live: bool) -> (r: Vec<String>)
        ensures
            views(r@) == runtime_fields(is_live),
    {
        let mut fields: Vec<String> = Vec::new();
        fields.push(owned("window.$httpApi"));
        fields.push(owned("partnerId"));
        fields.push(owned("langId"));
        fields.push(owned("countryCode"));
        if is_live {
            fields.push(owned("getTopLiveSports"));
            fields.push(owned("getTopLiveEvents"));
        } else {
            fields.push(owned("getPrematchSports"));
            fields.push(owned("getTopEvents"));
        }
        assert(views(fields@) =~= runtime_fields(is_live));
        fields
    }

    /// The confirmed blocker and the next step for a blocker.
    fn confirm_blocker(blocker: &str) -> (r: (&'static str, &'static str))
        ensures
            r.0@ == confirmed_blocker(blocker@),
            r.1@ == next_step(blocker@),
    {
        if str_contains(blocker, "additional_bootstrap_source_required") {
            ("additional_bootstrap_source_required", "manual_bootstrap_acquisition")
        } else {
            proof {
                reveal_strlit("not_confirmed");
                reveal_strlit("additional_bootstrap_source_required");
                assert("not_confirmed"@ != "additional_bootstrap_source_required"@) by {
                    assert("not_confirmed"@[0] != "additional_bootstrap_source_required"@[0]);
                }
            }
            ("not_confirmed", "no_manual_bootstrap_acquisition_required")
        }
    }

    /// The plan for acquiring what the HTTP API path still lacks.
    pub fn build_bootstrap_acquisition_plan(probe: &HeadlessProbe, snapshot: &MelbetBootstrapSnapshot, blocker: &str) -> (r: MelbetBootstrapAcquisitionPlan)
        ensures
            is_plan(r, *probe, *snapshot, blocker@),
    {
        let (confirmed, next) = Self::confirm_blocker(blocker);
        let mut routes = Self::sportsbook_route_candidates(probe, snapshot);
        let ghost c = views(routes@);
        if !is_blank(snapshot.final_url.as_str()) {
            let mut present = false;
            let mut i: usize = 0;
            while i < routes.len()
                invariant
                    i <= routes@.len(),
                    c == views(routes@),
                    present == exists|k: int| 0 <= k < i && #[trigger] c[k] == snapshot.final_url@,
                decreases routes@.len() - i,
            {
                assert(c[i as int] == routes@[i as int]@);
                if str_eq(routes[i].as_str(), snapshot.final_url.as_str()) {
                    present = true;
                }
                i = i + 1;
            }
            if !present {
                routes.push(snapshot.final_url.clone());
                assert(views(routes@) =~= c.push(snapshot.final_url@));
            }
        }
        let ghost c1 = views(routes@);
        if routes.len() == 0 {
            routes.push(owned(probe.url));
            assert(views(routes@) =~= seq![probe.url@]);
        }
        assert(views(routes@) == plan_routes(*probe, *snapshot));
        assert(views(routes@)[0] == routes@[0]@);
        let primary = routes[0].clone();
        let referer = if is_blank(snapshot.referrer.as_str()) {
            snapshot.final_url.clone()
        } else {
            snapshot.referrer.clone()
        };
        MelbetBootstrapAcquisitionPlan {
            blocker: owned(blocker),
            confirmed_blocker: owned(confirmed),
            next_step: owned(next),
            primary_target: primary,
            referer,
            route_candidates: routes,
            required_runtime_fields: Self::required_runtime_fields(probe.is_live),
            bootstrap_markers: clone_strings(&snapshot.runtime_context.bootstrap_markers),
        }
    }

    /// One point for each bootstrap signal the snapshot shows.
    fn score_bootstrap(s: &MelbetBootstrapSnapshot) -> (r: usize)
        ensures
            r == bootstrap_score(*s),
    {
        Self::score_page(s) + Self::score_runtime(s)
    }

    /// Points for the page-level bootstrap signals.
    fn score_page(s: &MelbetBootstrapSnapshot) -> (r: usize)
        ensures
            r == page_score(*s),
            r <= 5,
    {
        point_of(!is_blank(s.cookie.as_str())) + point_of(
            s.local_storage_keys.len() > 0 || s.session_storage_keys.len() > 0,
        ) + point_of(s.root_node_ids.len() > 0) + point_of(s.script_sources.len() > 2) + point_of(
            s.has_service_worker,
        )
    }

    /// Points for the runtime bootstrap signals.
    fn score_runtime(s: &MelbetBootstrapSnapshot) -> (r: usize)
        ensures
            r == runtime_score(*s),
            r <= 5,
    {
        point_of(s.transport_hints.len() > 0) + point_of(s.resource_timeline.len() > 0) + point_of(
            s.readiness.has_visible_app_shell,
        ) + point_of(s.readiness.fetch_like_count > 0) + point_of(
            str_eq(s.readiness.ready_state.as_str(), "complete"),
        )
    }

    /// The readiness verdict of a probe.
    pub fn build_readiness_output(probe: &HeadlessProbe, snapshot: &MelbetBootstrapSnapshot, status: &MelbetRouteStatus, payload_len: usize, blocker: &str) -> (r: MelbetReadinessOutput)
        ensures
            is_readiness_output(r, *probe, *snapshot, *status, payload_len, blocker@),
    {
        let s = snapshot;
        let score = Self::score_bootstrap(snapshot);
        let mapping = Self::summarize_transport_mapping(snapshot);
        let ghost list = choose|list| merged_hints(list, s.transport_hints@) && mapping_of(mapping, list);
        let (confirmed, next) = Self::confirm_blocker(blocker);
        let (state, reason) = match status {
            MelbetRouteStatus::Ready => (
                "dom_payload_ready",
                if payload_len > 0 {
                    "rendered_dom_payload_detected"
                } else {
                    "route_ready_without_payload"
                },
            ),
            MelbetRouteStatus::BootstrapOnly => (
                if probe.surface == MelbetSurface::WebView {
                    "shell_bootstrapped"
                } else {
                    "bootstrap_only"
                },
                if mapping.feed_like_count > 0 {
                    "bootstrap_signals_with_feed_hints"
                } else {
                    "bootstrap_signals_without_dom_payload"
                },
            ),
            MelbetRouteStatus::Blocked => (
                "blocked_or_unconfirmed",
                if Self::looks_like_block_page(snapshot) {
                    "block_page_markers_detected"
                } else {
                    "insufficient_bootstrap_signals"
                },
            ),
        };
        let r = MelbetReadinessOutput {
            state: owned(state),
            reason: owned(reason),
            route_status: owned(status.as_str()),
            bootstrap_score: score,
            blocker: owned(blocker),
            confirmed_blocker: owned(confirmed),
            next_step: owned(next),
            transport_mapping: mapping,
        };
        assert(merged_hints(list, s.transport_hints@) && mapping_of(r.transport_mapping, list));
        assert(r.state@ == readiness_state(*probe, *status));
        assert(r.reason@ == readiness_reason(*s, *status, payload_len, r.transport_mapping.feed_like_count as nat));
        assert(r.route_status@ == route_status_name(*status));
        assert(r.bootstrap_score == bootstrap_score(*s));
        r
    }

    /// How many probed routes ended in each status.
    pub fn summarize_route_matrix_counts(results: &[MelbetRouteProbeResult]) -> (r: MelbetRouteMatrixCounts)
        ensures
            (r.ready as nat, r.bootstrap_only as nat, r.blocked as nat) == status_counts(results@),
    {
        let mut counts = MelbetRouteMatrixCounts { ready: 0, bootstrap_only: 0, blocked: 0 };
        let mut i: usize = 0;
        while i < results.len()
            invariant
                i <= results@.len(),
                (counts.ready as nat, counts.bootstrap_only as nat, counts.blocked as nat) == status_counts(results@.take(i as int)),
            decreases results@.len() - i,
        {
            let ghost pre = results@.take(i as int);
            let ghost post = results@.take(i + 1);
            assert(post.drop_last() =~= pre);
            assert(post.last() == results@[i as int]);
            proof {
                lemma_status_counts_bound(pre);
            }
            match results[i].status {
                MelbetRouteStatus::Ready => counts.ready = counts.ready + 1,
                MelbetRouteStatus::BootstrapOnly => counts.bootstrap_only = counts.bootstrap_only + 1,
                MelbetRouteStatus::Blocked => counts.blocked = counts.blocked + 1,
            }
            i = i + 1;
        }
        assert(results@.take(results@.len() as int) =~= results@);
        counts
    }
}

/// The probe ran the desktop route, got nothing, and its navigation failed.
pub open spec fn navigation_failed(r: MelbetRouteProbeResult) -> bool {
    r.payload_len == 0 && r.probe.surface == MelbetSurface::Desktop && r.extraction.blocker@
        == "navigation_failed"@
}

/// The probe ran the desktop route, got nothing, and its blocker is
/// confirmed as needing another bootstrap source.
pub open spec fn keeps_early_blocker(r: MelbetRouteProbeResult) -> bool {
    r.payload_len == 0 && r.probe.surface == MelbetSurface::Desktop && confirmed_blocker(
        r.extraction.blocker@,
    ) == "additional_bootstrap_source_required"@
}

/// The status a blocker summary reports.
pub open spec fn summary_status(r: MelbetRouteProbeResult) -> Seq<char> {
    if keeps_early_blocker(r) || navigation_failed(r) {
        "blocked"@
    } else {
        route_status_name(r.status)
    }
}

/// The state a blocker summary reports.
pub open spec fn summary_state(r: MelbetRouteProbeResult) -> Seq<char> {
    if navigation_failed(r) || keeps_early_blocker(r) {
        "blocked_or_unconfirmed"@
    } else {
        readiness_state(r.probe, r.status)
    }
}

/// The reason a blocker summary reports, given the feed count.
pub open spec fn summary_reason(r: MelbetRouteProbeResult, feeds: nat) -> Seq<char> {
    if navigation_failed(r) {
        "canonical_navigation_failed_before_bootstrap_capture"@
    } else if keeps_early_blocker(r) {
        "insufficient_bootstrap_signals"@
    } else {
        readiness_reason(r.bootstrap, r.status, r.payload_len, feeds)
    }
}

/// The blocker a blocker summary reports.
pub open spec fn summary_blocker(r: MelbetRouteProbeResult) -> Seq<char> {
    if navigation_failed(r) {
        "navigation_failed:retry_known_sportsbook_route"@
    } else {
        or_text(r.extraction.blocker@, "unknown"@)
    }
}

/// The confirmed blocker a blocker summary reports.
pub open spec fn summary_confirmed(r: MelbetRouteProbeResult) -> Seq<char> {
    if navigation_failed(r) {
        "desktop_live_navigation_failed"@
    } else {
        confirmed_blocker(r.extraction.blocker@)
    }
}

/// The next step a blocker summary reports.
pub open spec fn summary_next_step(r: MelbetRouteProbeResult) -> Seq<char> {
    if navigation_failed(r) {
        "retry_known_sportsbook_route"@
    } else {
        next_step(r.extraction.blocker@)
    }
}

/// The one-line runtime blocker summary of a probe result, given its feed
/// count.
pub open spec fn blocker_summary(r: MelbetRouteProbeResult, feeds: nat) -> Seq<char> {
    "route_hint="@ + r.probe.route_hint@ + ",route_family="@ + r.probe.route_family@ + ",status="@
        + summary_status(r) + ",source="@ + or_text(r.extraction.source@, "none"@) + ",blocker="@
        + summary_blocker(r) + ",confirmed_blocker="@ + summary_confirmed(r) + ",next_step="@
        + summary_next_step(r) + ",target_route="@ + plan_routes(r.probe, r.bootstrap)[0]
        + ",state="@ + summary_state(r) + ",reason="@ + summary_reason(r, feeds) + ",payload_len="@
        + dec(r.payload_len as nat) + ",final_url="@ + or_text(r.bootstrap.final_url@, r.probe.url@)
}

impl MelbetParser {
    /// The one-line runtime blocker summary of a probe result.
    pub fn summarize_runtime_blocker(result: &MelbetRouteProbeResult) -> (r: String)
        ensures
            exists|f: nat| feed_count_is(result.bootstrap, f) && r@ == blocker_summary(*result, f),
    {
        let readiness = Self::build_readiness_output(
            &result.probe,
            &result.bootstrap,
            &result.status,
            result.payload_len,
            result.extraction.blocker.as_str(),
        );
        let ghost f = readiness.transport_mapping.feed_like_count as nat;
        let ghost list = choose|list| merged_hints(list, result.bootstrap.transport_hints@) && mapping_of(readiness.transport_mapping, list);
        assert(feed_count_is(result.bootstrap, f));
        let plan = Self::build_bootstrap_acquisition_plan(
            &result.probe,
            &result.bootstrap,
            result.extraction.blocker.as_str(),
        );
        let blocker = result.extraction.blocker.as_str();
        let canonical = result.payload_len == 0 && result.probe.surface == MelbetSurface::Desktop
            && str_eq(blocker, "navigation_failed");
        let preserve = result.payload_len == 0 && result.probe.surface == MelbetSurface::Desktop
            && str_eq(plan.confirmed_blocker.as_str(), "additional_bootstrap_source_required");
        let mut out = String::new();
        push_str(&mut out, "route_hint=");
        push_str(&mut out, result.probe.route_hint);
        push_str(&mut out, ",route_family=");
        push_str(&mut out, result.probe.route_family);
        push_str(&mut out, ",status=");
        if preserve || canonical {
            push_str(&mut out, "blocked");
        } else {
            push_str(&mut out, result.status.as_str());
        }
        push_str(&mut out, ",source=");
        push_or(&mut out, result.extraction.source.as_str(), "none");
        push_str(&mut out, ",blocker=");
        if canonical {
            push_str(&mut out, "navigation_failed:retry_known_sportsbook_route");
        } else {
            push_or(&mut out, blocker, "unknown");
        }
        push_str(&mut out, ",confirmed_blocker=");
        if canonical {
            push_str(&mut out, "desktop_live_navigation_failed");
        } else {
            push_str(&mut out, plan.confirmed_blocker.as_str());
        }
        push_str(&mut out, ",next_step=");
        if canonical {
            push_str(&mut out, "retry_known_sportsbook_route");
        } else {
            push_str(&mut out, plan.next_step.as_str());
        }
        push_str(&mut out, ",target_route=");
        push_str(&mut out, plan.primary_target.as_str());
        push_str(&mut out, ",state=");
        if canonical {
            push_str(&mut out, "blocked_or_unconfirmed");
        } else if preserve {
            push_str(&mut out, "blocked_or_unconfirmed");
        } else {
            push_str(&mut out, readiness.state.as_str());
        }
        push_str(&mut out, ",reason=");
        if canonical {
            push_str(&mut out, "canonical_navigation_failed_before_bootstrap_capture");
        } else if preserve {
            push_str(&mut out, "insufficient_bootstrap_signals");
        } else {
            push_str(&mut out, readiness.reason.as_str());
        }
        push_str(&mut out, ",payload_len=");
        push_decimal(&mut out, result.payload_len as u64);
        push_str(&mut out, ",final_url=");
        push_or(&mut out, result.bootstrap.final_url.as_str(), result.probe.url);
        assert(out@ == blocker_summary(*result, f));
        out
    }

    /// The one-line matrix entry of a probe result.
    fn matrix_entry_text(result: &MelbetRouteProbeResult) -> (r: String)
        ensures
            exists|f: nat| feed_count_is(result.bootstrap, f) && r@ == matrix_entry(*result, f),
    {
        let readiness = Self::build_readiness_output(
            &result.probe,
            &result.bootstrap,
            &result.status,
            result.payload_len,
            result.extraction.blocker.as_str(),
        );
        let ghost f = readiness.transport_mapping.feed_like_count as nat;
        let ghost list = choose|list| merged_hints(list, result.bootstrap.transport_hints@) && mapping_of(readiness.transport_mapping, list);
        assert(feed_count_is(result.bootstrap, f));
        let mut out = String::new();
        push_str(&mut out, result.probe.route_hint);
        push_str(&mut out, ":");
        push_str(&mut out, result.probe.route_family);
        push_str(&mut out, ":");
        push_str(&mut out, result.status.as_str());
        push_str(&mut out, ":");
        push_decimal(&mut out, result.payload_len as u64);
        push_str(&mut out, ":");
        push_decimal(&mut out, result.bootstrap.transport_hints.len() as u64);
        push_str(&mut out, ":");
        push_str(&mut out, result.extraction.source.as_str());
        push_str(&mut out, ":");
        push_str(&mut out, result.extraction.blocker.as_str());
        push_str(&mut out, ":");
        push_str(&mut out, readiness.state.as_str());
        push_str(&mut out, ":");
        push_str(&mut out, readiness.reason.as_str());
        push_str(&mut out, ":");
        push_or(&mut out, result.bootstrap.path.as_str(), "/");
        assert(out@ == matrix_entry(*result, f));
        out
    }

    /// The route matrix: one entry per probe result, joined by commas.
    pub fn summarize_route_matrix(results: &[MelbetRouteProbeResult]) -> (r: String)
        ensures
            exists|feeds: Seq<nat>| {
                &&& feeds.len() == results@.len()
                &&& forall|i: int| 0 <= i < results@.len() ==> feed_count_is(results@[i].bootstrap, #[trigger] feeds[i])
                &&& r@ == join(matrix_entries(results@, feeds), ","@)
            },
    {
        let mut entries: Vec<String> = Vec::new();
        let ghost mut feeds: Seq<nat> = Seq::empty();
        let mut i: usize = 0;
        while i < results.len()
            invariant
                i <= results@.len(),
                feeds.len() == i,
                entries@.len() == i,
                forall|k: int| 0 <= k < i ==> feed_count_is(results@[k].bootstrap, #[trigger] feeds[k]),
                forall|k: int| 0 <= k < i ==> #[trigger] entries@[k]@ == matrix_entry(results@[k], feeds[k]),
            decreases results@.len() - i,
        {
            let e = Self::matrix_entry_text(&results[i]);
            let ghost f = choose|f: nat| feed_count_is(results@[i as int].bootstrap, f) && e@ == matrix_entry(results@[i as int], f);
            proof {
                feeds = feeds.push(f);
            }
            entries.push(e);
            i = i + 1;
        }
        let out = join_strings(entries.as_slice(), ",");
        assert(views(entries@) =~= matrix_entries(results@, feeds));
        out
    }
}

/// The summaries of the first `n` normalised hints of `list`.
pub open spec fn hint_summaries(list: Seq<MelbetNormalizedTransportHint>, n: int) -> Seq<Seq<char>> {
    Seq::new(if list.len() < n { list.len() } else { n as nat }, |i: int| list[i].summary())
}

/// The summaries of the first `n` timeline entries of `list`.
pub open spec fn timeline_summaries(list: Seq<MelbetResourceTimelineEntry>, n: int) -> Seq<Seq<char>> {
    Seq::new(if list.len() < n { list.len() } else { n as nat }, |i: int| list[i].summary())
}

/// The texts joined by commas, or `none` where there are none.
pub open spec fn comma_list_or_none(parts: Seq<Seq<char>>) -> Seq<char> {
    if parts.len() == 0 {
        "none"@
    } else {
        join(parts, ","@)
    }
}

impl MelbetParser {
    /// The first five normalised transport hints, summarised and joined by
    /// commas; `none` where there are none.
    pub fn summarize_transport_hints(snapshot: &MelbetBootstrapSnapshot) -> (r: String)
        ensures
            exists|list| merged_hints(list, snapshot.transport_hints@) && r@ == comma_list_or_none(hint_summaries(list, 5)),
    {
        let normalized = snapshot.normalized_transport_hints();
        let mut parts: Vec<String> = Vec::new();
        let mut i: usize = 0;
        while i < normalized.len() && i < 5
            invariant
                i <= normalized@.len(),
                i <= 5,
                views(parts@) == hint_summaries(normalized@.take(i as int), 5),
            decreases 5 - i,
        {
            let ghost prev = views(parts@);
            let sm = normalized[i].as_summary();
            let ghost smv = sm@;
            parts.push(sm);
            assert(views(parts@) =~= prev.push(smv));
            let ghost target = hint_summaries(normalized@.take(i + 1), 5);
            assert forall|k: int| 0 <= k < i + 1 implies #[trigger] views(parts@)[k] == target[k] by {
                if k < i {
                    assert(prev[k] == hint_summaries(normalized@.take(i as int), 5)[k]);
                }
            }
            i = i + 1;
            assert(views(parts@) =~= hint_summaries(normalized@.take(i as int), 5));
        }
        assert(hint_summaries(normalized@.take(i as int), 5) =~= hint_summaries(normalized@, 5));
        if parts.len() == 0 {
            return owned("none");
        }
        join_strings(parts.as_slice(), ",")
    }

    /// The first eight resource timeline entries, summarised and joined by
    /// commas; `none` where there are none.
    pub fn summarize_resource_timeline(snapshot: &MelbetBootstrapSnapshot) -> (r: String)
        ensures
            r@ == comma_list_or_none(timeline_summaries(snapshot.resource_timeline@, 8)),
    {
        let list = &snapshot.resource_timeline;
        let mut parts: Vec<String> = Vec::new();
        let mut i: usize = 0;
        while i < list.len() && i < 8
            invariant
                i <= list@.len(),
                i <= 8,
                views(parts@) == timeline_summaries(list@.take(i as int), 8),
            decreases 8 - i,
        {
            let ghost prev = views(parts@);
            let sm = list[i].as_summary();
            let ghost smv = sm@;
            parts.push(sm);
            assert(views(parts@) =~= prev.push(smv));
            let ghost target = timeline_summaries(list@.take(i + 1), 8);
            assert forall|k: int| 0 <= k < i + 1 implies #[trigger] views(parts@)[k] == target[k] by {
                if k < i {
                    assert(prev[k] == timeline_summaries(list@.take(i as int), 8)[k]);
                }
            }
            i = i + 1;
            assert(views(parts@) =~= timeline_summaries(list@.take(i as int), 8));
        }
        assert(timeline_summaries(list@.take(i as int), 8) =~= timeline_summaries(list@, 8));
        if parts.len() == 0 {
            return owned("none");
        }
        join_strings(parts.as_slice(), ",")
    }

    /// The runtime context summary of the snapshot.
    pub fn summarize_runtime_context(snapshot: &MelbetBootstrapSnapshot) -> (r: String)
        ensures
            r@ == snapshot.runtime_context.summary(),
    {
        snapshot.runtime_context.as_summary()
    }

    /// The runtime state summary of the snapshot.
    pub fn summarize_runtime_state(snapshot: &MelbetBootstrapSnapshot) -> (r: String)
        ensures
            r@ == snapshot.runtime_state.summary(),
    {
        snapshot.runtime_state.as_summary()
    }
}

/// What the `melbet_dom_extraction_available` check of the Melbet readiness snapshot says.
pub const MELBET_MELBET_DOM_EXTRACTION_AVAILABLE: &'static str = "Rendered DOM extraction remains available for desktop Melbet coverage while groundwork diagnostics evolve.";

/// What the `melbet_resource_timeline_capture_available` check of the Melbet readiness snapshot says.
pub const MELBET_MELBET_RESOURCE_TIMELINE_CAPTURE_AVAILABLE: &'static str = "Session bootstrap captures passive Performance API resource timeline samples for route diagnostics.";

/// What the `melbet_transport_hints_passive_only` check of the Melbet readiness snapshot says.
pub const MELBET_MELBET_TRANSPORT_HINTS_PASSIVE_ONLY: &'static str = "Transport hints are inferred from scripts, storage, body text, and resource names without websocket interception or frame decoding.";

/// What the `melbet_mobile_webview_readiness_diagnostics_available` check of the Melbet readiness snapshot says.
pub const MELBET_MELBET_MOBILE_WEBVIEW_READINESS_DIAGNOSTICS_AVAILABLE: &'static str = "Bootstrap-only mobile/webview routes now record readiness diagnostics for app-shell visibility, load timing, and feed-like resources.";

/// What the `melbet_transport_mapping_classification_available` check of the Melbet readiness snapshot says.
pub const MELBET_MELBET_TRANSPORT_MAPPING_CLASSIFICATION_AVAILABLE: &'static str = "Passive transport hints are normalized into structured families, host/protocol summaries, and readiness output for future transport mapping.";

/// What the `melbet_transport_runtime_guardrail` check of the Melbet readiness snapshot says.
pub const MELBET_MELBET_TRANSPORT_RUNTIME_GUARDRAIL: &'static str = "Confirmed blocker is additional_bootstrap_source_required: next practical step is manual bootstrap acquisition of window.$httpApi, partnerId, langId, countryCode, and required Melbet HTTP API methods before any transport/runtime work.";

/// What the `melbet_transport_groundwork_notes_recorded` check of the Melbet readiness snapshot says.
pub const MELBET_MELBET_TRANSPORT_GROUNDWORK_NOTES_RECORDED: &'static str = "Melbet transport groundwork captures performance resource timeline and passive transport hints only. No websocket interception, frame decoding, or runtime transport execution is enabled in this step. Mobile and webview shells can now report bootstrap-only readiness with resource-backed diagnostics.";

/// The Melbet readiness snapshot, check by check.
pub open spec fn melbet_readiness() -> ReadinessView {
    ReadinessView {
        stage: ParserReadinessStage::DiagnosticOnly,
        production_enabled: false,
        self_check_available: true,
        checks: seq![
            check_of("melbet_dom_extraction_available", DiagnosticSeverity::Pass, MELBET_MELBET_DOM_EXTRACTION_AVAILABLE),
            check_of("melbet_resource_timeline_capture_available", DiagnosticSeverity::Pass, MELBET_MELBET_RESOURCE_TIMELINE_CAPTURE_AVAILABLE),
            check_of("melbet_transport_hints_passive_only", DiagnosticSeverity::Pass, MELBET_MELBET_TRANSPORT_HINTS_PASSIVE_ONLY),
            check_of("melbet_mobile_webview_readiness_diagnostics_available", DiagnosticSeverity::Info, MELBET_MELBET_MOBILE_WEBVIEW_READINESS_DIAGNOSTICS_AVAILABLE),
            check_of("melbet_transport_mapping_classification_available", DiagnosticSeverity::Info, MELBET_MELBET_TRANSPORT_MAPPING_CLASSIFICATION_AVAILABLE),
            check_of("melbet_transport_runtime_guardrail", DiagnosticSeverity::Fail, MELBET_MELBET_TRANSPORT_RUNTIME_GUARDRAIL),
            check_of("melbet_transport_groundwork_notes_recorded", DiagnosticSeverity::Info, MELBET_MELBET_TRANSPORT_GROUNDWORK_NOTES_RECORDED),
        ],
    }
}

impl MelbetParser {
    /// The parser's readiness snapshot.
    pub fn readiness_snapshot() -> (r: ParserReadiness)
        ensures
            r@ == melbet_readiness(),
    {
        let checks = vec![
            check("melbet_dom_extraction_available", DiagnosticSeverity::Pass, MELBET_MELBET_DOM_EXTRACTION_AVAILABLE),
            check("melbet_resource_timeline_capture_available", DiagnosticSeverity::Pass, MELBET_MELBET_RESOURCE_TIMELINE_CAPTURE_AVAILABLE),
            check("melbet_transport_hints_passive_only", DiagnosticSeverity::Pass, MELBET_MELBET_TRANSPORT_HINTS_PASSIVE_ONLY),
            check("melbet_mobile_webview_readiness_diagnostics_available", DiagnosticSeverity::Info, MELBET_MELBET_MOBILE_WEBVIEW_READINESS_DIAGNOSTICS_AVAILABLE),
            check("melbet_transport_mapping_classification_available", DiagnosticSeverity::Info, MELBET_MELBET_TRANSPORT_MAPPING_CLASSIFICATION_AVAILABLE),
            check("melbet_transport_runtime_guardrail", DiagnosticSeverity::Fail, MELBET_MELBET_TRANSPORT_RUNTIME_GUARDRAIL),
            check("melbet_transport_groundwork_notes_recorded", DiagnosticSeverity::Info, MELBET_MELBET_TRANSPORT_GROUNDWORK_NOTES_RECORDED),
        ];
        assert(check_views(checks@) =~= melbet_readiness().checks);
        ParserReadiness {
            stage: ParserReadinessStage::DiagnosticOnly,
            production_enabled: false,
            self_check_available: true,
            checks,
        }
    }
}

impl BookmakerParser for MelbetParser {
    open spec fn name_spec(&self) -> Seq<char> {
        "Melbet"@
    }

    open spec fn slug_spec(&self) -> Seq<char> {
        "melbet"@
    }

    open spec fn enabled_spec(&self) -> bool {
        true
    }

    open spec fn readiness_spec(&self) -> Option<ReadinessView> {
        Some(melbet_readiness())
    }

    fn name(&self) -> (r: &str) {
        "Melbet"
    }

    fn slug(&self) -> (r: &str) {
        "melbet"
    }

    fn is_enabled(&self) -> (r: bool) {
        true
    }

    fn readiness(&self) -> (r: Option<ParserReadiness>) {
        Some(MelbetParser::readiness_snapshot())
    }
}

impl MelbetParser {
    /// The site's root address.
    pub fn base_url(&self) -> (r: &str)
        ensures
            r@ == "https://melbet.ru"@,
    {
        "https://melbet.ru"
    }

    /// The browser identity the parser presents.
    pub fn user_agent(&self) -> (r: &str)
        ensures
            r@ == "Mozilla/5.0 (Windows NT 10.0; Win64; x64) AppleWebKit/537.36 (KHTML, like Gecko) Chrome/124.0.0.0 Safari/537.36"@,
    {
        "Mozilla/5.0 (Windows NT 10.0; Win64; x64) AppleWebKit/537.36 (KHTML, like Gecko) Chrome/124.0.0.0 Safari/537.36"
    }
}

} // verus!
