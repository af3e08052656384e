//! Melbet: the decisions of the headless probe sweep and of the sportsbook
//! HTTP API attempt. The browser work (navigating, scrolling, reading the
//! page) stays with the caller; each function here takes what the browser
//! showed and decides what is recorded, what is kept and what comes next.

use crate::json::{jget, text_or_empty, JsonValue};
use crate::melbet_readiness::MelbetRouteProbeResult;
use crate::melbet_rules::{
    is_failure_fallback, navigation_failure_snapshot, MelbetParser, MelbetSportsbookHttpApiAttempt,
};
use crate::melbet_runtime::{MelbetExtractionDiagnostics, MelbetRouteStatus, MelbetSurface};
use crate::melbet_snapshot::{HeadlessProbe, MelbetBootstrapSnapshot};
use crate::model::{event_ids_of, law_push_new_event_keeps_ids_unique, odd_ids_of, push_new_event, push_new_odd, Event, Odd};
use crate::text::{owned, push_str, strings_contain, views};
use vstd::prelude::*;

verus! {

/// Whether an attempt has exactly these parts.
pub open spec fn attempt_is(
    a: MelbetSportsbookHttpApiAttempt,
    bootstrap: Option<MelbetBootstrapSnapshot>,
    route: Seq<char>,
    seed_count: usize,
    blocker: Seq<char>,
    payload: Seq<JsonValue>,
) -> bool {
    &&& a.bootstrap == bootstrap
    &&& a.route@ == route
    &&& a.seed_count == seed_count
    &&& a.blocker@ == blocker
    &&& a.payload@ == payload
}

/// The id an API event item is known by (empty where it has none).
pub open spec fn item_event_id(item: JsonValue) -> Seq<char> {
    text_or_empty(jget(item, "eventId"@))
}

/// The items of `items` kept after `seen`: each with a non-empty event id
/// not seen before, the first one of each id; with the ids seen afterwards.
pub open spec fn fresh_items(seen: Seq<Seq<char>>, items: Seq<JsonValue>) -> (Seq<Seq<char>>, Seq<JsonValue>)
    decreases items.len(),
{
    if items.len() == 0 {
        (seen, Seq::empty())
    } else {
        let (s, kept) = fresh_items(seen, items.drop_last());
        let id = item_event_id(items.last());
        if id.len() > 0 && !s.contains(id) {
            (s.push(id), kept.push(items.last()))
        } else {
            (s, kept)
        }
    }
}

/// The items of successive batches kept, as `fresh_items` keeps them
/// across all the batches in order.
pub open spec fn fresh_batches(seen: Seq<Seq<char>>, batches: Seq<Seq<JsonValue>>) -> (Seq<Seq<char>>, Seq<JsonValue>)
    decreases batches.len(),
{
    if batches.len() == 0 {
        (seen, Seq::empty())
    } else {
        let (s, kept) = fresh_batches(seen, batches.drop_last());
        let (s2, more) = fresh_items(s, batches.last());
        (s2, kept + more)
    }
}

/// The views of a list of batches.
pub open spec fn batch_views(b: Seq<Vec<JsonValue>>) -> Seq<Seq<JsonValue>> {
    b.map_values(|v: Vec<JsonValue>| v@)
}

impl MelbetParser {
    /// The attempt reported where the probe offers no sportsbook route.
    pub fn no_sportsbook_route_attempt() -> (r: MelbetSportsbookHttpApiAttempt)
        ensures
            attempt_is(r, None, Seq::empty(), 0, "no_sportsbook_route"@, Seq::empty()),
    {
        MelbetSportsbookHttpApiAttempt {
            bootstrap: None,
            route: String::new(),
            seed_count: 0,
            blocker: owned("no_sportsbook_route"),
            payload: Vec::new(),
        }
    }

    /// The referer sent to sportsbook routes: the page the snapshot ended
    /// on, else the probed page.
    pub fn sportsbook_referer(probe: &HeadlessProbe, snapshot: &MelbetBootstrapSnapshot) -> (r: String)
        ensures
            r@ == (if snapshot.final_url@.len() == 0 {
                probe.url@
            } else {
                snapshot.final_url@
            }),
    {
        if snapshot.final_url.as_str().unicode_len() == 0 {
            owned(probe.url)
        } else {
            snapshot.final_url.clone()
        }
    }

    /// A snapshot taken on `route` without a final address of its own gets
    /// the route as its final address.
    pub fn fill_final_url(bootstrap: &mut MelbetBootstrapSnapshot, route: &str)
        ensures
            final(bootstrap).final_url@ == (if old(bootstrap).final_url@.len() == 0 {
                route@
            } else {
                old(bootstrap).final_url@
            }),
            *final(bootstrap) == (MelbetBootstrapSnapshot {
                final_url: final(bootstrap).final_url,
                ..*old(bootstrap)
            }),
    {
        if bootstrap.final_url.as_str().unicode_len() == 0 {
            bootstrap.final_url = owned(route);
        }
    }

    /// Of two reads of the page, the one with more items (the first where
    /// neither has more).
    pub fn keep_longer_payload(current: Vec<JsonValue>, next: Vec<JsonValue>) -> (r: Vec<JsonValue>)
        ensures
            r@ == (if next@.len() > current@.len() {
                next@
            } else {
                current@
            }),
    {
        if next.len() > current.len() {
            next
        } else {
            current
        }
    }

    /// The attempt reported where a sportsbook route already shows a DOM
    /// payload.
    pub fn dom_payload_attempt(bootstrap: MelbetBootstrapSnapshot, route: String, payload: Vec<JsonValue>) -> (r:
        MelbetSportsbookHttpApiAttempt)
        ensures
            attempt_is(
                r,
                Some(bootstrap),
                route@,
                0,
                "dom_payload_ready_on_sportsbook_route"@,
                payload@,
            ),
    {
        MelbetSportsbookHttpApiAttempt {
            bootstrap: Some(bootstrap),
            route,
            seed_count: 0,
            blocker: owned("dom_payload_ready_on_sportsbook_route"),
            payload,
        }
    }

    /// Whether the runtime context still lacks something the HTTP API needs.
    pub fn has_runtime_context_gap(probe: &HeadlessProbe, bootstrap: &MelbetBootstrapSnapshot) -> (r: bool)
        ensures
            r == (bootstrap.runtime_context.missing(probe.is_live).len() > 0),
    {
        let missing = bootstrap.runtime_context.missing_http_api_requirements(probe.is_live);
        missing.len() > 0
    }

    /// The attempt reported where the runtime context stops the HTTP API:
    /// it keeps the snapshot and names the context's blocker.
    pub fn context_blocked_attempt(probe: &HeadlessProbe, bootstrap: MelbetBootstrapSnapshot, route: String) -> (r:
        MelbetSportsbookHttpApiAttempt)
        ensures
            attempt_is(
                r,
                Some(bootstrap),
                route@,
                0,
                bootstrap.runtime_context.api_blocker(probe.is_live),
                Seq::empty(),
            ),
    {
        let blocker = bootstrap.runtime_context.http_api_blocker(probe.is_live);
        MelbetSportsbookHttpApiAttempt {
            bootstrap: Some(bootstrap),
            route,
            seed_count: 0,
            blocker,
            payload: Vec::new(),
        }
    }

    /// The attempt reported where the sportsbook lists no sports to ask
    /// for.
    pub fn no_sport_seeds_attempt(bootstrap: MelbetBootstrapSnapshot, route: String) -> (r:
        MelbetSportsbookHttpApiAttempt)
        ensures
            attempt_is(r, Some(bootstrap), route@, 0, "no_sport_seeds"@, Seq::empty()),
    {
        MelbetSportsbookHttpApiAttempt {
            bootstrap: Some(bootstrap),
            route,
            seed_count: 0,
            blocker: owned("no_sport_seeds"),
            payload: Vec::new(),
        }
    }

    /// The event items of the sports' batches, in order, each event once:
    /// an item is kept where it has a non-empty `eventId` not kept before.
    pub fn collect_event_items(batches: Vec<Vec<JsonValue>>) -> (r: Vec<JsonValue>)
        ensures
            r@ == fresh_batches(Seq::empty(), batch_views(batches@)).1,
    {
        let ghost bs = batch_views(batches@);
        let mut seen: Vec<String> = Vec::new();
        let mut out: Vec<JsonValue> = Vec::new();
        let mut batches = batches;
        let ghost mut k: int = 0;
        assert(bs.take(0) =~= Seq::<Seq<JsonValue>>::empty());
        assert(batch_views(batches@) =~= bs.skip(0));
        while batches.len() > 0
            invariant
                0 <= k <= bs.len(),
                batch_views(batches@) == bs.skip(k),
                (views(seen@), out@) == fresh_batches(Seq::empty(), bs.take(k)),
            decreases batches@.len(),
        {
            let ghost before = batches@;
            assert(batch_views(before).len() == before.len());
            assert(k < bs.len());
            let mut batch = batches.remove(0);
            assert(batch@ == bs[k]) by {
                assert(batch_views(before)[0] == before[0]@);
                assert(bs.skip(k)[0] == bs[k]);
            }
            assert(batches@ =~= before.subrange(1, before.len() as int));
            assert forall|j: int| 0 <= j < batches@.len() implies batch_views(batches@)[j] == bs.skip(k + 1)[j] by {
                assert(batch_views(batches@)[j] == batches@[j]@);
                assert(batches@[j] == before[j + 1]);
                assert(batch_views(before)[j + 1] == before[j + 1]@);
                assert(bs.skip(k)[j + 1] == bs[k + 1 + j]);
            }
            assert(batch_views(batches@) =~= bs.skip(k + 1));
            let ghost items = batch@;
            let ghost out_before = out@;
            let ghost seen_before = views(seen@);
            let ghost mut i: int = 0;
            assert(items.take(0) =~= Seq::<JsonValue>::empty());
            assert(out_before + fresh_items(seen_before, items.take(0)).1 =~= out_before);
            assert(batch@ =~= items.skip(0));
            while batch.len() > 0
                invariant
                    0 <= i <= items.len(),
                    batch@ == items.skip(i),
                    views(seen@) == fresh_items(seen_before, items.take(i)).0,
                    out@ == out_before + fresh_items(seen_before, items.take(i)).1,
                decreases batch@.len(),
            {
                assert(items.take(i + 1).drop_last() =~= items.take(i));
                assert(items.take(i + 1).last() == items[i]);
                let ghost batch_before = batch@;
                let item = batch.remove(0);
                assert(item == items[i]) by {
                    assert(batch_before[0] == items.skip(i)[0]);
                }
                assert(batch@ =~= items.skip(i + 1));
                let ghost seen_i = views(seen@);
                let ghost out_i = out@;
                let id: String = match crate::json::get(&item, "eventId") {
                    Some(JsonValue::Str(s)) => s.clone(),
                    _ => String::new(),
                };
                assert(id@ == item_event_id(item));
                if id.as_str().unicode_len() > 0 && !strings_contain(&seen, id.as_str()) {
                    seen.push(id);
                    assert(views(seen@) =~= seen_i.push(item_event_id(item)));
                    out.push(item);
                    assert(out@ =~= out_i.push(item));
                }
                proof {
                    i = i + 1;
                }
            }
            assert(items.take(i) =~= items);
            assert(bs.take(k + 1).drop_last() =~= bs.take(k));
            assert(bs.take(k + 1).last() == items);
            proof {
                k = k + 1;
            }
        }
        assert(bs.take(k) =~= bs);
        out
    }
}

/// Whether an extraction record has exactly these parts.
pub open spec fn extraction_is(
    e: MelbetExtractionDiagnostics,
    source: Seq<char>,
    dom: usize,
    embedded_route: Seq<char>,
    embedded: usize,
    sportsbook_route: Seq<char>,
    seeds: usize,
    http_api: usize,
    blocker: Seq<char>,
) -> bool {
    &&& e.source@ == source
    &&& e.dom_payload_len == dom
    &&& e.embedded_route@ == embedded_route
    &&& e.embedded_payload_len == embedded
    &&& e.sportsbook_route@ == sportsbook_route
    &&& e.http_api_seed_count == seeds
    &&& e.http_api_payload_len == http_api
    &&& e.blocker@ == blocker
}

/// The blocker reported when the wall-clock budget runs out before `probe`
/// is tried and no route was tried before it.
pub open spec fn budget_blocker_text(probe: HeadlessProbe) -> Seq<char> {
    "route_hint="@ + probe.route_hint@ + ",route_family="@ + probe.route_family@
        + ",status=blocked,source=none,blocker=runtime_budget_exhausted,confirmed_blocker=runtime_budget_exhausted,next_step=reduce_probe_scope,target_route="@
        + probe.url@ + ",state=blocked,reason=wall_clock_cutoff,payload_len=0,final_url="@
        + probe.url@
}

impl MelbetParser {
    /// The attempt reported once the sports' items are collected: ready
    /// where there is a payload, else without an event payload.
    pub fn payload_attempt(
        bootstrap: MelbetBootstrapSnapshot,
        route: String,
        seed_count: usize,
        payload: Vec<JsonValue>,
    ) -> (r: MelbetSportsbookHttpApiAttempt)
        ensures
            attempt_is(
                r,
                Some(bootstrap),
                route@,
                seed_count,
                if payload@.len() == 0 {
                    "no_http_api_event_payload"@
                } else {
                    "payload_ready"@
                },
                payload@,
            ),
    {
        let blocker = if payload.len() == 0 {
            owned("no_http_api_event_payload")
        } else {
            owned("payload_ready")
        };
        MelbetSportsbookHttpApiAttempt { bootstrap: Some(bootstrap), route, seed_count, blocker, payload }
    }

    /// The attempt reported once every sportsbook route failed to open:
    /// the last navigation failure, else the fallback for the snapshot.
    pub fn routes_exhausted_attempt(
        probe: &HeadlessProbe,
        snapshot: MelbetBootstrapSnapshot,
        navigation_failure: Option<MelbetSportsbookHttpApiAttempt>,
    ) -> (r: MelbetSportsbookHttpApiAttempt)
        ensures
            match navigation_failure {
                Some(a) => r == a,
                None => is_failure_fallback(r, *probe, snapshot, None),
            },
    {
        match navigation_failure {
            Some(a) => a,
            None => MelbetParser::sportsbook_navigation_failure_fallback(probe, snapshot, None),
        }
    }

    /// The blocker reported when the wall-clock budget runs out before
    /// `probe` is tried: the summary of the first route tried, else a
    /// budget blocker for `probe`.
    pub fn budget_exhausted_blocker(first: Option<&MelbetRouteProbeResult>, probe: &HeadlessProbe) -> (r:
        String)
        ensures
            match first {
                Some(res) => exists|f: nat|
                    crate::melbet_readiness::feed_count_is(res.bootstrap, f) && r@
                        == crate::melbet_readiness::blocker_summary(*res, f),
                None => r@ == budget_blocker_text(*probe),
            },
    {
        match first {
            Some(res) => MelbetParser::summarize_runtime_blocker(res),
            None => {
                let mut out = owned("route_hint=");
                push_str(&mut out, probe.route_hint);
                push_str(&mut out, ",route_family=");
                push_str(&mut out, probe.route_family);
                push_str(
                    &mut out,
                    ",status=blocked,source=none,blocker=runtime_budget_exhausted,confirmed_blocker=runtime_budget_exhausted,next_step=reduce_probe_scope,target_route=",
                );
                push_str(&mut out, probe.url);
                push_str(&mut out, ",state=blocked,reason=wall_clock_cutoff,payload_len=0,final_url=");
                push_str(&mut out, probe.url);
                out
            },
        }
    }

    /// The result recorded for a probe whose navigation failed: blocked,
    /// with no payload, a stand-in snapshot and a `navigation_failed`
    /// extraction.
    pub fn navigation_failed_result(probe: &HeadlessProbe) -> (r: MelbetRouteProbeResult)
        ensures
            r.probe == *probe,
            r.status == MelbetRouteStatus::Blocked,
            r.payload_len == 0,
            navigation_failure_snapshot(r.bootstrap, *probe),
            extraction_is(r.extraction, "none"@, 0, Seq::empty(), 0, Seq::empty(), 0, 0, "navigation_failed"@),
    {
        let bootstrap = MelbetParser::synthetic_navigation_failure_snapshot(probe);
        let mut extraction = MelbetExtractionDiagnostics::new();
        extraction.source = owned("none");
        extraction.blocker = owned("navigation_failed");
        assert(extraction.embedded_route@ =~= Seq::<char>::empty());
        assert(extraction.sportsbook_route@ =~= Seq::<char>::empty());
        MelbetRouteProbeResult {
            probe: *probe,
            status: MelbetRouteStatus::Blocked,
            payload_len: 0,
            bootstrap,
            extraction,
        }
    }

    /// The extraction record after the first DOM read of `payload_len`
    /// items.
    pub fn dom_extraction(payload_len: usize) -> (r: MelbetExtractionDiagnostics)
        ensures
            extraction_is(
                r,
                if payload_len == 0 {
                    "none"@
                } else {
                    "dom"@
                },
                payload_len,
                Seq::empty(),
                0,
                Seq::empty(),
                0,
                0,
                if payload_len == 0 {
                    "dom_payload_empty"@
                } else {
                    "payload_ready"@
                },
            ),
    {
        let mut e = MelbetExtractionDiagnostics::new();
        if payload_len == 0 {
            e.source = owned("none");
            e.blocker = owned("dom_payload_empty");
        } else {
            e.source = owned("dom");
            e.blocker = owned("payload_ready");
        }
        e.dom_payload_len = payload_len;
        assert(e.embedded_route@ =~= Seq::<char>::empty());
        assert(e.sportsbook_route@ =~= Seq::<char>::empty());
        e
    }

    /// A further DOM read after scrolling: a longer read replaces the
    /// payload and is recorded as a ready DOM payload; a shorter one changes
    /// nothing.
    pub fn note_scrolled_payload(
        extraction: &mut MelbetExtractionDiagnostics,
        payload: &mut Vec<JsonValue>,
        next: Vec<JsonValue>,
    )
        ensures
            next@.len() > old(payload)@.len() ==> final(payload)@ == next@ && extraction_is(
                *final(extraction),
                "dom"@,
                next@.len() as usize,
                old(extraction).embedded_route@,
                old(extraction).embedded_payload_len,
                old(extraction).sportsbook_route@,
                old(extraction).http_api_seed_count,
                old(extraction).http_api_payload_len,
                "payload_ready"@,
            ),
            next@.len() <= old(payload)@.len() ==> final(payload)@ == old(payload)@
                && *final(extraction) == *old(extraction),
    {
        if next.len() > payload.len() {
            *payload = next;
            extraction.dom_payload_len = payload.len();
            extraction.source = owned("dom");
            extraction.blocker = owned("payload_ready");
        }
    }

    /// The early runtime cutoff recorded: its route, seeds, payload size and
    /// blocker go to the extraction record, and its snapshot replaces the
    /// probe's where it ended on some page.
    pub fn note_cutoff(
        extraction: &mut MelbetExtractionDiagnostics,
        bootstrap: &mut MelbetBootstrapSnapshot,
        attempt: MelbetSportsbookHttpApiAttempt,
    )
        ensures
            extraction_is(
                *final(extraction),
                old(extraction).source@,
                old(extraction).dom_payload_len,
                old(extraction).embedded_route@,
                old(extraction).embedded_payload_len,
                attempt.route@,
                attempt.seed_count,
                attempt.payload@.len() as usize,
                attempt.blocker@,
            ),
            match attempt.bootstrap {
                Some(b) => if b.final_url@.len() > 0 {
                    *final(bootstrap) == b
                } else {
                    *final(bootstrap) == *old(bootstrap)
                },
                None => *final(bootstrap) == *old(bootstrap),
            },
    {
        extraction.sportsbook_route = attempt.route;
        extraction.http_api_seed_count = attempt.seed_count;
        extraction.http_api_payload_len = attempt.payload.len();
        extraction.blocker = attempt.blocker;
        match attempt.bootstrap {
            Some(b) => {
                if b.final_url.as_str().unicode_len() > 0 {
                    *bootstrap = b;
                }
            },
            None => {},
        }
    }

    /// What an embedded frame gave: its size is recorded, and where it has
    /// more items than the payload so far it replaces the payload and the
    /// snapshot and is recorded as the source.
    pub fn note_embedded_payload(
        extraction: &mut MelbetExtractionDiagnostics,
        payload: &mut Vec<JsonValue>,
        bootstrap: &mut MelbetBootstrapSnapshot,
        embedded_payload: Vec<JsonValue>,
        embedded_bootstrap: MelbetBootstrapSnapshot,
    )
        ensures
            final(extraction).embedded_payload_len == embedded_payload@.len(),
            final(extraction).embedded_route == old(extraction).embedded_route,
            final(extraction).dom_payload_len == old(extraction).dom_payload_len,
            final(extraction).sportsbook_route == old(extraction).sportsbook_route,
            final(extraction).http_api_seed_count == old(extraction).http_api_seed_count,
            final(extraction).http_api_payload_len == old(extraction).http_api_payload_len,
            embedded_payload@.len() > old(payload)@.len() ==> final(payload)@ == embedded_payload@
                && *final(bootstrap) == embedded_bootstrap && final(extraction).source@ == "embedded"@
                && final(extraction).blocker@ == "payload_ready"@,
            embedded_payload@.len() <= old(payload)@.len() ==> final(payload)@ == old(payload)@
                && *final(bootstrap) == *old(bootstrap) && final(extraction).source
                == old(extraction).source && final(extraction).blocker == old(extraction).blocker,
    {
        extraction.embedded_payload_len = embedded_payload.len();
        if embedded_payload.len() > payload.len() {
            *payload = embedded_payload;
            *bootstrap = embedded_bootstrap;
            extraction.source = owned("embedded");
            extraction.blocker = if payload.len() == 0 {
                owned("embedded_payload_empty")
            } else {
                owned("payload_ready")
            };
        }
    }

    /// The HTTP API attempt recorded: its route, seeds, payload size and
    /// blocker go to the extraction record; its snapshot replaces the
    /// probe's where it ended on some page; its payload replaces the
    /// payload, recorded as coming from the HTTP API, where it is longer.
    pub fn note_http_api_attempt(
        extraction: &mut MelbetExtractionDiagnostics,
        bootstrap: &mut MelbetBootstrapSnapshot,
        payload: &mut Vec<JsonValue>,
        attempt: MelbetSportsbookHttpApiAttempt,
    )
        ensures
            final(extraction).sportsbook_route@ == attempt.route@,
            final(extraction).http_api_seed_count == attempt.seed_count,
            final(extraction).http_api_payload_len == attempt.payload@.len(),
            final(extraction).blocker@ == attempt.blocker@,
            final(extraction).dom_payload_len == old(extraction).dom_payload_len,
            final(extraction).embedded_route == old(extraction).embedded_route,
            final(extraction).embedded_payload_len == old(extraction).embedded_payload_len,
            match attempt.bootstrap {
                Some(b) => if b.final_url@.len() > 0 {
                    *final(bootstrap) == b
                } else {
                    *final(bootstrap) == *old(bootstrap)
                },
                None => *final(bootstrap) == *old(bootstrap),
            },
            attempt.payload@.len() > old(payload)@.len() ==> final(payload)@ == attempt.payload@
                && final(extraction).source@ == "http_api"@,
            attempt.payload@.len() <= old(payload)@.len() ==> final(payload)@ == old(payload)@
                && final(extraction).source == old(extraction).source,
    {
        extraction.sportsbook_route = attempt.route;
        extraction.http_api_seed_count = attempt.seed_count;
        extraction.http_api_payload_len = attempt.payload.len();
        extraction.blocker = attempt.blocker;
        match attempt.bootstrap {
            Some(b) => {
                if b.final_url.as_str().unicode_len() > 0 {
                    *bootstrap = b;
                }
            },
            None => {},
        }
        if attempt.payload.len() > payload.len() {
            *payload = attempt.payload;
            extraction.source = owned("http_api");
        }
    }

    /// Whether the sweep stops after a route: once a desktop route has
    /// given events.
    pub fn stops_sweep(has_events: bool, surface: MelbetSurface) -> (r: bool)
        ensures
            r == (has_events && surface == MelbetSurface::Desktop),
    {
        has_events && surface == MelbetSurface::Desktop
    }

    /// The error a finished sweep reports: where routes were tried and no
    /// event came of them, the summary of the first route tried; nothing
    /// otherwise.
    pub fn sweep_failure(route_matrix: &Vec<MelbetRouteProbeResult>, has_events: bool) -> (r: Option<String>)
        ensures
            (route_matrix@.len() == 0 || has_events) ==> r is None,
            (route_matrix@.len() > 0 && !has_events) ==> (r matches Some(s) && exists|f: nat|
                crate::melbet_readiness::feed_count_is(route_matrix@[0].bootstrap, f) && s@
                    == crate::melbet_readiness::blocker_summary(route_matrix@[0], f)),
    {
        if route_matrix.len() == 0 || has_events {
            None
        } else {
            Some(MelbetParser::summarize_runtime_blocker(&route_matrix[0]))
        }
    }
}

/// `es` with each event of `items` added in order, unless its id is there
/// already.
pub open spec fn merged_events(es: Seq<Event>, items: Seq<Event>) -> Seq<Event>
    decreases items.len(),
{
    if items.len() == 0 {
        es
    } else {
        let m = merged_events(es, items.drop_last());
        if event_ids_of(m).contains(items.last().id@) {
            m
        } else {
            m.push(items.last())
        }
    }
}

/// `os` with each price of `items` added in order, unless its id is there
/// already.
pub open spec fn merged_odds(os: Seq<Odd>, items: Seq<Odd>) -> Seq<Odd>
    decreases items.len(),
{
    if items.len() == 0 {
        os
    } else {
        let m = merged_odds(os, items.drop_last());
        if odd_ids_of(m).contains(items.last().id@) {
            m
        } else {
            m.push(items.last())
        }
    }
}

/// The events of a route's parsed items, in order.
pub open spec fn item_events(items: Seq<(Event, Vec<Odd>)>) -> Seq<Event> {
    items.map_values(|it: (Event, Vec<Odd>)| it.0)
}

/// The prices of a route's parsed items, item by item.
pub open spec fn item_odds(items: Seq<(Event, Vec<Odd>)>) -> Seq<Odd>
    decreases items.len(),
{
    if items.len() == 0 {
        Seq::empty()
    } else {
        item_odds(items.drop_last()) + items.last().1@
    }
}

/// What the probe sweep has gathered: the events and prices of its ready
/// routes (each id once) and the result of every route probed.
pub struct MelbetSweep {
    pub events: Vec<Event>,
    pub odds: Vec<Odd>,
    pub route_matrix: Vec<MelbetRouteProbeResult>,
}

impl MelbetSweep {
    /// A sweep that has probed nothing.
    pub fn start() -> (r: MelbetSweep)
        ensures
            r.events@.len() == 0,
            r.odds@.len() == 0,
            r.route_matrix@.len() == 0,
    {
        MelbetSweep { events: Vec::new(), odds: Vec::new(), route_matrix: Vec::new() }
    }

    /// Records a probed route and, where it is ready, the events and prices
    /// of its parsed (and annotated) items, each id kept once; returns
    /// whether the sweep stops: a ready desktop route once events are in.
    pub fn record_route(&mut self, result: MelbetRouteProbeResult, items: Vec<(Event, Vec<Odd>)>) -> (stop: bool)
        ensures
            final(self).route_matrix@ == old(self).route_matrix@.push(result),
            result.status == MelbetRouteStatus::Ready ==> final(self).events@ == merged_events(
                old(self).events@,
                item_events(items@),
            ) && final(self).odds@ == merged_odds(old(self).odds@, item_odds(items@)),
            result.status != MelbetRouteStatus::Ready ==> final(self).events@ == old(self).events@
                && final(self).odds@ == old(self).odds@,
            stop == (result.status == MelbetRouteStatus::Ready && final(self).events@.len() > 0
                && result.probe.surface == MelbetSurface::Desktop),
    {
        let ready = match result.status {
            MelbetRouteStatus::Ready => true,
            _ => false,
        };
        let surface = result.probe.surface;
        self.route_matrix.push(result);
        if !ready {
            return false;
        }
        let ghost ev0 = self.events@;
        let ghost od0 = self.odds@;
        let ghost rm = self.route_matrix@;
        let ghost iv = items@;
        let n = items.len();
        let mut items = reversed(items);
        let mut k: usize = 0;
        while k < n
            invariant
                k <= n,
                n == iv.len(),
                items@.len() == n - k,
                forall|j: int| 0 <= j < items@.len() ==> #[trigger] items@[j] == iv[(n - 1 - j) as int],
                self.route_matrix@ == rm,
                self.events@ == merged_events(ev0, item_events(iv.take(k as int))),
                self.odds@ == merged_odds(od0, item_odds(iv.take(k as int))),
            decreases n - k,
        {
            assert(items@.len() > 0);
            let ghost last_idx = items@.len() - 1;
            let it = items.pop().unwrap();
            assert(it == iv[k as int]);
            proof {
                assert(iv.take(k + 1).drop_last() =~= iv.take(k as int));
                assert(iv.take(k + 1).last() == iv[k as int]);
                assert(item_events(iv.take(k + 1)) =~= item_events(iv.take(k as int)).push(it.0));
                assert(item_events(iv.take(k + 1)).drop_last() =~= item_events(iv.take(k as int)));
                assert(item_events(iv.take(k + 1)).last() == it.0);
            }
            let (event, odds) = it;
            let ghost ov = odds@;
            assert(event == it.0);
            push_new_event(&mut self.events, event);
            assert(self.events@ == merged_events(ev0, item_events(iv.take(k + 1))));
            merge_odds(&mut self.odds, odds);
            proof {
                assert(item_odds(iv.take(k + 1)) =~= item_odds(iv.take(k as int)) + ov);
                lemma_merged_odds_append(od0, item_odds(iv.take(k as int)), ov);
            }
            k = k + 1;
        }
        assert(iv.take(n as int) =~= iv);
        !self.events.is_empty() && surface == MelbetSurface::Desktop
    }
}

/// `v` in reverse order.
fn reversed<T>(v: Vec<T>) -> (r: Vec<T>)
    ensures
        r@.len() == v@.len(),
        forall|j: int| 0 <= j < r@.len() ==> #[trigger] r@[j] == v@[v@.len() - 1 - j],
{
    let ghost orig = v@;
    let mut src = v;
    let mut out: Vec<T> = Vec::new();
    while src.len() > 0
        invariant
            src@ == orig.take(src@.len() as int),
            out@.len() + src@.len() == orig.len(),
            forall|j: int| 0 <= j < out@.len() ==> #[trigger] out@[j] == orig[orig.len() - 1 - j],
        decreases src@.len(),
    {
        let ghost before = src@;
        let x = src.pop().unwrap();
        assert(src@ =~= orig.take(src@.len() as int));
        out.push(x);
    }
    out
}

/// Adds the prices of `src` to `dst` in order, each unless its id is there.
fn merge_odds(dst: &mut Vec<Odd>, src: Vec<Odd>)
    ensures
        final(dst)@ == merged_odds(old(dst)@, src@),
{
    let ghost orig = src@;
    let n = src.len();
    let mut rev = reversed(src);
    let mut k: usize = 0;
    while k < n
        invariant
            k <= n,
            n == orig.len(),
            rev@.len() == n - k,
            forall|j: int| 0 <= j < rev@.len() ==> #[trigger] rev@[j] == orig[n - 1 - j],
            dst@ == merged_odds(old(dst)@, orig.take(k as int)),
        decreases n - k,
    {
        let o = rev.pop().unwrap();
        assert(o == orig[k as int]);
        assert(orig.take(k + 1).drop_last() =~= orig.take(k as int));
        push_new_odd(dst, o);
        k = k + 1;
    }
    assert(orig.take(n as int) =~= orig);
}

/// Adding two lists of prices one after the other adds their concatenation.
proof fn lemma_merged_odds_append(os: Seq<Odd>, a: Seq<Odd>, b: Seq<Odd>)
    ensures
        merged_odds(merged_odds(os, a), b) == merged_odds(os, a + b),
    decreases b.len(),
{
    if b.len() > 0 {
        lemma_merged_odds_append(os, a, b.drop_last());
        assert((a + b).drop_last() =~= a + b.drop_last());
        assert((a + b).last() == b.last());
    } else {
        assert(a + b =~= a);
    }
}

/// The events a sweep gathers keep unique ids: merging items into a list
/// without a repeated id gives a list without one.
pub proof fn law_sweep_events_unique(es: Seq<Event>, items: Seq<Event>)
    requires
        event_ids_of(es).no_duplicates(),
    ensures
        event_ids_of(merged_events(es, items)).no_duplicates(),
    decreases items.len(),
{
    if items.len() > 0 {
        law_sweep_events_unique(es, items.drop_last());
        law_push_new_event_keeps_ids_unique(merged_events(es, items.drop_last()), items.last());
    }
}

} // verus!
