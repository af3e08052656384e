//! What the parser factory reports of the known bookmakers: one coverage
//! record per registry entry, and the static health snapshot built from it.

use std::sync::Arc;
use vstd::prelude::*;
use crate::ligastavok::opt_view;
use crate::readiness::{
    check_views, duplicate_checks, duplicate_readiness, readiness_opt_view, CheckView,
    ParserDiagnosticCheck, ParserReadiness, ReadinessView,
};
use crate::registry::{
    entry_at, registry_aliases, registry_entry, registry_entry_at, registry_index, registry_len,
    registry_names, registry_notes, registry_slugs, registry_sources, registry_types,
    BookmakerParser, BookmakerRegistryEntry, ParserFactory,
};
use crate::text::{is_sorted_texts, sort_strings, static_views, views};

verus! {

/// What the factory covers of one known bookmaker.
pub struct ParserCoverage {
    pub slug: String,
    pub name: String,
    pub enabled: bool,
    pub scan_supported: bool,
    pub execution_supported: bool,
    pub parser_type: String,
    pub source: String,
    pub notes: Option<String>,
    pub readiness: Option<ParserReadiness>,
}

/// A coverage record as plain values.
pub struct CoverageView {
    pub slug: Seq<char>,
    pub name: Seq<char>,
    pub enabled: bool,
    pub scan_supported: bool,
    pub execution_supported: bool,
    pub parser_type: Seq<char>,
    pub source: Seq<char>,
    pub notes: Option<Seq<char>>,
    pub readiness: Option<ReadinessView>,
}

impl View for ParserCoverage {
    type V = CoverageView;

    open spec fn view(&self) -> CoverageView {
        CoverageView {
            slug: self.slug@,
            name: self.name@,
            enabled: self.enabled,
            scan_supported: self.scan_supported,
            execution_supported: self.execution_supported,
            parser_type: self.parser_type@,
            source: self.source@,
            notes: opt_view(self.notes),
            readiness: readiness_opt_view(self.readiness),
        }
    }
}

/// The first of `aliases` under which a parser is registered in `f`.
pub open spec fn first_registered<P: BookmakerParser>(
    f: ParserFactory<P>,
    aliases: Seq<Seq<char>>,
) -> Option<Seq<char>>
    decreases aliases.len(),
{
    if aliases.len() == 0 {
        None
    } else if f.has(aliases[0]) {
        Some(aliases[0])
    } else {
        first_registered(f, aliases.drop_first())
    }
}

/// The parser registered in `f` under `slug`.
pub open spec fn registered_handle<P: BookmakerParser>(f: ParserFactory<P>, slug: Seq<char>) -> Arc<P> {
    f.handles()[choose|i: int| 0 <= i < f.slugs().len() && f.slugs()[i] == slug]
}

/// The coverage of registry entry `e`: the parser found under the first of
/// its aliases that is registered speaks for its name, its enabled flag and
/// its readiness; with none, the registry's name stands and it is off.
pub open spec fn coverage_spec<P: BookmakerParser>(f: ParserFactory<P>, e: int) -> CoverageView {
    let (name, enabled, readiness) = match first_registered(f, registry_aliases()[e]) {
        Some(a) => {
            let p = registered_handle(f, a);
            (p.name_spec(), p.enabled_spec(), p.readiness_spec())
        },
        None => (registry_names()[e], false, None),
    };
    CoverageView {
        slug: registry_slugs()[e],
        name,
        enabled,
        scan_supported: enabled,
        execution_supported: false,
        parser_type: registry_types()[e],
        source: registry_sources()[e],
        notes: Some(registry_notes()[e]),
        readiness,
    }
}

/// The slugs of a list of coverage records.
pub open spec fn coverage_slugs(s: Seq<ParserCoverage>) -> Seq<Seq<char>> {
    s.map_values(|c: ParserCoverage| c.slug@)
}

/// How healthy a parser is reported to be.
#[derive(Clone, Copy, Debug, PartialEq, Eq, Structural)]
pub enum HealthStatus {
    Healthy,
    Degraded,
    Unhealthy,
}

/// What a static snapshot says in place of a runtime error.
pub const STATIC_HEALTH_NOTE: &'static str =
    "Static factory snapshot only; runtime fetch has not been executed yet.";

/// A parser's health as the factory reports it before any runtime fetch.
pub struct ParserHealth {
    pub bookmaker: String,
    pub status: HealthStatus,
    pub last_error: Option<String>,
    pub consecutive_failures: u32,
    pub events_parsed: u64,
    pub readiness: Option<ParserReadiness>,
    pub diagnostics: Vec<ParserDiagnosticCheck>,
}

/// A health snapshot as plain values.
pub struct HealthView {
    pub bookmaker: Seq<char>,
    pub status: HealthStatus,
    pub last_error: Option<Seq<char>>,
    pub consecutive_failures: u32,
    pub events_parsed: u64,
    pub readiness: Option<ReadinessView>,
    pub diagnostics: Seq<CheckView>,
}

impl View for ParserHealth {
    type V = HealthView;

    open spec fn view(&self) -> HealthView {
        HealthView {
            bookmaker: self.bookmaker@,
            status: self.status,
            last_error: opt_view(self.last_error),
            consecutive_failures: self.consecutive_failures,
            events_parsed: self.events_parsed,
            readiness: readiness_opt_view(self.readiness),
            diagnostics: check_views(self.diagnostics@),
        }
    }
}

/// The status of a static snapshot: degraded where the parser is enabled or
/// keeps a readiness snapshot, unhealthy otherwise.
pub open spec fn snapshot_status(c: CoverageView) -> HealthStatus {
    if c.enabled || c.readiness is Some {
        HealthStatus::Degraded
    } else {
        HealthStatus::Unhealthy
    }
}

/// The error a static snapshot reports: the static note for an enabled
/// parser, else the registry's notes, else the static note.
pub open spec fn snapshot_error(c: CoverageView) -> Option<Seq<char>> {
    if c.enabled {
        Some(STATIC_HEALTH_NOTE@)
    } else {
        match c.notes {
            Some(n) => Some(n),
            None => Some(STATIC_HEALTH_NOTE@),
        }
    }
}

/// The static health snapshot of a coverage record: nothing has run yet,
/// so no failures and no events; the readiness checks are its diagnostics.
pub open spec fn health_of(c: CoverageView) -> HealthView {
    HealthView {
        bookmaker: c.slug,
        status: snapshot_status(c),
        last_error: snapshot_error(c),
        consecutive_failures: 0,
        events_parsed: 0,
        readiness: c.readiness,
        diagnostics: match c.readiness {
            Some(r) => r.checks,
            None => Seq::empty(),
        },
    }
}

/// The bookmakers of a list of health snapshots.
pub open spec fn health_slugs(s: Seq<ParserHealth>) -> Seq<Seq<char>> {
    s.map_values(|h: ParserHealth| h.bookmaker@)
}

/// A text as an owned string.
fn owned(s: &str) -> (r: String)
    ensures
        r@ == s@,
{
    s.to_owned()
}

impl<P: BookmakerParser> ParserFactory<P> {
    /// The parser under the first of `aliases` that is registered, if any.
    fn find_registered(&self, aliases: &Vec<&'static str>) -> (r: Option<Arc<P>>)
        requires
            self.wf(),
        ensures
            match first_registered(*self, static_views(aliases@)) {
                Some(a) => r == Some(registered_handle(*self, a)),
                None => r is None,
            },
    {
        let ghost al = static_views(aliases@);
        let mut j: usize = 0;
        assert(al.skip(0) =~= al);
        while j < aliases.len()
            invariant
                self.wf(),
                al == static_views(aliases@),
                j <= aliases@.len(),
                first_registered(*self, al) == first_registered(*self, al.skip(j as int)),
            decreases aliases@.len() - j,
        {
            let alias = aliases[j];
            assert(al[j as int] == alias@);
            assert(al.skip(j as int)[0] == alias@);
            match self.get(alias) {
                Some(p) => {
                    proof {
                        let i = choose|i: int|
                            0 <= i < self.slugs().len() && self.slugs()[i] == alias@ && self.handles()[i] == p;
                        let c = choose|c: int| 0 <= c < self.slugs().len() && self.slugs()[c] == alias@;
                        if i < c {
                            assert(self.slugs()[i] != self.slugs()[c]);
                        } else if c < i {
                            assert(self.slugs()[c] != self.slugs()[i]);
                        }
                        assert(registered_handle(*self, alias@) == p);
                    }
                    return Some(p);
                },
                None => {
                    assert(al.skip(j + 1) =~= al.skip(j as int).drop_first());
                },
            }
            j = j + 1;
        }
        assert(al.skip(j as int) =~= Seq::<Seq<char>>::empty());
        None
    }

    /// The coverage record of the registry entry `e`, the one at `i`.
    fn coverage_of_entry(&self, e: &BookmakerRegistryEntry, Ghost(i): Ghost<int>) -> (c: ParserCoverage)
        requires
            self.wf(),
            entry_at(*e, i),
        ensures
            c@ == coverage_spec(*self, i),
    {
        let notes = match e.notes {
            Some(n) => Some(owned(n)),
            None => None,
        };
        match self.find_registered(&e.aliases) {
            Some(p) => {
                let enabled = p.is_enabled();
                ParserCoverage {
                    slug: owned(e.slug),
                    name: owned(p.name()),
                    enabled,
                    scan_supported: enabled,
                    execution_supported: e.execution_supported,
                    parser_type: owned(e.parser_type),
                    source: owned(e.source),
                    notes,
                    readiness: p.readiness(),
                }
            },
            None => ParserCoverage {
                slug: owned(e.slug),
                name: owned(e.name),
                enabled: false,
                scan_supported: false,
                execution_supported: e.execution_supported,
                parser_type: owned(e.parser_type),
                source: owned(e.source),
                notes,
                readiness: None,
            },
        }
    }

    /// One coverage record per known bookmaker, sorted by slug.
    pub fn parser_coverage(&self) -> (r: Vec<ParserCoverage>)
        requires
            self.wf(),
        ensures
            coverage_slugs(r@).to_multiset() == registry_slugs().to_multiset(),
            is_sorted_texts(coverage_slugs(r@)),
            forall|k: int|
                0 <= k < r@.len() ==> #[trigger] r@[k]@ == coverage_spec(*self, registry_index(r@[k].slug@)),
    {
        let mut slugs: Vec<String> = Vec::new();
        let mut i: usize = 0;
        while i < 20
            invariant
                i <= 20,
                registry_len() == 20,
                registry_slugs().len() == 20,
                views(slugs@) == registry_slugs().take(i as int),
            decreases 20 - i,
        {
            let e = registry_entry_at(i);
            let ghost before = views(slugs@);
            slugs.push(owned(e.slug));
            assert(views(slugs@) =~= before.push(e.slug@));
            i = i + 1;
            assert(views(slugs@) =~= registry_slugs().take(i as int));
        }
        assert(registry_slugs().take(20) =~= registry_slugs());
        let sorted = sort_strings(slugs);
        let mut out: Vec<ParserCoverage> = Vec::new();
        let mut k: usize = 0;
        while k < sorted.len()
            invariant
                k <= sorted@.len(),
                self.wf(),
                views(sorted@).to_multiset() == registry_slugs().to_multiset(),
                coverage_slugs(out@) == views(sorted@).take(k as int),
                forall|m: int|
                    0 <= m < out@.len() ==> #[trigger] out@[m]@ == coverage_spec(*self, registry_index(out@[m].slug@)),
            decreases sorted@.len() - k,
        {
            let s = sorted[k].as_str();
            assert(views(sorted@)[k as int] == s@);
            assert(views(sorted@).contains(s@));
            proof {
                vstd::seq_lib::to_multiset_contains(views(sorted@), s@);
                vstd::seq_lib::to_multiset_contains(registry_slugs(), s@);
            }
            match registry_entry(s) {
                Some(e) => {
                    let c = self.coverage_of_entry(&e, Ghost(registry_index(s@)));
                    let ghost before = out@;
                    out.push(c);
                    assert(coverage_slugs(out@) =~= coverage_slugs(before).push(s@));
                    assert(coverage_slugs(out@) =~= views(sorted@).take(k + 1));
                    assert forall|m: int|
                        0 <= m < out@.len() implies #[trigger] out@[m]@ == coverage_spec(
                        *self,
                        registry_index(out@[m].slug@),
                    ) by {
                        if m < before.len() {
                            assert(out@[m] == before[m]);
                        }
                    }
                },
                None => {
                    assert(false);
                },
            }
            k = k + 1;
        }
        assert(views(sorted@).take(sorted@.len() as int) =~= views(sorted@));
        out
    }

    /// The status of the static snapshot of `coverage`.
    pub fn snapshot_health_status(coverage: &ParserCoverage) -> (r: HealthStatus)
        ensures
            r == snapshot_status(coverage@),
    {
        if coverage.enabled || coverage.readiness.is_some() {
            HealthStatus::Degraded
        } else {
            HealthStatus::Unhealthy
        }
    }

    /// The error the static snapshot of `coverage` reports.
    pub fn snapshot_health_error(coverage: &ParserCoverage) -> (r: Option<String>)
        ensures
            opt_view(r) == snapshot_error(coverage@),
    {
        if coverage.enabled {
            Some(owned(STATIC_HEALTH_NOTE))
        } else {
            match &coverage.notes {
                Some(n) => Some(owned(n.as_str())),
                None => Some(owned(STATIC_HEALTH_NOTE)),
            }
        }
    }

    /// The static health snapshot of `coverage`.
    pub fn health_snapshot(coverage: &ParserCoverage) -> (h: ParserHealth)
        ensures
            h@ == health_of(coverage@),
    {
        let status = Self::snapshot_health_status(coverage);
        let last_error = Self::snapshot_health_error(coverage);
        let (readiness, diagnostics) = match &coverage.readiness {
            Some(r) => (Some(duplicate_readiness(r)), duplicate_checks(&r.checks)),
            None => (None, Vec::new()),
        };
        let h = ParserHealth {
            bookmaker: owned(coverage.slug.as_str()),
            status,
            last_error,
            consecutive_failures: 0,
            events_parsed: 0,
            readiness,
            diagnostics,
        };
        assert(h@.diagnostics =~= health_of(coverage@).diagnostics);
        h
    }

    /// The static health snapshot of every known bookmaker, sorted by slug.
    pub fn parser_health_snapshots(&self) -> (r: Vec<ParserHealth>)
        requires
            self.wf(),
        ensures
            health_slugs(r@).to_multiset() == registry_slugs().to_multiset(),
            is_sorted_texts(health_slugs(r@)),
            forall|k: int|
                0 <= k < r@.len() ==> #[trigger] r@[k]@ == health_of(
                    coverage_spec(*self, registry_index(r@[k].bookmaker@)),
                ),
    {
        let coverage = self.parser_coverage();
        let mut out: Vec<ParserHealth> = Vec::new();
        let mut k: usize = 0;
        while k < coverage.len()
            invariant
                k <= coverage@.len(),
                health_slugs(out@) == coverage_slugs(coverage@).take(k as int),
                forall|m: int| 0 <= m < out@.len() ==> #[trigger] out@[m]@ == health_of(coverage@[m]@),
            decreases coverage@.len() - k,
        {
            let h = Self::health_snapshot(&coverage[k]);
            let ghost before = out@;
            out.push(h);
            assert(health_slugs(out@) =~= health_slugs(before).push(coverage@[k as int].slug@));
            assert(health_slugs(out@) =~= coverage_slugs(coverage@).take(k + 1));
            assert forall|m: int| 0 <= m < out@.len() implies #[trigger] out@[m]@ == health_of(coverage@[m]@) by {
                if m < before.len() {
                    assert(out@[m] == before[m]);
                }
            }
            k = k + 1;
        }
        assert(coverage_slugs(coverage@).take(coverage@.len() as int) =~= coverage_slugs(coverage@));
        assert(health_slugs(out@) == coverage_slugs(coverage@));
        assert forall|m: int| 0 <= m < out@.len() implies #[trigger] out@[m]@ == health_of(
            coverage_spec(*self, registry_index(out@[m].bookmaker@)),
        ) by {
            assert(health_slugs(out@)[m] == coverage_slugs(coverage@)[m]);
            assert(coverage@[m]@ == coverage_spec(*self, registry_index(coverage@[m].slug@)));
        }
        out
    }
}

} // verus!
