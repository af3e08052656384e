//! The bookmakers the scanner knows, and the factory that holds their
//! parsers.

use crate::text::{insert_sorted_unique, is_strictly_sorted, lex_lt, sort_strings, static_views, str_eq, views, is_sorted_texts};
use std::sync::Arc;
use crate::readiness::{readiness_opt_view, ParserReadiness, ReadinessView};
use vstd::prelude::*;

verus! {

/// One known bookmaker: its slug and display name, the parser slugs that
/// serve it, how its parser works, where its source lives, whether bets can
/// be placed, and a note.
#[derive(Debug)]
pub struct BookmakerRegistryEntry {
    pub slug: &'static str,
    pub name: &'static str,
    pub aliases: Vec<&'static str>,
    pub parser_type: &'static str,
    pub source: &'static str,
    pub execution_supported: bool,
    pub notes: Option<&'static str>,
}

/// Number of known bookmakers.
pub open spec fn registry_len() -> nat {
    20
}
/// The slugs of the known bookmakers, in registry order.
pub open spec fn registry_slugs() -> Seq<Seq<char>> {
    seq![
        "pari"@,
        "fonbet"@,
        "betm"@,
        "bettery"@,
        "marathon"@,
        "mbet"@,
        "bet24"@,
        "leon"@,
        "sportbet"@,
        "tennisi"@,
        "tennis"@,
        "melbet"@,
        "winline"@,
        "zenit"@,
        "betcity"@,
        "baltbet"@,
        "olimpbet"@,
        "betboom"@,
        "ligastavok"@,
        "olimp"@,
    ]
}
/// Their display names.
pub open spec fn registry_names() -> Seq<Seq<char>> {
    seq![
        "Pari"@,
        "Fonbet"@,
        "Bet-M"@,
        "Bettery"@,
        "Marathon"@,
        "мБет"@,
        "24bet"@,
        "Leon"@,
        "Sportbet"@,
        "Tennisi"@,
        "Tennis (ATP/WTA)"@,
        "Melbet"@,
        "Winline"@,
        "Zenit"@,
        "Betcity"@,
        "Baltbet"@,
        "Olimpbet"@,
        "BetBoom"@,
        "Liga Stavok"@,
        "Olimp"@,
    ]
}
/// The parser slugs that serve each.
pub open spec fn registry_aliases() -> Seq<Seq<Seq<char>>> {
    seq![
        seq!["pari"@],
        seq!["fonbet"@],
        seq!["betm"@],
        seq!["bettery"@],
        seq!["marathon"@],
        seq!["mbet"@],
        seq!["bet24"@, "_24bet"@],
        seq!["leon"@],
        seq!["sportbet"@],
        seq!["tennisi"@],
        seq!["tennis"@],
        seq!["melbet"@],
        seq!["winline"@],
        seq!["zenit"@],
        seq!["betcity"@],
        seq!["baltbet"@],
        seq!["olimpbet"@],
        seq!["betboom"@],
        seq!["ligastavok"@],
        seq!["olimp"@],
    ]
}
/// How each parser works.
pub open spec fn registry_types() -> Seq<Seq<char>> {
    seq![
        "api"@,
        "api"@,
        "headless"@,
        "api"@,
        "api"@,
        "api"@,
        "api"@,
        "api"@,
        "api"@,
        "api"@,
        "api"@,
        "headless"@,
        "api"@,
        "api"@,
        "api"@,
        "api"@,
        "api"@,
        "api"@,
        "api"@,
        "api"@,
    ]
}
/// Where each parser's source lives.
pub open spec fn registry_sources() -> Seq<Seq<char>> {
    seq![
        "crates/parsers/src/pari.rs"@,
        "crates/parsers/src/fonbet.rs"@,
        "crates/parsers/src/betm.rs"@,
        "crates/parsers/src/bettery.rs"@,
        "crates/parsers/src/marathon.rs"@,
        "crates/parsers/src/mbet.rs"@,
        "crates/parsers/src/bet24.rs"@,
        "crates/parsers/src/leon.rs"@,
        "crates/parsers/src/sportbet.rs"@,
        "crates/parsers/src/tennisi.rs"@,
        "crates/parsers/src/tennis.rs"@,
        "crates/parsers/src/melbet.rs"@,
        "crates/parsers/src/winline.rs"@,
        "crates/parsers/src/zenit.rs"@,
        "crates/parsers/src/betcity.rs"@,
        "crates/parsers/src/baltbet.rs"@,
        "crates/parsers/src/olimpbet.rs"@,
        "crates/parsers/src/betboom.rs"@,
        "crates/parsers/src/ligastavok.rs"@,
        "crates/parsers/src/olimp.rs"@,
    ]
}
/// The note on each.
pub open spec fn registry_notes() -> Seq<Seq<char>> {
    seq![
        "Rust parser registered for market scanning."@,
        "Rust parser registered for market scanning."@,
        "Rust headless parser probes legacy and current Bet-M public routes, but production scanning stays disabled until public feed coverage is verified."@,
        "Rust parser registered for market scanning."@,
        "Rust parser registered for market scanning."@,
        "мБет API parser with HTML fallback, proxy rotation, and comprehensive market support (1X2, Total, Corners, Cards). Target: 4000+ events."@,
        "Rust parser registered for market scanning."@,
        "Rust parser registered for market scanning."@,
        "Rust parser registered for market scanning."@,
        "Rust HTTP parser already advances via direct Tennisi line/live HTML responses plus category discovery, so it is not DOM-brittle diagnostic-only."@,
        "Production tennis parser for ATP/WTA tournaments with Grand Slams, Masters, 500/250 tournaments. Supports match winner, set betting, game betting, and correct score markets. Targets 3000+ events daily."@,
        "Rust headless parser registered from legacy Playwright flow."@,
        "Rust HTTP parser registered for market scanning."@,
        "Pure HTTP parser with imprinthash authentication is registered for scan coverage and runtime diagnostics; readiness now keeps Zenit below production because recent strict nightly runs regressed to zero events after an earlier runtime pass."@,
        "HTTP parser is registered for scan coverage and runtime diagnostics; a fresh direct endpoint probe shows Betcity still returns healthy live/prematch volume, so the zero-event nightly currently looks like transient noise rather than a structural promotion blocker."@,
        "Pure HTTP parser with live JSON, banner metadata fallback, and legacy prematch groups; strict nightly KPI progress is tracked in readiness diagnostics."@,
        "Rust parser is registered and enabled for market scanning."@,
        "Rendered sport-page parser is registered for diagnostics, but production scanning stays disabled until league expansion covers target live/prematch volumes."@,
        "Sport-scoped HTTP parser with tournament discovery remains disabled until QRATOR bootstrap is proven in runtime diagnostics."@,
        "HTTP parser is re-enabled through the direct Olimp competitions-with-events API path; readiness now locks one bounded 2026-04-18 runtime probe showing non-empty live and prematch event volume while production promotion remains gated."@,
    ]
}
/// `e` is the registry's entry at `i`; no entry supports placing bets.
pub open spec fn entry_at(e: BookmakerRegistryEntry, i: int) -> bool {
    &&& e.slug@ == registry_slugs()[i]
    &&& e.name@ == registry_names()[i]
    &&& static_views(e.aliases@) == registry_aliases()[i]
    &&& e.parser_type@ == registry_types()[i]
    &&& e.source@ == registry_sources()[i]
    &&& !e.execution_supported
    &&& (e.notes matches Some(n) && n@ == registry_notes()[i])
}

/// The registry's entry at `i`.
#[verifier::rlimit(60)]
pub fn registry_entry_at(i: usize) -> (e: BookmakerRegistryEntry)
    requires
        i < registry_len(),
    ensures
        entry_at(e, i as int),
{
    let e = match i {
        0 => BookmakerRegistryEntry {
            slug: "pari",
            name: "Pari",
            aliases: vec!["pari"],
            parser_type: "api",
            source: "crates/parsers/src/pari.rs",
            execution_supported: false,
            notes: Some("Rust parser registered for market scanning."),
        },
        1 => BookmakerRegistryEntry {
            slug: "fonbet",
            name: "Fonbet",
            aliases: vec!["fonbet"],
            parser_type: "api",
            source: "crates/parsers/src/fonbet.rs",
            execution_supported: false,
            notes: Some("Rust parser registered for market scanning."),
        },
        2 => BookmakerRegistryEntry {
            slug: "betm",
            name: "Bet-M",
            aliases: vec!["betm"],
            parser_type: "headless",
            source: "crates/parsers/src/betm.rs",
            execution_supported: false,
            notes: Some("Rust headless parser probes legacy and current Bet-M public routes, but production scanning stays disabled until public feed coverage is verified."),
        },
        3 => BookmakerRegistryEntry {
            slug: "bettery",
            name: "Bettery",
            aliases: vec!["bettery"],
            parser_type: "api",
            source: "crates/parsers/src/bettery.rs",
            execution_supported: false,
            notes: Some("Rust parser registered for market scanning."),
        },
        4 => BookmakerRegistryEntry {
            slug: "marathon",
            name: "Marathon",
            aliases: vec!["marathon"],
            parser_type: "api",
            source: "crates/parsers/src/marathon.rs",
            execution_supported: false,
            notes: Some("Rust parser registered for market scanning."),
        },
        5 => BookmakerRegistryEntry {
            slug: "mbet",
            name: "мБет",
            aliases: vec!["mbet"],
            parser_type: "api",
            source: "crates/parsers/src/mbet.rs",
            execution_supported: false,
            notes: Some("мБет API parser with HTML fallback, proxy rotation, and comprehensive market support (1X2, Total, Corners, Cards). Target: 4000+ events."),
        },
        6 => BookmakerRegistryEntry {
            slug: "bet24",
            name: "24bet",
            aliases: vec!["bet24", "_24bet"],
            parser_type: "api",
            source: "crates/parsers/src/bet24.rs",
            execution_supported: false,
            notes: Some("Rust parser registered for market scanning."),
        },
        7 => BookmakerRegistryEntry {
            slug: "leon",
            name: "Leon",
            aliases: vec!["leon"],
            parser_type: "api",
            source: "crates/parsers/src/leon.rs",
            execution_supported: false,
            notes: Some("Rust parser registered for market scanning."),
        },
        8 => BookmakerRegistryEntry {
            slug: "sportbet",
            name: "Sportbet",
            aliases: vec!["sportbet"],
            parser_type: "api",
            source: "crates/parsers/src/sportbet.rs",
            execution_supported: false,
            notes: Some("Rust parser registered for market scanning."),
        },
        9 => BookmakerRegistryEntry {
            slug: "tennisi",
            name: "Tennisi",
            aliases: vec!["tennisi"],
            parser_type: "api",
            source: "crates/parsers/src/tennisi.rs",
            execution_supported: false,
            notes: Some("Rust HTTP parser already advances via direct Tennisi line/live HTML responses plus category discovery, so it is not DOM-brittle diagnostic-only."),
        },
        10 => BookmakerRegistryEntry {
            slug: "tennis",
            name: "Tennis (ATP/WTA)",
            aliases: vec!["tennis"],
            parser_type: "api",
            source: "crates/parsers/src/tennis.rs",
            execution_supported: false,
            notes: Some("Production tennis parser for ATP/WTA tournaments with Grand Slams, Masters, 500/250 tournaments. Supports match winner, set betting, game betting, and correct score markets. Targets 3000+ events daily."),
        },
        11 => BookmakerRegistryEntry {
            slug: "melbet",
            name: "Melbet",
            aliases: vec!["melbet"],
            parser_type: "headless",
            source: "crates/parsers/src/melbet.rs",
            execution_supported: false,
            notes: Some("Rust headless parser registered from legacy Playwright flow."),
        },
        12 => BookmakerRegistryEntry {
            slug: "winline",
            name: "Winline",
            aliases: vec!["winline"],
            parser_type: "api",
            source: "crates/parsers/src/winline.rs",
            execution_supported: false,
            notes: Some("Rust HTTP parser registered for market scanning."),
        },
        13 => BookmakerRegistryEntry {
            slug: "zenit",
            name: "Zenit",
            aliases: vec!["zenit"],
            parser_type: "api",
            source: "crates/parsers/src/zenit.rs",
            execution_supported: false,
            notes: Some("Pure HTTP parser with imprinthash authentication is registered for scan coverage and runtime diagnostics; readiness now keeps Zenit below production because recent strict nightly runs regressed to zero events after an earlier runtime pass."),
        },
        14 => BookmakerRegistryEntry {
            slug: "betcity",
            name: "Betcity",
            aliases: vec!["betcity"],
            parser_type: "api",
            source: "crates/parsers/src/betcity.rs",
            execution_supported: false,
            notes: Some("HTTP parser is registered for scan coverage and runtime diagnostics; a fresh direct endpoint probe shows Betcity still returns healthy live/prematch volume, so the zero-event nightly currently looks like transient noise rather than a structural promotion blocker."),
        },
        15 => BookmakerRegistryEntry {
            slug: "baltbet",
            name: "Baltbet",
            aliases: vec!["baltbet"],
            parser_type: "api",
            source: "crates/parsers/src/baltbet.rs",
            execution_supported: false,
            notes: Some("Pure HTTP parser with live JSON, banner metadata fallback, and legacy prematch groups; strict nightly KPI progress is tracked in readiness diagnostics."),
        },
        16 => BookmakerRegistryEntry {
            slug: "olimpbet",
            name: "Olimpbet",
            aliases: vec!["olimpbet"],
            parser_type: "api",
            source: "crates/parsers/src/olimpbet.rs",
            execution_supported: false,
            notes: Some("Rust parser is registered and enabled for market scanning."),
        },
        17 => BookmakerRegistryEntry {
            slug: "betboom",
            name: "BetBoom",
            aliases: vec!["betboom"],
            parser_type: "api",
            source: "crates/parsers/src/betboom.rs",
            execution_supported: false,
            notes: Some("Rendered sport-page parser is registered for diagnostics, but production scanning stays disabled until league expansion covers target live/prematch volumes."),
        },
        18 => BookmakerRegistryEntry {
            slug: "ligastavok",
            name: "Liga Stavok",
            aliases: vec!["ligastavok"],
            parser_type: "api",
            source: "crates/parsers/src/ligastavok.rs",
            execution_supported: false,
            notes: Some("Sport-scoped HTTP parser with tournament discovery remains disabled until QRATOR bootstrap is proven in runtime diagnostics."),
        },
        _ => BookmakerRegistryEntry {
            slug: "olimp",
            name: "Olimp",
            aliases: vec!["olimp"],
            parser_type: "api",
            source: "crates/parsers/src/olimp.rs",
            execution_supported: false,
            notes: Some("HTTP parser is re-enabled through the direct Olimp competitions-with-events API path; readiness now locks one bounded 2026-04-18 runtime probe showing non-empty live and prematch event volume while production promotion remains gated."),
        },
    };
    assert(static_views(e.aliases@) =~= registry_aliases()[i as int]);
    e
}

/// The known bookmakers, in registry order.
pub fn bookmaker_registry() -> (r: Vec<BookmakerRegistryEntry>)
    ensures
        r@.len() == registry_len(),
        forall|i: int| 0 <= i < registry_len() ==> entry_at(#[trigger] r@[i], i),
{
    let mut r: Vec<BookmakerRegistryEntry> = Vec::new();
    let mut i: usize = 0;
    while i < 20
        invariant
            i <= 20,
            registry_len() == 20,
            r@.len() == i,
            forall|k: int| 0 <= k < i ==> entry_at(#[trigger] r@[k], k),
        decreases 20 - i,
    {
        r.push(registry_entry_at(i));
        i = i + 1;
    }
    r
}

/// The index of the first registry entry with slug `slug`.
pub open spec fn registry_index(slug: Seq<char>) -> int {
    choose|i: int| 0 <= i < registry_len() && registry_slugs()[i] == slug && forall|j: int|
        0 <= j < i ==> registry_slugs()[j] != slug
}

/// A bookmaker that serves several parser slugs, or none.
pub open spec fn aliased_by(e: int, alias: Seq<char>) -> bool {
    registry_aliases()[e].contains(alias)
}

/// A shared handle on the same value (`Arc::clone`): the clone points at
/// the allocation `a` points at.
#[verifier::external_body]
pub fn share<P>(a: &Arc<P>) -> (r: Arc<P>)
    ensures
        r == *a,
{
    Arc::clone(a)
}

/// A bookmaker parser: the trait every parser implements.
pub trait BookmakerParser {
    /// Its display name; each parser says which, by overriding this or
    /// through the contract of `name`.
    open spec fn name_spec(&self) -> Seq<char> {
        arbitrary()
    }

    /// Its slug; each parser says which.
    open spec fn slug_spec(&self) -> Seq<char> {
        arbitrary()
    }

    /// Whether it is enabled; each parser says which.
    open spec fn enabled_spec(&self) -> bool {
        arbitrary()
    }

    /// Its display name.
    fn name(&self) -> (r: &str)
        ensures
            r@ == self.name_spec(),
    ;

    /// Its slug.
    fn slug(&self) -> (r: &str)
        ensures
            r@ == self.slug_spec(),
    ;

    /// Whether it is enabled.
    fn is_enabled(&self) -> (r: bool)
        ensures
            r == self.enabled_spec(),
    ;

    /// Its readiness snapshot, where it keeps one; each parser says which.
    open spec fn readiness_spec(&self) -> Option<ReadinessView> {
        arbitrary()
    }

    /// Its readiness snapshot, where it keeps one.
    fn readiness(&self) -> (r: Option<ParserReadiness>)
        ensures
            readiness_opt_view(r) == self.readiness_spec(),
    ;
}

/// The enabled parsers among `ps`, in order.
pub open spec fn enabled_only<P: BookmakerParser>(ps: Seq<Arc<P>>) -> Seq<Arc<P>>
    decreases ps.len(),
{
    if ps.len() == 0 {
        ps
    } else if ps.last().enabled_spec() {
        enabled_only(ps.drop_last()).push(ps.last())
    } else {
        enabled_only(ps.drop_last())
    }
}

/// Every enabled parser is one of the parsers, and is enabled.
proof fn lemma_enabled_only_subset<P: BookmakerParser>(ps: Seq<Arc<P>>)
    ensures
        forall|i: int|
            0 <= i < enabled_only(ps).len() ==> ps.contains(#[trigger] enabled_only(ps)[i])
                && enabled_only(ps)[i].enabled_spec(),
        enabled_only(ps).len() <= ps.len(),
    decreases ps.len(),
{
    if ps.len() > 0 {
        lemma_enabled_only_subset(ps.drop_last());
        let rest = enabled_only(ps.drop_last());
        assert forall|i: int| 0 <= i < enabled_only(ps).len() implies ps.contains(
            #[trigger] enabled_only(ps)[i],
        ) && enabled_only(ps)[i].enabled_spec() by {
            if i < rest.len() {
                assert(enabled_only(ps)[i] == rest[i]);
                let k = choose|k: int| 0 <= k < ps.drop_last().len() && ps.drop_last()[k] == rest[i];
                assert(ps[k] == ps.drop_last()[k]);
            } else {
                assert(enabled_only(ps)[i] == ps[ps.len() - 1]);
            }
        }
    }
}

/// The enabled parsers are registered parsers: each of them is among all
/// the parsers, and reports itself enabled.
pub proof fn law_enabled_are_registered<P: BookmakerParser>(f: ParserFactory<P>)
    requires
        f.wf(),
    ensures
        forall|i: int|
            0 <= i < enabled_only(f.handles()).len() ==> f.handles().contains(
                #[trigger] enabled_only(f.handles())[i],
            ) && enabled_only(f.handles())[i].enabled_spec(),
        enabled_only(f.handles()).len() <= f.handles().len(),
        enabled_only(f.handles()).len() == enabled_count(f.handles()),
{
    lemma_enabled_only_subset(f.handles());
    lemma_enabled_count(f.handles());
}

/// How many registrations hold an enabled parser (a parser registered
/// under two slugs counts twice).
pub open spec fn enabled_count<P: BookmakerParser>(ps: Seq<Arc<P>>) -> nat
    decreases ps.len(),
{
    if ps.len() == 0 {
        0
    } else {
        enabled_count(ps.drop_last()) + if ps.last().enabled_spec() {
            1nat
        } else {
            0nat
        }
    }
}

proof fn lemma_enabled_count<P: BookmakerParser>(ps: Seq<Arc<P>>)
    ensures
        enabled_only(ps).len() == enabled_count(ps),
    decreases ps.len(),
{
    if ps.len() > 0 {
        lemma_enabled_count(ps.drop_last());
    }
}

/// The registered slugs come out strictly sorted: each registered slug
/// once, a text among them exactly when a parser is registered under it,
/// as many as there are registrations.
pub proof fn law_registered_slugs_sorted_unique<P: BookmakerParser>(f: ParserFactory<P>, r: Seq<Seq<char>>)
    requires
        f.wf(),
        r.to_multiset() == f.slugs().to_multiset(),
        is_sorted_texts(r),
    ensures
        is_strictly_sorted(r),
        r.len() == f.slugs().len(),
        forall|s: Seq<char>| r.contains(s) <==> f.has(s),
{
    broadcast use {vstd::seq_lib::to_multiset_len, vstd::seq_lib::to_multiset_contains};

    let sl = f.slugs();
    assert(sl.no_duplicates()) by {
        assert forall|i: int, j: int| 0 <= i < sl.len() && 0 <= j < sl.len() && i != j implies sl[i] != sl[j] by {
            if i < j {
            } else {
            }
        }
    }
    sl.lemma_multiset_has_no_duplicates();
    r.lemma_multiset_has_no_duplicates_conv();
    assert(r.len() == r.to_multiset().len());
    assert(sl.len() == sl.to_multiset().len());
    assert forall|s: Seq<char>| r.contains(s) <==> f.has(s) by {
        assert(r.contains(s) <==> r.to_multiset().count(s) > 0);
        assert(sl.contains(s) <==> sl.to_multiset().count(s) > 0);
    }
    assert forall|i: int, j: int| 0 <= i < j < r.len() implies lex_lt(#[trigger] r[i], #[trigger] r[j]) by {
        assert(r[i] != r[j]);
        crate::text::lemma_lex_total(r[i], r[j]);
    }
}

/// The parsers the scanner runs, by slug.
pub struct ParserFactory<P> {
    parsers: Vec<(String, Arc<P>)>,
}

impl<P: BookmakerParser> ParserFactory<P> {
    /// The slugs, in the order the parsers were registered.
    pub closed spec fn slugs(&self) -> Seq<Seq<char>> {
        self.parsers@.map_values(|e: (String, Arc<P>)| e.0@)
    }

    /// The parsers, in the same order.
    pub closed spec fn handles(&self) -> Seq<Arc<P>> {
        self.parsers@.map_values(|e: (String, Arc<P>)| e.1)
    }

    /// No slug is registered twice.
    pub open spec fn wf(&self) -> bool {
        &&& self.slugs().len() == self.handles().len()
        &&& forall|i: int, j: int| 0 <= i < j < self.slugs().len() ==> self.slugs()[i] != self.slugs()[j]
    }

    /// Whether `slug` is registered.
    pub open spec fn has(&self, slug: Seq<char>) -> bool {
        self.slugs().contains(slug)
    }

    /// A factory with no parsers.
    pub fn new() -> (r: ParserFactory<P>)
        ensures
            r.wf(),
            r.slugs().len() == 0,
    {
        let r = ParserFactory { parsers: Vec::new() };
        assert(r.slugs() =~= Seq::<Seq<char>>::empty());
        assert(r.handles() =~= Seq::<Arc<P>>::empty());
        r
    }

    /// Where `slug` is registered.
    fn position(&self, slug: &str) -> (r: Option<usize>)
        requires
            self.wf(),
        ensures
            match r {
                Some(i) => i < self.slugs().len() && self.slugs()[i as int] == slug@,
                None => !self.has(slug@),
            },
    {
        let mut i: usize = 0;
        while i < self.parsers.len()
            invariant
                i <= self.parsers@.len(),
                self.slugs().len() == self.parsers@.len(),
                forall|k: int| 0 <= k < i ==> #[trigger] self.slugs()[k] != slug@,
            decreases self.parsers@.len() - i,
        {
            assert(self.slugs()[i as int] == self.parsers@[i as int].0@);
            if str_eq(self.parsers[i].0.as_str(), slug) {
                return Some(i);
            }
            i = i + 1;
        }
        None
    }

    /// Registers `parser` under `slug`, replacing any parser registered
    /// under it before (a map insert).
    pub fn insert(&mut self, slug: String, parser: Arc<P>)
        requires
            old(self).wf(),
        ensures
            final(self).wf(),
            final(self).has(slug@),
            forall|s: Seq<char>| final(self).has(s) <==> (old(self).has(s) || s == slug@),
            forall|i: int| 0 <= i < final(self).slugs().len() && final(self).slugs()[i] == slug@ ==> final(self).handles()[i] == parser,
            forall|i: int, j: int| 0 <= i < old(self).slugs().len() && 0 <= j < final(self).slugs().len() && old(self).slugs()[i] != slug@ && final(self).slugs()[j] == old(self).slugs()[i] ==> final(self).handles()[j] == old(self).handles()[i],
    {
        let ghost before_slugs = self.slugs();
        let ghost before_handles = self.handles();
        let ghost sv = slug@;
        match self.position(slug.as_str()) {
            Some(i) => {
                self.parsers.set(i, (slug, parser));
                assert(self.slugs() =~= before_slugs.update(i as int, sv));
                assert(self.handles() =~= before_handles.update(i as int, parser));
                assert(self.slugs() =~= before_slugs);
                assert(self.slugs()[i as int] == sv);
                assert forall|t: Seq<char>| self.has(t) <==> (before_slugs.contains(t) || t == sv) by {
                    if t == sv {
                        assert(before_slugs[i as int] == t);
                    }
                }
                assert forall|a: int| 0 <= a < self.slugs().len() && self.slugs()[a] == sv implies self.handles()[a] == parser by {
                    if a != i {
                        assert(before_slugs[a] == before_slugs[i as int]);
                    }
                }
            },
            None => {
                self.parsers.push((slug, parser));
                assert(self.slugs() =~= before_slugs.push(sv));
                assert(self.handles() =~= before_handles.push(parser));
                let ghost n = before_slugs.len();
                assert(self.slugs()[n as int] == sv);
                assert forall|a: int, b: int| 0 <= a < b < self.slugs().len() implies self.slugs()[a] != self.slugs()[b] by {
                    if b == n {
                        assert(before_slugs[a] == self.slugs()[a]);
                        assert(before_slugs.contains(before_slugs[a]));
                    }
                }
                assert forall|t: Seq<char>| self.has(t) <==> (before_slugs.contains(t) || t == sv) by {
                    if self.has(t) {
                        let k = choose|k: int| 0 <= k < self.slugs().len() && self.slugs()[k] == t;
                        if k < n {
                            assert(before_slugs[k] == t);
                        }
                    }
                    if before_slugs.contains(t) {
                        let k = choose|k: int| 0 <= k < before_slugs.len() && before_slugs[k] == t;
                        assert(self.slugs()[k] == t);
                    }
                }
                assert forall|a: int| 0 <= a < self.slugs().len() && self.slugs()[a] == sv implies self.handles()[a] == parser by {
                    if a < n {
                        assert(before_slugs[a] == sv);
                        assert(before_slugs.contains(sv));
                    }
                }
            },
        }
    }

    /// The parser registered under `slug`, if any.
    pub fn get(&self, slug: &str) -> (r: Option<Arc<P>>)
        requires
            self.wf(),
        ensures
            r is Some <==> self.has(slug@),
            r matches Some(p) ==> exists|i: int| 0 <= i < self.slugs().len() && self.slugs()[i] == slug@ && self.handles()[i] == p,
    {
        match self.position(slug) {
            Some(i) => {
                assert(self.handles()[i as int] == self.parsers@[i as int].1);
                Some(share(&self.parsers[i].1))
            },
            None => None,
        }
    }

    /// Whether a parser is registered under `slug`.
    pub fn contains(&self, slug: &str) -> (r: bool)
        requires
            self.wf(),
        ensures
            r == self.has(slug@),
    {
        self.position(slug).is_some()
    }

    /// All registered parsers, in registration order.
    pub fn get_all(&self) -> (r: Vec<Arc<P>>)
        requires
            self.wf(),
        ensures
            r@ == self.handles(),
    {
        let mut r: Vec<Arc<P>> = Vec::new();
        let mut i: usize = 0;
        while i < self.parsers.len()
            invariant
                i <= self.parsers@.len(),
                self.handles().len() == self.parsers@.len(),
                r@ == self.handles().take(i as int),
            decreases self.parsers@.len() - i,
        {
            assert(self.handles()[i as int] == self.parsers@[i as int].1);
            r.push(share(&self.parsers[i].1));
            i = i + 1;
            assert(r@ =~= self.handles().take(i as int));
        }
        assert(self.handles().take(self.handles().len() as int) =~= self.handles());
        r
    }

    /// The enabled parsers, in registration order.
    pub fn get_enabled(&self) -> (r: Vec<Arc<P>>)
        requires
            self.wf(),
        ensures
            r@ == enabled_only(self.handles()),
    {
        let mut r: Vec<Arc<P>> = Vec::new();
        let mut i: usize = 0;
        while i < self.parsers.len()
            invariant
                i <= self.parsers@.len(),
                self.handles().len() == self.parsers@.len(),
                r@ == enabled_only(self.handles().take(i as int)),
            decreases self.parsers@.len() - i,
        {
            assert(self.handles()[i as int] == self.parsers@[i as int].1);
            let ghost pre = self.handles().take(i as int);
            assert(self.handles().take(i + 1).drop_last() =~= pre);
            assert(self.handles().take(i + 1).last() == self.handles()[i as int]);
            if self.parsers[i].1.is_enabled() {
                r.push(share(&self.parsers[i].1));
            }
            i = i + 1;
        }
        assert(self.handles().take(self.handles().len() as int) =~= self.handles());
        r
    }

    /// The registered slugs, sorted.
    pub fn registered_slugs(&self) -> (r: Vec<String>)
        requires
            self.wf(),
        ensures
            views(r@).to_multiset() == self.slugs().to_multiset(),
            is_sorted_texts(views(r@)),
    {
        let mut keys: Vec<String> = Vec::new();
        let mut i: usize = 0;
        while i < self.parsers.len()
            invariant
                i <= self.parsers@.len(),
                self.slugs().len() == self.parsers@.len(),
                views(keys@) == self.slugs().take(i as int),
            decreases self.parsers@.len() - i,
        {
            assert(self.slugs()[i as int] == self.parsers@[i as int].0@);
            let ghost prev = views(keys@);
            let k = self.parsers[i].0.clone();
            let ghost kv = k@;
            keys.push(k);
            assert(views(keys@) =~= prev.push(kv));
            i = i + 1;
            assert(views(keys@) =~= self.slugs().take(i as int));
        }
        assert(self.slugs().take(self.slugs().len() as int) =~= self.slugs());
        sort_strings(keys)
    }
}

/// The first registry entry with slug `slug`, if any.
pub fn registry_entry(slug: &str) -> (r: Option<BookmakerRegistryEntry>)
    ensures
        r is Some <==> registry_slugs().contains(slug@),
        r matches Some(e) ==> entry_at(e, registry_index(slug@)) && e.slug@ == slug@,
{
    let mut i: usize = 0;
    while i < 20
        invariant
            i <= 20,
            registry_len() == 20,
            registry_slugs().len() == 20,
            forall|k: int| 0 <= k < i ==> #[trigger] registry_slugs()[k] != slug@,
        decreases 20 - i,
    {
        let e = registry_entry_at(i);
        if str_eq(e.slug, slug) {
            proof {
                let c = registry_index(slug@);
                assert(registry_slugs()[i as int] == slug@);
                assert(0 <= c < registry_len() && registry_slugs()[c] == slug@ && forall|j: int| 0 <= j < c ==> registry_slugs()[j] != slug@);
                assert(c == i as int);
            }
            return Some(e);
        }
        i = i + 1;
    }
    None
}

} // verus!
