use bookparsers::coverage::{HealthStatus, ParserCoverage, ParserHealth, STATIC_HEALTH_NOTE};
use bookparsers::ligastavok::{session_bootstrap_from, LigaStavokParser};
use bookparsers::melbet_rules::MelbetParser;
use bookparsers::registry::{BookmakerParser, ParserFactory};
use bookparsers::tennisi_table::TennisiParser;
use std::sync::Arc;

fn client() -> Arc<reqwest::Client> {
    Arc::new(reqwest::Client::new())
}

fn ligastavok_factory() -> ParserFactory<LigaStavokParser> {
    let mut factory = ParserFactory::new();
    factory.insert(
        "ligastavok".to_string(),
        Arc::new(LigaStavokParser::new(client(), session_bootstrap_from(None, None, None, None))),
    );
    factory
}

fn coverage_of<P: BookmakerParser>(factory: &ParserFactory<P>, slug: &str) -> ParserCoverage {
    factory.parser_coverage().into_iter().find(|item| item.slug == slug).expect("coverage")
}

fn health_of<P: BookmakerParser>(factory: &ParserFactory<P>, slug: &str) -> ParserHealth {
    factory.parser_health_snapshots().into_iter().find(|item| item.bookmaker == slug).expect("health")
}

#[test]
fn ligastavok_coverage_includes_readiness() {
    let factory = ligastavok_factory();
    let coverage = coverage_of(&factory, "ligastavok");

    assert_eq!(coverage.parser_type, "api");
    assert_eq!(coverage.source, "crates/parsers/src/ligastavok.rs");
    assert!(coverage.readiness.is_some());
    assert!(!coverage.enabled);
}

#[test]
fn ligastavok_health_snapshot_includes_diagnostics() {
    let factory = ligastavok_factory();
    let health = health_of(&factory, "ligastavok");

    assert!(matches!(health.status, HealthStatus::Degraded));
    assert!(health.readiness.is_some());
    assert!(health.diagnostics.iter().any(|check| check.code == "qrator_unattended_bootstrap_unverified"));
}

#[test]
fn melbet_coverage_matches_rust_parser_metadata() {
    let mut factory = ParserFactory::new();
    factory.insert("melbet".to_string(), Arc::new(MelbetParser::new(client())));
    let coverage = coverage_of(&factory, "melbet");

    assert_eq!(coverage.parser_type, "headless");
    assert_eq!(coverage.source, "crates/parsers/src/melbet.rs");
    assert!(coverage.enabled);
    assert!(coverage.scan_supported);
    assert_eq!(coverage.notes.as_deref(), Some("Rust headless parser registered from legacy Playwright flow."));
}

#[test]
fn tennisi_coverage_matches_rust_parser_metadata() {
    let mut factory = ParserFactory::new();
    factory.insert("tennisi".to_string(), Arc::new(TennisiParser::new(client())));
    let coverage = coverage_of(&factory, "tennisi");

    assert_eq!(coverage.parser_type, "api");
    assert_eq!(coverage.source, "crates/parsers/src/tennisi.rs");
    assert!(coverage.enabled);
    assert!(coverage.scan_supported);
    assert_eq!(
        coverage.notes.as_deref(),
        Some("Rust HTTP parser already advances via direct Tennisi line/live HTML responses plus category discovery, so it is not DOM-brittle diagnostic-only.")
    );
}

#[test]
fn enabled_parser_snapshot_reports_the_static_note() {
    let mut factory = ParserFactory::new();
    factory.insert("melbet".to_string(), Arc::new(MelbetParser::new(client())));
    let health = health_of(&factory, "melbet");

    assert!(matches!(health.status, HealthStatus::Degraded));
    assert_eq!(health.last_error.as_deref(), Some(STATIC_HEALTH_NOTE));
    assert_eq!(health.consecutive_failures, 0);
    assert_eq!(health.events_parsed, 0);
}

#[test]
fn coverage_lists_every_known_bookmaker_by_slug() {
    let factory = ligastavok_factory();
    let coverage = factory.parser_coverage();
    let slugs: Vec<&str> = coverage.iter().map(|c| c.slug.as_str()).collect();
    let mut sorted = slugs.clone();
    sorted.sort();
    assert_eq!(slugs.len(), 20);
    assert_eq!(slugs, sorted);
    assert_eq!(slugs[0], "baltbet");

    let fonbet = coverage_of(&factory, "fonbet");
    assert_eq!(fonbet.name, "Fonbet");
    assert!(!fonbet.enabled);
    assert!(!fonbet.scan_supported);
    assert!(!fonbet.execution_supported);
    assert!(fonbet.readiness.is_none());
    assert_eq!(fonbet.notes.as_deref(), Some("Rust parser registered for market scanning."));

    let liga = coverage_of(&factory, "ligastavok");
    assert_eq!(liga.name, "Liga Stavok");
}

#[test]
fn unregistered_bookmaker_snapshot_is_unhealthy_with_its_notes() {
    let factory = ligastavok_factory();
    let health = health_of(&factory, "fonbet");
    assert!(matches!(health.status, HealthStatus::Unhealthy));
    assert_eq!(health.last_error.as_deref(), Some("Rust parser registered for market scanning."));
    assert!(health.readiness.is_none());
    assert!(health.diagnostics.is_empty());
    let snapshots = factory.parser_health_snapshots();
    assert_eq!(snapshots.len(), 20);
}
