//! Verified core of the bookmaker parsers: proxy pool bookkeeping, parser
//! registry, session bootstrap rules, runtime diagnostics and text helpers.

pub mod clock;
pub mod coverage;
pub mod json;
pub mod ligastavok;
pub mod ligastavok_events;
pub mod ligastavok_markets;
pub mod marathon;
pub mod http;
pub mod model;
pub mod pattern;
pub mod mbet;
pub mod melbet_annotate;
pub mod melbet_http_api;
pub mod melbet_items;
pub mod melbet_readiness;
pub mod melbet_rules;
pub mod melbet_runtime;
pub mod melbet_snapshot;
pub mod melbet_sweep;
pub mod melbet_transport;
pub mod olimp;
pub mod olimpbet;
pub mod pari;
pub mod proxy;
pub mod readiness;
pub mod registry;
pub mod rest;
pub mod sport;
pub mod sportbet;
pub mod stealth;
pub mod tennis;
pub mod tennisi;
pub mod tennisi_odds;
pub mod tennisi_table;
pub mod tennisi_time;
pub mod text;
pub mod url;
