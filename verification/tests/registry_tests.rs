use bookparsers::json::{get, text_field, u64_field, JsonMember, JsonNumber, JsonValue};
use bookparsers::registry::{bookmaker_registry, registry_entry, BookmakerParser, ParserFactory};
use bookparsers::text::{join_strings, lex_less, normalize_whitespace, sort_strings, trim_str};
use bookparsers::readiness::ParserReadiness;
use std::sync::Arc;

struct FakeParser {
    name: &'static str,
    slug: &'static str,
    enabled: bool,
}

impl BookmakerParser for FakeParser {
    fn name(&self) -> &str {
        self.name
    }

    fn slug(&self) -> &str {
        self.slug
    }

    fn is_enabled(&self) -> bool {
        self.enabled
    }

    fn readiness(&self) -> Option<ParserReadiness> {
        None
    }
}

fn parser(slug: &'static str, enabled: bool) -> Arc<FakeParser> {
    Arc::new(FakeParser { name: slug, slug, enabled })
}

#[test]
fn registry_lists_twenty_bookmakers() {
    let registry = bookmaker_registry();
    assert_eq!(registry.len(), 20);
    assert_eq!(registry[0].slug, "pari");
    assert_eq!(registry[6].aliases, vec!["bet24", "_24bet"]);
    assert!(registry.iter().all(|e| !e.execution_supported && e.notes.is_some()));
    let melbet = registry_entry("melbet").expect("melbet is registered");
    assert_eq!(melbet.parser_type, "headless");
    assert_eq!(melbet.source, "crates/parsers/src/melbet.rs");
    assert!(registry_entry("unknown").is_none());
}

#[test]
fn factory_maps_slugs_to_parsers() {
    let mut factory: ParserFactory<FakeParser> = ParserFactory::new();
    factory.insert("pari".to_string(), parser("pari", true));
    factory.insert("zenit".to_string(), parser("zenit", false));
    let bet24 = parser("bet24", true);
    factory.insert("_24bet".to_string(), bet24.clone());
    factory.insert("bet24".to_string(), bet24);
    assert!(factory.contains("pari"));
    assert!(!factory.contains("fonbet"));
    assert_eq!(factory.get("zenit").map(|p| p.slug), Some("zenit"));
    assert!(factory.get("fonbet").is_none());
    assert_eq!(factory.get_all().len(), 4);
    assert_eq!(factory.get_enabled().len(), 3);
    assert_eq!(factory.registered_slugs(), vec!["_24bet", "bet24", "pari", "zenit"]);
    factory.insert("zenit".to_string(), parser("zenit", true));
    assert_eq!(factory.get_all().len(), 4);
    assert_eq!(factory.get_enabled().len(), 4);
}

#[test]
fn json_lookups_take_defaults() {
    let v = JsonValue::Object(vec![
        JsonMember { key: "a".to_string(), value: JsonValue::Str("x".to_string()) },
        JsonMember { key: "n".to_string(), value: JsonValue::Number(JsonNumber::NegInt(-3)) },
        JsonMember { key: "m".to_string(), value: JsonValue::Number(JsonNumber::PosInt(7)) },
    ]);
    assert!(get(&v, "a").is_some());
    assert!(get(&v, "b").is_none());
    assert_eq!(text_field(&v, "a"), "x");
    assert_eq!(text_field(&v, "m"), "");
    assert_eq!(u64_field(&v, "n"), 0);
    assert_eq!(u64_field(&v, "m"), 7);
    assert!(get(&JsonValue::Null, "a").is_none());
}

#[test]
fn text_helpers() {
    assert_eq!(trim_str("  a b \u{a0}"), vec!['a', ' ', 'b']);
    assert_eq!(normalize_whitespace("  a \t b  "), "a b");
    assert!(lex_less("ab", "b"));
    assert!(lex_less("a", "ab"));
    assert!(!lex_less("b", "b"));
    assert_eq!(
        sort_strings(vec!["b".to_string(), "a".to_string(), "b".to_string()]),
        vec!["a", "b", "b"]
    );
    assert_eq!(join_strings(&["x".to_string(), "y".to_string()], "|"), "x|y");
}
