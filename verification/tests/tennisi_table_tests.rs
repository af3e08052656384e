use bookparsers::json::{JsonNumber, JsonValue};
use bookparsers::model::OddsType;
use bookparsers::registry::BookmakerParser;
use bookparsers::sport::Sport;
use bookparsers::tennisi_odds::{extract_primary_odds, number_text};
use bookparsers::tennisi_table::{TableCell, TableRow, TennisiParser};
use bookparsers::tennisi_time::{parse_clock_time, prematch_start_at};
use std::sync::Arc;

const NOW: i64 = 1_709_294_400_000; // 2024-03-01 12:00 UTC

fn cell(t: &str) -> TableCell {
    TableCell { text: t.to_string(), colspan: None }
}

fn row(id: Option<&str>, cells: Vec<TableCell>, title: Option<&str>, header: bool) -> TableRow {
    TableRow {
        id: id.map(str::to_string),
        cells,
        title: title.map(str::to_string),
        href: None,
        has_header_cell: header,
    }
}

fn parsed(cells: &[String]) -> Vec<Option<u64>> {
    cells
        .iter()
        .map(|c| number_text(c).parse::<f64>().ok().map(f64::to_bits))
        .collect()
}

#[test]
fn walks_prematch_table_with_headings_and_headers() {
    let header = row(
        None,
        ["№", "Дата", "Событие", "П1", "X", "П2", "Ф1", "К1", "Ф2", "К2", "TM", "<", ">"].iter().map(|t| cell(t)).collect(),
        None,
        true,
    );
    let rows = vec![
        row(None, vec![cell("  Premier   League "), cell("")], None, false),
        row(None, vec![cell("завтра")], None, false),
        header,
        row(
            Some("el123"),
            ["1", "18:30", "x", "1,95", "3.4", "4.1", "-1.5", "2.5", "+1.5", "1.5", "2.5", "1.9", "1.9"].iter().map(|t| cell(t)).collect(),
            Some("Arsenal  -  Chelsea. Специальные ставки"),
            false,
        ),
        row(Some("el124"), vec![cell("1")], Some("1 - 2"), false),
        row(Some("el125"), vec![cell("1")], Some("Чемпион Англии"), false),
    ];
    let (events, quotes) = TennisiParser::parse_table_rows(&rows, Sport::Football, false, NOW);
    assert_eq!(events.len(), 2);
    assert_eq!(quotes.len(), 2);
    let e = &events[0];
    assert_eq!(e.id, "tennisi-123");
    assert_eq!(e.home_team, "Arsenal");
    assert_eq!(e.away_team, "Chelsea");
    assert_eq!(e.league, "Premier League");
    assert_eq!(e.sport, Sport::Football);
    assert_eq!(e.start_time_ms, Some(1_709_393_400_000));
    assert_eq!(e.raw_url.as_deref(), Some("https://tennisi.bet"));
    assert!(e.extra.is_empty());
    let o = &events[1];
    assert_eq!(o.id, "tennisi-125");
    assert_eq!(o.away_team, "Field");
    assert_eq!(o.extra.len(), 1);
    assert_eq!(o.extra[0].key, "tennisi_event_kind");
    assert!(matches!(&o.extra[0].value, JsonValue::Str(s) if s == "outright"));

    let q = &quotes[0];
    let odds = extract_primary_odds(&q.event_id, &q.headers, &q.cells, q.sport, &parsed(&q.cells), 7);
    let ids: Vec<&str> = odds.iter().map(|o| o.id.as_str()).collect();
    assert_eq!(
        ids,
        vec!["tennisi-123-1", "tennisi-123-X", "tennisi-123-2", "tennisi-123-hc1", "tennisi-123-hc2", "tennisi-123-under", "tennisi-123-over"]
    );
    assert_eq!(odds[0].price, JsonNumber::FloatBits(1.95f64.to_bits()));
    assert_eq!(odds[0].market, "1X2");
    assert_eq!(odds[3].line, Some(JsonNumber::FloatBits((-1.5f64).to_bits())));
    assert_eq!(odds[3].odds_type, OddsType::Handicap);
    assert_eq!(odds[5].line, Some(JsonNumber::FloatBits(2.5f64.to_bits())));
    assert_eq!(odds[6].odds_type, OddsType::Over);
    assert_eq!(odds[6].timestamp_ms, 7);
}

#[test]
fn moneyline_without_draw_and_out_of_band_prices() {
    let headers: Vec<String> = ["Событие", "П1", "П2", "Ф1", "К1"].iter().map(|s| s.to_string()).collect();
    let cells: Vec<String> = ["A - B", "1.5", "2,6", "5000", "1.9"].iter().map(|s| s.to_string()).collect();
    let odds = extract_primary_odds("tennisi-9", &headers, &cells, Sport::Tennis, &parsed(&cells), 0);
    assert_eq!(odds.len(), 2);
    assert_eq!(odds[0].market, "Moneyline");
    assert_eq!(odds[1].price, JsonNumber::FloatBits(2.6f64.to_bits()));
    let cells: Vec<String> = ["A - B", "1.0", "2.6", "1", "1.9"].iter().map(|s| s.to_string()).collect();
    let odds = extract_primary_odds("tennisi-9", &headers, &cells, Sport::Tennis, &parsed(&cells), 0);
    assert_eq!(odds.len(), 1);
    assert_eq!(odds[0].id, "tennisi-9-hc1");
}

#[test]
fn live_header_row_names_the_league() {
    let mut first = cell("Теннис. ATP Дубай");
    first.colspan = Some(3);
    let rows = vec![
        row(None, vec![first, cell("П1"), cell("П2")], None, true),
        row(None, vec![cell("Выключить все")], None, false),
        row(Some("el7"), vec![cell(""), cell(""), cell(""), cell("1.8"), cell("2.0")], Some("Rublev - Medvedev"), false),
    ];
    let (events, quotes) = TennisiParser::parse_table_rows(&rows, Sport::Other, true, NOW);
    assert_eq!(events.len(), 1);
    assert_eq!(events[0].league, "Теннис. ATP Дубай");
    assert_eq!(events[0].sport, Sport::Tennis);
    assert_eq!(events[0].start_time_ms, None);
    assert_eq!(quotes[0].headers, vec!["", "", "", "П1", "П2"]);
    let q = &quotes[0];
    let odds = extract_primary_odds(&q.event_id, &q.headers, &q.cells, q.sport, &parsed(&q.cells), 0);
    assert_eq!(odds.len(), 2);
    assert_eq!(odds[0].selection, "1");
}

#[test]
fn reads_prematch_start_times() {
    assert_eq!(parse_clock_time(" 18:30 "), Some((18, 30)));
    assert_eq!(parse_clock_time("+9:05"), Some((9, 5)));
    assert_eq!(parse_clock_time("24:00"), None);
    assert_eq!(parse_clock_time("1:2:3"), None);
    assert_eq!(prematch_start_at(Some("Сегодня"), "12:00", NOW), Some(1_709_283_600_000));
    assert_eq!(prematch_start_at(Some("15.03"), "10:00", NOW), Some(1_710_486_000_000));
    assert_eq!(prematch_start_at(Some("31.02.2024"), "10:00", NOW), None);
    assert_eq!(prematch_start_at(None, "bad", NOW), None);
}

#[test]
fn parses_html_table_page() {
    let html = r#"<html><body><table>
        <tr><td>Premier League</td></tr>
        <tr><th>№</th><th>Дата</th><th>Событие</th><th>П1</th><th>X</th><th>П2</th></tr>
        <tr id="el55"><td>1</td><td>xx</td><td><a id="evtl55" href="/match/55">Arsenal - Chelsea</a></td><td>2.1</td><td>3,3</td><td>3.5</td></tr>
    </table></body></html>"#;
    let (events, quotes) = TennisiParser::parse_prematch_page(html, Sport::Football);
    assert_eq!(events.len(), 1);
    assert_eq!(events[0].league, "Premier League");
    assert_eq!(events[0].raw_url.as_deref(), Some("https://tennisi.bet/match/55"));
    assert_eq!(events[0].start_time_ms, None);
    let q = &quotes[0];
    let odds = extract_primary_odds(&q.event_id, &q.headers, &q.cells, q.sport, &parsed(&q.cells), 0);
    assert_eq!(odds.len(), 3);
    assert_eq!(odds[1].price, JsonNumber::FloatBits(3.3f64.to_bits()));
    let parser = TennisiParser::new(Arc::new(reqwest::Client::new()));
    assert_eq!(parser.slug(), "tennisi");
    assert_eq!(parser.name(), "Tennisi");
}

#[test]
fn cells_join_text_pieces_and_read_colspan() {
    use_cell();
}

fn use_cell() {
    let c = bookparsers::tennisi_table::table_cell(&vec!["Arsenal".to_string(), "- Chelsea".to_string()], Some("+3"));
    assert_eq!(c.text, "Arsenal - Chelsea");
    assert_eq!(c.colspan, Some(3));
    let c = bookparsers::tennisi_table::table_cell(&vec![], Some("x2"));
    assert_eq!(c.text, "");
    assert_eq!(c.colspan, None);
    assert_eq!(bookparsers::tennisi_table::parse_usize_text("99999999999999999999999"), None);
    assert_eq!(bookparsers::tennisi_table::parse_usize_text("+"), None);
    assert_eq!(bookparsers::tennisi_table::parse_usize_text("007"), Some(7));
}
