//! Tennisi's line tables: the rows of a page walked in order, league and
//! date headings and column headers carried down to the event rows below
//! them.

use crate::clock::utc_now_millis;
use crate::json::{JsonMember, JsonValue};
use crate::model::{Event, EventView};
use crate::sport::Sport;
use crate::tennisi::{
    absolute_link, absolute_url, canonical, classify_event_title, date_marker, detect_live_sport,
    generic_filter_row, is_date_marker, is_generic_live_filter_row, is_valid_competitor,
    live_sport, looks_like_market_label, market_labels, sanitize_event_title, sanitized_title,
    title_class, valid_competitor,
};
use crate::tennisi_time::{last_day, marker_view, moscow_day, prematch_start, prematch_start_at};
use crate::text::{
    chars_of, dec_value, has_prefix, is_digit, join, join_strings, normalize_whitespace, normalize_ws, owned,
    parse_digits_up_to, push_str, slice_chars, string_of, views,
};
use crate::readiness::{ParserReadiness, ReadinessView};
use crate::registry::BookmakerParser;
use std::sync::Arc;
use vstd::prelude::*;

verus! {

/// A cell of a table row: its text (the text pieces joined by spaces) and
/// its `colspan`, where one reads as a number.
#[derive(Debug)]
pub struct TableCell {
    pub text: String,
    pub colspan: Option<usize>,
}

/// A table row as the page holds it: its `id`, its header and data cells,
/// the text of its first event-title link (`a[id^='evtl']`), the target of
/// its first link, and whether it has a header cell.
#[derive(Debug)]
pub struct TableRow {
    pub id: Option<String>,
    pub cells: Vec<TableCell>,
    pub title: Option<String>,
    pub href: Option<String>,
    pub has_header_cell: bool,
}

/// A cell as plain values.
pub struct TableCellView {
    pub text: Seq<char>,
    pub colspan: Option<usize>,
}

/// A row as plain values.
pub struct TableRowView {
    pub id: Option<Seq<char>>,
    pub cells: Seq<TableCellView>,
    pub title: Option<Seq<char>>,
    pub href: Option<Seq<char>>,
    pub has_header_cell: bool,
}

/// The text of an optional string.
pub open spec fn opt_text(o: Option<String>) -> Option<Seq<char>> {
    match o {
        Some(s) => Some(s@),
        None => None,
    }
}

impl View for TableCell {
    type V = TableCellView;

    open spec fn view(&self) -> TableCellView {
        TableCellView { text: self.text@, colspan: self.colspan }
    }
}

impl View for TableRow {
    type V = TableRowView;

    open spec fn view(&self) -> TableRowView {
        TableRowView {
            id: opt_text(self.id),
            cells: self.cells@.map_values(|c: TableCell| c@),
            title: opt_text(self.title),
            href: opt_text(self.href),
            has_header_cell: self.has_header_cell,
        }
    }
}

/// The views of a row's cells.
pub open spec fn cell_views(cs: Vec<TableCell>) -> Seq<TableCellView> {
    cs@.map_values(|c: TableCell| c@)
}

/// The views of a list of rows.
pub open spec fn row_views(s: Seq<TableRow>) -> Seq<TableRowView> {
    s.map_values(|r: TableRow| r@)
}

/// The `id` of each row (`tr`) scraper reads from the page `html`, in
/// document order, and whether the row has a `th` cell.
pub uninterp spec fn scraped_row_heads(html: Seq<char>) -> Seq<(Option<Seq<char>>, bool)>;

/// The text pieces of the first `a[id^='evtl']` and the `href` of the
/// first `a[href]` of each row scraper reads from the page `html`.
pub uninterp spec fn scraped_row_link_parts(html: Seq<char>) -> Seq<(Option<Seq<Seq<char>>>, Option<Seq<char>>)>;

/// The `th` and `td` cells of each row scraper reads from the page `html`:
/// each cell's text pieces and its `colspan` attribute.
pub uninterp spec fn scraped_row_cell_parts(html: Seq<char>) -> Seq<Seq<(Seq<Seq<char>>, Option<Seq<char>>)>>;

/// Whether `s` is one or more ASCII digits.
pub open spec fn all_digits(s: Seq<char>) -> bool {
    s.len() > 0 && forall|k: int| 0 <= k < s.len() ==> is_digit(#[trigger] s[k])
}

/// `str::parse::<usize>`: an optional `+`, then ASCII digits, the value
/// fitting in a `usize`.
pub open spec fn usize_text(s: Seq<char>) -> Option<usize> {
    if s.len() > 0 && s[0] == '+' {
        digits_usize(s.drop_first())
    } else {
        digits_usize(s)
    }
}

/// ASCII digits read as a `usize`, where they fit.
pub open spec fn digits_usize(b: Seq<char>) -> Option<usize> {
    if all_digits(b) && dec_value(b) <= usize::MAX {
        Some(dec_value(b) as usize)
    } else {
        None
    }
}

/// A cell from its text pieces (joined by a space) and its `colspan`
/// attribute (read as a number, where it is one).
pub open spec fn cell_of(p: (Seq<Seq<char>>, Option<Seq<char>>)) -> TableCellView {
    TableCellView {
        text: join(p.0, " "@),
        colspan: match p.1 {
            Some(t) => usize_text(t),
            None => None,
        },
    }
}

/// The cells of a row, from their parts.
pub open spec fn cells_of(r: Seq<(Seq<Seq<char>>, Option<Seq<char>>)>) -> Seq<TableCellView> {
    r.map_values(|p: (Seq<Seq<char>>, Option<Seq<char>>)| cell_of(p))
}

/// The cells of each row of the page `html`.
pub open spec fn scraped_row_cells(html: Seq<char>) -> Seq<Seq<TableCellView>> {
    scraped_row_cell_parts(html).map_values(|r: Seq<(Seq<Seq<char>>, Option<Seq<char>>)>| cells_of(r))
}

/// A title and link from their parts: the title's text pieces run
/// together.
pub open spec fn link_of(l: (Option<Seq<Seq<char>>>, Option<Seq<char>>)) -> (Option<Seq<char>>, Option<Seq<char>>) {
    (
        match l.0 {
            Some(ps) => Some(join(ps, Seq::empty())),
            None => None,
        },
        l.1,
    )
}

/// The title text and first link of each row of the page `html`.
pub open spec fn scraped_row_links(html: Seq<char>) -> Seq<(Option<Seq<char>>, Option<Seq<char>>)> {
    scraped_row_link_parts(html).map_values(|l: (Option<Seq<Seq<char>>>, Option<Seq<char>>)| link_of(l))
}

/// Parses `html` with scraper and lists, for each `tr`, its `id` and
/// whether it holds a `th`. What the HTML parser makes of the page is named
/// here without being stated.
#[verifier::external_body]
fn row_heads(html: &str) -> (r: Vec<(Option<String>, bool)>)
    ensures
        r@.map_values(|h: (Option<String>, bool)| (opt_text(h.0), h.1)) == scraped_row_heads(html@),
{
    let doc = scraper::Html::parse_document(html);
    let (Ok(tr), Ok(th)) = (scraper::Selector::parse("tr"), scraper::Selector::parse("th")) else { return Vec::new() };
    doc.select(&tr).map(|row| (row.value().attr("id").map(str::to_string), row.select(&th).next().is_some())).collect()
}

/// Parses `html` with scraper and lists, for each `tr`, the text pieces of
/// its first `a[id^='evtl']` and the `href` of its first `a[href]`.
#[verifier::external_body]
fn row_link_parts(html: &str) -> (r: Vec<(Option<Vec<String>>, Option<String>)>)
    ensures
        r@.map_values(|l: (Option<Vec<String>>, Option<String>)| link_part_view(l)) == scraped_row_link_parts(html@),
{
    let doc = scraper::Html::parse_document(html);
    let (Ok(tr), Ok(t), Ok(a)) = (scraper::Selector::parse("tr"), scraper::Selector::parse("a[id^='evtl']"), scraper::Selector::parse("a[href]")) else { return Vec::new() };
    doc.select(&tr).map(|row| (row.select(&t).next().map(|n| n.text().map(str::to_string).collect()), row.select(&a).next().and_then(|n| n.value().attr("href")).map(str::to_string))).collect()
}

/// Parses `html` with scraper and lists, for each `tr`, its `th` and `td`
/// cells: each cell's text pieces and its `colspan` attribute as written.
#[verifier::external_body]
fn row_cell_parts(html: &str) -> (r: Vec<Vec<(Vec<String>, Option<String>)>>)
    ensures
        r@.map_values(|row: Vec<(Vec<String>, Option<String>)>| part_views(row)) == scraped_row_cell_parts(html@),
{
    let doc = scraper::Html::parse_document(html);
    let (Ok(tr), Ok(cell)) = (scraper::Selector::parse("tr"), scraper::Selector::parse("th, td")) else { return Vec::new() };
    doc.select(&tr).map(|row| row.select(&cell).map(|c| (c.text().map(str::to_string).collect(), c.value().attr("colspan").map(str::to_string))).collect()).collect()
}

/// The view of a title's pieces and a link.
pub open spec fn link_part_view(l: (Option<Vec<String>>, Option<String>)) -> (Option<Seq<Seq<char>>>, Option<Seq<char>>) {
    (
        match l.0 {
            Some(v) => Some(views(v@)),
            None => None,
        },
        opt_text(l.1),
    )
}

/// The view of a cell's parts.
pub open spec fn part_view(p: (Vec<String>, Option<String>)) -> (Seq<Seq<char>>, Option<Seq<char>>) {
    (views(p.0@), opt_text(p.1))
}

/// The views of a row's cell parts.
pub open spec fn part_views(row: Vec<(Vec<String>, Option<String>)>) -> Seq<(Seq<Seq<char>>, Option<Seq<char>>)> {
    row@.map_values(|p: (Vec<String>, Option<String>)| part_view(p))
}

/// Reads ASCII digits as a `usize`.
fn parse_digits_usize(body: &[char]) -> (r: Option<usize>)
    ensures
        r == digits_usize(body@),
{
    if body.len() == 0 {
        return None;
    }
    let mut i: usize = 0;
    while i < body.len()
        invariant
            i <= body@.len(),
            forall|k: int| 0 <= k < i ==> is_digit(#[trigger] body@[k]),
        decreases body@.len() - i,
    {
        if !(body[i] >= '0' && body[i] <= '9') {
            assert(!is_digit(body@[i as int]));
            return None;
        }
        i = i + 1;
    }
    match parse_digits_up_to(body, usize::MAX as u64) {
        Some(v) => Some(v as usize),
        None => None,
    }
}

/// Reads `s` as `str::parse::<usize>`.
pub fn parse_usize_text(s: &str) -> (r: Option<usize>)
    ensures
        r == usize_text(s@),
{
    let cs = chars_of(s);
    if cs.len() > 0 && cs[0] == '+' {
        let body = slice_chars(cs.as_slice(), 1, cs.len());
        assert(body@ =~= s@.drop_first());
        parse_digits_usize(body.as_slice())
    } else {
        parse_digits_usize(cs.as_slice())
    }
}

/// A cell from its text pieces and its `colspan` attribute.
pub fn table_cell(pieces: &Vec<String>, colspan: Option<&str>) -> (c: TableCell)
    ensures
        c@ == cell_of(
            (
                views(pieces@),
                match colspan {
                    Some(t) => Some(t@),
                    None => None,
                },
            ),
        ),
{
    TableCell {
        text: join_strings(pieces.as_slice(), " "),
        colspan: match colspan {
            Some(t) => parse_usize_text(t),
            None => None,
        },
    }
}

/// The cells of every row, from their parts.
fn cells_from_parts(parts: &Vec<Vec<(Vec<String>, Option<String>)>>) -> (r: Vec<Vec<TableCell>>)
    ensures
        r@.map_values(|cs: Vec<TableCell>| cell_views(cs)) == parts@.map_values(
            |row: Vec<(Vec<String>, Option<String>)>| cells_of(part_views(row)),
        ),
{
    let mut out: Vec<Vec<TableCell>> = Vec::new();
    let mut k: usize = 0;
    while k < parts.len()
        invariant
            k <= parts@.len(),
            out@.map_values(|cs: Vec<TableCell>| cell_views(cs)) == parts@.map_values(
                |row: Vec<(Vec<String>, Option<String>)>| cells_of(part_views(row)),
            ).take(k as int),
        decreases parts@.len() - k,
    {
        let row = &parts[k];
        let mut cells: Vec<TableCell> = Vec::new();
        let mut i: usize = 0;
        while i < row.len()
            invariant
                i <= row@.len(),
                cell_views(cells) == cells_of(part_views(*row)).take(i as int),
            decreases row@.len() - i,
        {
            let colspan: Option<&str> = match &row[i].1 {
                Some(t) => Some(t.as_str()),
                None => None,
            };
            assert(part_views(*row)[i as int] == part_view(row@[i as int]));
            let c = table_cell(&row[i].0, colspan);
            assert(c@ == cells_of(part_views(*row))[i as int]);
            let ghost prev = cells@;
            cells.push(c);
            assert(cells@ == prev.push(c));
            assert(cells@.map_values(|x: TableCell| x@) =~= prev.map_values(|x: TableCell| x@).push(c@));
            assert(cell_views(cells) =~= cells_of(part_views(*row)).take(i + 1));
            i = i + 1;
        }
        assert(cells_of(part_views(*row)).take(row@.len() as int) =~= cells_of(part_views(*row)));
        let ghost prev_out = out@;
        let ghost cc = cells;
        out.push(cells);
        assert(out@ == prev_out.push(cc));
        assert(out@.map_values(|cs: Vec<TableCell>| cell_views(cs)) =~= prev_out.map_values(
            |cs: Vec<TableCell>| cell_views(cs),
        ).push(cell_views(cc)));
        assert(out@.map_values(|cs: Vec<TableCell>| cell_views(cs)) =~= parts@.map_values(
            |row: Vec<(Vec<String>, Option<String>)>| cells_of(part_views(row)),
        ).take(k + 1));
        k = k + 1;
    }
    assert(parts@.map_values(|row: Vec<(Vec<String>, Option<String>)>| cells_of(part_views(row))).take(
        parts@.len() as int,
    ) =~= parts@.map_values(|row: Vec<(Vec<String>, Option<String>)>| cells_of(part_views(row))));
    out
}

/// The title (its text pieces run together) and first link of every row.
fn links_from_parts(parts: &Vec<(Option<Vec<String>>, Option<String>)>) -> (r: Vec<(Option<String>, Option<String>)>)
    ensures
        r@.map_values(|l: (Option<String>, Option<String>)| (opt_text(l.0), opt_text(l.1))) == parts@.map_values(
            |l: (Option<Vec<String>>, Option<String>)| link_of(link_part_view(l)),
        ),
{
    let mut out: Vec<(Option<String>, Option<String>)> = Vec::new();
    let mut k: usize = 0;
    while k < parts.len()
        invariant
            k <= parts@.len(),
            out@.map_values(|l: (Option<String>, Option<String>)| (opt_text(l.0), opt_text(l.1))) == parts@.map_values(
                |l: (Option<Vec<String>>, Option<String>)| link_of(link_part_view(l)),
            ).take(k as int),
        decreases parts@.len() - k,
    {
        let title = match &parts[k].0 {
            Some(ps) => Some(join_strings(ps.as_slice(), "")),
            None => None,
        };
        let href = match &parts[k].1 {
            Some(h) => Some(h.clone()),
            None => None,
        };
        proof {
            reveal_strlit("");
            assert(""@ =~= Seq::<char>::empty());
        }
        let ghost prev = out@;
        let pair = (title, href);
        assert((opt_text(pair.0), opt_text(pair.1)) == link_of(link_part_view(parts@[k as int])));
        let ghost pv = (opt_text(pair.0), opt_text(pair.1));
        out.push(pair);
        assert(out@ == prev.push(pair));
        assert(out@.map_values(|l: (Option<String>, Option<String>)| (opt_text(l.0), opt_text(l.1))) =~= prev.map_values(
            |l: (Option<String>, Option<String>)| (opt_text(l.0), opt_text(l.1)),
        ).push(pv));
        assert(out@.map_values(|l: (Option<String>, Option<String>)| (opt_text(l.0), opt_text(l.1))) =~= parts@.map_values(
            |l: (Option<Vec<String>>, Option<String>)| link_of(link_part_view(l)),
        ).take(k + 1));
        k = k + 1;
    }
    assert(parts@.map_values(|l: (Option<Vec<String>>, Option<String>)| link_of(link_part_view(l))).take(
        parts@.len() as int,
    ) =~= parts@.map_values(|l: (Option<Vec<String>>, Option<String>)| link_of(link_part_view(l))));
    out
}

/// The rows scraper reads from the page `html`, in document order, each
/// with its id, cells, title link text, first link and header mark (the
/// three readings of the page lined up row by row).
pub open spec fn scraped_rows(html: Seq<char>) -> Seq<TableRowView> {
    let h = scraped_row_heads(html);
    let l = scraped_row_links(html);
    let c = scraped_row_cells(html);
    let n = if h.len() <= l.len() && h.len() <= c.len() {
        h.len()
    } else if l.len() <= c.len() {
        l.len()
    } else {
        c.len()
    };
    Seq::new(
        n,
        |k: int|
            TableRowView { id: h[k].0, cells: c[k], title: l[k].0, href: l[k].1, has_header_cell: h[k].1 },
    )
}

/// The rows of the page `html`.
pub fn table_rows(html: &str) -> (r: Vec<TableRow>)
    ensures
        row_views(r@) == scraped_rows(html@),
{
    let heads = row_heads(html);
    let link_parts = row_link_parts(html);
    let links = links_from_parts(&link_parts);
    let cell_parts = row_cell_parts(html);
    let mut cells = cells_from_parts(&cell_parts);
    let n = if heads.len() <= links.len() && heads.len() <= cells.len() {
        heads.len()
    } else if links.len() <= cells.len() {
        links.len()
    } else {
        cells.len()
    };
    let ghost cv = cells@.map_values(|cs: Vec<TableCell>| cell_views(cs));
    assert(cv =~= scraped_row_cells(html@));
    assert(links@.map_values(|l: (Option<String>, Option<String>)| (opt_text(l.0), opt_text(l.1)))
        =~= scraped_row_links(html@));
    let ghost target = scraped_rows(html@);
    assert(target.len() == n);
    let mut rows: Vec<TableRow> = Vec::new();
    let mut k: usize = 0;
    while k < n
        invariant
            k <= n,
            n <= heads@.len() && n <= links@.len() && n <= cells@.len(),
            target == scraped_rows(html@),
            target.len() == n,
            heads@.map_values(|h: (Option<String>, bool)| (opt_text(h.0), h.1)) == scraped_row_heads(html@),
            links@.map_values(|l: (Option<String>, Option<String>)| (opt_text(l.0), opt_text(l.1)))
                == scraped_row_links(html@),
            cells@.len() == cv.len(),
            forall|j: int| k <= j < cells@.len() ==> cell_views(#[trigger] cells@[j]) == cv[j],
            cv == scraped_row_cells(html@),
            row_views(rows@) == target.take(k as int),
        decreases n - k,
    {
        let mut taken: Vec<TableCell> = Vec::new();
        let ghost before = cells@;
        std::mem::swap(&mut taken, &mut cells[k]);
        assert(cell_views(taken) == cv[k as int]);
        assert forall|j: int| k < j < cells@.len() implies cell_views(#[trigger] cells@[j]) == cv[j] by {
            assert(cells@[j] == before[j]);
        }
        let id = match &heads[k].0 {
            Some(s) => Some(s.clone()),
            None => None,
        };
        let title = match &links[k].0 {
            Some(s) => Some(s.clone()),
            None => None,
        };
        let href = match &links[k].1 {
            Some(s) => Some(s.clone()),
            None => None,
        };
        let row = TableRow { id, cells: taken, title, href, has_header_cell: heads[k].1 };
        assert(heads@.map_values(|h: (Option<String>, bool)| (opt_text(h.0), h.1))[k as int] == (
            opt_text(heads@[k as int].0),
            heads@[k as int].1,
        ));
        assert(links@.map_values(|l: (Option<String>, Option<String>)| (opt_text(l.0), opt_text(l.1)))[k as int]
            == (opt_text(links@[k as int].0), opt_text(links@[k as int].1)));
        assert(row@ == target[k as int]);
        let ghost prev = rows@;
        rows.push(row);
        assert(rows@ == prev.push(row));
        assert(row_views(rows@) =~= row_views(prev).push(rows@[k as int]@));
        assert(row_views(rows@) =~= target.take(k + 1));
        k = k + 1;
    }
    assert(target.take(n as int) =~= target);
    rows
}

/// How many columns a cell spans (one without a `colspan`).
pub open spec fn span_of(c: TableCellView) -> nat {
    match c.colspan {
        Some(n) => n as nat,
        None => 1,
    }
}

/// `t` repeated `n` times.
pub open spec fn repeat(t: Seq<char>, n: nat) -> Seq<Seq<char>> {
    Seq::new(n, |k: int| t)
}

/// The texts of a row's columns: each cell's whitespace-normalised text
/// once per column it spans.
pub open spec fn expand(cells: Seq<TableCellView>) -> Seq<Seq<char>>
    decreases cells.len(),
{
    if cells.len() == 0 {
        Seq::empty()
    } else {
        expand(cells.drop_last()) + repeat(normalize_ws(cells.last().text), span_of(cells.last()))
    }
}

/// How many texts of `s` are not empty.
pub open spec fn nonempty_count(s: Seq<Seq<char>>) -> nat
    decreases s.len(),
{
    if s.len() == 0 {
        0
    } else {
        nonempty_count(s.drop_last()) + if s.last().len() > 0 {
            1nat
        } else {
            0nat
        }
    }
}

/// The first text of `s` that is not empty (empty where none is).
pub open spec fn first_nonempty(s: Seq<Seq<char>>) -> Seq<char>
    decreases s.len(),
{
    if s.len() == 0 {
        Seq::empty()
    } else if s[0].len() > 0 {
        s[0]
    } else {
        first_nonempty(s.drop_first())
    }
}

/// What the walk carries down the table: the current league, date heading
/// and column headers.
pub struct WalkState {
    pub league: Seq<char>,
    pub date: Option<Seq<char>>,
    pub headers: Seq<Seq<char>>,
}

/// A price request of an event row: the event, the column headers, the
/// row's column texts and the sport.
pub struct QuoteView {
    pub event_id: Seq<char>,
    pub headers: Seq<Seq<char>>,
    pub cells: Seq<Seq<char>>,
    pub sport: Sport,
}

/// A header row: its columns become the headers; on the live page a first
/// cell spanning two columns or more whose text is no market label is the
/// league instead, its columns left without a header.
pub open spec fn header_row(cells: Seq<TableCellView>, live: bool, league: Seq<char>) -> (Seq<char>, Seq<Seq<char>>) {
    if live && cells.len() > 0 && span_of(cells[0]) >= 2 && normalize_ws(cells[0].text).len() > 0
        && !market_labels().contains(canonical(normalize_ws(cells[0].text))) {
        (normalize_ws(cells[0].text), repeat(Seq::empty(), span_of(cells[0])) + expand(cells.drop_first()))
    } else {
        (league, expand(cells))
    }
}

/// The event of an event row (`id` starting with `el`) under the state
/// `st`: its title (whitespace normalised, the special-bets suffixes cut)
/// must name two valid competitors (or, prematch, an outright); the league
/// is the current one (`Unknown` where none); live rows take their sport
/// from league and title; the link is made absolute (the site's root
/// where there is none); prematch rows start at their second column's
/// time under the current date heading. With the event comes whether it
/// is an outright.
pub open spec fn event_of(row: TableRowView, st: WalkState, fallback: Sport, live: bool, now: int) -> Option<(EventView, bool)> {
    let id = match row.id {
        Some(i) => i,
        None => Seq::empty(),
    };
    let title = sanitized_title(
        normalize_ws(
            match row.title {
                Some(t) => t,
                None => Seq::empty(),
            },
        ),
    );
    match title_class(title, live) {
        None => None,
        Some((h, a, outright)) => if !valid_competitor(h) || !valid_competitor(a) {
            None
        } else {
            let league = if st.league.len() == 0 {
                "Unknown"@
            } else {
                st.league
            };
            let cells = expand(row.cells);
            Some(
                (
                    EventView {
                        id: "tennisi-"@ + id.skip(2),
                        sport: if live {
                            live_sport(league, title)
                        } else {
                            fallback
                        },
                        league,
                        home_team: h,
                        away_team: a,
                        start_time_ms: if live || cells.len() < 2 {
                            None
                        } else {
                            match prematch_start(st.date, cells[1], now) {
                                Some(v) => Some(v as i64),
                                None => None,
                            }
                        },
                        is_live: live,
                        bookmaker_slug: "tennisi"@,
                        raw_url: Some(
                            match row.href {
                                Some(p) => absolute_link(p),
                                None => "https://tennisi.bet"@,
                            },
                        ),
                        extra: Seq::empty(),
                    },
                    outright,
                ),
            )
        },
    }
}

/// One row of the walk: the state after it, and the event it lists with
/// its price request.
pub open spec fn walk_step(st: WalkState, row: TableRowView, fallback: Sport, live: bool, now: int) -> (
    WalkState,
    Option<(EventView, bool, QuoteView)>,
) {
    let id = match row.id {
        Some(i) => i,
        None => Seq::empty(),
    };
    let cells = expand(row.cells);
    if has_prefix(id, "el"@) {
        match event_of(row, st, fallback, live, now) {
            Some((e, outright)) => (
                st,
                Some((e, outright, QuoteView { event_id: e.id, headers: st.headers, cells, sport: e.sport })),
            ),
            None => (st, None),
        }
    } else if nonempty_count(cells) == 1 {
        let text = first_nonempty(cells);
        if live {
            if generic_filter_row(text) {
                (st, None)
            } else {
                (WalkState { league: text, ..st }, None)
            }
        } else if date_marker(text) {
            (WalkState { date: Some(text), ..st }, None)
        } else {
            (WalkState { league: text, ..st }, None)
        }
    } else if row.has_header_cell || nonempty_count(cells) >= 8 {
        let (league, headers) = header_row(row.cells, live, st.league);
        (WalkState { league, headers, ..st }, None)
    } else {
        (st, None)
    }
}

/// The state at the start of a page.
pub open spec fn start_state() -> WalkState {
    WalkState { league: Seq::empty(), date: None, headers: Seq::empty() }
}

/// The state after walking `rows`.
pub open spec fn walk_state(rows: Seq<TableRowView>, fallback: Sport, live: bool, now: int) -> WalkState
    decreases rows.len(),
{
    if rows.len() == 0 {
        start_state()
    } else {
        walk_step(walk_state(rows.drop_last(), fallback, live, now), rows.last(), fallback, live, now).0
    }
}

/// The events (with their outright marks and price requests) of `rows`, in
/// order.
pub open spec fn table_page(rows: Seq<TableRowView>, fallback: Sport, live: bool, now: int) -> Seq<
    (EventView, bool, QuoteView),
>
    decreases rows.len(),
{
    if rows.len() == 0 {
        Seq::empty()
    } else {
        let before = table_page(rows.drop_last(), fallback, live, now);
        match walk_step(walk_state(rows.drop_last(), fallback, live, now), rows.last(), fallback, live, now).1 {
            Some(x) => before.push(x),
            None => before,
        }
    }
}

/// A price request of an event row.
#[derive(Debug)]
pub struct TennisiQuote {
    pub event_id: String,
    pub headers: Vec<String>,
    pub cells: Vec<String>,
    pub sport: Sport,
}

impl View for TennisiQuote {
    type V = QuoteView;

    open spec fn view(&self) -> QuoteView {
        QuoteView { event_id: self.event_id@, headers: views(self.headers@), cells: views(self.cells@), sport: self.sport }
    }
}

/// Whether `extra` marks an outright exactly where `outright` holds.
pub open spec fn outright_extra(extra: Seq<JsonMember>, outright: bool) -> bool {
    if outright {
        &&& extra.len() == 1
        &&& extra[0].key@ == "tennisi_event_kind"@
        &&& extra[0].value matches JsonValue::Str(s) && s@ == "outright"@
    } else {
        extra.len() == 0
    }
}

/// Whether the event `ev` is `e` with the outright mark `outright` in its
/// extra map.
pub open spec fn event_is(ev: EventView, e: EventView, outright: bool) -> bool {
    &&& ev.id == e.id
    &&& ev.sport == e.sport
    &&& ev.league == e.league
    &&& ev.home_team == e.home_team
    &&& ev.away_team == e.away_team
    &&& ev.start_time_ms == e.start_time_ms
    &&& ev.is_live == e.is_live
    &&& ev.bookmaker_slug == e.bookmaker_slug
    &&& ev.raw_url == e.raw_url
    &&& outright_extra(ev.extra, outright)
}

/// Whether the events and price requests are those of the walk `out`.
pub open spec fn page_is(events: Seq<Event>, quotes: Seq<TennisiQuote>, out: Seq<(EventView, bool, QuoteView)>) -> bool {
    &&& events.len() == out.len()
    &&& quotes.len() == out.len()
    &&& forall|i: int| 0 <= i < out.len() ==> event_is(#[trigger] events[i]@, out[i].0, out[i].1)
    &&& forall|i: int| 0 <= i < out.len() ==> #[trigger] quotes[i]@ == out[i].2
}

/// The column texts of cells `from..` of a row.
fn expand_from(cells: &Vec<TableCell>, from: usize) -> (r: Vec<String>)
    requires
        from <= cells@.len(),
    ensures
        views(r@) == expand(cells@.map_values(|c: TableCell| c@).skip(from as int)),
{
    let ghost cv = cells@.map_values(|c: TableCell| c@);
    let mut out: Vec<String> = Vec::new();
    let mut i: usize = from;
    assert(cv.subrange(from as int, from as int) =~= Seq::<TableCellView>::empty());
    while i < cells.len()
        invariant
            from <= i <= cells@.len(),
            cv == cells@.map_values(|c: TableCell| c@),
            views(out@) == expand(cv.subrange(from as int, i as int)),
        decreases cells@.len() - i,
    {
        let t = normalize_whitespace(cells[i].text.as_str());
        let span: usize = match cells[i].colspan {
            Some(n) => n,
            None => 1,
        };
        let ghost before = views(out@);
        let mut k: usize = 0;
        while k < span
            invariant
                k <= span,
                views(out@) == before + repeat(t@, k as nat),
            decreases span - k,
        {
            let c = t.clone();
            let ghost prev = out@;
            out.push(c);
            assert(out@ == prev.push(c));
            assert(views(out@) =~= views(prev).push(c@));
            assert(views(out@) =~= before + repeat(t@, (k + 1) as nat));
            k = k + 1;
        }
        let ghost sub = cv.subrange(from as int, i + 1);
        assert(sub.drop_last() =~= cv.subrange(from as int, i as int));
        assert(sub.last() == cells@[i as int]@);
        i = i + 1;
    }
    assert(cv.subrange(from as int, cells@.len() as int) =~= cv.skip(from as int));
    out
}

/// The column texts of a row.
fn expand_cells(cells: &Vec<TableCell>) -> (r: Vec<String>)
    ensures
        views(r@) == expand(cells@.map_values(|c: TableCell| c@)),
{
    let r = expand_from(cells, 0);
    assert(cells@.map_values(|c: TableCell| c@).skip(0) =~= cells@.map_values(|c: TableCell| c@));
    r
}

/// How many texts are not empty, and the first of them.
fn nonempty_of(s: &Vec<String>) -> (r: (usize, Option<usize>))
    ensures
        r.0 == nonempty_count(views(s@)),
        match r.1 {
            Some(j) => j < s@.len() && s@[j as int]@ == first_nonempty(views(s@)) && r.0 > 0,
            None => r.0 == 0,
        },
{
    let mut count: usize = 0;
    let mut first: Option<usize> = None;
    let mut i: usize = 0;
    assert(views(s@).skip(0) =~= views(s@));
    while i < s.len()
        invariant
            i <= s@.len(),
            count == nonempty_count(views(s@).take(i as int)),
            count <= i,
            match first {
                Some(j) => j < i && s@[j as int]@ == first_nonempty(views(s@)) && count > 0,
                None => count == 0 && first_nonempty(views(s@)) == first_nonempty(views(s@).skip(i as int)),
            },
        decreases s@.len() - i,
    {
        let ghost pre = views(s@).take(i + 1);
        assert(pre.drop_last() =~= views(s@).take(i as int));
        assert(pre.last() == s@[i as int]@);
        if !s[i].as_str().is_empty() {
            if first.is_none() {
                proof {
                    let rest = views(s@).skip(i as int);
                    assert(rest[0] == s@[i as int]@);
                }
                first = Some(i);
            }
            count = count + 1;
        } else {
            proof {
                let rest = views(s@).skip(i as int);
                assert(rest[0] == s@[i as int]@);
                assert(rest.drop_first() =~= views(s@).skip(i + 1));
            }
        }
        i = i + 1;
    }
    assert(views(s@).take(s@.len() as int) =~= views(s@));
    (count, first)
}

/// A header row's league and headers.
fn header_row_of(cells: &Vec<TableCell>, live: bool, league: &String) -> (r: (String, Vec<String>))
    ensures
        (r.0@, views(r.1@)) == header_row(cells@.map_values(|c: TableCell| c@), live, league@),
{
    let ghost cv = cells@.map_values(|c: TableCell| c@);
    if live && cells.len() > 0 {
        let t0 = normalize_whitespace(cells[0].text.as_str());
        let span: usize = match cells[0].colspan {
            Some(n) => n,
            None => 1,
        };
        assert(cv[0] == cells@[0]@);
        if span >= 2 && !t0.as_str().is_empty() && !looks_like_market_label(t0.as_str()) {
            let mut headers: Vec<String> = Vec::new();
            let mut k: usize = 0;
            while k < span
                invariant
                    k <= span,
                    views(headers@) == repeat(Seq::empty(), k as nat),
                decreases span - k,
            {
                let e = String::new();
                let ghost prev = headers@;
                headers.push(e);
                assert(headers@ == prev.push(e));
                assert(e@ =~= Seq::<char>::empty());
                assert(views(headers@) =~= views(prev).push(e@));
                assert(views(headers@) =~= repeat(Seq::empty(), (k + 1) as nat));
                k = k + 1;
            }
            let mut rest = expand_from(cells, 1);
            assert(cv.skip(1) =~= cv.drop_first());
            let ghost a = views(headers@);
            let ghost b = views(rest@);
            headers.append(&mut rest);
            assert(views(headers@) =~= a + b);
            return (t0, headers);
        }
    }
    (league.clone(), expand_cells(cells))
}

/// The event, its outright mark and its price request of an event row
/// under the current league, date and headers.
fn event_row(
    row: &TableRow,
    league: &String,
    date: &Option<String>,
    headers: &Vec<String>,
    fallback: Sport,
    live: bool,
    now: i64,
) -> (r: Option<(Event, TennisiQuote)>)
    requires
        now >= 0,
        moscow_day(now as int) < last_day(),
        row.id matches Some(i) && has_prefix(i@, "el"@),
    ensures
        ({
            let st = WalkState { league: league@, date: opt_text(*date), headers: views(headers@) };
            match r {
                Some((e, q)) => match event_of(row@, st, fallback, live, now as int) {
                    Some((ev, outright)) => event_is(e@, ev, outright) && q@ == (QuoteView {
                        event_id: ev.id,
                        headers: views(headers@),
                        cells: expand(row@.cells),
                        sport: ev.sport,
                    }),
                    None => false,
                },
                None => event_of(row@, st, fallback, live, now as int) is None,
            }
        }),
{
    let id = match &row.id {
        Some(i) => i,
        None => {
            return None;
        },
    };
    let raw_title = match &row.title {
        Some(t) => normalize_whitespace(t.as_str()),
        None => String::new(),
    };
    proof {
        if row.title is None {
            assert(raw_title@ =~= normalize_ws(Seq::empty()));
        }
    }
    let title = sanitize_event_title(raw_title.as_str());
    let (home, away, outright) = match classify_event_title(title.as_str(), live) {
        Some(c) => c,
        None => {
            return None;
        },
    };
    if !is_valid_competitor(home.as_str()) || !is_valid_competitor(away.as_str()) {
        return None;
    }
    let ev_league = if league.as_str().is_empty() {
        owned("Unknown")
    } else {
        league.clone()
    };
    let sport = if live {
        detect_live_sport(ev_league.as_str(), title.as_str())
    } else {
        fallback
    };
    let idc = chars_of(id.as_str());
    proof {
        reveal_strlit("el");
        assert("el"@.len() == 2);
    }
    let suffix = slice_chars(idc.as_slice(), 2, idc.len());
    assert(suffix@ =~= id@.skip(2));
    let mut event_id = owned("tennisi-");
    let suffix_s = string_of(suffix.as_slice());
    push_str(&mut event_id, suffix_s.as_str());
    let raw_url = match &row.href {
        Some(p) => absolute_url(p.as_str()),
        None => owned("https://tennisi.bet"),
    };
    let cells = expand_cells(&row.cells);
    let start_time_ms = if live || cells.len() < 2 {
        None
    } else {
        let marker: Option<&str> = match date {
            Some(d) => Some(d.as_str()),
            None => None,
        };
        assert(marker_view(marker) == opt_text(*date));
        prematch_start_at(marker, cells[1].as_str(), now)
    };
    let mut extra: Vec<JsonMember> = Vec::new();
    if outright {
        extra.push(JsonMember { key: owned("tennisi_event_kind"), value: JsonValue::Str(owned("outright")) });
    }
    let event = Event {
        id: event_id.clone(),
        sport,
        league: ev_league,
        home_team: home,
        away_team: away,
        start_time_ms,
        is_live: live,
        bookmaker_slug: owned("tennisi"),
        raw_url: Some(raw_url),
        extra,
    };
    let quote = TennisiQuote { event_id, headers: crate::text::clone_strings(headers), cells, sport };
    Some((event, quote))
}

/// The Tennisi parser: the shared HTTP client.
pub struct TennisiParser {
    pub client: Arc<reqwest::Client>,
}

/// The last clock reading (milliseconds since the Unix epoch) before
/// Moscow's last day that chrono's dates reach.
pub const CLOCK_LIMIT_MS: i64 = 8_210_266_779_599_999;

impl TennisiParser {
    /// A parser on `client`.
    pub fn new(client: Arc<reqwest::Client>) -> (r: TennisiParser)
        ensures
            r.client == client,
    {
        TennisiParser { client }
    }

    /// Walks the rows of a page read at `now`: league and date headings and
    /// header rows update what is carried down; each event row gives its
    /// event and the request for its prices.
    pub fn parse_table_rows(rows: &Vec<TableRow>, fallback_sport: Sport, is_live: bool, now_ms: i64) -> (r: (
        Vec<Event>,
        Vec<TennisiQuote>,
    ))
        requires
            now_ms >= 0,
            moscow_day(now_ms as int) < last_day(),
        ensures
            page_is(r.0@, r.1@, table_page(row_views(rows@), fallback_sport, is_live, now_ms as int)),
    {
        let ghost rv = row_views(rows@);
        let ghost now = now_ms as int;
        let mut league = String::new();
        let mut date: Option<String> = None;
        let mut headers: Vec<String> = Vec::new();
        let mut events: Vec<Event> = Vec::new();
        let mut quotes: Vec<TennisiQuote> = Vec::new();
        let mut i: usize = 0;
        assert(league@ =~= Seq::<char>::empty());
        assert(views(headers@) =~= Seq::<Seq<char>>::empty());
        assert(rv.take(0) =~= Seq::<TableRowView>::empty());
        while i < rows.len()
            invariant
                i <= rows@.len(),
                rv == row_views(rows@),
                now == now_ms as int,
                now_ms >= 0,
                moscow_day(now_ms as int) < last_day(),
                league@ == walk_state(rv.take(i as int), fallback_sport, is_live, now).league,
                opt_text(date) == walk_state(rv.take(i as int), fallback_sport, is_live, now).date,
                views(headers@) == walk_state(rv.take(i as int), fallback_sport, is_live, now).headers,
                page_is(events@, quotes@, table_page(rv.take(i as int), fallback_sport, is_live, now)),
            decreases rows@.len() - i,
        {
            let ghost pre = rv.take(i + 1);
            assert(pre.drop_last() =~= rv.take(i as int));
            assert(pre.last() == rows@[i as int]@);
            let ghost st = walk_state(rv.take(i as int), fallback_sport, is_live, now);
            let ghost out = table_page(rv.take(i as int), fallback_sport, is_live, now);
            let row = &rows[i];
            let is_event = match &row.id {
                Some(id) => crate::text::str_starts_with(id.as_str(), "el"),
                None => false,
            };
            proof {
                if row.id is None {
                    reveal_strlit("el");
                    assert(!has_prefix(Seq::<char>::empty(), "el"@));
                }
            }
            if is_event {
                match event_row(row, &league, &date, &headers, fallback_sport, is_live, now_ms) {
                    Some((e, q)) => {
                        let ghost ev = events@;
                        let ghost qv = quotes@;
                        events.push(e);
                        quotes.push(q);
                        proof {
                            let x = walk_step(st, rows@[i as int]@, fallback_sport, is_live, now).1->0;
                            assert(table_page(pre, fallback_sport, is_live, now) == out.push(x));
                            assert forall|k: int| 0 <= k < out.len() + 1 implies event_is(
                                #[trigger] events@[k]@,
                                out.push(x)[k].0,
                                out.push(x)[k].1,
                            ) by {
                                if k < out.len() {
                                    assert(events@[k] == ev[k]);
                                }
                            }
                            assert forall|k: int| 0 <= k < out.len() + 1 implies #[trigger] quotes@[k]@ == out.push(
                                x,
                            )[k].2 by {
                                if k < out.len() {
                                    assert(quotes@[k] == qv[k]);
                                }
                            }
                        }
                    },
                    None => {},
                }
            } else {
                let cells = expand_cells(&row.cells);
                let (count, first) = nonempty_of(&cells);
                if count == 1 {
                    let j = match first {
                        Some(j) => j,
                        None => 0,
                    };
                    let text = cells[j].clone();
                    if is_live {
                        if !is_generic_live_filter_row(text.as_str()) {
                            league = text;
                        }
                    } else if is_date_marker(text.as_str()) {
                        date = Some(text);
                    } else {
                        league = text;
                    }
                } else if row.has_header_cell || count >= 8 {
                    let (l, h) = header_row_of(&row.cells, is_live, &league);
                    league = l;
                    headers = h;
                }
            }
            i = i + 1;
        }
        assert(rv.take(rows@.len() as int) =~= rv);
        (events, quotes)
    }

    /// `parse_table_rows` on the rows scraper reads from `html`, at `now`.
    pub fn parse_table_page_at(html: &str, fallback_sport: Sport, is_live: bool, now_ms: i64) -> (r: (
        Vec<Event>,
        Vec<TennisiQuote>,
    ))
        requires
            now_ms >= 0,
            moscow_day(now_ms as int) < last_day(),
        ensures
            page_is(r.0@, r.1@, table_page(scraped_rows(html@), fallback_sport, is_live, now_ms as int)),
    {
        let rows = table_rows(html);
        Self::parse_table_rows(&rows, fallback_sport, is_live, now_ms)
    }

    /// `parse_table_page_at` at the current time (a clock reading past
    /// chrono's dates taken as their last day).
    pub fn parse_table_page(html: &str, fallback_sport: Sport, is_live: bool) -> (r: (
        Vec<Event>,
        Vec<TennisiQuote>,
    ))
        ensures
            exists|now: int| page_is(r.0@, r.1@, table_page(scraped_rows(html@), fallback_sport, is_live, now)),
    {
        let t = utc_now_millis();
        let now = if t > CLOCK_LIMIT_MS {
            CLOCK_LIMIT_MS
        } else {
            t
        };
        assert(last_day() == 95026236);
        Self::parse_table_page_at(html, fallback_sport, is_live, now)
    }

    /// A prematch category page (its sport the probe's).
    pub fn parse_prematch_page(html: &str, fallback_sport: Sport) -> (r: (Vec<Event>, Vec<TennisiQuote>))
        ensures
            exists|now: int| page_is(r.0@, r.1@, table_page(scraped_rows(html@), fallback_sport, false, now)),
    {
        Self::parse_table_page(html, fallback_sport, false)
    }

    /// The live lines page (sports read from leagues and titles).
    pub fn parse_live_page(html: &str) -> (r: (Vec<Event>, Vec<TennisiQuote>))
        ensures
            exists|now: int| page_is(r.0@, r.1@, table_page(scraped_rows(html@), Sport::Other, true, now)),
    {
        Self::parse_table_page(html, Sport::Other, true)
    }
}

impl BookmakerParser for TennisiParser {
    open spec fn name_spec(&self) -> Seq<char> {
        "Tennisi"@
    }

    open spec fn slug_spec(&self) -> Seq<char> {
        "tennisi"@
    }

    open spec fn enabled_spec(&self) -> bool {
        true
    }

    open spec fn readiness_spec(&self) -> Option<ReadinessView> {
        None
    }

    fn name(&self) -> (r: &str) {
        "Tennisi"
    }

    fn slug(&self) -> (r: &str) {
        "tennisi"
    }

    fn is_enabled(&self) -> (r: bool) {
        true
    }

    fn readiness(&self) -> (r: Option<ParserReadiness>) {
        None
    }
}

} // verus!
