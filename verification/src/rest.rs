//! The fallback REST parsers of Marathon, Melbet and 1xBet: events read
//! from their JSON APIs, and event ids read from the lines of their HTML
//! pages.

use crate::json::{get, jget, json_parsed, parse_json_bytes, text_of, JsonValue};
use crate::ligastavok::{first_of, or_else};
use crate::model::{event_views, Event, EventView};
use crate::sport::Sport;
use crate::text::{
    chars_of, dec, find_first, first_index, has_infix, owned, push_char, push_decimal, push_str,
    str_contains, string_of, slice_chars,
};
use std::sync::Arc;
use vstd::prelude::*;

verus! {

// ---------------------------------------------------------------------------
// Lines of a page
// ---------------------------------------------------------------------------

/// `line` without one trailing carriage return.
pub open spec fn strip_cr(line: Seq<char>) -> Seq<char> {
    if line.len() > 0 && line.last() == '\r' {
        line.drop_last()
    } else {
        line
    }
}

/// The lines of `s` after the line `cur` begun so far and the lines `done`
/// already ended, as `str::lines` splits them: each `\n` ends a line (and
/// with it a `\r` just before it); a last line without `\n` is kept
/// whole, an empty one is dropped.
pub open spec fn lines_from(s: Seq<char>, cur: Seq<char>, done: Seq<Seq<char>>) -> Seq<Seq<char>>
    decreases s.len(),
{
    if s.len() == 0 {
        if cur.len() == 0 {
            done
        } else {
            done.push(cur)
        }
    } else if s[0] == '\n' {
        lines_from(s.drop_first(), Seq::empty(), done.push(strip_cr(cur)))
    } else {
        lines_from(s.drop_first(), cur.push(s[0]), done)
    }
}

/// The lines of `s` (`str::lines`).
pub open spec fn text_lines(s: Seq<char>) -> Seq<Seq<char>> {
    lines_from(s, Seq::empty(), Seq::empty())
}

/// The lines of `s`, as `str::lines` splits them.
pub fn lines_of(s: &str) -> (r: Vec<String>)
    ensures
        crate::text::views(r@) == text_lines(s@),
{
    let v = chars_of(s);
    let mut done: Vec<String> = Vec::new();
    let mut cur: Vec<char> = Vec::new();
    let mut i: usize = 0;
    assert(v@.skip(0) =~= v@);
    assert(cur@ =~= Seq::<char>::empty());
    assert(crate::text::views(done@) =~= Seq::<Seq<char>>::empty());
    while i < v.len()
        invariant
            i <= v@.len(),
            v@ == s@,
            text_lines(s@) == lines_from(v@.skip(i as int), cur@, crate::text::views(done@)),
        decreases v@.len() - i,
    {
        let ghost rest = v@.skip(i as int);
        assert(rest[0] == v@[i as int]);
        assert(rest.drop_first() =~= v@.skip(i + 1));
        if v[i] == '\n' {
            let n = cur.len();
            let end = if n > 0 && cur[n - 1] == '\r' {
                n - 1
            } else {
                n
            };
            let line = slice_chars(cur.as_slice(), 0, end);
            assert(line@ =~= strip_cr(cur@));
            let ls = string_of(line.as_slice());
            let ghost before = crate::text::views(done@);
            done.push(ls);
            assert(crate::text::views(done@) =~= before.push(strip_cr(cur@)));
            cur = Vec::new();
            assert(cur@ =~= Seq::<char>::empty());
        } else {
            cur.push(v[i]);
        }
        i = i + 1;
    }
    if cur.len() > 0 {
        let ghost before = crate::text::views(done@);
        let ls = string_of(cur.as_slice());
        done.push(ls);
        assert(crate::text::views(done@) =~= before.push(cur@));
    }
    done
}

/// The event id an HTML line carries: the text after the first
/// `data-event-id="` up to the next `"`, where there is one.
pub open spec fn line_event_id(line: Seq<char>) -> Option<Seq<char>> {
    let marker = "data-event-id=\""@;
    if !has_infix(line, marker) {
        None
    } else {
        let rest = line.skip(first_index(line, marker) + 15);
        if !has_infix(rest, "\""@) {
            None
        } else {
            Some(rest.take(first_index(rest, "\""@)))
        }
    }
}

/// The event id an HTML line carries, where there is one.
pub fn html_line_event_id(line: &str) -> (r: Option<String>)
    ensures
        match r {
            Some(id) => line_event_id(line@) == Some(id@),
            None => line_event_id(line@) is None,
        },
{
    proof {
        reveal_strlit("data-event-id=\"");
        reveal_strlit("\"");
    }
    let v = chars_of(line);
    let marker = chars_of("data-event-id=\"");
    assert(marker@.len() == 15);
    let start = match find_first(v.as_slice(), marker.as_slice()) {
        Some(i) => i,
        None => return None,
    };
    let n = v.len();
    assert(start + 15 <= n);
    let rest = slice_chars(v.as_slice(), start + 15, n);
    assert(rest@ =~= line@.skip(first_index(line@, "data-event-id=\""@) + 15));
    let quote = chars_of("\"");
    let end = match find_first(rest.as_slice(), quote.as_slice()) {
        Some(j) => j,
        None => return None,
    };
    let id = slice_chars(rest.as_slice(), 0, end);
    assert(id@ =~= rest@.take(first_index(rest@, "\""@)));
    Some(string_of(id.as_slice()))
}

/// An event known only by the id a page line carries.
pub open spec fn line_event(id: Seq<char>, slug: Seq<char>, url_base: Seq<char>, live: bool) -> EventView {
    EventView {
        id,
        sport: Sport::Football,
        league: "Unknown"@,
        home_team: "Unknown"@,
        away_team: "Unknown"@,
        start_time_ms: None,
        is_live: live,
        bookmaker_slug: slug,
        raw_url: Some(url_base + id),
        extra: Seq::empty(),
    }
}

/// The event a page line gives.
fn html_line_event(id: String, slug: &str, url_base: &str, live: bool) -> (r: Event)
    ensures
        r@ == line_event(id@, slug@, url_base@, live),
{
    let mut url = owned(url_base);
    push_str(&mut url, id.as_str());
    let e = Event {
        id,
        sport: Sport::Football,
        league: owned("Unknown"),
        home_team: owned("Unknown"),
        away_team: owned("Unknown"),
        start_time_ms: None,
        is_live: live,
        bookmaker_slug: owned(slug),
        raw_url: Some(url),
        extra: Vec::new(),
    };
    assert(e@.extra =~= Seq::<crate::json::JsonMember>::empty());
    e
}

// ---------------------------------------------------------------------------
// JSON events
// ---------------------------------------------------------------------------

/// The event list of a JSON answer: its `events` where it has that member
/// (none unless an array), else `data.events` where it has `data`, else
/// the answer itself where it is an array.
pub open spec fn answer_events(json: JsonValue) -> Seq<JsonValue> {
    match jget(json, "events"@) {
        Some(e) => match e {
            JsonValue::Array(items) => items@,
            _ => Seq::empty(),
        },
        None => match jget(json, "data"@) {
            Some(d) => match jget(d, "events"@) {
                Some(JsonValue::Array(items)) => items@,
                _ => Seq::empty(),
            },
            None => match json {
                JsonValue::Array(items) => items@,
                _ => Seq::empty(),
            },
        },
    }
}

/// The `as_u64` id of a value, in decimal.
pub open spec fn u64_id(o: Option<JsonValue>) -> Option<Seq<char>> {
    match crate::json::u64_of(o) {
        Some(n) => Some(dec(n as nat)),
        None => None,
    }
}

/// A boolean value; `false` for anything else.
pub open spec fn flag(o: Option<JsonValue>) -> bool {
    crate::json::bool_or_false(o)
}

/// The event a Marathon API object describes: it needs an integer `id`
/// (else `eventId`) and string home and away teams (`homeTeam` else
/// `home`; `awayTeam` else `away`).
pub open spec fn marathon_rest_event(obj: JsonValue) -> Option<EventView> {
    let id = u64_id(or_else(jget(obj, "id"@), jget(obj, "eventId"@)));
    let home = text_of(or_else(jget(obj, "homeTeam"@), jget(obj, "home"@)));
    let away = text_of(or_else(jget(obj, "awayTeam"@), jget(obj, "away"@)));
    if id is None || home is None || away is None {
        None
    } else {
        Some(
            EventView {
                id: id->0,
                sport: Sport::Football,
                league: match text_of(jget(obj, "league"@)) {
                    Some(l) => l,
                    None => "Unknown"@,
                },
                home_team: home->0,
                away_team: away->0,
                start_time_ms: None,
                is_live: flag(jget(obj, "is_live"@)),
                bookmaker_slug: "marathon"@,
                raw_url: Some("https://marathonbet.com/event/"@ + id->0),
                extra: Seq::empty(),
            },
        )
    }
}

/// The event a Melbet API object describes: it needs an integer `id` and
/// string home and away teams (`homeTeam` else `home`; `awayTeam` else
/// `away`); live from `is_live`, else `isLive`.
pub open spec fn melbet_rest_event(obj: JsonValue) -> Option<EventView> {
    let id = u64_id(jget(obj, "id"@));
    let home = text_of(or_else(jget(obj, "homeTeam"@), jget(obj, "home"@)));
    let away = text_of(or_else(jget(obj, "awayTeam"@), jget(obj, "away"@)));
    if id is None || home is None || away is None {
        None
    } else {
        Some(
            EventView {
                id: id->0,
                sport: Sport::Football,
                league: match text_of(jget(obj, "league"@)) {
                    Some(l) => l,
                    None => "Unknown"@,
                },
                home_team: home->0,
                away_team: away->0,
                start_time_ms: None,
                is_live: flag(or_else(jget(obj, "is_live"@), jget(obj, "isLive"@))),
                bookmaker_slug: "melbet"@,
                raw_url: Some("https://melbet.com/betting/"@ + id->0),
                extra: Seq::empty(),
            },
        )
    }
}

/// The id of a 1xBet object: its `id`, else `eventId`, else `event_id`,
/// as a decimal integer or a string.
pub open spec fn onexbet_id(obj: JsonValue) -> Option<Seq<char>> {
    match or_else(jget(obj, "id"@), or_else(jget(obj, "eventId"@), jget(obj, "event_id"@))) {
        Some(v) => match u64_id(Some(v)) {
            Some(t) => Some(t),
            None => text_of(Some(v)),
        },
        None => None,
    }
}

/// The event a 1xBet API object describes: it needs an id and string home
/// and away teams (`homeTeam`, `home`, `team1`; `awayTeam`, `away`,
/// `team2`); its league is `league`, `tournament` or `competition`.
pub open spec fn onexbet_event(obj: JsonValue) -> Option<EventView> {
    let id = onexbet_id(obj);
    let home = text_of(or_else(jget(obj, "homeTeam"@), or_else(jget(obj, "home"@), jget(obj, "team1"@))));
    let away = text_of(or_else(jget(obj, "awayTeam"@), or_else(jget(obj, "away"@), jget(obj, "team2"@))));
    if id is None || home is None || away is None {
        None
    } else {
        Some(
            EventView {
                id: id->0,
                sport: Sport::Football,
                league: match text_of(
                    or_else(jget(obj, "league"@), or_else(jget(obj, "tournament"@), jget(obj, "competition"@))),
                ) {
                    Some(l) => l,
                    None => "Unknown"@,
                },
                home_team: home->0,
                away_team: away->0,
                start_time_ms: None,
                is_live: flag(or_else(jget(obj, "is_live"@), or_else(jget(obj, "live"@), jget(obj, "inLive"@)))),
                bookmaker_slug: "1xbet"@,
                raw_url: Some("https://1xstavka.ru/betting/"@ + id->0),
                extra: Seq::empty(),
            },
        )
    }
}

/// Which site a REST parser reads.
#[derive(Clone, Copy, Debug, PartialEq, Eq, Structural)]
pub enum RestSite {
    Marathon,
    Melbet,
    Onexbet,
}

/// The event an API object describes on a site.
pub open spec fn site_event(site: RestSite, obj: JsonValue) -> Option<EventView> {
    match site {
        RestSite::Marathon => marathon_rest_event(obj),
        RestSite::Melbet => melbet_rest_event(obj),
        RestSite::Onexbet => onexbet_event(obj),
    }
}

/// The events of a list of API objects on a site, in order.
pub open spec fn site_events(site: RestSite, items: Seq<JsonValue>) -> Seq<EventView>
    decreases items.len(),
{
    if items.len() == 0 {
        Seq::empty()
    } else {
        let rest = site_events(site, items.drop_last());
        match site_event(site, items.last()) {
            Some(e) => rest.push(e),
            None => rest,
        }
    }
}

/// The text of a looked-up string, or `fallback`.
fn text_or(v: Option<&JsonValue>, fallback: &str) -> (r: String)
    ensures
        r@ == match text_of(
            match v {
                Some(x) => Some(*x),
                None => None,
            },
        ) {
            Some(t) => t,
            None => fallback@,
        },
{
    match v {
        Some(JsonValue::Str(s)) => s.clone(),
        _ => owned(fallback),
    }
}

/// A looked-up boolean, or `false`.
fn flag_of(v: Option<&JsonValue>) -> (r: bool)
    ensures
        r == flag(
            match v {
                Some(x) => Some(*x),
                None => None,
            },
        ),
{
    match v {
        Some(JsonValue::Bool(b)) => *b,
        _ => false,
    }
}

/// The decimal text of a looked-up non-negative integer.
fn u64_text(v: Option<&JsonValue>) -> (r: Option<String>)
    ensures
        match r {
            Some(t) => u64_id(
                match v {
                    Some(x) => Some(*x),
                    None => None,
                },
            ) == Some(t@),
            None => u64_id(
                match v {
                    Some(x) => Some(*x),
                    None => None,
                },
            ) is None,
        },
{
    match v {
        Some(JsonValue::Number(crate::json::JsonNumber::PosInt(n))) => {
            let mut t = String::new();
            push_decimal(&mut t, *n);
            Some(t)
        },
        _ => None,
    }
}

/// The text of a looked-up string.
fn string_at(v: Option<&JsonValue>) -> (r: Option<String>)
    ensures
        match r {
            Some(t) => text_of(
                match v {
                    Some(x) => Some(*x),
                    None => None,
                },
            ) == Some(t@),
            None => text_of(
                match v {
                    Some(x) => Some(*x),
                    None => None,
                },
            ) is None,
        },
{
    match v {
        Some(JsonValue::Str(s)) => Some(s.clone()),
        _ => None,
    }
}

/// The event an API object describes on `site`.
pub fn build_site_event(site: RestSite, obj: &JsonValue) -> (r: Option<Event>)
    ensures
        match r {
            Some(e) => site_event(site, *obj) == Some(e@),
            None => site_event(site, *obj) is None,
        },
{
    let id = match site {
        RestSite::Marathon => u64_text(first_of(get(obj, "id"), get(obj, "eventId"))),
        RestSite::Melbet => u64_text(get(obj, "id")),
        RestSite::Onexbet => {
            let v = first_of(get(obj, "id"), first_of(get(obj, "eventId"), get(obj, "event_id")));
            match u64_text(v) {
                Some(t) => Some(t),
                None => string_at(v),
            }
        },
    };
    let id = match id {
        Some(t) => t,
        None => return None,
    };
    let home_v = match site {
        RestSite::Onexbet => first_of(get(obj, "homeTeam"), first_of(get(obj, "home"), get(obj, "team1"))),
        _ => first_of(get(obj, "homeTeam"), get(obj, "home")),
    };
    let away_v = match site {
        RestSite::Onexbet => first_of(get(obj, "awayTeam"), first_of(get(obj, "away"), get(obj, "team2"))),
        _ => first_of(get(obj, "awayTeam"), get(obj, "away")),
    };
    let home = match string_at(home_v) {
        Some(t) => t,
        None => return None,
    };
    let away = match string_at(away_v) {
        Some(t) => t,
        None => return None,
    };
    let league_v = match site {
        RestSite::Onexbet => first_of(
            get(obj, "league"),
            first_of(get(obj, "tournament"), get(obj, "competition")),
        ),
        _ => get(obj, "league"),
    };
    let league = text_or(league_v, "Unknown");
    let live_v = match site {
        RestSite::Marathon => get(obj, "is_live"),
        RestSite::Melbet => first_of(get(obj, "is_live"), get(obj, "isLive")),
        RestSite::Onexbet => first_of(get(obj, "is_live"), first_of(get(obj, "live"), get(obj, "inLive"))),
    };
    let is_live = flag_of(live_v);
    let (slug, base): (&str, &str) = match site {
        RestSite::Marathon => ("marathon", "https://marathonbet.com/event/"),
        RestSite::Melbet => ("melbet", "https://melbet.com/betting/"),
        RestSite::Onexbet => ("1xbet", "https://1xstavka.ru/betting/"),
    };
    let mut url = owned(base);
    push_str(&mut url, id.as_str());
    let e = Event {
        id,
        sport: Sport::Football,
        league,
        home_team: home,
        away_team: away,
        start_time_ms: None,
        is_live,
        bookmaker_slug: owned(slug),
        raw_url: Some(url),
        extra: Vec::new(),
    };
    assert(e@.extra =~= Seq::<crate::json::JsonMember>::empty());
    assert(site_event(site, *obj) == Some(e@));
    Some(e)
}

/// Appends to `out` the events of the API objects `items` on `site`.
pub fn push_site_events(site: RestSite, items: &Vec<JsonValue>, out: &mut Vec<Event>)
    ensures
        event_views(final(out)@) == event_views(old(out)@) + site_events(site, items@),
{
    let mut i: usize = 0;
    assert(event_views(out@) =~= event_views(old(out)@) + site_events(site, items@.take(0)));
    while i < items.len()
        invariant
            i <= items@.len(),
            event_views(out@) == event_views(old(out)@) + site_events(site, items@.take(i as int)),
        decreases items@.len() - i,
    {
        let ghost before = out@;
        assert(items@.take(i + 1).drop_last() =~= items@.take(i as int));
        assert(items@.take(i + 1).last() == items@[i as int]);
        match build_site_event(site, &items[i]) {
            Some(e) => {
                out.push(e);
                assert(event_views(out@) =~= event_views(before).push(e@));
            },
            None => {},
        }
        assert(event_views(out@) =~= event_views(old(out)@) + site_events(site, items@.take(i + 1)));
        i = i + 1;
    }
    assert(items@.take(items@.len() as int) =~= items@);
}

/// The event list of a JSON answer.
fn answer_event_list(json: &JsonValue) -> (r: Option<&Vec<JsonValue>>)
    ensures
        match r {
            Some(items) => answer_events(*json) == items@,
            None => answer_events(*json) == Seq::<JsonValue>::empty(),
        },
{
    match get(json, "events") {
        Some(JsonValue::Array(items)) => Some(items),
        Some(_) => None,
        None => match get(json, "data") {
            Some(d) => match get(d, "events") {
                Some(JsonValue::Array(items)) => Some(items),
                _ => None,
            },
            None => match json {
                JsonValue::Array(items) => Some(items),
                _ => None,
            },
        },
    }
}

/// The Marathon REST parser.
pub struct MarathonRestParser {
    pub client: Arc<reqwest::Client>,
}

/// The Melbet REST parser.
pub struct MelbetRestParser {
    pub client: Arc<reqwest::Client>,
}

/// The 1xBet REST parser.
pub struct OnexbetRestParser {
    pub client: Arc<reqwest::Client>,
}

/// The events of the lines of a page that `keep` admits, each known only by
/// the id it carries.
pub open spec fn page_events(
    lines: Seq<Seq<char>>,
    site: RestSite,
) -> Seq<EventView>
    decreases lines.len(),
{
    if lines.len() == 0 {
        Seq::empty()
    } else {
        let rest = page_events(lines.drop_last(), site);
        let l = lines.last();
        if keeps_line(site, l) && line_event_id(l) is Some {
            rest.push(line_event(line_event_id(l)->0, site_slug(site), site_url_base(site), line_live(site, l)))
        } else {
            rest
        }
    }
}

/// Whether a site's page reader looks at a line: Marathon's at lines with
/// `event` and `data-`; 1xBet's at lines with `data-event-id`, `eventId`
/// or `event-`; Melbet's at every line.
pub open spec fn keeps_line(site: RestSite, l: Seq<char>) -> bool {
    match site {
        RestSite::Marathon => has_infix(l, "event"@) && has_infix(l, "data-"@),
        RestSite::Melbet => true,
        RestSite::Onexbet => has_infix(l, "data-event-id"@) || has_infix(l, "eventId"@) || has_infix(l, "event-"@),
    }
}

/// The slug of a site.
pub open spec fn site_slug(site: RestSite) -> Seq<char> {
    match site {
        RestSite::Marathon => "marathon"@,
        RestSite::Melbet => "melbet"@,
        RestSite::Onexbet => "1xbet"@,
    }
}

/// The address events of a site are linked under.
pub open spec fn site_url_base(site: RestSite) -> Seq<char> {
    match site {
        RestSite::Marathon => "https://marathonbet.com/event/"@,
        RestSite::Melbet => "https://melbet.com/betting/"@,
        RestSite::Onexbet => "https://1xstavka.ru/betting/"@,
    }
}

/// Whether a page line's event is live: for 1xBet where the line mentions
/// `live`; never otherwise.
pub open spec fn line_live(site: RestSite, l: Seq<char>) -> bool {
    match site {
        RestSite::Onexbet => has_infix(l, "live"@),
        _ => false,
    }
}

/// The events on an HTML page of `site`, line by line.
pub fn extract_site_page(site: RestSite, html: &str) -> (r: Vec<Event>)
    ensures
        event_views(r@) == page_events(text_lines(html@), site),
{
    let lines = lines_of(html);
    let ghost ls = crate::text::views(lines@);
    let mut out: Vec<Event> = Vec::new();
    let mut i: usize = 0;
    assert(event_views(out@) =~= page_events(ls.take(0), site));
    while i < lines.len()
        invariant
            i <= lines@.len(),
            ls == crate::text::views(lines@),
            event_views(out@) == page_events(ls.take(i as int), site),
        decreases lines@.len() - i,
    {
        let ghost before = out@;
        assert(ls.take(i + 1).drop_last() =~= ls.take(i as int));
        assert(ls.take(i + 1).last() == lines@[i as int]@);
        let l = lines[i].as_str();
        let keep = match site {
            RestSite::Marathon => str_contains(l, "event") && str_contains(l, "data-"),
            RestSite::Melbet => true,
            RestSite::Onexbet => str_contains(l, "data-event-id") || str_contains(l, "eventId")
                || str_contains(l, "event-"),
        };
        if keep {
            match html_line_event_id(l) {
                Some(id) => {
                    let live = match site {
                        RestSite::Onexbet => str_contains(l, "live"),
                        _ => false,
                    };
                    let (slug, base): (&str, &str) = match site {
                        RestSite::Marathon => ("marathon", "https://marathonbet.com/event/"),
                        RestSite::Melbet => ("melbet", "https://melbet.com/betting/"),
                        RestSite::Onexbet => ("1xbet", "https://1xstavka.ru/betting/"),
                    };
                    let e = html_line_event(id, slug, base, live);
                    out.push(e);
                    assert(event_views(out@) =~= event_views(before).push(e@));
                },
                None => {},
            }
        }
        i = i + 1;
    }
    assert(ls.take(lines@.len() as int) =~= ls);
    out
}

impl MarathonRestParser {
    /// A parser on `client`.
    pub fn new(client: Arc<reqwest::Client>) -> (r: MarathonRestParser)
        ensures
            r.client == client,
    {
        MarathonRestParser { client }
    }

    /// The events of an API answer body: none where it is no JSON, else
    /// `parse_api` of the document.
    pub fn parse_api_body(body: &[u8]) -> (r: Vec<Event>)
        ensures
            event_views(r@) == match json_parsed(body@) {
                Some(j) => site_events(RestSite::Marathon, answer_events(j)),
                None => Seq::empty(),
            },
    {
        match parse_json_bytes(body) {
            Some(j) => Self::parse_api(&j),
            None => {
                let r: Vec<Event> = Vec::new();
                assert(event_views(r@) =~= Seq::<EventView>::empty());
                r
            },
        }
    }

    /// The events of an API answer: its event list (`events`, else
    /// `data.events`, else the answer itself), each object that describes
    /// one.
    pub fn parse_api(json: &JsonValue) -> (r: Vec<Event>)
        ensures
            event_views(r@) == site_events(RestSite::Marathon, answer_events(*json)),
    {
        let mut out: Vec<Event> = Vec::new();
        match answer_event_list(json) {
            Some(items) => push_site_events(RestSite::Marathon, items, &mut out),
            None => {},
        }
        assert(event_views(out@) =~= site_events(RestSite::Marathon, answer_events(*json)));
        out
    }

    /// The event an API object describes.
    pub fn build_event(obj: &JsonValue) -> (r: Option<Event>)
        ensures
            match r {
                Some(e) => marathon_rest_event(*obj) == Some(e@),
                None => marathon_rest_event(*obj) is None,
            },
    {
        build_site_event(RestSite::Marathon, obj)
    }

    /// The events on the main page: one per line with `event` and `data-`
    /// that carries an event id.
    pub fn extract_from_html(html: &str) -> (r: Vec<Event>)
        ensures
            event_views(r@) == page_events(text_lines(html@), RestSite::Marathon),
    {
        extract_site_page(RestSite::Marathon, html)
    }
}

impl MelbetRestParser {
    /// A parser on `client`.
    pub fn new(client: Arc<reqwest::Client>) -> (r: MelbetRestParser)
        ensures
            r.client == client,
    {
        MelbetRestParser { client }
    }

    /// The events of an API answer body: none where it is no JSON, else
    /// `parse_api` of the document.
    pub fn parse_api_body(body: &[u8]) -> (r: Vec<Event>)
        ensures
            event_views(r@) == match json_parsed(body@) {
                Some(j) => site_events(RestSite::Melbet, answer_events(j)),
                None => Seq::empty(),
            },
    {
        match parse_json_bytes(body) {
            Some(j) => Self::parse_api(&j),
            None => {
                let r: Vec<Event> = Vec::new();
                assert(event_views(r@) =~= Seq::<EventView>::empty());
                r
            },
        }
    }

    /// The events of an API answer: its event list (`events`, else
    /// `data.events`, else the answer itself), each object that describes
    /// one.
    pub fn parse_api(json: &JsonValue) -> (r: Vec<Event>)
        ensures
            event_views(r@) == site_events(RestSite::Melbet, answer_events(*json)),
    {
        let mut out: Vec<Event> = Vec::new();
        match answer_event_list(json) {
            Some(items) => push_site_events(RestSite::Melbet, items, &mut out),
            None => {},
        }
        assert(event_views(out@) =~= site_events(RestSite::Melbet, answer_events(*json)));
        out
    }

    /// The event an API object describes.
    pub fn build_event(obj: &JsonValue) -> (r: Option<Event>)
        ensures
            match r {
                Some(e) => melbet_rest_event(*obj) == Some(e@),
                None => melbet_rest_event(*obj) is None,
            },
    {
        build_site_event(RestSite::Melbet, obj)
    }

    /// The events on the main page: one per line that carries an event id.
    pub fn extract_from_html(html: &str) -> (r: Vec<Event>)
        ensures
            event_views(r@) == page_events(text_lines(html@), RestSite::Melbet),
    {
        extract_site_page(RestSite::Melbet, html)
    }
}

/// The events of a BFF answer: those of its `events`, of its `data.events`
/// and of its `result`, each where it is an array, in that order.
pub open spec fn bff_events(json: JsonValue) -> Seq<EventView> {
    site_events(RestSite::Onexbet, crate::json::items_of(jget(json, "events"@)))
        + site_events(
        RestSite::Onexbet,
        crate::json::items_of(crate::ligastavok::jget_opt(jget(json, "data"@), "events"@)),
    ) + site_events(RestSite::Onexbet, crate::json::items_of(jget(json, "result"@)))
}

impl OnexbetRestParser {
    /// A parser on `client`.
    pub fn new(client: Arc<reqwest::Client>) -> (r: OnexbetRestParser)
        ensures
            r.client == client,
    {
        OnexbetRestParser { client }
    }

    /// The event an API object describes.
    pub fn build_event_from_api(obj: &JsonValue) -> (r: Option<Event>)
        ensures
            match r {
                Some(e) => onexbet_event(*obj) == Some(e@),
                None => onexbet_event(*obj) is None,
            },
    {
        build_site_event(RestSite::Onexbet, obj)
    }

    /// The events of a BFF answer body: none where it is no JSON.
    pub fn parse_bff_body(body: &[u8]) -> (r: Vec<Event>)
        ensures
            event_views(r@) == match json_parsed(body@) {
                Some(j) => bff_events(j),
                None => Seq::empty(),
            },
    {
        match parse_json_bytes(body) {
            Some(j) => Self::parse_bff_response(&j),
            None => {
                let r: Vec<Event> = Vec::new();
                assert(event_views(r@) =~= Seq::<EventView>::empty());
                r
            },
        }
    }

    /// The events of a sports answer body: none where it is no JSON.
    pub fn parse_sports_body(body: &[u8]) -> (r: Vec<Event>)
        ensures
            event_views(r@) == match json_parsed(body@) {
                Some(j) => site_events(
                    RestSite::Onexbet,
                    match j {
                        JsonValue::Array(items) => items@,
                        _ => Seq::empty(),
                    },
                ),
                None => Seq::empty(),
            },
    {
        match parse_json_bytes(body) {
            Some(j) => Self::parse_sports_response(&j),
            None => {
                let r: Vec<Event> = Vec::new();
                assert(event_views(r@) =~= Seq::<EventView>::empty());
                r
            },
        }
    }

    /// The events of a BFF answer.
    pub fn parse_bff_response(json: &JsonValue) -> (r: Vec<Event>)
        ensures
            event_views(r@) == bff_events(*json),
    {
        let mut out: Vec<Event> = Vec::new();
        match get(json, "events") {
            Some(JsonValue::Array(items)) => push_site_events(RestSite::Onexbet, items, &mut out),
            _ => {},
        }
        let ghost a = event_views(out@);
        match crate::ligastavok::get_opt(get(json, "data"), "events") {
            Some(JsonValue::Array(items)) => push_site_events(RestSite::Onexbet, items, &mut out),
            _ => {},
        }
        let ghost b = event_views(out@);
        match get(json, "result") {
            Some(JsonValue::Array(items)) => push_site_events(RestSite::Onexbet, items, &mut out),
            _ => {},
        }
        assert(event_views(out@) =~= bff_events(*json));
        out
    }

    /// The events of a sports answer: each object of the answer, where it
    /// is an array, that describes one.
    pub fn parse_sports_response(json: &JsonValue) -> (r: Vec<Event>)
        ensures
            event_views(r@) == site_events(
                RestSite::Onexbet,
                match *json {
                    JsonValue::Array(items) => items@,
                    _ => Seq::empty(),
                },
            ),
    {
        let mut out: Vec<Event> = Vec::new();
        match json {
            JsonValue::Array(items) => push_site_events(RestSite::Onexbet, items, &mut out),
            _ => {},
        }
        assert(event_views(out@) =~= site_events(
            RestSite::Onexbet,
            match *json {
                JsonValue::Array(items) => items@,
                _ => Seq::empty(),
            },
        ));
        out
    }

    /// The events on the main page: one per line mentioning
    /// `data-event-id`, `eventId` or `event-` that carries an event id,
    /// live where the line mentions `live`.
    pub fn extract_from_html(html: &str) -> (r: Vec<Event>)
        ensures
            event_views(r@) == page_events(text_lines(html@), RestSite::Onexbet),
    {
        extract_site_page(RestSite::Onexbet, html)
    }
}

} // verus!
