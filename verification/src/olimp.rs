//! Olimp: the section addresses of its competitions-with-events API, the
//! events and priced outcomes read from that API's JSON, and the HTTP status
//! code an error message reports.

use crate::clock::{parse_rfc3339_millis, rfc3339_millis};
use crate::json::{
    array_field, array_of, get, jget, json_quoted, json_string_text, number_field, number_of,
    opt_text_field, text_of, text_or_empty, JsonNumber, JsonValue,
};
use crate::ligastavok::{first_of, get_opt, jget_opt, or_else, strip_leading, strip_leading_chars};
use crate::model::{event_views, odd_views, Event, EventView, Odd, OddView, OddsType};
use crate::proxy::{offered_states, ProxyConfig, ProxyManager};
use crate::sport::Sport;
use crate::text::{
    chars_of, dec, dec_value, find, first_index, has_infix, is_digit, occurs_at, owned,
    parse_u16_digits, push_decimal, push_signed_decimal, push_str, signed_dec, str_eq, string_of,
    strip_trailing, strip_trailing_char,
};
use std::sync::Arc;
use crate::readiness::{
    check, check_of, check_views, DiagnosticSeverity, ParserReadiness, ParserReadinessStage,
    ReadinessView,
};
use crate::registry::BookmakerParser;
use vstd::prelude::*;

verus! {

/// The ASCII digits `s` starts with.
pub open spec fn leading_digits(s: Seq<char>) -> Seq<char>
    decreases s.len(),
{
    if s.len() > 0 && is_digit(s[0]) {
        seq![s[0]] + leading_digits(s.drop_first())
    } else {
        Seq::empty()
    }
}

/// The first run of ASCII digits in `s` (empty where there is none).
pub open spec fn first_digit_run(s: Seq<char>) -> Seq<char>
    decreases s.len(),
{
    if s.len() == 0 {
        Seq::empty()
    } else if is_digit(s[0]) {
        leading_digits(s)
    } else {
        first_digit_run(s.drop_first())
    }
}

/// The status code an error message reports: the first run of digits after
/// the first `HTTP `, where it fits a `u16`.
pub open spec fn status_code_in(msg: Seq<char>) -> Option<u16> {
    if !has_infix(msg, "HTTP "@) {
        None
    } else {
        let run = first_digit_run(msg.skip(first_index(msg, "HTTP "@) + 5));
        if run.len() == 0 || dec_value(run) > 65535 {
            None
        } else {
            Some(dec_value(run) as u16)
        }
    }
}

/// Every character of the leading digits is a digit.
proof fn lemma_leading_digits(s: Seq<char>)
    ensures
        forall|k: int| 0 <= k < leading_digits(s).len() ==> is_digit(#[trigger] leading_digits(s)[k]),
        leading_digits(s).len() <= s.len(),
    decreases s.len(),
{
    if s.len() > 0 && is_digit(s[0]) {
        lemma_leading_digits(s.drop_first());
        let t = leading_digits(s.drop_first());
        assert forall|k: int| 0 <= k < leading_digits(s).len() implies is_digit(#[trigger] leading_digits(s)[k]) by {
            if k > 0 {
                assert(leading_digits(s)[k] == t[k - 1]);
            }
        }
    }
}

/// The status code an error message reports (`HTTP 403: Forbidden` gives
/// 403), if it reports one.
pub fn extract_status_code(message: &str) -> (r: Option<u16>)
    ensures
        r == status_code_in(message@),
{
    let s = chars_of(message);
    let needle = chars_of("HTTP ");
    let start = match find(s.as_slice(), needle.as_slice()) {
        Some(i) => i,
        None => return None,
    };
    proof {
        reveal(first_index);
        let c = first_index(s@, needle@);
        assert(occurs_at(s@, needle@, c) && forall|j: int| 0 <= j < c ==> !occurs_at(s@, needle@, j));
        if c < start {
        } else if c > start {
        }
        assert(c == start as int);
    }
    proof {
        reveal_strlit("HTTP ");
    }
    assert(needle@.len() == 5);
    assert(occurs_at(s@, needle@, start as int));
    let total = s.len();
    assert(start + 5 <= total);
    let mut k: usize = start + 5;
    assert(s@.skip(k as int) == message@.skip(first_index(message@, "HTTP "@) + 5));
    while k < s.len() && !(s[k] >= '0' && s[k] <= '9')
        invariant
            start + 5 <= k <= s@.len(),
            first_digit_run(s@.skip(start + 5)) == first_digit_run(s@.skip(k as int)),
        decreases s@.len() - k,
    {
        assert(s@.skip(k as int).drop_first() =~= s@.skip(k + 1));
        k = k + 1;
    }
    let k0 = k;
    let mut digits: Vec<char> = Vec::new();
    assert(k0 == s@.len() || is_digit(s@[k0 as int]));
    while k < s.len() && s[k] >= '0' && s[k] <= '9'
        invariant
            k0 <= k <= s@.len(),
            digits@ == s@.subrange(k0 as int, k as int),
            leading_digits(s@.skip(k0 as int)) == digits@ + leading_digits(s@.skip(k as int)),
        decreases s@.len() - k,
    {
        let ghost rest = s@.skip(k as int);
        assert(rest.drop_first() =~= s@.skip(k + 1));
        assert(rest[0] == s@[k as int]);
        digits.push(s[k]);
        k = k + 1;
        assert(digits@ + leading_digits(s@.skip(k as int)) =~= (digits@.drop_last() + seq![rest[0]]) + leading_digits(rest.drop_first()));
    }
    assert(leading_digits(s@.skip(k as int)) =~= Seq::<char>::empty());
    assert(digits@ =~= leading_digits(s@.skip(k0 as int)));
    proof {
        if k0 < s@.len() {
            assert(s@.skip(k0 as int)[0] == s@[k0 as int]);
            assert(first_digit_run(s@.skip(k0 as int)) == leading_digits(s@.skip(k0 as int)));
        } else {
            assert(s@.skip(k0 as int).len() == 0);
        }
        lemma_leading_digits(s@.skip(k0 as int));
    }
    if digits.len() == 0 {
        return None;
    }
    parse_u16_digits(digits.as_slice())
}

// ---------------------------------------------------------------------------
// The parser and its section addresses
// ---------------------------------------------------------------------------

/// The Olimp parser: the shared HTTP client, the API root, and the proxies
/// it rotates to when its own address is banned.
pub struct OlimpParser {
    pub client: Arc<reqwest::Client>,
    pub base_api_url: String,
    pub proxy_manager: Option<ProxyManager>,
}

impl OlimpParser {
    /// A parser on `client` without proxies.
    pub fn new(client: Arc<reqwest::Client>) -> (r: OlimpParser)
        ensures
            r.client == client,
            r.base_api_url@ == "https://www.olimp.bet/api/v4"@,
            r.proxy_manager is None,
    {
        OlimpParser::with_proxies(client, Vec::new())
    }

    /// A parser on `client` that rotates through `proxy_configs` (none
    /// where the list is empty).
    pub fn with_proxies(client: Arc<reqwest::Client>, proxy_configs: Vec<ProxyConfig>) -> (r:
        OlimpParser)
        ensures
            r.client == client,
            r.base_api_url@ == "https://www.olimp.bet/api/v4"@,
            (proxy_configs@.len() == 0) == (r.proxy_manager is None),
            r.proxy_manager matches Some(m) ==> m@.len() == proxy_configs@.len(),
    {
        let n = proxy_configs.len();
        let proxy_manager = if n > 0 {
            Some(ProxyManager::new(proxy_configs))
        } else {
            None
        };
        OlimpParser { client, base_api_url: owned("https://www.olimp.bet/api/v4"), proxy_manager }
    }

    /// The address of one section (`live`, `line`, ...) for one sport.
    pub fn section_url(&self, sport_id: u32, section: &str) -> (r: String)
        ensures
            r@ == self.base_api_url@ + "/"@ + dec(sport_id as nat) + "/"@ + section@
                + "/sports-with-competitions-with-events?vids%5B%5D="@,
    {
        let mut out = self.base_api_url.clone();
        push_str(&mut out, "/");
        push_decimal(&mut out, sport_id as u64);
        push_str(&mut out, "/");
        push_str(&mut out, section);
        push_str(&mut out, "/sports-with-competitions-with-events?vids%5B%5D=");
        out
    }

    /// How many of the parser's proxies are healthy now (none without
    /// proxies).
    pub fn healthy_proxy_count(&self) -> (n: usize)
        ensures
            self.proxy_manager is None ==> n == 0,
            self.proxy_manager matches Some(m) ==> exists|now: u64|
                n == offered_states(m@, now, None).len(),
    {
        match &self.proxy_manager {
            Some(m) => m.healthy_count(),
            None => 0,
        }
    }
}

// ---------------------------------------------------------------------------
// Sweeping the sections
// ---------------------------------------------------------------------------

/// `b` doubled `n` times.
pub open spec fn doubled(b: nat, n: nat) -> nat
    decreases n,
{
    if n == 0 {
        b
    } else {
        2 * doubled(b, (n - 1) as nat)
    }
}

/// The pause before retry number `attempt + 1`: 100 ms doubled per earlier
/// attempt, at most 5000 ms.
pub open spec fn backoff_ms(attempt: nat) -> nat {
    if doubled(100, attempt) < 5000 {
        doubled(100, attempt)
    } else {
        5000
    }
}

/// Doubling only grows.
proof fn lemma_doubled_grows(b: nat, m: nat, n: nat)
    requires
        m <= n,
    ensures
        doubled(b, m) <= doubled(b, n),
    decreases n,
{
    if m < n {
        lemma_doubled_grows(b, m, (n - 1) as nat);
    }
}

/// The sport codes swept in a section: the all-sports code 0 for live, the
/// codes 0 to 40 for prematch.
pub open spec fn sweep_codes(is_live: bool) -> Seq<u32> {
    if is_live {
        seq![0u32]
    } else {
        Seq::new(41, |i: int| i as u32)
    }
}

/// What the sweep does after a request was refused: with the status code
/// 403 the address is banned, and the request goes again through a proxy;
/// any other refusal is final.
pub open spec fn retries_through_proxy(status: Option<u16>) -> bool {
    status == Some(403u16)
}

impl OlimpParser {
    /// The sport codes swept in a section.
    pub fn sweep_sport_ids(is_live: bool) -> (r: Vec<u32>)
        ensures
            r@ == sweep_codes(is_live),
    {
        if is_live {
            let r = vec![0u32];
            assert(r@ =~= seq![0u32]);
            r
        } else {
            let mut r: Vec<u32> = Vec::new();
            let mut i: u32 = 0;
            while i <= 40
                invariant
                    i <= 41,
                    r@ =~= Seq::new(i as nat, |k: int| k as u32),
                decreases 41 - i,
            {
                r.push(i);
                i = i + 1;
            }
            r
        }
    }

    /// The pause before retrying after attempt number `attempt` (counted
    /// from 0) failed.
    pub fn retry_backoff_ms(attempt: u32) -> (r: u64)
        ensures
            r == backoff_ms(attempt as nat),
    {
        let mut b: u64 = 100;
        let mut i: u32 = 0;
        while i < attempt && b < 5000
            invariant
                i <= attempt,
                b == doubled(100, i as nat),
                b < 10000,
            decreases attempt - i,
        {
            b = b * 2;
            i = i + 1;
        }
        proof {
            if i < attempt {
                lemma_doubled_grows(100, i as nat, attempt as nat);
            }
        }
        if b < 5000 {
            b
        } else {
            5000
        }
    }

    /// Whether a failed attempt is retried: attempts 0 and 1 are, the third
    /// is the last.
    pub fn retries_after(attempt: u32) -> (r: bool)
        ensures
            r == (attempt < 2),
    {
        attempt < 2
    }

    /// Whether a prematch sweep has enough events to stop early.
    pub fn reached_prematch_target(is_live: bool, event_count: usize) -> (r: bool)
        ensures
            r == (!is_live && event_count >= 3500),
    {
        !is_live && event_count >= 3500
    }

    /// Whether a refused request, by the status code its message reports,
    /// goes again through a proxy.
    pub fn retries_through_proxy(error_message: &str) -> (r: bool)
        ensures
            r == retries_through_proxy(status_code_in(error_message@)),
    {
        match extract_status_code(error_message) {
            Some(code) => code == 403,
            None => false,
        }
    }
}

// ---------------------------------------------------------------------------
// Reading the competitions-with-events JSON
// ---------------------------------------------------------------------------

/// The sport an Olimp sport code names.
pub open spec fn olimp_sport(id: Seq<char>) -> Sport {
    if id == "1"@ || id == "3"@ {
        Sport::Football
    } else if id == "2"@ {
        Sport::Basketball
    } else if id == "4"@ {
        Sport::Hockey
    } else if id == "5"@ {
        Sport::Tennis
    } else if id == "6"@ {
        Sport::Volleyball
    } else if id == "7"@ {
        Sport::TableTennis
    } else if id == "8"@ {
        Sport::Baseball
    } else if id == "9"@ {
        Sport::Handball
    } else if id == "10"@ {
        Sport::Badminton
    } else if id == "11"@ {
        Sport::WaterPolo
    } else if id == "12"@ {
        Sport::Cricket
    } else if id == "13"@ {
        Sport::Darts
    } else {
        Sport::Other
    }
}

/// The kind of a price by its short selection name.
pub open spec fn olimp_odds_type(sel: Seq<char>) -> OddsType {
    if sel == "П1"@ || sel == "1"@ || sel == "home"@ {
        OddsType::Home
    } else if sel == "Х"@ || sel == "X"@ || sel == "draw"@ || sel == "ничья"@ {
        OddsType::Draw
    } else if sel == "П2"@ || sel == "2"@ || sel == "away"@ {
        OddsType::Away
    } else if sel == "ТБ"@ || sel == "TB"@ || sel == "over"@ || sel == "больше"@ {
        OddsType::Over
    } else if sel == "ТМ"@ || sel == "TM"@ || sel == "under"@ || sel == "меньше"@ {
        OddsType::Under
    } else if sel == "Ф1"@ || sel == "Ф2"@ || sel == "handicap"@ {
        OddsType::Handicap
    } else {
        OddsType::Custom
    }
}

/// The name of a competition: `name`, else `competitionName`, else the
/// `name` or the first of the `names` of its `competition`, where that is a
/// string; empty otherwise.
pub open spec fn competition_name_of(comp: JsonValue) -> Seq<char> {
    text_or_empty(
        or_else(
            jget(comp, "name"@),
            or_else(
                jget(comp, "competitionName"@),
                or_else(
                    jget_opt(jget(comp, "competition"@), "name"@),
                    jget_opt(jget_opt(jget(comp, "competition"@), "names"@), "0"@),
                ),
            ),
        ),
    )
}

/// The text of an event's `id` value as the feed reader keys it: its JSON
/// text with the surrounding quotes trimmed. Floats, arrays and objects
/// are not read as ids.
pub open spec fn id_text(v: JsonValue) -> Option<Seq<char>> {
    match v {
        JsonValue::Str(s) => Some(strip_trailing(strip_leading(json_quoted(s@), '"'), '"')),
        JsonValue::Number(JsonNumber::PosInt(k)) => Some(dec(k as nat)),
        JsonValue::Number(JsonNumber::NegInt(k)) => Some(signed_dec(k)),
        JsonValue::Bool(b) => Some(
            if b {
                "true"@
            } else {
                "false"@
            },
        ),
        JsonValue::Null => Some("null"@),
        _ => None,
    }
}

/// An event's id and its two competitors (`team1Name`, else `competitor1`;
/// `team2Name`, else `competitor2`), where it has all three.
pub open spec fn event_info(d: JsonValue) -> Option<(Seq<char>, Seq<char>, Seq<char>)> {
    match jget(d, "id"@) {
        None => None,
        Some(idv) => match id_text(idv) {
            None => None,
            Some(id) => {
                let home = text_of(or_else(jget(d, "team1Name"@), jget(d, "competitor1"@)));
                let away = text_of(or_else(jget(d, "team2Name"@), jget(d, "competitor2"@)));
                if home is None || away is None {
                    None
                } else {
                    Some((id, home->0, away->0))
                }
            },
        },
    }
}

/// The start of an event, from its RFC 3339 `startDateTime`.
pub open spec fn start_of(d: JsonValue) -> Option<i64> {
    match text_of(jget(d, "startDateTime"@)) {
        Some(t) => rfc3339_millis(t),
        None => None,
    }
}

/// An outcome that the feed priced, before its probability text is read as
/// a number.
pub struct OlimpOutcome {
    pub event_id: String,
    pub market: String,
    pub selection: String,
    pub odds_type: OddsType,
    pub line: Option<JsonNumber>,
    pub probability: String,
}

/// An outcome as plain values.
pub struct OlimpOutcomeView {
    pub event_id: Seq<char>,
    pub market: Seq<char>,
    pub selection: Seq<char>,
    pub odds_type: OddsType,
    pub line: Option<JsonNumber>,
    pub probability: Seq<char>,
}

impl View for OlimpOutcome {
    type V = OlimpOutcomeView;

    open spec fn view(&self) -> OlimpOutcomeView {
        OlimpOutcomeView {
            event_id: self.event_id@,
            market: self.market@,
            selection: self.selection@,
            odds_type: self.odds_type,
            line: self.line,
            probability: self.probability@,
        }
    }
}

/// The views of a list of outcomes.
pub open spec fn outcome_views(s: Seq<OlimpOutcome>) -> Seq<OlimpOutcomeView> {
    s.map_values(|o: OlimpOutcome| o@)
}

/// The outcome an entry of `outcomes` gives for the event `key`: one where
/// it has a string `shortName` and a string `probability`, with its market
/// (`groupName`, else `unknown`) and its line (`param`, where a number).
pub open spec fn outcome_of(key: Seq<char>, o: JsonValue) -> Seq<OlimpOutcomeView> {
    let sel = text_of(jget(o, "shortName"@));
    let prob = text_of(jget(o, "probability"@));
    if sel is Some && prob is Some {
        seq![
            OlimpOutcomeView {
                event_id: key,
                market: match text_of(jget(o, "groupName"@)) {
                    Some(m) => m,
                    None => "unknown"@,
                },
                selection: sel->0,
                odds_type: olimp_odds_type(sel->0),
                line: number_of(jget(o, "param"@)),
                probability: prob->0,
            },
        ]
    } else {
        Seq::empty()
    }
}

/// The outcomes of a list of `outcomes` entries, in order.
pub open spec fn outcomes_of(key: Seq<char>, os: Seq<JsonValue>) -> Seq<OlimpOutcomeView>
    decreases os.len(),
{
    if os.len() == 0 {
        Seq::empty()
    } else {
        outcomes_of(key, os.drop_last()) + outcome_of(key, os.last())
    }
}

/// The event an entry of `events` describes, where it has an id and two
/// competitors.
pub open spec fn event_of(sport: Sport, league: Seq<char>, live: bool, d: JsonValue) -> Seq<EventView> {
    match event_info(d) {
        None => Seq::empty(),
        Some((id, home, away)) => seq![
            EventView {
                id: "olimp-"@ + id,
                sport,
                league,
                home_team: home,
                away_team: away,
                start_time_ms: start_of(d),
                is_live: live,
                bookmaker_slug: "olimp"@,
                raw_url: None,
                extra: Seq::empty(),
            },
        ],
    }
}

/// The outcomes of an entry of `events` that describes an event.
pub open spec fn event_outcomes(d: JsonValue) -> Seq<OlimpOutcomeView> {
    match event_info(d) {
        None => Seq::empty(),
        Some((id, home, away)) => match array_of(jget(d, "outcomes"@)) {
            Some(os) => outcomes_of("olimp-"@ + id, os),
            None => Seq::empty(),
        },
    }
}

/// The events of a list of `events` entries, in order.
pub open spec fn events_of(sport: Sport, league: Seq<char>, live: bool, ds: Seq<JsonValue>) -> Seq<
    EventView,
>
    decreases ds.len(),
{
    if ds.len() == 0 {
        Seq::empty()
    } else {
        events_of(sport, league, live, ds.drop_last()) + event_of(sport, league, live, ds.last())
    }
}

/// The outcomes of a list of `events` entries, in order.
pub open spec fn events_outcomes(ds: Seq<JsonValue>) -> Seq<OlimpOutcomeView>
    decreases ds.len(),
{
    if ds.len() == 0 {
        Seq::empty()
    } else {
        events_outcomes(ds.drop_last()) + event_outcomes(ds.last())
    }
}

/// The league a competition's events are filed under: its name, else the
/// sport's name.
pub open spec fn league_of(comp: JsonValue, sport_name: Seq<char>) -> Seq<char> {
    if competition_name_of(comp).len() > 0 {
        competition_name_of(comp)
    } else {
        sport_name
    }
}

/// The `events` entries of a competition (none where it has no array).
pub open spec fn comp_entries(comp: JsonValue) -> Seq<JsonValue> {
    match array_of(jget(comp, "events"@)) {
        Some(ds) => ds,
        None => Seq::empty(),
    }
}

/// The events of a list of competitions, in order.
pub open spec fn comps_events(sport: Sport, sport_name: Seq<char>, live: bool, cs: Seq<JsonValue>) -> Seq<
    EventView,
>
    decreases cs.len(),
{
    if cs.len() == 0 {
        Seq::empty()
    } else {
        comps_events(sport, sport_name, live, cs.drop_last()) + events_of(
            sport,
            league_of(cs.last(), sport_name),
            live,
            comp_entries(cs.last()),
        )
    }
}

/// The outcomes of a list of competitions, in order.
pub open spec fn comps_outcomes(cs: Seq<JsonValue>) -> Seq<OlimpOutcomeView>
    decreases cs.len(),
{
    if cs.len() == 0 {
        Seq::empty()
    } else {
        comps_outcomes(cs.drop_last()) + events_outcomes(comp_entries(cs.last()))
    }
}

/// The `sport` object of a sport entry's payload (`null` where missing).
pub open spec fn sport_info(p: JsonValue) -> JsonValue {
    match jget(p, "sport"@) {
        Some(x) => x,
        None => JsonValue::Null,
    }
}

/// The sport code of a sport entry's payload (`0` where it has none).
pub open spec fn sport_code(p: JsonValue) -> Seq<char> {
    match text_of(jget(sport_info(p), "id"@)) {
        Some(t) => t,
        None => "0"@,
    }
}

/// The name of a sport entry's sport: `name`, else the first of `names`,
/// where that is a string.
pub open spec fn sport_name_of(p: JsonValue) -> Seq<char> {
    let info = sport_info(p);
    text_or_empty(or_else(jget(info, "name"@), jget_opt(jget(info, "names"@), "0"@)))
}

/// The competitions of a sport entry: those of its payload, where it has a
/// payload with a `competitionsWithEvents` array.
pub open spec fn sport_comps(s: JsonValue) -> Option<(JsonValue, Seq<JsonValue>)> {
    match jget(s, "payload"@) {
        None => None,
        Some(p) => match array_of(jget(p, "competitionsWithEvents"@)) {
            None => None,
            Some(cs) => Some((p, cs)),
        },
    }
}

/// The events of one sport entry.
pub open spec fn sport_events(live: bool, s: JsonValue) -> Seq<EventView> {
    match sport_comps(s) {
        None => Seq::empty(),
        Some((p, cs)) => comps_events(olimp_sport(sport_code(p)), sport_name_of(p), live, cs),
    }
}

/// The outcomes of one sport entry.
pub open spec fn sport_outcomes(s: JsonValue) -> Seq<OlimpOutcomeView> {
    match sport_comps(s) {
        None => Seq::empty(),
        Some((p, cs)) => comps_outcomes(cs),
    }
}

/// The events of a list of sport entries, in order.
pub open spec fn sports_events(live: bool, ss: Seq<JsonValue>) -> Seq<EventView>
    decreases ss.len(),
{
    if ss.len() == 0 {
        Seq::empty()
    } else {
        sports_events(live, ss.drop_last()) + sport_events(live, ss.last())
    }
}

/// The outcomes of a list of sport entries, in order.
pub open spec fn sports_outcomes(ss: Seq<JsonValue>) -> Seq<OlimpOutcomeView>
    decreases ss.len(),
{
    if ss.len() == 0 {
        Seq::empty()
    } else {
        sports_outcomes(ss.drop_last()) + sport_outcomes(ss.last())
    }
}

/// The sport entries of a document: its items where it is an array, none
/// otherwise.
pub open spec fn sport_entries(json: JsonValue) -> Seq<JsonValue> {
    match json {
        JsonValue::Array(items) => items@,
        _ => Seq::empty(),
    }
}

/// Whether the bits of an `f64` encode a number above 1.0 (a NaN does not):
/// with a clear sign bit, bits order as the values they encode, up to
/// infinity at `0x7FF0_0000_0000_0000`.
pub open spec fn above_one_bits(b: u64) -> bool {
    0x3FF0_0000_0000_0000u64 < b <= 0x7FF0_0000_0000_0000u64
}

/// The price an outcome gets once its probability text was read as an
/// `f64` with the bits `b`, read at `ts`: one where the number is above
/// 1.0.
pub open spec fn priced(o: OlimpOutcomeView, parsed: Option<u64>, ts: i64) -> Seq<OddView> {
    match parsed {
        Some(b) => if above_one_bits(b) {
            seq![
                OddView {
                    id: o.event_id + "-"@ + o.market + "-"@ + o.selection,
                    event_id: o.event_id,
                    bookmaker_slug: "olimp"@,
                    market: o.market,
                    selection: o.selection,
                    price: JsonNumber::FloatBits(b),
                    odds_type: o.odds_type,
                    line: o.line,
                    timestamp_ms: ts,
                },
            ]
        } else {
            Seq::empty()
        },
        None => Seq::empty(),
    }
}

/// The prices of a list of outcomes, each with what its probability text
/// read as, in order.
pub open spec fn priced_all(os: Seq<OlimpOutcomeView>, parsed: Seq<Option<u64>>, ts: i64) -> Seq<
    OddView,
>
    decreases os.len(),
{
    if os.len() == 0 || parsed.len() != os.len() {
        Seq::empty()
    } else {
        priced_all(os.drop_last(), parsed.drop_last(), ts) + priced(os.last(), parsed.last(), ts)
    }
}

/// The ids of a list of events.
pub open spec fn event_ids(es: Seq<EventView>) -> Seq<Seq<char>> {
    es.map_values(|e: EventView| e.id)
}

/// Every outcome of `os` is keyed by the id of some event of `es`.
pub open spec fn keyed_by(os: Seq<OlimpOutcomeView>, es: Seq<EventView>) -> bool {
    forall|i: int| 0 <= i < os.len() ==> event_ids(es).contains(#[trigger] os[i].event_id)
}

proof fn lemma_keyed_concat(
    o1: Seq<OlimpOutcomeView>,
    e1: Seq<EventView>,
    o2: Seq<OlimpOutcomeView>,
    e2: Seq<EventView>,
)
    requires
        keyed_by(o1, e1),
        keyed_by(o2, e2),
    ensures
        keyed_by(o1 + o2, e1 + e2),
{
    let os = o1 + o2;
    let es = e1 + e2;
    assert forall|i: int| 0 <= i < os.len() implies event_ids(es).contains(#[trigger] os[i].event_id) by {
        if i < o1.len() {
            assert(os[i] == o1[i]);
            assert(event_ids(e1).contains(o1[i].event_id));
            let k = choose|k: int| 0 <= k < event_ids(e1).len() && event_ids(e1)[k] == o1[i].event_id;
            assert(es[k] == e1[k]);
            assert(event_ids(es)[k] == os[i].event_id);
        } else {
            let j = i - o1.len();
            assert(os[i] == o2[j]);
            assert(event_ids(e2).contains(o2[j].event_id));
            let k = choose|k: int| 0 <= k < event_ids(e2).len() && event_ids(e2)[k] == o2[j].event_id;
            assert(es[k + e1.len()] == e2[k]);
            assert(event_ids(es)[k + e1.len()] == os[i].event_id);
        }
    }
}

proof fn lemma_outcomes_of_key(key: Seq<char>, os: Seq<JsonValue>)
    ensures
        forall|i: int| 0 <= i < outcomes_of(key, os).len() ==> (#[trigger] outcomes_of(key, os)[i]).event_id == key,
    decreases os.len(),
{
    if os.len() > 0 {
        lemma_outcomes_of_key(key, os.drop_last());
        let a = outcomes_of(key, os.drop_last());
        let b = outcome_of(key, os.last());
        assert forall|i: int| 0 <= i < outcomes_of(key, os).len() implies (#[trigger] outcomes_of(
            key,
            os,
        )[i]).event_id == key by {
            if i < a.len() {
                assert(outcomes_of(key, os)[i] == a[i]);
            } else {
                assert(outcomes_of(key, os)[i] == b[i - a.len()]);
            }
        }
    }
}

proof fn lemma_event_keyed(sport: Sport, league: Seq<char>, live: bool, d: JsonValue)
    ensures
        keyed_by(event_outcomes(d), event_of(sport, league, live, d)),
{
    match event_info(d) {
        None => {},
        Some((id, home, away)) => {
            let key = "olimp-"@ + id;
            let es = event_of(sport, league, live, d);
            match array_of(jget(d, "outcomes"@)) {
                Some(os) => {
                    lemma_outcomes_of_key(key, os);
                    assert forall|i: int| 0 <= i < event_outcomes(d).len() implies event_ids(
                        es,
                    ).contains(#[trigger] event_outcomes(d)[i].event_id) by {
                        assert(event_ids(es)[0] == key);
                    }
                },
                None => {},
            }
        },
    }
}

proof fn lemma_events_keyed(sport: Sport, league: Seq<char>, live: bool, ds: Seq<JsonValue>)
    ensures
        keyed_by(events_outcomes(ds), events_of(sport, league, live, ds)),
    decreases ds.len(),
{
    if ds.len() > 0 {
        lemma_events_keyed(sport, league, live, ds.drop_last());
        lemma_event_keyed(sport, league, live, ds.last());
        lemma_keyed_concat(
            events_outcomes(ds.drop_last()),
            events_of(sport, league, live, ds.drop_last()),
            event_outcomes(ds.last()),
            event_of(sport, league, live, ds.last()),
        );
    }
}

proof fn lemma_comps_keyed(sport: Sport, sport_name: Seq<char>, live: bool, cs: Seq<JsonValue>)
    ensures
        keyed_by(comps_outcomes(cs), comps_events(sport, sport_name, live, cs)),
    decreases cs.len(),
{
    if cs.len() > 0 {
        lemma_comps_keyed(sport, sport_name, live, cs.drop_last());
        let c = cs.last();
        lemma_events_keyed(sport, league_of(c, sport_name), live, comp_entries(c));
        lemma_keyed_concat(
            comps_outcomes(cs.drop_last()),
            comps_events(sport, sport_name, live, cs.drop_last()),
            events_outcomes(comp_entries(c)),
            events_of(sport, league_of(c, sport_name), live, comp_entries(c)),
        );
    }
}

proof fn lemma_sports_keyed(live: bool, ss: Seq<JsonValue>)
    ensures
        keyed_by(sports_outcomes(ss), sports_events(live, ss)),
    decreases ss.len(),
{
    if ss.len() > 0 {
        lemma_sports_keyed(live, ss.drop_last());
        let s = ss.last();
        match sport_comps(s) {
            None => {
                assert(sports_outcomes(ss) =~= sports_outcomes(ss.drop_last()));
                assert(sports_events(live, ss) =~= sports_events(live, ss.drop_last()));
            },
            Some((p, cs)) => {
                lemma_comps_keyed(olimp_sport(sport_code(p)), sport_name_of(p), live, cs);
                lemma_keyed_concat(
                    sports_outcomes(ss.drop_last()),
                    sports_events(live, ss.drop_last()),
                    sport_outcomes(s),
                    sport_events(live, s),
                );
            },
        }
    }
}

/// Every outcome read from a document belongs to an event read from it:
/// its event id is the id of one of the events, whichever section is read.
pub proof fn law_outcomes_belong_to_events(json: JsonValue, live: bool)
    ensures
        keyed_by(sports_outcomes(sport_entries(json)), sports_events(live, sport_entries(json))),
{
    lemma_sports_keyed(live, sport_entries(json));
}

/// Whether a price is the bits of an `f64` above 1.0.
pub open spec fn price_above_one(o: OddView) -> bool {
    match o.price {
        JsonNumber::FloatBits(b) => above_one_bits(b),
        _ => false,
    }
}

/// Every price made from outcomes is above 1.0 and carries the event id of
/// one of those outcomes.
pub proof fn law_prices_above_one(os: Seq<OlimpOutcomeView>, parsed: Seq<Option<u64>>, ts: i64)
    ensures
        forall|i: int|
            0 <= i < priced_all(os, parsed, ts).len() ==> price_above_one(
                #[trigger] priced_all(os, parsed, ts)[i],
            ),
        forall|i: int|
            0 <= i < priced_all(os, parsed, ts).len() ==> exists|k: int|
                0 <= k < os.len() && (#[trigger] priced_all(os, parsed, ts)[i]).event_id == #[trigger] os[k].event_id,
    decreases os.len(),
{
    if os.len() > 0 && parsed.len() == os.len() {
        law_prices_above_one(os.drop_last(), parsed.drop_last(), ts);
        let a = priced_all(os.drop_last(), parsed.drop_last(), ts);
        let b = priced(os.last(), parsed.last(), ts);
        let all = priced_all(os, parsed, ts);
        assert(all == a + b);
        assert forall|i: int| 0 <= i < all.len() implies price_above_one(#[trigger] all[i]) by {
            if i < a.len() {
                assert(all[i] == a[i]);
            } else {
                assert(all[i] == b[i - a.len()]);
            }
        }
        assert forall|i: int| 0 <= i < all.len() implies exists|k: int|
            0 <= k < os.len() && (#[trigger] all[i]).event_id == #[trigger] os[k].event_id by {
            if i < a.len() {
                assert(all[i] == a[i]);
                let k = choose|k: int|
                    0 <= k < os.drop_last().len() && a[i].event_id == #[trigger] os.drop_last()[k].event_id;
                assert(os[k] == os.drop_last()[k]);
            } else {
                assert(all[i] == b[i - a.len()]);
                assert(all[i].event_id == os[os.len() - 1].event_id);
            }
        }
    }
}

/// The sides of a match result read by their short names, over every
/// name: exactly `П2`, `2` and `away` are the away side, exactly `П1`, `1`
/// and `home` the home side, exactly `Х`, `X`, `draw` and `ничья` the draw,
/// so an away name is never read as the home side.
pub proof fn law_olimp_result_sides(sel: Seq<char>)
    ensures
        olimp_odds_type(sel) == OddsType::Away <==> (sel == "П2"@ || sel == "2"@ || sel == "away"@),
        olimp_odds_type(sel) == OddsType::Home <==> (sel == "П1"@ || sel == "1"@ || sel == "home"@),
        olimp_odds_type(sel) == OddsType::Draw <==> (sel == "Х"@ || sel == "X"@ || sel == "draw"@
            || sel == "ничья"@),
{
    reveal_strlit("П1");
    reveal_strlit("1");
    reveal_strlit("home");
    reveal_strlit("Х");
    reveal_strlit("X");
    reveal_strlit("draw");
    reveal_strlit("ничья");
    reveal_strlit("П2");
    reveal_strlit("2");
    reveal_strlit("away");
    assert("П1"@.len() == 2 && "П1"@[0] == 'П' && "П1"@[1] == '1');
    assert("1"@.len() == 1 && "1"@[0] == '1');
    assert("home"@.len() == 4 && "home"@[0] == 'h' && "home"@[1] == 'o');
    assert("Х"@.len() == 1 && "Х"@[0] == 'Х');
    assert("X"@.len() == 1 && "X"@[0] == 'X');
    assert("draw"@.len() == 4 && "draw"@[0] == 'd' && "draw"@[1] == 'r');
    assert("ничья"@.len() == 5 && "ничья"@[0] == 'н' && "ничья"@[1] == 'и');
    assert("П2"@.len() == 2 && "П2"@[0] == 'П' && "П2"@[1] == '2');
    assert("2"@.len() == 1 && "2"@[0] == '2');
    assert("away"@.len() == 4 && "away"@[0] == 'a' && "away"@[1] == 'w');
}

impl OlimpParser {
    /// The kind of a price by its short selection name.
    pub fn selection_to_odds_type(selection: &str) -> (r: OddsType)
        ensures
            r == olimp_odds_type(selection@),
    {
        if str_eq(selection, "П1") || str_eq(selection, "1") || str_eq(selection, "home") {
            OddsType::Home
        } else if str_eq(selection, "Х") || str_eq(selection, "X") || str_eq(selection, "draw")
            || str_eq(selection, "ничья") {
            OddsType::Draw
        } else if str_eq(selection, "П2") || str_eq(selection, "2") || str_eq(selection, "away") {
            OddsType::Away
        } else if str_eq(selection, "ТБ") || str_eq(selection, "TB") || str_eq(selection, "over")
            || str_eq(selection, "больше") {
            OddsType::Over
        } else if str_eq(selection, "ТМ") || str_eq(selection, "TM") || str_eq(selection, "under")
            || str_eq(selection, "меньше") {
            OddsType::Under
        } else if str_eq(selection, "Ф1") || str_eq(selection, "Ф2") || str_eq(
            selection,
            "handicap",
        ) {
            OddsType::Handicap
        } else {
            OddsType::Custom
        }
    }

    /// The sport an Olimp sport code names.
    pub fn sport_of_code(id: &str) -> (r: Sport)
        ensures
            r == olimp_sport(id@),
    {
        if str_eq(id, "1") || str_eq(id, "3") {
            Sport::Football
        } else if str_eq(id, "2") {
            Sport::Basketball
        } else if str_eq(id, "4") {
            Sport::Hockey
        } else if str_eq(id, "5") {
            Sport::Tennis
        } else if str_eq(id, "6") {
            Sport::Volleyball
        } else if str_eq(id, "7") {
            Sport::TableTennis
        } else if str_eq(id, "8") {
            Sport::Baseball
        } else if str_eq(id, "9") {
            Sport::Handball
        } else if str_eq(id, "10") {
            Sport::Badminton
        } else if str_eq(id, "11") {
            Sport::WaterPolo
        } else if str_eq(id, "12") {
            Sport::Cricket
        } else if str_eq(id, "13") {
            Sport::Darts
        } else {
            Sport::Other
        }
    }

    /// The name of a competition (empty where it has none).
    pub fn competition_name(comp: &JsonValue) -> (r: String)
        ensures
            r@ == competition_name_of(*comp),
    {
        let c = get(comp, "competition");
        let found = first_of(
            get(comp, "name"),
            first_of(
                get(comp, "competitionName"),
                first_of(get_opt(c, "name"), get_opt(get_opt(c, "names"), "0")),
            ),
        );
        match found {
            Some(JsonValue::Str(s)) => s.clone(),
            _ => String::new(),
        }
    }

    /// The text an event's `id` value is keyed by: its JSON text with the
    /// surrounding quotes trimmed; none for floats, arrays and objects.
    pub fn event_id_text(idv: &JsonValue) -> (r: Option<String>)
        ensures
            match r {
                Some(t) => id_text(*idv) == Some(t@),
                None => id_text(*idv) is None,
            },
    {
        let id: String = match idv {
            JsonValue::Str(s) => {
                let quoted = json_string_text(s.as_str());
                let qv = chars_of(quoted.as_str());
                let lead = strip_leading_chars(qv.as_slice(), '"');
                let lead_s = string_of(lead.as_slice());
                strip_trailing_char(lead_s.as_str(), '"')
            },
            JsonValue::Number(JsonNumber::PosInt(k)) => {
                let mut t = String::new();
                push_decimal(&mut t, *k);
                t
            },
            JsonValue::Number(JsonNumber::NegInt(k)) => {
                let mut t = String::new();
                push_signed_decimal(&mut t, *k);
                t
            },
            JsonValue::Bool(b) => {
                if *b {
                    owned("true")
                } else {
                    owned("false")
                }
            },
            JsonValue::Null => owned("null"),
            _ => return None,
        };
        Some(id)
    }

    /// An event's id text and its two competitors, where it has all three.
    pub fn extract_event_info(data: &JsonValue) -> (r: Option<(String, String, String)>)
        ensures
            match r {
                Some((id, home, away)) => event_info(*data) == Some((id@, home@, away@)),
                None => event_info(*data) is None,
            },
    {
        let idv = match get(data, "id") {
            Some(v) => v,
            None => return None,
        };
        let id: String = match OlimpParser::event_id_text(idv) {
            Some(t) => t,
            None => return None,
        };
        assert(id_text(*idv) == Some(id@));
        let home = match first_of(get(data, "team1Name"), get(data, "competitor1")) {
            Some(JsonValue::Str(s)) => s.clone(),
            _ => return None,
        };
        let away = match first_of(get(data, "team2Name"), get(data, "competitor2")) {
            Some(JsonValue::Str(s)) => s.clone(),
            _ => return None,
        };
        Some((id, home, away))
    }

    /// The start of an event, from its RFC 3339 `startDateTime`.
    pub fn parse_start_time(data: &JsonValue) -> (r: Option<i64>)
        ensures
            r == start_of(*data),
    {
        match get(data, "startDateTime") {
            Some(JsonValue::Str(s)) => parse_rfc3339_millis(s.as_str()),
            _ => None,
        }
    }
}

/// The outcome an entry of `outcomes` gives for the event `key`, if any.
fn outcome_entry(key: &str, o: &JsonValue) -> (r: Option<OlimpOutcome>)
    ensures
        match r {
            Some(x) => outcome_of(key@, *o) == seq![x@],
            None => outcome_of(key@, *o) == Seq::<OlimpOutcomeView>::empty(),
        },
{
    let sel = match opt_text_field(o, "shortName") {
        Some(s) => s,
        None => return None,
    };
    let prob = match opt_text_field(o, "probability") {
        Some(s) => s,
        None => return None,
    };
    let market = match opt_text_field(o, "groupName") {
        Some(m) => m,
        None => owned("unknown"),
    };
    let odds_type = OlimpParser::selection_to_odds_type(sel.as_str());
    let line = number_field(o, "param");
    let x = OlimpOutcome {
        event_id: owned(key),
        market,
        selection: sel,
        odds_type,
        line,
        probability: prob,
    };
    assert(outcome_of(key@, *o) =~= seq![x@]);
    Some(x)
}

/// Appends the outcomes of `os` for the event `key` to `out`.
fn push_outcomes(key: &str, os: &Vec<JsonValue>, out: &mut Vec<OlimpOutcome>)
    ensures
        outcome_views(final(out)@) == outcome_views(old(out)@) + outcomes_of(key@, os@),
{
    let mut i: usize = 0;
    assert(outcome_views(out@) =~= outcome_views(old(out)@) + outcomes_of(key@, os@.take(0)));
    while i < os.len()
        invariant
            i <= os@.len(),
            outcome_views(out@) == outcome_views(old(out)@) + outcomes_of(key@, os@.take(i as int)),
        decreases os@.len() - i,
    {
        let ghost before = out@;
        assert(os@.take(i + 1).drop_last() =~= os@.take(i as int));
        assert(os@.take(i + 1).last() == os@[i as int]);
        match outcome_entry(key, &os[i]) {
            Some(x) => {
                out.push(x);
                assert(outcome_views(out@) =~= outcome_views(before).push(x@));
            },
            None => {},
        }
        assert(outcome_views(out@) =~= outcome_views(old(out)@) + outcomes_of(
            key@,
            os@.take(i + 1),
        ));
        i = i + 1;
    }
    assert(os@.take(os@.len() as int) =~= os@);
}

/// Appends the events of `ds`, filed under `sport` and `league`, to
/// `events`, and their outcomes to `outs`.
fn push_events(
    sport: Sport,
    league: &str,
    live: bool,
    ds: &Vec<JsonValue>,
    events: &mut Vec<Event>,
    outs: &mut Vec<OlimpOutcome>,
)
    ensures
        event_views(final(events)@) == event_views(old(events)@) + events_of(sport, league@, live, ds@),
        outcome_views(final(outs)@) == outcome_views(old(outs)@) + events_outcomes(ds@),
{
    let mut i: usize = 0;
    assert(event_views(events@) =~= event_views(old(events)@) + events_of(sport, league@, live, ds@.take(0)));
    assert(outcome_views(outs@) =~= outcome_views(old(outs)@) + events_outcomes(ds@.take(0)));
    while i < ds.len()
        invariant
            i <= ds@.len(),
            event_views(events@) == event_views(old(events)@) + events_of(
                sport,
                league@,
                live,
                ds@.take(i as int),
            ),
            outcome_views(outs@) == outcome_views(old(outs)@) + events_outcomes(ds@.take(i as int)),
        decreases ds@.len() - i,
    {
        let ghost ev_before = events@;
        let ghost out_before = outs@;
        assert(ds@.take(i + 1).drop_last() =~= ds@.take(i as int));
        assert(ds@.take(i + 1).last() == ds@[i as int]);
        let d = &ds[i];
        match OlimpParser::extract_event_info(d) {
            Some((id, home, away)) => {
                let mut key = owned("olimp-");
                push_str(&mut key, id.as_str());
                let start = OlimpParser::parse_start_time(d);
                let e = Event {
                    id: key.clone(),
                    sport,
                    league: owned(league),
                    home_team: home,
                    away_team: away,
                    start_time_ms: start,
                    is_live: live,
                    bookmaker_slug: owned("olimp"),
                    raw_url: None,
                    extra: Vec::new(),
                };
                assert(e@.extra =~= Seq::<crate::json::JsonMember>::empty());
                assert(event_of(sport, league@, live, *d) =~= seq![e@]);
                events.push(e);
                assert(event_views(events@) =~= event_views(ev_before).push(e@));
                match array_field(d, "outcomes") {
                    Some(os) => {
                        push_outcomes(key.as_str(), os, outs);
                    },
                    None => {},
                }
                assert(outcome_views(outs@) =~= outcome_views(out_before) + event_outcomes(*d));
            },
            None => {},
        }
        assert(event_views(events@) =~= event_views(old(events)@) + events_of(
            sport,
            league@,
            live,
            ds@.take(i + 1),
        ));
        assert(outcome_views(outs@) =~= outcome_views(old(outs)@) + events_outcomes(
            ds@.take(i + 1),
        ));
        i = i + 1;
    }
    assert(ds@.take(ds@.len() as int) =~= ds@);
}

/// Appends the events of the competitions `cs` to `events`, and their
/// outcomes to `outs`.
fn push_comps(
    sport: Sport,
    sport_name: &str,
    live: bool,
    cs: &Vec<JsonValue>,
    events: &mut Vec<Event>,
    outs: &mut Vec<OlimpOutcome>,
)
    ensures
        event_views(final(events)@) == event_views(old(events)@) + comps_events(
            sport,
            sport_name@,
            live,
            cs@,
        ),
        outcome_views(final(outs)@) == outcome_views(old(outs)@) + comps_outcomes(cs@),
{
    let mut i: usize = 0;
    assert(event_views(events@) =~= event_views(old(events)@) + comps_events(sport, sport_name@, live, cs@.take(0)));
    assert(outcome_views(outs@) =~= outcome_views(old(outs)@) + comps_outcomes(cs@.take(0)));
    while i < cs.len()
        invariant
            i <= cs@.len(),
            event_views(events@) == event_views(old(events)@) + comps_events(
                sport,
                sport_name@,
                live,
                cs@.take(i as int),
            ),
            outcome_views(outs@) == outcome_views(old(outs)@) + comps_outcomes(cs@.take(i as int)),
        decreases cs@.len() - i,
    {
        let ghost ev_before = events@;
        let ghost out_before = outs@;
        assert(cs@.take(i + 1).drop_last() =~= cs@.take(i as int));
        assert(cs@.take(i + 1).last() == cs@[i as int]);
        let c = &cs[i];
        let name = OlimpParser::competition_name(c);
        let league = if name.as_str().unicode_len() > 0 {
            name
        } else {
            owned(sport_name)
        };
        assert(league@ == league_of(*c, sport_name@));
        match array_field(c, "events") {
            Some(ds) => {
                push_events(sport, league.as_str(), live, ds, events, outs);
            },
            None => {
                assert(comp_entries(*c) =~= Seq::<JsonValue>::empty());
                assert(events@ =~= ev_before);
                assert(outs@ =~= out_before);
            },
        }
        assert(event_views(events@) =~= event_views(old(events)@) + comps_events(
            sport,
            sport_name@,
            live,
            cs@.take(i + 1),
        ));
        assert(outcome_views(outs@) =~= outcome_views(old(outs)@) + comps_outcomes(
            cs@.take(i + 1),
        ));
        i = i + 1;
    }
    assert(cs@.take(cs@.len() as int) =~= cs@);
}

impl OlimpParser {
    /// The events and the priced outcomes of a competitions-with-events
    /// document: sport by sport, competition by competition, event by event,
    /// in the document's order. The outcomes still carry their probability
    /// as text; `price_outcomes` turns them into prices.
    pub fn parse_sports_outcomes(json: &JsonValue, is_live: bool) -> (r: (Vec<Event>, Vec<OlimpOutcome>))
        ensures
            event_views(r.0@) == sports_events(is_live, sport_entries(*json)),
            outcome_views(r.1@) == sports_outcomes(sport_entries(*json)),
    {
        let mut events: Vec<Event> = Vec::new();
        let mut outs: Vec<OlimpOutcome> = Vec::new();
        let items = match json {
            JsonValue::Array(items) => items,
            _ => {
                assert(event_views(events@) =~= Seq::<EventView>::empty());
                assert(outcome_views(outs@) =~= Seq::<OlimpOutcomeView>::empty());
                return (events, outs);
            },
        };
        let ghost ss = sport_entries(*json);
        assert(ss == items@);
        let mut i: usize = 0;
        assert(event_views(events@) =~= sports_events(is_live, ss.take(0)));
        assert(outcome_views(outs@) =~= sports_outcomes(ss.take(0)));
        while i < items.len()
            invariant
                i <= items@.len(),
                ss == items@,
                event_views(events@) == sports_events(is_live, ss.take(i as int)),
                outcome_views(outs@) == sports_outcomes(ss.take(i as int)),
            decreases items@.len() - i,
        {
            let ghost ev_before = events@;
            let ghost out_before = outs@;
            assert(ss.take(i + 1).drop_last() =~= ss.take(i as int));
            assert(ss.take(i + 1).last() == ss[i as int]);
            let s = &items[i];
            match get(s, "payload") {
                Some(p) => {
                    match array_field(p, "competitionsWithEvents") {
                        Some(cs) => {
                            let info = get(p, "sport");
                            let code: String = match get_opt(info, "id") {
                                Some(JsonValue::Str(t)) => t.clone(),
                                _ => owned("0"),
                            };
                            assert(code@ == sport_code(*p));
                            let sport = OlimpParser::sport_of_code(code.as_str());
                            let sport_name: String = match first_of(
                                get_opt(info, "name"),
                                get_opt(get_opt(info, "names"), "0"),
                            ) {
                                Some(JsonValue::Str(t)) => t.clone(),
                                _ => String::new(),
                            };
                            assert(sport_name@ == sport_name_of(*p));
                            push_comps(sport, sport_name.as_str(), is_live, cs, &mut events, &mut outs);
                        },
                        None => {},
                    }
                },
                None => {},
            }
            assert(event_views(events@) =~= event_views(ev_before) + sport_events(is_live, ss[i as int]));
            assert(outcome_views(outs@) =~= outcome_views(out_before) + sport_outcomes(ss[i as int]));
            i = i + 1;
        }
        assert(ss.take(items@.len() as int) =~= ss);
        (events, outs)
    }

    /// The prices of `outcomes`, read at `ts`: `parsed[i]` is what the
    /// probability text of `outcomes[i]` reads as (the bits of an `f64`, or
    /// `None` where it is no number); an outcome is priced where that number
    /// is above 1.0.
    pub fn price_outcomes(outcomes: &Vec<OlimpOutcome>, parsed: &Vec<Option<u64>>, ts: i64) -> (r: Vec<
        Odd,
    >)
        requires
            parsed@.len() == outcomes@.len(),
        ensures
            odd_views(r@) == priced_all(outcome_views(outcomes@), parsed@, ts),
    {
        let mut out: Vec<Odd> = Vec::new();
        let ghost os = outcome_views(outcomes@);
        let mut i: usize = 0;
        assert(odd_views(out@) =~= priced_all(os.take(0), parsed@.take(0), ts));
        while i < outcomes.len()
            invariant
                i <= outcomes@.len(),
                parsed@.len() == outcomes@.len(),
                os == outcome_views(outcomes@),
                odd_views(out@) == priced_all(os.take(i as int), parsed@.take(i as int), ts),
            decreases outcomes@.len() - i,
        {
            let ghost before = out@;
            assert(os.take(i + 1).drop_last() =~= os.take(i as int));
            assert(parsed@.take(i + 1).drop_last() =~= parsed@.take(i as int));
            assert(os.take(i + 1).last() == outcomes@[i as int]@);
            assert(parsed@.take(i + 1).last() == parsed@[i as int]);
            let o = &outcomes[i];
            match parsed[i] {
                Some(b) => {
                    if 0x3FF0_0000_0000_0000u64 < b && b <= 0x7FF0_0000_0000_0000u64 {
                        let mut id = o.event_id.clone();
                        push_str(&mut id, "-");
                        push_str(&mut id, o.market.as_str());
                        push_str(&mut id, "-");
                        push_str(&mut id, o.selection.as_str());
                        let odd = Odd {
                            id,
                            event_id: o.event_id.clone(),
                            bookmaker_slug: owned("olimp"),
                            market: o.market.clone(),
                            selection: o.selection.clone(),
                            price: JsonNumber::FloatBits(b),
                            odds_type: o.odds_type,
                            line: o.line,
                            timestamp_ms: ts,
                        };
                        proof {
                            reveal_strlit("-");
                        }
                        assert(priced(o@, Some(b), ts) =~= seq![odd@]);
                        out.push(odd);
                        assert(odd_views(out@) =~= odd_views(before).push(odd@));
                    }
                },
                None => {},
            }
            assert(odd_views(out@) =~= priced_all(os.take(i + 1), parsed@.take(i + 1), ts));
            i = i + 1;
        }
        assert(os.take(outcomes@.len() as int) =~= os);
        assert(parsed@.take(outcomes@.len() as int) =~= parsed@);
        out
    }
}

/// What the `competitions_with_events_runtime_path_enabled` check of the Olimp readiness snapshot says.
pub const OLIMP_COMPETITIONS_WITH_EVENTS_RUNTIME_PATH_ENABLED: &'static str = "Olimp is re-enabled in ParserFactory through the direct /api/v4/0/live and /api/v4/0/line/top competitions-with-events JSON path instead of the old disabled/runtime-unknown state.";

/// What the `runtime_event_volume_observed` check of the Olimp readiness snapshot says.
pub const OLIMP_RUNTIME_EVENT_VOLUME_OBSERVED: &'static str = "A bounded 2026-04-18 runtime probe against the public Olimp competitions-with-events endpoints observed 445 live parseable events and 1110 prematch parseable events (1243 prematch nested events before parser filtering), confirming the feed is non-empty on both sections after re-enable.";

/// What the `proxy_rotation_enabled` check of the Olimp readiness snapshot says.
pub const OLIMP_PROXY_ROTATION_ENABLED: &'static str = "Olimp parser now includes automatic proxy rotation and circuit breaker to bypass HTTP 403 IP bans. Exponential backoff retry strategy implemented.";

/// What the `production_volume_still_unlocked` check of the Olimp readiness snapshot says.
pub const OLIMP_PRODUCTION_VOLUME_STILL_UNLOCKED: &'static str = "The new runtime truth proves the public live/prematch path is real, but production promotion stays off until strict Rust-side diagnostics establish repeatable event and odds volume under normal scanner execution.";

/// The Olimp readiness snapshot, check by check.
pub open spec fn olimp_readiness() -> ReadinessView {
    ReadinessView {
        stage: ParserReadinessStage::RolloutReady,
        production_enabled: false,
        self_check_available: true,
        checks: seq![
            check_of("competitions_with_events_runtime_path_enabled", DiagnosticSeverity::Pass, OLIMP_COMPETITIONS_WITH_EVENTS_RUNTIME_PATH_ENABLED),
            check_of("runtime_event_volume_observed", DiagnosticSeverity::Pass, OLIMP_RUNTIME_EVENT_VOLUME_OBSERVED),
            check_of("proxy_rotation_enabled", DiagnosticSeverity::Pass, OLIMP_PROXY_ROTATION_ENABLED),
            check_of("production_volume_still_unlocked", DiagnosticSeverity::Warn, OLIMP_PRODUCTION_VOLUME_STILL_UNLOCKED),
        ],
    }
}

impl OlimpParser {
    /// The parser's readiness snapshot.
    pub fn readiness_snapshot() -> (r: ParserReadiness)
        ensures
            r@ == olimp_readiness(),
    {
        let checks = vec![
            check("competitions_with_events_runtime_path_enabled", DiagnosticSeverity::Pass, OLIMP_COMPETITIONS_WITH_EVENTS_RUNTIME_PATH_ENABLED),
            check("runtime_event_volume_observed", DiagnosticSeverity::Pass, OLIMP_RUNTIME_EVENT_VOLUME_OBSERVED),
            check("proxy_rotation_enabled", DiagnosticSeverity::Pass, OLIMP_PROXY_ROTATION_ENABLED),
            check("production_volume_still_unlocked", DiagnosticSeverity::Warn, OLIMP_PRODUCTION_VOLUME_STILL_UNLOCKED),
        ];
        assert(check_views(checks@) =~= olimp_readiness().checks);
        ParserReadiness {
            stage: ParserReadinessStage::RolloutReady,
            production_enabled: false,
            self_check_available: true,
            checks,
        }
    }
}

impl BookmakerParser for OlimpParser {
    open spec fn name_spec(&self) -> Seq<char> {
        "Olimp"@
    }

    open spec fn slug_spec(&self) -> Seq<char> {
        "olimp"@
    }

    open spec fn enabled_spec(&self) -> bool {
        true
    }

    open spec fn readiness_spec(&self) -> Option<ReadinessView> {
        Some(olimp_readiness())
    }

    fn name(&self) -> (r: &str) {
        "Olimp"
    }

    fn slug(&self) -> (r: &str) {
        "olimp"
    }

    fn is_enabled(&self) -> (r: bool) {
        true
    }

    fn readiness(&self) -> (r: Option<ParserReadiness>) {
        Some(OlimpParser::readiness_snapshot())
    }
}

impl OlimpParser {
    /// The site's root address.
    pub fn base_url(&self) -> (r: &str)
        ensures
            r@ == "https://www.olimp.bet"@,
    {
        "https://www.olimp.bet"
    }

    /// The browser identity the parser presents.
    pub fn user_agent(&self) -> (r: &str)
        ensures
            r@ == "Mozilla/5.0 (Windows NT 10.0; Win64; x64) AppleWebKit/537.36 (KHTML, like Gecko) Chrome/120.0.0.0 Safari/537.36"@,
    {
        "Mozilla/5.0 (Windows NT 10.0; Win64; x64) AppleWebKit/537.36 (KHTML, like Gecko) Chrome/120.0.0.0 Safari/537.36"
    }
}

} // verus!
