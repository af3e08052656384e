//! Tennisi prematch start times: a `HH:MM` cell under a date heading
//! (`сегодня`, `завтра` or a numeric day and month), read in Moscow time
//! (UTC+3) and counted in milliseconds since the Unix epoch.

use crate::pattern::{regex_capture_triples, regex_group_triples};
use crate::text::{
    chars_of, dec_value, has_infix, is_digit, parse_digits_up_to, str_contains, to_lowercase, trim,
    trim_str, unicode_lower,
};
use vstd::prelude::*;

verus! {

/// The last year chrono's dates reach.
pub const MAX_YEAR: u64 = 262142;

/// Milliseconds in a day.
pub const DAY_MS: u64 = 86_400_000;

/// Moscow's offset from UTC, in milliseconds.
pub const MOSCOW_OFFSET_MS: u64 = 10_800_000;

/// The pattern of an explicit day, month and optional year.
pub const EXPLICIT_DATE_PATTERN: &'static str = r"(\d{1,2})[./](\d{1,2})(?:[./](\d{2,4}))?";

/// The day (counted from the Unix epoch) it is in Moscow at `now_ms`.
pub open spec fn moscow_day(now_ms: int) -> int {
    (now_ms + MOSCOW_OFFSET_MS) / (DAY_MS as int)
}

/// The year of the day `days` (counted from the Unix epoch, not before it)
/// in the proleptic Gregorian calendar.
pub open spec fn civil_year(days: int) -> int {
    let z = days + 719468;
    let era = z / 146097;
    let doe = z - era * 146097;
    let yoe = (doe - doe / 1460 + doe / 36524 - doe / 146096) / 365;
    let doy = doe - (365 * yoe + yoe / 4 - yoe / 100);
    let mp = (5 * doy + 2) / 153;
    yoe + era * 400 + if mp >= 10 {
        1int
    } else {
        0int
    }
}

/// The day, counted from the Unix epoch, of the date `y-m-d` (`y >= 1`).
pub open spec fn days_from_civil(y: int, m: int, d: int) -> int {
    let yy = if m <= 2 {
        y - 1
    } else {
        y
    };
    let era = yy / 400;
    let yoe = yy - era * 400;
    let mp = if m > 2 {
        m - 3
    } else {
        m + 9
    };
    let doy = (153 * mp + 2) / 5 + d - 1;
    let doe = yoe * 365 + yoe / 4 - yoe / 100 + doy;
    era * 146097 + doe - 719468
}

/// Whether `y` is a leap year.
pub open spec fn is_leap(y: int) -> bool {
    y % 4 == 0 && (y % 100 != 0 || y % 400 == 0)
}

/// The number of days of month `m` of year `y`.
pub open spec fn month_len(y: int, m: int) -> int {
    if m == 2 {
        if is_leap(y) {
            29
        } else {
            28
        }
    } else if m == 4 || m == 6 || m == 9 || m == 11 {
        30
    } else {
        31
    }
}

/// Whether `y-m-d` is a date chrono holds.
pub open spec fn valid_date(y: int, m: int, d: int) -> bool {
    1 <= y <= MAX_YEAR && 1 <= m <= 12 && 1 <= d <= month_len(y, m)
}

/// A text of ASCII digits read as a number.
pub open spec fn digits_text(s: Seq<char>) -> Option<nat> {
    if s.len() > 0 && (forall|k: int| 0 <= k < s.len() ==> is_digit(#[trigger] s[k])) && dec_value(s)
        <= u32::MAX {
        Some(dec_value(s))
    } else {
        None
    }
}

/// `str::parse::<u32>`: an optional `+`, then ASCII digits, the value
/// fitting in a `u32`.
pub open spec fn u32_text(s: Seq<char>) -> Option<nat> {
    if s.len() > 0 && s[0] == '+' {
        digits_text(s.drop_first())
    } else {
        digits_text(s)
    }
}

/// How many colons `s` holds.
pub open spec fn colon_count(s: Seq<char>) -> nat
    decreases s.len(),
{
    if s.len() == 0 {
        0
    } else {
        colon_count(s.drop_last()) + if s.last() == ':' {
            1nat
        } else {
            0nat
        }
    }
}

/// Where the first colon of `s` stands; -1 where there is none.
pub open spec fn first_colon(s: Seq<char>) -> int
    decreases s.len(),
{
    if s.len() == 0 {
        -1
    } else if first_colon(s.drop_last()) >= 0 {
        first_colon(s.drop_last())
    } else if s.last() == ':' {
        s.len() - 1
    } else {
        -1
    }
}

/// The hour and minute of a `HH:MM` text (trimmed; exactly one colon; each
/// side a `u32`; the hour below 24 and the minute below 60).
pub open spec fn clock_time(t: Seq<char>) -> Option<(nat, nat)> {
    let s = trim(t);
    let i = first_colon(s);
    if colon_count(s) != 1 {
        None
    } else {
        match (u32_text(s.take(i)), u32_text(s.skip(i + 1))) {
            (Some(h), Some(m)) => if h < 24 && m < 60 {
                Some((h, m))
            } else {
                None
            },
            _ => None,
        }
    }
}

/// The day an explicit date heading names: the first match of the
/// day-month(-year) pattern in the lowercased heading; a two-digit year is
/// in this century, no year means `default_year`; `None` where nothing
/// matches or the date does not exist.
pub open spec fn explicit_day(lower: Seq<char>, default_year: int) -> Option<int> {
    match regex_group_triples(EXPLICIT_DATE_PATTERN@, lower) {
        Some(v) => if v.len() == 0 {
            None
        } else {
            match (v[0].0, v[0].1) {
                (Some(dt), Some(mt)) => match (digits_text(dt), digits_text(mt)) {
                    (Some(d), Some(m)) => {
                        let y = match v[0].2 {
                            Some(yt) => match digits_text(yt) {
                                Some(y) => if y < 100 {
                                    2000 + y as int
                                } else {
                                    y as int
                                },
                                None => default_year,
                            },
                            None => default_year,
                        };
                        if valid_date(y, m as int, d as int) {
                            Some(days_from_civil(y, m as int, d as int))
                        } else {
                            None
                        }
                    },
                    _ => None,
                },
                _ => None,
            }
        },
        None => None,
    }
}

/// The day a date heading names, `today` being Moscow's day now: today
/// without a heading or under `сегодня`, the day after under `завтра`,
/// else the explicit date.
pub open spec fn heading_day(marker: Option<Seq<char>>, today: int) -> Option<int> {
    match marker {
        None => Some(today),
        Some(mk) => {
            let lower = unicode_lower(mk);
            if has_infix(lower, "сегодня"@) {
                Some(today)
            } else if has_infix(lower, "завтра"@) {
                Some(today + 1)
            } else {
                explicit_day(lower, civil_year(today))
            }
        },
    }
}

/// The start, in milliseconds since the Unix epoch, of an event listed at
/// `time_text` under the heading `marker`, read at `now_ms`.
pub open spec fn prematch_start(marker: Option<Seq<char>>, time_text: Seq<char>, now_ms: int) -> Option<int> {
    match clock_time(time_text) {
        None => None,
        Some((h, m)) => match heading_day(marker, moscow_day(now_ms)) {
            None => None,
            Some(day) => Some(
                (day * 86400 + h * 3600 + m * 60) * 1000 - MOSCOW_OFFSET_MS,
            ),
        },
    }
}

/// The text of an optional heading.
pub open spec fn marker_view(marker: Option<&str>) -> Option<Seq<char>> {
    match marker {
        Some(m) => Some(m@),
        None => None,
    }
}

/// The last day chrono's dates reach, counted from the Unix epoch.
pub open spec fn last_day() -> int {
    days_from_civil(MAX_YEAR as int, 12, 31)
}

/// Reads `s` as ASCII digits.
fn parse_digits_text(s: &[char]) -> (r: Option<u32>)
    ensures
        r matches Some(v) ==> digits_text(s@) == Some(v as nat),
        r is None ==> digits_text(s@) is None,
{
    if s.len() == 0 {
        return None;
    }
    let mut i: usize = 0;
    while i < s.len()
        invariant
            i <= s@.len(),
            forall|k: int| 0 <= k < i ==> is_digit(#[trigger] s@[k]),
        decreases s@.len() - i,
    {
        if !(s[i] >= '0' && s[i] <= '9') {
            return None;
        }
        i = i + 1;
    }
    match parse_digits_up_to(s, 0xFFFF_FFFF) {
        Some(v) => Some(v as u32),
        None => None,
    }
}

/// Reads `s` as `str::parse::<u32>`.
fn parse_u32_text(s: &[char]) -> (r: Option<u32>)
    ensures
        r matches Some(v) ==> u32_text(s@) == Some(v as nat),
        r is None ==> u32_text(s@) is None,
{
    if s.len() > 0 && s[0] == '+' {
        let body = crate::text::slice_chars(s, 1, s.len());
        assert(body@ =~= s@.drop_first());
        parse_digits_text(body.as_slice())
    } else {
        parse_digits_text(s)
    }
}

/// The hour and minute of a `HH:MM` text.
pub fn parse_clock_time(t: &str) -> (r: Option<(u32, u32)>)
    ensures
        match r {
            Some((h, m)) => clock_time(t@) == Some((h as nat, m as nat)),
            None => clock_time(t@) is None,
        },
{
    let s = trim_str(t);
    let ghost sv = s@;
    let mut colon: usize = 0;
    let mut found = false;
    let mut count: usize = 0;
    let mut i: usize = 0;
    while i < s.len()
        invariant
            i <= sv.len(),
            s@ == sv,
            count == colon_count(sv.take(i as int)),
            count <= i,
            found == (first_colon(sv.take(i as int)) >= 0),
            found ==> colon == first_colon(sv.take(i as int)) && colon < i,
            first_colon(sv.take(i as int)) < i,
        decreases sv.len() - i,
    {
        assert(sv.take(i + 1).drop_last() =~= sv.take(i as int));
        assert(sv.take(i + 1).last() == sv[i as int]);
        if s[i] == ':' {
            if !found {
                colon = i;
                found = true;
            }
            count = count + 1;
        }
        i = i + 1;
    }
    assert(sv.take(sv.len() as int) =~= sv);
    if count != 1 || !found {
        proof {
            if count == 1 {
                lemma_count_has_first(sv);
            }
        }
        return None;
    }
    let before = crate::text::slice_chars(s.as_slice(), 0, colon);
    let after = crate::text::slice_chars(s.as_slice(), colon + 1, s.len());
    assert(before@ =~= sv.take(colon as int));
    assert(after@ =~= sv.skip(colon + 1));
    match (parse_u32_text(before.as_slice()), parse_u32_text(after.as_slice())) {
        (Some(h), Some(m)) => if h < 24 && m < 60 {
            Some((h, m))
        } else {
            None
        },
        _ => None,
    }
}

/// A text with a colon has a first one.
proof fn lemma_count_has_first(s: Seq<char>)
    requires
        colon_count(s) > 0,
    ensures
        first_colon(s) >= 0,
    decreases s.len(),
{
    if s.len() > 0 && colon_count(s.drop_last()) > 0 {
        lemma_count_has_first(s.drop_last());
    }
}

/// The year of the day `days` counted from the Unix epoch.
fn year_of_day(days: u64) -> (y: u64)
    requires
        days <= 1_000_000_000,
    ensures
        y == civil_year(days as int),
{
    let z: u64 = days + 719468;
    let era: u64 = z / 146097;
    let doe: u64 = z - era * 146097;
    assert(doe / 1460 <= doe && doe / 36524 <= doe / 1460 && doe / 146096 <= doe / 36524);
    let yoe: u64 = (doe - doe / 1460 + doe / 36524 - doe / 146096) / 365;
    assert(yoe <= doe / 365);
    assert(yoe / 100 <= yoe / 4);
    assert(365 * yoe + yoe / 4 - yoe / 100 <= doe) by (nonlinear_arith)
        requires
            yoe == (doe - doe / 1460 + doe / 36524 - doe / 146096) / 365,
            doe < 146097,
            doe / 1460 <= doe,
            doe / 36524 <= doe / 1460,
            doe / 146096 <= doe / 36524,
    ;
    let doy: u64 = doe - (365 * yoe + yoe / 4 - yoe / 100);
    let mp: u64 = (5 * doy + 2) / 153;
    yoe + era * 400 + if mp >= 10 {
        1
    } else {
        0
    }
}

/// The day, counted from the Unix epoch, of `y-m-d`.
fn day_of_date(y: u64, m: u64, d: u64) -> (r: i64)
    requires
        100 <= y <= MAX_YEAR,
        1 <= m <= 12,
        1 <= d <= 31,
    ensures
        r == days_from_civil(y as int, m as int, d as int),
{
    let yy: u64 = if m <= 2 {
        y - 1
    } else {
        y
    };
    let era: u64 = yy / 400;
    let yoe: u64 = yy - era * 400;
    let mp: u64 = if m > 2 {
        m - 3
    } else {
        m + 9
    };
    let doy: u64 = (153 * mp + 2) / 5 + d - 1;
    let doe: u64 = yoe * 365 + yoe / 4 - yoe / 100 + doy;
    (era * 146097 + doe) as i64 - 719468
}

/// Whether `y-m-d` is a date chrono holds.
fn is_valid_date(y: u64, m: u64, d: u64) -> (r: bool)
    ensures
        r == valid_date(y as int, m as int, d as int),
{
    if y < 1 || y > MAX_YEAR || m < 1 || m > 12 || d < 1 {
        return false;
    }
    let leap = y % 4 == 0 && (y % 100 != 0 || y % 400 == 0);
    let len: u64 = if m == 2 {
        if leap {
            29
        } else {
            28
        }
    } else if m == 4 || m == 6 || m == 9 || m == 11 {
        30
    } else {
        31
    };
    d <= len
}

/// The day an explicit date heading (already lowercased) names.
fn explicit_heading_day(lower: &str, default_year: u64) -> (r: Option<i64>)
    requires
        1970 <= default_year <= MAX_YEAR,
    ensures
        match r {
            Some(v) => explicit_day(lower@, default_year as int) == Some(v as int),
            None => explicit_day(lower@, default_year as int) is None,
        },
{
    let triples = match regex_capture_triples(EXPLICIT_DATE_PATTERN, lower) {
        Some(t) => t,
        None => {
            return None;
        },
    };
    if triples.len() == 0 {
        return None;
    }
    let (dt, mt, yt) = (&triples[0].0, &triples[0].1, &triples[0].2);
    assert(crate::pattern::triple_views(triples@)[0] == (
        crate::pattern::group_view(*dt),
        crate::pattern::group_view(*mt),
        crate::pattern::group_view(*yt),
    ));
    let (ds, ms) = match (dt, mt) {
        (Some(a), Some(b)) => (a, b),
        _ => {
            return None;
        },
    };
    let dc = chars_of(ds.as_str());
    let mc = chars_of(ms.as_str());
    let (d, m) = match (parse_digits_text(dc.as_slice()), parse_digits_text(mc.as_slice())) {
        (Some(d), Some(m)) => (d, m),
        _ => {
            return None;
        },
    };
    let y: u64 = match yt {
        Some(t) => {
            let tc = chars_of(t.as_str());
            match parse_digits_text(tc.as_slice()) {
                Some(y) => if y < 100 {
                    2000 + y as u64
                } else {
                    y as u64
                },
                None => default_year,
            }
        },
        None => default_year,
    };
    if !is_valid_date(y, m as u64, d as u64) {
        return None;
    }
    if y < 100 {
        return None;
    }
    Some(day_of_date(y, m as u64, d as u64))
}

/// The start of an event listed at `time_text` under the heading
/// `marker`, read at `now_ms`, in milliseconds since the Unix epoch.
pub fn prematch_start_at(marker: Option<&str>, time_text: &str, now_ms: i64) -> (r: Option<i64>)
    requires
        now_ms >= 0,
        moscow_day(now_ms as int) < last_day(),
    ensures
        match r {
            Some(v) => prematch_start(marker_view(marker), time_text@, now_ms as int) == Some(v as int),
            None => prematch_start(marker_view(marker), time_text@, now_ms as int) is None,
        },
{
    let (h, mi) = match parse_clock_time(time_text) {
        Some(p) => p,
        None => {
            return None;
        },
    };
    let today: u64 = (now_ms as u64 + MOSCOW_OFFSET_MS) / DAY_MS;
    let day: i64 = match marker {
        None => today as i64,
        Some(mk) => {
            let lower = to_lowercase(mk);
            if str_contains(lower.as_str(), "сегодня") {
                today as i64
            } else if str_contains(lower.as_str(), "завтра") {
                today as i64 + 1
            } else {
                match explicit_heading_day(lower.as_str(), year_of_day(today)) {
                    Some(d) => d,
                    None => {
                        return None;
                    },
                }
            }
        },
    };
    Some((day * 86400 + h as i64 * 3600 + mi as i64 * 60) * 1000 - MOSCOW_OFFSET_MS as i64)
}

} // verus!
