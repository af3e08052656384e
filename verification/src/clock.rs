//! Wall-clock readings and durations, as plain millisecond counts.

use std::time::Duration;
use vstd::prelude::*;

verus! {

/// The current time in milliseconds since the Unix epoch, read from
/// `SystemTime::now()`. Nothing is promised of the value: it depends on the
/// machine's clock, which may even move backwards between two readings.
#[verifier::external_body]
pub fn now_millis() -> (t: u64) {
    match std::time::SystemTime::now().duration_since(std::time::UNIX_EPOCH) {
        Ok(d) => d.as_millis() as u64,
        Err(_) => 0,
    }
}

/// The current UTC time in milliseconds since the Unix epoch, as a signed
/// count (the system clock read by `now_millis`, held at `i64::MAX` past
/// that). Nothing more is promised of the value: it is the machine's clock.
pub fn utc_now_millis() -> (t: i64)
    ensures
        t >= 0,
{
    let ms = now_millis();
    if ms > 0x7FFF_FFFF_FFFF_FFFFu64 {
        0x7FFF_FFFF_FFFF_FFFFi64
    } else {
        ms as i64
    }
}

/// What `Duration::from_millis(ms)` returns: the span of `ms` milliseconds.
pub uninterp spec fn duration_of_millis(ms: u64) -> Duration;

/// `Duration::from_millis`: a span of `ms` milliseconds.
#[verifier::external_body]
pub fn duration_from_millis(ms: u64) -> (d: Duration)
    ensures
        d == duration_of_millis(ms),
{
    Duration::from_millis(ms)
}

/// The instant that chrono reads from the RFC 3339 text `text`, in
/// milliseconds since the Unix epoch, where it reads one.
pub uninterp spec fn rfc3339_millis(text: Seq<char>) -> Option<i64>;

/// `DateTime::parse_from_rfc3339(text)`, taken to UTC and counted in
/// milliseconds (`timestamp_millis`); `None` where chrono refuses the text.
/// What chrono accepts, and the instant it reads, are named here without
/// being stated.
#[verifier::external_body]
pub fn parse_rfc3339_millis(text: &str) -> (r: Option<i64>)
    ensures
        r == rfc3339_millis(text@),
{
    chrono::DateTime::parse_from_rfc3339(text).ok().map(|t| t.with_timezone(&chrono::Utc).timestamp_millis())
}

/// Whether chrono holds the instant `secs` seconds after the Unix epoch:
/// from the first second of year -262143 to the last of year 262142
/// (chrono's `MIN_YEAR` and `MAX_YEAR`).
pub open spec fn utc_secs_in_range(secs: i64) -> bool {
    -8_334_601_228_800 <= secs <= 8_210_266_876_799
}

/// `DateTime::from_timestamp(secs, 0)` counted in milliseconds
/// (`timestamp_millis`): the instant `secs` seconds after the Unix epoch,
/// where chrono holds it.
#[verifier::external_body]
pub fn utc_millis_from_secs(secs: i64) -> (r: Option<i64>)
    ensures
        r is Some == utc_secs_in_range(secs),
        r matches Some(m) ==> m == secs * 1000,
{
    chrono::DateTime::from_timestamp(secs, 0).map(|t| t.timestamp_millis())
}

/// Whether chrono holds the instant `ms` milliseconds after the Unix epoch
/// (its second within chrono's range).
pub open spec fn utc_millis_in_range(ms: i64) -> bool {
    -8_334_601_228_800_000 <= ms <= 8_210_266_876_799_999
}

/// `Utc.timestamp_millis_opt(ms).single()` counted back in milliseconds:
/// the instant itself, where chrono holds it.
#[verifier::external_body]
pub fn utc_millis_checked(ms: i64) -> (r: Option<i64>)
    ensures
        r == (if utc_millis_in_range(ms) {
            Some(ms)
        } else {
            None::<i64>
        }),
{
    chrono::TimeZone::timestamp_millis_opt(&chrono::Utc, ms).single().map(|t| t.timestamp_millis())
}

} // verus!
