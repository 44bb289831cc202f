//! Calendar and clock facts that come from chrono / chrono-tz and the
//! system clock.
//!
//! Timezone rules and calendar arithmetic are the outside crates' work: the
//! results are named here and the library's rules are stated over the
//! names.

use chrono::{Datelike, Timelike};
use vstd::prelude::*;

verus! {

/// A moment seen on a timezone-local calendar.
#[derive(Debug, Clone, Copy, PartialEq, Eq, Structural)]
pub struct LocalTime {
    /// Local calendar date as days since 0001-01-01 (`num_days_from_ce`).
    pub day_number: i32,
    /// Day of the week, Monday = 0 … Sunday = 6.
    pub weekday: u32,
    /// ISO-8601 week-numbering year.
    pub iso_year: i32,
    /// ISO-8601 week number.
    pub iso_week: u32,
    /// Seconds since local midnight.
    pub seconds: u32,
    /// Local calendar year.
    pub year: i32,
    /// Local calendar month, 1–12.
    pub month: u32,
}

/// Whether chrono-tz knows the IANA timezone name.
pub uninterp spec fn tz_is_known(name: Seq<char>) -> bool;

/// The local calendar view of unix second `unix` in the named timezone, as
/// chrono computes it; `None` for an unknown zone or an out-of-range time.
pub uninterp spec fn local_time_in(name: Seq<char>, unix: i64) -> Option<LocalTime>;

/// Seconds after midnight of a 24-hour `HH:MM` time, as chrono's
/// `NaiveTime::parse_from_str(_, "%H:%M")` reads it; `None` if it rejects it.
pub uninterp spec fn hh_mm_seconds(text: Seq<char>) -> Option<u32>;

/// Calls `str::parse::<chrono_tz::Tz>` and reports whether it succeeded.
/// Claimed: the answer is `tz_is_known` of the name.
#[verifier::external_body]
pub(crate) fn tz_known(name: &str) -> (r: bool)
    ensures
        r == tz_is_known(name@),
{
    name.parse::<chrono_tz::Tz>().is_ok()
}

/// Parses the zone with chrono-tz, converts unix second `unix` with
/// `DateTime::<Utc>::from_timestamp(unix, 0)` and `with_timezone`, and reads
/// the local calendar fields through `DateTime`'s own `Datelike` and
/// `Timelike` accessors, which read the local time without the range check
/// that `date_naive` panics on at the edge of chrono's calendar. Claimed:
/// the result is `local_time_in` of the arguments, and a month is in 1–12
/// (chrono's `Datelike::month` range); nothing else is claimed about the
/// fields' values.
#[verifier::external_body]
pub(crate) fn local_time(name: &str, unix: i64) -> (r: Option<LocalTime>)
    ensures
        r == local_time_in(name@, unix),
        r matches Some(l) ==> 1 <= l.month <= 12,
{
    let Ok(tz) = name.parse::<chrono_tz::Tz>() else { return None };
    let l = chrono::DateTime::from_timestamp(unix, 0)?.with_timezone(&tz);
    Some(LocalTime {
        day_number: l.num_days_from_ce(),
        weekday: l.weekday().num_days_from_monday(),
        iso_year: l.iso_week().year(),
        iso_week: l.iso_week().week(),
        seconds: l.num_seconds_from_midnight(),
        year: l.year(),
        month: l.month(),
    })
}

/// Calls `chrono::NaiveTime::parse_from_str(text, "%H:%M")` and, on success,
/// `num_seconds_from_midnight`. Claimed: the result is `hh_mm_seconds` of
/// the text, and a parsed time is under 86 400 seconds (chrono documents
/// the 0–86399 range).
#[verifier::external_body]
pub(crate) fn parse_hh_mm(text: &str) -> (r: Option<u32>)
    ensures
        r == hh_mm_seconds(text@),
        r matches Some(v) ==> v < 86400,
{
    chrono::NaiveTime::parse_from_str(text, "%H:%M").ok().map(|t| t.num_seconds_from_midnight())
}

/// The name (`Tz::name`) of the zone at position `index` of
/// `chrono_tz::TZ_VARIANTS`.
pub uninterp spec fn tz_variant_name(index: int) -> Seq<char>;

/// Lists the name (`Tz::name`) of every zone in `chrono_tz::TZ_VARIANTS`,
/// in that array's order. Claimed: there are 597 (the array's declared
/// length), the one at position `i` is `tz_variant_name(i)`, and the listed
/// names and the names that parse as a zone are the same set, since
/// chrono-tz's `FromStr` looks a name up in a table whose keys are the
/// names of exactly those variants.
#[verifier::external_body]
pub(crate) fn iana_zone_names() -> (r: Vec<String>)
    ensures
        r@.len() == 597,
        forall|i: int| 0 <= i < 597 ==> #[trigger] r@[i]@ == tz_variant_name(i),
        forall|i: int| 0 <= i < r@.len() ==> tz_is_known(#[trigger] r@[i]@),
        forall|name: Seq<char>| #[trigger] tz_is_known(name) ==> exists|i: int| 0 <= i < r@.len() && r@[i]@ == name,
{
    chrono_tz::TZ_VARIANTS.iter().map(|tz| tz.name().to_owned()).collect()
}

/// Reads the system clock: whole seconds since the unix epoch, or `None`
/// when the clock is before the epoch. Nothing is claimed about the value.
#[verifier::external_body]
pub(crate) fn system_unix_secs() -> (r: Option<u64>) {
    std::time::SystemTime::now().duration_since(std::time::UNIX_EPOCH).ok().map(|d| d.as_secs())
}

/// Converts a clock reading to unix seconds: `0` before the epoch,
/// saturating at `i64::MAX`.
pub open spec fn unix_from_reading(secs: Option<u64>) -> i64 {
    match secs {
        Some(s) => if s <= i64::MAX as u64 {
            s as i64
        } else {
            i64::MAX
        },
        None => 0,
    }
}

/// Converts a clock reading to unix seconds: `0` before the epoch,
/// saturating at `i64::MAX`.
pub fn unix_from_secs(secs: Option<u64>) -> (r: i64)
    ensures
        r == unix_from_reading(secs),
{
    match secs {
        Some(s) => if s <= i64::MAX as u64 {
            s as i64
        } else {
            i64::MAX
        },
        None => 0,
    }
}

/// Current unix time in seconds (never negative).
pub fn now_unix() -> (r: i64)
    ensures
        r >= 0,
{
    unix_from_secs(system_unix_secs())
}

} // verus!
