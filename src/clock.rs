use vstd::prelude::*;

use chrono::{Datelike, Timelike};
use std::str::FromStr;

verus! {

/// A wall-clock reading in some time zone, to the second. `weekday` counts
/// from Monday = 1 to Sunday = 7.
#[derive(Debug, Clone, Copy, PartialEq, Eq, Structural)]
pub struct CivilTime {
    pub year: i32,
    pub month: u32,
    pub day: u32,
    pub hour: u32,
    pub minute: u32,
    pub second: u32,
    pub weekday: u32,
}

/// Readings and cron searches are asked only for instants within this many
/// milliseconds of the Unix epoch: the years -9999 to 9999, far inside the
/// range where chrono can add a zone's offset or a second to an instant.
pub const CLOCK_HORIZON_MS: i64 = 253402300799999;

pub open spec fn within_horizon(ms: i64) -> bool {
    -CLOCK_HORIZON_MS <= ms <= CLOCK_HORIZON_MS
}

/// The fields of a reading lie in the ranges chrono documents for them.
pub open spec fn reading_in_range(t: CivilTime) -> bool {
    &&& 1 <= t.month <= 12
    &&& 1 <= t.day <= 31
    &&& t.hour < 24
    &&& t.minute < 60
    &&& t.second < 60
    &&& 1 <= t.weekday <= 7
}

/// The wall-clock reading, in the IANA zone named `zone`, of the instant
/// `utc_ms` milliseconds after the Unix epoch; `None` where the zone is unknown.
pub uninterp spec fn zone_civil_time(zone: Seq<char>, utc_ms: int) -> Option<CivilTime>;

/// The first instant, in milliseconds after the Unix epoch, that the cron
/// expression `expr` selects strictly after `after_ms`; `None` where the
/// expression does not parse or selects nothing later.
pub uninterp spec fn cron_first_after(expr: Seq<char>, after_ms: i64) -> Option<i64>;

/// Relies on chrono-tz's `Tz::from_str` (lookup of an IANA zone name) and on
/// chrono's `DateTime::with_timezone` and `naive_local`: the reading depends
/// on the zone's name and the instant alone. `naive_local` panics where the
/// reading leaves chrono's range, which the horizon keeps far away.
#[verifier::external_body]
pub fn civil_time_in_zone(zone: &str, utc_ms: i64) -> (r: Option<CivilTime>)
    requires
        within_horizon(utc_ms),
    ensures
        r == zone_civil_time(zone@, utc_ms as int),
        r matches Some(t) ==> reading_in_range(t),
{
    let tz = chrono_tz::Tz::from_str(zone).ok()?;
    let t = chrono::DateTime::from_timestamp_millis(utc_ms)?.with_timezone(&tz).naive_local();
    Some(CivilTime {
        year: t.year(),
        month: t.month(),
        day: t.day(),
        hour: t.hour(),
        minute: t.minute(),
        second: t.second(),
        weekday: t.weekday().number_from_monday(),
    })
}

/// Relies on chrono's `Local` zone: the wall-clock reading of an instant in
/// the host's zone. That zone is a setting of the machine, so of the reading
/// only the ranges of its fields are stated. `naive_local` panics where the
/// reading leaves chrono's range, which the horizon keeps far away.
#[verifier::external_body]
pub fn civil_time_on_host(utc_ms: i64) -> (r: Option<CivilTime>)
    requires
        within_horizon(utc_ms),
    ensures
        r matches Some(t) ==> reading_in_range(t),
{
    let t = chrono::DateTime::from_timestamp_millis(utc_ms)?.with_timezone(&chrono::Local).naive_local();
    Some(CivilTime {
        year: t.year(),
        month: t.month(),
        day: t.day(),
        hour: t.hour(),
        minute: t.minute(),
        second: t.second(),
        weekday: t.weekday().number_from_monday(),
    })
}

/// Relies on cron's `Schedule::from_str` and `Schedule::after`, whose
/// iterator yields the schedule's instants strictly after the given one
/// (it starts its search one second later, which chrono cannot add at the
/// very end of its range).
#[verifier::external_body]
pub fn cron_next_after(expr: &str, after_ms: i64) -> (r: Option<i64>)
    requires
        after_ms <= CLOCK_HORIZON_MS,
    ensures
        r == cron_first_after(expr@, after_ms),
        r matches Some(t) ==> after_ms < t,
{
    let schedule = cron::Schedule::from_str(expr).ok()?;
    let after = chrono::DateTime::from_timestamp_millis(after_ms)?;
    schedule.after(&after).next().map(|t| t.timestamp_millis())
}

} // verus!
