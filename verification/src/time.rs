//! Instants and calendar dates as plain values, with the calendar arithmetic
//! delegated to `chrono` and `chrono-tz`.

use vstd::prelude::*;
use chrono::{Datelike, Offset};

verus! {

/// The latest instant `chrono` can represent, in seconds since the Unix epoch.
pub const MAX_SECONDS: i64 = 8_210_266_876_799i64;

/// The earliest instant `chrono` can represent (`DateTime::<Utc>::MIN_UTC`), in seconds since the Unix epoch.
pub const MIN_SECONDS: i64 = -8_334_601_228_800i64;

/// A UTC instant: whole seconds since the Unix epoch and the nanoseconds past them.
#[derive(Copy, Clone, Debug, PartialEq, Eq)]
pub struct Timestamp {
    pub seconds: i64,
    pub nanos: u32,
}

impl Timestamp {
    /// The instant lies in `chrono`'s range and its fraction is below one second.
    pub open spec fn valid(self) -> bool {
        &&& MIN_SECONDS <= self.seconds <= MAX_SECONDS
        &&& self.nanos < 1_000_000_000
    }

    /// Whether the instant lies in `chrono`'s range with its fraction below one second.
    pub fn is_valid(&self) -> (r: bool)
        ensures
            r == self.valid(),
    {
        MIN_SECONDS <= self.seconds && self.seconds <= MAX_SECONDS && self.nanos < 1_000_000_000
    }

    /// The instant as nanoseconds since the Unix epoch.
    pub open spec fn total_nanos(self) -> int {
        self.seconds * 1_000_000_000 + self.nanos
    }

    /// Whether this instant comes strictly before `other`.
    pub open spec fn spec_before(self, other: Timestamp) -> bool {
        self.seconds < other.seconds || (self.seconds == other.seconds && self.nanos < other.nanos)
    }

    /// Whether this instant comes strictly before `other`.
    pub fn before(&self, other: &Timestamp) -> (r: bool)
        ensures
            r == self.spec_before(*other),
    {
        self.seconds < other.seconds || (self.seconds == other.seconds && self.nanos < other.nanos)
    }

    /// This instant moved `seconds` later.
    pub open spec fn spec_plus_seconds(self, seconds: int) -> Timestamp {
        Timestamp { seconds: (self.seconds + seconds) as i64, nanos: self.nanos }
    }

    /// This instant moved `seconds` later; the result must stay in `chrono`'s range.
    pub fn plus_seconds(&self, seconds: u32) -> (r: Timestamp)
        requires
            self.seconds + seconds <= MAX_SECONDS,
            MIN_SECONDS <= self.seconds,
        ensures
            r == self.spec_plus_seconds(seconds as int),
    {
        Timestamp { seconds: self.seconds + seconds as i64, nanos: self.nanos }
    }

    /// The whole seconds from `earlier` to this instant, truncated towards zero.
    pub open spec fn spec_seconds_since(self, earlier: Timestamp) -> int {
        let delta = self.total_nanos() - earlier.total_nanos();
        if delta >= 0 {
            delta / 1_000_000_000
        } else {
            -((-delta) / 1_000_000_000)
        }
    }

    /// The whole seconds from `earlier` to this instant, truncated towards zero.
    pub fn seconds_since(&self, earlier: &Timestamp) -> (r: i64)
        requires
            self.valid(),
            earlier.valid(),
        ensures
            r == self.spec_seconds_since(*earlier),
    {
        let delta: i128 = (self.seconds as i128) * 1_000_000_000 + (self.nanos as i128) - ((earlier.seconds as i128) * 1_000_000_000
            + (earlier.nanos as i128));
        if delta >= 0 {
            (delta / 1_000_000_000) as i64
        } else {
            -(((-delta) / 1_000_000_000) as i64)
        }
    }

    /// The seconds elapsed from `earlier` to this instant as a `u32`, or zero
    /// when that is negative or does not fit.
    pub open spec fn spec_elapsed_u32(self, earlier: Timestamp) -> u32 {
        let s = self.spec_seconds_since(earlier);
        if 0 <= s <= u32::MAX { s as u32 } else { 0 }
    }

    /// The seconds elapsed from `earlier` to this instant as a `u32`, or zero
    /// when that is negative or does not fit.
    pub fn elapsed_u32(&self, earlier: &Timestamp) -> (r: u32)
        requires
            self.valid(),
            earlier.valid(),
        ensures
            r == self.spec_elapsed_u32(*earlier),
    {
        let s = self.seconds_since(earlier);
        if 0 <= s && s <= u32::MAX as i64 { s as u32 } else { 0 }
    }
}

/// The earlier of two instants.
pub open spec fn spec_earliest(a: Timestamp, b: Timestamp) -> Timestamp {
    if b.spec_before(a) { b } else { a }
}

/// A calendar day, counted as `chrono` does: January 1 of year 1 is day 1.
#[derive(Copy, Clone, Debug, PartialEq, Eq)]
pub struct Date {
    pub days: i32,
}

/// The year of a day (`NaiveDate::year`), when `chrono` can represent the day.
pub uninterp spec fn ce_year(days: i32) -> Option<i32>;

/// The month, 1 to 12, of a day (`NaiveDate::month`).
pub uninterp spec fn ce_month(days: i32) -> Option<u32>;

/// The day of the month, 1 to 31, of a day (`NaiveDate::day`).
pub uninterp spec fn ce_day_of_month(days: i32) -> Option<u32>;

/// The weekday of a day, 1 for Monday to 7 for Sunday (`Weekday::number_from_monday`).
pub uninterp spec fn ce_weekday(days: i32) -> Option<u32>;

/// The ISO 8601 week number of a day (`IsoWeek::week`).
pub uninterp spec fn ce_iso_week(days: i32) -> Option<u32>;

/// The day for a year, month and day of month (`NaiveDate::from_ymd_opt`).
pub uninterp spec fn ce_from_ymd(year: i32, month: u32, day: u32) -> Option<i32>;

/// A day moved later by a number of days (`NaiveDate::checked_add_days`).
pub uninterp spec fn ce_add_days(days: i32, count: u64) -> Option<i32>;

/// A day moved earlier by a number of days (`NaiveDate::checked_sub_days`).
pub uninterp spec fn ce_sub_days(days: i32, count: u64) -> Option<i32>;

/// The day before (`NaiveDate::pred_opt`).
pub uninterp spec fn ce_pred(days: i32) -> Option<i32>;

/// The day after (`NaiveDate::succ_opt`).
pub uninterp spec fn ce_succ(days: i32) -> Option<i32>;

/// The local calendar day of a UTC instant in a named IANA time zone
/// (`chrono_tz::Tz::from_str`, then `DateTime::with_timezone` and the local
/// date), when there is one.
pub uninterp spec fn zone_local_day(seconds: i64, nanos: u32, zone: Seq<char>) -> Option<i32>;

/// Whether `chrono-tz` knows a time zone name (`Tz::from_str` succeeds).
pub uninterp spec fn zone_known(zone: Seq<char>) -> bool;

/// `NaiveDate::year` of the day numbered `days`.
#[verifier::external_body]
pub(crate) fn date_year(days: i32) -> (r: Option<i32>)
    ensures
        r == ce_year(days),
{
    match chrono::NaiveDate::from_num_days_from_ce_opt(days) {
        Some(d) => Some(d.year()),
        None => None,
    }
}

/// `NaiveDate::month` of the day numbered `days`.
#[verifier::external_body]
pub(crate) fn date_month(days: i32) -> (r: Option<u32>)
    ensures
        r == ce_month(days),
        r matches Some(m) ==> 1 <= m <= 12,
{
    match chrono::NaiveDate::from_num_days_from_ce_opt(days) {
        Some(d) => Some(d.month()),
        None => None,
    }
}

/// `NaiveDate::day` of the day numbered `days`.
#[verifier::external_body]
pub(crate) fn date_day_of_month(days: i32) -> (r: Option<u32>)
    ensures
        r == ce_day_of_month(days),
        r matches Some(d) ==> 1 <= d <= 31,
{
    match chrono::NaiveDate::from_num_days_from_ce_opt(days) {
        Some(d) => Some(d.day()),
        None => None,
    }
}

/// `NaiveDate::weekday` of the day numbered `days`, as `number_from_monday`.
#[verifier::external_body]
pub(crate) fn date_weekday(days: i32) -> (r: Option<u32>)
    ensures
        r == ce_weekday(days),
        r matches Some(w) ==> 1 <= w <= 7,
{
    match chrono::NaiveDate::from_num_days_from_ce_opt(days) {
        Some(d) => Some(d.weekday().number_from_monday()),
        None => None,
    }
}

/// `IsoWeek::week` of the day numbered `days`.
#[verifier::external_body]
pub(crate) fn date_iso_week(days: i32) -> (r: Option<u32>)
    ensures
        r == ce_iso_week(days),
        r matches Some(w) ==> 1 <= w <= 53,
{
    match chrono::NaiveDate::from_num_days_from_ce_opt(days) {
        Some(d) => Some(d.iso_week().week()),
        None => None,
    }
}

/// `NaiveDate::from_ymd_opt`, as a day number.
#[verifier::external_body]
pub(crate) fn date_from_ymd(year: i32, month: u32, day: u32) -> (r: Option<i32>)
    ensures
        r == ce_from_ymd(year, month, day),
{
    match chrono::NaiveDate::from_ymd_opt(year, month, day) {
        Some(d) => Some(d.num_days_from_ce()),
        None => None,
    }
}

/// `NaiveDate::checked_add_days` on the day numbered `days`.
#[verifier::external_body]
pub(crate) fn date_add_days(days: i32, count: u64) -> (r: Option<i32>)
    ensures
        r == ce_add_days(days, count),
{
    match chrono::NaiveDate::from_num_days_from_ce_opt(days) {
        Some(d) => match d.checked_add_days(chrono::Days::new(count)) {
            Some(r) => Some(r.num_days_from_ce()),
            None => None,
        },
        None => None,
    }
}

/// `NaiveDate::checked_sub_days` on the day numbered `days`.
#[verifier::external_body]
pub(crate) fn date_sub_days(days: i32, count: u64) -> (r: Option<i32>)
    ensures
        r == ce_sub_days(days, count),
{
    match chrono::NaiveDate::from_num_days_from_ce_opt(days) {
        Some(d) => match d.checked_sub_days(chrono::Days::new(count)) {
            Some(r) => Some(r.num_days_from_ce()),
            None => None,
        },
        None => None,
    }
}

/// `NaiveDate::pred_opt` on the day numbered `days`.
#[verifier::external_body]
pub(crate) fn date_pred(days: i32) -> (r: Option<i32>)
    ensures
        r == ce_pred(days),
{
    match chrono::NaiveDate::from_num_days_from_ce_opt(days) {
        Some(d) => match d.pred_opt() {
            Some(r) => Some(r.num_days_from_ce()),
            None => None,
        },
        None => None,
    }
}

/// `NaiveDate::succ_opt` on the day numbered `days`.
#[verifier::external_body]
pub(crate) fn date_succ(days: i32) -> (r: Option<i32>)
    ensures
        r == ce_succ(days),
{
    match chrono::NaiveDate::from_num_days_from_ce_opt(days) {
        Some(d) => match d.succ_opt() {
            Some(r) => Some(r.num_days_from_ce()),
            None => None,
        },
        None => None,
    }
}

/// Whether `chrono-tz` knows the time zone `zone` (`Tz::from_str`).
#[verifier::external_body]
pub(crate) fn is_known_zone(zone: &str) -> (r: bool)
    ensures
        r == zone_known(zone@),
{
    zone.parse::<chrono_tz::Tz>().is_ok()
}

/// The local day of an instant in the time zone named `zone`
/// (`Tz::from_str`, `DateTime::from_timestamp`, `with_timezone`, then the
/// local date that `date_naive` reads). `None` when the zone is unknown, the
/// instant invalid, or its local time out of `chrono`'s range, where
/// `date_naive` would panic.
#[verifier::external_body]
pub(crate) fn local_day(now: Timestamp, zone: &str) -> (r: Option<i32>)
    ensures
        r == zone_local_day(now.seconds, now.nanos, zone@),
        r is Some ==> zone_known(zone@),
{
    match (zone.parse::<chrono_tz::Tz>(), chrono::DateTime::from_timestamp(now.seconds, now.nanos)) {
        (Ok(tz), Some(t)) => {
            let local = t.with_timezone(&tz);
            local.naive_utc().checked_add_offset(local.offset().fix()).map(|d| d.date().num_days_from_ce())
        },
        _ => None,
    }
}

/// The system clock (`std::time::SystemTime`).
#[verifier::external_type_specification]
#[verifier::external_body]
pub struct ExSystemTime(std::time::SystemTime);

/// `SystemTime::now`: the system clock's reading. Nothing is promised of it.
#[verifier::external_body]
fn system_now() -> (r: std::time::SystemTime) {
    std::time::SystemTime::now()
}

/// `SystemTime::duration_since(UNIX_EPOCH)`: how long after the Unix epoch
/// `t` lies, or, as the error, how long before it. Nothing is promised of
/// the span.
#[verifier::external_body]
fn since_epoch(t: &std::time::SystemTime) -> (r: Result<std::time::Duration, std::time::Duration>) {
    match t.duration_since(std::time::UNIX_EPOCH) {
        Ok(d) => Ok(d),
        Err(e) => Err(e.duration()),
    }
}

/// `Duration::as_secs`: the whole seconds of a span.
#[verifier::external_body]
fn duration_seconds(d: &std::time::Duration) -> (r: u64) {
    d.as_secs()
}

/// `Duration::subsec_nanos`: the fraction of a second of a span, which its
/// documentation promises is below one billion.
#[verifier::external_body]
fn duration_subsec_nanos(d: &std::time::Duration) -> (r: u32)
    ensures
        r < 1_000_000_000,
{
    d.subsec_nanos()
}

/// The instant a clock reading stands for: `seconds` and `nanos` after the
/// Unix epoch, or before it where `before_epoch` holds; an instant outside
/// `chrono`'s range is taken as the nearest end of that range.
pub open spec fn clock_instant(before_epoch: bool, seconds: u64, nanos: u32) -> Timestamp {
    if !before_epoch {
        if seconds > MAX_SECONDS {
            Timestamp { seconds: MAX_SECONDS, nanos: 999_999_999 }
        } else {
            Timestamp { seconds: seconds as i64, nanos }
        }
    } else if nanos == 0 {
        if seconds > -MIN_SECONDS {
            Timestamp { seconds: MIN_SECONDS, nanos: 0 }
        } else {
            Timestamp { seconds: -seconds as i64, nanos: 0 }
        }
    } else if seconds + 1 > -MIN_SECONDS {
        Timestamp { seconds: MIN_SECONDS, nanos: 0 }
    } else {
        Timestamp { seconds: (-seconds - 1) as i64, nanos: (1_000_000_000 - nanos) as u32 }
    }
}

/// The instant a clock reading stands for, as `clock_instant` says.
pub fn instant_from_clock(before_epoch: bool, seconds: u64, nanos: u32) -> (r: Timestamp)
    requires
        nanos < 1_000_000_000,
    ensures
        r == clock_instant(before_epoch, seconds, nanos),
        r.valid(),
{
    if !before_epoch {
        if seconds > MAX_SECONDS as u64 {
            Timestamp { seconds: MAX_SECONDS, nanos: 999_999_999 }
        } else {
            Timestamp { seconds: seconds as i64, nanos }
        }
    } else if nanos == 0 {
        if seconds > (0 - MIN_SECONDS) as u64 {
            Timestamp { seconds: MIN_SECONDS, nanos: 0 }
        } else {
            Timestamp { seconds: 0 - seconds as i64, nanos: 0 }
        }
    } else if seconds >= (0 - MIN_SECONDS) as u64 {
        Timestamp { seconds: MIN_SECONDS, nanos: 0 }
    } else {
        Timestamp { seconds: 0 - seconds as i64 - 1, nanos: 1_000_000_000 - nanos }
    }
}

/// The current time, read from the system clock; a reading before the Unix
/// epoch gives an instant before it, and one outside `chrono`'s range the
/// nearest end of that range. Nothing is promised of which instant it is.
pub(crate) fn utc_now() -> (r: Timestamp)
    ensures
        r.valid(),
{
    let now = system_now();
    match since_epoch(&now) {
        Ok(d) => instant_from_clock(false, duration_seconds(&d), duration_subsec_nanos(&d)),
        Err(d) => instant_from_clock(true, duration_seconds(&d), duration_subsec_nanos(&d)),
    }
}

} // verus!

verus! {

/// A non-negative span of time, as `std::time::Duration` holds it.
#[derive(Copy, Clone, Debug, PartialEq, Eq)]
pub struct Delay {
    pub seconds: u64,
    pub nanos: u32,
}

/// The span from `now` until `target`, when `target` is not earlier
/// (`(target - now).to_std()`).
pub open spec fn spec_until(target: Timestamp, now: Timestamp) -> Option<Delay> {
    let delta = target.total_nanos() - now.total_nanos();
    if delta < 0 {
        None
    } else {
        Some(Delay { seconds: (delta / 1_000_000_000) as u64, nanos: (delta % 1_000_000_000) as u32 })
    }
}

impl Timestamp {
    /// The span from `now` until this instant, when it is not earlier.
    pub fn until(&self, now: &Timestamp) -> (r: Option<Delay>)
        requires
            self.valid(),
            now.valid(),
        ensures
            r == spec_until(*self, *now),
    {
        let delta: i128 = (self.seconds as i128) * 1_000_000_000 + (self.nanos as i128) - ((now.seconds as i128) * 1_000_000_000
            + (now.nanos as i128));
        if delta < 0 {
            None
        } else {
            Some(Delay { seconds: (delta / 1_000_000_000) as u64, nanos: (delta % 1_000_000_000) as u32 })
        }
    }
}

} // verus!
