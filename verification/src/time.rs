//! Instants, calendar days and times of day, and what the time-zone
//! database says of them.
//!
//! A calendar day is the number of the day in the proleptic Gregorian
//! calendar, January 1 of year 1 being day 1. A time zone is given by its
//! name in the IANA database, such as `Europe/Zurich`.

use vstd::prelude::*;

verus! {

/// A point in time: the whole seconds since 1970-01-01 00:00:00 UTC and the
/// nanoseconds past that second. During a leap second the nanoseconds reach
/// beyond 999,999,999, so instants are ordered by seconds first.
#[derive(Clone, Copy, Debug, PartialEq, Eq, Structural)]
pub struct Instant {
    pub secs: i64,
    pub nanos: u32,
}

impl Instant {
    /// `self` is strictly earlier than `other`.
    pub open spec fn before(self, other: Instant) -> bool {
        self.secs < other.secs || (self.secs == other.secs && self.nanos < other.nanos)
    }

    /// `self` is no later than `other`.
    pub open spec fn at_or_before(self, other: Instant) -> bool {
        self == other || self.before(other)
    }

    /// `self` lies in the half-open interval from `last` (excluded) to `now`
    /// (included).
    pub open spec fn within(self, last: Instant, now: Instant) -> bool {
        last.before(self) && self.at_or_before(now)
    }

    #[verifier::allow_in_spec]
    pub fn new(secs: i64, nanos: u32) -> (r: Instant)
        returns
            (Instant { secs, nanos }),
    {
        Instant { secs, nanos }
    }

    pub fn is_before(&self, other: &Instant) -> (r: bool)
        ensures
            r == self.before(*other),
    {
        self.secs < other.secs || (self.secs == other.secs && self.nanos < other.nanos)
    }

    pub fn is_at_or_before(&self, other: &Instant) -> (r: bool)
        ensures
            r == self.at_or_before(*other),
    {
        self.secs < other.secs || (self.secs == other.secs && self.nanos <= other.nanos)
    }

    /// Whether the instant has newly passed: it is later than `last` and not
    /// later than `now`.
    pub fn is_within(&self, last: &Instant, now: &Instant) -> (r: bool)
        ensures
            r == self.within(*last, *now),
    {
        last.is_before(self) && self.is_at_or_before(now)
    }
}

/// A time of day on the wall clock: the seconds since midnight and the
/// nanoseconds past that second.
#[derive(Clone, Copy, Debug, PartialEq, Eq, Structural)]
pub struct TimeOfDay {
    pub secs: u32,
    pub nanos: u32,
}

impl TimeOfDay {
    /// The time `hour:min:sec`, where that is a time of day.
    pub fn from_hms(hour: u32, min: u32, sec: u32) -> (r: Option<TimeOfDay>)
        ensures
            r == if hour < 24 && min < 60 && sec < 60 {
                Some(TimeOfDay { secs: (hour * 3600 + min * 60 + sec) as u32, nanos: 0 })
            } else {
                None
            },
    {
        if hour < 24 && min < 60 && sec < 60 {
            Some(TimeOfDay { secs: hour * 3600 + min * 60 + sec, nanos: 0 })
        } else {
            None
        }
    }
}

/// The calendar day that the clocks of the zone show at the instant
/// `secs`, `nanos`. `None` where `zone` names no zone of the database, or the
/// instant or the day lies outside the years that chrono can hold.
pub uninterp spec fn local_day_of(zone: Seq<char>, secs: i64, nanos: u32) -> Option<i32>;

/// The day of the week of a calendar day, counted from Sunday = 0. `None`
/// where the day lies outside the years that chrono can hold.
pub uninterp spec fn weekday_of(day: i32) -> Option<u32>;

/// The instant at which the clocks of the zone show the time of day `secs`,
/// `nanos` on the calendar day `day`. `None` where the clocks never show that
/// time on that day (it falls into a gap), show it twice (a fold), where
/// `zone` names no zone of the database, or where the day or the time is none
/// that chrono can hold.
pub uninterp spec fn resolve_local(zone: Seq<char>, day: i32, secs: u32, nanos: u32) -> Option<
    Instant,
>;

/// Calls `chrono_tz::Tz::from_str` on the name, `chrono::DateTime::from_timestamp`
/// on the instant, and `chrono_tz::Tz::offset_from_utc_datetime` with
/// `chrono::NaiveDateTime::checked_add_offset` for the local date, of which it
/// hands out `num_days_from_ce`. The time-zone tables are compiled into
/// chrono-tz, so the result depends on the arguments alone; the contract
/// gives it its name and claims nothing else.
#[verifier::external_body]
pub(crate) fn zone_local_day(zone: &str, secs: i64, nanos: u32) -> (r: Option<i32>)
    ensures
        r == local_day_of(zone@, secs, nanos),
{
    let tz: chrono_tz::Tz = zone.parse().ok()?;
    let utc = chrono::DateTime::from_timestamp(secs, nanos)?.naive_utc();
    let offset = chrono::Offset::fix(&chrono::TimeZone::offset_from_utc_datetime(&tz, &utc));
    let local = utc.checked_add_offset(offset)?;
    Some(chrono::Datelike::num_days_from_ce(&local.date()))
}

/// Calls `chrono::NaiveDate::from_num_days_from_ce_opt` on the day and hands
/// out `weekday().num_days_from_sunday()` of the date. The result depends on
/// the day alone; the contract gives it its name and claims nothing else.
#[verifier::external_body]
pub(crate) fn day_weekday(day: i32) -> (r: Option<u32>)
    ensures
        r == weekday_of(day),
{
    let date = chrono::NaiveDate::from_num_days_from_ce_opt(day)?;
    Some(chrono::Datelike::weekday(&date).num_days_from_sunday())
}

/// Calls `chrono::NaiveDateTime::and_local_timezone` on the day and time of
/// day, with the zone that `chrono_tz::Tz::from_str` finds under the name,
/// and keeps the result where it is single. It hands out `timestamp` and
/// `timestamp_subsec_nanos` of that result. The result depends on the
/// arguments alone; the contract gives it its name and claims nothing else.
#[verifier::external_body]
pub(crate) fn zone_resolve(zone: &str, day: i32, secs: u32, nanos: u32) -> (r: Option<Instant>)
    ensures
        r == resolve_local(zone@, day, secs, nanos),
{
    let tz: chrono_tz::Tz = zone.parse().ok()?;
    let date = chrono::NaiveDate::from_num_days_from_ce_opt(day)?;
    let time = chrono::NaiveTime::from_num_seconds_from_midnight_opt(secs, nanos)?;
    let at = chrono::NaiveDateTime::new(date, time).and_local_timezone(tz).single()?;
    Some(Instant { secs: at.timestamp(), nanos: at.timestamp_subsec_nanos() })
}

} // verus!
