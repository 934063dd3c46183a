use vstd::prelude::*;
use chrono::{Datelike, NaiveDate, NaiveTime, Timelike, Weekday};

verus! {

/// The earliest year a date can have.
pub const MIN_YEAR: i32 = -262143;

/// The latest year a date can have.
pub const MAX_YEAR: i32 = 262142;

/// A day of the proleptic Gregorian calendar.
#[derive(Debug, Clone, Copy, PartialEq, Eq, Hash, Structural)]
pub struct CalendarDate {
    pub year: i32,
    pub month: u32,
    pub day: u32,
}

pub open spec fn is_leap_year(y: int) -> bool {
    (y % 4 == 0 && y % 100 != 0) || y % 400 == 0
}

pub open spec fn days_in_month(y: int, m: int) -> int {
    if m == 2 {
        if is_leap_year(y) {
            29
        } else {
            28
        }
    } else if m == 4 || m == 6 || m == 9 || m == 11 {
        30
    } else {
        31
    }
}

/// The number of days from 1970-01-01 to the given day (negative before it).
pub open spec fn days_from_civil(y: int, m: int, d: int) -> int {
    let yy = if m <= 2 {
        y - 1
    } else {
        y
    };
    let era = yy / 400;
    let yoe = yy - era * 400;
    let mp = (m + 9) % 12;
    let doy = (153 * mp + 2) / 5 + d - 1;
    let doe = yoe * 365 + yoe / 4 - yoe / 100 + doy;
    era * 146097 + doe - 719468
}

/// The day of the week of a date: 0 for Monday up to 6 for Sunday
/// (1970-01-01 was a Thursday).
pub open spec fn weekday_of(d: CalendarDate) -> int {
    (days_from_civil(d.year as int, d.month as int, d.day as int) + 3) % 7
}

/// What the ISO text `s` (`YYYY-MM-DD`) names as (year, month, day), if it names a date.
pub uninterp spec fn iso_date_of(s: Seq<char>) -> Option<(int, int, int)>;

/// The ISO `YYYY-MM-DD` text of a date.
pub uninterp spec fn iso_text_of(year: int, month: int, day: int) -> Seq<char>;

/// The date of the given weekday (0 for Monday) in the given ISO week of an ISO
/// year, if that week exists.
pub uninterp spec fn iso_week_day(year: int, week: int, weekday: int) -> Option<(int, int, int)>;

impl CalendarDate {
    /// The date exists and lies in the representable range.
    pub open spec fn valid(self) -> bool {
        &&& MIN_YEAR <= self.year <= MAX_YEAR
        &&& 1 <= self.month <= 12
        &&& 1 <= self.day <= days_in_month(self.year as int, self.month as int)
    }

    pub open spec fn ymd(self) -> (int, int, int) {
        (self.year as int, self.month as int, self.day as int)
    }

    /// The date, when `year`, `month` and `day` name one.
    pub fn new(year: i32, month: u32, day: u32) -> (r: Option<CalendarDate>)
        ensures
            match r {
                Some(d) => d.valid() && d.year == year && d.month == month && d.day == day,
                None => !(CalendarDate { year, month, day }).valid(),
            },
    {
        if year < MIN_YEAR || year > MAX_YEAR || month < 1 || month > 12 || day < 1 {
            return None;
        }
        let leap = (year % 4 == 0 && year % 100 != 0) || year % 400 == 0;
        let last: u32 = if month == 2 {
            if leap {
                29
            } else {
                28
            }
        } else if month == 4 || month == 6 || month == 9 || month == 11 {
            30
        } else {
            31
        };
        if day > last {
            None
        } else {
            Some(CalendarDate { year, month, day })
        }
    }

    /// Parses an ISO `YYYY-MM-DD` date.
    pub fn parse(s: &str) -> (r: Option<CalendarDate>)
        ensures
            match r {
                Some(d) => d.valid() && iso_date_of(s@) == Some(d.ymd()),
                None => iso_date_of(s@) is None,
            },
    {
        parse_iso_date(s)
    }

    /// The day of the week: 0 for Monday up to 6 for Sunday.
    pub fn weekday(&self) -> (r: u8)
        requires
            self.valid(),
        ensures
            r as int == weekday_of(*self),
            r < 7,
    {
        weekday_number(self)
    }

    /// The ISO `YYYY-MM-DD` text of the date.
    pub fn to_iso_string(&self) -> (r: String)
        requires
            self.valid(),
        ensures
            r@ == iso_text_of(self.year as int, self.month as int, self.day as int),
    {
        format_iso_date(self)
    }
}

/// Relies on chrono's `NaiveDate::parse_from_str` with the `%F` format: it
/// returns a date that exists, in chrono's year range, as a function of the text.
#[verifier::external_body]
fn parse_iso_date(s: &str) -> (r: Option<CalendarDate>)
    ensures
        match r {
            Some(d) => d.valid() && iso_date_of(s@) == Some(d.ymd()),
            None => iso_date_of(s@) is None,
        },
{
    match NaiveDate::parse_from_str(s, "%F") {
        Ok(d) => Some(CalendarDate { year: d.year(), month: d.month(), day: d.day() }),
        Err(_) => None,
    }
}

/// Relies on chrono's `NaiveDate::from_ymd_opt`, which accepts every valid date,
/// and `Datelike::weekday` with `Weekday::num_days_from_monday`.
#[verifier::external_body]
fn weekday_number(d: &CalendarDate) -> (r: u8)
    requires
        d.valid(),
    ensures
        r as int == weekday_of(*d),
        r < 7,
{
    NaiveDate::from_ymd_opt(d.year, d.month, d.day).unwrap().weekday().num_days_from_monday() as u8
}

/// Relies on chrono's `NaiveDate::from_ymd_opt` and its `format("%F")`.
#[verifier::external_body]
fn format_iso_date(d: &CalendarDate) -> (r: String)
    requires
        d.valid(),
    ensures
        r@ == iso_text_of(d.year as int, d.month as int, d.day as int),
{
    NaiveDate::from_ymd_opt(d.year, d.month, d.day).unwrap().format("%F").to_string()
}

/// Relies on chrono's `NaiveDate::from_isoywd_opt`, with `Weekday::try_from` to
/// name the weekday: a date that exists and falls on that weekday, when the week does.
#[verifier::external_body]
fn iso_week_date(year: i32, week: u32, weekday: u8) -> (r: Option<CalendarDate>)
    requires
        MIN_YEAR <= year <= MAX_YEAR,
        weekday < 7,
    ensures
        match r {
            Some(d) => d.valid() && weekday_of(d) == weekday as int
                && iso_week_day(year as int, week as int, weekday as int) == Some(d.ymd()),
            None => iso_week_day(year as int, week as int, weekday as int) is None,
        },
{
    match NaiveDate::from_isoywd_opt(year, week, Weekday::try_from(weekday).unwrap()) {
        Some(d) => Some(CalendarDate { year: d.year(), month: d.month(), day: d.day() }),
        None => None,
    }
}

/// Relies on chrono's `Local::now` and `Datelike::year`: the current year of the
/// local calendar, which depends on the clock.
#[verifier::external_body]
pub(crate) fn current_year() -> (r: i32) {
    chrono::Local::now().year()
}

/// The Monday and the Sunday of ISO week `week` of ISO year `year`, or `None`
/// when the year has no such week or lies outside the representable range.
pub fn week_bounds(week: u32, year: i32) -> (r: Option<(CalendarDate, CalendarDate)>)
    ensures
        match r {
            Some((mon, sun)) => {
                &&& MIN_YEAR <= year <= MAX_YEAR
                &&& mon.valid() && sun.valid()
                &&& weekday_of(mon) == 0 && weekday_of(sun) == 6
                &&& iso_week_day(year as int, week as int, 0) == Some(mon.ymd())
                &&& iso_week_day(year as int, week as int, 6) == Some(sun.ymd())
            },
            None => !(MIN_YEAR <= year <= MAX_YEAR) || iso_week_day(year as int, week as int, 0)
                is None || iso_week_day(year as int, week as int, 6) is None,
        },
{
    if year < MIN_YEAR || year > MAX_YEAR {
        return None;
    }
    let mon = iso_week_date(year, week, 0);
    let sun = iso_week_date(year, week, 6);
    match (mon, sun) {
        (Some(m), Some(s)) => Some((m, s)),
        _ => None,
    }
}

/// A time of day to the second.
#[derive(Debug, Clone, Copy, PartialEq, Eq, Hash, Structural)]
pub struct ClockTime {
    pub hour: u32,
    pub minute: u32,
    pub second: u32,
}

/// What the text `s` (`HH:MM:SS`) names as (hour, minute, second), if it names a time.
pub uninterp spec fn clock_time_of(s: Seq<char>) -> Option<(int, int, int)>;

impl ClockTime {
    pub open spec fn hms(self) -> (int, int, int) {
        (self.hour as int, self.minute as int, self.second as int)
    }

    /// Parses an `HH:MM:SS` time.
    pub fn parse(s: &str) -> (r: Option<ClockTime>)
        ensures
            match r {
                Some(t) => t.hour < 24 && t.minute < 60 && t.second < 60 && clock_time_of(s@) == Some(t.hms()),
                None => clock_time_of(s@) is None,
            },
    {
        parse_clock_time(s)
    }
}

/// Relies on chrono's `NaiveTime::parse_from_str` with the `%H:%M:%S` format,
/// read back with `Timelike`: hours below 24, minutes and seconds below 60, as a
/// function of the text.
#[verifier::external_body]
fn parse_clock_time(s: &str) -> (r: Option<ClockTime>)
    ensures
        match r {
            Some(t) => t.hour < 24 && t.minute < 60 && t.second < 60 && clock_time_of(s@) == Some(t.hms()),
            None => clock_time_of(s@) is None,
        },
{
    match NaiveTime::parse_from_str(s, "%H:%M:%S") {
        Ok(t) => Some(ClockTime { hour: t.hour(), minute: t.minute(), second: t.second() }),
        Err(_) => None,
    }
}

} // verus!
