//! Calendar dates and local wall-clock readings, modelled as plain
//! values.  The only facts about real time and the machine's time zone
//! come from the `clock` module; everything here is pure arithmetic.

use vstd::prelude::*;

use crate::clock::{local_civil_of_utc, today_local_civil};
use crate::text::{spec_pad2, spec_pad4, push_pad2, push_pad4};

verus! {

/// A calendar date of the proleptic Gregorian calendar, within the
/// range this crate's textual formats can carry.
#[derive(Debug, Clone, Copy, PartialEq, Eq, Structural)]
pub struct Date {
    pub year: u32,
    pub month: u32,
    pub day: u32,
}

/// Whether a year is a leap year.
pub open spec fn spec_is_leap_year(y: int) -> bool {
    y % 4 == 0 && (y % 100 != 0 || y % 400 == 0)
}

/// How many days the month of a year has.
pub open spec fn spec_days_in_month(y: int, m: int) -> int {
    if m == 2 {
        if spec_is_leap_year(y) {
            29
        } else {
            28
        }
    } else if m == 4 || m == 6 || m == 9 || m == 11 {
        30
    } else {
        31
    }
}

/// Days between a civil date and 1970-01-01, negative before it.
pub open spec fn spec_days_from_civil(y: int, m: int, d: int) -> int {
    let yy = if m <= 2 {
        y - 1
    } else {
        y
    };
    let era = yy / 400;
    let yoe = yy % 400;
    let mp = if m > 2 {
        m - 3
    } else {
        m + 9
    };
    let doy = (153 * mp + 2) / 5 + d - 1;
    let doe = yoe * 365 + yoe / 4 - yoe / 100 + doy;
    era * 146097 + doe - 719468
}

impl Date {
    /// A valid calendar date within the supported year range.
    pub open spec fn wf(self) -> bool {
        &&& 1 <= self.year <= 9999
        &&& 1 <= self.month <= 12
        &&& 1 <= self.day <= spec_days_in_month(self.year as int, self.month as int)
    }

    /// The ISO rendering of the date, `YYYY-MM-DD`.
    pub open spec fn spec_iso(self) -> Seq<char> {
        spec_pad4(self.year as nat) + seq!['-'] + spec_pad2(self.month as nat) + seq!['-']
            + spec_pad2(self.day as nat)
    }

    /// Build a date after checking it is a valid calendar date in the
    /// supported range; `None` exactly on invalid input.
    pub fn from_ymd(year: i64, month: u32, day: u32) -> (r: Option<Date>)
        ensures
            ({
                if 1 <= year <= 9999 && 1 <= month <= 12 && 1 <= day <= spec_days_in_month(
                    year as int,
                    month as int,
                ) {
                    r == Some(Date { year: year as u32, month, day })
                } else {
                    r is None
                }
            }),
            r matches Some(d) ==> d.wf(),
    {
        if year < 1 || year > 9999 || month < 1 || month > 12 {
            return None;
        }
        let y = year as u32;
        if day < 1 || day > days_in_month(y, month) {
            return None;
        }
        Some(Date { year: y, month, day })
    }

    /// Today's date in the machine's local time zone, or `None` when it
    /// falls outside the supported range.
    pub fn today_local() -> (r: Option<Date>)
        ensures
            r matches Some(d) ==> d.wf(),
    {
        let (y, m, d) = today_local_civil();
        Date::from_ymd(y, m, d)
    }

    /// Days between this date and 1970-01-01.
    pub fn days_from_epoch(&self) -> (r: i64)
        requires
            self.wf(),
        ensures
            r == spec_days_from_civil(self.year as int, self.month as int, self.day as int),
            -719469 <= r <= 3000000,
    {
        days_from_civil(self.year as i64, self.month as i64, self.day as i64)
    }

    /// The day of the week, 0 for Monday through 6 for Sunday.
    pub fn weekday_index(&self) -> (r: u32)
        requires
            self.wf(),
        ensures
            r == self.spec_weekday_index(),
            r < 7,
    {
        let days = self.days_from_epoch();
        // 1970-01-01 was a Thursday; shift into non-negative range
        // before taking the remainder.
        ((days + 719470) % 7) as u32
    }

    /// The day of the week as an index, 0 for Monday through 6 for
    /// Sunday.
    pub open spec fn spec_weekday_index(self) -> int {
        (spec_days_from_civil(self.year as int, self.month as int, self.day as int) + 719470) % 7
    }
}

/// How many days the month of a year has.
pub fn days_in_month(year: u32, month: u32) -> (r: u32)
    requires
        1 <= month <= 12,
    ensures
        r == spec_days_in_month(year as int, month as int),
        28 <= r <= 31,
{
    if month == 2 {
        if year % 4 == 0 && (year % 100 != 0 || year % 400 == 0) {
            29
        } else {
            28
        }
    } else if month == 4 || month == 6 || month == 9 || month == 11 {
        30
    } else {
        31
    }
}

/// Days between a civil date and 1970-01-01, negative before it.
pub fn days_from_civil(y: i64, m: i64, d: i64) -> (r: i64)
    requires
        1 <= y <= 9999,
        1 <= m <= 12,
        1 <= d <= 31,
    ensures
        r == spec_days_from_civil(y as int, m as int, d as int),
        -719469 <= r <= 3000000,
{
    let yy = if m <= 2 {
        y - 1
    } else {
        y
    };
    let era = yy / 400;
    let yoe = yy % 400;
    let mp = if m > 2 {
        m - 3
    } else {
        m + 9
    };
    let doy = (153 * mp + 2) / 5 + d - 1;
    let doe = yoe * 365 + yoe / 4 - yoe / 100 + doy;
    era * 146097 + doe - 719468
}

/// A wall-clock reading in the machine's local time zone: the calendar
/// date, the seconds past local midnight, and the Unix instant the
/// reading came from.  For values reconstructed from stored text, where
/// no instant was kept, `instant` carries the nominal local reading
/// (days times 86400 plus the seconds of the day).
#[derive(Debug, Clone, Copy, PartialEq, Eq, Structural)]
pub struct LocalDateTime {
    pub date: Date,
    pub secs_of_day: u32,
    pub instant: i64,
}

impl LocalDateTime {
    /// A valid date with a valid time of day.
    pub open spec fn wf(self) -> bool {
        &&& self.date.wf()
        &&& self.secs_of_day < 86400
    }

    /// The hour of the day, 0 to 23.
    pub open spec fn spec_hour(self) -> int {
        self.secs_of_day as int / 3600
    }

    /// The minute of the hour, 0 to 59.
    pub open spec fn spec_minute(self) -> int {
        (self.secs_of_day as int / 60) % 60
    }

    /// The hour of the day, 0 to 23.
    pub fn hour(&self) -> (r: u32)
        requires
            self.wf(),
        ensures
            r == self.spec_hour(),
            r < 24,
    {
        self.secs_of_day / 3600
    }

    /// The minute of the hour, 0 to 59.
    pub fn minute(&self) -> (r: u32)
        requires
            self.wf(),
        ensures
            r == self.spec_minute(),
            r < 60,
    {
        (self.secs_of_day / 60) % 60
    }

    /// Build a reading from an instant and its civil rendering, after
    /// checking the rendering; `None` exactly on out-of-range parts.
    pub fn from_parts(instant: i64, year: i64, month: u32, day: u32, secs_of_day: u32) -> (r:
        Option<LocalDateTime>)
        ensures
            ({
                if 1 <= year <= 9999 && 1 <= month <= 12 && 1 <= day <= spec_days_in_month(
                    year as int,
                    month as int,
                ) && secs_of_day < 86400 {
                    r == Some(LocalDateTime {
                        date: Date { year: year as u32, month, day },
                        secs_of_day,
                        instant,
                    })
                } else {
                    r is None
                }
            }),
            r matches Some(l) ==> l.wf() && l.instant == instant,
    {
        if secs_of_day >= 86400 {
            return None;
        }
        match Date::from_ymd(year, month, day) {
            Some(date) => Some(LocalDateTime { date, secs_of_day, instant }),
            None => None,
        }
    }

    /// The local rendering of a Unix instant, through the system time
    /// zone; `None` when the instant cannot be represented or falls
    /// outside the supported date range.
    pub fn from_utc(t: i64) -> (r: Option<LocalDateTime>)
        ensures
            r matches Some(l) ==> l.wf() && l.instant == t,
    {
        match local_civil_of_utc(t) {
            Some((y, mo, d, s)) => LocalDateTime::from_parts(t, y, mo, d, s),
            None => None,
        }
    }

    /// A nominal reading on a given date at an hour and minute, as used
    /// when re-reading stored text that kept no instant.
    pub fn from_date_hm(date: Date, hour: u32, minute: u32) -> (r: LocalDateTime)
        requires
            date.wf(),
            hour < 24,
            minute < 60,
        ensures
            r.date == date,
            r.secs_of_day == hour * 3600 + minute * 60,
            r.instant == spec_days_from_civil(date.year as int, date.month as int, date.day as int)
                * 86400 + hour * 3600 + minute * 60,
            r.wf(),
            r.spec_hour() == hour,
            r.spec_minute() == minute,
    {
        let secs = hour * 3600 + minute * 60;
        let days = days_from_civil(date.year as i64, date.month as i64, date.day as i64);
        let r = LocalDateTime { date, secs_of_day: secs, instant: days * 86400 + secs as i64 };
        proof {
            assert(r.spec_hour() == hour && r.spec_minute() == minute) by (nonlinear_arith)
                requires
                    r.secs_of_day == hour * 3600 + minute * 60,
                    hour < 24,
                    minute < 60,
            ;
        }
        r
    }
}

/// Append the ISO rendering `YYYY-MM-DD` of a date to a string.
pub fn push_date_iso(s: &mut String, d: &Date)
    requires
        d.wf(),
    ensures
        final(s)@ == old(s)@ + d.spec_iso(),
{
    push_pad4(s, d.year);
    s.append("-");
    push_pad2(s, d.month);
    s.append("-");
    push_pad2(s, d.day);
    proof {
        reveal_strlit("-");
        assert(final(s)@ =~= old(s)@ + d.spec_iso());
    }
}

/// The ISO rendering `YYYY-MM-DD` of a date.
pub fn format_date(d: &Date) -> (r: String)
    requires
        d.wf(),
    ensures
        r@ == d.spec_iso(),
{
    let mut s = String::new();
    push_date_iso(&mut s, d);
    proof {
        assert(s@ =~= d.spec_iso());
    }
    s
}

} // verus!
