//! Dates and times of day as plain values, and the 15-minute time bins.

use vstd::prelude::*;

use crate::types::CountError;

verus! {

#[verifier::external_type_specification]
#[verifier::external_body]
pub struct ExComponentRange(time::error::ComponentRange);

/// A time of day, to the second.
#[derive(Debug, Clone, Copy, PartialEq, Eq, Structural)]
pub struct Time {
    pub hour: u8,
    pub minute: u8,
    pub second: u8,
}

/// A calendar date in the proleptic Gregorian calendar.
#[derive(Debug, Clone, Copy, PartialEq, Eq, Structural)]
pub struct Date {
    pub year: i32,
    pub month: u8,
    pub day: u8,
}

/// A date together with a time of day.
#[derive(Debug, Clone, Copy, PartialEq, Eq, Structural)]
pub struct PrimitiveDateTime {
    pub date: Date,
    pub time: Time,
}

pub open spec fn is_leap_year(year: int) -> bool {
    year % 4 == 0 && (year % 100 != 0 || year % 400 == 0)
}

pub open spec fn days_in_month(year: int, month: int) -> int {
    if month == 2 {
        if is_leap_year(year) {
            29
        } else {
            28
        }
    } else if month == 4 || month == 6 || month == 9 || month == 11 {
        30
    } else {
        31
    }
}

/// The month is 1 to 12, and the day is within that month.
pub open spec fn valid_month_day(year: int, month: int, day: int) -> bool {
    1 <= month <= 12 && 1 <= day <= days_in_month(year, month)
}

/// The years that a date can always have.
pub open spec fn year_in_range(year: int) -> bool {
    -9999 <= year <= 9999
}

impl Time {
    pub open spec fn wf(self) -> bool {
        self.hour < 24 && self.minute < 60 && self.second < 60
    }

    /// Create a time from the hour, minute, and second.
    pub fn from_hms(hour: u8, minute: u8, second: u8) -> (r: Result<Time, CountError>)
        ensures
            (hour < 24 && minute < 60 && second < 60) <==> r.is_ok(),
            r.is_ok() ==> r == Ok::<Time, CountError>(Time { hour, minute, second }),
            r.is_err() ==> r == Err::<Time, CountError>(CountError::InvalidComponent),
    {
        match checked_hms(hour, minute, second) {
            Ok(()) => Ok(Time { hour, minute, second }),
            Err(_) => Err(CountError::InvalidComponent),
        }
    }
}

impl Date {
    pub open spec fn wf(self) -> bool {
        valid_month_day(self.year as int, self.month as int, self.day as int)
    }

    /// Create a date from the year, the month (1 to 12), and the day of the month.
    ///
    /// Every year from -9999 to 9999 is accepted.
    pub fn from_calendar_date(year: i32, month: u8, day: u8) -> (r: Result<Date, CountError>)
        ensures
            r.is_ok() ==> valid_month_day(year as int, month as int, day as int),
            (year_in_range(year as int) && valid_month_day(year as int, month as int, day as int))
                ==> r.is_ok(),
            r.is_ok() ==> r == Ok::<Date, CountError>(Date { year, month, day }),
            r.is_err() ==> r == Err::<Date, CountError>(CountError::InvalidComponent),
    {
        match checked_calendar_date(year, month, day) {
            Ok(()) => Ok(Date { year, month, day }),
            Err(_) => Err(CountError::InvalidComponent),
        }
    }
}

impl PrimitiveDateTime {
    pub fn new(date: Date, time: Time) -> (r: Self)
        ensures
            r.date == date,
            r.time == time,
    {
        Self { date, time }
    }
}

/// Relies on time::Time::from_hms: it accepts an hour below 24, a minute below 60 and a second
/// below 60, and refuses anything else.
#[verifier::external_body]
fn checked_hms(hour: u8, minute: u8, second: u8) -> (r: Result<(), time::error::ComponentRange>)
    ensures
        r.is_ok() <==> (hour < 24 && minute < 60 && second < 60),
{
    time::Time::from_hms(hour, minute, second).map(|_| ())
}

/// Relies on time::Date::from_calendar_date (with the month converted by time::Month::try_from):
/// what it accepts has a month of 1 to 12 and a day within that month of that year, and every
/// such date with a year from -9999 to 9999 is accepted.
#[verifier::external_body]
fn checked_calendar_date(year: i32, month: u8, day: u8) -> (r: Result<(), time::error::ComponentRange>)
    ensures
        r.is_ok() ==> valid_month_day(year as int, month as int, day as int),
        (year_in_range(year as int) && valid_month_day(year as int, month as int, day as int))
            ==> r.is_ok(),
{
    let month = time::Month::try_from(month)?;
    time::Date::from_calendar_date(year, month, day).map(|_| ())
}

/// The start of the quarter hour that contains a minute.
pub open spec fn quarter_start(minute: int) -> int {
    if minute < 15 {
        0
    } else if minute < 30 {
        15
    } else if minute < 45 {
        30
    } else {
        45
    }
}

/// The time at the start of the quarter hour that contains `t`, with the seconds zeroed.
pub open spec fn binned_time(t: Time) -> Time {
    Time { hour: t.hour, minute: quarter_start(t.minute as int) as u8, second: 0 }
}

/// Put time into four bins per hour.
pub fn time_bin(time: Time) -> (r: Time)
    requires
        time.wf(),
    ensures
        r == binned_time(time),
        r.wf(),
{
    let minute: u8 = if time.minute < 15 {
        0
    } else if time.minute < 30 {
        15
    } else if time.minute < 45 {
        30
    } else {
        45
    };
    Time { hour: time.hour, minute, second: 0 }
}

/// Every binned time falls on one of the four quarter-hour marks, no later than the time it came
/// from and less than 15 minutes before it, with its seconds zeroed.
pub proof fn lemma_time_bin_on_quarter_mark(t: Time)
    requires
        t.wf(),
    ensures
        binned_time(t).wf(),
        binned_time(t).hour == t.hour,
        binned_time(t).minute == 0 || binned_time(t).minute == 15 || binned_time(t).minute == 30
            || binned_time(t).minute == 45,
        binned_time(t).minute <= t.minute,
        t.minute < binned_time(t).minute + 15,
        binned_time(t).second == 0,
{
}

} // verus!
