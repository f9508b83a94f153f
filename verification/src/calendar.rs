//! Calendar dates, as far as the wire message needs them.

use chrono::{NaiveDate, NaiveTime};
use vstd::prelude::*;

verus! {

/// The seconds from the start of 1970 to midnight, universal time, at the
/// start of the given day of the proleptic Gregorian calendar; `None` where
/// the calendar has no such day or the year lies outside the calendar's span.
pub uninterp spec fn midnight_timestamp(year: i32, month: u32, day: u32) -> Option<i64>;

/// Builds the date with chrono's `NaiveDate::from_ymd_opt` and reads the
/// timestamp of its midnight (`and_time` with `NaiveTime::MIN`, `and_utc`,
/// `timestamp`). The contract names the outcome after the three numbers.
#[verifier::external_body]
fn midnight_of_day(year: i32, month: u32, day: u32) -> (seconds: Option<i64>)
    ensures
        seconds == midnight_timestamp(year, month, day),
{
    match NaiveDate::from_ymd_opt(year, month, day) {
        Some(date) => Some(date.and_time(NaiveTime::MIN).and_utc().timestamp()),
        None => None,
    }
}

/// A day that exists in the calendar.
#[derive(Clone, Copy, Debug, PartialEq, Eq)]
pub struct CalendarDate {
    year: i32,
    month: u32,
    day: u32,
}

impl CalendarDate {
    /// The year of the date.
    pub closed spec fn year(&self) -> i32 {
        self.year
    }

    /// The month of the date, counted from 1.
    pub closed spec fn month(&self) -> u32 {
        self.month
    }

    /// The day of the month, counted from 1.
    pub closed spec fn day(&self) -> u32 {
        self.day
    }

    /// The timestamp of the date's midnight.
    pub open spec fn midnight(&self) -> i64 {
        midnight_timestamp(self.year(), self.month(), self.day()).unwrap()
    }

    #[verifier::type_invariant]
    spec fn in_calendar(&self) -> bool {
        midnight_timestamp(self.year, self.month, self.day) is Some
    }

    /// The date with the given year, month and day, if the calendar has it.
    pub fn from_ymd(year: i32, month: u32, day: u32) -> (date: Option<CalendarDate>)
        ensures
            date is Some == midnight_timestamp(year, month, day) is Some,
            date matches Some(d) ==> d.year() == year && d.month() == month && d.day() == day,
    {
        match midnight_of_day(year, month, day) {
            Some(_) => Some(CalendarDate { year, month, day }),
            None => None,
        }
    }

    /// The year, the month and the day of the date.
    pub fn ymd(&self) -> (parts: (i32, u32, u32))
        ensures
            parts == (self.year(), self.month(), self.day()),
    {
        (self.year, self.month, self.day)
    }

    /// The seconds from the start of 1970 to the date's midnight.
    pub fn midnight_seconds(&self) -> (seconds: i64)
        ensures
            seconds == self.midnight(),
            midnight_timestamp(self.year(), self.month(), self.day()) == Some(seconds),
    {
        proof {
            use_type_invariant(self);
        }
        match midnight_of_day(self.year, self.month, self.day) {
            Some(seconds) => seconds,
            None => vstd::pervasive::unreached(),
        }
    }
}

} // verus!
