//! Dates and times of day, and what the calendar says of them.
//!
//! A [`Moment`] is a naive local date and time, held as two plain numbers.
//! Whatever needs the Gregorian calendar (which day of the month a day is,
//! which month, which ISO week) is asked of `chrono`.

use chrono::{Datelike, Timelike};
use vstd::prelude::*;

verus! {

/// A date and a time of day, without time zone.
#[derive(Debug, Clone, Copy, PartialEq, Eq, Hash)]
pub struct Moment {
    /// Days in the proleptic Gregorian calendar, January 1 of year 1 being
    /// day 1.
    pub day: i32,
    /// Seconds since midnight.
    pub second: u32,
}

impl Moment {
    /// Seconds between midnight before day 0 and this moment.
    pub open spec fn offset(self) -> int {
        self.day as int * 86400 + self.second as int
    }

    /// Seconds between midnight before day 0 and this moment.
    pub fn seconds(&self) -> (r: i64)
        ensures
            r == self.offset(),
    {
        let day: i64 = self.day as i64;
        let second: i64 = self.second as i64;
        day * 86400 + second
    }

    /// Hour of the day, for a time of day below 24 hours.
    pub fn hour(&self) -> (r: u32)
        ensures
            r == self.second / 3600,
    {
        self.second / 3600
    }
}

/// Day of the month of a day, as `chrono` computes it; `None` for a day
/// outside the range of dates that `chrono` represents.
pub uninterp spec fn spec_day_of_month(day: int) -> Option<u32>;

/// Month of a day, as `chrono` computes it; `None` for a day outside the
/// range of dates that `chrono` represents.
pub uninterp spec fn spec_month(day: int) -> Option<u32>;

/// ISO week of a day, as year and week number, as `chrono` computes it;
/// `None` for a day outside the range of dates that `chrono` represents.
pub uninterp spec fn spec_iso_week(day: int) -> Option<(i32, u32)>;

/// The moment that a text such as `20220731T222948` denotes, as `chrono`
/// reads it with the format `%Y%m%dT%H%M%S`; `None` if it denotes none.
pub uninterp spec fn spec_moment_of_text(text: Seq<char>) -> Option<Moment>;

/// Calls `chrono::NaiveDate::from_num_days_from_ce_opt`, then
/// `Datelike::day` on the date. Claims only that the result depends on
/// `day` alone.
#[verifier::external_body]
pub(crate) fn day_of_month(day: i32) -> (r: Option<u32>)
    ensures
        r == spec_day_of_month(day as int),
{
    match chrono::NaiveDate::from_num_days_from_ce_opt(day) {
        Some(date) => Some(date.day()),
        None => None,
    }
}

/// Calls `chrono::NaiveDate::from_num_days_from_ce_opt`, then
/// `Datelike::month` on the date. Claims only that the result depends on
/// `day` alone.
#[verifier::external_body]
pub(crate) fn month(day: i32) -> (r: Option<u32>)
    ensures
        r == spec_month(day as int),
{
    match chrono::NaiveDate::from_num_days_from_ce_opt(day) {
        Some(date) => Some(date.month()),
        None => None,
    }
}

/// Calls `chrono::NaiveDate::from_num_days_from_ce_opt`, then
/// `Datelike::iso_week` on the date, and hands out the year and the number
/// of the week. Claims only that the result depends on `day` alone.
#[verifier::external_body]
pub(crate) fn iso_week(day: i32) -> (r: Option<(i32, u32)>)
    ensures
        r == spec_iso_week(day as int),
{
    match chrono::NaiveDate::from_num_days_from_ce_opt(day) {
        Some(date) => Some((date.iso_week().year(), date.iso_week().week())),
        None => None,
    }
}

/// Calls `chrono::NaiveDateTime::parse_from_str` with the format
/// `%Y%m%dT%H%M%S` and hands out the date as `Datelike::num_days_from_ce`
/// and the time as `Timelike::num_seconds_from_midnight`. Claims only that
/// the result depends on `text` alone.
#[verifier::external_body]
pub(crate) fn moment_of_text(text: &str) -> (r: Option<Moment>)
    ensures
        r == spec_moment_of_text(text@),
{
    match chrono::NaiveDateTime::parse_from_str(text, "%Y%m%dT%H%M%S") {
        Ok(t) => Some(Moment { day: t.num_days_from_ce(), second: t.num_seconds_from_midnight() }),
        Err(_) => None,
    }
}

/// Calls `chrono::Local::now` and hands out the naive local date and time.
/// Nothing is claimed of the result.
#[verifier::external_body]
pub(crate) fn local_now() -> Moment {
    let t = chrono::Local::now().naive_local();
    Moment { day: t.num_days_from_ce(), second: t.num_seconds_from_midnight() }
}

} // verus!
