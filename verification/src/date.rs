//! Calendar dates, held as day numbers.
//!
//! A [`Date`] is the number of a day in the proleptic Gregorian calendar, with
//! January 1 of year 1 as day 1. Day numbers order dates the way the calendar
//! does, so the rest of the library compares plain integers. The dates are
//! those that `chrono::NaiveDate` holds, and the calendar work is chrono's:
//! which day number a year, month and day have, what today's date is, how a
//! date is printed.

use crate::calendar::civil_day_number;
use crate::calendar::lemma_day_number_in_range;
use crate::calendar::MAX_DAY;
use crate::calendar::MIN_DAY;
use chrono::DateTime;
use chrono::Datelike;
use chrono::NaiveDate;
use chrono::Utc;
use std::time::SystemTime;
use vstd::prelude::*;

verus! {

/// A calendar date without a time of day.
#[derive(Clone, Copy, Debug, PartialEq, Eq, Structural)]
pub struct Date {
    days: i32,
}

/// The text that `chrono` prints (`Display` of `NaiveDate`) for the date with
/// the day number `days`: year, month and day, as in `2024-01-08`. It means
/// something only for day numbers from [`MIN_DAY`] to [`MAX_DAY`].
pub uninterp spec fn day_number_text(days: int) -> Seq<char>;

/// Calls `chrono::NaiveDate::from_ymd_opt` and converts the date it returns
/// to its day number with `chrono::Datelike::num_days_from_ce`.
///
/// Assumed, not proved: chrono has a date for exactly the days of the
/// proleptic Gregorian calendar in the years from -262143 to 262142, and
/// counts their day numbers from January 1 of year 1 as day 1, as
/// [`civil_day_number`] does.
#[verifier::external_body]
fn calendar_day_number(year: i32, month: u32, day: u32) -> (r: Option<i32>)
    ensures
        match r {
            Some(n) => civil_day_number(year as int, month as int, day as int) == Some(n as int),
            None => civil_day_number(year as int, month as int, day as int) is None,
        },
{
    match NaiveDate::from_ymd_opt(year, month, day) {
        Some(date) => Some(date.num_days_from_ce()),
        None => None,
    }
}

/// Reads the system clock (`std::time::SystemTime::now`), has chrono convert
/// the time (`From<SystemTime>` for `DateTime<Utc>`), takes its calendar date
/// with `date_naive`, and converts that date to its day number with
/// `chrono::Datelike::num_days_from_ce`. chrono's conversion takes the times
/// before 1970 as it takes those after.
///
/// Assumed, not proved: the clock holds a time in the years that chrono can
/// hold, from -262143 to 262142, as every system clock does; so the day
/// number lies from [`MIN_DAY`] to [`MAX_DAY`]. Nothing else is claimed: the
/// result depends on the clock.
#[verifier::external_body]
fn clock_day_number() -> (r: i32)
    ensures
        MIN_DAY <= r <= MAX_DAY,
{
    DateTime::<Utc>::from(SystemTime::now()).date_naive().num_days_from_ce()
}

/// Calls `chrono::NaiveDate::from_num_days_from_ce_opt` and prints the date
/// it returns with the `Display` of `NaiveDate` (`to_string`).
///
/// Assumed, not proved: chrono has a date for every day number from
/// [`MIN_DAY`] to [`MAX_DAY`], and the text it prints is a function of the
/// day number.
#[verifier::external_body]
fn format_day_number(days: i32) -> (r: Option<String>)
    ensures
        MIN_DAY <= days <= MAX_DAY ==> r is Some,
        r matches Some(text) ==> text@ == day_number_text(days as int),
{
    match NaiveDate::from_num_days_from_ce_opt(days) {
        Some(date) => Some(date.to_string()),
        None => None,
    }
}

impl View for Date {
    type V = int;

    /// The day number.
    closed spec fn view(&self) -> int {
        self.days as int
    }
}

impl Date {
    #[verifier::type_invariant]
    spec fn in_range(self) -> bool {
        MIN_DAY <= self.days <= MAX_DAY
    }

    /// The date with the given day number, if the calendar reaches that far.
    pub fn from_days(days: i32) -> (r: Option<Date>)
        ensures
            r is Some <==> MIN_DAY <= days <= MAX_DAY,
            r matches Some(date) ==> date@ == days,
    {
        if MIN_DAY <= days && days <= MAX_DAY {
            Some(Date { days })
        } else {
            None
        }
    }

    /// The calendar date `year`-`month`-`day`, if there is such a day in
    /// the years that are held.
    pub fn from_ymd(year: i32, month: u32, day: u32) -> (r: Option<Date>)
        ensures
            match civil_day_number(year as int, month as int, day as int) {
                Some(n) => r matches Some(date) && date@ == n,
                None => r is None,
            },
    {
        match calendar_day_number(year, month, day) {
            Some(n) => {
                proof {
                    lemma_day_number_in_range(year as int, month as int, day as int);
                }
                Date::from_days(n)
            },
            None => None,
        }
    }

    /// Today's date by the system clock, in UTC. Which day that is depends
    /// on the clock alone; whatever the clock says, it is a day of the
    /// calendar, with a day number from [`MIN_DAY`] to [`MAX_DAY`]. The clock
    /// is taken to hold a time within the years of the calendar.
    pub fn today() -> (r: Date)
        ensures
            MIN_DAY <= r@ <= MAX_DAY,
    {
        let n = clock_day_number();
        Date { days: n }
    }

    /// The day number of this date.
    pub fn days(&self) -> (n: i32)
        ensures
            n == self@,
            MIN_DAY <= n <= MAX_DAY,
    {
        proof {
            use_type_invariant(self);
        }
        self.days
    }

    /// The date as text, in the form `2024-01-08`.
    pub fn to_text(&self) -> (r: String)
        ensures
            r@ == day_number_text(self@),
    {
        proof {
            use_type_invariant(self);
        }
        match format_day_number(self.days) {
            Some(text) => text,
            None => unreached(),
        }
    }

    /// Two dates with the same day number are the same date.
    pub proof fn lemma_same_day(self, other: Date)
        ensures
            self@ == other@ <==> self == other,
    {
    }
}

} // verus!
