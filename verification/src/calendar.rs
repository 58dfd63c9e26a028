//! The proleptic Gregorian calendar, as far as day numbers need it.
//!
//! Day 1 is January 1 of year 1; year 0 comes before year 1, and the leap
//! years are those of the Gregorian rule, before its introduction too.

use vstd::prelude::*;

verus! {

/// The earliest year of which dates are held.
pub const MIN_YEAR: i32 = -262_143;

/// The latest year of which dates are held.
pub const MAX_YEAR: i32 = 262_142;

/// Day number of January 1 of [`MIN_YEAR`], the earliest date that is held.
pub const MIN_DAY: i32 = -95_746_129;

/// Day number of December 31 of [`MAX_YEAR`], the latest date that is held.
pub const MAX_DAY: i32 = 95_745_399;

/// Whether `year` is a leap year: every fourth year, but of the years that
/// end a century only every fourth.
pub open spec fn is_leap_year(year: int) -> bool {
    year % 4 == 0 && (year % 100 != 0 || year % 400 == 0)
}

/// The number of days of `month` in `year`; 0 where there is no such month.
pub open spec fn days_in_month(year: int, month: int) -> int {
    if month == 2 {
        if is_leap_year(year) {
            29
        } else {
            28
        }
    } else if month == 4 || month == 6 || month == 9 || month == 11 {
        30
    } else if 1 <= month <= 12 {
        31
    } else {
        0
    }
}

/// The number of days of `year` that lie before its `month`.
pub open spec fn days_before_month(year: int, month: int) -> int {
    let in_common_year: int = if month <= 1 {
        0
    } else if month == 2 {
        31
    } else if month == 3 {
        59
    } else if month == 4 {
        90
    } else if month == 5 {
        120
    } else if month == 6 {
        151
    } else if month == 7 {
        181
    } else if month == 8 {
        212
    } else if month == 9 {
        243
    } else if month == 10 {
        273
    } else if month == 11 {
        304
    } else {
        334
    };
    if month > 2 && is_leap_year(year) {
        in_common_year + 1
    } else {
        in_common_year
    }
}

/// The number of days from January 1 of year 1 to the end of the year before
/// `year`; negative for the years before year 1.
pub open spec fn days_before_year(year: int) -> int {
    let passed = year - 1;
    365 * passed + passed / 4 - passed / 100 + passed / 400
}

/// Whether there is a day `day` of the month `month` in the year `year`, in
/// a year from [`MIN_YEAR`] to [`MAX_YEAR`].
pub open spec fn is_calendar_day(year: int, month: int, day: int) -> bool {
    &&& MIN_YEAR <= year <= MAX_YEAR
    &&& 1 <= month <= 12
    &&& 1 <= day <= days_in_month(year, month)
}

/// The day number of the calendar date `year`-`month`-`day`: the days of the
/// years before it, of the months before it in its year, and of its month up
/// to it. `None` where there is no such day.
pub open spec fn civil_day_number(year: int, month: int, day: int) -> Option<int> {
    if is_calendar_day(year, month, day) {
        Some(days_before_year(year) + days_before_month(year, month) + day)
    } else {
        None
    }
}

/// Whether the date `y1`-`m1`-`d1` comes before the date `y2`-`m2`-`d2` in
/// the calendar.
pub open spec fn comes_before(y1: int, m1: int, d1: int, y2: int, m2: int, d2: int) -> bool {
    y1 < y2 || (y1 == y2 && (m1 < m2 || (m1 == m2 && d1 < d2)))
}

/// A year has 365 days, and a leap year one more.
pub proof fn lemma_year_length(year: int)
    ensures
        days_before_year(year + 1) - days_before_year(year) == if is_leap_year(year) {
            366int
        } else {
            365int
        },
{
}

/// A later year begins at least 365 days later for each year between.
pub proof fn lemma_years_ascend(earlier: int, later: int)
    requires
        earlier <= later,
    ensures
        days_before_year(earlier) + 365 * (later - earlier) <= days_before_year(later),
    decreases later - earlier,
{
    if earlier < later {
        lemma_years_ascend(earlier, later - 1);
        lemma_year_length(later - 1);
    }
}

/// A day of the calendar is one of the days of its year: the days before
/// its month and its day in the month make at least 1, and no more than the
/// year has days.
pub proof fn lemma_day_of_year(year: int, month: int, day: int)
    requires
        1 <= month <= 12,
        1 <= day <= days_in_month(year, month),
    ensures
        1 <= days_before_month(year, month) + day <= if is_leap_year(year) {
            366int
        } else {
            365int
        },
{
}

/// Every day of the calendar has a day number from [`MIN_DAY`] to
/// [`MAX_DAY`], and the two ends are reached.
pub proof fn lemma_day_number_in_range(year: int, month: int, day: int)
    requires
        is_calendar_day(year, month, day),
    ensures
        MIN_DAY <= civil_day_number(year, month, day).unwrap() <= MAX_DAY,
        civil_day_number(MIN_YEAR as int, 1, 1) == Some(MIN_DAY as int),
        civil_day_number(MAX_YEAR as int, 12, 31) == Some(MAX_DAY as int),
{
    lemma_day_of_year(year, month, day);
    lemma_years_ascend(MIN_YEAR as int, year);
    if year < MAX_YEAR {
        lemma_years_ascend(year + 1, MAX_YEAR as int);
        lemma_year_length(year);
    }
}

/// Day numbers order the days as the calendar does: of two days of the
/// calendar, the one that comes first has the smaller number.
pub proof fn lemma_day_numbers_ascend(y1: int, m1: int, d1: int, y2: int, m2: int, d2: int)
    requires
        is_calendar_day(y1, m1, d1),
        is_calendar_day(y2, m2, d2),
    ensures
        comes_before(y1, m1, d1, y2, m2, d2) <==> civil_day_number(y1, m1, d1).unwrap()
            < civil_day_number(y2, m2, d2).unwrap(),
        (y1 == y2 && m1 == m2 && d1 == d2) <==> civil_day_number(y1, m1, d1)
            == civil_day_number(y2, m2, d2),
{
    lemma_day_of_year(y1, m1, d1);
    lemma_day_of_year(y2, m2, d2);
    if y1 < y2 {
        lemma_year_length(y1);
        lemma_years_ascend(y1 + 1, y2);
    } else if y2 < y1 {
        lemma_year_length(y2);
        lemma_years_ascend(y2 + 1, y1);
    }
}

} // verus!
