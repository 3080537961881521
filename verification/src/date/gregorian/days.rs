//! The day arithmetic of the Gregorian calendar over mathematical integers.
//!
//! Years are numbered ..., -2, -1, 1, 2, ...: there is no year zero. A month is
//! its number from 1 to 12. Day 0 is the first of January of year 1.
use vstd::prelude::*;

verus! {

/// Whether `year` has a 29th of February.
pub open spec fn is_leap(year: int) -> bool {
    year % 4 == 0 && (year % 400 == 0 || year % 100 != 0)
}

/// The number of days of `year`.
pub open spec fn year_length(year: int) -> int {
    if is_leap(year) {
        366
    } else {
        365
    }
}

/// The number of days of the month `month`, in a leap year or in another one.
pub open spec fn month_length(month: int, leap: bool) -> int {
    if month == 2 {
        if leap {
            29
        } else {
            28
        }
    } else if month == 4 || month == 6 || month == 9 || month == 11 {
        30
    } else {
        31
    }
}

/// The number of days of a year that lie before the first of `month`: the
/// days of the months before it. For month 13 these are the days of the year.
pub open spec fn days_before_month(month: int, leap: bool) -> int {
    let before = if month <= 1 {
        0int
    } else if month == 2 {
        31
    } else if month == 3 {
        59
    } else if month == 4 {
        90
    } else if month == 5 {
        120
    } else if month == 6 {
        151
    } else if month == 7 {
        181
    } else if month == 8 {
        212
    } else if month == 9 {
        243
    } else if month == 10 {
        273
    } else if month == 11 {
        304
    } else if month == 12 {
        334
    } else {
        365
    };
    if leap && month > 2 {
        before + 1
    } else {
        before
    }
}

/// The place of `year` in the sequence of years, counted from year 1 at 0.
/// Year -1 comes directly before year 1.
pub open spec fn year_ordinal(year: int) -> int {
    if year > 0 {
        year - 1
    } else {
        year
    }
}

/// The year after `year`.
pub open spec fn next_year(year: int) -> int {
    if year == -1 {
        1
    } else {
        year + 1
    }
}

/// The year before `year`.
pub open spec fn previous_year(year: int) -> int {
    if year == 1 {
        -1
    } else {
        year - 1
    }
}

/// The number of leap years among the years 1 to `n`.
pub open spec fn leap_years_through(n: int) -> int {
    n / 4 - n / 100 + n / 400
}

/// The number of leap years from year 1 up to but without `year`. For a year
/// before year 1 it is the number of leap years from `year` up to year -1,
/// negated.
pub open spec fn leap_years_before(year: int) -> int {
    if year > 0 {
        leap_years_through(year - 1)
    } else {
        -leap_years_through(-year)
    }
}

/// The number of leap years from `from` up to but without `to`.
pub open spec fn leap_years_between(from: int, to: int) -> int {
    leap_years_before(to) - leap_years_before(from)
}

/// The number of days from day 0 to the first of January of `year`.
pub open spec fn days_before_year(year: int) -> int {
    365 * year_ordinal(year) + leap_years_before(year)
}

/// Whether year, month and day name a day of the calendar.
pub open spec fn is_date(year: int, month: int, day: int) -> bool {
    &&& year != 0
    &&& 1 <= month <= 12
    &&& 1 <= day <= month_length(month, is_leap(year))
}

/// The number of days of its year that lie before the given day.
pub open spec fn day_of_year(year: int, month: int, day: int) -> int {
    days_before_month(month, is_leap(year)) + day - 1
}

/// The number of days from day 0 to the given day; negative before day 0.
pub open spec fn day_number(year: int, month: int, day: int) -> int {
    days_before_year(year) + day_of_year(year, month, day)
}

/// Before each month lie the days of the month before it and the days that
/// lie before that one; before January lie none.
pub proof fn lemma_days_before_month(month: int, leap: bool)
    requires
        1 <= month <= 12,
    ensures
        days_before_month(1, leap) == 0,
        days_before_month(month + 1, leap) == days_before_month(month, leap) + month_length(
            month,
            leap,
        ),
{
}

/// A year's days are those of its twelve months, and each day of a month
/// lies within its year.
pub proof fn lemma_day_of_year_bounds(year: int, month: int, day: int)
    requires
        is_date(year, month, day),
    ensures
        0 <= day_of_year(year, month, day) < year_length(year),
        days_before_month(13, is_leap(year)) == year_length(year),
{
}

/// A year that four hundred divides is divided by a hundred, and one that a
/// hundred divides is divided by four.
pub proof fn lemma_divisors(year: int)
    ensures
        year % 400 == 0 ==> year % 100 == 0,
        year % 100 == 0 ==> year % 4 == 0,
        is_leap(year) <==> is_leap(-year),
{
    if year % 400 == 0 {
        let k = year / 400;
        assert(year == 100 * (4 * k));
    }
    if year % 100 == 0 {
        let k = year / 100;
        assert(year == 4 * (25 * k));
    }
    if year % 4 == 0 {
        let k = year / 4;
        assert(-year == 4 * (-k));
    }
    if (-year) % 4 == 0 {
        let k = (-year) / 4;
        assert(year == 4 * (-k));
    }
    if year % 100 == 0 {
        let k = year / 100;
        assert(-year == 100 * (-k));
    }
    if (-year) % 100 == 0 {
        let k = (-year) / 100;
        assert(year == 100 * (-k));
    }
    if year % 400 == 0 {
        let k = year / 400;
        assert(-year == 400 * (-k));
    }
    if (-year) % 400 == 0 {
        let k = (-year) / 400;
        assert(year == 400 * (-k));
    }
}

/// The count of leap years grows by one exactly at a leap year.
pub proof fn lemma_leap_years_through(n: int)
    ensures
        leap_years_through(n) == leap_years_through(n - 1) + if is_leap(n) {
            1int
        } else {
            0
        },
{
    lemma_divisors(n);
    assert(n / 4 == (n - 1) / 4 + if n % 4 == 0 { 1int } else { 0 });
    assert(n / 100 == (n - 1) / 100 + if n % 100 == 0 { 1int } else { 0 });
    assert(n / 400 == (n - 1) / 400 + if n % 400 == 0 { 1int } else { 0 });
}

/// From one year to the next the count of days grows by the year's length.
pub proof fn lemma_next_year(year: int)
    requires
        year != 0,
    ensures
        next_year(year) != 0,
        previous_year(next_year(year)) == year,
        year_ordinal(next_year(year)) == year_ordinal(year) + 1,
        leap_years_before(next_year(year)) == leap_years_before(year) + if is_leap(year) {
            1int
        } else {
            0
        },
        days_before_year(next_year(year)) == days_before_year(year) + year_length(year),
{
    if year > 0 {
        lemma_leap_years_through(year);
    } else {
        lemma_leap_years_through(-year);
        lemma_divisors(year);
    }
}

/// From one year back to the one before it the count of days falls by the
/// earlier year's length.
pub proof fn lemma_previous_year(year: int)
    requires
        year != 0,
    ensures
        previous_year(year) != 0,
        next_year(previous_year(year)) == year,
        days_before_year(previous_year(year)) == days_before_year(year) - year_length(
            previous_year(year),
        ),
{
    lemma_next_year(previous_year(year));
}

/// Of the years from year 1 to a year, or from a year to year -1, at most
/// each fourth is a leap year.
pub proof fn lemma_leap_years_before_bounds(year: int)
    requires
        year != 0,
    ensures
        year > 0 ==> 0 <= leap_years_before(year) <= (year - 1) / 4,
        year < 0 ==> -((-year) / 4) <= leap_years_before(year) <= 0,
{
    let n = if year > 0 {
        year - 1
    } else {
        -year
    };
    assert(n / 400 <= n / 100);
    assert(n / 100 <= n / 4);
}

/// From a year to a later one the count of leap years does not fall.
pub proof fn lemma_leap_years_between(from: int, to: int)
    requires
        from != 0,
        to != 0,
        from <= to,
    ensures
        0 <= leap_years_between(from, to),
    decreases year_ordinal(to) - year_ordinal(from),
{
    if from < to {
        lemma_next_year(from);
        lemma_leap_years_between(next_year(from), to);
    }
}

/// A later year begins after every day of an earlier year.
pub proof fn lemma_days_before_year_grows(from: int, to: int)
    requires
        from != 0,
        to != 0,
        from < to,
    ensures
        days_before_year(to) >= days_before_year(from) + year_length(from),
{
    lemma_next_year(from);
    lemma_leap_years_between(next_year(from), to);
}

/// The days from a day of one year to a day of a later year are those that
/// are left of the earlier year from its day on, those of the whole years
/// between the two years, and those of the later year before its day. The
/// whole years have 365 days each and one more for each leap year among them.
pub proof fn lemma_days_across_years(
    year: int,
    month: int,
    day: int,
    later_year: int,
    later_month: int,
    later_day: int,
)
    requires
        is_date(year, month, day),
        is_date(later_year, later_month, later_day),
        year < later_year,
    ensures
        day_number(later_year, later_month, later_day) - day_number(year, month, day) == (
        year_length(year) - day_of_year(year, month, day)) + 365 * (year_ordinal(later_year)
            - year_ordinal(year) - 1) + leap_years_between(next_year(year), later_year)
            + day_of_year(later_year, later_month, later_day),
        1 <= year_length(year) - day_of_year(year, month, day) <= 366,
        0 <= day_of_year(later_year, later_month, later_day) <= 365,
        1 <= year_ordinal(later_year) - year_ordinal(year),
        0 <= leap_years_between(next_year(year), later_year),
        year_ordinal(later_year) - year_ordinal(year) == 1 ==> leap_years_between(
            next_year(year),
            later_year,
        ) == 0,
{
    lemma_day_of_year_bounds(year, month, day);
    lemma_day_of_year_bounds(later_year, later_month, later_day);
    lemma_next_year(year);
    lemma_leap_years_between(next_year(year), later_year);
}

/// Whether the first day comes before the second, by year, then month, then
/// day.
pub open spec fn is_before(
    year: int,
    month: int,
    day: int,
    other_year: int,
    other_month: int,
    other_day: int,
) -> bool {
    year < other_year || (year == other_year && (month < other_month || (month == other_month
        && day < other_day)))
}

/// An earlier day has a smaller number.
pub proof fn lemma_day_number_grows(
    year: int,
    month: int,
    day: int,
    other_year: int,
    other_month: int,
    other_day: int,
)
    requires
        is_date(year, month, day),
        is_date(other_year, other_month, other_day),
        is_before(year, month, day, other_year, other_month, other_day),
    ensures
        day_number(year, month, day) < day_number(other_year, other_month, other_day),
{
    lemma_day_of_year_bounds(year, month, day);
    lemma_day_of_year_bounds(other_year, other_month, other_day);
    if year < other_year {
        lemma_days_before_year_grows(year, other_year);
    }
}

/// Two days with one number are one day.
pub proof fn lemma_day_number_unique(
    year: int,
    month: int,
    day: int,
    other_year: int,
    other_month: int,
    other_day: int,
)
    requires
        is_date(year, month, day),
        is_date(other_year, other_month, other_day),
        day_number(year, month, day) == day_number(other_year, other_month, other_day),
    ensures
        year == other_year,
        month == other_month,
        day == other_day,
{
    if is_before(year, month, day, other_year, other_month, other_day) {
        lemma_day_number_grows(year, month, day, other_year, other_month, other_day);
    }
    if is_before(other_year, other_month, other_day, year, month, day) {
        lemma_day_number_grows(other_year, other_month, other_day, year, month, day);
    }
}

} // verus!
