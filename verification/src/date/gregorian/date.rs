//! The dates of the calendar.
use super::days::{
    day_number, day_of_year, days_before_month, days_before_year, is_before, is_date, is_leap,
    leap_years_between, lemma_day_number_grows, lemma_day_number_unique,
    lemma_days_across_years, lemma_days_before_month, lemma_leap_years_before_bounds,
    lemma_leap_years_between, lemma_next_year, lemma_previous_year, month_length, next_year,
    year_length, year_ordinal,
};
use super::errors::DateCreationError;
use super::month::{Month, LEAP_DAYS_IN_MONTH, REG_DAYS_IN_MONTH};
use super::year::Year;
use crate::calendar::{distance, Calendar, ConvertCalendar, StandardCalendar};
use std::cmp::Ordering;
use vstd::prelude::*;

verus! {

/// A date in the [Gregorian Calendar](https://en.wikipedia.org/wiki/Gregorian_calendar).
///
/// A date is a year, a month of that year and a day of that month. It is made
/// by [`Date::from_parts`], which takes no day that the month does not have.
#[derive(Debug, Clone, Copy, PartialEq, Eq, Ord, Structural)]
pub struct Date {
    year: Year,
    month: Month,
    day: u8,
}

impl Date {
    /// The year of the date.
    pub closed spec fn spec_year(&self) -> Year {
        self.year
    }

    /// The month of the date.
    pub closed spec fn spec_month(&self) -> Month {
        self.month
    }

    /// The day of the month of the date.
    pub closed spec fn spec_day(&self) -> u8 {
        self.day
    }

    /// Whether this date comes before `other`: by year, then by month, then
    /// by day.
    pub open spec fn precedes(self, other: Date) -> bool {
        is_before(
            self.spec_year()@,
            self.spec_month()@,
            self.spec_day() as int,
            other.spec_year()@,
            other.spec_month()@,
            other.spec_day() as int,
        )
    }

    /// The leap days that [`Date::leap_days_between`] counts for two dates,
    /// in whichever order the two are given: one for each leap year strictly
    /// between the two years, one if the earlier date lies in January or
    /// February of a leap year, and one if the later date lies after February
    /// of a leap year.
    pub open spec fn leap_days(first: Date, second: Date) -> int {
        let (earlier, later) = if second.precedes(first) {
            (second, first)
        } else {
            (first, second)
        };
        let between = if earlier.spec_year()@ < later.spec_year()@ {
            leap_years_between(next_year(earlier.spec_year()@), later.spec_year()@)
        } else {
            0
        };
        let at_start = if earlier.spec_month()@ <= 2 && is_leap(earlier.spec_year()@) {
            1int
        } else {
            0
        };
        let at_end = if later.spec_month()@ > 2 && is_leap(later.spec_year()@) {
            1int
        } else {
            0
        };
        between + at_start + at_end
    }

    /// Creates a date in the Gregorian Calendar from the day, month and year.
    ///
    /// The day must be one that the month has in that year: February has 29
    /// days in a leap year and 28 in any other.
    pub fn from_parts(year: Year, month: Month, day: u8) -> (made: Result<
        Self,
        DateCreationError,
    >)
        requires
            year.wf(),
        ensures
            1 <= day <= month_length(month@, is_leap(year@)) ==> {
                &&& made.is_ok()
                &&& made.unwrap().is_valid()
                &&& made.unwrap().spec_year() == year
                &&& made.unwrap().spec_month() == month
                &&& made.unwrap().spec_day() == day
            },
            !(1 <= day <= month_length(month@, is_leap(year@))) ==> made == Err::<
                Self,
                DateCreationError,
            >(DateCreationError::InvalidDay(day)),
    {
        let days_in_month = if Self::is_leap_year(year) {
            LEAP_DAYS_IN_MONTH
        } else {
            REG_DAYS_IN_MONTH
        };

        // Subtract one because the list is 0-indexed.
        let index: usize = (month.code() - 1) as usize;
        if day < 1 || day > days_in_month[index] {
            return Err(DateCreationError::InvalidDay(day));
        }
        Ok(Self { year, day, month })
    }

    /// The first day of the given year.
    pub fn from_year(year: Year) -> (made: Self)
        requires
            year.wf(),
        ensures
            made.is_valid(),
            made.spec_year() == year,
            made.spec_month() == Month::January,
            made.spec_day() == 1,
    {
        Self { year, month: Month::January, day: 1 }
    }

    /// Counts the leap days between two dates of different years, in
    /// whichever order the two are given: what the days between them hold
    /// beyond the days of their own years and 365 for each year between.
    ///
    /// The time this takes grows with the number of years between the two.
    pub fn leap_days_between(first: &Self, second: &Self) -> (leap_days: i128)
        requires
            first.is_valid(),
            second.is_valid(),
        ensures
            leap_days == Self::leap_days(*first, *second),
            0 <= leap_days,
    {
        let (first, second) = if *first > *second {
            (second, first)
        } else {
            (first, second)
        };
        proof {
            first.year.lemma_view_range();
            second.year.lemma_view_range();
        }

        // Doesn't include either `first` or `second`
        let mut leap_days: i128 = 0;
        if first.year < second.year {
            let mut year = first.year.next();
            while year < second.year
                invariant
                    year.wf(),
                    first.year.wf(),
                    second.year.wf(),
                    i128::MIN <= first.year@,
                    year@ <= second.year@ <= i128::MAX,
                    next_year(first.year@) <= year@,
                    leap_days == leap_years_between(next_year(first.year@), year@),
                decreases second.year@ - year@,
            {
                proof {
                    lemma_next_year(first.year@);
                    lemma_next_year(year@);
                    lemma_leap_years_between(next_year(first.year@), next_year(year@));
                    lemma_leap_years_before_bounds(next_year(first.year@));
                    lemma_leap_years_before_bounds(year@);
                }
                if year.is_leap_year() {
                    leap_days = leap_days + 1;
                }
                year = year.next();
            }
            proof {
                lemma_leap_years_between(next_year(first.year@), second.year@);
                lemma_leap_years_before_bounds(next_year(first.year@));
                lemma_leap_years_before_bounds(second.year@);
            }
        }
        if first.month <= Month::February && Self::is_leap_year(first.year) {
            leap_days = leap_days + 1;
        }
        if second.month > Month::February && Self::is_leap_year(second.year) {
            leap_days = leap_days + 1;
        }
        leap_days
    }

    /// How many days lie between `first` and `second`, which is a date of the
    /// same year and not an earlier one: the days of the months from the
    /// month of `first` up to but without that of `second`, and the
    /// difference of the two days of the month.
    fn days_within_year(first: &Self, second: &Self) -> (days: i128)
        requires
            first.is_valid(),
            second.is_valid(),
            first.spec_year() == second.spec_year(),
            !second.precedes(*first),
        ensures
            days == second.standard_day() - first.standard_day(),
    {
        let leap = Self::is_leap_year(first.year);
        let from: usize = (first.month.code() - 1) as usize;
        let to: usize = (second.month.code() - 1) as usize;
        days_in_months(leap, from, to) as i128 + second.day as i128 - first.day as i128
    }

    /// How many days of its year are left from the date on, the date's own
    /// day among them.
    fn days_left_in_year(&self) -> (days: u16)
        requires
            self.is_valid(),
        ensures
            days == year_length(self.spec_year()@) - day_of_year(
                self.spec_year()@,
                self.spec_month()@,
                self.spec_day() as int,
            ),
    {
        let leap = Self::is_leap_year(self.year);
        proof {
            lemma_days_before_month(self.month@, leap);
        }
        // The months after the date's own, and what is left of its own.
        days_in_months(leap, self.month.code() as usize, 12) + self.month.days(leap) as u16
            - self.day as u16 + 1
    }

    /// How many days of its year lie before the date.
    fn days_into_year(&self) -> (days: u16)
        requires
            self.is_valid(),
        ensures
            days == day_of_year(self.spec_year()@, self.spec_month()@, self.spec_day() as int),
    {
        let leap = Self::is_leap_year(self.year);
        days_in_months(leap, 0, (self.month.code() - 1) as usize) + self.day as u16 - 1
    }

    /// How many days the whole years have that lie between the year `first`
    /// and the later year `second`: 365 each, and one more for each leap year
    /// among them.
    fn days_of_years_between(first: Year, second: Year) -> (days: i128)
        requires
            first.wf(),
            second.wf(),
            first@ < second@,
            365 * (year_ordinal(second@) - year_ordinal(first@) - 1) + leap_years_between(
                next_year(first@),
                second@,
            ) <= i128::MAX,
        ensures
            days == 365 * (year_ordinal(second@) - year_ordinal(first@) - 1) + leap_years_between(
                next_year(first@),
                second@,
            ),
    {
        proof {
            first.lemma_view_range();
            second.lemma_view_range();
            lemma_next_year(first@);
            lemma_leap_years_between(next_year(first@), second@);
        }
        let years = second - first;
        if years > 1 {
            let start = Date::from_year(first.next());
            let end = Date::from_year(second);
            let leap_days = Self::leap_days_between(&start, &end);
            proof {
                Date::lemma_leap_days_of_years(start, end);
            }
            (years - 1) * 365 + leap_days
        } else {
            0
        }
    }

    /// From the first day of a year to the first day of a later year, the
    /// leap days are those of the leap years from the one up to but without
    /// the other.
    proof fn lemma_leap_days_of_years(start: Date, end: Date)
        requires
            start.is_valid(),
            end.is_valid(),
            start.month == Month::January,
            end.month == Month::January,
            start.day == 1,
            end.day == 1,
            start.year@ < end.year@,
        ensures
            Self::leap_days(start, end) == leap_years_between(start.year@, end.year@),
    {
        // The first year is counted with those that follow it.
        lemma_next_year(start.year@);
        assert(start.precedes(end));
        assert(!end.precedes(start));
    }

    /// Dates come in the order of their days: an earlier date falls on an
    /// earlier day, and dates that fall on one day are neither before nor
    /// after each other.
    pub proof fn law_order_is_day_order(first: Date, second: Date)
        requires
            first.is_valid(),
            second.is_valid(),
        ensures
            first.precedes(second) <==> first.standard_day() < second.standard_day(),
            second.precedes(first) <==> second.standard_day() < first.standard_day(),
    {
        if first.precedes(second) {
            lemma_day_number_grows(
                first.year@,
                first.month@,
                first.day as int,
                second.year@,
                second.month@,
                second.day as int,
            );
        }
        if second.precedes(first) {
            lemma_day_number_grows(
                second.year@,
                second.month@,
                second.day as int,
                first.year@,
                first.month@,
                first.day as int,
            );
        }
    }
}

/// The days of the months from index `from` up to but without index `to`,
/// with January at index 0.
fn days_in_months(leap: bool, from: usize, to: usize) -> (days: u16)
    requires
        from <= to <= 12,
    ensures
        days == days_before_month(to + 1, leap) - days_before_month(from + 1, leap),
{
    let days_in_month = if leap {
        LEAP_DAYS_IN_MONTH
    } else {
        REG_DAYS_IN_MONTH
    };
    let mut days: u16 = 0;
    let mut index: usize = from;
    while index < to
        invariant
            from <= index <= to <= 12,
            days == days_before_month(index + 1, leap) - days_before_month(from + 1, leap),
            days_in_month == if leap {
                LEAP_DAYS_IN_MONTH
            } else {
                REG_DAYS_IN_MONTH
            },
        decreases to - index,
    {
        proof {
            lemma_days_before_month(index + 1, leap);
        }
        days = days + days_in_month[index] as u16;
        index = index + 1;
    }
    days
}

/// The number of days of a year.
fn days_in_year(year: Year) -> (days: i128)
    ensures
        days == year_length(year@),
{
    if year.is_leap_year() {
        366
    } else {
        365
    }
}

impl ConvertCalendar for Date {
    /// A date is valid if its year is not zero and its month has its day in
    /// that year.
    open spec fn is_valid(&self) -> bool {
        is_date(self.spec_year()@, self.spec_month()@, self.spec_day() as int)
    }

    /// The number of the date's day, counted from the first of January of
    /// year 1.
    open spec fn standard_day(&self) -> int {
        day_number(self.spec_year()@, self.spec_month()@, self.spec_day() as int)
    }

    /// The valid date whose day has the given number.
    open spec fn at_standard_day(day: int) -> Date {
        choose|date: Date| date.is_valid() && date.standard_day() == day
    }

    proof fn lemma_at_standard_day(date: Self) {
        let found = Self::at_standard_day(date.standard_day());
        lemma_day_number_unique(
            found.spec_year()@,
            found.spec_month()@,
            found.spec_day() as int,
            date.spec_year()@,
            date.spec_month()@,
            date.spec_day() as int,
        );
        found.year.lemma_view_unique(date.year);
    }

    /// The days between the reference date and the date, counted as negative
    /// for a date before the reference date.
    fn to_standard(&self) -> (standard: StandardCalendar) {
        // The standard calendar has day 0 set as the Gregorian calendar's 1/1/1.
        let reference = Date::reference_date();
        let between = Date::days_between(&reference, self);
        proof {
            Date::law_order_is_day_order(reference, *self);
        }
        let diff = if reference < *self {
            between
        } else {
            -between
        };
        StandardCalendar::new(diff)
    }

    /// Walks from the reference date year by year, forwards or backwards,
    /// until the days that are left lie within one year, and then month by
    /// month through that year.
    ///
    /// The time this takes grows with the number of years walked.
    fn from_standard(standard: StandardCalendar) -> (date: Self) {
        let mut year = Year::new(1);
        let mut rest = standard.days;
        if rest >= 0 {
            // Take whole years off the days, forwards from year 1.
            while rest >= days_in_year(year)
                invariant
                    year.wf(),
                    year@ >= 1,
                    0 <= rest,
                    days_before_year(year@) + rest == standard.days,
                decreases rest,
            {
                proof {
                    lemma_next_year(year@);
                }
                rest = rest - days_in_year(year);
                year = year.next();
            }
        } else {
            // Put whole years onto the days, backwards from year 1.
            while rest < 0
                invariant
                    year.wf(),
                    year@ <= 1,
                    rest < year_length(year@),
                    days_before_year(year@) + rest == standard.days,
                decreases (if rest < 0 { 0 - rest } else { 0 }),
            {
                proof {
                    lemma_previous_year(year@);
                }
                year = year.previous();
                rest = rest + days_in_year(year);
            }
        }
        // What is left are the days of the year that lie before the date.
        let leap = year.is_leap_year();
        let days_in_month = if leap {
            LEAP_DAYS_IN_MONTH
        } else {
            REG_DAYS_IN_MONTH
        };
        let mut month: u8 = 1;
        while rest >= days_in_month[(month - 1) as usize] as i128
            invariant
                1 <= month <= 12,
                0 <= rest,
                leap == is_leap(year@),
                days_in_month == if leap {
                    LEAP_DAYS_IN_MONTH
                } else {
                    REG_DAYS_IN_MONTH
                },
                days_before_month(month as int, leap) + rest < year_length(year@),
                days_before_year(year@) + days_before_month(month as int, leap) + rest
                    == standard.days,
            decreases 12 - month,
        {
            proof {
                lemma_days_before_month(month as int, leap);
            }
            rest = rest - days_in_month[(month - 1) as usize] as i128;
            month = month + 1;
        }
        let month = Month::try_from(month).unwrap();
        let date = Date::from_parts(year, month, (rest + 1) as u8).unwrap();
        proof {
            Self::lemma_at_standard_day(date);
        }
        date
    }
}

impl Calendar for Date {
    type Day = u8;

    type Month = Month;

    type Year = Year;

    open spec fn spec_day(&self) -> u8 {
        Date::spec_day(self)
    }

    open spec fn spec_month(&self) -> Month {
        Date::spec_month(self)
    }

    open spec fn spec_year(&self) -> Year {
        Date::spec_year(self)
    }

    open spec fn leap_year(year: Year) -> bool {
        is_leap(year@)
    }

    fn day(&self) -> (day: u8) {
        self.day
    }

    fn month(&self) -> (month: Month) {
        self.month
    }

    fn year(&self) -> (year: Year) {
        self.year
    }

    /// The first of January of year 1.
    fn reference_date() -> (date: Self)
        ensures
            date.spec_year()@ == 1,
            date.spec_month() == Month::January,
            date.spec_day() == 1,
    {
        let date = Self { year: Year::new(1), month: Month::January, day: 1 };
        proof {
            Self::lemma_at_standard_day(date);
        }
        date
    }

    fn add_days(&mut self, days: i128) {
        let standard = self.to_standard();
        *self = Self::from_standard(StandardCalendar::new(standard.days + days));
    }

    fn as_days(&self) -> (days: i128) {
        self.to_standard().days
    }

    /// Returns the amount of days between `first` and `second`.
    ///
    /// Within one year these are the days of the months from the earlier
    /// date's month up to the later date's, and the difference of the two
    /// days of the month. Across years they are the days that are left of the
    /// earlier date's year, the days of the whole years between the two, and
    /// the days of the later date's year that lie before the later date.
    ///
    /// The time this takes grows with the number of years between the two.
    fn days_between(first: &Self, second: &Self) -> (days: i128) {
        let ghost apart = distance(first.standard_day(), second.standard_day());
        let (first, second) = if *first > *second {
            (second, first)
        } else {
            (first, second)
        };
        proof {
            Date::law_order_is_day_order(*first, *second);
            assert(apart == second.standard_day() - first.standard_day());
        }
        // If they're in the same year, we just calculate the days between.
        if first.year == second.year {
            return Self::days_within_year(first, second);
        }
        proof {
            if first.year@ == second.year@ {
                first.year.lemma_view_unique(second.year);
            }
            lemma_days_across_years(
                first.year@,
                first.month@,
                first.day as int,
                second.year@,
                second.month@,
                second.day as int,
            );
        }
        // How many days from Jan 1st we are on the second year.
        let days_last_year = second.days_into_year();
        // How many days until Jan 1st of the year after first.
        let days_first_year = first.days_left_in_year();
        let days_other_years = Self::days_of_years_between(first.year, second.year);
        days_other_years + days_first_year as i128 + days_last_year as i128
    }

    /// Returns whether the year is a leap year.
    ///
    /// For more information on how leap years are checked, read
    /// [`Year::is_leap_year`].
    fn is_leap_year(year: Year) -> (leap: bool) {
        year.is_leap_year()
    }
}

impl PartialOrd for Date {
    /// Dates are ordered by year, then by month, then by day.
    fn partial_cmp(&self, other: &Date) -> (order: Option<Ordering>) {
        match self.year.partial_cmp(&other.year) {
            Some(Ordering::Equal) => {},
            order => return order,
        }
        match self.month.partial_cmp(&other.month) {
            Some(Ordering::Equal) => {},
            order => return order,
        }
        if self.day < other.day {
            Some(Ordering::Less)
        } else if self.day > other.day {
            Some(Ordering::Greater)
        } else {
            Some(Ordering::Equal)
        }
    }
}

impl vstd::std_specs::cmp::PartialOrdSpecImpl for Date {
    open spec fn obeys_partial_cmp_spec() -> bool {
        true
    }

    open spec fn partial_cmp_spec(&self, other: &Date) -> Option<Ordering> {
        if self.precedes(*other) {
            Some(Ordering::Less)
        } else if other.precedes(*self) {
            Some(Ordering::Greater)
        } else {
            Some(Ordering::Equal)
        }
    }
}

} // verus!
