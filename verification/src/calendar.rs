//! The standard calendar and the contract that every calendar keeps.
use vstd::prelude::*;

verus! {

/// A standard reference calendar that counts the days from a reference date.
///
/// Its purpose is as a "Rosetta Stone" to act as a man-in-the-middle between
/// other [`Calendar`] conversions.
///
/// The date chosen as _day 0_ is January 1st of year 1 in the
/// [Gregorian Calendar](https://en.wikipedia.org/wiki/Gregorian_calendar).
/// This choice was made because the Gregorian Calendar is the most widely
/// used worldwide, and thus making conversions to and from that as cheap as
/// possible makes sense.
#[derive(Debug, Clone, Copy, PartialEq, Eq, Structural)]
pub struct StandardCalendar {
    /// How many days have passed since _day 0_; negative before it.
    pub days: i128,
}

impl StandardCalendar {
    /// Creates a new [`StandardCalendar`] from the given difference since
    /// _day 0_.
    pub fn new(days_from: i128) -> (standard: Self)
        ensures
            standard.days == days_from,
    {
        Self { days: days_from }
    }
}

/// The distance between two counts of days.
pub open spec fn distance(first: int, second: int) -> int {
    if first >= second {
        first - second
    } else {
        second - first
    }
}

/// Whether a count of days is one whose distance from _day 0_ an `i128`
/// holds. The dates of these days convert to the [`StandardCalendar`].
pub open spec fn in_standard_range(day: int) -> bool {
    -i128::MAX <= day <= i128::MAX
}

/// The conversion of dates to and from the [`StandardCalendar`].
///
/// A calendar states which of its values are dates, on which day each date
/// falls, and which date falls on each day. Nothing may get lost on the way
/// from a date to its day and back.
pub trait ConvertCalendar: Sized {
    /// Whether the value is a date of the calendar.
    spec fn is_valid(&self) -> bool;

    /// The number of days from _day 0_ to the date; negative before _day 0_.
    spec fn standard_day(&self) -> int;

    /// The date that falls on the given day.
    spec fn at_standard_day(day: int) -> Self;

    /// The date that falls on the day of a date is that date.
    proof fn lemma_at_standard_day(date: Self)
        requires
            date.is_valid(),
        ensures
            Self::at_standard_day(date.standard_day()) == date,
    ;

    /// Convert from the date in the current calendar to the
    /// [`StandardCalendar`] (days passed since _day 0_).
    fn to_standard(&self) -> (standard: StandardCalendar)
        requires
            self.is_valid(),
            in_standard_range(self.standard_day()),
        ensures
            standard.days == self.standard_day(),
    ;

    /// Convert from a [`StandardCalendar`] to `Self`.
    fn from_standard(standard: StandardCalendar) -> (date: Self)
        ensures
            date == Self::at_standard_day(standard.days as int),
            date.is_valid(),
            date.standard_day() == standard.days,
    ;
}

/// Trait that provides tools for general calendar management.
///
/// This should be implemented by `date` types that adhere to some calendar's
/// rules. The main aspect provided by this trait is conversion between
/// arbitrary [`Calendar`]s.
pub trait Calendar: ConvertCalendar {
    /// How this calendar expresses its months.
    ///
    /// Usually, a [`u8`] is enough to represent all months, but one might
    /// also want an enum to represent that.
    type Month;

    /// How this calendar expresses its days (inside a month).
    ///
    /// Usually, a [`u8`] is enough to represent the amount of dates in a
    /// month.
    type Day;

    /// How this calendar expresses its years.
    ///
    /// Usually, as the year is the biggest unit in a date, you want to have
    /// this be able to be as large as possible, in order to allow for a big
    /// range of representable dates.
    type Year;

    /// The day of the month of the date.
    spec fn spec_day(&self) -> Self::Day;

    /// The month of the date.
    spec fn spec_month(&self) -> Self::Month;

    /// The year of the date.
    spec fn spec_year(&self) -> Self::Year;

    /// Whether the calendar gives `year` an added day.
    spec fn leap_year(year: Self::Year) -> bool;

    /// Which day it is in the month in the date contained by this calendar.
    fn day(&self) -> (day: Self::Day)
        ensures
            day == self.spec_day(),
    ;

    /// Which month it is in the year in the date contained by this calendar.
    fn month(&self) -> (month: Self::Month)
        ensures
            month == self.spec_month(),
    ;

    /// Which year it is in the date contained by this calendar.
    fn year(&self) -> (year: Self::Year)
        ensures
            year == self.spec_year(),
    ;

    /// Converts a date from one calendar to another: to the date of the other
    /// calendar that falls on the same day. No calendar converts into another
    /// directly: the way leads over the [`StandardCalendar`].
    fn convert_to<T: ConvertCalendar>(&self) -> (converted: T)
        requires
            self.is_valid(),
            in_standard_range(self.standard_day()),
        ensures
            converted == T::at_standard_day(self.standard_day()),
            converted.is_valid(),
            converted.standard_day() == self.standard_day(),
    {
        T::from_standard(self.to_standard())
    }

    /// Which date is this [`Calendar`]'s reference date.
    ///
    /// The reference date is the date of this calendar that falls on _day 0_
    /// of the [`StandardCalendar`].
    fn reference_date() -> (date: Self)
        ensures
            date == Self::at_standard_day(0),
            date.is_valid(),
            date.standard_day() == 0,
    ;

    /// Add a given amount of days to the current date. The date becomes the
    /// one that [`from_standard`](ConvertCalendar::from_standard) gives for
    /// the sum of `days` and what
    /// [`to_standard`](ConvertCalendar::to_standard) gives for the date.
    fn add_days(&mut self, days: i128)
        requires
            old(self).is_valid(),
            in_standard_range(old(self).standard_day()),
            in_standard_range(old(self).standard_day() + days),
        ensures
            *final(self) == Self::at_standard_day(old(self).standard_day() + days),
            final(self).is_valid(),
            final(self).standard_day() == old(self).standard_day() + days,
    ;

    /// Return this date as an amount of days passed since the
    /// [`reference_date`](Calendar::reference_date).
    fn as_days(&self) -> (days: i128)
        requires
            self.is_valid(),
            in_standard_range(self.standard_day()),
        ensures
            days == self.standard_day(),
    ;

    /// Returns the amount of days between `first` and `second`, in whichever
    /// order the two are given.
    fn days_between(first: &Self, second: &Self) -> (days: i128)
        requires
            first.is_valid(),
            second.is_valid(),
            distance(first.standard_day(), second.standard_day()) <= i128::MAX,
        ensures
            days == distance(first.standard_day(), second.standard_day()),
    ;

    /// Returns whether the year is a leap year.
    ///
    /// Leap years represent added days to the year, in order to maintain sync
    /// with Earth's rotation.
    fn is_leap_year(year: Self::Year) -> (leap: bool)
        ensures
            leap == Self::leap_year(year),
    ;
}

/// Converting a date to the [`StandardCalendar`] and that back to the date's
/// calendar gives the date itself:
/// [`to_standard`](ConvertCalendar::to_standard) returns the day of the date,
/// and [`from_standard`](ConvertCalendar::from_standard) returns the date at
/// that day.
pub proof fn law_standard_round_trip<C: ConvertCalendar>(date: C)
    requires
        date.is_valid(),
    ensures
        C::at_standard_day(date.standard_day()) == date,
{
    C::lemma_at_standard_day(date);
}

/// Converting a date to its own calendar gives the date itself:
/// [`convert_to`](Calendar::convert_to) returns the date of the calendar asked
/// for at the day of the date.
pub proof fn law_convert_to_own_calendar<C: ConvertCalendar>(date: C)
    requires
        date.is_valid(),
    ensures
        C::at_standard_day(date.standard_day()) == date,
{
    C::lemma_at_standard_day(date);
}

/// Two dates of one calendar that fall on one day are one date.
pub proof fn law_standard_day_unique<C: ConvertCalendar>(first: C, second: C)
    requires
        first.is_valid(),
        second.is_valid(),
        first.standard_day() == second.standard_day(),
    ensures
        first == second,
{
    C::lemma_at_standard_day(first);
    C::lemma_at_standard_day(second);
}

/// No days lie between a date and itself.
pub proof fn law_no_days_between_same_date<C: ConvertCalendar>(date: C)
    ensures
        distance(date.standard_day(), date.standard_day()) == 0,
{
}

/// The days between two dates are as many in either order, and never fewer
/// than none.
pub proof fn law_days_between_symmetric<C: ConvertCalendar>(first: C, second: C)
    ensures
        distance(first.standard_day(), second.standard_day()) == distance(
            second.standard_day(),
            first.standard_day(),
        ),
        distance(first.standard_day(), second.standard_day()) >= 0,
{
}

} // verus!
