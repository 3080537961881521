//! The years of the calendar.
use super::days::{is_leap, next_year, previous_year, year_ordinal};
use super::errors::DateCreationError;
use std::cmp::Ordering;
use vstd::prelude::*;

verus! {

/// Representation of a year for the
/// [Gregorian Calendar](https://en.wikipedia.org/wiki/Gregorian_calendar).
///
/// A year is any whole number but zero: year -1 is followed by year 1.
/// For creation from a number that may be zero, use [`Year::try_from`]; for
/// one that is known not to be, [`Year::new`].
#[derive(Debug, Clone, Copy, PartialEq, Eq, Ord, Structural)]
pub struct Year {
    value: i128,
}

impl View for Year {
    type V = int;

    /// The number of the year.
    closed spec fn view(&self) -> int {
        self.value as int
    }
}

impl Year {
    /// Whether this is a year of the calendar: any but a year zero.
    pub open spec fn wf(self) -> bool {
        self@ != 0
    }

    /// The number of a year is one that an `i128` holds.
    pub proof fn lemma_view_range(self)
        ensures
            i128::MIN <= self@ <= i128::MAX,
    {
    }

    /// Years of one number are one year.
    pub proof fn lemma_view_unique(self, other: Year)
        requires
            self@ == other@,
        ensures
            self == other,
    {
    }

    /// Constructor for [`Year`] from a number that is not zero.
    pub fn new(year: i128) -> (made: Self)
        requires
            year != 0,
        ensures
            made.wf(),
            made@ == year,
    {
        Year { value: year }
    }

    /// The number of the year.
    pub fn get(self) -> (value: i128)
        ensures
            value == self@,
    {
        self.value
    }

    /// Returns whether this is a leap year.
    ///
    /// In the [Gregorian Calendar](https://en.wikipedia.org/wiki/Gregorian_calendar),
    /// a leap year happens in all years that are divisible by 4, except by
    /// those that are divisible by 100, except in turn those that are
    /// divisible by 400.
    pub fn is_leap_year(&self) -> (leap: bool)
        ensures
            leap == is_leap(self@),
    {
        let inner = self.value;
        inner % 4 == 0 && ((inner % 400 == 0) || inner % 100 != 0)
    }

    /// The year that follows this one. Year 1 follows year -1.
    pub fn next(self) -> (following: Self)
        requires
            self.wf(),
            self@ < i128::MAX,
        ensures
            following.wf(),
            following@ == next_year(self@),
    {
        match self.value {
            -1 => Year { value: 1 },
            other => Year { value: other + 1 },
        }
    }

    /// The year that this one follows. Year -1 comes before year 1.
    pub fn previous(self) -> (preceding: Self)
        requires
            self.wf(),
            self@ > i128::MIN,
        ensures
            preceding.wf(),
            preceding@ == previous_year(self@),
    {
        match self.value {
            1 => Year { value: -1 },
            other => Year { value: other - 1 },
        }
    }

    /// How many years this year lies after `other`; negative if it lies
    /// before. Since there is no year zero, this is not the difference of the
    /// two numbers when one year is before year 1 and the other is not.
    pub fn difference(self, other: Year) -> (years: i128)
        requires
            self.wf(),
            other.wf(),
            i128::MIN <= year_ordinal(self@) - year_ordinal(other@) <= i128::MAX,
        ensures
            years == year_ordinal(self@) - year_ordinal(other@),
            (self@ > 0) == (other@ > 0) ==> years == self@ - other@,
            self@ > 0 && other@ < 0 ==> years == self@ - other@ - 1,
            self@ < 0 && other@ > 0 ==> years == self@ - other@ + 1,
    {
        let (this, that) = (self.value, other.value);
        // A year zero doesn't exist, so a difference across it is one less.
        if this > 0 && that < 0 {
            (this - 1) - that
        } else if this < 0 && that > 0 {
            this - (that - 1)
        } else {
            this - that
        }
    }
}

impl TryFrom<i128> for Year {
    type Error = DateCreationError;

    /// The year of the given number, which is any but zero.
    fn try_from(year: i128) -> (made: Result<Year, DateCreationError>)
        ensures
            year == 0 ==> made == Err::<Year, DateCreationError>(DateCreationError::ZeroYear),
            year != 0 ==> made.is_ok() && made.unwrap().wf() && made.unwrap()@ == year,
    {
        if year == 0 {
            Err(DateCreationError::ZeroYear)
        } else {
            Ok(Year { value: year })
        }
    }
}

impl vstd::std_specs::convert::TryFromSpecImpl<i128> for Year {
    open spec fn obeys_try_from_spec() -> bool {
        true
    }

    closed spec fn try_from_spec(year: i128) -> Result<Year, DateCreationError> {
        if year == 0 {
            Err(DateCreationError::ZeroYear)
        } else {
            Ok(Year { value: year })
        }
    }
}

impl PartialOrd for Year {
    /// Years are ordered as their numbers are.
    fn partial_cmp(&self, other: &Year) -> (order: Option<Ordering>) {
        if self.value < other.value {
            Some(Ordering::Less)
        } else if self.value > other.value {
            Some(Ordering::Greater)
        } else {
            Some(Ordering::Equal)
        }
    }
}

impl vstd::std_specs::cmp::PartialOrdSpecImpl for Year {
    open spec fn obeys_partial_cmp_spec() -> bool {
        true
    }

    open spec fn partial_cmp_spec(&self, other: &Year) -> Option<Ordering> {
        if self@ < other@ {
            Some(Ordering::Less)
        } else if self@ > other@ {
            Some(Ordering::Greater)
        } else {
            Some(Ordering::Equal)
        }
    }
}

impl std::ops::Sub<Year> for Year {
    type Output = i128;

    /// A subtraction between years is handled as the difference between
    /// them: how many years apart they are.
    fn sub(self, rhs: Year) -> (years: i128) {
        self.difference(rhs)
    }
}

impl vstd::std_specs::ops::SubSpecImpl<Year> for Year {
    open spec fn obeys_sub_spec() -> bool {
        true
    }

    open spec fn sub_req(self, rhs: Year) -> bool {
        &&& self.wf()
        &&& rhs.wf()
        &&& i128::MIN <= year_ordinal(self@) - year_ordinal(rhs@) <= i128::MAX
    }

    open spec fn sub_spec(self, rhs: Year) -> i128 {
        (year_ordinal(self@) - year_ordinal(rhs@)) as i128
    }
}

} // verus!
