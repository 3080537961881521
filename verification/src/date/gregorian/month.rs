//! The months of the year.
use super::days::month_length;
use super::errors::DateCreationError;
use std::cmp::Ordering;
use vstd::prelude::*;

verus! {

/// The twelve months, in their order in the year.
#[derive(Debug, Clone, Copy, PartialEq, Eq, Ord, Structural)]
pub enum Month {
    January,
    February,
    March,
    April,
    May,
    June,
    July,
    August,
    September,
    October,
    November,
    December,
}

/// How many days each month has in a year that is not a leap year, from
/// January at index 0.
pub const REG_DAYS_IN_MONTH: [u8; 12] = [31, 28, 31, 30, 31, 30, 31, 31, 30, 31, 30, 31];

/// How many days each month has in a leap year, from January at index 0.
pub const LEAP_DAYS_IN_MONTH: [u8; 12] = [31, 29, 31, 30, 31, 30, 31, 31, 30, 31, 30, 31];

impl View for Month {
    type V = int;

    /// The number of the month, from 1 for January to 12 for December.
    open spec fn view(&self) -> int {
        match self {
            Month::January => 1,
            Month::February => 2,
            Month::March => 3,
            Month::April => 4,
            Month::May => 5,
            Month::June => 6,
            Month::July => 7,
            Month::August => 8,
            Month::September => 9,
            Month::October => 10,
            Month::November => 11,
            Month::December => 12,
        }
    }
}

impl Month {
    /// The number of the month, from 1 for January to 12 for December.
    pub fn code(self) -> (code: u8)
        ensures
            code == self@,
            1 <= code <= 12,
    {
        match self {
            Month::January => 1,
            Month::February => 2,
            Month::March => 3,
            Month::April => 4,
            Month::May => 5,
            Month::June => 6,
            Month::July => 7,
            Month::August => 8,
            Month::September => 9,
            Month::October => 10,
            Month::November => 11,
            Month::December => 12,
        }
    }

    /// How many days the month has, in a leap year or in another one.
    pub fn days(self, leap: bool) -> (days: u8)
        ensures
            days == month_length(self@, leap),
            28 <= days <= 31,
    {
        let index: usize = (self.code() - 1) as usize;
        if leap {
            LEAP_DAYS_IN_MONTH[index]
        } else {
            REG_DAYS_IN_MONTH[index]
        }
    }
}

impl TryFrom<u8> for Month {
    type Error = DateCreationError;

    /// The month of the given number, which is from 1 to 12.
    fn try_from(value: u8) -> (made: Result<Month, DateCreationError>)
        ensures
            1 <= value <= 12 ==> made.is_ok() && made.unwrap()@ == value,
            !(1 <= value <= 12) ==> made == Err::<Month, DateCreationError>(
                DateCreationError::InvalidMonth(value),
            ),
    {
        Ok(
            match value {
                1 => Month::January,
                2 => Month::February,
                3 => Month::March,
                4 => Month::April,
                5 => Month::May,
                6 => Month::June,
                7 => Month::July,
                8 => Month::August,
                9 => Month::September,
                10 => Month::October,
                11 => Month::November,
                12 => Month::December,
                other => return Err(DateCreationError::InvalidMonth(other)),
            },
        )
    }
}

impl vstd::std_specs::convert::TryFromSpecImpl<u8> for Month {
    open spec fn obeys_try_from_spec() -> bool {
        true
    }

    open spec fn try_from_spec(value: u8) -> Result<Month, DateCreationError> {
        match value {
            1 => Ok(Month::January),
            2 => Ok(Month::February),
            3 => Ok(Month::March),
            4 => Ok(Month::April),
            5 => Ok(Month::May),
            6 => Ok(Month::June),
            7 => Ok(Month::July),
            8 => Ok(Month::August),
            9 => Ok(Month::September),
            10 => Ok(Month::October),
            11 => Ok(Month::November),
            12 => Ok(Month::December),
            other => Err(DateCreationError::InvalidMonth(other)),
        }
    }
}

impl PartialOrd for Month {
    /// Months are ordered as they come in the year.
    fn partial_cmp(&self, other: &Month) -> (order: Option<Ordering>) {
        let (this, that) = (self.code(), other.code());
        if this < that {
            Some(Ordering::Less)
        } else if this > that {
            Some(Ordering::Greater)
        } else {
            Some(Ordering::Equal)
        }
    }
}

impl vstd::std_specs::cmp::PartialOrdSpecImpl for Month {
    open spec fn obeys_partial_cmp_spec() -> bool {
        true
    }

    open spec fn partial_cmp_spec(&self, other: &Month) -> Option<Ordering> {
        if self@ < other@ {
            Some(Ordering::Less)
        } else if self@ > other@ {
            Some(Ordering::Greater)
        } else {
            Some(Ordering::Equal)
        }
    }
}

} // verus!
