//! The [Gregorian Calendar](https://en.wikipedia.org/wiki/Gregorian_calendar),
//! extended backwards by its own rules and numbered without a year zero.
//!
//! The years run ..., -2, -1, 1, 2, ...: year 1 follows year -1. Whether a
//! year is a leap year goes by its number as it stands, so that year -4 is a
//! leap year and year -1 is none.
//!
//! [`days`] holds the arithmetic of the calendar over the integers, in which
//! the contracts of [`Year`], [`Month`] and [`Date`] are stated.
pub mod date;
pub mod days;
pub mod errors;
pub mod month;
pub mod year;

pub use date::Date;
pub use errors::DateCreationError;
pub use month::Month;
pub use year::Year;
