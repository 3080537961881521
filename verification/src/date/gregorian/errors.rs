//! Why a year, a month or a date could not be made.
use vstd::prelude::*;

verus! {

/// The ways in which the parts of a date are rejected.
#[derive(Debug, Clone, Copy, PartialEq, Eq, Structural)]
pub enum DateCreationError {
    /// The year was zero: the years go from -1 straight to 1.
    ZeroYear,
    /// The number is not that of a month, which is from 1 to 12.
    InvalidMonth(u8),
    /// The month has no such day in the given year.
    InvalidDay(u8),
}

} // verus!
