//! Date types, one module for each calendar.
pub mod gregorian;
