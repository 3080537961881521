//! Calendar dates and the conversion between calendar systems.
//!
//! Every calendar converts to and from one shared count of days, the
//! [`StandardCalendar`], so that any two calendars convert into each other
//! through it. The Gregorian calendar is the one calendar implemented here.
//! [`event`] holds the record of an event on a timeline, with its date.
pub mod calendar;
pub mod date;
pub mod event;

pub use calendar::Calendar;
pub use calendar::StandardCalendar;
pub use date::gregorian::Date as GregorianDate;
