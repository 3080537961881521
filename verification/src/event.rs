//! Events on a timeline.
use crate::date::gregorian::Date;
use vstd::prelude::*;

verus! {

/// Something that happened.
pub struct Event {
    /// What is known of the event.
    pub information: EventInformation,
}

/// What is known of an event: when it happened and what it was.
pub struct EventInformation {
    /// The date on which the event happened.
    pub when: Date,
    /// The name of the event.
    pub title: String,
    /// What happened.
    pub description: String,
}

} // verus!
