use time::date::gregorian::{Date, Month, Year};
use time::event::{Event, EventInformation};
use time::Calendar;

#[test]
fn event_holds_its_date() {
    let when = Date::from_parts(Year::new(1969), Month::July, 20).unwrap();
    let event = Event {
        information: EventInformation {
            when,
            title: String::from("Moon landing"),
            description: String::from("The first people set foot on the Moon."),
        },
    };
    assert_eq!(event.information.when, when);
    assert_eq!(event.information.when.year(), Year::new(1969));
    assert_eq!(event.information.when.month(), Month::July);
    assert_eq!(event.information.when.day(), 20);
    assert_eq!(event.information.title, "Moon landing");
    assert!(event.information.description.ends_with("Moon."));
}
