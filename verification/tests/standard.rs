use time::date::gregorian::{Date, Month, Year};
use time::{Calendar, GregorianDate, StandardCalendar};

#[test]
fn standard_calendar_holds_its_days() {
    assert_eq!(StandardCalendar::new(0).days, 0);
    assert_eq!(StandardCalendar::new(-1).days, -1);
    assert_eq!(StandardCalendar::new(i128::MAX).days, i128::MAX);
    assert_eq!(StandardCalendar::new(42), StandardCalendar { days: 42 });
    assert_ne!(StandardCalendar::new(42), StandardCalendar::new(43));
}

#[test]
fn gregorian_date_by_its_full_name() {
    let day: GregorianDate = Date::from_parts(Year::new(2008), Month::April, 22).unwrap();
    assert_eq!(
        day,
        GregorianDate::from_parts(Year::new(2008), Month::April, 22).unwrap()
    );
    assert_eq!(GregorianDate::reference_date(), Date::reference_date());
}
