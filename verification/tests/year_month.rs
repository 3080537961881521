use std::cmp::Ordering;
use time::date::gregorian::{DateCreationError, Month, Year};

#[test]
fn leap_years() {
    assert!(Year::try_from(2020).unwrap().is_leap_year());
    assert!(Year::try_from(2000).unwrap().is_leap_year());

    assert!(!Year::try_from(1900).unwrap().is_leap_year());
    assert!(!Year::try_from(2017).unwrap().is_leap_year());
    assert!(!Year::try_from(2018).unwrap().is_leap_year());
}

#[test]
fn leap_years_before_year_one() {
    assert!(Year::new(-4).is_leap_year());
    assert!(Year::new(-400).is_leap_year());
    assert!(!Year::new(-100).is_leap_year());
    assert!(!Year::new(-1).is_leap_year());
    assert!(!Year::new(-3).is_leap_year());
}

#[test]
fn year_from_number() {
    assert_eq!(Year::try_from(1).unwrap(), Year::new(1));
    assert_eq!(Year::try_from(2020).unwrap(), Year::new(2020));
    assert_eq!(Year::try_from(1528).unwrap().get(), 1528);
    assert_eq!(Year::try_from(-1).unwrap().get(), -1);
    assert_eq!(Year::try_from(i128::MAX).unwrap().get(), i128::MAX);
    assert_eq!(Year::try_from(i128::MIN).unwrap().get(), i128::MIN);
}

#[test]
fn year_zero_is_rejected() {
    assert_eq!(Year::try_from(0), Err(DateCreationError::ZeroYear));
}

#[test]
fn year_difference() {
    assert_eq!(Year::new(1528) - Year::new(1528), 0);
    assert_eq!(Year::new(1528) - Year::new(1527), 1);
    assert_eq!(Year::new(1527).difference(Year::new(1528)), -1);
    assert_eq!(Year::new(-10).difference(Year::new(-30)), 20);
}

#[test]
fn year_difference_has_no_year_zero() {
    assert_eq!(Year::new(1) - Year::new(-1), 1);
    assert_eq!(Year::new(-1) - Year::new(1), -1);
    assert_eq!(Year::new(1).difference(Year::new(-1)), 1);
    assert_eq!(Year::new(-1).difference(Year::new(1)), -1);
    assert_eq!(Year::new(5).difference(Year::new(-5)), 9);
    assert_eq!(Year::new(-5).difference(Year::new(5)), -9);
    assert_eq!(Year::new(i128::MAX).difference(Year::new(-1)), i128::MAX);
}

#[test]
fn year_next_skips_zero() {
    assert_eq!(Year::new(-1).next(), Year::new(1));
    assert_eq!(Year::new(-2).next(), Year::new(-1));
    assert_eq!(Year::new(1).next(), Year::new(2));
    assert_eq!(Year::new(2019).next(), Year::new(2020));
}

#[test]
fn year_previous_skips_zero() {
    assert_eq!(Year::new(1).previous(), Year::new(-1));
    assert_eq!(Year::new(-1).previous(), Year::new(-2));
    assert_eq!(Year::new(2020).previous(), Year::new(2019));
    assert_eq!(Year::new(7).next().previous(), Year::new(7));
}

#[test]
fn years_are_ordered_by_number() {
    assert!(Year::new(-1) < Year::new(1));
    assert!(Year::new(-2) < Year::new(-1));
    assert!(Year::new(2020) > Year::new(2019));
    assert_eq!(Year::new(3).partial_cmp(&Year::new(3)), Some(Ordering::Equal));
    assert_eq!(Year::new(-3).partial_cmp(&Year::new(3)), Some(Ordering::Less));
    assert_eq!(Year::new(3).cmp(&Year::new(-3)), Ordering::Greater);
}

#[test]
fn month_from_code() {
    let months = [
        Month::January,
        Month::February,
        Month::March,
        Month::April,
        Month::May,
        Month::June,
        Month::July,
        Month::August,
        Month::September,
        Month::October,
        Month::November,
        Month::December,
    ];
    for (index, month) in months.iter().enumerate() {
        let code = index as u8 + 1;
        assert_eq!(Month::try_from(code), Ok(*month));
        assert_eq!(month.code(), code);
    }
}

#[test]
fn month_rejects_other_codes() {
    assert_eq!(Month::try_from(0), Err(DateCreationError::InvalidMonth(0)));
    for code in 13..=255u8 {
        assert_eq!(
            Month::try_from(code),
            Err(DateCreationError::InvalidMonth(code))
        );
    }
}

#[test]
fn months_are_ordered_by_code() {
    assert!(Month::January < Month::February);
    assert!(Month::February <= Month::February);
    assert!(Month::December > Month::November);
    assert_eq!(
        Month::March.partial_cmp(&Month::October),
        Some(Ordering::Less)
    );
    assert_eq!(Month::October.cmp(&Month::March), Ordering::Greater);
}

#[test]
fn month_days() {
    let regular: [u8; 12] = [31, 28, 31, 30, 31, 30, 31, 31, 30, 31, 30, 31];
    for code in 1..=12u8 {
        let month = Month::try_from(code).unwrap();
        assert_eq!(month.days(false), regular[code as usize - 1]);
        if code == 2 {
            assert_eq!(month.days(true), 29);
        } else {
            assert_eq!(month.days(true), regular[code as usize - 1]);
        }
    }
}
