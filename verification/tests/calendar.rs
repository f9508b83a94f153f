use chrono::{Datelike, NaiveDate};
use planet_relay::calendar::CalendarDate;

#[test]
fn the_epoch_begins_at_zero() {
    let date = CalendarDate::from_ymd(1970, 1, 1).unwrap();
    assert_eq!(date.midnight_seconds(), 0);
}

#[test]
fn midnight_of_known_days() {
    assert_eq!(CalendarDate::from_ymd(1970, 1, 2).unwrap().midnight_seconds(), 86_400);
    assert_eq!(CalendarDate::from_ymd(1969, 12, 31).unwrap().midnight_seconds(), -86_400);
    assert_eq!(CalendarDate::from_ymd(1969, 7, 20).unwrap().midnight_seconds(), -14_256_000);
    assert_eq!(CalendarDate::from_ymd(2000, 1, 1).unwrap().midnight_seconds(), 946_684_800);
    assert_eq!(CalendarDate::from_ymd(2019, 1, 3).unwrap().midnight_seconds(), 1_546_473_600);
}

#[test]
fn from_ymd_keeps_the_three_numbers() {
    let date = CalendarDate::from_ymd(1966, 2, 3).unwrap();
    assert_eq!(date.ymd(), (1966, 2, 3));
}

#[test]
fn from_ymd_knows_leap_years() {
    assert!(CalendarDate::from_ymd(2024, 2, 29).is_some());
    assert!(CalendarDate::from_ymd(2023, 2, 29).is_none());
    assert!(CalendarDate::from_ymd(2000, 2, 29).is_some());
    assert!(CalendarDate::from_ymd(1900, 2, 29).is_none());
}

#[test]
fn from_ymd_refuses_days_that_do_not_exist() {
    assert!(CalendarDate::from_ymd(2023, 4, 31).is_none());
    assert!(CalendarDate::from_ymd(2023, 0, 10).is_none());
    assert!(CalendarDate::from_ymd(2023, 13, 10).is_none());
    assert!(CalendarDate::from_ymd(2023, 5, 0).is_none());
    assert!(CalendarDate::from_ymd(2023, 5, 32).is_none());
}

#[test]
fn from_ymd_refuses_years_outside_the_calendar() {
    assert!(CalendarDate::from_ymd(400_000, 1, 1).is_none());
    assert!(CalendarDate::from_ymd(-400_000, 1, 1).is_none());
    assert!(CalendarDate::from_ymd(262_142, 12, 31).is_some());
}

#[test]
fn midnight_agrees_with_the_calendar_crate() {
    let days = [(1957, 10, 4), (1976, 7, 20), (2038, 1, 19), (1, 1, 1), (-44, 3, 15)];
    for (year, month, day) in days.iter() {
        let there = NaiveDate::from_ymd_opt(*year, *month, *day).unwrap();
        let here = CalendarDate::from_ymd(there.year(), there.month(), there.day()).unwrap();
        assert_eq!(here.midnight_seconds(), there.and_hms_opt(0, 0, 0).unwrap().and_utc().timestamp());
    }
}
