use billing_core::ServiceError;
use billing_core::date::Date;
use billing_core::schedule::{IntervalUnit, compute_next_run, parse_interval};

fn d(y: i32, m: u8, day: u8) -> Date {
    Date::new(y, m, day).unwrap()
}

#[test]
fn first_fire_is_start_date() {
    let start = d(2024, 1, 1);
    let next = compute_next_run(IntervalUnit::Month, 1, start, None).unwrap();
    assert_eq!(next, d(2024, 1, 1));
}

#[test]
fn monthly_advance_after_fire() {
    let start = d(2024, 1, 1);
    let next = compute_next_run(IntervalUnit::Month, 1, start, Some(d(2024, 1, 1))).unwrap();
    assert_eq!(next, d(2024, 2, 1));
}

#[test]
fn daily_advance() {
    let start = d(2024, 2, 28);
    let next = compute_next_run(IntervalUnit::Day, 2, start, Some(d(2024, 2, 28))).unwrap();
    assert_eq!(next, d(2024, 3, 1));
}

#[test]
fn weekly_advance() {
    let start = d(2024, 12, 25);
    let next = compute_next_run(IntervalUnit::Week, 1, start, Some(d(2024, 12, 25))).unwrap();
    assert_eq!(next, d(2025, 1, 1));
}

#[test]
fn yearly_advance_clamps_leap_day() {
    let start = d(2024, 2, 29);
    let next = compute_next_run(IntervalUnit::Year, 1, start, Some(d(2024, 2, 29))).unwrap();
    assert_eq!(next, d(2025, 2, 28));
}

#[test]
fn month_end_clamps() {
    let start = d(2024, 1, 31);
    let next = compute_next_run(IntervalUnit::Month, 1, start, Some(d(2024, 1, 31))).unwrap();
    assert_eq!(next, d(2024, 2, 29));
    let next2 = compute_next_run(IntervalUnit::Month, 1, d(2023, 1, 31), Some(d(2023, 1, 31)))
        .unwrap();
    assert_eq!(next2, d(2023, 2, 28));
}

#[test]
fn multi_count_advance() {
    let start = d(2024, 1, 15);
    let next = compute_next_run(IntervalUnit::Month, 3, start, Some(d(2024, 11, 15))).unwrap();
    assert_eq!(next, d(2025, 2, 15));
}

#[test]
fn advance_past_year_range_is_internal() {
    let start = d(9999, 12, 31);
    let r = compute_next_run(IntervalUnit::Day, 1, start, Some(d(9999, 12, 31)));
    assert_eq!(r, Err(ServiceError::Internal));
}

#[test]
fn parse_interval_vocabulary() {
    assert_eq!(parse_interval("day"), Ok(IntervalUnit::Day));
    assert_eq!(parse_interval("week"), Ok(IntervalUnit::Week));
    assert_eq!(parse_interval("month"), Ok(IntervalUnit::Month));
    assert_eq!(parse_interval("year"), Ok(IntervalUnit::Year));
    assert_eq!(parse_interval("monthly"), Err(ServiceError::InvalidInput));
    assert_eq!(parse_interval(""), Err(ServiceError::InvalidInput));
}

#[test]
fn date_constructor_validates() {
    assert!(Date::new(2024, 2, 29).is_ok());
    assert_eq!(Date::new(2023, 2, 29), Err(ServiceError::InvalidInput));
    assert_eq!(Date::new(2024, 13, 1), Err(ServiceError::InvalidInput));
    assert_eq!(Date::new(2024, 0, 1), Err(ServiceError::InvalidInput));
    assert_eq!(Date::new(10000, 1, 1), Err(ServiceError::InvalidInput));
}
