use resvm::datetime::{parse_reservation_time, Date, TimeOfDay};
use resvm::errors::{MyUsersError, ValidationError};

#[test]
fn time_parsing_accepts_hhmm() {
    let t = parse_reservation_time("0930").unwrap();
    assert_eq!(t, TimeOfDay { hour: 9, minute: 30, second: 0 });
}

#[test]
fn time_parsing_rejects_invalid_hour() {
    assert_eq!(
        parse_reservation_time("2460").unwrap_err(),
        ValidationError::HourOutOfRange
    );
}

#[test]
fn time_parsing_rejects_wrong_length() {
    assert_eq!(
        parse_reservation_time("93").unwrap_err(),
        ValidationError::TimeWrongLength
    );
    assert_eq!(
        parse_reservation_time("09300").unwrap_err(),
        ValidationError::TimeWrongLength
    );
    assert_eq!(
        parse_reservation_time("").unwrap_err(),
        ValidationError::TimeWrongLength
    );
}

#[test]
fn time_parsing_rejects_non_digits() {
    assert_eq!(
        parse_reservation_time("ab30").unwrap_err(),
        ValidationError::TimeNotDigits
    );
}

#[test]
fn time_parsing_rejects_invalid_minute() {
    assert_eq!(
        parse_reservation_time("0960").unwrap_err(),
        ValidationError::MinuteOutOfRange
    );
}

#[test]
fn time_parsing_boundaries() {
    assert_eq!(
        parse_reservation_time("2359").unwrap(),
        TimeOfDay { hour: 23, minute: 59, second: 0 }
    );
    assert_eq!(
        parse_reservation_time("0000").unwrap(),
        TimeOfDay { hour: 0, minute: 0, second: 0 }
    );
}

#[test]
fn time_parsing_agrees_with_time_crate() {
    assert!(time::Time::from_hms(9, 30, 0).is_ok());
    assert!(time::Time::from_hms(24, 60, 0).is_err());
}

#[test]
fn date_validation() {
    assert!(Date::new(2024, 2, 29).is_ok());
    assert_eq!(Date::new(2023, 2, 29).unwrap_err(), ValidationError::InvalidDate);
    assert!(Date::new(2000, 2, 29).is_ok());
    assert_eq!(Date::new(1900, 2, 29).unwrap_err(), ValidationError::InvalidDate);
    assert_eq!(Date::new(2024, 13, 1).unwrap_err(), ValidationError::InvalidDate);
    assert_eq!(Date::new(2024, 0, 1).unwrap_err(), ValidationError::InvalidDate);
    assert_eq!(Date::new(2024, 4, 31).unwrap_err(), ValidationError::InvalidDate);
    assert_eq!(Date::new(10000, 1, 1).unwrap_err(), ValidationError::InvalidDate);
    assert_eq!(Date::new(-1, 1, 1).unwrap_err(), ValidationError::InvalidDate);
}

#[test]
fn date_validation_agrees_with_chrono() {
    assert!(chrono::NaiveDate::from_ymd_opt(2024, 2, 29).is_some());
    assert!(chrono::NaiveDate::from_ymd_opt(2023, 2, 29).is_none());
    assert!(chrono::NaiveDate::from_ymd_opt(1900, 2, 29).is_none());
}

#[test]
fn user_error_status_codes() {
    assert_eq!(MyUsersError::NotFound.status_code(), 404);
    assert_eq!(MyUsersError::InternalServerError.status_code(), 500);
}
