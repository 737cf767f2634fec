use hotel_pms::{parse_checkin_datetime, parse_checkout_datetime, DateTime, DateTimeError, TimeOfDay};

fn at(h: u8, m: u8, s: u8) -> TimeOfDay {
    TimeOfDay { hour: h, minute: m, second: s }
}

#[test]
fn checkin_date_only_takes_clock_time_but_fixed_date() {
    let morning = parse_checkin_datetime("25/12/2025", at(8, 5, 9)).unwrap();
    let evening = parse_checkin_datetime("25/12/2025", at(23, 59, 58)).unwrap();
    assert_eq!((morning.year, morning.month, morning.day), (2025, 12, 25));
    assert_eq!((evening.year, evening.month, evening.day), (2025, 12, 25));
    assert_eq!((morning.hour, morning.minute, morning.second), (8, 5, 9));
    assert_eq!((evening.hour, evening.minute, evening.second), (23, 59, 58));
}

#[test]
fn checkin_with_explicit_time_ignores_clock() {
    let dt = parse_checkin_datetime("20/11/2025 14:30:00", at(3, 4, 5)).unwrap();
    assert_eq!(
        dt,
        DateTime { year: 2025, month: 11, day: 20, hour: 14, minute: 30, second: 0 }
    );
}

#[test]
fn checkin_rejects_malformed_dates() {
    let now = at(1, 2, 3);
    assert_eq!(parse_checkin_datetime("31/02/2025", now), Err(DateTimeError::DateFormat));
    assert_eq!(parse_checkin_datetime("25-12-2025", now), Err(DateTimeError::DateFormat));
    assert_eq!(parse_checkin_datetime("25/12/25", now), Err(DateTimeError::DateFormat));
    assert_eq!(parse_checkin_datetime("", now), Err(DateTimeError::DateFormat));
    assert_eq!(
        parse_checkin_datetime("20/11/2025 25:00:00", now),
        Err(DateTimeError::DateFormat)
    );
}

#[test]
fn checkin_accepts_leap_day_only_in_leap_years() {
    let now = at(0, 0, 0);
    assert!(parse_checkin_datetime("29/02/2024", now).is_ok());
    assert_eq!(parse_checkin_datetime("29/02/2025", now), Err(DateTimeError::DateFormat));
    assert_eq!(parse_checkin_datetime("29/02/1900", now), Err(DateTimeError::DateFormat));
    assert!(parse_checkin_datetime("29/02/2000", now).is_ok());
}

#[test]
fn checkout_defaults_to_one_pm() {
    let dt = parse_checkout_datetime("26/12/2025", None).unwrap();
    assert_eq!(
        dt,
        DateTime { year: 2025, month: 12, day: 26, hour: 13, minute: 0, second: 0 }
    );
}

#[test]
fn checkout_blank_time_defaults_too() {
    let dt = parse_checkout_datetime("26/12/2025", Some("   ")).unwrap();
    assert_eq!((dt.hour, dt.minute, dt.second), (13, 0, 0));
}

#[test]
fn checkout_uses_given_time_trimmed() {
    let dt = parse_checkout_datetime("26/12/2025", Some(" 09:30:15 ")).unwrap();
    assert_eq!(
        dt,
        DateTime { year: 2025, month: 12, day: 26, hour: 9, minute: 30, second: 15 }
    );
}

#[test]
fn checkout_distinguishes_date_and_time_failures() {
    assert_eq!(
        parse_checkout_datetime("2025/12/26", Some("09:00:00")),
        Err(DateTimeError::DateFormat)
    );
    assert_eq!(
        parse_checkout_datetime("26/12/2025", Some("9:99:00")),
        Err(DateTimeError::TimeFormat)
    );
    assert_eq!(
        parse_checkout_datetime("26/12/2025", Some("0900")),
        Err(DateTimeError::TimeFormat)
    );
}

#[test]
fn single_digit_fields_are_accepted() {
    let dt = parse_checkin_datetime("5/3/2025 7:8:9", at(0, 0, 0)).unwrap();
    assert_eq!(
        dt,
        DateTime { year: 2025, month: 3, day: 5, hour: 7, minute: 8, second: 9 }
    );
}
