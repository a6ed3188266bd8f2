use tuisana::date::{days_in_month_of, from_unix_days, is_leap_year, today, CivilDate};

fn date(year: i32, month: u32, day: u32) -> CivilDate {
    CivilDate::new(year, month, day).expect("a real date")
}

#[test]
fn only_real_days_in_the_supported_years_are_dates() {
    assert!(CivilDate::new(2024, 2, 29).is_some());
    assert!(CivilDate::new(2023, 2, 29).is_none());
    assert!(CivilDate::new(2026, 4, 31).is_none());
    assert!(CivilDate::new(0, 1, 1).is_none());
    assert!(CivilDate::new(10000, 1, 1).is_none());
    assert!(CivilDate::new(2026, 13, 1).is_none());
    assert!(CivilDate::new(2026, 1, 0).is_none());
}

#[test]
fn leap_years_follow_the_gregorian_rule() {
    assert!(is_leap_year(2000));
    assert!(!is_leap_year(1900));
    assert!(is_leap_year(2024));
    assert!(!is_leap_year(2026));
    assert_eq!(days_in_month_of(2024, 2), 29);
    assert_eq!(days_in_month_of(2026, 2), 28);
    assert_eq!(days_in_month_of(2026, 9), 30);
}

#[test]
fn adding_days_crosses_months_and_years() {
    assert_eq!(date(2024, 2, 28).add_days(1), date(2024, 2, 29));
    assert_eq!(date(2024, 2, 28).add_days(2), date(2024, 3, 1));
    assert_eq!(date(2026, 12, 31).add_days(1), date(2027, 1, 1));
    assert_eq!(date(2027, 1, 1).add_days(-1), date(2026, 12, 31));
    assert_eq!(date(2026, 8, 24).add_days(365), date(2027, 8, 24));
}

#[test]
fn adding_days_stops_at_the_ends_of_the_supported_years() {
    assert_eq!(date(1, 1, 1).add_days(-5), date(1, 1, 1));
    assert_eq!(date(9999, 12, 31).add_days(1), date(9999, 12, 31));
}

#[test]
fn days_count_from_the_epoch() {
    assert_eq!(date(1970, 1, 1).days_from_epoch(), 0);
    assert_eq!(date(1969, 12, 31).days_from_epoch(), -1);
    assert_eq!(date(2000, 3, 1).days_from_epoch(), 11017);
    assert_eq!(date(2026, 8, 24).days_until(&date(2026, 9, 1)), 8);
}

#[test]
fn a_day_count_since_the_epoch_names_its_date() {
    assert_eq!(from_unix_days(0), date(1970, 1, 1));
    assert_eq!(from_unix_days(19723), date(2024, 1, 1));
    assert_eq!(from_unix_days(u64::MAX), date(9999, 12, 31));
}

#[test]
fn the_clock_names_a_real_day() {
    let now = today();
    assert!(now.year() >= 1970);
    assert!(CivilDate::new(now.year(), now.month(), now.day()).is_some());
}

#[test]
fn adding_months_clamps_the_day_into_the_month() {
    assert_eq!(date(2026, 1, 31).add_months(1), date(2026, 2, 28));
    assert_eq!(date(2024, 1, 31).add_months(1), date(2024, 2, 29));
    assert_eq!(date(2026, 1, 15).add_months(-1), date(2025, 12, 15));
    assert_eq!(date(2026, 3, 31).add_months(-13), date(2025, 2, 28));
}

#[test]
fn weeks_start_on_sunday() {
    assert_eq!(date(2026, 8, 23).calendar_column(), 0);
    assert_eq!(date(2026, 8, 24).calendar_column(), 1);
    assert_eq!(date(2026, 8, 29).calendar_column(), 6);
}

#[test]
fn dates_are_spelled_year_month_day_with_zero_padding() {
    assert_eq!(date(2026, 9, 5).iso(), "2026-09-05");
    assert_eq!(date(7, 3, 9).iso(), "0007-03-09");
    assert_eq!(date(2026, 9, 5).first_of_month(), date(2026, 9, 1));
    assert_eq!(date(2026, 2, 5).with_day(31), date(2026, 2, 28));
}
