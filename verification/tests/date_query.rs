use tuisana::date::CivilDate;
use tuisana::date_query::{parse_span, DateQuery};
use tuisana::text::chars_of;

fn date(year: i32, month: u32, day: u32) -> CivilDate {
    CivilDate::new(year, month, day).expect("a real date")
}

/// A Monday.
fn today() -> CivilDate {
    date(2026, 8, 24)
}

fn parse(text: &str) -> Option<DateQuery> {
    DateQuery::parse(&chars_of(text), today())
}

#[test]
fn a_written_date_is_one_day() {
    assert_eq!(parse("2026-09-15"), Some(DateQuery::Exact(date(2026, 9, 15))));
    assert_eq!(parse("  2026-09-15 "), Some(DateQuery::Exact(date(2026, 9, 15))));
    assert_eq!(parse("09-15"), Some(DateQuery::Exact(date(2026, 9, 15))), "this year");
    assert_eq!(parse("2026-02-30"), None, "not a real day");
}

#[test]
fn a_written_date_reads_back_as_itself() {
    for day in [date(2026, 9, 15), date(1, 1, 1), date(9999, 12, 31), date(2024, 2, 29)] {
        assert_eq!(parse(&day.iso()), Some(DateQuery::Exact(day)));
    }
}

#[test]
fn day_keywords_are_relative_to_today_and_ignore_case() {
    assert_eq!(parse("today"), Some(DateQuery::Exact(today())));
    assert_eq!(parse("TOMORROW"), Some(DateQuery::Exact(date(2026, 8, 25))));
    assert_eq!(parse("Yesterday"), Some(DateQuery::Exact(date(2026, 8, 23))));
    assert_eq!(parse("today+7"), Some(DateQuery::Exact(date(2026, 8, 31))));
    assert_eq!(parse("today-24"), Some(DateQuery::Exact(date(2026, 7, 31))));
}

#[test]
fn a_weekday_is_its_next_occurrence_today_included() {
    assert_eq!(parse("mon"), Some(DateQuery::Exact(today())));
    assert_eq!(parse("tuesday"), Some(DateQuery::Exact(date(2026, 8, 25))));
    assert_eq!(parse("sun"), Some(DateQuery::Exact(date(2026, 8, 30))));
}

#[test]
fn week_month_and_year_keywords_name_spans() {
    assert_eq!(
        parse("this week"),
        Some(DateQuery::Range { start: Some(date(2026, 8, 23)), end: Some(date(2026, 8, 29)) })
    );
    assert_eq!(
        parse("next month"),
        Some(DateQuery::Range { start: Some(date(2026, 9, 1)), end: Some(date(2026, 9, 30)) })
    );
    assert_eq!(
        parse("last year"),
        Some(DateQuery::Range { start: Some(date(2025, 1, 1)), end: Some(date(2025, 12, 31)) })
    );
}

#[test]
fn a_range_may_leave_either_end_open_but_not_both() {
    assert_eq!(
        parse("2026-09-01.."),
        Some(DateQuery::Range { start: Some(date(2026, 9, 1)), end: None })
    );
    assert_eq!(
        parse("..2026-09-30"),
        Some(DateQuery::Range { start: None, end: Some(date(2026, 9, 30)) })
    );
    assert_eq!(parse(".."), None);
    assert_eq!(parse("2026-09-01..zz"), None, "an end that names nothing spoils the range");
}

#[test]
fn text_that_names_nothing_is_no_query() {
    assert_eq!(parse(""), None);
    assert_eq!(parse("zz"), None);
    assert_eq!(parse("today+"), None);
}

#[test]
fn a_query_admits_the_days_it_covers() {
    let exact = DateQuery::Exact(date(2026, 9, 15));
    assert!(exact.matches(date(2026, 9, 15)));
    assert!(!exact.matches(date(2026, 9, 16)));

    let open = DateQuery::Range { start: Some(date(2026, 9, 1)), end: None };
    assert!(open.matches(date(2030, 1, 1)));
    assert!(!open.matches(date(2026, 8, 31)));
}

#[test]
fn a_span_reports_its_first_and_last_day() {
    let span = parse_span(&chars_of("this month"), today()).expect("a span");
    assert_eq!(span.start(), date(2026, 8, 1));
    assert_eq!(span.end(), date(2026, 8, 31));
    assert!(!span.is_day());
    assert!(parse_span(&chars_of("today"), today()).expect("a day").is_day());
}
