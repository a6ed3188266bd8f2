use tuisana::calendar::{CalendarState, Side};
use tuisana::date::CivilDate;
use tuisana::date_query::DateQuery;


fn date(year: i32, month: u32, day: u32) -> CivilDate {
    CivilDate::new(year, month, day).expect("a real date")
}

/// A Monday, matching the snapshot harness's pinned date.
fn today() -> CivilDate {
    date(2026, 8, 24)
}

fn open(query: &str) -> CalendarState {
    CalendarState::open("Due", query, today())
}

fn type_text(state: &mut CalendarState, text: &str) {
    for ch in text.chars() {
        state.push_char(ch);
    }
}

#[test]
fn an_empty_field_opens_on_the_current_month_with_today_highlighted() {
    let state = open("");

    assert_eq!(state.visible_month(), date(2026, 8, 1));
    assert_eq!(state.active_date(), None, "nothing is typed, so nothing is set");
    assert_eq!(state.query(), "");
    assert_eq!(state.caret(), 0);
    assert_eq!(state.field_label(), "Due");
    assert_eq!(state.side(), Side::Whole);
}

#[test]
fn a_field_holding_a_date_opens_on_that_month() {
    let state = open("2026-03-04");

    assert_eq!(state.visible_month(), date(2026, 3, 1));
    assert_eq!(state.active_date(), Some(date(2026, 3, 4)));
    assert_eq!(state.caret(), 10, "the caret starts after the text");
}

#[test]
fn typed_text_lands_in_the_query_and_moves_the_grid_with_it() {
    let mut state = open("");
    type_text(&mut state, "2026");

    assert_eq!(state.query(), "2026");
    assert_eq!(
        state.visible_month(),
        date(2026, 1, 1),
        "a year alone shows January"
    );
    assert_eq!(state.active_date(), None, "and highlights no day");

    type_text(&mut state, "-09");
    assert_eq!(state.visible_month(), date(2026, 9, 1));
    assert_eq!(state.active_date(), None);

    type_text(&mut state, "-15");
    assert_eq!(state.query(), "2026-09-15");
    assert_eq!(state.visible_month(), date(2026, 9, 1));
    assert_eq!(state.active_date(), Some(date(2026, 9, 15)));
    assert!(state.parses());
}

#[test]
fn a_month_typed_alone_shows_that_month_of_the_current_year() {
    let mut state = open("");
    type_text(&mut state, "09");

    assert_eq!(state.visible_month(), date(2026, 9, 1));
    assert_eq!(state.active_date(), None);
}

#[test]
fn text_that_says_nothing_usable_leaves_the_grid_alone() {
    let mut state = open("2026-09-15");
    type_text(&mut state, "zz");

    assert_eq!(state.query(), "2026-09-15zz");
    assert_eq!(state.visible_month(), date(2026, 9, 1));
    assert!(!state.parses(), "but the overlay says the text is unusable");
}

#[test]
fn the_caret_moves_by_character_and_backspace_deletes_in_place() {
    let mut state = open("2026-09-15");

    state.move_caret(-1);
    assert_eq!(state.caret(), 9);
    state.pop_char();
    assert_eq!(state.query(), "2026-09-5", "the character before the caret goes");
    assert_eq!(state.caret(), 8);

    state.push_char('2');
    assert_eq!(state.query(), "2026-09-25");
    assert_eq!(state.active_date(), Some(date(2026, 9, 25)));
}

#[test]
fn the_caret_stops_at_both_ends_of_the_query() {
    let mut state = open("2026");

    state.move_caret(-99);
    assert_eq!(state.caret(), 0);
    state.pop_char();
    assert_eq!(state.query(), "2026", "backspace at the start does nothing");

    state.move_caret(99);
    assert_eq!(state.caret(), 4);
}

#[test]
fn flipping_forward_lands_on_the_first_and_backward_on_the_last() {
    let mut state = open("2026-08-24");

    state.move_months(1);
    assert_eq!(state.active_date(), Some(date(2026, 9, 1)));
    assert_eq!(state.query(), "2026-09-01");

    state.move_months(-1);
    assert_eq!(
        state.active_date(),
        Some(date(2026, 8, 31)),
        "flipping back lands on the end of the month"
    );

    state.move_months(-1);
    assert_eq!(state.active_date(), Some(date(2026, 7, 31)));
    state.move_months(-1);
    assert_eq!(state.active_date(), Some(date(2026, 6, 30)));
}

#[test]
fn flipping_months_crosses_years_in_both_directions() {
    let mut state = open("2026-01-15");

    state.move_months(-1);
    assert_eq!(state.active_date(), Some(date(2025, 12, 31)));

    for _ in 0..13 {
        state.move_months(1);
    }
    assert_eq!(state.active_date(), Some(date(2027, 1, 1)));
}

#[test]
fn stepping_a_day_off_the_end_of_a_month_lands_on_the_next_first() {
    let mut state = open("2026-08-31");

    state.move_days(1);
    assert_eq!(state.active_date(), Some(date(2026, 9, 1)));
    assert_eq!(state.visible_month(), date(2026, 9, 1));

    state.move_days(-1);
    assert_eq!(state.active_date(), Some(date(2026, 8, 31)));
    assert_eq!(state.visible_month(), date(2026, 8, 1));
}

#[test]
fn navigating_from_an_empty_field_starts_at_today() {
    let mut state = open("");

    state.move_days(1);
    assert_eq!(state.active_date(), Some(date(2026, 8, 25)));
    assert_eq!(state.query(), "2026-08-25");
}

#[test]
fn navigating_replaces_whatever_was_typed_on_the_active_side() {
    let mut state = open("");
    type_text(&mut state, "2026-09");

    state.move_days(1);
    assert_eq!(
        state.query(),
        "2026-09-02",
        "the half-typed month became a date, stepped one day on"
    );
}

#[test]
fn jumping_to_today_returns_the_grid_to_the_current_month() {
    let mut state = open("2027-01-04");
    state.jump_today();

    assert_eq!(state.active_date(), Some(today()));
    assert_eq!(state.visible_month(), date(2026, 8, 1));
    assert_eq!(state.query(), "2026-08-24");
}

#[test]
fn the_caret_decides_which_end_of_a_range_navigation_rewrites() {
    let mut state = open("2026-09-01..2026-09-30");

    assert_eq!(state.side(), Side::End, "the caret starts after the text");
    state.move_days(1);
    assert_eq!(state.query(), "2026-09-01..2026-10-01");

    assert!(state.jump_to_start());
    assert_eq!(state.side(), Side::Start);
    assert_eq!(
        state.visible_month(),
        date(2026, 9, 1),
        "and the grid follows to that end's month"
    );

    state.move_days(-1);
    assert_eq!(
        state.query(),
        "2026-08-31..2026-10-01",
        "only the start moved"
    );
}

#[test]
fn jumping_between_ends_does_nothing_without_a_range() {
    let mut state = open("2026-09-01");

    assert!(!state.jump_to_start());
    assert!(!state.jump_to_end());
    assert_eq!(state.caret(), 10, "and the caret stays put");
}

#[test]
fn jumping_to_the_end_puts_the_caret_after_the_last_character() {
    let mut state = open("2026-09-01..2026-09-30");
    state.jump_to_start();

    assert!(state.jump_to_end());
    assert_eq!(state.caret(), 22);
    assert_eq!(state.side(), Side::End);
}

#[test]
fn an_open_end_of_a_range_starts_from_the_other_end() {
    let mut state = open("");
    type_text(&mut state, "2026-09-01..");

    assert_eq!(state.side(), Side::End);
    assert_eq!(
        state.visible_month(),
        date(2026, 9, 1),
        "the grid stays where the start date put it"
    );

    state.move_days(1);
    assert_eq!(
        state.query(),
        "2026-09-01..2026-09-02",
        "filling in the finish starts next to the start, not at today"
    );
}

#[test]
fn opening_a_half_typed_range_shows_the_month_of_the_end_that_is_set() {
    let state = open("2026-09-01..");

    assert_eq!(state.side(), Side::End);
    assert_eq!(state.visible_month(), date(2026, 9, 1));
}

#[test]
fn reports_both_ends_of_a_range_for_the_grid_to_shade() {
    let state = open("2026-09-01..2026-09-30");

    assert_eq!(
        state.range(),
        Some((Some(date(2026, 9, 1)), Some(date(2026, 9, 30))))
    );
    assert_eq!(open("2026-09-01").range(), None, "one date is not a range");
    assert_eq!(
        open("2026-09-01..").range(),
        Some((Some(date(2026, 9, 1)), None)),
        "an open end is still a range"
    );
    assert_eq!(
        open("..2026-09-30").range(),
        Some((None, Some(date(2026, 9, 30))))
    );
}

#[test]
fn a_range_of_keywords_reaches_the_far_edge_of_each_end() {
    // `..` unions the two spans. Reading both ends as the day they start
    // on would have cut `last week..this week` short by six days, and the
    // filter behind it was already matching all fourteen.
    assert_eq!(
        open("last week..this week").range(),
        Some((Some(date(2026, 8, 16)), Some(date(2026, 8, 29))))
    );
    assert_eq!(
        open("last month..this month").range(),
        Some((Some(date(2026, 7, 1)), Some(date(2026, 8, 31))))
    );
    // Mixed ends work the same: only the span the keyword names is wider
    // than a day, and only that end moves.
    assert_eq!(
        open("2026-08-01..this week").range(),
        Some((Some(date(2026, 8, 1)), Some(date(2026, 8, 29))))
    );
    assert_eq!(
        open("this week..2026-08-31").range(),
        Some((Some(date(2026, 8, 23)), Some(date(2026, 8, 31)))),
        "the start end still contributes its first day"
    );
    // An open end names nothing, so there is no span to take an edge of.
    assert_eq!(
        open("this week..").range(),
        Some((Some(date(2026, 8, 23)), None))
    );
    assert_eq!(
        open("..this week").range(),
        Some((None, Some(date(2026, 8, 29))))
    );
}

#[test]
fn the_highlight_takes_the_edge_of_a_keyword_that_its_end_contributes() {
    // `this week` is Aug 23-29 and `next week` is Aug 30 - Sep 5. Which
    // day of each the highlight sits on is the day the keys would move,
    // and that is the edge its own end of the range hands to the filter.
    let mut state = open("this week..next week");

    assert_eq!(state.side(), Side::End);
    assert_eq!(
        state.active_date(),
        Some(date(2026, 9, 5)),
        "the end contributes its last day"
    );

    state.jump_to_start();
    assert_eq!(state.side(), Side::Start);
    assert_eq!(
        state.active_date(),
        Some(date(2026, 8, 23)),
        "the start contributes its first"
    );

    // A one-day name has one edge, so neither end changes it.
    let mut single = open("today..tomorrow");
    assert_eq!(single.active_date(), Some(date(2026, 8, 25)));
    single.jump_to_start();
    assert_eq!(single.active_date(), Some(date(2026, 8, 24)));
}

#[test]
fn a_bare_keyword_is_edited_as_the_end_of_the_range_it_already_is() {
    // With no `..` there is no caret to say which edge is meant, so the
    // end is assumed: that is the edge a picked date replaces.
    let mut state = open("this week");

    assert_eq!(state.side(), Side::Whole);
    assert_eq!(state.active_date(), Some(date(2026, 8, 29)));

    // Moving it spells the week out, keeping the start it came with. The
    // keyword has nowhere to hold "but ending a day later".
    state.move_days(1);
    assert_eq!(state.query(), "2026-08-23..2026-08-30");
    assert_eq!(state.side(), Side::End, "and the caret is on the end it moved");
    assert_eq!(state.active_date(), Some(date(2026, 8, 30)));

    // Moving again edits that end alone, leaving the start alone.
    state.move_days(1);
    assert_eq!(state.query(), "2026-08-23..2026-08-31");
}

#[test]
fn a_one_day_field_keeps_the_highlight_on_the_day_it_would_commit() {
    // A task date is one day, so `this week` there commits the Sunday it
    // starts on. Highlighting the Saturday would show a day the write was
    // never going to send, and nudging it into a range would make the
    // field uncommittable outright.
    let mut cell = CalendarState::open_one_day("Due", "this week", today());

    assert_eq!(cell.active_date(), Some(date(2026, 8, 23)));
    assert_eq!(cell.visible_month(), date(2026, 8, 1));

    cell.move_days(1);
    assert_eq!(
        cell.query(),
        "2026-08-24",
        "one date, not a range the API has nowhere to put"
    );

    // A filter field is the one that spells the week out instead.
    let mut filter = open("this week");
    filter.move_days(1);
    assert_eq!(filter.query(), "2026-08-23..2026-08-30");
}

#[test]
fn a_bare_one_day_keyword_stays_one_date() {
    // Only a name covering more than one day has a start worth keeping.
    // `today` moved is a different day, not a range out of nowhere.
    let mut state = open("today");
    state.move_days(1);
    assert_eq!(state.query(), "2026-08-25");

    let mut typed = open("2026-09-15");
    typed.move_days(-1);
    assert_eq!(typed.query(), "2026-09-14");
}

#[test]
fn the_grid_shows_the_month_the_highlight_landed_in() {
    // `next week` runs Aug 30 - Sep 5, so its end edge is in September
    // while the week starts in August. The highlight has to be on screen.
    let state = open("next week");

    assert_eq!(state.active_date(), Some(date(2026, 9, 5)));
    assert_eq!(state.visible_month(), date(2026, 9, 1));
}

#[test]
fn a_keyword_naming_a_whole_month_reports_it_as_a_span() {
    let state = open("this month");

    assert_eq!(
        state.span(),
        Some((Some(date(2026, 8, 1)), Some(date(2026, 8, 31)))),
        "the grid shades the month the keyword names"
    );
    assert_eq!(state.range(), None, "but it is not a two-ended range");
    assert_eq!(state.visible_month(), date(2026, 8, 1));
    assert!(state.parses());

    let year = open("next year");
    assert_eq!(
        year.span(),
        Some((Some(date(2027, 1, 1)), Some(date(2027, 12, 31))))
    );

    // A single day shades nothing; the highlight is what marks it.
    assert_eq!(open("today").span(), None);
    assert_eq!(open("2026-09-15").span(), None);
    assert_eq!(open("").span(), None);
}

#[test]
fn a_keyword_is_resolved_for_the_summary_shown_in_place_of_the_grid() {
    assert_eq!(
        open("tue").resolution(),
        Some(DateQuery::Exact(date(2026, 8, 25)))
    );
    assert_eq!(
        open("last month").resolution(),
        Some(DateQuery::Range {
            start: Some(date(2026, 7, 1)),
            end: Some(date(2026, 7, 31)),
        })
    );
    assert_eq!(
        open("today-5").resolution(),
        Some(DateQuery::Exact(date(2026, 8, 19)))
    );
    assert_eq!(open("").resolution(), None);
    assert_eq!(open("zz").resolution(), None);
}

#[test]
fn keywords_survive_a_commit_but_incomplete_text_is_filled_in() {
    let mut kept = open("today");
    kept.normalize();
    assert_eq!(kept.query(), "today", "a keyword is what the user chose");

    let mut exact = open("2026-09-15");
    exact.normalize();
    assert_eq!(exact.query(), "2026-09-15");

    let mut partial = open("2026-09");
    partial.normalize();
    assert_eq!(
        partial.query(),
        "2026-09-01",
        "a month alone commits as its first day"
    );

    let mut empty = open("");
    empty.normalize();
    assert_eq!(empty.query(), today().iso(), "and nothing commits as today");
}

#[test]
fn normalizing_only_touches_the_active_end_of_a_range() {
    let mut state = open("2026-09-01..");
    state.normalize();

    assert_eq!(
        state.query(),
        "2026-09-01..2026-09-01",
        "the empty end fills in from the start, and the start is untouched"
    );
}

#[test]
fn lays_the_month_out_as_weeks_starting_sunday() {
    // August 2026 starts on a Saturday and has 31 days, so day 1 sits alone
    // in the last column of the first row and day 2, a Sunday, starts the
    // second. Monday-first fitted this month into five rows; Sunday-first
    // needs six.
    let weeks = open("").weeks();

    assert_eq!(weeks.len(), 6);
    assert_eq!(weeks[0], [None, None, None, None, None, None, Some(1)]);
    assert_eq!(
        weeks[1],
        [
            Some(2),
            Some(3),
            Some(4),
            Some(5),
            Some(6),
            Some(7),
            Some(8)
        ]
    );
    assert_eq!(
        weeks[5],
        [Some(30), Some(31), None, None, None, None, None],
        "the tail does not spill into September"
    );

    let all_days = weeks
        .iter()
        .flatten()
        .filter_map(|day| *day)
        .collect::<Vec<_>>();
    assert_eq!(all_days, (1..=31).collect::<Vec<_>>());
}

#[test]
fn lays_out_a_february_that_starts_on_a_sunday() {
    // February 2026 starts on a Sunday and has 28 days: exactly four weeks
    // with no leading padding at all — the case a Monday-first grid padded
    // with six blanks.
    let weeks = CalendarState::open("Due", "2026-02-01", today()).weeks();

    assert_eq!(weeks.len(), 4);
    assert_eq!(weeks[0][0], Some(1));
    assert_eq!(weeks[3][6], Some(28));
}
