use tuisana::date::CivilDate;
use tuisana::gantt::{ColorSlot, GanttColorKey, GanttConfig, GanttViewState, MoveTo, Timeline, TimelineView};


#[test]
fn the_chart_starts_hidden_and_fitted() {
    let state = GanttViewState::default();

    assert!(!state.visible());
    assert_eq!(state.timeline(), &TimelineView::Fit);
    assert_eq!(state.color_key(), &GanttColorKey::Assignee);
}

#[test]
fn config_seeds_the_starting_state() {
    let mut config = GanttConfig {
        visible: true,
        columns: 4,
        color_by: "section".to_string(),
        ..GanttConfig::default()
    };
    config
        .order
        .push(("section".to_string(), vec!["Shipment".to_string()]));

    let state = GanttViewState::from_config(&config);

    assert!(state.visible());
    assert_eq!(state.columns(7), 4);
    assert_eq!(state.color_key(), &GanttColorKey::Section);
    assert_eq!(state.order(), ["Shipment".to_string()]);
}

#[test]
fn the_column_count_never_drops_the_title_or_exceeds_the_table() {
    let mut state = GanttViewState::default();

    for _ in 0..10 {
        state.remove_column(7);
    }
    assert_eq!(state.columns(7), 1, "the task title always stays");

    for _ in 0..20 {
        state.add_column(7);
    }
    assert_eq!(state.columns(7), 7);
}

#[test]
fn a_column_count_is_clamped_to_whatever_the_table_currently_has() {
    // The custom-field columns come and go with the loaded projects, so a
    // count set against a wide table has to survive a narrow one.
    let mut state = GanttViewState::default();
    for _ in 0..6 {
        state.add_column(9);
    }
    assert_eq!(state.columns(9), 8);
    assert_eq!(state.columns(3), 3, "clamped down without being forgotten");
    assert_eq!(state.columns(9), 8, "and restored when the table is wide again");
}

#[test]
fn each_dimension_keeps_its_own_order() {
    let mut state = GanttViewState::default();
    state.set_order(&GanttColorKey::Assignee, vec!["Alex".to_string()]);
    state.set_order(&GanttColorKey::Section, vec!["Shipment".to_string()]);

    assert_eq!(state.order(), ["Alex".to_string()]);
    state.set_color_key(GanttColorKey::Section);
    assert_eq!(state.order(), ["Shipment".to_string()]);
    assert_eq!(state.order_for(&GanttColorKey::State), [] as [String; 0]);
}

fn date(year: i32, month: u32, day: u32) -> CivilDate {
    CivilDate::new(year, month, day).expect("a real date")
}

/// A fitted Jun-Aug window, as the renderer would resolve it.
fn fitted() -> Option<Timeline> {
    Timeline::fit(vec![date(2026, 6, 10), date(2026, 8, 20)], 1)
}

fn window(state: &GanttViewState) -> (CivilDate, u32) {
    match state.timeline() {
        TimelineView::Window { start, days } => (*start, *days),
        TimelineView::Fit => panic!("expected a moved window"),
    }
}

#[test]
fn scrolling_moves_a_quarter_of_the_window_and_leaves_fit_behind() {
    let mut state = GanttViewState::default();
    assert!(!state.timeline_windowed());

    state.scroll_timeline(fitted(), true);

    let (start, days) = window(&state);
    assert!(state.timeline_windowed());
    assert_eq!(days, 92, "Jun 1 to Aug 31");
    assert_eq!(start, date(2026, 6, 1).add_days(23));
}

#[test]
fn scrolling_back_and_forward_returns_to_the_same_place() {
    let mut state = GanttViewState::default();
    state.scroll_timeline(fitted(), true);
    let forward = window(&state);
    state.scroll_timeline(fitted(), false);
    state.scroll_timeline(fitted(), true);

    assert_eq!(window(&state), forward);
}

#[test]
fn the_first_zoom_lands_on_the_ladder_rung_nearest_what_is_on_screen() {
    // 92 days on screen; the ladder's nearest rung is 90. Jumping to an
    // end of the ladder instead would lose the user's place entirely.
    let mut state = GanttViewState::default();
    state.zoom_timeline(fitted(), true);

    assert_eq!(window(&state).1, 90);
}

#[test]
fn zooming_steps_one_rung_at_a_time_in_both_directions() {
    let mut state = GanttViewState::default();
    state.zoom_timeline(fitted(), true);
    assert_eq!(window(&state).1, 90);

    state.zoom_timeline(fitted(), true);
    assert_eq!(window(&state).1, 60);
    state.zoom_timeline(fitted(), true);
    assert_eq!(window(&state).1, 30);

    state.zoom_timeline(fitted(), false);
    assert_eq!(window(&state).1, 60);
}

/// Where the anchor sits in a window, as a fraction of its length.
///
/// Because the window maps onto the pane linearly, this is also where the
/// anchor sits on screen, which is the property that actually matters.
fn anchor_fraction(state: &GanttViewState, anchor: CivilDate) -> f64 {
    let (start, days) = window(state);
    let offset = anchor.days_from_epoch() - start.days_from_epoch();
    offset as f64 / days as f64
}

#[test]
fn zooming_keeps_the_date_at_the_left_margin_where_it_was() {
    let mut state = GanttViewState::default();
    let before = fitted().expect("a fitted window");
    // 92 days, so the margin is nine and the anchor is the tenth day.
    let anchor = before.start.add_days(9);

    for _ in 0..3 {
        state.zoom_timeline(fitted(), true);
        let placed = anchor_fraction(&state, anchor);
        assert!(
            (placed - 0.1).abs() < 0.06,
            "anchor drifted to {placed} of the way across"
        );
    }
}

#[test]
fn zooming_adds_and_removes_time_at_the_right() {
    // The whole point: what you are looking at stays put and later work
    // comes into view or leaves it.
    let mut state = GanttViewState::default();
    state.zoom_timeline(fitted(), false);
    let (wide_start, wide_days) = window(&state);

    state.zoom_timeline(fitted(), true);
    let (narrow_start, narrow_days) = window(&state);

    assert!(narrow_days < wide_days);
    assert!(
        (narrow_start.days_from_epoch() - wide_start.days_from_epoch()).abs() < 20,
        "the left edge barely moved: {wide_start:?} then {narrow_start:?}"
    );
    assert!(
        narrow_start.add_days(narrow_days as i64)
            < wide_start.add_days(wide_days as i64),
        "the right edge is what pulled in"
    );
}

#[test]
fn zooming_in_and_back_out_returns_to_the_same_window() {
    let mut state = GanttViewState::default();
    state.zoom_timeline(fitted(), true);
    let before = window(&state);

    state.zoom_timeline(fitted(), true);
    state.zoom_timeline(fitted(), false);

    assert_eq!(window(&state), before);
}

#[test]
fn zooming_stops_at_both_ends_of_the_ladder() {
    let mut state = GanttViewState::default();
    for _ in 0..20 {
        state.zoom_timeline(fitted(), true);
    }
    assert_eq!(window(&state).1, 7);

    for _ in 0..20 {
        state.zoom_timeline(fitted(), false);
    }
    assert_eq!(window(&state).1, 1825);
}

#[test]
fn focusing_a_date_keeps_the_span_and_puts_it_near_the_left() {
    let mut state = GanttViewState::default();
    state.zoom_timeline(fitted(), true);
    let span = window(&state).1;

    state.focus_timeline_on(date(2027, 3, 15), fitted());

    assert_eq!(window(&state).1, span, "focusing is not a zoom");
    let placed = anchor_fraction(&state, date(2027, 3, 15));
    assert!((placed - 0.1).abs() < 0.06, "landed at {placed}");
}

#[test]
fn a_focused_date_is_not_flush_against_the_left_edge() {
    // A bar starting on the focused day would otherwise begin in the same
    // column as the divider, with no room to read it.
    let mut state = GanttViewState::default();
    state.focus_timeline_on(date(2027, 3, 15), fitted());

    assert!(window(&state).0 < date(2027, 3, 15));
}

#[test]
fn the_margin_survives_the_shortest_zoom() {
    let mut state = GanttViewState::default();
    for _ in 0..20 {
        state.zoom_timeline(fitted(), true);
    }
    assert_eq!(window(&state).1, 7);

    state.focus_timeline_on(date(2027, 3, 15), fitted());
    assert!(
        window(&state).0 < date(2027, 3, 15),
        "a week-long window still leaves a day of margin"
    );
}

#[test]
fn fitting_returns_to_following_the_data() {
    let mut state = GanttViewState::default();
    state.scroll_timeline(fitted(), true);
    state.fit_timeline();

    assert_eq!(state.timeline(), &TimelineView::Fit);
    assert!(!state.timeline_windowed());
}

#[test]
fn scrolling_a_chart_with_no_dated_rows_still_produces_a_window() {
    // Nothing to fit to, so there is no natural span to start from. A
    // panic or a zero-length window here would be worse than a default.
    let mut state = GanttViewState::default();
    state.scroll_timeline(None, true);

    assert!(window(&state).1 > 0);
}

fn values(names: &[&str]) -> Vec<(String, usize)> {
    names
        .iter()
        .enumerate()
        .map(|(index, name)| (name.to_string(), index + 1))
        .collect()
}

fn shown(state: &GanttViewState) -> Vec<String> {
    state
        .dialog()
        .expect("the dialog is open")
        .entries()
        .iter()
        .map(|entry| entry.value.clone())
        .collect()
}

fn open_with(names: &[&str]) -> GanttViewState {
    let mut state = GanttViewState::default();
    state.open_dialog(values(names));
    state
}

#[test]
fn moving_a_value_carries_the_cursor_with_it() {
    let mut state = open_with(&["a", "b", "c"]);
    state.dialog_move_cursor(2);
    state.dialog_move_value(MoveTo::Up);

    assert_eq!(shown(&state), ["a", "c", "b"]);
    assert_eq!(
        state.dialog().expect("open").selected(),
        1,
        "holding the key has to keep walking the same value"
    );
}

#[test]
fn the_four_moves_each_land_where_they_say() {
    let mut state = open_with(&["a", "b", "c", "d"]);
    state.dialog_move_cursor(2);

    state.dialog_move_value(MoveTo::Top);
    assert_eq!(shown(&state), ["c", "a", "b", "d"]);

    state.dialog_move_value(MoveTo::Bottom);
    assert_eq!(shown(&state), ["a", "b", "d", "c"]);

    state.dialog_move_value(MoveTo::Up);
    assert_eq!(shown(&state), ["a", "b", "c", "d"]);

    state.dialog_move_value(MoveTo::Down);
    assert_eq!(shown(&state), ["a", "b", "d", "c"]);
}

#[test]
fn moving_past_either_end_does_nothing() {
    let mut state = open_with(&["a", "b"]);

    state.dialog_move_value(MoveTo::Up);
    assert_eq!(shown(&state), ["a", "b"]);

    state.dialog_move_cursor(1);
    state.dialog_move_value(MoveTo::Down);
    assert_eq!(shown(&state), ["a", "b"]);
}

#[test]
fn the_empty_value_stays_last_and_refuses_to_move() {
    let mut state = GanttViewState::default();
    state.open_dialog(vec![
        ("a".to_string(), 1),
        ("b".to_string(), 2),
        (String::new(), 9),
    ]);
    state.dialog_move_cursor(2);
    state.dialog_move_value(MoveTo::Top);

    assert_eq!(shown(&state), ["a", "b", ""]);
    let dialog = state.dialog().expect("open");
    assert!(!dialog.entries()[2].movable);
    assert_eq!(dialog.slot(2), ColorSlot::Neutral);
}

#[test]
fn only_the_first_six_movable_values_get_a_slot() {
    let state = open_with(&["a", "b", "c", "d", "e", "f", "g"]);
    let dialog = state.dialog().expect("open");

    assert_eq!(dialog.slot(5), ColorSlot::Indexed(5));
    assert_eq!(dialog.slot(6), ColorSlot::Neutral);
}

#[test]
fn every_move_rewrites_the_live_order_so_the_chart_repaints() {
    let mut state = open_with(&["a", "b", "c"]);
    assert!(state.order().is_empty(), "nothing configured yet");

    state.dialog_move_cursor(2);
    state.dialog_move_value(MoveTo::Top);

    assert_eq!(state.order(), ["c".to_string(), "a".to_string(), "b".to_string()]);
}

#[test]
fn cancelling_puts_back_the_order_the_dialog_opened_with() {
    let mut state = GanttViewState::default();
    state.set_order(&GanttColorKey::Assignee, vec!["b".to_string(), "a".to_string()]);
    state.open_dialog(values(&["a", "b"]));

    state.dialog_move_value(MoveTo::Bottom);
    assert_eq!(state.order(), ["b".to_string(), "a".to_string()]);

    state.dialog_cancel();
    assert_eq!(state.order(), ["b".to_string(), "a".to_string()]);
    assert!(!state.dialog_open());
}

#[test]
fn cancelling_an_unconfigured_dimension_leaves_no_entry_behind() {
    // An empty list would serialize as `assignee = []`, which reads as a
    // deliberate choice rather than as the absence of one.
    let mut state = open_with(&["a", "b"]);
    state.dialog_move_value(MoveTo::Bottom);
    state.dialog_cancel();

    assert!(state.orders().is_empty());
}

#[test]
fn committing_keeps_the_edited_order() {
    let mut state = open_with(&["a", "b"]);
    state.dialog_move_value(MoveTo::Bottom);
    state.dialog_commit();

    assert!(!state.dialog_open());
    assert_eq!(state.order(), ["b".to_string(), "a".to_string()]);
}

#[test]
fn a_configured_value_that_is_not_on_screen_survives_a_reorder() {
    // It lives in a project this session did not load. Dropping it from
    // the config for being absent would lose work silently.
    let mut state = GanttViewState::default();
    state.set_order(
        &GanttColorKey::Assignee,
        vec!["absent".to_string(), "a".to_string()],
    );
    state.open_dialog(values(&["a", "b"]));
    state.dialog_move_value(MoveTo::Bottom);
    state.dialog_commit();

    assert!(state.order().contains(&"absent".to_string()));
}

#[test]
fn switching_dimension_inside_the_dialog_rebuilds_it_and_commits_nothing() {
    let mut state = open_with(&["a", "b"]);
    state.dialog_move_cursor(1);

    state.set_color_key(GanttColorKey::Section);
    state.dialog_reload(GanttColorKey::Section, values(&["x", "y", "z"]));

    let dialog = state.dialog().expect("still open");
    assert_eq!(dialog.key(), &GanttColorKey::Section);
    assert_eq!(dialog.selected(), 0);
    assert_eq!(shown(&state), ["x", "y", "z"]);
}
