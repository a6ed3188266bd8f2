use tuisana::date::CivilDate;
use tuisana::gantt::{GanttColorKey, GanttConfig, GanttViewState, MoveTo, Timeline, TimelineView};

fn date(year: i32, month: u32, day: u32) -> CivilDate {
    CivilDate::new(year, month, day).expect("a real date")
}

fn window(state: &GanttViewState) -> (CivilDate, u32) {
    match state.timeline() {
        TimelineView::Window { start, days } => (*start, *days),
        TimelineView::Fit => panic!("expected a moved window"),
    }
}

fn values(names: &[&str]) -> Vec<(String, usize)> {
    names.iter().map(|name| (name.to_string(), 1)).collect()
}

#[test]
fn a_stored_name_reads_back_as_its_dimension() {
    assert_eq!(GanttColorKey::from_name("section"), GanttColorKey::Section);
    assert_eq!(GanttColorKey::from_name("state"), GanttColorKey::State);
    assert_eq!(GanttColorKey::from_name("field:Priority"), GanttColorKey::Field("Priority".to_string()));
    assert_eq!(GanttColorKey::from_name("whatever"), GanttColorKey::Assignee, "unknown names colour by assignee");
    let name: String = GanttColorKey::Field("Team".to_string()).name().into_iter().collect();
    assert_eq!(name, "field:Team");
}

#[test]
fn fitting_spans_whole_months_and_at_least_the_minimum() {
    let fitted = Timeline::fit(vec![date(2026, 6, 10), date(2026, 8, 20)], 1).expect("dated");
    assert_eq!(fitted.start, date(2026, 6, 1));
    assert_eq!(fitted.end, date(2026, 8, 31));
    assert_eq!(fitted.days(), 92);

    let long = Timeline::fit(vec![date(2026, 2, 10)], 60).expect("dated");
    assert_eq!(long.end, date(2026, 4, 1), "sixty days from the first");
    assert!(Timeline::fit(Vec::new(), 1).is_none());
}

#[test]
fn scrolling_forward_and_back_from_a_moved_window_returns_to_it() {
    let mut state = GanttViewState::default();
    state.focus_timeline_on(date(2026, 9, 15), None);
    let before = window(&state);

    state.scroll_timeline(None, true);
    assert_eq!(window(&state).0, before.0.add_days(7), "a quarter of thirty days");
    state.scroll_timeline(None, false);

    assert_eq!(window(&state), before);
}

#[test]
fn zooming_out_and_back_in_returns_to_the_same_window() {
    let mut state = GanttViewState::default();
    state.focus_timeline_on(date(2026, 9, 15), None);
    let before = window(&state);
    assert_eq!(before.1, 30);

    state.zoom_timeline(None, false);
    assert_eq!(window(&state).1, 60);
    state.zoom_timeline(None, true);

    assert_eq!(window(&state), before);
}

#[test]
fn focusing_puts_the_date_a_tenth_of_the_way_in() {
    let mut state = GanttViewState::default();
    state.focus_timeline_on(date(2026, 9, 15), None);
    assert_eq!(window(&state), (date(2026, 9, 12), 30));
}

#[test]
fn cancelling_after_several_moves_restores_every_order() {
    let mut state = GanttViewState::default();
    state.set_order(&GanttColorKey::Assignee, vec!["c".to_string(), "a".to_string()]);
    state.set_order(&GanttColorKey::Section, vec!["x".to_string()]);
    state.open_dialog(values(&["a", "b", "c"]));

    state.dialog_move_value(MoveTo::Bottom);
    state.dialog_move_cursor(1);
    state.dialog_move_value(MoveTo::Top);
    assert_ne!(state.order().to_vec(), vec!["c".to_string(), "a".to_string()]);

    state.dialog_cancel();
    assert_eq!(state.order(), ["c".to_string(), "a".to_string()]);
    assert_eq!(state.order_for(&GanttColorKey::Section), ["x".to_string()]);
}

#[test]
fn the_live_order_keeps_values_that_are_not_on_screen_after_the_shown_ones() {
    let mut state = GanttViewState::default();
    state.set_order(&GanttColorKey::Assignee, vec!["gone".to_string(), "b".to_string()]);
    state.open_dialog(values(&["a", "b"]));
    state.dialog_move_value(MoveTo::Down);

    assert_eq!(state.order(), ["b".to_string(), "a".to_string(), "gone".to_string()]);
}

#[test]
fn the_cursor_is_held_to_the_list() {
    let mut state = GanttViewState::default();
    state.open_dialog(values(&["a", "b", "c"]));
    state.dialog_move_cursor(10);
    assert_eq!(state.dialog().expect("open").selected(), 2);
    state.dialog_move_cursor(-10);
    assert_eq!(state.dialog().expect("open").selected(), 0);
    assert_eq!(state.dialog().expect("open").movable_count(), 3);
}

#[test]
fn a_configured_column_count_of_zero_still_shows_the_title() {
    let config = GanttConfig { columns: 0, ..GanttConfig::default() };
    let state = GanttViewState::from_config(&config);
    assert_eq!(state.columns(7), 1);
    assert_eq!(state.columns(0), 1);
}

#[test]
fn visibility_toggles() {
    let mut state = GanttViewState::default();
    state.toggle_visible();
    assert!(state.visible());
    state.set_visible(false);
    assert!(!state.visible());
    state.fit_timeline();
    assert!(!state.timeline_windowed());
    assert!(!state.dialog_open());
    state.open_dialog(values(&["a"]));
    state.dialog_commit();
    assert!(!state.dialog_open());
}
