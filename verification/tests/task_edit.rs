use tuisana::task_edit::{CellEditor, TaskCellEditState};


fn options() -> TaskCellEditState {
    TaskCellEditState::new(
        6,
        vec!["t1".to_string()],
        CellEditor::Options {
            options: vec!["High".to_string(), "Low".to_string()],
            cursor: Some(0),
            allow_empty: true,
        },
    )
}

#[test]
fn cycling_an_options_picker_passes_through_no_value_once_per_lap() {
    let mut state = options();

    state.cycle_option(1);
    assert_eq!(state.value(), "Low");
    state.cycle_option(1);
    assert_eq!(state.value(), "", "one slot past the last option is empty");
    state.cycle_option(1);
    assert_eq!(state.value(), "High", "and then it wraps");

    state.cycle_option(-1);
    assert_eq!(state.value(), "");
}

#[test]
fn clearing_an_options_picker_selects_no_value() {
    let mut state = options();
    state.clear_value();

    assert_eq!(state.value(), "");
}

fn required_options() -> TaskCellEditState {
    TaskCellEditState::new(
        4,
        vec!["t1".to_string()],
        CellEditor::Options {
            options: vec!["open".to_string(), "done".to_string()],
            cursor: Some(1),
            allow_empty: false,
        },
    )
}

#[test]
fn a_ring_that_cannot_be_empty_never_lands_on_no_value() {
    let mut state = required_options();
    state.cycle_option(1);
    assert_eq!(state.value(), "open");
    state.cycle_option(1);
    assert_eq!(state.value(), "done");
    state.clear_value();
    assert_eq!(state.value(), "done", "there is no empty slot to clear to");
}

#[test]
fn stepping_forward_then_back_returns_to_the_same_option() {
    let mut state = options();
    for delta in [1, 2, 5, -4] {
        let before = state.value();
        state.cycle_option(delta);
        state.cycle_option(-delta);
        assert_eq!(state.value(), before);
    }
}

#[test]
fn a_text_edit_holds_its_text_and_caret() {
    let mut buffer = tuisana::text_edit::TextEdit::new();
    buffer.set_text_at_end("Ship it");
    let mut state = TaskCellEditState::new(1, vec!["t1".to_string(), "t2".to_string()], CellEditor::Text(buffer));

    assert_eq!(state.value(), "Ship it");
    assert_eq!(state.caret(), Some(7));
    assert!(!state.editor().is_options());
    state.edit_text(tuisana::text_edit::TextOp::Insert('!'));
    state.set_window_start(2);

    let view = state.render_view();
    assert_eq!(view.text, "Ship it!");
    assert_eq!(view.caret, Some(8));
    assert_eq!(view.window_start, 2);
    assert_eq!(view.targets, 2);
    assert_eq!(view.column, 1);

    state.clear_value();
    assert_eq!(state.value(), "");
}

#[test]
fn a_date_edit_mirrors_the_picker_into_its_text() {
    let today = tuisana::date::CivilDate::new(2026, 8, 24).expect("a real date");
    let calendar = tuisana::calendar::CalendarState::open_one_day("Due", "", today);
    let mut state = TaskCellEditState::new(
        3,
        vec!["t1".to_string()],
        CellEditor::Date { text: tuisana::text_edit::TextEdit::new(), calendar },
    );
    assert!(state.calendar().is_some());
    state.sync_calendar();
    assert_eq!(state.value(), "");
    assert_eq!(state.text().map(|t| t.caret()), Some(0));
}
