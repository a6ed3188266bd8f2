use tuisana::gantt::MoveTo;
use tuisana::task::{TaskState, TaskStatus};
use tuisana::task_edit::{CellEditor, TaskCellEditState};
use tuisana::text_edit::TextEdit;

#[test]
fn switching_to_task_mode_makes_the_view_visible() {
    let mut state = TaskState::new();

    state.toggle_visible();

    assert!(state.visible());
}

fn text_edit(text: &str) -> TaskCellEditState {
    let mut buffer = TextEdit::new();
    buffer.set_text_at_end(text);
    TaskCellEditState::new(2, vec!["t1".to_string(), "t2".to_string()], CellEditor::Text(buffer))
}

#[test]
fn a_new_task_pane_is_hidden_idle_and_empty() {
    let state = TaskState::new();
    assert!(!state.visible());
    assert!(!state.help_details_visible());
    assert_eq!(state.status(), &TaskStatus::Idle);
    assert_eq!(state.horizontal_scroll(), 0);
    assert_eq!(state.vertical_scroll(), 0);
    assert!(!state.cell_edit_open());
    assert_eq!(state.cell_edit_target_count(), 0);
    assert!(state.loading_targets().is_empty());
    assert!(state.loaded_target_ids().is_empty());
    assert!(!state.gantt().visible());
}

#[test]
fn an_idle_pane_has_nothing_to_be_out_of_date() {
    let mut state = TaskState::new();
    state.mark_out_of_date("selection changed");
    assert_eq!(state.status(), &TaskStatus::Idle);

    state.set_error("backend down");
    assert_eq!(state.status(), &TaskStatus::Error("backend down".to_string()));
    state.mark_out_of_date("selection changed");
    assert_eq!(state.status(), &TaskStatus::OutOfDate("selection changed".to_string()));
}

#[test]
fn sideways_scrolling_moves_in_steps_and_stops_at_the_start() {
    let mut state = TaskState::new();
    state.scroll_right();
    state.scroll_right();
    assert_eq!(state.horizontal_scroll(), 16);
    state.scroll_left();
    assert_eq!(state.horizontal_scroll(), 8);
    state.scroll_left();
    state.scroll_left();
    assert_eq!(state.horizontal_scroll(), 0);
}

#[test]
fn the_open_cell_editor_types_and_moves_its_caret() {
    let mut state = TaskState::new();
    state.open_cell_edit(text_edit("Draft"));
    assert!(state.cell_edit_open());
    assert!(!state.cell_edit_is_options());
    assert!(!state.cell_edit_owns_calendar());
    assert_eq!(state.cell_edit_target_count(), 2);

    state.cell_edit_push_char('s');
    state.cell_edit_jump_start();
    state.cell_edit_push_char('>');
    state.cell_edit_jump_end();
    state.cell_edit_pop_char();
    state.cell_edit_move_caret(-1);
    state.cell_edit_move_word(-1);
    state.cell_edit_clear();
    state.cell_edit_cycle_value(1);
    state.set_cell_edit_window(3);

    state.cancel_cell_edit();
    assert!(!state.cell_edit_open());
}

#[test]
fn notices_are_shown_and_taken_down() {
    let mut state = TaskState::new();
    state.set_edit_notice("could not update 1 of 2");
    assert_eq!(state.edit_notice(), Some("could not update 1 of 2"));
    state.clear_edit_notice();
    assert_eq!(state.edit_notice(), None);

    assert!(!state.filter_sets_sidebar_visible());
    state.set_filter_sets_notice("a name is required");
    assert!(state.filter_sets_sidebar_visible(), "a report opens the sidebar");
    assert_eq!(state.filter_sets_notice(), Some("a name is required"));
    state.clear_filter_sets_notice();
    assert_eq!(state.filter_sets_notice(), None);
}

#[test]
fn the_pane_remembers_pending_input_and_the_user() {
    let mut state = TaskState::new();
    state.set_input_pending(true);
    assert!(state.input_pending());
    state.set_current_user_gid(Some("u1".to_string()));
    state.toggle_help_details();
    assert!(state.help_details_visible());
    state.set_visible(true);
    assert!(state.visible());
    state.invalidate_cache();
    assert!(state.loaded_target_ids().is_empty());
}

#[test]
fn the_chart_in_the_pane_follows_its_verbs() {
    let mut state = TaskState::new();
    let mut config = tuisana::gantt::GanttConfig::default();
    config.visible = true;
    state.apply_gantt_config(&config);
    assert!(state.gantt().visible());
    state.gantt_fit();
    assert!(!state.gantt().timeline_windowed());
    state.gantt_order_move(MoveTo::Top);
    assert!(!state.gantt().dialog_open());
}
