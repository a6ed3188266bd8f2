use tuisana::cell_open::EditField;
use tuisana::date::CivilDate;
use tuisana::records::{records_from_tasks, FetchedTask, Section, TaskRecord};
use tuisana::table::{edit_targets, task_link, TableRow};
use tuisana::task::TaskState;
use tuisana::task_table::{TableAction, TaskTable};

fn sel_task(gid: &str, name: &str, completed: bool) -> FetchedTask {
    FetchedTask {
        gid: gid.to_string(),
        name: name.to_string(),
        completed,
        modified_at: None,
        assignee: None,
        due_on: None,
        start_on: None,
        num_subtasks: 0,
        membership_sections: vec![Some(Section { gid: "s1".to_string(), name: "Today".to_string() })],
        custom_fields: Vec::new(),
    }
}

/// The records of project `p1` ("Inbox", one section "Today") built from
/// `tasks`, and the table they lay out as: the section's heading, then its
/// tasks.
fn loaded(tasks: &[FetchedTask]) -> (Vec<TaskRecord>, Vec<TableRow>) {
    let sections = vec![Section { gid: "s1".to_string(), name: "Today".to_string() }];
    let (records, next) = records_from_tasks("p1", "Inbox", &sections, tasks, 0);
    assert_eq!(next, tasks.len());
    let rows = shown(&records, &tasks.iter().map(|t| t.gid.as_str()).collect::<Vec<_>>());
    (records, rows)
}

fn shown(records: &[TaskRecord], gids: &[&str]) -> Vec<TableRow> {
    let mut rows = vec![TableRow { gid: String::new(), is_task: false, selectable: false }];
    for record in records {
        if gids.contains(&record.gid.as_str()) {
            rows.push(TableRow { gid: record.gid.clone(), is_task: true, selectable: true });
        }
    }
    rows
}

fn loaded_table(tasks: &[FetchedTask]) -> (TaskTable, Vec<TaskRecord>, Vec<TableRow>) {
    let (records, rows) = loaded(tasks);
    let mut table = TaskTable::new();
    table.rebuild(clone_rows(&rows), Vec::new(), 8, &records);
    (table, records, rows)
}

fn clone_rows(rows: &[TableRow]) -> Vec<TableRow> {
    rows.iter().map(|r| TableRow { gid: r.gid.clone(), is_task: r.is_task, selectable: r.selectable }).collect()
}

fn selected_gid(table: &TaskTable, rows: &[TableRow]) -> String {
    rows[table.selected().expect("a cursor")].gid.clone()
}

#[test]
fn toggle_task_selection_marks_cursor_row_and_advances() {
    let (mut state, records, rows) =
        loaded_table(&[sel_task("t1", "Task one", false), sel_task("t2", "Task two", false)]);
    assert_eq!(state.chosen().len(), 0);
    assert_eq!(selected_gid(&state, &rows), "t1");

    state.apply(TableAction::ToggleSelection, &records);
    assert_eq!(state.chosen().len(), 1);
    assert!(state.chosen().is_chosen(&"t1".to_string()));
    assert_eq!(selected_gid(&state, &rows), "t2");

    state.apply(TableAction::ToggleSelection, &records);
    assert_eq!(state.chosen().len(), 2);
    assert!(state.chosen().is_chosen(&"t2".to_string()));
}

#[test]
fn toggling_a_selected_task_deselects_it() {
    let (mut state, records, _) = loaded_table(&[sel_task("t1", "Task one", false)]);
    state.apply(TableAction::ToggleSelection, &records);
    assert_eq!(state.chosen().len(), 1);

    state.apply(TableAction::JumpTop, &records);
    state.apply(TableAction::ToggleSelection, &records);
    assert_eq!(state.chosen().len(), 0);
    assert!(!state.chosen().is_chosen(&"t1".to_string()));
}

#[test]
fn select_all_visible_tasks_selects_every_task_row() {
    let (mut state, records, _) =
        loaded_table(&[sel_task("t1", "Task one", false), sel_task("t2", "Task two", false)]);
    state.apply(TableAction::SelectAllShown, &records);
    assert_eq!(state.chosen().len(), 2);
    assert!(state.chosen().is_chosen(&"t1".to_string()));
    assert!(state.chosen().is_chosen(&"t2".to_string()));
}

#[test]
fn invert_task_selection_flips_selected_and_unselected() {
    let (mut state, records, _) =
        loaded_table(&[sel_task("t1", "Task one", false), sel_task("t2", "Task two", false)]);
    state.apply(TableAction::ToggleSelection, &records);
    assert!(state.chosen().is_chosen(&"t1".to_string()));
    assert!(!state.chosen().is_chosen(&"t2".to_string()));

    state.apply(TableAction::InvertSelection, &records);
    assert!(!state.chosen().is_chosen(&"t1".to_string()));
    assert!(state.chosen().is_chosen(&"t2".to_string()));
    assert_eq!(state.chosen().len(), 1);
}

#[test]
fn clear_task_selection_empties_the_selection() {
    let (mut state, records, _) =
        loaded_table(&[sel_task("t1", "Task one", false), sel_task("t2", "Task two", false)]);
    state.apply(TableAction::SelectAllShown, &records);
    assert_eq!(state.chosen().len(), 2);
    state.apply(TableAction::ClearSelection, &records);
    assert_eq!(state.chosen().len(), 0);
}

#[test]
fn clear_hidden_task_selection_removes_tasks_not_in_current_view() {
    let (mut state, records, _) =
        loaded_table(&[sel_task("t1", "Open task", false), sel_task("t2", "Done task", true)]);
    state.apply(TableAction::SelectAllShown, &records);
    assert_eq!(state.chosen().len(), 2);

    // The open-only filter leaves t2 out of the table.
    let open_only = shown(&records, &["t1"]);
    assert_eq!(open_only.iter().filter(|r| r.is_task).count(), 1);
    state.rebuild(open_only, Vec::new(), 8, &records);

    state.apply(TableAction::ClearHiddenSelection, &records);
    assert_eq!(state.chosen().len(), 1);
    assert!(state.chosen().is_chosen(&"t1".to_string()));
    assert!(!state.chosen().is_chosen(&"t2".to_string()));
}

#[test]
fn copy_tasks_to_clipboard_returns_markdown_checklist() {
    let (mut state, records, _) =
        loaded_table(&[sel_task("t1", "Ship release", false), sel_task("t2", "Write docs", false)]);
    state.apply(TableAction::SelectAllShown, &records);
    let text = state.apply(TableAction::CopyToClipboard, &records).expect("a checklist");
    assert!(text.contains("- [ ] [Ship release](https://app.asana.com/0/p1/t1)"));
    assert!(text.contains("- [ ] [Write docs](https://app.asana.com/0/p1/t2)"));
    assert!(text.ends_with('\n'));
}

#[test]
fn copy_tasks_to_clipboard_returns_none_when_nothing_selected() {
    let (mut state, records, _) = loaded_table(&[sel_task("t1", "Task one", false)]);
    assert!(state.apply(TableAction::CopyToClipboard, &records).is_none());
}

#[test]
fn selected_task_url_returns_asana_url_for_cursor_task() {
    let (state, records, _) = loaded_table(&[sel_task("t1", "Ship release", false)]);
    let gid = state.cursor_task().expect("a task under the cursor");
    let url = task_link(&records, &gid).expect("URL produced for task row");
    assert_eq!(url, "https://app.asana.com/0/p1/t1");
}

#[test]
fn selected_task_url_returns_none_when_no_tasks_loaded() {
    let state = TaskTable::new();
    assert!(state.cursor_task().and_then(|gid| task_link(&[], &gid)).is_none());
}

#[test]
fn the_column_cursor_stops_at_both_ends() {
    let (mut state, records, _) = loaded_table(&[sel_task("t1", "Task one", false)]);
    state.apply(TableAction::ColumnPrev, &records);
    assert_eq!(state.column(), 0);
    for _ in 0..20 {
        state.apply(TableAction::ColumnNext, &records);
    }
    assert_eq!(state.column(), 7);
}

/// A table of t1 and t2 whose cursor was on t1 when an edit took t1 out of
/// the view: it now sits in the pane of recent edits, with the cursor.
fn state_with_an_edit_out_of_view() -> (TaskTable, Vec<TaskRecord>) {
    let (mut state, records, _) =
        loaded_table(&[sel_task("t1", "Task one", false), sel_task("t2", "Task two", false)]);
    assert_eq!(state.cursor_task(), Some("t1".to_string()));
    let recent = vec![TableRow { gid: "t1".to_string(), is_task: true, selectable: true }];
    state.rebuild(shown(&records, &["t2"]), recent, 8, &records);
    (state, records)
}

#[test]
fn the_cursor_walks_out_of_the_pane_and_into_the_table() {
    let (mut state, records) = state_with_an_edit_out_of_view();
    assert_eq!(state.recent_selected(), Some(0));

    state.apply(TableAction::MoveDown, &records);
    assert_eq!(state.recent_selected(), None);
    assert_eq!(state.cursor_task(), Some("t2".to_string()));

    state.apply(TableAction::MoveUp, &records);
    assert_eq!(state.recent_selected(), Some(0));
    assert_eq!(state.cursor_task(), Some("t1".to_string()));
}

#[test]
fn hiding_the_pane_returns_the_cursor_to_the_table() {
    let (mut state, records) = state_with_an_edit_out_of_view();

    state.toggle_recent_pane();
    assert!(!state.recent_visible());
    assert_eq!(state.recent_selected(), None);
    assert_eq!(state.cursor_task(), Some("t2".to_string()));

    // An edit that takes the cursor's task out of the view shows the pane
    // again, toggle or no toggle.
    let recent = vec![
        TableRow { gid: "t1".to_string(), is_task: true, selectable: true },
        TableRow { gid: "t2".to_string(), is_task: true, selectable: true },
    ];
    state.rebuild(shown(&records, &[]), recent, 8, &records);
    assert!(state.recent_visible());
    assert_eq!(state.cursor_task(), Some("t2".to_string()));
}

fn day() -> CivilDate {
    CivilDate::new(2026, 3, 14).unwrap()
}

fn record_of<'a>(records: &'a [TaskRecord], gid: &str) -> Option<&'a TaskRecord> {
    records.iter().find(|r| r.gid == gid)
}

/// Opens the cell under the cursor on `field`, for the tasks an edit applies
/// to, as the pane does.
fn begin(pane: &mut TaskState, table: &TaskTable, rows: &[TableRow], records: &[TaskRecord], field: EditField) -> Result<(), String> {
    let cursor = table.cursor_task();
    let targets = edit_targets(&[], rows, table.chosen(), cursor.as_ref());
    let record = cursor.as_deref().and_then(|gid| record_of(records, gid));
    pane.begin_cell_edit(&field, record, "", table.column(), targets, day())
}

#[test]
fn an_edit_applies_to_the_selection_or_to_the_cursor_row() {
    let (mut state, records, rows) = loaded_table(&[
        sel_task("t1", "One", false),
        sel_task("t2", "Two", false),
        sel_task("t3", "Three", false),
    ]);
    let order: Vec<String> = rows.iter().filter(|r| r.is_task).map(|r| r.gid.clone()).collect();
    let cursor = state.cursor_task();
    assert_eq!(edit_targets(&[], &rows, state.chosen(), cursor.as_ref()), vec![order[0].clone()], "the cursor row");

    state.apply(TableAction::ToggleSelection, &records);
    state.apply(TableAction::ToggleSelection, &records);
    let cursor = state.cursor_task();
    assert_eq!(
        edit_targets(&[], &rows, state.chosen(), cursor.as_ref()),
        order[..2].to_vec(),
        "the selection, and only the selection"
    );
}

#[test]
fn a_title_is_refused_on_a_multi_task_selection_and_allowed_on_one() {
    let (mut state, records, rows) =
        loaded_table(&[sel_task("t1", "One", false), sel_task("t2", "Two", false)]);
    let mut pane = TaskState::new();
    state.apply(TableAction::ToggleSelection, &records);
    state.apply(TableAction::ToggleSelection, &records);

    assert_eq!(
        begin(&mut pane, &state, &rows, &records, EditField::Title),
        Err("a title is edited one task at a time (2 selected)".to_string())
    );

    state.apply(TableAction::ClearSelection, &records);
    assert_eq!(begin(&mut pane, &state, &rows, &records, EditField::Title), Ok(()));
    assert_eq!(state.column(), 0);
}

#[test]
fn an_unsupported_custom_field_kind_is_refused_with_a_message() {
    let (state, records, rows) = loaded_table(&[sel_task("t1", "Ship it", false)]);
    let mut pane = TaskState::new();
    assert_eq!(
        begin(&mut pane, &state, &rows, &records, EditField::Unsupported),
        Err("this field cannot be edited here yet".to_string())
    );
}

#[test]
fn the_column_cursor_clamps_when_a_column_disappears_mid_edit() {
    // Eight fixed columns and one custom field's.
    let (records, rows) = loaded(&[sel_task("t1", "Ship it", false)]);
    let mut state = TaskTable::new();
    state.rebuild(clone_rows(&rows), Vec::new(), 9, &records);
    for _ in 0..8 {
        state.apply(TableAction::ColumnNext, &records);
    }
    assert_eq!(state.column(), 8);
    let mut pane = TaskState::new();
    let field = EditField::Choice(vec!["High".to_string(), "Low".to_string()]);
    begin(&mut pane, &state, &rows, &records, field).expect("the cell opens");
    assert!(pane.cell_edit_open());

    // The project carrying the field is gone: so is its column.
    state.rebuild(clone_rows(&rows), Vec::new(), 8, &records);
    pane.close_edit_beyond(8);
    assert!(state.column() < 8);
    assert!(!pane.cell_edit_open(), "the edit closed rather than moving");
}
