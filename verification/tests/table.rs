use tuisana::cell_open::{find_option, open_editor, EditField};
use tuisana::date::CivilDate;
use tuisana::records::TaskRecord;
use tuisana::table::{
    clipboard_markdown, column_in_range, edit_targets, is_shown, lead_with_chosen, move_column,
    prefer_selected_projects, restore_cursor, task_link, TableRow, TaskSelection,
};
use tuisana::task_edit::CellEditor;
use tuisana::task_table::{TableAction, TaskTable};
use tuisana::task::{TaskState, TaskStatus};

fn heading() -> TableRow {
    TableRow { gid: String::new(), is_task: false, selectable: false }
}

fn task(gid: &str) -> TableRow {
    TableRow { gid: gid.to_string(), is_task: true, selectable: true }
}

fn record(gid: &str, name: &str, project_gids: &[&str], projects: &[&str]) -> TaskRecord {
    TaskRecord {
        gid: gid.to_string(),
        name: name.to_string(),
        completed: false,
        modified_at: None,
        parent_gid: None,
        subtask_depth: 0,
        assignee_gid: None,
        assignee: None,
        due_date: None,
        start_date: None,
        natural_order: 0,
        project_gids: project_gids.iter().map(|s| s.to_string()).collect(),
        projects: projects.iter().map(|s| s.to_string()).collect(),
        sections: Vec::new(),
        section_order: None,
        custom_fields: Vec::new(),
    }
}

fn strings(v: &[&str]) -> Vec<String> {
    v.iter().map(|s| s.to_string()).collect()
}

#[test]
fn the_cursor_stays_on_its_task_after_a_rebuild() {
    let rows = vec![heading(), task("t2"), task("t1"), task("t3")];
    let gid = "t1".to_string();
    assert_eq!(restore_cursor(&rows, Some(&gid), None, Some(1)), Some(2));
}

#[test]
fn the_cursor_falls_back_to_the_parent_of_a_hidden_task() {
    let rows = vec![heading(), task("p1"), task("t3")];
    let gid = "child".to_string();
    let parent = "p1".to_string();
    assert_eq!(restore_cursor(&rows, Some(&gid), Some(&parent), Some(2)), Some(1));
}

#[test]
fn the_cursor_falls_back_to_the_nearest_row_above_where_it_stood() {
    let rows = vec![heading(), task("a"), heading(), task("b"), heading()];
    let gid = "gone".to_string();
    assert_eq!(restore_cursor(&rows, Some(&gid), None, Some(4)), Some(3));
    assert_eq!(restore_cursor(&rows, Some(&gid), None, Some(2)), Some(1));
}

#[test]
fn the_cursor_falls_back_to_the_last_row_when_none_lies_above() {
    let rows = vec![heading(), task("a"), task("b")];
    assert_eq!(restore_cursor(&rows, None, None, Some(0)), Some(2));
}

#[test]
fn without_any_earlier_place_the_cursor_goes_to_the_first_row() {
    let rows = vec![heading(), task("a"), task("b")];
    assert_eq!(restore_cursor(&rows, None, None, None), Some(1));
    assert_eq!(restore_cursor(&[heading()], None, None, Some(3)), None);
    assert_eq!(restore_cursor(&[], None, None, None), None);
}

#[test]
fn the_first_selected_project_leads_and_the_rest_keep_their_order() {
    let mut projects = strings(&["A", "B", "C", "D"]);
    lead_with_chosen(&mut projects, &strings(&["C", "B"]));
    assert_eq!(projects, strings(&["B", "A", "C", "D"]));

    let mut untouched = strings(&["A", "B"]);
    lead_with_chosen(&mut untouched, &strings(&["Z"]));
    assert_eq!(untouched, strings(&["A", "B"]));
}

#[test]
fn preferring_selected_projects_touches_only_the_project_lists() {
    let mut records = vec![
        record("t1", "One", &["g1", "g2"], &["Inbox", "Work"]),
        record("t2", "Two", &["g3"], &["Home"]),
    ];
    prefer_selected_projects(&mut records, &strings(&["Work"]));
    assert_eq!(records[0].projects, strings(&["Work", "Inbox"]));
    assert_eq!(records[0].project_gids, strings(&["g1", "g2"]));
    assert_eq!(records[0].name, "One");
    assert_eq!(records[1].projects, strings(&["Home"]));

    let mut unchanged = vec![record("t1", "One", &["g1", "g2"], &["Inbox", "Work"])];
    prefer_selected_projects(&mut unchanged, &[]);
    assert_eq!(unchanged[0].projects, strings(&["Inbox", "Work"]));
}

#[test]
fn a_settled_table_reports_empty_or_ready_unless_a_load_or_failure_stands() {
    let mut pane = TaskState::new();
    pane.settle_status(0);
    assert_eq!(*pane.status(), TaskStatus::Empty);
    pane.settle_status(3);
    assert_eq!(*pane.status(), TaskStatus::Ready);
    pane.set_error("boom");
    pane.settle_status(3);
    assert_eq!(*pane.status(), TaskStatus::Error("boom".to_string()));
    pane.mark_out_of_date("stale");
    pane.settle_status(0);
    assert_eq!(*pane.status(), TaskStatus::OutOfDate("stale".to_string()));
}

#[test]
fn toggling_a_task_twice_leaves_the_selection_as_it_was() {
    let mut chosen = TaskSelection::new();
    let t1 = "t1".to_string();
    chosen.toggle(&t1);
    assert!(chosen.contains(&t1));
    assert_eq!(chosen.len(), 1);
    chosen.toggle(&t1);
    assert!(!chosen.contains(&t1));
    assert_eq!(chosen.len(), 0);
}

#[test]
fn selecting_all_adds_each_shown_task_once() {
    let rows = vec![heading(), task("a"), task("b"), task("a"), TableRow { gid: String::new(), is_task: true, selectable: true }];
    let mut chosen = TaskSelection::new();
    chosen.toggle(&"x".to_string());
    chosen.select_all_shown(&rows);
    assert_eq!(chosen.len(), 3);
    assert!(chosen.contains(&"a".to_string()));
    assert!(chosen.contains(&"b".to_string()));
    assert!(chosen.contains(&"x".to_string()));
    assert!(!chosen.is_chosen(&String::new()));
}

#[test]
fn inverting_chooses_the_shown_tasks_that_were_not_chosen() {
    let rows = vec![heading(), task("a"), task("b"), task("c")];
    let mut chosen = TaskSelection::new();
    chosen.toggle(&"a".to_string());
    chosen.toggle(&"hidden".to_string());
    chosen.invert_shown(&rows);
    assert_eq!(chosen.len(), 2);
    assert!(chosen.contains(&"b".to_string()));
    assert!(chosen.contains(&"c".to_string()));
    assert!(!chosen.contains(&"a".to_string()));
    assert!(!chosen.contains(&"hidden".to_string()));
}

#[test]
fn clearing_hidden_choices_keeps_only_the_shown_ones() {
    let rows = vec![heading(), task("a"), task("b")];
    let mut chosen = TaskSelection::new();
    chosen.toggle(&"a".to_string());
    chosen.toggle(&"gone".to_string());
    assert!(is_shown(&rows, &"a".to_string()));
    assert!(!is_shown(&rows, &"gone".to_string()));
    chosen.retain_shown(&rows);
    assert_eq!(chosen.len(), 1);
    assert!(chosen.is_chosen(&"a".to_string()));
    chosen.clear();
    assert_eq!(chosen.len(), 0);
}

#[test]
fn the_clipboard_lists_chosen_tasks_as_a_checklist_in_table_order() {
    let rows = vec![heading(), task("t2"), task("t1"), task("t3")];
    let records = vec![
        record("t1", "First", &["p1"], &["Inbox"]),
        record("t2", "Second", &["p2", "p1"], &["Work", "Inbox"]),
        record("t3", "Orphan", &[], &[]),
    ];
    let mut chosen = TaskSelection::new();
    chosen.toggle(&"t1".to_string());
    chosen.toggle(&"t2".to_string());
    chosen.toggle(&"t3".to_string());
    assert_eq!(
        clipboard_markdown(&rows, &chosen, &records),
        "- [ ] [Second](https://app.asana.com/0/p2/t2)\n- [ ] [First](https://app.asana.com/0/p1/t1)\n"
    );
    assert_eq!(clipboard_markdown(&rows, &TaskSelection::new(), &records), "");
}

#[test]
fn a_task_link_names_its_first_project() {
    let records = vec![record("t1", "First", &["p9", "p1"], &["A", "B"]), record("t2", "Loose", &[], &[])];
    assert_eq!(task_link(&records, &"t1".to_string()), Some("https://app.asana.com/0/p9/t1".to_string()));
    assert_eq!(task_link(&records, &"t2".to_string()), None);
    assert_eq!(task_link(&records, &"t3".to_string()), None);
}

#[test]
fn the_column_cursor_is_held_to_the_columns_there_are() {
    assert_eq!(column_in_range(7, 3), 2);
    assert_eq!(column_in_range(1, 3), 1);
    assert_eq!(column_in_range(4, 0), 0);
    assert_eq!(move_column(1, 1, 3), 2);
    assert_eq!(move_column(2, 1, 3), 2);
    assert_eq!(move_column(0, -1, 3), 0);
    assert_eq!(move_column(9, -1, 3), 1);
}

#[test]
fn edits_apply_to_the_chosen_tasks_in_reading_order_else_the_cursor_task() {
    let recent = vec![task("r1")];
    let rows = vec![heading(), task("b"), task("a"), task("c")];
    let mut chosen = TaskSelection::new();
    chosen.toggle(&"a".to_string());
    chosen.toggle(&"r1".to_string());
    chosen.toggle(&"b".to_string());
    let cursor = "c".to_string();
    assert_eq!(edit_targets(&recent, &rows, &chosen, Some(&cursor)), strings(&["r1", "b", "a"]));
    let none = TaskSelection::new();
    assert_eq!(edit_targets(&recent, &rows, &none, Some(&cursor)), strings(&["c"]));
    assert_eq!(edit_targets(&recent, &rows, &none, None), Vec::<String>::new());
}

fn day() -> CivilDate {
    CivilDate::new(2026, 3, 14).unwrap()
}

#[test]
fn a_title_opens_as_text_for_one_task_only() {
    let rec = record("t1", "Ship it", &["p1"], &["Inbox"]);
    match open_editor(&EditField::Title, &rec, "", 1, day()) {
        Ok(CellEditor::Text(t)) => {
            assert_eq!(t.text(), "Ship it");
            assert_eq!(t.caret(), 7);
        }
        other => panic!("unexpected {:?}", other),
    }
    match open_editor(&EditField::Title, &rec, "", 3, day()) {
        Err(m) => assert_eq!(m, "a title is edited one task at a time (3 selected)"),
        other => panic!("unexpected {:?}", other),
    }
}

#[test]
fn a_date_cell_opens_its_picker_on_the_value() {
    let mut rec = record("t1", "Ship it", &["p1"], &["Inbox"]);
    rec.due_date = Some("2026-04-02".to_string());
    match open_editor(&EditField::Due, &rec, "", 1, day()) {
        Ok(CellEditor::Date { text, calendar }) => {
            assert_eq!(text.text(), "2026-04-02");
            assert_eq!(calendar.field_label(), "Due");
            assert_eq!(calendar.query(), "2026-04-02");
        }
        other => panic!("unexpected {:?}", other),
    }
    match open_editor(&EditField::Start, &rec, "", 1, day()) {
        Ok(CellEditor::Date { text, calendar }) => {
            assert_eq!(text.text(), "");
            assert_eq!(calendar.field_label(), "Start");
        }
        other => panic!("unexpected {:?}", other),
    }
}

#[test]
fn the_state_cell_opens_on_open_or_done() {
    let mut rec = record("t1", "Ship it", &["p1"], &["Inbox"]);
    rec.completed = true;
    match open_editor(&EditField::State, &rec, "", 1, day()) {
        Ok(CellEditor::Options { options, cursor, allow_empty }) => {
            assert_eq!(options, strings(&["open", "done"]));
            assert_eq!(cursor, Some(1));
            assert!(!allow_empty);
        }
        other => panic!("unexpected {:?}", other),
    }
}

#[test]
fn a_choice_field_opens_on_the_option_the_cell_shows() {
    let rec = record("t1", "Ship it", &["p1"], &["Inbox"]);
    let field = EditField::Choice(strings(&["Low", "High"]));
    assert_eq!(find_option(&strings(&["Low", "High"]), "  high "), Some(1));
    assert_eq!(find_option(&strings(&["Low", "High"]), "mid"), None);
    match open_editor(&field, &rec, " HIGH", 1, day()) {
        Ok(CellEditor::Options { options, cursor, allow_empty }) => {
            assert_eq!(options, strings(&["Low", "High"]));
            assert_eq!(cursor, Some(1));
            assert!(allow_empty);
        }
        other => panic!("unexpected {:?}", other),
    }
    match open_editor(&EditField::Free, &rec, "42", 1, day()) {
        Ok(CellEditor::Text(t)) => assert_eq!(t.text(), "42"),
        other => panic!("unexpected {:?}", other),
    }
    match open_editor(&EditField::Unsupported, &rec, "", 1, day()) {
        Err(m) => assert_eq!(m, "this field cannot be edited here yet"),
        other => panic!("unexpected {:?}", other),
    }
}

#[test]
fn beginning_an_edit_needs_a_task_under_the_cursor() {
    let mut pane = TaskState::new();
    pane.set_edit_notice("old report");
    assert_eq!(
        pane.begin_cell_edit(&EditField::Title, None, "", 0, Vec::new(), day()),
        Err("no task under the cursor".to_string())
    );
    assert_eq!(pane.edit_notice(), None);
    assert!(!pane.cell_edit_open());

    let rec = record("t1", "Ship it", &["p1"], &["Inbox"]);
    assert_eq!(pane.begin_cell_edit(&EditField::State, Some(&rec), "", 4, strings(&["t1", "t2"]), day()), Ok(()));
    assert!(pane.cell_edit_open());
    assert!(pane.cell_edit_is_options());
    assert_eq!(pane.cell_edit_target_count(), 2);
}

fn table_with(rows: Vec<TableRow>, recent: Vec<TableRow>) -> TaskTable {
    let mut t = TaskTable::new();
    t.rebuild(rows, recent, 3, &[]);
    t
}

#[test]
fn the_table_cursor_steps_and_jumps_over_headings() {
    let mut t = table_with(vec![heading(), task("a"), heading(), task("b"), task("c")], Vec::new());
    assert_eq!(t.selected(), Some(1));
    assert_eq!(t.apply(TableAction::MoveDown, &[]), None);
    assert_eq!(t.selected(), Some(3));
    t.apply(TableAction::MoveUp, &[]);
    assert_eq!(t.selected(), Some(1));
    t.apply(TableAction::MoveUp, &[]);
    assert_eq!(t.selected(), Some(1));
    t.apply(TableAction::JumpBottom, &[]);
    assert_eq!(t.selected(), Some(4));
    t.apply(TableAction::MoveDown, &[]);
    assert_eq!(t.selected(), Some(4));
    t.apply(TableAction::JumpTop, &[]);
    assert_eq!(t.selected(), Some(1));
}

#[test]
fn the_cursor_climbs_off_the_table_into_the_recent_pane_and_back() {
    let mut t = table_with(vec![heading(), task("a")], vec![task("r1"), task("r2")]);
    t.apply(TableAction::MoveUp, &[]);
    assert_eq!(t.recent_selected(), Some(1));
    assert_eq!(t.cursor_task(), Some("r2".to_string()));
    t.apply(TableAction::MoveUp, &[]);
    assert_eq!(t.recent_selected(), Some(0));
    t.apply(TableAction::MoveUp, &[]);
    assert_eq!(t.recent_selected(), Some(0));
    t.apply(TableAction::MoveDown, &[]);
    t.apply(TableAction::MoveDown, &[]);
    assert_eq!(t.recent_selected(), None);
    assert_eq!(t.selected(), Some(1));

    let mut hidden = table_with(vec![heading(), task("a")], vec![task("r1")]);
    hidden.toggle_recent_pane();
    hidden.apply(TableAction::MoveUp, &[]);
    assert_eq!(hidden.recent_selected(), None);
    assert_eq!(hidden.selected(), Some(1));
}

#[test]
fn choosing_the_cursor_task_moves_the_cursor_down() {
    let mut t = table_with(vec![heading(), task("a"), task("b")], Vec::new());
    t.apply(TableAction::ToggleSelection, &[]);
    assert!(t.chosen().contains(&"a".to_string()));
    assert_eq!(t.selected(), Some(2));
    t.apply(TableAction::SelectAllShown, &[]);
    assert_eq!(t.chosen().len(), 2);
    t.apply(TableAction::InvertSelection, &[]);
    assert_eq!(t.chosen().len(), 0);
    t.apply(TableAction::ToggleSelection, &[]);
    t.apply(TableAction::ClearHiddenSelection, &[]);
    assert_eq!(t.chosen().len(), 1);
    t.apply(TableAction::ClearSelection, &[]);
    assert_eq!(t.chosen().len(), 0);
}

#[test]
fn copying_hands_the_checklist_to_the_clipboard_only_when_there_is_one() {
    let records = vec![record("a", "Alpha", &["p1"], &["Inbox"])];
    let mut t = table_with(vec![heading(), task("a"), task("b")], Vec::new());
    assert_eq!(t.apply(TableAction::CopyToClipboard, &records), None);
    t.apply(TableAction::ToggleSelection, &records);
    assert_eq!(
        t.apply(TableAction::CopyToClipboard, &records),
        Some("- [ ] [Alpha](https://app.asana.com/0/p1/a)\n".to_string())
    );
}

#[test]
fn the_column_cursor_moves_within_the_columns() {
    let mut t = table_with(vec![task("a")], Vec::new());
    t.apply(TableAction::ColumnNext, &[]);
    t.apply(TableAction::ColumnNext, &[]);
    t.apply(TableAction::ColumnNext, &[]);
    assert_eq!(t.column(), 2);
    t.apply(TableAction::ColumnPrev, &[]);
    assert_eq!(t.column(), 1);
    t.rebuild(vec![task("a")], Vec::new(), 1, &[]);
    assert_eq!(t.column(), 0);
}

#[test]
fn a_rebuild_that_loses_the_cursor_task_follows_it_into_the_pane() {
    let mut t = table_with(vec![heading(), task("a"), task("b"), task("c")], Vec::new());
    t.apply(TableAction::MoveDown, &[]);
    assert_eq!(t.cursor_task(), Some("b".to_string()));
    t.toggle_recent_pane();
    t.rebuild(vec![heading(), task("a"), task("c")], vec![task("b")], 3, &[]);
    assert_eq!(t.recent_selected(), Some(0));
    assert_eq!(t.selected(), Some(2));
    assert_eq!(t.cursor_task(), Some("b".to_string()));
}

#[test]
fn a_rebuild_puts_the_cursor_on_the_parent_of_a_task_now_hidden() {
    let mut child = record("kid", "Kid", &["p1"], &["Inbox"]);
    child.parent_gid = Some("mom".to_string());
    let records = vec![child];
    let mut t = table_with(vec![heading(), task("mom"), task("kid"), task("z")], Vec::new());
    t.apply(TableAction::MoveDown, &records);
    assert_eq!(t.cursor_task(), Some("kid".to_string()));
    t.rebuild(vec![heading(), task("x"), task("mom"), task("z")], Vec::new(), 3, &records);
    assert_eq!(t.selected(), Some(2));
    assert_eq!(t.recent_selected(), None);
}

#[test]
fn a_record_with_no_selected_project_keeps_the_grouping_it_arrived_with() {
    let mut record = TaskRecord::new("t1".to_string(), "Task one".to_string());
    record.projects = strings(&["Alpha", "Northwind"]);
    let mut records = vec![record];

    prefer_selected_projects(&mut records, &strings(&["Assigned to me"]));

    assert_eq!(records[0].projects, strings(&["Alpha", "Northwind"]));
}

#[test]
fn a_task_in_two_projects_is_grouped_under_the_one_that_is_selected() {
    let mut record = TaskRecord::new("shared".to_string(), "In both projects".to_string());
    record.projects = strings(&["Alpha", "Northwind"]);
    let mut records = vec![record];

    prefer_selected_projects(&mut records, &strings(&["Northwind"]));

    assert_eq!(records[0].projects[0], "Northwind");
}
