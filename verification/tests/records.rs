use tuisana::filter_rows::{custom_field_row, standard_fields};
use tuisana::records::{
    date_from_text, reading, record_for, FetchedTask, FetchedUser, FetchedValue, Section, TaskRecord,
};
use tuisana::task::TaskState;

fn fetched(gid: &str, name: &str) -> FetchedTask {
    FetchedTask {
        gid: gid.to_string(),
        name: name.to_string(),
        completed: false,
        modified_at: None,
        assignee: None,
        due_on: None,
        start_on: None,
        num_subtasks: 0,
        membership_sections: Vec::new(),
        custom_fields: Vec::new(),
    }
}

fn sections() -> Vec<Section> {
    vec![
        Section { gid: "s1".to_string(), name: "Today".to_string() },
        Section { gid: "s2".to_string(), name: "Later".to_string() },
    ]
}

fn build(task: &FetchedTask) -> TaskRecord {
    record_for("p1", "Inbox", &sections(), None, None, None, 0, 7, task).0
}

#[test]
fn a_fetched_task_becomes_a_record_in_its_project_and_section() {
    let mut task = fetched("t1", "Ship it");
    task.completed = true;
    task.due_on = Some("2026-07-20".to_string());
    task.membership_sections = vec![None, Some(Section { gid: "s2".to_string(), name: "Renamed".to_string() })];
    task.assignee = Some(FetchedUser { gid: "u1".to_string(), name: Some("Alex".to_string()), display_name: None });

    let (record, next) = record_for("p1", "Inbox", &sections(), None, None, None, 0, 7, &task);

    assert_eq!(record.gid, "t1");
    assert!(record.completed);
    assert_eq!(record.projects, vec!["Inbox".to_string()]);
    assert_eq!(record.project_gids, vec!["p1".to_string()]);
    // The project's own name for the section, and its place in the project.
    assert_eq!(record.sections, vec!["Later".to_string()]);
    assert_eq!(record.section_order, Some(1));
    assert_eq!(record.assignee.as_deref(), Some("Alex"));
    assert_eq!(record.assignee_gid.as_deref(), Some("u1"));
    assert_eq!(record.natural_order, 7);
    assert_eq!(next, 8);
}

#[test]
fn the_display_name_wins_and_the_id_is_the_last_resort() {
    let mut task = fetched("t1", "Ship it");
    task.assignee = Some(FetchedUser {
        gid: "u1".to_string(),
        name: Some("alex".to_string()),
        display_name: Some("Alex C.".to_string()),
    });
    assert_eq!(build(&task).assignee.as_deref(), Some("Alex C."));
    task.assignee = Some(FetchedUser { gid: "u1".to_string(), name: None, display_name: None });
    assert_eq!(build(&task).assignee.as_deref(), Some("u1"));
}

#[test]
fn a_subtask_keeps_the_section_its_parent_passes_down() {
    let mut task = fetched("t2", "Pack it");
    task.membership_sections = vec![Some(Section { gid: "s1".to_string(), name: "Today".to_string() })];
    let (record, _) = record_for(
        "p1",
        "Inbox",
        &sections(),
        Some("Later".to_string()),
        Some(1),
        Some("t1".to_string()),
        1,
        0,
        &task,
    );
    assert_eq!(record.sections, vec!["Later".to_string()]);
    assert_eq!(record.section_order, Some(1));
    assert_eq!(record.parent_gid.as_deref(), Some("t1"));
    assert_eq!(record.subtask_depth, 1);
}

#[test]
fn blank_custom_values_are_dropped_and_the_rest_grouped_by_field() {
    let mut task = fetched("t1", "Ship it");
    task.custom_fields = vec![
        FetchedValue { gid: "cf1".to_string(), display_value: Some("High".to_string()), enum_name: None },
        FetchedValue { gid: "cf2".to_string(), display_value: Some("  ".to_string()), enum_name: None },
        FetchedValue { gid: "cf1".to_string(), display_value: None, enum_name: Some("Urgent".to_string()) },
    ];
    let record = build(&task);
    assert_eq!(record.custom_fields, vec![("cf1".to_string(), vec!["High".to_string(), "Urgent".to_string()])]);
}

#[test]
fn iso_dates_read_and_anything_else_does_not() {
    assert!(date_from_text("2026-07-20").is_some());
    assert!(date_from_text("2026-02-30").is_none());
    assert!(date_from_text("20260720").is_none());
    assert!(date_from_text("2026-7-20").is_none());
}

#[test]
fn each_row_reads_its_own_field_of_a_record() {
    let mut task = fetched("t1", "Ship it");
    task.completed = true;
    task.due_on = Some("2026-07-20".to_string());
    task.custom_fields =
        vec![FetchedValue { gid: "cf1".to_string(), display_value: Some("High".to_string()), enum_name: None }];
    let record = build(&task);
    let fields = standard_fields();
    let title = fields.iter().find(|f| f.spec.key == "title").unwrap();
    assert_eq!(reading(&title.spec, &record).text, "Ship it");
    let state = fields.iter().find(|f| f.spec.key == "state").unwrap();
    assert_eq!(reading(&state.spec, &record).labels, vec!["done".to_string()]);
    let due = fields.iter().find(|f| f.spec.key == "due").unwrap();
    assert_eq!(reading(&due.spec, &record).date.map(|d| d.iso()), Some("2026-07-20".to_string()));
    let priority = custom_field_row("Priority", vec!["cf1".to_string()], &vec!["High".to_string()]);
    assert_eq!(reading(&priority.spec, &record).text, "High");
    assert_eq!(reading(&priority.spec, &record).labels, vec!["High".to_string()]);
}

#[test]
fn the_panel_keeps_the_records_its_rows_accept() {
    let records = vec![build(&fetched("t1", "Ship release")), build(&fetched("t2", "Draft plan"))];
    let mut state = TaskState::new();
    state.rebuild_filter_panel(standard_fields());
    state.toggle_filter_panel();
    assert_eq!(state.filter_records(&records), vec![0, 1]);
    state.filter_edit_begin();
    for ch in "ship".chars() {
        state.filter_push_char(ch);
    }
    assert_eq!(state.filter_records(&records), vec![0]);
    // A new, empty set accepts everything: every record shows again.
    state.filter_add_set();
    assert_eq!(state.filter_records(&records), vec![0, 1]);
}

#[test]
fn a_projects_tasks_become_records_numbered_in_the_order_fetched() {
    let tasks = vec![fetched("t1", "One"), fetched("t2", "Two")];
    let (records, next) = tuisana::records::records_from_tasks("p1", "Inbox", &sections(), &tasks, 5);
    assert_eq!(next, 7);
    assert_eq!(records.len(), 2);
    assert_eq!(records[0].gid, "t1");
    assert_eq!(records[0].natural_order, 5);
    assert_eq!(records[1].natural_order, 6);
    assert_eq!(records[1].projects, vec!["Inbox".to_string()]);
    assert_eq!(records[1].project_gids, vec!["p1".to_string()]);

    let (last, next) = tuisana::records::records_from_tasks("p1", "Inbox", &sections(), &tasks, usize::MAX);
    assert_eq!(next, usize::MAX);
    assert_eq!(last[1].natural_order, usize::MAX);
}
