use tuisana::date::{today, CivilDate};
use tuisana::filter::{
    prepare_at, FieldReading, PreparedMatcher, SavedFilterField, SavedFilterSet, TaskFieldFilterKind,
    TaskFieldStringMode, TaskFilterFieldSpec, TaskFilterFieldState, TaskFilterSet,
};
use tuisana::filter_panel::SidebarPrompt;
use tuisana::filter_rows::{custom_field_row, standard_fields};
use tuisana::task::TaskState;

/// A task as the filter panel reads it.
#[derive(Clone)]
struct Task {
    gid: &'static str,
    name: &'static str,
    completed: bool,
    due: Option<&'static str>,
    assignee: Option<&'static str>,
    custom: Vec<(&'static str, &'static str)>,
}

fn sel_task(gid: &'static str, name: &'static str, completed: bool) -> Task {
    Task { gid, name, completed, due: None, assignee: None, custom: Vec::new() }
}

fn sel_task_due(gid: &'static str, name: &'static str, assignee: &'static str, due: &'static str) -> Task {
    Task { gid, name, completed: false, due: Some(due), assignee: Some(assignee), custom: Vec::new() }
}

fn task_with(
    gid: &'static str,
    due: Option<&'static str>,
    assignee: Option<&'static str>,
    priority: Option<&'static str>,
) -> Task {
    Task {
        gid,
        name: gid,
        completed: false,
        due,
        assignee,
        custom: priority.map(|value| vec![("Priority", value)]).unwrap_or_default(),
    }
}

fn date(text: &str) -> CivilDate {
    let year: i32 = text[0..4].parse().unwrap();
    let month: u32 = text[5..7].parse().unwrap();
    let day: u32 = text[8..10].parse().unwrap();
    CivilDate::new(year, month, day).unwrap()
}

/// A state whose panel is built from the task's own fields and one row per
/// custom field name, with the values the tasks carry.
struct Loaded {
    state: TaskState,
    tasks: Vec<Task>,
    custom: Vec<&'static str>,
}

fn rows_for(tasks: &[Task], custom: &[&'static str]) -> Vec<TaskFilterFieldState> {
    let mut fields = standard_fields();
    for name in custom {
        let seen: Vec<String> = tasks
            .iter()
            .flat_map(|task| task.custom.iter())
            .filter(|(field, _)| field == name)
            .map(|(_, value)| value.to_string())
            .collect();
        fields.push(custom_field_row(name, vec![format!("cf-{name}")], &seen));
    }
    fields
}

fn loaded(tasks: Vec<Task>, custom: Vec<&'static str>) -> Loaded {
    let mut state = TaskState::new();
    state.rebuild_filter_panel(rows_for(&tasks, &custom));
    Loaded { state, tasks, custom }
}

fn loaded_state_with_tasks(tasks: Vec<Task>) -> Loaded {
    loaded(tasks, Vec::new())
}

fn loaded_state_with_priority_field(tasks: Vec<Task>) -> Loaded {
    loaded(tasks, vec!["Priority"])
}

impl Loaded {
    /// The same rebuild a project finishing its fetch triggers.
    fn refresh_from_cache(&mut self) {
        let rows = rows_for(&self.tasks, &self.custom);
        self.state.rebuild_filter_panel(rows);
    }

    fn readings(&self, task: &Task) -> Vec<FieldReading> {
        let text = |s: &str| FieldReading { text: s.to_string(), labels: Vec::new(), date: None, assignee_gid: None };
        let mut out = vec![
            text(task.name),
            FieldReading {
                text: task.assignee.unwrap_or("").to_string(),
                labels: Vec::new(),
                date: None,
                assignee_gid: task.assignee.map(|name| format!("user-{name}")),
            },
            FieldReading { text: String::new(), labels: Vec::new(), date: task.due.map(date), assignee_gid: None },
            FieldReading { text: String::new(), labels: Vec::new(), date: None, assignee_gid: None },
            FieldReading {
                text: String::new(),
                labels: vec![if task.completed { "done" } else { "open" }.to_string()],
                date: None,
                assignee_gid: None,
            },
            text("Inbox"),
        ];
        for name in &self.custom {
            let values: Vec<String> = task
                .custom
                .iter()
                .filter(|(field, _)| field == name)
                .map(|(_, value)| value.to_string())
                .collect();
            out.push(FieldReading { text: values.join(" "), labels: values, date: None, assignee_gid: None });
        }
        out
    }

    /// The gids of the tasks the panel lets through. The panel decides which
    /// tasks show; their order is the table's, so these come sorted.
    fn visible_gids(&self) -> Vec<&'static str> {
        let records: Vec<Vec<FieldReading>> = self.tasks.iter().map(|task| self.readings(task)).collect();
        let mut gids: Vec<&'static str> =
            self.state.apply_filter_panel(&records).into_iter().map(|i| self.tasks[i].gid).collect();
        gids.sort();
        gids
    }
}

fn sorted(mut v: Vec<&'static str>) -> Vec<&'static str> {
    v.sort();
    v
}

/// Moves the filter cursor to the row with this key or label.
fn select_field(state: &mut TaskState, key: &str) {
    let index = state
        .filter_editor()
        .fields()
        .iter()
        .position(|field| field.spec.key == key || field.spec.label == key)
        .unwrap_or_else(|| panic!("the {key} field exists"));
    for _ in 0..state.filter_editor().fields().len() {
        state.move_filter_up();
    }
    for _ in 0..index {
        state.move_filter_down();
    }
    assert_eq!(state.filter_editor().selected(), index);
}

/// Puts `query` in the named row of the active set, the way a user types it.
fn set_field(state: &mut TaskState, key: &str, query: &str) {
    select_field(state, key);
    state.filter_clear_current();
    for ch in query.chars() {
        state.filter_push_char(ch);
    }
}

fn state_for_push_down() -> Loaded {
    let mut loaded = loaded_state_with_tasks(vec![sel_task_due("t1", "Task one", "Alex", "2026-09-03")]);
    loaded.state.toggle_filter_panel();
    loaded
}

/// One set's row, as `(label, query)`.
fn row_of_set(state: &TaskState, set: usize, row: usize) -> String {
    let field = &state.filter_editor().sets()[set].fields[row];
    if field.empty_required {
        "(none)".to_string()
    } else {
        field.value.text()
    }
}

#[test]
fn label_filters_support_multiple_selected_values_and_label_navigation() {
    let mut open = task_with("t1", None, None, Some("High"));
    open.name = "Open task";
    let mut closed = task_with("t2", None, None, Some("Low"));
    closed.name = "Closed task";
    closed.completed = true;
    let mut loaded = loaded_state_with_priority_field(vec![open, closed]);
    let state = &mut loaded.state;
    state.set_visible(true);

    for _ in 0..4 {
        state.move_filter_down();
    }
    assert_eq!(state.filter_selected_kind(), Some(TaskFieldFilterKind::Labels));

    state.filter_edit_begin();
    state.filter_add_label();
    assert_eq!(loaded.visible_gids().len(), 1);
    let selected = |state: &TaskState| state.filter_editor().fields()[state.filter_editor().selected()].label_values.clone();
    assert_eq!(selected(&loaded.state), vec!["open".to_string()]);

    let state = &mut loaded.state;
    state.filter_add_label();
    state.filter_move_label_right();
    state.filter_cycle_label_value(1);
    assert_eq!(selected(&loaded.state), vec!["open".to_string(), "done".to_string()]);
    assert_eq!(loaded.visible_gids().len(), 2);

    let state = &mut loaded.state;
    state.filter_move_label_left();
    state.filter_delete_label();
    assert_eq!(loaded.visible_gids().len(), 1);
    assert_eq!(selected(&loaded.state), vec!["done".to_string()]);
}

#[test]
fn editing_a_filter_keeps_its_caret_while_projects_stream_in() {
    let mut loaded = loaded_state_with_priority_field(vec![task_with("t1", None, None, Some("High"))]);
    loaded.state.set_visible(true);
    let state = &mut loaded.state;

    state.toggle_filter_panel();
    state.move_filter_down();
    assert_eq!(state.filter_panel_rows()[state.filter_editor().selected()].0, "Assignee");
    state.filter_edit_begin();
    for ch in "alice".chars() {
        state.filter_push_char(ch);
    }
    state.filter_move_caret(-2);

    loaded.refresh_from_cache();

    let state = &mut loaded.state;
    let row = &state.filter_editor().fields()[state.filter_editor().selected()];
    assert_eq!(row.value.text(), "alice");
    assert_eq!(row.value.caret(), 3);

    state.filter_push_char('X');
    assert_eq!(state.filter_panel_rows()[state.filter_editor().selected()].1, "aliXce");
}

#[test]
fn due_date_range_for_query_extracts_explicit_dates() {
    let mut loaded = loaded_state_with_tasks(Vec::new());
    set_field(&mut loaded.state, "due", "2026-01-01..2026-06-30");
    let (after, before) = loaded.state.due_date_range_for_query();
    assert_eq!(after.as_deref(), Some("2026-01-01"));
    assert_eq!(before.as_deref(), Some("2026-06-30"));
}

#[test]
fn due_date_range_for_query_resolves_keywords() {
    let mut loaded = loaded_state_with_tasks(Vec::new());
    set_field(&mut loaded.state, "due", "today..2026-12-31");
    let (after, before) = loaded.state.due_date_range_for_query();
    assert_eq!(after.as_deref(), Some(today().iso().as_str()));
    assert_eq!(before.as_deref(), Some("2026-12-31"));
}

#[test]
fn due_date_range_for_query_bounds_an_exact_date_on_both_sides() {
    let mut loaded = loaded_state_with_tasks(Vec::new());
    set_field(&mut loaded.state, "due", "2026-03-04");
    let (after, before) = loaded.state.due_date_range_for_query();
    assert_eq!(after.as_deref(), Some("2026-03-04"));
    assert_eq!(before.as_deref(), Some("2026-03-04"));
}

#[test]
fn due_date_range_for_query_pushes_nothing_for_an_unparseable_query() {
    let mut loaded = loaded_state_with_tasks(Vec::new());
    set_field(&mut loaded.state, "due", "someday");
    assert_eq!(loaded.state.due_date_range_for_query(), (None, None));
}

#[test]
fn the_pushed_down_due_window_is_the_union_of_the_sets() {
    let mut loaded = state_for_push_down();
    let state = &mut loaded.state;
    set_field(state, "due", "2026-09-01..2026-09-07");
    state.filter_add_set();
    set_field(state, "due", "2026-12-01..2026-12-31");

    let (after, before) = state.due_date_range_for_query();
    assert_eq!(after.as_deref(), Some("2026-09-01"), "the earliest start");
    assert_eq!(before.as_deref(), Some("2026-12-31"), "the latest end");
}

#[test]
fn a_negated_due_row_pushes_down_no_due_window_at_all() {
    let mut loaded = state_for_push_down();
    let state = &mut loaded.state;
    set_field(state, "due", "2026-09-01..2026-09-07");
    assert!(state.due_date_range_for_query().0.is_some());

    select_field(state, "due");
    state.filter_toggle_negate_field();

    assert_eq!(state.due_date_range_for_query(), (None, None));
}

#[test]
fn a_negated_set_pushes_down_no_due_window_at_all() {
    let mut loaded = state_for_push_down();
    let state = &mut loaded.state;
    set_field(state, "due", "2026-09-01..2026-09-07");

    state.filter_toggle_negate_set();

    assert_eq!(state.due_date_range_for_query(), (None, None));
}

#[test]
fn a_set_with_no_due_filter_pushes_down_no_due_window_at_all() {
    let mut loaded = state_for_push_down();
    let state = &mut loaded.state;
    set_field(state, "due", "2026-09-01..2026-09-07");
    state.filter_add_set();

    assert_eq!(state.due_date_range_for_query(), (None, None));
}

#[test]
fn a_set_requiring_an_empty_due_date_pushes_down_no_due_window() {
    let mut loaded = state_for_push_down();
    let state = &mut loaded.state;
    set_field(state, "due", "2026-09-01..2026-09-07");
    state.filter_add_set();
    select_field(state, "due");
    state.filter_toggle_require_empty();

    let (after, before) = state.due_date_range_for_query();
    assert_eq!(after, None, "undated tasks would be filtered out server-side");
    assert_eq!(before, None);
}

#[test]
fn an_open_ended_set_opens_that_side_of_the_union() {
    let mut loaded = state_for_push_down();
    let state = &mut loaded.state;
    set_field(state, "due", "2026-09-01..");
    state.filter_add_set();
    set_field(state, "due", "2026-10-01..2026-10-02");

    let (after, before) = state.due_date_range_for_query();
    assert_eq!(after.as_deref(), Some("2026-09-01"));
    assert_eq!(before, None);
}

#[test]
fn filter_sets_survive_the_rebuild_that_each_streamed_project_triggers() {
    let mut loaded = loaded_state_with_tasks(vec![sel_task_due("t1", "Task one", "Alex", "2026-12-01")]);
    loaded.state.set_visible(true);
    let state = &mut loaded.state;

    state.toggle_filter_panel();
    set_field(state, "assignee", "alex");
    state.filter_add_set();
    set_field(state, "due", "2026-12-01");
    state.filter_edit_begin();

    loaded.refresh_from_cache();

    let state = &loaded.state;
    assert_eq!(state.filter_set_position(), (1, 2), "two sets, still on the second");
    assert_eq!(row_of_set(state, 0, 1), "alex");
    assert_eq!(state.filter_panel_rows()[2].1, "2026-12-01");
    assert!(state.filter_panel_editing(), "and the edit was not interrupted");
}

#[test]
fn filter_sets_survive_a_reload_that_rebuilds_a_shared_custom_field_row() {
    let mut ship = sel_task("t1", "Ship release", false);
    ship.custom = vec![("Tag", "red")];
    let mut draft = sel_task("t2", "Draft plan", false);
    draft.custom = vec![("Tag", "blue")];

    let mut loaded = loaded(vec![ship], vec!["Tag"]);
    let state = &mut loaded.state;
    state.toggle_filter_panel();

    set_field(state, "title", "ship");
    state.filter_add_set();
    select_field(state, "Tag");
    state.filter_toggle_require_empty();

    // The second project arrives and the Tag row is rebuilt around both.
    loaded.tasks.push(draft);
    loaded.refresh_from_cache();

    let state = &loaded.state;
    assert_eq!(state.filter_set_position(), (1, 2), "both sets survived");
    assert_eq!(row_of_set(state, 0, 0), "ship");
    assert_eq!(row_of_set(state, 1, 6), "(none)", "and the require-empty came across onto the rebuilt row");
}

#[test]
fn requiring_an_empty_field_matches_only_the_records_with_nothing_in_it() {
    let mut loaded = loaded_state_with_priority_field(vec![
        task_with("dated", Some("2026-09-01"), Some("Alex"), Some("High")),
        task_with("undated", None, None, None),
        task_with("blank-assignee", Some("2026-09-02"), Some("   "), None),
    ]);
    loaded.state.toggle_filter_panel();

    select_field(&mut loaded.state, "due");
    loaded.state.filter_toggle_require_empty();
    assert_eq!(loaded.visible_gids(), vec!["undated"]);

    loaded.state.filter_toggle_require_empty();
    select_field(&mut loaded.state, "assignee");
    loaded.state.filter_toggle_require_empty();
    assert_eq!(loaded.visible_gids(), sorted(vec!["blank-assignee", "undated"]), "whitespace is as empty as missing");

    loaded.state.filter_toggle_require_empty();
    select_field(&mut loaded.state, "Priority");
    loaded.state.filter_toggle_require_empty();
    assert_eq!(
        loaded.visible_gids(),
        sorted(vec!["blank-assignee", "undated"]),
        "a label field with no value for the task counts as empty"
    );
}

#[test]
fn a_require_empty_and_a_query_replace_one_another() {
    let mut loaded = loaded_state_with_tasks(vec![sel_task("t1", "Task one", false)]);
    let state = &mut loaded.state;
    state.toggle_filter_panel();
    select_field(state, "assignee");

    state.filter_toggle_require_empty();
    assert_eq!(state.filter_panel_rows()[1].1, "(none)");

    state.filter_push_char('a');
    assert_eq!(state.filter_panel_rows()[1].1, "a", "typing replaces it");

    state.filter_toggle_require_empty();
    assert_eq!(state.filter_panel_rows()[1].1, "(none)", "and it replaces the text");

    state.filter_clear_current();
    assert_eq!(state.filter_panel_rows()[1].1, "");
}

#[test]
fn a_require_empty_counts_as_an_active_filter() {
    let mut loaded = loaded_state_with_tasks(vec![sel_task("t1", "Task one", false)]);
    let state = &mut loaded.state;
    state.toggle_filter_panel();
    assert_eq!(state.active_filter_count(), 0);

    select_field(state, "due");
    state.filter_toggle_require_empty();

    assert_eq!(state.active_filter_count(), 1);
}

#[test]
fn the_state_field_cannot_require_an_empty_value() {
    let mut loaded = loaded_state_with_tasks(vec![sel_task("t1", "Task one", false), sel_task("t2", "Task two", true)]);
    let state = &mut loaded.state;
    state.toggle_filter_panel();
    select_field(state, "state");

    state.filter_toggle_require_empty();

    assert_eq!(state.filter_panel_rows()[4].1, "");
    assert_eq!(state.active_filter_count(), 0);
    assert_eq!(loaded.visible_gids().len(), 2, "nothing was filtered out");
}

#[test]
fn opening_the_calendar_on_a_require_empty_date_clears_it() {
    let mut loaded = loaded_state_with_tasks(vec![sel_task("t1", "Task one", false)]);
    let state = &mut loaded.state;
    state.toggle_filter_panel();
    select_field(state, "due");
    state.filter_toggle_require_empty();

    assert!(state.filter_calendar_begin());

    assert_eq!(state.filter_panel_rows()[2].1, "", "a date is about to be picked");
}

#[test]
fn one_set_can_ask_for_soon_while_another_asks_for_undated() {
    let mut loaded = loaded_state_with_tasks(vec![
        task_with("soon", Some("2026-08-26"), None, None),
        task_with("later", Some("2026-11-01"), None, None),
        task_with("someday", None, None, None),
    ]);
    let state = &mut loaded.state;
    state.toggle_filter_panel();
    set_field(state, "due", "2026-08-24..2026-08-31");
    state.filter_add_set();
    select_field(state, "due");
    state.filter_toggle_require_empty();

    assert_eq!(loaded.visible_gids(), sorted(vec!["soon", "someday"]));
}

#[test]
fn filter_sets_or_while_their_fields_still_and() {
    let mut loaded = loaded_state_with_tasks(vec![
        sel_task_due("alex-aug", "Alex August", "Alex", "2026-08-10"),
        sel_task_due("jo-aug", "Jo August", "Jo", "2026-08-11"),
        sel_task_due("jo-dec", "Jo December", "Jo", "2026-12-01"),
    ]);
    loaded.state.toggle_filter_panel();

    set_field(&mut loaded.state, "assignee", "alex");
    set_field(&mut loaded.state, "due", "2026-08-01..2026-08-31");
    assert_eq!(loaded.visible_gids(), vec!["alex-aug"], "one set still ANDs");

    loaded.state.filter_add_set();
    set_field(&mut loaded.state, "due", "2026-12-01");

    assert_eq!(loaded.visible_gids(), sorted(vec!["alex-aug", "jo-dec"]), "and the two sets union");
}

#[test]
fn a_regex_row_compiles_its_pattern_once_for_the_whole_pass() {
    let mut field = TaskFilterFieldState::new(
        TaskFilterFieldSpec {
            completes: false,
            key: "title".to_string(),
            label: "Title".to_string(),
            kind: TaskFieldFilterKind::String,
            custom_gids: Vec::new(),
            can_be_empty: true,
        },
        TaskFieldStringMode::Regex,
        Vec::new(),
    );
    field.value.set_text_at_end("^ship");

    let compiled = PreparedMatcher::for_field(&field, today(), None);
    assert!(matches!(compiled, PreparedMatcher::Regex { builds: true, .. }));

    // And a pattern that cannot compile matches nothing, rather than reading
    // as "no filter" and letting everything through.
    field.value.set_text_at_end("(unclosed");
    let broken = PreparedMatcher::for_field(&field, today(), None);
    assert!(matches!(broken, PreparedMatcher::Regex { builds: false, .. }));

    let set = TaskFilterSet { fields: vec![field], negated: false, unresolved: Vec::new() };
    let filter = prepare_at(&[set], today(), None);
    let record = vec![FieldReading { text: "Ship it".to_string(), labels: Vec::new(), date: None, assignee_gid: None }];
    assert!(!filter.matches(&record));
}

#[test]
fn a_regex_filter_still_matches_the_same_records_it_always_did() {
    let mut loaded = loaded_state_with_tasks(vec![
        sel_task("t1", "Ship the release", false),
        sel_task("t2", "Review the shipment", false),
    ]);
    loaded.state.toggle_filter_panel();
    loaded.state.filter_set_mode(TaskFieldStringMode::Regex);
    set_field(&mut loaded.state, "title", "^ship");

    assert_eq!(loaded.visible_gids(), vec!["t1"], "anchored at the start");
}

#[test]
fn negating_a_field_keeps_exactly_what_it_was_throwing_away() {
    let mut loaded = loaded_state_with_tasks(vec![
        sel_task_due("alex-aug", "Alex August", "Alex", "2026-08-10"),
        sel_task_due("jo-aug", "Jo August", "Jo", "2026-08-11"),
    ]);
    loaded.state.toggle_filter_panel();
    set_field(&mut loaded.state, "assignee", "alex");
    assert_eq!(loaded.visible_gids(), vec!["alex-aug"]);

    loaded.state.filter_toggle_negate_field();
    assert_eq!(loaded.visible_gids(), vec!["jo-aug"], "the complement");

    loaded.state.filter_toggle_negate_field();
    assert_eq!(loaded.visible_gids(), vec!["alex-aug"], "and back");
}

#[test]
fn a_negated_field_with_no_value_still_filters_nothing() {
    let mut loaded = loaded_state_with_tasks(vec![sel_task("t1", "Task one", false), sel_task("t2", "Task two", false)]);
    loaded.state.toggle_filter_panel();
    select_field(&mut loaded.state, "assignee");

    loaded.state.filter_toggle_negate_field();

    assert_eq!(loaded.visible_gids().len(), 2);
    assert_eq!(loaded.state.active_filter_count(), 0, "and it is not counted");
}

#[test]
fn negating_a_require_empty_asks_for_any_value_at_all() {
    let mut loaded = loaded_state_with_tasks(vec![
        task_with("owned", None, Some("Alex"), None),
        task_with("orphan", None, None, None),
    ]);
    loaded.state.toggle_filter_panel();
    select_field(&mut loaded.state, "assignee");
    loaded.state.filter_toggle_require_empty();
    assert_eq!(loaded.visible_gids(), vec!["orphan"]);

    loaded.state.filter_toggle_negate_field();

    assert_eq!(loaded.visible_gids(), vec!["owned"]);
}

#[test]
fn negating_a_set_inverts_its_fields_together_rather_than_one_by_one() {
    let mut loaded = loaded_state_with_tasks(vec![
        sel_task_due("alex-aug", "Alex August", "Alex", "2026-08-10"),
        sel_task_due("jo-aug", "Jo August", "Jo", "2026-08-11"),
        sel_task_due("alex-dec", "Alex December", "Alex", "2026-12-01"),
    ]);
    loaded.state.toggle_filter_panel();
    set_field(&mut loaded.state, "assignee", "alex");
    set_field(&mut loaded.state, "due", "2026-08-01..2026-08-31");

    loaded.state.filter_toggle_negate_set();

    assert!(loaded.state.filter_active_set_negated());
    assert_eq!(loaded.visible_gids(), sorted(vec!["jo-aug", "alex-dec"]));
}

#[test]
fn a_negated_set_still_ors_with_the_others() {
    let mut loaded = loaded_state_with_tasks(vec![
        sel_task_due("alex-aug", "Alex August", "Alex", "2026-08-10"),
        sel_task_due("jo-aug", "Jo August", "Jo", "2026-08-11"),
        sel_task_due("jo-dec", "Jo December", "Jo", "2026-12-01"),
    ]);
    loaded.state.toggle_filter_panel();
    set_field(&mut loaded.state, "assignee", "alex");
    loaded.state.filter_toggle_negate_set();
    loaded.state.filter_add_set();
    set_field(&mut loaded.state, "due", "2026-12-01");

    assert_eq!(loaded.state.filter_set_negations(), vec![true, false]);
    assert_eq!(loaded.visible_gids(), sorted(vec!["jo-aug", "jo-dec"]));
}

#[test]
fn a_negated_empty_set_contributes_nothing_rather_than_everything() {
    let mut loaded = loaded_state_with_tasks(vec![
        sel_task_due("alex-aug", "Alex August", "Alex", "2026-08-10"),
        sel_task_due("jo-aug", "Jo August", "Jo", "2026-08-11"),
    ]);
    loaded.state.toggle_filter_panel();
    set_field(&mut loaded.state, "assignee", "alex");
    loaded.state.filter_add_set();

    loaded.state.filter_toggle_negate_set();

    assert_eq!(loaded.visible_gids(), vec!["alex-aug"], "set 1 alone");
}

#[test]
fn a_new_set_and_a_cleared_row_drop_the_negations_they_inherited() {
    let mut loaded = loaded_state_with_tasks(vec![sel_task("t1", "Task one", false)]);
    let state = &mut loaded.state;
    state.toggle_filter_panel();
    set_field(state, "assignee", "alex");
    state.filter_toggle_negate_field();
    state.filter_toggle_negate_set();

    state.filter_add_set();

    assert_eq!(state.filter_set_negations(), vec![true, false]);
    assert!(!state.filter_editor().fields()[1].negated, "the copied row starts clean");

    state.filter_select_set(-1);
    select_field(state, "assignee");
    state.filter_clear_current();
    assert!(!state.filter_editor().fields()[1].negated);
}

#[test]
fn negations_survive_the_rebuild_a_reload_triggers() {
    let mut loaded = loaded_state_with_tasks(vec![sel_task_due("alex-aug", "Alex August", "Alex", "2026-08-10")]);
    loaded.state.toggle_filter_panel();
    set_field(&mut loaded.state, "assignee", "alex");
    loaded.state.filter_toggle_negate_field();
    loaded.state.filter_toggle_negate_set();

    loaded.refresh_from_cache();

    assert_eq!(loaded.state.filter_set_negations(), vec![true]);
    assert!(loaded.state.filter_editor().fields()[1].negated);
}

#[test]
fn an_empty_set_accepts_everything_so_adding_one_can_only_widen() {
    let mut loaded = loaded_state_with_tasks(vec![
        sel_task_due("alex-aug", "Alex August", "Alex", "2026-08-10"),
        sel_task_due("jo-aug", "Jo August", "Jo", "2026-08-11"),
        sel_task_due("jo-dec", "Jo December", "Jo", "2026-12-01"),
    ]);
    loaded.state.toggle_filter_panel();
    set_field(&mut loaded.state, "assignee", "alex");
    let narrowed = loaded.visible_gids().len();

    loaded.state.filter_add_set();

    assert_eq!(loaded.visible_gids().len(), 3, "the empty set lets everything through");
    assert!(narrowed < 3, "and the first set really was narrowing");
}

#[test]
fn a_new_set_starts_empty_and_lands_after_the_current_one() {
    let mut loaded = loaded_state_with_tasks(vec![sel_task("t1", "Task one", false)]);
    let state = &mut loaded.state;
    state.toggle_filter_panel();
    set_field(state, "assignee", "alex");

    state.filter_add_set();

    assert_eq!(state.filter_set_position(), (1, 2));
    assert_eq!(state.filter_set_counts(), vec![1, 0]);
    assert!(
        state.filter_panel_rows().iter().all(|(_, query)| query.is_empty()),
        "the new set carries nothing over"
    );
}

#[test]
fn the_last_set_cannot_be_removed() {
    let mut loaded = loaded_state_with_tasks(vec![sel_task("t1", "Task one", false)]);
    let state = &mut loaded.state;
    state.toggle_filter_panel();

    state.filter_remove_set();
    assert_eq!(state.filter_set_position(), (0, 1), "one set is the panel");

    state.filter_add_set();
    state.filter_remove_set();
    assert_eq!(state.filter_set_position(), (0, 1));
}

#[test]
fn removing_the_last_tab_moves_the_cursor_back_onto_a_tab_that_exists() {
    let mut loaded = loaded_state_with_tasks(vec![sel_task("t1", "Task one", false)]);
    let state = &mut loaded.state;
    state.toggle_filter_panel();
    state.filter_add_set();
    state.filter_add_set();
    assert_eq!(state.filter_set_position(), (2, 3));

    state.filter_remove_set();

    assert_eq!(state.filter_set_position(), (1, 2));
}

#[test]
fn switching_sets_wraps_and_closes_any_open_picker() {
    let mut loaded = loaded_state_with_tasks(vec![sel_task("t1", "Task one", false)]);
    let state = &mut loaded.state;
    state.toggle_filter_panel();
    state.filter_add_set();
    select_field(state, "due");
    assert!(state.filter_calendar_begin());

    state.filter_select_set(1);

    assert_eq!(state.filter_set_position().0, 0, "wrapped from the last to the first");
    assert!(!state.calendar_open(), "the picker belonged to the set we left");
    assert!(!state.filter_panel_editing());
}

#[test]
fn the_field_cursor_is_shared_by_every_set() {
    let mut loaded = loaded_state_with_tasks(vec![sel_task("t1", "Task one", false)]);
    let state = &mut loaded.state;
    state.toggle_filter_panel();
    select_field(state, "projects");
    let row = state.filter_editor().selected();

    state.filter_add_set();
    assert_eq!(state.filter_editor().selected(), row);
    state.filter_select_set(-1);
    assert_eq!(state.filter_editor().selected(), row);
}

fn saved_field(key: &str, query: &str) -> SavedFilterField {
    SavedFilterField { key: key.to_string(), query: query.to_string(), string_mode: None, empty: false, negated: false }
}

#[test]
fn a_saved_field_with_no_row_to_land_on_is_parked_rather_than_dropped() {
    let mut loaded = loaded_state_with_tasks(vec![sel_task("t1", "Ship", false)]);
    let state = &mut loaded.state;
    let saved = vec![SavedFilterSet {
        negated: false,
        fields: vec![saved_field("assignee", "alex"), saved_field("custom:Priority", "High")],
    }];

    state.filter_sets_load("Mine", &saved);

    assert!(
        state.filter_editor().fields().iter().all(|field| field.spec.key != "custom:Priority"),
        "this dataset has no Priority row for it to land on"
    );
    assert_eq!(state.filter_sets_to_saved(), saved, "and it is still written back out");
}

/// A state holding three tasks assigned to three different people.
fn assigned_state() -> Loaded {
    let mut loaded = loaded_state_with_tasks(vec![
        sel_task_due("t1", "Ship it", "Alex Chen", "2026-06-10"),
        sel_task_due("t2", "Label it", "Jo Park", "2026-06-11"),
        sel_task_due("t3", "Close it", "Priya Raman", "2026-06-12"),
    ]);
    loaded.state.set_current_user_gid(Some("user-Jo Park".to_string()));
    loaded
}

fn selected_mode(state: &TaskState) -> Option<TaskFieldStringMode> {
    state.filter_editor().fields().get(state.filter_editor().selected()).map(|field| field.string_mode)
}

/// Puts the selected row into `list` mode by cycling the ring to it.
fn cycle_to_list(state: &mut TaskState) {
    for _ in 0..4 {
        if selected_mode(state) == Some(TaskFieldStringMode::List) {
            return;
        }
        state.filter_cycle_mode();
    }
    panic!("the row never offered a list mode");
}

#[test]
fn only_the_assignee_row_offers_the_list_mode() {
    let mut loaded = assigned_state();
    let state = &mut loaded.state;

    select_field(state, "assignee");
    cycle_to_list(state);

    for key in ["title", "projects"] {
        select_field(state, key);
        for _ in 0..3 {
            state.filter_cycle_mode();
        }
        assert_ne!(selected_mode(state), Some(TaskFieldStringMode::List), "{key} has no directory behind it");
    }
}

#[test]
fn a_list_row_matches_the_picked_people_exactly_and_ors_them() {
    let mut loaded = assigned_state();
    select_field(&mut loaded.state, "assignee");
    cycle_to_list(&mut loaded.state);
    set_field(&mut loaded.state, "assignee", "Alex Chen | Priya Raman");
    loaded.refresh_from_cache();

    assert_eq!(loaded.visible_gids(), vec!["t1", "t3"]);
}

#[test]
fn a_list_row_does_not_match_a_name_that_merely_contains_the_text() {
    let mut loaded = assigned_state();
    select_field(&mut loaded.state, "assignee");
    cycle_to_list(&mut loaded.state);
    set_field(&mut loaded.state, "assignee", "Alex");
    loaded.refresh_from_cache();

    assert!(loaded.visible_gids().is_empty());
}

#[test]
fn a_negated_list_row_is_none_of_these() {
    let mut loaded = assigned_state();
    select_field(&mut loaded.state, "assignee");
    cycle_to_list(&mut loaded.state);
    set_field(&mut loaded.state, "assignee", "Alex Chen");
    loaded.state.filter_toggle_negate_field();
    loaded.refresh_from_cache();

    assert_eq!(loaded.visible_gids(), vec!["t2", "t3"]);
}

#[test]
fn me_in_a_list_row_resolves_to_whoever_is_logged_in() {
    let mut loaded = assigned_state();
    select_field(&mut loaded.state, "assignee");
    cycle_to_list(&mut loaded.state);
    set_field(&mut loaded.state, "assignee", "me");
    loaded.refresh_from_cache();

    assert_eq!(loaded.visible_gids(), vec!["t2"], "Jo is logged in");

    loaded.state.set_current_user_gid(Some("user-Alex Chen".to_string()));
    loaded.refresh_from_cache();
    assert_eq!(loaded.visible_gids(), vec!["t1"], "and now Alex is");
}

#[test]
fn a_filter_name_that_matches_nobody_is_dropped_with_a_message() {
    let mut loaded = assigned_state();
    let state = &mut loaded.state;
    select_field(state, "assignee");
    cycle_to_list(state);

    let candidates = vec![
        tuisana::autocomplete::Candidate::new("user-Alex Chen", "Alex Chen"),
        tuisana::autocomplete::Candidate::new("user-Jo Park", "Jo Park"),
        tuisana::autocomplete::Candidate::new("user-Priya Raman", "Priya Raman"),
    ];
    state.filter_edit_begin_with(candidates);
    for ch in "nobody".chars() {
        state.filter_push_char(ch);
    }

    assert_eq!(state.filter_autocomplete_commit(), Some("no one called nobody".to_string()));
    assert_eq!(
        state.filter_panel_rows()[1],
        ("Assignee".to_string(), String::new()),
        "and the row is left filtering nothing rather than nothing at all"
    );
}

#[test]
fn a_list_row_saves_and_reloads_through_a_named_set() {
    let mut loaded = assigned_state();
    select_field(&mut loaded.state, "assignee");
    cycle_to_list(&mut loaded.state);
    set_field(&mut loaded.state, "assignee", "Alex Chen | me");

    let saved = loaded.state.filter_sets_to_saved();
    let field = saved[0].fields.iter().find(|field| field.key == "assignee").expect("the row is saved");
    assert_eq!(field.query, "Alex Chen | me");
    assert_eq!(field.string_mode.as_deref(), Some("list"));

    let mut reloaded = assigned_state();
    reloaded.state.filter_sets_load("people", &saved);
    reloaded.refresh_from_cache();
    assert_eq!(reloaded.visible_gids(), vec!["t1", "t2"]);
}

#[test]
fn a_list_mode_saved_against_a_row_that_cannot_offer_it_parks() {
    let mut loaded = assigned_state();
    let saved = vec![SavedFilterSet {
        negated: false,
        fields: vec![SavedFilterField {
            key: "title".to_string(),
            query: "Ship it".to_string(),
            string_mode: Some("list".to_string()),
            empty: false,
            negated: false,
        }],
    }];
    loaded.state.filter_sets_load("odd", &saved);
    loaded.refresh_from_cache();

    assert_eq!(loaded.visible_gids(), vec!["t1", "t2", "t3"], "nothing was applied");
    assert_eq!(loaded.state.filter_sets_to_saved(), saved, "and nothing was thrown away either");
}

fn due_row(query: &str) -> TaskFilterFieldState {
    let mut field = TaskFilterFieldState::new(
        TaskFilterFieldSpec {
            completes: false,
            key: "due".to_string(),
            label: "Due".to_string(),
            kind: TaskFieldFilterKind::Date,
            custom_gids: Vec::new(),
            can_be_empty: true,
        },
        TaskFieldStringMode::Fuzzy,
        Vec::new(),
    );
    field.value.set_text_at_end(query);
    field
}

/// Runs the prepared `Due` test against a task carrying `value`.
fn due_matches(value: Option<&str>, query: &str) -> bool {
    let set = TaskFilterSet { fields: vec![due_row(query)], negated: false, unresolved: Vec::new() };
    let filter = prepare_at(&[set], today(), None);
    let record = vec![FieldReading { text: String::new(), labels: Vec::new(), date: value.map(date), assignee_gid: None }];
    filter.matches(&record)
}

#[test]
fn date_filters_match_exact_dates_ranges_and_open_bounds() {
    assert!(due_matches(Some("2026-09-15"), "2026-09-15"));
    assert!(!due_matches(Some("2026-09-16"), "2026-09-15"));

    assert!(due_matches(Some("2026-09-01"), "2026-09-01..2026-09-30"));
    assert!(due_matches(Some("2026-09-30"), "2026-09-01..2026-09-30"));
    assert!(!due_matches(Some("2026-10-01"), "2026-09-01..2026-09-30"));

    assert!(due_matches(Some("2030-01-01"), "2026-09-01.."));
    assert!(due_matches(Some("2020-01-01"), "..2026-09-01"));

    // A task with no date cannot satisfy a date filter.
    assert!(!due_matches(None, "2026-09-15"));

    // A blank query is not a filter at all: the row is inactive.
    assert!(!due_row("   ").is_active());
    assert!(!due_row("").is_active());

    // An unparseable query matches nothing rather than everything.
    assert!(due_row("someday").is_active(), "it is a value, just a bad one");
    assert!(!due_matches(Some("2026-09-15"), "someday"));
    assert!(!due_matches(Some("2026-09-15"), "2026-02-31"));
}

#[test]
fn date_filters_resolve_keywords_against_the_local_date() {
    let day = today();

    assert!(due_matches(Some(&day.iso()), "today"));
    assert!(!due_matches(Some(&day.add_days(1).iso()), "today"));
    assert!(due_matches(Some(&day.add_days(1).iso()), "tomorrow"));
    assert!(due_matches(Some(&day.iso()), &format!("{:02}-{:02}", day.month(), day.day())));
}

#[test]
fn the_filter_row_completes_over_the_same_people_the_cell_does() {
    let mut loaded = assigned_state();
    let state = &mut loaded.state;
    select_field(state, "assignee");
    cycle_to_list(state);

    let candidates = vec![
        tuisana::autocomplete::Candidate::new("user-Alex Chen", "Alex Chen"),
        tuisana::autocomplete::Candidate::new("user-Jo Park", "Jo Park"),
        tuisana::autocomplete::Candidate::new("user-Priya Raman", "Priya Raman"),
    ];
    state.filter_edit_begin_with(candidates);
    assert!(state.filter_autocomplete_open());

    for ch in "pri".chars() {
        state.filter_push_char(ch);
    }
    assert!(state.filter_complete(1));
    assert_eq!(state.filter_autocomplete_commit(), None);
    loaded.refresh_from_cache();

    assert_eq!(
        loaded.state.filter_panel_rows()[1],
        ("Assignee".to_string(), "Priya Raman".to_string()),
        "the picked name is the row's value"
    );
    assert_eq!(loaded.visible_gids(), vec!["t3"]);
}

#[test]
fn a_filled_in_panel_reads_back_the_way_it_was_saved() {
    let tasks = vec![
        task_with("a", Some("2026-09-01"), Some("Alex"), Some("High")),
        task_with("b", None, None, Some("Low")),
    ];
    let mut loaded = loaded_state_with_priority_field(tasks.clone());
    let mut fresh = loaded_state_with_priority_field(tasks);

    let state = &mut loaded.state;
    set_field(state, "title", "ship");
    state.filter_cycle_mode();
    set_field(state, "assignee", "alex");
    state.filter_toggle_negate_field();
    select_field(state, "Priority");
    state.filter_cycle_label_value(1);
    select_field(state, "start");
    state.filter_toggle_require_empty();
    state.filter_add_set();
    set_field(state, "due", "2026-09-01..2026-09-30");
    set_field(state, "title", "kit");
    state.filter_toggle_negate_set();

    let saved = loaded.state.filter_sets_to_saved();
    fresh.state.filter_sets_load("Round trip", &saved);

    assert_eq!(fresh.state.filter_sets_to_saved(), saved);
    assert_eq!(fresh.state.filter_set_negations(), loaded.state.filter_set_negations());
    for set in 0..2 {
        for row in 0..7 {
            assert_eq!(row_of_set(&fresh.state, set, row), row_of_set(&loaded.state, set, row));
        }
    }
    assert_eq!(fresh.visible_gids(), loaded.visible_gids());
}

#[test]
fn a_parked_field_lands_once_the_project_carrying_it_loads() {
    let mut loaded = loaded_state_with_tasks(vec![task_with("t1", None, None, Some("High"))]);
    loaded.state.filter_sets_load(
        "Mine",
        &[SavedFilterSet { negated: false, fields: vec![saved_field("custom:Priority", "High")] }],
    );

    // The rebuild a streamed project triggers is exactly the moment the
    // custom-field row appears.
    loaded.custom = vec!["Priority"];
    loaded.refresh_from_cache();

    let state = &loaded.state;
    let priority = state
        .filter_editor()
        .fields()
        .iter()
        .find(|field| field.spec.key == "custom:Priority")
        .expect("the row exists now");
    assert_eq!(priority.value.text(), "High", "the parked value landed on it");
    assert!(state.filter_editor().sets()[0].unresolved.is_empty(), "and nothing is still parked");
}

#[test]
fn the_binding_and_the_sidebar_survive_a_streaming_reload() {
    let mut loaded = loaded_state_with_tasks(vec![sel_task("t1", "Ship", false)]);
    let state = &mut loaded.state;
    state.filter_sets_load(
        "Mine",
        &[SavedFilterSet { negated: false, fields: vec![saved_field("assignee", "alex")] }],
    );
    state.filter_sets_toggle_sidebar();
    state.set_filter_sets_window(3);
    state.filter_sets_page(1, 14);

    loaded.refresh_from_cache();

    let state = &loaded.state;
    assert_eq!(state.filter_set_loaded_name(), Some("Mine"));
    assert!(state.filter_sets_sidebar_visible());
    assert_eq!(state.filter_sets_page_start(), 3);
    assert_eq!(state.filter_panel_rows()[1].1, "alex");
}

#[test]
fn loading_replaces_every_tab_and_clamps_the_cursors() {
    let mut loaded =
        loaded_state_with_priority_field(vec![task_with("a", Some("2026-09-01"), Some("Alex"), Some("High"))]);
    let state = &mut loaded.state;
    // Three tabs, standing on the last, with the cursor on the last row.
    state.filter_add_set();
    state.filter_add_set();
    select_field(state, "Priority");
    assert_eq!(state.filter_set_position(), (2, 3));

    state.filter_sets_load(
        "One tab",
        &[SavedFilterSet { negated: true, fields: vec![saved_field("assignee", "alex")] }],
    );

    assert_eq!(state.filter_set_position(), (0, 1), "one tab, back on it");
    assert!(state.filter_active_set_negated());
    assert_eq!(state.filter_panel_rows()[1].1, "alex");
    assert!(
        state.filter_editor().selected() < state.filter_editor().fields().len(),
        "the field cursor is inside the rows that exist"
    );
}

#[test]
fn copying_to_new_keeps_the_panel_and_stops_the_write_through() {
    let mut loaded = loaded_state_with_tasks(vec![sel_task("t1", "Ship", false)]);
    let state = &mut loaded.state;
    state.filter_sets_load(
        "Mine",
        &[SavedFilterSet { negated: false, fields: vec![saved_field("assignee", "alex")] }],
    );

    state.filter_set_detach();

    assert_eq!(state.filter_set_loaded_name(), None);
    assert_eq!(state.filter_panel_rows()[1].1, "alex", "the panel keeps exactly what it was showing");
    set_field(state, "title", "ship");
    assert!(!state.filter_set_dirty(), "and a later edit has nothing to write through to");
}

#[test]
fn a_fresh_panel_keeps_nothing_at_all() {
    let mut loaded =
        loaded_state_with_priority_field(vec![task_with("a", Some("2026-09-01"), Some("Alex"), Some("High"))]);
    let state = &mut loaded.state;
    // A parked value, a non-default match mode, a second tab and a
    // negation: everything `new` has to throw away.
    state.filter_sets_load(
        "Elsewhere",
        &[SavedFilterSet { negated: false, fields: vec![saved_field("custom:Gone", "x")] }],
    );
    set_field(state, "title", "ship");
    state.filter_cycle_mode();
    state.filter_add_set();
    state.filter_toggle_negate_set();
    set_field(state, "assignee", "alex");
    state.filter_set_bind("mine");

    state.filter_set_new();

    assert_eq!(state.filter_set_position(), (0, 1), "one empty tab");
    assert!(!state.filter_active_set_negated());
    assert_eq!(state.active_filter_count(), 0);
    assert!(state.filter_panel_rows().iter().all(|(_, query)| query.is_empty()));
    assert_eq!(
        state.filter_sets_to_saved(),
        vec![SavedFilterSet { negated: false, fields: Vec::new() }],
        "nothing is left parked either"
    );
    assert_eq!(state.filter_editor().selected(), 0, "and the field cursor starts at the top");

    // `new` puts every row back to the mode it was built with.
    let title = &state.filter_editor().fields()[0];
    assert_eq!(title.string_mode, title.default_string_mode);

    // Nothing is bound, so the panel it just emptied is not written
    // through to the entry it came from.
    assert_eq!(state.filter_set_loaded_name(), None);
    assert!(!state.filter_set_dirty());
}

#[test]
fn a_bound_panel_is_marked_dirty_by_any_change_and_an_unbound_one_is_not() {
    let mut loaded = loaded_state_with_tasks(vec![sel_task("t1", "Ship", false)]);
    let state = &mut loaded.state;

    set_field(state, "title", "ship");
    assert!(!state.filter_set_dirty(), "nothing is bound yet");

    state.filter_sets_load("Mine", &[]);
    assert!(!state.filter_set_dirty(), "a fresh load is already on disk");

    set_field(state, "title", "ship");
    assert!(state.filter_set_dirty());
    state.clear_filter_set_dirty();
    assert!(!state.filter_set_dirty());
}

#[test]
fn the_numbered_window_pages_and_clamps_at_both_ends() {
    let mut state = TaskState::new();
    state.set_filter_sets_window(9);

    // Everything fits, so there is nothing to page to.
    state.filter_sets_page(1, 4);
    assert_eq!(state.filter_sets_page_start(), 0);

    state.filter_sets_page(1, 14);
    assert_eq!(state.filter_sets_page_start(), 9);
    state.filter_sets_page(1, 14);
    assert_eq!(state.filter_sets_page_start(), 9, "clamped at the last page");
    state.filter_sets_page(-1, 14);
    assert_eq!(state.filter_sets_page_start(), 0);
    state.filter_sets_page(-1, 14);
    assert_eq!(state.filter_sets_page_start(), 0, "clamped at the first");
}

#[test]
fn deleting_the_prompt_target_is_refused_with_nothing_loaded() {
    let mut loaded = loaded_state_with_tasks(vec![sel_task("t1", "Ship", false)]);
    let state = &mut loaded.state;

    assert!(!state.filter_set_prompt_delete());
    assert!(state.filter_set_prompt().is_none());

    state.filter_set_bind("Mine");
    assert!(state.filter_set_prompt_delete());
    assert!(matches!(
        state.filter_set_prompt(),
        Some(SidebarPrompt::ConfirmDelete { name }) if name == "Mine"
    ));
}

#[test]
fn the_save_prompt_opens_the_sidebar_and_prefills_the_loaded_name() {
    let mut loaded = loaded_state_with_tasks(vec![sel_task("t1", "Ship", false)]);
    let state = &mut loaded.state;
    state.filter_set_bind("Mine");

    state.filter_set_prompt_save();

    assert!(state.filter_sets_sidebar_visible(), "the prompt needs a border to ride");
    assert_eq!(state.filter_set_prompt_text(), Some("Mine"));

    // The caret starts at the end, and typing and deleting act on it.
    state.filter_set_prompt_push_char('r');
    assert_eq!(state.filter_set_prompt_text(), Some("Miner"));
    state.filter_set_prompt_move_caret(-2);
    state.filter_set_prompt_push_char('X');
    assert_eq!(state.filter_set_prompt_text(), Some("MinXer"));
    state.filter_set_prompt_pop_char();
    assert_eq!(state.filter_set_prompt_text(), Some("Miner"));
}
