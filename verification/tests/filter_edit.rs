use tuisana::date::CivilDate;
use tuisana::filter::{
    SavedFilterField, SavedFilterSet, TaskFieldFilterKind, TaskFieldStringMode, TaskFilterFieldSpec,
    TaskFilterFieldState, TaskFilterSet,
};
use tuisana::filter_edit::{due_date_range_at, join_labels};
use tuisana::filter_panel::TaskFilterEditorState;
use tuisana::filter_rows::{custom_field_kind, custom_field_row, sorted_distinct, standard_fields};
use tuisana::task::{PanelAction, TaskState};
use tuisana::records::{CustomFieldDefinition, TaskDataset, TaskRecord};

fn row(key: &str, kind: TaskFieldFilterKind, mode: TaskFieldStringMode) -> TaskFilterFieldState {
    TaskFilterFieldState::new(
        TaskFilterFieldSpec {
            key: key.to_string(),
            label: key.to_string(),
            kind,
            custom_gids: Vec::new(),
            can_be_empty: true,
            completes: false,
        },
        mode,
        Vec::new(),
    )
}

fn set_of(rows: Vec<TaskFilterFieldState>) -> TaskFilterSet {
    TaskFilterSet { fields: rows, negated: false, unresolved: Vec::new() }
}

fn strings(v: &[&str]) -> Vec<String> {
    v.iter().map(|s| s.to_string()).collect()
}

#[test]
fn label_values_are_joined_with_bars() {
    assert_eq!(join_labels(&strings(&["open", "done"])), "open | done");
    assert_eq!(join_labels(&strings(&["open"])), "open");
    assert_eq!(join_labels(&Vec::new()), "");
}

#[test]
fn a_row_is_written_out_only_when_it_filters() {
    let mut title = row("title", TaskFieldFilterKind::String, TaskFieldStringMode::Fuzzy);
    assert_eq!(title.to_saved(), None);

    title.value.set_text_at_end("ship");
    title.string_mode = TaskFieldStringMode::Regex;
    title.negated = true;
    assert_eq!(
        title.to_saved(),
        Some(SavedFilterField {
            key: "title".to_string(),
            query: "ship".to_string(),
            string_mode: Some("regex".to_string()),
            empty: false,
            negated: true,
        })
    );

    // A require-empty is saved with no query, whatever text is left.
    title.empty_required = true;
    assert_eq!(title.to_saved().map(|s| (s.query, s.empty)), Some((String::new(), true)));

    // The mode is only written where it differs from the row's own.
    let mut due = row("due", TaskFieldFilterKind::Date, TaskFieldStringMode::Substring);
    due.value.set_text_at_end("today");
    due.string_mode = TaskFieldStringMode::Fuzzy;
    assert_eq!(due.to_saved().and_then(|s| s.string_mode), None);
}

#[test]
fn clearing_a_row_keeps_its_mode_and_drops_the_rest() {
    let mut title = row("title", TaskFieldFilterKind::String, TaskFieldStringMode::Fuzzy);
    title.value.set_text_at_end("ship");
    title.string_mode = TaskFieldStringMode::Regex;
    title.negated = true;
    title.empty_required = true;
    title.clear_value();
    assert_eq!(title.value.text(), "");
    assert_eq!(title.string_mode, TaskFieldStringMode::Regex);
    assert!(!title.negated && !title.empty_required);
}

#[test]
fn a_set_writes_its_rows_then_what_is_parked() {
    let mut title = row("title", TaskFieldFilterKind::String, TaskFieldStringMode::Fuzzy);
    title.value.set_text_at_end("ship");
    let mut set = set_of(vec![title, row("due", TaskFieldFilterKind::Date, TaskFieldStringMode::Substring)]);
    let parked = SavedFilterField { key: "custom:Tag".to_string(), query: "red".to_string(), string_mode: None, empty: false, negated: false };
    set.unresolved.push(parked.clone());
    set.negated = true;

    let saved = set.to_saved();
    assert!(saved.negated);
    assert_eq!(saved.fields.len(), 2);
    assert_eq!(saved.fields[0].key, "title");
    assert_eq!(saved.fields[1], parked);
    assert_eq!(set.active_filter_count(), 1);
}

#[test]
fn a_saved_set_lands_on_its_rows_and_parks_the_rest() {
    let mut set = set_of(vec![
        row("title", TaskFieldFilterKind::String, TaskFieldStringMode::Fuzzy),
        row("due", TaskFieldFilterKind::Date, TaskFieldStringMode::Substring),
    ]);
    let saved = SavedFilterSet {
        negated: true,
        fields: vec![
            SavedFilterField { key: "title".to_string(), query: "ship".to_string(), string_mode: Some("contains".to_string()), empty: false, negated: true },
            SavedFilterField { key: "due".to_string(), query: "ignored".to_string(), string_mode: None, empty: true, negated: false },
            SavedFilterField { key: "nowhere".to_string(), query: "x".to_string(), string_mode: None, empty: false, negated: false },
        ],
    };
    set.apply_saved(&saved);
    assert!(set.negated);
    assert_eq!(set.fields[0].value.text(), "ship");
    assert_eq!(set.fields[0].value.caret(), 4, "the caret lands at the end");
    assert_eq!(set.fields[0].string_mode, TaskFieldStringMode::Substring);
    assert!(set.fields[0].negated);
    assert!(set.fields[1].empty_required);
    assert_eq!(set.fields[1].value.text(), "");
    assert_eq!(set.unresolved.len(), 1);
    assert_eq!(set.unresolved[0].key, "nowhere");
}

#[test]
fn a_saved_labels_value_lands_as_label_values() {
    let mut set = set_of(vec![row("state", TaskFieldFilterKind::Labels, TaskFieldStringMode::Substring)]);
    let taken = set.apply_saved_field(&SavedFilterField {
        key: "state".to_string(),
        query: "open, done".to_string(),
        string_mode: None,
        empty: false,
        negated: false,
    });
    assert!(taken);
    assert_eq!(set.fields[0].label_values, strings(&["open", "done"]));
    assert_eq!(set.fields[0].value.text(), "open | done");
}

#[test]
fn a_cleared_set_keeps_modes_and_nothing_else() {
    let mut title = row("title", TaskFieldFilterKind::String, TaskFieldStringMode::Fuzzy);
    title.value.set_text_at_end("ship");
    title.string_mode = TaskFieldStringMode::Regex;
    let mut set = set_of(vec![title]);
    set.negated = true;
    let cleared = set.cleared();
    assert!(!cleared.negated);
    assert_eq!(cleared.fields[0].value.text(), "");
    assert_eq!(cleared.fields[0].string_mode, TaskFieldStringMode::Regex);
    assert_eq!(cleared.active_filter_count(), 0);
}

#[test]
fn restoring_carries_values_by_key_and_holds_the_caret() {
    let mut old_title = row("title", TaskFieldFilterKind::String, TaskFieldStringMode::Fuzzy);
    old_title.value.set_text_at_end("shipping");
    old_title.value.move_caret(-3);
    old_title.negated = true;
    let previous = set_of(vec![old_title]);

    let mut fresh = set_of(vec![
        row("due", TaskFieldFilterKind::Date, TaskFieldStringMode::Substring),
        row("title", TaskFieldFilterKind::String, TaskFieldStringMode::Fuzzy),
    ]);
    fresh.restore_from(&previous);
    assert_eq!(fresh.fields[1].value.text(), "shipping");
    assert_eq!(fresh.fields[1].value.caret(), 5);
    assert!(fresh.fields[1].negated);
    assert_eq!(fresh.fields[0].value.text(), "", "a row the old set lacked stays as built");
}

#[test]
fn the_due_window_on_a_fixed_day() {
    let today = CivilDate::new(2026, 5, 10).unwrap();
    let mut due = row("due", TaskFieldFilterKind::Date, TaskFieldStringMode::Substring);
    due.value.set_text_at_end("today..tomorrow");
    let sets = vec![set_of(vec![due])];
    assert_eq!(
        due_date_range_at(&sets, today),
        (Some("2026-05-10".to_string()), Some("2026-05-11".to_string()))
    );
    assert_eq!(due_date_range_at(&[], today), (None, None), "no sets filter nothing, so nothing is narrowed");
}

#[test]
fn distinct_values_come_sorted() {
    assert_eq!(sorted_distinct(&strings(&["b", "a", "b", "c", "a"])), strings(&["a", "b", "c"]));
    assert_eq!(sorted_distinct(&Vec::new()), Vec::<String>::new());
}

#[test]
fn a_custom_field_is_labels_only_when_its_values_read_as_labels() {
    assert_eq!(custom_field_kind(&strings(&["High", "Low"])), TaskFieldFilterKind::Labels);
    assert_eq!(custom_field_kind(&Vec::new()), TaskFieldFilterKind::String, "nothing seen yet");
    let many: Vec<String> = (0..13).map(|i| format!("v{i}")).collect();
    assert_eq!(custom_field_kind(&many), TaskFieldFilterKind::String, "too many values");
    assert_eq!(custom_field_kind(&strings(&["a\tb"])), TaskFieldFilterKind::String, "a tab is not a plain space");
    assert_eq!(custom_field_kind(&strings(&["two words"])), TaskFieldFilterKind::Labels);
    let long = "x".repeat(33);
    assert_eq!(custom_field_kind(&vec![long]), TaskFieldFilterKind::String, "over 32 bytes");
    let wide = "é".repeat(17);
    assert_eq!(custom_field_kind(&vec![wide]), TaskFieldFilterKind::String, "34 bytes in 17 characters");

    let row = custom_field_row("Priority", strings(&["cf1", "cf2"]), &strings(&["Low", "High", "Low"]));
    assert_eq!(row.spec.key, "custom:Priority");
    assert_eq!(row.spec.kind, TaskFieldFilterKind::Labels);
    assert_eq!(row.label_options, strings(&["High", "Low"]));
    assert_eq!(row.spec.custom_gids, strings(&["cf1", "cf2"]));
}

#[test]
fn a_panel_built_from_a_dataset_has_the_standard_rows_then_the_custom_ones() {
    let mut record = TaskRecord::new("t1".to_string(), "Ship it".to_string());
    record.custom_fields = vec![("cf1".to_string(), strings(&["High"]))];
    let dataset = TaskDataset {
        records: vec![record],
        custom_field_definitions: vec![CustomFieldDefinition { gid: "cf1".to_string(), name: "Priority".to_string() }],
    };
    let panel = TaskFilterEditorState::from_dataset(&dataset);
    let keys: Vec<String> = panel.fields().iter().map(|f| f.spec.key.clone()).collect();
    assert_eq!(keys, strings(&["title", "assignee", "due", "start", "state", "projects", "custom:Priority"]));
    assert_eq!(standard_fields().len(), 6);
    assert_eq!(panel.fields()[4].label_options, strings(&["open", "done"]));
    assert!(!panel.fields()[4].spec.can_be_empty);
    assert!(panel.fields()[1].spec.completes);
}

fn panel_state() -> TaskState {
    let mut state = TaskState::new();
    state.rebuild_filter_panel(standard_fields());
    state
}

#[test]
fn the_filter_viewport_follows_the_cursor_with_a_row_of_margin() {
    let mut state = panel_state();
    for _ in 0..5 {
        state.move_filter_down();
    }
    state.ensure_filter_visible(3);
    assert_eq!(state.filter_panel_scroll(), 4, "row 5 drawn with a row of margin below it");
    state.ensure_filter_visible(1);
    assert_eq!(state.filter_panel_scroll(), 5, "a one-row viewport has no room for margin");
    for _ in 0..5 {
        state.move_filter_up();
    }
    state.ensure_filter_visible(3);
    assert_eq!(state.filter_panel_scroll(), 0);
}

#[test]
fn the_help_lines_follow_the_row_under_the_cursor() {
    let mut state = panel_state();
    assert_eq!(
        state.filter_panel_help_lines(),
        strings(&["enter: edit selected filter, f: hide filters", "s: cycle string mode", "string: fuzzy | contains | regex"])
    );
    state.move_filter_down();
    state.move_filter_down();
    assert_eq!(state.filter_panel_help_lines().len(), 3);
    assert_eq!(state.filter_panel_help_lines()[1], "date: enter opens a calendar");
    state.filter_edit_begin();
    assert_eq!(state.filter_panel_help_lines()[0], "enter/esc: done editing");
}

#[test]
fn the_filter_picker_writes_what_it_picks_into_the_row() {
    let mut state = panel_state();
    state.move_filter_down();
    state.move_filter_down();
    assert!(state.filter_calendar_begin());
    for ch in "2026-03-04".chars() {
        state.filter_calendar_push_char(ch);
    }
    assert_eq!(state.filter_panel_rows()[2].1, "2026-03-04");
    state.filter_calendar_move_days(1);
    assert_eq!(state.filter_panel_rows()[2].1, "2026-03-05");
    state.filter_calendar_commit();
    assert!(!state.calendar_open());
    assert_eq!(state.filter_panel_rows()[2].1, "2026-03-05");
}

#[test]
fn the_save_prompt_edits_a_name_in_place() {
    let mut state = panel_state();
    state.filter_set_bind("Mine");
    state.filter_set_prompt_save();
    assert_eq!(state.filter_set_prompt_text(), Some("Mine"));
    assert!(state.filter_sets_sidebar_visible());
    state.filter_set_prompt_move_caret(-2);
    state.filter_set_prompt_push_char('X');
    assert_eq!(state.filter_set_prompt_text(), Some("MiXne"));
    state.filter_set_prompt_pop_char();
    state.filter_set_prompt_pop_char();
    assert_eq!(state.filter_set_prompt_text(), Some("Mne"));
    assert!(!state.filter_set_prompt_is_confirmation());
    state.filter_set_prompt_cancel();
    assert_eq!(state.filter_set_prompt_text(), None);
}

#[test]
fn deleting_asks_for_the_bound_name_or_reports_there_is_none() {
    let mut state = panel_state();
    assert!(!state.filter_set_prompt_delete());
    assert_eq!(state.filter_sets_notice(), Some("no set is loaded"));
    state.filter_set_bind("Mine");
    assert!(state.filter_set_prompt_delete());
    assert!(state.filter_set_prompt_is_confirmation());
    assert_eq!(state.filter_sets_notice(), None);
}

#[test]
fn the_numbered_window_pages_and_holds_at_both_ends() {
    let mut state = panel_state();
    assert_eq!(state.filter_sets_window(), 9);
    state.set_filter_sets_window(4);
    assert_eq!(state.filter_sets_window(), 4);
    state.filter_sets_page(1, 10);
    assert_eq!(state.filter_sets_page_start(), 4);
    state.filter_sets_page(5, 10);
    assert_eq!(state.filter_sets_page_start(), 8, "the last page starts at 8");
    state.filter_sets_page(-9, 10);
    assert_eq!(state.filter_sets_page_start(), 0);
    state.filter_sets_page(1, 3);
    assert_eq!(state.filter_sets_page_start(), 0, "everything fits in one window");
}

#[test]
fn an_unnamed_panel_that_filters_is_unsaved_work() {
    let mut state = panel_state();
    assert!(!state.filter_set_is_unsaved());
    state.filter_push_char('a');
    assert!(state.filter_set_is_unsaved());
    state.filter_set_bind("Mine");
    assert!(!state.filter_set_is_unsaved(), "a bound panel is already on disk");
}

#[test]
fn a_bound_panel_is_dirty_after_a_change_until_written() {
    let mut state = panel_state();
    state.filter_push_char('a');
    assert!(!state.filter_set_dirty(), "an unbound panel has nowhere to write");
    state.filter_set_bind("Mine");
    state.filter_push_char('b');
    assert!(state.filter_set_dirty());
    state.clear_filter_set_dirty();
    assert!(!state.filter_set_dirty());
}

#[test]
fn a_fresh_panel_starts_again_from_the_rows_it_was_built_with() {
    let mut state = panel_state();
    state.filter_cycle_mode();
    state.filter_push_char('a');
    state.filter_add_set();
    state.filter_set_bind("Mine");
    state.filter_set_new();
    assert_eq!(state.filter_set_position(), (0, 1));
    assert_eq!(state.filter_set_loaded_name(), None);
    assert_eq!(state.filter_editor().fields()[0].string_mode, TaskFieldStringMode::Fuzzy);
    assert_eq!(state.filter_panel_rows()[0].1, "");
}

#[test]
fn counts_across_sets_add_up() {
    let mut state = panel_state();
    state.filter_push_char('a');
    state.filter_add_set();
    state.filter_push_char('b');
    state.move_filter_down();
    state.filter_push_char('c');
    assert_eq!(state.filter_set_counts(), vec![1, 2]);
    assert_eq!(state.active_filter_count_across_sets(), 3);
}

#[test]
fn a_custom_field_shared_by_name_across_projects_is_one_row_and_one_column() {
    let mut t1 = TaskRecord::new("t1".to_string(), "Ship release".to_string());
    t1.custom_fields = vec![("cf-inbox".to_string(), strings(&["red"]))];
    let mut t2 = TaskRecord::new("t2".to_string(), "Draft plan".to_string());
    t2.custom_fields = vec![("cf-backlog".to_string(), strings(&["blue"]))];
    // Same field name, different id per project, in (name, id) order.
    let dataset = TaskDataset {
        records: vec![t1, t2],
        custom_field_definitions: vec![
            CustomFieldDefinition { gid: "cf-backlog".to_string(), name: "Tag".to_string() },
            CustomFieldDefinition { gid: "cf-inbox".to_string(), name: "Tag".to_string() },
        ],
    };
    let panel = TaskFilterEditorState::from_dataset(&dataset);
    let labels: Vec<String> = panel.fields().iter().map(|f| f.spec.label.clone()).collect();
    assert_eq!(labels.iter().filter(|label| *label == "Tag").count(), 1, "one filter row, not one per project: {labels:?}");
    let tag = panel.fields().iter().find(|f| f.spec.label == "Tag").unwrap();
    assert_eq!(tag.spec.key, "custom:Tag");
    assert_eq!(tag.spec.custom_gids, strings(&["cf-backlog", "cf-inbox"]));
    assert_eq!(tag.label_options, strings(&["blue", "red"]));
}

#[test]
fn fields_are_grouped_by_name_in_the_order_names_first_come() {
    let mut t1 = TaskRecord::new("t1".to_string(), "One".to_string());
    t1.custom_fields = vec![("a1".to_string(), strings(&["x"])), ("b1".to_string(), strings(&["y", "z"]))];
    let dataset = TaskDataset {
        records: vec![t1],
        custom_field_definitions: vec![
            CustomFieldDefinition { gid: "a1".to_string(), name: "Alpha".to_string() },
            CustomFieldDefinition { gid: "b1".to_string(), name: "Beta".to_string() },
            CustomFieldDefinition { gid: "a2".to_string(), name: "Alpha".to_string() },
        ],
    };
    let groups = tuisana::records::group_custom_fields(&dataset);
    assert_eq!(groups.len(), 2);
    assert_eq!(groups[0].name, "Alpha");
    assert_eq!(groups[0].gids, strings(&["a1", "a2"]));
    assert_eq!(groups[0].values, strings(&["x"]));
    assert_eq!(groups[1].name, "Beta");
    assert_eq!(groups[1].values, strings(&["y", "z"]));
    let panel = TaskFilterEditorState::from_dataset(&dataset);
    assert_eq!(panel.fields().len(), 8);
}

#[test]
fn the_open_panel_keys_walk_the_rows_and_work_the_sets() {
    let mut state = panel_state();
    state.apply_panel_action(PanelAction::MoveDown, 10);
    state.apply_panel_action(PanelAction::MoveDown, 10);
    assert_eq!(state.filter_selected_kind(), Some(TaskFieldFilterKind::Date));
    state.apply_panel_action(PanelAction::MoveUp, 10);
    assert_eq!(state.filter_selected_kind(), Some(TaskFieldFilterKind::String));
    state.apply_panel_action(PanelAction::PageDown, 10);
    assert_eq!(state.filter_selected_kind(), Some(TaskFieldFilterKind::String));
    state.apply_panel_action(PanelAction::AddSet, 10);
    assert_eq!(state.filter_set_counts().len(), 2);
    assert!(!state.filter_active_set_negated());
    state.apply_panel_action(PanelAction::NegateSet, 10);
    assert!(state.filter_active_set_negated());
    state.apply_panel_action(PanelAction::PreviousSet, 10);
    assert!(!state.filter_active_set_negated());
    state.apply_panel_action(PanelAction::NextSet, 10);
    assert!(state.filter_active_set_negated());
    state.apply_panel_action(PanelAction::RemoveSet, 10);
    assert_eq!(state.filter_set_counts().len(), 1);
    let visible = state.filter_panel_visible();
    state.apply_panel_action(PanelAction::ToggleVisible, 10);
    assert_eq!(state.filter_panel_visible(), !visible);
}
