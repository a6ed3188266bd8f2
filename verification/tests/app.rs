use tuisana::app::{App, Config, Effects, FetchPlan, Mode, NamedFilterSet, PollStep};
use tuisana::error::Error;
use tuisana::filter_rows::standard_fields;
use tuisana::gantt::{GanttColorKey, GanttConfig};
use tuisana::input::{Action, AppCommand, KeyCode, KeyPress};
use tuisana::project_list::{Project, ProjectVisibilityConfig};

fn config() -> Config {
    Config { gantt: GanttConfig::default(), project_visibility: Vec::new(), filter_sets: Vec::new() }
}

fn plain(code: KeyCode) -> KeyPress {
    KeyPress { code, ctrl: false, alt: false }
}

/// The saved entries as they would read back from the config file.
type Written = Vec<(String, Vec<(bool, Vec<(String, String)>)>)>;

fn written(entries: &[NamedFilterSet]) -> Written {
    entries
        .iter()
        .map(|entry| {
            let sets = entry
                .sets
                .iter()
                .map(|set| (set.negated, set.fields.iter().map(|f| (f.key.clone(), f.query.clone())).collect()))
                .collect();
            (entry.name.clone(), sets)
        })
        .collect()
}

/// A session with its config file: the entries as last written, and how
/// many writes there were.
struct Session {
    app: App,
    disk: Written,
    writes: usize,
    fail_writes: bool,
    /// The chart's colour choice and orders as last written.
    gantt_disk: Option<(String, Vec<(String, Vec<String>)>)>,
    /// The actions handed to the task table.
    table_actions: Vec<Action>,
}

impl Session {
    fn carry_out(&mut self, fx: Effects) {
        if fx.persist_gantt_colors {
            let gantt = self.app.tasks.gantt();
            self.gantt_disk = Some((gantt.color_key().name().into_iter().collect(), gantt.orders().clone()));
        }
        if fx.write_config {
            if self.fail_writes {
                self.app.report_write(Some("Is a directory"));
            } else {
                self.disk = written(self.app.filter_sets());
                self.writes += 1;
                self.app.report_write(None);
            }
        }
    }

    /// The default bindings for the keys these tests press.
    fn bound(&self, key: KeyPress) -> Option<Action> {
        let mode = self.app.mode();
        match key.code {
            KeyCode::Char(_) if key.ctrl || key.alt => None,
            KeyCode::Char('t') if mode == Mode::Project || mode == Mode::Task => Some(Action::SetTaskMode),
            KeyCode::Char('f') if mode == Mode::Project || mode == Mode::Task => Some(Action::SetFilterMode),
            KeyCode::Char('g') if mode == Mode::Task => Some(Action::SetGanttMode),
            KeyCode::Char('g') if mode == Mode::Gantt => Some(Action::ToggleGantt),
            KeyCode::Esc if mode == Mode::Gantt => Some(Action::SetTaskMode),
            KeyCode::Enter if mode == Mode::Gantt => Some(Action::GanttOpenOrder),
            KeyCode::Enter if mode == Mode::GanttOrder => Some(Action::GanttOrderCommit),
            KeyCode::Esc if mode == Mode::GanttOrder => Some(Action::GanttOrderCancel),
            KeyCode::Char('b') if mode == Mode::GanttOrder => Some(Action::GanttOrderMoveBottom),
            KeyCode::Char('j') if mode == Mode::GanttOrder => Some(Action::MoveDown),
            KeyCode::Char('k') if mode == Mode::GanttOrder => Some(Action::MoveUp),
            KeyCode::Char('j') if mode == Mode::Filter => Some(Action::MoveDown),
            KeyCode::Char('k') if mode == Mode::Filter => Some(Action::MoveUp),
            KeyCode::Char('w') if mode == Mode::Filter => Some(Action::FilterSetSave),
            KeyCode::Char('n') if mode == Mode::Filter => Some(Action::FilterSetNew),
            KeyCode::Char('y') if mode == Mode::Filter => Some(Action::FilterSetCopyToNew),
            KeyCode::Char('d') if mode == Mode::Filter => Some(Action::FilterSetDelete),
            KeyCode::Char('b') if mode == Mode::Filter => Some(Action::FilterSetsToggle),
            KeyCode::Char(c) if mode == Mode::Filter && c.is_ascii_digit() && c != '0' => {
                Some(Action::FilterSetLoad(c as u8 - b'0'))
            }
            KeyCode::Enter if mode == Mode::Filter => Some(Action::BeginFilterEdit),
            KeyCode::Enter if mode == Mode::FilterEdit => Some(Action::FilterDoneEditing),
            _ => None,
        }
    }

    fn key(&mut self, key: KeyPress) {
        let bound = self.bound(key);
        let (_, fx) = self.app.handle_key_event(key, bound);
        // The table's own part of a key: in the filter panel, the cursor
        // keys walk the rows and ctrl-l clears the one under the cursor.
        if fx.for_task_table {
            if let Some(action) = bound {
                self.table_actions.push(action);
            }
            match bound {
                // The dialog lists the values the table's tasks carry: here,
                // two assignees with a task each.
                Some(Action::GanttOpenOrder) => self
                    .app
                    .tasks
                    .gantt_open_dialog(vec![("Owner t1".to_string(), 1), ("Owner t2".to_string(), 1)]),
                Some(Action::MoveDown) => self.app.tasks.move_filter_down(),
                Some(Action::MoveUp) => self.app.tasks.move_filter_up(),
                _ => {}
            }
        }
        if key.ctrl && key.code == KeyCode::Char('l') && self.app.mode() == Mode::Filter {
            self.app.tasks.filter_clear_current();
        }
        self.carry_out(fx);
    }

    fn press(&mut self, code: KeyCode) {
        self.key(plain(code));
    }

    /// `w`, a name, `enter`, clearing whatever the prompt was pre-filled with.
    fn save_as(&mut self, name: &str) {
        self.press(KeyCode::Char('w'));
        assert_eq!(self.app.mode(), Mode::FilterSetName);
        for _ in 0..40 {
            self.press(KeyCode::Backspace);
        }
        for ch in name.chars() {
            self.press(KeyCode::Char(ch));
        }
        self.press(KeyCode::Enter);
    }

    /// Moves the field cursor to a row by label, from filter-browse mode.
    fn move_to_field(&mut self, label: &str) {
        for _ in 0..20 {
            self.press(KeyCode::Char('k'));
        }
        for _ in 0..20 {
            let rows = self.app.tasks.filter_panel_rows();
            let selected = self.app.tasks.filter_editor().selected();
            if rows[selected].0 == label {
                return;
            }
            self.press(KeyCode::Char('j'));
        }
        panic!("never reached the {label} row");
    }

    /// `enter`, some text, `enter`: the browse-mode way to fill a text field.
    fn type_into_field(&mut self, label: &str, text: &str) {
        self.move_to_field(label);
        self.press(KeyCode::Enter);
        for ch in text.chars() {
            self.press(KeyCode::Char(ch));
        }
        self.press(KeyCode::Enter);
    }
}

/// A session on the task pane, its filter panel built from the task
/// fields, in filter mode.
fn filter_sets_app() -> Session {
    let mut app = App::new(config());
    app.tasks.rebuild_filter_panel(standard_fields());
    let mut session = Session { app, disk: Vec::new(), writes: 0, fail_writes: false, gantt_disk: None, table_actions: Vec::new() };
    session.press(KeyCode::Char('t'));
    session.press(KeyCode::Char('f'));
    assert_eq!(session.app.mode(), Mode::Filter);
    session
}

fn gantt_app() -> Session {
    let mut app = App::new(config());
    let _ = app.receive_projects(Ok(vec![Project::new("1", "Inbox", true)]));
    let _ = app.handle_action(&Action::ToggleSelection);
    Session { app, disk: Vec::new(), writes: 0, fail_writes: false, gantt_disk: None, table_actions: Vec::new() }
}

#[test]
fn app_can_be_created_with_fake_backend_and_load_projects() {
    let mut app = App::new(config());

    app.receive_projects(Ok(vec![Project::new("1", "Inbox", true)])).expect("projects load");

    assert_eq!(app.projects.items().len(), 1);
    assert_eq!(app.projects.items()[0].name, "Inbox");
    assert_eq!(app.projects.selected_index(), Some(0));
}

#[test]
fn app_handles_project_list_actions() {
    let mut app = App::new(config());
    app.receive_projects(Ok(vec![Project::new("1", "Inbox", true), Project::new("2", "Backlog", false)]))
        .expect("projects load");

    assert_eq!(app.handle_action(&Action::MoveDown).0, None);
    assert_eq!(app.projects.selected_index(), Some(1));
    assert_eq!(app.handle_action(&Action::Quit).0, Some(AppCommand::Quit));
}

#[test]
fn the_saved_visibility_is_what_a_listing_is_read_with() {
    let mut config = config();
    config.project_visibility = vec![ProjectVisibilityConfig { gid: "2".to_string(), starred: true, hidden: false }];
    let mut app = App::new(config);

    app.receive_projects(Ok(vec![Project::new("1", "Inbox", false), Project::new("2", "Backlog", false)]))
        .expect("projects load");

    assert_eq!(app.projects.items().len(), 2);
    assert_eq!(app.projects.items()[0].id, "2", "starred first");
    assert_eq!(app.projects.items()[1].id, "1");
    assert_eq!(app.projects.hidden_count(), 0);
}

#[test]
fn a_listing_that_fails_is_handed_back() {
    let mut app = App::new(config());
    let err = app.receive_projects(Err(Error::Backend("offline".to_string())));
    assert_eq!(err, Err(Error::Backend("offline".to_string())));
    assert!(app.projects.items().is_empty());
}

#[test]
fn braces_toggle_the_top_pane_between_restored_minimized_and_maximized() {
    let mut app = App::new(config());

    app.handle_action(&Action::MinimizeTopPane);

    assert!(app.panel_size().is_minimized());
    assert_eq!(app.panel_size().actual_height(20, 6), 0);
    assert_eq!(app.mode(), Mode::Task);

    app.handle_action(&Action::MinimizeTopPane);

    assert!(app.panel_size().is_normal());

    app.handle_action(&Action::MaximizeTopPane);

    assert!(app.panel_size().is_maximized());
    assert_eq!(app.panel_size().actual_height(20, 6), 20);
    assert_eq!(app.mode(), Mode::Task);

    app.handle_action(&Action::MaximizeTopPane);

    assert!(app.panel_size().is_normal());
}

#[test]
fn switching_to_project_or_filter_mode_restores_a_minimized_top_pane() {
    let mut app = App::new(config());

    app.handle_action(&Action::MinimizeTopPane);
    assert!(app.panel_size().is_minimized());
    assert_eq!(app.mode(), Mode::Task);

    app.handle_action(&Action::SetProjectMode);
    assert!(app.panel_size().is_normal());
    assert_eq!(app.mode(), Mode::Project);

    app.handle_action(&Action::MinimizeTopPane);
    assert!(app.panel_size().is_minimized());
    assert_eq!(app.mode(), Mode::Task);

    app.handle_action(&Action::SetFilterMode);
    assert!(app.panel_size().is_normal());
    assert_eq!(app.mode(), Mode::Filter);
}

#[test]
fn g_draws_the_chart_and_takes_its_controls() {
    let mut s = gantt_app();

    s.press(KeyCode::Char('t'));
    s.press(KeyCode::Char('g'));

    assert_eq!(s.app.mode(), Mode::Gantt);
    assert!(s.app.tasks.gantt().visible());
    assert!(s.app.tasks.visible());
}

#[test]
fn esc_leaves_gantt_mode_with_the_chart_still_drawn() {
    let mut s = gantt_app();

    s.press(KeyCode::Char('t'));
    s.press(KeyCode::Char('g'));
    s.press(KeyCode::Esc);

    assert_eq!(s.app.mode(), Mode::Task);
    assert!(s.app.tasks.gantt().visible(), "esc is not a way to hide it");
}

#[test]
fn g_again_hides_the_chart_and_the_mode_goes_with_it() {
    let mut s = gantt_app();

    s.press(KeyCode::Char('t'));
    s.press(KeyCode::Char('g'));
    s.press(KeyCode::Char('g'));

    assert!(!s.app.tasks.gantt().visible());
    assert_eq!(s.app.mode(), Mode::Task, "the mode has nothing left to drive");
}

#[test]
fn config_can_start_the_session_with_the_chart_already_drawn() {
    let mut config = config();
    config.gantt.visible = true;
    let app = App::new(config);

    assert!(app.tasks.gantt().visible());
}

#[test]
fn pressing_t_in_project_mode_switches_to_task_mode() {
    let mut app = App::new(config());
    assert_eq!(app.mode(), Mode::Project);

    app.handle_action(&Action::SetTaskMode);

    assert_eq!(app.mode(), Mode::Task);
    assert!(app.tasks.visible());
}

#[test]
fn ctrl_c_quits_from_any_mode() {
    let mut s = filter_sets_app();
    s.press(KeyCode::Char('w'));
    let (command, _) = s.app.handle_key_event(KeyPress { code: KeyCode::Char('c'), ctrl: true, alt: false }, None);
    assert_eq!(command, Some(AppCommand::Quit));
}

#[test]
fn w_saves_the_panel_under_a_name_and_binds_to_it() {
    let mut s = filter_sets_app();
    s.type_into_field("Assignee", "alex");

    s.save_as("mine");

    assert_eq!(s.app.mode(), Mode::Filter, "the prompt closed");
    assert_eq!(s.app.tasks.filter_set_loaded_name(), Some("mine"));
    assert_eq!(s.disk.len(), 1);
    assert_eq!(s.disk[0].0, "mine");
    assert_eq!(s.disk[0].1[0].1[0].0, "assignee");
    assert_eq!(s.disk[0].1[0].1[0].1, "alex");
}

#[test]
fn saving_over_an_existing_name_replaces_it_rather_than_adding_a_second() {
    let mut s = filter_sets_app();
    s.type_into_field("Assignee", "alex");
    s.save_as("mine");

    s.type_into_field("Title", "ship");
    // `w` then `enter`: the prompt comes pre-filled with the loaded name.
    s.press(KeyCode::Char('w'));
    assert_eq!(s.app.tasks.filter_set_prompt_text(), Some("mine"));
    s.press(KeyCode::Enter);

    assert_eq!(s.disk.len(), 1, "one entry, not two");
    assert_eq!(s.disk[0].1[0].1.len(), 2);

    // A name that differs only in case is the same entry.
    s.save_as("MINE");
    assert_eq!(s.disk.len(), 1);
    assert_eq!(s.app.tasks.filter_set_loaded_name(), Some("MINE"));
}

#[test]
fn an_empty_name_is_refused_with_the_prompt_still_open() {
    let mut s = filter_sets_app();

    s.press(KeyCode::Char('w'));
    s.press(KeyCode::Char(' '));
    s.press(KeyCode::Enter);

    assert_eq!(s.app.mode(), Mode::FilterSetName, "still typing");
    assert!(s.app.tasks.filter_set_prompt_text().is_some());
    assert!(s.app.filter_sets().is_empty());
    assert!(s.app.tasks.filter_sets_notice().is_some_and(|notice| notice.contains("name")), "and it says why");

    // esc backs out without saving anything.
    s.press(KeyCode::Esc);
    assert_eq!(s.app.mode(), Mode::Filter);
    assert!(s.app.tasks.filter_set_prompt_text().is_none());
    assert_eq!(s.app.tasks.filter_set_loaded_name(), None);
}

#[test]
fn a_burst_of_typing_into_a_bound_panel_costs_exactly_one_write() {
    let mut s = filter_sets_app();
    s.save_as("mine");
    let before = s.disk.clone();

    s.move_to_field("Assignee");
    s.press(KeyCode::Enter);

    // Mid-burst: the write is deferred.
    s.app.tasks.set_input_pending(true);
    for ch in "alex".chars() {
        s.press(KeyCode::Char(ch));
    }
    assert_eq!(s.disk, before, "nothing written mid-burst");

    // The key that empties the queue writes once, with the whole word.
    s.app.tasks.set_input_pending(false);
    let writes = s.writes;
    s.press(KeyCode::Char('x'));
    assert_eq!(s.disk[0].1[0].1[0].1, "alexx");
    assert_eq!(s.writes, writes + 1);
}

#[test]
fn a_change_that_changes_nothing_does_not_rewrite_the_config() {
    let mut s = filter_sets_app();
    s.type_into_field("Assignee", "alex");
    s.save_as("mine");
    let writes = s.writes;

    // `ctrl-l` clears a row that is already clear, which marks the panel
    // changed although nothing about it changed.
    s.move_to_field("Title");
    s.key(KeyPress { code: KeyCode::Char('l'), ctrl: true, alt: false });
    // And a plain cursor move.
    s.press(KeyCode::Char('j'));

    assert_eq!(s.writes, writes, "the config was rewritten for a no-op change");
}

#[test]
fn y_copies_the_panel_to_a_new_unnamed_one_and_leaves_the_entry_as_it_was() {
    let mut s = filter_sets_app();
    s.type_into_field("Assignee", "alex");
    s.save_as("mine");
    let before = s.disk.clone();

    s.press(KeyCode::Char('y'));

    assert_eq!(s.app.tasks.filter_set_loaded_name(), None);
    assert_eq!(s.app.tasks.filter_panel_rows()[1].1, "alex", "the panel keeps what it was showing");

    s.type_into_field("Title", "ship");
    assert_eq!(s.disk, before, "and later edits no longer reach the entry");
}

#[test]
fn n_starts_a_fresh_panel_without_disturbing_the_entry_it_came_from() {
    let mut s = filter_sets_app();
    s.type_into_field("Assignee", "alex");
    s.save_as("mine");
    let before = s.disk.clone();

    s.press(KeyCode::Char('n'));

    assert_eq!(s.app.tasks.filter_set_loaded_name(), None);
    assert_eq!(s.app.tasks.active_filter_count(), 0, "nothing is set");
    assert_eq!(s.app.tasks.filter_set_position(), (0, 1), "one empty tab");
    assert_eq!(s.disk, before, "the entry keeps what was last written to it");

    // And the now-unbound panel writes nothing on a later edit.
    s.type_into_field("Title", "ship");
    assert_eq!(s.disk, before);
}

#[test]
fn a_fresh_panel_asks_for_the_task_data_to_be_checked() {
    let mut s = filter_sets_app();
    let (_, fx) = s.app.handle_action(&Action::FilterSetNew);
    assert!(fx.check_task_data, "a dropped due filter can widen what has to be fetched");
}

#[test]
fn d_deletes_the_loaded_entry_after_a_confirmation_and_detaches() {
    let mut s = filter_sets_app();
    s.type_into_field("Assignee", "alex");
    s.save_as("mine");

    s.press(KeyCode::Char('d'));
    assert_eq!(s.app.mode(), Mode::FilterSetName, "it asks first");
    s.press(KeyCode::Char('n'));
    assert_eq!(s.app.mode(), Mode::Filter);
    assert_eq!(s.disk.len(), 1, "`n` keeps it");
    assert_eq!(s.app.tasks.filter_set_loaded_name(), Some("mine"));

    s.press(KeyCode::Char('d'));
    s.press(KeyCode::Char('y'));

    assert_eq!(s.app.mode(), Mode::Filter);
    assert!(s.disk.is_empty());
    assert_eq!(s.app.tasks.filter_set_loaded_name(), None);
    assert_eq!(s.app.tasks.filter_panel_rows()[1].1, "alex", "deleting the entry does not empty the panel");
}

#[test]
fn d_is_refused_when_nothing_is_loaded() {
    let mut s = filter_sets_app();
    s.type_into_field("Assignee", "alex");
    s.save_as("mine");
    s.press(KeyCode::Char('y'));

    s.press(KeyCode::Char('d'));

    assert_eq!(s.app.mode(), Mode::Filter, "no prompt opened");
    assert_eq!(s.disk.len(), 1);
}

#[test]
fn a_digit_loads_the_entry_at_that_position_in_the_window() {
    let mut s = filter_sets_app();
    s.type_into_field("Assignee", "alex");
    s.save_as("bravo");
    // `n` between them, so the second entry starts from nothing.
    s.press(KeyCode::Char('n'));
    s.type_into_field("Title", "ship");
    s.save_as("alpha");
    s.press(KeyCode::Char('n'));

    // Sorted by name, so `1` is alpha and `2` is bravo whatever order they
    // were written in.
    s.press(KeyCode::Char('2'));

    assert_eq!(s.app.tasks.filter_set_loaded_name(), Some("bravo"));
    assert_eq!(s.app.tasks.filter_panel_rows()[1].1, "alex");
    assert_eq!(s.app.tasks.filter_panel_rows()[0].1, "");

    s.press(KeyCode::Char('1'));
    assert_eq!(s.app.tasks.filter_set_loaded_name(), Some("alpha"));
    assert_eq!(s.app.tasks.filter_panel_rows()[0].1, "ship");

    // A digit past the end of the list does nothing.
    s.press(KeyCode::Char('9'));
    assert_eq!(s.app.tasks.filter_set_loaded_name(), Some("alpha"));
}

#[test]
fn a_digit_asks_before_throwing_away_an_unnamed_panel() {
    let mut s = filter_sets_app();
    s.type_into_field("Assignee", "alex");
    s.save_as("saved");
    s.press(KeyCode::Char('n'));
    s.type_into_field("Title", "unsaved work");

    s.press(KeyCode::Char('1'));

    assert_eq!(s.app.mode(), Mode::FilterSetName, "it asks first");
    assert_eq!(s.app.tasks.filter_panel_rows()[0].1, "unsaved work", "and nothing has been loaded yet");

    // `n` backs out, leaving the panel exactly as it was.
    s.press(KeyCode::Char('n'));
    assert_eq!(s.app.mode(), Mode::Filter);
    assert_eq!(s.app.tasks.filter_panel_rows()[0].1, "unsaved work");
    assert_eq!(s.app.tasks.filter_set_loaded_name(), None);

    // `y` goes through with it.
    s.press(KeyCode::Char('1'));
    s.press(KeyCode::Char('y'));

    assert_eq!(s.app.mode(), Mode::Filter);
    assert_eq!(s.app.tasks.filter_set_loaded_name(), Some("saved"));
    assert_eq!(s.app.tasks.filter_panel_rows()[0].1, "");
    assert_eq!(s.app.tasks.filter_panel_rows()[1].1, "alex");
}

#[test]
fn a_digit_asks_nothing_when_there_is_nothing_to_lose() {
    let mut s = filter_sets_app();
    s.type_into_field("Assignee", "alex");
    s.save_as("saved");

    // Bound: every change is already written, so loading over it costs nothing.
    assert!(!s.app.tasks.filter_set_is_unsaved());
    s.press(KeyCode::Char('1'));
    assert_eq!(s.app.mode(), Mode::Filter, "no prompt for a bound panel");
    assert_eq!(s.app.tasks.filter_set_loaded_name(), Some("saved"));

    // Unnamed but empty: nothing worth a keypress to confirm.
    s.press(KeyCode::Char('n'));
    assert!(!s.app.tasks.filter_set_is_unsaved());
    s.press(KeyCode::Char('1'));
    assert_eq!(s.app.mode(), Mode::Filter, "nor for an empty one");
    assert_eq!(s.app.tasks.filter_set_loaded_name(), Some("saved"));
}

#[test]
fn a_digit_past_the_end_of_the_list_asks_nothing_and_does_nothing() {
    let mut s = filter_sets_app();
    s.type_into_field("Title", "unsaved work");

    s.press(KeyCode::Char('9'));

    assert_eq!(s.app.mode(), Mode::Filter, "no entry, so no question");
    assert_eq!(s.app.tasks.filter_panel_rows()[0].1, "unsaved work");
}

#[test]
fn an_edit_still_in_hand_reaches_disk_before_the_panel_is_replaced() {
    let mut s = filter_sets_app();
    s.save_as("alpha");
    s.press(KeyCode::Char('n'));
    s.save_as("bravo");

    s.move_to_field("Assignee");
    s.press(KeyCode::Enter);
    s.app.tasks.set_input_pending(true);
    for ch in "alex".chars() {
        s.press(KeyCode::Char(ch));
    }
    // Still mid-burst, so committing the edit does not flush it either.
    s.press(KeyCode::Enter);
    assert_eq!(s.app.mode(), Mode::Filter);
    assert!(s.disk[1].1[0].1.is_empty(), "still unwritten, mid-burst");

    // `1` loads alpha. The edit bravo was still holding must not go with
    // the panel it was typed into.
    s.app.tasks.set_input_pending(false);
    s.press(KeyCode::Char('1'));

    assert_eq!(s.app.tasks.filter_set_loaded_name(), Some("alpha"));
    let bravo = s.disk.iter().find(|entry| entry.0 == "bravo").expect("bravo is still there");
    assert_eq!(bravo.1[0].1[0].1, "alex");
}

#[test]
fn b_toggles_the_sidebar_without_taking_the_field_cursor() {
    let mut s = filter_sets_app();
    let before = s.app.tasks.filter_editor().selected();

    s.press(KeyCode::Char('b'));
    assert!(s.app.tasks.filter_sets_sidebar_visible());

    // `j` still walks the filter fields.
    s.press(KeyCode::Char('j'));
    assert_eq!(s.app.tasks.filter_editor().selected(), before + 1);

    s.press(KeyCode::Char('b'));
    assert!(!s.app.tasks.filter_sets_sidebar_visible());
}

#[test]
fn a_config_that_cannot_be_written_reports_instead_of_ending_the_session() {
    let mut s = filter_sets_app();
    s.type_into_field("Assignee", "alex");
    s.save_as("mine");

    s.fail_writes = true;
    s.type_into_field("Title", "ship");

    assert!(
        s.app.tasks.filter_sets_notice().is_some_and(|notice| notice.contains("could not save")),
        "the failure is reported"
    );
    assert_eq!(s.app.tasks.filter_panel_rows()[0].1, "ship", "and the edit still happened");
}

#[test]
fn a_report_of_a_failed_write_names_the_cause_and_a_good_write_clears_it() {
    let mut app = App::new(config());
    app.report_write(Some("disk full"));
    assert_eq!(app.tasks.filter_sets_notice(), Some("could not save: disk full"));
    assert!(app.tasks.filter_sets_sidebar_visible());
    app.report_write(None);
    assert_eq!(app.tasks.filter_sets_notice(), None);
}

#[test]
fn entries_handed_in_at_the_start_load_by_digit() {
    let mut config = config();
    let saved = tuisana::filter::SavedFilterSet {
        negated: false,
        fields: vec![tuisana::filter::SavedFilterField {
            key: "title".to_string(),
            query: "ship".to_string(),
            string_mode: None,
            empty: false,
            negated: false,
        }],
    };
    config.filter_sets = vec![NamedFilterSet { name: "zeta".to_string(), sets: vec![saved] }];
    let mut app = App::new(config);
    app.tasks.rebuild_filter_panel(standard_fields());
    let mut s = Session { app, disk: Vec::new(), writes: 0, fail_writes: false, gantt_disk: None, table_actions: Vec::new() };
    s.press(KeyCode::Char('t'));
    s.press(KeyCode::Char('f'));

    s.press(KeyCode::Char('1'));

    assert_eq!(s.app.tasks.filter_set_loaded_name(), Some("zeta"));
    assert_eq!(s.app.tasks.filter_panel_rows()[0].1, "ship");
}

#[test]
fn the_project_search_types_in_lower_case_and_escape_ends_it() {
    let mut app = App::new(config());
    app.receive_projects(Ok(vec![Project::new("1", "Inbox", true), Project::new("2", "Backlog", false)]))
        .expect("projects load");
    app.handle_action(&Action::StartSearch);
    assert_eq!(app.mode(), Mode::ProjectSearch);

    assert!(app.handle_project_search_input(plain(KeyCode::Char('B'))));
    assert_eq!(app.projects.search_query(), "b");
    assert!(app.handle_project_search_input(plain(KeyCode::Esc)));
    assert_eq!(app.mode(), Mode::Project);
    assert!(!app.projects.search_active());
}

#[test]
fn starring_a_project_asks_for_the_choice_to_be_saved() {
    let mut app = App::new(config());
    app.receive_projects(Ok(vec![Project::new("1", "Inbox", false)])).expect("projects load");
    let (_, fx) = app.handle_action(&Action::ToggleStarredSelected);
    assert!(fx.persist_project_visibility);
    assert_eq!(app.project_visibility().len(), 1);
    assert!(app.project_visibility()[0].starred);
}

#[test]
fn the_chart_dialog_keys_stay_off_the_task_table() {
    let mut app = App::new(config());
    app.handle_action(&Action::SetGanttMode);
    let (_, fx) = app.handle_action(&Action::GanttOpenOrder);
    assert_eq!(app.mode(), Mode::GanttOrder);
    assert!(fx.for_task_table, "the dialog lists what the table holds");
    let (_, fx) = app.handle_action(&Action::MoveDown);
    assert!(!fx.for_task_table);
    let (_, fx) = app.handle_action(&Action::GanttOrderCommit);
    assert_eq!(app.mode(), Mode::Gantt);
    assert!(fx.persist_gantt_colors);
}

#[test]
fn twelve_writes_with_three_failures_are_one_report() {
    let mut app = App::new(config());
    app.tasks.set_edit_notice("from before");
    app.note_task_edits_sent(12);
    assert_eq!(app.tasks.edit_notice(), None, "a new burst takes the last report down");

    for i in 0..11 {
        let error = if i % 4 == 0 { Some("rate limited") } else { None };
        app.reconcile_task_edit(error);
        assert_eq!(app.tasks.edit_notice(), None, "nothing is reported mid-burst");
    }
    app.reconcile_task_edit(None);

    assert_eq!(app.tasks.edit_notice(), Some("could not update 3 of 12: rate limited"));
}

#[test]
fn a_burst_that_all_lands_reports_nothing_and_starts_again() {
    let mut app = App::new(config());
    app.note_task_edits_sent(2);
    app.reconcile_task_edit(None);
    app.reconcile_task_edit(None);
    assert_eq!(app.tasks.edit_notice(), None);

    app.note_task_edits_sent(1);
    app.reconcile_task_edit(Some("gone"));
    assert_eq!(app.tasks.edit_notice(), Some("could not update 1 of 1: gone"));
}

#[test]
fn the_dialog_opens_over_the_current_dimensions_values() {
    let mut s = gantt_app();

    s.press(KeyCode::Char('t'));
    s.press(KeyCode::Char('g'));
    s.press(KeyCode::Enter);

    assert_eq!(s.app.mode(), Mode::GanttOrder);
    let dialog = s.app.tasks.gantt().dialog().expect("the dialog is open");
    assert_eq!(dialog.key(), &GanttColorKey::Assignee);
    assert_eq!(dialog.entries().len(), 2, "two assignees, none unassigned");
}

#[test]
fn j_and_k_drive_the_dialog_rather_than_the_task_rows() {
    let mut s = gantt_app();

    s.press(KeyCode::Char('t'));
    s.press(KeyCode::Char('g'));
    s.press(KeyCode::Enter);
    let handed = s.table_actions.len();
    s.press(KeyCode::Char('j'));

    assert_eq!(s.app.tasks.gantt().dialog().expect("open").selected(), 1);
    assert_eq!(s.table_actions.len(), handed, "the table did not move");
}

#[test]
fn saving_the_dialog_writes_the_order_to_the_config_file() {
    let mut s = gantt_app();

    s.press(KeyCode::Char('t'));
    s.press(KeyCode::Char('g'));
    s.press(KeyCode::Enter);
    s.press(KeyCode::Char('b')); // send the first value to the bottom
    s.press(KeyCode::Enter);

    assert_eq!(s.app.mode(), Mode::Gantt);
    let (color_by, orders) = s.gantt_disk.clone().expect("config was written");
    let order = orders.iter().find(|(key, _)| key == "assignee").map(|(_, values)| values.clone());
    assert_eq!(order, Some(vec!["Owner t2".to_string(), "Owner t1".to_string()]));
    assert_eq!(color_by, "assignee");
}

#[test]
fn cancelling_the_dialog_writes_nothing() {
    let mut s = gantt_app();

    s.press(KeyCode::Char('t'));
    s.press(KeyCode::Char('g'));
    s.press(KeyCode::Enter);
    s.press(KeyCode::Char('b'));
    s.press(KeyCode::Esc);

    assert_eq!(s.app.mode(), Mode::Gantt);
    assert!(!s.app.tasks.gantt().dialog_open());
    assert!(s.gantt_disk.is_none());
}

#[test]
fn refresh_reloads_tasks_even_when_the_cache_already_covers_the_query() {
    let mut app = App::new(config());
    app.receive_projects(Ok(vec![Project::new("1", "Inbox", true)])).expect("projects load");
    app.handle_action(&Action::ToggleSelection);
    app.tasks.set_visible(true);
    // A first load, served and finished.
    match app.plan_task_fetch(&[]) {
        FetchPlan::Fetch { generation, projects } => {
            assert_eq!(generation, 1);
            assert_eq!(projects.len(), 1);
        }
        other => panic!("expected a fetch, got {other:?}"),
    }
    app.tasks.finish_loading_targets();
    assert_eq!(app.tasks.loaded_target_ids(), &["1".to_string()]);
    // Covered by the cache: nothing to fetch.
    assert!(matches!(app.plan_task_fetch(&["1".to_string()]), FetchPlan::Cached));

    let (listed, plan) = app.refresh(Ok(vec![Project::new("1", "Inbox", true)]), false);

    assert!(listed.is_ok());
    assert!(matches!(plan, Some(FetchPlan::Fetch { generation: 2, .. })));
    assert_eq!(app.tasks.status(), &tuisana::task::TaskStatus::Loading);
}

#[test]
fn a_refresh_with_the_tasks_hidden_marks_them_out_of_date() {
    let mut app = App::new(config());
    app.tasks.set_error("the last fetch failed");
    let (_, plan) = app.refresh(Ok(vec![Project::new("1", "Inbox", true)]), false);
    assert!(plan.is_none());
    assert_eq!(
        app.tasks.status(),
        &tuisana::task::TaskStatus::OutOfDate("refreshed; switch to task view to reload".to_string())
    );
}

#[test]
fn a_refresh_that_cannot_list_hands_the_error_back() {
    let mut app = App::new(config());
    app.handle_action(&Action::SetTaskMode);
    let (listed, plan) = app.refresh(Err(Error::Backend("offline".to_string())), false);
    assert_eq!(listed, Err(Error::Backend("offline".to_string())));
    assert!(plan.is_none());
}

#[test]
fn a_refresh_over_a_request_in_flight_makes_it_stale() {
    let mut app = App::new(config());
    app.handle_action(&Action::SetTaskMode);
    let _ = app.receive_projects(Ok(vec![Project::new("1", "Inbox", true)]));
    assert!(matches!(app.plan_task_fetch(&[]), FetchPlan::Fetch { generation: 1, .. }));
    let (_, plan) = app.refresh(Ok(vec![Project::new("1", "Inbox", true)]), true);
    assert!(matches!(plan, Some(FetchPlan::Fetch { generation: 3, .. })));
}

#[test]
fn with_no_target_the_load_finishes_empty() {
    let mut app = App::new(config());
    app.tasks.set_visible(true);
    assert!(matches!(app.plan_task_fetch(&[]), FetchPlan::NoTargets));
    assert_eq!(app.tasks.status(), &tuisana::task::TaskStatus::Idle);
}

#[test]
fn the_targets_are_the_selected_projects_in_list_order_else_the_cursor() {
    let mut app = App::new(config());
    app.receive_projects(Ok(vec![Project::new("1", "Inbox", true), Project::new("2", "Backlog", false)]))
        .expect("projects load");
    let cursor: Vec<String> = app.task_target_projects().into_iter().map(|p| p.id).collect();
    assert_eq!(cursor, vec!["1".to_string()]);
    app.handle_action(&Action::MoveDown);
    app.handle_action(&Action::ToggleSelection);
    app.handle_action(&Action::MoveUp);
    app.handle_action(&Action::ToggleSelection);
    let chosen: Vec<String> = app.task_target_projects().into_iter().map(|p| p.id).collect();
    assert_eq!(chosen, vec!["1".to_string(), "2".to_string()]);
}

#[test]
fn toggle_task_filters_closes_the_panel_when_it_is_already_visible() {
    let mut app = App::new(config());
    app.receive_projects(Ok(vec![Project::new("1", "Inbox", true)])).expect("projects load");
    app.tasks.set_visible(true);
    app.tasks.toggle_filter_panel();
    assert!(app.tasks.filter_panel_visible());

    app.handle_action(&Action::ToggleTaskFilters);

    assert!(!app.tasks.filter_panel_visible());
}

fn table_row(gid: &str, is_task: bool) -> tuisana::table::TableRow {
    tuisana::table::TableRow { gid: gid.to_string(), is_task, selectable: is_task }
}

#[test]
fn in_task_mode_the_cursor_keys_walk_the_task_table() {
    let mut app = App::new(config());
    app.handle_action(&Action::SetTaskMode);
    assert_eq!(app.mode(), Mode::Task);
    app.rebuild_table(vec![table_row("", false), table_row("a", true), table_row("b", true)], Vec::new(), 3, &[]);
    assert_eq!(app.table().selected(), Some(1));
    let (command, fx) = app.handle_action(&Action::MoveDown);
    assert_eq!(command, None);
    assert!(!fx.for_task_table);
    assert!(fx.check_task_data);
    assert_eq!(app.table().selected(), Some(2));
    app.handle_action(&Action::JumpTop);
    assert_eq!(app.table().selected(), Some(1));
    app.handle_action(&Action::JumpBottom);
    assert_eq!(app.table().selected(), Some(2));
    app.handle_action(&Action::MoveUp);
    assert_eq!(app.table().selected(), Some(1));
}

#[test]
fn the_session_carries_out_the_tables_own_actions() {
    let mut app = App::new(config());
    app.rebuild_table(vec![table_row("a", true), table_row("b", true)], Vec::new(), 3, &[]);
    assert_eq!(app.apply_table_action(tuisana::task_table::TableAction::ToggleSelection, &[]), None);
    assert_eq!(app.table().selected(), Some(1));
    assert!(app.table().chosen().contains(&"a".to_string()));
}

fn reply(generation: u64, done: bool, project: Option<&str>, error: Option<&str>) -> tuisana::app::TaskDataReply {
    tuisana::app::TaskDataReply {
        generation,
        done,
        project_id: project.map(|p| p.to_string()),
        error: error.map(|e| e.to_string()),
    }
}

#[test]
fn replies_to_an_older_request_are_passed_over_and_the_last_one_ends_the_load() {

    let mut app = App::new(config());
    app.receive_projects(Ok(vec![Project::new("1", "Inbox", true)])).expect("projects load");
    app.tasks.set_visible(true);
    assert!(matches!(app.plan_task_fetch(&[]), FetchPlan::Fetch { generation: 1, .. }));
    assert_eq!(app.tasks.status(), &tuisana::task::TaskStatus::Loading);

    assert_eq!(app.receive_task_reply(&reply(0, true, None, None)), PollStep::Stale);
    assert_eq!(app.tasks.status(), &tuisana::task::TaskStatus::Loading);
    assert_eq!(app.receive_task_reply(&reply(1, false, None, None)), PollStep::Skipped);
    assert_eq!(app.receive_task_reply(&reply(1, false, Some("1"), None)), PollStep::Ingest);
    assert_eq!(app.receive_task_reply(&reply(1, true, None, None)), PollStep::Finished);
    assert_eq!(app.tasks.status(), &tuisana::task::TaskStatus::Idle);
    assert_eq!(app.tasks.loaded_target_ids(), &["1".to_string()]);
}

#[test]
fn a_failed_reply_records_the_error_and_ends_the_reading() {

    let mut app = App::new(config());
    app.receive_projects(Ok(vec![Project::new("1", "Inbox", true)])).expect("projects load");
    app.tasks.set_visible(true);
    assert!(matches!(app.plan_task_fetch(&[]), FetchPlan::Fetch { generation: 1, .. }));
    assert_eq!(app.receive_task_reply(&reply(1, false, Some("1"), Some("timed out"))), PollStep::Failed);
    assert_eq!(app.tasks.status(), &tuisana::task::TaskStatus::Error("timed out".to_string()));
    assert!(app.tasks.loading_targets().is_empty());
}
