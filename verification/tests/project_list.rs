use tuisana::error::Error;
use tuisana::input::{Action, AppCommand};
use tuisana::project_list::{
    AsanaClient, Project, ProjectListState, ProjectListStatus, ProjectVisibilityConfig, SearchMode,
};

/// A backend that answers with a fixed listing.
struct FakeAsanaClient {
    projects: Vec<Project>,
}

impl FakeAsanaClient {
    fn new(projects: Vec<Project>) -> Self {
        FakeAsanaClient { projects }
    }
}

impl AsanaClient for FakeAsanaClient {
    fn list_projects(&self) -> Result<Vec<Project>, Error> {
        Ok(self.projects.clone())
    }
}


struct FailingAsanaClient;

impl AsanaClient for FailingAsanaClient {
    fn list_projects(&self) -> Result<Vec<Project>, Error> {
        Err(Error::Backend("backend unavailable".to_string()))
    }
}

#[test]
fn sorts_starred_projects_first_then_name() {
    let state = ProjectListState::from_projects(vec![
        Project::new("3", "Zeta", false),
        Project::new("1", "Backlog", true),
        Project::new("2", "Alpha", true),
    ]);

    let names: Vec<_> = state.items().iter().map(|project| project.name.as_str()).collect();

    assert_eq!(names, vec!["Alpha", "Backlog", "Zeta"]);
    assert_eq!(state.selected_index(), Some(0));
}

#[test]
fn sorts_hidden_projects_after_visible_projects() {
    let state = ProjectListState::from_projects_with_visibility(
        vec![
            Project::new("1", "Visible Starred", false),
            Project::new("2", "Hidden Starred", false),
            Project::new("3", "Visible Unstarred", false),
        ],
        &[
            ProjectVisibilityConfig {
                gid: "1".to_string(),
                starred: true,
                hidden: false,
            },
            ProjectVisibilityConfig {
                gid: "2".to_string(),
                starred: true,
                hidden: true,
            },
        ],
    );

    let names: Vec<_> = state.items().iter().map(|project| project.name.as_str()).collect();

    assert_eq!(names, vec!["Visible Starred", "Visible Unstarred"]);
    assert_eq!(state.hidden_count(), 1);
}

#[test]
fn loads_empty_and_selects_nothing() {
    let client = FakeAsanaClient::new(vec![]);
    let mut state = ProjectListState::new();

    state.load(&client).expect("projects load");

    assert!(state.items().is_empty());
    assert_eq!(state.selected_index(), None);
    assert_eq!(state.status(), &ProjectListStatus::Empty);
}

#[test]
fn navigation_respects_bounds() {
    let mut state = ProjectListState::from_projects(vec![
        Project::new("1", "Inbox", true),
        Project::new("2", "Backlog", false),
    ]);

    assert_eq!(state.selected_index(), Some(0));
    state.move_up();
    assert_eq!(state.selected_index(), Some(0));
    state.move_down();
    assert_eq!(state.selected_index(), Some(1));
    state.move_down();
    assert_eq!(state.selected_index(), Some(1));
}

#[test]
fn applies_navigation_actions_and_app_commands() {
    let mut state = ProjectListState::from_projects(vec![
        Project::new("1", "Inbox", true),
        Project::new("2", "Backlog", false),
    ]);

    assert_eq!(state.apply_action(&Action::MoveDown), None);
    assert_eq!(state.selected_index(), Some(1));
    assert_eq!(state.apply_action(&Action::PageUp), None);
    assert_eq!(state.selected_index(), Some(0));
    assert_eq!(state.apply_action(&Action::Quit), Some(AppCommand::Quit));
    assert_eq!(state.apply_action(&Action::Refresh), Some(AppCommand::Refresh));
    assert_eq!(state.apply_action(&Action::ToggleSelection), None);
}

#[test]
fn records_error_state_when_backend_fails() {
    let mut state = ProjectListState::new();
    let err = state.load(&FailingAsanaClient).expect_err("load should fail");

    assert_eq!(err.message(), "backend error: backend unavailable");
    assert_eq!(
        state.status(),
        &ProjectListStatus::Error("backend error: backend unavailable".to_string())
    );
    assert!(state.items().is_empty());
    assert_eq!(state.selected_index(), None);
}

#[test]
fn toggles_selection_and_selection_only_filter() {
    let mut state = ProjectListState::from_projects(vec![
        Project::new("1", "Inbox", true),
        Project::new("2", "Backlog", false),
        Project::new("3", "Roadmap", false),
    ]);

    state.toggle_current_selection();
    assert_eq!(state.selected_count(), 1);
    state.move_down();
    state.toggle_current_selection();
    assert_eq!(state.selected_count(), 2);

    state.toggle_selected_only();

    let names: Vec<_> = state.items().iter().map(|project| project.name.as_str()).collect();
    assert_eq!(names, vec!["Inbox", "Backlog"]);
    assert_eq!(state.selected_index(), Some(1));
}

#[test]
fn filters_projects_by_search_mode() {
    let mut state = ProjectListState::from_projects(vec![
        Project::new("1", "Inbox", true),
        Project::new("2", "Backlog", false),
        Project::new("3", "Roadmap", false),
    ]);

    state.set_search_mode(SearchMode::Substring);
    state.push_search_char('b');
    state.push_search_char('a');
    state.push_search_char('c');
    state.push_search_char('k');
    let names: Vec<_> = state.items().iter().map(|project| project.name.as_str()).collect();
    assert_eq!(names, vec!["Backlog"]);

    state.pop_search_char();
    state.pop_search_char();
    state.pop_search_char();
    state.pop_search_char();
    state.set_search_mode(SearchMode::Fuzzy);
    state.push_search_char('r');
    state.push_search_char('d');
    let names: Vec<_> = state.items().iter().map(|project| project.name.as_str()).collect();
    assert_eq!(names, vec!["Roadmap"]);
}

#[test]
fn rejects_invalid_regex_queries_without_losing_state() {
    let mut state = ProjectListState::from_projects(vec![
        Project::new("1", "Inbox", true),
        Project::new("2", "Backlog", false),
    ]);

    state.set_search_mode(SearchMode::Regex);
    state.push_search_char('[');

    assert!(state.items().is_empty());
    assert!(state.search_error().is_some());
    assert_eq!(state.selected_index(), None);
}

#[test]
fn toggles_starred_and_hidden_selected_projects() {
    let mut state = ProjectListState::from_projects(vec![
        Project::new("1", "Inbox", false),
        Project::new("2", "Backlog", false),
    ]);

    state.move_down();
    state.toggle_current_selection();
    state.toggle_starred_selected();
    assert!(state
        .visibility_preferences()
        .iter()
        .any(|project| project.gid == "1" && project.starred));

    state.toggle_hidden_selected();
    assert!(state
        .visibility_preferences()
        .iter()
        .any(|project| project.gid == "1" && project.hidden));
}

fn listed(state: &ProjectListState) -> Vec<&str> {
    state.items().iter().map(|project| project.name.as_str()).collect()
}

fn hidden(id: &str, name: &str) -> Project {
    let mut project = Project::new(id, name, false);
    project.hidden = true;
    project
}

#[test]
fn a_regular_expression_search_lists_what_it_matches() {
    let mut state = ProjectListState::from_projects(vec![
        Project::new("1", "Inbox", false),
        Project::new("2", "Backlog", false),
        Project::new("3", "Bench", false),
    ]);
    state.set_search_mode(SearchMode::Regex);
    for ch in "^b.*g".chars() {
        state.push_search_char(ch);
    }

    assert_eq!(listed(&state), vec!["Backlog"]);
    assert_eq!(state.search_error(), None);
    assert_eq!(state.search_query(), "^b.*g");
}

#[test]
fn a_search_also_reads_the_project_id() {
    let mut state = ProjectListState::from_projects(vec![
        Project::new("abc-17", "Inbox", false),
        Project::new("xyz-42", "Backlog", false),
    ]);
    for ch in "42".chars() {
        state.push_search_char(ch);
    }
    assert_eq!(listed(&state), vec!["Backlog"]);
}

#[test]
fn leaving_regex_mode_clears_the_search_error() {
    let mut state = ProjectListState::from_projects(vec![Project::new("1", "Inbox", false)]);
    state.set_search_mode(SearchMode::Regex);
    state.push_search_char('[');
    assert!(state.search_error().is_some());

    state.set_search_mode(SearchMode::Substring);
    assert_eq!(state.search_error(), None);
    assert_eq!(state.search_mode(), SearchMode::Substring);
}

#[test]
fn the_hidden_group_is_listed_last_when_shown() {
    let mut state = ProjectListState::from_projects(vec![
        hidden("1", "Archive"),
        Project::new("2", "Zeta", false),
        Project::new("3", "Alpha", true),
    ]);
    assert_eq!(listed(&state), vec!["Alpha", "Zeta"]);
    assert_eq!(state.hidden_count(), 1);
    assert!(!state.hidden_visible());

    state.toggle_hidden_group();
    assert!(state.hidden_visible());
    assert_eq!(listed(&state), vec!["Alpha", "Zeta", "Archive"]);
}

#[test]
fn the_cursor_stays_on_its_project_when_the_list_changes() {
    let mut state = ProjectListState::from_projects(vec![
        hidden("1", "Archive"),
        Project::new("2", "Beta", false),
        Project::new("3", "Gamma", false),
    ]);
    state.move_down();
    assert_eq!(state.selected_project().map(|p| p.name.as_str()), Some("Gamma"));

    state.toggle_hidden_group();
    assert_eq!(state.selected_project().map(|p| p.name.as_str()), Some("Gamma"));
    assert_eq!(state.selected_index(), Some(1));
}

#[test]
fn toggling_a_selection_twice_selects_nothing() {
    let mut state = ProjectListState::from_projects(vec![Project::new("1", "Inbox", false)]);
    state.toggle_current_selection();
    assert!(state.is_selected("1"));
    state.toggle_current_selection();
    assert!(!state.is_selected("1"));
    assert_eq!(state.selected_count(), 0);
}

#[test]
fn remembered_choices_are_listed_by_id() {
    let mut state = ProjectListState::from_projects(vec![
        Project::new("b", "One", true),
        Project::new("a", "Two", false),
        hidden("c", "Three"),
    ]);
    state.toggle_hidden_group();
    while state.selected_project().map(|p| p.id.as_str()) != Some("a") {
        state.move_down();
    }
    state.toggle_starred_selected();

    let ids: Vec<String> = state.visibility_preferences().iter().map(|p| p.gid.clone()).collect();
    assert_eq!(ids, vec!["a", "b", "c"]);
}

#[test]
fn a_failed_load_hands_the_error_back_and_clears_the_list() {
    let mut state = ProjectListState::from_projects(vec![Project::new("1", "Inbox", false)]);
    let answer = state.receive(Err(Error::Backend("down".to_string())), &[]);

    assert_eq!(answer, Err(Error::Backend("down".to_string())));
    assert!(state.items().is_empty());
    assert_eq!(state.status(), &ProjectListStatus::Error("backend error: down".to_string()));
}

#[test]
fn a_successful_load_is_ready_or_empty() {
    let mut state = ProjectListState::new();
    assert_eq!(state.status(), &ProjectListStatus::Idle);
    state.load(&FakeAsanaClient::new(vec![Project::new("1", "Inbox", false)])).expect("loads");
    assert_eq!(state.status(), &ProjectListStatus::Ready);
    assert_eq!(state.selected_index(), Some(0));
}

#[test]
fn searching_starts_and_ends_without_touching_the_list() {
    let mut state = ProjectListState::from_projects(vec![Project::new("1", "Inbox", false)]);
    state.apply_action(&Action::StartSearch);
    assert!(state.search_active());
    state.end_search();
    assert!(!state.search_active());
    assert_eq!(listed(&state), vec!["Inbox"]);
}

#[test]
fn a_fuzzy_search_reads_the_query_in_lower_case() {
    let mut state = ProjectListState::from_projects(vec![
        Project::new("1", "Roadmap", false),
        Project::new("2", "Inbox", false),
    ]);
    state.set_search_mode(SearchMode::Fuzzy);
    state.push_search_char('R');
    state.push_search_char('D');
    assert_eq!(listed(&state), vec!["Roadmap"]);
    state.pop_search_char();
    state.pop_search_char();
    assert_eq!(listed(&state), vec!["Inbox", "Roadmap"]);
}
