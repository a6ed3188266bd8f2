use tuisana::error::Error;
use tuisana::input::{Action, AppCommand};
use tuisana::matching::{fuzzy_match, regex_error, regex_is_match, regex_search, substring_match};
use tuisana::order::str_less;
use tuisana::text::chars_of;

#[test]
fn a_fuzzy_query_matches_its_characters_in_order() {
    assert!(fuzzy_match(&chars_of("roadmap 3"), &chars_of("rd")));
    assert!(fuzzy_match(&chars_of("roadmap 3"), &chars_of("")));
    assert!(!fuzzy_match(&chars_of("roadmap 3"), &chars_of("dr")), "order matters");
    assert!(!fuzzy_match(&chars_of("ab"), &chars_of("abc")));
}

#[test]
fn a_substring_query_matches_only_side_by_side() {
    assert!(substring_match(&chars_of("backlog 2"), &chars_of("back")));
    assert!(!substring_match(&chars_of("backlog 2"), &chars_of("bclk")));
}

#[test]
fn a_regular_expression_is_built_case_insensitively() {
    assert_eq!(regex_error("^b.*g"), None);
    assert!(regex_error("[").is_some(), "an unclosed class does not build");
    assert!(regex_is_match("BACK", "backlog"));
    assert!(!regex_is_match("^log", "backlog"));
    assert!(regex_search("^b", &chars_of("backlog 2")));
    assert!(!regex_search("[", &chars_of("[")), "a pattern that does not build matches nothing");
}

#[test]
fn strings_sort_by_code_point_with_prefixes_first() {
    assert!(str_less("a", "b"));
    assert!(str_less("", "a"));
    assert!(str_less("ab", "abc"));
    assert!(!str_less("abc", "ab"));
    assert!(str_less("Zeta", "alpha"), "upper case sorts before lower case");
    assert!(!str_less("same", "same"));
}

#[test]
fn a_backend_error_reads_as_a_backend_error() {
    let err = Error::Backend("timed out".to_string());
    assert_eq!(err.message(), "backend error: timed out");
    assert_eq!(err.clone(), err);
}

#[test]
fn only_quit_and_refresh_leave_the_view() {
    assert_eq!(Action::Quit.as_app_command(), Some(AppCommand::Quit));
    assert_eq!(Action::Refresh.as_app_command(), Some(AppCommand::Refresh));
    assert_eq!(Action::MoveUp.as_app_command(), None);
}
