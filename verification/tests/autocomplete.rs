use tuisana::autocomplete::{AutocompleteState, Candidate, Unresolved};


fn people() -> Vec<Candidate> {
    vec![
        Candidate::new("me", "me"),
        Candidate::new("u1", "Alex Chen"),
        Candidate::new("u2", "Jo Park"),
        Candidate::new("u3", "Priya Raman"),
    ]
}

fn projects() -> AutocompleteState {
    AutocompleteState::new(
        vec![Candidate::new("p1", "Northwind")],
        vec![
            Candidate::new("p1", "Northwind"),
            Candidate::new("p2", "Backlog"),
            Candidate::new("p3", "Bench"),
        ],
        usize::MAX,
    )
}

fn type_text(state: &mut AutocompleteState, text: &str) {
    for ch in text.chars() {
        state.push_char(ch);
    }
}

#[test]
fn tab_completes_the_prefix_and_repeating_it_walks_the_matches() {
    let mut state = projects();
    type_text(&mut state, "b");

    assert!(state.complete(1));
    assert_eq!(state.buffer(), "Backlog");
    assert!(state.complete(1));
    assert_eq!(state.buffer(), "Bench", "the prefix survives the first match");
    assert!(state.complete(1));
    assert_eq!(state.buffer(), "Backlog", "and the walk wraps");
    assert!(state.complete(-1));
    assert_eq!(state.buffer(), "Bench");
}

#[test]
fn a_prefix_that_matches_nothing_completes_nothing_and_says_so() {
    let mut state = projects();
    type_text(&mut state, "zzz");

    assert!(!state.complete(1));
    assert_eq!(state.buffer(), "zzz", "the text is left as typed");
    assert_eq!(
        state.commit(),
        Err(Unresolved::Unknown("zzz".to_string())),
        "and it is refused rather than sent"
    );
}

#[test]
fn an_item_already_picked_is_not_offered_again() {
    let state = projects();

    let matches = state.matches();
    let offered = matches
        .iter()
        .map(|candidate| candidate.display.as_str())
        .collect::<Vec<_>>();
    assert_eq!(offered, vec!["Backlog", "Bench"]);
}

#[test]
fn a_fragment_only_one_candidate_matches_resolves_and_several_do_not() {
    let mut state = projects();
    type_text(&mut state, "ackl");
    assert_eq!(
        state.clone().commit().map(handles),
        Ok(vec!["p1".to_string(), "p2".to_string()])
    );

    let mut state = projects();
    type_text(&mut state, "b");
    assert_eq!(
        state.commit(),
        Err(Unresolved::Ambiguous("b".to_string())),
        "picking one of two would be a guess"
    );
}

#[test]
fn backspace_deletes_a_character_and_then_the_item_before_the_caret() {
    let mut state = projects();
    type_text(&mut state, "ab");

    state.delete_back();
    assert_eq!(state.buffer(), "a");
    state.delete_back();
    assert_eq!(state.buffer(), "");
    state.delete_back();
    assert!(state.items().is_empty(), "then the item itself goes");
    state.delete_back();
    assert!(state.items().is_empty(), "and the start of the list holds");
}

#[test]
fn the_caret_walks_between_the_items() {
    let mut state = AutocompleteState::new(
        vec![Candidate::new("p1", "Alpha"), Candidate::new("p2", "Beta")],
        Vec::new(),
        usize::MAX,
    );

    assert_eq!(state.text(), "Alpha, Beta");
    assert_eq!(state.caret(), "Alpha, Beta".chars().count());
    state.move_caret(-1);
    assert_eq!(state.text(), "Alpha, Beta", "the text is unchanged");
    assert_eq!(state.caret(), "Alpha, ".chars().count());
    state.delete_back();
    assert_eq!(
        handles(state.items().to_vec()),
        vec!["p2".to_string()],
        "backspace at the caret takes the item before it, not the last one"
    );
}

#[test]
fn a_single_valued_field_replaces_what_it_holds() {
    let mut state = AutocompleteState::new(
        vec![Candidate::new("u1", "Alex Chen")],
        people(),
        1,
    );
    type_text(&mut state, "Jo Park");

    assert_eq!(state.commit().map(handles), Ok(vec!["u2".to_string()]));
}

#[test]
fn clearing_empties_the_whole_list() {
    let mut state = projects();
    type_text(&mut state, "be");
    state.clear();

    assert_eq!(state.text(), "");
    assert_eq!(state.commit(), Ok(Vec::new()), "and commits as unset");
}

#[test]
fn the_text_reads_as_the_list_it_is() {
    let mut state = projects();
    assert_eq!(state.text(), "Northwind");

    type_text(&mut state, "be");
    assert_eq!(state.text(), "Northwind, be");
    let items = state.commit().expect("resolves");
    assert_eq!(
        items.iter().map(|item| item.display.as_str()).collect::<Vec<_>>(),
        vec!["Northwind", "Bench"]
    );
}

fn handles(items: Vec<Candidate>) -> Vec<String> {
    items.into_iter().map(|item| item.handle).collect()
}

#[test]
fn a_field_never_holds_more_items_than_it_allows() {
    let mut state = AutocompleteState::new(
        vec![Candidate::new("u1", "Alex Chen")],
        people(),
        1,
    );
    type_text(&mut state, "Priya Raman");
    let items = state.commit().expect("resolves");
    assert_eq!(items.len(), 1);
    assert_eq!(handles(items), vec!["u3".to_string()]);
}

#[test]
fn what_is_offered_contains_what_was_typed_and_was_not_picked() {
    let mut state = AutocompleteState::new(vec![Candidate::new("u2", "Jo Park")], people(), usize::MAX);
    type_text(&mut state, "a");
    let offered = state.matches();
    assert!(!offered.is_empty());
    for candidate in &offered {
        assert!(candidate.display.to_ascii_lowercase().contains('a'));
        assert_ne!(candidate.handle, "u2");
    }
}
