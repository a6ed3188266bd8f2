use tuisana::pane::PaneSizeState;

#[test]
fn a_new_pane_is_normal_at_eleven_rows() {
    let pane = PaneSizeState::default();
    assert!(pane.is_normal());
    assert!(!pane.is_minimized());
    assert!(!pane.is_maximized());
    assert_eq!(pane.preferred(), 11);
}

#[test]
fn resizing_never_goes_below_four_rows() {
    let mut pane = PaneSizeState::default();
    pane.resize(-100);
    assert_eq!(pane.preferred(), 4);
    pane.resize(3);
    assert_eq!(pane.preferred(), 7);
}

#[test]
fn minimizing_and_restoring_returns_to_the_height_it_had() {
    let mut pane = PaneSizeState::default();
    pane.resize(5);
    pane.minimize();
    assert!(pane.is_minimized());
    assert_eq!(pane.actual_height(40, 3), 0);

    pane.resize(-2);
    pane.restore();
    assert!(pane.is_normal());
    assert_eq!(pane.preferred(), 16, "resizing while hidden is forgotten on restore");
}

#[test]
fn maximizing_fills_the_room_and_restoring_gives_it_back() {
    let mut pane = PaneSizeState::default();
    pane.maximize();
    assert!(pane.is_maximized());
    assert_eq!(pane.actual_height(40, 3), 40);
    assert_eq!(pane.actual_height(2, 3), 3, "never below the minimum");

    pane.restore();
    assert_eq!(pane.preferred(), 11);
    assert_eq!(pane.actual_height(40, 3), 11);
}

#[test]
fn a_normal_pane_is_held_between_the_minimum_and_the_room() {
    let pane = PaneSizeState::default();
    assert_eq!(pane.actual_height(8, 3), 8);
    assert_eq!(pane.actual_height(40, 20), 20);
    assert_eq!(pane.actual_height(40, 0), 11, "a minimum of zero still means one row");
}
