use logman::ui::scrollbar::ScrollbarState;

/// The offset of a surface, as the bar is told it.
fn at(offset: f32) -> u32 {
    offset.to_bits()
}

#[test]
fn the_first_look_at_a_surface_shows_nothing() {
    let mut state = ScrollbarState::new();

    assert_eq!(state.moved(at(0.)), None);
    assert!(!state.showing());
}

#[test]
fn movement_shows_the_bar_and_stillness_leaves_it_alone() {
    let mut state = ScrollbarState::new();
    state.moved(at(0.));

    let epoch = state.moved(at(40.)).expect("a moved surface");
    assert!(state.showing());

    assert_eq!(state.moved(at(40.)), None);
    assert!(state.showing(), "sitting still took the bar down early");

    assert!(state.take_down(epoch));
    assert!(!state.showing());
}

#[test]
fn a_stale_timer_leaves_a_newer_showing_alone() {
    let mut state = ScrollbarState::new();
    state.moved(at(0.));

    let stale = state.moved(at(40.)).expect("a moved surface");
    let fresh = state.moved(at(80.)).expect("a moved surface");
    assert_ne!(stale, fresh);

    assert!(!state.take_down(stale), "a stale timer hid a newer showing");
    assert!(state.showing());

    assert!(state.take_down(fresh));
    assert!(!state.showing());
}

#[test]
fn hiding_a_bar_that_is_already_down_changes_nothing() {
    let mut state = ScrollbarState::new();
    state.moved(at(0.));
    let epoch = state.moved(at(40.)).expect("a moved surface");

    assert!(state.take_down(epoch));
    assert!(!state.take_down(epoch));
}

#[test]
fn a_held_thumb_keeps_the_bar_up() {
    let mut state = ScrollbarState::new();
    state.moved(at(0.));
    let before = state.moved(at(40.)).expect("a moved surface");

    state.hold();
    assert!(state.showing());
    assert!(!state.take_down(before), "a timer fired through a held thumb");

    // Movement during the hold arms nothing, so it leaves no timer behind
    // for every pixel the pointer travelled.
    assert_eq!(state.moved(at(80.)), None);
    assert!(state.showing());

    let epoch = state.release().expect("a held thumb");
    assert!(state.showing(), "letting go took the bar down at once");
    assert!(state.take_down(epoch));
    assert!(!state.showing());
}

#[test]
fn releasing_nothing_arms_nothing() {
    let mut state = ScrollbarState::new();

    assert_eq!(state.release(), None);
}
