use logman::pane_tree::Axis;
use logman::settings::TitlebarStyle;
use logman::workspace::{Focus, SessionTab, Workspace};

const BIG: (u16, u16) = (80, 24);

fn with_tabs(count: u64) -> Workspace {
    let mut workspace = Workspace::new(TitlebarStyle::Custom);
    for session in 1..=count {
        workspace.adopt_session(session);
    }
    workspace
}

/// The sessions of every tab.
fn layout(workspace: &Workspace) -> Vec<Vec<u64>> {
    workspace.tabs.iter().map(SessionTab::sessions).collect()
}

#[test]
fn a_new_session_gets_a_tab_and_the_focus() {
    let mut workspace = Workspace::new(TitlebarStyle::Custom);
    assert_eq!(workspace.focus_active(), Focus::Workspace);
    assert_eq!(workspace.reveal_active_tab(), None);
    let effects = workspace.adopt_session(5);
    assert_eq!(effects.focus, Some(Focus::Session(5)));
    assert_eq!(effects.reveal, Some(0));
    assert!(effects.notify);
    assert_eq!(workspace.active_session(), Some(5));
}

#[test]
fn closing_a_tab_ends_its_sessions_and_moves_the_active_one() {
    let mut workspace = with_tabs(3);
    workspace.select_tab(1);
    let effects = workspace.close_tab(0);
    assert_eq!(effects.ended, [1]);
    assert_eq!(workspace.active, 0);
    assert_eq!(effects.focus, Some(Focus::Session(2)));
    workspace.select_tab(1);
    let effects = workspace.close_tab(1);
    assert_eq!(effects.ended, [3]);
    assert_eq!(workspace.active, 0);
    let effects = workspace.close_tab(0);
    assert_eq!(effects.focus, Some(Focus::Workspace));
    assert_eq!(effects.reveal, None);
    assert!(!workspace.close_tab(0).notify);
}

#[test]
fn selecting_a_tab_that_is_not_there_does_nothing() {
    let mut workspace = with_tabs(2);
    assert!(!workspace.select_tab(2).notify);
    assert_eq!(workspace.active, 1);
    let effects = workspace.select_tab(1);
    assert_eq!(effects.reveal, Some(1));
}

#[test]
fn a_split_shows_a_second_session() {
    let mut workspace = with_tabs(1);
    assert_eq!(workspace.duplicate_split(Axis::Horizontal, BIG), Some(1));
    let effects = workspace.split_active(Axis::Horizontal, 2);
    assert_eq!(effects.focus, Some(Focus::Session(2)));
    assert_eq!(layout(&workspace), [vec![1, 2]]);
    assert_eq!(workspace.active_session(), Some(2));
    workspace.focus_next_pane();
    assert_eq!(workspace.active_session(), Some(1));
    workspace.focus_prev_pane();
    assert_eq!(workspace.active_session(), Some(2));
}

#[test]
fn a_pane_too_small_to_split_is_left_alone() {
    let mut workspace = with_tabs(2);
    assert!(workspace.can_split_active(Axis::Horizontal, (40, 1)));
    assert!(!workspace.can_split_active(Axis::Horizontal, (39, 100)));
    assert!(workspace.can_split_active(Axis::Vertical, (1, 12)));
    assert!(!workspace.can_split_active(Axis::Vertical, (100, 11)));
    assert_eq!(workspace.duplicate_split(Axis::Horizontal, (39, 100)), None);
    assert!(!workspace.merge_tab_into_active(0, Axis::Horizontal, (39, 100)).notify);
    assert_eq!(layout(&workspace), [vec![1], vec![2]]);
    assert!(!Workspace::new(TitlebarStyle::System).can_split_active(Axis::Horizontal, BIG));
}

#[test]
fn merging_a_tab_moves_its_panes() {
    let mut workspace = with_tabs(3);
    workspace.select_tab(1);
    let effects = workspace.merge_tab_into_active(0, Axis::Vertical, BIG);
    assert_eq!(layout(&workspace), [vec![2, 1], vec![3]]);
    assert_eq!(workspace.active, 0);
    assert_eq!(effects.focus, Some(Focus::Session(1)));
    assert!(effects.ended.is_empty());
    workspace.merge_tab_into_active(1, Axis::Horizontal, BIG);
    assert_eq!(layout(&workspace), [vec![2, 1, 3]]);
    assert!(!workspace.merge_tab_into_active(0, Axis::Horizontal, BIG).notify);
    assert!(!workspace.merge_tab_into_active(4, Axis::Horizontal, BIG).notify);
}

#[test]
fn breaking_a_pane_out_gives_it_a_tab() {
    let mut workspace = with_tabs(2);
    workspace.select_tab(0);
    assert!(!workspace.break_out_active_pane().notify);
    workspace.merge_tab_into_active(1, Axis::Horizontal, BIG);
    let effects = workspace.break_out_active_pane();
    assert_eq!(layout(&workspace), [vec![1], vec![2]]);
    assert_eq!(workspace.active, 1);
    assert_eq!(effects.focus, Some(Focus::Session(2)));
    assert!(effects.ended.is_empty());
    let mut sessions = workspace.sessions();
    sessions.sort();
    assert_eq!(sessions, [1, 2]);
}

#[test]
fn closing_a_pane_lets_its_neighbour_take_over() {
    let mut workspace = with_tabs(1);
    workspace.split_active(Axis::Horizontal, 2);
    workspace.split_active(Axis::Vertical, 3);
    let effects = workspace.close_active_pane();
    assert_eq!(effects.ended, [3]);
    assert_eq!(effects.focus, Some(Focus::Session(1)));
    assert_eq!(layout(&workspace), [vec![1, 2]]);
    workspace.close_active_pane();
    let effects = workspace.close_active_pane();
    assert_eq!(effects.ended, [2]);
    assert!(workspace.tabs.is_empty());
    assert!(!workspace.close_active_pane().notify);
}

#[test]
fn a_background_pane_closes_without_taking_the_focus() {
    let mut workspace = with_tabs(2);
    workspace.select_tab(0);
    workspace.split_active(Axis::Horizontal, 3);
    workspace.select_tab(1);
    let effects = workspace.close_pane_for_session(1);
    assert_eq!(effects.ended, [1]);
    assert_eq!(effects.focus, None);
    assert_eq!(layout(&workspace), [vec![3], vec![2]]);
    assert!(!workspace.close_pane_for_session(1).notify);
}

#[test]
fn focusing_a_pane_makes_it_the_active_one() {
    let mut workspace = with_tabs(1);
    workspace.split_active(Axis::Horizontal, 2);
    assert!(workspace.on_pane_focused(1).notify);
    assert!(!workspace.on_pane_focused(1).notify);
    assert_eq!(workspace.active_session(), Some(1));
    assert!(!workspace.on_pane_focused(9).notify);
}

#[test]
fn dragging_a_divider_moves_it() {
    let mut workspace = with_tabs(1);
    workspace.split_active(Axis::Horizontal, 2);
    let split = match &workspace.tabs[0].panes.root {
        logman::pane_tree::PaneNode::Split { id, .. } => *id,
        _ => panic!("a split tab"),
    };
    assert!(workspace.drag_split(split, Some(300_000)).notify);
    assert!(!workspace.drag_split(split, None).notify);
    assert!(!workspace.drag_split(split + 50, Some(300_000)).notify);
    assert!(!Workspace::new(TitlebarStyle::Custom).drag_split(0, Some(1)).notify);
}
