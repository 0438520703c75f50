use logman::pane_tree::Axis;
use logman::profile::{AuthMethod, SessionProfile};
use logman::settings::TitlebarStyle;
use logman::shell::{
    app_menus, bind_shortcuts, render_app_menu, render_empty_state, render_status_bar, tab_tips, Body, Command, MenuItem,
    PaneView, StatusTarget, Surroundings, TabTips,
};
use logman::ui::tab_bar::TabStatus;
use logman::ui::theme::Slot;
use logman::window::{Decorations, Platform, Tiling};
use logman::workspace::Workspace;

fn commands(items: &[MenuItem]) -> Vec<Option<Command>> {
    items
        .iter()
        .map(|item| match item {
            MenuItem::Rule => None,
            MenuItem::Action { command, .. } => Some(*command),
        })
        .collect()
}

fn hint(items: &[MenuItem], wanted: Command) -> Option<String> {
    items.iter().find_map(|item| match item {
        MenuItem::Action { command, shortcut, .. } if *command == wanted => shortcut.clone(),
        _ => None,
    })
}

fn two_tabs() -> Workspace {
    let mut workspace = Workspace::new(TitlebarStyle::Custom);
    workspace.adopt_session(1);
    workspace.adopt_session(2);
    workspace
}

#[test]
fn the_menu_names_the_keys_of_the_platform() {
    let items = render_app_menu(false);
    assert_eq!(items.len(), 10);
    assert_eq!(hint(&items, Command::NewSession).as_deref(), Some("Ctrl+T"));
    assert_eq!(hint(&items, Command::DuplicateSplitRight).as_deref(), Some("Alt+Shift+D"));
    assert_eq!(hint(&items, Command::ToggleFilePanel).as_deref(), Some("Ctrl+Shift+B"));
    assert_eq!(hint(&items, Command::OpenSettings).as_deref(), Some("Ctrl+,"));
    assert_eq!(hint(&items, Command::ShowAbout), None);
    let items = render_app_menu(true);
    assert_eq!(hint(&items, Command::Quit).as_deref(), Some("Cmd+Q"));
    assert_eq!(hint(&items, Command::BreakOutPane).as_deref(), Some("Cmd+Shift+B"));
    assert_eq!(hint(&items, Command::ToggleFilePanel).as_deref(), Some("Cmd+B"));
}

#[test]
fn the_menu_bar_has_two_menus() {
    let (application, session) = app_menus();
    assert_eq!(
        commands(&application),
        [Some(Command::ShowAbout), None, Some(Command::OpenSettings), None, Some(Command::Quit)]
    );
    assert_eq!(session.len(), 7);
    assert_eq!(commands(&session)[0], Some(Command::NewSession));
    assert_eq!(commands(&session)[6], Some(Command::ToggleFilePanel));
}

#[test]
fn shortcuts_leave_the_shell_its_control_keys() {
    let bindings = bind_shortcuts(false);
    assert_eq!(bindings.len(), 20);
    assert_eq!(bindings[0].keys, "ctrl-q");
    assert!(!bindings[0].scoped);
    assert_eq!(bindings[5].keys, "alt-]");
    assert_eq!(bindings[5].command, Command::FocusNextPane);
    assert_eq!(bindings[10].keys, "ctrl-shift-b");
    assert_eq!(bindings[11].keys, "ctrl-1");
    assert_eq!(bindings[11].command, Command::SelectTab(0));
    assert_eq!(bindings[19].keys, "ctrl-9");
    let bindings = bind_shortcuts(true);
    assert_eq!(bindings[1].keys, "cmd-t");
    assert_eq!(bindings[10].keys, "cmd-b");
    assert_eq!(bindings[4].keys, "escape");
    assert!(bindings[4].scoped);
}

#[test]
fn a_tab_menu_offers_what_would_work() {
    let mut workspace = two_tabs();
    assert!(workspace.render_tab_context((80, 24), false).is_none());
    workspace.open_tab_context(0, 5, 6);
    let (x, y, items) = workspace.render_tab_context((80, 24), false).expect("a menu");
    assert_eq!((x, y), (5, 6));
    assert_eq!(
        commands(&items),
        [
            Some(Command::MergeTab(0, Axis::Horizontal)),
            Some(Command::MergeTab(0, Axis::Vertical)),
            None,
            Some(Command::CloseTab(0)),
        ]
    );
    let (_, _, items) = workspace.render_tab_context((39, 11), false).expect("a menu");
    assert_eq!(commands(&items), [Some(Command::CloseTab(0))]);
    workspace.open_tab_context(1, 0, 0);
    let (_, _, items) = workspace.render_tab_context((80, 11), false).expect("a menu");
    assert_eq!(commands(&items), [Some(Command::DuplicateSplitRight), None, Some(Command::CloseTab(1))]);
    workspace.merge_tab_into_active(0, Axis::Horizontal, (80, 24));
    workspace.open_tab_context(0, 0, 0);
    let (_, _, items) = workspace.render_tab_context((39, 11), true).expect("a menu");
    assert_eq!(commands(&items), [Some(Command::BreakOutPane), None, Some(Command::CloseTab(0))]);
    workspace.close_tab(0);
    assert!(workspace.render_tab_context((80, 24), false).is_none());
}

#[test]
fn the_toolbar_follows_the_platform() {
    let empty = Workspace::new(TitlebarStyle::Custom);
    let bar = empty.render_toolbar(true, Platform::Mac, false);
    assert!(bar.traffic_lights && bar.title && !bar.title_icon && !bar.menu && !bar.controls);
    assert!(bar.toggle.is_none());
    let bar = two_tabs().render_toolbar(true, Platform::Windows, false);
    assert!(!bar.traffic_lights && bar.title_icon && bar.menu && bar.controls);
    assert_eq!(bar.toggle, Some((Slot::Accent, Slot::Accent)));
    let mut closed = two_tabs();
    closed.toggle_file_panel();
    assert_eq!(closed.render_toolbar(false, Platform::Unix, false).toggle, Some((Slot::TextMuted, Slot::Text)));
    assert!(!empty.render_toolbar(true, Platform::Mac, true).traffic_lights);
}

#[test]
fn tooltips_name_their_shortcuts() {
    let tip = two_tabs().render_toolbar(true, Platform::Mac, false).toggle_tip;
    assert_eq!(tip.key, "files.tip_toggle");
    assert_eq!(tip.args, [("shortcut", "Cmd+B".to_owned())]);
    let tip = two_tabs().render_toolbar(true, Platform::Unix, false).toggle_tip;
    assert_eq!(tip.args, [("shortcut", "Ctrl+Shift+B".to_owned())]);
    let (list, new_tab, close) = tab_tips(false);
    assert_eq!((list.key, new_tab.key, close.key), ("tab.tip_list", "tab.tip_new", "tab.close"));
    assert_eq!(new_tab.args, [("shortcut", "Ctrl+T".to_owned())]);
    assert_eq!(tab_tips(true).1.args, [("shortcut", "Cmd+T".to_owned())]);
}

#[test]
fn the_active_pane_wears_the_accent() {
    let mut workspace = two_tabs();
    workspace.toggle_file_panel();
    match workspace.render_body(false) {
        Body::Panes { panel: false, root: PaneView::Pane { session: 2, frame: None, .. } } => {}
        other => panic!("a lone pane has no frame: {other:?}"),
    }
    workspace.split_active(Axis::Horizontal, 3);
    match workspace.render_body(true) {
        Body::Panes { root: PaneView::Split { first, second, ratio, .. }, .. } => {
            assert_eq!(ratio, 500_000);
            assert!(matches!(*first, PaneView::Pane { session: 2, frame: Some(Slot::Border), .. }));
            assert!(matches!(*second, PaneView::Pane { session: 3, frame: Some(Slot::Accent), .. }));
        }
        other => panic!("a split tab: {other:?}"),
    }
    workspace.toggle_file_panel();
    match workspace.render_body(true) {
        Body::Panes { panel: true, root: PaneView::Split { second, .. } } => {
            assert!(matches!(*second, PaneView::Pane { frame: Some(Slot::Border), .. }));
        }
        other => panic!("a split tab beside the panel: {other:?}"),
    }
    assert!(matches!(Workspace::new(TitlebarStyle::Custom).render_body(false), Body::Empty));
}

#[test]
fn the_status_bar_is_idle_without_a_session() {
    let bar = render_status_bar(None);
    assert!(matches!(bar.target, StatusTarget::Wording(message) if message.key == "statusbar.no_session"));
    assert_eq!(bar.status.key, "statusbar.idle");
    assert_eq!(bar.grid, "-");
}

#[test]
fn the_empty_state_lists_saved_profiles() {
    let profile = SessionProfile::with_id(
        1,
        "box".to_owned(),
        "host".to_owned(),
        22,
        "alice".to_owned(),
        AuthMethod::Agent,
    );
    let state = render_empty_state(&vec![profile], Some("zsh".to_owned()), false);
    assert_eq!(state.hint.args[0].1, "Ctrl+T");
    assert_eq!(state.saved, ["box  \u{b7}  alice@host"]);
    assert!(matches!(state.local, Some((message, shell)) if message.key == "connection.local.name" && shell == "zsh"));
    assert!(render_empty_state(&Vec::new(), None, true).local.is_none());
}

#[test]
fn the_tab_strip_is_labelled_by_its_sessions() {
    let workspace = two_tabs();
    let tips = TabTips { list: "All tabs".to_owned(), new_tab: "New".to_owned(), close: "Close".to_owned() };
    let labels = vec![("one".to_owned(), TabStatus::Connected), ("two".to_owned(), TabStatus::Error)];
    let bar = workspace.render_tab_bar(&labels, &tips);
    assert_eq!(bar.active, 1);
    assert_eq!(bar.tabs[1].id, "session-tab-1");
    assert_eq!(bar.tabs[1].title, "two");
    assert_eq!(bar.tabs[0].status, Some(TabStatus::Connected));
    assert_eq!(bar.close_tooltip.as_deref(), Some("Close"));
    assert!(bar.render().menu.is_some());
}

#[test]
fn the_window_is_drawn_from_the_bottom_up() {
    let mut workspace = two_tabs();
    workspace.open_about();
    let tiling = Tiling { top: true, left: false, right: false, bottom: false };
    let around = Surroundings {
        platform: Platform::Unix,
        decorations: Decorations::Client(tiling),
        fullscreen: false,
        panel_has_focus: false,
    };
    let view = workspace.render(None, &around);
    assert!(view.toolbar.custom);
    assert!(matches!(view.dialog, Some(logman::overlays::Dialog::About)));
    assert_eq!(view.client_inset, 12);
    let frame = view.frame.expect("a frame of its own");
    assert_eq!(frame.padding, (0, 12, 12, 12));
    assert!(!frame.shadow);
    let around = Surroundings { decorations: Decorations::Server, ..around };
    let view = workspace.render(None, &around);
    assert!(!view.toolbar.custom);
    assert!(view.frame.is_none());
    assert_eq!(view.client_inset, 0);
}
