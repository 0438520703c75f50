use logman::ui::menu::{ContextMenu, Face, MenuButton, MenuEntry, MenuTarget, PanelRow};
use logman::ui::theme::Slot;

fn rows(rows: &[(&str, bool)]) -> Vec<MenuEntry<usize>> {
    rows.iter()
        .enumerate()
        .map(|(index, (label, enabled))| MenuEntry::new(label).enabled(*enabled).on_activate(index))
        .collect()
}

#[test]
fn a_disabled_row_runs_nothing_and_leaves_the_menu_open() {
    let menu = ContextMenu::new("menu").position(100, 50).entries(rows(&[("Copy", true), ("Cut", false)])).on_dismiss();
    let mut activated: Vec<usize> = Vec::new();
    let mut dismissed = 0;

    let click = menu.pressed(MenuTarget::Row(1));
    activated.extend(click.run);
    dismissed += usize::from(click.dismiss);
    assert_eq!(activated, Vec::<usize>::new());
    assert_eq!(dismissed, 0, "the menu stays where it is");

    // The row above it, which is the same in every way but enabled, still
    // runs and still closes the menu.
    let click = menu.pressed(MenuTarget::Row(0));
    activated.extend(click.run);
    dismissed += usize::from(click.dismiss);
    assert_eq!(activated, vec![0]);
    assert_eq!(dismissed, 1);
    activated.clear();

    // And the backdrop under the panel still dismisses: only the panel swallows
    // presses.
    let click = menu.pressed(MenuTarget::Backdrop);
    activated.extend(click.run);
    dismissed += usize::from(click.dismiss);
    assert_eq!(activated, Vec::<usize>::new());
    assert_eq!(dismissed, 2);
}

#[test]
fn a_menu_that_nobody_listens_to_stays() {
    let menu = ContextMenu::new("menu").entries(rows(&[("Copy", true)]));
    assert!(!menu.pressed(MenuTarget::Backdrop).dismiss);
    let click = menu.pressed(MenuTarget::Row(0));
    assert_eq!(click.run, Some(0));
    assert!(!click.dismiss);
}

#[test]
fn a_separator_takes_no_click() {
    let menu: ContextMenu<usize> = ContextMenu::new("menu").entries(vec![MenuEntry::separator()]);
    let click = menu.pressed(MenuTarget::Row(0));
    assert_eq!(click.run, None);
    assert!(!click.dismiss);
    assert!(matches!(menu.render()[0], PanelRow::Rule));
}

#[test]
fn a_row_shows_its_hint_and_its_color() {
    let entries = vec![
        MenuEntry::new("Copy").shortcut("Ctrl+C").on_activate(1),
        MenuEntry::new("Cut").enabled(false),
    ];
    let menu: ContextMenu<usize> = ContextMenu::new("menu").entries(entries);
    let drawn = menu.render();
    assert!(matches!(
        &drawn[0],
        PanelRow::Command { label, shortcut: Some(hint), color: Slot::Text, clickable: true }
            if label == "Copy" && hint == "Ctrl+C"
    ));
    assert!(matches!(
        &drawn[1],
        PanelRow::Command { label, shortcut: None, color: Slot::TextMuted, clickable: false } if label == "Cut"
    ));
}

#[test]
fn a_menu_button_opens_and_closes() {
    let button: MenuButton<usize> = MenuButton::new("app-menu").tooltip("Menu");
    assert_eq!(button.trigger_clicked(), None);
    let button = button.on_open_change();
    assert_eq!(button.trigger_clicked(), Some(true));
    let view = button.render();
    assert!(matches!(&view.face, Face::Glyph(glyph) if glyph == "\u{2630}"));
    assert_eq!(view.tint, Slot::Icon);
    assert_eq!(view.background, Slot::Transparent);
    assert_eq!(view.tooltip.as_deref(), Some("Menu"));
    assert!(view.panel.is_none());

    let button = button.icon("icons/tab-list.svg").open(true).entries(rows(&[("One", true)]));
    assert_eq!(button.trigger_clicked(), Some(false));
    assert!(button.pressed(MenuTarget::Backdrop).dismiss);
    let view = button.render();
    assert!(matches!(&view.face, Face::Icon(path) if path == "icons/tab-list.svg"));
    assert_eq!(view.tint, Slot::Text);
    assert_eq!(view.background, Slot::SurfaceActive);
    assert_eq!(view.panel.map(|rows| rows.len()), Some(1));
}

#[test]
fn a_glyph_can_be_replaced() {
    let button: MenuButton<usize> = MenuButton::new("tabs").glyph("v");
    assert!(matches!(button.render().face, Face::Glyph(glyph) if glyph == "v"));
}
