use logman::ui::menu::MenuTarget;
use logman::ui::tab_bar::{Press, TabAnswer, TabBar, TabItem, TabPart, TabStatus, ACTIVE_MARK};
use logman::ui::theme::Slot;

fn bar() -> TabBar {
    TabBar::new("tabs")
        .tabs(vec![
            TabItem::new("tab-0", "one").status(TabStatus::Connected),
            TabItem::new("tab-1", "two"),
        ])
        .active(1)
        .on_select()
        .on_close()
}

#[test]
fn the_close_button_closes_and_does_not_select() {
    assert_eq!(bar().pressed(0, TabPart::CloseButton, Press::Left), TabAnswer::Close(0));
    assert_eq!(bar().pressed(0, TabPart::Body, Press::Left), TabAnswer::Select(0));
}

#[test]
fn a_right_click_opens_a_menu_or_nothing() {
    assert_eq!(bar().pressed(1, TabPart::Body, Press::Right), TabAnswer::Nothing);
    let listened = bar().on_context_menu();
    assert_eq!(listened.pressed(1, TabPart::Body, Press::Right), TabAnswer::ContextMenu(1));
    assert_eq!(listened.pressed(1, TabPart::CloseButton, Press::Right), TabAnswer::ContextMenu(1));
}

#[test]
fn the_active_tab_stands_out() {
    let strip = bar().render();
    assert_eq!(strip.tabs[1].border, Slot::Accent);
    assert_eq!(strip.tabs[1].background, Slot::SurfaceActive);
    assert_eq!(strip.tabs[1].text, Slot::Text);
    assert_eq!(strip.tabs[0].border, Slot::Transparent);
    assert_eq!(strip.tabs[0].hover, Slot::SurfaceHover);
    assert_eq!(strip.tabs[0].dot, Some(Slot::Success));
    assert_eq!(strip.tabs[1].dot, None);
    assert!(strip.tabs[0].close_button);
}

#[test]
fn every_status_has_its_own_dot() {
    assert_eq!(TabStatus::Connecting.color(), Slot::Accent);
    assert_eq!(TabStatus::Connected.color(), Slot::Success);
    assert_eq!(TabStatus::Disconnected.color(), Slot::TextMuted);
    assert_eq!(TabStatus::Error.color(), Slot::Danger);
}

#[test]
fn the_dropdown_lists_every_tab() {
    assert!(bar().render().menu.is_none());
    assert!(TabBar::new("tabs").on_menu_open_change().render().menu.is_none());

    let strip = bar().on_menu_open_change().menu_open(true).render();
    let menu = strip.menu.expect("a dropdown");
    assert!(menu.open);
    assert_eq!(menu.entries.len(), 2);
    assert_eq!(menu.entries[0].label, "one");
    assert_eq!(menu.entries[0].shortcut, None);
    assert_eq!(menu.entries[1].shortcut.as_deref(), Some(ACTIVE_MARK));
    assert_eq!(menu.pressed(MenuTarget::Row(0)).run, Some(0));
}

#[test]
fn buttons_appear_when_somebody_listens() {
    assert!(!bar().render().new_button);
    assert!(bar().on_new().render().new_button);
    let deaf = TabBar::new("tabs").tabs(vec![TabItem::new("tab-0", "one")]);
    assert!(!deaf.render().tabs[0].close_button);
    assert_eq!(deaf.pressed(0, TabPart::Body, Press::Left), TabAnswer::Nothing);
}

#[test]
fn a_strip_carries_what_it_draws() {
    let strip = bar().tooltips("list", "new", "close").on_new().render();
    assert_eq!(strip.id, "tabs");
    assert_eq!(strip.new_id, "tabs-new");
    assert_eq!(strip.new_tooltip.as_deref(), Some("new"));
    assert_eq!(strip.close_tooltip.as_deref(), Some("close"));
    assert_eq!((strip.tabs[1].id.as_str(), strip.tabs[1].title.as_str()), ("tab-1", "two"));
    assert_eq!(strip.tabs[1].close_id, "tab-1-close");
    assert_eq!(bar().render().close_tooltip, None);
}
