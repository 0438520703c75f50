//! Horizontal tab strip used to switch between sessions.
//!
//! The bar owns no selection state: the view passes the current tabs and the
//! active index on every render, and says which of the bar's reports it listens
//! to. A button nobody listens to is not drawn.
use vstd::prelude::*;

use crate::profile::copy_option;
use crate::text::{copy, join2};
use crate::ui::menu::{command, EntryView, MenuButton, MenuEntry};
use crate::ui::theme::Slot;

verus! {

/// Glyph of the button opening the tab list.
pub const TAB_MENU_GLYPH: &'static str = "\u{25be}";

/// Marker put in the shortcut slot of the active tab's dropdown row.
pub const ACTIVE_MARK: &'static str = "\u{2713}";

/// Connection state rendered as a colored dot in front of a tab title.
#[derive(Debug, Clone, Copy, PartialEq, Eq, Structural)]
pub enum TabStatus {
    /// A connection attempt is in flight.
    Connecting,
    /// The session is live.
    Connected,
    /// The session ended cleanly or was never started.
    Disconnected,
    /// The session failed.
    Error,
}

impl TabStatus {
    /// The dot color of this status.
    pub open spec fn dot(self) -> Slot {
        match self {
            TabStatus::Connecting => Slot::Accent,
            TabStatus::Connected => Slot::Success,
            TabStatus::Disconnected => Slot::TextMuted,
            TabStatus::Error => Slot::Danger,
        }
    }

    /// The dot color for this status.
    pub fn color(self) -> (slot: Slot)
        ensures
            slot == self.dot(),
    {
        match self {
            TabStatus::Connecting => Slot::Accent,
            TabStatus::Connected => Slot::Success,
            TabStatus::Disconnected => Slot::TextMuted,
            TabStatus::Error => Slot::Danger,
        }
    }
}

/// One entry of a [`TabBar`].
#[derive(Debug)]
pub struct TabItem {
    /// Id of the tab; unique within the bar.
    pub id: String,
    /// Label shown to the user.
    pub title: String,
    /// Connection state dot. `None` renders no dot at all.
    pub status: Option<TabStatus>,
}

impl TabItem {
    /// Creates a tab without a status dot.
    pub fn new(id: &str, title: &str) -> (item: TabItem)
        ensures
            item.id@ == id@,
            item.title@ == title@,
            item.status is None,
    {
        TabItem { id: copy(id), title: copy(title), status: None }
    }

    /// Attaches a status dot to the tab.
    pub fn status(self, status: TabStatus) -> (item: TabItem)
        ensures
            item == (TabItem { status: Some(status), ..self }),
    {
        TabItem { status: Some(status), ..self }
    }
}

/// Which reports of a bar somebody listens to.
#[derive(Debug, Clone, Copy, PartialEq, Eq, Structural)]
pub struct Listeners {
    pub select: bool,
    pub close: bool,
    pub context_menu: bool,
    pub new_tab: bool,
    pub menu_open_change: bool,
}

/// A stateless tab strip.
pub struct TabBar {
    pub id: String,
    pub tabs: Vec<TabItem>,
    pub active: usize,
    pub menu_open: bool,
    pub listeners: Listeners,
    pub menu_icon: Option<String>,
    pub menu_tooltip: Option<String>,
    pub new_tooltip: Option<String>,
    pub close_tooltip: Option<String>,
}

/// A tab as it is drawn.
pub struct TabView {
    pub id: String,
    pub title: String,
    pub border: Slot,
    pub background: Slot,
    pub text: Slot,
    pub hover: Slot,
    pub dot: Option<Slot>,
    pub close_button: bool,
    /// Id of the close button, where there is one.
    pub close_id: String,
}

/// A tab strip as it is drawn.
pub struct TabStrip {
    pub id: String,
    pub tabs: Vec<TabView>,
    /// The dropdown listing every tab; its rows select the tab they name.
    pub menu: Option<MenuButton<usize>>,
    pub new_button: bool,
    /// Id of the button for a new tab, where there is one.
    pub new_id: String,
    /// What the button for a new tab says under the pointer.
    pub new_tooltip: Option<String>,
    /// What the close buttons say under the pointer.
    pub close_tooltip: Option<String>,
}

/// Which part of a tab the pointer is on.
#[derive(Debug, Clone, Copy, PartialEq, Eq, Structural)]
pub enum TabPart {
    Body,
    CloseButton,
}

/// Which button was pressed on a tab.
#[derive(Debug, Clone, Copy, PartialEq, Eq, Structural)]
pub enum Press {
    Left,
    Right,
}

/// What a press on a tab reports.
#[derive(Debug, Clone, Copy, PartialEq, Eq, Structural)]
pub enum TabAnswer {
    Select(usize),
    Close(usize),
    ContextMenu(usize),
    Nothing,
}

/// What a press on a tab reports. The close button keeps its click from also
/// selecting the tab, and a right-click never selects: the commands of a tab menu
/// differ for the active tab and for any other one.
pub open spec fn answer(listeners: Listeners, index: usize, part: TabPart, press: Press) -> TabAnswer {
    match press {
        Press::Right => if listeners.context_menu {
            TabAnswer::ContextMenu(index)
        } else {
            TabAnswer::Nothing
        },
        Press::Left => if part == TabPart::CloseButton && listeners.close {
            TabAnswer::Close(index)
        } else if listeners.select {
            TabAnswer::Select(index)
        } else {
            TabAnswer::Nothing
        },
    }
}

/// The dropdown row of a tab.
pub open spec fn row_of(title: Seq<char>, index: usize, active: bool, select: bool) -> EntryView<usize> {
    let entry = command::<usize>(
        title,
        if select {
            Some(index)
        } else {
            None
        },
    );
    if active {
        entry.hinted(ACTIVE_MARK@)
    } else {
        entry
    }
}

/// A tab is drawn as its item says.
pub open spec fn tab_drawn(view: TabView, item: TabItem, active: bool, closable: bool) -> bool {
    &&& view.id@ == item.id@
    &&& view.title@ == item.title@
    &&& view.close_id@ == item.id@ + "-close"@
    &&& view.border == if active {
        Slot::Accent
    } else {
        Slot::Transparent
    }
    &&& view.background == if active {
        Slot::SurfaceActive
    } else {
        Slot::Transparent
    }
    &&& view.text == if active {
        Slot::Text
    } else {
        Slot::TextMuted
    }
    &&& view.hover == if active {
        Slot::SurfaceActive
    } else {
        Slot::SurfaceHover
    }
    &&& view.dot == match item.status {
        Some(status) => Some(status.dot()),
        None => None,
    }
    &&& view.close_button == closable
}

impl TabBar {
    /// Creates an empty tab bar that nobody listens to.
    pub fn new(id: &str) -> (bar: TabBar)
        ensures
            bar.id@ == id@,
            bar.tabs@.len() == 0,
            bar.active == 0,
            !bar.menu_open,
            bar.listeners == (Listeners {
                select: false,
                close: false,
                context_menu: false,
                new_tab: false,
                menu_open_change: false,
            }),
            bar.menu_icon is None,
            bar.menu_tooltip is None,
            bar.new_tooltip is None,
            bar.close_tooltip is None,
    {
        TabBar {
            id: copy(id),
            tabs: Vec::new(),
            active: 0,
            menu_open: false,
            listeners: Listeners {
                select: false,
                close: false,
                context_menu: false,
                new_tab: false,
                menu_open_change: false,
            },
            menu_icon: None,
            menu_tooltip: None,
            new_tooltip: None,
            close_tooltip: None,
        }
    }

    /// Draws the asset at `path` on the tab dropdown instead of its glyph.
    pub fn menu_icon(self, path: &str) -> (bar: TabBar)
        ensures
            bar.menu_icon matches Some(icon) && icon@ == path@,
            bar == (TabBar { menu_icon: bar.menu_icon, ..self }),
    {
        TabBar { menu_icon: Some(copy(path)), ..self }
    }

    /// Sets the hover labels of the bar's three buttons: the tab dropdown, the "+",
    /// and the close button on every tab.
    pub fn tooltips(self, menu: &str, new: &str, close: &str) -> (bar: TabBar)
        ensures
            bar.menu_tooltip matches Some(text) && text@ == menu@,
            bar.new_tooltip matches Some(text) && text@ == new@,
            bar.close_tooltip matches Some(text) && text@ == close@,
            bar == (TabBar {
                menu_tooltip: bar.menu_tooltip,
                new_tooltip: bar.new_tooltip,
                close_tooltip: bar.close_tooltip,
                ..self
            }),
    {
        TabBar {
            menu_tooltip: Some(copy(menu)),
            new_tooltip: Some(copy(new)),
            close_tooltip: Some(copy(close)),
            ..self
        }
    }

    /// Sets the tabs to render, in display order.
    pub fn tabs(self, tabs: Vec<TabItem>) -> (bar: TabBar)
        ensures
            bar == (TabBar { tabs, ..self }),
    {
        TabBar { tabs, ..self }
    }

    /// Sets the index of the highlighted tab.
    pub fn active(self, index: usize) -> (bar: TabBar)
        ensures
            bar == (TabBar { active: index, ..self }),
    {
        TabBar { active: index, ..self }
    }

    /// Sets whether the tab dropdown is currently shown.
    pub fn menu_open(self, open: bool) -> (bar: TabBar)
        ensures
            bar == (TabBar { menu_open: open, ..self }),
    {
        TabBar { menu_open: open, ..self }
    }

    /// Reports the index of the tab the user clicked.
    pub fn on_select(self) -> (bar: TabBar)
        ensures
            bar == (TabBar { listeners: Listeners { select: true, ..self.listeners }, ..self }),
    {
        TabBar { listeners: Listeners { select: true, ..self.listeners }, ..self }
    }

    /// Reports the index of the tab whose close button was clicked. This is what
    /// makes the close buttons appear.
    pub fn on_close(self) -> (bar: TabBar)
        ensures
            bar == (TabBar { listeners: Listeners { close: true, ..self.listeners }, ..self }),
    {
        TabBar { listeners: Listeners { close: true, ..self.listeners }, ..self }
    }

    /// Reports the index of the right-clicked tab.
    pub fn on_context_menu(self) -> (bar: TabBar)
        ensures
            bar == (TabBar { listeners: Listeners { context_menu: true, ..self.listeners }, ..self }),
    {
        TabBar { listeners: Listeners { context_menu: true, ..self.listeners }, ..self }
    }

    /// Reports a click on the "+" button. This is what makes it appear.
    pub fn on_new(self) -> (bar: TabBar)
        ensures
            bar == (TabBar { listeners: Listeners { new_tab: true, ..self.listeners }, ..self }),
    {
        TabBar { listeners: Listeners { new_tab: true, ..self.listeners }, ..self }
    }

    /// Reports the open state the tab dropdown would like to be in. This is what
    /// makes the dropdown button appear; it is still left out while the bar has no
    /// tabs to list.
    pub fn on_menu_open_change(self) -> (bar: TabBar)
        ensures
            bar == (TabBar { listeners: Listeners { menu_open_change: true, ..self.listeners }, ..self }),
    {
        TabBar { listeners: Listeners { menu_open_change: true, ..self.listeners }, ..self }
    }

    /// What a press on a tab reports.
    pub fn pressed(&self, index: usize, part: TabPart, press: Press) -> (reported: TabAnswer)
        ensures
            reported == answer(self.listeners, index, part, press),
    {
        match press {
            Press::Right => if self.listeners.context_menu {
                TabAnswer::ContextMenu(index)
            } else {
                TabAnswer::Nothing
            },
            Press::Left => if part == TabPart::CloseButton && self.listeners.close {
                TabAnswer::Close(index)
            } else if self.listeners.select {
                TabAnswer::Select(index)
            } else {
                TabAnswer::Nothing
            },
        }
    }

    /// The rows of the dropdown.
    fn menu_entries(&self) -> (entries: Vec<MenuEntry<usize>>)
        ensures
            entries@.len() == self.tabs@.len(),
            forall|i: int|
                0 <= i < entries@.len() ==> (#[trigger] entries@[i])@ == row_of(
                    self.tabs@[i].title@,
                    i as usize,
                    i == self.active,
                    self.listeners.select,
                ),
    {
        let mut entries: Vec<MenuEntry<usize>> = Vec::new();
        let mut index: usize = 0;
        while index < self.tabs.len()
            invariant
                index <= self.tabs@.len(),
                entries@.len() == index,
                forall|i: int|
                    0 <= i < index ==> (#[trigger] entries@[i])@ == row_of(
                        self.tabs@[i].title@,
                        i as usize,
                        i == self.active,
                        self.listeners.select,
                    ),
            decreases self.tabs@.len() - index,
        {
            let mut entry = MenuEntry::new(self.tabs[index].title.as_str());
            if index == self.active {
                entry = entry.shortcut(ACTIVE_MARK);
            }
            if self.listeners.select {
                entry = entry.on_activate(index);
            }
            entries.push(entry);
            index += 1;
        }
        entries
    }

    /// The strip as it is drawn.
    pub fn render(&self) -> (strip: TabStrip)
        ensures
            strip.tabs@.len() == self.tabs@.len(),
            forall|i: int|
                0 <= i < strip.tabs@.len() ==> tab_drawn(
                    #[trigger] strip.tabs@[i],
                    self.tabs@[i],
                    i == self.active,
                    self.listeners.close,
                ),
            match strip.menu {
                Some(menu) => {
                    &&& self.listeners.menu_open_change
                    &&& self.tabs@.len() > 0
                    &&& menu.id@ == self.id@ + "-tab-menu"@
                    &&& menu.glyph@ == TAB_MENU_GLYPH@
                    &&& menu.icon == self.menu_icon
                    &&& menu.tooltip == self.menu_tooltip
                    &&& menu.open == self.menu_open
                    &&& menu.heard
                    &&& menu.entries@.len() == self.tabs@.len()
                    &&& forall|i: int|
                        0 <= i < menu.entries@.len() ==> (#[trigger] menu.entries@[i])@ == row_of(
                            self.tabs@[i].title@,
                            i as usize,
                            i == self.active,
                            self.listeners.select,
                        )
                },
                None => !self.listeners.menu_open_change || self.tabs@.len() == 0,
            },
            strip.new_button == self.listeners.new_tab,
            strip.id@ == self.id@,
            strip.new_id@ == self.id@ + "-new"@,
            strip.new_tooltip == self.new_tooltip,
            strip.close_tooltip == self.close_tooltip,
    {
        let menu = if self.listeners.menu_open_change && self.tabs.len() > 0 {
            Some(
                MenuButton {
                    id: join2(self.id.as_str(), "-tab-menu"),
                    glyph: copy(TAB_MENU_GLYPH),
                    icon: copy_option(&self.menu_icon),
                    tooltip: copy_option(&self.menu_tooltip),
                    open: self.menu_open,
                    entries: self.menu_entries(),
                    heard: true,
                },
            )
        } else {
            None
        };
        let mut tabs: Vec<TabView> = Vec::new();
        let mut index: usize = 0;
        while index < self.tabs.len()
            invariant
                index <= self.tabs@.len(),
                tabs@.len() == index,
                forall|i: int|
                    0 <= i < index ==> tab_drawn(
                        #[trigger] tabs@[i],
                        self.tabs@[i],
                        i == self.active,
                        self.listeners.close,
                    ),
            decreases self.tabs@.len() - index,
        {
            let active = index == self.active;
            tabs.push(
                TabView {
                    id: copy(self.tabs[index].id.as_str()),
                    title: copy(self.tabs[index].title.as_str()),
                    close_id: join2(self.tabs[index].id.as_str(), "-close"),
                    border: if active {
                        Slot::Accent
                    } else {
                        Slot::Transparent
                    },
                    background: if active {
                        Slot::SurfaceActive
                    } else {
                        Slot::Transparent
                    },
                    text: if active {
                        Slot::Text
                    } else {
                        Slot::TextMuted
                    },
                    hover: if active {
                        Slot::SurfaceActive
                    } else {
                        Slot::SurfaceHover
                    },
                    dot: match self.tabs[index].status {
                        Some(status) => Some(status.color()),
                        None => None,
                    },
                    close_button: self.listeners.close,
                },
            );
            index += 1;
        }
        TabStrip {
            id: copy(self.id.as_str()),
            tabs,
            menu,
            new_button: self.listeners.new_tab,
            new_id: join2(self.id.as_str(), "-new"),
            new_tooltip: copy_option(&self.new_tooltip),
            close_tooltip: copy_option(&self.close_tooltip),
        }
    }
}

/// A press never selects a tab when it was meant to close it or to open its menu.
pub proof fn only_a_plain_press_selects(listeners: Listeners, index: usize, part: TabPart, press: Press)
    requires
        press == Press::Right || (part == TabPart::CloseButton && listeners.close),
    ensures
        !(answer(listeners, index, part, press) is Select),
{
}

/// Every status has a color of its own.
pub proof fn dots_are_told_apart(status: TabStatus)
    ensures
        status is Connecting ==> status.dot() is Accent,
        status is Connected ==> status.dot() is Success,
        status is Disconnected ==> status.dot() is TextMuted,
        status is Error ==> status.dot() is Danger,
{
}

/// A press reports the tab it was on: the left button selects it, or closes it on the
/// close button, and the right one opens its menu. What nobody listens to is not
/// reported.
pub proof fn presses_report_their_tab(listeners: Listeners, index: usize, part: TabPart)
    ensures
        listeners.context_menu ==> answer(listeners, index, part, Press::Right) == TabAnswer::ContextMenu(index),
        !listeners.context_menu ==> answer(listeners, index, part, Press::Right) is Nothing,
        part is CloseButton && listeners.close ==> answer(listeners, index, part, Press::Left) == TabAnswer::Close(
            index,
        ),
        (!(part is CloseButton) || !listeners.close) && listeners.select ==> answer(
            listeners,
            index,
            part,
            Press::Left,
        ) == TabAnswer::Select(index),
        (!(part is CloseButton) || !listeners.close) && !listeners.select ==> answer(
            listeners,
            index,
            part,
            Press::Left,
        ) is Nothing,
{
}

/// The list of tabs names each, marks the active one with a check, and selects the one
/// that is clicked.
pub proof fn the_tab_list_marks_the_active_tab(title: Seq<char>, index: usize, active: bool, select: bool)
    ensures
        ({
            let row = row_of(title, index, active, select);
            &&& row.label == title
            &&& !row.separator && row.enabled
            &&& select ==> row.action == Some(index)
            &&& !select ==> row.action is None
            &&& active ==> row.shortcut == Some("\u{2713}"@)
            &&& !active ==> row.shortcut is None
        }),
{
}

} // verus!
