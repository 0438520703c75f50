//! Dropdown menus: the toolbar application menu, and the menu a right-click opens
//! at the pointer.
//!
//! Both are stateless: the view that owns a menu owns its open flag, passes it in
//! on every render and closes the menu when it asks to be closed. A row stands for
//! an action of the owner's choosing.
use vstd::prelude::*;

use crate::profile::copy_option;
use crate::text::copy;
use crate::ui::theme::Slot;

verus! {

/// Edge length of the trigger button, in pixels.
pub const TRIGGER_SIZE: u32 = 28;

/// Edge length of the icon inside the trigger, in pixels.
pub const TRIGGER_ICON: u32 = 16;

/// Distance from the top of the trigger to the top of the dropdown, in pixels, so
/// that the panel clears the button it hangs from.
pub const DROP_OFFSET: u32 = 32;

/// Width of a dropdown panel, in pixels.
pub const PANEL_WIDTH: u32 = 280;

/// Distance the dropdown keeps from the window edges, in pixels.
pub const WINDOW_MARGIN: u32 = 6;

/// Draw order of the sheet under an open menu.
pub const BACKDROP_PRIORITY: usize = 1;

/// Draw order of the dropdown panel; above the sheet, so that the sheet never eats
/// clicks meant for a row.
pub const PANEL_PRIORITY: usize = 2;

/// One row of a menu: a command, or a rule between two groups of them.
pub struct MenuEntry<A> {
    /// Text shown on the left of the row.
    pub label: String,
    /// Shortcut hint shown right-aligned and muted.
    pub shortcut: Option<String>,
    /// What the row runs.
    pub action: Option<A>,
    /// Whether the row is a rule rather than a command.
    pub separator: bool,
    /// Whether the row may be run at all.
    pub enabled: bool,
}

/// What a [`MenuEntry`] shows and runs.
pub struct EntryView<A> {
    pub label: Seq<char>,
    pub shortcut: Option<Seq<char>>,
    pub action: Option<A>,
    pub separator: bool,
    pub enabled: bool,
}

impl<A> View for MenuEntry<A> {
    type V = EntryView<A>;

    open spec fn view(&self) -> EntryView<A> {
        EntryView {
            label: self.label@,
            shortcut: match self.shortcut {
                Some(text) => Some(text@),
                None => None,
            },
            action: self.action,
            separator: self.separator,
            enabled: self.enabled,
        }
    }
}

/// A command row that can be run, without a hint.
pub open spec fn command<A>(label: Seq<char>, action: Option<A>) -> EntryView<A> {
    EntryView { label, shortcut: None, action, separator: false, enabled: true }
}

/// A rule between two groups of commands.
pub open spec fn rule<A>() -> EntryView<A> {
    EntryView { label: Seq::empty(), shortcut: None, action: None, separator: true, enabled: true }
}

impl<A> EntryView<A> {
    /// The row with a shortcut hint.
    pub open spec fn hinted(self, shortcut: Seq<char>) -> EntryView<A> {
        EntryView { shortcut: Some(shortcut), ..self }
    }

    /// The row, greyed out unless it may be run.
    pub open spec fn enabled_if(self, enabled: bool) -> EntryView<A> {
        EntryView { enabled, ..self }
    }

    /// The row takes clicks.
    pub open spec fn takes_clicks(self) -> bool {
        !self.separator && self.enabled
    }
}

/// The rows of a menu.
pub open spec fn entry_views<A>(entries: Seq<MenuEntry<A>>) -> Seq<EntryView<A>> {
    Seq::new(entries.len(), |i: int| entries[i]@)
}

/// What a click on a menu leads to.
pub struct MenuClick<A> {
    /// The action to run.
    pub run: Option<A>,
    /// Whether the menu asks to be closed.
    pub dismiss: bool,
}

/// What a click on a row leads to. A row that cannot be run does nothing and
/// leaves the menu open: one that did nothing and closed the menu would read as a
/// command that silently failed.
pub open spec fn click_of<A>(entry: EntryView<A>) -> MenuClick<A> {
    if entry.takes_clicks() {
        MenuClick { run: entry.action, dismiss: true }
    } else {
        MenuClick { run: None, dismiss: false }
    }
}

impl<A: Copy> MenuEntry<A> {
    /// Creates an enabled command row with no shortcut hint and no action.
    pub fn new(label: &str) -> (entry: MenuEntry<A>)
        ensures
            entry@ == command::<A>(label@, None),
    {
        MenuEntry { label: copy(label), shortcut: None, action: None, separator: false, enabled: true }
    }

    /// Creates a horizontal rule between two groups of commands.
    pub fn separator() -> (entry: MenuEntry<A>)
        ensures
            entry@ == rule::<A>(),
    {
        MenuEntry { label: String::new(), shortcut: None, action: None, separator: true, enabled: true }
    }

    /// Sets the shortcut hint shown at the right edge of the row. The hint is
    /// decoration only.
    pub fn shortcut(self, shortcut: &str) -> (entry: MenuEntry<A>)
        ensures
            entry@ == self@.hinted(shortcut@),
    {
        let mut entry = self;
        entry.shortcut = Some(copy(shortcut));
        entry
    }

    /// Sets what the row runs. The menu closes itself afterwards.
    pub fn on_activate(self, action: A) -> (entry: MenuEntry<A>)
        ensures
            entry@ == (EntryView { action: Some(action), ..self@ }),
    {
        let mut entry = self;
        entry.action = Some(action);
        entry
    }

    /// Shows the row without letting it be run, unless `enabled`.
    pub fn enabled(self, enabled: bool) -> (entry: MenuEntry<A>)
        ensures
            entry@ == self@.enabled_if(enabled),
    {
        let mut entry = self;
        entry.enabled = enabled;
        entry
    }

    /// What a click on the row leads to.
    pub fn clicked(&self) -> (click: MenuClick<A>)
        ensures
            click == click_of(self@),
    {
        if !self.separator && self.enabled {
            MenuClick { run: self.action, dismiss: true }
        } else {
            MenuClick { run: None, dismiss: false }
        }
    }
}

/// A row of an open panel, as it is drawn.
pub enum PanelRow {
    Rule,
    Command { label: String, shortcut: Option<String>, color: Slot, clickable: bool },
}

/// A row is drawn as its entry says: muted when it cannot be run.
pub open spec fn drawn_as<A>(row: PanelRow, entry: EntryView<A>) -> bool {
    match row {
        PanelRow::Rule => entry.separator,
        PanelRow::Command { label, shortcut, color, clickable } => {
            &&& !entry.separator
            &&& label@ == entry.label
            &&& (match shortcut {
                Some(text) => Some(text@),
                None => None,
            }) == entry.shortcut
            &&& color == if entry.enabled {
                Slot::Text
            } else {
                Slot::TextMuted
            }
            &&& clickable == entry.enabled
        },
    }
}

/// The rows of the floating panel listing `entries`.
pub fn menu_panel<A: Copy>(entries: &Vec<MenuEntry<A>>) -> (rows: Vec<PanelRow>)
    ensures
        rows@.len() == entries@.len(),
        forall|i: int| 0 <= i < rows@.len() ==> drawn_as(#[trigger] rows@[i], entries@[i]@),
{
    let mut rows: Vec<PanelRow> = Vec::new();
    let mut i: usize = 0;
    while i < entries.len()
        invariant
            i <= entries@.len(),
            rows@.len() == i,
            forall|k: int| 0 <= k < i ==> drawn_as(#[trigger] rows@[k], entries@[k]@),
        decreases entries@.len() - i,
    {
        let entry = &entries[i];
        if entry.separator {
            rows.push(PanelRow::Rule);
        } else {
            rows.push(
                PanelRow::Command {
                    label: entry.label.clone(),
                    shortcut: copy_option(&entry.shortcut),
                    color: if entry.enabled {
                        Slot::Text
                    } else {
                        Slot::TextMuted
                    },
                    clickable: entry.enabled,
                },
            );
        }
        i += 1;
    }
    rows
}

/// What a press on an open menu hits.
#[derive(Debug, Clone, Copy, PartialEq, Eq, Structural)]
pub enum MenuTarget {
    /// A row of the panel.
    Row(usize),
    /// The sheet under the panel.
    Backdrop,
}

/// What a press on an open menu leads to: the sheet dismisses it, a row decides
/// for itself. A menu that nobody listens to does not ask to be closed.
pub open spec fn press_of<A>(entries: Seq<EntryView<A>>, target: MenuTarget, heard: bool) -> MenuClick<A> {
    match target {
        MenuTarget::Backdrop => MenuClick { run: None, dismiss: heard },
        MenuTarget::Row(index) => if index < entries.len() {
            let click = click_of(entries[index as int]);
            MenuClick { run: click.run, dismiss: click.dismiss && heard }
        } else {
            MenuClick { run: None, dismiss: false }
        },
    }
}

fn press<A: Copy>(entries: &Vec<MenuEntry<A>>, target: MenuTarget, heard: bool) -> (click: MenuClick<A>)
    ensures
        click == press_of(entry_views(entries@), target, heard),
{
    match target {
        MenuTarget::Backdrop => MenuClick { run: None, dismiss: heard },
        MenuTarget::Row(index) => if index < entries.len() {
            let click = entries[index].clicked();
            MenuClick { run: click.run, dismiss: click.dismiss && heard }
        } else {
            MenuClick { run: None, dismiss: false }
        },
    }
}

/// A menu opened at a point of the caller's choosing, with no trigger of its own.
pub struct ContextMenu<A> {
    pub id: String,
    /// Top left corner of the panel in the window, in pixels. A panel that would
    /// hang off an edge is pulled back inside.
    pub x: i64,
    pub y: i64,
    pub entries: Vec<MenuEntry<A>>,
    /// Whether somebody listens to the menu asking to be closed.
    pub heard: bool,
}

impl<A: Copy> ContextMenu<A> {
    /// Creates an empty menu anchored at the window's top left corner.
    pub fn new(id: &str) -> (menu: ContextMenu<A>)
        ensures
            menu.id@ == id@,
            menu.x == 0,
            menu.y == 0,
            menu.entries@.len() == 0,
            !menu.heard,
    {
        ContextMenu { id: copy(id), x: 0, y: 0, entries: Vec::new(), heard: false }
    }

    /// Puts the top left corner of the panel at a point of the window.
    pub fn position(self, x: i64, y: i64) -> (menu: ContextMenu<A>)
        ensures
            menu == (ContextMenu { x, y, ..self }),
    {
        ContextMenu { x, y, ..self }
    }

    /// Sets the rows of the menu, in display order.
    pub fn entries(self, entries: Vec<MenuEntry<A>>) -> (menu: ContextMenu<A>)
        ensures
            menu == (ContextMenu { entries, ..self }),
    {
        ContextMenu { entries, ..self }
    }

    /// Reports that the menu should go away: after a row is run, or when the pointer
    /// goes down outside the panel.
    pub fn on_dismiss(self) -> (menu: ContextMenu<A>)
        ensures
            menu == (ContextMenu { heard: true, ..self }),
    {
        ContextMenu { heard: true, ..self }
    }

    /// The rows as they are drawn.
    pub fn render(&self) -> (rows: Vec<PanelRow>)
        ensures
            rows@.len() == self.entries@.len(),
            forall|i: int| 0 <= i < rows@.len() ==> drawn_as(#[trigger] rows@[i], self.entries@[i]@),
    {
        menu_panel(&self.entries)
    }

    /// What a press on the menu leads to.
    pub fn pressed(&self, target: MenuTarget) -> (click: MenuClick<A>)
        ensures
            click == press_of(entry_views(self.entries@), target, self.heard),
    {
        press(&self.entries, target, self.heard)
    }
}

/// What the trigger of a menu wears.
pub enum Face {
    Icon(String),
    Glyph(String),
}

/// A menu button as it is drawn.
pub struct MenuButtonView {
    pub face: Face,
    pub tint: Slot,
    pub background: Slot,
    pub tooltip: Option<String>,
    /// The rows of the dropdown while it is open.
    pub panel: Option<Vec<PanelRow>>,
}

/// A toolbar button with a dropdown menu.
pub struct MenuButton<A> {
    pub id: String,
    pub glyph: String,
    pub icon: Option<String>,
    pub tooltip: Option<String>,
    pub open: bool,
    pub entries: Vec<MenuEntry<A>>,
    /// Whether somebody listens to the open state that the menu asks for.
    pub heard: bool,
}

impl<A: Copy> MenuButton<A> {
    /// Creates a closed menu button showing the default glyph.
    pub fn new(id: &str) -> (button: MenuButton<A>)
        ensures
            button.id@ == id@,
            button.glyph@ == "\u{2630}"@,
            button.icon is None,
            button.tooltip is None,
            !button.open,
            button.entries@.len() == 0,
            !button.heard,
    {
        MenuButton {
            id: copy(id),
            glyph: copy("\u{2630}"),
            icon: None,
            tooltip: None,
            open: false,
            entries: Vec::new(),
            heard: false,
        }
    }

    /// Replaces the glyph drawn on the trigger.
    pub fn glyph(self, glyph: &str) -> (button: MenuButton<A>)
        ensures
            button.glyph@ == glyph@,
            button == (MenuButton { glyph: button.glyph, ..self }),
    {
        MenuButton { glyph: copy(glyph), ..self }
    }

    /// Draws the asset at `path` on the trigger instead of the glyph.
    pub fn icon(self, path: &str) -> (button: MenuButton<A>)
        ensures
            button.icon matches Some(icon) && icon@ == path@,
            button == (MenuButton { icon: button.icon, ..self }),
    {
        MenuButton { icon: Some(copy(path)), ..self }
    }

    /// Sets the label shown when the pointer rests on the trigger.
    pub fn tooltip(self, tooltip: &str) -> (button: MenuButton<A>)
        ensures
            button.tooltip matches Some(text) && text@ == tooltip@,
            button == (MenuButton { tooltip: button.tooltip, ..self }),
    {
        MenuButton { tooltip: Some(copy(tooltip)), ..self }
    }

    /// Sets whether the dropdown is currently shown.
    pub fn open(self, open: bool) -> (button: MenuButton<A>)
        ensures
            button == (MenuButton { open, ..self }),
    {
        MenuButton { open, ..self }
    }

    /// Sets the rows of the dropdown, in display order.
    pub fn entries(self, entries: Vec<MenuEntry<A>>) -> (button: MenuButton<A>)
        ensures
            button == (MenuButton { entries, ..self }),
    {
        MenuButton { entries, ..self }
    }

    /// Reports the open state the menu would like to be in.
    pub fn on_open_change(self) -> (button: MenuButton<A>)
        ensures
            button == (MenuButton { heard: true, ..self }),
    {
        MenuButton { heard: true, ..self }
    }

    /// The open state that a click on the trigger asks for.
    pub fn trigger_clicked(&self) -> (open: Option<bool>)
        ensures
            open == if self.heard {
                Some(!self.open)
            } else {
                None
            },
    {
        if self.heard {
            Some(!self.open)
        } else {
            None
        }
    }

    /// What a press on the open menu leads to; it asks to be closed when a row is
    /// run and when the press lands outside the panel.
    pub fn pressed(&self, target: MenuTarget) -> (click: MenuClick<A>)
        ensures
            click == press_of(entry_views(self.entries@), target, self.heard),
    {
        press(&self.entries, target, self.heard)
    }

    /// The button as it is drawn: an icon takes the place of the glyph, and the
    /// dropdown is there while the menu is open.
    pub fn render(&self) -> (view: MenuButtonView)
        ensures
            match view.face {
                Face::Icon(path) => self.icon matches Some(icon) && path@ == icon@,
                Face::Glyph(glyph) => self.icon is None && glyph@ == self.glyph@,
            },
            view.tint == if self.open {
                Slot::Text
            } else {
                Slot::Icon
            },
            view.background == if self.open {
                Slot::SurfaceActive
            } else {
                Slot::Transparent
            },
            view.tooltip == self.tooltip,
            match view.panel {
                Some(rows) => self.open && rows@.len() == self.entries@.len() && forall|i: int|
                    0 <= i < rows@.len() ==> drawn_as(#[trigger] rows@[i], self.entries@[i]@),
                None => !self.open,
            },
    {
        let face = match &self.icon {
            Some(path) => Face::Icon(path.clone()),
            None => Face::Glyph(self.glyph.clone()),
        };
        let panel = if self.open { Some(menu_panel(&self.entries)) } else { None };
        MenuButtonView {
            face,
            tint: if self.open {
                Slot::Text
            } else {
                Slot::Icon
            },
            background: if self.open {
                Slot::SurfaceActive
            } else {
                Slot::Transparent
            },
            tooltip: copy_option(&self.tooltip),
            panel,
        }
    }
}

/// A greyed row runs nothing and leaves the menu open; the same row, enabled, runs
/// its action and asks for the menu to be closed; a press outside always asks for it.
pub proof fn greyed_rows_are_inert<A>(entries: Seq<EntryView<A>>, index: usize, heard: bool)
    requires
        index < entries.len(),
        !entries[index as int].separator,
    ensures
        !entries[index as int].enabled ==> press_of(entries, MenuTarget::Row(index), heard) == (MenuClick::<A> {
            run: None,
            dismiss: false,
        }),
        entries[index as int].enabled ==> press_of(entries, MenuTarget::Row(index), heard) == (MenuClick::<A> {
            run: entries[index as int].action,
            dismiss: heard,
        }),
        press_of(entries, MenuTarget::Backdrop, heard) == (MenuClick::<A> { run: None, dismiss: heard }),
{
}

/// A click on a row runs what the row says and closes the menu; a rule and a greyed row
/// do neither, and beside the menu it only closes.
pub proof fn clicks_run_their_row<A>(entries: Seq<EntryView<A>>, index: usize, heard: bool)
    ensures
        press_of(entries, MenuTarget::Backdrop, heard) == (MenuClick::<A> { run: None, dismiss: heard }),
        index < entries.len() && !entries[index as int].separator && entries[index as int].enabled ==> press_of(
            entries,
            MenuTarget::Row(index),
            heard,
        ) == (MenuClick::<A> { run: entries[index as int].action, dismiss: heard }),
        index < entries.len() && (entries[index as int].separator || !entries[index as int].enabled) ==> press_of(
            entries,
            MenuTarget::Row(index),
            heard,
        ) == (MenuClick::<A> { run: None, dismiss: false }),
        index >= entries.len() ==> press_of(entries, MenuTarget::Row(index), heard) == (MenuClick::<A> {
            run: None,
            dismiss: false,
        }),
{
}

/// A row holds what it was given and is enabled until it is not; a rule holds nothing.
pub proof fn rows_hold_what_they_are_given<A>(
    label: Seq<char>,
    action: Option<A>,
    entry: EntryView<A>,
    shortcut: Seq<char>,
    enabled: bool,
)
    ensures
        command(label, action).label == label && command(label, action).action == action,
        command(label, action).enabled && !command(label, action).separator,
        command(label, action).shortcut is None,
        rule::<A>().separator && rule::<A>().action is None && rule::<A>().label.len() == 0,
        entry.hinted(shortcut).shortcut == Some(shortcut) && entry.hinted(shortcut).label == entry.label,
        entry.hinted(shortcut).action == entry.action && entry.hinted(shortcut).enabled == entry.enabled,
        entry.enabled_if(enabled).enabled == enabled && entry.enabled_if(enabled).action == entry.action,
        entry.takes_clicks() <==> entry.enabled && !entry.separator,
{
}

/// A row is drawn with its label and its shortcut, muted when it is greyed.
pub proof fn rows_are_drawn_as_they_are<A>(row: PanelRow, entry: EntryView<A>)
    requires
        drawn_as(row, entry),
    ensures
        row is Rule <==> entry.separator,
        row matches PanelRow::Command { label, shortcut, color, clickable } ==> {
            &&& label@ == entry.label
            &&& clickable == entry.enabled
            &&& entry.enabled ==> color is Text
            &&& !entry.enabled ==> color is TextMuted
            &&& shortcut is Some <==> entry.shortcut is Some
            &&& shortcut matches Some(text) ==> entry.shortcut == Some(text@)
        },
{
}

} // verus!
