//! The commands of the application, and the bars and menus that offer them.
use vstd::prelude::*;

use crate::message::{says, Message, MessageView};
use crate::overlays::Dialog;
use crate::pane_tree::{fitted, Axis, PaneNode, MIN_SPLIT_RATIO, WHOLE};
use crate::profile::SessionProfile;
use crate::session::Session;
use crate::text::{copy, decimal, decimal_text, join2, join3};
use crate::ui::icons::TAB_LIST;
use crate::ui::tab_bar::{TabBar, TabItem, TabStatus};
use crate::ui::theme::Slot;
use crate::window::{draws_own_titlebar, framed, own_titlebar, render_frame, Decorations, Platform, WindowFrame};
use crate::workspace::{breakable, mergeable, splittable, Workspace};

verus! {

/// Number of tabs reachable through the digit shortcuts.
pub const QUICK_SELECT_TABS: usize = 9;

/// The name of the application.
pub const WORDMARK: &'static str = "logman";

/// What a shortcut or a menu row asks for.
#[derive(Debug, Clone, Copy, PartialEq, Eq, Structural)]
pub enum Command {
    /// Quit the application.
    Quit,
    /// Open the connection dialog with an empty form.
    NewSession,
    /// Close the active pane, and with it the tab once it was the last one.
    CloseSession,
    /// Move keyboard focus to the next pane of the active tab.
    FocusNextPane,
    /// Move keyboard focus to the previous pane of the active tab.
    FocusPrevPane,
    /// Move the active pane out of its tab and into a tab of its own.
    BreakOutPane,
    /// Split the active pane, opening a second connection to its right.
    DuplicateSplitRight,
    /// Split the active pane, opening a second connection below it.
    DuplicateSplitBelow,
    /// Show or hide the remote file panel.
    ToggleFilePanel,
    /// Open the settings dialog.
    OpenSettings,
    /// Open the about dialog.
    ShowAbout,
    /// Close the open dialog or dropdown menu, if there is one.
    DismissDialog,
    /// Activate the tab at an index.
    SelectTab(usize),
    /// Merge the tab at an index into the active one.
    MergeTab(usize, Axis),
    /// Close the tab at an index.
    CloseTab(usize),
}

/// A row of a menu of commands.
#[derive(Debug)]
pub enum MenuItem {
    /// A rule between two groups.
    Rule,
    Action {
        /// Key of the label.
        label: &'static str,
        /// Shortcut hint.
        shortcut: Option<String>,
        command: Command,
    },
}

/// What a [`MenuItem`] shows and asks for.
pub enum ItemView {
    Rule,
    Action { label: Seq<char>, shortcut: Option<Seq<char>>, command: Command },
}

impl View for MenuItem {
    type V = ItemView;

    open spec fn view(&self) -> ItemView {
        match *self {
            MenuItem::Rule => ItemView::Rule,
            MenuItem::Action { label, shortcut, command } => ItemView::Action {
                label: label@,
                shortcut: match shortcut {
                    Some(text) => Some(text@),
                    None => None,
                },
                command,
            },
        }
    }
}

/// The rows of a menu.
pub open spec fn item_views(items: Seq<MenuItem>) -> Seq<ItemView> {
    Seq::new(items.len(), |i: int| items[i]@)
}

/// A row without a shortcut hint.
pub open spec fn plain(label: Seq<char>, command: Command) -> ItemView {
    ItemView::Action { label, shortcut: None, command }
}

/// A row with a shortcut hint.
pub open spec fn hinted(label: Seq<char>, shortcut: Seq<char>, command: Command) -> ItemView {
    ItemView::Action { label, shortcut: Some(shortcut), command }
}

fn plain_item(label: &'static str, command: Command) -> (item: MenuItem)
    ensures
        item@ == plain(label@, command),
{
    MenuItem::Action { label, shortcut: None, command }
}

fn hinted_item(label: &'static str, modifier: &str, key: &str, command: Command) -> (item: MenuItem)
    ensures
        item@ == hinted(label@, modifier@ + key@, command),
{
    MenuItem::Action { label, shortcut: Some(join2(modifier, key)), command }
}

/// Adds a row.
fn push_item(items: &mut Vec<MenuItem>, item: MenuItem)
    ensures
        item_views(final(items)@) == item_views(old(items)@).push(item@),
{
    items.push(item);
    assert(item_views(items@) =~= item_views(old(items)@).push(item@));
}

/// Name of the modifier of the workspace shortcuts. It is the name printed on the
/// key and never translated.
pub open spec fn modifier_name(mac: bool) -> Seq<char> {
    if mac {
        "Cmd"@
    } else {
        "Ctrl"@
    }
}

/// Name of the modifier of the pane shortcuts, which leave the control key to the
/// remote shell.
pub open spec fn pane_modifier_name(mac: bool) -> Seq<char> {
    if mac {
        "Cmd"@
    } else {
        "Alt"@
    }
}

/// Name of the chord that shows and hides the file panel.
pub open spec fn panel_shortcut_name(mac: bool) -> Seq<char> {
    if mac {
        "Cmd+B"@
    } else {
        "Ctrl+Shift+B"@
    }
}

/// Name of the modifier of the workspace shortcuts.
pub fn shortcut_modifier(mac: bool) -> (name: &'static str)
    ensures
        name@ == modifier_name(mac),
{
    if mac {
        "Cmd"
    } else {
        "Ctrl"
    }
}

/// Name of the modifier of the pane shortcuts.
pub fn pane_shortcut_modifier(mac: bool) -> (name: &'static str)
    ensures
        name@ == pane_modifier_name(mac),
{
    if mac {
        "Cmd"
    } else {
        "Alt"
    }
}

/// Name of the chord that shows and hides the file panel.
pub fn panel_shortcut_label(mac: bool) -> (name: &'static str)
    ensures
        name@ == panel_shortcut_name(mac),
{
    if mac {
        "Cmd+B"
    } else {
        "Ctrl+Shift+B"
    }
}

/// The rows of the application menu.
pub open spec fn app_menu_rows(mac: bool) -> Seq<ItemView> {
    let modifier = modifier_name(mac);
    let pane = pane_modifier_name(mac);
    seq![
        hinted("menu.new_session"@, modifier + "+T"@, Command::NewSession),
        hinted("menu.duplicate_right"@, pane + "+Shift+D"@, Command::DuplicateSplitRight),
        hinted("menu.duplicate_below"@, pane + "+Shift+S"@, Command::DuplicateSplitBelow),
        hinted("menu.break_out_pane"@, pane + "+Shift+B"@, Command::BreakOutPane),
        hinted("files.toggle"@, panel_shortcut_name(mac), Command::ToggleFilePanel),
        hinted("menu.settings"@, modifier + "+,"@, Command::OpenSettings),
        ItemView::Rule,
        plain("menu.about"@, Command::ShowAbout),
        ItemView::Rule,
        hinted("menu.quit"@, modifier + "+Q"@, Command::Quit),
    ]
}

/// The rows of the dropdown menu shown where there is no menu bar. Merging a tab in
/// is not among them: it needs a source tab, which only the context menu of a tab
/// can name.
pub fn render_app_menu(mac: bool) -> (items: Vec<MenuItem>)
    ensures
        item_views(items@) == app_menu_rows(mac),
{
    let modifier = shortcut_modifier(mac);
    let pane = pane_shortcut_modifier(mac);
    let mut items: Vec<MenuItem> = Vec::new();
    push_item(&mut items, hinted_item("menu.new_session", modifier, "+T", Command::NewSession));
    push_item(&mut items, hinted_item("menu.duplicate_right", pane, "+Shift+D", Command::DuplicateSplitRight));
    push_item(&mut items, hinted_item("menu.duplicate_below", pane, "+Shift+S", Command::DuplicateSplitBelow));
    push_item(&mut items, hinted_item("menu.break_out_pane", pane, "+Shift+B", Command::BreakOutPane));
    let toggle = MenuItem::Action {
        label: "files.toggle",
        shortcut: Some(copy(panel_shortcut_label(mac))),
        command: Command::ToggleFilePanel,
    };
    push_item(&mut items, toggle);
    push_item(&mut items, hinted_item("menu.settings", modifier, "+,", Command::OpenSettings));
    push_item(&mut items, MenuItem::Rule);
    push_item(&mut items, plain_item("menu.about", Command::ShowAbout));
    push_item(&mut items, MenuItem::Rule);
    push_item(&mut items, hinted_item("menu.quit", modifier, "+Q", Command::Quit));
    assert(item_views(items@) =~= app_menu_rows(mac));
    items
}

/// The rows of the menu named after the application in a menu bar.
pub open spec fn application_bar_rows() -> Seq<ItemView> {
    seq![
        plain("menu.about"@, Command::ShowAbout),
        ItemView::Rule,
        plain("menu.settings"@, Command::OpenSettings),
        ItemView::Rule,
        plain("menu.mac.quit"@, Command::Quit),
    ]
}

/// The rows of the session menu in a menu bar.
pub open spec fn session_bar_rows() -> Seq<ItemView> {
    seq![
        plain("menu.mac.new_session"@, Command::NewSession),
        plain("menu.mac.close_session"@, Command::CloseSession),
        plain("menu.mac.duplicate_right"@, Command::DuplicateSplitRight),
        plain("menu.mac.duplicate_below"@, Command::DuplicateSplitBelow),
        plain("menu.mac.break_out_pane"@, Command::BreakOutPane),
        ItemView::Rule,
        plain("files.mac.toggle"@, Command::ToggleFilePanel),
    ]
}

/// The menu bar: the menu named after the application, and the one under
/// `menu.session`. The name of the application is never translated.
pub fn app_menus() -> (menus: (Vec<MenuItem>, Vec<MenuItem>))
    ensures
        item_views(menus.0@) == application_bar_rows(),
        item_views(menus.1@) == session_bar_rows(),
{
    let mut application: Vec<MenuItem> = Vec::new();
    push_item(&mut application, plain_item("menu.about", Command::ShowAbout));
    push_item(&mut application, MenuItem::Rule);
    push_item(&mut application, plain_item("menu.settings", Command::OpenSettings));
    push_item(&mut application, MenuItem::Rule);
    push_item(&mut application, plain_item("menu.mac.quit", Command::Quit));
    assert(item_views(application@) =~= application_bar_rows());
    let mut session: Vec<MenuItem> = Vec::new();
    push_item(&mut session, plain_item("menu.mac.new_session", Command::NewSession));
    push_item(&mut session, plain_item("menu.mac.close_session", Command::CloseSession));
    push_item(&mut session, plain_item("menu.mac.duplicate_right", Command::DuplicateSplitRight));
    push_item(&mut session, plain_item("menu.mac.duplicate_below", Command::DuplicateSplitBelow));
    push_item(&mut session, plain_item("menu.mac.break_out_pane", Command::BreakOutPane));
    push_item(&mut session, MenuItem::Rule);
    push_item(&mut session, plain_item("files.mac.toggle", Command::ToggleFilePanel));
    assert(item_views(session@) =~= session_bar_rows());
    (application, session)
}

/// A chord and what it asks for.
#[derive(Debug)]
pub struct Binding {
    pub keys: String,
    pub command: Command,
    /// Whether it answers only inside the workspace.
    pub scoped: bool,
}

/// What a [`Binding`] holds.
pub struct BindingView {
    pub keys: Seq<char>,
    pub command: Command,
    pub scoped: bool,
}

impl View for Binding {
    type V = BindingView;

    open spec fn view(&self) -> BindingView {
        BindingView { keys: self.keys@, command: self.command, scoped: self.scoped }
    }
}

/// The chords and what they ask for.
pub open spec fn binding_views(bindings: Seq<Binding>) -> Seq<BindingView> {
    Seq::new(bindings.len(), |i: int| bindings[i]@)
}

/// A chord inside the workspace.
pub open spec fn chord(keys: Seq<char>, command: Command) -> BindingView {
    BindingView { keys, command, scoped: true }
}

/// The chord that shows and hides the file panel. Elsewhere than on macOS the shifted
/// one, which a terminal cannot tell from the plain one and so does not miss.
pub open spec fn panel_keys(mac: bool) -> Seq<char> {
    if mac {
        "cmd-b"@
    } else {
        "ctrl-shift-b"@
    }
}

/// The chords that name no tab.
pub open spec fn fixed_bindings(mac: bool) -> Seq<BindingView> {
    let modifier = if mac {
        "cmd"@
    } else {
        "ctrl"@
    };
    let pane = if mac {
        "cmd"@
    } else {
        "alt"@
    };
    seq![
        BindingView { keys: modifier + "-q"@, command: Command::Quit, scoped: false },
        chord(modifier + "-t"@, Command::NewSession),
        chord(modifier + "-w"@, Command::CloseSession),
        chord(modifier + "-,"@, Command::OpenSettings),
        chord("escape"@, Command::DismissDialog),
        chord(pane + "-]"@, Command::FocusNextPane),
        chord(pane + "-["@, Command::FocusPrevPane),
        chord(pane + "-shift-b"@, Command::BreakOutPane),
        chord(pane + "-shift-d"@, Command::DuplicateSplitRight),
        chord(pane + "-shift-s"@, Command::DuplicateSplitBelow),
        chord(panel_keys(mac), Command::ToggleFilePanel),
    ]
}

/// The chords that select a tab by its digit.
pub open spec fn tab_bindings(mac: bool, count: nat) -> Seq<BindingView> {
    Seq::new(
        count,
        |i: int|
            chord(
                (if mac {
                    "cmd"@
                } else {
                    "ctrl"@
                }) + "-"@ + decimal_text((i + 1) as nat),
                Command::SelectTab(i as usize),
            ),
    )
}

fn bind(bindings: &mut Vec<Binding>, modifier: &str, key: &str, command: Command)
    ensures
        binding_views(final(bindings)@) == binding_views(old(bindings)@).push(chord(modifier@ + key@, command)),
{
    bindings.push(Binding { keys: join2(modifier, key), command, scoped: true });
    assert(binding_views(bindings@) =~= binding_views(old(bindings)@).push(chord(modifier@ + key@, command)));
}

fn bind_plain(bindings: &mut Vec<Binding>, keys: &str, command: Command, scoped: bool)
    ensures
        binding_views(final(bindings)@) == binding_views(old(bindings)@).push(
            BindingView { keys: keys@, command, scoped },
        ),
{
    bindings.push(Binding { keys: copy(keys), command, scoped });
    assert(binding_views(bindings@) =~= binding_views(old(bindings)@).push(
        BindingView { keys: keys@, command, scoped },
    ));
}

/// Every shortcut the workspace listens for. A chord bound here is taken away from
/// the remote shell, which is what decides the modifiers.
pub fn bind_shortcuts(mac: bool) -> (bindings: Vec<Binding>)
    ensures
        binding_views(bindings@) == fixed_bindings(mac) + tab_bindings(mac, QUICK_SELECT_TABS as nat),
{
    let modifier = if mac { "cmd" } else { "ctrl" };
    let pane = if mac { "cmd" } else { "alt" };
    let mut bindings: Vec<Binding> = Vec::new();
    bind_plain(&mut bindings, join2(modifier, "-q").as_str(), Command::Quit, false);
    bind(&mut bindings, modifier, "-t", Command::NewSession);
    bind(&mut bindings, modifier, "-w", Command::CloseSession);
    bind(&mut bindings, modifier, "-,", Command::OpenSettings);
    bind_plain(&mut bindings, "escape", Command::DismissDialog, true);
    bind(&mut bindings, pane, "-]", Command::FocusNextPane);
    bind(&mut bindings, pane, "-[", Command::FocusPrevPane);
    bind(&mut bindings, pane, "-shift-b", Command::BreakOutPane);
    bind(&mut bindings, pane, "-shift-d", Command::DuplicateSplitRight);
    bind(&mut bindings, pane, "-shift-s", Command::DuplicateSplitBelow);
    bind_plain(
        &mut bindings,
        if mac {
            "cmd-b"
        } else {
            "ctrl-shift-b"
        },
        Command::ToggleFilePanel,
        true,
    );
    assert(binding_views(bindings@) =~= fixed_bindings(mac) + tab_bindings(mac, 0));
    let mut index: usize = 0;
    while index < QUICK_SELECT_TABS
        invariant
            index <= QUICK_SELECT_TABS,
            modifier@ == if mac {
                "cmd"@
            } else {
                "ctrl"@
            },
            binding_views(bindings@) == fixed_bindings(mac) + tab_bindings(mac, index as nat),
        decreases QUICK_SELECT_TABS - index,
    {
        let ghost before = binding_views(bindings@);
        let digit = decimal((index + 1) as u64);
        let keys = join3(modifier, "-", digit.as_str());
        bind_plain(&mut bindings, keys.as_str(), Command::SelectTab(index), true);
        proof {
            assert(binding_views(bindings@) =~= fixed_bindings(mac) + tab_bindings(mac, (index + 1) as nat));
        }
        index += 1;
    }
    bindings
}

/// The rows of the context menu of the active tab: it splits the active pane off
/// into a second connection, and moves it out when the tab is split. A row whose
/// command would be refused is left out.
pub open spec fn active_tab_rows(size: (u16, u16), split: bool, mac: bool) -> Seq<ItemView> {
    let pane = pane_modifier_name(mac);
    let right = if splittable(Axis::Horizontal, size) {
        seq![hinted("tab.duplicate_right"@, pane + "+Shift+D"@, Command::DuplicateSplitRight)]
    } else {
        Seq::empty()
    };
    let below = if splittable(Axis::Vertical, size) {
        seq![hinted("tab.duplicate_below"@, pane + "+Shift+S"@, Command::DuplicateSplitBelow)]
    } else {
        Seq::empty()
    };
    let splits = right + below;
    let ruled = if splits.len() > 0 {
        splits.push(ItemView::Rule)
    } else {
        splits
    };
    if split {
        ruled + seq![hinted("menu.break_out_pane"@, pane + "+Shift+B"@, Command::BreakOutPane), ItemView::Rule]
    } else {
        ruled
    }
}

/// The rows of the context menu of another tab: it merges that tab into the active
/// one.
pub open spec fn other_tab_rows(size: (u16, u16), index: usize) -> Seq<ItemView> {
    let right = if splittable(Axis::Horizontal, size) {
        seq![plain("tab.split_right"@, Command::MergeTab(index, Axis::Horizontal))]
    } else {
        Seq::empty()
    };
    let below = if splittable(Axis::Vertical, size) {
        seq![plain("tab.split_below"@, Command::MergeTab(index, Axis::Vertical))]
    } else {
        Seq::empty()
    };
    let splits = right + below;
    if splits.len() > 0 {
        splits.push(ItemView::Rule)
    } else {
        splits
    }
}

/// The rows of the context menu of a tab. Closing it is always among them.
pub open spec fn tab_rows(workspace: Workspace, index: usize, size: (u16, u16), mac: bool) -> Seq<ItemView> {
    (if index == workspace.active {
        active_tab_rows(size, workspace.tabs@[index as int].panes.panes().len() > 1, mac)
    } else {
        other_tab_rows(size, index)
    }).push(plain("tab.close"@, Command::CloseTab(index)))
}

/// The toolbar as it is drawn.
#[derive(Debug)]
pub struct Toolbar {
    /// Whether the row is the title bar of the window.
    pub custom: bool,
    /// Whether room is kept for the traffic lights.
    pub traffic_lights: bool,
    /// Whether the name of the application is written.
    pub title: bool,
    /// Whether its mark stands beside the name.
    pub title_icon: bool,
    /// Whether the application menu is there.
    pub menu: bool,
    /// Tint of the toggle of the file panel at rest and under the pointer, while there
    /// is something to browse.
    pub toggle: Option<(Slot, Slot)>,
    /// What the toggle says under the pointer. The shortcut rides along, because there
    /// may be no menu to read it off.
    pub toggle_tip: Message,
    /// Whether there are caption buttons.
    pub controls: bool,
}

/// What a [`Toolbar`] shows.
pub struct ToolbarView {
    pub custom: bool,
    pub traffic_lights: bool,
    pub title: bool,
    pub title_icon: bool,
    pub menu: bool,
    pub toggle: Option<(Slot, Slot)>,
    pub toggle_tip: MessageView,
    pub controls: bool,
}

impl View for Toolbar {
    type V = ToolbarView;

    open spec fn view(&self) -> ToolbarView {
        ToolbarView {
            custom: self.custom,
            traffic_lights: self.traffic_lights,
            title: self.title,
            title_icon: self.title_icon,
            menu: self.menu,
            toggle: self.toggle,
            toggle_tip: self.toggle_tip@,
            controls: self.controls,
        }
    }
}

/// The toolbar of a workspace. The menu is left out where a menu bar has its
/// commands; the name and the caption buttons are there where the row is the title
/// bar.
pub open spec fn toolbar_of(workspace: Workspace, custom: bool, platform: Platform, fullscreen: bool) -> ToolbarView {
    let mac = platform == Platform::Mac;
    ToolbarView {
        custom,
        traffic_lights: custom && mac && !fullscreen,
        title: custom,
        title_icon: custom && !mac,
        menu: !mac,
        toggle: if workspace.tabs@.len() == 0 {
            None
        } else if workspace.panel_open {
            Some((Slot::Accent, Slot::Accent))
        } else {
            Some((Slot::TextMuted, Slot::Text))
        },
        toggle_tip: says("files.tip_toggle"@).quoting("shortcut"@, panel_shortcut_name(mac)),
        controls: custom && !mac,
    }
}

/// A pane tree as it is drawn.
#[derive(Debug)]
pub enum PaneView {
    Pane {
        id: u64,
        session: u64,
        /// Color of the frame, when there is one.
        frame: Option<Slot>,
    },
    Split { id: u64, axis: Axis, ratio: u32, first: Box<PaneView>, second: Box<PaneView> },
}

/// The color of the frame around a pane: the active one wears the accent, unless the
/// file panel has the keyboard and wears it.
pub open spec fn frame_color(id: u64, active: u64, panel_focused: bool) -> Slot {
    if id == active && !panel_focused {
        Slot::Accent
    } else {
        Slot::Border
    }
}

/// A pane tree as it is drawn.
pub open spec fn drawn_panes(node: PaneNode, active: u64, frame: bool, panel_focused: bool) -> PaneView
    decreases node,
{
    match node {
        PaneNode::Leaf { id, session } => PaneView::Pane {
            id,
            session,
            frame: if frame {
                Some(frame_color(id, active, panel_focused))
            } else {
                None
            },
        },
        PaneNode::Split { id, axis, ratio, first, second } => PaneView::Split {
            id,
            axis,
            ratio: fitted(ratio),
            first: Box::new(drawn_panes(*first, active, frame, panel_focused)),
            second: Box::new(drawn_panes(*second, active, frame, panel_focused)),
        },
    }
}

/// Draws one node of a pane tree.
pub fn render_pane(node: &PaneNode, active: u64, frame: bool, panel_focused: bool) -> (view: PaneView)
    ensures
        view == drawn_panes(*node, active, frame, panel_focused),
    decreases node,
{
    match node {
        PaneNode::Leaf { id, session } => {
            let color = if *id == active && !panel_focused { Slot::Accent } else { Slot::Border };
            PaneView::Pane { id: *id, session: *session, frame: if frame { Some(color) } else { None } }
        },
        PaneNode::Split { id, axis, ratio, first, second } => {
            let share: u32 = if *ratio < MIN_SPLIT_RATIO {
                MIN_SPLIT_RATIO
            } else if *ratio > WHOLE - MIN_SPLIT_RATIO {
                WHOLE - MIN_SPLIT_RATIO
            } else {
                *ratio
            };
            PaneView::Split {
                id: *id,
                axis: *axis,
                ratio: share,
                first: Box::new(render_pane(first, active, frame, panel_focused)),
                second: Box::new(render_pane(second, active, frame, panel_focused)),
            }
        },
    }
}

/// The body of the window.
#[derive(Debug)]
pub enum Body {
    /// No session is open.
    Empty,
    Panes {
        /// Whether the file panel is drawn beside the panes.
        panel: bool,
        root: PaneView,
    },
}

/// The placeholder shown while no session is open.
#[derive(Debug)]
pub struct EmptyState {
    /// How to open a session.
    pub hint: Message,
    /// The button that starts a local shell: its wording and the shell's name.
    pub local: Option<(Message, String)>,
    /// The saved profiles, each a name and where it leads.
    pub saved: Vec<String>,
}

/// The row of a saved profile.
pub open spec fn saved_row(profile: SessionProfile) -> Seq<char> {
    profile.name@ + "  \u{b7}  "@ + profile.label_text()
}

/// The placeholder shown while no session is open. There is a button for a local
/// shell where there can be one.
pub fn render_empty_state(profiles: &Vec<SessionProfile>, shell: Option<String>, mac: bool) -> (state: EmptyState)
    ensures
        state.hint@ == says("empty.hint"@).quoting("shortcut"@, modifier_name(mac) + "+T"@),
        match state.local {
            Some((message, name)) => message@ == says("connection.local.name"@) && shell == Some(name),
            None => shell is None,
        },
        state.saved@.len() == profiles@.len(),
        forall|i: int| 0 <= i < state.saved@.len() ==> (#[trigger] state.saved@[i])@ == saved_row(profiles@[i]),
{
    let keys = join2(shortcut_modifier(mac), "+T");
    let hint = Message::new("empty.hint").with("shortcut", keys.as_str());
    let local = match shell {
        Some(name) => Some((Message::new("connection.local.name"), name)),
        None => None,
    };
    let mut saved: Vec<String> = Vec::new();
    let mut i: usize = 0;
    while i < profiles.len()
        invariant
            i <= profiles@.len(),
            saved@.len() == i,
            forall|k: int| 0 <= k < i ==> (#[trigger] saved@[k])@ == saved_row(profiles@[k]),
        decreases profiles@.len() - i,
    {
        saved.push(join3(profiles[i].name.as_str(), "  \u{b7}  ", profiles[i].label().as_str()));
        i += 1;
    }
    EmptyState { hint, local, saved }
}

/// What the status bar says of the target of the active session.
#[derive(Debug)]
pub enum StatusTarget {
    Label(String),
    Wording(Message),
}

/// The bottom status bar.
#[derive(Debug)]
pub struct StatusBar {
    pub target: StatusTarget,
    pub status: Message,
    /// Size of the terminal grid.
    pub grid: String,
}

/// The size of a grid.
pub open spec fn grid_text(size: (u16, u16)) -> Seq<char> {
    decimal_text(size.0 as nat) + "x"@ + decimal_text(size.1 as nat)
}

/// The bottom status bar: it reports the session the keyboard is aimed at.
pub fn render_status_bar(session: Option<&Session>) -> (bar: StatusBar)
    ensures
        match session {
            Some(session) => {
                &&& bar.target matches StatusTarget::Label(label) && label@ == session@.label()
                &&& bar.status@ == session@.status.summary()
                &&& bar.grid@ == grid_text(session@.terminal.dimensions())
            },
            None => {
                &&& bar.target matches StatusTarget::Wording(message) && message@ == says("statusbar.no_session"@)
                &&& bar.status@ == says("statusbar.idle"@)
                &&& bar.grid@ == "-"@
            },
        },
{
    match session {
        Some(session) => {
            let size = session.terminal().size();
            let cols = decimal(size.0 as u64);
            let rows = decimal(size.1 as u64);
            StatusBar {
                target: StatusTarget::Label(session.label()),
                status: session.status().summary(),
                grid: join3(cols.as_str(), "x", rows.as_str()),
            }
        },
        None => StatusBar {
            target: StatusTarget::Wording(Message::new("statusbar.no_session")),
            status: Message::new("statusbar.idle"),
            grid: copy("-"),
        },
    }
}

/// The wording of the tab strip's buttons, in the active language.
#[derive(Debug)]
pub struct TabTips {
    pub list: String,
    pub new_tab: String,
    pub close: String,
}

/// What the buttons of the tab strip say under the pointer: the list, the button for
/// a new tab, and the close buttons, which are worded like the row of the tab menu.
pub fn tab_tips(mac: bool) -> (tips: (Message, Message, Message))
    ensures
        tips.0@ == says("tab.tip_list"@),
        tips.1@ == says("tab.tip_new"@).quoting("shortcut"@, modifier_name(mac) + "+T"@),
        tips.2@ == says("tab.close"@),
{
    let chord = join2(shortcut_modifier(mac), "+T");
    (
        Message::new("tab.tip_list"),
        Message::new("tab.tip_new").with("shortcut", chord.as_str()),
        Message::new("tab.close"),
    )
}

impl Workspace {
    /// The context menu of a right-clicked tab, if one is open and its tab still
    /// there: where it stands, and its rows. `size` is that of the active pane.
    pub fn render_tab_context(&self, size: (u16, u16), mac: bool) -> (menu: Option<(i64, i64, Vec<MenuItem>)>)
        requires
            self.wf(),
        ensures
            match self.tab_context {
                Some((index, x, y)) if index < self.tabs@.len() => {
                    &&& menu matches Some((at_x, at_y, items))
                    &&& at_x == x
                    &&& at_y == y
                    &&& item_views(items@) == tab_rows(*self, index, size, mac)
                },
                _ => menu is None,
            },
    {
        let (index, x, y) = match self.tab_context {
            Some((index, x, y)) => (index, x, y),
            None => {
                return None;
            },
        };
        if index >= self.tabs.len() {
            return None;
        }
        let pane = pane_shortcut_modifier(mac);
        let mut items: Vec<MenuItem> = Vec::new();
        assert(item_views(items@) =~= Seq::empty());
        let right = self.can_split_active(Axis::Horizontal, size);
        let below = self.can_split_active(Axis::Vertical, size);
        if index == self.active {
            if right {
                push_item(
                    &mut items,
                    hinted_item("tab.duplicate_right", pane, "+Shift+D", Command::DuplicateSplitRight),
                );
            }
            if below {
                push_item(
                    &mut items,
                    hinted_item("tab.duplicate_below", pane, "+Shift+S", Command::DuplicateSplitBelow),
                );
            }
            if items.len() > 0 {
                push_item(&mut items, MenuItem::Rule);
            }
            if self.tabs[index].panes.leaf_count() > 1 {
                push_item(&mut items, hinted_item("menu.break_out_pane", pane, "+Shift+B", Command::BreakOutPane));
                push_item(&mut items, MenuItem::Rule);
            }
            proof {
                let split = self.tabs@[index as int].panes.panes().len() > 1;
                assert(item_views(items@) =~= active_tab_rows(size, split, mac));
            }
        } else {
            if right {
                push_item(&mut items, plain_item("tab.split_right", Command::MergeTab(index, Axis::Horizontal)));
            }
            if below {
                push_item(&mut items, plain_item("tab.split_below", Command::MergeTab(index, Axis::Vertical)));
            }
            if items.len() > 0 {
                push_item(&mut items, MenuItem::Rule);
            }
            proof {
                assert(item_views(items@) =~= other_tab_rows(size, index));
            }
        }
        push_item(&mut items, plain_item("tab.close", Command::CloseTab(index)));
        Some((x, y, items))
    }

    /// The toolbar. `custom` tells whether it stands in for the title bar.
    pub fn render_toolbar(&self, custom: bool, platform: Platform, fullscreen: bool) -> (toolbar: Toolbar)
        ensures
            toolbar@ == toolbar_of(*self, custom, platform, fullscreen),
    {
        let mac = match platform {
            Platform::Mac => true,
            _ => false,
        };
        let toggle = if self.tabs.len() == 0 {
            None
        } else if self.panel_open {
            Some((Slot::Accent, Slot::Accent))
        } else {
            Some((Slot::TextMuted, Slot::Text))
        };
        Toolbar {
            custom,
            traffic_lights: custom && mac && !fullscreen,
            title: custom,
            title_icon: custom && !mac,
            menu: !mac,
            toggle,
            toggle_tip: Message::new("files.tip_toggle").with("shortcut", panel_shortcut_label(mac)),
            controls: custom && !mac,
        }
    }

    /// The panes of the active tab, or the empty state. A lone terminal with nothing
    /// beside it has no frame; once there is a second thing that can hold the
    /// keyboard, the frames say which one does.
    pub fn render_body(&self, panel_has_focus: bool) -> (body: Body)
        ensures
            match body {
                Body::Empty => self.active >= self.tabs@.len(),
                Body::Panes { panel, root } => {
                    &&& self.active < self.tabs@.len()
                    &&& panel == self.panel_open
                    &&& root == drawn_panes(
                        self.tabs@[self.active as int].panes.root,
                        self.tabs@[self.active as int].current(),
                        self.tabs@[self.active as int].panes.panes().len() > 1 || self.panel_open,
                        self.panel_open && panel_has_focus,
                    )
                },
            },
    {
        if self.active >= self.tabs.len() {
            return Body::Empty;
        }
        let tab = &self.tabs[self.active];
        let frame = tab.panes.leaf_count() > 1 || self.panel_open;
        let root = render_pane(&tab.panes.root, tab.active_pane(), frame, self.panel_open && panel_has_focus);
        Body::Panes { panel: self.panel_open, root }
    }

    /// The tab strip. `labels` are the titles and markers of the active panes, tab by
    /// tab: a split tab is labelled after its active pane.
    pub fn render_tab_bar(&self, labels: &Vec<(String, TabStatus)>, tips: &TabTips) -> (bar: TabBar)
        ensures
            bar.id@ == "session-tabs"@,
            bar.tabs@.len() == labels@.len(),
            forall|i: int|
                0 <= i < bar.tabs@.len() ==> {
                    &&& (#[trigger] bar.tabs@[i]).id@ == "session-tab-"@ + decimal_text(i as nat)
                    &&& bar.tabs@[i].title@ == labels@[i].0@
                    &&& bar.tabs@[i].status == Some(labels@[i].1)
                },
            bar.active == self.active,
            bar.menu_open == self.tab_menu_open,
            bar.menu_icon matches Some(icon) && icon@ == TAB_LIST@,
            bar.menu_tooltip matches Some(text) && text@ == tips.list@,
            bar.new_tooltip matches Some(text) && text@ == tips.new_tab@,
            bar.close_tooltip matches Some(text) && text@ == tips.close@,
            bar.listeners.select && bar.listeners.close && bar.listeners.context_menu && bar.listeners.new_tab
                && bar.listeners.menu_open_change,
    {
        let mut tabs: Vec<TabItem> = Vec::new();
        let mut i: usize = 0;
        while i < labels.len()
            invariant
                i <= labels@.len(),
                tabs@.len() == i,
                forall|k: int|
                    0 <= k < i ==> {
                        &&& (#[trigger] tabs@[k]).id@ == "session-tab-"@ + decimal_text(k as nat)
                        &&& tabs@[k].title@ == labels@[k].0@
                        &&& tabs@[k].status == Some(labels@[k].1)
                    },
            decreases labels@.len() - i,
        {
            let id = join2("session-tab-", decimal(i as u64).as_str());
            tabs.push(TabItem::new(id.as_str(), labels[i].0.as_str()).status(labels[i].1));
            i += 1;
        }
        TabBar::new("session-tabs").tabs(tabs).active(self.active).menu_icon(TAB_LIST).tooltips(
            tips.list.as_str(),
            tips.new_tab.as_str(),
            tips.close.as_str(),
        ).menu_open(self.tab_menu_open).on_menu_open_change().on_select().on_close().on_context_menu().on_new()
    }
}

/// The window as it is drawn, from the bottom up.
#[derive(Debug)]
pub struct WorkspaceView {
    pub toolbar: Toolbar,
    pub body: Body,
    pub status: StatusBar,
    /// The context menu of a tab.
    pub tab_context: Option<(i64, i64, Vec<MenuItem>)>,
    /// The dialog above everything else.
    pub dialog: Option<Dialog>,
    /// The width to publish as lying outside the window, in pixels.
    pub client_inset: u32,
    pub frame: Option<WindowFrame>,
}

/// The window around a workspace.
#[derive(Debug, Clone, Copy)]
pub struct Surroundings {
    pub platform: Platform,
    pub decorations: Decorations,
    pub fullscreen: bool,
    /// Whether the file panel has the keyboard.
    pub panel_has_focus: bool,
}

impl Workspace {
    /// The window as it is drawn. `session` is the one of the active pane.
    pub fn render(&self, session: Option<&Session>, around: &Surroundings) -> (view: WorkspaceView)
        requires
            self.wf(),
        ensures
            view.toolbar@ == toolbar_of(
                *self,
                own_titlebar(self.titlebar, around.platform, around.decorations),
                around.platform,
                around.fullscreen,
            ),
            view.body is Empty == (self.tabs@.len() == 0),
            view.body matches Body::Panes { panel, root } ==> {
                let tab = self.tabs@[self.active as int];
                &&& panel == self.panel_open
                &&& root == drawn_panes(
                    tab.panes.root,
                    tab.current(),
                    tab.panes.panes().len() > 1 || self.panel_open,
                    self.panel_open && around.panel_has_focus,
                )
            },
            match session {
                Some(session) => {
                    &&& view.status.target matches StatusTarget::Label(label) && label@ == session@.label()
                    &&& view.status.status@ == session@.status.summary()
                    &&& view.status.grid@ == grid_text(session@.terminal.dimensions())
                },
                None => {
                    &&& view.status.target matches StatusTarget::Wording(message) && message@ == says(
                        "statusbar.no_session"@,
                    )
                    &&& view.status.status@ == says("statusbar.idle"@)
                    &&& view.status.grid@ == "-"@
                },
            },
            match self.tab_context {
                Some((index, x, y)) if index < self.tabs@.len() => {
                    &&& view.tab_context matches Some((at_x, at_y, items))
                    &&& at_x == x
                    &&& at_y == y
                    &&& item_views(items@) == tab_rows(
                        *self,
                        index,
                        match session {
                            Some(session) => session@.terminal.dimensions(),
                            None => (0, 0),
                        },
                        around.platform == Platform::Mac,
                    )
                },
                _ => view.tab_context is None,
            },
            match view.dialog {
                Some(dialog) => self.shows(dialog),
                None => forall|dialog: Dialog| !self.shows(dialog),
            },
            framed(view.client_inset, view.frame, around.platform, around.decorations),
    {
        let custom = draws_own_titlebar(self.titlebar, around.platform, around.decorations);
        let size: (u16, u16) = match session {
            Some(session) => session.terminal().size(),
            None => (0, 0),
        };
        let mac = match around.platform {
            Platform::Mac => true,
            _ => false,
        };
        let dialog = if self.connecting {
            Some(Dialog::Connection)
        } else if self.configuring {
            Some(Dialog::Settings)
        } else if self.about {
            Some(Dialog::About)
        } else {
            None
        };
        let (client_inset, frame) = render_frame(around.platform, around.decorations);
        WorkspaceView {
            toolbar: self.render_toolbar(custom, around.platform, around.fullscreen),
            body: self.render_body(around.panel_has_focus),
            status: render_status_bar(session),
            tab_context: self.render_tab_context(size, mac),
            dialog,
            client_inset,
            frame,
        }
    }
}

/// A command of the context menu of a tab would be carried out, were it picked while
/// the active pane is of that size.
pub open spec fn carried_out(workspace: Workspace, command: Command, size: (u16, u16)) -> bool {
    match command {
        Command::DuplicateSplitRight => workspace.active < workspace.tabs@.len() && splittable(Axis::Horizontal, size),
        Command::DuplicateSplitBelow => workspace.active < workspace.tabs@.len() && splittable(Axis::Vertical, size),
        Command::BreakOutPane => breakable(workspace),
        Command::MergeTab(source, axis) => mergeable(workspace, source, axis, size),
        Command::CloseTab(index) => index < workspace.tabs@.len(),
        _ => false,
    }
}

/// Every row of the context menu of a tab would be carried out: what would be refused
/// is left out. The last row always offers to close the tab.
pub proof fn menus_offer_nothing_in_vain(workspace: Workspace, index: usize, size: (u16, u16), mac: bool)
    requires
        index < workspace.tabs@.len(),
    ensures
        forall|i: int|
            0 <= i < tab_rows(workspace, index, size, mac).len() ==> match #[trigger] tab_rows(
                workspace,
                index,
                size,
                mac,
            )[i] {
                ItemView::Action { command, .. } => carried_out(workspace, command, size),
                ItemView::Rule => true,
            },
        tab_rows(workspace, index, size, mac).last() == plain("tab.close"@, Command::CloseTab(index)),
{
}

/// At most one pane of a tab wears the accent, and none while the file panel has the
/// keyboard.
pub proof fn one_frame_wears_the_accent(one: u64, other: u64, active: u64, panel_focused: bool)
    ensures
        frame_color(one, active, panel_focused) == Slot::Accent && frame_color(other, active, panel_focused)
            == Slot::Accent ==> one == other,
        panel_focused ==> frame_color(one, active, panel_focused) == Slot::Border,
{
}

/// The panes of what is drawn, from the first half on.
pub open spec fn drawn_leaves(view: PaneView) -> Seq<(u64, u64)>
    decreases view,
{
    match view {
        PaneView::Pane { id, session, .. } => seq![(id, session)],
        PaneView::Split { first, second, .. } => drawn_leaves(*first) + drawn_leaves(*second),
    }
}

/// The splits of what is drawn.
pub open spec fn drawn_splits(view: PaneView) -> Seq<(u64, Axis, u32)>
    decreases view,
{
    match view {
        PaneView::Pane { .. } => Seq::empty(),
        PaneView::Split { id, axis, ratio, first, second } => seq![(id, axis, ratio)] + drawn_splits(*first)
            + drawn_splits(*second),
    }
}

/// The frames of what is drawn, pane by pane.
pub open spec fn drawn_frames(view: PaneView) -> Seq<(u64, Option<Slot>)>
    decreases view,
{
    match view {
        PaneView::Pane { id, frame, .. } => seq![(id, frame)],
        PaneView::Split { first, second, .. } => drawn_frames(*first) + drawn_frames(*second),
    }
}

/// Every pane of a tab is drawn, in its place and with its session, and every divider
/// along its axis, with a share that leaves room for both sides.
pub proof fn every_pane_is_drawn(node: PaneNode, active: u64, frame: bool, panel_focused: bool, i: int)
    requires
        0 <= i < node.splits().len(),
    ensures
        drawn_leaves(drawn_panes(node, active, frame, panel_focused)) == node.leaves(),
        drawn_splits(drawn_panes(node, active, frame, panel_focused)).len() == node.splits().len(),
        drawn_splits(drawn_panes(node, active, frame, panel_focused))[i].0 == node.splits()[i].0,
        drawn_splits(drawn_panes(node, active, frame, panel_focused))[i].1 == node.splits()[i].1,
        100_000 <= node.splits()[i].2 <= 900_000 ==> drawn_splits(
            drawn_panes(node, active, frame, panel_focused),
        )[i].2 == node.splits()[i].2,
    decreases node,
{
    lemma_drawn(node, active, frame, panel_focused);
    match node {
        PaneNode::Leaf { .. } => {},
        PaneNode::Split { first, second, .. } => {
            lemma_drawn(*first, active, frame, panel_focused);
            lemma_drawn(*second, active, frame, panel_focused);
            let n = first.splits().len() as int;
            if 1 <= i < 1 + n {
                every_pane_is_drawn(*first, active, frame, panel_focused, i - 1);
            } else if i >= 1 + n {
                every_pane_is_drawn(*second, active, frame, panel_focused, i - 1 - n);
            }
        },
    }
}

proof fn lemma_drawn(node: PaneNode, active: u64, frame: bool, panel_focused: bool)
    ensures
        drawn_leaves(drawn_panes(node, active, frame, panel_focused)) == node.leaves(),
        drawn_splits(drawn_panes(node, active, frame, panel_focused)).len() == node.splits().len(),
        drawn_frames(drawn_panes(node, active, frame, panel_focused)).len() == node.leaves().len(),
    decreases node,
{
    match node {
        PaneNode::Leaf { .. } => {},
        PaneNode::Split { first, second, .. } => {
            lemma_drawn(*first, active, frame, panel_focused);
            lemma_drawn(*second, active, frame, panel_focused);
        },
    }
}

/// Panes are framed where frames are drawn: the active one in the accent color, unless
/// the file panel has the keyboard, and all others in the color of borders.
pub proof fn the_active_pane_is_framed(node: PaneNode, active: u64, frame: bool, panel_focused: bool, i: int)
    requires
        0 <= i < node.leaves().len(),
    ensures
        ({
            let drawn = drawn_frames(drawn_panes(node, active, frame, panel_focused))[i];
            &&& drawn.0 == node.leaves()[i].0
            &&& !frame ==> drawn.1 is None
            &&& frame && drawn.0 == active && !panel_focused ==> drawn.1 == Some(Slot::Accent)
            &&& frame && (drawn.0 != active || panel_focused) ==> drawn.1 == Some(Slot::Border)
        }),
    decreases node,
{
    lemma_drawn(node, active, frame, panel_focused);
    match node {
        PaneNode::Leaf { .. } => {},
        PaneNode::Split { first, second, .. } => {
            lemma_drawn(*first, active, frame, panel_focused);
            lemma_drawn(*second, active, frame, panel_focused);
            let n = first.leaves().len() as int;
            if i < n {
                the_active_pane_is_framed(*first, active, frame, panel_focused, i);
            } else {
                the_active_pane_is_framed(*second, active, frame, panel_focused, i - n);
            }
        },
    }
}

/// The keys of every command, with the command key on a Mac and the control or the alt
/// key elsewhere.
pub proof fn commands_have_these_keys(mac: bool)
    ensures
        ({
            let bindings = fixed_bindings(mac);
            let main = if mac {
                "cmd"@
            } else {
                "ctrl"@
            };
            let pane = if mac {
                "cmd"@
            } else {
                "alt"@
            };
            &&& bindings.len() == 11
            &&& bindings[0].keys == main + "-q"@ && bindings[0].command is Quit && !bindings[0].scoped
            &&& bindings[1].keys == main + "-t"@ && bindings[1].command is NewSession
            &&& bindings[2].keys == main + "-w"@ && bindings[2].command is CloseSession
            &&& bindings[3].keys == main + "-,"@ && bindings[3].command is OpenSettings
            &&& bindings[4].keys == "escape"@ && bindings[4].command is DismissDialog
            &&& bindings[5].keys == pane + "-]"@ && bindings[5].command is FocusNextPane
            &&& bindings[6].keys == pane + "-["@ && bindings[6].command is FocusPrevPane
            &&& bindings[7].keys == pane + "-shift-b"@ && bindings[7].command is BreakOutPane
            &&& bindings[8].keys == pane + "-shift-d"@ && bindings[8].command is DuplicateSplitRight
            &&& bindings[9].keys == pane + "-shift-s"@ && bindings[9].command is DuplicateSplitBelow
            &&& bindings[10].command is ToggleFilePanel
            &&& mac ==> bindings[10].keys == "cmd-b"@
            &&& !mac ==> bindings[10].keys == "ctrl-shift-b"@
            &&& forall|i: int| 1 <= i < 11 ==> (#[trigger] bindings[i]).scoped
        }),
{
}

/// The digit keys select the tabs, counted from one.
pub proof fn digits_select_tabs(mac: bool, count: nat, i: int)
    requires
        0 <= i < count <= 9,
    ensures
        tab_bindings(mac, count).len() == count,
        tab_bindings(mac, count)[i].command == Command::SelectTab(i as usize),
        tab_bindings(mac, count)[i].scoped,
        mac ==> tab_bindings(mac, count)[i].keys == "cmd"@ + "-"@ + decimal_text((i + 1) as nat),
        !mac ==> tab_bindings(mac, count)[i].keys == "ctrl"@ + "-"@ + decimal_text((i + 1) as nat),
{
}

/// The application menu, row by row.
pub proof fn the_menu_reads_like_this(mac: bool)
    ensures
        ({
            let rows = app_menu_rows(mac);
            let main = if mac {
                "Cmd"@
            } else {
                "Ctrl"@
            };
            let pane = if mac {
                "Cmd"@
            } else {
                "Alt"@
            };
            &&& rows.len() == 10
            &&& rows[0] == hinted("menu.new_session"@, main + "+T"@, Command::NewSession)
            &&& rows[1] == hinted("menu.duplicate_right"@, pane + "+Shift+D"@, Command::DuplicateSplitRight)
            &&& rows[2] == hinted("menu.duplicate_below"@, pane + "+Shift+S"@, Command::DuplicateSplitBelow)
            &&& rows[3] == hinted("menu.break_out_pane"@, pane + "+Shift+B"@, Command::BreakOutPane)
            &&& mac ==> rows[4] == hinted("files.toggle"@, "Cmd+B"@, Command::ToggleFilePanel)
            &&& !mac ==> rows[4] == hinted("files.toggle"@, "Ctrl+Shift+B"@, Command::ToggleFilePanel)
            &&& rows[5] == hinted("menu.settings"@, main + "+,"@, Command::OpenSettings)
            &&& rows[6] is Rule
            &&& rows[7] == plain("menu.about"@, Command::ShowAbout)
            &&& rows[8] is Rule
            &&& rows[9] == hinted("menu.quit"@, main + "+Q"@, Command::Quit)
        }),
{
}

/// The menu bar of a Mac holds the application and its sessions.
pub proof fn the_menu_bar_reads_like_this(label: Seq<char>, text: Seq<char>, command: Command)
    ensures
        ({
            let application = application_bar_rows();
            let session = session_bar_rows();
            &&& application.len() == 5 && application[1] is Rule && application[3] is Rule
            &&& application[0] == plain("menu.about"@, Command::ShowAbout)
            &&& application[2] == plain("menu.settings"@, Command::OpenSettings)
            &&& application[4] == plain("menu.mac.quit"@, Command::Quit)
            &&& session.len() == 7 && session[5] is Rule
            &&& session[0] == plain("menu.mac.new_session"@, Command::NewSession)
            &&& session[1] == plain("menu.mac.close_session"@, Command::CloseSession)
            &&& session[2] == plain("menu.mac.duplicate_right"@, Command::DuplicateSplitRight)
            &&& session[3] == plain("menu.mac.duplicate_below"@, Command::DuplicateSplitBelow)
            &&& session[4] == plain("menu.mac.break_out_pane"@, Command::BreakOutPane)
            &&& session[6] == plain("files.mac.toggle"@, Command::ToggleFilePanel)
        }),
        plain(label, command) == (ItemView::Action { label, shortcut: None, command }),
        hinted(label, text, command) == (ItemView::Action { label, shortcut: Some(text), command }),
{
}

/// The context menu of another tab merges that very tab, to the right or below, where
/// there is room for it; that of the active tab divides it. Both close the tab.
pub proof fn tabs_offer_what_fits(workspace: Workspace, index: usize, size: (u16, u16), mac: bool)
    requires
        index < workspace.tabs@.len(),
    ensures
        ({
            let rows = tab_rows(workspace, index, size, mac);
            let pane = if mac {
                "Cmd"@
            } else {
                "Alt"@
            };
            &&& rows.last() == plain("tab.close"@, Command::CloseTab(index))
            &&& index != workspace.active && size.0 >= 40 ==> rows[0] == plain(
                "tab.split_right"@,
                Command::MergeTab(index, Axis::Horizontal),
            )
            &&& index != workspace.active && size.0 >= 40 && size.1 >= 12 ==> rows[1] == plain(
                "tab.split_below"@,
                Command::MergeTab(index, Axis::Vertical),
            )
            &&& index != workspace.active && size.0 < 40 && size.1 >= 12 ==> rows[0] == plain(
                "tab.split_below"@,
                Command::MergeTab(index, Axis::Vertical),
            )
            &&& index != workspace.active && size.0 < 40 && size.1 < 12 ==> rows.len() == 1
            &&& index == workspace.active && size.0 >= 40 ==> rows[0] == hinted(
                "tab.duplicate_right"@,
                pane + "+Shift+D"@,
                Command::DuplicateSplitRight,
            )
            &&& index == workspace.active && size.0 >= 40 && size.1 >= 12 ==> rows[1] == hinted(
                "tab.duplicate_below"@,
                pane + "+Shift+S"@,
                Command::DuplicateSplitBelow,
            )
            &&& index == workspace.active && size.0 < 40 && size.1 >= 12 ==> rows[0] == hinted(
                "tab.duplicate_below"@,
                pane + "+Shift+S"@,
                Command::DuplicateSplitBelow,
            )
            &&& index == workspace.active && workspace.tabs@[index as int].panes.panes().len() > 1 ==> rows[rows.len()
                - 3] == hinted("menu.break_out_pane"@, pane + "+Shift+B"@, Command::BreakOutPane)
            &&& index == workspace.active && workspace.tabs@[index as int].panes.panes().len() <= 1 && size.0 < 40
                && size.1 < 12 ==> rows.len() == 1
        }),
{
}

/// The toolbar draws a caption of its own where it was asked for one, with controls on
/// all systems but a Mac, which brings its own and a menu bar too. The file panel can be
/// toggled while there is a tab, and the toggle shows whether it is open.
pub proof fn the_toolbar_fits_the_system(workspace: Workspace, custom: bool, platform: Platform, fullscreen: bool)
    ensures
        ({
            let bar = toolbar_of(workspace, custom, platform, fullscreen);
            &&& bar.custom == custom && bar.title == custom
            &&& bar.menu <==> !(platform is Mac)
            &&& bar.controls <==> custom && !(platform is Mac)
            &&& bar.title_icon <==> custom && !(platform is Mac)
            &&& bar.traffic_lights <==> custom && platform is Mac && !fullscreen
            &&& bar.toggle is Some <==> workspace.tabs@.len() > 0
            &&& workspace.tabs@.len() > 0 && workspace.panel_open ==> bar.toggle == Some((Slot::Accent, Slot::Accent))
            &&& workspace.tabs@.len() > 0 && !workspace.panel_open ==> bar.toggle == Some(
                (Slot::TextMuted, Slot::Text),
            )
            &&& bar.toggle_tip.key == "files.tip_toggle"@
            &&& platform is Mac ==> bar.toggle_tip.args == seq![("shortcut"@, "Cmd+B"@)]
            &&& !(platform is Mac) ==> bar.toggle_tip.args == seq![("shortcut"@, "Ctrl+Shift+B"@)]
        }),
{
    assert(Seq::<(Seq<char>, Seq<char>)>::empty().push(("shortcut"@, "Cmd+B"@)) =~= seq![("shortcut"@, "Cmd+B"@)]);
    assert(Seq::<(Seq<char>, Seq<char>)>::empty().push(("shortcut"@, "Ctrl+Shift+B"@)) =~= seq![
        ("shortcut"@, "Ctrl+Shift+B"@),
    ]);
}

/// The size of a grid is written columns first, and a saved profile as its name and its
/// label.
pub proof fn sizes_and_profiles_are_written_like_this(cols: u16, rows: u16, profile: SessionProfile)
    ensures
        grid_text((cols, rows)) == decimal_text(cols as nat) + seq!['x'] + decimal_text(rows as nat),
        saved_row(profile) == profile.name@ + seq![' ', ' ', '\u{b7}', ' ', ' '] + profile.username@ + seq!['@']
            + profile.host@,
{
    reveal_strlit("x");
    reveal_strlit("  \u{b7}  ");
    assert("x"@ =~= seq!['x']);
    assert("  \u{b7}  "@ =~= seq![' ', ' ', '\u{b7}', ' ', ' ']);
    crate::profile::labels_name_user_and_host(profile);
    assert(saved_row(profile) =~= profile.name@ + seq![' ', ' ', '\u{b7}', ' ', ' '] + profile.username@ + seq!['@']
        + profile.host@);
}

} // verus!
