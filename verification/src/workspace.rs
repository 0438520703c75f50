//! The application shell: a strip of tabs, the panes of the active one, and the
//! menus and dialogs above them.
//!
//! A tab is not one session but a tree of panes, each showing one session. Most
//! tabs hold a single pane; splitting one is how a tab comes to show several
//! sessions side by side.
//!
//! The workspace decides and its owner acts: every call says in
//! [`WorkspaceEffects`] which sessions to end, what to focus and what to draw.
use vstd::prelude::*;

use crate::pane_tree::{
    closing_undoes_splitting, distinct, dividers_move_no_panes, dividers_stop_at_a_tenth, fitted, lemma_leaves,
    lemma_place, lemma_shared_has, lemma_without, neighbour, panes_are_found_where_they_are, place_in, place_of,
    removing_keeps_the_others, shares_always_fit, sharing_adds_panes_behind, splitting_adds_one_split,
    the_focus_moves_in_the_order_of_the_panes, Axis, PaneNode, PaneTree,
};
use crate::settings::TitlebarStyle;

verus! {

/// Narrowest pane, in terminal columns, a horizontal split may produce.
pub const MIN_PANE_COLS: u16 = 20;

/// Shortest pane, in terminal rows, a vertical split may produce.
pub const MIN_PANE_ROWS: u16 = 6;

/// One tab: a tree of panes, one of which is active.
#[derive(Debug)]
pub struct SessionTab {
    /// The panes of this tab.
    pub panes: PaneTree,
    /// The pane the tab label, the status bar and the shortcuts act on.
    pub active_pane: u64,
}

/// The sessions of a list of panes.
pub open spec fn sessions_of(leaves: Seq<(u64, u64)>) -> Seq<u64> {
    Seq::new(leaves.len(), |i: int| leaves[i].1)
}

/// The first pane that shows a session.
pub open spec fn pane_showing(leaves: Seq<(u64, u64)>, session: u64) -> Option<u64>
    decreases leaves.len(),
{
    if leaves.len() == 0 {
        None
    } else if leaves[0].1 == session {
        Some(leaves[0].0)
    } else {
        pane_showing(leaves.drop_first(), session)
    }
}

impl SessionTab {
    /// There is a pane with that id.
    pub open spec fn has(self, pane: u64) -> bool {
        self.panes.root.has(pane)
    }

    /// The active pane; the first one speaks for a tab whose active pane is gone.
    pub open spec fn current(self) -> u64 {
        if self.has(self.active_pane) {
            self.active_pane
        } else {
            self.panes.panes()[0].0
        }
    }

    /// The session of the active pane.
    pub open spec fn session(self) -> u64 {
        self.panes.panes()[place_in(self.panes.root, self.current())].1
    }

    /// What every tab keeps: panes with ids of their own below `bound`, the active
    /// one among them, and room for each.
    pub open spec fn wf(self, bound: u64) -> bool {
        &&& distinct(self.panes.panes())
        &&& self.has(self.active_pane)
        &&& self.panes.root.ids_below(bound)
        &&& self.panes.root.shares_fit()
    }

    /// No pane is in both tabs.
    pub open spec fn apart(self, other: SessionTab) -> bool {
        forall|pane: u64| !(#[trigger] self.has(pane) && other.has(pane))
    }

    /// The tab without a pane. When that was the active one, the next pane takes its
    /// place.
    pub open spec fn without(self, pane: u64) -> SessionTab {
        let rest = self.panes.root.without(pane)->0;
        SessionTab {
            panes: PaneTree { root: rest },
            active_pane: if rest.has(self.active_pane) {
                self.active_pane
            } else {
                match neighbour(self.panes.panes(), pane, true) {
                    Some(next) if rest.has(next) => next,
                    _ => rest.leaves()[0].0,
                }
            },
        }
    }

    /// A tab of a single pane.
    pub fn single(pane: u64, session: u64) -> (tab: SessionTab)
        ensures
            tab == single_tab(pane, session),
    {
        SessionTab { panes: PaneTree::single(pane, session), active_pane: pane }
    }

    /// The active pane, falling back to the first one.
    pub fn active_pane(&self) -> (pane: u64)
        ensures
            pane == self.current(),
            self.has(pane),
    {
        proof {
            lemma_leaves(self.panes.root);
            lemma_first(self.panes.root);
        }
        if self.panes.contains(self.active_pane) {
            self.active_pane
        } else {
            self.panes.first_leaf().0
        }
    }

    /// The session of the active pane.
    pub fn active_session(&self) -> (session: u64)
        ensures
            session == self.session(),
    {
        let pane = self.active_pane();
        proof {
            lemma_place(self.panes.root, pane);
        }
        match self.panes.get(pane) {
            Some(session) => session,
            None => self.panes.first_leaf().1,
        }
    }

    /// Every session in this tab, one per pane.
    pub fn sessions(&self) -> (sessions: Vec<u64>)
        ensures
            sessions@ == sessions_of(self.panes.panes()),
    {
        let leaves = self.panes.leaves();
        let mut sessions: Vec<u64> = Vec::new();
        let mut i: usize = 0;
        while i < leaves.len()
            invariant
                i <= leaves@.len(),
                sessions@ == sessions_of(leaves@).take(i as int),
            decreases leaves@.len() - i,
        {
            sessions.push(leaves[i].1);
            proof {
                assert(sessions@ =~= sessions_of(leaves@).take(i + 1));
            }
            i += 1;
        }
        proof {
            assert(sessions@ =~= sessions_of(leaves@));
        }
        sessions
    }

    /// The pane showing a session, if any. Panes are found by what they show because
    /// a focus event only says which surface was focused.
    pub fn pane_of(&self, session: u64) -> (pane: Option<u64>)
        ensures
            pane == pane_showing(self.panes.panes(), session),
            pane matches Some(pane) ==> self.has(pane),
    {
        let leaves = self.panes.leaves();
        let mut i: usize = 0;
        proof {
            assert(leaves@.skip(0) =~= leaves@);
        }
        while i < leaves.len()
            invariant
                i <= leaves@.len(),
                leaves@ == self.panes.panes(),
                pane_showing(leaves@, session) == pane_showing(leaves@.skip(i as int), session),
            decreases leaves@.len() - i,
        {
            proof {
                assert(leaves@.skip(i as int)[0] == leaves@[i as int]);
                assert(leaves@.skip(i as int).drop_first() =~= leaves@.skip(i + 1));
            }
            if leaves[i].1 == session {
                proof {
                    lemma_listed(self.panes.root, i as int);
                }
                return Some(leaves[i].0);
            }
            i += 1;
        }
        None
    }

    /// Removes a pane and hands out its session; the only pane stays.
    fn remove_pane(&mut self, pane: u64) -> (session: Option<u64>)
        ensures
            match old(self).panes.root.without(pane) {
                Some(rest) if old(self).has(pane) => {
                    &&& *final(self) == old(self).without(pane)
                    &&& session == Some(old(self).panes.panes()[place_in(old(self).panes.root, pane)].1)
                },
                _ => *final(self) == *old(self) && session is None,
            },
    {
        // Read before the removal, while the neighbour is still in the tree.
        let successor = self.panes.next_leaf(pane);
        let session = self.panes.remove(pane);
        if session.is_none() {
            return None;
        }
        if !self.panes.contains(self.active_pane) {
            let stays = match successor {
                Some(next) => self.panes.contains(next),
                None => false,
            };
            self.active_pane = match successor {
                Some(next) if stays => next,
                _ => self.panes.first_leaf().0,
            };
        }
        session
    }
}

/// A tab of a single pane.
pub open spec fn single_tab(pane: u64, session: u64) -> SessionTab {
    SessionTab { panes: PaneTree { root: PaneNode::Leaf { id: pane, session } }, active_pane: pane }
}

/// The first pane of a tree is in it.
proof fn lemma_first(node: PaneNode)
    ensures
        node.leaves().len() >= 1,
        node.has(node.leaves()[0].0),
{
    lemma_leaves(node);
    lemma_listed(node, 0);
}

/// Every pane that is listed is in the tree.
proof fn lemma_listed(node: PaneNode, place: int)
    requires
        0 <= place < node.leaves().len(),
    ensures
        node.has(node.leaves()[place].0),
    decreases node,
{
    match node {
        PaneNode::Leaf { .. } => {},
        PaneNode::Split { first, second, .. } => {
            if place < first.leaves().len() {
                lemma_listed(*first, place);
            } else {
                lemma_listed(*second, place - first.leaves().len());
            }
        },
    }
}

/// What keyboard focus moves to.
#[derive(Debug, Clone, Copy, PartialEq, Eq, Structural)]
pub enum Focus {
    /// The terminal of a session.
    Session(u64),
    /// The workspace itself, so that the shortcuts stay live while no session is
    /// open.
    Workspace,
}

/// What the owner of the workspace has to do.
#[derive(Debug)]
pub struct WorkspaceEffects {
    /// Sessions whose panes are gone: the file panel forgets them and they hang up.
    pub ended: Vec<u64>,
    /// Scroll the tab strip so that this tab is on screen.
    pub reveal: Option<usize>,
    /// Move keyboard focus.
    pub focus: Option<Focus>,
    /// Draw the window anew.
    pub notify: bool,
}

/// What [`WorkspaceEffects`] ask for.
pub struct WorkspaceEffectsView {
    pub ended: Seq<u64>,
    pub reveal: Option<usize>,
    pub focus: Option<Focus>,
    pub notify: bool,
}

impl View for WorkspaceEffects {
    type V = WorkspaceEffectsView;

    open spec fn view(&self) -> WorkspaceEffectsView {
        WorkspaceEffectsView {
            ended: self.ended@,
            reveal: self.reveal,
            focus: self.focus,
            notify: self.notify,
        }
    }
}

/// Nothing to do.
pub open spec fn nothing() -> WorkspaceEffectsView {
    WorkspaceEffectsView { ended: Seq::empty(), reveal: None, focus: None, notify: false }
}

impl WorkspaceEffects {
    fn nothing() -> (effects: WorkspaceEffects)
        ensures
            effects@ == nothing(),
    {
        let effects = WorkspaceEffects { ended: Vec::new(), reveal: None, focus: None, notify: false };
        assert(effects@.ended =~= Seq::empty());
        effects
    }
}

/// The root view: tab strip, terminal surface, menus and dialogs.
#[derive(Debug)]
pub struct Workspace {
    /// Open tabs, in order.
    pub tabs: Vec<SessionTab>,
    /// Index of the active tab; meaningless while there is none.
    pub active: usize,
    /// The id that the next pane or split is given.
    pub next_id: u64,
    /// Whether the remote file panel is showing.
    pub panel_open: bool,
    /// Whether the application dropdown menu is showing.
    pub menu_open: bool,
    /// Whether the tab strip's dropdown tab list is showing.
    pub tab_menu_open: bool,
    /// The tab a right-click opened a context menu for, and where the pointer was,
    /// in pixels.
    pub tab_context: Option<(usize, i64, i64)>,
    /// Title bar style currently on the window.
    pub titlebar: TitlebarStyle,
    /// Whether the connection dialog is on screen.
    pub connecting: bool,
    /// Whether the settings dialog is on screen.
    pub configuring: bool,
    /// Whether the about dialog is on screen.
    pub about: bool,
}

/// The first tab with a pane that shows a session, and that pane.
pub open spec fn tab_showing(tabs: Seq<SessionTab>, session: u64) -> Option<(int, u64)>
    decreases tabs.len(),
{
    if tabs.len() == 0 {
        None
    } else {
        match pane_showing(tabs[0].panes.panes(), session) {
            Some(pane) => Some((0, pane)),
            None => match tab_showing(tabs.drop_first(), session) {
                Some((index, pane)) => Some((index + 1, pane)),
                None => None,
            },
        }
    }
}

/// The sessions of several tabs, in order.
pub open spec fn all_sessions(tabs: Seq<SessionTab>) -> Seq<u64>
    decreases tabs.len(),
{
    if tabs.len() == 0 {
        Seq::empty()
    } else {
        all_sessions(tabs.drop_last()) + sessions_of(tabs.last().panes.panes())
    }
}

/// The active tab after the one at `index` went: tabs behind it move up.
pub open spec fn active_after_closing(active: usize, index: usize, left: nat) -> usize {
    let moved = if index < active {
        (active - 1) as usize
    } else {
        active
    };
    if moved < left {
        moved
    } else if left == 0 {
        0
    } else {
        (left - 1) as usize
    }
}

/// A pane of that size can be split: neither half may come out too small.
pub open spec fn splittable(axis: Axis, size: (u16, u16)) -> bool {
    match axis {
        Axis::Horizontal => size.0 / 2 >= MIN_PANE_COLS,
        Axis::Vertical => size.1 / 2 >= MIN_PANE_ROWS,
    }
}

impl Workspace {
    /// What holds between any two calls: every tab is sound, no pane is in two tabs,
    /// the active tab is there, and at most one dialog is on screen.
    pub open spec fn wf(self) -> bool {
        &&& forall|i: int| 0 <= i < self.tabs@.len() ==> (#[trigger] self.tabs@[i]).wf(self.next_id)
        &&& forall|i: int, j: int|
            0 <= i < j < self.tabs@.len() ==> (#[trigger] self.tabs@[i]).apart(#[trigger] self.tabs@[j])
        &&& self.tabs@.len() > 0 ==> self.active < self.tabs@.len()
        &&& !(self.connecting && self.configuring)
        &&& !(self.connecting && self.about)
        &&& !(self.configuring && self.about)
    }

    /// There are ids left for another pane and another split.
    pub open spec fn has_room(self) -> bool {
        self.next_id <= u64::MAX - 2
    }

    /// What keyboard focus belongs to.
    pub open spec fn focus_target(self) -> Focus {
        if self.active < self.tabs@.len() {
            Focus::Session(self.tabs@[self.active as int].session())
        } else {
            Focus::Workspace
        }
    }

    /// The tab to scroll to.
    pub open spec fn revealed(self) -> Option<usize> {
        if self.tabs@.len() > 0 {
            Some(self.active)
        } else {
            None
        }
    }

    /// The effects of activating the active tab.
    pub open spec fn shown(self) -> WorkspaceEffectsView {
        WorkspaceEffectsView {
            ended: Seq::empty(),
            reveal: self.revealed(),
            focus: Some(self.focus_target()),
            notify: true,
        }
    }

    /// All but the tabs, the active one and the ids is as in `other`.
    pub open spec fn same_overlays(self, other: Workspace) -> bool {
        &&& self.panel_open == other.panel_open
        &&& self.menu_open == other.menu_open
        &&& self.tab_menu_open == other.tab_menu_open
        &&& self.tab_context == other.tab_context
        &&& self.titlebar == other.titlebar
        &&& self.connecting == other.connecting
        &&& self.configuring == other.configuring
        &&& self.about == other.about
    }

    /// An empty workspace on a window with that title bar.
    pub fn new(titlebar: TitlebarStyle) -> (workspace: Workspace)
        ensures
            workspace.wf(),
            workspace.tabs@.len() == 0,
            workspace.active == 0,
            workspace.panel_open,
            !workspace.menu_open,
            !workspace.tab_menu_open,
            workspace.tab_context is None,
            workspace.titlebar == titlebar,
            !workspace.connecting,
            !workspace.configuring,
            !workspace.about,
            workspace.has_room(),
    {
        Workspace {
            tabs: Vec::new(),
            active: 0,
            next_id: 0,
            panel_open: true,
            menu_open: false,
            tab_menu_open: false,
            tab_context: None,
            titlebar,
            connecting: false,
            configuring: false,
            about: false,
        }
    }

    /// Every session the workspace holds, across all tabs and panes.
    pub fn sessions(&self) -> (sessions: Vec<u64>)
        ensures
            sessions@ == all_sessions(self.tabs@),
    {
        let mut sessions: Vec<u64> = Vec::new();
        let mut i: usize = 0;
        proof {
            assert(self.tabs@.take(0).len() == 0);
            assert(sessions@ =~= all_sessions(self.tabs@.take(0)));
        }
        while i < self.tabs.len()
            invariant
                i <= self.tabs@.len(),
                sessions@ == all_sessions(self.tabs@.take(i as int)),
            decreases self.tabs@.len() - i,
        {
            let mut more = self.tabs[i].sessions();
            proof {
                assert(self.tabs@.take(i + 1).drop_last() =~= self.tabs@.take(i as int));
                assert(self.tabs@.take(i + 1).last() == self.tabs@[i as int]);
            }
            sessions.append(&mut more);
            i += 1;
        }
        proof {
            assert(self.tabs@.take(i as int) =~= self.tabs@);
        }
        sessions
    }

    /// The session of the active pane, if there is a tab.
    pub fn active_session(&self) -> (session: Option<u64>)
        ensures
            session == match self.focus_target() {
                Focus::Session(session) => Some(session),
                Focus::Workspace => None,
            },
    {
        if self.active < self.tabs.len() {
            Some(self.tabs[self.active].active_session())
        } else {
            None
        }
    }

    /// What keyboard focus belongs to: the active pane's terminal, or the workspace
    /// itself when no session is open.
    pub fn focus_active(&self) -> (focus: Focus)
        ensures
            focus == self.focus_target(),
    {
        match self.active_session() {
            Some(session) => Focus::Session(session),
            None => Focus::Workspace,
        }
    }

    /// The tab to scroll the strip to.
    pub fn reveal_active_tab(&self) -> (tab: Option<usize>)
        ensures
            tab == self.revealed(),
    {
        if self.tabs.len() > 0 {
            Some(self.active)
        } else {
            None
        }
    }

    fn show(&self, ended: Vec<u64>) -> (effects: WorkspaceEffects)
        ensures
            effects@ == (WorkspaceEffectsView { ended: ended@, ..self.shown() }),
    {
        WorkspaceEffects {
            ended,
            reveal: self.reveal_active_tab(),
            focus: Some(self.focus_active()),
            notify: true,
        }
    }

    /// Gives a freshly built session a pane and a tab of its own, and activates that
    /// tab.
    pub fn adopt_session(&mut self, session: u64) -> (effects: WorkspaceEffects)
        requires
            old(self).wf(),
            old(self).has_room(),
        ensures
            final(self).wf(),
            session_adopted(*old(self), *final(self), effects@, session),
    {
        let pane: u64 = self.next_id;
        self.next_id = pane + 1;
        self.active = self.tabs.len();
        self.tabs.push(SessionTab::single(pane, session));
        proof {
            let tabs = self.tabs@;
            let last = tabs.len() - 1;
            lemma_single(pane, session, self.next_id);
            assert forall|i: int| 0 <= i < tabs.len() implies (#[trigger] tabs[i]).wf(self.next_id) by {
                if i < last {
                    assert(tabs[i] == old(self).tabs@[i]);
                    lemma_below(tabs[i].panes.root, pane, self.next_id);
                }
            }
            assert forall|i: int, j: int| 0 <= i < j < tabs.len() implies (#[trigger] tabs[i]).apart(
                #[trigger] tabs[j],
            ) by {
                assert(tabs[i] == old(self).tabs@[i]);
                if j == last {
                    lemma_fresh(tabs[i], pane, session);
                } else {
                    assert(tabs[j] == old(self).tabs@[j]);
                }
            }
        }
        self.show(Vec::new())
    }

    /// Records the pane showing `session` as the active one of its tab.
    pub fn on_pane_focused(&mut self, session: u64) -> (effects: WorkspaceEffects)
        requires
            old(self).wf(),
        ensures
            final(self).wf(),
            pane_focused(*old(self), *final(self), effects@, session),
    {
        match self.find_session(session) {
            Some((index, pane)) => {
                let mut effects = WorkspaceEffects::nothing();
                if self.tabs[index].active_pane != pane {
                    self.tabs[index].active_pane = pane;
                    effects.notify = true;
                    proof {
                        lemma_update(*old(self), *self, index as int);
                    }
                } else {
                    assert(self.tabs@ =~= old(self).tabs@.update(
                        index as int,
                        SessionTab { active_pane: pane, ..old(self).tabs@[index as int] },
                    ));
                }
                effects
            },
            None => WorkspaceEffects::nothing(),
        }
    }

    /// The first tab with a pane that shows a session, and that pane.
    fn find_session(&self, session: u64) -> (found: Option<(usize, u64)>)
        ensures
            match found {
                Some((index, pane)) => index < self.tabs@.len() && tab_showing(self.tabs@, session) == Some(
                    (index as int, pane),
                ) && self.tabs@[index as int].has(pane),
                None => tab_showing(self.tabs@, session) is None,
            },
    {
        let mut i: usize = 0;
        proof {
            assert(self.tabs@.skip(0) =~= self.tabs@);
        }
        while i < self.tabs.len()
            invariant
                i <= self.tabs@.len(),
                tab_showing(self.tabs@, session) == match tab_showing(self.tabs@.skip(i as int), session) {
                    Some((index, pane)) => Some((index + i, pane)),
                    None => None,
                },
            decreases self.tabs@.len() - i,
        {
            proof {
                assert(self.tabs@.skip(i as int)[0] == self.tabs@[i as int]);
                assert(self.tabs@.skip(i as int).drop_first() =~= self.tabs@.skip(i + 1));
            }
            if let Some(pane) = self.tabs[i].pane_of(session) {
                return Some((i, pane));
            }
            i += 1;
        }
        None
    }

    /// Activates the tab at `index`, if it exists. Selecting the tab that is already
    /// active scrolls the strip back to it.
    pub fn select_tab(&mut self, index: usize) -> (effects: WorkspaceEffects)
        requires
            old(self).wf(),
        ensures
            final(self).wf(),
            tab_selected(*old(self), *final(self), effects@, index),
    {
        if index >= self.tabs.len() {
            return WorkspaceEffects::nothing();
        }
        self.active = index;
        self.show(Vec::new())
    }

    /// Disconnects and removes the tab at `index`, panes and all.
    pub fn close_tab(&mut self, index: usize) -> (effects: WorkspaceEffects)
        requires
            old(self).wf(),
        ensures
            final(self).wf(),
            tab_closed(*old(self), *final(self), effects@, index),
    {
        if index >= self.tabs.len() {
            return WorkspaceEffects::nothing();
        }
        let tab = self.tabs.remove(index);
        let ended = tab.sessions();
        // Removing a tab in front of the active one shifts it down a slot.
        if index < self.active {
            self.active = self.active - 1;
        }
        if self.active >= self.tabs.len() {
            self.active = if self.tabs.len() == 0 { 0 } else { self.tabs.len() - 1 };
        }
        proof {
            lemma_removed(*old(self), *self, index as int);
        }
        self.show(ended)
    }

    /// Disconnects and removes the active pane of the active tab. Its sibling grows
    /// into the space; on the last pane of a tab, the tab goes with it.
    pub fn close_active_pane(&mut self) -> (effects: WorkspaceEffects)
        requires
            old(self).wf(),
        ensures
            final(self).wf(),
            old(self).tabs@.len() == 0 ==> *final(self) == *old(self) && effects@ == nothing(),
            old(self).tabs@.len() > 0 ==> pane_removed(
                *old(self),
                *final(self),
                effects@,
                old(self).active,
                old(self).tabs@[old(self).active as int].current(),
            ),
    {
        if self.active >= self.tabs.len() {
            return WorkspaceEffects::nothing();
        }
        let pane: u64 = self.tabs[self.active].active_pane();
        self.remove_pane(self.active, pane)
    }

    /// Retires the pane of a session whose connection has ended. A session that is no
    /// longer in any tab changes nothing.
    pub fn close_pane_for_session(&mut self, session: u64) -> (effects: WorkspaceEffects)
        requires
            old(self).wf(),
        ensures
            final(self).wf(),
            match tab_showing(old(self).tabs@, session) {
                Some((index, pane)) => pane_removed(*old(self), *final(self), effects@, index as usize, pane),
                None => *final(self) == *old(self) && effects@ == nothing(),
            },
    {
        match self.find_session(session) {
            Some((index, pane)) => self.remove_pane(index, pane),
            None => WorkspaceEffects::nothing(),
        }
    }

    /// Disconnects and removes one pane of the tab at `index`. Focus only moves when
    /// the pane sat in the active tab; a background tab shrinking must not steal the
    /// keyboard.
    pub fn remove_pane(&mut self, index: usize, pane: u64) -> (effects: WorkspaceEffects)
        requires
            old(self).wf(),
        ensures
            final(self).wf(),
            index >= old(self).tabs@.len() ==> *final(self) == *old(self) && effects@ == nothing(),
            index < old(self).tabs@.len() ==> pane_removed(*old(self), *final(self), effects@, index, pane),
    {
        if index >= self.tabs.len() {
            return WorkspaceEffects::nothing();
        }
        if self.tabs[index].panes.leaf_count() < 2 {
            return self.close_tab(index);
        }
        if !self.tabs[index].panes.contains(pane) {
            return WorkspaceEffects::nothing();
        }
        proof {
            lemma_without(self.tabs@[index as int].panes.root, pane);
        }
        let removed = self.tabs[index].remove_pane(pane);
        match removed {
            None => WorkspaceEffects::nothing(),
            Some(session) => {
                proof {
                    let tab = old(self).tabs@[index as int];
                    lemma_tab_without(tab, pane, self.next_id);
                    assert(self.tabs@ =~= old(self).tabs@.update(index as int, tab.without(pane)));
                    lemma_update(*old(self), *self, index as int);
                }
                let mut ended: Vec<u64> = Vec::new();
                ended.push(session);
                let focus = if index == self.active { Some(self.focus_active()) } else { None };
                assert(ended@ =~= seq![session]);
                WorkspaceEffects { ended, reveal: None, focus, notify: true }
            },
        }
    }
}

/// A pane went: the tab with it when it was the last one, else its sibling grew and
/// the tab keeps an active pane. A pane that is not there changes nothing.
pub open spec fn pane_removed(
    before: Workspace,
    after: Workspace,
    effects: WorkspaceEffectsView,
    index: usize,
    pane: u64,
) -> bool {
    let tab = before.tabs@[index as int];
    if tab.panes.panes().len() < 2 {
        &&& after.tabs@ == before.tabs@.remove(index as int)
        &&& after.active == active_after_closing(before.active, index, after.tabs@.len())
        &&& after.next_id == before.next_id
        &&& after.same_overlays(before)
        &&& effects == (WorkspaceEffectsView { ended: sessions_of(tab.panes.panes()), ..after.shown() })
    } else if tab.has(pane) {
        &&& after.tabs@ == before.tabs@.update(index as int, tab.without(pane))
        &&& after.active == before.active
        &&& after.next_id == before.next_id
        &&& after.same_overlays(before)
        &&& effects == (WorkspaceEffectsView {
            ended: seq![tab.panes.panes()[place_in(tab.panes.root, pane)].1],
            reveal: None,
            focus: if index == before.active {
                Some(after.focus_target())
            } else {
                None
            },
            notify: true,
        })
    } else {
        after == before && effects == nothing()
    }
}

proof fn lemma_below(node: PaneNode, low: u64, high: u64)
    requires
        node.ids_below(low),
        low <= high,
    ensures
        node.ids_below(high),
    decreases node,
{
    match node {
        PaneNode::Leaf { .. } => {},
        PaneNode::Split { first, second, .. } => {
            lemma_below(*first, low, high);
            lemma_below(*second, low, high);
        },
    }
}

/// A tree has no pane with an id that was not given yet.
proof fn lemma_not_yet(node: PaneNode, bound: u64, pane: u64)
    requires
        node.ids_below(bound),
        pane >= bound,
    ensures
        !node.has(pane),
    decreases node,
{
    match node {
        PaneNode::Leaf { .. } => {},
        PaneNode::Split { first, second, .. } => {
            lemma_not_yet(*first, bound, pane);
            lemma_not_yet(*second, bound, pane);
        },
    }
}

proof fn lemma_single(pane: u64, session: u64, bound: u64)
    requires
        pane < bound,
    ensures
        single_tab(pane, session).wf(bound),
        forall|id: u64| single_tab(pane, session).has(id) == (id == pane),
{
}

proof fn lemma_fresh(tab: SessionTab, pane: u64, session: u64)
    requires
        tab.panes.root.ids_below(pane),
    ensures
        tab.apart(single_tab(pane, session)),
{
    lemma_not_yet(tab.panes.root, pane, pane);
}

/// Replacing a tab by one with no more panes keeps the tabs apart.
proof fn lemma_update(before: Workspace, after: Workspace, index: int)
    requires
        before.wf(),
        0 <= index < before.tabs@.len(),
        after.tabs@ == before.tabs@.update(index, after.tabs@[index]),
        after.tabs@[index].wf(before.next_id),
        forall|pane: u64| #[trigger] after.tabs@[index].has(pane) ==> before.tabs@[index].has(pane),
        after.active == before.active,
        after.next_id == before.next_id,
        after.same_overlays(before),
    ensures
        after.wf(),
{
    assert forall|i: int, j: int| 0 <= i < j < after.tabs@.len() implies (#[trigger] after.tabs@[i]).apart(
        #[trigger] after.tabs@[j],
    ) by {
        assert(before.tabs@[i].apart(before.tabs@[j]));
        assert forall|pane: u64| !(#[trigger] after.tabs@[i].has(pane) && after.tabs@[j].has(pane)) by {
            assert(!(before.tabs@[i].has(pane) && before.tabs@[j].has(pane)));
        }
    }
}

/// Removing a tab keeps the others apart.
proof fn lemma_removed(before: Workspace, after: Workspace, index: int)
    requires
        before.wf(),
        0 <= index < before.tabs@.len(),
        after.tabs@ == before.tabs@.remove(index),
        after.tabs@.len() > 0 ==> after.active < after.tabs@.len(),
        after.next_id == before.next_id,
        after.same_overlays(before),
    ensures
        after.wf(),
{
    assert forall|i: int| 0 <= i < after.tabs@.len() implies (#[trigger] after.tabs@[i]).wf(after.next_id) by {
        let k = if i < index {
            i
        } else {
            i + 1
        };
        assert(after.tabs@[i] == before.tabs@[k]);
    }
    assert forall|i: int, j: int| 0 <= i < j < after.tabs@.len() implies (#[trigger] after.tabs@[i]).apart(
        #[trigger] after.tabs@[j],
    ) by {
        let k = if i < index {
            i
        } else {
            i + 1
        };
        let l = if j < index {
            j
        } else {
            j + 1
        };
        assert(after.tabs@[i] == before.tabs@[k]);
        assert(after.tabs@[j] == before.tabs@[l]);
    }
}

proof fn lemma_without_parts(node: PaneNode, pane: u64, bound: u64)
    requires
        node.ids_below(bound),
        node.without(pane) is Some,
    ensures
        (node.without(pane)->0).ids_below(bound),
    decreases node,
{
    match node {
        PaneNode::Leaf { .. } => {},
        PaneNode::Split { first, second, .. } => {
            if first.has(pane) {
                if first.without(pane) is Some {
                    lemma_without_parts(*first, pane, bound);
                }
            } else {
                if second.without(pane) is Some {
                    lemma_without_parts(*second, pane, bound);
                }
            }
        },
    }
}

/// A tab that lost a pane is sound, and has the other panes and no more.
proof fn lemma_tab_without(tab: SessionTab, pane: u64, bound: u64)
    requires
        tab.wf(bound),
        tab.has(pane),
        tab.panes.root.without(pane) is Some,
    ensures
        tab.without(pane).wf(bound),
        forall|id: u64| #[trigger] tab.without(pane).has(id) == (tab.has(id) && id != pane),
{
    let node = tab.panes.root;
    let rest = node.without(pane)->0;
    let leaves = node.leaves();
    let place = place_in(node, pane);
    lemma_place(node, pane);
    removing_keeps_the_others(node, pane);
    lemma_without_parts(node, pane, bound);
    shares_always_fit(node, pane, 0, Axis::Horizontal, node);
    lemma_first(rest);
    assert(rest.leaves() == leaves.remove(place));
    assert forall|i: int, j: int| 0 <= i < j < rest.leaves().len() implies (#[trigger] rest.leaves()[i]).0 != (
    #[trigger] rest.leaves()[j]).0 by {
        let k = if i < place {
            i
        } else {
            i + 1
        };
        let l = if j < place {
            j
        } else {
            j + 1
        };
        assert(rest.leaves()[i] == leaves[k]);
        assert(rest.leaves()[j] == leaves[l]);
    }
    assert forall|id: u64| #[trigger] tab.without(pane).has(id) == (tab.has(id) && id != pane) by {
        lemma_place(node, id);
        lemma_place(rest, id);
        if rest.has(id) {
            let at = place_in(rest, id);
            let k = if at < place {
                at
            } else {
                at + 1
            };
            assert(rest.leaves()[at] == leaves[k]);
            lemma_listed(node, k);
            assert(leaves[k].0 != leaves[place].0);
        }
        if tab.has(id) && id != pane {
            let at = place_in(node, id);
            let k = if at < place {
                at
            } else {
                at - 1
            };
            assert(rest.leaves()[k] == leaves[at]);
            lemma_listed(rest, k);
        }
    }
}

impl Workspace {
    /// Whether the active pane, of that size in columns and rows, is big enough to be
    /// split along `axis`. The two halves inherit roughly half of its grid each.
    pub fn can_split_active(&self, axis: Axis, size: (u16, u16)) -> (can: bool)
        ensures
            can == (self.active < self.tabs@.len() && splittable(axis, size)),
    {
        if self.active >= self.tabs.len() {
            return false;
        }
        match axis {
            Axis::Horizontal => size.0 / 2 >= MIN_PANE_COLS,
            Axis::Vertical => size.1 / 2 >= MIN_PANE_ROWS,
        }
    }

    /// Turns the tab at `source` into a split of the active tab, whose active pane is
    /// of that size. The source tab leaves the strip and its panes appear next to the
    /// active pane, along `axis`. Focus follows the panes that moved.
    pub fn merge_tab_into_active(&mut self, source: usize, axis: Axis, size: (u16, u16)) -> (effects: WorkspaceEffects)
        requires
            old(self).wf(),
            old(self).has_room(),
        ensures
            final(self).wf(),
            tab_merged(*old(self), *final(self), effects@, source, axis, size),
    {
        if source >= self.tabs.len() || source == self.active {
            return WorkspaceEffects::nothing();
        }
        if !self.can_split_active(axis, size) {
            return WorkspaceEffects::nothing();
        }
        let ghost target = self.tabs@[self.active as int];
        let pane: u64 = self.tabs[self.active].active_pane();
        let split: u64 = self.next_id;
        let incoming = self.tabs.remove(source);
        // Removing a tab in front of the active one shifts it down a slot.
        if source < self.active {
            self.active = self.active - 1;
        }
        self.next_id = split + 1;
        let follow: u64 = incoming.active_pane();
        let place: usize = self.active;
        assert(self.tabs@[place as int] == target);
        self.tabs[place].panes.merge_subtree(pane, axis, split, incoming.panes);
        self.tabs[place].active_pane = follow;
        proof {
            let tab = self.tabs@[place as int];
            assert(self.tabs@ =~= old(self).tabs@.remove(source as int).update(place as int, tab));
            assert(target.apart(incoming)) by {
                if source < old(self).active {
                    assert(old(self).tabs@[source as int].apart(old(self).tabs@[old(self).active as int]));
                    assert forall|id: u64| !(#[trigger] target.has(id) && incoming.has(id)) by {
                        assert(!(incoming.has(id) && target.has(id)));
                    }
                } else {
                    assert(old(self).tabs@[old(self).active as int].apart(old(self).tabs@[source as int]));
                }
            }
            lemma_tab_shared(target, incoming, axis, split, tab);
            lemma_merged(*old(self), *self, source as int, place as int);
        }
        self.show(Vec::new())
    }

    /// The session to open a second time, when the active pane, of that size, is big
    /// enough to be split along `axis`. Nothing about the state of the session
    /// matters: a pane whose connection failed can be split too.
    pub fn duplicate_split(&self, axis: Axis, size: (u16, u16)) -> (session: Option<u64>)
        ensures
            session == if self.active < self.tabs@.len() && splittable(axis, size) {
                Some(self.tabs@[self.active as int].session())
            } else {
                None
            },
    {
        if self.can_split_active(axis, size) {
            Some(self.tabs[self.active].active_session())
        } else {
            None
        }
    }

    /// Splits the active pane along `axis` and shows a second session in the new
    /// half, which becomes the active one.
    pub fn split_active(&mut self, axis: Axis, session: u64) -> (effects: WorkspaceEffects)
        requires
            old(self).wf(),
            old(self).has_room(),
        ensures
            final(self).wf(),
            pane_split(*old(self), *final(self), effects@, axis, session),
    {
        if self.active >= self.tabs.len() {
            return WorkspaceEffects::nothing();
        }
        let place: usize = self.active;
        let ghost tab = self.tabs@[place as int];
        let target: u64 = self.tabs[place].active_pane();
        let split: u64 = self.next_id;
        let pane: u64 = split + 1;
        self.next_id = split + 2;
        self.tabs[place].panes.split(target, axis, split, pane, session);
        self.tabs[place].active_pane = pane;
        proof {
            let after = self.tabs@[place as int];
            assert(self.tabs@ =~= old(self).tabs@.update(place as int, after));
            lemma_split(*old(self), *self, axis, session);
        }
        let mut effects = WorkspaceEffects::nothing();
        effects.focus = Some(self.focus_active());
        effects.notify = true;
        effects
    }

    /// Moves the active pane into a tab of its own, right after the current one. The
    /// session keeps running throughout. Nothing happens on an unsplit tab.
    pub fn break_out_active_pane(&mut self) -> (effects: WorkspaceEffects)
        requires
            old(self).wf(),
            old(self).has_room(),
        ensures
            final(self).wf(),
            pane_broken_out(*old(self), *final(self), effects@),
    {
        if self.active >= self.tabs.len() {
            return WorkspaceEffects::nothing();
        }
        let place: usize = self.active;
        if self.tabs[place].panes.leaf_count() < 2 {
            return WorkspaceEffects::nothing();
        }
        let ghost tab = self.tabs@[place as int];
        let pane: u64 = self.tabs[place].active_pane();
        proof {
            lemma_without(tab.panes.root, pane);
            lemma_tab_without(tab, pane, self.next_id);
        }
        let removed = self.tabs[place].remove_pane(pane);
        let session: u64 = match removed {
            Some(session) => session,
            None => 0,
        };
        let fresh: u64 = self.next_id;
        let count: usize = self.tabs.len();
        assert(place < count);
        self.tabs.insert(place + 1, SessionTab::single(fresh, session));
        self.active = place + 1;
        self.next_id = fresh + 1;
        proof {
            assert(self.tabs@ =~= old(self).tabs@.update(place as int, tab.without(pane)).insert(
                place + 1,
                single_tab(fresh, session),
            ));
            lemma_broken_out(*old(self), *self, session);
        }
        self.show(Vec::new())
    }

    /// Moves focus to the next pane of the active tab, wrapping around.
    pub fn focus_next_pane(&mut self) -> (effects: WorkspaceEffects)
        requires
            old(self).wf(),
        ensures
            final(self).wf(),
            cycled(*old(self), *final(self), effects@, true),
    {
        self.cycle_pane(true)
    }

    /// Moves focus to the previous pane of the active tab, wrapping around.
    pub fn focus_prev_pane(&mut self) -> (effects: WorkspaceEffects)
        requires
            old(self).wf(),
        ensures
            final(self).wf(),
            cycled(*old(self), *final(self), effects@, false),
    {
        self.cycle_pane(false)
    }

    /// Steps the active pane one place through the active tab's focus cycle.
    fn cycle_pane(&mut self, forward: bool) -> (effects: WorkspaceEffects)
        requires
            old(self).wf(),
        ensures
            final(self).wf(),
            cycled(*old(self), *final(self), effects@, forward),
    {
        if self.active >= self.tabs.len() {
            return WorkspaceEffects::nothing();
        }
        let place: usize = self.active;
        if self.tabs[place].panes.leaf_count() < 2 {
            return WorkspaceEffects::nothing();
        }
        let from: u64 = self.tabs[place].active_pane();
        let next = if forward { self.tabs[place].panes.next_leaf(from) } else { self.tabs[place].panes.prev_leaf(from) };
        proof {
            let tab = self.tabs@[place as int];
            lemma_place(tab.panes.root, from);
            let at = place_in(tab.panes.root, from);
            let leaves = tab.panes.panes();
            let to = if forward {
                if at + 1 == leaves.len() {
                    0
                } else {
                    at + 1
                }
            } else if at == 0 {
                leaves.len() - 1
            } else {
                at - 1
            };
            lemma_listed(tab.panes.root, to);
        }
        match next {
            Some(next) => {
                self.tabs[place].active_pane = next;
                proof {
                    assert(self.tabs@ =~= old(self).tabs@.update(
                        place as int,
                        SessionTab { active_pane: next, ..old(self).tabs@[place as int] },
                    ));
                    lemma_update(*old(self), *self, place as int);
                }
                let mut effects = WorkspaceEffects::nothing();
                effects.focus = Some(self.focus_active());
                effects.notify = true;
                effects
            },
            None => WorkspaceEffects::nothing(),
        }
    }

    /// Moves the divider of a split of the active tab to a share of its space, in
    /// millionths, short of either edge. A share that is no number moves nothing.
    pub fn drag_split(&mut self, split: u64, share: Option<u32>) -> (effects: WorkspaceEffects)
        requires
            old(self).wf(),
        ensures
            final(self).wf(),
            divider_dragged(*old(self), *final(self), effects@, split, share),
    {
        let mut effects = WorkspaceEffects::nothing();
        if let Some(share) = share {
            if self.active < self.tabs.len() {
                let place: usize = self.active;
                let ghost tab = self.tabs@[place as int];
                let found = self.tabs[place].panes.set_ratio(split, share);
                proof {
                    dividers_move_no_panes(tab.panes.root, split, share);
                    lemma_divided(tab.panes.root, split, fitted(share), self.next_id);
                    if found {
                        assert(self.tabs@ =~= old(self).tabs@.update(
                            place as int,
                            SessionTab {
                                panes: PaneTree { root: tab.panes.root.divided(split, fitted(share)) },
                                ..tab
                            },
                        ));
                    } else {
                        assert(self.tabs@ =~= old(self).tabs@);
                    }
                    assert forall|pane: u64| #[trigger] self.tabs@[place as int].has(pane) == tab.has(pane) by {
                        lemma_place(tab.panes.root, pane);
                        lemma_place(self.tabs@[place as int].panes.root, pane);
                    }
                    lemma_update(*old(self), *self, place as int);
                }
                effects.notify = found;
            }
        }
        effects
    }
}

/// A fresh session got a pane and a tab of its own, behind all others.
pub open spec fn session_adopted(
    before: Workspace,
    after: Workspace,
    effects: WorkspaceEffectsView,
    session: u64,
) -> bool {
    &&& after.tabs@ == before.tabs@.push(single_tab(before.next_id, session))
    &&& after.active == before.tabs@.len()
    &&& after.next_id == before.next_id + 1
    &&& after.same_overlays(before)
    &&& effects == after.shown()
}

/// The pane that shows a session was recorded as the active one of its tab.
pub open spec fn pane_focused(
    before: Workspace,
    after: Workspace,
    effects: WorkspaceEffectsView,
    session: u64,
) -> bool {
    match tab_showing(before.tabs@, session) {
        Some((index, pane)) => {
            let tab = before.tabs@[index];
            &&& after == (Workspace { tabs: after.tabs, ..before })
            &&& after.tabs@ == before.tabs@.update(index, SessionTab { active_pane: pane, ..tab })
            &&& effects == (WorkspaceEffectsView { notify: tab.active_pane != pane, ..nothing() })
        },
        None => after == before && effects == nothing(),
    }
}

/// A tab was activated, if it is there.
pub open spec fn tab_selected(before: Workspace, after: Workspace, effects: WorkspaceEffectsView, index: usize) -> bool {
    if index < before.tabs@.len() {
        &&& after == (Workspace { active: index, ..before })
        &&& effects == after.shown()
    } else {
        after == before && effects == nothing()
    }
}

/// A tab went, panes and all, if it was there.
pub open spec fn tab_closed(before: Workspace, after: Workspace, effects: WorkspaceEffectsView, index: usize) -> bool {
    if index < before.tabs@.len() {
        &&& after.tabs@ == before.tabs@.remove(index as int)
        &&& after.active == active_after_closing(before.active, index, after.tabs@.len())
        &&& after.next_id == before.next_id
        &&& after.same_overlays(before)
        &&& effects == (WorkspaceEffectsView {
            ended: sessions_of(before.tabs@[index as int].panes.panes()),
            ..after.shown()
        })
    } else {
        after == before && effects == nothing()
    }
}

/// A tab became a split of the active one.
pub open spec fn tab_merged(
    before: Workspace,
    after: Workspace,
    effects: WorkspaceEffectsView,
    source: usize,
    axis: Axis,
    size: (u16, u16),
) -> bool {
    if mergeable(before, source, axis, size) {
        let target = before.tabs@[before.active as int];
        let incoming = before.tabs@[source as int];
        let place = if source < before.active {
            before.active - 1
        } else {
            before.active as int
        };
        &&& after.active == place
        &&& after.tabs@ == before.tabs@.remove(source as int).update(
            place,
            SessionTab {
                panes: PaneTree {
                    root: target.panes.root.shared(
                        target.current(),
                        before.next_id,
                        axis,
                        incoming.panes.root,
                    ),
                },
                active_pane: incoming.current(),
            },
        )
        &&& after.next_id == before.next_id + 1
        &&& after.same_overlays(before)
        &&& effects == after.shown()
    } else {
        after == before && effects == nothing()
    }
}

/// The active pane was split, and the new half shows a second session.
pub open spec fn pane_split(
    before: Workspace,
    after: Workspace,
    effects: WorkspaceEffectsView,
    axis: Axis,
    session: u64,
) -> bool {
    if before.tabs@.len() > 0 {
        let tab = before.tabs@[before.active as int];
        let pane = (before.next_id + 1) as u64;
        &&& after.tabs@ == before.tabs@.update(
            before.active as int,
            SessionTab {
                panes: PaneTree {
                    root: tab.panes.root.shared(
                        tab.current(),
                        before.next_id,
                        axis,
                        PaneNode::Leaf { id: pane, session },
                    ),
                },
                active_pane: pane,
            },
        )
        &&& after.active == before.active
        &&& after.next_id == before.next_id + 2
        &&& after.same_overlays(before)
        &&& effects == (WorkspaceEffectsView { focus: Some(after.focus_target()), notify: true, ..nothing() })
    } else {
        after == before && effects == nothing()
    }
}

/// The active pane moved into a tab of its own, if it was not alone.
pub open spec fn pane_broken_out(before: Workspace, after: Workspace, effects: WorkspaceEffectsView) -> bool {
    if breakable(before) {
        let tab = before.tabs@[before.active as int];
        &&& after.tabs@ == before.tabs@.update(before.active as int, tab.without(tab.current())).insert(
            before.active + 1,
            single_tab(before.next_id, tab.session()),
        )
        &&& after.active == before.active + 1
        &&& after.next_id == before.next_id + 1
        &&& after.same_overlays(before)
        &&& effects == after.shown()
    } else {
        after == before && effects == nothing()
    }
}

/// The divider of a split of the active tab was moved.
pub open spec fn divider_dragged(
    before: Workspace,
    after: Workspace,
    effects: WorkspaceEffectsView,
    split: u64,
    share: Option<u32>,
) -> bool {
    &&& after.active == before.active
    &&& after.next_id == before.next_id
    &&& after.same_overlays(before)
    &&& match share {
        Some(share) if before.tabs@.len() > 0 && before.tabs@[before.active as int].panes.root.has_split(split) => {
            let tab = before.tabs@[before.active as int];
            &&& after.tabs@ == before.tabs@.update(
                before.active as int,
                SessionTab { panes: PaneTree { root: tab.panes.root.divided(split, fitted(share)) }, ..tab },
            )
            &&& effects == (WorkspaceEffectsView { notify: true, ..nothing() })
        },
        _ => after.tabs@ == before.tabs@ && effects == nothing(),
    }
}

/// A tab can be merged into the active one.
pub open spec fn mergeable(workspace: Workspace, source: usize, axis: Axis, size: (u16, u16)) -> bool {
    &&& source < workspace.tabs@.len()
    &&& source != workspace.active
    &&& splittable(axis, size)
}

/// The active tab is split.
pub open spec fn breakable(workspace: Workspace) -> bool {
    &&& workspace.active < workspace.tabs@.len()
    &&& workspace.tabs@[workspace.active as int].panes.panes().len() >= 2
}

/// The focus went one pane on, or back, in a split active tab.
pub open spec fn cycled(before: Workspace, after: Workspace, effects: WorkspaceEffectsView, forward: bool) -> bool {
    if breakable(before) {
        let tab = before.tabs@[before.active as int];
        &&& after.tabs@ == before.tabs@.update(
            before.active as int,
            SessionTab { active_pane: neighbour(tab.panes.panes(), tab.current(), forward)->0, ..tab },
        )
        &&& after.active == before.active
        &&& after.next_id == before.next_id
        &&& after.same_overlays(before)
        &&& effects == (WorkspaceEffectsView { focus: Some(after.focus_target()), notify: true, ..nothing() })
    } else {
        after == before && effects == nothing()
    }
}

proof fn lemma_shared_below(node: PaneNode, pane: u64, split: u64, axis: Axis, other: PaneNode, bound: u64)
    requires
        node.ids_below(bound),
        other.ids_below(bound),
        split < bound,
    ensures
        node.shared(pane, split, axis, other).ids_below(bound),
    decreases node,
{
    reveal_with_fuel(PaneNode::ids_below, 2);
    match node {
        PaneNode::Leaf { .. } => {},
        PaneNode::Split { first, second, .. } => {
            lemma_shared_below(*first, pane, split, axis, other, bound);
            lemma_shared_below(*second, pane, split, axis, other, bound);
        },
    }
}

proof fn lemma_divided(node: PaneNode, split: u64, share: u32, bound: u64)
    requires
        node.ids_below(bound),
    ensures
        node.divided(split, share).ids_below(bound),
    decreases node,
{
    match node {
        PaneNode::Leaf { .. } => {},
        PaneNode::Split { first, second, .. } => {
            lemma_divided(*first, split, share, bound);
            lemma_divided(*second, split, share, bound);
        },
    }
}

/// A tab that took in another is sound, and has the panes of both.
proof fn lemma_tab_shared(target: SessionTab, incoming: SessionTab, axis: Axis, split: u64, tab: SessionTab)
    requires
        target.wf(split),
        incoming.wf(split),
        target.apart(incoming),
        split < u64::MAX,
        tab == (SessionTab {
            panes: PaneTree {
                root: target.panes.root.shared(target.current(), split, axis, incoming.panes.root),
            },
            active_pane: incoming.current(),
        }),
    ensures
        tab.wf((split + 1) as u64),
        forall|id: u64| #[trigger] tab.has(id) == (target.has(id) || incoming.has(id)),
{
    let bound = (split + 1) as u64;
    let node = target.panes.root;
    let other = incoming.panes.root;
    let pane = target.current();
    assert forall|id: u64| #[trigger] tab.has(id) == (target.has(id) || incoming.has(id)) by {
        lemma_shared_has(node, pane, split, axis, other, id);
    }
    lemma_below(node, split, bound);
    lemma_below(other, split, bound);
    lemma_shared_below(node, pane, split, axis, other, bound);
    shares_always_fit(node, pane, split, axis, other);
    lemma_place(node, pane);
    sharing_adds_panes_behind(node, pane, split, axis, other);
    let place = place_in(node, pane);
    let leaves = tab.panes.panes();
    let a = node.leaves();
    let b = other.leaves();
    assert(leaves =~= a.take(place + 1) + b + a.skip(place + 1));
    assert forall|i: int, j: int| 0 <= i < j < leaves.len() implies (#[trigger] leaves[i]).0 != (
    #[trigger] leaves[j]).0 by {
        let i_in_b = place + 1 <= i < place + 1 + b.len();
        let j_in_b = place + 1 <= j < place + 1 + b.len();
        let k = if i <= place {
            i
        } else if i_in_b {
            i - place - 1
        } else {
            i - b.len()
        };
        let l = if j <= place {
            j
        } else if j_in_b {
            j - place - 1
        } else {
            j - b.len()
        };
        assert(leaves[i] == if i_in_b {
            b[k]
        } else {
            a[k]
        });
        assert(leaves[j] == if j_in_b {
            b[l]
        } else {
            a[l]
        });
        if i_in_b != j_in_b {
            if i_in_b {
                lemma_listed(other, k);
                lemma_listed(node, l);
                assert(!(target.has(a[l].0) && incoming.has(a[l].0)));
            } else {
                lemma_listed(node, k);
                lemma_listed(other, l);
                assert(!(target.has(a[k].0) && incoming.has(a[k].0)));
            }
        }
    }
}

/// Merging a tab into another keeps all tabs sound and apart.
proof fn lemma_merged(before: Workspace, after: Workspace, source: int, place: int)
    requires
        before.wf(),
        0 <= source < before.tabs@.len(),
        source != before.active,
        before.active < before.tabs@.len(),
        place == if source < before.active {
            before.active - 1
        } else {
            before.active as int
        },
        after.tabs@ == before.tabs@.remove(source).update(place, after.tabs@[place]),
        after.tabs@[place].wf(after.next_id),
        forall|id: u64| #[trigger]
            after.tabs@[place].has(id) == (before.tabs@[before.active as int].has(id) || before.tabs@[source].has(id)),
        after.active == place,
        before.next_id <= after.next_id,
        after.same_overlays(before),
    ensures
        after.wf(),
{
    let tabs = after.tabs@;
    assert forall|i: int| 0 <= i < tabs.len() implies (#[trigger] tabs[i]).wf(after.next_id) by {
        if i != place {
            let k = if i < source {
                i
            } else {
                i + 1
            };
            assert(tabs[i] == before.tabs@[k]);
            lemma_below(tabs[i].panes.root, before.next_id, after.next_id);
        }
    }
    assert forall|i: int, j: int| 0 <= i < j < tabs.len() implies (#[trigger] tabs[i]).apart(
        #[trigger] tabs[j],
    ) by {
        let k = if i < source {
            i
        } else {
            i + 1
        };
        let l = if j < source {
            j
        } else {
            j + 1
        };
        assert(i != place ==> tabs[i] == before.tabs@[k]);
        assert(j != place ==> tabs[j] == before.tabs@[l]);
        assert forall|id: u64| !(#[trigger] tabs[i].has(id) && tabs[j].has(id)) by {
            lemma_apart(before, k, l, id);
            lemma_apart(before, k, source, id);
            lemma_apart(before, l, source, id);
        }
    }
}

proof fn lemma_apart(workspace: Workspace, i: int, j: int, id: u64)
    requires
        workspace.wf(),
        0 <= i < workspace.tabs@.len(),
        0 <= j < workspace.tabs@.len(),
    ensures
        i != j ==> !(workspace.tabs@[i].has(id) && workspace.tabs@[j].has(id)),
{
    if i < j {
        assert(workspace.tabs@[i].apart(workspace.tabs@[j]));
    } else if j < i {
        assert(workspace.tabs@[j].apart(workspace.tabs@[i]));
        assert(!(workspace.tabs@[j].has(id) && workspace.tabs@[i].has(id)));
    }
}

/// Splitting the active pane keeps all tabs sound and apart.
proof fn lemma_split(before: Workspace, after: Workspace, axis: Axis, session: u64)
    requires
        before.wf(),
        before.has_room(),
        before.tabs@.len() > 0,
        after.next_id == before.next_id + 2,
        after.active == before.active,
        after.same_overlays(before),
        after.tabs@ == before.tabs@.update(
            before.active as int,
            SessionTab {
                panes: PaneTree {
                    root: before.tabs@[before.active as int].panes.root.shared(
                        before.tabs@[before.active as int].current(),
                        before.next_id,
                        axis,
                        PaneNode::Leaf { id: (before.next_id + 1) as u64, session },
                    ),
                },
                active_pane: (before.next_id + 1) as u64,
            },
        ),
    ensures
        after.wf(),
{
    let place = before.active as int;
    let old_tab = before.tabs@[place];
    let tab = after.tabs@[place];
    let node = old_tab.panes.root;
    let split = before.next_id;
    let pane = (split + 1) as u64;
    let leaf = PaneNode::Leaf { id: pane, session };
    let at = place_in(node, old_tab.current());
    assert forall|id: u64| #[trigger] tab.has(id) == (old_tab.has(id) || id == pane) by {
        lemma_shared_has(node, old_tab.current(), split, axis, leaf, id);
    }
    lemma_below(node, split, after.next_id);
    lemma_shared_below(node, old_tab.current(), split, axis, leaf, after.next_id);
    shares_always_fit(node, old_tab.current(), split, axis, leaf);
    lemma_place(node, old_tab.current());
    sharing_adds_panes_behind(node, old_tab.current(), split, axis, leaf);
    let a = node.leaves();
    let leaves = tab.panes.panes();
    assert(leaves =~= a.take(at + 1) + seq![(pane, session)] + a.skip(at + 1));
    assert forall|i: int, j: int| 0 <= i < j < leaves.len() implies (#[trigger] leaves[i]).0 != (
    #[trigger] leaves[j]).0 by {
        let k = if i <= at {
            i
        } else {
            i - 1
        };
        let l = if j <= at {
            j
        } else {
            j - 1
        };
        if i != at + 1 {
            assert(leaves[i] == a[k]);
            lemma_listed(node, k);
            lemma_not_yet(node, split, pane);
        }
        if j != at + 1 {
            assert(leaves[j] == a[l]);
            lemma_listed(node, l);
            lemma_not_yet(node, split, pane);
        }
    }
    assert(tab.wf(after.next_id));
    let tabs = after.tabs@;
    assert forall|i: int| 0 <= i < tabs.len() implies (#[trigger] tabs[i]).wf(after.next_id) by {
        if i != place {
            assert(tabs[i] == before.tabs@[i]);
            lemma_below(tabs[i].panes.root, split, after.next_id);
        }
    }
    assert forall|i: int, j: int| 0 <= i < j < tabs.len() implies (#[trigger] tabs[i]).apart(
        #[trigger] tabs[j],
    ) by {
        assert forall|id: u64| !(#[trigger] tabs[i].has(id) && tabs[j].has(id)) by {
            lemma_apart(before, i, j, id);
            lemma_not_yet(before.tabs@[i].panes.root, split, pane);
            lemma_not_yet(before.tabs@[j].panes.root, split, pane);
        }
    }
}

/// Breaking a pane out keeps all tabs sound and apart.
proof fn lemma_broken_out(before: Workspace, after: Workspace, session: u64)
    requires
        before.wf(),
        before.has_room(),
        breakable(before),
        after.next_id == before.next_id + 1,
        after.active == before.active + 1,
        after.same_overlays(before),
        after.tabs@ == before.tabs@.update(
            before.active as int,
            before.tabs@[before.active as int].without(before.tabs@[before.active as int].current()),
        ).insert(before.active + 1, single_tab(before.next_id, session)),
    ensures
        after.wf(),
{
    let place = before.active as int;
    let old_tab = before.tabs@[place];
    let fresh = before.next_id;
    let pane = old_tab.current();
    lemma_without(old_tab.panes.root, pane);
    lemma_tab_without(old_tab, pane, before.next_id);
    lemma_single(fresh, session, after.next_id);
    let tabs = after.tabs@;
    assert forall|i: int| 0 <= i < tabs.len() implies (#[trigger] tabs[i]).wf(after.next_id) by {
        if i == place {
            lemma_below(tabs[i].panes.root, fresh, after.next_id);
        } else if i != place + 1 {
            let k = if i < place {
                i
            } else {
                i - 1
            };
            assert(tabs[i] == before.tabs@[k]);
            lemma_below(tabs[i].panes.root, fresh, after.next_id);
        }
    }
    assert forall|i: int, j: int| 0 <= i < j < tabs.len() implies (#[trigger] tabs[i]).apart(
        #[trigger] tabs[j],
    ) by {
        let k = if i <= place {
            i
        } else {
            i - 1
        };
        let l = if j <= place {
            j
        } else {
            j - 1
        };
        assert forall|id: u64| !(#[trigger] tabs[i].has(id) && tabs[j].has(id)) by {
            lemma_apart(before, k, l, id);
            lemma_not_yet(before.tabs@[k].panes.root, fresh, fresh);
            lemma_not_yet(before.tabs@[l].panes.root, fresh, fresh);
            assert(i != place && i != place + 1 ==> tabs[i] == before.tabs@[k]);
            assert(j != place && j != place + 1 ==> tabs[j] == before.tabs@[l]);
            assert(tabs[place] == old_tab.without(pane));
            assert(tabs[place + 1] == single_tab(fresh, session));
            if i == place {
                assert(old_tab.without(pane).has(id) ==> old_tab.has(id));
            }
            if j == place {
                assert(old_tab.without(pane).has(id) ==> old_tab.has(id));
            }
        }
    }
}

proof fn lemma_sessions_take_out(tabs: Seq<SessionTab>, index: int)
    requires
        0 <= index < tabs.len(),
    ensures
        all_sessions(tabs).to_multiset() == all_sessions(tabs.remove(index)).to_multiset().add(
            sessions_of(tabs[index].panes.panes()).to_multiset(),
        ),
    decreases tabs.len(),
{
    let last = sessions_of(tabs.last().panes.panes());
    let front = tabs.drop_last();
    vstd::seq_lib::lemma_multiset_commutative(all_sessions(front), last);
    if index == tabs.len() - 1 {
        assert(tabs.remove(index) =~= front);
    } else {
        lemma_sessions_take_out(front, index);
        assert(tabs.remove(index).drop_last() =~= front.remove(index));
        vstd::seq_lib::lemma_multiset_commutative(all_sessions(front.remove(index)), last);
        assert(all_sessions(tabs).to_multiset() =~= all_sessions(tabs.remove(index)).to_multiset().add(
            sessions_of(tabs[index].panes.panes()).to_multiset(),
        ));
    }
}

/// Merging a tab into another ends no session and starts none.
pub proof fn merging_keeps_every_session(before: Workspace, after: Workspace, source: usize, axis: Axis, split: u64)
    requires
        before.wf(),
        source < before.tabs@.len(),
        source != before.active,
        before.active < before.tabs@.len(),
        after.tabs@ == before.tabs@.remove(source as int).update(
            if source < before.active {
                before.active - 1
            } else {
                before.active as int
            },
            SessionTab {
                panes: PaneTree {
                    root: before.tabs@[before.active as int].panes.root.shared(
                        before.tabs@[before.active as int].current(),
                        split,
                        axis,
                        before.tabs@[source as int].panes.root,
                    ),
                },
                active_pane: before.tabs@[source as int].current(),
            },
        ),
    ensures
        all_sessions(after.tabs@).to_multiset() == all_sessions(before.tabs@).to_multiset(),
{
    let place = if source < before.active {
        before.active - 1
    } else {
        before.active as int
    };
    let target = before.tabs@[before.active as int];
    let incoming = before.tabs@[source as int];
    let tabs = before.tabs@.remove(source as int);
    assert(tabs[place] == target);
    lemma_sessions_take_out(before.tabs@, source as int);
    lemma_sessions_take_out(tabs, place);
    lemma_sessions_take_out(after.tabs@, place);
    assert(after.tabs@.remove(place) =~= tabs.remove(place));
    let node = target.panes.root;
    let pane = target.current();
    lemma_place(node, pane);
    sharing_adds_panes_behind(node, pane, split, axis, incoming.panes.root);
    let at = place_in(node, pane);
    let a = sessions_of(node.leaves());
    let b = sessions_of(incoming.panes.panes());
    let joined = sessions_of(after.tabs@[place].panes.panes());
    assert(joined =~= a.take(at + 1) + b + a.skip(at + 1));
    vstd::seq_lib::lemma_multiset_commutative(a.take(at + 1) + b, a.skip(at + 1));
    vstd::seq_lib::lemma_multiset_commutative(a.take(at + 1), b);
    vstd::seq_lib::lemma_multiset_commutative(a.take(at + 1), a.skip(at + 1));
    assert(a =~= a.take(at + 1) + a.skip(at + 1));
    assert(joined.to_multiset() =~= a.to_multiset().add(b.to_multiset()));
    assert(all_sessions(after.tabs@).to_multiset() =~= all_sessions(before.tabs@).to_multiset());
}

/// Breaking a pane out ends no session and starts none.
pub proof fn breaking_out_keeps_every_session(before: Workspace, after: Workspace)
    requires
        before.wf(),
        breakable(before),
        after.tabs@ == before.tabs@.update(
            before.active as int,
            before.tabs@[before.active as int].without(before.tabs@[before.active as int].current()),
        ).insert(
            before.active + 1,
            single_tab(before.next_id, before.tabs@[before.active as int].session()),
        ),
    ensures
        all_sessions(after.tabs@).to_multiset() == all_sessions(before.tabs@).to_multiset(),
{
    let place = before.active as int;
    let tab = before.tabs@[place];
    let pane = tab.current();
    let node = tab.panes.root;
    lemma_without(node, pane);
    lemma_place(node, pane);
    removing_keeps_the_others(node, pane);
    let at = place_in(node, pane);
    let shrunk = before.tabs@.update(place, tab.without(pane));
    assert(after.tabs@.remove(place + 1) =~= shrunk);
    assert(shrunk.remove(place) =~= before.tabs@.remove(place));
    lemma_sessions_take_out(after.tabs@, place + 1);
    lemma_sessions_take_out(shrunk, place);
    lemma_sessions_take_out(before.tabs@, place);
    let a = sessions_of(node.leaves());
    let rest = sessions_of(tab.without(pane).panes.panes());
    let one = sessions_of(single_tab(before.next_id, tab.session()).panes.panes());
    assert(rest =~= a.take(at) + a.skip(at + 1));
    assert(one =~= seq![a[at]]);
    assert(a =~= a.take(at) + seq![a[at]] + a.skip(at + 1));
    vstd::seq_lib::lemma_multiset_commutative(a.take(at), a.skip(at + 1));
    vstd::seq_lib::lemma_multiset_commutative(a.take(at) + seq![a[at]], a.skip(at + 1));
    vstd::seq_lib::lemma_multiset_commutative(a.take(at), seq![a[at]]);
    assert(a.to_multiset() =~= rest.to_multiset().add(one.to_multiset()));
    assert(all_sessions(after.tabs@).to_multiset() =~= all_sessions(before.tabs@).to_multiset());
}

/// Breaking a pane out is the reverse of merging it in: the tab it was merged into
/// has the panes it had, divided as they were.
pub proof fn breaking_out_undoes_merging(target: SessionTab, axis: Axis, split: u64, pane: u64, session: u64)
    requires
        target.has(target.active_pane),
        !target.has(pane),
    ensures
        (SessionTab {
            panes: PaneTree {
                root: target.panes.root.shared(
                    target.current(),
                    split,
                    axis,
                    PaneNode::Leaf { id: pane, session },
                ),
            },
            active_pane: pane,
        }).without(pane).panes == target.panes,
{
    closing_undoes_splitting(target.panes.root, target.current(), split, axis, pane, session);
}

/// Splitting divides the active pane along the axis that was asked for, in two halves:
/// the pane that was there, and behind it a new one that shows the new session and has
/// the keyboard. All other tabs and panes stay as they are.
pub proof fn splitting_shows_the_new_session_beside_the_old(
    before: Workspace,
    after: Workspace,
    effects: WorkspaceEffectsView,
    axis: Axis,
    session: u64,
)
    requires
        before.wf(),
        before.has_room(),
        before.tabs@.len() > 0,
        pane_split(before, after, effects, axis, session),
    ensures
        ({
            let old_tab = before.tabs@[before.active as int];
            let new_tab = after.tabs@[after.active as int];
            let place = place_in(old_tab.panes.root, old_tab.active_pane);
            &&& after.active == before.active
            &&& after.tabs@.len() == before.tabs@.len()
            &&& forall|i: int|
                0 <= i < before.tabs@.len() && i != before.active ==> #[trigger] after.tabs@[i] == before.tabs@[i]
            &&& old_tab.panes.panes()[place].0 == old_tab.active_pane
            &&& new_tab.panes.panes().len() == old_tab.panes.panes().len() + 1
            &&& new_tab.panes.panes()[place] == old_tab.panes.panes()[place]
            &&& new_tab.panes.panes()[place + 1] == (new_tab.active_pane, session)
            &&& new_tab.panes.root.splits().to_multiset() == old_tab.panes.root.splits().to_multiset().insert(
                (before.next_id, axis, 500_000u32),
            )
            &&& effects.focus == Some(Focus::Session(session))
            &&& effects.ended == Seq::<u64>::empty()
            &&& effects.notify
        }),
{
    broadcast use vstd::seq_lib::group_to_multiset_ensures;

    let old_tab = before.tabs@[before.active as int];
    let pane = (before.next_id + 1) as u64;
    let leaf = PaneNode::Leaf { id: pane, session };
    let root = old_tab.panes.root;
    let new_tab = after.tabs@[after.active as int];
    let place = place_in(root, old_tab.active_pane);
    assert(old_tab.wf(before.next_id));
    lemma_place(root, old_tab.active_pane);
    lemma_not_yet(root, before.next_id, pane);
    lemma_place(root, pane);
    sharing_adds_panes_behind(root, old_tab.active_pane, before.next_id, axis, leaf);
    splitting_adds_one_split(root, old_tab.active_pane, before.next_id, axis, leaf);
    assert(leaf.splits().to_multiset() =~= vstd::multiset::Multiset::empty());
    assert(new_tab.panes.root.splits().to_multiset() =~= root.splits().to_multiset().insert(
        (before.next_id, axis, 500_000u32),
    ));
    lemma_shared_has(root, old_tab.active_pane, before.next_id, axis, leaf, pane);
    let leaves = new_tab.panes.panes();
    panes_are_found_where_they_are(leaves, pane, true);
    panes_are_found_where_they_are(root.leaves(), pane, true);
    panes_are_found_where_they_are(root.leaves(), old_tab.active_pane, true);
    lemma_place(new_tab.panes.root, pane);
    assert(leaves[place + 1] == (pane, session));
    let found = place_of(leaves, pane)->0;
    if found <= place {
        assert(leaves[found] == root.leaves()[found]);
    } else {
        assert(found == place + 1);
    }
}

/// A tab that is merged in leaves the strip and comes to lie beside the active pane,
/// along the axis that was asked for: behind that pane come all its panes. The merged
/// tab is the active one, and the keyboard goes where it was in the tab that moved.
pub proof fn merging_lays_a_tab_beside_the_active_pane(
    before: Workspace,
    after: Workspace,
    effects: WorkspaceEffectsView,
    source: usize,
    axis: Axis,
    size: (u16, u16),
)
    requires
        before.wf(),
        before.has_room(),
        source < before.tabs@.len(),
        source != before.active,
        axis is Horizontal ==> size.0 >= 40,
        axis is Vertical ==> size.1 >= 12,
        tab_merged(before, after, effects, source, axis, size),
    ensures
        ({
            let target = before.tabs@[before.active as int];
            let incoming = before.tabs@[source as int];
            let tab = after.tabs@[after.active as int];
            let place = place_in(target.panes.root, target.active_pane);
            &&& after.tabs@.len() == before.tabs@.len() - 1
            &&& tab.panes.panes() == target.panes.panes().take(place + 1) + incoming.panes.panes()
                + target.panes.panes().skip(place + 1)
            &&& tab.panes.root.splits().to_multiset() == target.panes.root.splits().to_multiset().add(
                incoming.panes.root.splits().to_multiset(),
            ).insert((before.next_id, axis, 500_000u32))
            &&& tab.active_pane == incoming.active_pane
            &&& effects.ended == Seq::<u64>::empty()
            &&& effects.reveal == Some(after.active)
            &&& effects.notify
        }),
{
    let target = before.tabs@[before.active as int];
    let incoming = before.tabs@[source as int];
    assert(target.wf(before.next_id));
    assert(incoming.wf(before.next_id));
    sharing_adds_panes_behind(
        target.panes.root,
        target.active_pane,
        before.next_id,
        axis,
        incoming.panes.root,
    );
    splitting_adds_one_split(
        target.panes.root,
        target.active_pane,
        before.next_id,
        axis,
        incoming.panes.root,
    );
}

/// A pane can be split side by side from forty columns on, and one above the other from
/// twelve rows on. A tab is not merged into itself, nor one that is not there.
pub proof fn small_panes_are_not_split(workspace: Workspace, source: usize, axis: Axis, size: (u16, u16))
    ensures
        splittable(Axis::Horizontal, size) <==> size.0 >= 40,
        splittable(Axis::Vertical, size) <==> size.1 >= 12,
        mergeable(workspace, source, axis, size) <==> source < workspace.tabs@.len() && source != workspace.active
            && splittable(axis, size),
{
}

/// Closing a tab ends its sessions and no others. The tab that was active stays so,
/// wherever it moves to; when it is the one that went, the tab behind it takes its
/// place, or the last one.
pub proof fn closing_keeps_the_active_tab(
    before: Workspace,
    after: Workspace,
    effects: WorkspaceEffectsView,
    index: usize,
    i: int,
)
    requires
        before.wf(),
        index < before.tabs@.len(),
        tab_closed(before, after, effects, index),
        0 <= i < before.tabs@[index as int].panes.panes().len(),
    ensures
        after.tabs@.len() == before.tabs@.len() - 1,
        forall|k: int| 0 <= k < index ==> #[trigger] after.tabs@[k] == before.tabs@[k],
        forall|k: int| index < k < before.tabs@.len() ==> after.tabs@[k - 1] == #[trigger] before.tabs@[k],
        index != before.active ==> after.tabs@[after.active as int] == before.tabs@[before.active as int],
        index == before.active && index + 1 < before.tabs@.len() ==> after.tabs@[after.active as int]
            == before.tabs@[index + 1],
        index == before.active && index + 1 == before.tabs@.len() && index > 0 ==> after.tabs@[after.active as int]
            == before.tabs@[index - 1],
        effects.ended.len() == before.tabs@[index as int].panes.panes().len(),
        effects.ended[i] == before.tabs@[index as int].panes.panes()[i].1,
        after.tabs@.len() == 0 ==> effects.focus == Some(Focus::Workspace) && effects.reveal is None,
        after.tabs@.len() > 0 ==> effects.reveal == Some(after.active),
        effects.notify,
{
}

/// Removing one of several panes ends its session alone and leaves the other panes of
/// the tab in their order. The keyboard moves only when the tab was the active one.
pub proof fn removing_a_pane_ends_its_session(
    before: Workspace,
    after: Workspace,
    effects: WorkspaceEffectsView,
    index: usize,
    i: int,
)
    requires
        before.wf(),
        index < before.tabs@.len(),
        0 <= i < before.tabs@[index as int].panes.panes().len(),
        pane_removed(before, after, effects, index, before.tabs@[index as int].panes.panes()[i].0),
    ensures
        ({
            let tab = before.tabs@[index as int];
            let panes = tab.panes.panes();
            &&& effects.ended == seq![panes[i].1]
            &&& panes.len() == 1 ==> after.tabs@ == before.tabs@.remove(index as int)
            &&& panes.len() > 1 ==> {
                let rest = after.tabs@[index as int];
                &&& after.tabs@.len() == before.tabs@.len()
                &&& rest.panes.panes() == panes.remove(i)
                &&& tab.active_pane != panes[i].0 ==> rest.active_pane == tab.active_pane
                &&& tab.active_pane == panes[i].0 && i + 1 < panes.len() ==> rest.active_pane == panes[i + 1].0
                &&& tab.active_pane == panes[i].0 && i + 1 == panes.len() ==> rest.active_pane == panes[0].0
                &&& effects.focus is Some <==> index == before.active
                &&& effects.focus is Some ==> effects.focus == Some(Focus::Session(rest.session()))
            }
            &&& effects.notify
        }),
{
    let tab = before.tabs@[index as int];
    let panes = tab.panes.panes();
    let root = tab.panes.root;
    let pane = panes[i].0;
    assert(tab.wf(before.next_id));
    lemma_listed(root, i);
    lemma_place(root, pane);
    panes_are_found_where_they_are(panes, pane, true);
    assert(place_in(root, pane) == i) by {
        let place = place_in(root, pane);
        assert(panes[place].0 == panes[i].0);
    }
    lemma_leaves(root);
    lemma_without(root, pane);
    if panes.len() == 1 {
        assert(sessions_of(panes) =~= seq![panes[i].1]);
    } else {
        removing_keeps_the_others(root, pane);
        lemma_tab_without(tab, pane, before.next_id);
        the_focus_moves_in_the_order_of_the_panes(panes, i);
        let rest = (root.without(pane)->0).leaves();
        let next = if i + 1 < panes.len() {
            i + 1
        } else {
            0
        };
        lemma_listed(root, next);
        assert(panes[next].0 != pane);
        assert(tab.without(pane).has(panes[next].0));
        assert(tab.without(pane).has(tab.active_pane) == (tab.active_pane != pane));
    }
}

/// The pane that shows a session is the first that does, in the first tab that has one,
/// and none is found where none does.
pub proof fn sessions_are_found_where_they_are_shown(tabs: Seq<SessionTab>, session: u64, tab: int, pane: int)
    requires
        0 <= tab < tabs.len(),
        0 <= pane < tabs[tab].panes.panes().len(),
    ensures
        match tab_showing(tabs, session) {
            Some((index, id)) => {
                &&& 0 <= index < tabs.len()
                &&& pane_showing(tabs[index].panes.panes(), session) == Some(id)
                &&& tabs[tab].panes.panes()[pane].1 == session ==> index <= tab
            },
            None => tabs[tab].panes.panes()[pane].1 != session,
        },
        match pane_showing(tabs[tab].panes.panes(), session) {
            Some(id) => exists|k: int|
                0 <= k < tabs[tab].panes.panes().len() && #[trigger] tabs[tab].panes.panes()[k] == (id, session),
            None => tabs[tab].panes.panes()[pane].1 != session,
        },
    decreases tabs.len(),
{
    lemma_pane_showing(tabs[tab].panes.panes(), session, pane);
    if pane_showing(tabs[0].panes.panes(), session) is None && tab > 0 {
        let rest = tabs.drop_first();
        sessions_are_found_where_they_are_shown(rest, session, tab - 1, pane);
        match tab_showing(rest, session) {
            Some((index, id)) => {
                assert(rest[index] == tabs[index + 1]);
            },
            None => {},
        }
    } else if tab == 0 {
        match tab_showing(tabs.drop_first(), session) {
            Some((index, id)) => {
                lemma_tab_showing(tabs.drop_first(), session);
                assert(tabs.drop_first()[index] == tabs[index + 1]);
            },
            None => {},
        }
    }
}

proof fn lemma_tab_showing(tabs: Seq<SessionTab>, session: u64)
    ensures
        tab_showing(tabs, session) matches Some((index, id)) ==> 0 <= index < tabs.len() && pane_showing(
            tabs[index].panes.panes(),
            session,
        ) == Some(id),
    decreases tabs.len(),
{
    if tabs.len() > 0 && pane_showing(tabs[0].panes.panes(), session) is None {
        let rest = tabs.drop_first();
        lemma_tab_showing(rest, session);
        match tab_showing(rest, session) {
            Some((index, id)) => {
                assert(rest[index] == tabs[index + 1]);
            },
            None => {},
        }
    }
}

proof fn lemma_pane_showing(leaves: Seq<(u64, u64)>, session: u64, pane: int)
    requires
        0 <= pane < leaves.len(),
    ensures
        match pane_showing(leaves, session) {
            Some(id) => exists|k: int| 0 <= k < leaves.len() && #[trigger] leaves[k] == (id, session),
            None => leaves[pane].1 != session,
        },
    decreases leaves.len(),
{
    if leaves[0].1 == session {
        assert(leaves[0] == (leaves[0].0, session));
    } else {
        let rest = leaves.drop_first();
        if pane > 0 {
            assert(rest[pane - 1] == leaves[pane]);
            lemma_pane_showing(rest, session, pane - 1);
        } else if rest.len() > 0 {
            lemma_pane_showing(rest, session, 0);
            if pane_showing(rest, session) is None {
                assert(leaves[pane].1 != session);
            }
        }
        if let Some(id) = pane_showing(rest, session) {
            let k = choose|k: int| 0 <= k < rest.len() && #[trigger] rest[k] == (id, session);
            assert(leaves[k + 1] == (id, session));
        }
    }
}

/// The keyboard belongs to the session of the active pane of the active tab, and to the
/// workspace while there is no tab; showing a tab scrolls to it, focuses it and draws
/// the window.
pub proof fn the_active_pane_has_the_keyboard(workspace: Workspace)
    requires
        workspace.wf(),
    ensures
        workspace.tabs@.len() == 0 ==> workspace.focus_target() is Workspace && workspace.shown().reveal is None,
        workspace.tabs@.len() > 0 ==> {
            let tab = workspace.tabs@[workspace.active as int];
            &&& workspace.shown().reveal == Some(workspace.active)
            &&& workspace.focus_target() matches Focus::Session(session)
            &&& tab.panes.panes().contains((tab.active_pane, session))
        },
        workspace.shown().focus == Some(workspace.focus_target()),
        workspace.shown().notify,
        workspace.shown().ended.len() == 0,
        nothing().ended.len() == 0 && nothing().reveal is None && nothing().focus is None && !nothing().notify,
{
    if workspace.tabs@.len() > 0 {
        let tab = workspace.tabs@[workspace.active as int];
        assert(tab.wf(workspace.next_id));
        lemma_place(tab.panes.root, tab.active_pane);
        panes_are_found_where_they_are(tab.panes.panes(), tab.active_pane, true);
        assert(tab.panes.panes()[place_in(tab.panes.root, tab.active_pane)].0 == tab.active_pane);
    }
}

/// A session that is adopted gets the last tab, which is the active one and shows it
/// alone.
pub proof fn an_adopted_session_is_shown(
    before: Workspace,
    after: Workspace,
    effects: WorkspaceEffectsView,
    session: u64,
)
    requires
        session_adopted(before, after, effects, session),
        before.tabs@.len() <= usize::MAX,
    ensures
        after.tabs@.len() == before.tabs@.len() + 1,
        forall|i: int| 0 <= i < before.tabs@.len() ==> #[trigger] after.tabs@[i] == before.tabs@[i],
        after.active == before.tabs@.len(),
        after.tabs@.last().panes.panes() == seq![(before.next_id, session)],
        after.tabs@.last().active_pane == before.next_id,
        effects.focus == Some(Focus::Session(session)),
        effects.reveal == Some(after.active),
        effects.ended.len() == 0 && effects.notify,
{
    let tab = single_tab(before.next_id, session);
    assert(after.tabs@.last() == tab);
    assert(after.tabs@[after.active as int] == tab);
    assert(tab.panes.panes() =~= seq![(before.next_id, session)]);
    lemma_place(tab.panes.root, before.next_id);
    panes_are_found_where_they_are(tab.panes.panes(), before.next_id, true);
}

/// Breaking a pane out ends no session: it moves into a tab behind the one it was in,
/// which is the active one, and the panes that stay keep their order.
pub proof fn a_pane_that_breaks_out_gets_the_next_tab(
    before: Workspace,
    after: Workspace,
    effects: WorkspaceEffectsView,
)
    requires
        before.wf(),
        before.has_room(),
        before.tabs@.len() > 0,
        before.tabs@[before.active as int].panes.panes().len() > 1,
        pane_broken_out(before, after, effects),
    ensures
        ({
            let tab = before.tabs@[before.active as int];
            let place = place_in(tab.panes.root, tab.active_pane);
            &&& after.tabs@.len() == before.tabs@.len() + 1
            &&& after.active == before.active + 1
            &&& after.tabs@[before.active as int].panes.panes() == tab.panes.panes().remove(place)
            &&& after.tabs@[before.active + 1].panes.panes() == seq![(before.next_id, tab.panes.panes()[place].1)]
            &&& effects.focus == Some(Focus::Session(tab.panes.panes()[place].1))
            &&& effects.ended.len() == 0
        }),
{
    let tab = before.tabs@[before.active as int];
    let root = tab.panes.root;
    assert(tab.wf(before.next_id));
    lemma_leaves(root);
    lemma_place(root, tab.active_pane);
    lemma_without(root, tab.active_pane);
    removing_keeps_the_others(root, tab.active_pane);
    let single = single_tab(before.next_id, tab.session());
    assert(after.tabs@[before.active + 1] == single);
    assert(single.panes.panes() =~= seq![(before.next_id, tab.session())]);
    lemma_place(single.panes.root, before.next_id);
    panes_are_found_where_they_are(single.panes.panes(), before.next_id, true);
}

/// The keyboard goes to the next pane in the order of the panes, and from the last to
/// the first; backward it goes the other way. An unsplit tab keeps it.
pub proof fn the_keyboard_goes_round_the_panes(
    before: Workspace,
    after: Workspace,
    effects: WorkspaceEffectsView,
    forward: bool,
    i: int,
)
    requires
        before.wf(),
        before.tabs@.len() > 0,
        0 <= i < before.tabs@[before.active as int].panes.panes().len(),
        before.tabs@[before.active as int].panes.panes()[i].0 == before.tabs@[before.active as int].active_pane,
        cycled(before, after, effects, forward),
    ensures
        ({
            let panes = before.tabs@[before.active as int].panes.panes();
            let tab = after.tabs@[before.active as int];
            &&& panes.len() == 1 ==> after == before && effects.focus is None && !effects.notify
            &&& panes.len() > 1 ==> tab.panes == before.tabs@[before.active as int].panes && effects.notify
            &&& panes.len() > 1 && forward && i + 1 < panes.len() ==> tab.active_pane == panes[i + 1].0
            &&& panes.len() > 1 && forward && i + 1 == panes.len() ==> tab.active_pane == panes[0].0
            &&& panes.len() > 1 && !forward && i > 0 ==> tab.active_pane == panes[i - 1].0
            &&& panes.len() > 1 && !forward && i == 0 ==> tab.active_pane == panes[panes.len() - 1].0
            &&& panes.len() > 1 ==> effects.focus == Some(Focus::Session(tab.session()))
        }),
{
    let tab = before.tabs@[before.active as int];
    assert(tab.wf(before.next_id));
    the_focus_moves_in_the_order_of_the_panes(tab.panes.panes(), i);
}

/// Focusing a session makes its pane the active one of its tab, and no other tab is
/// touched; selecting a tab makes it the active one.
pub proof fn focusing_and_selecting_move_one_thing(
    before: Workspace,
    after: Workspace,
    effects: WorkspaceEffectsView,
    session: u64,
    index: usize,
    k: int,
)
    requires
        0 <= k < before.tabs@.len(),
    ensures
        pane_focused(before, after, effects, session) ==> {
            &&& after.active == before.active
            &&& after.tabs@[k].panes == before.tabs@[k].panes
            &&& tab_showing(before.tabs@, session) matches Some((at, pane)) ==> (k == at ==> after.tabs@[k].active_pane
                == pane) && (k != at ==> after.tabs@[k] == before.tabs@[k])
            &&& effects.focus is None && effects.reveal is None && effects.ended.len() == 0
        },
        tab_selected(before, after, effects, index) && index < before.tabs@.len() ==> {
            &&& after.active == index
            &&& after.tabs == before.tabs
            &&& effects.reveal == Some(index)
            &&& effects.focus == Some(Focus::Session(before.tabs@[index as int].session()))
        },
{
    lemma_tab_showing(before.tabs@, session);
}

/// Dragging a divider moves that divider of the active tab and no pane.
pub proof fn dragging_moves_no_pane(
    before: Workspace,
    after: Workspace,
    effects: WorkspaceEffectsView,
    split: u64,
    share: u32,
)
    requires
        before.wf(),
        before.tabs@.len() > 0,
        before.tabs@[before.active as int].panes.root.has_split(split),
        divider_dragged(before, after, effects, split, Some(share)),
    ensures
        after.tabs@.len() == before.tabs@.len(),
        forall|i: int|
            0 <= i < before.tabs@.len() && i != before.active ==> #[trigger] after.tabs@[i] == before.tabs@[i],
        after.tabs@[before.active as int].panes.panes() == before.tabs@[before.active as int].panes.panes(),
        after.tabs@[before.active as int].active_pane == before.tabs@[before.active as int].active_pane,
        after.tabs@[before.active as int].panes.root == before.tabs@[before.active as int].panes.root.divided(
            split,
            (if share < 100_000 {
                100_000
            } else if share > 900_000 {
                900_000
            } else {
                share
            }),
        ),
        effects.notify && effects.focus is None,
{
    dividers_move_no_panes(before.tabs@[before.active as int].panes.root, split, share);
    dividers_stop_at_a_tenth(share);
}

/// The sessions of the workspace are those of all panes of all tabs, tab by tab.
pub proof fn sessions_are_listed_tab_by_tab(tabs: Seq<SessionTab>, tab: SessionTab, i: int)
    requires
        0 <= i < tab.panes.panes().len(),
    ensures
        all_sessions(Seq::empty()) == Seq::<u64>::empty(),
        all_sessions(tabs.push(tab)) == all_sessions(tabs) + sessions_of(tab.panes.panes()),
        sessions_of(tab.panes.panes()).len() == tab.panes.panes().len(),
        sessions_of(tab.panes.panes())[i] == tab.panes.panes()[i].1,
{
    assert(tabs.push(tab).drop_last() =~= tabs);
}

} // verus!
