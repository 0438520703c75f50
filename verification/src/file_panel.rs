//! The remote file panel: a browser for the session in the active pane.
//!
//! The panel is one for the whole workspace; what it shows is kept per session, so
//! switching tabs or panes restores what that session was showing instead of
//! asking the server again.
//!
//! Two things drive the panel, and they may disagree: the shell, through the
//! directory it announces, and the user, through clicks in the list. Manual
//! navigation wins until the shell moves again, at which point the panel follows
//! once more.
//!
//! Every request carries the generation of the session it is for: clicking through
//! three directories quickly leaves two listings in flight whose answers must not
//! overwrite the third.
use std::collections::HashMap;
use vstd::prelude::*;

use crate::listing::{
    elide_start, elided, format_size, join, joined, listed, size_text, sort_entries, RemoteEntry,
};
use crate::message::{says, Message, MessageView};
use crate::profile::copy_option;
use crate::text::{copy, decimal, decimal_text, option_text, same, to_chars};
use crate::ui::icons::Icon;
use crate::ui::theme::Slot;

verus! {

broadcast use vstd::std_specs::hash::group_hash_axioms;

/// The row standing for the parent directory.
pub const PARENT_NAME: &'static str = "..";

/// Where one navigation gets its directory from.
#[derive(Debug)]
pub enum Target {
    /// The login directory.
    Home,
    /// A path to canonicalise before listing. This is how `..` is resolved: the
    /// server flattens it.
    Resolve(String),
    /// A path to list exactly as given.
    Exact(String),
}

/// What a [`Target`] names.
pub enum TargetView {
    Home,
    Resolve(Seq<char>),
    Exact(Seq<char>),
}

impl View for Target {
    type V = TargetView;

    open spec fn view(&self) -> TargetView {
        match *self {
            Target::Home => TargetView::Home,
            Target::Resolve(path) => TargetView::Resolve(path@),
            Target::Exact(path) => TargetView::Exact(path@),
        }
    }
}

/// The line along the bottom of the panel. Cleared by the next successful listing,
/// so a failure stays readable until something works.
#[derive(Debug)]
pub enum Notice {
    /// Progress, in the panel's muted text color.
    Info(Message),
    /// A failure, in the danger color.
    Error(Message),
}

/// What a [`Notice`] says.
pub enum NoticeView {
    Info(MessageView),
    Error(MessageView),
}

impl View for Notice {
    type V = NoticeView;

    open spec fn view(&self) -> NoticeView {
        match *self {
            Notice::Info(message) => NoticeView::Info(message@),
            Notice::Error(message) => NoticeView::Error(message@),
        }
    }
}

/// A failure, framed. The detail comes from the server or from the local
/// filesystem and stays as it is.
pub open spec fn failed(error: Seq<char>) -> NoticeView {
    NoticeView::Error(says("files.failed"@).quoting("error"@, error))
}

impl Notice {
    /// Wraps a failure in the sentence that frames it.
    pub fn from_error(error: &str) -> (notice: Notice)
        ensures
            notice@ == failed(error@),
    {
        Notice::Error(Message::new("files.failed").with("error", error))
    }
}

/// What one session is looking at, kept while the session lives.
#[derive(Debug)]
pub struct SessionState {
    /// Directory currently listed. `None` until the first listing lands.
    pub path: Option<String>,
    /// Its entries, directories first and then by name.
    pub entries: Vec<RemoteEntry>,
    /// Name of the selected entry.
    pub selected: Option<String>,
    /// The shell directory the panel last followed.
    pub followed: Option<String>,
    /// Whether the first listing was asked for. A failed one is not retried on
    /// every chunk of terminal output.
    pub attempted: bool,
    /// Bumped by every navigation.
    pub generation: u64,
    /// Whether a listing is in flight.
    pub busy: bool,
    /// The bottom status line.
    pub notice: Option<Notice>,
}

/// What a [`SessionState`] holds.
pub struct StateView {
    pub path: Option<Seq<char>>,
    pub entries: Seq<RemoteEntry>,
    pub selected: Option<Seq<char>>,
    pub followed: Option<Seq<char>>,
    pub attempted: bool,
    pub generation: u64,
    pub busy: bool,
    pub notice: Option<NoticeView>,
}

impl View for SessionState {
    type V = StateView;

    open spec fn view(&self) -> StateView {
        StateView {
            path: option_text(self.path),
            entries: self.entries@,
            selected: option_text(self.selected),
            followed: option_text(self.followed),
            attempted: self.attempted,
            generation: self.generation,
            busy: self.busy,
            notice: match self.notice {
                Some(notice) => Some(notice@),
                None => None,
            },
        }
    }
}

/// A state that has not listed anything yet.
pub open spec fn fresh_state() -> StateView {
    StateView {
        path: None,
        entries: Seq::empty(),
        selected: None,
        followed: None,
        attempted: false,
        generation: 0,
        busy: false,
        notice: None,
    }
}

/// The first entry with that name, if there is one.
pub open spec fn entry_named(entries: Seq<RemoteEntry>, name: Seq<char>) -> Option<RemoteEntry>
    decreases entries.len(),
{
    if entries.len() == 0 {
        None
    } else if entries[0].name@ == name {
        Some(entries[0])
    } else {
        entry_named(entries.drop_first(), name)
    }
}

/// Where the first entry with that name stands.
fn find_entry(entries: &Vec<RemoteEntry>, name: &str) -> (found: Option<usize>)
    ensures
        match found {
            Some(i) => i < entries@.len() && entry_named(entries@, name@) == Some(entries@[i as int]),
            None => entry_named(entries@, name@) is None,
        },
{
    let mut i: usize = 0;
    proof {
        assert(entries@.skip(0) =~= entries@);
    }
    while i < entries.len()
        invariant
            i <= entries@.len(),
            entry_named(entries@, name@) == entry_named(entries@.skip(i as int), name@),
        decreases entries@.len() - i,
    {
        proof {
            assert(entries@.skip(i as int)[0] == entries@[i as int]);
            assert(entries@.skip(i as int).drop_first() =~= entries@.skip(i + 1));
        }
        if same(entries[i].name.as_str(), name) {
            return Some(i);
        }
        i += 1;
    }
    None
}

impl StateView {
    /// The selected entry, if one is selected and still listed.
    pub open spec fn selection(self) -> Option<RemoteEntry> {
        match self.selected {
            Some(name) => entry_named(self.entries, name),
            None => None,
        }
    }

    /// A file is selected.
    pub open spec fn downloadable(self) -> bool {
        self.selection() matches Some(entry) && !entry.is_dir
    }

    /// The generation of the next navigation.
    pub open spec fn next_generation(self) -> u64 {
        if self.generation == u64::MAX {
            0
        } else {
            (self.generation + 1) as u64
        }
    }
}

impl SessionState {
    /// A state that has not listed anything yet.
    pub fn new() -> (state: SessionState)
        ensures
            state@ == fresh_state(),
    {
        SessionState {
            path: None,
            entries: Vec::new(),
            selected: None,
            followed: None,
            attempted: false,
            generation: 0,
            busy: false,
            notice: None,
        }
    }

    /// The selected entry, if one is selected and still listed.
    pub fn selection(&self) -> (entry: Option<&RemoteEntry>)
        ensures
            match entry {
                Some(entry) => self@.selection() == Some(*entry),
                None => self@.selection() is None,
            },
    {
        match &self.selected {
            Some(name) => match find_entry(&self.entries, name.as_str()) {
                Some(i) => Some(&self.entries[i]),
                None => None,
            },
            None => None,
        }
    }

    /// Whether a file is selected.
    fn is_downloadable(&self) -> (can: bool)
        ensures
            can == self@.downloadable(),
    {
        match self.selection() {
            Some(entry) => !entry.is_dir,
            None => false,
        }
    }
}

/// A listing to ask for.
#[derive(Debug)]
pub struct ListRequest {
    /// The session it is for.
    pub session: u64,
    /// To be handed back with the answer.
    pub generation: u64,
    pub target: Target,
}

/// What the owner of the panel has to do.
#[derive(Debug)]
pub struct PanelEffects {
    /// Watch the active session for directory and status changes, and no other.
    pub observe: bool,
    /// Ask for a listing.
    pub request: Option<ListRequest>,
    /// Scroll the list back to its top.
    pub reset_scroll: bool,
    /// Draw the panel anew.
    pub notify: bool,
}

/// What [`PanelEffects`] ask for.
pub struct PanelEffectsView {
    pub observe: bool,
    pub request: Option<(u64, u64, TargetView)>,
    pub reset_scroll: bool,
    pub notify: bool,
}

impl View for PanelEffects {
    type V = PanelEffectsView;

    open spec fn view(&self) -> PanelEffectsView {
        PanelEffectsView {
            observe: self.observe,
            request: match self.request {
                Some(request) => Some((request.session, request.generation, request.target@)),
                None => None,
            },
            reset_scroll: self.reset_scroll,
            notify: self.notify,
        }
    }
}

/// Nothing to do.
pub open spec fn idle() -> PanelEffectsView {
    PanelEffectsView { observe: false, request: None, reset_scroll: false, notify: false }
}

/// Nothing to do but draw.
pub open spec fn repaint() -> PanelEffectsView {
    PanelEffectsView { notify: true, ..idle() }
}

impl PanelEffects {
    fn idle() -> (effects: PanelEffects)
        ensures
            effects@ == idle(),
    {
        PanelEffects { observe: false, request: None, reset_scroll: false, notify: false }
    }

    fn repaint() -> (effects: PanelEffects)
        ensures
            effects@ == repaint(),
    {
        PanelEffects { observe: false, request: None, reset_scroll: false, notify: true }
    }
}

/// The remote file panel.
pub struct FilePanel {
    session: Option<u64>,
    states: HashMap<u64, SessionState>,
}

/// What a [`FilePanel`] holds.
pub struct PanelView {
    /// Session whose directory is on screen.
    pub session: Option<u64>,
    /// Browsing state per session.
    pub states: Map<u64, StateView>,
}

impl View for FilePanel {
    type V = PanelView;

    closed spec fn view(&self) -> PanelView {
        PanelView { session: self.session, states: self.states@.map_values(|state: SessionState| state@) }
    }
}

impl PanelView {
    /// The state of a session, or a fresh one.
    pub open spec fn state_of(self, session: u64) -> StateView {
        if self.states.contains_key(session) {
            self.states[session]
        } else {
            fresh_state()
        }
    }

    /// The panel with the state of one session replaced.
    pub open spec fn with_state(self, session: u64, state: StateView) -> PanelView {
        PanelView { states: self.states.insert(session, state), ..self }
    }

    /// The state of the active session, if it has one.
    pub open spec fn active_state(self) -> Option<StateView> {
        match self.session {
            Some(id) if self.states.contains_key(id) => Some(self.states[id]),
            _ => None,
        }
    }

    /// The session and the directory that an action works on: there is none
    /// without a session, while it is not connected, and before its first listing.
    pub open spec fn acting_on(self, connected: bool) -> Option<(u64, Seq<char>)> {
        match self.active_state() {
            Some(state) if connected && state.path is Some => Some((self.session->0, state.path->0)),
            _ => None,
        }
    }

    /// The panel after a listing for `session` was asked for.
    pub open spec fn going(self, session: u64) -> PanelView {
        let state = self.state_of(session);
        self.with_state(session, StateView { generation: state.next_generation(), busy: true, ..state })
    }

    /// The request for a listing of `target`.
    pub open spec fn request(self, session: u64, target: TargetView) -> PanelEffectsView {
        PanelEffectsView {
            request: Some((session, self.state_of(session).next_generation(), target)),
            ..repaint()
        }
    }

    /// Where the panel goes to keep up with the active session, and the state it
    /// goes with: to the shell's directory when it appears or moves, to the login
    /// directory when a session that announced none first appears.
    pub open spec fn follows(self, connected: bool, cwd: Option<Seq<char>>) -> Option<(u64, StateView, TargetView)> {
        match self.session {
            Some(id) if connected => {
                let state = self.state_of(id);
                if !state.attempted {
                    Some(
                        (
                            id,
                            StateView { attempted: true, followed: cwd, ..state },
                            match cwd {
                                Some(path) => TargetView::Exact(path),
                                None => TargetView::Home,
                            },
                        ),
                    )
                } else if cwd is Some && state.followed != cwd {
                    Some((id, StateView { followed: cwd, ..state }, TargetView::Exact(cwd->0)))
                } else {
                    None
                }
            },
            _ => None,
        }
    }

    /// The panel after it kept up with the active session.
    pub open spec fn synced(self, connected: bool, cwd: Option<Seq<char>>) -> PanelView {
        match self.follows(connected, cwd) {
            Some((id, state, _)) => self.with_state(id, state).going(id),
            None => self,
        }
    }

    /// What keeping up with the active session asks for.
    pub open spec fn sync_effects(self, connected: bool, cwd: Option<Seq<char>>) -> PanelEffectsView {
        match self.follows(connected, cwd) {
            Some((id, state, target)) => self.with_state(id, state).request(id, target),
            None => idle(),
        }
    }

    /// The panel with a notice on the status line of a session that it knows.
    pub open spec fn noticed(self, session: u64, notice: NoticeView) -> PanelView {
        if self.states.contains_key(session) {
            self.with_state(session, StateView { notice: Some(notice), ..self.states[session] })
        } else {
            self
        }
    }

    /// What a notice asks for.
    pub open spec fn notice_effects(self, session: u64) -> PanelEffectsView {
        if self.states.contains_key(session) {
            repaint()
        } else {
            idle()
        }
    }

    /// A listing belongs to the last navigation of its session.
    pub open spec fn awaits(self, session: u64, generation: u64) -> bool {
        self.states.contains_key(session) && self.states[session].generation == generation
    }

    /// The panel after a listing arrived. A directory change drops the selection:
    /// staying on the old name would let a download act on a file that is no longer
    /// on screen.
    pub open spec fn with_listing(
        self,
        session: u64,
        generation: u64,
        path: Seq<char>,
        entries: Seq<RemoteEntry>,
    ) -> PanelView {
        if self.awaits(session, generation) {
            let state = self.states[session];
            self.with_state(
                session,
                StateView {
                    path: Some(path),
                    entries: listed(entries),
                    selected: if state.path == Some(path) {
                        state.selected
                    } else {
                        None
                    },
                    busy: false,
                    notice: None,
                    ..state
                },
            )
        } else {
            self
        }
    }

    /// The panel and what it asks for after a session was put on screen.
    pub open spec fn showing(
        self,
        session: Option<u64>,
        connected: bool,
        cwd: Option<Seq<char>>,
    ) -> (PanelView, PanelEffectsView) {
        if session == self.session {
            (self, idle())
        } else {
            let shown = PanelView { session, ..self };
            (
                shown.synced(connected, cwd),
                PanelEffectsView { observe: true, notify: true, ..shown.sync_effects(connected, cwd) },
            )
        }
    }

    /// The panel and what it asks for after a session was forgotten.
    pub open spec fn forgetting(self, session: u64) -> (PanelView, PanelEffectsView) {
        if self.states.contains_key(session) {
            (
                PanelView {
                    session: if self.session == Some(session) {
                        None
                    } else {
                        self.session
                    },
                    states: self.states.remove(session),
                },
                PanelEffectsView { observe: self.session == Some(session), ..repaint() },
            )
        } else {
            (self, idle())
        }
    }

    /// The panel and what it asks for when the current directory is listed again.
    pub open spec fn refreshing(self, connected: bool) -> (PanelView, PanelEffectsView) {
        match self.session {
            Some(id) if connected => (
                self.going(id),
                self.request(
                    id,
                    match self.state_of(id).path {
                        Some(path) => TargetView::Exact(path),
                        None => TargetView::Home,
                    },
                ),
            ),
            _ => (self, idle()),
        }
    }

    /// The panel and what it asks for after an entry was selected.
    pub open spec fn selecting(self, name: Seq<char>) -> (PanelView, PanelEffectsView) {
        match self.active_state() {
            Some(state) if state.selected != Some(name) => (
                self.with_state(self.session->0, StateView { selected: Some(name), ..state }),
                repaint(),
            ),
            _ => (self, idle()),
        }
    }

    /// The panel and what it asks for after an entry was opened.
    pub open spec fn activating(self, name: Seq<char>, connected: bool) -> (PanelView, PanelEffectsView) {
        match self.acting_on(connected) {
            Some((id, path)) if entry_named(self.states[id].entries, name) matches Some(entry) && entry.is_dir => (
                self.going(id),
                self.request(id, TargetView::Exact(joined(path, name))),
            ),
            _ => (self, idle()),
        }
    }

    /// The panel and what it asks for on the way to the parent directory.
    pub open spec fn ascending(self, connected: bool) -> (PanelView, PanelEffectsView) {
        match self.acting_on(connected) {
            Some((id, path)) => (self.going(id), self.request(id, TargetView::Resolve(joined(path, PARENT_NAME@)))),
            None => (self, idle()),
        }
    }

    /// The panel and what it asks for after clicks on a row: one selects, two open.
    pub open spec fn clicking(self, name: Seq<char>, clicks: nat, connected: bool) -> (PanelView, PanelEffectsView) {
        if clicks >= 2 {
            if name == PARENT_NAME@ {
                self.ascending(connected)
            } else {
                self.activating(name, connected)
            }
        } else if name == PARENT_NAME@ {
            (self, idle())
        } else {
            self.selecting(name)
        }
    }

    /// The panel after a listing failed: what was listed before stays.
    pub open spec fn with_failure(self, session: u64, generation: u64, error: Seq<char>) -> PanelView {
        if self.awaits(session, generation) {
            self.with_state(
                session,
                StateView { busy: false, notice: Some(failed(error)), ..self.states[session] },
            )
        } else {
            self
        }
    }
}

/// A local path that was chosen or dropped for an upload.
#[derive(Debug)]
pub struct LocalPath {
    /// Its file name, for status messages.
    pub name: String,
    pub is_dir: bool,
}

/// The files among local paths, by their places.
pub open spec fn files_among(paths: Seq<LocalPath>) -> Seq<usize>
    decreases paths.len(),
{
    if paths.len() == 0 {
        Seq::empty()
    } else if paths.last().is_dir {
        files_among(paths.drop_last())
    } else {
        files_among(paths.drop_last()).push((paths.len() - 1) as usize)
    }
}

/// The name of the first directory among local paths.
pub open spec fn first_directory(paths: Seq<LocalPath>) -> Option<Seq<char>>
    decreases paths.len(),
{
    if paths.len() == 0 {
        None
    } else {
        match first_directory(paths.drop_last()) {
            Some(name) => Some(name),
            None => if paths.last().is_dir {
                Some(paths.last().name@)
            } else {
                None
            },
        }
    }
}

/// A directory was left out of an upload.
pub open spec fn skipped_directory(name: Seq<char>) -> NoticeView {
    NoticeView::Error(says("files.skipped_directory"@).quoting("name"@, name))
}

/// Files on their way to the server, one after another.
#[derive(Debug)]
pub struct Transfer {
    /// The session that transfers.
    pub session: u64,
    /// The remote directory.
    pub directory: String,
    /// The local paths that were given.
    pub paths: Vec<LocalPath>,
    /// The files among them, by their places.
    pub files: Vec<usize>,
    /// How many files were tried.
    pub tried: usize,
    /// How many files arrived.
    pub uploaded: usize,
    /// Name of the last file that arrived.
    pub last: String,
    /// What went wrong, after which nothing more is tried.
    pub failure: Option<String>,
    /// Name of the first directory among the paths.
    pub skipped: Option<String>,
}

impl Transfer {
    /// The files are among the paths, and the counts fit.
    pub open spec fn wf(self) -> bool {
        &&& self.files@ == files_among(self.paths@)
        &&& option_text(self.skipped) == first_directory(self.paths@)
        &&& self.tried <= self.files@.len()
        &&& self.uploaded <= self.tried
        &&& forall|i: int| 0 <= i < self.files@.len() ==> (#[trigger] self.files@[i]) < self.paths@.len()
    }

    /// The place of the file to upload next.
    pub open spec fn upcoming(self) -> Option<usize> {
        if self.failure is None && self.tried < self.files@.len() {
            Some(self.files@[self.tried as int])
        } else {
            None
        }
    }

    /// What there is to say when nothing is left to try. A skipped directory
    /// outranks the success line: the transfer that did happen is visible in the
    /// listing, the one that did not is not.
    pub open spec fn outcome(self) -> NoticeView {
        match (self.failure, self.skipped) {
            (Some(error), _) => failed(error@),
            (None, Some(name)) => skipped_directory(name@),
            (None, None) => if self.uploaded == 1 {
                NoticeView::Info(says("files.uploaded"@).quoting("name"@, self.last@))
            } else {
                NoticeView::Info(says("files.uploaded_many"@).quoting("count"@, decimal_text(self.uploaded as nat)))
            },
        }
    }

    /// The file to upload next, by its place among the paths.
    pub fn next_file(&self) -> (next: Option<usize>)
        ensures
            next == self.upcoming(),
    {
        match &self.failure {
            Some(_) => None,
            None => if self.tried < self.files.len() {
                Some(self.files[self.tried])
            } else {
                None
            },
        }
    }

    /// The transfer of the next file ended.
    pub fn file_done(&mut self, result: Result<(), String>)
        requires
            old(self).wf(),
            old(self).upcoming() is Some,
        ensures
            final(self).wf(),
            match result {
                Ok(_) => {
                    &&& final(self).uploaded == old(self).uploaded + 1
                    &&& final(self).last@ == old(self).paths@[old(self).upcoming()->0 as int].name@
                    &&& *final(self) == (Transfer {
                        tried: (old(self).tried + 1) as usize,
                        uploaded: final(self).uploaded,
                        last: final(self).last,
                        ..*old(self)
                    })
                },
                Err(error) => *final(self) == (Transfer {
                    tried: (old(self).tried + 1) as usize,
                    failure: Some(error),
                    ..*old(self)
                }),
            },
    {
        let count: usize = self.files.len();
        assert(self.tried < count);
        let at: usize = self.files[self.tried];
        self.tried = self.tried + 1;
        match result {
            Ok(_) => {
                self.uploaded = self.uploaded + 1;
                self.last = self.paths[at].name.clone();
            },
            Err(error) => {
                self.failure = Some(error);
            },
        }
    }

    /// What there is to say when nothing is left to try.
    fn summary(&self) -> (notice: Notice)
        ensures
            notice@ == self.outcome(),
    {
        match (&self.failure, &self.skipped) {
            (Some(error), _) => Notice::from_error(error.as_str()),
            (None, Some(name)) => Notice::Error(
                Message::new("files.skipped_directory").with("name", name.as_str()),
            ),
            (None, None) => if self.uploaded == 1 {
                Notice::Info(Message::new("files.uploaded").with("name", self.last.as_str()))
            } else {
                Notice::Info(
                    Message::new("files.uploaded_many").with("count", decimal(self.uploaded as u64).as_str()),
                )
            },
        }
    }
}

/// A file to save locally.
#[derive(Debug)]
pub struct Download {
    /// The session that transfers.
    pub session: u64,
    /// The remote path.
    pub remote: String,
    /// The file name to suggest.
    pub name: String,
}

impl FilePanel {
    /// An empty panel, attached to no session.
    pub fn new() -> (panel: FilePanel)
        ensures
            panel@ == (PanelView { session: None, states: Map::empty() }),
    {
        let panel = FilePanel { session: None, states: HashMap::new() };
        assert(panel@.states =~= Map::empty());
        panel
    }

    /// Takes the state of a session out.
    fn take(&mut self, session: u64) -> (state: Option<SessionState>)
        ensures
            final(self)@ == (PanelView { states: old(self)@.states.remove(session), ..old(self)@ }),
            match state {
                Some(state) => old(self)@.states.contains_key(session) && old(self)@.states[session] == state@,
                None => !old(self)@.states.contains_key(session),
            },
    {
        let state = self.states.remove(&session);
        assert(self@.states =~= old(self)@.states.remove(session));
        state
    }

    /// Takes the state of a session out, or a fresh one.
    fn take_or_new(&mut self, session: u64) -> (state: SessionState)
        ensures
            final(self)@ == (PanelView { states: old(self)@.states.remove(session), ..old(self)@ }),
            state@ == old(self)@.state_of(session),
    {
        match self.take(session) {
            Some(state) => state,
            None => SessionState::new(),
        }
    }

    /// Puts the state of a session in.
    fn put(&mut self, session: u64, state: SessionState)
        ensures
            final(self)@ == old(self)@.with_state(session, state@),
    {
        self.states.insert(session, state);
        assert(self@.states =~= old(self)@.states.insert(session, state@));
    }

    /// The state of a session.
    fn peek(&self, session: u64) -> (state: Option<&SessionState>)
        ensures
            match state {
                Some(state) => self@.states.contains_key(session) && self@.states[session] == state@,
                None => !self@.states.contains_key(session),
            },
    {
        self.states.get(&session)
    }

    /// The session on screen.
    pub fn session(&self) -> (session: Option<u64>)
        ensures
            session == self@.session,
    {
        self.session
    }

    /// The state of the active session, if it has one.
    pub fn active_state(&self) -> (state: Option<&SessionState>)
        ensures
            match state {
                Some(state) => self@.active_state() == Some(state@),
                None => self@.active_state() is None,
            },
    {
        match self.session {
            Some(id) => self.peek(id),
            None => None,
        }
    }

    /// Points the panel at `session`, keeping whatever it was showing before.
    /// Naming the session already on screen changes nothing.
    ///
    /// `connected` and `cwd` speak of the session that is named.
    pub fn set_session(&mut self, session: Option<u64>, connected: bool, cwd: Option<String>) -> (effects: PanelEffects)
        ensures
            (final(self)@, effects@) == old(self)@.showing(session, connected, option_text(cwd)),
    {
        let unchanged = match (self.session, session) {
            (Some(current), Some(next)) => current == next,
            (None, None) => true,
            _ => false,
        };
        if unchanged {
            return PanelEffects::idle();
        }
        self.session = session;
        let effects = self.sync(connected, cwd);
        PanelEffects { observe: true, notify: true, ..effects }
    }

    /// Drops the state of a session whose pane has closed.
    pub fn forget_session(&mut self, session: u64) -> (effects: PanelEffects)
        ensures
            (final(self)@, effects@) == old(self)@.forgetting(session),
    {
        match self.take(session) {
            None => {
                assert(self@.states =~= old(self)@.states);
                PanelEffects::idle()
            },
            Some(_) => {
                let shown = match self.session {
                    Some(id) => id == session,
                    None => false,
                };
                if shown {
                    self.session = None;
                }
                PanelEffects { observe: shown, request: None, reset_scroll: false, notify: true }
            },
        }
    }

    /// Brings the panel in step with the active session. Runs on every
    /// notification from that session, which means on every chunk of terminal
    /// output.
    pub fn sync(&mut self, connected: bool, cwd: Option<String>) -> (effects: PanelEffects)
        ensures
            final(self)@ == old(self)@.synced(connected, option_text(cwd)),
            effects@ == old(self)@.sync_effects(connected, option_text(cwd)),
    {
        let id: u64 = match self.session {
            Some(id) => id,
            None => {
                return PanelEffects::idle();
            },
        };
        if !connected {
            return PanelEffects::idle();
        }
        let attempted = match self.peek(id) {
            Some(state) => state.attempted,
            None => false,
        };
        if !attempted {
            let mut state = self.take_or_new(id);
            state.attempted = true;
            state.followed = copy_option(&cwd);
            self.put(id, state);
            assert(self@.states =~= old(self)@.with_state(id, state@).states);
            let target = match cwd {
                Some(path) => Target::Exact(path),
                None => Target::Home,
            };
            return self.go(id, target);
        }
        if let Some(path) = cwd {
            let moved = match self.peek(id) {
                Some(state) => match &state.followed {
                    Some(followed) => !same(followed.as_str(), path.as_str()),
                    None => true,
                },
                None => true,
            };
            if moved {
                let mut state = self.take_or_new(id);
                state.followed = Some(path.clone());
                self.put(id, state);
                assert(self@.states =~= old(self)@.with_state(id, state@).states);
                return self.go(id, Target::Exact(path));
            }
        }
        PanelEffects::idle()
    }

    /// Asks for a listing of `target` for `session`. The session is named rather
    /// than taken from the screen, so that a listing triggered by a finished
    /// transfer lands on the session that transferred.
    fn go(&mut self, session: u64, target: Target) -> (effects: PanelEffects)
        ensures
            final(self)@ == old(self)@.going(session),
            effects@ == old(self)@.request(session, target@),
    {
        let mut state = self.take_or_new(session);
        state.generation = state.generation.wrapping_add(1);
        state.busy = true;
        let generation: u64 = state.generation;
        self.put(session, state);
        assert(self@.states =~= old(self)@.going(session).states);
        PanelEffects {
            observe: false,
            request: Some(ListRequest { session, generation, target }),
            reset_scroll: false,
            notify: true,
        }
    }

    /// Applies a listing, unless the user has moved on since it was asked for.
    pub fn listing_arrived(
        &mut self,
        session: u64,
        generation: u64,
        result: Result<(String, Vec<RemoteEntry>), String>,
    ) -> (effects: PanelEffects)
        ensures
            final(self)@ == match result {
                Ok((path, entries)) => old(self)@.with_listing(session, generation, path@, entries@),
                Err(error) => old(self)@.with_failure(session, generation, error@),
            },
            effects@ == if old(self)@.awaits(session, generation) {
                PanelEffectsView {
                    reset_scroll: result matches Ok((path, _)) && old(self)@.states[session].path != Some(path@),
                    ..repaint()
                }
            } else {
                idle()
            },
    {
        let awaited = match self.peek(session) {
            Some(state) => state.generation == generation,
            None => false,
        };
        if !awaited {
            return PanelEffects::idle();
        }
        let mut state = self.take_or_new(session);
        let mut reset_scroll = false;
        state.busy = false;
        match result {
            Ok((path, entries)) => {
                let ghost expected = old(self)@.with_listing(session, generation, path@, entries@);
                let mut entries = entries;
                sort_entries(&mut entries);
                let stayed = match &state.path {
                    Some(current) => same(current.as_str(), path.as_str()),
                    None => false,
                };
                if !stayed {
                    state.selected = None;
                    reset_scroll = true;
                }
                state.path = Some(path);
                state.entries = entries;
                state.notice = None;
                self.put(session, state);
                assert(self@.states =~= expected.states);
            },
            Err(error) => {
                state.notice = Some(Notice::from_error(error.as_str()));
                self.put(session, state);
                assert(self@.states =~= old(self)@.with_failure(session, generation, error@).states);
            },
        }
        PanelEffects { observe: false, request: None, reset_scroll, notify: true }
    }

    /// The active session and its directory, `None` whenever an action has nothing
    /// to act on.
    pub fn acting_on(&self, connected: bool) -> (acting: Option<(u64, String)>)
        ensures
            match acting {
                Some((id, path)) => self@.acting_on(connected) == Some((id, path@)),
                None => self@.acting_on(connected) is None,
            },
    {
        if !connected {
            return None;
        }
        match self.session {
            Some(id) => match self.peek(id) {
                Some(state) => match &state.path {
                    Some(path) => Some((id, path.clone())),
                    None => None,
                },
                None => None,
            },
            None => None,
        }
    }

    /// Puts `notice` on `session`'s status line.
    pub fn set_notice(&mut self, session: u64, notice: Notice) -> (effects: PanelEffects)
        ensures
            final(self)@ == old(self)@.noticed(session, notice@),
            effects@ == old(self)@.notice_effects(session),
    {
        match self.take(session) {
            Some(state) => {
                let mut state = state;
                state.notice = Some(notice);
                self.put(session, state);
                assert(self@.states =~= old(self)@.noticed(session, notice@).states);
                PanelEffects::repaint()
            },
            None => {
                assert(self@.states =~= old(self)@.states);
                PanelEffects::idle()
            },
        }
    }

    /// Lists the current directory again. Also the way out of a failed first
    /// listing, which is not retried on its own.
    pub fn refresh(&mut self, connected: bool) -> (effects: PanelEffects)
        ensures
            (final(self)@, effects@) == old(self)@.refreshing(connected),
    {
        let id: u64 = match self.session {
            Some(id) => id,
            None => {
                return PanelEffects::idle();
            },
        };
        if !connected {
            return PanelEffects::idle();
        }
        let target = match self.peek(id) {
            Some(state) => match &state.path {
                Some(path) => Target::Exact(path.clone()),
                None => Target::Home,
            },
            None => Target::Home,
        };
        self.go(id, target)
    }

    /// Selects the entry named `name`.
    pub fn select(&mut self, name: &str) -> (effects: PanelEffects)
        ensures
            (final(self)@, effects@) == old(self)@.selecting(name@),
    {
        let id: u64 = match self.session {
            Some(id) => id,
            None => {
                return PanelEffects::idle();
            },
        };
        let selected = match self.peek(id) {
            Some(state) => match &state.selected {
                Some(selected) => same(selected.as_str(), name),
                None => false,
            },
            None => {
                return PanelEffects::idle();
            },
        };
        if selected {
            return PanelEffects::idle();
        }
        let mut state = self.take_or_new(id);
        state.selected = Some(copy(name));
        self.put(id, state);
        assert(self@.states =~= old(self)@.with_state(id, state@).states);
        PanelEffects::repaint()
    }

    /// Opens the entry named `name`, if it is a directory.
    pub fn activate(&mut self, name: &str, connected: bool) -> (effects: PanelEffects)
        ensures
            (final(self)@, effects@) == old(self)@.activating(name@, connected),
    {
        match self.acting_on(connected) {
            None => PanelEffects::idle(),
            Some((id, path)) => {
                let is_dir = match self.peek(id) {
                    Some(state) => match find_entry(&state.entries, name) {
                        Some(i) => state.entries[i].is_dir,
                        None => false,
                    },
                    None => false,
                };
                if !is_dir {
                    return PanelEffects::idle();
                }
                self.go(id, Target::Exact(join(path.as_str(), name)))
            },
        }
    }

    /// Moves to the parent of the current directory.
    pub fn open_parent(&mut self, connected: bool) -> (effects: PanelEffects)
        ensures
            (final(self)@, effects@) == old(self)@.ascending(connected),
    {
        match self.acting_on(connected) {
            None => PanelEffects::idle(),
            Some((id, path)) => self.go(id, Target::Resolve(join(path.as_str(), PARENT_NAME))),
        }
    }
}

/// What the header shows in place of a path.
#[derive(Debug)]
pub enum HeaderTitle {
    /// The current directory, shortened from the front.
    Path(String),
    /// The panel's own title.
    Wording(Message),
}

/// The header of the panel: the current path and the three action buttons.
#[derive(Debug)]
pub struct PanelHeader {
    pub title: HeaderTitle,
    pub can_refresh: bool,
    pub can_upload: bool,
    pub can_download: bool,
}

/// One row of the listing as it is drawn.
#[derive(Debug)]
pub struct PanelRow {
    pub label: String,
    /// A folder is drawn in the accent color, which makes a listing scannable ahead
    /// of its order.
    pub icon: Icon,
    pub icon_color: Slot,
    /// Whether the row carries the badge of a symbolic link.
    pub badge: bool,
    /// The size of a file.
    pub size: Option<String>,
    pub selected: bool,
}

/// The directory listing, or the message standing in for it.
#[derive(Debug)]
pub enum PanelList {
    Placeholder(Message),
    Rows(Vec<PanelRow>),
}

/// What a [`PanelRow`] shows.
pub struct RowView {
    pub label: Seq<char>,
    pub icon: Icon,
    pub icon_color: Slot,
    pub badge: bool,
    pub size: Option<Seq<char>>,
    pub selected: bool,
}

impl View for PanelRow {
    type V = RowView;

    open spec fn view(&self) -> RowView {
        RowView {
            label: self.label@,
            icon: self.icon,
            icon_color: self.icon_color,
            badge: self.badge,
            size: option_text(self.size),
            selected: self.selected,
        }
    }
}

/// The rows that are drawn.
pub open spec fn row_views(rows: Seq<PanelRow>) -> Seq<RowView> {
    Seq::new(rows.len(), |i: int| rows[i]@)
}

/// The icon of a row and its color.
pub open spec fn icon_of(is_dir: bool) -> (Icon, Slot) {
    if is_dir {
        (Icon::Folder, Slot::Accent)
    } else {
        (Icon::File, Slot::TextMuted)
    }
}

/// The row of an entry.
pub open spec fn entry_row(entry: RemoteEntry, selected: Option<Seq<char>>) -> RowView {
    RowView {
        label: entry.name@,
        icon: icon_of(entry.is_dir).0,
        icon_color: icon_of(entry.is_dir).1,
        badge: entry.is_symlink,
        size: if entry.is_dir {
            None
        } else {
            Some(size_text(entry.size))
        },
        selected: selected == Some(entry.name@),
    }
}

/// The row of the parent directory.
pub open spec fn parent_row() -> RowView {
    RowView {
        label: PARENT_NAME@,
        icon: Icon::Folder,
        icon_color: Slot::Accent,
        badge: false,
        size: None,
        selected: false,
    }
}

/// A directory has a parent to go to.
pub open spec fn has_parent(path: Seq<char>) -> bool {
    path != "/"@ && path.len() > 0
}

/// The rows of a listed directory.
pub open spec fn rows_of(path: Seq<char>, entries: Seq<RemoteEntry>, selected: Option<Seq<char>>) -> Seq<RowView> {
    (if has_parent(path) {
        seq![parent_row()]
    } else {
        Seq::empty()
    }) + Seq::new(entries.len(), |i: int| entry_row(entries[i], selected))
}

/// What stands in for a listing that is not there.
pub open spec fn list_message(session: Option<u64>, connected: bool) -> MessageView {
    if session is None {
        says("files.no_session"@)
    } else if !connected {
        says("files.not_connected"@)
    } else {
        says("files.loading"@)
    }
}

/// The row of an entry, or of the parent directory.
fn build_row(name: &str, is_dir: bool, is_symlink: bool, size: Option<String>, selected: bool) -> (row: PanelRow)
    ensures
        row@ == (RowView {
            label: name@,
            icon: icon_of(is_dir).0,
            icon_color: icon_of(is_dir).1,
            badge: is_symlink,
            size: option_text(size),
            selected,
        }),
{
    let (icon, icon_color) = if is_dir { (Icon::Folder, Slot::Accent) } else { (Icon::File, Slot::TextMuted) };
    PanelRow { label: copy(name), icon, icon_color, badge: is_symlink, size, selected }
}

impl FilePanel {
    /// Whether to ask for local files to upload.
    pub fn pick_upload(&self, connected: bool) -> (prompt: Option<Message>)
        ensures
            match prompt {
                Some(message) => self@.acting_on(connected) is Some && message@ == says("files.select_upload"@),
                None => self@.acting_on(connected) is None,
            },
    {
        match self.acting_on(connected) {
            Some(_) => Some(Message::new("files.select_upload")),
            None => None,
        }
    }

    /// Uploads local paths into the current directory, one after another.
    ///
    /// Directories are skipped rather than recursed into: half a tree on the server
    /// would be worse than none.
    pub fn upload(&mut self, paths: Vec<LocalPath>, connected: bool) -> (started: (Option<Transfer>, PanelEffects))
        ensures
            match old(self)@.acting_on(connected) {
                None => final(self)@ == old(self)@ && started.0 is None && started.1@ == idle(),
                Some((id, directory)) => if files_among(paths@).len() == 0 {
                    &&& started.0 is None
                    &&& match first_directory(paths@) {
                        Some(name) => {
                            &&& final(self)@ == old(self)@.noticed(id, skipped_directory(name))
                            &&& started.1@ == repaint()
                        },
                        None => final(self)@ == old(self)@ && started.1@ == idle(),
                    }
                } else {
                    &&& final(self)@ == old(self)@
                    &&& started.1@ == idle()
                    &&& started.0 matches Some(transfer)
                    &&& transfer.wf()
                    &&& transfer.session == id
                    &&& transfer.directory@ == directory
                    &&& transfer.paths == paths
                    &&& transfer.tried == 0
                    &&& transfer.uploaded == 0
                    &&& transfer.last@.len() == 0
                    &&& transfer.failure is None
                },
            },
    {
        let (id, directory) = match self.acting_on(connected) {
            Some((id, directory)) => (id, directory),
            None => {
                return (None, PanelEffects::idle());
            },
        };
        let mut files: Vec<usize> = Vec::new();
        let mut skipped: Option<String> = None;
        let mut i: usize = 0;
        proof {
            assert(paths@.take(0).len() == 0);
        }
        while i < paths.len()
            invariant
                i <= paths@.len(),
                files@ == files_among(paths@.take(i as int)),
                option_text(skipped) == first_directory(paths@.take(i as int)),
                forall|k: int| 0 <= k < files@.len() ==> (#[trigger] files@[k]) < i,
            decreases paths@.len() - i,
        {
            proof {
                assert(paths@.take(i + 1).drop_last() =~= paths@.take(i as int));
                assert(paths@.take(i + 1).last() == paths@[i as int]);
            }
            if paths[i].is_dir {
                if skipped.is_none() {
                    skipped = Some(paths[i].name.clone());
                }
            } else {
                files.push(i);
            }
            i += 1;
        }
        proof {
            assert(paths@.take(i as int) =~= paths@);
        }
        if files.len() == 0 {
            return match skipped {
                Some(name) => {
                    let notice = Notice::Error(Message::new("files.skipped_directory").with("name", name.as_str()));
                    (None, self.set_notice(id, notice))
                },
                None => (None, PanelEffects::idle()),
            };
        }
        let transfer = Transfer {
            session: id,
            directory,
            paths,
            files,
            tried: 0,
            uploaded: 0,
            last: String::new(),
            failure: None,
            skipped,
        };
        (Some(transfer), PanelEffects::idle())
    }

    /// The file to upload next, announced on the status line.
    pub fn upload_next(&mut self, transfer: &Transfer) -> (step: (Option<usize>, PanelEffects))
        requires
            transfer.wf(),
        ensures
            step.0 == transfer.upcoming(),
            match transfer.upcoming() {
                Some(at) => {
                    &&& final(self)@ == old(self)@.noticed(
                        transfer.session,
                        NoticeView::Info(says("files.uploading"@).quoting("name"@, transfer.paths@[at as int].name@)),
                    )
                    &&& step.1@ == old(self)@.notice_effects(transfer.session)
                },
                None => final(self)@ == old(self)@ && step.1@ == idle(),
            },
    {
        match transfer.next_file() {
            Some(at) => {
                let notice = Notice::Info(
                    Message::new("files.uploading").with("name", transfer.paths[at].name.as_str()),
                );
                (Some(at), self.set_notice(transfer.session, notice))
            },
            None => (None, PanelEffects::idle()),
        }
    }

    /// Nothing is left to upload. What arrived is listed.
    pub fn upload_done(&mut self, transfer: Transfer) -> (effects: PanelEffects)
        ensures
            ({
                let noticed = old(self)@.noticed(transfer.session, transfer.outcome());
                if transfer.uploaded > 0 {
                    &&& final(self)@ == noticed.going(transfer.session)
                    &&& effects@ == noticed.request(transfer.session, TargetView::Exact(transfer.directory@))
                } else {
                    &&& final(self)@ == noticed
                    &&& effects@ == old(self)@.notice_effects(transfer.session)
                }
            }),
    {
        let notice = transfer.summary();
        let effects = self.set_notice(transfer.session, notice);
        if transfer.uploaded > 0 {
            self.go(transfer.session, Target::Exact(transfer.directory))
        } else {
            effects
        }
    }

    /// The selected file, to save it locally after asking where to put it.
    pub fn download(&self, connected: bool) -> (download: Option<Download>)
        ensures
            match self@.acting_on(connected) {
                Some((id, directory)) if self@.states[id].downloadable() => {
                    let name = self@.states[id].selection()->0.name@;
                    &&& download matches Some(download)
                    &&& download.session == id
                    &&& download.name@ == name
                    &&& download.remote@ == joined(directory, name)
                },
                _ => download is None,
            },
    {
        let (id, directory) = match self.acting_on(connected) {
            Some((id, directory)) => (id, directory),
            None => {
                return None;
            },
        };
        match self.peek(id) {
            Some(state) => match state.selection() {
                Some(entry) => if entry.is_dir {
                    None
                } else {
                    Some(
                        Download {
                            session: id,
                            remote: join(directory.as_str(), entry.name.as_str()),
                            name: entry.name.clone(),
                        },
                    )
                },
                None => None,
            },
            None => None,
        }
    }

    /// A download is under way.
    pub fn download_begun(&mut self, download: &Download) -> (effects: PanelEffects)
        ensures
            final(self)@ == old(self)@.noticed(
                download.session,
                NoticeView::Info(says("files.downloading"@).quoting("name"@, download.name@)),
            ),
            effects@ == old(self)@.notice_effects(download.session),
    {
        self.set_notice(
            download.session,
            Notice::Info(Message::new("files.downloading").with("name", download.name.as_str())),
        )
    }

    /// A download ended: where the file is, or what went wrong.
    pub fn download_done(&mut self, session: u64, result: Result<String, String>) -> (effects: PanelEffects)
        ensures
            final(self)@ == old(self)@.noticed(
                session,
                match result {
                    Ok(path) => NoticeView::Info(says("files.downloaded"@).quoting("path"@, path@)),
                    Err(error) => failed(error@),
                },
            ),
            effects@ == old(self)@.notice_effects(session),
    {
        let notice = match &result {
            Ok(path) => Notice::Info(Message::new("files.downloaded").with("path", path.as_str())),
            Err(error) => Notice::from_error(error.as_str()),
        };
        self.set_notice(session, notice)
    }

    /// A click on a row. A double click arrives as two, so the first one has already
    /// selected the row by the time the second opens it.
    pub fn row_clicked(&mut self, name: &str, clicks: usize, connected: bool) -> (effects: PanelEffects)
        ensures
            (final(self)@, effects@) == old(self)@.clicking(name@, clicks as nat, connected),
    {
        let parent = same(name, PARENT_NAME);
        if clicks >= 2 {
            if parent {
                self.open_parent(connected)
            } else {
                self.activate(name, connected)
            }
        } else if !parent {
            self.select(name)
        } else {
            PanelEffects::idle()
        }
    }

    /// The header: the current path and the three action buttons.
    pub fn render_header(&self) -> (header: PanelHeader)
        ensures
            match self@.active_state() {
                Some(state) if state.path is Some => {
                    &&& header.title matches HeaderTitle::Path(path) && path@ == elided(state.path->0)
                    &&& header.can_upload
                    &&& header.can_download == state.downloadable()
                },
                _ => {
                    &&& header.title matches HeaderTitle::Wording(message) && message@ == says("files.title"@)
                    &&& !header.can_upload
                    &&& !header.can_download
                },
            },
            header.can_refresh == (self@.session is Some),
    {
        let can_refresh = self.session.is_some();
        if let Some(state) = self.active_state() {
            if let Some(path) = &state.path {
                return PanelHeader {
                    title: HeaderTitle::Path(elide_start(path.as_str())),
                    can_refresh,
                    can_upload: true,
                    can_download: state.is_downloadable(),
                };
            }
        }
        PanelHeader {
            title: HeaderTitle::Wording(Message::new("files.title")),
            can_refresh,
            can_upload: false,
            can_download: false,
        }
    }

    /// The directory listing, or the message standing in for it.
    pub fn render_list(&self, connected: bool) -> (list: PanelList)
        ensures
            match self@.active_state() {
                Some(state) if state.path is Some => {
                    let rows = rows_of(state.path->0, state.entries, state.selected);
                    match list {
                        PanelList::Rows(drawn) => rows.len() > 0 && row_views(drawn@) == rows,
                        PanelList::Placeholder(message) => rows.len() == 0 && message@ == says("files.empty"@),
                    }
                },
                _ => list matches PanelList::Placeholder(message) && message@ == list_message(
                    self@.session,
                    connected,
                ),
            },
    {
        if let Some(state) = self.active_state() {
            if let Some(path) = &state.path {
                let rows = build_rows(path.as_str(), &state.entries, &state.selected);
                if rows.len() == 0 {
                    return PanelList::Placeholder(Message::new("files.empty"));
                }
                return PanelList::Rows(rows);
            }
        }
        if self.session.is_none() {
            PanelList::Placeholder(Message::new("files.no_session"))
        } else if !connected {
            PanelList::Placeholder(Message::new("files.not_connected"))
        } else {
            PanelList::Placeholder(Message::new("files.loading"))
        }
    }

    /// The status line, when there is anything to say.
    pub fn render_notice(&self) -> (line: Option<(Message, Slot)>)
        ensures
            match self@.active_state() {
                Some(state) => match (state.notice, state.busy) {
                    (Some(NoticeView::Error(text)), _) => line matches Some((message, color)) && message@ == text
                        && color == Slot::Danger,
                    (Some(NoticeView::Info(text)), _) => line matches Some((message, color)) && message@ == text
                        && color == Slot::TextMuted,
                    (None, true) => line matches Some((message, color)) && message@ == says("files.loading"@)
                        && color == Slot::TextMuted,
                    (None, false) => line is None,
                },
                None => line is None,
            },
    {
        match self.active_state() {
            Some(state) => match &state.notice {
                Some(Notice::Error(message)) => Some((message.copied(), Slot::Danger)),
                Some(Notice::Info(message)) => Some((message.copied(), Slot::TextMuted)),
                None => if state.busy {
                    Some((Message::new("files.loading"), Slot::TextMuted))
                } else {
                    None
                },
            },
            None => None,
        }
    }
}

/// The rows of a listed directory.
fn build_rows(path: &str, entries: &Vec<RemoteEntry>, selected: &Option<String>) -> (rows: Vec<PanelRow>)
    ensures
        row_views(rows@) == rows_of(path@, entries@, option_text(*selected)),
{
    let mut rows: Vec<PanelRow> = Vec::new();
    if !same(path, "/") && to_chars(path).len() > 0 {
        rows.push(build_row(PARENT_NAME, true, false, None, false));
    }
    let ghost head = row_views(rows@);
    let ghost body = Seq::new(entries@.len(), |i: int| entry_row(entries@[i], option_text(*selected)));
    proof {
        assert(rows_of(path@, entries@, option_text(*selected)) =~= head + body);
        assert(row_views(rows@) =~= head + body.take(0));
    }
    let mut i: usize = 0;
    while i < entries.len()
        invariant
            i <= entries@.len(),
            body == Seq::new(entries@.len(), |k: int| entry_row(entries@[k], option_text(*selected))),
            row_views(rows@) == head + body.take(i as int),
        decreases entries@.len() - i,
    {
        let entry = &entries[i];
        let size = if entry.is_dir { None } else { Some(format_size(entry.size)) };
        let chosen = match selected {
            Some(name) => same(name.as_str(), entry.name.as_str()),
            None => false,
        };
        let ghost before = row_views(rows@);
        rows.push(build_row(entry.name.as_str(), entry.is_dir, entry.is_symlink, size, chosen));
        proof {
            assert(row_views(rows@) =~= before.push(body[i as int]));
            assert(body.take(i + 1) =~= body.take(i as int).push(body[i as int]));
            assert(row_views(rows@) =~= head + body.take(i + 1));
        }
        i += 1;
    }
    proof {
        assert(body.take(i as int) =~= body);
    }
    rows
}

/// An answer to anything but the last navigation of its session changes nothing.
pub proof fn stale_listings_are_dropped(
    panel: PanelView,
    session: u64,
    generation: u64,
    path: Seq<char>,
    entries: Seq<RemoteEntry>,
    error: Seq<char>,
)
    requires
        !panel.awaits(session, generation),
    ensures
        panel.with_listing(session, generation, path, entries) == panel,
        panel.with_failure(session, generation, error) == panel,
{
}

/// A navigation makes the answer to the one before it stale.
pub proof fn navigating_outdates_what_is_in_flight(panel: PanelView, session: u64, generation: u64)
    requires
        panel.awaits(session, generation),
    ensures
        !panel.going(session).awaits(session, generation),
        panel.going(session).awaits(session, panel.state_of(session).next_generation()),
{
}

/// The panel follows the shell once per move: while the shell stays where it was
/// last followed to, the user's own navigation stands.
pub proof fn the_shell_is_followed_once(panel: PanelView, connected: bool, cwd: Option<Seq<char>>)
    ensures
        panel.synced(connected, cwd).synced(connected, cwd) == panel.synced(connected, cwd),
        panel.synced(connected, cwd).sync_effects(connected, cwd) == idle(),
{
}

/// A failed first listing is not asked for again on its own.
pub proof fn a_failed_listing_is_not_retried(
    panel: PanelView,
    cwd: Option<Seq<char>>,
    generation: u64,
    error: Seq<char>,
)
    requires
        panel.session is Some,
    ensures
        panel.synced(true, cwd).with_failure(panel.session->0, generation, error).sync_effects(true, cwd) == idle(),
{
}

/// Whatever happens to one session, the others keep what they were showing.
pub proof fn sessions_keep_their_places(
    panel: PanelView,
    other: u64,
    connected: bool,
    cwd: Option<Seq<char>>,
    session: u64,
    generation: u64,
    path: Seq<char>,
    entries: Seq<RemoteEntry>,
    notice: NoticeView,
)
    requires
        panel.states.contains_key(other),
        other != session,
        panel.session != Some(other),
    ensures
        panel.synced(connected, cwd).states.contains_key(other),
        panel.synced(connected, cwd).states[other] == panel.states[other],
        panel.going(session).states[other] == panel.states[other],
        panel.with_listing(session, generation, path, entries).states[other] == panel.states[other],
        panel.noticed(session, notice).states[other] == panel.states[other],
{
}

/// A new directory has nothing selected in it, so no download acts on a file that
/// is no longer on screen.
pub proof fn a_new_directory_has_no_selection(
    panel: PanelView,
    session: u64,
    generation: u64,
    path: Seq<char>,
    entries: Seq<RemoteEntry>,
)
    requires
        panel.awaits(session, generation),
        panel.states[session].path != Some(path),
    ensures
        panel.with_listing(session, generation, path, entries).states[session].selected is None,
        !panel.with_listing(session, generation, path, entries).states[session].downloadable(),
{
}

/// Whenever the shell of a connected session that was listed before announces a
/// directory other than the one that was followed last, the panel asks for that very
/// directory, whatever it is showing: the user's own navigation wins until the shell
/// moves again. It asks for nothing while the shell stays.
pub proof fn the_panel_follows_every_move_of_the_shell(panel: PanelView, id: u64, cwd: Seq<char>)
    requires
        panel.session == Some(id),
        panel.states.contains_key(id),
        panel.states[id].attempted,
    ensures
        ({
            let effects = panel.sync_effects(true, Some(cwd));
            let after = panel.synced(true, Some(cwd));
            &&& panel.states[id].followed != Some(cwd) ==> {
                &&& effects.request matches Some((session, generation, target))
                &&& session == id
                &&& target == TargetView::Exact(cwd)
                &&& after.awaits(id, generation)
                &&& after.states[id].followed == Some(cwd)
                &&& after.states[id].path == panel.states[id].path
                &&& effects.notify
            }
            &&& panel.states[id].followed == Some(cwd) ==> effects.request is None && after == panel
            &&& panel.sync_effects(true, None).request is None
        }),
{
}

/// The user's own navigation does not stop the panel from following: whatever was asked
/// for and listed in between, the next move of the shell is followed.
pub proof fn navigating_does_not_stop_following(
    panel: PanelView,
    id: u64,
    generation: u64,
    path: Seq<char>,
    entries: Seq<RemoteEntry>,
    cwd: Seq<char>,
)
    requires
        panel.session == Some(id),
        panel.states.contains_key(id),
        panel.states[id].attempted,
        panel.states[id].followed != Some(cwd),
    ensures
        panel.going(id).with_listing(id, generation, path, entries).sync_effects(true, Some(cwd)).request matches Some(
            (session, _, target),
        ) && session == id && target == TargetView::Exact(cwd),
{
}

/// A session that appears for the first time is listed where its shell is, or in the
/// login directory when it says nothing; a session that is not connected is left alone.
pub proof fn the_first_listing_is_where_the_shell_is(panel: PanelView, id: u64, cwd: Option<Seq<char>>)
    requires
        panel.session == Some(id),
        !panel.states.contains_key(id) || !panel.states[id].attempted,
    ensures
        panel.sync_effects(true, cwd).request matches Some((session, _, target)) && session == id && target == (
        match cwd {
            Some(path) => TargetView::Exact(path),
            None => TargetView::Home,
        }),
        panel.synced(true, cwd).states[id].attempted,
        panel.synced(true, cwd).states[id].followed == cwd,
        panel.synced(false, cwd) == panel,
        panel.sync_effects(false, cwd).request is None,
{
}

/// An answer that is awaited is shown: the directory that was listed, its entries, and
/// no complaint any more. The selection lives on in the same directory alone.
pub proof fn an_awaited_listing_is_shown(
    panel: PanelView,
    session: u64,
    target: TargetView,
    path: Seq<char>,
    entries: Seq<RemoteEntry>,
    error: Seq<char>,
)
    ensures
        panel.request(session, target).request matches Some((asked, generation, what)) && asked == session && what
            == target && ({
            let waiting = panel.going(session);
            let shown = waiting.with_listing(session, generation, path, entries).states[session];
            let failing = waiting.with_failure(session, generation, error).states[session];
            &&& waiting.states[session].busy
            &&& shown.path == Some(path)
            &&& shown.entries == listed(entries)
            &&& shown.notice is None
            &&& !shown.busy
            &&& panel.state_of(session).path == Some(path) ==> shown.selected == panel.state_of(session).selected
            &&& panel.state_of(session).path != Some(path) ==> shown.selected is None
            &&& failing.path == panel.state_of(session).path
            &&& failing.entries == panel.state_of(session).entries
            &&& failing.selected == panel.state_of(session).selected
            &&& !failing.busy
            &&& failing.notice == Some(
                NoticeView::Error(
                    MessageView { key: "files.failed"@, args: seq![("error"@, error)] },
                ),
            )
        }),
{
    assert(says("files.failed"@).quoting("error"@, error).args =~= seq![("error"@, error)]);
}

/// Opening a directory asks for the directory of that name inside the one on screen;
/// opening a file, or what is not listed, asks for nothing.
pub proof fn a_directory_opens_inside_the_one_on_screen(
    panel: PanelView,
    id: u64,
    path: Seq<char>,
    name: Seq<char>,
    entry: RemoteEntry,
)
    requires
        panel.session == Some(id),
        panel.states.contains_key(id),
        panel.states[id].path == Some(path),
        path.len() > 0,
        path.last() != '/',
        entry_named(panel.states[id].entries, name) == Some(entry),
    ensures
        entry.is_dir ==> (panel.activating(name, true).1.request matches Some((session, _, target)) && session == id
            && target == TargetView::Exact(path + seq!['/'] + name)),
        !entry.is_dir ==> panel.activating(name, true) == (panel, idle()),
        panel.activating(name, false) == (panel, idle()),
{
    reveal_strlit("/");
    assert("/"@ =~= seq!['/']);
}

/// The parent directory is asked for by two dots, for the server to resolve.
pub proof fn the_parent_is_two_dots_away(panel: PanelView, id: u64, path: Seq<char>)
    requires
        panel.session == Some(id),
        panel.states.contains_key(id),
        panel.states[id].path == Some(path),
        path.len() > 0,
        path.last() != '/',
    ensures
        panel.ascending(true).1.request matches Some((session, _, target)) && session == id && target
            == TargetView::Resolve(path + seq!['/', '.', '.']),
        panel.ascending(false) == (panel, idle()),
{
    reveal_strlit("/");
    reveal_strlit("..");
    assert(joined(path, ".."@) =~= path + seq!['/', '.', '.']);
}

/// Listing again asks for the directory on screen, or for the login directory when
/// nothing was listed yet.
pub proof fn refreshing_asks_for_what_is_on_screen(panel: PanelView, id: u64)
    requires
        panel.session == Some(id),
    ensures
        panel.refreshing(true).1.request matches Some((session, _, target)) && session == id && target == (
        if panel.states.contains_key(id) && panel.states[id].path is Some {
            TargetView::Exact(panel.states[id].path->0)
        } else {
            TargetView::Home
        }),
        panel.refreshing(false) == (panel, idle()),
{
}

/// One click selects the row and asks for nothing; two open it. Only a file that is
/// selected and still listed can be downloaded.
pub proof fn one_click_selects_and_two_open(panel: PanelView, id: u64, name: Seq<char>)
    requires
        panel.session == Some(id),
        panel.states.contains_key(id),
        name != ".."@,
    ensures
        ({
            let chosen = panel.clicking(name, 1, true);
            &&& chosen.0.states[id].selected == Some(name)
            &&& chosen.0.states[id].path == panel.states[id].path
            &&& chosen.0.states[id].entries == panel.states[id].entries
            &&& chosen.1.request is None
            &&& chosen.0.states[id].downloadable() == (entry_named(panel.states[id].entries, name) matches Some(entry)
                && !entry.is_dir)
        }),
        panel.clicking(name, 2, true) == panel.activating(name, true),
        panel.clicking(".."@, 2, true) == panel.ascending(true),
        panel.clicking(".."@, 1, true) == (panel, idle()),
{
}

/// An entry is found by its exact name, and the first one of that name.
pub proof fn entries_are_found_by_name(entries: Seq<RemoteEntry>, name: Seq<char>)
    ensures
        match entry_named(entries, name) {
            Some(entry) => entry.name@ == name && entries.contains(entry),
            None => forall|i: int| 0 <= i < entries.len() ==> (#[trigger] entries[i]).name@ != name,
        },
    decreases entries.len(),
{
    if entries.len() > 0 {
        if entries[0].name@ == name {
            assert(entries.contains(entries[0]));
        } else {
            let rest = entries.drop_first();
            entries_are_found_by_name(rest, name);
            match entry_named(rest, name) {
                Some(entry) => {
                    let i = choose|i: int| 0 <= i < rest.len() && rest[i] == entry;
                    assert(entries[i + 1] == entry);
                },
                None => {
                    assert forall|i: int| 0 <= i < entries.len() implies (#[trigger] entries[i]).name@ != name by {
                        if i > 0 {
                            assert(rest[i - 1] == entries[i]);
                        }
                    }
                },
            }
        }
    }
}

/// Actions work on the session on screen and the directory that is listed for it.
pub proof fn actions_work_on_what_is_on_screen(panel: PanelView, id: u64, path: Seq<char>)
    ensures
        panel.acting_on(true) == Some((id, path)) <==> panel.session == Some(id) && panel.states.contains_key(id)
            && panel.states[id].path == Some(path),
        panel.acting_on(false) is None,
{
}

/// Showing another session asks to watch it and keeps what the one before was showing.
pub proof fn showing_a_session_watches_it(panel: PanelView, session: Option<u64>, connected: bool, cwd: Option<Seq<char>>, other: u64)
    ensures
        session != panel.session ==> {
            let (after, effects) = panel.showing(session, connected, cwd);
            &&& after.session == session
            &&& effects.observe
            &&& effects.notify
            &&& effects.request == (PanelView { session, ..panel }).sync_effects(connected, cwd).request
            &&& panel.states.contains_key(other) && session != Some(other) ==> after.states.contains_key(other)
                && after.states[other] == panel.states[other]
        },
        panel.showing(panel.session, connected, cwd) == (panel, idle()),
{
}

/// A session that is forgotten leaves nothing behind, and the screen when it was on it.
pub proof fn forgetting_leaves_nothing_behind(panel: PanelView, session: u64, other: u64)
    requires
        panel.states.contains_key(session),
        other != session,
    ensures
        !panel.forgetting(session).0.states.contains_key(session),
        panel.session == Some(session) ==> panel.forgetting(session).0.session is None,
        panel.session != Some(session) ==> panel.forgetting(session).0.session == panel.session,
        panel.states.contains_key(other) ==> panel.forgetting(session).0.states.contains_key(other)
            && panel.forgetting(session).0.states[other] == panel.states[other],
{
}

/// A listed directory is drawn entry by entry, below the way up where there is one.
/// Directories are folders in the accent color without a size, files have theirs.
pub proof fn every_entry_has_its_row(path: Seq<char>, entries: Seq<RemoteEntry>, selected: Option<Seq<char>>, i: int)
    requires
        0 <= i < entries.len(),
    ensures
        ({
            let rows = rows_of(path, entries, selected);
            let up = if path.len() > 0 && path != seq!['/'] {
                1int
            } else {
                0int
            };
            let row = rows[up + i];
            &&& rows.len() == entries.len() + up
            &&& up == 1 ==> rows[0].label == seq!['.', '.'] && rows[0].icon == Icon::Folder && rows[0].size is None
                && !rows[0].selected
            &&& row.label == entries[i].name@
            &&& row.badge == entries[i].is_symlink
            &&& row.selected == (selected == Some(entries[i].name@))
            &&& entries[i].is_dir ==> row.icon == Icon::Folder && row.icon_color == Slot::Accent && row.size is None
            &&& !entries[i].is_dir ==> row.icon == Icon::File && row.icon_color == Slot::TextMuted && row.size == Some(
                size_text(entries[i].size),
            )
        }),
{
    reveal_strlit("/");
    reveal_strlit("..");
    assert("/"@ =~= seq!['/']);
    assert(".."@ =~= seq!['.', '.']);
}

/// Without a session there is nothing to show, without a connection it is missing, and
/// otherwise it is on its way.
pub proof fn a_missing_listing_says_why(id: u64, connected: bool)
    ensures
        list_message(None, connected) == says("files.no_session"@),
        list_message(Some(id), false) == says("files.not_connected"@),
        list_message(Some(id), true) == says("files.loading"@),
{
}

/// The files of an upload are all the paths that are no directories, in their order.
pub proof fn an_upload_takes_every_file(paths: Seq<LocalPath>)
    requires
        paths.len() <= usize::MAX,
    ensures
        forall|k: int| #![trigger files_among(paths)[k]]
            0 <= k < files_among(paths).len() ==> files_among(paths)[k] < paths.len() && !paths[files_among(
                paths,
            )[k] as int].is_dir,
        forall|i: int, j: int| #![trigger files_among(paths)[i], files_among(paths)[j]]
            0 <= i < j < files_among(paths).len() ==> files_among(paths)[i] < files_among(paths)[j],
        forall|i: int|
            0 <= i < paths.len() && !(#[trigger] paths[i]).is_dir ==> files_among(paths).contains(i as usize),
    decreases paths.len(),
{
    if paths.len() > 0 {
        let rest = paths.drop_last();
        an_upload_takes_every_file(rest);
        let before = files_among(rest);
        let all = files_among(paths);
        assert forall|k: int| #![trigger all[k]] 0 <= k < all.len() implies all[k] < paths.len()
            && !paths[all[k] as int].is_dir by {
            if k < before.len() {
                assert(all[k] == before[k]);
                assert(rest[before[k] as int] == paths[before[k] as int]);
            }
        }
        assert forall|i: int, j: int| #![trigger all[i], all[j]] 0 <= i < j < all.len() implies all[i] < all[j] by {
            assert(all[i] == before[i]);
            if j < before.len() {
                assert(all[j] == before[j]);
            }
        }
        assert forall|i: int| 0 <= i < paths.len() && !(#[trigger] paths[i]).is_dir implies all.contains(i as usize) by {
            if i < rest.len() {
                assert(rest[i] == paths[i]);
                let k = choose|k: int| 0 <= k < before.len() && before[k] == i as usize;
                assert(all[k] == i as usize);
            } else {
                assert(all[all.len() - 1] == i as usize);
            }
        }
    }
}

/// The directory that an upload names as left out is the first one.
pub proof fn the_first_directory_is_named(paths: Seq<LocalPath>, i: int)
    requires
        0 <= i < paths.len(),
        paths[i].is_dir,
        forall|k: int| 0 <= k < i ==> !(#[trigger] paths[k]).is_dir,
    ensures
        first_directory(paths) == Some(paths[i].name@),
    decreases paths.len(),
{
    let rest = paths.drop_last();
    if i < rest.len() {
        assert(rest[i] == paths[i]);
        assert forall|k: int| 0 <= k < i implies !(#[trigger] rest[k]).is_dir by {
            assert(rest[k] == paths[k]);
        }
        the_first_directory_is_named(rest, i);
    } else {
        assert forall|k: int| 0 <= k < rest.len() implies !(#[trigger] rest[k]).is_dir by {
            assert(rest[k] == paths[k]);
        }
        lemma_no_directory(rest);
    }
}

proof fn lemma_no_directory(paths: Seq<LocalPath>)
    requires
        forall|k: int| 0 <= k < paths.len() ==> !(#[trigger] paths[k]).is_dir,
    ensures
        first_directory(paths) is None,
    decreases paths.len(),
{
    if paths.len() > 0 {
        let rest = paths.drop_last();
        assert forall|k: int| 0 <= k < rest.len() implies !(#[trigger] rest[k]).is_dir by {
            assert(rest[k] == paths[k]);
        }
        lemma_no_directory(rest);
    }
}

/// A failure is what a transfer ends with, then a directory that was left out, and only
/// then how many files arrived.
pub proof fn a_transfer_reports_the_worst(transfer: Transfer)
    ensures
        transfer.failure matches Some(error) ==> transfer.outcome() == NoticeView::Error(
            MessageView { key: "files.failed"@, args: seq![("error"@, error@)] },
        ),
        transfer.failure is None ==> (transfer.skipped matches Some(name) ==> transfer.outcome() == NoticeView::Error(
            MessageView { key: "files.skipped_directory"@, args: seq![("name"@, name@)] },
        )),
        transfer.failure is None && transfer.skipped is None && transfer.uploaded == 1 ==> transfer.outcome()
            == NoticeView::Info(MessageView { key: "files.uploaded"@, args: seq![("name"@, transfer.last@)] }),
        transfer.failure is None && transfer.skipped is None && transfer.uploaded != 1 ==> transfer.outcome()
            == NoticeView::Info(
            MessageView {
                key: "files.uploaded_many"@,
                args: seq![("count"@, decimal_text(transfer.uploaded as nat))],
            },
        ),
        transfer.failure is Some ==> transfer.upcoming() is None,
        transfer.failure is None && transfer.tried < transfer.files@.len() ==> transfer.upcoming() == Some(
            transfer.files@[transfer.tried as int],
        ),
        transfer.tried >= transfer.files@.len() ==> transfer.upcoming() is None,
{
    let none = Seq::<(Seq<char>, Seq<char>)>::empty();
    if let Some(error) = transfer.failure {
        assert(none.push(("error"@, error@)) =~= seq![("error"@, error@)]);
    } else if let Some(name) = transfer.skipped {
        assert(none.push(("name"@, name@)) =~= seq![("name"@, name@)]);
    } else {
        assert(none.push(("name"@, transfer.last@)) =~= seq![("name"@, transfer.last@)]);
        assert(none.push(("count"@, decimal_text(transfer.uploaded as nat))) =~= seq![
            ("count"@, decimal_text(transfer.uploaded as nat)),
        ]);
    }
}

/// A session that the panel has not seen has no directory, no entries and nothing under
/// way; doing nothing asks for nothing, and drawing for a frame alone.
pub proof fn unseen_sessions_are_blank()
    ensures
        fresh_state().path is None && fresh_state().entries.len() == 0 && fresh_state().selected is None,
        fresh_state().followed is None && !fresh_state().attempted && !fresh_state().busy,
        fresh_state().notice is None && fresh_state().generation == 0,
        !idle().observe && idle().request is None && !idle().reset_scroll && !idle().notify,
        !repaint().observe && repaint().request is None && !repaint().reset_scroll && repaint().notify,
{
}

/// A notice goes to the session it is about and to no other, and is drawn; of a session
/// that the panel does not know, it is dropped.
pub proof fn notices_reach_their_session(panel: PanelView, session: u64, other: u64, notice: NoticeView)
    requires
        other != session,
    ensures
        panel.states.contains_key(session) ==> {
            &&& panel.noticed(session, notice).states.contains_key(session)
            &&& panel.noticed(session, notice).states[session].notice == Some(notice)
            &&& panel.noticed(session, notice).states[session].path == panel.states[session].path
            &&& panel.noticed(session, notice).states[session].entries == panel.states[session].entries
            &&& panel.notice_effects(session).notify
        },
        panel.states.contains_key(other) ==> panel.noticed(session, notice).states.contains_key(other)
            && panel.noticed(session, notice).states[other] == panel.states[other],
        !panel.states.contains_key(session) ==> panel.noticed(session, notice) == panel && !panel.notice_effects(
            session,
        ).notify,
        panel.notice_effects(session).request is None,
        panel.noticed(session, notice).session == panel.session,
{
}

/// The row of the parent directory is a folder called by two dots.
pub proof fn the_parent_is_a_folder()
    ensures
        parent_row().label == ".."@,
        parent_row().icon is Folder && parent_row().icon_color is Accent,
        !parent_row().badge && parent_row().size is None && !parent_row().selected,
{
}

} // verus!
