//! One session: a transport bound to a terminal emulator.
//!
//! A [`Session`] decides and its owner acts: every call says in [`Effects`] what
//! the owner has to do to the transport, and the owner hands the transport's
//! events back in. Two transports can drive a session, an SSH connection to a
//! remote host and a login shell on this machine; what differs between them lives
//! in [`Target`].
//!
//! Credentials are kept for reconnection and leave a session only inside the
//! request that opens its transport: there is no accessor for them.
use vstd::prelude::*;

use crate::connection::SshAuth;
use crate::message::{says, Message, MessageView};
use crate::profile::{copy_option, no_overrides, SessionOverrides, SessionProfile};
use crate::settings::{effective_of, AppSettings, EffectiveTerminal};
use crate::ssh_event::{kind_text, SshErrorKind, SshEvent};
use crate::term::emulator::{emitted, fed_bytes, same_grid, scrolled_back, ScreenOp};
use crate::term::model::{
    after_feeding, at_least_one, history_limit, replies_of, settled, title_after, TerminalModel, MAX_HISTORY,
};
use crate::term::theme::TerminalTheme;
use crate::text::{copy, starts_with, to_chars, trim, trimmed};
use crate::ui::tab_bar::TabStatus;

verus! {

/// Columns a session starts with, until the view reports its real size.
pub const INITIAL_COLS: u16 = 80;

/// Rows a session starts with, until the view reports its real size.
pub const INITIAL_ROWS: u16 = 24;

/// Why a local session ended, when the shell simply exited.
pub const LOCAL_EXIT_REASON: &'static str = "the local shell exited";

/// Why a session ended that the user closed.
pub const USER_EXIT_REASON: &'static str = "closed by the user";

/// Classification of a failure raised by the local pty.
pub const LOCAL_FAILURE_KIND: &'static str = "local shell";

/// Where a [`Session`] currently is in its life cycle.
#[derive(Debug)]
pub enum SessionStatus {
    /// The transport is connecting, verifying the host key or authenticating.
    Connecting,
    /// The shell is live.
    Connected,
    /// The session ended without an error.
    Disconnected {
        /// Human-readable explanation of why the session ended.
        reason: String,
    },
    /// The session failed and cannot continue without a reconnect.
    Failed {
        /// Coarse classification of the failure.
        kind: String,
        /// Human-readable explanation, safe to show to the user.
        message: String,
    },
}

/// What a [`SessionStatus`] holds.
pub enum StatusView {
    Connecting,
    Connected,
    Disconnected { reason: Seq<char> },
    Failed { kind: Seq<char>, message: Seq<char> },
}

impl View for SessionStatus {
    type V = StatusView;

    open spec fn view(&self) -> StatusView {
        match *self {
            SessionStatus::Connecting => StatusView::Connecting,
            SessionStatus::Connected => StatusView::Connected,
            SessionStatus::Disconnected { reason } => StatusView::Disconnected { reason: reason@ },
            SessionStatus::Failed { kind, message } => StatusView::Failed {
                kind: kind@,
                message: message@,
            },
        }
    }
}

impl StatusView {
    /// The session can accept input.
    pub open spec fn live(self) -> bool {
        self is Connecting || self is Connected
    }

    /// The label of the status bar and the connection overlay. What comes from the
    /// transport is quoted as it is.
    pub open spec fn summary(self) -> MessageView {
        match self {
            StatusView::Connecting => says("session.connecting"@),
            StatusView::Connected => says("session.connected"@),
            StatusView::Disconnected { reason } => says("session.disconnected"@).quoting(
                "reason"@,
                reason,
            ),
            StatusView::Failed { kind, message } => says("session.failed"@).quoting("kind"@, kind).quoting(
                "message"@,
                message,
            ),
        }
    }

    /// The marker in the tab strip.
    pub open spec fn tab(self) -> TabStatus {
        match self {
            StatusView::Connecting => TabStatus::Connecting,
            StatusView::Connected => TabStatus::Connected,
            StatusView::Disconnected { .. } => TabStatus::Disconnected,
            StatusView::Failed { .. } => TabStatus::Error,
        }
    }
}

impl SessionStatus {
    /// A short label for the status bar and the connection overlay.
    ///
    /// Worded when it is drawn, because the status outlives the language it was
    /// reached in.
    pub fn summary(&self) -> (message: Message)
        ensures
            message@ == self@.summary(),
    {
        match self {
            SessionStatus::Connecting => Message::new("session.connecting"),
            SessionStatus::Connected => Message::new("session.connected"),
            SessionStatus::Disconnected { reason } => Message::new("session.disconnected").with(
                "reason",
                reason.as_str(),
            ),
            SessionStatus::Failed { kind, message } => Message::new("session.failed").with(
                "kind",
                kind.as_str(),
            ).with("message", message.as_str()),
        }
    }

    /// Whether the session can currently accept input.
    pub fn is_live(&self) -> (live: bool)
        ensures
            live == self@.live(),
    {
        match self {
            SessionStatus::Connecting => true,
            SessionStatus::Connected => true,
            _ => false,
        }
    }

    /// How a session in this state should be rendered in the tab strip.
    pub fn tab_status(&self) -> (status: TabStatus)
        ensures
            status == self@.tab(),
    {
        match self {
            SessionStatus::Connecting => TabStatus::Connecting,
            SessionStatus::Connected => TabStatus::Connected,
            SessionStatus::Disconnected { .. } => TabStatus::Disconnected,
            SessionStatus::Failed { .. } => TabStatus::Error,
        }
    }
}

/// What a [`Session`] is attached to, and everything needed to attach again.
pub enum Target {
    /// A remote host reached over SSH.
    Ssh {
        /// Profile the session was opened from.
        profile: SessionProfile,
        /// Credentials, retained so that a reconnect can reuse them.
        auth: SshAuth,
    },
    /// The user's login shell on this machine.
    Local {
        /// Name of that shell.
        shell: String,
        /// Directory the shell is started in; `None` means the application's own.
        cwd: Option<String>,
    },
}

/// A request for an SSH connection.
pub struct SshConfig {
    pub host: String,
    pub port: u16,
    pub username: String,
    pub auth: SshAuth,
    pub cols: u16,
    pub rows: u16,
    pub term: String,
    pub keepalive_secs: u64,
    pub connect_timeout_secs: u64,
}

/// A request for a local shell.
pub struct PtyConfig {
    pub cols: u16,
    pub rows: u16,
    pub term: String,
    pub cwd: Option<String>,
}

/// A request for a transport.
pub enum Opening {
    Ssh(SshConfig),
    Local(PtyConfig),
}

/// What a local pty reports.
pub enum PtyEvent {
    /// The shell is running.
    Ready,
    /// Bytes the shell wrote.
    Data(Vec<u8>),
    /// The shell exited.
    Exited,
    /// The shell could not be started.
    Error(String),
}

/// Which filesystem a session browses.
#[derive(Debug, Clone, Copy, PartialEq, Eq, Structural)]
pub enum FileSource {
    /// That of the server, over SFTP.
    Sftp,
    /// That of this computer.
    Local,
}

/// What the owner of a session has to do, in the order of the fields.
pub struct Effects {
    /// End the transport that was there and stop listening to it.
    pub close: bool,
    /// Open a transport and listen to it.
    pub open: Option<Opening>,
    /// Tell the transport the size of the terminal, in columns and rows.
    pub resize: Option<(u16, u16)>,
    /// Write bytes to the transport.
    pub send: Option<Vec<u8>>,
    /// Draw the session anew.
    pub notify: bool,
}

/// What [`Effects`] ask for.
pub struct EffectsView {
    pub close: bool,
    pub open: Option<Opening>,
    pub resize: Option<(u16, u16)>,
    pub send: Option<Seq<u8>>,
    pub notify: bool,
}

impl View for Effects {
    type V = EffectsView;

    open spec fn view(&self) -> EffectsView {
        EffectsView {
            close: self.close,
            open: self.open,
            resize: self.resize,
            send: match self.send {
                Some(bytes) => Some(bytes@),
                None => None,
            },
            notify: self.notify,
        }
    }
}

/// Nothing to do.
pub open spec fn no_effects() -> EffectsView {
    EffectsView { close: false, open: None, resize: None, send: None, notify: false }
}

/// Nothing to do but draw.
pub open spec fn redraw() -> EffectsView {
    EffectsView { notify: true, ..no_effects() }
}

impl Effects {
    /// Nothing to do.
    fn none() -> (effects: Effects)
        ensures
            effects@ == no_effects(),
    {
        Effects { close: false, open: None, resize: None, send: None, notify: false }
    }

    /// Nothing to do but draw.
    fn redraw() -> (effects: Effects)
        ensures
            effects@ == redraw(),
    {
        Effects { close: false, open: None, resize: None, send: None, notify: true }
    }
}

/// The request that opens the transport of a target.
pub open spec fn opening_of(target: Target, settings: AppSettings, term: String, size: (u16, u16)) -> Opening {
    match target {
        Target::Ssh { profile, auth } => Opening::Ssh(
            SshConfig {
                host: profile.host,
                port: profile.port,
                username: profile.username,
                auth,
                cols: size.0,
                rows: size.1,
                term,
                keepalive_secs: settings.connection.keepalive_secs,
                connect_timeout_secs: settings.connection.connect_timeout_secs,
            },
        ),
        Target::Local { cwd, .. } => Opening::Local(PtyConfig { cols: size.0, rows: size.1, term, cwd }),
    }
}

/// A single session, remote or local, together with the terminal it drives.
pub struct Session {
    target: Target,
    overrides: SessionOverrides,
    attached: bool,
    terminal: TerminalModel,
    status: SessionStatus,
    cwd: Option<String>,
}

/// What a [`Session`] holds.
pub struct SessionView {
    /// What the session connects to, and what a reconnect rebuilds from.
    pub target: Target,
    /// Settings of this session alone, on top of the global ones.
    pub overrides: SessionOverrides,
    /// A transport is there.
    pub attached: bool,
    /// Screen contents and scrollback.
    pub terminal: TerminalModel,
    /// Current life cycle state.
    pub status: StatusView,
    /// Working directory that the shell announced.
    pub cwd: Option<Seq<char>>,
}

impl View for Session {
    type V = SessionView;

    closed spec fn view(&self) -> SessionView {
        SessionView {
            target: self.target,
            overrides: self.overrides,
            attached: self.attached,
            terminal: self.terminal,
            status: self.status@,
            cwd: match self.cwd {
                Some(cwd) => Some(cwd@),
                None => None,
            },
        }
    }
}

impl SessionView {
    /// The terminal is sound.
    pub open spec fn wf(self) -> bool {
        self.terminal.wf()
    }

    /// What the session is attached to, in one line.
    pub open spec fn label(self) -> Seq<char> {
        match self.target {
            Target::Ssh { profile, .. } => profile.label_text(),
            Target::Local { shell, .. } => shell@,
        }
    }

    /// The title the shell set when there is something to read in it, the name of
    /// the profile or of the shell otherwise.
    pub open spec fn title(self) -> Seq<char> {
        match self.terminal.title_text() {
            Some(title) if trimmed(title).len() > 0 => title,
            _ => match self.target {
                Target::Ssh { profile, .. } => profile.name@,
                Target::Local { shell, .. } => shell@,
            },
        }
    }

    /// The filesystem to browse: there is one while a shell is running.
    pub open spec fn files(self) -> Option<FileSource> {
        if self.status is Connected && self.attached {
            match self.target {
                Target::Ssh { .. } => Some(FileSource::Sftp),
                Target::Local { .. } => Some(FileSource::Local),
            }
        } else {
            None
        }
    }

    /// The directory a second local session starts in: an absolute one that the
    /// shell announced and that is there.
    pub open spec fn start_dir(self, is_dir: bool) -> Option<Seq<char>> {
        match self.cwd {
            Some(cwd) if "/"@.is_prefix_of(cwd) && is_dir => Some(cwd),
            _ => None,
        }
    }

    /// The session after its user closed it.
    pub open spec fn hung_up(self) -> SessionView {
        SessionView {
            attached: false,
            status: if self.status.live() {
                StatusView::Disconnected { reason: USER_EXIT_REASON@ }
            } else {
                self.status
            },
            ..self
        }
    }

    /// All but the terminal is as in `other`.
    pub open spec fn same_but_terminal(self, other: SessionView) -> bool {
        &&& self.target == other.target
        &&& self.overrides == other.overrides
        &&& self.attached == other.attached
        &&& self.status == other.status
        &&& self.cwd == other.cwd
    }

    /// A session that is connecting for the first time.
    pub open spec fn starting(
        self,
        target: Target,
        overrides: SessionOverrides,
        settings: AppSettings,
        theme: TerminalTheme,
    ) -> bool {
        &&& self.target == target
        &&& self.overrides == overrides
        &&& self.attached
        &&& self.status == StatusView::Connecting
        &&& self.cwd is None
        &&& self.wf()
        &&& self.terminal.is_fresh()
        &&& self.terminal.dimensions() == (INITIAL_COLS, INITIAL_ROWS)
        &&& self.terminal.limit() == history_limit(effective_of(settings, overrides).scrollback_lines as int)
        &&& self.terminal.palette() == theme
        &&& fed_bytes(self.terminal.script()).len() == 0
    }
}

/// The effects of opening a transport.
pub open spec fn opens(target: Target, overrides: SessionOverrides, settings: AppSettings, size: (u16, u16)) -> EffectsView {
    EffectsView {
        open: Some(opening_of(target, settings, effective_of(settings, overrides).term, size)),
        ..redraw()
    }
}

/// Input went to the transport, and the view went to the bottom.
pub open spec fn input_sent(before: SessionView, after: SessionView, effects: EffectsView, bytes: Seq<u8>) -> bool {
    if bytes.len() == 0 {
        after == before && effects == no_effects()
    } else {
        &&& after.wf()
        &&& after.same_but_terminal(before)
        &&& after.terminal.script() == before.terminal.script().push(ScreenOp::Bottom)
        &&& scrolled_back(after.terminal.script()) == 0
        &&& same_grid(before.terminal.script(), after.terminal.script())
        &&& after.terminal.dimensions() == before.terminal.dimensions()
        &&& after.terminal.title_text() == before.terminal.title_text()
        &&& after.terminal.replies() == before.terminal.replies()
        &&& after.terminal.palette() == before.terminal.palette()
        &&& after.terminal.limit() == before.terminal.limit()
        &&& fed_bytes(after.terminal.script()) == fed_bytes(before.terminal.script())
        &&& effects == (EffectsView { send: sendable(bytes, before.attached), ..redraw() })
    }
}

/// The terminal took a new size, and the transport was told.
pub open spec fn screen_resized(
    before: SessionView,
    after: SessionView,
    effects: EffectsView,
    cols: u16,
    rows: u16,
) -> bool {
    let size = (at_least_one(cols), at_least_one(rows));
    if before.terminal.dimensions() == size {
        after == before && effects == no_effects()
    } else {
        &&& after.wf()
        &&& after.same_but_terminal(before)
        &&& after.terminal.dimensions() == size
        &&& after.terminal.script() == settled(
            before.terminal.script().push(ScreenOp::Resize { cols: size.0, rows: size.1 }),
        )
        &&& after.terminal.title_text() == before.terminal.title_text()
        &&& after.terminal.replies() == before.terminal.replies()
        &&& after.terminal.palette() == before.terminal.palette()
        &&& after.terminal.limit() == before.terminal.limit()
        &&& fed_bytes(after.terminal.script()) == fed_bytes(before.terminal.script())
        &&& effects == (EffectsView {
            resize: if before.attached {
                Some(size)
            } else {
                None
            },
            ..redraw()
        })
    }
}

/// The session opened its target once more, on a fresh screen.
pub open spec fn reopened(
    before: SessionView,
    after: SessionView,
    effects: EffectsView,
    settings: AppSettings,
    theme: TerminalTheme,
) -> bool {
    &&& after == (SessionView {
        attached: true,
        status: StatusView::Connecting,
        cwd: None,
        terminal: after.terminal,
        ..before
    })
    &&& after.terminal.is_fresh()
    &&& after.terminal.dimensions() == before.terminal.dimensions()
    &&& after.terminal.limit() == history_limit(effective_of(settings, before.overrides).scrollback_lines as int)
    &&& after.terminal.palette() == theme
    &&& fed_bytes(after.terminal.script()).len() == 0
    &&& effects == (EffectsView {
        close: before.attached,
        ..opens(before.target, before.overrides, settings, before.terminal.dimensions())
    })
}

/// Bytes to write to a transport, when there are any and it is there.
pub open spec fn sendable(bytes: Seq<u8>, attached: bool) -> Option<Seq<u8>> {
    if bytes.len() > 0 && attached {
        Some(bytes)
    } else {
        None
    }
}

/// A terminal after output arrived and its answers were taken.
pub open spec fn fed(after: TerminalModel, before: TerminalModel, bytes: Seq<u8>) -> bool {
    &&& after.wf()
    &&& after.script() == after_feeding(before.script(), bytes)
    &&& after.title_text() == title_after(before.title_text(), emitted(before.script(), bytes))
    &&& after.replies() == Seq::<u8>::empty()
    &&& after.dimensions() == before.dimensions()
    &&& after.palette() == before.palette()
    &&& after.limit() == before.limit()
    &&& fed_bytes(after.script()) == fed_bytes(before.script()) + bytes
}

/// The answers that a terminal gives to output.
pub open spec fn answers(before: TerminalModel, bytes: Seq<u8>) -> Seq<u8> {
    before.replies() + replies_of(emitted(before.script(), bytes))
}

/// The bytes an SSH event carries to the terminal.
pub open spec fn ssh_output(event: SshEvent) -> Option<Seq<u8>> {
    match event {
        SshEvent::Data(bytes) => Some(bytes@),
        SshEvent::ExtendedData(bytes) => Some(bytes@),
        _ => None,
    }
}

/// The state after an SSH event, all but the terminal.
pub open spec fn after_ssh_event(before: SessionView, event: SshEvent) -> SessionView {
    match event {
        SshEvent::Connecting => SessionView { status: StatusView::Connecting, ..before },
        SshEvent::Ready => SessionView { status: StatusView::Connected, ..before },
        SshEvent::Disconnected { reason } => SessionView {
            attached: false,
            status: StatusView::Disconnected { reason: reason@ },
            ..before
        },
        SshEvent::Error(kind, message) => SessionView {
            attached: false,
            status: StatusView::Failed { kind: kind_text(kind), message: message@ },
            ..before
        },
        _ => before,
    }
}

/// The effects of an SSH event: a shell that came up is told the size again,
/// because the terminal was laid out while the transport had no pty yet, and what
/// the terminal answers is sent back.
pub open spec fn ssh_effects(before: SessionView, event: SshEvent) -> EffectsView {
    match event {
        SshEvent::Ready => EffectsView {
            resize: if before.attached {
                Some(before.terminal.dimensions())
            } else {
                None
            },
            ..redraw()
        },
        SshEvent::Data(bytes) => EffectsView {
            send: sendable(answers(before.terminal, bytes@), before.attached),
            ..redraw()
        },
        SshEvent::ExtendedData(bytes) => EffectsView {
            send: sendable(answers(before.terminal, bytes@), before.attached),
            ..redraw()
        },
        _ => redraw(),
    }
}

/// The bytes a pty event carries to the terminal.
pub open spec fn pty_output(event: PtyEvent) -> Option<Seq<u8>> {
    match event {
        PtyEvent::Data(bytes) => Some(bytes@),
        _ => None,
    }
}

/// The state after a pty event, all but the terminal. A shell that exits is a
/// plain disconnect: the user typed `exit`.
pub open spec fn after_pty_event(before: SessionView, event: PtyEvent) -> SessionView {
    match event {
        PtyEvent::Ready => SessionView { status: StatusView::Connected, ..before },
        PtyEvent::Data(_) => before,
        PtyEvent::Exited => SessionView {
            attached: false,
            status: StatusView::Disconnected { reason: LOCAL_EXIT_REASON@ },
            ..before
        },
        PtyEvent::Error(message) => SessionView {
            attached: false,
            status: StatusView::Failed { kind: LOCAL_FAILURE_KIND@, message: message@ },
            ..before
        },
    }
}

/// The effects of a pty event.
pub open spec fn pty_effects(before: SessionView, event: PtyEvent) -> EffectsView {
    match event {
        PtyEvent::Ready => EffectsView {
            resize: if before.attached {
                Some(before.terminal.dimensions())
            } else {
                None
            },
            ..redraw()
        },
        PtyEvent::Data(bytes) => EffectsView {
            send: sendable(answers(before.terminal, bytes@), before.attached),
            ..redraw()
        },
        _ => redraw(),
    }
}

/// The depth of history that settings ask for, as far as lines can be numbered.
fn depth(lines: u64) -> (depth: usize)
    ensures
        depth == history_limit(lines as int),
{
    if lines > MAX_HISTORY as u64 {
        MAX_HISTORY
    } else {
        lines as usize
    }
}

impl Session {
    /// Builds a session for `profile` and starts connecting straight away.
    ///
    /// The terminal is created from the effective settings, so the scheme and the
    /// scrollback depth are right from the very first frame. `theme` is the palette
    /// of the effective scheme.
    pub fn new(
        profile: SessionProfile,
        auth: SshAuth,
        settings: &AppSettings,
        theme: TerminalTheme,
    ) -> (started: (Session, Effects))
        ensures
            started.0@.starting(Target::Ssh { profile, auth }, profile.overrides, *settings, theme),
            started.1@ == opens(
                Target::Ssh { profile, auth },
                profile.overrides,
                *settings,
                (INITIAL_COLS, INITIAL_ROWS),
            ),
    {
        let overrides = profile.overrides.clone();
        Session::build(Target::Ssh { profile, auth }, overrides, settings, theme)
    }

    /// Builds a session running the user's login shell, named `shell`, on this
    /// machine, and starts it straight away. A local session is not saved and so
    /// carries no overrides of its own.
    pub fn new_local(shell: String, settings: &AppSettings, theme: TerminalTheme) -> (started: (Session, Effects))
        ensures
            started.0@.starting(Target::Local { shell, cwd: None }, no_overrides(), *settings, theme),
            started.1@ == opens(
                Target::Local { shell, cwd: None },
                no_overrides(),
                *settings,
                (INITIAL_COLS, INITIAL_ROWS),
            ),
    {
        Session::new_local_in(None, shell, settings, theme)
    }

    /// [`Session::new_local`], starting the shell in `cwd`.
    fn new_local_in(cwd: Option<String>, shell: String, settings: &AppSettings, theme: TerminalTheme) -> (started: (
        Session,
        Effects,
    ))
        ensures
            started.0@.starting(Target::Local { shell, cwd }, no_overrides(), *settings, theme),
            started.1@ == opens(
                Target::Local { shell, cwd },
                no_overrides(),
                *settings,
                (INITIAL_COLS, INITIAL_ROWS),
            ),
    {
        Session::build(Target::Local { shell, cwd }, SessionOverrides::default(), settings, theme)
    }

    /// The common part of the constructors: a terminal built from the effective
    /// settings, and a transport on its way.
    fn build(
        target: Target,
        overrides: SessionOverrides,
        settings: &AppSettings,
        theme: TerminalTheme,
    ) -> (started: (Session, Effects))
        ensures
            started.0@.starting(target, overrides, *settings, theme),
            started.1@ == opens(target, overrides, *settings, (INITIAL_COLS, INITIAL_ROWS)),
    {
        let effective = settings.effective_terminal(&overrides);
        let mut session = Session {
            target,
            overrides,
            attached: false,
            terminal: TerminalModel::new(
                INITIAL_COLS,
                INITIAL_ROWS,
                depth(effective.scrollback_lines),
                theme,
            ),
            status: SessionStatus::Connecting,
            cwd: None,
        };
        let effects = session.start(settings, theme);
        (session, effects)
    }

    /// Asks for the transport. Settings are read here rather than only in the
    /// constructor, so that a reconnect picks up a scheme, `TERM` or timeout changed
    /// since the session was first opened.
    fn start(&mut self, settings: &AppSettings, theme: TerminalTheme) -> (effects: Effects)
        requires
            old(self)@.wf(),
        ensures
            final(self)@.wf(),
            final(self)@ == (SessionView {
                attached: true,
                status: StatusView::Connecting,
                terminal: final(self)@.terminal,
                ..old(self)@
            }),
            final(self)@.terminal.palette() == theme,
            final(self)@.terminal.script() == old(self)@.terminal.script(),
            final(self)@.terminal.title_text() == old(self)@.terminal.title_text(),
            final(self)@.terminal.replies() == old(self)@.terminal.replies(),
            final(self)@.terminal.limit() == old(self)@.terminal.limit(),
            effects@ == opens(
                old(self)@.target,
                old(self)@.overrides,
                *settings,
                old(self)@.terminal.dimensions(),
            ),
    {
        let effective = settings.effective_terminal(&self.overrides);
        self.terminal.set_theme(theme);
        let size = self.terminal.size();
        let open = match &self.target {
            Target::Ssh { profile, auth } => Opening::Ssh(
                SshConfig {
                    host: profile.host.clone(),
                    port: profile.port,
                    username: profile.username.clone(),
                    auth: auth.clone(),
                    cols: size.0,
                    rows: size.1,
                    term: effective.term,
                    keepalive_secs: settings.connection.keepalive_secs,
                    connect_timeout_secs: settings.connection.connect_timeout_secs,
                },
            ),
            Target::Local { shell: _, cwd } => Opening::Local(
                PtyConfig { cols: size.0, rows: size.1, term: effective.term, cwd: copy_option(cwd) },
            ),
        };
        self.attached = true;
        self.status = SessionStatus::Connecting;
        Effects { close: false, open: Some(open), resize: None, send: None, notify: true }
    }

    /// The terminal settings of this session: the global ones with its overrides on
    /// top.
    pub fn effective(&self, settings: &AppSettings) -> (effective: EffectiveTerminal)
        ensures
            effective == effective_of(*settings, self@.overrides),
    {
        settings.effective_terminal(&self.overrides)
    }

    /// Applies the settings that can change on a live session: the palette alone.
    /// The scrollback depth is fixed when the terminal is built, and the `TERM`
    /// value was negotiated with the pty already: a reconnect picks up both.
    pub fn apply_settings(&mut self, theme: TerminalTheme) -> (effects: Effects)
        requires
            old(self)@.wf(),
        ensures
            final(self)@.wf(),
            final(self)@.same_but_terminal(old(self)@),
            final(self)@.terminal.palette() == theme,
            final(self)@.terminal.script() == old(self)@.terminal.script(),
            final(self)@.terminal.title_text() == old(self)@.terminal.title_text(),
            final(self)@.terminal.replies() == old(self)@.terminal.replies(),
            final(self)@.terminal.limit() == old(self)@.terminal.limit(),
            effects@ == redraw(),
    {
        self.terminal.set_theme(theme);
        Effects::redraw()
    }

    /// The current life cycle state.
    pub fn status(&self) -> (status: &SessionStatus)
        ensures
            status@ == self@.status,
    {
        &self.status
    }

    /// What this session is attached to, in one line: `user@host` for an SSH
    /// session, the name of the shell for a local one.
    pub fn label(&self) -> (label: String)
        ensures
            label@ == self@.label(),
    {
        match &self.target {
            Target::Ssh { profile, auth: _ } => profile.label(),
            Target::Local { shell, cwd: _ } => shell.clone(),
        }
    }

    /// Whether this session runs a shell on this machine rather than a remote one.
    pub fn is_local(&self) -> (local: bool)
        ensures
            local == (self@.target is Local),
    {
        match &self.target {
            Target::Ssh { .. } => false,
            Target::Local { .. } => true,
        }
    }

    /// The title to show in the tab.
    pub fn title(&self) -> (title: String)
        ensures
            title@ == self@.title(),
    {
        if let Some(title) = self.terminal.title() {
            let inner = trim(title);
            if to_chars(inner.as_str()).len() > 0 {
                return copy(title);
            }
        }
        match &self.target {
            Target::Ssh { profile, auth: _ } => profile.name.clone(),
            Target::Local { shell, cwd: _ } => shell.clone(),
        }
    }

    /// The working directory of the shell, if it announced one. The value survives a
    /// disconnect and is cleared by a reconnect, because the new shell has not
    /// reported anything yet.
    pub fn cwd(&self) -> (cwd: Option<&str>)
        ensures
            match cwd {
                Some(cwd) => self@.cwd == Some(cwd@),
                None => self@.cwd is None,
            },
    {
        match &self.cwd {
            Some(cwd) => Some(cwd.as_str()),
            None => None,
        }
    }

    /// The shell announced its working directory.
    pub fn announce_cwd(&mut self, cwd: String)
        ensures
            final(self)@ == (SessionView { cwd: Some(cwd@), ..old(self)@ }),
    {
        self.cwd = Some(cwd);
    }

    /// The filesystem this session can browse, or `None` while it carries no live
    /// shell to browse one over.
    pub fn files(&self) -> (source: Option<FileSource>)
        ensures
            source == self@.files(),
    {
        let connected = match &self.status {
            SessionStatus::Connected => true,
            _ => false,
        };
        if connected && self.attached {
            match &self.target {
                Target::Ssh { .. } => Some(FileSource::Sftp),
                Target::Local { .. } => Some(FileSource::Local),
            }
        } else {
            None
        }
    }

    /// The terminal model, for rendering.
    pub fn terminal(&self) -> (terminal: &TerminalModel)
        ensures
            *terminal == self@.terminal,
    {
        &self.terminal
    }

    /// The terminal model, for scrolling and other view driven mutations.
    pub fn terminal_mut(&mut self) -> (terminal: &mut TerminalModel)
        ensures
            *terminal == old(self)@.terminal,
            final(self)@ == (SessionView { terminal: *final(terminal), ..old(self)@ }),
    {
        &mut self.terminal
    }

    /// Sends already encoded key or paste bytes to the shell. Typing always snaps
    /// the viewport back to the bottom of the scrollback.
    pub fn send_input(&mut self, bytes: Vec<u8>) -> (effects: Effects)
        requires
            old(self)@.wf(),
        ensures
            input_sent(old(self)@, final(self)@, effects@, bytes@),
            bytes@.len() == 0 ==> *final(self) == *old(self),
    {
        if bytes.len() == 0 {
            return Effects::none();
        }
        self.terminal.scroll_to_bottom();
        let send = if self.attached { Some(bytes) } else { None };
        Effects { close: false, open: None, resize: None, send, notify: true }
    }

    /// Resizes the terminal and tells the transport about it. A resize to the
    /// current size is ignored, so callers may invoke this on every layout pass.
    pub fn resize(&mut self, cols: u16, rows: u16) -> (effects: Effects)
        requires
            old(self)@.wf(),
            old(self)@.terminal.fits(cols),
        ensures
            screen_resized(old(self)@, final(self)@, effects@, cols, rows),
            old(self)@.terminal.dimensions() == (at_least_one(cols), at_least_one(rows)) ==> *final(self) == *old(self),
    {
        let wide: u16 = if cols < 1 { 1 } else { cols };
        let high: u16 = if rows < 1 { 1 } else { rows };
        let size = self.terminal.size();
        if size.0 == wide && size.1 == high {
            return Effects::none();
        }
        self.terminal.resize(wide, high);
        let resize = if self.attached { Some((wide, high)) } else { None };
        Effects { close: false, open: None, resize, send: None, notify: true }
    }

    /// Ends the session. Safe to call on an already closed session.
    pub fn disconnect(&mut self) -> (effects: Effects)
        ensures
            final(self)@ == old(self)@.hung_up(),
            effects@ == (EffectsView { close: old(self)@.attached, ..redraw() }),
    {
        let close = self.attached;
        self.attached = false;
        if self.status.is_live() {
            self.status = SessionStatus::Disconnected { reason: copy(USER_EXIT_REASON) };
        }
        Effects { close, open: None, resize: None, send: None, notify: true }
    }

    /// Reopens the session: reconnects to the same host with the same credentials,
    /// or starts the login shell again. The new shell starts on a clean screen, with
    /// the scrollback depth that the settings ask for by now.
    pub fn reconnect(&mut self, settings: &AppSettings, theme: TerminalTheme) -> (effects: Effects)
        requires
            old(self)@.wf(),
        ensures
            final(self)@.wf(),
            reopened(old(self)@, final(self)@, effects@, *settings, theme),
    {
        let close = self.attached;
        self.attached = false;
        let effective = settings.effective_terminal(&self.overrides);
        let size = self.terminal.size();
        self.terminal = TerminalModel::new(size.0, size.1, depth(effective.scrollback_lines), theme);
        self.cwd = None;
        let effects = self.start(settings, theme);
        Effects { close, ..effects }
    }

    /// Opens a second, independent session onto the same target as this one.
    ///
    /// The credentials already in memory are reused, so a duplicate of an SSH
    /// session never asks for a password again. A duplicate of a local session
    /// starts in the directory the shell is in, when it reports one that still
    /// exists; `shell` is the name of the login shell and `is_dir` tells whether
    /// the announced directory is there. The current status is irrelevant.
    pub fn duplicate(
        &self,
        shell: String,
        is_dir: bool,
        settings: &AppSettings,
        theme: TerminalTheme,
    ) -> (started: (Session, Effects))
        ensures
            match self@.target {
                Target::Ssh { profile, auth } => {
                    &&& started.0@.starting(self@.target, profile.overrides, *settings, theme)
                    &&& started.1@ == opens(
                        self@.target,
                        profile.overrides,
                        *settings,
                        (INITIAL_COLS, INITIAL_ROWS),
                    )
                },
                Target::Local { .. } => {
                    &&& started.0@.target matches Target::Local { shell: named, cwd }
                    &&& named == shell
                    &&& match cwd {
                        Some(cwd) => self@.start_dir(is_dir) == Some(cwd@),
                        None => self@.start_dir(is_dir) is None,
                    }
                    &&& started.0@.starting(started.0@.target, no_overrides(), *settings, theme)
                    &&& started.1@ == opens(
                        started.0@.target,
                        no_overrides(),
                        *settings,
                        (INITIAL_COLS, INITIAL_ROWS),
                    )
                },
            },
    {
        match &self.target {
            Target::Ssh { profile, auth } => Session::new(profile.clone(), auth.clone(), settings, theme),
            Target::Local { .. } => {
                let cwd = self.local_start_dir(is_dir);
                Session::new_local_in(cwd, shell, settings, theme)
            },
        }
    }

    /// How the session should be rendered in the tab strip.
    pub fn tab_status(&self) -> (status: TabStatus)
        ensures
            status == self@.status.tab(),
    {
        self.status.tab_status()
    }

    /// The directory a duplicate of this local session should start in. Anything
    /// doubtful falls back to `None` and lets the new shell open wherever the
    /// application itself is.
    pub fn local_start_dir(&self, is_dir: bool) -> (dir: Option<String>)
        ensures
            match dir {
                Some(dir) => self@.start_dir(is_dir) == Some(dir@),
                None => self@.start_dir(is_dir) is None,
            },
    {
        match &self.cwd {
            Some(cwd) => {
                let chars = to_chars(cwd.as_str());
                if is_dir && starts_with(&chars, "/") {
                    Some(cwd.clone())
                } else {
                    None
                }
            },
            None => None,
        }
    }

    /// Applies one SSH transport event to the session state.
    pub fn on_ssh_event(&mut self, event: SshEvent) -> (effects: Effects)
        requires
            old(self)@.wf(),
            ssh_output(event) matches Some(bytes) ==> old(self)@.terminal.takes(bytes),
        ensures
            final(self)@.wf(),
            match ssh_output(event) {
                Some(bytes) => {
                    &&& final(self)@.same_but_terminal(old(self)@)
                    &&& fed(final(self)@.terminal, old(self)@.terminal, bytes)
                },
                None => final(self)@ == after_ssh_event(old(self)@, event),
            },
            effects@ == ssh_effects(old(self)@, event),
    {
        match event {
            SshEvent::Connecting => {
                self.status = SessionStatus::Connecting;
                Effects::redraw()
            },
            SshEvent::HostKey { algorithm: _, fingerprint: _, accepted: _ } => Effects::redraw(),
            SshEvent::Ready => self.on_transport_ready(),
            SshEvent::Data(bytes) => self.on_output(bytes.as_slice()),
            SshEvent::ExtendedData(bytes) => self.on_output(bytes.as_slice()),
            SshEvent::ExitStatus(_) => Effects::redraw(),
            SshEvent::Disconnected { reason } => {
                self.attached = false;
                self.status = SessionStatus::Disconnected { reason };
                Effects::redraw()
            },
            SshEvent::Error(kind, message) => {
                self.attached = false;
                self.status = SessionStatus::Failed { kind: copy(kind.text()), message };
                Effects::redraw()
            },
        }
    }

    /// Applies one local pty event to the session state.
    pub fn on_pty_event(&mut self, event: PtyEvent) -> (effects: Effects)
        requires
            old(self)@.wf(),
            pty_output(event) matches Some(bytes) ==> old(self)@.terminal.takes(bytes),
        ensures
            final(self)@.wf(),
            match pty_output(event) {
                Some(bytes) => {
                    &&& final(self)@.same_but_terminal(old(self)@)
                    &&& fed(final(self)@.terminal, old(self)@.terminal, bytes)
                },
                None => final(self)@ == after_pty_event(old(self)@, event),
            },
            effects@ == pty_effects(old(self)@, event),
    {
        match event {
            PtyEvent::Ready => self.on_transport_ready(),
            PtyEvent::Data(bytes) => self.on_output(bytes.as_slice()),
            PtyEvent::Exited => {
                self.attached = false;
                self.status = SessionStatus::Disconnected { reason: copy(LOCAL_EXIT_REASON) };
                Effects::redraw()
            },
            PtyEvent::Error(message) => {
                self.attached = false;
                self.status = SessionStatus::Failed { kind: copy(LOCAL_FAILURE_KIND), message };
                Effects::redraw()
            },
        }
    }

    /// The transport reports a shell on the other end.
    fn on_transport_ready(&mut self) -> (effects: Effects)
        ensures
            final(self)@ == (SessionView { status: StatusView::Connected, ..old(self)@ }),
            effects@ == (EffectsView {
                resize: if old(self)@.attached {
                    Some(old(self)@.terminal.dimensions())
                } else {
                    None
                },
                ..redraw()
            }),
    {
        self.status = SessionStatus::Connected;
        let size = self.terminal.size();
        let resize = if self.attached { Some(size) } else { None };
        Effects { close: false, open: None, resize, send: None, notify: true }
    }

    /// Feeds one chunk of shell output to the emulator and sends back what it
    /// answers: programs block until the reply arrives.
    fn on_output(&mut self, bytes: &[u8]) -> (effects: Effects)
        requires
            old(self)@.wf(),
            old(self)@.terminal.takes(bytes@),
        ensures
            final(self)@.same_but_terminal(old(self)@),
            fed(final(self)@.terminal, old(self)@.terminal, bytes@),
            effects@ == (EffectsView {
                send: sendable(answers(old(self)@.terminal, bytes@), old(self)@.attached),
                ..redraw()
            }),
    {
        self.terminal.feed(bytes);
        let reply = self.terminal.take_pty_output();
        let send = if reply.len() > 0 && self.attached { Some(reply) } else { None };
        Effects { close: false, open: None, resize: None, send, notify: true }
    }
}

/// While its transport is there, no event leaves a session live without one: a
/// session that loses its transport is never drawn as running.
pub proof fn a_live_session_keeps_its_transport(before: SessionView, ssh: SshEvent, pty: PtyEvent)
    requires
        before.attached,
    ensures
        after_ssh_event(before, ssh).status.live() ==> after_ssh_event(before, ssh).attached,
        after_pty_event(before, pty).status.live() ==> after_pty_event(before, pty).attached,
        after_ssh_event(before, ssh).files() is Some ==> after_ssh_event(before, ssh).status is Connected,
{
}

/// A session that ended or failed names no files to browse, whatever it was.
pub proof fn nothing_to_browse_without_a_shell(session: SessionView)
    requires
        !(session.status is Connected) || !session.attached,
    ensures
        session.files() is None,
{
}

/// The words of the transport reach the reader as they are.
pub proof fn summaries_quote_the_transport(reason: Seq<char>, kind: Seq<char>, message: Seq<char>)
    ensures
        (StatusView::Disconnected { reason }).summary().args == seq![("reason"@, reason)],
        (StatusView::Failed { kind, message }).summary().args == seq![("kind"@, kind), ("message"@, message)],
{
}

/// An event never changes what a session is attached to, nor its overrides: a
/// reconnect opens exactly what the session was opened with.
pub proof fn events_keep_the_target(before: SessionView, ssh: SshEvent, pty: PtyEvent)
    ensures
        after_ssh_event(before, ssh).target == before.target,
        after_ssh_event(before, ssh).overrides == before.overrides,
        after_ssh_event(before, ssh).cwd == before.cwd,
        after_pty_event(before, pty).target == before.target,
        after_pty_event(before, pty).overrides == before.overrides,
        after_pty_event(before, pty).cwd == before.cwd,
{
}

/// A session is live while it connects and while it is connected, and only then.
pub proof fn ended_sessions_are_not_live(reason: Seq<char>, kind: Seq<char>, message: Seq<char>)
    ensures
        StatusView::Connecting.live(),
        StatusView::Connected.live(),
        !(StatusView::Disconnected { reason }).live(),
        !(StatusView::Failed { kind, message }).live(),
{
}

/// Every status has its mark in the tab strip and its line in the status bar.
pub proof fn every_status_is_told_apart(reason: Seq<char>, kind: Seq<char>, message: Seq<char>)
    ensures
        StatusView::Connecting.tab() is Connecting,
        StatusView::Connected.tab() is Connected,
        (StatusView::Disconnected { reason }).tab() is Disconnected,
        (StatusView::Failed { kind, message }).tab() is Error,
        StatusView::Connecting.summary().key == "session.connecting"@,
        StatusView::Connected.summary().key == "session.connected"@,
        (StatusView::Disconnected { reason }).summary().key == "session.disconnected"@,
        (StatusView::Failed { kind, message }).summary().key == "session.failed"@,
        StatusView::Connecting.summary().args.len() == 0,
        StatusView::Connected.summary().args.len() == 0,
{
}

/// What a connection reports is what the session becomes: connecting, connected, ended
/// for the reason given or failed with the error given. Only an end and a failure give
/// the transport up, and everything else that is reported changes nothing.
pub proof fn a_connection_says_what_became_of_it(before: SessionView, reason: String, kind: SshErrorKind, event: SshEvent)
    ensures
        after_ssh_event(before, SshEvent::Connecting).status is Connecting,
        after_ssh_event(before, SshEvent::Ready).status is Connected,
        after_ssh_event(before, SshEvent::Disconnected { reason }).status == (StatusView::Disconnected {
            reason: reason@,
        }),
        after_ssh_event(before, SshEvent::Error(kind, reason)).status == (StatusView::Failed {
            kind: kind_text(kind),
            message: reason@,
        }),
        !after_ssh_event(before, SshEvent::Disconnected { reason }).attached,
        !after_ssh_event(before, SshEvent::Error(kind, reason)).attached,
        !(event is Disconnected) && !(event is Error) ==> after_ssh_event(before, event).attached == before.attached,
        event is HostKey || event is Data || event is ExtendedData || event is ExitStatus ==> after_ssh_event(
            before,
            event,
        ) == before,
        after_ssh_event(before, event).terminal == before.terminal,
{
}

/// What a local shell reports is what the session becomes.
pub proof fn a_shell_says_what_became_of_it(before: SessionView, text: String, event: PtyEvent)
    ensures
        after_pty_event(before, PtyEvent::Ready) == (SessionView { status: StatusView::Connected, ..before }),
        after_pty_event(before, PtyEvent::Exited).status == (StatusView::Disconnected {
            reason: "the local shell exited"@,
        }),
        after_pty_event(before, PtyEvent::Error(text)).status == (StatusView::Failed {
            kind: "local shell"@,
            message: text@,
        }),
        !after_pty_event(before, PtyEvent::Exited).attached,
        !after_pty_event(before, PtyEvent::Error(text)).attached,
        event is Data ==> after_pty_event(before, event) == before,
        after_pty_event(before, event).terminal == before.terminal,
{
}

/// A transport that is ready is told the size of the terminal; what the terminal
/// answers to output goes back to the transport it came from, if it is still there.
/// Every event draws the terminal anew and none opens or closes anything.
pub proof fn a_ready_transport_learns_the_size(before: SessionView, event: SshEvent, local: PtyEvent)
    ensures
        event is Ready && before.attached ==> ssh_effects(before, event).resize == Some(before.terminal.dimensions()),
        !(event is Ready) || !before.attached ==> ssh_effects(before, event).resize is None,
        local is Ready && before.attached ==> pty_effects(before, local).resize == Some(before.terminal.dimensions()),
        !(local is Ready) || !before.attached ==> pty_effects(before, local).resize is None,
        ssh_effects(before, event).notify && pty_effects(before, local).notify,
        ssh_effects(before, event).open is None && pty_effects(before, local).open is None,
        !ssh_effects(before, event).close && !pty_effects(before, local).close,
        ssh_output(event) is None ==> ssh_effects(before, event).send is None,
        pty_output(local) is None ==> pty_effects(before, local).send is None,
        !before.attached ==> ssh_effects(before, event).send is None && pty_effects(before, local).send is None,
        ssh_output(event) matches Some(bytes) ==> (before.attached && answers(before.terminal, bytes).len() > 0
            ==> ssh_effects(before, event).send == Some(answers(before.terminal, bytes))),
        pty_output(local) matches Some(bytes) ==> (before.attached && answers(before.terminal, bytes).len() > 0
            ==> pty_effects(before, local).send == Some(answers(before.terminal, bytes))),
{
}

/// Both streams of a connection and the one of a shell are output, byte for byte.
pub proof fn output_is_what_was_read(bytes: Vec<u8>)
    ensures
        ssh_output(SshEvent::Data(bytes)) == Some(bytes@),
        ssh_output(SshEvent::ExtendedData(bytes)) == Some(bytes@),
        ssh_output(SshEvent::Ready) is None,
        pty_output(PtyEvent::Data(bytes)) == Some(bytes@),
        pty_output(PtyEvent::Ready) is None,
        pty_output(PtyEvent::Exited) is None,
{
}

/// An SSH session is opened to the host, the port and the user of its profile with its
/// credentials, for a terminal of that many columns and rows.
pub proof fn a_connection_goes_where_the_profile_says(
    profile: SessionProfile,
    auth: SshAuth,
    shell: String,
    cwd: Option<String>,
    settings: AppSettings,
    term: String,
    cols: u16,
    rows: u16,
)
    ensures
        opening_of(Target::Ssh { profile, auth }, settings, term, (cols, rows)) matches Opening::Ssh(config)
            && config.host == profile.host && config.port == profile.port && config.username == profile.username
            && config.auth == auth && config.cols == cols && config.rows == rows && config.term == term
            && config.keepalive_secs == settings.connection.keepalive_secs && config.connect_timeout_secs
            == settings.connection.connect_timeout_secs,
        opening_of(Target::Local { shell, cwd }, settings, term, (cols, rows)) matches Opening::Local(config)
            && config.cols == cols && config.rows == rows && config.term == term && config.cwd == cwd,
{
}

/// Opening asks for the terminal type of the session's overrides, or else of the
/// settings, and draws.
pub proof fn opening_asks_for_one_transport(
    target: Target,
    overrides: SessionOverrides,
    settings: AppSettings,
    size: (u16, u16),
)
    ensures
        opens(target, overrides, settings, size).open == Some(
            opening_of(
                target,
                settings,
                match overrides.term {
                    Some(term) => term,
                    None => settings.terminal.term,
                },
                size,
            ),
        ),
        opens(target, overrides, settings, size).notify,
        !opens(target, overrides, settings, size).close,
        opens(target, overrides, settings, size).resize is None && opens(target, overrides, settings, size).send is None,
        no_effects().open is None && no_effects().resize is None && no_effects().send is None && !no_effects().close
            && !no_effects().notify,
        redraw() == (EffectsView { notify: true, ..no_effects() }),
{
}

/// A session is labelled by user and host, and titled as its program asks, or else by
/// the name of its profile; a local one goes by its shell.
pub proof fn sessions_are_named_after_their_targets(session: SessionView)
    ensures
        session.target matches Target::Ssh { profile, .. } ==> {
            &&& session.label() == profile.username@ + seq!['@'] + profile.host@
            &&& session.terminal.title_text() is None ==> session.title() == profile.name@
        },
        session.target matches Target::Local { shell, .. } ==> {
            &&& session.label() == shell@
            &&& session.terminal.title_text() is None ==> session.title() == shell@
        },
        session.terminal.title_text() matches Some(title) ==> (trimmed(title).len() > 0 ==> session.title() == title),
        session.terminal.title_text() matches Some(title) ==> (trimmed(title).len() == 0 ==> session.title() == (
        match session.target {
            Target::Ssh { profile, .. } => profile.name@,
            Target::Local { shell, .. } => shell@,
        })),
{
    if let Target::Ssh { profile, .. } = session.target {
        crate::profile::labels_name_user_and_host(profile);
    }
}

/// A connected session has files to browse: over the connection, or on this machine.
pub proof fn connected_sessions_have_files(session: SessionView)
    requires
        session.status is Connected,
        session.attached,
    ensures
        session.target is Ssh ==> session.files() == Some(FileSource::Sftp),
        session.target is Local ==> session.files() == Some(FileSource::Local),
{
}

/// A duplicate of a local session starts in the directory of the original, if that is
/// absolute and there.
pub proof fn duplicates_start_where_the_shell_is(session: SessionView, is_dir: bool, cwd: Seq<char>)
    requires
        session.cwd == Some(cwd),
    ensures
        cwd.len() > 0 && cwd[0] == '/' && is_dir ==> session.start_dir(is_dir) == Some(cwd),
        cwd.len() == 0 || cwd[0] != '/' || !is_dir ==> session.start_dir(is_dir) is None,
{
    reveal_strlit("/");
    if "/"@.is_prefix_of(cwd) {
        assert("/"@[0] == '/');
        assert(cwd[0] == "/"@[0]);
    }
    if cwd.len() > 0 && cwd[0] == '/' {
        assert("/"@ =~= cwd.take(1));
        assert("/"@.is_prefix_of(cwd));
    }
}

/// Closing a session gives its transport up. One that was live was closed by its user;
/// one that had ended keeps saying why.
pub proof fn closing_a_session_keeps_its_reason(session: SessionView)
    ensures
        !session.hung_up().attached,
        session.status is Connecting || session.status is Connected ==> session.hung_up().status
            == (StatusView::Disconnected { reason: "closed by the user"@ }),
        session.status is Disconnected || session.status is Failed ==> session.hung_up().status == session.status,
        session.hung_up().target == session.target && session.hung_up().overrides == session.overrides,
        session.hung_up().terminal == session.terminal && session.hung_up().cwd == session.cwd,
        session.hung_up().hung_up() == session.hung_up(),
{
}

/// A session that reconnects opens the target it had, at the size it has, and hangs up
/// first where a transport is left.
pub proof fn reconnecting_opens_the_same_target(
    before: SessionView,
    after: SessionView,
    effects: EffectsView,
    settings: AppSettings,
    theme: TerminalTheme,
)
    requires
        reopened(before, after, effects, settings, theme),
    ensures
        after.target == before.target && after.overrides == before.overrides,
        after.attached && after.status is Connecting && after.cwd is None,
        effects.close == before.attached,
        effects.open is Some,
        effects.open == opens(before.target, before.overrides, settings, before.terminal.dimensions()).open,
        effects.notify,
        fed_bytes(after.terminal.script()).len() == 0,
        after.terminal.dimensions() == before.terminal.dimensions(),
        after.terminal.palette() == theme,
{
}

/// What is typed goes to the transport byte for byte, while there is one, and shows the
/// end of the output.
pub proof fn typing_reaches_the_transport(
    before: SessionView,
    after: SessionView,
    effects: EffectsView,
    bytes: Seq<u8>,
)
    requires
        input_sent(before, after, effects, bytes),
    ensures
        bytes.len() > 0 && before.attached ==> effects.send == Some(bytes),
        !before.attached ==> effects.send is None,
        bytes.len() > 0 ==> scrolled_back(after.terminal.script()) == 0 && effects.notify,
        bytes.len() == 0 ==> after == before && effects.send is None && !effects.notify,
        after.status == before.status && after.target == before.target,
        effects.open is None && !effects.close && effects.resize is None,
{
}

/// The transport is told of a size that changed, columns first, and of no other; no
/// terminal is smaller than one cell.
pub proof fn resizing_tells_the_transport(
    before: SessionView,
    after: SessionView,
    effects: EffectsView,
    cols: u16,
    rows: u16,
)
    requires
        screen_resized(before, after, effects, cols, rows),
        cols > 0,
        rows > 0,
    ensures
        after.terminal.dimensions() == (cols, rows),
        before.terminal.dimensions() != (cols, rows) && before.attached ==> effects.resize == Some((cols, rows)),
        before.terminal.dimensions() == (cols, rows) || !before.attached ==> effects.resize is None,
        before.terminal.dimensions() != (cols, rows) <==> effects.notify,
        effects.send is None && effects.open is None && !effects.close,
        at_least_one(0) == 1,
{
}

/// A new session connects, with eighty columns and twenty-four rows, on an empty screen.
pub proof fn new_sessions_start_empty(
    session: SessionView,
    target: Target,
    overrides: SessionOverrides,
    settings: AppSettings,
    theme: TerminalTheme,
)
    requires
        session.starting(target, overrides, settings, theme),
    ensures
        session.target == target && session.overrides == overrides,
        session.attached && session.status is Connecting && session.cwd is None,
        session.terminal.dimensions() == (80u16, 24u16),
        session.terminal.palette() == theme,
        fed_bytes(session.terminal.script()).len() == 0,
{
}

} // verus!
