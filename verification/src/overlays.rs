//! What lies above the panes: the dialogs, the dropdown menus and the file panel.
//!
//! Opening a dialog always puts everything else away, which keeps the dialogs
//! mutually exclusive.
use vstd::prelude::*;

use crate::connection::SshAuth;
use crate::profile::{AuthMethod, SessionProfile};
use crate::settings::TitlebarStyle;
use crate::workspace::{Focus, Workspace};

verus! {

/// The dialogs that take the window over.
#[derive(Debug, Clone, Copy, PartialEq, Eq, Structural)]
pub enum Dialog {
    Connection,
    Settings,
    About,
}

/// What a dialog reports.
#[derive(Debug, Clone, Copy, PartialEq, Eq, Structural)]
pub enum DialogEvent {
    /// The connection dialog asks for a session. It is done, or it stays open so that
    /// what went wrong on the way can be read while the session opens behind it.
    Connect { stays: bool },
    /// The settings dialog applied the settings and closed itself.
    Applied,
    /// The themes changed under the open settings dialog.
    ThemesChanged,
    /// The dialog was dismissed.
    Dismissed,
}

/// What follows from the report of a dialog.
#[derive(Debug, Clone, Copy, PartialEq, Eq, Structural)]
pub struct DialogOutcome {
    /// Close the dialog.
    pub close: bool,
    /// Open the session that the dialog asks for.
    pub open_session: bool,
    /// Apply the settings to the window and to every open session.
    pub apply_settings: bool,
    /// Move keyboard focus.
    pub focus: Option<Focus>,
}

/// What the dismiss key did.
#[derive(Debug, Clone, Copy, PartialEq, Eq, Structural)]
pub enum Dismissal {
    /// The context menu of a tab closed.
    TabContext,
    /// The application menu closed.
    Menu,
    /// The list of tabs closed.
    TabMenu,
    /// A dialog closed; keyboard focus goes back to the workspace.
    Dialog(Dialog, Focus),
    /// The connection dialog is to dismiss itself, which it then reports.
    AskConnection,
    /// Nothing was open: the key belongs to the terminal.
    PassOn,
}

/// What became of the key file of a profile.
#[derive(Debug, Clone, Copy, PartialEq, Eq, Structural)]
pub enum KeyFile {
    Missing,
    Encrypted,
    /// It needs no passphrase.
    Plain,
}

/// Credentials that a saved profile carries on its own.
pub open spec fn carries(profile: SessionProfile, secret: Option<String>, key: KeyFile, auth: SshAuth) -> bool {
    match profile.auth {
        AuthMethod::Password => profile.save_secret && (secret matches Some(password) && auth == SshAuth::Password(
            password,
        )),
        AuthMethod::PublicKey { key_path } => match key {
            KeyFile::Missing => false,
            KeyFile::Plain => auth == (SshAuth::PrivateKeyFile { path: key_path, passphrase: None }),
            KeyFile::Encrypted => profile.save_secret && secret is Some && auth == (SshAuth::PrivateKeyFile {
                path: key_path,
                passphrase: secret,
            }),
        },
        AuthMethod::Agent => false,
    }
}

/// The credentials of a profile the user already finished configuring: a remembered
/// password, or a key that needs no passphrase or whose passphrase is remembered.
///
/// `secret` is what the keychain holds for the profile. There are none when anything
/// would have to be typed or corrected: such a profile opens the dialog instead.
pub fn saved_auth(profile: &SessionProfile, secret: Option<String>, key: KeyFile) -> (auth: Option<SshAuth>)
    ensures
        match auth {
            Some(auth) => carries(*profile, secret, key, auth),
            None => forall|auth: SshAuth| !carries(*profile, secret, key, auth),
        },
{
    match &profile.auth {
        AuthMethod::Password => if profile.save_secret {
            match secret {
                Some(password) => Some(SshAuth::Password(password)),
                None => None,
            }
        } else {
            None
        },
        AuthMethod::PublicKey { key_path } => match key {
            KeyFile::Missing => None,
            KeyFile::Plain => Some(SshAuth::PrivateKeyFile { path: key_path.clone(), passphrase: None }),
            KeyFile::Encrypted => if profile.save_secret && secret.is_some() {
                Some(SshAuth::PrivateKeyFile { path: key_path.clone(), passphrase: secret })
            } else {
                None
            },
        },
        AuthMethod::Agent => None,
    }
}

/// What an event of a dialog does to the workspace, and what it asks for.
pub open spec fn dialog_answered(
    before: Workspace,
    after: Workspace,
    dialog: Dialog,
    event: DialogEvent,
    outcome: DialogOutcome,
) -> bool {
    match event {
        DialogEvent::Connect { stays } => {
            &&& after == if stays {
                before
            } else {
                before.closing(dialog)
            }
            &&& outcome == (DialogOutcome {
                close: !stays,
                open_session: true,
                apply_settings: false,
                focus: None,
            })
        },
        DialogEvent::Applied => {
            &&& after == before.closing(dialog)
            &&& outcome == (DialogOutcome {
                close: false,
                open_session: false,
                apply_settings: true,
                focus: Some(after.focus_target()),
            })
        },
        DialogEvent::ThemesChanged => {
            &&& after == before
            &&& outcome == (DialogOutcome {
                close: false,
                open_session: false,
                apply_settings: true,
                focus: None,
            })
        },
        DialogEvent::Dismissed => {
            &&& after == before.closing(dialog)
            &&& outcome == (DialogOutcome {
                close: true,
                open_session: false,
                apply_settings: false,
                focus: Some(after.focus_target()),
            })
        },
    }
}

/// What the escape key closes.
pub open spec fn dismissed(before: Workspace, after: Workspace, done: Dismissal) -> bool {
    match done {
        Dismissal::TabContext => {
            &&& before.tab_context is Some
            &&& after == (Workspace { tab_context: None, ..before })
        },
        Dismissal::Menu => {
            &&& before.tab_context is None && before.menu_open
            &&& after == (Workspace { menu_open: false, ..before })
        },
        Dismissal::TabMenu => {
            &&& before.tab_context is None && !before.menu_open && before.tab_menu_open
            &&& after == (Workspace { tab_menu_open: false, ..before })
        },
        Dismissal::Dialog(dialog, focus) => {
            &&& before.tab_context is None && !before.menu_open && !before.tab_menu_open
            &&& !(dialog is Connection) && before.shows(dialog)
            &&& after == before.closing(dialog)
            &&& focus == after.focus_target()
        },
        Dismissal::AskConnection => {
            &&& before.tab_context is None && !before.menu_open && !before.tab_menu_open
            &&& before.connecting
            &&& after == before
        },
        Dismissal::PassOn => {
            &&& before == before.bare()
            &&& after == before
        },
    }
}

impl Workspace {
    /// A dialog is on screen.
    pub open spec fn shows(self, dialog: Dialog) -> bool {
        match dialog {
            Dialog::Connection => self.connecting,
            Dialog::Settings => self.configuring,
            Dialog::About => self.about,
        }
    }

    /// The workspace with everything put away.
    pub open spec fn bare(self) -> Workspace {
        Workspace {
            menu_open: false,
            tab_menu_open: false,
            tab_context: None,
            connecting: false,
            configuring: false,
            about: false,
            ..self
        }
    }

    /// The workspace with one dialog closed.
    pub open spec fn closing(self, dialog: Dialog) -> Workspace {
        match dialog {
            Dialog::Connection => Workspace { connecting: false, ..self },
            Dialog::Settings => Workspace { configuring: false, ..self },
            Dialog::About => Workspace { about: false, ..self },
        }
    }

    /// The workspace with one dialog on screen and nothing else above the panes.
    pub open spec fn showing(self, dialog: Dialog) -> Workspace {
        match dialog {
            Dialog::Connection => Workspace { connecting: true, ..self.bare() },
            Dialog::Settings => Workspace { configuring: true, ..self.bare() },
            Dialog::About => Workspace { about: true, ..self.bare() },
        }
    }

    /// Whether one of the dialogs is on screen.
    pub fn dialog_open(&self) -> (open: bool)
        ensures
            open == exists|dialog: Dialog| self.shows(dialog),
    {
        proof {
            if self.connecting {
                assert(self.shows(Dialog::Connection));
            }
            if self.configuring {
                assert(self.shows(Dialog::Settings));
            }
            if self.about {
                assert(self.shows(Dialog::About));
            }
        }
        self.connecting || self.configuring || self.about
    }

    /// Closes every dialog and every menu. Tells which dialog was open.
    pub fn close_overlays(&mut self) -> (closed: Option<Dialog>)
        requires
            old(self).wf(),
        ensures
            final(self).wf(),
            *final(self) == old(self).bare(),
            match closed {
                Some(dialog) => old(self).shows(dialog),
                None => forall|dialog: Dialog| !old(self).shows(dialog),
            },
    {
        let closed = if self.connecting {
            Some(Dialog::Connection)
        } else if self.configuring {
            Some(Dialog::Settings)
        } else if self.about {
            Some(Dialog::About)
        } else {
            None
        };
        self.menu_open = false;
        self.tab_menu_open = false;
        self.tab_context = None;
        self.connecting = false;
        self.configuring = false;
        self.about = false;
        closed
    }

    /// Shows a dialog. Tells which one was open before.
    fn open(&mut self, dialog: Dialog) -> (closed: Option<Dialog>)
        requires
            old(self).wf(),
        ensures
            final(self).wf(),
            *final(self) == old(self).showing(dialog),
            match closed {
                Some(dialog) => old(self).shows(dialog),
                None => forall|dialog: Dialog| !old(self).shows(dialog),
            },
    {
        let closed = self.close_overlays();
        match dialog {
            Dialog::Connection => {
                self.connecting = true;
            },
            Dialog::Settings => {
                self.configuring = true;
            },
            Dialog::About => {
                self.about = true;
            },
        }
        closed
    }

    /// Shows the connection dialog with an empty form.
    pub fn open_dialog(&mut self) -> (closed: Option<Dialog>)
        requires
            old(self).wf(),
        ensures
            final(self).wf(),
            *final(self) == old(self).showing(Dialog::Connection),
            match closed {
                Some(dialog) => old(self).shows(dialog),
                None => forall|dialog: Dialog| !old(self).shows(dialog),
            },
    {
        self.open(Dialog::Connection)
    }

    /// Opens a saved profile. One that carries its credentials connects on the click;
    /// the dialog opens, pre-filled, whenever anything would have to be typed or
    /// corrected.
    pub fn open_profile(&mut self, profile: &SessionProfile, secret: Option<String>, key: KeyFile) -> (auth: Option<
        SshAuth,
    >)
        requires
            old(self).wf(),
        ensures
            final(self).wf(),
            match auth {
                Some(auth) => {
                    &&& carries(*profile, secret, key, auth)
                    &&& *final(self) == old(self).bare()
                },
                None => {
                    &&& forall|auth: SshAuth| !carries(*profile, secret, key, auth)
                    &&& *final(self) == old(self).showing(Dialog::Connection)
                },
            },
    {
        match saved_auth(profile, secret, key) {
            Some(auth) => {
                self.close_overlays();
                Some(auth)
            },
            None => {
                self.open(Dialog::Connection);
                None
            },
        }
    }

    /// Shows the settings dialog.
    pub fn open_settings(&mut self) -> (closed: Option<Dialog>)
        requires
            old(self).wf(),
        ensures
            final(self).wf(),
            *final(self) == old(self).showing(Dialog::Settings),
            match closed {
                Some(dialog) => old(self).shows(dialog),
                None => forall|dialog: Dialog| !old(self).shows(dialog),
            },
    {
        self.open(Dialog::Settings)
    }

    /// Shows the about dialog.
    pub fn open_about(&mut self) -> (closed: Option<Dialog>)
        requires
            old(self).wf(),
        ensures
            final(self).wf(),
            *final(self) == old(self).showing(Dialog::About),
            match closed {
                Some(dialog) => old(self).shows(dialog),
                None => forall|dialog: Dialog| !old(self).shows(dialog),
            },
    {
        self.open(Dialog::About)
    }

    /// A dialog reported something. A dialog that closes hands keyboard focus back,
    /// unless a session is about to take it; one that stays open keeps it.
    pub fn on_dialog_event(&mut self, dialog: Dialog, event: DialogEvent) -> (outcome: DialogOutcome)
        requires
            old(self).wf(),
        ensures
            final(self).wf(),
            dialog_answered(*old(self), *final(self), dialog, event, outcome),
    {
        match event {
            DialogEvent::Connect { stays } => {
                if !stays {
                    self.close_one(dialog);
                }
                DialogOutcome { close: !stays, open_session: true, apply_settings: false, focus: None }
            },
            DialogEvent::Applied => {
                self.close_one(dialog);
                DialogOutcome {
                    close: false,
                    open_session: false,
                    apply_settings: true,
                    focus: Some(self.focus_active()),
                }
            },
            DialogEvent::ThemesChanged => DialogOutcome {
                close: false,
                open_session: false,
                apply_settings: true,
                focus: None,
            },
            DialogEvent::Dismissed => {
                self.close_one(dialog);
                DialogOutcome {
                    close: true,
                    open_session: false,
                    apply_settings: false,
                    focus: Some(self.focus_active()),
                }
            },
        }
    }

    /// A dialog is no longer on screen.
    fn close_one(&mut self, dialog: Dialog)
        requires
            old(self).wf(),
        ensures
            final(self).wf(),
            *final(self) == old(self).closing(dialog),
    {
        match dialog {
            Dialog::Connection => {
                self.connecting = false;
            },
            Dialog::Settings => {
                self.configuring = false;
            },
            Dialog::About => {
                self.about = false;
            },
        }
    }

    /// Shows or hides the file panel.
    pub fn toggle_file_panel(&mut self)
        ensures
            *final(self) == (Workspace { panel_open: !old(self).panel_open, ..*old(self) }),
    {
        self.panel_open = !self.panel_open;
    }

    /// Shows or hides the application dropdown menu. Tells whether that changed
    /// anything.
    pub fn set_menu_open(&mut self, open: bool) -> (changed: bool)
        ensures
            *final(self) == (Workspace { menu_open: open, ..*old(self) }),
            changed == (old(self).menu_open != open),
    {
        if self.menu_open == open {
            return false;
        }
        self.menu_open = open;
        true
    }

    /// Shows or hides the tab strip's dropdown tab list. Tells whether that changed
    /// anything.
    pub fn set_tab_menu_open(&mut self, open: bool) -> (changed: bool)
        ensures
            *final(self) == (Workspace { tab_menu_open: open, ..*old(self) }),
            changed == (old(self).tab_menu_open != open),
    {
        if self.tab_menu_open == open {
            return false;
        }
        self.tab_menu_open = open;
        true
    }

    /// Opens the context menu of the tab at `index`, with its corner at a point of
    /// the window. A dialog outranks the strip; the two dropdowns make way.
    pub fn open_tab_context(&mut self, index: usize, x: i64, y: i64) -> (opened: bool)
        ensures
            opened == (index < old(self).tabs@.len() && forall|dialog: Dialog| !old(self).shows(dialog)),
            *final(self) == if opened {
                Workspace {
                    menu_open: false,
                    tab_menu_open: false,
                    tab_context: Some((index, x, y)),
                    ..*old(self)
                }
            } else {
                *old(self)
            },
    {
        if index >= self.tabs.len() || self.dialog_open() {
            return false;
        }
        self.menu_open = false;
        self.tab_menu_open = false;
        self.tab_context = Some((index, x, y));
        true
    }

    /// Puts the tab context menu away, if one is open.
    pub fn close_tab_context(&mut self) -> (changed: bool)
        ensures
            *final(self) == (Workspace { tab_context: None, ..*old(self) }),
            changed == (old(self).tab_context is Some),
    {
        let changed = self.tab_context.is_some();
        self.tab_context = None;
        changed
    }

    /// The dismiss key: closes what lies on top, or lets the key through to the
    /// terminal when nothing does. The menus paint above the dialogs.
    pub fn dismiss_dialog(&mut self) -> (done: Dismissal)
        requires
            old(self).wf(),
        ensures
            final(self).wf(),
            dismissed(*old(self), *final(self), done),
    {
        if self.tab_context.is_some() {
            self.close_tab_context();
            return Dismissal::TabContext;
        }
        if self.menu_open {
            self.set_menu_open(false);
            return Dismissal::Menu;
        }
        if self.tab_menu_open {
            self.set_tab_menu_open(false);
            return Dismissal::TabMenu;
        }
        if self.about {
            self.close_one(Dialog::About);
            return Dismissal::Dialog(Dialog::About, self.focus_active());
        }
        if self.connecting {
            return Dismissal::AskConnection;
        }
        if self.configuring {
            self.close_one(Dialog::Settings);
            return Dismissal::Dialog(Dialog::Settings, self.focus_active());
        }
        Dismissal::PassOn
    }

    /// Takes over the title bar style of the settings. Tells what the window is to
    /// carry from now on, when that changes.
    pub fn apply_titlebar(&mut self, style: TitlebarStyle) -> (switch: Option<TitlebarStyle>)
        ensures
            *final(self) == (Workspace { titlebar: style, ..*old(self) }),
            switch == if old(self).titlebar == style {
                None
            } else {
                Some(style)
            },
    {
        if self.titlebar == style {
            return None;
        }
        self.titlebar = style;
        Some(style)
    }
}

/// At most one dialog is ever on screen, and a dialog that opens has the window to
/// itself.
pub proof fn dialogs_exclude_each_other(workspace: Workspace, one: Dialog, other: Dialog)
    requires
        workspace.wf(),
    ensures
        workspace.shows(one) && workspace.shows(other) ==> one == other,
        workspace.showing(one).shows(other) == (one == other),
        !workspace.showing(one).menu_open,
        !workspace.showing(one).tab_menu_open,
        workspace.showing(one).tab_context is None,
{
}

/// Opening and closing what lies above the panes leaves the panes alone.
pub proof fn overlays_leave_the_panes_alone(workspace: Workspace, dialog: Dialog)
    ensures
        workspace.showing(dialog).tabs == workspace.tabs,
        workspace.showing(dialog).active == workspace.active,
        workspace.closing(dialog).tabs == workspace.tabs,
        workspace.bare().focus_target() == workspace.focus_target(),
{
}

/// A dialog shows under its own name, and closing one closes that one.
pub proof fn dialogs_close_one_by_one(workspace: Workspace, dialog: Dialog, other: Dialog)
    ensures
        workspace.shows(Dialog::Connection) == workspace.connecting,
        workspace.shows(Dialog::Settings) == workspace.configuring,
        workspace.shows(Dialog::About) == workspace.about,
        !workspace.closing(dialog).shows(dialog),
        other != dialog ==> workspace.closing(dialog).shows(other) == workspace.shows(other),
        workspace.showing(dialog).shows(dialog),
        !workspace.bare().shows(dialog),
        !workspace.bare().menu_open && !workspace.bare().tab_menu_open && workspace.bare().tab_context is None,
        workspace.bare().panel_open == workspace.panel_open,
        workspace.bare().tabs == workspace.tabs && workspace.bare().active == workspace.active,
        workspace.bare().next_id == workspace.next_id && workspace.bare().titlebar == workspace.titlebar,
        workspace.closing(dialog).menu_open == workspace.menu_open,
        workspace.closing(dialog).panel_open == workspace.panel_open,
{
}

/// The escape key closes one thing, the topmost: a context menu, the menu, the list of
/// tabs, then a dialog. With nothing open it belongs to the terminal.
pub proof fn escape_closes_the_topmost(before: Workspace, after: Workspace, done: Dismissal)
    requires
        before.wf(),
        dismissed(before, after, done),
    ensures
        before.tab_context is Some ==> done is TabContext && after.tab_context is None && after.menu_open
            == before.menu_open,
        before.tab_context is None && before.menu_open ==> done is Menu && !after.menu_open && after.tab_menu_open
            == before.tab_menu_open,
        before.tab_context is None && !before.menu_open && before.tab_menu_open ==> done is TabMenu
            && !after.tab_menu_open,
        before.bare() == before && !before.configuring ==> done is PassOn,
        before.tab_context is None && !before.menu_open && !before.tab_menu_open && before.configuring ==> (
        done matches Dismissal::Dialog(dialog, focus) && dialog is Settings && !after.configuring && focus
            == before.focus_target()),
        before.tab_context is None && !before.menu_open && !before.tab_menu_open && before.about ==> (
        done matches Dismissal::Dialog(dialog, focus) && dialog is About && !after.about),
        before.tab_context is None && !before.menu_open && !before.tab_menu_open && before.connecting ==> done is AskConnection
            && after == before,
        after.tabs == before.tabs && after.active == before.active && after.panel_open == before.panel_open,
{
}

/// A dialog that asks for a session gets one, and goes unless it has something to tell;
/// one that was dismissed goes and gives the keyboard back; settings are applied when
/// they were, and when the themes changed.
pub proof fn dialogs_get_what_they_ask_for(
    before: Workspace,
    after: Workspace,
    dialog: Dialog,
    event: DialogEvent,
    outcome: DialogOutcome,
)
    requires
        dialog_answered(before, after, dialog, event, outcome),
    ensures
        outcome.open_session <==> event is Connect,
        outcome.apply_settings <==> event is Applied || event is ThemesChanged,
        event is Dismissed || event is Applied ==> !after.shows(dialog) && outcome.focus == Some(
            before.focus_target(),
        ),
        event is ThemesChanged ==> after == before && outcome.focus is None,
        event matches DialogEvent::Connect { stays } ==> outcome.close == !stays && (stays ==> after == before) && (!stays
            ==> !after.shows(dialog)),
        after.tabs == before.tabs && after.active == before.active,
{
}

/// A saved profile connects on its own with the password that was saved, with a key that
/// needs none, or with an encrypted key and the passphrase that was saved. An agent is
/// never asked behind the user's back.
pub proof fn saved_profiles_connect_on_their_own(
    profile: SessionProfile,
    path: String,
    word: String,
    key: KeyFile,
    auth: SshAuth,
)
    ensures
        profile.auth is Password && profile.save_secret ==> (carries(profile, Some(word), key, auth) <==> auth
            == SshAuth::Password(word)),
        profile.auth is Password && !profile.save_secret ==> !carries(profile, Some(word), key, auth),
        profile.auth is Password ==> !carries(profile, None, key, auth),
        profile.auth == (AuthMethod::PublicKey { key_path: path }) ==> {
            &&& carries(profile, Some(word), KeyFile::Plain, auth) <==> auth == (SshAuth::PrivateKeyFile {
                path,
                passphrase: None,
            })
            &&& carries(profile, None, KeyFile::Plain, auth) <==> auth == (SshAuth::PrivateKeyFile {
                path,
                passphrase: None,
            })
            &&& profile.save_secret ==> (carries(profile, Some(word), KeyFile::Encrypted, auth) <==> auth == (
            SshAuth::PrivateKeyFile { path, passphrase: Some(word) }))
            &&& !profile.save_secret ==> !carries(profile, Some(word), KeyFile::Encrypted, auth)
            &&& !carries(profile, None, KeyFile::Encrypted, auth)
            &&& !carries(profile, Some(word), KeyFile::Missing, auth)
        },
        profile.auth is Agent ==> !carries(profile, Some(word), key, auth),
{
}

} // verus!
