//! The connection dialog: saved profiles and the form used to open a session.
//!
//! By the time a connection is handed over, the profile is stored, the secret is
//! in the keychain when the user asked for that, and the credentials are
//! resolved into a ready-to-use [`SshAuth`]. Reading and writing the profile
//! file and the keychain happen between the steps of [`ConnectionDialog::connect`].
//!
//! Passwords and passphrases live only in the masked fields and in the
//! [`SshAuth`] handed to the caller. No message ever holds one.
use vstd::prelude::*;

use crate::profile::{
    distinct_ids, is_random_id, position_of, random_id, upserted, without, AuthMethod, ProfileStore, SessionProfile,
};
use crate::text::{copy, decimal, decimal_text, join2, join3, option_text, parse, parsed, to_chars, trim, trimmed};
use crate::ui::theme::Slot;

verus! {

/// Port pre-filled into the form and used when the port field is left empty.
pub const DEFAULT_PORT: u16 = 22;

/// Widest port number that still fits in a `u16`, in digits.
pub const MAX_PORT_DIGITS: usize = 5;

/// Width of the dialog panel, in pixels.
pub const DIALOG_WIDTH: u32 = 724;

/// Width of the saved-profile column, in pixels.
pub const LIST_WIDTH: u32 = 260;

/// Height at which the saved-profile column starts scrolling, in pixels.
pub const LIST_MAX_HEIGHT: u32 = 300;

/// Credentials of a session.
pub enum SshAuth {
    Password(String),
    PrivateKeyFile { path: String, passphrase: Option<String> },
}

impl Clone for SshAuth {
    fn clone(&self) -> (auth: SshAuth)
        ensures
            auth == *self,
    {
        match self {
            SshAuth::Password(password) => SshAuth::Password(password.clone()),
            SshAuth::PrivateKeyFile { path, passphrase } => SshAuth::PrivateKeyFile {
                path: path.clone(),
                passphrase: crate::profile::copy_option(passphrase),
            },
        }
    }
}

/// What the dialog tells its owner.
pub enum ConnectionDialogEvent {
    /// Open a session. The profile and any secret the user asked to remember are
    /// stored already.
    Connect { profile: SessionProfile, auth: SshAuth },
    /// The dialog was dismissed without connecting.
    Dismissed,
}

/// Authentication method offered by the form, in the order of the picker.
#[derive(Debug, Clone, Copy, PartialEq, Eq, Structural)]
pub enum AuthKind {
    /// Password authentication.
    Password,
    /// Public key authentication with a key file on disk.
    PrivateKey,
    /// Delegate to a running SSH agent. Not supported yet.
    Agent,
}

impl AuthKind {
    /// Where a method stands in the picker.
    pub open spec fn place(self) -> int {
        match self {
            AuthKind::Password => 0,
            AuthKind::PrivateKey => 1,
            AuthKind::Agent => 2,
        }
    }

    /// Index of this method in the picker.
    pub fn index(self) -> (index: usize)
        ensures
            index == self.place(),
    {
        match self {
            AuthKind::Password => 0,
            AuthKind::PrivateKey => 1,
            AuthKind::Agent => 2,
        }
    }

    /// The method at `index` in the picker, the password beyond it.
    pub fn from_index(index: usize) -> (kind: AuthKind)
        ensures
            index <= 2 ==> kind.place() == index,
            index > 2 ==> kind == AuthKind::Password,
    {
        match index {
            1 => AuthKind::PrivateKey,
            2 => AuthKind::Agent,
            _ => AuthKind::Password,
        }
    }

    /// Id and label of each method of the picker.
    pub fn option(self) -> (option: (&'static str, &'static str))
        ensures
            self is Password ==> option.0@ == "password"@ && option.1@ == "Password"@,
            self is PrivateKey ==> option.0@ == "key"@ && option.1@ == "Private key"@,
            self is Agent ==> option.0@ == "agent"@ && option.1@ == "Agent"@,
    {
        match self {
            AuthKind::Password => ("password", "Password"),
            AuthKind::PrivateKey => ("key", "Private key"),
            AuthKind::Agent => ("agent", "Agent"),
        }
    }
}

/// Going to the picker and back gives the method back.
pub proof fn the_picker_round_trips(a: AuthKind, b: AuthKind)
    ensures
        0 <= a.place() <= 2,
        a.place() == b.place() ==> a == b,
{
}

/// Severity of the message strip at the bottom of the form.
#[derive(Debug, Clone, Copy, PartialEq, Eq, Structural)]
pub enum StatusLevel {
    /// Neutral guidance.
    Info,
    /// Something went wrong but the connection can still proceed.
    Warning,
    /// The action could not be completed.
    Error,
}

impl StatusLevel {
    /// Color of the message text.
    pub fn color(self) -> (slot: Slot)
        ensures
            slot == match self {
                StatusLevel::Info => Slot::TextMuted,
                StatusLevel::Warning => Slot::Accent,
                StatusLevel::Error => Slot::Danger,
            },
    {
        match self {
            StatusLevel::Info => Slot::TextMuted,
            StatusLevel::Warning => Slot::Accent,
            StatusLevel::Error => Slot::Danger,
        }
    }
}

/// A message rendered inside the dialog.
pub struct DialogStatus {
    pub level: StatusLevel,
    /// Text shown to the user. Never contains a secret.
    pub message: String,
}

/// Field that receives keyboard focus the next time the dialog renders.
#[derive(Debug, Clone, Copy, PartialEq, Eq, Structural)]
pub enum FocusTarget {
    /// The host field, for a brand new connection.
    Host,
    /// The password or passphrase field, for a profile that is already filled in.
    Secret,
}

/// A field of the form.
#[derive(Debug, Clone, Copy, PartialEq, Eq, Structural)]
pub enum Field {
    Name,
    Host,
    Port,
    Username,
    Password,
    KeyPath,
    Passphrase,
}

/// What the form holds.
pub struct FormView {
    pub name: Seq<char>,
    pub host: Seq<char>,
    pub port: Seq<char>,
    pub username: Seq<char>,
    pub password: Seq<char>,
    pub key_path: Seq<char>,
    pub passphrase: Seq<char>,
    pub auth_kind: AuthKind,
    pub save_secret: bool,
    pub editing: Option<u128>,
}

/// The form before anything is typed.
pub open spec fn empty_form() -> FormView {
    FormView {
        name: Seq::empty(),
        host: Seq::empty(),
        port: decimal_text(DEFAULT_PORT as nat),
        username: Seq::empty(),
        password: Seq::empty(),
        key_path: Seq::empty(),
        passphrase: Seq::empty(),
        auth_kind: AuthKind::Password,
        save_secret: false,
        editing: None,
    }
}

/// The form filled from a profile. Secrets are never copied into it: an empty
/// password field means "reuse whatever the keychain holds".
pub open spec fn profile_form(profile: SessionProfile) -> FormView {
    FormView {
        name: profile.name@,
        host: profile.host@,
        port: decimal_text(profile.port as nat),
        username: profile.username@,
        password: Seq::empty(),
        key_path: match profile.auth {
            AuthMethod::PublicKey { key_path } => key_path@,
            _ => Seq::empty(),
        },
        passphrase: Seq::empty(),
        auth_kind: match profile.auth {
            AuthMethod::Password => AuthKind::Password,
            AuthMethod::PublicKey { key_path } => AuthKind::PrivateKey,
            AuthMethod::Agent => AuthKind::Agent,
        },
        save_secret: profile.save_secret,
        editing: Some(profile.id),
    }
}

/// The message strip.
pub type StatusView = Option<(StatusLevel, Seq<char>)>;

/// Explanation shown while the unsupported agent method is selected.
pub open spec fn agent_text() -> Seq<char> {
    "SSH agent authentication is not supported yet."@
}

/// Guidance for a profile whose secret is saved.
pub open spec fn saved_text() -> Seq<char> {
    "A secret saved in the system keychain will be used unless you type a new one."@
}

/// What the strip says once a profile is in the form.
pub open spec fn profile_status(profile: SessionProfile) -> StatusView {
    if profile.auth is Agent {
        Some((StatusLevel::Warning, agent_text()))
    } else if profile.save_secret {
        Some((StatusLevel::Info, saved_text()))
    } else {
        None
    }
}

/// The port that a form asks for; an empty field means the default one.
pub open spec fn form_port(form: FormView) -> Option<nat> {
    let raw = trimmed(form.port);
    if raw.len() == 0 {
        Some(DEFAULT_PORT as nat)
    } else {
        match parsed(raw, u16::MAX as nat) {
            Some(port) if port != 0 => Some(port),
            _ => None,
        }
    }
}

/// The form holds enough to open a session.
pub open spec fn is_complete(form: FormView) -> bool {
    &&& !(form.auth_kind is Agent)
    &&& trimmed(form.host).len() > 0
    &&& trimmed(form.username).len() > 0
    &&& form.auth_kind is PrivateKey ==> trimmed(form.key_path).len() > 0
    &&& form_port(form) is Some
}

/// Why a form is not complete.
pub open spec fn missing_text(form: FormView) -> Seq<char> {
    if form.auth_kind is Agent {
        agent_text()
    } else if trimmed(form.host).len() == 0 {
        "Enter the host to connect to."@
    } else if trimmed(form.username).len() == 0 {
        "Enter the user to log in as."@
    } else if form.auth_kind is PrivateKey && trimmed(form.key_path).len() == 0 {
        "Choose the private key file to authenticate with."@
    } else {
        "Enter a port between 1 and 65535."@
    }
}

/// The first `max` digits of a text.
pub open spec fn leading_digits(text: Seq<char>, max: nat) -> Seq<char>
    decreases text.len(),
{
    if text.len() == 0 {
        Seq::empty()
    } else {
        let before = leading_digits(text.drop_last(), max);
        if '0' <= text.last() <= '9' && before.len() < max {
            before.push(text.last())
        } else {
            before
        }
    }
}

/// Keeps the port field to digits: what the field has to hold instead of
/// `content`, when it has to change.
pub fn restrict_port(content: &str) -> (rewrite: Option<String>)
    ensures
        match rewrite {
            Some(digits) => digits@ == leading_digits(content@, MAX_PORT_DIGITS as nat) && digits@ != content@,
            None => leading_digits(content@, MAX_PORT_DIGITS as nat) == content@,
        },
{
    let chars = to_chars(content);
    let mut digits = String::new();
    let mut count: usize = 0;
    let mut i: usize = 0;
    proof {
        assert(digits@ =~= leading_digits(chars@.take(0), MAX_PORT_DIGITS as nat));
    }
    while i < chars.len()
        invariant
            i <= chars@.len(),
            chars@ == content@,
            count == digits@.len(),
            count <= MAX_PORT_DIGITS,
            digits@ == leading_digits(chars@.take(i as int), MAX_PORT_DIGITS as nat),
        decreases chars@.len() - i,
    {
        proof {
            assert(chars@.take(i + 1).drop_last() =~= chars@.take(i as int));
            assert(chars@.take(i + 1).last() == chars@[i as int]);
        }
        let c: char = chars[i];
        if '0' <= c && c <= '9' && count < MAX_PORT_DIGITS {
            digits.push(c);
            count += 1;
        }
        i += 1;
    }
    proof {
        assert(chars@.take(i as int) =~= content@);
    }
    if crate::text::same(digits.as_str(), content) {
        None
    } else {
        Some(digits)
    }
}

/// Restricting a field that was restricted changes nothing, so the rewrite does
/// not set itself off.
pub proof fn restricting_settles(text: Seq<char>, max: nat)
    ensures
        leading_digits(leading_digits(text, max), max) == leading_digits(text, max),
        leading_digits(text, max).len() <= max,
        crate::text::all_digits(leading_digits(text, max)),
    decreases text.len(),
{
    if text.len() > 0 {
        let before = leading_digits(text.drop_last(), max);
        restricting_settles(text.drop_last(), max);
        if '0' <= text.last() <= '9' && before.len() < max {
            assert(before.push(text.last()).drop_last() =~= before);
        }
    }
}

/// A connection on its way: what the form said, and what has come of it.
pub struct PendingConnection {
    /// The profile as it is going to be stored.
    pub profile: SessionProfile,
    /// Authentication method of the form.
    pub auth_kind: AuthKind,
    /// Path of the private key.
    pub key_path: String,
    /// The secret: what was typed, or what the keychain gave.
    pub secret: String,
    /// Whether the keychain is to be asked for the secret.
    pub look_up: bool,
    /// What went wrong so far.
    pub problems: Vec<String>,
}

/// The problems of a connection, in order.
pub open spec fn problem_texts(problems: Seq<String>) -> Seq<Seq<char>> {
    Seq::new(problems.len(), |i: int| problems[i]@)
}

/// Texts with a separator between them.
pub open spec fn joined(texts: Seq<Seq<char>>, separator: Seq<char>) -> Seq<char>
    decreases texts.len(),
{
    if texts.len() == 0 {
        Seq::empty()
    } else if texts.len() == 1 {
        texts[0]
    } else {
        joined(texts.drop_last(), separator) + separator + texts.last()
    }
}

/// Put a separator between texts.
fn join_all(texts: &Vec<String>, separator: &str) -> (text: String)
    ensures
        text@ == joined(problem_texts(texts@), separator@),
{
    let ghost all = problem_texts(texts@);
    let mut text = String::new();
    let mut i: usize = 0;
    proof {
        assert(text@ =~= joined(all.take(0), separator@));
    }
    while i < texts.len()
        invariant
            i <= texts@.len(),
            all == problem_texts(texts@),
            text@ == joined(all.take(i as int), separator@),
        decreases texts@.len() - i,
    {
        proof {
            assert(all.take(i + 1).drop_last() =~= all.take(i as int));
            assert(all.take(i + 1).last() == texts@[i as int]@);
        }
        if i > 0 {
            text.append(separator);
        }
        text.append(texts[i].as_str());
        proof {
            assert(text@ =~= joined(all.take(i + 1), separator@));
        }
        i += 1;
    }
    proof {
        assert(all.take(i as int) =~= all);
    }
    text
}

/// A problem with the reason behind it.
pub open spec fn with_reason(what: Seq<char>, reason: Seq<char>) -> Seq<char> {
    what + " ("@ + (reason + ")"@)
}

fn problem(what: &str, reason: &str) -> (text: String)
    ensures
        text@ == with_reason(what@, reason@),
{
    let closing = join2(reason, ")");
    join3(what, " (", closing.as_str())
}

/// What is done about the secret in the keychain.
pub enum KeychainStep {
    /// Nothing can be saved: there is no secret.
    Nothing,
    /// The secret is saved.
    Save(String),
    /// A secret saved before is removed.
    Delete,
}

/// Modal dialog for picking a saved profile or entering a new connection.
pub struct ConnectionDialog {
    /// Whether the dialog is currently visible.
    pub open: bool,
    /// Saved profiles, reloaded every time the dialog opens.
    pub store: ProfileStore,
    /// Identifier of the profile the form was filled from, so that connecting
    /// updates the existing profile instead of duplicating it.
    pub editing: Option<u128>,
    /// Authentication method currently selected in the form.
    pub auth_kind: AuthKind,
    /// Whether the secret should be written to the OS keychain.
    pub save_secret: bool,
    /// Message strip shown under the form.
    pub status: Option<DialogStatus>,
    /// Field to focus on the next render.
    pub pending_focus: Option<FocusTarget>,
    pub name: String,
    pub host: String,
    pub port: String,
    pub username: String,
    pub password: String,
    pub key_path: String,
    pub passphrase: String,
}

impl ConnectionDialog {
    /// What the form holds.
    pub open spec fn form(self) -> FormView {
        FormView {
            name: self.name@,
            host: self.host@,
            port: self.port@,
            username: self.username@,
            password: self.password@,
            key_path: self.key_path@,
            passphrase: self.passphrase@,
            auth_kind: self.auth_kind,
            save_secret: self.save_secret,
            editing: self.editing,
        }
    }

    /// A connection is what the form asks for. `fresh` is the identifier that a new
    /// profile gets.
    pub open spec fn submits(self, pending: PendingConnection, fresh: u128) -> bool {
        &&& describes(pending.profile, self.form(), self.store@, fresh)
        &&& pending.auth_kind == self.auth_kind
        &&& pending.key_path@ == trimmed(self.key_path@)
        &&& pending.secret@ == typed_secret(self.form())
        &&& pending.look_up == (typed_secret(self.form()).len() == 0 && self.editing is Some)
        &&& pending.problems@.len() == 0
    }

    /// What the message strip says.
    pub open spec fn strip(self) -> StatusView {
        match self.status {
            Some(status) => Some((status.level, status.message@)),
            None => None,
        }
    }

    /// Build the dialog around the profiles that the profile file held.
    pub fn new(store: ProfileStore) -> (dialog: ConnectionDialog)
        ensures
            !dialog.open,
            dialog.store == store,
            dialog.form() == empty_form(),
            dialog.strip() is None,
            dialog.pending_focus is None,
    {
        ConnectionDialog {
            open: false,
            store,
            editing: None,
            auth_kind: AuthKind::Password,
            save_secret: false,
            status: None,
            pending_focus: None,
            name: String::new(),
            host: String::new(),
            port: decimal(DEFAULT_PORT as u64),
            username: String::new(),
            password: String::new(),
            key_path: String::new(),
            passphrase: String::new(),
        }
    }

    /// Show the dialog with an empty form. `reloaded` is the profile file as read
    /// just now; a failure to read it leaves the profiles in place.
    pub fn open_new(&mut self, reloaded: Option<ProfileStore>)
        ensures
            final(self).open,
            final(self).store == reload(old(self).store, reloaded),
            final(self).form() == empty_form(),
            final(self).strip() is None,
            final(self).pending_focus == Some(FocusTarget::Host),
    {
        self.reload_store(reloaded);
        self.reset_form();
        self.open = true;
        self.pending_focus = Some(FocusTarget::Host);
    }

    /// Show the dialog pre-filled from the saved profile `id`.
    ///
    /// An unknown `id` opens the empty form rather than failing.
    pub fn open_profile(&mut self, id: u128, reloaded: Option<ProfileStore>)
        ensures
            final(self).open,
            final(self).store == reload(old(self).store, reloaded),
            match position_of(final(self).store@, id) {
                Some(i) => {
                    let profile = final(self).store@[i];
                    &&& final(self).form() == profile_form(profile)
                    &&& final(self).strip() == profile_status(profile)
                    &&& final(self).pending_focus == Some(
                        if profile.auth is Agent {
                            FocusTarget::Host
                        } else {
                            FocusTarget::Secret
                        },
                    )
                },
                None => {
                    &&& final(self).form() == empty_form()
                    &&& final(self).strip() is None
                    &&& final(self).pending_focus == Some(FocusTarget::Host)
                },
            },
    {
        self.reload_store(reloaded);
        self.reset_form();
        self.open = true;
        let found = match self.store.get(id) {
            Some(profile) => Some(profile.clone()),
            None => None,
        };
        match found {
            Some(profile) => {
                self.fill_form(&profile);
                self.pending_focus = Some(
                    if matches!(profile.auth, AuthMethod::Agent) {
                        FocusTarget::Host
                    } else {
                        FocusTarget::Secret
                    },
                );
                self.report_profile(&profile);
            },
            None => {
                self.pending_focus = Some(FocusTarget::Host);
            },
        }
    }

    /// Whether the dialog is visible.
    pub fn is_open(&self) -> (open: bool)
        ensures
            open == self.open,
    {
        self.open
    }

    /// Hide the dialog without connecting. No secret is kept longer than the
    /// dialog is on screen, and no message is left behind to reappear.
    pub fn close(&mut self)
        ensures
            !final(self).open,
            final(self).pending_focus is None,
            final(self).strip() is None,
            final(self).store == old(self).store,
            final(self).form() == (FormView {
                password: Seq::empty(),
                passphrase: Seq::empty(),
                ..old(self).form()
            }),
    {
        self.open = false;
        self.pending_focus = None;
        self.status = None;
        self.password = String::new();
        self.passphrase = String::new();
    }

    /// Saved profiles, in stored order.
    pub fn profiles(&self) -> (profiles: &Vec<SessionProfile>)
        ensures
            profiles@ == self.store@,
    {
        self.store.profiles()
    }

    fn reload_store(&mut self, reloaded: Option<ProfileStore>)
        ensures
            *final(self) == (ConnectionDialog { store: reload(old(self).store, reloaded), ..*old(self) }),
    {
        if let Some(store) = reloaded {
            self.store = store;
        }
    }

    /// Clear every field and drop any selection.
    fn reset_form(&mut self)
        ensures
            final(self).form() == empty_form(),
            final(self).strip() is None,
            final(self).open == old(self).open,
            final(self).store == old(self).store,
            final(self).pending_focus == old(self).pending_focus,
    {
        self.editing = None;
        self.auth_kind = AuthKind::Password;
        self.save_secret = false;
        self.status = None;
        self.name = String::new();
        self.host = String::new();
        self.username = String::new();
        self.password = String::new();
        self.key_path = String::new();
        self.passphrase = String::new();
        self.port = decimal(DEFAULT_PORT as u64);
    }

    /// Copy `profile` into the form and remember that it is being edited.
    fn fill_form(&mut self, profile: &SessionProfile)
        ensures
            final(self).form() == profile_form(*profile),
            final(self).status == old(self).status,
            final(self).open == old(self).open,
            final(self).store == old(self).store,
            final(self).pending_focus == old(self).pending_focus,
    {
        self.name = profile.name.clone();
        self.host = profile.host.clone();
        self.port = decimal(profile.port as u64);
        self.username = profile.username.clone();
        self.password = String::new();
        self.passphrase = String::new();
        match &profile.auth {
            AuthMethod::Password => {
                self.auth_kind = AuthKind::Password;
                self.key_path = String::new();
            },
            AuthMethod::PublicKey { key_path } => {
                self.auth_kind = AuthKind::PrivateKey;
                self.key_path = key_path.clone();
            },
            AuthMethod::Agent => {
                self.auth_kind = AuthKind::Agent;
                self.key_path = String::new();
            },
        }
        self.save_secret = profile.save_secret;
        self.editing = Some(profile.id);
    }

    /// Say what there is to say about a profile that was put in the form.
    fn report_profile(&mut self, profile: &SessionProfile)
        ensures
            profile_status(*profile) is Some ==> final(self).strip() == profile_status(*profile),
            profile_status(*profile) is None ==> final(self).status == old(self).status,
            *final(self) == (ConnectionDialog { status: final(self).status, ..*old(self) }),
    {
        if matches!(profile.auth, AuthMethod::Agent) {
            self.set_status(StatusLevel::Warning, copy("SSH agent authentication is not supported yet."));
        } else if profile.save_secret {
            self.set_status(
                StatusLevel::Info,
                copy("A secret saved in the system keychain will be used unless you type a new one."),
            );
        }
    }

    /// Replace the message strip.
    fn set_status(&mut self, level: StatusLevel, message: String)
        ensures
            final(self).strip() == Some((level, message@)),
            *final(self) == (ConnectionDialog { status: final(self).status, ..*old(self) }),
    {
        self.status = Some(DialogStatus { level, message });
    }

    /// Load the profile `id` into the form.
    pub fn select_profile(&mut self, id: u128)
        ensures
            final(self).store == old(self).store,
            final(self).open == old(self).open,
            final(self).pending_focus == old(self).pending_focus,
            match position_of(old(self).store@, id) {
                Some(i) => final(self).form() == profile_form(old(self).store@[i]) && final(self).strip()
                    == profile_status(old(self).store@[i]),
                None => *final(self) == *old(self),
            },
    {
        let found = match self.store.get(id) {
            Some(profile) => Some(profile.clone()),
            None => None,
        };
        if let Some(profile) = found {
            self.fill_form(&profile);
            self.status = None;
            self.report_profile(&profile);
        }
    }

    /// Load the profile `id` into the form and go to its first field.
    pub fn edit_profile(&mut self, id: u128)
        ensures
            final(self).store == old(self).store,
            final(self).open == old(self).open,
            final(self).pending_focus == Some(FocusTarget::Host),
            match position_of(old(self).store@, id) {
                Some(i) => final(self).form() == profile_form(old(self).store@[i]) && final(self).strip()
                    == profile_status(old(self).store@[i]),
                None => final(self).form() == old(self).form() && final(self).strip() == old(self).strip(),
            },
    {
        self.select_profile(id);
        self.pending_focus = Some(FocusTarget::Host);
    }

    /// Forget the profile `id`. Whether there was one to forget: its secret and
    /// the profile file are then the caller's to clear, and
    /// [`ConnectionDialog::profile_deleted`] reports how that went.
    pub fn delete_profile(&mut self, id: u128) -> (removed: bool)
        ensures
            removed == (position_of(old(self).store@, id) is Some),
            final(self).store@ == without(old(self).store@, id),
            distinct_ids(old(self).store@) ==> distinct_ids(final(self).store@),
            *final(self) == (ConnectionDialog { store: final(self).store, ..*old(self) }),
    {
        self.store.remove(id).is_some()
    }

    /// Report how clearing up after a deleted profile went. A form that shows the
    /// profile is emptied.
    pub fn profile_deleted(&mut self, id: u128, saved: Result<(), String>, cleared: Result<(), String>)
        ensures
            final(self).store == old(self).store,
            final(self).open == old(self).open,
            final(self).pending_focus == old(self).pending_focus,
            final(self).form() == if old(self).editing == Some(id) {
                empty_form()
            } else {
                old(self).form()
            },
            final(self).strip() == {
                let problems = deletion_problems(saved, cleared);
                if problems.len() == 0 {
                    None
                } else {
                    Some(
                        (StatusLevel::Error, "Profile deleted, but "@ + joined(problems, " and "@) + "."@),
                    )
                }
            },
    {
        let mut problems: Vec<String> = Vec::new();
        if let Err(reason) = &saved {
            problems.push(problem("the profile list could not be written", reason.as_str()));
        }
        if let Err(reason) = &cleared {
            problems.push(problem("its keychain entry could not be removed", reason.as_str()));
        }
        proof {
            assert(problem_texts(problems@) =~= deletion_problems(saved, cleared));
        }
        if self.editing == Some(id) {
            self.reset_form();
        }
        if problems.len() == 0 {
            self.status = None;
        } else {
            let list = join_all(&problems, " and ");
            self.set_status(StatusLevel::Error, join3("Profile deleted, but ", list.as_str(), "."));
        }
    }

    /// Switch the authentication method, discarding the secret typed for the
    /// previous one so it cannot be sent to the wrong place.
    pub fn set_auth_kind(&mut self, kind: AuthKind)
        ensures
            old(self).auth_kind == kind ==> *final(self) == *old(self),
            old(self).auth_kind != kind ==> {
                &&& final(self).form() == (FormView {
                    auth_kind: kind,
                    password: Seq::empty(),
                    passphrase: Seq::empty(),
                    ..old(self).form()
                })
                &&& final(self).strip() == if kind is Agent {
                    Some((StatusLevel::Warning, agent_text()))
                } else {
                    None
                }
                &&& final(self).open == old(self).open
                &&& final(self).store == old(self).store
                &&& final(self).pending_focus == old(self).pending_focus
            },
    {
        if self.auth_kind == kind {
            return ;
        }
        self.auth_kind = kind;
        self.password = String::new();
        self.passphrase = String::new();
        self.status = None;
        if matches!(kind, AuthKind::Agent) {
            self.set_status(StatusLevel::Warning, copy("SSH agent authentication is not supported yet."));
        }
    }

    /// Switch the keychain choice.
    pub fn set_save_secret(&mut self, save: bool)
        ensures
            *final(self) == (ConnectionDialog { save_secret: save, ..*old(self) }),
    {
        self.save_secret = save;
    }

    /// Set the private key path, e.g. from the platform file picker.
    pub fn set_key_path(&mut self, path: String)
        ensures
            *final(self) == (ConnectionDialog { key_path: path, ..*old(self) }),
    {
        self.key_path = path;
    }

    /// The port typed into the form, or `None` when it is out of range.
    pub fn port(&self) -> (port: Option<u16>)
        ensures
            match port {
                Some(port) => form_port(self.form()) == Some(port as nat) && port != 0,
                None => form_port(self.form()) is None,
            },
    {
        let raw = trim(self.port.as_str());
        if raw.as_str().is_empty() {
            return Some(DEFAULT_PORT);
        }
        match parse(raw.as_str(), u16::MAX as u64) {
            Some(port) => if port != 0 {
                Some(port as u16)
            } else {
                None
            },
            None => None,
        }
    }

    /// Whether the form holds enough information to open a session.
    pub fn can_connect(&self) -> (can: bool)
        ensures
            can == is_complete(self.form()),
    {
        if matches!(self.auth_kind, AuthKind::Agent) {
            return false;
        }
        if is_blank(&self.host) || is_blank(&self.username) {
            return false;
        }
        if matches!(self.auth_kind, AuthKind::PrivateKey) && is_blank(&self.key_path) {
            return false;
        }
        self.port().is_some()
    }

    /// Fill the message strip with the reason [`Self::can_connect`] said no.
    pub fn explain_incomplete(&mut self)
        ensures
            final(self).strip() == Some((StatusLevel::Error, missing_text(old(self).form()))),
            *final(self) == (ConnectionDialog { status: final(self).status, ..*old(self) }),
    {
        let reason = if matches!(self.auth_kind, AuthKind::Agent) {
            "SSH agent authentication is not supported yet."
        } else if is_blank(&self.host) {
            "Enter the host to connect to."
        } else if is_blank(&self.username) {
            "Enter the user to log in as."
        } else if matches!(self.auth_kind, AuthKind::PrivateKey) && is_blank(&self.key_path) {
            "Choose the private key file to authenticate with."
        } else {
            "Enter a port between 1 and 65535."
        };
        self.set_status(StatusLevel::Error, copy(reason));
    }

    /// First step of connecting, with a random identifier for a new profile.
    pub fn connect(&mut self) -> (pending: Option<PendingConnection>)
        ensures
            match pending {
                Some(pending) => {
                    &&& is_complete(old(self).form())
                    &&& *final(self) == *old(self)
                    &&& exists|fresh: u128| is_random_id(fresh) && #[trigger] old(self).submits(pending, fresh)
                },
                None => {
                    &&& !is_complete(old(self).form())
                    &&& final(self).strip() == Some((StatusLevel::Error, missing_text(old(self).form())))
                    &&& *final(self) == (ConnectionDialog { status: final(self).status, ..*old(self) })
                },
            },
    {
        let fresh: u128 = random_id();
        self.connect_as(fresh)
    }

    /// First step of connecting: the profile that the form describes, and what was
    /// typed as its secret. `Enter` in any field leads here too. An incomplete
    /// form is explained instead.
    ///
    /// `fresh` is the identifier that a new profile gets.
    pub fn connect_as(&mut self, fresh: u128) -> (pending: Option<PendingConnection>)
        ensures
            match pending {
                Some(pending) => {
                    &&& is_complete(old(self).form())
                    &&& *final(self) == *old(self)
                    &&& old(self).submits(pending, fresh)
                },
                None => {
                    &&& !is_complete(old(self).form())
                    &&& final(self).strip() == Some((StatusLevel::Error, missing_text(old(self).form())))
                    &&& *final(self) == (ConnectionDialog { status: final(self).status, ..*old(self) })
                },
            },
    {
        if !self.can_connect() {
            self.explain_incomplete();
            return None;
        }
        let host = trim(self.host.as_str());
        let username = trim(self.username.as_str());
        let key_path = trim(self.key_path.as_str());
        let port: u16 = match self.port() {
            Some(port) => port,
            None => DEFAULT_PORT,
        };
        let typed_name = trim(self.name.as_str());
        let name = if typed_name.as_str().is_empty() { host.clone() } else { typed_name };
        let auth = match self.auth_kind {
            AuthKind::PrivateKey => AuthMethod::PublicKey { key_path: key_path.clone() },
            _ => AuthMethod::Password,
        };
        let existing = match self.editing {
            Some(id) => match self.store.get(id) {
                Some(profile) => Some(profile.clone()),
                None => None,
            },
            None => None,
        };
        let mut profile = match existing {
            Some(profile) => {
                let mut profile = profile;
                profile.name = name;
                profile.host = host;
                profile.port = port;
                profile.username = username;
                profile.auth = auth;
                profile
            },
            None => SessionProfile::with_id(fresh, name, host, port, username, auth),
        };
        profile.save_secret = self.save_secret;
        // The secret typed into the form wins; an empty field falls back to the
        // keychain, which is how a saved profile connects without retyping.
        let secret = match self.auth_kind {
            AuthKind::PrivateKey => self.passphrase.clone(),
            _ => self.password.clone(),
        };
        let look_up = secret.as_str().is_empty() && self.editing.is_some();
        Some(
            PendingConnection {
                profile,
                auth_kind: self.auth_kind,
                key_path,
                secret,
                look_up,
                problems: Vec::new(),
            },
        )
    }

    /// Second step: the secret that the keychain gave, when it was asked, and the
    /// profile into the store. The caller writes the profile file then.
    pub fn store_profile(&mut self, pending: &mut PendingConnection, stored: Result<Option<String>, String>)
        ensures
            final(self).store@ == upserted(old(self).store@, old(pending).profile),
            distinct_ids(old(self).store@) ==> distinct_ids(final(self).store@),
            *final(self) == (ConnectionDialog { store: final(self).store, ..*old(self) }),
            looked_up(*old(pending), *final(pending), stored),
    {
        if pending.look_up {
            match stored {
                Ok(Some(secret)) => {
                    pending.secret = secret;
                },
                Ok(None) => {
                    pending.secret = String::new();
                },
                Err(reason) => {
                    let ghost before = problem_texts(pending.problems@);
                    pending.secret = String::new();
                    pending.problems.push(problem("the saved secret could not be read", reason.as_str()));
                    proof {
                        assert(problem_texts(pending.problems@) =~= before.push(
                            with_reason("the saved secret could not be read"@, reason@),
                        ));
                    }
                },
            }
        }
        self.store.upsert(pending.profile.clone());
    }

    /// What is to be done about the secret in the keychain.
    pub fn keychain_step(pending: &PendingConnection) -> (step: KeychainStep)
        ensures
            is_step_for(step, *pending),
    {
        if !pending.profile.save_secret {
            KeychainStep::Delete
        } else if pending.secret.as_str().is_empty() {
            KeychainStep::Nothing
        } else {
            KeychainStep::Save(pending.secret.clone())
        }
    }

    /// Last step: the connection to open. `saved` says how writing the profile
    /// file went, `kept` how the keychain step went.
    ///
    /// Storage problems never block the connection: they are reported in the
    /// message strip and the dialog stays open so the user can read them. A clean
    /// run closes the dialog.
    pub fn finish_connect(
        &mut self,
        pending: PendingConnection,
        saved: Result<(), String>,
        kept: Result<(), String>,
    ) -> (event: ConnectionDialogEvent)
        requires
            !(pending.auth_kind is Agent),
        ensures
            hands_out(event, pending),
            final(self).store == old(self).store,
            final(self).editing == Some(pending.profile.id),
            ({
                let problems = all_problems(pending, saved, kept);
                if problems.len() == 0 {
                    &&& !final(self).open
                    &&& final(self).strip() is None
                    &&& final(self).pending_focus is None
                    &&& final(self).form() == (FormView {
                        password: Seq::empty(),
                        passphrase: Seq::empty(),
                        editing: Some(pending.profile.id),
                        ..old(self).form()
                    })
                } else {
                    &&& final(self).open == old(self).open
                    &&& final(self).pending_focus == old(self).pending_focus
                    &&& final(self).form() == (FormView { editing: Some(pending.profile.id), ..old(self).form() })
                    &&& final(self).strip() == Some(
                        (StatusLevel::Warning, "Connecting, but "@ + joined(problems, ", and "@) + "."@),
                    )
                }
            }),
    {
        let ghost before = pending;
        let mut pending = pending;
        if let Err(reason) = &saved {
            pending.problems.push(problem("the profile could not be saved", reason.as_str()));
        }
        if pending.profile.save_secret {
            if pending.secret.as_str().is_empty() {
                pending.problems.push(copy("there was no secret to put in the keychain"));
            } else if let Err(reason) = &kept {
                pending.problems.push(problem("the secret could not be saved", reason.as_str()));
            }
        } else if let Err(reason) = &kept {
            pending.problems.push(
                problem("a previously saved secret could not be removed", reason.as_str()),
            );
        }
        proof {
            assert(problem_texts(pending.problems@) =~= all_problems(before, saved, kept));
        }
        let auth = match pending.auth_kind {
            AuthKind::PrivateKey => {
                let passphrase = if pending.secret.as_str().is_empty() {
                    None
                } else {
                    Some(pending.secret.clone())
                };
                SshAuth::PrivateKeyFile { path: pending.key_path.clone(), passphrase }
            },
            _ => SshAuth::Password(pending.secret.clone()),
        };
        self.editing = Some(pending.profile.id);
        if pending.problems.len() == 0 {
            self.close();
        } else {
            let list = join_all(&pending.problems, ", and ");
            self.set_status(StatusLevel::Warning, join3("Connecting, but ", list.as_str(), "."));
        }
        ConnectionDialogEvent::Connect { profile: pending.profile, auth }
    }

    /// Close the dialog and report that nothing was connected. `Escape`, the
    /// backdrop and the Cancel button all lead here.
    pub fn dismiss(&mut self) -> (event: ConnectionDialogEvent)
        ensures
            event is Dismissed,
            !final(self).open,
            final(self).pending_focus is None,
            final(self).strip() is None,
            final(self).store == old(self).store,
            final(self).form() == (FormView {
                password: Seq::empty(),
                passphrase: Seq::empty(),
                ..old(self).form()
            }),
    {
        self.close();
        ConnectionDialogEvent::Dismissed
    }

    /// `Escape` dismisses the dialog from anywhere inside it. No other key is the
    /// dialog's.
    pub fn on_key_down(&mut self, key: &str) -> (event: Option<ConnectionDialogEvent>)
        ensures
            event is Some == (old(self).open && key@ == "escape"@),
            event matches Some(event) ==> {
                &&& event is Dismissed
                &&& !final(self).open
                &&& final(self).pending_focus is None
                &&& final(self).strip() is None
                &&& final(self).store == old(self).store
                &&& final(self).form() == (FormView {
                    password: Seq::empty(),
                    passphrase: Seq::empty(),
                    ..old(self).form()
                })
            },
            event is None ==> *final(self) == *old(self),
    {
        if self.open && crate::text::same(key, "escape") {
            Some(self.dismiss())
        } else {
            None
        }
    }

    /// The field to move focus to, once, after the dialog was opened.
    pub fn apply_pending_focus(&mut self) -> (field: Option<Field>)
        ensures
            final(self).pending_focus is None,
            *final(self) == (ConnectionDialog { pending_focus: None, ..*old(self) }),
            field == match old(self).pending_focus {
                None => None::<Field>,
                Some(target) => Some(
                    if target is Secret && old(self).auth_kind is Password {
                        Field::Password
                    } else if target is Secret && old(self).auth_kind is PrivateKey {
                        Field::Passphrase
                    } else {
                        Field::Host
                    },
                ),
            },
    {
        let target = self.pending_focus;
        self.pending_focus = None;
        match target {
            None => None,
            Some(target) => Some(
                match (target, self.auth_kind) {
                    (FocusTarget::Secret, AuthKind::Password) => Field::Password,
                    (FocusTarget::Secret, AuthKind::PrivateKey) => Field::Passphrase,
                    _ => Field::Host,
                },
            ),
        }
    }

    /// The title of the dialog.
    pub fn title(&self) -> (title: &'static str)
        ensures
            title@ == if self.editing is Some {
                "Connect"@
            } else {
                "New connection"@
            },
    {
        if self.editing.is_some() {
            "Connect"
        } else {
            "New connection"
        }
    }

    /// The saved-profile column: a row for each profile, in stored order, and a
    /// hint in place of the rows when there is none.
    pub fn render_profile_list(&self) -> (list: ProfileList)
        ensures
            list.rows@.len() == self.store@.len(),
            forall|i: int|
                0 <= i < list.rows@.len() ==> is_row(#[trigger] list.rows@[i], self.store@[i], self.editing),
            list.hint is Some == (self.store@.len() == 0),
            list.hint matches Some(hint) ==> hint@ == empty_hint(),
    {
        let profiles = self.store.profiles();
        let mut rows: Vec<ProfileRow> = Vec::new();
        let mut i: usize = 0;
        while i < profiles.len()
            invariant
                profiles@ == self.store@,
                i <= profiles@.len(),
                rows@.len() == i,
                forall|k: int| 0 <= k < i ==> is_row(#[trigger] rows@[k], self.store@[k], self.editing),
            decreases profiles@.len() - i,
        {
            let profile = &profiles[i];
            let selected = match self.editing {
                Some(id) => id == profile.id,
                None => false,
            };
            rows.push(
                ProfileRow {
                    id: profile.id,
                    name: profile.name.clone(),
                    label: profile.label(),
                    selected,
                    background: if selected {
                        Slot::SurfaceActive
                    } else {
                        Slot::Transparent
                    },
                    hover: if selected {
                        Slot::SurfaceActive
                    } else {
                        Slot::SurfaceHover
                    },
                },
            );
            i += 1;
        }
        let hint = if profiles.len() == 0 {
            Some(
                "No saved profiles yet. Fill in the form and connect \u{2014} the connection is saved automatically.",
            )
        } else {
            None
        };
        ProfileList { rows, hint }
    }

    /// A click on a profile row selects it; the second click of a double click
    /// also asks to connect.
    pub fn row_clicked(&mut self, id: u128, clicks: usize) -> (connect: bool)
        ensures
            connect == (clicks >= 2),
            final(self).store == old(self).store,
            final(self).open == old(self).open,
            final(self).pending_focus == old(self).pending_focus,
            match position_of(old(self).store@, id) {
                Some(i) => final(self).form() == profile_form(old(self).store@[i]) && final(self).strip()
                    == profile_status(old(self).store@[i]),
                None => *final(self) == *old(self),
            },
    {
        self.select_profile(id);
        clicks >= 2
    }

    /// The rows of the form, from top to bottom.
    pub fn render_form(&self) -> (rows: Vec<FormRow>)
        ensures
            rows@ == rows_of(self.form()),
    {
        let mut rows: Vec<FormRow> = Vec::new();
        rows.push(FormRow::Name);
        rows.push(FormRow::Host);
        rows.push(FormRow::Port);
        rows.push(FormRow::Username);
        rows.push(FormRow::Authentication(self.auth_kind));
        match self.auth_kind {
            AuthKind::Password => {
                rows.push(FormRow::Password);
                rows.push(FormRow::RememberPassword(self.save_secret));
            },
            AuthKind::PrivateKey => {
                rows.push(FormRow::KeyFile);
                rows.push(FormRow::Passphrase);
                rows.push(FormRow::RememberPassphrase(self.save_secret));
            },
            AuthKind::Agent => {
                rows.push(FormRow::AgentNote);
            },
        }
        assert(rows@ =~= rows_of(self.form()));
        rows
    }

    /// The message strip and the action buttons.
    pub fn render_footer(&self) -> (footer: Footer)
        ensures
            footer.connectable == is_complete(self.form()),
            match footer.status {
                Some((color, text)) => self.status matches Some(status) && text@ == status.message@ && color == (
                match status.level {
                    StatusLevel::Info => Slot::TextMuted,
                    StatusLevel::Warning => Slot::Accent,
                    StatusLevel::Error => Slot::Danger,
                }),
                None => self.status is None,
            },
    {
        let status = match &self.status {
            Some(status) => Some((status.level.color(), status.message.clone())),
            None => None,
        };
        Footer { status, connectable: self.can_connect() }
    }
}

/// Whether a field holds nothing but white space.
fn is_blank(field: &String) -> (blank: bool)
    ensures
        blank == (trimmed(field@).len() == 0),
{
    trim(field.as_str()).as_str().is_empty()
}

/// The profiles after reading the profile file again.
pub open spec fn reload(store: ProfileStore, reloaded: Option<ProfileStore>) -> ProfileStore {
    match reloaded {
        Some(store) => store,
        None => store,
    }
}

/// The secret that was typed into a form.
pub open spec fn typed_secret(form: FormView) -> Seq<char> {
    if form.auth_kind is PrivateKey {
        form.passphrase
    } else {
        form.password
    }
}

/// A connection after the keychain was asked for its secret, where it was to be asked.
pub open spec fn looked_up(
    before: PendingConnection,
    after: PendingConnection,
    stored: Result<Option<String>, String>,
) -> bool {
    &&& after.profile == before.profile
    &&& after.auth_kind == before.auth_kind
    &&& after.key_path == before.key_path
    &&& after.look_up == before.look_up
    &&& !before.look_up ==> after.secret == before.secret && after.problems == before.problems
    &&& before.look_up ==> match stored {
        Ok(Some(secret)) => after.secret@ == secret@ && after.problems == before.problems,
        Ok(None) => after.secret@.len() == 0 && after.problems == before.problems,
        Err(reason) => after.secret@.len() == 0 && problem_texts(after.problems@) == problem_texts(
            before.problems@,
        ).push(with_reason("the saved secret could not be read"@, reason@)),
    }
}

/// What is to be done about the secret of a connection in the keychain.
pub open spec fn is_step_for(step: KeychainStep, pending: PendingConnection) -> bool {
    match step {
        KeychainStep::Save(secret) => pending.profile.save_secret && pending.secret@.len() > 0 && secret@
            == pending.secret@,
        KeychainStep::Nothing => pending.profile.save_secret && pending.secret@.len() == 0,
        KeychainStep::Delete => !pending.profile.save_secret,
    }
}

/// The connection that is opened in the end.
pub open spec fn hands_out(event: ConnectionDialogEvent, pending: PendingConnection) -> bool {
    event matches ConnectionDialogEvent::Connect { profile, auth } && profile == pending.profile && is_auth(
        auth,
        pending.auth_kind,
        pending.key_path@,
        pending.secret@,
    )
}

/// The profile that a form edits, when it is stored.
pub open spec fn edited(form: FormView, profiles: Seq<SessionProfile>) -> Option<SessionProfile> {
    match form.editing {
        Some(id) => match position_of(profiles, id) {
            Some(i) => Some(profiles[i]),
            None => None,
        },
        None => None,
    }
}

/// A profile says what a form says. An existing profile keeps its identifier and
/// its overrides; a new one gets the fresh identifier and none.
pub open spec fn describes(
    profile: SessionProfile,
    form: FormView,
    profiles: Seq<SessionProfile>,
    fresh: u128,
) -> bool {
    &&& profile.name@ == if trimmed(form.name).len() == 0 {
        trimmed(form.host)
    } else {
        trimmed(form.name)
    }
    &&& profile.host@ == trimmed(form.host)
    &&& form_port(form) == Some(profile.port as nat)
    &&& profile.username@ == trimmed(form.username)
    &&& profile.save_secret == form.save_secret
    &&& match profile.auth {
        AuthMethod::PublicKey { key_path } => form.auth_kind is PrivateKey && key_path@ == trimmed(form.key_path),
        AuthMethod::Password => form.auth_kind is Password,
        AuthMethod::Agent => false,
    }
    &&& match edited(form, profiles) {
        Some(existing) => profile.id == existing.id && profile.overrides == existing.overrides,
        None => profile.id == fresh && profile.overrides == crate::profile::no_overrides(),
    }
}

/// What could not be cleared up after a profile was deleted.
pub open spec fn deletion_problems(saved: Result<(), String>, cleared: Result<(), String>) -> Seq<Seq<char>> {
    let first = match saved {
        Err(reason) => seq![with_reason("the profile list could not be written"@, reason@)],
        Ok(_) => Seq::empty(),
    };
    match cleared {
        Err(reason) => first.push(with_reason("its keychain entry could not be removed"@, reason@)),
        Ok(_) => first,
    }
}

/// Everything that went wrong on the way to a connection.
pub open spec fn all_problems(
    pending: PendingConnection,
    saved: Result<(), String>,
    kept: Result<(), String>,
) -> Seq<Seq<char>> {
    let first = problem_texts(pending.problems@);
    let second = match saved {
        Err(reason) => first.push(with_reason("the profile could not be saved"@, reason@)),
        Ok(_) => first,
    };
    if pending.profile.save_secret {
        if pending.secret@.len() == 0 {
            second.push("there was no secret to put in the keychain"@)
        } else {
            match kept {
                Err(reason) => second.push(with_reason("the secret could not be saved"@, reason@)),
                Ok(_) => second,
            }
        }
    } else {
        match kept {
            Err(reason) => second.push(with_reason("a previously saved secret could not be removed"@, reason@)),
            Ok(_) => second,
        }
    }
}

/// Credentials made of a secret: a password, or a key file whose passphrase is
/// left out when there is none.
pub open spec fn is_auth(auth: SshAuth, kind: AuthKind, key_path: Seq<char>, secret: Seq<char>) -> bool {
    match auth {
        SshAuth::Password(password) => !(kind is PrivateKey) && password@ == secret,
        SshAuth::PrivateKeyFile { path, passphrase } => kind is PrivateKey && path@ == key_path && match passphrase {
            Some(passphrase) => secret.len() > 0 && passphrase@ == secret,
            None => secret.len() == 0,
        },
    }
}

/// A row of the saved-profile column.
pub struct ProfileRow {
    pub id: u128,
    pub name: String,
    pub label: String,
    pub selected: bool,
    pub background: Slot,
    pub hover: Slot,
}

/// A row shows a profile.
pub open spec fn is_row(row: ProfileRow, profile: SessionProfile, editing: Option<u128>) -> bool {
    &&& row.id == profile.id
    &&& row.name@ == profile.name@
    &&& row.label@ == profile.label_text()
    &&& row.selected == (editing == Some(profile.id))
    &&& row.background == if row.selected {
        Slot::SurfaceActive
    } else {
        Slot::Transparent
    }
    &&& row.hover == if row.selected {
        Slot::SurfaceActive
    } else {
        Slot::SurfaceHover
    }
}

/// The saved-profile column.
pub struct ProfileList {
    pub rows: Vec<ProfileRow>,
    pub hint: Option<&'static str>,
}

/// Shown instead of the profile list on a first run.
pub open spec fn empty_hint() -> Seq<char> {
    "No saved profiles yet. Fill in the form and connect \u{2014} the connection is saved automatically."@
}

/// A row of the form.
#[derive(Debug, Clone, Copy, PartialEq, Eq, Structural)]
pub enum FormRow {
    Name,
    Host,
    Port,
    Username,
    /// The method picker with the selected method.
    Authentication(AuthKind),
    Password,
    /// The key path and the button that browses for it.
    KeyFile,
    Passphrase,
    /// The note that the agent is not supported.
    AgentNote,
    /// The keychain choice for a password.
    RememberPassword(bool),
    /// The keychain choice for a passphrase.
    RememberPassphrase(bool),
}

/// The rows of a form: what is asked for depends on the method.
pub open spec fn rows_of(form: FormView) -> Seq<FormRow> {
    let common = seq![
        FormRow::Name,
        FormRow::Host,
        FormRow::Port,
        FormRow::Username,
        FormRow::Authentication(form.auth_kind),
    ];
    match form.auth_kind {
        AuthKind::Password => common + seq![FormRow::Password, FormRow::RememberPassword(form.save_secret)],
        AuthKind::PrivateKey => common + seq![
            FormRow::KeyFile,
            FormRow::Passphrase,
            FormRow::RememberPassphrase(form.save_secret),
        ],
        AuthKind::Agent => common + seq![FormRow::AgentNote],
    }
}

impl FormRow {
    /// Tab order of a row's control; rows go forward in visual order.
    pub fn tab_index(self) -> (index: usize)
        ensures
            index == self.tab_place(),
    {
        match self {
            FormRow::Name => 10,
            FormRow::Host => 20,
            FormRow::Port => 30,
            FormRow::Username => 40,
            FormRow::Authentication(_) => 50,
            FormRow::Password | FormRow::KeyFile => 60,
            FormRow::Passphrase => 70,
            FormRow::AgentNote => 75,
            FormRow::RememberPassword(_) | FormRow::RememberPassphrase(_) => 80,
        }
    }

    /// Where a row's control stands in the tab order.
    pub open spec fn tab_place(self) -> int {
        match self {
            FormRow::Name => 10,
            FormRow::Host => 20,
            FormRow::Port => 30,
            FormRow::Username => 40,
            FormRow::Authentication(_) => 50,
            FormRow::Password => 60,
            FormRow::KeyFile => 60,
            FormRow::Passphrase => 70,
            FormRow::AgentNote => 75,
            FormRow::RememberPassword(_) => 80,
            FormRow::RememberPassphrase(_) => 80,
        }
    }
}

/// Tabbing goes down the form: the tab order follows the visual order.
pub proof fn tabbing_follows_the_rows(form: FormView, i: int, j: int)
    requires
        0 <= i < j < rows_of(form).len(),
    ensures
        rows_of(form)[i].tab_place() < rows_of(form)[j].tab_place(),
{
}

/// The message strip and the action buttons.
pub struct Footer {
    pub status: Option<(Slot, String)>,
    pub connectable: bool,
}

/// A form that was filled from a profile and is submitted as it is describes that
/// profile again, except that blanks around the texts are dropped.
pub proof fn a_filled_form_describes_its_profile(
    profile: SessionProfile,
    again: SessionProfile,
    profiles: Seq<SessionProfile>,
    fresh: u128,
)
    requires
        edited(profile_form(profile), profiles) == Some(profile),
        describes(again, profile_form(profile), profiles, fresh),
    ensures
        again.id == profile.id,
        again.host@ == trimmed(profile.host@),
        again.username@ == trimmed(profile.username@),
        again.save_secret == profile.save_secret,
        again.overrides == profile.overrides,
        profile.port != 0 ==> again.port == profile.port,
{
    crate::text::decimal_round_trips(profile.port as nat, u16::MAX as nat);
}

/// Switching the method leaves no secret that was typed for the other one.
pub proof fn secrets_do_not_outlive_the_method(form: FormView, kind: AuthKind)
    requires
        form.auth_kind != kind,
    ensures
        typed_secret(
            FormView { auth_kind: kind, password: Seq::empty(), passphrase: Seq::empty(), ..form },
        ).len() == 0,
{
}

/// What was typed as a secret never gets into the profile: forms that differ in
/// nothing else describe the same one.
pub proof fn secrets_stay_out_of_profiles(
    profile: SessionProfile,
    form: FormView,
    password: Seq<char>,
    passphrase: Seq<char>,
    profiles: Seq<SessionProfile>,
    fresh: u128,
)
    ensures
        describes(profile, form, profiles, fresh) == describes(
            profile,
            FormView { password, passphrase, ..form },
            profiles,
            fresh,
        ),
{
}

/// The secret that was typed for the method is what the connection is opened with: the
/// passphrase field for a private key, the password field for a password, whatever the
/// other field holds and whatever the keychain has.
pub proof fn a_typed_secret_is_what_connects(
    dialog: ConnectionDialog,
    fresh: u128,
    pending: PendingConnection,
    ready: PendingConnection,
    stored: Result<Option<String>, String>,
    event: ConnectionDialogEvent,
)
    requires
        dialog.submits(pending, fresh),
        looked_up(pending, ready, stored),
        hands_out(event, ready),
    ensures
        dialog.auth_kind is PrivateKey && dialog.passphrase@.len() > 0 ==> {
            &&& pending.secret@ == dialog.passphrase@
            &&& event matches ConnectionDialogEvent::Connect { auth, .. }
            &&& auth matches SshAuth::PrivateKeyFile { path, passphrase }
            &&& path@ == trimmed(dialog.key_path@)
            &&& passphrase matches Some(passphrase)
            &&& passphrase@ == dialog.passphrase@
        },
        dialog.auth_kind is Password && dialog.password@.len() > 0 ==> {
            &&& pending.secret@ == dialog.password@
            &&& event matches ConnectionDialogEvent::Connect { auth, .. }
            &&& auth matches SshAuth::Password(password)
            &&& password@ == dialog.password@
        },
{
}

/// With nothing typed, a stored profile connects with the secret that the keychain has,
/// and a new one with none; the keychain is asked for a stored profile alone.
pub proof fn an_empty_field_falls_back_to_the_keychain(
    dialog: ConnectionDialog,
    fresh: u128,
    pending: PendingConnection,
    ready: PendingConnection,
    stored: Result<Option<String>, String>,
    event: ConnectionDialogEvent,
)
    requires
        dialog.submits(pending, fresh),
        looked_up(pending, ready, stored),
        hands_out(event, ready),
        dialog.auth_kind is PrivateKey ==> dialog.passphrase@.len() == 0,
        dialog.auth_kind is Password ==> dialog.password@.len() == 0,
        !(dialog.auth_kind is Agent),
    ensures
        ({
            let secret = match stored {
                Ok(Some(secret)) if dialog.editing is Some => secret@,
                _ => Seq::empty(),
            };
            &&& pending.look_up == (dialog.editing is Some)
            &&& event matches ConnectionDialogEvent::Connect { auth, .. }
            &&& match auth {
                SshAuth::Password(password) => dialog.auth_kind is Password && password@ == secret,
                SshAuth::PrivateKeyFile { path, passphrase } => {
                    &&& dialog.auth_kind is PrivateKey
                    &&& path@ == trimmed(dialog.key_path@)
                    &&& option_text(passphrase) == if secret.len() == 0 {
                        None
                    } else {
                        Some(secret)
                    }
                },
            }
        }),
{
    if let Ok(Some(secret)) = stored {
        if secret@.len() == 0 {
            assert(secret@ =~= Seq::empty());
        }
    }
    assert(forall|text: Seq<char>| text.len() == 0 ==> text =~= Seq::<char>::empty());
}

/// The profile that connects says what the fields say, without the blanks around them:
/// a connection without a name is called after its host.
pub proof fn the_profile_says_what_the_fields_say(
    dialog: ConnectionDialog,
    fresh: u128,
    pending: PendingConnection,
    ready: PendingConnection,
    stored: Result<Option<String>, String>,
    event: ConnectionDialogEvent,
)
    requires
        dialog.submits(pending, fresh),
        looked_up(pending, ready, stored),
        hands_out(event, ready),
    ensures
        event matches ConnectionDialogEvent::Connect { profile, .. } && ({
            &&& profile == pending.profile
            &&& profile.host@ == trimmed(dialog.host@)
            &&& profile.username@ == trimmed(dialog.username@)
            &&& trimmed(dialog.name@).len() > 0 ==> profile.name@ == trimmed(dialog.name@)
            &&& trimmed(dialog.name@).len() == 0 ==> profile.name@ == trimmed(dialog.host@)
            &&& profile.save_secret == dialog.save_secret
            &&& trimmed(dialog.port@).len() == 0 ==> profile.port == 22
            &&& trimmed(dialog.port@).len() > 0 ==> parsed(trimmed(dialog.port@), 65535) == Some(profile.port as nat)
            &&& dialog.auth_kind is PrivateKey ==> (profile.auth matches AuthMethod::PublicKey { key_path } && key_path@
                == trimmed(dialog.key_path@))
            &&& dialog.auth_kind is Password ==> profile.auth is Password
        }),
{
}

/// A form that edits a stored profile keeps its identifier and its overrides; any other
/// makes a new profile.
pub proof fn editing_keeps_the_profile(
    dialog: ConnectionDialog,
    fresh: u128,
    pending: PendingConnection,
    i: int,
)
    requires
        dialog.submits(pending, fresh),
        distinct_ids(dialog.store@),
        0 <= i < dialog.store@.len(),
    ensures
        dialog.editing == Some(dialog.store@[i].id) ==> pending.profile.id == dialog.store@[i].id
            && pending.profile.overrides == dialog.store@[i].overrides,
        dialog.editing is None ==> pending.profile.id == fresh,
{
    if dialog.editing == Some(dialog.store@[i].id) {
        crate::profile::profiles_are_found_by_identifier(dialog.store@, i);
    }
}

/// A port is a number from 1 to 65535; nothing typed means 22.
pub proof fn ports_are_numbers_of_sixteen_bits(form: FormView, port: nat)
    ensures
        form.port.len() == 0 ==> form_port(form) == Some(22nat),
        form.port == decimal_text(port) && 1 <= port <= 65535 ==> form_port(form) == Some(port),
        form.port == decimal_text(port) && (port == 0 || port > 65535) ==> form_port(form) is None,
        form_port(form) matches Some(port) ==> 1 <= port <= 65535,
{
    crate::text::decimal_round_trips(port, port);
    crate::text::lemma_decimal(port);
    if form.port == decimal_text(port) {
        assert('0' <= decimal_text(port)[0] <= '9');
    }
    if form.port.len() == 0 {
        assert(trimmed(form.port) =~= Seq::empty());
    }
}

/// A form can be submitted exactly when it names a host and a user, a key file for a
/// private key, and a port that there is; the agent is not supported.
pub proof fn a_form_needs_a_host_and_a_user(form: FormView)
    ensures
        is_complete(form) == (!(form.auth_kind is Agent) && trimmed(form.host).len() > 0 && trimmed(
            form.username,
        ).len() > 0 && (form.auth_kind is PrivateKey ==> trimmed(form.key_path).len() > 0) && form_port(form) is Some),
        !is_complete(form) && !(form.auth_kind is Agent) && trimmed(form.host).len() == 0 ==> missing_text(form)
            == "Enter the host to connect to."@,
        !(form.auth_kind is Agent) && trimmed(form.host).len() > 0 && trimmed(form.username).len() == 0
            ==> missing_text(form) == "Enter the user to log in as."@,
        form.auth_kind is PrivateKey && trimmed(form.host).len() > 0 && trimmed(form.username).len() > 0 && trimmed(
            form.key_path,
        ).len() == 0 ==> missing_text(form) == "Choose the private key file to authenticate with."@,
        form.auth_kind is Password && trimmed(form.host).len() > 0 && trimmed(form.username).len() > 0
            ==> missing_text(form) == "Enter a port between 1 and 65535."@,
        form.auth_kind is Agent ==> missing_text(form) == "SSH agent authentication is not supported yet."@,
{
}

/// A profile is put into the fields it came from, and no secret with it; an empty form
/// asks for a password on port 22.
pub proof fn a_profile_fills_its_own_fields(dialog: ConnectionDialog, profile: SessionProfile)
    ensures
        dialog.form() == profile_form(profile) ==> {
            &&& dialog.name@ == profile.name@
            &&& dialog.host@ == profile.host@
            &&& dialog.port@ == decimal_text(profile.port as nat)
            &&& dialog.username@ == profile.username@
            &&& dialog.password@.len() == 0
            &&& dialog.passphrase@.len() == 0
            &&& dialog.save_secret == profile.save_secret
            &&& dialog.editing == Some(profile.id)
            &&& profile.auth is Password ==> dialog.auth_kind is Password && dialog.key_path@.len() == 0
            &&& profile.auth is Agent ==> dialog.auth_kind is Agent && dialog.key_path@.len() == 0
            &&& profile.auth matches AuthMethod::PublicKey { key_path } ==> dialog.auth_kind is PrivateKey
                && dialog.key_path@ == key_path@
        },
        dialog.form() == empty_form() ==> {
            &&& dialog.name@.len() == 0
            &&& dialog.host@.len() == 0
            &&& dialog.port@ == decimal_text(22)
            &&& dialog.username@.len() == 0
            &&& dialog.password@.len() == 0
            &&& dialog.key_path@.len() == 0
            &&& dialog.passphrase@.len() == 0
            &&& dialog.auth_kind is Password
            &&& !dialog.save_secret
            &&& dialog.editing is None
        },
{
}

/// What is kept in the keychain follows the tick: it is saved when it is set and there
/// is something to save, and removed when it is not.
pub proof fn the_keychain_follows_the_tick(step: KeychainStep, pending: PendingConnection)
    requires
        is_step_for(step, pending),
    ensures
        pending.profile.save_secret && pending.secret@.len() > 0 ==> (step matches KeychainStep::Save(secret) && secret@
            == pending.secret@),
        pending.profile.save_secret && pending.secret@.len() == 0 ==> step is Nothing,
        !pending.profile.save_secret ==> step is Delete,
{
}

/// A connection goes without complaint exactly when everything was stored as asked.
pub proof fn storage_problems_are_all_reported(
    pending: PendingConnection,
    saved: Result<(), String>,
    kept: Result<(), String>,
)
    ensures
        all_problems(pending, saved, kept).len() == pending.problems@.len() + (if saved is Err {
            1int
        } else {
            0int
        }) + (if (pending.profile.save_secret && pending.secret@.len() == 0) || kept is Err {
            1int
        } else {
            0int
        }),
        problem_texts(pending.problems@).is_prefix_of(all_problems(pending, saved, kept)),
{
    let all = all_problems(pending, saved, kept);
    let first = problem_texts(pending.problems@);
    assert(first =~= all.subrange(0, first.len() as int));
}

/// The method decides what is asked for: a password, a key file with its passphrase, or
/// nothing, below the same five rows.
pub proof fn the_method_decides_what_is_asked_for(form: FormView)
    ensures
        rows_of(form).take(5) == seq![
            FormRow::Name,
            FormRow::Host,
            FormRow::Port,
            FormRow::Username,
            FormRow::Authentication(form.auth_kind),
        ],
        form.auth_kind is Password ==> rows_of(form).skip(5) == seq![
            FormRow::Password,
            FormRow::RememberPassword(form.save_secret),
        ],
        form.auth_kind is PrivateKey ==> rows_of(form).skip(5) == seq![
            FormRow::KeyFile,
            FormRow::Passphrase,
            FormRow::RememberPassphrase(form.save_secret),
        ],
        form.auth_kind is Agent ==> rows_of(form).skip(5) == seq![FormRow::AgentNote],
{
    assert(rows_of(form).take(5) =~= seq![
        FormRow::Name,
        FormRow::Host,
        FormRow::Port,
        FormRow::Username,
        FormRow::Authentication(form.auth_kind),
    ]);
}

/// Digits that fit are kept as they are, and nothing but digits is: another character
/// makes no difference wherever it is typed.
pub proof fn only_digits_count(text: Seq<char>, rest: Seq<char>, other: char, max: nat)
    requires
        !('0' <= other <= '9'),
    ensures
        crate::text::all_digits(text) && text.len() <= max ==> leading_digits(text, max) == text,
        leading_digits(text.push(other) + rest, max) == leading_digits(text + rest, max),
    decreases text.len(), rest.len(),
{
    if rest.len() == 0 {
        assert(text.push(other) + rest =~= text.push(other));
        assert(text + rest =~= text);
        assert(text.push(other).drop_last() =~= text);
        if text.len() > 0 {
            only_digits_count(text.drop_last(), rest, other, max);
            if crate::text::all_digits(text) && text.len() <= max {
                assert('0' <= text[text.len() - 1] <= '9');
                assert forall|i: int| 0 <= i < text.drop_last().len() implies '0' <= #[trigger] text.drop_last()[i]
                    <= '9' by {
                    assert(text.drop_last()[i] == text[i]);
                }
                assert(text.drop_last().push(text.last()) =~= text);
            }
        }
    } else {
        only_digits_count(text, rest.drop_last(), other, max);
        assert((text.push(other) + rest).drop_last() =~= text.push(other) + rest.drop_last());
        assert((text + rest).drop_last() =~= text + rest.drop_last());
    }
}

/// A secret of any length makes credentials for its method, and no others: a password,
/// or the passphrase of the key. A key without one has no passphrase.
pub proof fn every_secret_makes_credentials(kind: AuthKind, path: String, secret: String, auth: SshAuth)
    ensures
        !(kind is PrivateKey) ==> is_auth(SshAuth::Password(secret), kind, path@, secret@),
        kind is PrivateKey && secret@.len() > 0 ==> is_auth(
            SshAuth::PrivateKeyFile { path, passphrase: Some(secret) },
            kind,
            path@,
            secret@,
        ),
        kind is PrivateKey && secret@.len() == 0 ==> is_auth(
            SshAuth::PrivateKeyFile { path, passphrase: None },
            kind,
            path@,
            secret@,
        ),
        is_auth(auth, kind, path@, secret@) ==> (auth is PrivateKeyFile <==> kind is PrivateKey),
{
}

/// A profile that is opened says what will be used: that an agent will not do, or that a
/// saved secret will.
pub proof fn opened_profiles_say_what_is_used(profile: SessionProfile)
    ensures
        profile.auth is Agent ==> profile_status(profile) == Some(
            (StatusLevel::Warning, "SSH agent authentication is not supported yet."@),
        ),
        !(profile.auth is Agent) && profile.save_secret ==> profile_status(profile) == Some(
            (
                StatusLevel::Info,
                "A secret saved in the system keychain will be used unless you type a new one."@,
            ),
        ),
        !(profile.auth is Agent) && !profile.save_secret ==> profile_status(profile) is None,
{
}

/// A row of the list is the profile it shows, by name and label, and stands out when it
/// is the one in the form.
pub proof fn the_row_in_the_form_stands_out(row: ProfileRow, profile: SessionProfile, editing: Option<u128>)
    requires
        is_row(row, profile, editing),
    ensures
        row.id == profile.id,
        row.name@ == profile.name@,
        row.label@ == profile.username@ + seq!['@'] + profile.host@,
        editing == Some(profile.id) ==> row.selected && row.background is SurfaceActive && row.hover is SurfaceActive,
        editing != Some(profile.id) ==> !row.selected && row.background is Transparent && row.hover is SurfaceHover,
{
    crate::profile::labels_name_user_and_host(profile);
}

/// The places of the rows in the tab order.
pub proof fn rows_have_these_places(kind: AuthKind, saved: bool)
    ensures
        FormRow::Name.tab_place() == 10 && FormRow::Host.tab_place() == 20 && FormRow::Port.tab_place() == 30,
        FormRow::Username.tab_place() == 40 && FormRow::Authentication(kind).tab_place() == 50,
        FormRow::Password.tab_place() == 60 && FormRow::KeyFile.tab_place() == 60,
        FormRow::Passphrase.tab_place() == 70 && FormRow::AgentNote.tab_place() == 75,
        FormRow::RememberPassword(saved).tab_place() == 80 && FormRow::RememberPassphrase(saved).tab_place() == 80,
{
}

} // verus!
