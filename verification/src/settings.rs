//! Application settings.
use vstd::prelude::*;

use crate::profile::{copy_option, SessionOverrides};

verus! {

/// Theme of the window chrome.
#[derive(Debug, Clone, Copy, PartialEq, Eq, Structural)]
pub enum UiTheme {
    Dark,
    Light,
}

/// Who draws the title bar.
#[derive(Debug, Clone, Copy, PartialEq, Eq, Structural)]
pub enum TitlebarStyle {
    /// The application.
    Custom,
    /// The window system.
    System,
}

/// Settings of the window.
#[derive(Debug, Clone, Copy, PartialEq, Eq, Structural)]
pub struct WindowSettings {
    pub titlebar: TitlebarStyle,
    /// Background opacity in percent.
    pub background_opacity: u64,
    pub background_blur: bool,
}

/// Settings of terminals.
pub struct TerminalSettings {
    /// Id of the color scheme.
    pub scheme: String,
    /// Font family; `None` means the default of the platform.
    pub font_family: Option<String>,
    /// Font size in ten-thousandths.
    pub font_size: u64,
    pub scrollback_lines: u64,
    /// `TERM` advertised to the remote host.
    pub term: String,
    pub copy_on_select: bool,
}

/// Settings of new connections.
pub struct ConnectionSettings {
    pub default_port: u16,
    pub default_username: Option<String>,
    pub keepalive_secs: u64,
    pub connect_timeout_secs: u64,
}

/// The application settings.
pub struct AppSettings {
    /// Version of the file format.
    pub version: u32,
    pub ui_theme: UiTheme,
    /// Tag of the interface language; `None` follows the system locale.
    pub language: Option<String>,
    pub window: WindowSettings,
    pub terminal: TerminalSettings,
    pub connection: ConnectionSettings,
}

impl Clone for AppSettings {
    fn clone(&self) -> (settings: AppSettings)
        ensures
            settings == *self,
    {
        AppSettings {
            version: self.version,
            ui_theme: self.ui_theme,
            language: copy_option(&self.language),
            window: self.window,
            terminal: TerminalSettings {
                scheme: self.terminal.scheme.clone(),
                font_family: copy_option(&self.terminal.font_family),
                font_size: self.terminal.font_size,
                scrollback_lines: self.terminal.scrollback_lines,
                term: self.terminal.term.clone(),
                copy_on_select: self.terminal.copy_on_select,
            },
            connection: ConnectionSettings {
                default_port: self.connection.default_port,
                default_username: copy_option(&self.connection.default_username),
                keepalive_secs: self.connection.keepalive_secs,
                connect_timeout_secs: self.connection.connect_timeout_secs,
            },
        }
    }
}

/// The terminal settings of one session: the global ones with the session's
/// overrides laid on top.
pub struct EffectiveTerminal {
    pub scheme: String,
    pub font_size: u64,
    pub scrollback_lines: u64,
    pub term: String,
    pub copy_on_select: bool,
}

/// What an override leaves of a setting.
pub open spec fn or_else<T>(choice: Option<T>, setting: T) -> T {
    match choice {
        Some(value) => value,
        None => setting,
    }
}

/// Settings with overrides laid on top.
pub open spec fn effective_of(settings: AppSettings, overrides: SessionOverrides) -> EffectiveTerminal {
    EffectiveTerminal {
        scheme: or_else(overrides.scheme, settings.terminal.scheme),
        font_size: or_else(overrides.font_size, settings.terminal.font_size),
        scrollback_lines: or_else(overrides.scrollback_lines, settings.terminal.scrollback_lines),
        term: or_else(overrides.term, settings.terminal.term),
        copy_on_select: or_else(overrides.copy_on_select, settings.terminal.copy_on_select),
    }
}

impl AppSettings {
    /// The terminal settings of a session with these overrides.
    pub fn effective_terminal(&self, overrides: &SessionOverrides) -> (effective: EffectiveTerminal)
        ensures
            effective == effective_of(*self, *overrides),
    {
        EffectiveTerminal {
            scheme: match &overrides.scheme {
                Some(scheme) => scheme.clone(),
                None => self.terminal.scheme.clone(),
            },
            font_size: match overrides.font_size {
                Some(size) => size,
                None => self.terminal.font_size,
            },
            scrollback_lines: match overrides.scrollback_lines {
                Some(lines) => lines,
                None => self.terminal.scrollback_lines,
            },
            term: match &overrides.term {
                Some(term) => term.clone(),
                None => self.terminal.term.clone(),
            },
            copy_on_select: match overrides.copy_on_select {
                Some(copy) => copy,
                None => self.terminal.copy_on_select,
            },
        }
    }
}

/// The settings that every view reads.
pub struct CurrentSettings(pub AppSettings);

/// Install the settings that were read from disk. A file that cannot be read
/// falls back to the defaults; the application must start regardless of what is
/// on disk.
pub fn init(loaded: Result<AppSettings, String>, defaults: AppSettings) -> (installed: CurrentSettings)
    ensures
        installed.0 == match loaded {
            Ok(settings) => settings,
            Err(_) => defaults,
        },
{
    match loaded {
        Ok(settings) => CurrentSettings(settings),
        Err(_) => CurrentSettings(defaults),
    }
}

/// A snapshot of the current settings, or the defaults when none are installed.
pub fn current(installed: &Option<CurrentSettings>, defaults: &AppSettings) -> (settings: AppSettings)
    ensures
        settings == match *installed {
            Some(current) => current.0,
            None => *defaults,
        },
{
    match installed {
        Some(current) => current.0.clone(),
        None => defaults.clone(),
    }
}

/// Replace the installed settings. Storing them and applying them to what is open
/// is up to the caller.
pub fn replace(settings: AppSettings, installed: &mut Option<CurrentSettings>)
    ensures
        *final(installed) == Some(CurrentSettings(settings)),
{
    *installed = Some(CurrentSettings(settings));
}

/// What a session overrides goes before the settings, one by one; what it does not
/// comes from them.
pub proof fn overrides_go_before_settings(settings: AppSettings, overrides: SessionOverrides)
    ensures
        ({
            let effective = effective_of(settings, overrides);
            &&& overrides.scheme matches Some(scheme) ==> effective.scheme == scheme
            &&& overrides.scheme is None ==> effective.scheme == settings.terminal.scheme
            &&& overrides.font_size matches Some(size) ==> effective.font_size == size
            &&& overrides.font_size is None ==> effective.font_size == settings.terminal.font_size
            &&& overrides.scrollback_lines matches Some(lines) ==> effective.scrollback_lines == lines
            &&& overrides.scrollback_lines is None ==> effective.scrollback_lines == settings.terminal.scrollback_lines
            &&& overrides.term matches Some(term) ==> effective.term == term
            &&& overrides.term is None ==> effective.term == settings.terminal.term
            &&& overrides.copy_on_select matches Some(copy) ==> effective.copy_on_select == copy
            &&& overrides.copy_on_select is None ==> effective.copy_on_select == settings.terminal.copy_on_select
        }),
{
}

} // verus!
