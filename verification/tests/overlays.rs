use logman::connection::SshAuth;
use logman::overlays::{saved_auth, Dialog, DialogEvent, Dismissal, KeyFile};
use logman::profile::{AuthMethod, SessionProfile};
use logman::settings::TitlebarStyle;
use logman::workspace::{Focus, Workspace};

fn profile(auth: AuthMethod, save_secret: bool) -> SessionProfile {
    let mut profile =
        SessionProfile::with_id(1, "box".to_owned(), "host".to_owned(), 22, "alice".to_owned(), auth);
    profile.save_secret = save_secret;
    profile
}

fn key() -> AuthMethod {
    AuthMethod::PublicKey { key_path: "/home/alice/.ssh/id".to_owned() }
}

#[test]
fn a_finished_profile_connects_on_the_click() {
    let mut workspace = Workspace::new(TitlebarStyle::Custom);
    workspace.open_settings();
    let auth = workspace.open_profile(&profile(AuthMethod::Password, true), Some("pw".to_owned()), KeyFile::Missing);
    assert!(matches!(auth, Some(SshAuth::Password(password)) if password == "pw"));
    assert!(!workspace.dialog_open());
}

#[test]
fn an_unfinished_profile_opens_the_dialog() {
    let mut workspace = Workspace::new(TitlebarStyle::Custom);
    assert!(workspace.open_profile(&profile(AuthMethod::Password, true), None, KeyFile::Missing).is_none());
    assert!(workspace.connecting);
    assert!(saved_auth(&profile(AuthMethod::Password, false), Some("pw".to_owned()), KeyFile::Missing).is_none());
    assert!(saved_auth(&profile(AuthMethod::Agent, true), Some("pw".to_owned()), KeyFile::Plain).is_none());
    assert!(saved_auth(&profile(key(), true), Some("pw".to_owned()), KeyFile::Missing).is_none());
    assert!(saved_auth(&profile(key(), false), Some("pw".to_owned()), KeyFile::Encrypted).is_none());
    assert!(saved_auth(&profile(key(), true), None, KeyFile::Encrypted).is_none());
}

#[test]
fn a_key_brings_its_passphrase_when_it_needs_one() {
    let auth = saved_auth(&profile(key(), false), None, KeyFile::Plain);
    assert!(matches!(
        auth,
        Some(SshAuth::PrivateKeyFile { path, passphrase: None }) if path == "/home/alice/.ssh/id"
    ));
    let auth = saved_auth(&profile(key(), true), Some("open sesame".to_owned()), KeyFile::Encrypted);
    assert!(matches!(
        auth,
        Some(SshAuth::PrivateKeyFile { passphrase: Some(phrase), .. }) if phrase == "open sesame"
    ));
}

#[test]
fn only_one_dialog_is_ever_open() {
    let mut workspace = Workspace::new(TitlebarStyle::Custom);
    assert_eq!(workspace.open_dialog(), None);
    assert_eq!(workspace.open_settings(), Some(Dialog::Connection));
    assert_eq!(workspace.open_about(), Some(Dialog::Settings));
    assert!(workspace.about && !workspace.connecting && !workspace.configuring);
    assert_eq!(workspace.close_overlays(), Some(Dialog::About));
    assert_eq!(workspace.close_overlays(), None);
}

#[test]
fn the_dismiss_key_closes_what_lies_on_top() {
    let mut workspace = Workspace::new(TitlebarStyle::Custom);
    workspace.adopt_session(1);
    assert_eq!(workspace.dismiss_dialog(), Dismissal::PassOn);
    assert!(workspace.open_tab_context(0, 10, 20));
    workspace.set_menu_open(true);
    workspace.set_tab_menu_open(true);
    assert_eq!(workspace.dismiss_dialog(), Dismissal::TabContext);
    assert_eq!(workspace.dismiss_dialog(), Dismissal::Menu);
    assert_eq!(workspace.dismiss_dialog(), Dismissal::TabMenu);
    workspace.open_about();
    assert_eq!(workspace.dismiss_dialog(), Dismissal::Dialog(Dialog::About, Focus::Session(1)));
    workspace.open_settings();
    assert_eq!(workspace.dismiss_dialog(), Dismissal::Dialog(Dialog::Settings, Focus::Session(1)));
    workspace.open_dialog();
    assert_eq!(workspace.dismiss_dialog(), Dismissal::AskConnection);
    assert!(workspace.connecting);
}

#[test]
fn a_dialog_hands_the_focus_back_when_it_closes() {
    let mut workspace = Workspace::new(TitlebarStyle::Custom);
    workspace.open_dialog();
    let outcome = workspace.on_dialog_event(Dialog::Connection, DialogEvent::Connect { stays: true });
    assert!(outcome.open_session && !outcome.close && outcome.focus.is_none());
    assert!(workspace.connecting);
    let outcome = workspace.on_dialog_event(Dialog::Connection, DialogEvent::Connect { stays: false });
    assert!(outcome.open_session && outcome.close && outcome.focus.is_none());
    assert!(!workspace.connecting);
    workspace.open_settings();
    let outcome = workspace.on_dialog_event(Dialog::Settings, DialogEvent::ThemesChanged);
    assert!(outcome.apply_settings && outcome.focus.is_none());
    assert!(workspace.configuring);
    let outcome = workspace.on_dialog_event(Dialog::Settings, DialogEvent::Applied);
    assert!(outcome.apply_settings);
    assert_eq!(outcome.focus, Some(Focus::Workspace));
    assert!(!workspace.configuring);
    workspace.open_about();
    let outcome = workspace.on_dialog_event(Dialog::About, DialogEvent::Dismissed);
    assert!(outcome.close && !workspace.about);
}

#[test]
fn a_dialog_outranks_the_tab_strip() {
    let mut workspace = Workspace::new(TitlebarStyle::Custom);
    workspace.adopt_session(1);
    workspace.open_about();
    assert!(!workspace.open_tab_context(0, 1, 1));
    workspace.close_overlays();
    assert!(!workspace.open_tab_context(1, 1, 1));
    workspace.set_menu_open(true);
    assert!(workspace.open_tab_context(0, 3, 4));
    assert!(!workspace.menu_open);
    assert_eq!(workspace.tab_context, Some((0, 3, 4)));
    assert!(workspace.close_tab_context());
    assert!(!workspace.close_tab_context());
}

#[test]
fn flags_report_whether_they_changed() {
    let mut workspace = Workspace::new(TitlebarStyle::Custom);
    assert!(workspace.panel_open);
    workspace.toggle_file_panel();
    assert!(!workspace.panel_open);
    assert!(workspace.set_menu_open(true));
    assert!(!workspace.set_menu_open(true));
    assert!(workspace.set_tab_menu_open(true));
    assert!(!workspace.set_tab_menu_open(true));
    assert_eq!(workspace.apply_titlebar(TitlebarStyle::Custom), None);
    assert_eq!(workspace.apply_titlebar(TitlebarStyle::System), Some(TitlebarStyle::System));
    assert_eq!(workspace.titlebar, TitlebarStyle::System);
}
