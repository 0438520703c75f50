use logman::connection::SshAuth;
use logman::profile::{AuthMethod, SessionProfile};
use logman::session::{FileSource, Opening, PtyEvent, Session, SessionStatus};
use logman::settings::{
    AppSettings, ConnectionSettings, TerminalSettings, TitlebarStyle, UiTheme, WindowSettings,
};
use logman::ssh_event::{SshErrorKind, SshEvent};
use logman::term::theme::TerminalTheme;
use logman::ui::tab_bar::TabStatus;

fn settings() -> AppSettings {
    AppSettings {
        version: 1,
        ui_theme: UiTheme::Dark,
        language: None,
        window: WindowSettings {
            titlebar: TitlebarStyle::Custom,
            background_opacity: 100,
            background_blur: false,
        },
        terminal: TerminalSettings {
            scheme: "dark".to_owned(),
            font_family: None,
            font_size: 130_000,
            scrollback_lines: 1000,
            term: "xterm-256color".to_owned(),
            copy_on_select: false,
        },
        connection: ConnectionSettings {
            default_port: 22,
            default_username: None,
            keepalive_secs: 30,
            connect_timeout_secs: 10,
        },
    }
}

fn profile() -> SessionProfile {
    let mut profile = SessionProfile::with_id(
        7,
        "build box".to_owned(),
        "example.org".to_owned(),
        2222,
        "alice".to_owned(),
        AuthMethod::Password,
    );
    profile.overrides.term = Some("vt100".to_owned());
    profile
}

fn remote() -> (Session, logman::session::Effects) {
    Session::new(profile(), SshAuth::Password("hunter2".to_owned()), &settings(), TerminalTheme::dark())
}

fn local() -> Session {
    Session::new_local("zsh".to_owned(), &settings(), TerminalTheme::dark()).0
}

/// A message with what it quotes put in.
fn words(status: &SessionStatus) -> String {
    let message = status.summary();
    let mut text = message.key.to_owned();
    for (_, value) in &message.args {
        text.push(' ');
        text.push_str(value);
    }
    text
}

#[test]
fn only_a_starting_or_running_session_is_live() {
    assert!(SessionStatus::Connecting.is_live());
    assert!(SessionStatus::Connected.is_live());
    assert!(
        !SessionStatus::Disconnected {
            reason: "closed by the user".to_owned()
        }
        .is_live()
    );
    assert!(
        !SessionStatus::Failed {
            kind: "authentication failed".into(),
            message: "wrong password".to_owned()
        }
        .is_live()
    );
}

#[test]
fn every_status_maps_to_its_own_tab_marker() {
    assert_eq!(
        SessionStatus::Connecting.tab_status(),
        TabStatus::Connecting
    );
    assert_eq!(SessionStatus::Connected.tab_status(), TabStatus::Connected);
    assert_eq!(
        SessionStatus::Disconnected {
            reason: "the local shell exited".to_owned()
        }
        .tab_status(),
        TabStatus::Disconnected
    );
    assert_eq!(
        SessionStatus::Failed {
            kind: "local shell".into(),
            message: "could not start the local shell".to_owned()
        }
        .tab_status(),
        TabStatus::Error
    );
}

#[test]
fn a_summary_carries_the_transports_own_words() {
    let disconnected = SessionStatus::Disconnected {
        reason: "the local shell exited".to_owned(),
    };
    assert!(
        words(&disconnected).contains("the local shell exited"),
        "{}",
        words(&disconnected)
    );

    let failed = SessionStatus::Failed {
        kind: "local shell".into(),
        message: "could not start the local shell: No such file".to_owned(),
    };
    let summary = words(&failed);
    assert!(summary.contains("local shell"), "{summary}");
    assert!(summary.contains("No such file"), "{summary}");
}

#[test]
fn a_status_with_nothing_to_quote_still_summarises() {
    assert!(!words(&SessionStatus::Connecting).is_empty());
    assert!(!words(&SessionStatus::Connected).is_empty());
}

#[test]
fn a_new_session_asks_for_its_transport() {
    let (session, effects) = remote();
    assert!(matches!(session.status(), SessionStatus::Connecting));
    assert_eq!(session.terminal().size(), (80, 24));
    assert_eq!(session.label(), "alice@example.org");
    assert_eq!(session.title(), "build box");
    assert!(!session.is_local());
    assert!(effects.notify);
    assert!(!effects.close);
    match effects.open {
        Some(Opening::Ssh(config)) => {
            assert_eq!(config.host, "example.org");
            assert_eq!(config.port, 2222);
            assert_eq!(config.username, "alice");
            assert_eq!((config.cols, config.rows), (80, 24));
            assert_eq!(config.term, "vt100");
            assert_eq!(config.keepalive_secs, 30);
            assert_eq!(config.connect_timeout_secs, 10);
            assert!(matches!(config.auth, SshAuth::Password(password) if password == "hunter2"));
        }
        _ => panic!("an SSH session asks for an SSH connection"),
    }
}

#[test]
fn a_local_session_starts_the_login_shell() {
    let (session, effects) = Session::new_local("zsh".to_owned(), &settings(), TerminalTheme::dark());
    assert!(session.is_local());
    assert_eq!(session.label(), "zsh");
    assert_eq!(session.title(), "zsh");
    match effects.open {
        Some(Opening::Local(config)) => {
            assert_eq!(config.term, "xterm-256color");
            assert_eq!(config.cwd, None);
        }
        _ => panic!("a local session asks for a shell"),
    }
}

#[test]
fn a_ready_transport_is_told_the_size() {
    let (mut session, _) = remote();
    let effects = session.resize(100, 30);
    assert_eq!(effects.resize, Some((100, 30)));
    assert_eq!(session.resize(100, 30).resize, None);
    let effects = session.on_ssh_event(SshEvent::Ready);
    assert_eq!(effects.resize, Some((100, 30)));
    assert!(matches!(session.status(), SessionStatus::Connected));
    assert_eq!(session.files(), Some(FileSource::Sftp));
}

#[test]
fn a_resize_never_goes_below_one_cell() {
    let (mut session, _) = remote();
    assert_eq!(session.resize(0, 0).resize, Some((1, 1)));
    assert_eq!(session.terminal().size(), (1, 1));
}

#[test]
fn output_reaches_the_screen_and_answers_go_back() {
    let (mut session, _) = remote();
    session.on_ssh_event(SshEvent::Ready);
    let effects = session.on_ssh_event(SshEvent::Data(b"hello".to_vec()));
    assert_eq!(effects.send, None);
    assert_eq!(session.terminal().snapshot().lines[0].text(), "hello");
    // A device status report is answered with the place of the cursor.
    let effects = session.on_ssh_event(SshEvent::ExtendedData(b"\x1b[6n".to_vec()));
    assert_eq!(effects.send, Some(b"\x1b[1;6R".to_vec()));
}

#[test]
fn a_title_that_can_be_read_names_the_tab() {
    let (mut session, _) = remote();
    session.on_ssh_event(SshEvent::Data(b"\x1b]0;vim main.rs\x07".to_vec()));
    assert_eq!(session.title(), "vim main.rs");
    session.on_ssh_event(SshEvent::Data(b"\x1b]0;   \x07".to_vec()));
    assert_eq!(session.title(), "build box");
}

#[test]
fn typing_is_sent_and_nothing_is_not() {
    let (mut session, _) = remote();
    assert_eq!(session.send_input(Vec::new()).send, None);
    assert!(!session.send_input(Vec::new()).notify);
    assert_eq!(session.send_input(b"ls\n".to_vec()).send, Some(b"ls\n".to_vec()));
    session.on_ssh_event(SshEvent::Disconnected { reason: "bye".to_owned() });
    let effects = session.send_input(b"ls\n".to_vec());
    assert_eq!(effects.send, None);
    assert!(effects.notify);
}

#[test]
fn typing_snaps_the_view_back_to_the_bottom() {
    let mut session = local();
    let mut lines = String::new();
    for line in 0..60 {
        lines.push_str(&format!("line {line}\r\n"));
    }
    session.on_pty_event(PtyEvent::Data(lines.into_bytes()));
    session.terminal_mut().scroll_lines(10);
    assert_eq!(session.terminal().snapshot().display_offset, 10);
    session.send_input(b"x".to_vec());
    assert_eq!(session.terminal().snapshot().display_offset, 0);
}

#[test]
fn an_ended_session_says_why() {
    let (mut session, _) = remote();
    session.on_ssh_event(SshEvent::Disconnected { reason: "the server hung up".to_owned() });
    assert!(matches!(session.status(), SessionStatus::Disconnected { reason } if reason == "the server hung up"));
    assert_eq!(session.tab_status(), TabStatus::Disconnected);
    assert_eq!(session.files(), None);

    let (mut session, _) = remote();
    session.on_ssh_event(SshEvent::Error(SshErrorKind::Auth, "wrong password".to_owned()));
    assert!(matches!(
        session.status(),
        SessionStatus::Failed { kind, message } if kind == "authentication failed" && message == "wrong password"
    ));
    assert_eq!(session.tab_status(), TabStatus::Error);
}

#[test]
fn a_local_shell_exits_or_fails_to_start() {
    let mut session = local();
    session.on_pty_event(PtyEvent::Ready);
    assert_eq!(session.files(), Some(FileSource::Local));
    session.on_pty_event(PtyEvent::Exited);
    assert!(matches!(session.status(), SessionStatus::Disconnected { reason } if reason == "the local shell exited"));

    let mut session = local();
    session.on_pty_event(PtyEvent::Error("no such shell".to_owned()));
    assert!(matches!(
        session.status(),
        SessionStatus::Failed { kind, message } if kind == "local shell" && message == "no such shell"
    ));
}

#[test]
fn events_that_only_inform_change_nothing() {
    let (mut session, _) = remote();
    session.on_ssh_event(SshEvent::Ready);
    session.on_ssh_event(SshEvent::HostKey {
        algorithm: "ssh-ed25519".to_owned(),
        fingerprint: "SHA256:x".to_owned(),
        accepted: true,
    });
    session.on_ssh_event(SshEvent::ExitStatus(3));
    assert!(matches!(session.status(), SessionStatus::Connected));
    session.on_ssh_event(SshEvent::Connecting);
    assert!(matches!(session.status(), SessionStatus::Connecting));
}

#[test]
fn disconnecting_twice_is_disconnecting_once() {
    let (mut session, _) = remote();
    assert!(session.disconnect().close);
    assert!(matches!(session.status(), SessionStatus::Disconnected { reason } if reason == "closed by the user"));
    assert!(!session.disconnect().close);

    let (mut failed, _) = remote();
    failed.on_ssh_event(SshEvent::Error(SshErrorKind::Io, "gone".to_owned()));
    failed.disconnect();
    assert_eq!(failed.tab_status(), TabStatus::Error);
}

#[test]
fn a_reconnect_starts_on_a_clean_screen() {
    let (mut session, _) = remote();
    session.resize(100, 30);
    session.on_ssh_event(SshEvent::Data(b"old output".to_vec()));
    session.announce_cwd("/srv".to_owned());
    let mut changed = settings();
    changed.terminal.scrollback_lines = 3;
    let effects = session.reconnect(&changed, TerminalTheme::light());
    assert!(effects.close);
    assert!(matches!(effects.open, Some(Opening::Ssh(config)) if (config.cols, config.rows) == (100, 30)));
    assert!(session.terminal().snapshot().lines[0].is_empty());
    assert_eq!(session.cwd(), None);
    assert_eq!(session.terminal().theme().background, TerminalTheme::light().background);
    session.on_ssh_event(SshEvent::Data("line\r\n".repeat(60).into_bytes()));
    assert_eq!(session.terminal().snapshot().total_scrollback, 3);
}

#[test]
fn a_duplicate_reuses_the_credentials() {
    let (session, _) = remote();
    let (copy, effects) = session.duplicate("zsh".to_owned(), false, &settings(), TerminalTheme::dark());
    assert_eq!(copy.label(), "alice@example.org");
    assert!(matches!(
        effects.open,
        Some(Opening::Ssh(config)) if matches!(&config.auth, SshAuth::Password(password) if password == "hunter2")
    ));
}

#[test]
fn a_local_duplicate_starts_where_the_shell_is() {
    let mut session = local();
    assert_eq!(session.local_start_dir(true), None);
    session.announce_cwd("/home/alice".to_owned());
    assert_eq!(session.cwd(), Some("/home/alice"));
    assert_eq!(session.local_start_dir(true).as_deref(), Some("/home/alice"));
    assert_eq!(session.local_start_dir(false), None);
    let (_, effects) = session.duplicate("zsh".to_owned(), true, &settings(), TerminalTheme::dark());
    assert!(matches!(effects.open, Some(Opening::Local(config)) if config.cwd.as_deref() == Some("/home/alice")));
    session.announce_cwd("not a path".to_owned());
    assert_eq!(session.local_start_dir(true), None);
}

#[test]
fn settings_reach_a_live_session() {
    let (mut session, _) = remote();
    assert_eq!(session.effective(&settings()).term, "vt100");
    assert_eq!(session.effective(&settings()).scheme, "dark");
    assert!(session.apply_settings(TerminalTheme::light()).notify);
    assert_eq!(session.terminal().theme().foreground, TerminalTheme::light().foreground);
}
