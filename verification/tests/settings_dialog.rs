use logman::settings::{
    current, init, replace, AppSettings, ConnectionSettings, CurrentSettings, TerminalSettings, TitlebarStyle, UiTheme,
    WindowSettings,
};
use logman::settings_dialog::{
    format_number, installed_fonts, parse_size, restrict_to_number, scheme_swatches, titlebar_options, ui_theme_options,
    Choice, OpenList, Scheme, SettingsDialog, SettingsDialogEvent,
};
use logman::term::theme::TerminalTheme;
use logman::ui::theme::Slot;

fn settings() -> AppSettings {
    AppSettings {
        version: 3,
        ui_theme: UiTheme::Dark,
        language: None,
        window: WindowSettings {
            titlebar: TitlebarStyle::Custom,
            background_opacity: 90,
            background_blur: false,
        },
        terminal: TerminalSettings {
            scheme: "dark".to_owned(),
            font_family: Some("Mono".to_owned()),
            font_size: 135_000,
            scrollback_lines: 10_000,
            term: "xterm-256color".to_owned(),
            copy_on_select: false,
        },
        connection: ConnectionSettings {
            default_port: 22,
            default_username: None,
            keepalive_secs: 30,
            connect_timeout_secs: 10,
        },
    }
}

fn opened() -> SettingsDialog {
    let mut dialog = SettingsDialog::new(settings());
    dialog.open(settings(), vec!["Courier".to_owned(), "Mono".to_owned()]);
    dialog
}

fn languages() -> Vec<(String, String)> {
    vec![("en".to_owned(), "English".to_owned()), ("ko".to_owned(), "Korean".to_owned())]
}

#[test]
fn the_form_shows_the_settings() {
    let dialog = opened();
    assert!(dialog.is_open());
    assert_eq!(dialog.opacity, "90");
    assert_eq!(dialog.font_size, "13.5");
    assert_eq!(dialog.scrollback, "10000");
    assert_eq!(dialog.port, "22");
    assert_eq!(dialog.username, "");
}

#[test]
fn saving_without_an_edit_keeps_the_settings() {
    let dialog = opened();
    let collected = dialog.collect();
    assert_eq!(collected.version, 3);
    assert_eq!(collected.terminal.font_size, 135_000);
    assert_eq!(collected.terminal.term, "xterm-256color");
    assert_eq!(collected.window.background_opacity, 90);
    assert_eq!(collected.connection.default_username, None);
}

#[test]
fn a_field_that_is_no_number_keeps_what_there_was() {
    let mut dialog = opened();
    dialog.opacity = "".to_owned();
    dialog.font_size = "16".to_owned();
    dialog.scrollback = " 500 ".to_owned();
    dialog.port = "70000".to_owned();
    dialog.username = " alice ".to_owned();
    dialog.term = "  ".to_owned();
    let collected = dialog.collect();
    assert_eq!(collected.window.background_opacity, 90);
    assert_eq!(collected.terminal.font_size, 160_000);
    assert_eq!(collected.terminal.scrollback_lines, 500);
    assert_eq!(collected.connection.default_port, 22);
    assert_eq!(collected.connection.default_username.as_deref(), Some("alice"));
    assert_eq!(collected.terminal.term, "xterm-256color");
}

#[test]
fn a_failed_write_leaves_the_dialog_open() {
    let mut dialog = opened();
    let mut changed = settings();
    changed.window.background_opacity = 50;
    assert!(dialog.save(changed.clone(), Err("disk full".to_owned())).is_none());
    assert!(dialog.is_open());
    assert_eq!(dialog.opacity, "50");
    assert_eq!(dialog.status.as_ref().map(|message| message.key), Some("settings.save_failed"));
    assert!(matches!(
        dialog.save(changed, Ok(())),
        Some(SettingsDialogEvent::Applied(applied)) if applied.window.background_opacity == 50
    ));
    assert!(!dialog.is_open());
}

#[test]
fn escape_closes_a_list_first() {
    let mut dialog = opened();
    let reveal = dialog.set_list_open(OpenList::Font, true, &languages()).expect("an entry to show");
    assert_eq!(reveal.index, 2);
    let (taken, event) = dialog.on_key_down("escape");
    assert!(taken && event.is_none());
    assert!(dialog.is_open());
    let (taken, event) = dialog.on_key_down("escape");
    assert!(taken && matches!(event, Some(SettingsDialogEvent::Dismissed)));
    let (taken, _) = dialog.on_key_down("escape");
    assert!(!taken);
}

#[test]
fn lists_offer_the_choices() {
    let mut dialog = opened();
    let fonts = dialog.font_options();
    assert!(matches!(fonts[0], Choice::SystemDefault));
    assert!(matches!(&fonts[2], Choice::Named(name) if name == "Mono"));
    dialog.select_font(0, "");
    assert_eq!(dialog.font_family, None);
    dialog.select_font(1, "Gone");
    assert!(matches!(&dialog.font_options()[1], Choice::Named(name) if name == "Gone"));
    assert_eq!(SettingsDialog::language_options(&languages()).len(), 3);
    assert_eq!(dialog.language_index(&languages()), None);
    dialog.select_language(2, &languages());
    assert_eq!(dialog.language.as_deref(), Some("ko"));
    assert_eq!(dialog.language_index(&languages()), Some(2));
    dialog.select_ui_theme(1);
    dialog.select_titlebar(1);
    assert_eq!(dialog.render_appearance(&languages()).theme, 1);
    assert_eq!(dialog.render_appearance(&languages()).titlebar, 1);
    assert_eq!(dialog.render_terminal().font_size, "13.5");
    assert_eq!(dialog.render_connection().keepalive, "30");
}

#[test]
fn sections_are_revealed_once() {
    let mut dialog = opened();
    assert!(dialog.apply_pending_focus());
    assert!(!dialog.apply_pending_focus());
    assert_eq!(dialog.reveal_focused(None), None);
    let shown = dialog.reveal_focused(Some(1000));
    assert_eq!(shown, Some(2));
    assert_eq!(dialog.reveal_focused(Some(1000)), None);
}

#[test]
fn sizes_are_written_without_zeros_at_their_end() {
    for (size, text) in [(140_000, "14"), (135_000, "13.5"), (123_456, "12.3456"), (10_100, "1.01"), (0, "0")] {
        assert_eq!(format_number(size), text);
        assert_eq!(parse_size(text), Some(size));
    }
    assert_eq!(parse_size("x"), None);
    assert_eq!(parse_size(""), None);
}

#[test]
fn numeric_fields_keep_numbers() {
    assert_eq!(restrict_to_number("1a2.3.4", true, 10).as_deref(), Some("12.34"));
    assert_eq!(restrict_to_number("1.5", false, 10).as_deref(), Some("15"));
    assert_eq!(restrict_to_number("12345", false, 3).as_deref(), Some("123"));
    assert_eq!(restrict_to_number("12", false, 3), None);
}

#[test]
fn private_fonts_are_not_offered() {
    let fonts = installed_fonts(vec![".SF".to_owned(), "Mono".to_owned(), "Arial".to_owned()]);
    assert!(!fonts.contains(&".SF".to_owned()));
    assert!(fonts.contains(&"Mono".to_owned()));
}

#[test]
fn settings_fall_back_to_the_defaults() {
    let installed = init(Err("unreadable".to_owned()), settings());
    assert_eq!(installed.0.version, 3);
    let mut newer = settings();
    newer.version = 4;
    assert_eq!(init(Ok(newer.clone()), settings()).0.version, 4);
    let mut slot: Option<CurrentSettings> = None;
    assert_eq!(current(&slot, &settings()).version, 3);
    replace(newer, &mut slot);
    assert_eq!(current(&slot, &settings()).version, 4);
}

#[test]
fn the_pickers_name_their_segments() {
    assert_eq!(ui_theme_options(), vec![("dark", "settings.theme_dark"), ("light", "settings.theme_light")]);
    assert_eq!(
        titlebar_options(),
        vec![("custom", "settings.titlebar_custom"), ("system", "settings.titlebar_system")]
    );
}

#[test]
fn a_scheme_without_a_palette_is_a_muted_card() {
    let schemes = vec![
        Scheme { id: "dark".to_owned(), name: "Dark".to_owned(), palette: Some(TerminalTheme::dark()) },
        Scheme { id: "gone".to_owned(), name: "Gone".to_owned(), palette: None },
    ];
    let swatches = scheme_swatches(&schemes, "as before");
    assert_eq!(swatches.len(), 2);
    assert_eq!(swatches[0].id, "dark");
    assert_eq!(swatches[0].preview.as_ref().map(|preview| preview.ansi.len()), Some(6));
    assert!(swatches[1].preview.is_none());
    assert_eq!(swatches[1].placeholder, "as before");
}

#[test]
fn a_failed_save_is_written_in_the_danger_color() {
    let mut dialog = opened();
    assert!(dialog.render_footer().is_none());
    let collected = dialog.collect();
    assert!(dialog.save(collected, Err("disk full".to_owned())).is_none());
    let (message, slot) = dialog.render_footer().unwrap();
    assert_eq!(message.key, "settings.save_failed");
    assert_eq!(message.args, vec![("error", "disk full".to_owned())]);
    assert_eq!(slot, Slot::Danger);
    assert!(dialog.is_open());
}
