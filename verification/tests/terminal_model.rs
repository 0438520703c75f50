use logman::term::model::TerminalModel;
use logman::term::snapshot::{CursorPos, RunFlags, TermModes};
use logman::term::theme::TerminalTheme;
use logman::term::width::wide;

fn model(cols: u16, rows: u16) -> TerminalModel {
    TerminalModel::new(cols, rows, 100, TerminalTheme::dark())
}

#[test]
fn dimensions_are_clamped() {
    let term = TerminalModel::new(0, 0, 0, TerminalTheme::dark());
    assert_eq!(term.size(), (1, 1));
    assert_eq!(term.snapshot().lines.len(), 1);
}

#[test]
fn plain_text_lands_on_the_first_line() {
    let mut term = model(20, 5);
    term.feed(b"hello");

    let snapshot = term.snapshot();
    assert_eq!(snapshot.lines.len(), 5);
    assert_eq!(snapshot.lines[0].text(), "hello");
    assert_eq!(snapshot.cursor, CursorPos { line: 0, col: 5 });
    assert!(snapshot.cursor_visible);
}

#[test]
fn identical_styles_are_merged_into_one_run() {
    let mut term = model(20, 3);
    term.feed(b"hello");

    let line = &term.snapshot().lines[0];
    assert_eq!(line.runs.len(), 1);
    assert_eq!(line.runs[0].start_col, 0);
    assert_eq!(line.runs[0].text, "hello");
}

#[test]
fn sgr_bold_red_is_reflected_in_the_run() {
    let mut term = model(20, 3);
    term.feed(b"\x1b[1;31mX");

    let line = &term.snapshot().lines[0];
    assert_eq!(line.runs.len(), 1);
    let run = &line.runs[0];
    assert_eq!(run.text, "X");
    assert!(run.flags.contains(RunFlags::bold()));
    // Bold promotes red to bright red.
    assert_eq!(run.fg, term.theme().ansi[9]);
    assert!(run.fg.r > 150 && run.fg.r > run.fg.g && run.fg.r > run.fg.b);
}

#[test]
fn style_changes_split_runs() {
    let mut term = model(20, 3);
    term.feed(b"ab\x1b[31mcd");

    let line = &term.snapshot().lines[0];
    assert_eq!(line.runs.len(), 2);
    assert_eq!(line.runs[0].text, "ab");
    assert_eq!(line.runs[0].start_col, 0);
    assert_eq!(line.runs[1].text, "cd");
    assert_eq!(line.runs[1].start_col, 2);
}

#[test]
fn inverse_swaps_foreground_and_background() {
    let mut term = model(20, 3);
    term.feed(b"a\x1b[7mb");

    let line = &term.snapshot().lines[0];
    assert_eq!(line.runs.len(), 2);

    let normal = &line.runs[0];
    let inverted = &line.runs[1];
    assert_eq!(normal.fg, term.theme().foreground);
    assert_eq!(normal.bg, term.theme().background);
    assert_eq!(inverted.fg, normal.bg);
    assert_eq!(inverted.bg, normal.fg);
    assert!(inverted.flags.contains(RunFlags::inverse()));
}

#[test]
fn hidden_paints_text_in_the_background_color() {
    let mut term = model(20, 3);
    term.feed(b"\x1b[8mX");

    let run = &term.snapshot().lines[0].runs[0];
    assert!(run.flags.contains(RunFlags::hidden()));
    assert_eq!(run.fg, run.bg);
}

#[test]
fn erase_display_leaves_empty_lines() {
    let mut term = model(20, 4);
    term.feed(b"hello\r\nworld\r\n");
    assert!(!term.snapshot().lines[0].is_empty());

    term.feed(b"\x1b[2J");
    let snapshot = term.snapshot();
    assert_eq!(snapshot.lines.len(), 4);
    for line in &snapshot.lines {
        assert!(line.is_empty(), "expected blank line, got {:?}", line);
    }
}

#[test]
fn resize_after_newlines_keeps_the_snapshot_consistent() {
    let mut term = model(20, 5);
    for i in 0..40 {
        term.feed(format!("line {i}\r\n").as_bytes());
    }

    for (cols, rows) in [(40u16, 10u16), (10, 3), (1, 1), (80, 24), (20, 5)] {
        term.resize(cols, rows);
        let snapshot = term.snapshot();
        assert_eq!(snapshot.cols, cols);
        assert_eq!(snapshot.rows, rows);
        assert_eq!(snapshot.lines.len(), rows as usize);
        assert_eq!(term.size(), (cols, rows));
    }
}

#[test]
fn scrollback_offset_moves_and_returns_to_the_bottom() {
    let mut term = model(20, 5);
    for i in 0..30 {
        term.feed(format!("line {i}\r\n").as_bytes());
    }

    let snapshot = term.snapshot();
    assert_eq!(snapshot.display_offset, 0);
    assert!(snapshot.total_scrollback >= 5, "scrollback: {}", snapshot.total_scrollback);

    term.scroll_lines(5);
    assert_eq!(term.snapshot().display_offset, 5);

    term.scroll_lines(-2);
    assert_eq!(term.snapshot().display_offset, 3);

    term.scroll_to_bottom();
    assert_eq!(term.snapshot().display_offset, 0);
}

#[test]
fn scrolled_viewport_shows_older_content() {
    let mut term = model(20, 5);
    for i in 0..30 {
        term.feed(format!("line {i}\r\n").as_bytes());
    }

    let bottom = term.snapshot();
    term.scroll_lines(2);
    let scrolled = term.snapshot();

    // Scrolling up by two moves every visible row two positions down.
    assert_ne!(bottom.lines[0].text(), scrolled.lines[0].text());
    assert_eq!(bottom.lines[0].text(), scrolled.lines[2].text());
    assert_eq!(bottom.lines[1].text(), scrolled.lines[3].text());
}

#[test]
fn scrolling_beyond_the_history_is_clamped() {
    let mut term = model(20, 5);
    term.feed(b"just one line");

    term.scroll_lines(1000);
    assert_eq!(term.snapshot().display_offset, 0);

    term.scroll_lines(-1000);
    assert_eq!(term.snapshot().display_offset, 0);
}

#[test]
fn osc_sets_and_resets_the_window_title() {
    let mut term = model(20, 5);
    assert_eq!(term.title(), None);

    term.feed(b"\x1b]0;logman\x07");
    assert_eq!(term.title(), Some("logman"));

    term.feed(b"\x1b]2;other\x1b\\");
    assert_eq!(term.title(), Some("other"));

    term.reset();
    assert_eq!(term.title(), None);
}

#[test]
fn modes_track_the_terminal_state() {
    let mut term = model(20, 5);
    assert_eq!(term.modes(), TermModes::default());

    term.feed(b"\x1b[?1h\x1b[?2004h");
    let modes = term.modes();
    assert!(modes.app_cursor);
    assert!(modes.bracketed_paste);

    term.feed(b"\x1b[?1l\x1b[?2004l");
    let modes = term.modes();
    assert!(!modes.app_cursor);
    assert!(!modes.bracketed_paste);
}

#[test]
fn cursor_visibility_follows_dectcem_and_the_viewport() {
    let mut term = model(20, 5);
    assert!(term.snapshot().cursor_visible);

    term.feed(b"\x1b[?25l");
    assert!(!term.snapshot().cursor_visible);

    term.feed(b"\x1b[?25h");
    assert!(term.snapshot().cursor_visible);

    for i in 0..30 {
        term.feed(format!("line {i}\r\n").as_bytes());
    }
    term.scroll_lines(10);
    assert!(!term.snapshot().cursor_visible);
    term.scroll_to_bottom();
    assert!(term.snapshot().cursor_visible);
}

#[test]
fn reset_clears_screen_and_scrollback() {
    let mut term = model(20, 5);
    for i in 0..30 {
        term.feed(format!("line {i}\r\n").as_bytes());
    }
    assert!(term.snapshot().total_scrollback > 0);

    term.reset();
    let snapshot = term.snapshot();
    assert_eq!(snapshot.total_scrollback, 0);
    assert_eq!(snapshot.display_offset, 0);
    assert_eq!(term.size(), (20, 5));
    for line in &snapshot.lines {
        assert!(line.is_empty());
    }
}

#[test]
fn wide_characters_keep_the_column_layout() {
    let mut term = model(20, 3);
    term.feed("한글x".as_bytes());

    let line = &term.snapshot().lines[0];
    // The spacer cells are dropped, so the text holds three characters ...
    assert_eq!(line.text(), "한글x");
    // ... while `x` still starts at column four.
    let last = line.runs.last().expect("a run");
    assert_eq!(last.start_col, 0);
    assert_eq!(last.text.chars().count(), 3);
}

#[test]
fn combining_marks_are_attached_to_the_base_character() {
    let mut term = model(20, 3);
    // `e` followed by a combining acute accent.
    term.feed("e\u{0301}".as_bytes());
    assert_eq!(term.snapshot().lines[0].text(), "e\u{0301}");
}

#[test]
fn changing_the_theme_recolors_the_snapshot() {
    let mut term = model(20, 3);
    term.feed(b"x");
    assert_eq!(term.snapshot().lines[0].runs[0].fg, TerminalTheme::dark().foreground);

    term.set_theme(TerminalTheme::light());
    assert_eq!(term.snapshot().lines[0].runs[0].fg, TerminalTheme::light().foreground);
    assert_eq!(term.theme().background, TerminalTheme::light().background);
}

#[test]
fn device_status_reports_are_queued_for_the_channel() {
    let mut term = model(20, 5);
    assert!(term.take_pty_output().is_empty());

    term.feed(b"\x1b[6n");
    assert_eq!(term.take_pty_output(), b"\x1b[1;1R");
    assert!(term.take_pty_output().is_empty());
}

#[test]
fn split_escape_sequences_are_resumed_across_feeds() {
    let mut term = model(20, 3);
    term.feed(b"\x1b[1");
    term.feed(b";31m");
    term.feed(b"Z");

    let run = &term.snapshot().lines[0].runs[0];
    assert_eq!(run.text, "Z");
    assert!(run.flags.contains(RunFlags::bold()));
}

#[test]
fn a_glyph_of_double_width_needs_two_columns() {
    let mut narrow = model(1, 3);
    assert!(narrow.can_take(b"plain"));
    assert!(!narrow.can_take("\u{d55c}".as_bytes()));
    assert!(!narrow.can_take("\u{1100}".as_bytes()));
    narrow.feed(b"plain");
    assert!(narrow.can_fit(1));
    let mut wide = model(2, 3);
    assert!(wide.can_take("\u{d55c}".as_bytes()));
    wide.feed("\u{d55c}".as_bytes());
    assert!(!wide.can_fit(1));
    assert!(wide.can_fit(2));
}

#[test]
fn narrow_text_of_any_script_fits_on_one_column() {
    let mut narrow = model(1, 3);
    assert!(narrow.can_take("\u{2500}\u{2588}\u{28ff}\u{1d400}\u{ffee}".as_bytes()));
    let text = "\u{e9}\u{2502}\u{915}\u{301}";
    assert!(narrow.can_take(text.as_bytes()));
    narrow.feed(text.as_bytes());
    assert!(narrow.can_fit(1));
    let snapshot = narrow.snapshot();
    assert_eq!(snapshot.lines[0].text(), "\u{e9}");
    assert_eq!(snapshot.lines[1].text(), "\u{2502}");
    assert_eq!(snapshot.lines[2].text(), "\u{915}\u{301}");
    narrow.resize(1, 5);
    narrow.resize(3, 5);
    assert_eq!(narrow.size(), (3, 5));
}

#[test]
fn reset_drops_a_half_parsed_escape() {
    let mut term = TerminalModel::new(20, 5, 100, TerminalTheme::dark());
    term.feed(b"\x1b]0;logman\x07hello\x1b[6n\x1b[1");
    assert_eq!(term.title(), Some("logman"));

    term.reset();
    assert_eq!(term.title(), None);
    assert_eq!(term.size(), (20, 5));
    assert!(term.take_pty_output().is_empty());
    let snapshot = term.snapshot();
    assert_eq!(snapshot.total_scrollback, 0);
    assert!(snapshot.lines.iter().all(|line| line.is_empty()));

    term.feed(b";31mZ");
    assert_eq!(term.snapshot().lines[0].text(), ";31mZ");
}

#[test]
fn reset_forgets_pen_and_scroll_region() {
    let mut term = model(10, 4);
    term.feed(b"\x1b[1m\x1b[2;3r\x1b[2J\x1b[H");
    term.reset();
    let mut fresh = model(10, 4);
    for terminal in [&mut term, &mut fresh] {
        terminal.feed(b"a\r\nb\r\nc\r\nd\r\ne");
    }
    let (after, new) = (term.snapshot(), fresh.snapshot());
    assert_eq!(after.total_scrollback, new.total_scrollback);
    for (one, two) in after.lines.iter().zip(&new.lines) {
        assert_eq!(one.text(), two.text());
        assert!(one.runs.iter().all(|run| !run.flags.contains(RunFlags::bold())));
    }
}

#[test]
fn any_scrollback_depth_can_be_asked_for() {
    let mut term = TerminalModel::new(10, 2, usize::MAX, TerminalTheme::dark());
    term.feed(b"a\r\nb\r\nc");
    assert_eq!(term.snapshot().total_scrollback, 1);
    term.scroll_lines(i32::MAX);
    assert_eq!(term.snapshot().display_offset, 1);
}

#[test]
fn a_wide_glyph_may_come_in_pieces() {
    let mut narrow = model(1, 3);
    assert!(narrow.can_take(b"a\xe1\x84"));
    narrow.feed(b"a\xe1\x84");
    assert!(!narrow.can_take(b"\x80"));
    assert!(narrow.can_take(b"z"));
    narrow.feed(b"z");
    assert!(narrow.can_take(b"\x80"));
    assert!(!narrow.can_take("\u{1f600}".as_bytes()));
}

/// The column that the cursor is reported in after a character on an empty line.
fn column_after(term: &mut TerminalModel, c: char) -> u32 {
    let mut text = [0; 4];
    term.feed(b"\r\x1b[2K");
    term.feed(c.encode_utf8(&mut text).as_bytes());
    term.feed(b"\x1b[6n");
    let reply = String::from_utf8(term.take_pty_output()).expect("a report");
    let column = reply.trim_end_matches('R').rsplit(';').next().expect("a column");
    column.parse().expect("a number")
}

#[test]
fn wide_characters_are_those_of_the_emulator() {
    let mut term = model(6, 2);
    for code in 0xa0..=0x10ffff {
        if let Some(c) = char::from_u32(code) {
            assert_eq!(wide(code), column_after(&mut term, c) > 2, "{code:x}");
        }
    }
}

#[test]
fn the_cursor_never_leaves_the_first_column_backwards() {
    let mut term = model(20, 3);
    term.feed(b"\xe1\x84\x80\x0d\x1b[P");
    let snapshot = term.snapshot();
    assert_eq!(snapshot.cursor, CursorPos { line: 0, col: 0 });
    assert!(snapshot.cursor_visible);
}

#[test]
fn the_cursor_stands_on_the_leading_half_of_a_wide_glyph() {
    let mut term = model(20, 3);
    term.feed("a\u{d55c}".as_bytes());
    term.feed(b"\x1b[3G");
    assert_eq!(term.snapshot().cursor, CursorPos { line: 0, col: 1 });
    term.feed(b"\x1b[2G");
    assert_eq!(term.snapshot().cursor, CursorPos { line: 0, col: 1 });
    term.feed(b"\x1b[?25l");
    assert!(!term.snapshot().cursor_visible);
    term.feed(b"\x1b[?25h");
    assert!(term.snapshot().cursor_visible);
}
