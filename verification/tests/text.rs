use logman::text::{decimal, join3, lower, parse, trim};
use logman::ui::theme::{set_theme, shift_lightness, theme, Shade, Slot, Theme};

#[test]
fn trimming_goes_by_unicode() {
    assert_eq!(trim("  a b \t\n"), "a b");
    assert_eq!(trim("\u{3000}\u{a0}x\u{2009}"), "x");
    assert_eq!(trim("   "), "");
}

#[test]
fn numbers_are_written_and_read() {
    for n in [0, 7, 10, 65535, u64::MAX] {
        assert_eq!(decimal(n), n.to_string());
        assert_eq!(parse(&decimal(n), u64::MAX), Some(n));
    }
    assert_eq!(parse("+12", 100), Some(12));
    assert_eq!(parse("101", 100), None);
    assert_eq!(parse("", 100), None);
    assert_eq!(parse("+", 100), None);
    assert_eq!(parse("-1", 100), None);
    assert_eq!(parse("99999999999999999999999", u64::MAX), None);
}

#[test]
fn small_pieces_add_up() {
    assert_eq!(join3("a", "", "b"), "ab");
    assert_eq!(lower('Q'), 'q');
    assert_eq!(lower('-'), '-');
}

#[test]
fn a_theme_is_dark_until_it_is_set() {
    let mut installed: Option<Theme> = None;
    assert_eq!(theme(installed).background, Theme::dark().background);
    set_theme(Theme::light(), &mut installed);
    assert_eq!(theme(installed).background, Theme::light().background);
    assert_eq!(Theme::dark().color(Slot::Text), Theme::dark().text);
}

#[test]
fn lightness_stays_in_range() {
    let shade: Shade = Theme::dark().text;
    let lighter = shift_lightness(shade, i16::MAX);
    let darker = shift_lightness(shade, i16::MIN);
    assert!(lighter.l >= shade.l);
    assert!(darker.l <= shade.l);
    assert_eq!(shift_lightness(shade, 0), shade);
}
