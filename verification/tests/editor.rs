use logman::editor::{mix, palette_for, FIND_CURRENT_MIX, FIND_MATCH_MIX, GUTTER_MIX, LINE_HIGHLIGHT_MIX};
use logman::term::theme::{Rgb, TerminalTheme};

/// A mix in single precision.
fn float_channel(a: u8, b: u8, t: f32) -> u8 {
    (f32::from(a) + (f32::from(b) - f32::from(a)) * t).round() as u8
}

#[test]
fn mixing_agrees_with_single_precision() {
    for (percent, t) in [
        (LINE_HIGHLIGHT_MIX, 0.08f32),
        (GUTTER_MIX, 0.5),
        (FIND_MATCH_MIX, 0.35),
        (FIND_CURRENT_MIX, 0.7),
    ] {
        for a in 0..=255u8 {
            for b in 0..=255u8 {
                let mixed = mix(Rgb { r: a, g: b, b: a }, Rgb { r: b, g: a, b: a }, percent);
                assert_eq!(mixed.r, float_channel(a, b, t), "{a} {b} {percent}");
                assert_eq!(mixed.g, float_channel(b, a, t), "{b} {a} {percent}");
                assert_eq!(mixed.b, a);
            }
        }
    }
}

#[test]
fn a_mix_reaches_both_ends() {
    let a = Rgb { r: 10, g: 200, b: 0 };
    let b = Rgb { r: 250, g: 3, b: 0 };
    assert_eq!(mix(a, b, 0), a);
    assert_eq!(mix(a, b, 100), b);
    assert_eq!(mix(a, b, 200), b);
    assert_eq!(mix(a, b, 50), Rgb { r: 130, g: 102, b: 0 });
}

#[test]
fn a_scheme_lends_its_own_slots() {
    let scheme = TerminalTheme::dark();
    let palette = palette_for(&scheme);
    assert_eq!(palette.background, scheme.background);
    assert_eq!(palette.foreground, scheme.foreground);
    assert_eq!(palette.cursor, scheme.cursor);
    assert_eq!(palette.selection, scheme.selection);
    assert_eq!(palette.gutter_active, scheme.foreground);
    assert_eq!(palette.find_match, mix(scheme.background, scheme.ansi[3], 35));
    assert_eq!(palette.find_current, mix(scheme.background, scheme.ansi[11], 70));
    assert_eq!(palette.gutter, mix(scheme.background, scheme.foreground, 50));
    assert_eq!(palette.line_highlight, mix(scheme.background, scheme.foreground, 8));
}
