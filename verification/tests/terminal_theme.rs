use logman::term::snapshot::RunFlags;
use logman::term::theme::{Color, NamedColor, Rgb, TerminalTheme};

#[test]
fn packed_roundtrip() {
    let color = Rgb::from_u32(0x123456);
    assert_eq!(color, Rgb::new(0x12, 0x34, 0x56));
    assert_eq!(color.to_u32(), 0x123456);
}

#[test]
fn spec_colors_pass_through() {
    let theme = TerminalTheme::dark();
    let color = Color::Spec(Rgb { r: 1, g: 2, b: 3 });
    assert_eq!(
        theme.resolve(color, true, RunFlags::empty()),
        Rgb::new(1, 2, 3)
    );
}

#[test]
fn bold_promotes_named_colors_to_bright() {
    let theme = TerminalTheme::dark();
    let red = Color::Named(NamedColor::Red);
    assert_eq!(theme.resolve(red, true, RunFlags::empty()), theme.ansi[1]);
    assert_eq!(theme.resolve(red, true, RunFlags::bold()), theme.ansi[9]);
    // Background colors are never brightened.
    assert_eq!(theme.resolve(red, false, RunFlags::bold()), theme.ansi[1]);
}

#[test]
fn dim_darkens_foreground() {
    let theme = TerminalTheme::dark();
    let dimmed = theme.resolve(Color::Named(NamedColor::Foreground), true, RunFlags::dim());
    assert!(dimmed.r < theme.foreground.r);
}

#[test]
fn indexed_color_cube() {
    let theme = TerminalTheme::dark();
    // 16 is the first cube entry and is pure black.
    assert_eq!(
        theme.resolve(Color::Indexed(16), true, RunFlags::empty()),
        Rgb::new(0, 0, 0)
    );
    // 231 is the last cube entry and is pure white.
    assert_eq!(
        theme.resolve(Color::Indexed(231), true, RunFlags::empty()),
        Rgb::new(255, 255, 255)
    );
}

#[test]
fn indexed_grayscale_ramp() {
    let theme = TerminalTheme::dark();
    assert_eq!(
        theme.resolve(Color::Indexed(232), true, RunFlags::empty()),
        Rgb::new(8, 8, 8)
    );
    assert_eq!(
        theme.resolve(Color::Indexed(255), true, RunFlags::empty()),
        Rgb::new(238, 238, 238)
    );
}

#[test]
fn named_special_colors() {
    let theme = TerminalTheme::light();
    let flags = RunFlags::empty();
    assert_eq!(
        theme.resolve(Color::Named(NamedColor::Background), false, flags),
        theme.background
    );
    assert_eq!(
        theme.resolve(Color::Named(NamedColor::Cursor), true, flags),
        theme.cursor
    );
}

#[test]
fn the_cube_has_six_levels_per_channel() {
    let theme = TerminalTheme::light();
    let levels = [0, 95, 135, 175, 215, 255];
    let mut index = 16u8;
    for r in levels {
        for g in levels {
            for b in levels {
                assert_eq!(theme.resolve(Color::Indexed(index), true, RunFlags::bold()), Rgb::new(r, g, b));
                index += 1;
            }
        }
    }
    assert_eq!(index, 232);
}
