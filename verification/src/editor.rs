//! The colors of the text editor.
//!
//! All of them derive from the terminal color scheme, because an editor pane sits
//! beside a terminal pane showing the same host and the two should read as one
//! material.
use vstd::prelude::*;

use crate::term::theme::{Rgb, TerminalTheme};

verus! {

/// How far the caret's line is lifted off the background, in percent of the
/// foreground mixed into it.
pub const LINE_HIGHLIGHT_MIX: u8 = 8;

/// How far a line number is lifted off the background, in percent.
pub const GUTTER_MIX: u8 = 50;

/// How strongly a find match is tinted, in percent.
pub const FIND_MATCH_MIX: u8 = 35;

/// How strongly the match the find bar is on is tinted, in percent.
pub const FIND_CURRENT_MIX: u8 = 70;

/// Index of normal yellow in the sixteen-slot ANSI palette.
pub const ANSI_YELLOW: usize = 3;

/// Index of bright yellow in the sixteen-slot ANSI palette.
pub const ANSI_BRIGHT_YELLOW: usize = 11;

/// The colors the text surface is drawn in.
#[derive(Debug, Clone, Copy, PartialEq, Eq, Structural)]
pub struct EditorPalette {
    /// Behind everything.
    pub background: Rgb,
    /// The text.
    pub foreground: Rgb,
    /// The caret.
    pub cursor: Rgb,
    /// Behind the selection.
    pub selection: Rgb,
    /// A wash across the line the caret is on.
    pub line_highlight: Rgb,
    /// The line numbers.
    pub gutter: Rgb,
    /// The line number of the caret's line.
    pub gutter_active: Rgb,
    /// Behind a match of the find query.
    pub find_match: Rgb,
    /// Behind the match the find bar is currently on.
    pub find_current: Rgb,
}

/// The percentage that is mixed in: never more than all of it.
pub open spec fn share(percent: u8) -> int {
    if percent > 100 {
        100
    } else {
        percent as int
    }
}

/// A channel between two others, rounded to the nearest value and up from the
/// middle.
pub open spec fn mixed_channel(a: u8, b: u8, percent: u8) -> int {
    (100 * a + (b - a) * share(percent) + 50) / 100
}

/// `a` with `percent` of `b` mixed into it.
pub open spec fn mixed(a: Rgb, b: Rgb, percent: u8) -> Rgb {
    Rgb {
        r: mixed_channel(a.r, b.r, percent) as u8,
        g: mixed_channel(a.g, b.g, percent) as u8,
        b: mixed_channel(a.b, b.b, percent) as u8,
    }
}

/// The editor palette of a color scheme.
pub open spec fn palette_of(scheme: TerminalTheme) -> EditorPalette {
    EditorPalette {
        background: scheme.background,
        foreground: scheme.foreground,
        cursor: scheme.cursor,
        selection: scheme.selection,
        line_highlight: mixed(scheme.background, scheme.foreground, LINE_HIGHLIGHT_MIX),
        gutter: mixed(scheme.background, scheme.foreground, GUTTER_MIX),
        gutter_active: scheme.foreground,
        find_match: mixed(scheme.background, scheme.ansi@[ANSI_YELLOW as int], FIND_MATCH_MIX),
        find_current: mixed(scheme.background, scheme.ansi@[ANSI_BRIGHT_YELLOW as int], FIND_CURRENT_MIX),
    }
}

proof fn lemma_channel(a: u8, b: u8, percent: u8)
    ensures
        a <= b ==> a <= mixed_channel(a, b, percent) <= b,
        b <= a ==> b <= mixed_channel(a, b, percent) <= a,
        100 * a + (b - a) * share(percent) + 50 <= 25_550,
        100 * a + (b - a) * share(percent) >= 0,
{
    let p = share(percent);
    let d = b - a;
    if d >= 0 {
        assert(0 <= d * p <= 100 * d) by (nonlinear_arith)
            requires
                d >= 0,
                0 <= p <= 100,
        ;
    } else {
        assert(100 * d <= d * p <= 0) by (nonlinear_arith)
            requires
                d < 0,
                0 <= p <= 100,
        ;
    }
}

/// `a` with `percent` of `b` mixed into it, one channel.
fn mix_channel(a: u8, b: u8, percent: u8) -> (channel: u8)
    ensures
        channel == mixed_channel(a, b, percent),
{
    proof {
        lemma_channel(a, b, percent);
    }
    let p: i32 = if percent > 100 { 100 } else { percent as i32 };
    let d: i32 = b as i32 - a as i32;
    proof {
        assert(-25_500 <= d * p <= 25_500) by (nonlinear_arith)
            requires
                -255 <= d <= 255,
                0 <= p <= 100,
        ;
    }
    let sum: i32 = 100 * a as i32 + d * p + 50;
    (sum / 100) as u8
}

/// `a` with `percent` of `b` mixed into it, channel by channel. More than all of
/// `b` is all of it.
pub fn mix(a: Rgb, b: Rgb, percent: u8) -> (color: Rgb)
    ensures
        color == mixed(a, b, percent),
{
    Rgb {
        r: mix_channel(a.r, b.r, percent),
        g: mix_channel(a.g, b.g, percent),
        b: mix_channel(a.b, b.b, percent),
    }
}

/// The editor palette for a terminal color `scheme`.
///
/// The slots a scheme names outright are taken verbatim; the others are mixed out
/// of them, which keeps the contrast of a scheme whether it is a dark or a light
/// one.
pub fn palette_for(scheme: &TerminalTheme) -> (palette: EditorPalette)
    ensures
        palette == palette_of(*scheme),
{
    let background = scheme.background;
    let foreground = scheme.foreground;
    EditorPalette {
        background,
        foreground,
        cursor: scheme.cursor,
        selection: scheme.selection,
        line_highlight: mix(background, foreground, LINE_HIGHLIGHT_MIX),
        gutter: mix(background, foreground, GUTTER_MIX),
        gutter_active: foreground,
        find_match: mix(background, scheme.ansi[ANSI_YELLOW], FIND_MATCH_MIX),
        find_current: mix(background, scheme.ansi[ANSI_BRIGHT_YELLOW], FIND_CURRENT_MIX),
    }
}

/// A mix lies between the two colors, and reaches them at either end.
pub proof fn a_mix_lies_between(a: u8, b: u8, percent: u8)
    ensures
        a <= b ==> a <= mixed_channel(a, b, percent) <= b,
        b <= a ==> b <= mixed_channel(a, b, percent) <= a,
        mixed_channel(a, b, 0) == a,
        percent >= 100 ==> mixed_channel(a, b, percent) == b,
{
    lemma_channel(a, b, percent);
    assert((b - a) * share(0) == 0) by (nonlinear_arith)
        requires
            share(0) == 0,
    ;
}

/// A mix is as far from one color to the other as the percentage says, to the nearest
/// step.
pub proof fn a_mix_is_as_far_as_it_says(a: u8, b: u8, percent: u8)
    requires
        percent <= 100,
    ensures
        ({
            let off = 100 * (mixed_channel(a, b, percent) - a) - (b - a) * percent;
            -50 <= off <= 50
        }),
        mixed_channel(a, b, percent) + mixed_channel(b, a, percent) - a - b <= 1,
{
    let product = (b - a) * percent;
    assert((a - b) * percent == -product) by (nonlinear_arith)
        requires
            product == (b - a) * percent,
    ;
}

/// The colors of the editor are those of the terminal scheme: its own, and mixes of
/// its background with its text and with its yellows.
pub proof fn the_editor_wears_the_scheme(scheme: TerminalTheme)
    ensures
        ({
            let palette = palette_of(scheme);
            &&& palette.background == scheme.background
            &&& palette.foreground == scheme.foreground
            &&& palette.cursor == scheme.cursor
            &&& palette.selection == scheme.selection
            &&& palette.gutter_active == scheme.foreground
            &&& palette.line_highlight == mixed(scheme.background, scheme.foreground, 8)
            &&& palette.gutter == mixed(scheme.background, scheme.foreground, 50)
            &&& palette.find_match == mixed(scheme.background, scheme.ansi@[3], 35)
            &&& palette.find_current == mixed(scheme.background, scheme.ansi@[11], 70)
        }),
{
}

/// Colors are mixed channel by channel.
pub proof fn channels_are_mixed_apart(a: Rgb, b: Rgb, percent: u8)
    ensures
        mixed(a, b, percent).r == mixed_channel(a.r, b.r, percent),
        mixed(a, b, percent).g == mixed_channel(a.g, b.g, percent),
        mixed(a, b, percent).b == mixed_channel(a.b, b.b, percent),
        mixed(a, b, 0) == a,
        mixed(a, b, 100) == b,
{
    a_mix_lies_between(a.r, b.r, percent);
    a_mix_lies_between(a.g, b.g, percent);
    a_mix_lies_between(a.b, b.b, percent);
    a_mix_lies_between(a.r, b.r, 100);
    a_mix_lies_between(a.g, b.g, 100);
    a_mix_lies_between(a.b, b.b, 100);
}

} // verus!
