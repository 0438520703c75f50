//! Color palettes for the terminal grid.
//!
//! The emulator leaves the color values to its user: a cell holds an abstract
//! [`Color`]. This module turns it into a renderable [`Rgb`] triple.
use vstd::prelude::*;

use crate::term::snapshot::RunFlags;

verus! {

/// A 24-bit color.
#[derive(Debug, Clone, Copy, PartialEq, Eq, Structural)]
pub struct Rgb {
    /// Red channel.
    pub r: u8,
    /// Green channel.
    pub g: u8,
    /// Blue channel.
    pub b: u8,
}

/// The color that the low 24 bits of `value` pack as `0xRRGGBB`.
pub open spec fn unpacked(value: u32) -> Rgb {
    Rgb { r: (value / 0x10000 % 0x100) as u8, g: (value / 0x100 % 0x100) as u8, b: (value % 0x100) as u8 }
}

/// The packed `0xRRGGBB` value of a color.
pub open spec fn packed(color: Rgb) -> int {
    color.r * 0x10000 + color.g * 0x100 + color.b
}

/// A color darkened to two thirds of every channel.
pub open spec fn dimmed(color: Rgb) -> Rgb {
    Rgb { r: (color.r * 2 / 3) as u8, g: (color.g * 2 / 3) as u8, b: (color.b * 2 / 3) as u8 }
}

impl Rgb {
    /// Create a color from its individual channels.
    pub fn new(r: u8, g: u8, b: u8) -> (color: Rgb)
        ensures
            color == (Rgb { r, g, b }),
    {
        Rgb { r, g, b }
    }

    /// Create a color from a packed `0xRRGGBB` value; higher bits are ignored.
    pub fn from_u32(value: u32) -> (color: Rgb)
        ensures
            color == unpacked(value),
    {
        assert((value >> 16) & 0xff == value / 0x10000 % 0x100) by (bit_vector);
        assert((value >> 8) & 0xff == value / 0x100 % 0x100) by (bit_vector);
        assert(value & 0xff == value % 0x100) by (bit_vector);
        Rgb { r: ((value >> 16) & 0xff) as u8, g: ((value >> 8) & 0xff) as u8, b: (value & 0xff) as u8 }
    }

    /// Pack the color into a `0xRRGGBB` value.
    pub fn to_u32(self) -> (value: u32)
        ensures
            value == packed(self),
    {
        let r: u32 = self.r as u32;
        let g: u32 = self.g as u32;
        let b: u32 = self.b as u32;
        assert(((r << 16) | (g << 8) | b) == r * 0x10000 + g * 0x100 + b) by (bit_vector)
            requires
                r < 0x100,
                g < 0x100,
                b < 0x100,
        ;
        (r << 16) | (g << 8) | b
    }

    /// Darken the color, used to render the faint attribute.
    pub fn dimmed(self) -> (color: Rgb)
        ensures
            color == dimmed(self),
    {
        Rgb {
            r: (self.r as u16 * 2 / 3) as u8,
            g: (self.g as u16 * 2 / 3) as u8,
            b: (self.b as u16 * 2 / 3) as u8,
        }
    }
}

/// Unpacking and packing a value gives its low 24 bits back.
pub proof fn packing_round_trips(value: u32)
    ensures
        packed(unpacked(value)) == value % 0x100_0000,
{
    assert((value / 0x10000 % 0x100) * 0x10000 + (value / 0x100 % 0x100) * 0x100 + value % 0x100 == value
        % 0x100_0000) by (bit_vector);
}

/// Packing a color and unpacking the value gives the color back.
pub proof fn unpacking_round_trips(color: Rgb)
    ensures
        0 <= packed(color) < 0x100_0000,
        unpacked(packed(color) as u32) == color,
{
    let Rgb { r, g, b } = color;
    assert((r * 0x10000 + g * 0x100 + b) / 0x10000 % 0x100 == r && (r * 0x10000 + g * 0x100 + b) / 0x100 % 0x100
        == g && (r * 0x10000 + g * 0x100 + b) % 0x100 == b) by (bit_vector);
}

/// Dimming brightens no channel.
pub proof fn dimming_never_brightens(color: Rgb)
    ensures
        dimmed(color).r <= color.r,
        dimmed(color).g <= color.g,
        dimmed(color).b <= color.b,
{
}

/// Colors that a terminal knows by name.
#[derive(Debug, Clone, Copy, PartialEq, Eq, Structural)]
pub enum NamedColor {
    Black,
    Red,
    Green,
    Yellow,
    Blue,
    Magenta,
    Cyan,
    White,
    BrightBlack,
    BrightRed,
    BrightGreen,
    BrightYellow,
    BrightBlue,
    BrightMagenta,
    BrightCyan,
    BrightWhite,
    Foreground,
    Background,
    Cursor,
    DimBlack,
    DimRed,
    DimGreen,
    DimYellow,
    DimBlue,
    DimMagenta,
    DimCyan,
    DimWhite,
    BrightForeground,
    DimForeground,
}

/// The palette index of one of the sixteen ANSI colors.
pub open spec fn ansi_index(named: NamedColor) -> Option<int> {
    match named {
        NamedColor::Black => Some(0),
        NamedColor::Red => Some(1),
        NamedColor::Green => Some(2),
        NamedColor::Yellow => Some(3),
        NamedColor::Blue => Some(4),
        NamedColor::Magenta => Some(5),
        NamedColor::Cyan => Some(6),
        NamedColor::White => Some(7),
        NamedColor::BrightBlack => Some(8),
        NamedColor::BrightRed => Some(9),
        NamedColor::BrightGreen => Some(10),
        NamedColor::BrightYellow => Some(11),
        NamedColor::BrightBlue => Some(12),
        NamedColor::BrightMagenta => Some(13),
        NamedColor::BrightCyan => Some(14),
        NamedColor::BrightWhite => Some(15),
        _ => None,
    }
}

/// The palette index that a faint named color darkens.
pub open spec fn dim_index(named: NamedColor) -> Option<int> {
    match named {
        NamedColor::DimBlack => Some(0),
        NamedColor::DimRed => Some(1),
        NamedColor::DimGreen => Some(2),
        NamedColor::DimYellow => Some(3),
        NamedColor::DimBlue => Some(4),
        NamedColor::DimMagenta => Some(5),
        NamedColor::DimCyan => Some(6),
        NamedColor::DimWhite => Some(7),
        _ => None,
    }
}

impl NamedColor {
    /// The palette index of one of the sixteen ANSI colors.
    pub fn ansi(self) -> (index: Option<u8>)
        ensures
            match index {
                Some(i) => ansi_index(self) == Some(i as int) && i < 16,
                None => ansi_index(self) is None,
            },
    {
        match self {
            NamedColor::Black => Some(0),
            NamedColor::Red => Some(1),
            NamedColor::Green => Some(2),
            NamedColor::Yellow => Some(3),
            NamedColor::Blue => Some(4),
            NamedColor::Magenta => Some(5),
            NamedColor::Cyan => Some(6),
            NamedColor::White => Some(7),
            NamedColor::BrightBlack => Some(8),
            NamedColor::BrightRed => Some(9),
            NamedColor::BrightGreen => Some(10),
            NamedColor::BrightYellow => Some(11),
            NamedColor::BrightBlue => Some(12),
            NamedColor::BrightMagenta => Some(13),
            NamedColor::BrightCyan => Some(14),
            NamedColor::BrightWhite => Some(15),
            _ => None,
        }
    }
}

/// The color of a grid cell.
#[derive(Debug, Clone, Copy, PartialEq, Eq, Structural)]
pub enum Color {
    Named(NamedColor),
    Spec(Rgb),
    Indexed(u8),
}

/// Colors used to render a terminal surface.
#[derive(Debug, Clone, Copy)]
pub struct TerminalTheme {
    /// Default text color.
    pub foreground: Rgb,
    /// Default background color.
    pub background: Rgb,
    /// Color of the text cursor.
    pub cursor: Rgb,
    /// Background color of selected text.
    pub selection: Rgb,
    /// The 16 ANSI colors: indices `0..8` are the normal colors, `8..16` the
    /// bright variants.
    pub ansi: [Rgb; 16],
}

/// The ANSI colors of the dark palette.
pub open spec fn dark_ansi() -> Seq<u32> {
    seq![
        0x1e2127u32, 0xe06c75, 0x98c379, 0xd19a66, 0x61afef, 0xc678dd, 0x56b6c2, 0xabb2bf,
        0x5c6370, 0xff7b86, 0xb5e890, 0xe5c07b, 0x7cc3ff, 0xd7a3ea, 0x70d4e0, 0xffffff,
    ]
}

/// The ANSI colors of the light palette.
pub open spec fn light_ansi() -> Seq<u32> {
    seq![
        0x383a42u32, 0xe45649, 0x50a14f, 0xc18401, 0x4078f2, 0xa626a4, 0x0184bc, 0xa0a1a7,
        0x4f525e, 0xff5a4e, 0x5cbf5b, 0xe39d02, 0x5c8cff, 0xc435c1, 0x019fdf, 0xffffff,
    ]
}

/// `theme` consists of exactly these packed colors.
pub open spec fn is_palette(
    theme: TerminalTheme,
    foreground: u32,
    background: u32,
    cursor: u32,
    selection: u32,
    ansi: Seq<u32>,
) -> bool {
    &&& theme.foreground == unpacked(foreground)
    &&& theme.background == unpacked(background)
    &&& theme.cursor == unpacked(cursor)
    &&& theme.selection == unpacked(selection)
    &&& theme.ansi@ == Seq::new(16, |i: int| unpacked(ansi[i]))
}

/// Channel value of a level of the 6x6x6 color cube.
pub open spec fn cube_level(value: int) -> u8 {
    if value == 0 {
        0u8
    } else {
        (value * 40 + 55) as u8
    }
}

/// What an entry of the xterm-256 palette looks like.
pub open spec fn indexed_color(theme: TerminalTheme, index: u8, is_foreground: bool, flags: RunFlags) -> Rgb {
    if index < 8 {
        if is_foreground && flags.bold {
            theme.ansi@[index + 8]
        } else if is_foreground && flags.dim {
            dimmed(theme.ansi@[index as int])
        } else {
            theme.ansi@[index as int]
        }
    } else if index < 16 {
        theme.ansi@[index as int]
    } else if index < 232 {
        Rgb {
            r: cube_level((index - 16) / 36),
            g: cube_level((index - 16) / 6 % 6),
            b: cube_level((index - 16) % 6),
        }
    } else {
        Rgb {
            r: ((index - 232) * 10 + 8) as u8,
            g: ((index - 232) * 10 + 8) as u8,
            b: ((index - 232) * 10 + 8) as u8,
        }
    }
}

/// What a named color looks like.
pub open spec fn named_color(theme: TerminalTheme, named: NamedColor, is_foreground: bool, flags: RunFlags) -> Rgb {
    match (ansi_index(named), dim_index(named)) {
        (Some(i), _) => indexed_color(theme, i as u8, is_foreground, flags),
        (None, Some(i)) => dimmed(theme.ansi@[i]),
        (None, None) => match named {
            NamedColor::Background => theme.background,
            NamedColor::Cursor => theme.cursor,
            NamedColor::DimForeground => dimmed(theme.foreground),
            NamedColor::Foreground if is_foreground && flags.dim && !flags.bold => dimmed(theme.foreground),
            _ => theme.foreground,
        },
    }
}

/// What a cell color looks like, as text or as background.
pub open spec fn resolved(theme: TerminalTheme, color: Color, is_foreground: bool, flags: RunFlags) -> Rgb {
    match color {
        Color::Spec(rgb) => rgb,
        Color::Indexed(index) => indexed_color(theme, index, is_foreground, flags),
        Color::Named(named) => named_color(theme, named, is_foreground, flags),
    }
}

impl Default for TerminalTheme {
    fn default() -> (theme: TerminalTheme)
        ensures
            is_palette(theme, 0xabb2bf, 0x282c34, 0x528bff, 0x3e4451, dark_ansi()),
    {
        TerminalTheme::dark()
    }
}

impl TerminalTheme {
    /// A dark palette in the spirit of "One Dark".
    pub fn dark() -> (theme: TerminalTheme)
        ensures
            is_palette(theme, 0xabb2bf, 0x282c34, 0x528bff, 0x3e4451, dark_ansi()),
    {
        let theme = TerminalTheme {
            foreground: Rgb::from_u32(0xabb2bf),
            background: Rgb::from_u32(0x282c34),
            cursor: Rgb::from_u32(0x528bff),
            selection: Rgb::from_u32(0x3e4451),
            ansi: [
                // Normal.
                Rgb::from_u32(0x1e2127),  // black
                Rgb::from_u32(0xe06c75),  // red
                Rgb::from_u32(0x98c379),  // green
                Rgb::from_u32(0xd19a66),  // yellow
                Rgb::from_u32(0x61afef),  // blue
                Rgb::from_u32(0xc678dd),  // magenta
                Rgb::from_u32(0x56b6c2),  // cyan
                Rgb::from_u32(0xabb2bf),  // white
                // Bright.
                Rgb::from_u32(0x5c6370),  // bright black
                Rgb::from_u32(0xff7b86),  // bright red
                Rgb::from_u32(0xb5e890),  // bright green
                Rgb::from_u32(0xe5c07b),  // bright yellow
                Rgb::from_u32(0x7cc3ff),  // bright blue
                Rgb::from_u32(0xd7a3ea),  // bright magenta
                Rgb::from_u32(0x70d4e0),  // bright cyan
                Rgb::from_u32(0xffffff),  // bright white
            ],
        };
        assert(theme.ansi@ =~= Seq::new(16, |i: int| unpacked(dark_ansi()[i])));
        theme
    }

    /// A light palette in the spirit of "One Light".
    pub fn light() -> (theme: TerminalTheme)
        ensures
            is_palette(theme, 0x383a42, 0xfafafa, 0x526fff, 0xd4d7dd, light_ansi()),
    {
        let theme = TerminalTheme {
            foreground: Rgb::from_u32(0x383a42),
            background: Rgb::from_u32(0xfafafa),
            cursor: Rgb::from_u32(0x526fff),
            selection: Rgb::from_u32(0xd4d7dd),
            ansi: [
                // Normal.
                Rgb::from_u32(0x383a42),  // black
                Rgb::from_u32(0xe45649),  // red
                Rgb::from_u32(0x50a14f),  // green
                Rgb::from_u32(0xc18401),  // yellow
                Rgb::from_u32(0x4078f2),  // blue
                Rgb::from_u32(0xa626a4),  // magenta
                Rgb::from_u32(0x0184bc),  // cyan
                Rgb::from_u32(0xa0a1a7),  // white
                // Bright.
                Rgb::from_u32(0x4f525e),  // bright black
                Rgb::from_u32(0xff5a4e),  // bright red
                Rgb::from_u32(0x5cbf5b),  // bright green
                Rgb::from_u32(0xe39d02),  // bright yellow
                Rgb::from_u32(0x5c8cff),  // bright blue
                Rgb::from_u32(0xc435c1),  // bright magenta
                Rgb::from_u32(0x019fdf),  // bright cyan
                Rgb::from_u32(0xffffff),  // bright white
            ],
        };
        assert(theme.ansi@ =~= Seq::new(16, |i: int| unpacked(light_ansi()[i])));
        theme
    }

    /// Turn a grid cell color into a concrete [`Rgb`] value.
    ///
    /// `is_foreground` tells whether the color is used as text or as background;
    /// only text is brightened by [`RunFlags::bold`] or darkened by
    /// [`RunFlags::dim`].
    ///
    /// Indexed colors follow the xterm-256 layout: `0..=15` are the ANSI colors,
    /// `16..=231` the 6x6x6 color cube, `232..=255` the grayscale ramp.
    pub fn resolve(&self, color: Color, is_foreground: bool, flags: RunFlags) -> (rgb: Rgb)
        ensures
            rgb == resolved(*self, color, is_foreground, flags),
    {
        match color {
            Color::Spec(rgb) => Rgb::new(rgb.r, rgb.g, rgb.b),
            Color::Indexed(index) => self.resolve_indexed(index, is_foreground, flags),
            Color::Named(named) => self.resolve_named(named, is_foreground, flags),
        }
    }

    fn resolve_indexed(&self, index: u8, is_foreground: bool, flags: RunFlags) -> (rgb: Rgb)
        ensures
            rgb == indexed_color(*self, index, is_foreground, flags),
            forall|r: int, g: int, b: int| #[trigger]
                is_place(index as int, r, g, b) ==> rgb == (Rgb {
                    r: cube_levels()[r],
                    g: cube_levels()[g],
                    b: cube_levels()[b],
                }),
    {
        proof {
            assert forall|r: int, g: int, b: int| #[trigger] is_place(index as int, r, g, b) implies indexed_color(
                *self,
                index,
                is_foreground,
                flags,
            ) == (Rgb { r: cube_levels()[r], g: cube_levels()[g], b: cube_levels()[b] }) by {
                the_cube_has_six_levels(*self, r, g, b, is_foreground, flags);
            }
        }
        if index < 8 {
            // Normal ANSI colors; bold text is promoted to the bright variant.
            let base: usize = index as usize;
            if is_foreground && flags.contains(RunFlags::bold()) {
                self.ansi[base + 8]
            } else if is_foreground && flags.contains(RunFlags::dim()) {
                self.ansi[base].dimmed()
            } else {
                self.ansi[base]
            }
        } else if index < 16 {
            // Bright ANSI colors.
            self.ansi[index as usize]
        } else if index < 232 {
            // 6x6x6 color cube.
            let index: u8 = index - 16;
            Rgb::new(level(index / 36), level((index / 6) % 6), level(index % 6))
        } else {
            // Grayscale ramp.
            let level: u8 = (index - 232) * 10 + 8;
            Rgb::new(level, level, level)
        }
    }

    fn resolve_named(&self, named: NamedColor, is_foreground: bool, flags: RunFlags) -> (rgb: Rgb)
        ensures
            rgb == named_color(*self, named, is_foreground, flags),
    {
        if let Some(index) = named.ansi() {
            return self.resolve_indexed(index, is_foreground, flags);
        }
        match named {
            NamedColor::Foreground => if is_foreground && flags.contains(RunFlags::dim()) && !flags.contains(
                RunFlags::bold(),
            ) {
                self.foreground.dimmed()
            } else {
                self.foreground
            },
            NamedColor::Background => self.background,
            NamedColor::Cursor => self.cursor,
            NamedColor::DimForeground => self.foreground.dimmed(),
            NamedColor::DimBlack => self.ansi[0].dimmed(),
            NamedColor::DimRed => self.ansi[1].dimmed(),
            NamedColor::DimGreen => self.ansi[2].dimmed(),
            NamedColor::DimYellow => self.ansi[3].dimmed(),
            NamedColor::DimBlue => self.ansi[4].dimmed(),
            NamedColor::DimMagenta => self.ansi[5].dimmed(),
            NamedColor::DimCyan => self.ansi[6].dimmed(),
            NamedColor::DimWhite => self.ansi[7].dimmed(),
            _ => self.foreground,
        }
    }
}

/// Channel value of a level of the color cube.
fn level(value: u8) -> (channel: u8)
    requires
        value < 6,
    ensures
        channel == cube_level(value as int),
{
    if value == 0 {
        0
    } else {
        value * 40 + 55
    }
}

/// A background color is the same whatever the attributes of its cell.
pub proof fn backgrounds_ignore_attributes(theme: TerminalTheme, color: Color, flags: RunFlags, other: RunFlags)
    ensures
        resolved(theme, color, false, flags) == resolved(theme, color, false, other),
{
}

/// Bold text in one of the eight normal colors takes the bright variant.
pub proof fn bold_promotes_to_bright(theme: TerminalTheme, index: u8, flags: RunFlags)
    requires
        index < 8,
        flags.bold,
    ensures
        resolved(theme, Color::Indexed(index), true, flags) == theme.ansi@[index + 8],
{
}

/// The channel values of the 6x6x6 color cube.
pub open spec fn cube_levels() -> Seq<u8> {
    seq![0u8, 95, 135, 175, 215, 255]
}

/// Entries 16 to 231 of the palette are a cube of six levels per channel, red by
/// thirty-six, green by six and blue by one, whatever the theme and the attributes.
pub proof fn the_cube_has_six_levels(
    theme: TerminalTheme,
    r: int,
    g: int,
    b: int,
    is_foreground: bool,
    flags: RunFlags,
)
    requires
        0 <= r < 6,
        0 <= g < 6,
        0 <= b < 6,
    ensures
        16 <= 16 + 36 * r + 6 * g + b <= 231,
        indexed_color(theme, (16 + 36 * r + 6 * g + b) as u8, is_foreground, flags) == (Rgb {
            r: cube_levels()[r],
            g: cube_levels()[g],
            b: cube_levels()[b],
        }),
        resolved(theme, Color::Indexed((16 + 36 * r + 6 * g + b) as u8), is_foreground, flags) == (Rgb {
            r: cube_levels()[r],
            g: cube_levels()[g],
            b: cube_levels()[b],
        }),
{
    let offset = 36 * r + 6 * g + b;
    assert(offset / 36 == r && offset / 6 % 6 == g && offset % 6 == b);
}

/// Every entry from 16 to 231 is one of the cube.
pub proof fn the_cube_is_complete(index: u8)
    requires
        16 <= index <= 231,
    ensures
        exists|r: int, g: int, b: int| #[trigger] is_place(index as int, r, g, b),
{
    let offset = index - 16;
    assert(is_place(index as int, offset / 36, offset / 6 % 6, offset % 6));
}

/// An entry of the palette is the one of the cube at these levels.
pub open spec fn is_place(index: int, r: int, g: int, b: int) -> bool {
    &&& 0 <= r < 6
    &&& 0 <= g < 6
    &&& 0 <= b < 6
    &&& index == 16 + 36 * r + 6 * g + b
}

/// No two entries of the cube look the same.
pub proof fn the_cube_repeats_no_color(
    theme: TerminalTheme,
    one: u8,
    two: u8,
    is_foreground: bool,
    flags: RunFlags,
)
    requires
        16 <= one <= 231,
        16 <= two <= 231,
        one != two,
    ensures
        indexed_color(theme, one, is_foreground, flags) != indexed_color(theme, two, is_foreground, flags),
{
    let a = one - 16;
    let b = two - 16;
    the_cube_has_six_levels(theme, a / 36, a / 6 % 6, a % 6, is_foreground, flags);
    the_cube_has_six_levels(theme, b / 36, b / 6 % 6, b % 6, is_foreground, flags);
    assert(a / 36 != b / 36 || a / 6 % 6 != b / 6 % 6 || a % 6 != b % 6);
}

/// Text without attributes in one of the sixteen colors that have a name has the
/// slot of the palette that the escape sequences number, from black to white and
/// then the bright ones; as a background it has that slot whatever the attributes.
pub proof fn the_palette_is_in_the_order_of_the_escape_sequences(theme: TerminalTheme, plain: RunFlags, any: RunFlags)
    requires
        !plain.bold,
        !plain.dim,
    ensures
        resolved(theme, Color::Named(NamedColor::Black), true, plain) == theme.ansi@[0],
        resolved(theme, Color::Named(NamedColor::Red), true, plain) == theme.ansi@[1],
        resolved(theme, Color::Named(NamedColor::Green), true, plain) == theme.ansi@[2],
        resolved(theme, Color::Named(NamedColor::Yellow), true, plain) == theme.ansi@[3],
        resolved(theme, Color::Named(NamedColor::Blue), true, plain) == theme.ansi@[4],
        resolved(theme, Color::Named(NamedColor::Magenta), true, plain) == theme.ansi@[5],
        resolved(theme, Color::Named(NamedColor::Cyan), true, plain) == theme.ansi@[6],
        resolved(theme, Color::Named(NamedColor::White), true, plain) == theme.ansi@[7],
        resolved(theme, Color::Named(NamedColor::BrightBlack), true, plain) == theme.ansi@[8],
        resolved(theme, Color::Named(NamedColor::BrightRed), true, plain) == theme.ansi@[9],
        resolved(theme, Color::Named(NamedColor::BrightGreen), true, plain) == theme.ansi@[10],
        resolved(theme, Color::Named(NamedColor::BrightYellow), true, plain) == theme.ansi@[11],
        resolved(theme, Color::Named(NamedColor::BrightBlue), true, plain) == theme.ansi@[12],
        resolved(theme, Color::Named(NamedColor::BrightMagenta), true, plain) == theme.ansi@[13],
        resolved(theme, Color::Named(NamedColor::BrightCyan), true, plain) == theme.ansi@[14],
        resolved(theme, Color::Named(NamedColor::BrightWhite), true, plain) == theme.ansi@[15],
        resolved(theme, Color::Named(NamedColor::Black), false, any) == theme.ansi@[0],
        resolved(theme, Color::Named(NamedColor::Red), false, any) == theme.ansi@[1],
        resolved(theme, Color::Named(NamedColor::Green), false, any) == theme.ansi@[2],
        resolved(theme, Color::Named(NamedColor::Yellow), false, any) == theme.ansi@[3],
        resolved(theme, Color::Named(NamedColor::Blue), false, any) == theme.ansi@[4],
        resolved(theme, Color::Named(NamedColor::Magenta), false, any) == theme.ansi@[5],
        resolved(theme, Color::Named(NamedColor::Cyan), false, any) == theme.ansi@[6],
        resolved(theme, Color::Named(NamedColor::White), false, any) == theme.ansi@[7],
        resolved(theme, Color::Named(NamedColor::BrightBlack), false, any) == theme.ansi@[8],
        resolved(theme, Color::Named(NamedColor::BrightRed), false, any) == theme.ansi@[9],
        resolved(theme, Color::Named(NamedColor::BrightGreen), false, any) == theme.ansi@[10],
        resolved(theme, Color::Named(NamedColor::BrightYellow), false, any) == theme.ansi@[11],
        resolved(theme, Color::Named(NamedColor::BrightBlue), false, any) == theme.ansi@[12],
        resolved(theme, Color::Named(NamedColor::BrightMagenta), false, any) == theme.ansi@[13],
        resolved(theme, Color::Named(NamedColor::BrightCyan), false, any) == theme.ansi@[14],
        resolved(theme, Color::Named(NamedColor::BrightWhite), false, any) == theme.ansi@[15],
{
}

/// Faint names darken the normal colors, in the same order.
pub proof fn faint_names_darken_their_colors(theme: TerminalTheme, is_foreground: bool, any: RunFlags)
    ensures
        resolved(theme, Color::Named(NamedColor::DimBlack), is_foreground, any) == dimmed(theme.ansi@[0]),
        resolved(theme, Color::Named(NamedColor::DimRed), is_foreground, any) == dimmed(theme.ansi@[1]),
        resolved(theme, Color::Named(NamedColor::DimGreen), is_foreground, any) == dimmed(theme.ansi@[2]),
        resolved(theme, Color::Named(NamedColor::DimYellow), is_foreground, any) == dimmed(theme.ansi@[3]),
        resolved(theme, Color::Named(NamedColor::DimBlue), is_foreground, any) == dimmed(theme.ansi@[4]),
        resolved(theme, Color::Named(NamedColor::DimMagenta), is_foreground, any) == dimmed(theme.ansi@[5]),
        resolved(theme, Color::Named(NamedColor::DimCyan), is_foreground, any) == dimmed(theme.ansi@[6]),
        resolved(theme, Color::Named(NamedColor::DimWhite), is_foreground, any) == dimmed(theme.ansi@[7]),
        resolved(theme, Color::Named(NamedColor::DimForeground), is_foreground, any) == dimmed(theme.foreground),
{
}

/// Bold text in a normal color takes the bright variant of that very color.
pub proof fn bold_names_turn_bright(theme: TerminalTheme, bold: RunFlags)
    ensures
        bold.bold ==> resolved(theme, Color::Named(NamedColor::Black), true, bold) == theme.ansi@[8],
        bold.bold ==> resolved(theme, Color::Named(NamedColor::Red), true, bold) == theme.ansi@[9],
        bold.bold ==> resolved(theme, Color::Named(NamedColor::Green), true, bold) == theme.ansi@[10],
        bold.bold ==> resolved(theme, Color::Named(NamedColor::Yellow), true, bold) == theme.ansi@[11],
        bold.bold ==> resolved(theme, Color::Named(NamedColor::Blue), true, bold) == theme.ansi@[12],
        bold.bold ==> resolved(theme, Color::Named(NamedColor::Magenta), true, bold) == theme.ansi@[13],
        bold.bold ==> resolved(theme, Color::Named(NamedColor::Cyan), true, bold) == theme.ansi@[14],
        bold.bold ==> resolved(theme, Color::Named(NamedColor::White), true, bold) == theme.ansi@[15],
{
}

/// The names that are no palette slots stand for the theme's own colors.
pub proof fn default_colors_are_those_of_the_theme(theme: TerminalTheme, is_foreground: bool, flags: RunFlags)
    ensures
        resolved(theme, Color::Named(NamedColor::Background), is_foreground, flags) == theme.background,
        resolved(theme, Color::Named(NamedColor::Cursor), is_foreground, flags) == theme.cursor,
        resolved(theme, Color::Named(NamedColor::BrightForeground), is_foreground, flags) == theme.foreground,
        !is_foreground || !flags.dim || flags.bold ==> resolved(
            theme,
            Color::Named(NamedColor::Foreground),
            is_foreground,
            flags,
        ) == theme.foreground,
        is_foreground && flags.dim && !flags.bold ==> resolved(
            theme,
            Color::Named(NamedColor::Foreground),
            is_foreground,
            flags,
        ) == dimmed(theme.foreground),
{
}

/// A color that is given by its channels is shown as it is, and the first sixteen
/// numbered colors are the palette. Bright ones have no attributes of color.
pub proof fn numbers_below_sixteen_are_the_palette(
    theme: TerminalTheme,
    index: u8,
    rgb: Rgb,
    is_foreground: bool,
    flags: RunFlags,
)
    requires
        index < 16,
    ensures
        resolved(theme, Color::Spec(rgb), is_foreground, flags) == rgb,
        index >= 8 || !is_foreground || (!flags.bold && !flags.dim) ==> resolved(
            theme,
            Color::Indexed(index),
            is_foreground,
            flags,
        ) == theme.ansi@[index as int],
        index < 8 && is_foreground && flags.dim && !flags.bold ==> resolved(
            theme,
            Color::Indexed(index),
            is_foreground,
            flags,
        ) == dimmed(theme.ansi@[index as int]),
{
}

/// The last twenty-four numbered colors are grays, ten apart, from almost black to
/// almost white.
pub proof fn the_ramp_is_gray(theme: TerminalTheme, index: u8, is_foreground: bool, flags: RunFlags)
    requires
        232 <= index,
    ensures
        ({
            let gray = resolved(theme, Color::Indexed(index), is_foreground, flags);
            gray.r == gray.g && gray.g == gray.b && gray.r == 8 + 10 * (index - 232)
        }),
{
}

/// Dimming leaves two thirds of each channel, rounded down.
pub proof fn dimming_leaves_two_thirds(color: Rgb)
    ensures
        3 * dimmed(color).r <= 2 * color.r < 3 * dimmed(color).r + 3,
        3 * dimmed(color).g <= 2 * color.g < 3 * dimmed(color).g + 3,
        3 * dimmed(color).b <= 2 * color.b < 3 * dimmed(color).b + 3,
{
}

/// A packed color has red in its high byte and blue in its low one.
pub proof fn packed_colors_begin_with_red(r: u8, g: u8, b: u8)
    ensures
        packed(Rgb { r, g, b }) == r * 0x10000 + g * 0x100 + b,
        unpacked((r * 0x10000 + g * 0x100 + b) as u32) == (Rgb { r, g, b }),
{
    unpacking_round_trips(Rgb { r, g, b });
}

/// A theme of a palette has each packed color in its own place.
pub proof fn palettes_keep_their_places(
    theme: TerminalTheme,
    foreground: u32,
    background: u32,
    cursor: u32,
    selection: u32,
    ansi: Seq<u32>,
    slot: int,
)
    requires
        is_palette(theme, foreground, background, cursor, selection, ansi),
        0 <= slot < 16,
    ensures
        packed(theme.foreground) == foreground % 0x100_0000,
        packed(theme.background) == background % 0x100_0000,
        packed(theme.cursor) == cursor % 0x100_0000,
        packed(theme.selection) == selection % 0x100_0000,
        packed(theme.ansi@[slot]) == ansi[slot] % 0x100_0000,
{
    packing_round_trips(foreground);
    packing_round_trips(background);
    packing_round_trips(cursor);
    packing_round_trips(selection);
    packing_round_trips(ansi[slot]);
}

/// The two palettes that are built in, slot by slot.
pub proof fn the_palettes_are_these()
    ensures
        dark_ansi() == seq![
            0x1e2127u32, 0xe06c75, 0x98c379, 0xd19a66, 0x61afef, 0xc678dd, 0x56b6c2, 0xabb2bf, 0x5c6370, 0xff7b86, 0xb5e890, 0xe5c07b, 0x7cc3ff, 0xd7a3ea, 0x70d4e0, 0xffffff,
        ],
        light_ansi() == seq![
            0x383a42u32, 0xe45649, 0x50a14f, 0xc18401, 0x4078f2, 0xa626a4, 0x0184bc, 0xa0a1a7, 0x4f525e, 0xff5a4e, 0x5cbf5b, 0xe39d02, 0x5c8cff, 0xc435c1, 0x019fdf, 0xffffff,
        ],
{
}

} // verus!
