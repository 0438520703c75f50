//! Color palette used by every widget.
//!
//! Widgets never fix colors; they name a [`Slot`] and resolve it through a
//! [`Theme`], so that changing the theme restyles the whole application.
use vstd::prelude::*;

verus! {

/// A color: hue in degrees; saturation, lightness and opacity in percent.
#[derive(Debug, Clone, Copy, PartialEq, Eq, Structural)]
pub struct Shade {
    pub h: u16,
    pub s: u8,
    pub l: u8,
    pub a: u8,
}

impl Shade {
    /// The hue is a direction and the rest are shares.
    pub open spec fn wf(self) -> bool {
        self.h < 360 && self.s <= 100 && self.l <= 100 && self.a <= 100
    }
}

/// An opaque color.
pub open spec fn opaque(h: u16, s: u8, l: u8) -> Shade {
    Shade { h, s, l, a: 100 }
}

/// The names that widgets use for colors.
#[derive(Debug, Clone, Copy, PartialEq, Eq, Structural)]
pub enum Slot {
    Background,
    Surface,
    SurfaceHover,
    SurfaceActive,
    Border,
    Text,
    TextMuted,
    Accent,
    Danger,
    Success,
    Overlay,
    /// The mark on a button at rest.
    Icon,
    /// Nothing is painted.
    Transparent,
}

/// A flat set of semantic colors.
#[derive(Debug, Clone, Copy, PartialEq, Eq, Structural)]
pub struct Theme {
    /// Window / app background.
    pub background: Shade,
    /// Background of raised chrome such as panels, toolbars and the tab bar.
    pub surface: Shade,
    /// Surface color while the pointer hovers an interactive element.
    pub surface_hover: Shade,
    /// Surface color while an interactive element is pressed or selected.
    pub surface_active: Shade,
    /// Hairline separators and control outlines.
    pub border: Shade,
    /// Primary foreground color.
    pub text: Shade,
    /// Secondary foreground color for hints, placeholders and inactive labels.
    pub text_muted: Shade,
    /// Brand color used for the active tab, focus rings and primary buttons.
    pub accent: Shade,
    /// Destructive actions and error states.
    pub danger: Shade,
    /// Successful / connected states.
    pub success: Shade,
    /// Translucent backdrop painted behind modal dialogs.
    pub overlay: Shade,
}

/// The dark theme.
pub open spec fn dark_theme() -> Theme {
    Theme {
        background: opaque(220, 13, 18),
        surface: opaque(220, 13, 14),
        surface_hover: opaque(220, 13, 23),
        surface_active: opaque(220, 13, 28),
        border: opaque(220, 13, 31),
        text: opaque(219, 14, 78),
        text_muted: opaque(220, 9, 55),
        accent: opaque(207, 82, 66),
        danger: opaque(355, 65, 65),
        success: opaque(95, 38, 62),
        overlay: Shade { h: 220, s: 13, l: 6, a: 62 },
    }
}

/// The light theme.
pub open spec fn light_theme() -> Theme {
    Theme {
        background: opaque(0, 0, 100),
        surface: opaque(220, 16, 96),
        surface_hover: opaque(220, 16, 91),
        surface_active: opaque(220, 16, 86),
        border: opaque(220, 13, 80),
        text: opaque(220, 16, 20),
        text_muted: opaque(220, 10, 45),
        accent: opaque(212, 76, 46),
        danger: opaque(355, 66, 46),
        success: opaque(120, 45, 33),
        overlay: Shade { h: 220, s: 13, l: 35, a: 40 },
    }
}

fn solid(h: u16, s: u8, l: u8) -> (shade: Shade)
    ensures
        shade == opaque(h, s, l),
{
    Shade { h, s, l, a: 100 }
}

impl Default for Theme {
    fn default() -> (theme: Theme)
        ensures
            theme == dark_theme(),
    {
        Theme::dark()
    }
}

impl Theme {
    /// Every color is one.
    pub open spec fn wf(self) -> bool {
        &&& self.background.wf() && self.surface.wf() && self.surface_hover.wf() && self.surface_active.wf()
        &&& self.border.wf() && self.text.wf() && self.text_muted.wf() && self.accent.wf()
        &&& self.danger.wf() && self.success.wf() && self.overlay.wf()
    }

    /// The default dark theme, in the spirit of One Dark.
    pub fn dark() -> (theme: Theme)
        ensures
            theme == dark_theme(),
            theme.wf(),
    {
        Theme {
            background: solid(220, 13, 18),
            surface: solid(220, 13, 14),
            surface_hover: solid(220, 13, 23),
            surface_active: solid(220, 13, 28),
            border: solid(220, 13, 31),
            text: solid(219, 14, 78),
            text_muted: solid(220, 9, 55),
            accent: solid(207, 82, 66),
            danger: solid(355, 65, 65),
            success: solid(95, 38, 62),
            overlay: Shade { h: 220, s: 13, l: 6, a: 62 },
        }
    }

    /// A light counterpart to [`Theme::dark`].
    pub fn light() -> (theme: Theme)
        ensures
            theme == light_theme(),
            theme.wf(),
    {
        Theme {
            background: solid(0, 0, 100),
            surface: solid(220, 16, 96),
            surface_hover: solid(220, 16, 91),
            surface_active: solid(220, 16, 86),
            border: solid(220, 13, 80),
            text: solid(220, 16, 20),
            text_muted: solid(220, 10, 45),
            accent: solid(212, 76, 46),
            danger: solid(355, 66, 46),
            success: solid(120, 45, 33),
            overlay: Shade { h: 220, s: 13, l: 35, a: 40 },
        }
    }

    /// The color under a name.
    pub open spec fn color_of(self, slot: Slot) -> Shade {
        match slot {
            Slot::Background => self.background,
            Slot::Surface => self.surface,
            Slot::SurfaceHover => self.surface_hover,
            Slot::SurfaceActive => self.surface_active,
            Slot::Border => self.border,
            Slot::Text => self.text,
            Slot::TextMuted => self.text_muted,
            Slot::Accent => self.accent,
            Slot::Danger => self.danger,
            Slot::Success => self.success,
            Slot::Overlay => self.overlay,
            Slot::Icon => self.text_muted,
            Slot::Transparent => Shade { h: 0, s: 0, l: 0, a: 0 },
        }
    }

    /// Look a color up by its name.
    pub fn color(&self, slot: Slot) -> (shade: Shade)
        ensures
            shade == self.color_of(slot),
    {
        match slot {
            Slot::Background => self.background,
            Slot::Surface => self.surface,
            Slot::SurfaceHover => self.surface_hover,
            Slot::SurfaceActive => self.surface_active,
            Slot::Border => self.border,
            Slot::Text => self.text,
            Slot::TextMuted => self.text_muted,
            Slot::Accent => self.accent,
            Slot::Danger => self.danger,
            Slot::Success => self.success,
            Slot::Overlay => self.overlay,
            Slot::Icon => self.text_muted,
            Slot::Transparent => Shade { h: 0, s: 0, l: 0, a: 0 },
        }
    }
}

/// The active theme: what the application installed, or else the dark one.
pub fn theme(installed: Option<Theme>) -> (active: Theme)
    ensures
        active == match installed {
            Some(theme) => theme,
            None => dark_theme(),
        },
{
    match installed {
        Some(theme) => theme,
        None => Theme::dark(),
    }
}

/// Make `theme` the active one.
pub fn set_theme(theme: Theme, installed: &mut Option<Theme>)
    ensures
        *final(installed) == Some(theme),
{
    *installed = Some(theme);
}

/// A lightness moved by some percent, kept between none and all of it.
pub open spec fn shifted(l: u8, delta: int) -> u8 {
    if l + delta < 0 {
        0
    } else if l + delta > 100 {
        100
    } else {
        (l + delta) as u8
    }
}

/// Returns `color` with its lightness shifted by `delta` percent.
///
/// Used to derive hover and pressed shades from a base color.
pub fn shift_lightness(color: Shade, delta: i16) -> (shifted: Shade)
    ensures
        shifted == (Shade { l: self::shifted(color.l, delta as int), ..color }),
        color.wf() ==> shifted.wf(),
{
    let l: i32 = color.l as i32 + delta as i32;
    Shade {
        l: if l < 0 {
            0
        } else if l > 100 {
            100
        } else {
            l as u8
        },
        ..color
    }
}

/// Every slot has its own color in the theme; icons wear the muted text, and what is
/// transparent shows nothing.
pub proof fn slots_have_their_colors(theme: Theme)
    ensures
        theme.color_of(Slot::Background) == theme.background,
        theme.color_of(Slot::Surface) == theme.surface,
        theme.color_of(Slot::SurfaceHover) == theme.surface_hover,
        theme.color_of(Slot::SurfaceActive) == theme.surface_active,
        theme.color_of(Slot::Border) == theme.border,
        theme.color_of(Slot::Text) == theme.text,
        theme.color_of(Slot::TextMuted) == theme.text_muted,
        theme.color_of(Slot::Accent) == theme.accent,
        theme.color_of(Slot::Danger) == theme.danger,
        theme.color_of(Slot::Success) == theme.success,
        theme.color_of(Slot::Overlay) == theme.overlay,
        theme.color_of(Slot::Icon) == theme.text_muted,
        theme.color_of(Slot::Transparent).a == 0,
{
}

/// On the dark theme text is lighter than what it stands on, on the light one darker,
/// and all but the overlay is opaque.
pub proof fn text_stands_out(slot: Slot)
    ensures
        dark_theme().text.l >= dark_theme().background.l + 50,
        light_theme().text.l + 50 <= light_theme().background.l,
        dark_theme().text_muted.l < dark_theme().text.l,
        light_theme().text_muted.l > light_theme().text.l,
        !(slot is Overlay) && !(slot is Transparent) ==> dark_theme().color_of(slot).a == 100
            && light_theme().color_of(slot).a == 100,
        dark_theme().overlay.a == 62 && light_theme().overlay.a == 40,
{
}

/// The colors of both themes: hue, saturation and lightness.
pub proof fn the_themes_are_these(h: u16, s: u8, l: u8)
    ensures
        opaque(h, s, l).h == h && opaque(h, s, l).s == s && opaque(h, s, l).l == l && opaque(h, s, l).a == 100,
        dark_theme().background == opaque(220, 13, 18) && dark_theme().surface == opaque(220, 13, 14),
        dark_theme().surface_hover == opaque(220, 13, 23) && dark_theme().surface_active == opaque(220, 13, 28),
        dark_theme().border == opaque(220, 13, 31) && dark_theme().text == opaque(219, 14, 78),
        dark_theme().text_muted == opaque(220, 9, 55) && dark_theme().accent == opaque(207, 82, 66),
        dark_theme().danger == opaque(355, 65, 65) && dark_theme().success == opaque(95, 38, 62),
        dark_theme().overlay.h == 220 && dark_theme().overlay.s == 13 && dark_theme().overlay.l == 6,
        light_theme().background == opaque(0, 0, 100) && light_theme().surface == opaque(220, 16, 96),
        light_theme().surface_hover == opaque(220, 16, 91) && light_theme().surface_active == opaque(220, 16, 86),
        light_theme().border == opaque(220, 13, 80) && light_theme().text == opaque(220, 16, 20),
        light_theme().text_muted == opaque(220, 10, 45) && light_theme().accent == opaque(212, 76, 46),
        light_theme().danger == opaque(355, 66, 46) && light_theme().success == opaque(120, 45, 33),
        light_theme().overlay.h == 220 && light_theme().overlay.s == 13 && light_theme().overlay.l == 35,
{
}

/// Lightness is shifted by as much as was asked for, and stops at black and at white.
pub proof fn lightness_stops_at_both_ends(l: u8, delta: int)
    requires
        l <= 100,
    ensures
        0 <= l + delta <= 100 ==> shifted(l, delta) == l + delta,
        l + delta < 0 ==> shifted(l, delta) == 0,
        l + delta > 100 ==> shifted(l, delta) == 100,
{
}

} // verus!
