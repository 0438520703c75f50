//! The immutable view of a screen that a renderer consumes.
//!
//! A screen is handed over as lines of style runs: stretches of text that share
//! one foreground color, one background color and one set of attributes.
use vstd::prelude::*;

use crate::term::theme::Rgb;

verus! {

/// Attributes of a style run.
#[derive(Debug, Clone, Copy, PartialEq, Eq, Structural)]
pub struct RunFlags {
    /// Bold text.
    pub bold: bool,
    /// Italic text.
    pub italic: bool,
    /// Underlined text, whatever the shape of the line.
    pub underline: bool,
    /// Struck out text.
    pub strikeout: bool,
    /// Foreground and background change places.
    pub inverse: bool,
    /// Faint text.
    pub dim: bool,
    /// Text in the color of its background.
    pub hidden: bool,
}

impl RunFlags {
    /// Bold alone.
    pub fn bold() -> (flags: RunFlags)
        ensures
            flags == (RunFlags { bold: true, ..no_flags() }),
    {
        RunFlags { bold: true, ..RunFlags::empty() }
    }

    /// Italic alone.
    pub fn italic() -> (flags: RunFlags)
        ensures
            flags == (RunFlags { italic: true, ..no_flags() }),
    {
        RunFlags { italic: true, ..RunFlags::empty() }
    }

    /// Underline alone.
    pub fn underline() -> (flags: RunFlags)
        ensures
            flags == (RunFlags { underline: true, ..no_flags() }),
    {
        RunFlags { underline: true, ..RunFlags::empty() }
    }

    /// Strikeout alone.
    pub fn strikeout() -> (flags: RunFlags)
        ensures
            flags == (RunFlags { strikeout: true, ..no_flags() }),
    {
        RunFlags { strikeout: true, ..RunFlags::empty() }
    }

    /// Inverse alone.
    pub fn inverse() -> (flags: RunFlags)
        ensures
            flags == (RunFlags { inverse: true, ..no_flags() }),
    {
        RunFlags { inverse: true, ..RunFlags::empty() }
    }

    /// Dim alone.
    pub fn dim() -> (flags: RunFlags)
        ensures
            flags == (RunFlags { dim: true, ..no_flags() }),
    {
        RunFlags { dim: true, ..RunFlags::empty() }
    }

    /// Hidden alone.
    pub fn hidden() -> (flags: RunFlags)
        ensures
            flags == (RunFlags { hidden: true, ..no_flags() }),
    {
        RunFlags { hidden: true, ..RunFlags::empty() }
    }

    /// No attribute at all.
    pub fn empty() -> (flags: RunFlags)
        ensures
            flags == no_flags(),
    {
        RunFlags {
            bold: false,
            italic: false,
            underline: false,
            strikeout: false,
            inverse: false,
            dim: false,
            hidden: false,
        }
    }

    /// Whether every attribute of `other` is set here.
    pub fn contains(self, other: RunFlags) -> (all: bool)
        ensures
            all == self.has(other),
    {
        (!other.bold || self.bold) && (!other.italic || self.italic) && (!other.underline || self.underline)
            && (!other.strikeout || self.strikeout) && (!other.inverse || self.inverse) && (!other.dim
            || self.dim) && (!other.hidden || self.hidden)
    }

    /// Every attribute of `other` is set in `self`.
    pub open spec fn has(self, other: RunFlags) -> bool {
        &&& other.bold ==> self.bold
        &&& other.italic ==> self.italic
        &&& other.underline ==> self.underline
        &&& other.strikeout ==> self.strikeout
        &&& other.inverse ==> self.inverse
        &&& other.dim ==> self.dim
        &&& other.hidden ==> self.hidden
    }

    /// `self` with every attribute of `other` set to `on`.
    pub open spec fn with(self, other: RunFlags, on: bool) -> RunFlags {
        RunFlags {
            bold: if other.bold { on } else { self.bold },
            italic: if other.italic { on } else { self.italic },
            underline: if other.underline { on } else { self.underline },
            strikeout: if other.strikeout { on } else { self.strikeout },
            inverse: if other.inverse { on } else { self.inverse },
            dim: if other.dim { on } else { self.dim },
            hidden: if other.hidden { on } else { self.hidden },
        }
    }

    /// Switch every attribute of `other` on or off.
    pub fn set(&mut self, other: RunFlags, on: bool)
        ensures
            *final(self) == old(self).with(other, on),
    {
        if other.bold {
            self.bold = on;
        }
        if other.italic {
            self.italic = on;
        }
        if other.underline {
            self.underline = on;
        }
        if other.strikeout {
            self.strikeout = on;
        }
        if other.inverse {
            self.inverse = on;
        }
        if other.dim {
            self.dim = on;
        }
        if other.hidden {
            self.hidden = on;
        }
    }
}

/// The set of attributes that holds none.
pub open spec fn no_flags() -> RunFlags {
    RunFlags {
        bold: false,
        italic: false,
        underline: false,
        strikeout: false,
        inverse: false,
        dim: false,
        hidden: false,
    }
}

/// Cursor cell inside the visible screen.
#[derive(Debug, Clone, Copy, PartialEq, Eq, Structural)]
pub struct CursorPos {
    /// Row, counted from the top of the screen.
    pub line: u16,
    /// Column, counted from the left.
    pub col: u16,
}

/// Text that shares one style, starting at a column.
#[derive(Debug)]
pub struct StyledRun {
    pub text: String,
    pub start_col: u16,
    pub fg: Rgb,
    pub bg: Rgb,
    pub flags: RunFlags,
}

/// What a [`StyledRun`] shows.
pub struct RunView {
    pub text: Seq<char>,
    pub start_col: int,
    pub fg: Rgb,
    pub bg: Rgb,
    pub flags: RunFlags,
}

impl View for StyledRun {
    type V = RunView;

    open spec fn view(&self) -> RunView {
        RunView {
            text: self.text@,
            start_col: self.start_col as int,
            fg: self.fg,
            bg: self.bg,
            flags: self.flags,
        }
    }
}

/// One row of the screen.
#[derive(Debug)]
pub struct TerminalLine {
    pub runs: Vec<StyledRun>,
}

impl View for TerminalLine {
    type V = Seq<RunView>;

    open spec fn view(&self) -> Seq<RunView> {
        Seq::new(self.runs@.len(), |i: int| self.runs@[i]@)
    }
}

/// The text of a row: what its runs hold, one after the other.
pub open spec fn line_text(runs: Seq<RunView>) -> Seq<char>
    decreases runs.len(),
{
    if runs.len() == 0 {
        Seq::empty()
    } else {
        line_text(runs.drop_last()) + runs.last().text
    }
}

impl TerminalLine {
    /// The text of the row without its styling.
    pub fn text(&self) -> (text: String)
        ensures
            text@ == line_text(self@),
    {
        let mut text = String::new();
        let mut i: usize = 0;
        while i < self.runs.len()
            invariant
                i <= self.runs@.len(),
                text@ == line_text(self@.take(i as int)),
            decreases self.runs@.len() - i,
        {
            proof {
                assert(self@.take(i + 1).drop_last() =~= self@.take(i as int));
                assert(self@.take(i + 1).last() == self.runs@[i as int]@);
            }
            text.append(self.runs[i].text.as_str());
            i += 1;
        }
        proof {
            assert(self@.take(i as int) =~= self@);
        }
        text
    }

    /// Whether the row paints nothing.
    pub fn is_empty(&self) -> (empty: bool)
        ensures
            empty == (self@.len() == 0),
    {
        self.runs.len() == 0
    }
}

/// Everything a renderer needs to draw one frame.
#[derive(Debug)]
pub struct TerminalSnapshot {
    pub cols: u16,
    pub rows: u16,
    pub lines: Vec<TerminalLine>,
    pub cursor: CursorPos,
    pub cursor_visible: bool,
    pub display_offset: usize,
    pub total_scrollback: usize,
}

/// Modes of the terminal that change how keys are encoded.
#[derive(Debug, Clone, Copy, PartialEq, Eq, Structural)]
pub struct TermModes {
    pub app_cursor: bool,
    pub app_keypad: bool,
    pub bracketed_paste: bool,
}

impl Default for TermModes {
    fn default() -> (modes: TermModes)
        ensures
            modes == (TermModes { app_cursor: false, app_keypad: false, bracketed_paste: false }),
    {
        TermModes { app_cursor: false, app_keypad: false, bracketed_paste: false }
    }
}

/// Setting flags on sets those and no others, setting them off clears those and no
/// others, and a set of flags has another when it has all of it.
pub proof fn flags_are_set_one_by_one(flags: RunFlags, other: RunFlags)
    ensures
        flags.with(other, true).has(other),
        flags.with(other, true).has(flags),
        flags.with(no_flags(), true) == flags && flags.with(no_flags(), false) == flags,
        flags.has(no_flags()),
        no_flags().has(flags) ==> flags == no_flags(),
        flags.has(other) && other.has(flags) ==> flags == other,
        flags.with(flags, false) == no_flags(),
        no_flags().with(flags, true) == flags,
        flags.with(other, false).with(other, true) == flags.with(other, true),
        flags.with(RunFlags { bold: true, ..no_flags() }, true) == (RunFlags { bold: true, ..flags }),
        flags.with(RunFlags { italic: true, ..no_flags() }, true) == (RunFlags { italic: true, ..flags }),
        flags.with(RunFlags { underline: true, ..no_flags() }, false) == (RunFlags { underline: false, ..flags }),
        !no_flags().bold && !no_flags().italic && !no_flags().underline && !no_flags().strikeout,
        !no_flags().inverse && !no_flags().dim && !no_flags().hidden,
{
}

/// The text of a line is that of its runs, from left to right.
pub proof fn lines_read_from_left_to_right(runs: Seq<RunView>, run: RunView)
    ensures
        line_text(Seq::empty()).len() == 0,
        line_text(runs.push(run)) == line_text(runs) + run.text,
{
    assert(runs.push(run).drop_last() =~= runs);
}

} // verus!
