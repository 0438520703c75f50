//! The terminal emulator that the screen model drives.
//!
//! Parsing escape sequences and keeping the grid is the work of
//! `alacritty_terminal`. What happens to an emulator is recorded, in proofs
//! only, as a script of operations; whatever is read out of the grid is a
//! function of that script.
use vstd::prelude::*;

use alacritty_terminal::event::{Event, EventListener};
use alacritty_terminal::grid::{Dimensions, GridCell, Scroll};
use alacritty_terminal::index::{Column, Line};
use alacritty_terminal::term::Config;
use alacritty_terminal::vte::ansi;
use alacritty_terminal::vte::ansi::{CursorShape, Processor};
use alacritty_terminal::Term;
use std::sync::mpsc::{Receiver, Sender};

use crate::term::theme::{Color, NamedColor, Rgb};
use crate::term::width::is_narrow;

verus! {

/// The screen buffer of `alacritty_terminal`. Nothing is claimed of it here.
#[verifier::external_type_specification]
#[verifier::external_body]
#[verifier::reject_recursive_types(T)]
pub struct ExTerm<T>(alacritty_terminal::Term<T>);

/// A message that the screen buffer sends to its listener. Nothing is claimed
/// of it here.
#[verifier::external_type_specification]
#[verifier::external_body]
pub struct ExEvent(alacritty_terminal::event::Event);

/// The reading end of a std channel. Nothing is claimed of it here.
#[verifier::external_type_specification]
#[verifier::external_body]
#[verifier::reject_recursive_types(T)]
pub struct ExReceiver<T>(std::sync::mpsc::Receiver<T>);

/// The writing end of a std channel. Nothing is claimed of it here.
#[verifier::external_type_specification]
#[verifier::external_body]
#[verifier::reject_recursive_types(T)]
pub struct ExSender<T>(std::sync::mpsc::Sender<T>);

/// The escape sequence parser of `alacritty_terminal`: its `vte` `Processor`,
/// in a struct of its own because its type parameter is bound by a trait of that
/// crate. Nothing is claimed of it here.
#[verifier::external_body]
pub struct Parser {
    processor: Processor,
}

/// Grid geometry handed to the screen buffer.
#[derive(Debug, Clone, Copy)]
pub struct TermDimensions {
    pub columns: usize,
    pub screen_lines: usize,
    pub total_lines: usize,
}

impl TermDimensions {
    /// A screen of `cols` x `rows` cells over `scrollback` lines of history.
    pub fn new(cols: u16, rows: u16, scrollback: usize) -> (dimensions: TermDimensions)
        ensures
            dimensions.columns == cols,
            dimensions.screen_lines == rows,
            dimensions.total_lines == if rows + scrollback <= usize::MAX {
                rows + scrollback
            } else {
                usize::MAX as int
            },
    {
        let columns: usize = cols as usize;
        let screen_lines: usize = rows as usize;
        TermDimensions { columns, screen_lines, total_lines: screen_lines.saturating_add(scrollback) }
    }
}

impl Dimensions for TermDimensions {
    fn total_lines(&self) -> (lines: usize)
        ensures
            lines == self.total_lines,
    {
        self.total_lines
    }

    fn screen_lines(&self) -> (lines: usize)
        ensures
            lines == self.screen_lines,
    {
        self.screen_lines
    }

    fn columns(&self) -> (columns: usize)
        ensures
            columns == self.columns,
    {
        self.columns
    }
}

/// Listener that queues the messages of the screen buffer.
pub struct EventProxy {
    queue: Sender<Event>,
}

impl EventListener for EventProxy {
    /// Hands a message to `std::sync::mpsc::Sender::send`. Nothing is claimed of
    /// the call itself: what reaches the queue is stated where the screen buffer
    /// is driven.
    #[verifier::external_body]
    fn send_event(&self, event: Event) {
        let _ = self.queue.send(event);
    }
}

/// A message of the emulator that the model looks at.
#[derive(Debug)]
pub enum TermEvent {
    /// The window title was set.
    Title(String),
    /// The window title was taken back.
    ResetTitle,
    /// Text that the terminal answers with.
    PtyWrite(String),
    /// Anything else.
    Other,
}

/// One step in the life of an emulator.
pub enum ScreenOp {
    Open { cols: u16, rows: u16, scrollback: usize },
    Feed(Seq<u8>),
    Resize { cols: u16, rows: u16 },
    Scroll(i32),
    Bottom,
}

/// Color of a cell as the grid stores it; named colors by their number.
#[derive(Debug, Clone, Copy, PartialEq, Eq, Structural)]
pub enum CellColor {
    Named(u16),
    Spec(u8, u8, u8),
    Indexed(u8),
}

/// One cell of the grid.
#[derive(Debug)]
pub struct GridCellValue {
    /// The glyph.
    pub c: char,
    /// Combining marks that stack on the glyph.
    pub zerowidth: Vec<char>,
    pub fg: CellColor,
    pub bg: CellColor,
    /// Attribute bits.
    pub flags: u16,
    /// Whether the cell paints nothing but the default background.
    pub empty: bool,
}

/// What a [`GridCellValue`] holds.
pub struct CellView {
    pub c: char,
    pub zerowidth: Seq<char>,
    pub fg: CellColor,
    pub bg: CellColor,
    pub flags: u16,
    pub empty: bool,
}

impl View for GridCellValue {
    type V = CellView;

    open spec fn view(&self) -> CellView {
        CellView {
            c: self.c,
            zerowidth: self.zerowidth@,
            fg: self.fg,
            bg: self.bg,
            flags: self.flags,
            empty: self.empty,
        }
    }
}

/// Where the cursor of the grid stands. Line 0 is the top of the screen when
/// nothing is scrolled back.
#[derive(Debug, Clone, Copy, PartialEq, Eq, Structural)]
pub struct GridCursor {
    pub line: i32,
    pub column: usize,
}

/// The number stands for a named color.
pub open spec fn known_color(color: CellColor) -> bool {
    match color {
        CellColor::Named(number) => number < 16 || 256 <= number < 269,
        _ => true,
    }
}

/// The color with this number.
pub open spec fn color_named(number: u16) -> NamedColor {
    if number == 0 {
        NamedColor::Black
    } else if number == 1 {
        NamedColor::Red
    } else if number == 2 {
        NamedColor::Green
    } else if number == 3 {
        NamedColor::Yellow
    } else if number == 4 {
        NamedColor::Blue
    } else if number == 5 {
        NamedColor::Magenta
    } else if number == 6 {
        NamedColor::Cyan
    } else if number == 7 {
        NamedColor::White
    } else if number == 8 {
        NamedColor::BrightBlack
    } else if number == 9 {
        NamedColor::BrightRed
    } else if number == 10 {
        NamedColor::BrightGreen
    } else if number == 11 {
        NamedColor::BrightYellow
    } else if number == 12 {
        NamedColor::BrightBlue
    } else if number == 13 {
        NamedColor::BrightMagenta
    } else if number == 14 {
        NamedColor::BrightCyan
    } else if number == 15 {
        NamedColor::BrightWhite
    } else if number == 256 {
        NamedColor::Foreground
    } else if number == 257 {
        NamedColor::Background
    } else if number == 258 {
        NamedColor::Cursor
    } else if number == 259 {
        NamedColor::DimBlack
    } else if number == 260 {
        NamedColor::DimRed
    } else if number == 261 {
        NamedColor::DimGreen
    } else if number == 262 {
        NamedColor::DimYellow
    } else if number == 263 {
        NamedColor::DimBlue
    } else if number == 264 {
        NamedColor::DimMagenta
    } else if number == 265 {
        NamedColor::DimCyan
    } else if number == 266 {
        NamedColor::DimWhite
    } else if number == 267 {
        NamedColor::BrightForeground
    } else {
        NamedColor::DimForeground
    }
}

/// The palette's name for a cell color.
pub open spec fn palette_color(color: CellColor) -> Color {
    match color {
        CellColor::Named(number) => Color::Named(color_named(number)),
        CellColor::Spec(r, g, b) => Color::Spec(Rgb { r, g, b }),
        CellColor::Indexed(index) => Color::Indexed(index),
    }
}

/// Turn a cell color into the palette's name for it.
pub fn to_palette(color: CellColor) -> (named: Color)
    requires
        known_color(color),
    ensures
        named == palette_color(color),
{
    match color {
        CellColor::Spec(r, g, b) => Color::Spec(Rgb { r, g, b }),
        CellColor::Indexed(index) => Color::Indexed(index),
        CellColor::Named(number) => Color::Named(
            match number {
                0 => NamedColor::Black,
                1 => NamedColor::Red,
                2 => NamedColor::Green,
                3 => NamedColor::Yellow,
                4 => NamedColor::Blue,
                5 => NamedColor::Magenta,
                6 => NamedColor::Cyan,
                7 => NamedColor::White,
                8 => NamedColor::BrightBlack,
                9 => NamedColor::BrightRed,
                10 => NamedColor::BrightGreen,
                11 => NamedColor::BrightYellow,
                12 => NamedColor::BrightBlue,
                13 => NamedColor::BrightMagenta,
                14 => NamedColor::BrightCyan,
                15 => NamedColor::BrightWhite,
                256 => NamedColor::Foreground,
                257 => NamedColor::Background,
                258 => NamedColor::Cursor,
                259 => NamedColor::DimBlack,
                260 => NamedColor::DimRed,
                261 => NamedColor::DimGreen,
                262 => NamedColor::DimYellow,
                263 => NamedColor::DimBlue,
                264 => NamedColor::DimMagenta,
                265 => NamedColor::DimCyan,
                266 => NamedColor::DimWhite,
                267 => NamedColor::BrightForeground,
                _ => NamedColor::DimForeground,
            },
        ),
    }
}

/// A terminal emulator: parser, screen buffer and the messages it has sent.
pub struct Emulator {
    term: Term<EventProxy>,
    parser: Parser,
    events: Receiver<Event>,
}

/// What was done to the emulator, in order.
pub uninterp spec fn script(emulator: Emulator) -> Seq<ScreenOp>;

/// The messages that nobody has taken yet, in order.
pub uninterp spec fn pending(emulator: Emulator) -> Seq<TermEvent>;

/// The cell at a line and a column after a script; history has negative lines.
pub uninterp spec fn grid_cell(script: Seq<ScreenOp>, line: int, column: int) -> CellView;

/// How many lines the view is scrolled back after a script.
pub uninterp spec fn scrolled_back(script: Seq<ScreenOp>) -> nat;

/// How many lines of history there are after a script.
pub uninterp spec fn history_len(script: Seq<ScreenOp>) -> nat;

/// Where the cursor stands after a script.
pub uninterp spec fn grid_cursor(script: Seq<ScreenOp>) -> GridCursor;

/// Whether the cursor has no shape after a script.
pub uninterp spec fn cursor_shapeless(script: Seq<ScreenOp>) -> bool;

/// The mode bits after a script.
pub uninterp spec fn mode_bits(script: Seq<ScreenOp>) -> u32;

/// The messages that feeding bytes after a script makes the emulator send.
pub uninterp spec fn emitted(script: Seq<ScreenOp>, bytes: Seq<u8>) -> Seq<TermEvent>;

/// Columns and rows that a script leaves the screen with.
pub open spec fn screen_size(script: Seq<ScreenOp>) -> (u16, u16)
    decreases script.len(),
{
    if script.len() == 0 {
        (1, 1)
    } else {
        match script.last() {
            ScreenOp::Open { cols, rows, scrollback } => (cols, rows),
            ScreenOp::Resize { cols, rows } => (cols, rows),
            _ => screen_size(script.drop_last()),
        }
    }
}

/// Lines of history that the emulator was opened with.
pub open spec fn scrollback_limit(script: Seq<ScreenOp>) -> usize {
    match script.first() {
        ScreenOp::Open { cols, rows, scrollback } => scrollback,
        _ => 0,
    }
}

/// The bytes that were ever fed.
pub open spec fn fed_bytes(script: Seq<ScreenOp>) -> Seq<u8>
    decreases script.len(),
{
    if script.len() == 0 {
        Seq::empty()
    } else {
        match script.last() {
            ScreenOp::Feed(bytes) => fed_bytes(script.drop_last()) + bytes,
            _ => fed_bytes(script.drop_last()),
        }
    }
}

/// Every glyph fits on the screen: a glyph of double width needs two columns.
pub open spec fn glyphs_fit(script: Seq<ScreenOp>) -> bool {
    screen_size(script).0 >= 2 || is_narrow(fed_bytes(script))
}

/// A cell that nothing was written to.
pub open spec fn blank_cell() -> CellView {
    CellView {
        c: ' ',
        zerowidth: Seq::empty(),
        fg: CellColor::Named(256),
        bg: CellColor::Named(257),
        flags: 0,
        empty: true,
    }
}

/// The grid, the cursor and the modes are the same after both scripts.
pub open spec fn same_grid(a: Seq<ScreenOp>, b: Seq<ScreenOp>) -> bool {
    &&& forall|line: int, column: int| grid_cell(a, line, column) == #[trigger] grid_cell(b, line, column)
    &&& grid_cursor(a) == grid_cursor(b)
    &&& cursor_shapeless(a) == cursor_shapeless(b)
    &&& mode_bits(a) == mode_bits(b)
    &&& history_len(a) == history_len(b)
}

/// An offset moved by `delta` and kept between the bottom and the oldest line.
pub open spec fn clamped_offset(offset: nat, delta: int, history: nat) -> nat {
    if offset + delta <= 0 {
        0
    } else if offset + delta <= history {
        (offset + delta) as nat
    } else {
        history
    }
}

impl Emulator {
    /// Opens a screen: `Term::new` and `Processor::new` of `alacritty_terminal`,
    /// with a std channel for the messages. Claims that a new screen is blank,
    /// that it has no history, that its view is not scrolled back, that its
    /// cursor has a shape and stands in the top left corner, and which modes are on.
    #[verifier::external_body]
    pub(crate) fn open(dimensions: TermDimensions, scrollback: usize) -> (emulator: Emulator)
        requires
            1 <= dimensions.columns <= u16::MAX,
            1 <= dimensions.screen_lines <= u16::MAX,
            scrollback <= i32::MAX,
        ensures
            script(emulator) == seq![
                ScreenOp::Open {
                    cols: dimensions.columns as u16,
                    rows: dimensions.screen_lines as u16,
                    scrollback,
                },
            ],
            pending(emulator).len() == 0,
            scrolled_back(script(emulator)) == 0,
            history_len(script(emulator)) == 0,
            forall|line: int, column: int|
                0 <= line < dimensions.screen_lines && 0 <= column < dimensions.columns
                    ==> #[trigger] grid_cell(script(emulator), line, column) == blank_cell(),
            grid_cursor(script(emulator)) == (GridCursor { line: 0, column: 0 }),
            !cursor_shapeless(script(emulator)),
            mode_bits(script(emulator)) == 0x28081,
    {
        let (queue, events) = std::sync::mpsc::channel();
        let config = Config { scrolling_history: scrollback, ..Config::default() };
        let term = Term::new(config, &dimensions, EventProxy { queue });
        Emulator { term, parser: Parser { processor: Processor::new() }, events }
    }

    /// Feeds bytes: `Processor::advance` of `alacritty_terminal` on the screen
    /// buffer. Claims that the messages sent on the way are queued. A glyph of
    /// double width on a screen of one column is left out: the screen buffer
    /// indexes beyond the row there.
    #[verifier::external_body]
    pub(crate) fn advance(&mut self, bytes: &[u8])
        requires
            glyphs_fit(script(*old(self)).push(ScreenOp::Feed(bytes@))),
        ensures
            script(*final(self)) == script(*old(self)).push(ScreenOp::Feed(bytes@)),
            pending(*final(self)) == pending(*old(self)) + emitted(script(*old(self)), bytes@),
    {
        self.parser.processor.advance(&mut self.term, bytes);
    }

    /// Changes the size of the screen: `Term::resize` of `alacritty_terminal`.
    /// Claims that no message is sent. Glyphs of double width on a screen of one
    /// column are left out: rewrapping them does not end.
    #[verifier::external_body]
    pub(crate) fn resize(&mut self, dimensions: TermDimensions)
        requires
            1 <= dimensions.columns <= u16::MAX,
            1 <= dimensions.screen_lines <= u16::MAX,
            glyphs_fit(
                script(*old(self)).push(
                    ScreenOp::Resize { cols: dimensions.columns as u16, rows: dimensions.screen_lines as u16 },
                ),
            ),
        ensures
            script(*final(self)) == script(*old(self)).push(
                ScreenOp::Resize { cols: dimensions.columns as u16, rows: dimensions.screen_lines as u16 },
            ),
            pending(*final(self)) == pending(*old(self)),
    {
        self.term.resize(dimensions);
    }

    /// Moves the view: `Term::scroll_display` of `alacritty_terminal` with a
    /// `Delta`. Claims that only the offset changes, that it is kept between the
    /// bottom and the oldest line, and that one message is sent that is neither
    /// a title nor an answer.
    #[verifier::external_body]
    pub(crate) fn scroll(&mut self, delta: i32)
        requires
            scrolled_back(script(*old(self))) + delta <= i32::MAX,
        ensures
            script(*final(self)) == script(*old(self)).push(ScreenOp::Scroll(delta)),
            pending(*final(self)) == pending(*old(self)).push(TermEvent::Other),
            same_grid(script(*old(self)), script(*final(self))),
            scrolled_back(script(*final(self))) == clamped_offset(
                scrolled_back(script(*old(self))),
                delta as int,
                history_len(script(*old(self))),
            ),
    {
        self.term.scroll_display(Scroll::Delta(delta));
    }

    /// Moves the view to the bottom: `Term::scroll_display` of
    /// `alacritty_terminal` with `Bottom`. Claims that only the offset changes
    /// and that one message is sent that is neither a title nor an answer.
    #[verifier::external_body]
    pub(crate) fn scroll_to_bottom(&mut self)
        ensures
            script(*final(self)) == script(*old(self)).push(ScreenOp::Bottom),
            pending(*final(self)) == pending(*old(self)).push(TermEvent::Other),
            same_grid(script(*old(self)), script(*final(self))),
            scrolled_back(script(*final(self))) == 0,
    {
        self.term.scroll_display(Scroll::Bottom);
    }

    /// Takes the oldest message: `std::sync::mpsc::Receiver::try_recv`. Claims
    /// that the grid does not change.
    #[verifier::external_body]
    pub(crate) fn next_event(&mut self) -> (event: Option<TermEvent>)
        ensures
            script(*final(self)) == script(*old(self)),
            match event {
                Some(event) => pending(*old(self)).len() > 0 && event == pending(*old(self))[0] && pending(
                    *final(self),
                ) == pending(*old(self)).skip(1),
                None => pending(*old(self)).len() == 0 && pending(*final(self)).len() == 0,
            },
    {
        match self.events.try_recv() {
            Ok(Event::Title(title)) => Some(TermEvent::Title(title)),
            Ok(Event::ResetTitle) => Some(TermEvent::ResetTitle),
            Ok(Event::PtyWrite(text)) => Some(TermEvent::PtyWrite(text)),
            Ok(_) => Some(TermEvent::Other),
            Err(_) => None,
        }
    }

    /// Width of the screen: `Dimensions::columns` on the grid of
    /// `alacritty_terminal`. Claims that it is what the screen was last given.
    #[verifier::external_body]
    pub(crate) fn columns(&self) -> (columns: usize)
        ensures
            columns == screen_size(script(*self)).0,
    {
        self.term.grid().columns()
    }

    /// Height of the screen: `Dimensions::screen_lines` on the grid of
    /// `alacritty_terminal`. Claims that it is what the screen was last given.
    #[verifier::external_body]
    pub(crate) fn screen_lines(&self) -> (lines: usize)
        ensures
            lines == screen_size(script(*self)).1,
    {
        self.term.grid().screen_lines()
    }

    /// How far the view is scrolled back: `Grid::display_offset` of
    /// `alacritty_terminal`. Claims that it never passes the history limit.
    #[verifier::external_body]
    pub(crate) fn display_offset(&self) -> (offset: usize)
        ensures
            offset == scrolled_back(script(*self)),
            offset <= scrollback_limit(script(*self)),
    {
        self.term.grid().display_offset()
    }

    /// Lines of history: `Dimensions::history_size` on the grid of
    /// `alacritty_terminal`. Claims that they never pass the history limit.
    #[verifier::external_body]
    pub(crate) fn history_size(&self) -> (lines: usize)
        ensures
            lines == history_len(script(*self)),
            lines <= scrollback_limit(script(*self)),
    {
        self.term.grid().history_size()
    }

    /// Reads a cell: indexing the grid of `alacritty_terminal` by `Line` and
    /// `Column`, with `Cell::zerowidth`, `Flags::bits` and
    /// `GridCell::is_empty`. Claims that a named color has one of the numbers
    /// that `NamedColor` gives out.
    #[verifier::external_body]
    pub(crate) fn cell(&self, line: i32, column: usize) -> (cell: GridCellValue)
        requires
            -history_len(script(*self)) <= line < screen_size(script(*self)).1,
            column < screen_size(script(*self)).0,
        ensures
            cell@ == grid_cell(script(*self), line as int, column as int),
            known_color(cell.fg),
            known_color(cell.bg),
    {
        let cell = &self.term.grid()[Line(line)][Column(column)];
        let color = |color: ansi::Color| match color {
            ansi::Color::Named(name) => CellColor::Named(name as u16),
            ansi::Color::Spec(rgb) => CellColor::Spec(rgb.r, rgb.g, rgb.b),
            ansi::Color::Indexed(index) => CellColor::Indexed(index),
        };
        let (fg, bg) = (color(cell.fg), color(cell.bg));
        let zerowidth = cell.zerowidth().unwrap_or(&[]).to_vec();
        GridCellValue { c: cell.c, zerowidth, fg, bg, flags: cell.flags.bits(), empty: cell.is_empty() }
    }

    /// Reads where the cursor stands: the cursor's point in the grid of
    /// `alacritty_terminal`.
    #[verifier::external_body]
    pub(crate) fn cursor(&self) -> (cursor: GridCursor)
        ensures
            cursor == grid_cursor(script(*self)),
    {
        let point = self.term.grid().cursor.point;
        GridCursor { line: point.line.0, column: point.column.0 }
    }

    /// Reads whether the cursor has no shape: `Term::cursor_style` of
    /// `alacritty_terminal`. Whether it is shown at all is one of the modes.
    #[verifier::external_body]
    pub(crate) fn is_cursor_shapeless(&self) -> (shapeless: bool)
        ensures
            shapeless == cursor_shapeless(script(*self)),
    {
        matches!(self.term.cursor_style().shape, CursorShape::Hidden)
    }

    /// Reads the modes: `Term::mode` of `alacritty_terminal`, as bits.
    #[verifier::external_body]
    pub(crate) fn mode(&self) -> (bits: u32)
        ensures
            bits == mode_bits(script(*self)),
    {
        self.term.mode().bits()
    }
}

/// The screen has the size of the last opening or resizing, whatever came after, and has
/// read all bytes that it was fed, in their order.
pub proof fn the_screen_keeps_its_last_size(script: Seq<ScreenOp>, cols: u16, rows: u16, scrollback: usize, bytes: Seq<u8>)
    ensures
        screen_size(script.push(ScreenOp::Resize { cols, rows })) == (cols, rows),
        screen_size(script.push(ScreenOp::Open { cols, rows, scrollback })) == (cols, rows),
        screen_size(script.push(ScreenOp::Feed(bytes))) == screen_size(script),
        screen_size(script.push(ScreenOp::Bottom)) == screen_size(script),
        fed_bytes(Seq::empty()).len() == 0,
        fed_bytes(script.push(ScreenOp::Feed(bytes))) == fed_bytes(script) + bytes,
        fed_bytes(script.push(ScreenOp::Resize { cols, rows })) == fed_bytes(script),
        fed_bytes(script.push(ScreenOp::Bottom)) == fed_bytes(script),
        scrollback_limit(seq![ScreenOp::Open { cols, rows, scrollback }] + script) == scrollback,
{
    assert(script.push(ScreenOp::Resize { cols, rows }).drop_last() =~= script);
    assert(script.push(ScreenOp::Feed(bytes)).drop_last() =~= script);
    assert(script.push(ScreenOp::Bottom).drop_last() =~= script);
    assert((seq![ScreenOp::Open { cols, rows, scrollback }] + script).first() == (ScreenOp::Open {
        cols,
        rows,
        scrollback,
    }));
}

/// Scrolling moves as far as it says, and stops at the bottom and at the oldest line.
pub proof fn scrolling_stops_at_both_ends(offset: nat, delta: int, history: nat)
    ensures
        0 <= offset + delta <= history ==> clamped_offset(offset, delta, history) == offset + delta,
        offset + delta < 0 ==> clamped_offset(offset, delta, history) == 0,
        offset + delta > history ==> clamped_offset(offset, delta, history) == history,
{
}

} // verus!
