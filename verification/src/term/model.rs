//! The terminal model: an escape sequence parser plus a screen with history.
//!
//! [`TerminalModel`] drives an [`Emulator`] with the bytes that arrive from the
//! far side and turns its grid into a [`TerminalSnapshot`].
use vstd::prelude::*;

use crate::term::emulator::{
    blank_cell, clamped_offset, cursor_shapeless, emitted, fed_bytes, glyphs_fit, grid_cell, grid_cursor, history_len,
    known_color, mode_bits, palette_color, pending, same_grid, screen_size, script, scrolled_back,
    to_palette, CellColor, CellView, Emulator, GridCellValue, ScreenOp, TermDimensions, TermEvent,
};
use crate::term::snapshot::{
    line_text, CursorPos, RunFlags, RunView, StyledRun, TermModes, TerminalLine, TerminalSnapshot,
};
use crate::term::theme::{dimmed, resolved, Color, Rgb, TerminalTheme};
use crate::term::width::{all_narrow, ending, is_narrow, lemma_joined, take_ending};

verus! {

/// Cell attribute: foreground and background change places.
pub const INVERSE: u16 = 0x0001;

/// Cell attribute: bold.
pub const BOLD: u16 = 0x0002;

/// Cell attribute: italic.
pub const ITALIC: u16 = 0x0004;

/// Cell attribute: the trailing half of a glyph of double width.
pub const WIDE_CHAR_SPACER: u16 = 0x0040;

/// Cell attribute: faint.
pub const DIM: u16 = 0x0080;

/// Cell attribute: text in the color of its background.
pub const HIDDEN: u16 = 0x0100;

/// Cell attribute: struck out.
pub const STRIKEOUT: u16 = 0x0200;

/// Cell attributes: the underlines of every shape.
pub const ALL_UNDERLINES: u16 = 0x7808;

/// Terminal mode: the cursor is shown.
pub const SHOW_CURSOR: u32 = 0x0001;

/// Terminal mode: cursor keys send application sequences.
pub const APP_CURSOR: u32 = 0x0002;

/// Terminal mode: the keypad sends application sequences.
pub const APP_KEYPAD: u32 = 0x0004;

/// Terminal mode: pasted text is bracketed.
pub const BRACKETED_PASTE: u32 = 0x0010;

/// The attributes that a cell's bits stand for.
pub open spec fn flags_of(bits: u16) -> RunFlags {
    RunFlags {
        bold: bits & BOLD == BOLD,
        italic: bits & ITALIC == ITALIC,
        underline: bits & ALL_UNDERLINES != 0,
        strikeout: bits & STRIKEOUT == STRIKEOUT,
        inverse: bits & INVERSE == INVERSE,
        dim: bits & DIM == DIM,
        hidden: bits & HIDDEN == HIDDEN,
    }
}

/// The modes that mode bits stand for.
pub open spec fn modes_of(bits: u32) -> TermModes {
    TermModes {
        app_cursor: bits & APP_CURSOR == APP_CURSOR,
        app_keypad: bits & APP_KEYPAD == APP_KEYPAD,
        bracketed_paste: bits & BRACKETED_PASTE == BRACKETED_PASTE,
    }
}

/// Foreground, background and attributes that a cell is painted with.
pub open spec fn painted_style(theme: TerminalTheme, cell: CellView) -> (Rgb, Rgb, RunFlags) {
    let flags = flags_of(cell.flags);
    let text = resolved(theme, palette_color(cell.fg), true, flags);
    let back = resolved(theme, palette_color(cell.bg), false, flags);
    let (fg, bg) = if flags.inverse {
        (back, text)
    } else {
        (text, back)
    };
    (
        if flags.hidden {
            bg
        } else {
            fg
        },
        bg,
        flags,
    )
}

/// A glyph with the marks that stack on it.
pub open spec fn glyph(cell: CellView) -> Seq<char> {
    seq![cell.c] + cell.zerowidth
}

/// The cell is the trailing half of a glyph of double width.
pub open spec fn is_spacer(cell: CellView) -> bool {
    cell.flags & WIDE_CHAR_SPACER == WIDE_CHAR_SPACER
}

/// The row without the empty cells at its end.
pub open spec fn trimmed(cells: Seq<CellView>) -> Seq<CellView>
    decreases cells.len(),
{
    if cells.len() > 0 && cells.last().empty {
        trimmed(cells.drop_last())
    } else {
        cells
    }
}

/// The style of a run.
pub open spec fn run_style(run: RunView) -> (Rgb, Rgb, RunFlags) {
    (run.fg, run.bg, run.flags)
}

/// Cells as style runs: a cell extends the run before it when the styles are the
/// same, and starts a run of its own otherwise.
pub open spec fn runs_of(theme: TerminalTheme, cells: Seq<CellView>) -> Seq<RunView>
    decreases cells.len(),
{
    if cells.len() == 0 {
        Seq::empty()
    } else {
        let before = runs_of(theme, cells.drop_last());
        let cell = cells.last();
        let style = painted_style(theme, cell);
        if is_spacer(cell) {
            before
        } else if before.len() > 0 && run_style(before.last()) == style {
            before.drop_last().push(RunView { text: before.last().text + glyph(cell), ..before.last() })
        } else {
            before.push(
                RunView {
                    text: glyph(cell),
                    start_col: cells.len() - 1,
                    fg: style.0,
                    bg: style.1,
                    flags: style.2,
                },
            )
        }
    }
}

/// A row of cells as the renderer gets it.
pub open spec fn painted_line(theme: TerminalTheme, cells: Seq<CellView>) -> Seq<RunView> {
    runs_of(theme, trimmed(cells))
}

/// The cells of a line of the grid.
pub open spec fn grid_line(script: Seq<ScreenOp>, line: int) -> Seq<CellView> {
    Seq::new(screen_size(script).0 as nat, |column: int| grid_cell(script, line, column))
}

/// The cells of a visible row: history moves into view when scrolled back.
pub open spec fn visible_row(script: Seq<ScreenOp>, row: int) -> Seq<CellView> {
    grid_line(script, row - scrolled_back(script))
}

/// The title after a run of messages: the last one that speaks of it decides.
pub open spec fn title_after(title: Option<Seq<char>>, events: Seq<TermEvent>) -> Option<Seq<char>>
    decreases events.len(),
{
    if events.len() == 0 {
        title
    } else {
        match events.last() {
            TermEvent::Title(text) => Some(text@),
            TermEvent::ResetTitle => None,
            _ => title_after(title, events.drop_last()),
        }
    }
}

/// The bytes that a run of messages answers with.
pub open spec fn replies_of(events: Seq<TermEvent>) -> Seq<u8>
    decreases events.len(),
{
    if events.len() == 0 {
        Seq::empty()
    } else {
        match events.last() {
            TermEvent::PtyWrite(text) => replies_of(events.drop_last()) + vstd::utf8::encode_utf8(text@),
            _ => replies_of(events.drop_last()),
        }
    }
}

/// The script after feeding bytes: the view is pulled back to the oldest line
/// when it is left beyond it.
pub open spec fn after_feeding(script: Seq<ScreenOp>, bytes: Seq<u8>) -> Seq<ScreenOp> {
    settled(script.push(ScreenOp::Feed(bytes)))
}

/// A script whose view does not reach beyond the oldest line.
pub open spec fn settled(script: Seq<ScreenOp>) -> Seq<ScreenOp> {
    if scrolled_back(script) > history_len(script) {
        script.push(ScreenOp::Scroll(0))
    } else {
        script
    }
}

/// How much of a movement up the history leaves room for.
pub open spec fn reachable(script: Seq<ScreenOp>, delta: i32) -> i32 {
    if delta > history_len(script) - scrolled_back(script) {
        (history_len(script) - scrolled_back(script)) as i32
    } else {
        delta
    }
}

/// The row of the screen that the cursor is on, before clamping.
pub open spec fn cursor_row(script: Seq<ScreenOp>) -> int {
    grid_cursor(script).line + scrolled_back(script)
}

/// The cursor stands on the trailing half of a glyph of double width.
pub open spec fn on_spacer(script: Seq<ScreenOp>) -> bool {
    let (cols, rows) = screen_size(script);
    let cursor = grid_cursor(script);
    &&& 0 <= cursor.line < rows
    &&& cursor.column < cols
    &&& grid_cell(script, cursor.line as int, cursor.column as int).flags & WIDE_CHAR_SPACER == WIDE_CHAR_SPACER
}

/// The column that the cursor is drawn in, before clamping: a glyph of double width
/// has it on its leading half, as far as there is a column for that.
pub open spec fn cursor_column(script: Seq<ScreenOp>) -> int {
    if on_spacer(script) && grid_cursor(script).column > 0 {
        grid_cursor(script).column - 1
    } else {
        grid_cursor(script).column as int
    }
}

/// The cursor is not to be drawn, wherever it is.
pub open spec fn cursor_hidden(script: Seq<ScreenOp>) -> bool {
    mode_bits(script) & SHOW_CURSOR != SHOW_CURSOR || cursor_shapeless(script)
}

/// Where the renderer is told to draw the cursor.
pub open spec fn cursor_cell(script: Seq<ScreenOp>) -> CursorPos {
    let (cols, rows) = screen_size(script);
    CursorPos {
        line: (if cursor_row(script) < 0 {
            0
        } else if cursor_row(script) >= rows {
            rows - 1
        } else {
            cursor_row(script)
        }) as u16,
        col: (if cursor_column(script) >= cols {
            cols - 1
        } else {
            cursor_column(script)
        }) as u16,
    }
}

/// A snapshot shows what a script and a palette determine.
pub open spec fn shows(snapshot: TerminalSnapshot, script: Seq<ScreenOp>, theme: TerminalTheme) -> bool {
    let (cols, rows) = screen_size(script);
    &&& snapshot.cols == cols
    &&& snapshot.rows == rows
    &&& snapshot.lines@.len() == rows
    &&& forall|row: int|
        0 <= row < rows ==> (#[trigger] snapshot.lines@[row])@ == painted_line(theme, visible_row(script, row))
    &&& snapshot.cursor == cursor_cell(script)
    &&& snapshot.cursor_visible == (0 <= cursor_row(script) < rows && !cursor_hidden(script))
    &&& snapshot.display_offset == scrolled_back(script)
    &&& snapshot.total_scrollback == history_len(script)
}

/// A terminal screen fed by a byte stream.
pub struct TerminalModel {
    emulator: Emulator,
    theme: TerminalTheme,
    scrollback: usize,
    title: Option<String>,
    pty_output: Vec<u8>,
    narrow_only: bool,
    fed_end: Vec<u8>,
}

impl TerminalModel {
    /// What was done to the screen.
    pub closed spec fn script(self) -> Seq<ScreenOp> {
        script(self.emulator)
    }

    /// The palette in use.
    pub closed spec fn palette(self) -> TerminalTheme {
        self.theme
    }

    /// The window title.
    pub closed spec fn title_text(self) -> Option<Seq<char>> {
        match self.title {
            Some(title) => Some(title@),
            None => None,
        }
    }

    /// The bytes that wait to be sent back.
    pub closed spec fn replies(self) -> Seq<u8> {
        self.pty_output@
    }

    /// Lines of history that the screen keeps at most.
    pub closed spec fn limit(self) -> usize {
        self.scrollback
    }

    /// The size of the screen.
    pub open spec fn dimensions(self) -> (u16, u16) {
        screen_size(self.script())
    }

    /// What holds between any two calls: the screen has a cell, the view does not
    /// reach beyond the oldest line, and every glyph fits.
    pub closed spec fn wf(self) -> bool {
        &&& self.script().len() > 0
        &&& self.script()[0] matches ScreenOp::Open { scrollback, .. }
        &&& scrollback == self.scrollback
        &&& self.scrollback <= i32::MAX
        &&& self.dimensions().0 >= 1
        &&& self.dimensions().1 >= 1
        &&& scrolled_back(self.script()) <= history_len(self.script())
        &&& pending(self.emulator).len() == 0
        &&& glyphs_fit(self.script())
        &&& self.narrow_only == is_narrow(fed_bytes(self.script()))
        &&& self.fed_end@ == ending(fed_bytes(self.script()))
    }

    /// The bytes can be fed: a glyph of double width needs two columns, and may have
    /// begun in what was fed before.
    pub open spec fn takes(self, bytes: Seq<u8>) -> bool {
        self.dimensions().0 >= 2 || is_narrow(fed_bytes(self.script()) + bytes)
    }

    /// The screen can become `cols` columns wide.
    pub open spec fn fits(self, cols: u16) -> bool {
        cols >= 2 || is_narrow(fed_bytes(self.script()))
    }

    /// The screen was opened and nothing was done to it since: nothing is shown,
    /// no mode is on, and no escape sequence is half read.
    pub open spec fn is_fresh(self) -> bool {
        &&& self.script() == seq![
            ScreenOp::Open { cols: self.dimensions().0, rows: self.dimensions().1, scrollback: self.limit() },
        ]
        &&& scrolled_back(self.script()) == 0
        &&& history_len(self.script()) == 0
        &&& forall|row: int|
            0 <= row < self.dimensions().1 ==> #[trigger] painted_line(
                self.palette(),
                visible_row(self.script(), row),
            ).len() == 0
        &&& cursor_cell(self.script()) == (CursorPos { line: 0, col: 0 })
        &&& !cursor_hidden(self.script())
        &&& modes_of(mode_bits(self.script())) == (TermModes {
            app_cursor: false,
            app_keypad: false,
            bracketed_paste: false,
        })
        &&& self.title_text() is None
        &&& self.replies() == Seq::<u8>::empty()
    }

    /// Create a terminal of `cols` x `rows` cells with `scrollback` lines of
    /// history.
    ///
    /// Both dimensions are clamped to at least one cell. Lines are numbered in 31
    /// bits, so the history is clamped to as many.
    pub fn new(cols: u16, rows: u16, scrollback: usize, theme: TerminalTheme) -> (model: TerminalModel)
        ensures
            model.wf(),
            model.dimensions() == (at_least_one(cols), at_least_one(rows)),
            model.limit() == history_limit(scrollback as int),
            model.palette() == theme,
            model.is_fresh(),
            fed_bytes(model.script()).len() == 0,
    {
        let cols: u16 = if cols < 1 { 1 } else { cols };
        let rows: u16 = if rows < 1 { 1 } else { rows };
        let scrollback: usize = if scrollback > MAX_HISTORY { MAX_HISTORY } else { scrollback };
        let emulator = build_emulator(cols, rows, scrollback);
        let model = TerminalModel {
            emulator,
            theme,
            scrollback,
            title: None,
            pty_output: Vec::new(),
            narrow_only: true,
            fed_end: Vec::new(),
        };
        proof {
            lemma_fresh_screen(script(model.emulator), cols, rows, scrollback, theme);
        }
        model
    }

    /// Feed raw bytes coming from the remote shell into the parser.
    pub fn feed(&mut self, bytes: &[u8])
        requires
            old(self).wf(),
            old(self).takes(bytes@),
        ensures
            final(self).wf(),
            final(self).script() == after_feeding(old(self).script(), bytes@),
            final(self).title_text() == title_after(
                old(self).title_text(),
                emitted(old(self).script(), bytes@),
            ),
            final(self).replies() == old(self).replies() + replies_of(emitted(old(self).script(), bytes@)),
            final(self).dimensions() == old(self).dimensions(),
            final(self).palette() == old(self).palette(),
            final(self).limit() == old(self).limit(),
            fed_bytes(final(self).script()) == fed_bytes(old(self).script()) + bytes@,
    {
        let mut near = self.fed_end.clone();
        append_bytes(&mut near, bytes);
        let narrow = self.narrow_only && all_narrow(&near);
        let fed_end = take_ending(&near);
        let ghost before = script(self.emulator);
        let ghost fed = before.push(ScreenOp::Feed(bytes@));
        proof {
            lemma_push(before, ScreenOp::Feed(bytes@));
            lemma_joined(fed_bytes(before), bytes@);
        }
        self.emulator.advance(bytes);
        self.narrow_only = narrow;
        self.fed_end = fed_end;
        assert(pending(self.emulator) =~= emitted(before, bytes@));
        self.drain();
        if self.emulator.display_offset() > self.emulator.history_size() {
            proof {
                lemma_push(fed, ScreenOp::Scroll(0));
            }
            let ghost title = self.title_text();
            let ghost replies = self.replies();
            self.emulator.scroll(0);
            assert(pending(self.emulator) =~= pending_other());
            self.drain();
            proof {
                lemma_quiet(title, pending_other());
                assert(self.replies() =~= replies);
            }
        }
    }

    /// Take every message that is waiting: titles are kept, answers are queued.
    fn drain(&mut self)
        ensures
            script(final(self).emulator) == script(old(self).emulator),
            pending(final(self).emulator).len() == 0,
            final(self).title_text() == title_after(old(self).title_text(), pending(old(self).emulator)),
            final(self).pty_output@ == old(self).pty_output@ + replies_of(pending(old(self).emulator)),
            final(self).theme == old(self).theme,
            final(self).scrollback == old(self).scrollback,
            final(self).narrow_only == old(self).narrow_only,
            final(self).fed_end == old(self).fed_end,
    {
        let ghost events = pending(self.emulator);
        let ghost mut taken: int = 0;
        let ghost title = self.title_text();
        let ghost replies = self.pty_output@;
        proof {
            assert(events.take(0).len() == 0);
            assert(events.skip(0) =~= events);
            assert(replies + replies_of(events.take(0)) =~= replies);
        }
        loop
            invariant
                0 <= taken <= events.len(),
                pending(self.emulator) == events.skip(taken),
                script(self.emulator) == script(old(self).emulator),
                self.title_text() == title_after(title, events.take(taken)),
                self.pty_output@ == replies + replies_of(events.take(taken)),
                self.theme == old(self).theme,
                self.scrollback == old(self).scrollback,
                self.narrow_only == old(self).narrow_only,
                self.fed_end == old(self).fed_end,
            ensures
                taken == events.len(),
                pending(self.emulator).len() == 0,
            decreases events.len() - taken,
        {
            let event = self.emulator.next_event();
            match event {
                None => {
                    break;
                },
                Some(event) => {
                    proof {
                        assert(event == events[taken]);
                        assert(events.skip(taken).skip(1) =~= events.skip(taken + 1));
                        assert(events.take(taken + 1).drop_last() =~= events.take(taken));
                        assert(events.take(taken + 1).last() == event);
                        taken = taken + 1;
                    }
                    match event {
                        TermEvent::Title(title) => {
                            self.title = Some(title);
                        },
                        TermEvent::ResetTitle => {
                            self.title = None;
                        },
                        TermEvent::PtyWrite(text) => {
                            let ghost queued = self.pty_output@;
                            append_bytes(&mut self.pty_output, text.as_str().as_bytes());
                            proof {
                                assert(self.pty_output@ =~= replies + replies_of(events.take(taken)));
                            }
                        },
                        TermEvent::Other => {},
                    }
                },
            }
        }
        proof {
            assert(events.take(taken) =~= events);
        }
    }

    /// Resize the terminal, clamping both dimensions to at least one cell.
    pub fn resize(&mut self, cols: u16, rows: u16)
        requires
            old(self).wf(),
            old(self).fits(cols),
        ensures
            final(self).wf(),
            final(self).dimensions() == (at_least_one(cols), at_least_one(rows)),
            final(self).script() == if old(self).dimensions() == (at_least_one(cols), at_least_one(rows)) {
                old(self).script()
            } else {
                settled(
                    old(self).script().push(
                        ScreenOp::Resize { cols: at_least_one(cols), rows: at_least_one(rows) },
                    ),
                )
            },
            final(self).title_text() == old(self).title_text(),
            final(self).replies() == old(self).replies(),
            final(self).palette() == old(self).palette(),
            final(self).limit() == old(self).limit(),
            fed_bytes(final(self).script()) == fed_bytes(old(self).script()),
    {
        let cols: u16 = if cols < 1 { 1 } else { cols };
        let rows: u16 = if rows < 1 { 1 } else { rows };
        let size = self.size();
        if size.0 == cols && size.1 == rows {
            return ;
        }
        let ghost op = ScreenOp::Resize { cols, rows };
        let ghost resized = script(self.emulator).push(op);
        proof {
            lemma_push(script(self.emulator), op);
        }
        self.emulator.resize(TermDimensions::new(cols, rows, self.scrollback));
        if self.emulator.display_offset() > self.emulator.history_size() {
            proof {
                lemma_push(resized, ScreenOp::Scroll(0));
            }
            let ghost title = self.title_text();
            let ghost replies = self.replies();
            self.emulator.scroll(0);
            assert(pending(self.emulator) =~= pending_other());
            self.drain();
            proof {
                lemma_quiet(title, pending_other());
                assert(self.replies() =~= replies);
            }
        }
    }

    /// Current size as `(cols, rows)`.
    pub fn size(&self) -> (size: (u16, u16))
        ensures
            size == self.dimensions(),
            self.wf() ==> size.0 >= 1 && size.1 >= 1,
    {
        (self.emulator.columns() as u16, self.emulator.screen_lines() as u16)
    }

    /// Whether the bytes can be fed: a glyph of double width needs two columns.
    pub fn can_take(&self, bytes: &[u8]) -> (can: bool)
        requires
            self.wf(),
        ensures
            can == self.takes(bytes@),
    {
        if self.emulator.columns() >= 2 {
            return true;
        }
        let mut near = self.fed_end.clone();
        append_bytes(&mut near, bytes);
        proof {
            lemma_joined(fed_bytes(self.script()), bytes@);
        }
        self.narrow_only && all_narrow(&near)
    }

    /// Whether the screen can become `cols` columns wide.
    pub fn can_fit(&self, cols: u16) -> (can: bool)
        requires
            self.wf(),
        ensures
            can == self.fits(cols),
    {
        cols >= 2 || self.narrow_only
    }

    /// Build an immutable view of the visible screen for the renderer.
    pub fn snapshot(&self) -> (snapshot: TerminalSnapshot)
        requires
            self.wf(),
        ensures
            shows(snapshot, self.script(), self.palette()),
    {
        let cols: usize = self.emulator.columns();
        let rows: usize = self.emulator.screen_lines();
        let display_offset: usize = self.emulator.display_offset();
        let total_scrollback: usize = self.emulator.history_size();
        let ghost ops = self.script();

        let mut lines: Vec<TerminalLine> = Vec::with_capacity(rows);
        let mut row: usize = 0;
        while row < rows
            invariant
                self.wf(),
                ops == self.script(),
                cols == screen_size(ops).0,
                rows == screen_size(ops).1,
                display_offset == scrolled_back(ops),
                display_offset <= self.scrollback,
                row <= rows,
                lines@.len() == row,
                forall|r: int|
                    0 <= r < row ==> (#[trigger] lines@[r])@ == painted_line(self.palette(), visible_row(ops, r)),
            decreases rows - row,
        {
            let line: i32 = row as i32 - display_offset as i32;
            let cells = self.read_line(line, cols);
            let ghost views = Seq::new(cells@.len(), |i: int| cells@[i]@);
            proof {
                assert(views =~= visible_row(ops, row as int));
            }
            lines.push(build_line(&self.theme, &cells));
            row += 1;
        }

        let cursor = self.emulator.cursor();
        let cursor_row: i64 = cursor.line as i64 + display_offset as i64;
        let cursor_in_view = cursor_row >= 0 && cursor_row < rows as i64;
        let cursor_line: u16 = if cursor_row < 0 {
            0
        } else if cursor_row >= rows as i64 {
            (rows - 1) as u16
        } else {
            cursor_row as u16
        };
        let on_spacer = cursor.line >= 0 && cursor.line < rows as i32 && cursor.column < cols && self.emulator.cell(
            cursor.line,
            cursor.column,
        ).flags & WIDE_CHAR_SPACER == WIDE_CHAR_SPACER;
        let column: usize = if on_spacer && cursor.column > 0 { cursor.column - 1 } else { cursor.column };
        let cursor_col: u16 = if column >= cols { (cols - 1) as u16 } else { column as u16 };
        let shown = self.emulator.mode() & SHOW_CURSOR == SHOW_CURSOR && !self.emulator.is_cursor_shapeless();

        TerminalSnapshot {
            cols: cols as u16,
            rows: rows as u16,
            lines,
            cursor: CursorPos { line: cursor_line, col: cursor_col },
            cursor_visible: cursor_in_view && shown,
            display_offset,
            total_scrollback,
        }
    }

    /// Read the cells of a line of the grid.
    fn read_line(&self, line: i32, cols: usize) -> (cells: Vec<GridCellValue>)
        requires
            cols == screen_size(self.script()).0,
            -history_len(self.script()) <= line < screen_size(self.script()).1,
        ensures
            cells@.len() == cols,
            forall|i: int|
                0 <= i < cols ==> {
                    &&& (#[trigger] cells@[i])@ == grid_cell(self.script(), line as int, i)
                    &&& known_color(cells@[i].fg)
                    &&& known_color(cells@[i].bg)
                },
    {
        let mut cells: Vec<GridCellValue> = Vec::with_capacity(cols);
        let mut col: usize = 0;
        while col < cols
            invariant
                cols == screen_size(self.script()).0,
                -history_len(self.script()) <= line < screen_size(self.script()).1,
                col <= cols,
                cells@.len() == col,
                forall|i: int|
                    0 <= i < col ==> {
                        &&& (#[trigger] cells@[i])@ == grid_cell(self.script(), line as int, i)
                        &&& known_color(cells@[i].fg)
                        &&& known_color(cells@[i].bg)
                    },
            decreases cols - col,
        {
            cells.push(self.emulator.cell(line, col));
            col += 1;
        }
        cells
    }

    /// Scroll the viewport; positive values move up into the scrollback.
    pub fn scroll_lines(&mut self, delta: i32)
        requires
            old(self).wf(),
        ensures
            final(self).wf(),
            final(self).script() == old(self).script().push(
                ScreenOp::Scroll(reachable(old(self).script(), delta)),
            ),
            same_grid(old(self).script(), final(self).script()),
            scrolled_back(final(self).script()) == clamped_offset(
                scrolled_back(old(self).script()),
                delta as int,
                history_len(old(self).script()),
            ),
            final(self).dimensions() == old(self).dimensions(),
            final(self).title_text() == old(self).title_text(),
            final(self).replies() == old(self).replies(),
            final(self).palette() == old(self).palette(),
            final(self).limit() == old(self).limit(),
            fed_bytes(final(self).script()) == fed_bytes(old(self).script()),
    {
        let offset: usize = self.emulator.display_offset();
        let history: usize = self.emulator.history_size();
        // The oldest line is as far as any delta reaches.
        let room: i32 = (history - offset) as i32;
        let delta: i32 = if delta > room { room } else { delta };
        proof {
            lemma_push(script(self.emulator), ScreenOp::Scroll(delta));
        }
        let ghost title = self.title_text();
        let ghost replies = self.replies();
        self.emulator.scroll(delta);
        assert(pending(self.emulator) =~= pending_other());
        self.drain();
        proof {
            lemma_quiet(title, pending_other());
            assert(self.replies() =~= replies);
        }
    }

    /// Jump back to the bottom of the scrollback.
    pub fn scroll_to_bottom(&mut self)
        requires
            old(self).wf(),
        ensures
            final(self).wf(),
            final(self).script() == old(self).script().push(ScreenOp::Bottom),
            same_grid(old(self).script(), final(self).script()),
            scrolled_back(final(self).script()) == 0,
            final(self).dimensions() == old(self).dimensions(),
            final(self).title_text() == old(self).title_text(),
            final(self).replies() == old(self).replies(),
            final(self).palette() == old(self).palette(),
            final(self).limit() == old(self).limit(),
            fed_bytes(final(self).script()) == fed_bytes(old(self).script()),
    {
        proof {
            lemma_push(script(self.emulator), ScreenOp::Bottom);
        }
        let ghost title = self.title_text();
        let ghost replies = self.replies();
        self.emulator.scroll_to_bottom();
        assert(pending(self.emulator) =~= pending_other());
        self.drain();
        proof {
            lemma_quiet(title, pending_other());
            assert(self.replies() =~= replies);
        }
    }

    /// Replace the color palette. Existing content is re-colored on the next
    /// [`TerminalModel::snapshot`].
    pub fn set_theme(&mut self, theme: TerminalTheme)
        requires
            old(self).wf(),
        ensures
            final(self).wf(),
            final(self).palette() == theme,
            final(self).script() == old(self).script(),
            final(self).title_text() == old(self).title_text(),
            final(self).replies() == old(self).replies(),
            final(self).limit() == old(self).limit(),
    {
        self.theme = theme;
    }

    /// The palette currently in use.
    pub fn theme(&self) -> (theme: &TerminalTheme)
        ensures
            *theme == self.palette(),
    {
        &self.theme
    }

    /// Window title set by the remote side, if any.
    pub fn title(&self) -> (title: Option<&str>)
        ensures
            match title {
                Some(title) => self.title_text() == Some(title@),
                None => self.title_text() is None,
            },
    {
        match &self.title {
            Some(title) => Some(title.as_str()),
            None => None,
        }
    }

    /// Terminal modes relevant for key encoding.
    pub fn modes(&self) -> (modes: TermModes)
        ensures
            modes == modes_of(mode_bits(self.script())),
    {
        let bits: u32 = self.emulator.mode();
        TermModes {
            app_cursor: bits & APP_CURSOR == APP_CURSOR,
            app_keypad: bits & APP_KEYPAD == APP_KEYPAD,
            bracketed_paste: bits & BRACKETED_PASTE == BRACKETED_PASTE,
        }
    }

    /// Take the bytes the terminal wants to send back to the remote side.
    ///
    /// Some escape sequences expect an answer on the same channel; the caller is
    /// responsible for writing it. Empty when there is nothing to send.
    pub fn take_pty_output(&mut self) -> (bytes: Vec<u8>)
        requires
            old(self).wf(),
        ensures
            bytes@ == old(self).replies(),
            final(self).replies() == Seq::<u8>::empty(),
            final(self).wf(),
            final(self).script() == old(self).script(),
            final(self).title_text() == old(self).title_text(),
            final(self).palette() == old(self).palette(),
            final(self).limit() == old(self).limit(),
    {
        let mut bytes: Vec<u8> = Vec::new();
        core::mem::swap(&mut bytes, &mut self.pty_output);
        bytes
    }

    /// Reset the terminal to its initial state, dropping screen, scrollback,
    /// title and any half-parsed escape sequence.
    pub fn reset(&mut self)
        requires
            old(self).wf(),
        ensures
            final(self).wf(),
            final(self).is_fresh(),
            final(self).dimensions() == old(self).dimensions(),
            final(self).palette() == old(self).palette(),
            final(self).limit() == old(self).limit(),
            fed_bytes(final(self).script()).len() == 0,
    {
        let size = self.size();
        self.emulator = build_emulator(size.0, size.1, self.scrollback);
        self.title = None;
        self.pty_output = Vec::new();
        self.narrow_only = true;
        self.fed_end = Vec::new();
        proof {
            lemma_fresh_screen(script(self.emulator), size.0, size.1, self.scrollback, self.theme);
        }
    }
}

/// Most lines of history that can be numbered.
pub const MAX_HISTORY: usize = 0x7fff_ffff;

/// How many lines of history are kept when so many are asked for.
pub open spec fn history_limit(lines: int) -> int {
    if lines > MAX_HISTORY {
        MAX_HISTORY as int
    } else {
        lines
    }
}

/// A dimension of at least one cell.
pub open spec fn at_least_one(n: u16) -> u16 {
    if n < 1 {
        1
    } else {
        n
    }
}

/// The queue that a change of the view leaves.
spec fn pending_other() -> Seq<TermEvent> {
    seq![TermEvent::Other]
}

fn build_emulator(cols: u16, rows: u16, scrollback: usize) -> (emulator: Emulator)
    requires
        cols >= 1,
        rows >= 1,
        scrollback <= i32::MAX,
    ensures
        script(emulator) == seq![ScreenOp::Open { cols, rows, scrollback }],
        pending(emulator).len() == 0,
        scrolled_back(script(emulator)) == 0,
        history_len(script(emulator)) == 0,
        forall|line: int, column: int|
            0 <= line < rows && 0 <= column < cols ==> #[trigger] grid_cell(script(emulator), line, column)
                == blank_cell(),
        grid_cursor(script(emulator)) == (crate::term::emulator::GridCursor { line: 0, column: 0 }),
        !cursor_shapeless(script(emulator)),
        mode_bits(script(emulator)) == 0x28081,
{
    Emulator::open(TermDimensions::new(cols, rows, scrollback), scrollback)
}

/// Append bytes to a queue.
fn append_bytes(queue: &mut Vec<u8>, bytes: &[u8])
    ensures
        final(queue)@ == old(queue)@ + bytes@,
{
    let mut i: usize = 0;
    while i < bytes.len()
        invariant
            i <= bytes@.len(),
            queue@ == old(queue)@ + bytes@.take(i as int),
        decreases bytes@.len() - i,
    {
        queue.push(bytes[i]);
        proof {
            assert(bytes@.take(i + 1) =~= bytes@.take(i as int).push(bytes@[i as int]));
            assert(queue@ =~= old(queue)@ + bytes@.take(i + 1));
        }
        i += 1;
    }
    proof {
        assert(bytes@.take(i as int) =~= bytes@);
    }
}

/// Turn a row of cells into style runs.
pub fn build_line(theme: &TerminalTheme, row: &Vec<GridCellValue>) -> (line: TerminalLine)
    requires
        row@.len() <= u16::MAX,
        forall|i: int| 0 <= i < row@.len() ==> known_color((#[trigger] row@[i]).fg) && known_color(row@[i].bg),
    ensures
        line@ == painted_line(*theme, Seq::new(row@.len(), |i: int| row@[i]@)),
{
    let ghost cells = Seq::new(row@.len(), |i: int| row@[i]@);
    // Drop trailing cells that render as blank default background so that an
    // untouched row produces no runs at all.
    let mut len: usize = row.len();
    proof {
        assert(cells.take(len as int) =~= cells);
    }
    while len > 0 && row[len - 1].empty
        invariant
            len <= row@.len(),
            cells == Seq::new(row@.len(), |i: int| row@[i]@),
            trimmed(cells.take(len as int)) == trimmed(cells),
        decreases len,
    {
        proof {
            assert(cells.take(len as int).drop_last() =~= cells.take(len - 1));
            assert(cells.take(len as int).last() == row@[len - 1]@);
        }
        len -= 1;
    }
    proof {
        if len > 0 {
            assert(cells.take(len as int).last() == row@[len - 1]@);
        }
        assert(trimmed(cells) == cells.take(len as int));
    }

    let mut runs: Vec<StyledRun> = Vec::new();
    let mut col: usize = 0;
    proof {
        assert(line_view(runs@) =~= runs_of(*theme, cells.take(0)));
    }
    while col < len
        invariant
            col <= len <= row@.len() <= u16::MAX,
            cells == Seq::new(row@.len(), |i: int| row@[i]@),
            forall|i: int| 0 <= i < row@.len() ==> known_color((#[trigger] row@[i]).fg) && known_color(row@[i].bg),
            line_view(runs@) == runs_of(*theme, cells.take(col as int)),
        decreases len - col,
    {
        let cell = &row[col];
        proof {
            assert(cells.take(col + 1).drop_last() =~= cells.take(col as int));
            assert(cells.take(col + 1).last() == cell@);
        }
        // The trailing half of a double width character carries no glyph of its
        // own; skipping it keeps the column alignment intact.
        if cell.flags & WIDE_CHAR_SPACER == WIDE_CHAR_SPACER {
            col += 1;
            continue ;
        }
        let (fg, bg, flags) = cell_style(theme, cell);
        let ghost before = line_view(runs@);
        let extends = match runs.last() {
            Some(run) => run.fg == fg && run.bg == bg && run.flags == flags,
            None => false,
        };
        if extends {
            let last = runs.pop();
            match last {
                Some(mut run) => {
                    push_cell(&mut run.text, cell);
                    runs.push(run);
                },
                None => {},
            }
            proof {
                assert(line_view(runs@) =~= runs_of(*theme, cells.take(col + 1)));
            }
        } else {
            let mut text = String::new();
            push_cell(&mut text, cell);
            assert(text@ =~= glyph(cell@));
            runs.push(StyledRun { text, start_col: col as u16, fg, bg, flags });
            proof {
                assert(line_view(runs@) =~= runs_of(*theme, cells.take(col + 1)));
            }
        }
        col += 1;
    }
    let line = TerminalLine { runs };
    proof {
        assert(line@ =~= line_view(line.runs@));
    }
    line
}

/// The views of a sequence of runs.
spec fn line_view(runs: Seq<StyledRun>) -> Seq<RunView> {
    Seq::new(runs.len(), |i: int| runs[i]@)
}

/// Resolve the final colors and attributes of a single cell.
fn cell_style(theme: &TerminalTheme, cell: &GridCellValue) -> (style: (Rgb, Rgb, RunFlags))
    requires
        known_color(cell.fg),
        known_color(cell.bg),
    ensures
        style == painted_style(*theme, cell@),
{
    let flags = run_flags(cell.flags);
    let mut fg = theme.resolve(to_palette(cell.fg), true, flags);
    let mut bg = theme.resolve(to_palette(cell.bg), false, flags);

    if flags.contains(RunFlags::inverse()) {
        core::mem::swap(&mut fg, &mut bg);
    }
    if flags.contains(RunFlags::hidden()) {
        fg = bg;
    }
    (fg, bg, flags)
}

/// Append a cell's glyph plus any combining marks to `text`.
fn push_cell(text: &mut String, cell: &GridCellValue)
    ensures
        final(text)@ == old(text)@ + glyph(cell@),
{
    text.push(cell.c);
    let mut i: usize = 0;
    proof {
        assert(text@ =~= old(text)@ + (seq![cell.c] + cell.zerowidth@.take(0)));
    }
    while i < cell.zerowidth.len()
        invariant
            i <= cell.zerowidth@.len(),
            text@ == old(text)@ + (seq![cell.c] + cell.zerowidth@.take(i as int)),
        decreases cell.zerowidth@.len() - i,
    {
        text.push(cell.zerowidth[i]);
        proof {
            assert(text@ =~= old(text)@ + (seq![cell.c] + cell.zerowidth@.take(i + 1)));
        }
        i += 1;
    }
    proof {
        assert(cell.zerowidth@.take(i as int) =~= cell.zerowidth@);
    }
}

/// Translate a cell's attribute bits into renderer facing attributes.
fn run_flags(bits: u16) -> (flags: RunFlags)
    ensures
        flags == flags_of(bits),
{
    let mut out = RunFlags::empty();
    out.set(RunFlags::bold(), bits & BOLD == BOLD);
    out.set(RunFlags::italic(), bits & ITALIC == ITALIC);
    out.set(RunFlags::underline(), bits & ALL_UNDERLINES != 0);
    out.set(RunFlags::strikeout(), bits & STRIKEOUT == STRIKEOUT);
    out.set(RunFlags::inverse(), bits & INVERSE == INVERSE);
    out.set(RunFlags::dim(), bits & DIM == DIM);
    out.set(RunFlags::hidden(), bits & HIDDEN == HIDDEN);
    out
}

/// What one more step does to a script's size, limit and bytes.
proof fn lemma_push(ops: Seq<ScreenOp>, op: ScreenOp)
    requires
        ops.len() > 0,
        op !is Open,
    ensures
        ops.push(op).first() == ops.first(),
        screen_size(ops.push(op)) == match op {
            ScreenOp::Resize { cols, rows } => (cols, rows),
            _ => screen_size(ops),
        },
        fed_bytes(ops.push(op)) == match op {
            ScreenOp::Feed(bytes) => fed_bytes(ops) + bytes,
            _ => fed_bytes(ops),
        },
{
    assert(ops.push(op).drop_last() =~= ops);
    assert(ops.push(op).last() == op);
}

/// Messages of no interest change neither the title nor the answers.
proof fn lemma_quiet(title: Option<Seq<char>>, events: Seq<TermEvent>)
    requires
        forall|i: int| 0 <= i < events.len() ==> #[trigger] events[i] is Other,
    ensures
        title_after(title, events) == title,
        replies_of(events) == Seq::<u8>::empty(),
    decreases events.len(),
{
    if events.len() > 0 {
        lemma_quiet(title, events.drop_last());
    }
}

/// A row of empty cells is trimmed away.
proof fn lemma_empty_row(cells: Seq<CellView>)
    requires
        forall|i: int| 0 <= i < cells.len() ==> (#[trigger] cells[i]).empty,
    ensures
        trimmed(cells).len() == 0,
    decreases cells.len(),
{
    if cells.len() > 0 {
        lemma_empty_row(cells.drop_last());
    }
}

/// What a screen that was just opened looks like.
proof fn lemma_fresh_screen(ops: Seq<ScreenOp>, cols: u16, rows: u16, scrollback: usize, theme: TerminalTheme)
    requires
        cols >= 1,
        rows >= 1,
        ops == seq![ScreenOp::Open { cols, rows, scrollback }],
        scrolled_back(ops) == 0,
        forall|line: int, column: int|
            0 <= line < rows && 0 <= column < cols ==> #[trigger] grid_cell(ops, line, column) == blank_cell(),
        mode_bits(ops) == 0x28081,
        !cursor_shapeless(ops),
    ensures
        ops.len() == 1,
        ops.first() == (ScreenOp::Open { cols, rows, scrollback }),
        screen_size(ops) == (cols, rows),
        fed_bytes(ops) == Seq::<u8>::empty(),
        !cursor_hidden(ops),
        forall|row: int|
            0 <= row < rows ==> #[trigger] painted_line(theme, visible_row(ops, row)).len() == 0,
        modes_of(mode_bits(ops)) == (TermModes { app_cursor: false, app_keypad: false, bracketed_paste: false }),
{
    assert(ops.last() == ops[0]);
    assert(ops.drop_last().len() == 0);
    reveal_with_fuel(fed_bytes, 2);
    assert forall|row: int| 0 <= row < rows implies #[trigger] painted_line(
        theme,
        visible_row(ops, row),
    ).len() == 0 by {
        lemma_empty_row(visible_row(ops, row));
    }
    assert(0x28081u32 & 0x0001 == 0x0001 && 0x28081u32 & 0x0002 != 0x0002 && 0x28081u32 & 0x0004 != 0x0004
        && 0x28081u32 & 0x0010 != 0x0010) by (bit_vector);
}

/// A run's text is what its cells show: nothing is lost and nothing is added
/// when cells are merged.
pub open spec fn shown_text(cells: Seq<CellView>) -> Seq<char>
    decreases cells.len(),
{
    if cells.len() == 0 {
        Seq::empty()
    } else if is_spacer(cells.last()) {
        shown_text(cells.drop_last())
    } else {
        shown_text(cells.drop_last()) + glyph(cells.last())
    }
}

/// The text of a line is the text of its cells, in order, without the trailing
/// halves of wide glyphs.
pub proof fn line_keeps_the_text_of_its_cells(theme: TerminalTheme, cells: Seq<CellView>)
    ensures
        line_text(runs_of(theme, cells)) == shown_text(cells),
    decreases cells.len(),
{
    if cells.len() > 0 {
        line_keeps_the_text_of_its_cells(theme, cells.drop_last());
        let before = runs_of(theme, cells.drop_last());
        let runs = runs_of(theme, cells);
        if !is_spacer(cells.last()) {
            if before.len() > 0 && run_style(before.last()) == painted_style(theme, cells.last()) {
                assert(runs.drop_last() =~= before.drop_last());
                assert(line_text(runs) =~= line_text(before) + glyph(cells.last()));
            } else {
                assert(runs.drop_last() =~= before);
            }
        }
    }
}

/// Equal styles never stand next to each other: they are merged into one run.
/// Runs start at growing columns inside the row, and none is without text.
pub proof fn runs_are_merged_and_ordered(theme: TerminalTheme, cells: Seq<CellView>)
    ensures
        forall|i: int|
            0 <= i < runs_of(theme, cells).len() - 1 ==> run_style(#[trigger] runs_of(theme, cells)[i]) != run_style(
                runs_of(theme, cells)[i + 1],
            ),
        forall|i: int, j: int|
            0 <= i < j < runs_of(theme, cells).len() ==> (#[trigger] runs_of(theme, cells)[i]).start_col < (
            #[trigger] runs_of(theme, cells)[j]).start_col,
        forall|i: int|
            0 <= i < runs_of(theme, cells).len() ==> 0 <= (#[trigger] runs_of(theme, cells)[i]).start_col
                < cells.len() && runs_of(theme, cells)[i].text.len() > 0,
    decreases cells.len(),
{
    if cells.len() > 0 {
        runs_are_merged_and_ordered(theme, cells.drop_last());
        let before = runs_of(theme, cells.drop_last());
        let runs = runs_of(theme, cells);
        let style = painted_style(theme, cells.last());
        if !is_spacer(cells.last()) && before.len() > 0 && run_style(before.last()) == style {
            let last = before.len() - 1;
            assert(forall|i: int| 0 <= i < last ==> runs[i] == before[i]);
            assert(run_style(runs[last]) == run_style(before[last]));
            assert(runs[last].start_col == before[last].start_col);
        }
    }
}

/// A row of empty cells paints nothing.
pub proof fn untouched_rows_paint_nothing(theme: TerminalTheme, cells: Seq<CellView>)
    requires
        forall|i: int| 0 <= i < cells.len() ==> (#[trigger] cells[i]).empty,
    ensures
        painted_line(theme, cells).len() == 0,
{
    lemma_empty_row(cells);
}

/// Scrolling back by `n` lines moves every row that stays in view `n` rows down.
pub proof fn scrolling_back_moves_rows_down(before: Seq<ScreenOp>, after: Seq<ScreenOp>, n: nat, row: int)
    requires
        same_grid(before, after),
        screen_size(before) == screen_size(after),
        scrolled_back(after) == scrolled_back(before) + n,
    ensures
        visible_row(after, row + n) == visible_row(before, row),
{
    assert(visible_row(after, row + n) =~= visible_row(before, row));
}

/// Inverse video shows the same two colors, changed round, unless the text is
/// hidden; hidden text has the color of its background.
pub proof fn inverse_swaps_and_hidden_hides(theme: TerminalTheme, cell: CellView)
    ensures
        ({
            let flags = flags_of(cell.flags);
            let text = resolved(theme, palette_color(cell.fg), true, flags);
            let back = resolved(theme, palette_color(cell.bg), false, flags);
            let style = painted_style(theme, cell);
            &&& flags.inverse && !flags.hidden ==> style.0 == back && style.1 == text
            &&& !flags.inverse && !flags.hidden ==> style.0 == text && style.1 == back
            &&& flags.hidden ==> style.0 == style.1
        }),
{
}

/// A terminal that was reset cannot be told from one of that size and depth that
/// was just created, however it came to be reset: whatever is done to both from
/// then on shows the same.
pub proof fn a_reset_leaves_no_trace(reset: TerminalModel, new: TerminalModel)
    requires
        reset.is_fresh(),
        new.is_fresh(),
        reset.dimensions() == new.dimensions(),
        reset.limit() == new.limit(),
    ensures
        reset.script() == new.script(),
        reset.title_text() == new.title_text(),
        reset.replies() == new.replies(),
{
}

/// Messages taken in two goes leave the title that all of them together leave.
pub proof fn titles_add_up(title: Option<Seq<char>>, a: Seq<TermEvent>, b: Seq<TermEvent>)
    ensures
        title_after(title, a + b) == title_after(title_after(title, a), b),
        replies_of(a + b) == replies_of(a) + replies_of(b),
    decreases b.len(),
{
    if b.len() == 0 {
        assert(a + b =~= a);
        assert(replies_of(a) + replies_of(b) =~= replies_of(a));
    } else {
        assert((a + b).drop_last() =~= a + b.drop_last());
        titles_add_up(title, a, b.drop_last());
        assert(replies_of(a + b) =~= replies_of(a) + replies_of(b));
    }
}

/// The bits of a cell mean what the emulator sets them for.
pub proof fn cell_bits_are_those_of_the_emulator(bits: u16)
    ensures
        flags_of(bits).inverse == (bits & 0x0001 == 0x0001),
        flags_of(bits).bold == (bits & 0x0002 == 0x0002),
        flags_of(bits).italic == (bits & 0x0004 == 0x0004),
        flags_of(bits).underline == (bits & 0x7808 != 0),
        flags_of(bits).dim == (bits & 0x0080 == 0x0080),
        flags_of(bits).hidden == (bits & 0x0100 == 0x0100),
        flags_of(bits).strikeout == (bits & 0x0200 == 0x0200),
{
}

/// The bits of the modes mean what the emulator sets them for.
pub proof fn mode_bits_are_those_of_the_emulator(bits: u32)
    ensures
        modes_of(bits).app_cursor == (bits & 0x0002 == 0x0002),
        modes_of(bits).app_keypad == (bits & 0x0004 == 0x0004),
        modes_of(bits).bracketed_paste == (bits & 0x0010 == 0x0010),
{
}

/// A color that the emulator numbers is painted with the palette slot of that
/// number; 256 and 257 are the default colors, 259 to 266 the faint ones.
pub proof fn numbered_colors_reach_their_slots(theme: TerminalTheme, number: u16, is_foreground: bool, flags: RunFlags)
    requires
        !flags.bold,
        !flags.dim,
    ensures
        number < 16 ==> resolved(theme, palette_color(CellColor::Named(number)), is_foreground, flags)
            == theme.ansi@[number as int],
        259 <= number < 267 ==> resolved(theme, palette_color(CellColor::Named(number)), is_foreground, flags)
            == dimmed(theme.ansi@[number - 259]),
        resolved(theme, palette_color(CellColor::Named(256)), is_foreground, flags) == theme.foreground,
        resolved(theme, palette_color(CellColor::Named(257)), is_foreground, flags) == theme.background,
        resolved(theme, palette_color(CellColor::Named(258)), is_foreground, flags) == theme.cursor,
        resolved(theme, palette_color(CellColor::Named(267)), is_foreground, flags) == theme.foreground,
        resolved(theme, palette_color(CellColor::Named(268)), is_foreground, flags) == dimmed(theme.foreground),
{
}

/// Colors that have channels or a number of the long palette are passed on.
pub proof fn other_colors_are_passed_on(r: u8, g: u8, b: u8, index: u8)
    ensures
        palette_color(CellColor::Spec(r, g, b)) == Color::Spec(Rgb { r, g, b }),
        palette_color(CellColor::Indexed(index)) == Color::Indexed(index),
{
}

/// The run that a column lies in: the last one that starts there or before.
pub open spec fn run_over(runs: Seq<RunView>, column: int) -> Option<RunView>
    decreases runs.len(),
{
    if runs.len() == 0 {
        None
    } else if runs.last().start_col <= column {
        Some(runs.last())
    } else {
        run_over(runs.drop_last(), column)
    }
}

/// Every glyph is drawn in the run over its column, in the style of its own cell: the
/// colors of its foreground and background, and its own attributes.
pub proof fn every_glyph_keeps_its_style(theme: TerminalTheme, cells: Seq<CellView>, column: int)
    requires
        0 <= column < cells.len(),
        cells[column].flags & 0x0040 != 0x0040,
    ensures
        run_over(runs_of(theme, cells), column) matches Some(run) && run_style(run) == painted_style(
            theme,
            cells[column],
        ),
    decreases cells.len(),
{
    let shorter = cells.drop_last();
    let before = runs_of(theme, shorter);
    let runs = runs_of(theme, cells);
    let cell = cells.last();
    runs_are_merged_and_ordered(theme, shorter);
    if column == cells.len() - 1 {
        if before.len() > 0 && run_style(before.last()) == painted_style(theme, cell) {
            assert(runs.last().start_col == before.last().start_col);
        }
    } else {
        every_glyph_keeps_its_style(theme, shorter, column);
        assert(shorter[column] == cells[column]);
        if !is_spacer(cell) {
            if before.len() > 0 && run_style(before.last()) == painted_style(theme, cell) {
                assert(runs.drop_last() =~= before.drop_last());
            } else {
                assert(runs.drop_last() =~= before);
            }
        }
    }
}

/// A run starts at the column of its first glyph.
pub proof fn runs_start_with_their_first_glyph(theme: TerminalTheme, cells: Seq<CellView>, i: int)
    requires
        0 <= i < runs_of(theme, cells).len(),
    ensures
        ({
            let run = runs_of(theme, cells)[i];
            let cell = cells[run.start_col];
            &&& 0 <= run.start_col < cells.len()
            &&& cell.flags & 0x0040 != 0x0040
            &&& run.text.len() >= 1 + cell.zerowidth.len()
            &&& run.text[0] == cell.c
            &&& run.text.subrange(1, 1int + cell.zerowidth.len()) == cell.zerowidth
        }),
    decreases cells.len(),
{
    let shorter = cells.drop_last();
    let before = runs_of(theme, shorter);
    let runs = runs_of(theme, cells);
    let cell = cells.last();
    if is_spacer(cell) {
        runs_start_with_their_first_glyph(theme, shorter, i);
    } else if before.len() > 0 && run_style(before.last()) == painted_style(theme, cell) {
        runs_start_with_their_first_glyph(theme, shorter, i);
        let old = before[i];
        let first = cells[old.start_col];
        assert(runs[i].start_col == old.start_col);
        assert(runs[i].text.subrange(1, 1int + first.zerowidth.len()) =~= old.text.subrange(
            1,
            1int + first.zerowidth.len(),
        ));
    } else if i < before.len() {
        runs_start_with_their_first_glyph(theme, shorter, i);
        assert(runs[i] == before[i]);
    } else {
        assert(runs[i].text.subrange(1, 1int + cell.zerowidth.len()) =~= cell.zerowidth);
    }
}

/// The text of a row is what its cells hold, one after the other: a glyph and its
/// marks, and nothing for the trailing half of a wide one.
pub proof fn text_is_read_cell_by_cell(theme: TerminalTheme, cells: Seq<CellView>, cell: CellView)
    ensures
        line_text(runs_of(theme, Seq::empty())) == Seq::<char>::empty(),
        line_text(runs_of(theme, cells.push(cell))) == line_text(runs_of(theme, cells)) + (if cell.flags & 0x0040
            == 0x0040 {
            Seq::empty()
        } else {
            seq![cell.c] + cell.zerowidth
        }),
{
    line_keeps_the_text_of_its_cells(theme, cells);
    line_keeps_the_text_of_its_cells(theme, cells.push(cell));
    assert(cells.push(cell).drop_last() =~= cells);
    assert(shown_text(cells) + Seq::<char>::empty() =~= shown_text(cells));
}

/// Only empty cells at the end of a row are left out, and all of them are.
pub proof fn only_trailing_emptiness_is_cut(cells: Seq<CellView>)
    ensures
        trimmed(cells).len() <= cells.len(),
        trimmed(cells) == cells.take(trimmed(cells).len() as int),
        forall|i: int| trimmed(cells).len() <= i < cells.len() ==> (#[trigger] cells[i]).empty,
        trimmed(cells).len() > 0 ==> !cells[trimmed(cells).len() - 1].empty,
    decreases cells.len(),
{
    if cells.len() > 0 && cells.last().empty {
        let rest = cells.drop_last();
        only_trailing_emptiness_is_cut(rest);
        assert forall|i: int| trimmed(cells).len() <= i < cells.len() implies (#[trigger] cells[i]).empty by {
            if i < rest.len() {
                assert(rest[i] == cells[i]);
            }
        }
        assert(trimmed(cells) =~= cells.take(trimmed(cells).len() as int));
    } else {
        assert(cells =~= cells.take(cells.len() as int));
    }
}

/// The row of a snapshot is the line of the grid that is that far below the oldest
/// line in view: with nothing scrolled back it is the screen itself.
pub proof fn rows_show_the_lines_in_view(script: Seq<ScreenOp>, row: int, column: int)
    requires
        0 <= column < screen_size(script).0,
    ensures
        visible_row(script, row).len() == screen_size(script).0,
        visible_row(script, row)[column] == grid_cell(script, row - scrolled_back(script), column),
{
}

/// The cursor is drawn where it stands, as many rows further down as the view is
/// scrolled back, and on the leading half of a wide glyph.
pub proof fn the_cursor_is_drawn_where_it_stands(script: Seq<ScreenOp>, snapshot: TerminalSnapshot, theme: TerminalTheme)
    requires
        shows(snapshot, script, theme),
        0 <= grid_cursor(script).line < screen_size(script).1,
        grid_cursor(script).column < screen_size(script).0,
    ensures
        ({
            let cursor = grid_cursor(script);
            let row = cursor.line + scrolled_back(script);
            let cell = grid_cell(script, cursor.line as int, cursor.column as int);
            &&& row < screen_size(script).1 ==> snapshot.cursor.line == row
            &&& cell.flags & 0x0040 != 0x0040 ==> snapshot.cursor.col == cursor.column
            &&& cell.flags & 0x0040 == 0x0040 && cursor.column > 0 ==> snapshot.cursor.col == cursor.column - 1
            &&& snapshot.cursor_visible == (row < screen_size(script).1 && mode_bits(script) & 0x0001 == 0x0001
                && !cursor_shapeless(script))
        }),
{
}

/// A title lasts until the next message about it, and only messages about it change
/// it; only answers are sent back.
pub proof fn messages_do_one_thing_each(title: Option<Seq<char>>, text: String)
    ensures
        title_after(title, seq![TermEvent::Title(text)]) == Some(text@),
        title_after(title, seq![TermEvent::ResetTitle]) == None::<Seq<char>>,
        title_after(title, seq![TermEvent::PtyWrite(text)]) == title,
        title_after(title, seq![TermEvent::Other]) == title,
        replies_of(seq![TermEvent::PtyWrite(text)]) == vstd::utf8::encode_utf8(text@),
        replies_of(seq![TermEvent::Title(text)]) == Seq::<u8>::empty(),
        replies_of(seq![TermEvent::ResetTitle]) == Seq::<u8>::empty(),
        replies_of(seq![TermEvent::Other]) == Seq::<u8>::empty(),
{
    reveal_with_fuel(title_after, 2);
    reveal_with_fuel(replies_of, 2);
    assert(Seq::<u8>::empty() + vstd::utf8::encode_utf8(text@) =~= vstd::utf8::encode_utf8(text@));
}

/// A movement of the view that the history has room for is made in full, up for
/// positive numbers; any other stops at the oldest line or at the bottom.
pub proof fn the_view_moves_as_far_as_it_can(offset: nat, delta: int, history: nat)
    requires
        offset <= history,
    ensures
        0 <= offset + delta <= history ==> clamped_offset(offset, delta, history) == offset + delta,
        offset + delta > history ==> clamped_offset(offset, delta, history) == history,
        offset + delta < 0 ==> clamped_offset(offset, delta, history) == 0,
{
}

/// Feeding appends to what was done and nothing else, but for pulling back a view
/// that reaches beyond the oldest line.
pub proof fn feeding_is_recorded(script: Seq<ScreenOp>, bytes: Seq<u8>)
    ensures
        after_feeding(script, bytes).take(script.len() + 1int) == script.push(ScreenOp::Feed(bytes)),
        scrolled_back(script.push(ScreenOp::Feed(bytes))) <= history_len(script.push(ScreenOp::Feed(bytes)))
            ==> after_feeding(script, bytes) == script.push(ScreenOp::Feed(bytes)),
        scrolled_back(script.push(ScreenOp::Feed(bytes))) > history_len(script.push(ScreenOp::Feed(bytes)))
            ==> after_feeding(script, bytes) == script.push(ScreenOp::Feed(bytes)).push(ScreenOp::Scroll(0)),
{
    assert(after_feeding(script, bytes).take(script.len() + 1int) =~= script.push(ScreenOp::Feed(bytes)));
}

/// A movement up the history goes as far as there are older lines, and one down is not
/// cut here.
pub proof fn movements_stop_at_the_oldest_line(script: Seq<ScreenOp>, delta: i32)
    requires
        scrolled_back(script) <= history_len(script) <= i32::MAX,
    ensures
        delta <= history_len(script) - scrolled_back(script) ==> reachable(script, delta) == delta,
        delta > history_len(script) - scrolled_back(script) ==> scrolled_back(script) + reachable(script, delta)
            == history_len(script),
{
}

/// As many lines of history are kept as were asked for, up to what can be numbered.
pub proof fn history_is_kept_as_asked(lines: int)
    ensures
        lines <= 0x7fff_ffff ==> history_limit(lines) == lines,
        lines > 0x7fff_ffff ==> history_limit(lines) == 0x7fff_ffff,
{
}

impl TerminalModel {
    /// Two columns hold every glyph; a single one holds narrow glyphs alone.
    pub proof fn two_columns_hold_every_glyph(self, bytes: Seq<u8>, cols: u16)
        ensures
            self.dimensions().0 >= 2 ==> self.takes(bytes),
            self.dimensions().0 < 2 ==> (self.takes(bytes) <==> is_narrow(fed_bytes(self.script()) + bytes)),
            cols >= 2 ==> self.fits(cols),
            cols < 2 ==> (self.fits(cols) <==> is_narrow(fed_bytes(self.script()))),
    {
    }

    /// A fresh screen shows nothing but its cursor, in the first cell, and no mode is
    /// on.
    pub proof fn a_fresh_screen_shows_its_cursor(self, row: int)
        requires
            self.is_fresh(),
            0 <= row < self.dimensions().1,
        ensures
            self.script().len() == 1,
            scrolled_back(self.script()) == 0,
            history_len(self.script()) == 0,
            painted_line(self.palette(), visible_row(self.script(), row)).len() == 0,
            cursor_cell(self.script()).line == 0 && cursor_cell(self.script()).col == 0,
            !cursor_hidden(self.script()),
            !modes_of(mode_bits(self.script())).app_cursor,
            !modes_of(mode_bits(self.script())).app_keypad,
            !modes_of(mode_bits(self.script())).bracketed_paste,
    {
    }
}

} // verus!
