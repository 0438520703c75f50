//! A grid of selectable cards, each previewing one color scheme.
//!
//! The picker owns no state: the view passes the entries and the selected id on
//! every render. The grid takes a single tab stop; while it is focused the arrow
//! keys move the selection, by one card or by one row, without wrapping.
use vstd::prelude::*;

use crate::term::theme::{Rgb, TerminalTheme};
use crate::text::{copy, same};
use crate::ui::theme::Slot;

verus! {

/// Default number of cards per row.
pub const DEFAULT_COLUMNS: usize = 3;

/// Height of the color preview strip inside a card, in pixels.
pub const PREVIEW_HEIGHT: u32 = 34;

/// Diameter of one accent chip in the preview strip, in pixels.
pub const CHIP_SIZE: u32 = 9;

/// The colors drawn inside one card's preview strip.
#[derive(Debug)]
pub struct SchemePreview {
    /// Background the strip is filled with.
    pub background: Rgb,
    /// Color of the sample text drawn on the background.
    pub foreground: Rgb,
    /// Accent chips drawn next to the sample text, in display order.
    pub ansi: Vec<Rgb>,
}

/// A preview of a palette: background, foreground, and red, green, yellow, blue,
/// magenta and cyan. Black and white would vanish into the background.
pub open spec fn previews(preview: SchemePreview, scheme: TerminalTheme) -> bool {
    &&& preview.background == scheme.background
    &&& preview.foreground == scheme.foreground
    &&& preview.ansi@ == scheme.ansi@.subrange(1, 7)
}

/// Builds the preview colors of a scheme, or none for a scheme nobody knows.
pub fn preview_for(scheme: Option<&TerminalTheme>) -> (preview: Option<SchemePreview>)
    ensures
        match (scheme, preview) {
            (Some(scheme), Some(preview)) => previews(preview, *scheme),
            (None, None) => true,
            _ => false,
        },
{
    match scheme {
        None => None,
        Some(scheme) => {
            let mut ansi: Vec<Rgb> = Vec::new();
            let mut slot: usize = 1;
            while slot < 7
                invariant
                    1 <= slot <= 7,
                    ansi@ == scheme.ansi@.subrange(1, slot as int),
                decreases 7 - slot,
            {
                ansi.push(scheme.ansi[slot]);
                proof {
                    assert(ansi@ =~= scheme.ansi@.subrange(1, slot + 1));
                }
                slot += 1;
            }
            Some(SchemePreview { background: scheme.background, foreground: scheme.foreground, ansi })
        },
    }
}

/// One entry of a [`SchemePicker`].
#[derive(Debug)]
pub struct SchemeSwatch {
    /// Stable id reported when the entry is picked.
    pub id: String,
    /// Label shown under the preview.
    pub name: String,
    /// Colors to preview. An entry without them is a muted placeholder card.
    pub preview: Option<SchemePreview>,
    /// What a placeholder card says.
    pub placeholder: String,
}

impl SchemeSwatch {
    /// Creates an entry with no preview, drawn as a muted placeholder card.
    pub fn new(id: &str, name: &str) -> (swatch: SchemeSwatch)
        ensures
            swatch.id@ == id@,
            swatch.name@ == name@,
            swatch.preview is None,
            swatch.placeholder@ == "inherits"@,
    {
        SchemeSwatch { id: copy(id), name: copy(name), preview: None, placeholder: copy("inherits") }
    }

    /// Attaches the colors to draw in this entry's preview strip.
    pub fn preview(self, preview: SchemePreview) -> (swatch: SchemeSwatch)
        ensures
            swatch == (SchemeSwatch { preview: Some(preview), ..self }),
    {
        SchemeSwatch { preview: Some(preview), ..self }
    }

    /// Sets what the placeholder card says.
    pub fn placeholder_label(self, label: &str) -> (swatch: SchemeSwatch)
        ensures
            swatch.placeholder@ == label@,
            swatch == (SchemeSwatch { placeholder: swatch.placeholder, ..self }),
    {
        SchemeSwatch { placeholder: copy(label), ..self }
    }
}

/// A grid of color scheme cards.
pub struct SchemePicker {
    pub id: String,
    pub options: Vec<SchemeSwatch>,
    pub selected: Option<String>,
    pub columns: usize,
    pub tab_index: Option<i64>,
}

/// A card as it is drawn.
pub struct Card {
    /// Which entry the card shows.
    pub option: usize,
    pub selected: bool,
    pub border: Slot,
    pub background: Slot,
    pub text: Slot,
    /// Whether a click picks the entry; the selected one cannot be picked again.
    pub clickable: bool,
}

/// One row of the grid: its cards, and empty places that keep the cards of the
/// last row as wide as the others.
pub struct CardRow {
    pub cards: Vec<Card>,
    pub padding: usize,
}

/// A key that moves the selection.
#[derive(Debug, Clone, Copy, PartialEq, Eq, Structural)]
pub enum Arrow {
    Left,
    Right,
    Up,
    Down,
}

/// The card that an arrow leads to, when there is one in that direction.
pub open spec fn card_after(current: int, arrow: Arrow, columns: int, count: int) -> Option<int> {
    let next = match arrow {
        Arrow::Left => current - 1,
        Arrow::Right => current + 1,
        Arrow::Up => current - columns,
        Arrow::Down => current + columns,
    };
    if 0 <= next < count {
        Some(next)
    } else {
        None
    }
}

/// A card is drawn for an entry.
pub open spec fn card_of(card: Card, option: int, selected: bool) -> bool {
    &&& card.option == option
    &&& card.selected == selected
    &&& card.border == if selected {
        Slot::Accent
    } else {
        Slot::Border
    }
    &&& card.background == if selected {
        Slot::SurfaceActive
    } else {
        Slot::Surface
    }
    &&& card.text == if selected {
        Slot::Text
    } else {
        Slot::TextMuted
    }
    &&& card.clickable == !selected
}

impl SchemePicker {
    /// An entry is the selected one.
    pub open spec fn is_selected(self, option: int) -> bool {
        self.selected matches Some(id) && self.options@[option].id@ == id@
    }

    /// Every card of the grid is drawn for its entry: row by row, from left to
    /// right, and the last row is filled up.
    pub open spec fn lays_out(self, rows: Seq<CardRow>) -> bool {
        let columns = self.columns as int;
        &&& rows.len() == (self.options@.len() + columns - 1) / columns
        &&& forall|r: int| 0 <= r < rows.len() ==> self.row_ok(#[trigger] rows[r], r)
    }

    /// A row of the grid.
    pub open spec fn row_ok(self, row: CardRow, r: int) -> bool {
        let columns = self.columns as int;
        let left = self.options@.len() - r * columns;
        let count = if left < columns {
            left
        } else {
            columns
        };
        &&& row.cards@.len() == count
        &&& row.padding == columns - count
        &&& forall|c: int|
            0 <= c < count ==> card_of(
                #[trigger] row.cards@[c],
                r * columns + c,
                self.is_selected(r * columns + c),
            )
    }

    /// Creates an empty picker.
    pub fn new(id: &str) -> (picker: SchemePicker)
        ensures
            picker.id@ == id@,
            picker.options@.len() == 0,
            picker.selected is None,
            picker.columns == DEFAULT_COLUMNS,
            picker.tab_index is None,
    {
        SchemePicker {
            id: copy(id),
            options: Vec::new(),
            selected: None,
            columns: DEFAULT_COLUMNS,
            tab_index: None,
        }
    }

    /// Sets the entries, in display order.
    pub fn options(self, options: Vec<SchemeSwatch>) -> (picker: SchemePicker)
        ensures
            picker == (SchemePicker { options, ..self }),
    {
        SchemePicker { options, ..self }
    }

    /// Sets the id of the highlighted entry. An unknown id highlights nothing.
    pub fn selected(self, selected: Option<String>) -> (picker: SchemePicker)
        ensures
            picker == (SchemePicker { selected, ..self }),
    {
        SchemePicker { selected, ..self }
    }

    /// Sets how many cards share a row. Zero is treated as one.
    pub fn columns(self, columns: usize) -> (picker: SchemePicker)
        ensures
            picker == (SchemePicker {
                columns: if columns == 0 {
                    1
                } else {
                    columns
                },
                ..self
            }),
    {
        SchemePicker {
            columns: if columns == 0 {
                1
            } else {
                columns
            },
            ..self
        }
    }

    /// Places the grid at `index` in the window's tab order.
    pub fn tab_index(self, index: i64) -> (picker: SchemePicker)
        ensures
            picker == (SchemePicker { tab_index: Some(index), ..self }),
    {
        SchemePicker { tab_index: Some(index), ..self }
    }

    /// Whether an entry is the selected one.
    fn selects(&self, option: usize) -> (selected: bool)
        requires
            option < self.options@.len(),
        ensures
            selected == self.is_selected(option as int),
    {
        match &self.selected {
            Some(id) => same(self.options[option].id.as_str(), id.as_str()),
            None => false,
        }
    }

    /// Where the selected entry stands, looking from `from` on.
    pub open spec fn place_from(self, from: int) -> Option<int>
        decreases self.options@.len() - from,
    {
        if from < 0 || from >= self.options@.len() {
            None
        } else if self.is_selected(from) {
            Some(from)
        } else {
            self.place_from(from + 1)
        }
    }

    /// Where the selected entry stands; the first one, should two have its id.
    pub fn current(&self) -> (current: Option<usize>)
        ensures
            match current {
                Some(i) => self.place_from(0) == Some(i as int) && i < self.options@.len(),
                None => self.place_from(0) is None,
            },
    {
        let mut i: usize = 0;
        while i < self.options.len()
            invariant
                i <= self.options@.len(),
                self.place_from(0) == self.place_from(i as int),
            decreases self.options@.len() - i,
        {
            if self.selects(i) {
                return Some(i);
            }
            i += 1;
        }
        None
    }

    /// Whether the grid takes part in the tab order: an empty one does not.
    pub fn tab_stop(&self) -> (index: Option<i64>)
        ensures
            index == if self.options@.len() == 0 {
                None
            } else {
                self.tab_index
            },
    {
        if self.options.len() == 0 {
            None
        } else {
            self.tab_index
        }
    }

    /// The entry that a key picks while the grid is focused. Keys with a modifier
    /// held are not the grid's.
    pub fn key_down(&self, arrow: Arrow, modified: bool) -> (next: Option<usize>)
        requires
            self.columns >= 1,
        ensures
            match self.place_from(0) {
                Some(current) if !modified => match card_after(
                    current,
                    arrow,
                    self.columns as int,
                    self.options@.len() as int,
                ) {
                    Some(card) => next == Some(card as usize),
                    None => next is None,
                },
                _ => next is None,
            },
    {
        if modified {
            return None;
        }
        let current: usize = match self.current() {
            Some(current) => current,
            None => {
                return None;
            },
        };
        let count: usize = self.options.len();
        match arrow {
            Arrow::Left => if current >= 1 {
                Some(current - 1)
            } else {
                None
            },
            Arrow::Right => if count - current > 1 {
                Some(current + 1)
            } else {
                None
            },
            Arrow::Up => if current >= self.columns {
                Some(current - self.columns)
            } else {
                None
            },
            Arrow::Down => if count - current > self.columns {
                Some(current + self.columns)
            } else {
                None
            },
        }
    }

    /// The id that a click on a card picks: none for the one that is selected
    /// already.
    pub fn clicked(&self, option: usize) -> (picked: Option<&String>)
        requires
            option < self.options@.len(),
        ensures
            match picked {
                Some(id) => !self.is_selected(option as int) && id@ == self.options@[option as int].id@,
                None => self.is_selected(option as int),
            },
    {
        if self.selects(option) {
            None
        } else {
            Some(&self.options[option].id)
        }
    }

    /// The rows of the grid.
    pub fn render(&self) -> (rows: Vec<CardRow>)
        requires
            self.columns >= 1,
        ensures
            self.lays_out(rows@),
    {
        let columns: usize = self.columns;
        let count: usize = self.options.len();
        let mut rows: Vec<CardRow> = Vec::new();
        let mut start: usize = 0;
        assert(0 * columns == 0);
        while start < count
            invariant
                columns == self.columns,
                columns >= 1,
                count == self.options@.len(),
                start == if rows@.len() * columns < count {
                    rows@.len() * columns
                } else {
                    count as int
                },
                rows@.len() > 0 ==> (rows@.len() - 1) * columns < count,
                forall|r: int| 0 <= r < rows@.len() ==> self.row_ok(#[trigger] rows@[r], r),
            decreases count - start,
        {
            let ghost r = rows@.len() as int;
            let left: usize = count - start;
            let width: usize = if left < columns { left } else { columns };
            let mut cards: Vec<Card> = Vec::new();
            let mut c: usize = 0;
            while c < width
                invariant
                    columns == self.columns,
                    count == self.options@.len(),
                    start == r * columns,
                    width <= count - start,
                    c <= width,
                    cards@.len() == c,
                    forall|k: int|
                        0 <= k < c ==> card_of(
                            #[trigger] cards@[k],
                            r * columns + k,
                            self.is_selected(r * columns + k),
                        ),
                decreases width - c,
            {
                let option: usize = start + c;
                let selected = self.selects(option);
                cards.push(
                    Card {
                        option,
                        selected,
                        border: if selected {
                            Slot::Accent
                        } else {
                            Slot::Border
                        },
                        background: if selected {
                            Slot::SurfaceActive
                        } else {
                            Slot::Surface
                        },
                        text: if selected {
                            Slot::Text
                        } else {
                            Slot::TextMuted
                        },
                        clickable: !selected,
                    },
                );
                c += 1;
            }
            rows.push(CardRow { cards, padding: columns - width });
            proof {
                assert((r + 1) * columns == r * columns + columns) by (nonlinear_arith);
                assert(self.row_ok(rows@[r], r));
            }
            start = start + width;
        }
        proof {
            lemma_row_count(count as int, columns as int, rows@.len() as int);
        }
        rows
    }
}

proof fn lemma_row_count(count: int, columns: int, rows: int)
    requires
        columns >= 1,
        0 <= count,
        0 <= rows,
        rows * columns >= count,
        rows > 0 ==> (rows - 1) * columns < count,
        rows == 0 ==> count == 0,
    ensures
        rows == (count + columns - 1) / columns,
{
    if rows > 0 {
        assert((rows - 1) * columns == rows * columns - columns) by (nonlinear_arith);
    }
    vstd::arithmetic::div_mod::lemma_fundamental_div_mod_converse(
        count + columns - 1,
        columns,
        rows,
        count + columns - 1 - rows * columns,
    );
}

/// Arrow keys never leave the grid, and going back and forth returns to the card.
pub proof fn arrows_stay_in_the_grid(current: int, arrow: Arrow, columns: int, count: int)
    requires
        0 <= current < count,
        columns >= 1,
    ensures
        card_after(current, arrow, columns, count) matches Some(next) ==> 0 <= next < count && card_after(
            next,
            match arrow {
                Arrow::Left => Arrow::Right,
                Arrow::Right => Arrow::Left,
                Arrow::Up => Arrow::Down,
                Arrow::Down => Arrow::Up,
            },
            columns,
            count,
        ) == Some(current),
{
}

/// The arrows move one card to their side, or one row up or down, and stay where there
/// is no card.
pub proof fn arrows_move_to_their_side(current: int, columns: int, count: int)
    ensures
        0 < current <= count ==> card_after(current, Arrow::Left, columns, count) == Some(current - 1),
        0 <= current < count - 1 ==> card_after(current, Arrow::Right, columns, count) == Some(current + 1),
        0 <= current - columns < count ==> card_after(current, Arrow::Up, columns, count) == Some(current - columns),
        0 <= current + columns < count ==> card_after(current, Arrow::Down, columns, count) == Some(
            current + columns,
        ),
        card_after(0, Arrow::Left, columns, count) is None,
        card_after(count - 1, Arrow::Right, columns, count) is None,
        current < columns ==> card_after(current, Arrow::Up, columns, count) is None,
        current + columns >= count ==> card_after(current, Arrow::Down, columns, count) is None,
{
}

/// A preview shows the background, the text and the six colors of the scheme, red first.
pub proof fn previews_show_the_six_colors(preview: SchemePreview, scheme: TerminalTheme)
    requires
        previews(preview, scheme),
    ensures
        preview.background == scheme.background,
        preview.foreground == scheme.foreground,
        preview.ansi@.len() == 6,
        preview.ansi@[0] == scheme.ansi@[1] && preview.ansi@[1] == scheme.ansi@[2] && preview.ansi@[2]
            == scheme.ansi@[3],
        preview.ansi@[3] == scheme.ansi@[4] && preview.ansi@[4] == scheme.ansi@[5] && preview.ansi@[5]
            == scheme.ansi@[6],
{
}

impl SchemePicker {
    /// The card that is current is the first that is selected.
    pub proof fn the_first_selected_card_is_current(self, from: int, i: int)
        requires
            0 <= from <= i < self.options@.len(),
        ensures
            match self.place_from(from) {
                Some(place) => {
                    &&& from <= place < self.options@.len()
                    &&& self.is_selected(place)
                    &&& self.is_selected(i) ==> place <= i
                },
                None => !self.is_selected(i),
            },
        decreases self.options@.len() - from,
    {
        if !self.is_selected(from) {
            if from < i {
                self.the_first_selected_card_is_current(from + 1, i);
            } else if from + 1 < self.options@.len() {
                self.the_first_selected_card_is_current(from + 1, from + 1);
            }
        }
    }

    /// Cards lie in rows, from left to right, and every row but the last is full.
    pub proof fn cards_fill_their_rows(self, rows: Seq<CardRow>, r: int, c: int)
        requires
            self.lays_out(rows),
            self.columns >= 1,
            0 <= r < rows.len(),
            0 <= c < rows[r].cards@.len(),
        ensures
            rows[r].cards@[c].option == r * self.columns + c,
            rows[r].cards@.len() + rows[r].padding == self.columns,
            self.is_selected(r * self.columns + c) ==> rows[r].cards@[c].selected && rows[r].cards@[c].border is Accent,
            !self.is_selected(r * self.columns + c) ==> !rows[r].cards@[c].selected && rows[r].cards@[c].border is Border,
    {
        assert(self.row_ok(rows[r], r));
    }
}

} // verus!
