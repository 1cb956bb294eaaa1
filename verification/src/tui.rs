use unicode_width::UnicodeWidthStr;
use vstd::prelude::*;
use vstd::string::StringExecFns;

use crate::entry::{Entry, EntryView};
use crate::storage::views;

verus! {

/// Lines of the scrollbar that one row of the table stands for.
pub const ITEM_HEIGHT: usize = 2;

/// Number of columns of the table: one for each field of an entry.
pub const COLUMNS: usize = 6;

/// The column that holds the password.
pub const PASSWORD_COLUMN: usize = 3;

/// What stands in the place of a password that is not revealed.
pub const MASK: &'static str = "************";

/// The width of a text on a terminal, in columns.
pub uninterp spec fn display_width(text: Seq<char>) -> usize;

/// The lines of a text.
pub uninterp spec fn text_lines(text: Seq<char>) -> Seq<Seq<char>>;

/// Calls `unicode_width::UnicodeWidthStr::width`.
///
/// Trusted: the width is a function of the text.
#[verifier::external_body]
pub(crate) fn width_of(text: &str) -> (width: usize)
    ensures
        width == display_width(text@),
{
    UnicodeWidthStr::width(text)
}

/// Calls `str::lines`.
///
/// Trusted: the lines are a function of the text.
#[verifier::external_body]
pub(crate) fn lines_of(text: &str) -> (lines: Vec<String>)
    ensures
        lines@.len() == text_lines(text@).len(),
        forall|i: int| 0 <= i < lines@.len() ==> (#[trigger] lines@[i])@ == text_lines(text@)[i],
{
    text.lines().map(String::from).collect()
}

/// The greater of two widths.
pub open spec fn wider(a: usize, b: usize) -> usize {
    if a >= b {
        a
    } else {
        b
    }
}

/// The width of the widest of some texts, 0 where there is none.
pub open spec fn widest(texts: Seq<Seq<char>>) -> usize
    decreases texts.len(),
{
    if texts.len() == 0 {
        0
    } else {
        wider(widest(texts.drop_last()), display_width(texts.last()))
    }
}

/// The text of an entry in a column.
pub open spec fn field(entry: EntryView, column: int) -> Seq<char> {
    if column == 0 {
        entry.id
    } else if column == 1 {
        entry.service
    } else if column == 2 {
        entry.email
    } else if column == 3 {
        entry.password
    } else if column == 4 {
        entry.username
    } else {
        entry.url
    }
}

/// The width that an entry needs in a column: that of its text, and for
/// the service, which may run over several lines, that of its widest line.
pub open spec fn cell_width(entry: EntryView, column: int) -> usize {
    if column == 1 {
        widest(text_lines(entry.service))
    } else {
        display_width(field(entry, column))
    }
}

/// The width that a column needs for all of the entries.
pub open spec fn column_width(entries: Seq<EntryView>, column: int) -> usize
    decreases entries.len(),
{
    if entries.len() == 0 {
        0
    } else {
        wider(column_width(entries.drop_last(), column), cell_width(entries.last(), column))
    }
}

/// A width as the table takes it: its low 16 bits.
pub open spec fn narrowed(width: usize) -> u16 {
    (width % 0x10000) as u16
}

/// The row that comes after the selected one: the next, and the first
/// after the last; the first where none is selected.
pub open spec fn row_after(selected: Option<usize>, rows: usize) -> usize {
    match selected {
        Some(i) => if rows == 0 || i >= rows - 1 {
            0
        } else {
            (i + 1) as usize
        },
        None => 0,
    }
}

/// The row that comes before the selected one: the one before, and the
/// last before the first; the first where none is selected.
pub open spec fn row_before(selected: Option<usize>, rows: usize) -> usize {
    match selected {
        Some(i) => if i == 0 {
            if rows == 0 {
                0
            } else {
                (rows - 1) as usize
            }
        } else {
            (i - 1) as usize
        },
        None => 0,
    }
}

/// The place of the scrollbar for a row.
pub open spec fn scroll_of(row: usize) -> usize {
    if row <= usize::MAX / ITEM_HEIGHT {
        (row * ITEM_HEIGHT) as usize
    } else {
        usize::MAX
    }
}

/// A password is masked unless the table is unlocked and the row is the
/// selected one, the first counting as selected where none is.
pub open spec fn masked(
    unlocked: bool,
    selected: Option<usize>,
    row: usize,
    column: usize,
) -> bool {
    column == PASSWORD_COLUMN && !(unlocked && row == match selected {
        Some(i) => i,
        None => 0,
    })
}

/// What the user can ask of the table.
#[derive(Debug, Clone, Copy, PartialEq, Eq, Structural)]
pub enum TableKey {
    Quit,
    Down,
    Up,
    Reveal,
    Other,
}

/// The state of the table of entries: what is shown, which row is
/// selected, and whether the selected password is revealed.
pub struct TableApp {
    pub items: Vec<Entry>,
    pub selected: Option<usize>,
    pub scroll: usize,
    /// order is (id, service, email, password, username, url)
    pub longest_item_lens: (u16, u16, u16, u16, u16, u16),
    pub unlocked: bool,
    pub exit: bool,
}

/// The width of the widest of some lines.
pub fn widest_of(lines: &Vec<String>) -> (width: usize)
    ensures
        width == widest(lines@.map_values(|line: String| line@)),
{
    let ghost texts = lines@.map_values(|line: String| line@);
    let mut width: usize = 0;
    let mut i: usize = 0;
    while i < lines.len()
        invariant
            i <= lines@.len(),
            texts == lines@.map_values(|line: String| line@),
            width == widest(texts.subrange(0, i as int)),
        decreases lines@.len() - i,
    {
        let w = width_of(lines[i].as_str());
        proof {
            assert(texts.subrange(0, i + 1).drop_last() == texts.subrange(0, i as int));
        }
        if w > width {
            width = w;
        }
        i += 1;
    }
    proof {
        assert(texts.subrange(0, i as int) == texts);
    }
    width
}

/// The width that an entry needs in each column.
pub fn cell_widths(entry: &Entry) -> (widths: [usize; 6])
    ensures
        forall|column: int| 0 <= column < 6 ==> widths@[column] == cell_width(entry@, column),
{
    let lines = lines_of(entry.service.as_str());
    proof {
        assert(lines@.map_values(|line: String| line@) =~= text_lines(entry@.service));
    }
    [
        width_of(entry.id.as_str()),
        widest_of(&lines),
        width_of(entry.email.as_str()),
        width_of(entry.password.as_str()),
        width_of(entry.username.as_str()),
        width_of(entry.url.as_str()),
    ]
}

/// The greatest of the widths that the rows give for a column, 0 where
/// there is no row.
pub open spec fn column_max(cells: Seq<[usize; 6]>, column: int) -> usize
    decreases cells.len(),
{
    if cells.len() == 0 {
        0
    } else {
        wider(column_max(cells.drop_last(), column), cells.last()@[column])
    }
}

/// Where each row gives the widths that its entry needs, the greatest
/// width of a column is the width that the column needs for the entries.
pub proof fn lemma_column_max(cells: Seq<[usize; 6]>, entries: Seq<EntryView>, column: int)
    requires
        0 <= column < 6,
        cells.len() == entries.len(),
        forall|k: int|
            0 <= k < cells.len() ==> (#[trigger] cells[k])@[column] == cell_width(
                entries[k],
                column,
            ),
    ensures
        column_max(cells, column) == column_width(entries, column),
    decreases cells.len(),
{
    if cells.len() > 0 {
        assert(cells.last() == cells[cells.len() - 1]);
        assert forall|k: int| 0 <= k < cells.drop_last().len() implies (
        #[trigger] cells.drop_last()[k])@[column] == cell_width(entries.drop_last()[k], column) by {
            assert(cells.drop_last()[k] == cells[k]);
        }
        lemma_column_max(cells.drop_last(), entries.drop_last(), column);
    }
}

/// The six widths are those that the entry needs in the six columns.
pub open spec fn widths_of(cell: [usize; 6], entry: EntryView) -> bool {
    forall|column: int| 0 <= column < 6 ==> cell@[column] == cell_width(entry, column)
}

/// The greatest width of each column over rows of six widths.
pub fn column_maxima(cells: &Vec<[usize; 6]>) -> (widths: [usize; 6])
    ensures
        forall|column: int| 0 <= column < 6 ==> widths@[column] == column_max(cells@, column),
{
    let mut widths: [usize; 6] = [0, 0, 0, 0, 0, 0];
    let mut i: usize = 0;
    while i < cells.len()
        invariant
            i <= cells@.len(),
            forall|column: int|
                0 <= column < 6 ==> widths@[column] == column_max(
                    cells@.subrange(0, i as int),
                    column,
                ),
        decreases cells@.len() - i,
    {
        let cell = cells[i];
        proof {
            assert(cells@.subrange(0, i + 1).drop_last() == cells@.subrange(0, i as int));
            assert(cells@.subrange(0, i + 1).last() == cell);
        }
        let mut column: usize = 0;
        while column < 6
            invariant
                column <= 6,
                i < cells@.len(),
                cell == cells@[i as int],
                cells@.subrange(0, i + 1).drop_last() == cells@.subrange(0, i as int),
                cells@.subrange(0, i + 1).last() == cell,
                forall|c: int|
                    0 <= c < column ==> widths@[c] == column_max(cells@.subrange(0, i + 1), c),
                forall|c: int|
                    column <= c < 6 ==> widths@[c] == column_max(
                        cells@.subrange(0, i as int),
                        c,
                    ),
            decreases 6 - column,
        {
            if cell[column] > widths[column] {
                widths[column] = cell[column];
            }
            column += 1;
        }
        i += 1;
    }
    proof {
        assert(cells@.subrange(0, i as int) == cells@);
    }
    widths
}

/// The width that each column of the table needs for the entries, as the
/// table takes it.
pub fn constraint_len_calculator(items: &Vec<Entry>) -> (lens: (u16, u16, u16, u16, u16, u16))
    ensures
        lens.0 == narrowed(column_width(views(items@), 0)),
        lens.1 == narrowed(column_width(views(items@), 1)),
        lens.2 == narrowed(column_width(views(items@), 2)),
        lens.3 == narrowed(column_width(views(items@), 3)),
        lens.4 == narrowed(column_width(views(items@), 4)),
        lens.5 == narrowed(column_width(views(items@), 5)),
{
    let ghost all = views(items@);
    let mut cells: Vec<[usize; 6]> = Vec::new();
    let mut i: usize = 0;
    while i < items.len()
        invariant
            i <= items@.len(),
            all == views(items@),
            cells@.len() == i,
            forall|k: int| 0 <= k < i ==> widths_of(#[trigger] cells@[k], all[k]),
        decreases items@.len() - i,
    {
        let cell = cell_widths(&items[i]);
        cells.push(cell);
        i += 1;
    }
    let widths = column_maxima(&cells);
    proof {
        lemma_column_max(cells@, all, 0);
        lemma_column_max(cells@, all, 1);
        lemma_column_max(cells@, all, 2);
        lemma_column_max(cells@, all, 3);
        lemma_column_max(cells@, all, 4);
        lemma_column_max(cells@, all, 5);
    }
    (
        narrow(widths[0]),
        narrow(widths[1]),
        narrow(widths[2]),
        narrow(widths[3]),
        narrow(widths[4]),
        narrow(widths[5]),
    )
}

/// Takes the low 16 bits of a width.
pub fn narrow(width: usize) -> (low: u16)
    ensures
        low == narrowed(width),
{
    (width % 0x10000) as u16
}

impl TableApp {
    /// The table of the given entries, with the first row selected and no
    /// password revealed.
    pub fn new(items: Vec<Entry>) -> (app: Self)
        ensures
            app.items == items,
            app.selected == Some(0usize),
            app.scroll == 0,
            app.longest_item_lens.0 == narrowed(column_width(views(items@), 0)),
            app.longest_item_lens.1 == narrowed(column_width(views(items@), 1)),
            app.longest_item_lens.2 == narrowed(column_width(views(items@), 2)),
            app.longest_item_lens.3 == narrowed(column_width(views(items@), 3)),
            app.longest_item_lens.4 == narrowed(column_width(views(items@), 4)),
            app.longest_item_lens.5 == narrowed(column_width(views(items@), 5)),
            !app.unlocked,
            !app.exit,
    {
        let longest_item_lens = constraint_len_calculator(&items);
        Self { items, selected: Some(0), scroll: 0, longest_item_lens, unlocked: false, exit: false }
    }

    /// The length that the scrollbar is given: one row more than there are
    /// entries.
    pub fn scroll_length(&self) -> (length: usize)
        ensures
            length == if self.items@.len() < usize::MAX / ITEM_HEIGHT {
                ((self.items@.len() + 1) * ITEM_HEIGHT) as usize
            } else {
                usize::MAX
            },
    {
        if self.items.len() < usize::MAX / ITEM_HEIGHT {
            (self.items.len() + 1) * ITEM_HEIGHT
        } else {
            usize::MAX
        }
    }

    /// Selects the row below, or the first below the last.
    pub fn next_row(&mut self)
        ensures
            final(self).selected == Some(row_after(old(self).selected, old(self).items.len())),
            final(self).scroll == scroll_of(row_after(old(self).selected, old(self).items.len())),
            final(self).items == old(self).items,
            final(self).longest_item_lens == old(self).longest_item_lens,
            final(self).unlocked == old(self).unlocked,
            final(self).exit == old(self).exit,
    {
        let i: usize = match self.selected {
            Some(i) => {
                if self.items.len() == 0 || i >= self.items.len() - 1 {
                    0
                } else {
                    i + 1
                }
            },
            None => 0,
        };
        self.select(i);
    }

    /// Selects the row above, or the last above the first.
    pub fn previous_row(&mut self)
        ensures
            final(self).selected == Some(row_before(old(self).selected, old(self).items.len())),
            final(self).scroll == scroll_of(row_before(old(self).selected, old(self).items.len())),
            final(self).items == old(self).items,
            final(self).longest_item_lens == old(self).longest_item_lens,
            final(self).unlocked == old(self).unlocked,
            final(self).exit == old(self).exit,
    {
        let i: usize = match self.selected {
            Some(i) => {
                if i == 0 {
                    if self.items.len() == 0 {
                        0
                    } else {
                        self.items.len() - 1
                    }
                } else {
                    i - 1
                }
            },
            None => 0,
        };
        self.select(i);
    }

    /// Selects a row and moves the scrollbar to it.
    pub fn select(&mut self, row: usize)
        ensures
            final(self).selected == Some(row),
            final(self).scroll == scroll_of(row),
            final(self).items == old(self).items,
            final(self).longest_item_lens == old(self).longest_item_lens,
            final(self).unlocked == old(self).unlocked,
            final(self).exit == old(self).exit,
    {
        self.selected = Some(row);
        self.scroll = if row <= usize::MAX / ITEM_HEIGHT {
            row * ITEM_HEIGHT
        } else {
            usize::MAX
        };
    }

    /// Asks the table to close.
    pub fn exit(&mut self)
        ensures
            final(self).exit,
            final(self).items == old(self).items,
            final(self).selected == old(self).selected,
            final(self).scroll == old(self).scroll,
            final(self).longest_item_lens == old(self).longest_item_lens,
            final(self).unlocked == old(self).unlocked,
    {
        self.exit = true;
    }

    /// Takes a key: quitting, moving the selection down or up, or turning
    /// the revealing of the selected password on or off. Any other key
    /// changes nothing.
    pub fn handle_key(&mut self, key: TableKey)
        ensures
            final(self).items == old(self).items,
            final(self).longest_item_lens == old(self).longest_item_lens,
            final(self).exit == (old(self).exit || key == TableKey::Quit),
            final(self).unlocked == (old(self).unlocked != (key == TableKey::Reveal)),
            final(self).selected == match key {
                TableKey::Down => Some(row_after(old(self).selected, old(self).items.len())),
                TableKey::Up => Some(row_before(old(self).selected, old(self).items.len())),
                _ => old(self).selected,
            },
            final(self).scroll == match key {
                TableKey::Down => scroll_of(row_after(old(self).selected, old(self).items.len())),
                TableKey::Up => scroll_of(row_before(old(self).selected, old(self).items.len())),
                _ => old(self).scroll,
            },
    {
        match key {
            TableKey::Quit => self.exit(),
            TableKey::Down => self.next_row(),
            TableKey::Up => self.previous_row(),
            TableKey::Reveal => {
                self.unlocked = !self.unlocked;
            },
            TableKey::Other => {},
        }
    }

    /// Tells whether a cell shows the mask in place of its text.
    pub fn is_masked(&self, row: usize, column: usize) -> (hidden: bool)
        ensures
            hidden == masked(self.unlocked, self.selected, row, column),
    {
        let chosen: usize = match self.selected {
            Some(i) => i,
            None => 0,
        };
        column == PASSWORD_COLUMN && !(self.unlocked && chosen == row)
    }

    /// The text that a cell shows: the field between two line breaks, or
    /// the mask where the cell is masked.
    pub fn cell_text(&self, row: usize, column: usize) -> (text: String)
        requires
            row < self.items@.len(),
            column < COLUMNS,
        ensures
            text@ == seq!['\n'] + (if masked(self.unlocked, self.selected, row, column) {
                MASK@
            } else {
                field(self.items@[row as int]@, column as int)
            }) + seq!['\n'],
    {
        proof {
            reveal_strlit("\n");
        }
        let mut text = String::from_str("\n");
        if self.is_masked(row, column) {
            text.append(MASK);
        } else {
            let fields = self.items[row].ref_array();
            text.append(fields[column].as_str());
        }
        text.append("\n");
        assert(text@ =~= seq!['\n'] + (if masked(self.unlocked, self.selected, row, column) {
            MASK@
        } else {
            field(self.items@[row as int]@, column as int)
        }) + seq!['\n']);
        text
    }
}

} // verus!
