//! The text layout: from a table to display rows that fit the columns of a
//! terminal, keys truncated and values wrapped.

use crate::snapshot::row_changed;
use crate::table::Entry;
use crate::table::FlatTable;
use crate::text::ellipsize;
use crate::text::ellipsized;
use crate::text::lemma_wrapped_bounded;
use crate::text::wrap_to_lines;
use crate::text::wrapped;
use vstd::prelude::*;
use vstd::string::StrSliceExecFns;

verus! {

/// The least width of the key column.
pub const MIN_KEY_WIDTH: u16 = 10;

/// What the decoration of the table takes of the width: one cell for the gap
/// between the two columns, and one for the border on each side.
pub const DECORATION_WIDTH: u16 = 3;

/// The part of the terminal that the table may fill, in character cells.
#[derive(Clone, Copy, Debug)]
pub struct Area {
    pub width: u16,
    pub height: u16,
}

/// The widths of the two columns.
#[derive(Clone, Copy, Debug)]
pub struct Columns {
    pub key_width: u16,
    pub value_width: u16,
}

/// The width of the key column: 35 percent of the available width, rounded
/// down, and at least 10.
pub open spec fn key_width_of(available_width: int) -> int {
    let share = 35 * available_width / 100;
    if share > MIN_KEY_WIDTH {
        share
    } else {
        MIN_KEY_WIDTH as int
    }
}

/// The width of the value column: what the key column and the decoration
/// leave of the available width, and 0 where they leave nothing.
pub open spec fn value_width_of(available_width: int) -> int {
    let rest = available_width - key_width_of(available_width) - DECORATION_WIDTH;
    if rest > 0 {
        rest
    } else {
        0
    }
}

/// The columns of a table that is `available_width` cells wide.
pub open spec fn columns_of(available_width: u16) -> Columns {
    Columns {
        key_width: key_width_of(available_width as int) as u16,
        value_width: value_width_of(available_width as int) as u16,
    }
}

/// The widths of the key column and of the value column in a table that is
/// `available_width` cells wide.
pub fn column_widths(available_width: u16) -> (columns: Columns)
    ensures
        columns == columns_of(available_width),
        columns.key_width == key_width_of(available_width as int),
        columns.value_width == value_width_of(available_width as int),
        columns.key_width >= MIN_KEY_WIDTH,
{
    let share: u32 = 35 * (available_width as u32) / 100;
    let key_width: u16 = if share > MIN_KEY_WIDTH as u32 {
        share as u16
    } else {
        MIN_KEY_WIDTH
    };
    let taken: u32 = key_width as u32 + DECORATION_WIDTH as u32;
    let value_width: u16 = if available_width as u32 > taken {
        (available_width as u32 - taken) as u16
    } else {
        0
    };
    Columns { key_width, value_width }
}

/// `lines` with `marker` after the last character of the last line.
pub open spec fn marked(lines: Seq<Seq<char>>, marker: char) -> Seq<Seq<char>> {
    if lines.len() == 0 {
        lines
    } else {
        lines.update(lines.len() - 1, lines.last().push(marker))
    }
}

/// A display row as mathematics sees it.
pub struct RowView {
    pub key: Seq<char>,
    pub key_indent: nat,
    pub lines: Seq<Seq<char>>,
    pub changed: bool,
}

/// One row of the table as the terminal shows it.
pub struct DisplayRow {
    /// The key as its cell shows it.
    pub key: String,
    /// The blank cells before the key, which align it to the right.
    pub key_indent: usize,
    /// The lines of the value.
    pub lines: Vec<String>,
    /// Whether the row is one of the changed rows, which are styled apart.
    pub changed: bool,
}

impl View for DisplayRow {
    type V = RowView;

    open spec fn view(&self) -> RowView {
        RowView {
            key: self.key@,
            key_indent: self.key_indent as nat,
            lines: self.lines.deep_view(),
            changed: self.changed,
        }
    }
}

impl DisplayRow {
    /// The height of the row in terminal lines: the number of lines of its
    /// value, and at least 1.
    pub fn height(&self) -> (h: usize)
        ensures
            h == if self@.lines.len() >= 1 {
                self@.lines.len()
            } else {
                1
            },
    {
        if self.lines.len() >= 1 {
            self.lines.len()
        } else {
            1
        }
    }
}

/// How `row` is shown: the key truncated to the key column and aligned to
/// the right, the value wrapped to the value column, the marker after the
/// value of the highlighted key, and whether the row differs from the
/// baseline.
pub open spec fn display_row(
    baseline: Seq<Entry>,
    row: Entry,
    highlight: Option<Seq<char>>,
    marker: char,
    columns: Columns,
) -> RowView {
    let key = ellipsized(row.0, columns.key_width as nat);
    let lines = wrapped(row.1, columns.value_width as nat);
    RowView {
        key,
        key_indent: (columns.key_width - key.len()) as nat,
        lines: if highlight == Some(row.0) {
            marked(lines, marker)
        } else {
            lines
        },
        changed: row_changed(baseline, row),
    }
}

/// The rows of `current`, each as [`display_row`] shows it.
pub open spec fn display_rows(
    baseline: Seq<Entry>,
    current: Seq<Entry>,
    highlight: Option<Seq<char>>,
    marker: char,
    columns: Columns,
) -> Seq<RowView> {
    Seq::new(current.len(), |i: int| display_row(baseline, current[i], highlight, marker, columns))
}

/// The views of display rows, one by one.
pub open spec fn rows_view(rows: Seq<DisplayRow>) -> Seq<RowView> {
    Seq::new(rows.len(), |i: int| rows[i]@)
}

/// A display row fits its columns: the key with its indent fills the key
/// column exactly, the value has at least one line, and no line is longer
/// than the value column, but for the one cell that the marker takes.
pub proof fn lemma_display_row_fits(
    baseline: Seq<Entry>,
    row: Entry,
    highlight: Option<Seq<char>>,
    marker: char,
    columns: Columns,
)
    requires
        columns.value_width >= 1,
    ensures
        ({
            let shown = display_row(baseline, row, highlight, marker, columns);
            &&& shown.key.len() + shown.key_indent == columns.key_width
            &&& shown.lines.len() >= 1
            &&& shown.lines.len() == wrapped(row.1, columns.value_width as nat).len()
            &&& forall|i: int|
                0 <= i < shown.lines.len() ==> (#[trigger] shown.lines[i]).len()
                    <= columns.value_width + 1
            &&& highlight != Some(row.0) ==> forall|i: int|
                0 <= i < shown.lines.len() ==> (#[trigger] shown.lines[i]).len()
                    <= columns.value_width
        }),
{
    lemma_wrapped_bounded(row.1, columns.value_width as nat);
}

/// The characters of the key, where there is one.
pub open spec fn key_view(key: Option<&String>) -> Option<Seq<char>> {
    match key {
        Some(k) => Some(k@),
        None => None,
    }
}

/// `lines` with `marker` appended to the last of them.
fn mark_last(lines: Vec<String>, marker: char) -> (out: Vec<String>)
    ensures
        out.deep_view() == marked(lines.deep_view(), marker),
{
    let mut out = lines;
    match out.pop() {
        Some(last) => {
            let mut last = last;
            last.push(marker);
            out.push(last);
        },
        None => {},
    }
    out
}

/// Lays out the rows of `table` for a terminal area.
///
/// There is one display row for each row of `table`, in the table's order.
/// The key column takes 35 percent of the area's width and at least 10 cells.
/// The value column takes what the key column and 3 cells of decoration
/// leave: the gap between the columns and the two borders. A key is
/// truncated to its column with [`ellipsize`] and aligned to the right. A
/// value is wrapped to its column with [`wrap_to_lines`]. The row whose key is
/// `highlight_key` gets `marker` after the last character of its value. A row
/// is changed where `baseline` holds no such key or another value for it.
///
/// The area's height bounds nothing here: every row is laid out, and the
/// caller shows the rows that fit.
pub fn layout(
    table: &FlatTable,
    baseline: &FlatTable,
    highlight_key: Option<&String>,
    marker: char,
    area: Area,
) -> (rows: Vec<DisplayRow>)
    ensures
        rows_view(rows@) == display_rows(
            baseline@,
            table@,
            key_view(highlight_key),
            marker,
            columns_of(area.width),
        ),
        rows.len() == table@.len(),
{
    let columns = column_widths(area.width);
    let ghost shown = display_rows(baseline@, table@, key_view(highlight_key), marker, columns);
    let mut rows: Vec<DisplayRow> = Vec::new();
    let n = table.len();
    let mut i: usize = 0;
    while i < n
        invariant
            i <= n,
            n == table@.len(),
            columns == columns_of(area.width),
            shown == display_rows(baseline@, table@, key_view(highlight_key), marker, columns),
            rows.len() == i,
            forall|j: int| 0 <= j < i ==> (#[trigger] rows[j])@ == shown[j],
        decreases n - i,
    {
        match table.get_index(i) {
            Some((key, value)) => {
                let changed = match baseline.get(key.as_str()) {
                    None => true,
                    Some(was) => !(*was == *value),
                };
                let key_text = ellipsize(key.as_str(), columns.key_width as usize);
                let key_indent = columns.key_width as usize - key_text.as_str().unicode_len();
                let wrapped_value = wrap_to_lines(value.as_str(), columns.value_width as usize);
                let highlighted = match highlight_key {
                    Some(marked_key) => *marked_key == *key,
                    None => false,
                };
                let lines = if highlighted {
                    mark_last(wrapped_value, marker)
                } else {
                    wrapped_value
                };
                rows.push(DisplayRow { key: key_text, key_indent, lines, changed });
            },
            None => {},
        }
        i += 1;
    }
    rows
}

} // verus!
