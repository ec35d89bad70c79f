//! The scroll cursor: the index of the selected row, kept inside the table.

use vstd::prelude::*;

verus! {

/// `x`, brought into `lo..=hi`.
pub open spec fn clamped(x: int, lo: int, hi: int) -> int {
    if x < lo {
        lo
    } else if x > hi {
        hi
    } else {
        x
    }
}

/// The selection after a move by `delta` rows in a table of `row_count` rows.
/// An empty table has no selection. A move from no selection starts at the
/// first row. There is no wraparound.
pub open spec fn moved(selected: Option<int>, delta: int, row_count: nat) -> Option<int> {
    if row_count == 0 {
        None
    } else {
        let from: int = match selected {
            Some(i) => i,
            None => 0,
        };
        Some(clamped(from + delta, 0, row_count - 1))
    }
}

/// The selection after the table has come to have `row_count` rows: kept
/// where it still points at a row, else moved to the last row, else dropped.
pub open spec fn fitted(selected: Option<int>, row_count: nat) -> Option<int> {
    match selected {
        None => None,
        Some(_) => moved(selected, 0, row_count),
    }
}

/// One tenth of the terminal's height, rounded to the nearest whole row, a
/// half rounding up.
pub open spec fn line_step_of(terminal_height: int) -> int {
    (terminal_height + 5) / 10
}

/// One row less than the terminal's height, and 0 for a terminal without
/// rows.
pub open spec fn page_height_of(terminal_height: int) -> int {
    if terminal_height >= 1 {
        terminal_height - 1
    } else {
        0
    }
}

/// A move never leaves the table: the selection is a row of it, or the table
/// is empty and there is none.
pub proof fn lemma_moved_in_bounds(selected: Option<int>, delta: int, row_count: nat)
    ensures
        row_count == 0 <==> moved(selected, delta, row_count) is None,
        moved(selected, delta, row_count) matches Some(i) ==> 0 <= i < row_count,
{
}

/// A selection that points at a row stays where it is when the table is
/// loaded again.
pub proof fn lemma_fitted_keeps_valid(selected: int, row_count: nat)
    requires
        0 <= selected < row_count,
    ensures
        fitted(Some(selected), row_count) == Some(selected),
{
}

/// The number of rows a line-down or line-up key moves by.
pub fn line_step(terminal_height: u16) -> (step: i64)
    ensures
        step == line_step_of(terminal_height as int),
{
    let h: i64 = terminal_height as i64;
    (h + 5) / 10
}

/// The number of rows a page-down or page-up key moves by.
pub fn page_height(term_rows: u16) -> (step: i64)
    ensures
        step == page_height_of(term_rows as int),
{
    if term_rows >= 1 {
        (term_rows - 1) as i64
    } else {
        0
    }
}

/// The selected row of the table, if any. Its view is the index of the row
/// as an integer.
pub struct ScrollState {
    selected: Option<usize>,
}

impl View for ScrollState {
    type V = Option<int>;

    closed spec fn view(&self) -> Option<int> {
        match self.selected {
            Some(i) => Some(i as int),
            None => None,
        }
    }
}

impl ScrollState {
    /// A cursor with no selection.
    pub fn new() -> (state: ScrollState)
        ensures
            state@ is None,
    {
        ScrollState { selected: None }
    }

    /// The selected row.
    pub fn selected(&self) -> (row: Option<usize>)
        ensures
            match row {
                Some(i) => self@ == Some(i as int),
                None => self@ is None,
            },
    {
        self.selected
    }

    /// Moves the selection by `delta` rows, down for a positive `delta`, and
    /// stops at the first and at the last row. In an empty table the
    /// selection is unset.
    pub fn move_by(&mut self, delta: i64, row_count: usize)
        ensures
            final(self)@ == moved(old(self)@, delta as int, row_count as nat),
            final(self)@ matches Some(i) ==> 0 <= i < row_count,
            final(self)@ is None <==> row_count == 0,
    {
        if row_count == 0 {
            self.selected = None;
        } else {
            let from: i128 = match self.selected {
                Some(i) => i as i128,
                None => 0,
            };
            let target: i128 = from + delta as i128;
            let last: usize = row_count - 1;
            let row: usize = if target < 0 {
                0
            } else if target > last as i128 {
                last
            } else {
                target as usize
            };
            self.selected = Some(row);
        }
    }

    /// Brings the selection back into a table that has come to have
    /// `row_count` rows. A selection that still points at a row is kept.
    pub fn reclamp(&mut self, row_count: usize)
        ensures
            final(self)@ == fitted(old(self)@, row_count as nat),
            final(self)@ matches Some(i) ==> 0 <= i < row_count,
    {
        if self.selected.is_some() {
            self.move_by(0, row_count);
        }
    }
}

} // verus!
