//! The selection over the grid: an anchor cell and an extent of rows and columns.
use vstd::prelude::*;

verus! {

/// Adds one to `val` unless it already holds the largest `u16`.
pub fn add_clamp(val: &mut u16)
    ensures
        *final(val) == if *old(val) < u16::MAX { (*old(val) + 1) as u16 } else { *old(val) },
{
    if *val < u16::MAX {
        *val += 1;
    }
}

/// Takes one from `val` unless that would bring it to or below `min`.
pub fn sub_clamp(val: &mut u16, min: u16)
    ensures
        *final(val) == if *old(val) > min { (*old(val) - 1) as u16 } else { *old(val) },
{
    if *val > min {
        *val -= 1;
    }
}

/// A rectangle of cells: the anchor at (`row`, `col`) and `rows` by `cols` cells from there.
#[derive(Clone, Copy, Debug, PartialEq, Eq, Structural)]
pub struct Selection {
    pub row: u16,
    pub col: u16,
    pub rows: u16,
    pub cols: u16,
}

impl Selection {
    /// The extent always covers at least one row and one column.
    pub open spec fn wf(&self) -> bool {
        self.rows >= 1 && self.cols >= 1
    }

    /// Row `r` lies within the selected rows.
    pub open spec fn spec_row_selected(&self, r: int) -> bool {
        self.row <= r < self.row + self.rows
    }

    /// Column `c` lies within the selected columns.
    pub open spec fn spec_col_selected(&self, c: int) -> bool {
        self.col <= c < self.col + self.cols
    }

    /// Cell (`r`, `c`) lies within the selection.
    pub open spec fn spec_selected(&self, r: int, c: int) -> bool {
        self.spec_row_selected(r) && self.spec_col_selected(c)
    }

    /// Collapses the extent to the anchor cell alone.
    pub fn set_single(&mut self)
        ensures
            *final(self) == (Selection { rows: 1, cols: 1, ..*old(self) }),
    {
        self.rows = 1;
        self.cols = 1;
    }

    /// Whether grid row `row` lies within the selected rows.
    pub fn row_selected(&self, row: u16) -> (r: bool)
        ensures
            r == self.spec_row_selected(row as int),
    {
        row >= self.row && (row as u32) < self.row as u32 + self.rows as u32
    }

    /// Whether grid column `col` lies within the selected columns.
    pub fn col_selected(&self, col: u16) -> (r: bool)
        ensures
            r == self.spec_col_selected(col as int),
    {
        col >= self.col && (col as u32) < self.col as u32 + self.cols as u32
    }

    /// Whether the cell at (`row`, `col`) lies within the selection.
    pub fn selected(&self, row: u16, col: u16) -> (r: bool)
        ensures
            r == self.spec_selected(row as int, col as int),
    {
        self.row_selected(row) && self.col_selected(col)
    }
}

} // verus!
