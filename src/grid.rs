//! The grid's contents: ragged rows of cells, with optional per-row heights and
//! per-column widths.
use vstd::prelude::*;
use crate::selection::Selection;
use crate::text::{decimal_of, decimal_text};

verus! {

/// Height of a row without an explicit height.
pub const DEFAULT_ROW_HEIGHT: u16 = 1;

/// Width of a column without an explicit width.
pub const DEFAULT_COL_WIDTH: u16 = 4;

/// What a cell holds.
pub enum TableCell {
    Empty,
    String(String),
    Value(i32),
}

impl TableCell {
    /// The text shown for the cell.
    pub open spec fn text(&self) -> Seq<char> {
        match self {
            TableCell::Empty => Seq::empty(),
            TableCell::String(s) => s@,
            TableCell::Value(v) => decimal_of(*v as int),
        }
    }

    /// The text shown for the cell: nothing, the string itself, or the number in decimal.
    pub fn format_string(&self) -> (r: String)
        ensures
            r@ == self.text(),
    {
        match self {
            TableCell::Empty => {
                let out = String::new();
                assert(out@ =~= self.text());
                out
            },
            TableCell::String(s) => s.clone(),
            TableCell::Value(v) => decimal_text(*v as i64),
        }
    }
}

/// Cells in row-major order, rows of any length, with the explicit sizes of
/// the first rows and columns.
pub struct TableContent {
    pub cells: Vec<Vec<TableCell>>,
    pub col_widths: Vec<u16>,
    pub row_heights: Vec<u16>,
    pub selection: Selection,
}

impl TableContent {
    /// Every explicit size is positive and the selection is well formed.
    pub open spec fn wf(&self) -> bool {
        &&& forall|i: int| 0 <= i < self.col_widths@.len() ==> #[trigger] self.col_widths@[i] >= 1
        &&& forall|i: int| 0 <= i < self.row_heights@.len() ==> #[trigger] self.row_heights@[i] >= 1
        &&& self.selection.wf()
    }

    /// The height of row `r`: its explicit height if it has one, else the default.
    pub open spec fn height_of(&self, r: int) -> int {
        if 0 <= r < self.row_heights@.len() {
            self.row_heights@[r] as int
        } else {
            DEFAULT_ROW_HEIGHT as int
        }
    }

    /// The width of column `c`: its explicit width if it has one, else the default.
    pub open spec fn width_of(&self, c: int) -> int {
        if 0 <= c < self.col_widths@.len() {
            self.col_widths@[c] as int
        } else {
            DEFAULT_COL_WIDTH as int
        }
    }

    /// The cell at (`r`, `c`), if row `r` reaches that far.
    pub open spec fn cell_of(&self, r: int, c: int) -> Option<TableCell> {
        if 0 <= r < self.cells@.len() && 0 <= c < self.cells@[r]@.len() {
            Some(self.cells@[r]@[c])
        } else {
            None
        }
    }

    /// Tells whether the content is well formed.
    pub fn is_well_formed(&self) -> (r: bool)
        ensures
            r == self.wf(),
    {
        let mut i: usize = 0;
        while i < self.col_widths.len()
            invariant
                i <= self.col_widths@.len(),
                forall|j: int| 0 <= j < i ==> #[trigger] self.col_widths@[j] >= 1,
            decreases self.col_widths@.len() - i,
        {
            if self.col_widths[i] == 0 {
                return false;
            }
            i += 1;
        }
        let mut k: usize = 0;
        while k < self.row_heights.len()
            invariant
                k <= self.row_heights@.len(),
                forall|j: int| 0 <= j < k ==> #[trigger] self.row_heights@[j] >= 1,
            decreases self.row_heights@.len() - k,
        {
            if self.row_heights[k] == 0 {
                return false;
            }
            k += 1;
        }
        self.selection.rows >= 1 && self.selection.cols >= 1
    }

    /// The height of grid row `index`; the default beyond the explicit heights.
    pub fn row_height(&self, index: usize) -> (r: u16)
        ensures
            r == self.height_of(index as int),
            self.wf() ==> r >= 1,
    {
        if index < self.row_heights.len() {
            self.row_heights[index]
        } else {
            DEFAULT_ROW_HEIGHT
        }
    }

    /// The width of grid column `index`; the default beyond the explicit widths.
    pub fn col_width(&self, index: usize) -> (r: u16)
        ensures
            r == self.width_of(index as int),
            self.wf() ==> r >= 1,
    {
        if index < self.col_widths.len() {
            self.col_widths[index]
        } else {
            DEFAULT_COL_WIDTH
        }
    }

    /// The cell at (`row`, `col`); none where the row is shorter or missing.
    pub fn cell(&self, row: usize, col: usize) -> (r: Option<&TableCell>)
        ensures
            r == match self.cell_of(row as int, col as int) {
                Some(c) => Some(&c),
                None => None::<&TableCell>,
            },
    {
        if row < self.cells.len() && col < self.cells[row].len() {
            Some(&self.cells[row][col])
        } else {
            None
        }
    }
}

} // verus!
