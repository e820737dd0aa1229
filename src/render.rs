//! Drawing the grid into a viewport: a header row of column labels, a header
//! column of row numbers, and the cells, each clipped to the viewport.
use vstd::prelude::*;
use vstd::string::*;
use crate::grid::{TableContent, DEFAULT_COL_WIDTH, DEFAULT_ROW_HEIGHT};
use crate::label::{col_nr_to_label, label_of};
use crate::text::{digits_of, digits_text};

verus! {

/// A rectangle of screen cells.
#[derive(Clone, Copy, Debug, PartialEq, Eq, Structural)]
pub struct Rect {
    pub x: u16,
    pub y: u16,
    pub width: u16,
    pub height: u16,
}

/// The part of `a` that also lies in `b`; empty, with no width or height,
/// where they do not overlap.
pub open spec fn intersect(a: Rect, b: Rect) -> Rect {
    let x1 = if a.x >= b.x { a.x } else { b.x };
    let y1 = if a.y >= b.y { a.y } else { b.y };
    let x2 = if a.x + a.width <= b.x + b.width { a.x + a.width } else { b.x + b.width };
    let y2 = if a.y + a.height <= b.y + b.height { a.y + a.height } else { b.y + b.height };
    Rect {
        x: x1,
        y: y1,
        width: if x2 > x1 { (x2 - x1) as u16 } else { 0 },
        height: if y2 > y1 { (y2 - y1) as u16 } else { 0 },
    }
}

impl Rect {
    /// The part of `self` that also lies in `other`.
    pub fn intersection(self, other: Rect) -> (r: Rect)
        ensures
            r == intersect(self, other),
    {
        let x1 = if self.x >= other.x { self.x } else { other.x };
        let y1 = if self.y >= other.y { self.y } else { other.y };
        let a_right = self.x as u32 + self.width as u32;
        let b_right = other.x as u32 + other.width as u32;
        let a_bottom = self.y as u32 + self.height as u32;
        let b_bottom = other.y as u32 + other.height as u32;
        let x2 = if a_right <= b_right { a_right } else { b_right };
        let y2 = if a_bottom <= b_bottom { a_bottom } else { b_bottom };
        Rect {
            x: x1,
            y: y1,
            width: if x2 > x1 as u32 { (x2 - x1 as u32) as u16 } else { 0 },
            height: if y2 > y1 as u32 { (y2 - y1 as u32) as u16 } else { 0 },
        }
    }
}

/// How a screen cell is drawn.
#[derive(Clone, Copy, Debug, PartialEq, Eq, Structural)]
pub enum CellStyle {
    Plain,
    Selected,
    Header,
    SelectedHeader,
}

/// The style of a content cell.
pub open spec fn body_style(selected: bool) -> CellStyle {
    if selected { CellStyle::Selected } else { CellStyle::Plain }
}

/// The style of a header cell.
pub open spec fn header_style(selected: bool) -> CellStyle {
    if selected { CellStyle::SelectedHeader } else { CellStyle::Header }
}

/// One write into the screen buffer.
pub enum DrawOp {
    /// Blank every screen cell of `area`, in `style`.
    Fill { area: Rect, style: CellStyle },
    /// Write `text` from (`x`, `y`) rightwards, at most `width` columns of it, in `style`.
    Text { x: u16, y: u16, text: String, width: u16, style: CellStyle },
}

/// What a `DrawOp` writes, with its text as characters.
pub enum Stroke {
    Fill { area: Rect, style: CellStyle },
    Text { x: u16, y: u16, text: Seq<char>, width: u16, style: CellStyle },
}

impl View for DrawOp {
    type V = Stroke;

    open spec fn view(&self) -> Stroke {
        match self {
            DrawOp::Fill { area, style } => Stroke::Fill { area: *area, style: *style },
            DrawOp::Text { x, y, text, width, style } => Stroke::Text {
                x: *x,
                y: *y,
                text: text@,
                width: *width,
                style: *style,
            },
        }
    }
}

/// The strokes of a sequence of writes.
pub open spec fn strokes(ops: Seq<DrawOp>) -> Seq<Stroke> {
    ops.map_values(|o: DrawOp| o@)
}

/// The height of row `r` of the drawing: the header row first, then the grid's rows.
pub open spec fn drawn_height(c: &TableContent, r: nat) -> int {
    if r == 0 { DEFAULT_ROW_HEIGHT as int } else { c.height_of(r - 1) }
}

/// The width of column `k` of the drawing: the header column first, then the grid's columns.
pub open spec fn drawn_width(c: &TableContent, k: nat) -> int {
    if k == 0 { DEFAULT_COL_WIDTH as int } else { c.width_of(k - 1) }
}

/// How far below the viewport's top row `r` of the drawing starts.
pub open spec fn row_top(c: &TableContent, r: nat) -> int
    decreases r,
{
    if r == 0 { 0 } else { row_top(c, (r - 1) as nat) + drawn_height(c, (r - 1) as nat) }
}

/// How far right of the viewport's left edge column `k` of the drawing starts.
pub open spec fn col_left(c: &TableContent, k: nat) -> int
    decreases k,
{
    if k == 0 { 0 } else { col_left(c, (k - 1) as nat) + drawn_width(c, (k - 1) as nat) }
}

/// The writes for row `r`, column `k` of the drawing, which starts at the
/// viewport position (`x`, `y`).
pub open spec fn cell_strokes(c: &TableContent, area: Rect, r: nat, k: nat, x: u16, y: u16) -> Seq<
    Stroke,
> {
    let room = (area.x + area.width - x) as u16;
    if r == 0 {
        if k == 0 {
            seq![Stroke::Text { x, y, text: "**"@, width: room, style: CellStyle::Header }]
        } else {
            seq![
                Stroke::Text {
                    x,
                    y,
                    text: label_of((k - 1) as nat),
                    width: room,
                    style: header_style(c.selection.spec_col_selected(k - 1)),
                },
            ]
        }
    } else if k == 0 {
        seq![
            Stroke::Text {
                x,
                y,
                text: digits_of(r),
                width: room,
                style: header_style(c.selection.spec_row_selected(r - 1)),
            },
        ]
    } else {
        let rect = intersect(
            Rect { x, y, width: c.width_of(k - 1) as u16, height: c.height_of(r - 1) as u16 },
            area,
        );
        let style = body_style(c.selection.spec_selected(r - 1, k - 1));
        let fill = Stroke::Fill { area: rect, style };
        match c.cell_of(r - 1, k - 1) {
            Some(cell) => seq![
                fill,
                Stroke::Text { x: rect.x, y: rect.y, text: cell.text(), width: rect.width, style },
            ],
            None => seq![fill],
        }
    }
}

/// The writes for row `r` of the drawing, from column `k` to the viewport's right edge.
pub open spec fn line_strokes(c: &TableContent, area: Rect, r: nat, k: nat) -> Seq<Stroke>
    decreases area.width - k,
{
    if k < area.width && col_left(c, k) < area.width {
        cell_strokes(
            c,
            area,
            r,
            k,
            (area.x + col_left(c, k)) as u16,
            (area.y + row_top(c, r)) as u16,
        ) + line_strokes(c, area, r, k + 1)
    } else {
        Seq::empty()
    }
}

/// The writes for the drawing from row `r` to the viewport's bottom edge.
pub open spec fn grid_strokes(c: &TableContent, area: Rect, r: nat) -> Seq<Stroke>
    decreases area.height - r,
{
    if r < area.height && row_top(c, r) < area.height {
        line_strokes(c, area, r, 0) + grid_strokes(c, area, r + 1)
    } else {
        Seq::empty()
    }
}

/// Rows of positive height start at least one apart.
proof fn lemma_row_top_grows(c: &TableContent, r: nat)
    requires
        c.wf(),
    ensures
        row_top(c, r) >= r,
    decreases r,
{
    if r > 0 {
        lemma_row_top_grows(c, (r - 1) as nat);
    }
}

/// Columns of positive width start at least one apart.
proof fn lemma_col_left_grows(c: &TableContent, k: nat)
    requires
        c.wf(),
    ensures
        col_left(c, k) >= k,
    decreases k,
{
    if k > 0 {
        lemma_col_left_grows(c, (k - 1) as nat);
    }
}

/// The grid as it is drawn into a viewport.
pub struct Table<'a> {
    pub content: &'a TableContent,
}

impl<'a> Table<'a> {
    /// Appends the writes for row `row`, column `col` of the drawing, which
    /// starts at (`x`, `y`) inside `area`.
    fn draw_cell(&self, area: Rect, row: u16, col: u16, x: u16, y: u16, ops: &mut Vec<DrawOp>)
        requires
            self.content.wf(),
            area.x <= x < area.x + area.width,
            area.y <= y < area.y + area.height,
        ensures
            strokes(final(ops)@) == strokes(old(ops)@) + cell_strokes(
                self.content,
                area,
                row as nat,
                col as nat,
                x,
                y,
            ),
    {
        let c = self.content;
        let ghost before = strokes(ops@);
        let room = (area.x as u32 + area.width as u32 - x as u32) as u16;
        if row == 0 || col == 0 {
            let (text, style) = if row == 0 && col == 0 {
                (String::from_str("**"), CellStyle::Header)
            } else if row == 0 {
                let style = if c.selection.col_selected(col - 1) {
                    CellStyle::SelectedHeader
                } else {
                    CellStyle::Header
                };
                (col_nr_to_label(col - 1), style)
            } else {
                let style = if c.selection.row_selected(row - 1) {
                    CellStyle::SelectedHeader
                } else {
                    CellStyle::Header
                };
                (digits_text(row as u64), style)
            };
            ops.push(DrawOp::Text { x, y, text, width: room, style });
            assert(strokes(ops@) =~= before + cell_strokes(c, area, row as nat, col as nat, x, y));
        } else {
            let width = c.col_width((col - 1) as usize);
            let height = c.row_height((row - 1) as usize);
            let rect = Rect { x, y, width, height }.intersection(area);
            let style = if c.selection.selected(row - 1, col - 1) {
                CellStyle::Selected
            } else {
                CellStyle::Plain
            };
            ops.push(DrawOp::Fill { area: rect, style });
            match c.cell((row - 1) as usize, (col - 1) as usize) {
                Some(cell) => {
                    let text = cell.format_string();
                    ops.push(
                        DrawOp::Text { x: rect.x, y: rect.y, text, width: rect.width, style },
                    );
                },
                None => {},
            }
            assert(strokes(ops@) =~= before + cell_strokes(c, area, row as nat, col as nat, x, y));
        }
    }

    /// The writes that draw the grid into `area`: rows of the drawing from the
    /// top edge down and, in each, columns from the left edge rightwards, until
    /// the viewport is filled.
    pub fn render(self, area: Rect) -> (ops: Vec<DrawOp>)
        requires
            self.content.wf(),
            area.x + area.width <= u16::MAX,
            area.y + area.height <= u16::MAX,
        ensures
            strokes(ops@) == grid_strokes(self.content, area, 0),
    {
        let c = self.content;
        let mut ops: Vec<DrawOp> = Vec::new();
        let bottom: u32 = area.y as u32 + area.height as u32;
        let right: u32 = area.x as u32 + area.width as u32;
        let mut row: u16 = 0;
        let mut y: u32 = area.y as u32;
        assert(strokes(ops@) =~= Seq::<Stroke>::empty());
        assert(strokes(ops@) + grid_strokes(c, area, 0) =~= grid_strokes(c, area, 0));
        while y < bottom
            invariant
                c == self.content,
                c.wf(),
                area.x + area.width <= u16::MAX,
                area.y + area.height <= u16::MAX,
                bottom == area.y + area.height,
                right == area.x + area.width,
                y == area.y + row_top(c, row as nat),
                strokes(ops@) + grid_strokes(c, area, row as nat) == grid_strokes(c, area, 0),
            decreases area.height - row,
        {
            proof {
                lemma_row_top_grows(c, row as nat);
            }
            let height: u16 = if row == 0 {
                DEFAULT_ROW_HEIGHT
            } else {
                c.row_height((row - 1) as usize)
            };
            assert(height >= 1);
            let ghost start = strokes(ops@);
            let mut col: u16 = 0;
            let mut x: u32 = area.x as u32;
            assert(start + line_strokes(c, area, row as nat, 0) =~= strokes(ops@) + line_strokes(
                c,
                area,
                row as nat,
                0,
            ));
            while x < right
                invariant
                    c == self.content,
                    c.wf(),
                    area.x + area.width <= u16::MAX,
                    area.y + area.height <= u16::MAX,
                    right == area.x + area.width,
                    y == area.y + row_top(c, row as nat),
                    area.y <= y < area.y + area.height,
                    x == area.x + col_left(c, col as nat),
                    strokes(ops@) + line_strokes(c, area, row as nat, col as nat) == start
                        + line_strokes(c, area, row as nat, 0),
                decreases area.width - col,
            {
                proof {
                    lemma_col_left_grows(c, col as nat);
                }
                let width: u16 = if col == 0 {
                    DEFAULT_COL_WIDTH
                } else {
                    c.col_width((col - 1) as usize)
                };
                assert(width >= 1);
                let ghost prev = strokes(ops@);
                self.draw_cell(area, row, col, x as u16, y as u16, &mut ops);
                assert(line_strokes(c, area, row as nat, col as nat) == cell_strokes(
                    c,
                    area,
                    row as nat,
                    col as nat,
                    x as u16,
                    y as u16,
                ) + line_strokes(c, area, row as nat, (col + 1) as nat));
                assert(strokes(ops@) + line_strokes(c, area, row as nat, (col + 1) as nat) =~= prev
                    + line_strokes(c, area, row as nat, col as nat));
                x = x + width as u32;
                col = col + 1;
            }
            assert(line_strokes(c, area, row as nat, col as nat) =~= Seq::<Stroke>::empty());
            assert(grid_strokes(c, area, row as nat) == line_strokes(c, area, row as nat, 0)
                + grid_strokes(c, area, (row + 1) as nat));
            assert(strokes(ops@) + grid_strokes(c, area, (row + 1) as nat) =~= start
                + grid_strokes(c, area, row as nat));
            y = y + height as u32;
            row = row + 1;
        }
        proof {
            lemma_row_top_grows(c, row as nat);
        }
        assert(grid_strokes(c, area, row as nat) =~= Seq::<Stroke>::empty());
        assert(strokes(ops@) =~= strokes(ops@) + grid_strokes(c, area, row as nat));
        ops
    }
}

} // verus!
