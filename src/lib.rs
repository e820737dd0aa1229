//! A terminal spreadsheet grid: column labels, cell contents with per-row and
//! per-column sizes, a modal selection, and the drawing of the grid into a
//! viewport.
pub mod grid;
pub mod label;
pub mod render;
pub mod selection;
pub mod state;
pub mod text;
