use visp::grid::{TableCell, TableContent};
use visp::selection::{add_clamp, sub_clamp, Selection};
use visp::state::{AppMode, AppState, Command};

fn state_at(row: u16, col: u16) -> AppState {
    AppState {
        table_content: TableContent {
            cells: vec![vec![TableCell::Value(1)]],
            col_widths: vec![],
            row_heights: vec![],
            selection: Selection { row, col, rows: 1, cols: 1 },
        },
        mode: AppMode::Normal,
    }
}

fn extent(s: &AppState) -> (u16, u16) {
    (s.table_content.selection.rows, s.table_content.selection.cols)
}

fn anchor(s: &AppState) -> (u16, u16) {
    (s.table_content.selection.row, s.table_content.selection.col)
}

#[test]
fn clamps_saturate() {
    let mut v: u16 = 5;
    add_clamp(&mut v);
    assert_eq!(v, 6);
    let mut top: u16 = u16::MAX;
    add_clamp(&mut top);
    assert_eq!(top, u16::MAX);
    let mut w: u16 = 3;
    sub_clamp(&mut w, 0);
    assert_eq!(w, 2);
    let mut floor: u16 = 1;
    sub_clamp(&mut floor, 1);
    assert_eq!(floor, 1);
    let mut zero: u16 = 0;
    sub_clamp(&mut zero, 0);
    assert_eq!(zero, 0);
}

#[test]
fn moves_up_and_left_stay_at_origin() {
    let mut s = state_at(0, 0);
    for i in 0..20 {
        let cmd = if i % 2 == 0 { Command::MoveUp } else { Command::MoveLeft };
        assert!(!s.apply(cmd));
        assert_eq!(anchor(&s), (0, 0));
        assert_eq!(s.mode, AppMode::Normal);
    }
}

#[test]
fn normal_moves_shift_anchor_and_collapse_extent() {
    let mut s = state_at(2, 2);
    s.table_content.selection.rows = 3;
    s.table_content.selection.cols = 4;
    s.apply(Command::MoveDown);
    assert_eq!(anchor(&s), (3, 2));
    assert_eq!(extent(&s), (1, 1));
    s.apply(Command::MoveRight);
    s.apply(Command::MoveRight);
    assert_eq!(anchor(&s), (3, 4));
    s.apply(Command::MoveUp);
    s.apply(Command::MoveLeft);
    assert_eq!(anchor(&s), (2, 3));
}

#[test]
fn visual_extent_never_below_one() {
    let mut s = state_at(4, 4);
    s.apply(Command::EnterVisual);
    s.apply(Command::MoveDown);
    s.apply(Command::MoveRight);
    assert_eq!(extent(&s), (2, 2));
    for _ in 0..10 {
        s.apply(Command::MoveUp);
        s.apply(Command::MoveLeft);
        let (rows, cols) = extent(&s);
        assert!(rows >= 1 && cols >= 1);
    }
    assert_eq!(extent(&s), (1, 1));
    assert_eq!(anchor(&s), (4, 4));
    assert_eq!(s.mode, AppMode::Visual);
}

#[test]
fn cancel_resets_mode_and_extent() {
    let mut s = state_at(1, 2);
    s.apply(Command::EnterVisual);
    assert_eq!(s.mode, AppMode::Visual);
    assert_eq!(extent(&s), (1, 1));
    s.apply(Command::MoveDown);
    s.apply(Command::MoveDown);
    s.apply(Command::MoveRight);
    assert_eq!(extent(&s), (3, 2));
    s.apply(Command::Cancel);
    assert_eq!(s.mode, AppMode::Normal);
    assert_eq!(extent(&s), (1, 1));
    assert_eq!(anchor(&s), (1, 2));
    s.apply(Command::Cancel);
    assert_eq!(s.mode, AppMode::Normal);
}

#[test]
fn quit_changes_nothing() {
    let mut s = state_at(3, 3);
    s.apply(Command::EnterVisual);
    assert!(s.apply(Command::Quit));
    assert_eq!(s.mode, AppMode::Visual);
    assert_eq!(anchor(&s), (3, 3));
}

#[test]
fn containment() {
    let sel = Selection { row: 1, col: 1, rows: 2, cols: 2 };
    assert!(sel.selected(1, 1));
    assert!(sel.selected(2, 2));
    assert!(!sel.selected(0, 0));
    assert!(!sel.selected(3, 3));
    assert!(sel.row_selected(2));
    assert!(!sel.row_selected(3));
    assert!(sel.col_selected(1));
    assert!(!sel.col_selected(0));
}

#[test]
fn containment_near_largest_index() {
    let sel = Selection { row: u16::MAX, col: u16::MAX - 1, rows: 5, cols: 5 };
    assert!(sel.selected(u16::MAX, u16::MAX));
    assert!(!sel.row_selected(0));
    let mut single = sel;
    single.set_single();
    assert_eq!((single.rows, single.cols), (1, 1));
    assert_eq!((single.row, single.col), (u16::MAX, u16::MAX - 1));
}
