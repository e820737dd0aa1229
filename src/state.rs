//! The interaction state: the mode, and how each command changes the mode and
//! the selection.
use vstd::prelude::*;
use crate::grid::TableContent;
use crate::selection::{Selection, add_clamp, sub_clamp};

verus! {

/// In `Normal` the arrow commands move the anchor; in `Visual` they resize the extent.
#[derive(Clone, Copy, Debug, PartialEq, Eq, Structural)]
pub enum AppMode {
    Normal,
    Visual,
}

/// One command from the user.
#[derive(Clone, Copy, Debug, PartialEq, Eq, Structural)]
pub enum Command {
    MoveUp,
    MoveDown,
    MoveLeft,
    MoveRight,
    EnterVisual,
    Cancel,
    Quit,
}

/// `v + 1`, held at the largest `u16`.
pub open spec fn inc(v: u16) -> u16 {
    if v < u16::MAX { (v + 1) as u16 } else { v }
}

/// `v - 1`, held at `min`.
pub open spec fn dec(v: u16, min: u16) -> u16 {
    if v > min { (v - 1) as u16 } else { v }
}

/// The mode and selection after `cmd`, from mode `m` and selection `s`.
pub open spec fn step(m: AppMode, s: Selection, cmd: Command) -> (AppMode, Selection) {
    match cmd {
        Command::EnterVisual => (AppMode::Visual, s),
        Command::Cancel => (AppMode::Normal, Selection { rows: 1, cols: 1, ..s }),
        Command::Quit => (m, s),
        _ => if m == AppMode::Normal {
            let moved = match cmd {
                Command::MoveUp => Selection { row: dec(s.row, 0), ..s },
                Command::MoveDown => Selection { row: inc(s.row), ..s },
                Command::MoveLeft => Selection { col: dec(s.col, 0), ..s },
                _ => Selection { col: inc(s.col), ..s },
            };
            (m, Selection { rows: 1, cols: 1, ..moved })
        } else {
            let grown = match cmd {
                Command::MoveUp => Selection { rows: dec(s.rows, 1), ..s },
                Command::MoveDown => Selection { rows: inc(s.rows), ..s },
                Command::MoveLeft => Selection { cols: dec(s.cols, 1), ..s },
                _ => Selection { cols: inc(s.cols), ..s },
            };
            (m, grown)
        },
    }
}

/// The mode and selection after the commands `cmds`, in order.
pub open spec fn run(m: AppMode, s: Selection, cmds: Seq<Command>) -> (AppMode, Selection)
    decreases cmds.len(),
{
    if cmds.len() == 0 {
        (m, s)
    } else {
        let (m1, s1) = step(m, s, cmds[0]);
        run(m1, s1, cmds.drop_first())
    }
}

/// Running `a` and then `b` is running `a` followed by `b`.
pub proof fn lemma_run_append(m: AppMode, s: Selection, a: Seq<Command>, b: Seq<Command>)
    ensures
        run(m, s, a + b) == run(run(m, s, a).0, run(m, s, a).1, b),
    decreases a.len(),
{
    if a.len() > 0 {
        let (m1, s1) = step(m, s, a[0]);
        assert((a + b).drop_first() =~= a.drop_first() + b);
        lemma_run_append(m1, s1, a.drop_first(), b);
    } else {
        assert(a + b =~= b);
    }
}

/// Running one command is one step.
proof fn lemma_run_single(m: AppMode, s: Selection, cmd: Command)
    ensures
        run(m, s, seq![cmd]) == step(m, s, cmd),
{
    let (m1, s1) = step(m, s, cmd);
    assert(seq![cmd].drop_first() =~= Seq::<Command>::empty());
    assert(run(m1, s1, Seq::<Command>::empty()) == (m1, s1));
}

/// Whatever the commands, the extent never drops below one row and one column.
pub proof fn lemma_run_keeps_extent(m: AppMode, s: Selection, cmds: Seq<Command>)
    requires
        s.wf(),
    ensures
        run(m, s, cmds).1.wf(),
    decreases cmds.len(),
{
    if cmds.len() > 0 {
        let (m1, s1) = step(m, s, cmds[0]);
        lemma_run_keeps_extent(m1, s1, cmds.drop_first());
    }
}

/// In `Visual` mode, shrinking the extent up and left any number of times
/// leaves at least one row and one column selected, the anchor in place and
/// the mode unchanged.
pub proof fn lemma_visual_extent_floor(s: Selection, cmds: Seq<Command>)
    requires
        s.wf(),
        forall|i: int| 0 <= i < cmds.len() ==> #[trigger] cmds[i] == Command::MoveUp || cmds[i]
            == Command::MoveLeft,
    ensures
        run(AppMode::Visual, s, cmds).0 == AppMode::Visual,
        run(AppMode::Visual, s, cmds).1.rows >= 1,
        run(AppMode::Visual, s, cmds).1.cols >= 1,
        run(AppMode::Visual, s, cmds).1.rows <= s.rows,
        run(AppMode::Visual, s, cmds).1.cols <= s.cols,
        run(AppMode::Visual, s, cmds).1.row == s.row,
        run(AppMode::Visual, s, cmds).1.col == s.col,
    decreases cmds.len(),
{
    if cmds.len() > 0 {
        let (m1, s1) = step(AppMode::Visual, s, cmds[0]);
        let rest = cmds.drop_first();
        assert forall|i: int| 0 <= i < rest.len() implies #[trigger] rest[i] == Command::MoveUp
            || rest[i] == Command::MoveLeft by {
            assert(rest[i] == cmds[i + 1]);
        }
        lemma_visual_extent_floor(s1, rest);
    }
}

/// In `Normal` mode at the first cell, moving up and left any number of times
/// stays at the first cell.
pub proof fn lemma_clamp_at_origin(s: Selection, cmds: Seq<Command>)
    requires
        s.row == 0,
        s.col == 0,
        forall|i: int| 0 <= i < cmds.len() ==> #[trigger] cmds[i] == Command::MoveUp || cmds[i]
            == Command::MoveLeft,
    ensures
        run(AppMode::Normal, s, cmds).0 == AppMode::Normal,
        run(AppMode::Normal, s, cmds).1.row == 0,
        run(AppMode::Normal, s, cmds).1.col == 0,
    decreases cmds.len(),
{
    if cmds.len() > 0 {
        let (m1, s1) = step(AppMode::Normal, s, cmds[0]);
        let rest = cmds.drop_first();
        assert forall|i: int| 0 <= i < rest.len() implies #[trigger] rest[i] == Command::MoveUp
            || rest[i] == Command::MoveLeft by {
            assert(rest[i] == cmds[i + 1]);
        }
        lemma_clamp_at_origin(s1, rest);
    }
}

/// A directional command.
pub open spec fn is_move(cmd: Command) -> bool {
    cmd == Command::MoveUp || cmd == Command::MoveDown || cmd == Command::MoveLeft || cmd
        == Command::MoveRight
}

/// In `Visual` mode, directional commands change the extent only: the mode
/// and the anchor stay.
pub proof fn lemma_visual_moves_keep_anchor(s: Selection, cmds: Seq<Command>)
    requires
        forall|i: int| 0 <= i < cmds.len() ==> is_move(#[trigger] cmds[i]),
    ensures
        run(AppMode::Visual, s, cmds).0 == AppMode::Visual,
        run(AppMode::Visual, s, cmds).1.row == s.row,
        run(AppMode::Visual, s, cmds).1.col == s.col,
    decreases cmds.len(),
{
    if cmds.len() > 0 {
        let (m1, s1) = step(AppMode::Visual, s, cmds[0]);
        let rest = cmds.drop_first();
        assert forall|i: int| 0 <= i < rest.len() implies is_move(#[trigger] rest[i]) by {
            assert(rest[i] == cmds[i + 1]);
        }
        lemma_visual_moves_keep_anchor(s1, rest);
    }
}

/// Entering `Visual` mode, resizing the extent by any directional commands,
/// then cancelling, gives `Normal` mode with a one-cell extent at the anchor
/// that was there before.
pub proof fn lemma_cancel_resets(m: AppMode, s: Selection, moves: Seq<Command>)
    requires
        forall|i: int| 0 <= i < moves.len() ==> is_move(#[trigger] moves[i]),
    ensures
        run(m, s, seq![Command::EnterVisual] + moves + seq![Command::Cancel]).0 == AppMode::Normal,
        run(m, s, seq![Command::EnterVisual] + moves + seq![Command::Cancel]).1 == (Selection {
            rows: 1,
            cols: 1,
            ..s
        }),
{
    let enter = seq![Command::EnterVisual];
    let cancel = seq![Command::Cancel];
    lemma_run_append(m, s, enter + moves, cancel);
    lemma_run_append(m, s, enter, moves);
    lemma_run_single(m, s, Command::EnterVisual);
    lemma_visual_moves_keep_anchor(s, moves);
    let grown = run(AppMode::Visual, s, moves);
    lemma_run_single(grown.0, grown.1, Command::Cancel);
}

/// The grid with its selection, and the mode.
pub struct AppState {
    pub table_content: TableContent,
    pub mode: AppMode,
}

impl AppState {
    /// The content is well formed: positive sizes and a selection of at least one cell.
    pub open spec fn wf(&self) -> bool {
        self.table_content.wf()
    }

    /// Applies one command. Returns whether it asks to quit.
    pub fn apply(&mut self, cmd: Command) -> (quit: bool)
        ensures
            quit == (cmd == Command::Quit),
            (final(self).mode, final(self).table_content.selection) == step(
                old(self).mode,
                old(self).table_content.selection,
                cmd,
            ),
            final(self).table_content.cells == old(self).table_content.cells,
            final(self).table_content.col_widths == old(self).table_content.col_widths,
            final(self).table_content.row_heights == old(self).table_content.row_heights,
            old(self).wf() ==> final(self).wf(),
    {
        let sel = &mut self.table_content.selection;
        match cmd {
            Command::EnterVisual => {
                self.mode = AppMode::Visual;
            },
            Command::Cancel => {
                self.mode = AppMode::Normal;
                sel.set_single();
            },
            Command::Quit => {
                return true;
            },
            _ => {
                if self.mode == AppMode::Normal {
                    match cmd {
                        Command::MoveUp => sub_clamp(&mut sel.row, 0),
                        Command::MoveDown => add_clamp(&mut sel.row),
                        Command::MoveLeft => sub_clamp(&mut sel.col, 0),
                        _ => add_clamp(&mut sel.col),
                    }
                    sel.set_single();
                } else {
                    match cmd {
                        Command::MoveUp => sub_clamp(&mut sel.rows, 1),
                        Command::MoveDown => add_clamp(&mut sel.rows),
                        Command::MoveLeft => sub_clamp(&mut sel.cols, 1),
                        _ => add_clamp(&mut sel.cols),
                    }
                }
            },
        }
        false
    }
}

} // verus!
