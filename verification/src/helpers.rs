//! Small predicates over moves that the search driver and pickers share.

use vstd::prelude::*;

use crate::board::{board_colors, board_rep, board_side_to_move, rep_color_bb, BoardRep};
use crate::chess::{bb_has, bb_test, ChessMove};

verus! {

/// Does this move land on an enemy piece?
pub open spec fn spec_move_is_capture(mv: ChessMove, r: BoardRep) -> bool {
    bb_has(rep_color_bb(r, r.stm.spec_flip()), mv.to)
}

/// A quiet move neither captures nor promotes.
pub open spec fn spec_move_is_quiet(mv: ChessMove, r: BoardRep) -> bool {
    !spec_move_is_capture(mv, r) && mv.promotion is None
}

/// Does this move land on an enemy piece?
pub fn move_is_capture(mv: ChessMove, board: &cozy_chess::Board) -> (r: bool)
    requires
        mv.wf(),
    ensures
        r == spec_move_is_capture(mv, board_rep(*board)),
{
    let them = board_colors(board, board_side_to_move(board).flip());
    bb_test(them, mv.to)
}

/// A quiet move neither captures nor promotes.
pub fn move_is_quiet(mv: ChessMove, board: &cozy_chess::Board) -> (r: bool)
    requires
        mv.wf(),
    ensures
        r == spec_move_is_quiet(mv, board_rep(*board)),
{
    !move_is_capture(mv, board) && mv.promotion.is_none()
}

} // verus!
