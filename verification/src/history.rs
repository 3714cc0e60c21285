//! The butterfly history table: a cumulative score per (side, moved piece,
//! destination square), raised on beta-cutoffs and decayed toward zero by a
//! gravity term.

use vstd::prelude::*;

use crate::board::{board_piece_on, board_rep, board_side_to_move, rep_piece_on, BoardRep};
use crate::chess::{ChessMove, Color, Piece};
use crate::params::div_trunc;

verus! {

/// The greatest magnitude a history score can reach.
pub const MAX_HISTORY: i32 = 2048;

/// `[color][piece][to-square]` scores, flattened.
pub struct HistoryTable {
    pub table: Vec<i32>,
}

impl HistoryTable {
    /// One slot per (side, piece kind, square), every score within bounds.
    pub open spec fn wf(self) -> bool {
        &&& self.table.len() == 768
        &&& forall|i: int|
            0 <= i < 768 ==> -MAX_HISTORY <= #[trigger] self.table@[i] <= MAX_HISTORY
    }

    /// The flat slot index of a (side, piece, square) triple.
    pub open spec fn spec_slot(c: Color, p: Piece, to: u8) -> int {
        c.spec_index() * 384 + p.spec_index() * 64 + to
    }

    /// The score [`HistoryTable::get`] reads for a move: the slot of the
    /// piece standing on the move's source square, or zero from an empty
    /// square.
    pub open spec fn spec_get(self, r: BoardRep, mv: ChessMove) -> i32 {
        match rep_piece_on(r, mv.from) {
            Some(p) => self.table@[Self::spec_slot(r.stm, p, mv.to)],
            None => 0,
        }
    }

    /// An all-zero table.
    pub fn new() -> (r: Self)
        ensures
            r.wf(),
            forall|i: int| 0 <= i < 768 ==> #[trigger] r.table@[i] == 0,
    {
        let mut table: Vec<i32> = Vec::new();
        let mut i: usize = 0;
        while i < 768
            invariant
                i <= 768,
                table.len() == i,
                forall|j: int| 0 <= j < i ==> #[trigger] table@[j] == 0,
            decreases 768 - i,
        {
            table.push(0);
            i = i + 1;
        }
        HistoryTable { table }
    }

    fn slot(c: Color, p: Piece, to: u8) -> (r: usize)
        requires
            to < 64,
        ensures
            r == Self::spec_slot(c, p, to),
            r < 768,
    {
        c.index() * 384 + p.index() * 64 + to as usize
    }

    /// The score recorded for this move.
    pub fn get(&self, board: &cozy_chess::Board, mv: ChessMove) -> (r: i32)
        requires
            self.wf(),
            mv.wf(),
        ensures
            r == self.spec_get(board_rep(*board), mv),
            -MAX_HISTORY <= r <= MAX_HISTORY,
    {
        match board_piece_on(board, mv.from) {
            Some(p) => {
                let c = board_side_to_move(board);
                self.table[Self::slot(c, p, mv.to)]
            },
            None => 0,
        }
    }

    /// The score a slot moves to: up by `depth²` on a cutoff, down by it
    /// otherwise, decayed by `change·h / MAX`, clamped to the bounds.
    pub open spec fn spec_updated(h: int, depth: u8, cutoff: bool) -> int {
        let change = (depth as int) * (depth as int);
        let decay = div_trunc(change * h, MAX_HISTORY as int);
        let moved = if cutoff {
            h + change - decay
        } else {
            h - change - decay
        };
        if moved < -MAX_HISTORY {
            -MAX_HISTORY as int
        } else if moved > MAX_HISTORY {
            MAX_HISTORY as int
        } else {
            moved
        }
    }

    /// Record the outcome of trying this move: a cutoff raises its slot, a
    /// failure lowers it, and a move from an empty square changes nothing.
    pub fn update(&mut self, board: &cozy_chess::Board, mv: ChessMove, depth: u8, cutoff: bool)
        requires
            old(self).wf(),
            mv.wf(),
        ensures
            final(self).wf(),
            match rep_piece_on(board_rep(*board), mv.from) {
                Some(p) => {
                    let slot = Self::spec_slot(board_rep(*board).stm, p, mv.to);
                    &&& final(self).table@[slot] == Self::spec_updated(
                        old(self).table@[slot] as int,
                        depth,
                        cutoff,
                    )
                    &&& forall|i: int|
                        0 <= i < 768 && i != slot ==> final(self).table@[i] == old(
                            self,
                        ).table@[i]
                },
                None => final(self).table@ == old(self).table@,
            },
    {
        let p = match board_piece_on(board, mv.from) {
            Some(p) => p,
            None => {
                return ;
            },
        };
        let c = board_side_to_move(board);
        let slot = Self::slot(c, p, mv.to);
        let h: i32 = self.table[slot];
        proof {
            let d = depth as int;
            assert(0 <= d * d <= 65025) by (nonlinear_arith)
                requires
                    0 <= d <= 255,
            ;
            let hh = h as int;
            assert(-65025 * 2048 <= d * d * hh <= 65025 * 2048) by (nonlinear_arith)
                requires
                    0 <= d * d <= 65025,
                    -2048 <= hh <= 2048,
            ;
        }
        let change: i32 = depth as i32 * depth as i32;
        let prod: i32 = change * h;
        let decay: i32 = if prod >= 0 {
            ((prod as u32) / (MAX_HISTORY as u32)) as i32
        } else {
            -((((-prod) as u32) / (MAX_HISTORY as u32)) as i32)
        };
        let moved: i32 = if cutoff {
            h + change - decay
        } else {
            h - change - decay
        };
        let clamped: i32 = if moved < -MAX_HISTORY {
            -MAX_HISTORY
        } else if moved > MAX_HISTORY {
            MAX_HISTORY
        } else {
            moved
        };
        self.table.set(slot, clamped);
    }
}

/// Every slot of a history table stays within `[-MAX_HISTORY, MAX_HISTORY]`,
/// whatever sequence of updates is applied.
pub proof fn lemma_history_bounded(h: int, depth: u8, cutoff: bool)
    requires
        -MAX_HISTORY <= h <= MAX_HISTORY,
    ensures
        -MAX_HISTORY <= HistoryTable::spec_updated(h, depth, cutoff) <= MAX_HISTORY,
{
}

} // verus!
