//! A board paired with its NNUE accumulators. A child position is produced
//! by playing a move and patching the accumulators on exactly the squares
//! whose occupancy changed -- a handful per move; a null move hands the
//! turn over and keeps the accumulators exactly.

use vstd::prelude::*;

use crate::board::{
    board_colors, board_null_move, board_piece_on, board_play, board_rep, board_side_to_move,
    rep_color_on, rep_piece_on, BoardRep,
};
use crate::chess::{bb_test, ChessMove, Color, Piece};
use crate::eval::Eval;
use crate::nnue::{Nnue, NnueState};

verus! {

/// A signed 32-bit value narrowed to 16 bits, two's-complement style.
pub open spec fn spec_trunc_i16(x: int) -> int {
    let m = x % 0x10000;
    if m >= 0x8000 {
        m - 0x10000
    } else {
        m
    }
}

/// Narrow to 16 bits exactly as an `as i16` cast does.
pub fn trunc_to_i16(v: i32) -> (r: i16)
    ensures
        r as int == spec_trunc_i16(v as int),
{
    let u: u32 = if v >= 0 {
        (v as u32) % 0x10000
    } else {
        proof {
            vstd::arithmetic::div_mod::lemma_mod_multiples_vanish(
                0x10000,
                v as int,
                0x10000,
            );
        }
        (((v as i64) + 0x100000000) as u64 % 0x10000) as u32
    };
    proof {
        if v < 0 {
            vstd::arithmetic::div_mod::lemma_mod_multiples_vanish(0x10000, v as int, 0x10000);
            assert((v + 0x100000000) % 0x10000 == v as int % 0x10000) by {
                assert(0x100000000int == 0x10000 * 0x10000);
                vstd::arithmetic::div_mod::lemma_mod_multiples_vanish(
                    0x10000,
                    v as int,
                    0x10000,
                );
            }
        }
    }
    if u >= 0x8000 {
        ((u as i32) - 0x10000) as i16
    } else {
        u as i16
    }
}

/// The feature row a square contributes for one perspective: the weights
/// of the feature of whatever piece stands there, if one does.
pub open spec fn spec_square_row(model: Nnue, r: BoardRep, perspective: Color, sq: u8) -> Option<
    Seq<i16>,
> {
    match rep_color_on(r, sq) {
        Some(c) => match rep_piece_on(r, sq) {
            Some(p) => Some(
                model.ft.weights@[crate::nnue::spec_feature(perspective, c, p, sq)]@,
            ),
            None => None,
        },
        None => None,
    }
}

/// The accumulator a perspective holds after the squares below `n` are
/// folded in: the biases plus one feature row per piece, in square order.
pub open spec fn spec_acc_prefix(model: Nnue, r: BoardRep, perspective: Color, n: int) -> Seq<
    i16,
>
    decreases n,
{
    if n <= 0 {
        model.ft.biases@
    } else {
        let prev = spec_acc_prefix(model, r, perspective, n - 1);
        match spec_square_row(model, r, perspective, (n - 1) as u8) {
            Some(w) => crate::nnue::spec_vec_add(prev, w),
            None => prev,
        }
    }
}

/// The accumulator invariant: the biases plus the feature rows of every
/// piece on the board, per perspective.
pub open spec fn spec_accumulator(model: Nnue, r: BoardRep, perspective: Color) -> Seq<i16> {
    spec_acc_prefix(model, r, perspective, 64)
}

/// A fold that reads squares below `split` from the child board and the
/// rest from the parent: the road from the parent's accumulator to the
/// child's, one square at a time.
pub open spec fn spec_acc_hybrid(
    model: Nnue,
    rc: BoardRep,
    rp: BoardRep,
    perspective: Color,
    split: int,
    n: int,
) -> Seq<i16>
    decreases n,
{
    if n <= 0 {
        model.ft.biases@
    } else {
        let prev = spec_acc_hybrid(model, rc, rp, perspective, split, n - 1);
        let row = if n - 1 < split {
            spec_square_row(model, rc, perspective, (n - 1) as u8)
        } else {
            spec_square_row(model, rp, perspective, (n - 1) as u8)
        };
        match row {
            Some(w) => crate::nnue::spec_vec_add(prev, w),
            None => prev,
        }
    }
}

/// Replacing square `s`'s contribution: take the parent's row out, put the
/// child's row in.
pub open spec fn spec_square_patch(
    model: Nnue,
    rc: BoardRep,
    rp: BoardRep,
    perspective: Color,
    s: u8,
    acc: Seq<i16>,
) -> Seq<i16> {
    let subbed = match spec_square_row(model, rp, perspective, s) {
        Some(w) => crate::nnue::spec_vec_sub(acc, w),
        None => acc,
    };
    match spec_square_row(model, rc, perspective, s) {
        Some(w) => crate::nnue::spec_vec_add(subbed, w),
        None => subbed,
    }
}

/// Every feature index is a slot of the transformer.
proof fn lemma_feature_bound(perspective: Color, c: Color, p: Piece, sq: u8)
    requires
        sq < 64,
    ensures
        0 <= crate::nnue::spec_feature(perspective, c, p, sq) < 768,
{
}

/// An occupied square's row is as wide as the bias vector.
proof fn lemma_row_len(model: Nnue, r: BoardRep, perspective: Color, sq: u8)
    requires
        model.wf(),
        sq < 64,
    ensures
        spec_square_row(model, r, perspective, sq) matches Some(w) ==> w.len()
            == model.ft.biases@.len(),
{
    if spec_square_row(model, r, perspective, sq) is Some {
        let c = rep_color_on(r, sq)->Some_0;
        let p = rep_piece_on(r, sq)->Some_0;
        lemma_feature_bound(perspective, c, p, sq);
    }
}

/// Every hybrid fold keeps the bias vector's width.
proof fn lemma_hybrid_len(model: Nnue, rc: BoardRep, rp: BoardRep, perspective: Color, split: int, n: int)
    requires
        n >= 0,
    ensures
        spec_acc_hybrid(model, rc, rp, perspective, split, n).len() == model.ft.biases@.len(),
    decreases n,
{
    if n > 0 {
        lemma_hybrid_len(model, rc, rp, perspective, split, n - 1);
    }
}

/// Below both splits the two folds read the same board, so they agree.
proof fn lemma_hybrid_split_agree(
    model: Nnue,
    rc: BoardRep,
    rp: BoardRep,
    perspective: Color,
    s1: int,
    s2: int,
    n: int,
)
    requires
        n <= s1,
        n <= s2,
    ensures
        spec_acc_hybrid(model, rc, rp, perspective, s1, n) == spec_acc_hybrid(
            model,
            rc,
            rp,
            perspective,
            s2,
            n,
        ),
    decreases n,
{
    if n > 0 {
        lemma_hybrid_split_agree(model, rc, rp, perspective, s1, s2, n - 1);
    }
}

/// With the split past the end, the hybrid is the child's own fold.
proof fn lemma_hybrid_child(model: Nnue, rc: BoardRep, rp: BoardRep, perspective: Color, split: int, n: int)
    requires
        split >= n,
    ensures
        spec_acc_hybrid(model, rc, rp, perspective, split, n) == spec_acc_prefix(
            model,
            rc,
            perspective,
            n,
        ),
    decreases n,
{
    if n > 0 {
        lemma_hybrid_child(model, rc, rp, perspective, split, n - 1);
    }
}

/// With the split at zero, the hybrid is the parent's own fold.
proof fn lemma_hybrid_parent(model: Nnue, rc: BoardRep, rp: BoardRep, perspective: Color, split: int, n: int)
    requires
        split <= 0,
    ensures
        spec_acc_hybrid(model, rc, rp, perspective, split, n) == spec_acc_prefix(
            model,
            rp,
            perspective,
            n,
        ),
    decreases n,
{
    if n > 0 {
        lemma_hybrid_parent(model, rc, rp, perspective, split, n - 1);
    }
}

/// Moving the split one square up patches exactly that square's
/// contribution, however much fold lies above it.
proof fn lemma_hybrid_step_upto(
    model: Nnue,
    rc: BoardRep,
    rp: BoardRep,
    perspective: Color,
    s: u8,
    n: int,
)
    requires
        model.wf(),
        s < 64,
        s as int + 1 <= n <= 64,
    ensures
        spec_acc_hybrid(model, rc, rp, perspective, s as int + 1, n) == spec_square_patch(
            model,
            rc,
            rp,
            perspective,
            s,
            spec_acc_hybrid(model, rc, rp, perspective, s as int, n),
        ),
    decreases n,
{
    let sp = s as int;
    let biases_len = model.ft.biases@.len() as int;
    lemma_row_len(model, rp, perspective, s);
    lemma_row_len(model, rc, perspective, s);
    if n == sp + 1 {
        lemma_hybrid_split_agree(model, rc, rp, perspective, sp, sp + 1, sp);
        lemma_hybrid_len(model, rc, rp, perspective, sp, sp);
        let base = spec_acc_hybrid(model, rc, rp, perspective, sp, sp);
        match spec_square_row(model, rp, perspective, s) {
            Some(wp) => {
                crate::nnue::lemma_nnue_add_sub_cancel(base, wp);
                assert(crate::nnue::spec_vec_sub(
                    crate::nnue::spec_vec_add(base, wp),
                    wp,
                ) =~= base);
            },
            None => {},
        }
    } else {
        lemma_hybrid_step_upto(model, rc, rp, perspective, s, n - 1);
        lemma_hybrid_len(model, rc, rp, perspective, sp, n - 1);
        let x = spec_acc_hybrid(model, rc, rp, perspective, sp, n - 1);
        lemma_row_len(model, rp, perspective, (n - 1) as u8);
        let rown = spec_square_row(model, rp, perspective, (n - 1) as u8);
        match rown {
            None => {},
            Some(w) => {
                // Push the new square's row past the patch of square `s`.
                match (
                    spec_square_row(model, rp, perspective, s),
                    spec_square_row(model, rc, perspective, s),
                ) {
                    (None, None) => {},
                    (None, Some(wc)) => {
                        crate::nnue::lemma_nnue_add_commutes(x, wc, w);
                        assert(crate::nnue::spec_vec_add(
                            crate::nnue::spec_vec_add(x, wc),
                            w,
                        ) =~= crate::nnue::spec_vec_add(crate::nnue::spec_vec_add(x, w), wc));
                    },
                    (Some(wp), None) => {
                        crate::nnue::lemma_nnue_add_sub_commute(x, w, wp);
                        assert(crate::nnue::spec_vec_sub(
                            crate::nnue::spec_vec_add(x, w),
                            wp,
                        ) =~= crate::nnue::spec_vec_add(crate::nnue::spec_vec_sub(x, wp), w));
                    },
                    (Some(wp), Some(wc)) => {
                        crate::nnue::lemma_nnue_add_sub_commute(x, w, wp);
                        assert(crate::nnue::spec_vec_sub(
                            crate::nnue::spec_vec_add(x, w),
                            wp,
                        ) =~= crate::nnue::spec_vec_add(crate::nnue::spec_vec_sub(x, wp), w));
                        crate::nnue::lemma_nnue_add_commutes(
                            crate::nnue::spec_vec_sub(x, wp),
                            wc,
                            w,
                        );
                        assert(crate::nnue::spec_vec_add(
                            crate::nnue::spec_vec_add(crate::nnue::spec_vec_sub(x, wp), wc),
                            w,
                        ) =~= crate::nnue::spec_vec_add(
                            crate::nnue::spec_vec_add(crate::nnue::spec_vec_sub(x, wp), w),
                            wc,
                        ));
                    },
                }
            },
        }
    }
}

/// Two boards with the same color and piece sets feed the fold the same
/// rows, so the accumulators agree.
proof fn lemma_acc_same_sets(model: Nnue, r1: BoardRep, r2: BoardRep, perspective: Color, n: int)
    requires
        r1.white == r2.white,
        r1.black == r2.black,
        r1.pawns == r2.pawns,
        r1.knights == r2.knights,
        r1.bishops == r2.bishops,
        r1.rooks == r2.rooks,
        r1.queens == r2.queens,
        r1.kings == r2.kings,
    ensures
        spec_acc_prefix(model, r1, perspective, n) == spec_acc_prefix(model, r2, perspective, n),
    decreases n,
{
    if n > 0 {
        lemma_acc_same_sets(model, r1, r2, perspective, n - 1);
    }
}

/// A board and the matching accumulators.
#[derive(Clone)]
pub struct Position {
    pub board: cozy_chess::Board,
    pub state: NnueState,
}

impl Position {
    /// Build a position from scratch: start from the biases and fold in
    /// one feature per piece on the board, square by square, so the
    /// accumulators hold exactly the invariant sum.
    pub fn new(model: &Nnue, board: cozy_chess::Board) -> (r: Position)
        requires
            model.wf(),
        ensures
            r.board == board,
            r.state.white@ == spec_accumulator(*model, board_rep(board), Color::White),
            r.state.black@ == spec_accumulator(*model, board_rep(board), Color::Black),
            r.wf(*model),
    {
        let ghost rep = board_rep(board);
        let mut state = model.new_state();
        let white_bb: u64 = board_colors(&board, Color::White);
        let black_bb: u64 = board_colors(&board, Color::Black);
        let mut sq: u8 = 0;
        while sq < 64
            invariant
                model.wf(),
                rep == board_rep(board),
                white_bb == rep.white,
                black_bb == rep.black,
                sq <= 64,
                state.white@ == spec_acc_prefix(*model, rep, Color::White, sq as int),
                state.black@ == spec_acc_prefix(*model, rep, Color::Black, sq as int),
            decreases 64 - sq,
        {
            let color: Option<Color> = if bb_test(white_bb, sq) {
                Some(Color::White)
            } else if bb_test(black_bb, sq) {
                Some(Color::Black)
            } else {
                None
            };
            if let Some(c) = color {
                if let Some(p) = board_piece_on(&board, sq) {
                    state.add(model, c, p, sq);
                }
            }
            sq = sq + 1;
        }
        Position { board, state }
    }

    /// The board.
    pub fn board(&self) -> (r: &cozy_chess::Board)
        ensures
            r == &self.board,
    {
        &self.board
    }

    /// The accumulator invariant: both perspectives hold exactly the fold
    /// of the board's pieces over the model.
    pub open spec fn wf(self, model: Nnue) -> bool {
        &&& self.state.white@ == spec_accumulator(model, board_rep(self.board), Color::White)
        &&& self.state.black@ == spec_accumulator(model, board_rep(self.board), Color::Black)
    }

    /// Play a legal move: the child owns the played board, and its
    /// accumulators are the parent's patched square by square wherever the
    /// occupancy changed -- the mover's source and destination, a victim
    /// (en passant included), a promotion, a castling rook -- so the
    /// invariant carries over to the child exactly as if rebuilt.
    pub fn play_unchecked(&self, model: &Nnue, mv: ChessMove) -> (r: Position)
        requires
            model.wf(),
            mv.wf(),
            board_rep(self.board).moves.contains(mv),
            rep_piece_on(board_rep(self.board), mv.from) is Some,
            self.wf(*model),
        ensures
            board_rep(r.board).stm == board_rep(self.board).stm.spec_flip(),
            r.wf(*model),
    {
        let new_board = board_play(&self.board, mv);
        let mut state = self.state.duplicate();
        let ghost rp = board_rep(self.board);
        let ghost rc = board_rep(new_board);
        let pw: u64 = board_colors(&self.board, Color::White);
        let pb: u64 = board_colors(&self.board, Color::Black);
        let cw: u64 = board_colors(&new_board, Color::White);
        let cb: u64 = board_colors(&new_board, Color::Black);
        proof {
            lemma_hybrid_parent(*model, rc, rp, Color::White, 0, 64);
            lemma_hybrid_parent(*model, rc, rp, Color::Black, 0, 64);
        }
        let mut sq: u8 = 0;
        while sq < 64
            invariant
                model.wf(),
                rp == board_rep(self.board),
                rc == board_rep(new_board),
                pw == rp.white,
                pb == rp.black,
                cw == rc.white,
                cb == rc.black,
                sq <= 64,
                state.white@ == spec_acc_hybrid(*model, rc, rp, Color::White, sq as int, 64),
                state.black@ == spec_acc_hybrid(*model, rc, rp, Color::Black, sq as int, 64),
            decreases 64 - sq,
        {
            let parent_color: Option<Color> = if bb_test(pw, sq) {
                Some(Color::White)
            } else if bb_test(pb, sq) {
                Some(Color::Black)
            } else {
                None
            };
            let parent_occ: Option<(Color, Piece)> = match parent_color {
                Some(c) => match board_piece_on(&self.board, sq) {
                    Some(p) => Some((c, p)),
                    None => None,
                },
                None => None,
            };
            let child_color: Option<Color> = if bb_test(cw, sq) {
                Some(Color::White)
            } else if bb_test(cb, sq) {
                Some(Color::Black)
            } else {
                None
            };
            let child_occ: Option<(Color, Piece)> = match child_color {
                Some(c) => match board_piece_on(&new_board, sq) {
                    Some(p) => Some((c, p)),
                    None => None,
                },
                None => None,
            };
            let same: bool = match (parent_occ, child_occ) {
                (None, None) => true,
                (Some((c1, p1)), Some((c2, p2))) => c1 == c2 && p1 == p2,
                _ => false,
            };
            proof {
                lemma_hybrid_step_upto(*model, rc, rp, Color::White, sq, 64);
                lemma_hybrid_step_upto(*model, rc, rp, Color::Black, sq, 64);
                lemma_hybrid_len(*model, rc, rp, Color::White, sq as int, 64);
                lemma_hybrid_len(*model, rc, rp, Color::Black, sq as int, 64);
                lemma_row_len(*model, rp, Color::White, sq);
                lemma_row_len(*model, rc, Color::White, sq);
                lemma_row_len(*model, rp, Color::Black, sq);
                lemma_row_len(*model, rc, Color::Black, sq);
            }
            if !same {
                if let Some((c, p)) = parent_occ {
                    state.sub(model, c, p, sq);
                }
                if let Some((c, p)) = child_occ {
                    state.add(model, c, p, sq);
                }
            } else {
                proof {
                    if parent_occ is Some {
                        let wpw = spec_square_row(*model, rp, Color::White, sq)->Some_0;
                        crate::nnue::lemma_nnue_sub_add_cancel(state.white@, wpw);
                        let wpb = spec_square_row(*model, rp, Color::Black, sq)->Some_0;
                        crate::nnue::lemma_nnue_sub_add_cancel(state.black@, wpb);
                    }
                }
            }
            proof {
                assert(state.white@ == spec_acc_hybrid(
                    *model,
                    rc,
                    rp,
                    Color::White,
                    sq as int + 1,
                    64,
                ));
                assert(state.black@ == spec_acc_hybrid(
                    *model,
                    rc,
                    rp,
                    Color::Black,
                    sq as int + 1,
                    64,
                ));
            }
            sq = sq + 1;
        }
        proof {
            lemma_hybrid_child(*model, rc, rp, Color::White, 64, 64);
            lemma_hybrid_child(*model, rc, rp, Color::Black, 64, 64);
        }
        Position { board: new_board, state }
    }

    /// Hand the turn over without moving: allowed exactly when not in
    /// check, and the accumulators carry over untouched -- no piece moved,
    /// so the invariant carries over with them.
    pub fn null_move(&self) -> (r: Option<Position>)
        ensures
            r is Some <==> board_rep(self.board).checkers == 0,
            r matches Some(p) ==> p.state.white@ == self.state.white@ && p.state.black@
                == self.state.black@,
            r matches Some(p) ==> board_rep(p.board).stm == board_rep(self.board).stm.spec_flip(),
            r matches Some(p) ==> forall|m: Nnue| self.wf(m) ==> #[trigger] p.wf(m),
    {
        match board_null_move(&self.board) {
            Some(nb) => {
                let child = Position { board: nb, state: self.state.duplicate() };
                proof {
                    assert forall|m: Nnue| self.wf(m) implies #[trigger] child.wf(m) by {
                        lemma_acc_same_sets(m, board_rep(self.board), board_rep(nb), Color::White, 64);
                        lemma_acc_same_sets(m, board_rep(self.board), board_rep(nb), Color::Black, 64);
                    }
                }
                Some(child)
            },
            None => None,
        }
    }

    /// The network's verdict on this position, from the side to move.
    pub fn evaluate(&self, model: &Nnue) -> (r: Eval)
        requires
            model.wf(),
        ensures
            r.val() == spec_trunc_i16(
                self.state.spec_evaluate(*model, board_rep(self.board).stm),
            ),
    {
        let stm = board_side_to_move(&self.board);
        let v: i32 = self.state.evaluate(model, stm);
        Eval::cp(trunc_to_i16(v))
    }
}

} // verus!
