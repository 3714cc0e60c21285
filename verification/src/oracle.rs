//! A minimal table of known-drawn material configurations: bare kings, a
//! lone minor piece, and bishops of opposite square colors.

use vstd::prelude::*;

use crate::board::{board_colors, board_pieces, board_rep, BoardRep};
use crate::chess::{bb_count, bb_popcnt, Color, Piece};
use crate::eval::Eval;

verus! {

/// The shade of a square: light or dark, as `(file + rank) % 2`.
pub open spec fn spec_square_shade(sq: u8) -> int {
    (sq % 8 + sq / 8) % 2
}

/// Does this material configuration admit no win for either side? True for
/// king against king, a single knight or bishop against a bare king, and
/// one bishop each on opposite-colored squares; anything with a pawn, rook
/// or queen is left to the search.
pub open spec fn spec_known_draw(r: BoardRep) -> bool {
    let minors = bb_count(r.knights) + bb_count(r.bishops);
    &&& r.pawns == 0
    &&& r.rooks == 0
    &&& r.queens == 0
    &&& {
        ||| minors <= 1
        ||| {
            &&& bb_count(r.knights) == 0
            &&& bb_count(r.white & r.bishops) == 1
            &&& bb_count(r.black & r.bishops) == 1
            &&& spec_square_shade(spec_lowest(r.white & r.bishops)) != spec_square_shade(
                spec_lowest(r.black & r.bishops),
            )
        }
    }
}

/// The lowest square of a bitboard.
pub open spec fn spec_lowest(bb: u64) -> u8 {
    vstd::std_specs::bits::u64_trailing_zeros(bb) as u8
}

fn lowest_square(bb: u64) -> (r: u8)
    requires
        bb != 0,
    ensures
        r == spec_lowest(bb),
        r < 64,
{
    proof {
        vstd::std_specs::bits::axiom_u64_trailing_zeros(bb);
    }
    bb.trailing_zeros() as u8
}

/// The drawn evaluation for a position the table recognizes, and nothing
/// for every other position.
pub fn oracle(board: &cozy_chess::Board) -> (r: Option<Eval>)
    ensures
        r == if spec_known_draw(board_rep(*board)) {
            Some(Eval(0i16))
        } else {
            None::<Eval>
        },
{
    let pawns = board_pieces(board, Piece::Pawn);
    let rooks = board_pieces(board, Piece::Rook);
    let queens = board_pieces(board, Piece::Queen);
    if pawns != 0 || rooks != 0 || queens != 0 {
        return None;
    }
    let knights = board_pieces(board, Piece::Knight);
    let bishops = board_pieces(board, Piece::Bishop);
    let knight_count = bb_popcnt(knights);
    let bishop_count = bb_popcnt(bishops);
    if knight_count + bishop_count <= 1 {
        return Some(Eval::draw());
    }
    let white_bishops = board_colors(board, Color::White) & bishops;
    let black_bishops = board_colors(board, Color::Black) & bishops;
    if knight_count == 0 && bb_popcnt(white_bishops) == 1 && bb_popcnt(black_bishops) == 1 {
        proof {
            crate::chess::lemma_bb_count_empty(64);
        }
        let wb = lowest_square(white_bishops);
        let bb = lowest_square(black_bishops);
        if (wb % 8 + wb / 8) % 2 != (bb % 8 + bb / 8) % 2 {
            return Some(Eval::draw());
        }
    }
    None
}

} // verus!
