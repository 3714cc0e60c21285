//! Static exchange evaluation: simulate the best sequence of recaptures on
//! one square, least valuable attacker first, and fold the gains by the
//! negamax rule, each side free to stop after the forced first capture.

use vstd::prelude::*;

use crate::board::{
    bishop_attacks, bishop_moves_bb, board_colors, board_occupied, board_piece_on,
    board_pieces, board_rep, board_side_to_move, king_attacks, king_moves_bb, knight_attacks,
    knight_moves_bb, pawn_attacks, pawn_attacks_bb, rep_color_bb, rep_piece_bb, rep_piece_on,
    rook_attacks, rook_moves_bb, BoardRep,
};
use crate::chess::{ChessMove, Color, Piece};
use crate::eval::Eval;

verus! {

/// The fixed exchange value of each piece kind; the king's capture ends the
/// exchange, so its value never enters a total.
pub open spec fn spec_piece_value(p: Piece) -> int {
    match p {
        Piece::Pawn => 100,
        Piece::Knight => 320,
        Piece::Bishop => 330,
        Piece::Rook => 500,
        Piece::Queen => 900,
        Piece::King => 0,
    }
}

/// The fixed exchange value of each piece kind.
pub fn piece_value(p: Piece) -> (r: i32)
    ensures
        r == spec_piece_value(p),
        0 <= r <= 900,
{
    match p {
        Piece::Pawn => 100,
        Piece::Knight => 320,
        Piece::Bishop => 330,
        Piece::Rook => 500,
        Piece::Queen => 900,
        Piece::King => 0,
    }
}

/// The number of exchange iterations ever possible: a board holds at most
/// 32 pieces, twice over for safety against inconsistent inputs.
pub const SEE_FUEL: u32 = 64;

/// The lowest square of a non-empty bitboard.
pub open spec fn spec_lowest_square(bb: u64) -> u8 {
    vstd::std_specs::bits::u64_trailing_zeros(bb) as u8
}

/// The least valuable piece of `c` among `attackers`, with its square:
/// piece kinds are scanned in value order, and the lowest square of the
/// first non-empty intersection wins.
pub open spec fn spec_find_attacker(r: BoardRep, attackers: u64, c: Color, k: int) -> Option<
    (Piece, u8),
>
    decreases 6 - k,
{
    if k < 0 || k >= 6 {
        None
    } else {
        let p = Piece::spec_from_index(k)->Some_0;
        let bb = attackers & rep_piece_bb(r, p) & rep_color_bb(r, c);
        if bb != 0 {
            Some((p, spec_lowest_square(bb)))
        } else {
            spec_find_attacker(r, attackers, c, k + 1)
        }
    }
}

/// The running state of the exchange walk.
pub struct SeeState {
    pub victim: Piece,
    pub attacker: Piece,
    pub attacker_sq: u8,
    pub color: Color,
    pub blockers: u64,
    pub attackers: u64,
    pub gains: Seq<int>,
}

/// One step of the exchange, then the rest: push the victim's value, lift
/// the attacker and reveal what it shadowed, swap sides, and look for the
/// next attacker. A capture made by the king onto a square that turns out
/// to be still defended is forbidden: its gain is retracted and the
/// exchange stops.
pub open spec fn spec_see_walk(r: BoardRep, sq: u8, st: SeeState, fuel: nat) -> Seq<int>
    decreases fuel,
{
    if fuel == 0 {
        st.gains
    } else {
        let gains1 = st.gains.push(spec_piece_value(st.victim));
        let lift = 1u64 << st.attacker_sq;
        let blockers1 = st.blockers ^ lift;
        let rook_xray = if st.attacker == Piece::Rook || st.attacker == Piece::Queen {
            rook_attacks(sq, blockers1) & blockers1 & (r.rooks | r.queens)
        } else {
            0u64
        };
        let bishop_xray = if st.attacker == Piece::Pawn || st.attacker == Piece::Bishop
            || st.attacker == Piece::Queen {
            bishop_attacks(sq, blockers1) & blockers1 & (r.bishops | r.queens)
        } else {
            0u64
        };
        let attackers1 = (st.attackers ^ lift) | rook_xray | bishop_xray;
        let color1 = st.color.spec_flip();
        match spec_find_attacker(r, attackers1, color1, 0) {
            None => gains1,
            Some((p, asq)) => if st.attacker == Piece::King {
                gains1.drop_last()
            } else {
                spec_see_walk(
                    r,
                    sq,
                    SeeState {
                        victim: st.attacker,
                        attacker: p,
                        attacker_sq: asq,
                        color: color1,
                        blockers: blockers1,
                        attackers: attackers1,
                        gains: gains1,
                    },
                    (fuel - 1) as nat,
                )
            },
        }
    }
}

/// The pieces bearing on `sq` before anything moves. A pawn attacks the
/// square only from its own side: the squares a white pawn attacks `sq`
/// from are the black-direction attack squares of `sq`, and conversely.
pub open spec fn spec_initial_attackers(r: BoardRep, sq: u8, blockers: u64) -> u64 {
    (king_attacks(sq) & r.kings) | (knight_attacks(sq) & r.knights) | (rook_attacks(sq, blockers) & (
    r.rooks | r.queens)) | (bishop_attacks(sq, blockers) & (r.bishops | r.queens)) | (pawn_attacks(
        sq,
        Color::Black,
    ) & blockers & r.white & r.pawns) | (pawn_attacks(sq, Color::White) & blockers & r.black
        & r.pawns)
}

/// The gain stack a capture produces.
pub open spec fn spec_see_gains(r: BoardRep, mv: ChessMove) -> Seq<int> {
    let blockers = r.white | r.black;
    spec_see_walk(
        r,
        mv.to,
        SeeState {
            victim: rep_piece_on(r, mv.to)->Some_0,
            attacker: rep_piece_on(r, mv.from)->Some_0,
            attacker_sq: mv.from,
            color: r.stm,
            blockers,
            attackers: spec_initial_attackers(r, mv.to, blockers),
            gains: Seq::empty(),
        },
        SEE_FUEL as nat,
    )
}

/// Fold the gain stack from position `i`: each capture after the first may
/// be declined, so every gain but the head is floored at zero.
pub open spec fn spec_see_fold(s: Seq<int>, i: int) -> int
    decreases s.len() - i,
{
    if i < 0 || i >= s.len() {
        0
    } else if i == s.len() - 1 {
        s[i]
    } else {
        let v = s[i] - spec_see_fold(s, i + 1);
        if i == 0 {
            v
        } else if v < 0 {
            0
        } else {
            v
        }
    }
}

/// The net material the exchange on `mv.to` is worth to the side to move.
pub open spec fn spec_see(r: BoardRep, mv: ChessMove) -> int {
    spec_see_fold(spec_see_gains(r, mv), 0)
}

/// Folding a stack of values within `[0, 900]` stays within one exchange of
/// those bounds.
proof fn lemma_fold_bounds(s: Seq<int>, i: int)
    requires
        forall|j: int| 0 <= j < s.len() ==> 0 <= #[trigger] s[j] <= 900,
    ensures
        i >= 1 ==> 0 <= spec_see_fold(s, i) <= 900,
        -900 <= spec_see_fold(s, i) <= 900,
    decreases s.len() - i,
{
    if i < 0 || i >= s.len() {
    } else if i == s.len() - 1 {
    } else {
        lemma_fold_bounds(s, i + 1);
    }
}

fn find_attacker(
    board: &cozy_chess::Board,
    attackers: u64,
    c: Color,
) -> (r: Option<(Piece, u8)>)
    ensures
        r == spec_find_attacker(board_rep(*board), attackers, c, 0),
        r matches Some((p, sq)) ==> sq < 64,
{
    let pieces = Piece::all();
    let mut k: usize = 0;
    while k < 6
        invariant
            k <= 6,
            pieces@ =~= seq![
                Piece::Pawn,
                Piece::Knight,
                Piece::Bishop,
                Piece::Rook,
                Piece::Queen,
                Piece::King,
            ],
            spec_find_attacker(board_rep(*board), attackers, c, 0) == spec_find_attacker(
                board_rep(*board),
                attackers,
                c,
                k as int,
            ),
        decreases 6 - k,
    {
        let p = pieces[k];
        proof {
            assert(Piece::spec_from_index(k as int) == Some(p));
        }
        let bb: u64 = attackers & board_pieces(board, p) & board_colors(board, c);
        if bb != 0 {
            let sq: u32 = bb.trailing_zeros();
            proof {
                vstd::std_specs::bits::axiom_u64_trailing_zeros(bb);
            }
            return Some((p, sq as u8));
        }
        k = k + 1;
    }
    None
}

/// Simulate the exchange and return the gain stack, whose entries are
/// single piece values.
fn see_gains(board: &cozy_chess::Board, capture: ChessMove) -> (r: Vec<i32>)
    requires
        capture.wf(),
        rep_piece_on(board_rep(*board), capture.to) is Some,
        rep_piece_on(board_rep(*board), capture.from) is Some,
    ensures
        r@.map_values(|v: i32| v as int) == spec_see_gains(board_rep(*board), capture),
        forall|j: int| 0 <= j < r@.len() ==> 0 <= #[trigger] r@[j] <= 900,
{
    let ghost rep = board_rep(*board);
    let sq: u8 = capture.to;
    let mut victim: Piece = board_piece_on(board, sq).unwrap();
    let mut attacker: Piece = board_piece_on(board, capture.from).unwrap();
    let mut attacker_sq: u8 = capture.from;
    let mut color: Color = board_side_to_move(board);
    let mut blockers: u64 = board_occupied(board);
    let mut attackers: u64 = (king_moves_bb(sq) & board_pieces(board, Piece::King)) | (
    knight_moves_bb(sq) & board_pieces(board, Piece::Knight)) | (rook_moves_bb(sq, blockers) & (
    board_pieces(board, Piece::Rook) | board_pieces(board, Piece::Queen))) | (bishop_moves_bb(
        sq,
        blockers,
    ) & (board_pieces(board, Piece::Bishop) | board_pieces(board, Piece::Queen))) | (
    pawn_attacks_bb(sq, Color::Black) & blockers & board_colors(board, Color::White)
        & board_pieces(board, Piece::Pawn)) | (pawn_attacks_bb(sq, Color::White) & blockers
        & board_colors(board, Color::Black) & board_pieces(board, Piece::Pawn));
    let mut gains: Vec<i32> = Vec::new();
    let mut fuel: u32 = SEE_FUEL;
    proof {
        assert(gains@.map_values(|v: i32| v as int) =~= Seq::<int>::empty());
    }
    loop
        invariant
            fuel <= SEE_FUEL,
            attacker_sq < 64,
            forall|j: int| 0 <= j < gains@.len() ==> 0 <= #[trigger] gains@[j] <= 900,
            spec_see_gains(rep, capture) == spec_see_walk(
                rep,
                sq,
                SeeState {
                    victim,
                    attacker,
                    attacker_sq,
                    color,
                    blockers,
                    attackers,
                    gains: gains@.map_values(|v: i32| v as int),
                },
                fuel as nat,
            ),
            rep == board_rep(*board),
            sq == capture.to,
            sq < 64,
        decreases fuel,
    {
        if fuel == 0 {
            return gains;
        }
        let ghost st0 = SeeState {
            victim,
            attacker,
            attacker_sq,
            color,
            blockers,
            attackers,
            gains: gains@.map_values(|v: i32| v as int),
        };
        let ghost fuel0 = fuel as nat;
        gains.push(piece_value(victim));
        proof {
            assert(gains@.map_values(|v: i32| v as int) =~= st0.gains.push(
                spec_piece_value(victim),
            ));
        }
        let lift: u64 = 1u64 << attacker_sq;
        blockers = blockers ^ lift;
        let rook_xray: u64 = if attacker == Piece::Rook || attacker == Piece::Queen {
            rook_moves_bb(sq, blockers) & blockers & (board_pieces(board, Piece::Rook)
                | board_pieces(board, Piece::Queen))
        } else {
            0
        };
        let bishop_xray: u64 = if attacker == Piece::Pawn || attacker == Piece::Bishop || attacker
            == Piece::Queen {
            bishop_moves_bb(sq, blockers) & blockers & (board_pieces(board, Piece::Bishop)
                | board_pieces(board, Piece::Queen))
        } else {
            0
        };
        attackers = (attackers ^ lift) | rook_xray | bishop_xray;
        color = color.flip();
        match find_attacker(board, attackers, color) {
            None => {
                return gains;
            },
            Some((p, asq)) => {
                if attacker == Piece::King {
                    let ghost pre = gains@;
                    gains.pop();
                    proof {
                        assert(gains@.map_values(|v: i32| v as int) =~= pre.map_values(
                            |v: i32| v as int,
                        ).drop_last());
                    }
                    return gains;
                }
                victim = attacker;
                attacker = p;
                attacker_sq = asq;
                fuel = fuel - 1;
            },
        }
    }
}

/// Fold a gain stack by the negamax rule.
fn collapse_gains(gains: &Vec<i32>) -> (r: i32)
    requires
        gains@.len() >= 1,
        forall|j: int| 0 <= j < gains@.len() ==> 0 <= #[trigger] gains@[j] <= 900,
    ensures
        r == spec_see_fold(gains@.map_values(|v: i32| v as int), 0),
        -900 <= r <= 900,
{
    let ghost s = gains@.map_values(|v: i32| v as int);
    proof {
        lemma_fold_bounds(s, 0);
    }
    let mut i: usize = gains.len() - 1;
    let mut acc: i32 = gains[i];
    while i > 0
        invariant
            i < gains@.len(),
            s == gains@.map_values(|v: i32| v as int),
            forall|j: int| 0 <= j < s.len() ==> 0 <= #[trigger] s[j] <= 900,
            acc == spec_see_fold(s, i as int),
            -900 <= acc <= 900,
        decreases i,
    {
        proof {
            lemma_fold_bounds(s, i as int);
            lemma_fold_bounds(s, i - 1);
        }
        let v: i32 = gains[i - 1] - acc;
        acc = if i - 1 == 0 {
            v
        } else if v < 0 {
            0
        } else {
            v
        };
        i = i - 1;
    }
    acc
}

/// The net material the side to move wins by starting the exchange on
/// `capture.to`, with every later capture optional.
pub fn static_exchange_evaluation(board: &cozy_chess::Board, capture: ChessMove) -> (r: Eval)
    requires
        capture.wf(),
        rep_piece_on(board_rep(*board), capture.to) is Some,
        rep_piece_on(board_rep(*board), capture.from) is Some,
    ensures
        r.val() == spec_see(board_rep(*board), capture),
        -900 <= r.val() <= 900,
{
    let gains = see_gains(board, capture);
    if gains.len() == 0 {
        proof {
            assert(spec_see_fold(gains@.map_values(|v: i32| v as int), 0) == 0);
        }
        return Eval::zero();
    }
    let v: i32 = collapse_gains(&gains);
    Eval::cp(v as i16)
}

/// Does the exchange reach the threshold? Exactly
/// `static_exchange_evaluation(board, capture) >= threshold`.
pub fn static_exchange_evaluation_at_least(
    board: &cozy_chess::Board,
    capture: ChessMove,
    threshold: i16,
) -> (r: bool)
    requires
        capture.wf(),
        rep_piece_on(board_rep(*board), capture.to) is Some,
        rep_piece_on(board_rep(*board), capture.from) is Some,
    ensures
        r == (spec_see(board_rep(*board), capture) >= threshold),
{
    let v = static_exchange_evaluation(board, capture);
    v.0 >= threshold
}

} // verus!
