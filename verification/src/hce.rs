//! The hand-crafted evaluator: tapered piece-square tables (king-relative
//! for the pieces), mobility, passed pawns, the bishop pair and rooks on
//! open files, interpolated between midgame and endgame by remaining
//! material.

use vstd::prelude::*;

use crate::board::{
    between_rays, between_rays_bb, bishop_attacks, bishop_moves_bb, board_colors, board_king,
    board_piece_on, board_pieces, board_rep, king_attacks, king_moves_bb, knight_attacks,
    knight_moves_bb, pawn_attacks, pawn_attacks_bb, pawn_quiets, pawn_quiets_bb, rep_color_bb,
    rep_king, rep_piece_on, rook_attacks, rook_moves_bb, BoardRep,
};
use crate::chess::{bb_count, bb_has, bb_popcnt, bb_test, Color, Piece};
use crate::eval::Eval;
use crate::position::trunc_to_i16;

verus! {

/// A piece-square table folded along the king's half of the board:
/// `[on-king-half][relative rank][mirrored file]`, flattened.
#[derive(Debug, Clone)]
pub struct KingRelativePst {
    pub table: Vec<i16>,
}

/// The flat index a (side, king, square) triple reads.
pub open spec fn spec_krp_index(side: Color, king: u8, square: u8) -> int {
    let on_king_half: int = if (king % 8 > 3) == (square % 8 > 3) {
        1
    } else {
        0
    };
    let rank: int = if side == Color::White {
        square as int / 8
    } else {
        7 - square / 8
    };
    let file: int = if square % 8 > 3 {
        7 - square % 8
    } else {
        (square % 8) as int
    };
    on_king_half * 32 + rank * 4 + file
}

impl KingRelativePst {
    /// Two halves of eight ranks of four mirrored files.
    pub open spec fn wf(self) -> bool {
        self.table@.len() == 64
    }

    /// The table value for a piece of `side` on `square` with its own king
    /// on `king`.
    pub fn get(&self, side: Color, king: u8, square: u8) -> (r: i16)
        requires
            self.wf(),
            king < 64,
            square < 64,
        ensures
            r == self.table@[spec_krp_index(side, king, square)],
    {
        let on_king_half: usize = if (king % 8 > 3) == (square % 8 > 3) {
            1
        } else {
            0
        };
        let rank: usize = match side {
            Color::White => (square / 8) as usize,
            Color::Black => (7 - square / 8) as usize,
        };
        let file: usize = if square % 8 > 3 {
            (7 - square % 8) as usize
        } else {
            (square % 8) as usize
        };
        self.table[on_king_half * 32 + rank * 4 + file]
    }
}

/// A plain piece-square table: `[relative rank][file]`, flattened.
#[derive(Debug, Clone)]
pub struct Pst {
    pub table: Vec<i16>,
}

/// The flat index a (side, square) pair reads.
pub open spec fn spec_pst_index(side: Color, square: u8) -> int {
    let rank: int = if side == Color::White {
        square as int / 8
    } else {
        7 - square / 8
    };
    rank * 8 + square % 8
}

impl Pst {
    /// Eight ranks of eight files.
    pub open spec fn wf(self) -> bool {
        self.table@.len() == 64
    }

    /// The table value for a piece of `side` on `square`.
    pub fn get(&self, side: Color, square: u8) -> (r: i16)
        requires
            self.wf(),
            square < 64,
        ensures
            r == self.table@[spec_pst_index(side, square)],
    {
        let rank: usize = match side {
            Color::White => (square / 8) as usize,
            Color::Black => (7 - square / 8) as usize,
        };
        self.table[rank * 8 + (square % 8) as usize]
    }
}

/// One king-relative table per piece kind, a plain one for the king.
#[derive(Debug, Clone)]
pub struct PstEvalSet {
    pub pawn: KingRelativePst,
    pub knight: KingRelativePst,
    pub bishop: KingRelativePst,
    pub rook: KingRelativePst,
    pub queen: KingRelativePst,
    pub king: Pst,
}

impl PstEvalSet {
    /// Every table has its full size.
    pub open spec fn wf(self) -> bool {
        &&& self.pawn.wf()
        &&& self.knight.wf()
        &&& self.bishop.wf()
        &&& self.rook.wf()
        &&& self.queen.wf()
        &&& self.king.wf()
    }

    /// The value [`PstEvalSet::get`] reads.
    pub open spec fn spec_get(self, piece: Piece, color: Color, king: u8, square: u8) -> i16 {
        match piece {
            Piece::Pawn => self.pawn.table@[spec_krp_index(color, king, square)],
            Piece::Knight => self.knight.table@[spec_krp_index(color, king, square)],
            Piece::Bishop => self.bishop.table@[spec_krp_index(color, king, square)],
            Piece::Rook => self.rook.table@[spec_krp_index(color, king, square)],
            Piece::Queen => self.queen.table@[spec_krp_index(color, king, square)],
            Piece::King => self.king.table@[spec_pst_index(color, square)],
        }
    }

    /// The table value for this piece.
    pub fn get(&self, piece: Piece, color: Color, king: u8, square: u8) -> (r: i16)
        requires
            self.wf(),
            king < 64,
            square < 64,
        ensures
            r == self.spec_get(piece, color, king, square),
    {
        match piece {
            Piece::Pawn => self.pawn.get(color, king, square),
            Piece::Knight => self.knight.get(color, king, square),
            Piece::Bishop => self.bishop.get(color, king, square),
            Piece::Rook => self.rook.get(color, king, square),
            Piece::Queen => self.queen.get(color, king, square),
            Piece::King => self.king.get(color, square),
        }
    }
}

/// Mobility bonuses indexed by the number of pseudo-legal moves, one table
/// per piece kind.
#[derive(Debug, Clone)]
pub struct Mobility {
    pub pawn: Vec<i16>,
    pub knight: Vec<i16>,
    pub bishop: Vec<i16>,
    pub rook: Vec<i16>,
    pub queen: Vec<i16>,
    pub king: Vec<i16>,
}

impl Mobility {
    /// Each table covers that piece's possible move counts.
    pub open spec fn wf(self) -> bool {
        &&& self.pawn@.len() == 5
        &&& self.knight@.len() == 9
        &&& self.bishop@.len() == 14
        &&& self.rook@.len() == 15
        &&& self.queen@.len() == 28
        &&& self.king@.len() == 9
    }

    /// The table of one piece kind.
    pub open spec fn spec_table(self, piece: Piece) -> Seq<i16> {
        match piece {
            Piece::Pawn => self.pawn@,
            Piece::Knight => self.knight@,
            Piece::Bishop => self.bishop@,
            Piece::Rook => self.rook@,
            Piece::Queen => self.queen@,
            Piece::King => self.king@,
        }
    }

    /// The table of one piece kind.
    pub fn get(&self, piece: Piece) -> (r: &Vec<i16>)
        ensures
            r@ == self.spec_table(piece),
    {
        match piece {
            Piece::Pawn => &self.pawn,
            Piece::Knight => &self.knight,
            Piece::Bishop => &self.bishop,
            Piece::Rook => &self.rook,
            Piece::Queen => &self.queen,
            Piece::King => &self.king,
        }
    }
}

/// One phase's worth of evaluation terms.
#[derive(Debug, Clone)]
pub struct EvalTerms {
    pub piece_tables: PstEvalSet,
    pub mobility: Mobility,
    pub passed_pawns: KingRelativePst,
    pub bishop_pair: i16,
    pub rook_on_open_file: i16,
    pub rook_on_semiopen_file: i16,
}

impl EvalTerms {
    /// All tables full-sized.
    pub open spec fn wf(self) -> bool {
        &&& self.piece_tables.wf()
        &&& self.mobility.wf()
        &&& self.passed_pawns.wf()
    }
}

/// A midgame and an endgame set of terms.
#[derive(Debug, Clone)]
pub struct Evaluator {
    pub midgame: EvalTerms,
    pub endgame: EvalTerms,
}

/// The phase resolution: an endgame with none of the weighted material.
pub const MAX_PHASE: u32 = 256;

/// The game phase from remaining material: 0 with full material, 256 with
/// none of the weighted pieces left.
pub open spec fn spec_game_phase(r: BoardRep) -> int {
    let inv = bb_count(r.knights) + bb_count(r.bishops) + 2 * bb_count(r.rooks) + 4 * bb_count(
        r.queens,
    );
    let raw = if inv >= 24 {
        0int
    } else {
        24 - inv
    };
    (raw * 256 + 12) / 24
}

/// Compute the game phase.
pub fn game_phase(board: &cozy_chess::Board) -> (r: u32)
    ensures
        r == spec_game_phase(board_rep(*board)),
        r <= 256,
{
    let knights = bb_popcnt(board_pieces(board, Piece::Knight));
    let bishops = bb_popcnt(board_pieces(board, Piece::Bishop));
    let rooks = bb_popcnt(board_pieces(board, Piece::Rook));
    let queens = bb_popcnt(board_pieces(board, Piece::Queen));
    let inv: u32 = knights + bishops + 2 * rooks + 4 * queens;
    let raw: u32 = if inv >= 24 {
        0
    } else {
        24 - inv
    };
    (raw * 256 + 12) / 24
}

/// The pseudo-legal move set mobility counts for a piece of `c` on `sq`.
pub open spec fn spec_mobility_bb(r: BoardRep, c: Color, p: Piece, sq: u8) -> u64 {
    let occupied = r.white | r.black;
    let ours = rep_color_bb(r, c);
    let theirs = rep_color_bb(r, c.spec_flip());
    match p {
        Piece::Pawn => pawn_quiets(sq, c, occupied) | (pawn_attacks(sq, c) & theirs),
        Piece::Knight => knight_attacks(sq) & !ours,
        Piece::Bishop => bishop_attacks(sq, occupied) & !ours,
        Piece::Rook => rook_attacks(sq, occupied) & !ours,
        Piece::Queen => (bishop_attacks(sq, occupied) | rook_attacks(sq, occupied)) & !ours,
        Piece::King => king_attacks(sq) & !ours,
    }
}

/// The promotion square on the file of `x`, from `c`'s side.
pub open spec fn spec_telestop(c: Color, x: u8) -> u8 {
    (((if c == Color::White {
        7int
    } else {
        0int
    }) * 8) + x % 8) as u8
}

/// The squares a passed-pawn check treats as blocking via the pawn's
/// attack files: each attack square and the ray from it to promotion,
/// folded over all squares up to `a`.
pub open spec fn spec_attack_spans(c: Color, sq: u8, a: int) -> u64
    decreases a,
{
    if a <= 0 {
        0u64
    } else {
        spec_attack_spans(c, sq, a - 1) | (if bb_has(pawn_attacks(sq, c), (a - 1) as u8) {
            between_rays((a - 1) as u8, spec_telestop(c, (a - 1) as u8)) | (1u64 << ((a - 1) as u64))
        } else {
            0u64
        })
    }
}

/// A pawn of `c` on `sq` is passed: no enemy pawn ahead on its own or an
/// adjacent file, and no own pawn directly in front.
pub open spec fn spec_pawn_passed(r: BoardRep, c: Color, sq: u8) -> bool {
    let our_pawns = r.pawns & rep_color_bb(r, c);
    let their_pawns = r.pawns ^ our_pawns;
    let front = between_rays(sq, spec_telestop(c, sq));
    let mask = front | spec_attack_spans(c, sq, 64);
    (their_pawns & mask) == 0 && (our_pawns & front) == 0
}

/// The rook-file bonus of one phase: the open-file bonus on a pawnless
/// file, the half-open one when only enemy pawns remain.
pub open spec fn spec_rook_file_term(t: EvalTerms, r: BoardRep, c: Color, sq: u8) -> int {
    let file_bb = 0x0101010101010101u64 << ((sq % 8) as u64);
    if file_bb & r.pawns == 0 {
        t.rook_on_open_file as int
    } else if file_bb & (r.pawns & rep_color_bb(r, c)) == 0 {
        t.rook_on_semiopen_file as int
    } else {
        0
    }
}

/// Everything one square contributes for side `c` in one phase's terms:
/// its piece-square value, its mobility bonus (the move count clamped to
/// the table), a passed-pawn bonus, and a rook-file bonus.
pub open spec fn spec_square_term(t: EvalTerms, r: BoardRep, c: Color, king: u8, sq: u8) -> int {
    if bb_has(rep_color_bb(r, c), sq) {
        match rep_piece_on(r, sq) {
            Some(p) => {
                let pst = t.piece_tables.spec_get(p, c, king, sq) as int;
                let tab = t.mobility.spec_table(p);
                let cnt = bb_count(spec_mobility_bb(r, c, p, sq));
                let idx = if cnt < tab.len() {
                    cnt
                } else {
                    tab.len() - 1
                };
                let mob = tab[idx] as int;
                let passed = if p == Piece::Pawn && spec_pawn_passed(r, c, sq) {
                    t.passed_pawns.table@[spec_krp_index(c, king, sq)] as int
                } else {
                    0int
                };
                let rook = if p == Piece::Rook {
                    spec_rook_file_term(t, r, c, sq)
                } else {
                    0int
                };
                pst + mob + passed + rook
            },
            None => 0,
        }
    } else {
        0
    }
}

/// The sum of the square terms below `n`.
pub open spec fn spec_side_prefix(t: EvalTerms, r: BoardRep, c: Color, king: u8, n: int) -> int
    decreases n,
{
    if n <= 0 {
        0
    } else {
        spec_side_prefix(t, r, c, king, n - 1) + spec_square_term(t, r, c, king, (n - 1) as u8)
    }
}

/// One side's whole term sum in one phase: every square plus the bishop
/// pair.
pub open spec fn spec_side_total(t: EvalTerms, r: BoardRep, c: Color, king: u8) -> int {
    spec_side_prefix(t, r, c, king, 64) + if bb_count(rep_color_bb(r, c) & r.bishops) >= 2 {
        t.bishop_pair as int
    } else {
        0int
    }
}

/// Midgame and endgame interpolated by phase, the division truncating as
/// the executable's does.
pub open spec fn spec_interpolated(mg: int, eg: int, phase: int) -> int {
    crate::params::div_trunc(mg * (256 - phase) + eg * phase, 256)
}

/// One side's tapered value, narrowed to 16 bits.
pub open spec fn spec_side_value(e: Evaluator, r: BoardRep, c: Color) -> int {
    crate::position::spec_trunc_i16(
        spec_interpolated(
            spec_side_total(e.midgame, r, c, rep_king(r, c)),
            spec_side_total(e.endgame, r, c, rep_king(r, c)),
            spec_game_phase(r),
        ),
    )
}

/// The whole evaluation: the side to move's value minus the opponent's,
/// narrowed to 16 bits.
pub open spec fn spec_evaluate(e: Evaluator, r: BoardRep) -> int {
    crate::position::spec_trunc_i16(
        spec_side_value(e, r, r.stm) - spec_side_value(e, r, r.stm.spec_flip()),
    )
}

fn div_i64_by_256(a: i64) -> (r: i64)
    requires
        -0x2000000000 <= a <= 0x2000000000,
    ensures
        r == crate::params::div_trunc(a as int, 256),
{
    if a >= 0 {
        ((a as u64) / 256) as i64
    } else {
        -((((-a) as u64) / 256) as i64)
    }
}

impl Evaluator {
    /// Both phases' tables are full-sized.
    pub open spec fn wf(self) -> bool {
        self.midgame.wf() && self.endgame.wf()
    }

    /// The whole tapered evaluation, from the side to move: each side's
    /// midgame and endgame term sums interpolated by phase, the difference
    /// narrowed to a 16-bit score.
    pub fn evaluate(&self, board: &cozy_chess::Board) -> (r: Eval)
        requires
            self.wf(),
        ensures
            r.val() == spec_evaluate(*self, board_rep(*board)),
    {
        let phase = game_phase(board);
        let stm = crate::board::board_side_to_move(board);
        let us: i16 = self.evaluate_for_side(board, stm, phase);
        let them: i16 = self.evaluate_for_side(board, stm.flip(), phase);
        Eval::cp(trunc_to_i16(us as i32 - them as i32))
    }

    /// One side's terms, interpolated between midgame and endgame by
    /// `phase` and narrowed to 16 bits.
    pub fn evaluate_for_side(&self, board: &cozy_chess::Board, color: Color, phase: u32) -> (r:
        i16)
        requires
            self.wf(),
            phase <= 256,
            phase == spec_game_phase(board_rep(*board)),
        ensures
            r as int == spec_side_value(*self, board_rep(*board), color),
    {
        let ghost rep = board_rep(*board);
        let mut mg: i64 = 0;
        let mut eg: i64 = 0;
        let ours: u64 = board_colors(board, color);
        let our_king: u8 = board_king(board, color);
        let occupied: u64 = crate::board::board_occupied(board);
        let pawns: u64 = board_pieces(board, Piece::Pawn);
        let our_pawns: u64 = pawns & ours;
        let their_pawns: u64 = pawns ^ our_pawns;
        let theirs: u64 = board_colors(board, color.flip());
        let mut sq: u8 = 0;
        while sq < 64
            invariant
                self.wf(),
                rep == board_rep(*board),
                our_king < 64,
                our_king == rep_king(rep, color),
                ours == rep_color_bb(rep, color),
                theirs == rep_color_bb(rep, color.spec_flip()),
                occupied == rep.white | rep.black,
                pawns == rep.pawns,
                our_pawns == rep.pawns & rep_color_bb(rep, color),
                their_pawns == rep.pawns ^ (rep.pawns & rep_color_bb(rep, color)),
                sq <= 64,
                mg == spec_side_prefix(self.midgame, rep, color, our_king, sq as int),
                eg == spec_side_prefix(self.endgame, rep, color, our_king, sq as int),
                -0x20000 * (sq as i64) <= mg <= 0x20000 * (sq as i64),
                -0x20000 * (sq as i64) <= eg <= 0x20000 * (sq as i64),
            decreases 64 - sq,
        {
            let mut mg_term: i64 = 0;
            let mut eg_term: i64 = 0;
            if bb_test(ours, sq) {
                if let Some(piece) = board_piece_on(board, sq) {
                    let mg_pst: i64 = self.midgame.piece_tables.get(piece, color, our_king, sq)
                        as i64;
                    let eg_pst: i64 = self.endgame.piece_tables.get(piece, color, our_king, sq)
                        as i64;
                    let moves_bb: u64 = match piece {
                        Piece::Pawn => pawn_quiets_bb(sq, color, occupied) | (pawn_attacks_bb(
                            sq,
                            color,
                        ) & theirs),
                        Piece::Knight => knight_moves_bb(sq) & !ours,
                        Piece::Bishop => bishop_moves_bb(sq, occupied) & !ours,
                        Piece::Rook => rook_moves_bb(sq, occupied) & !ours,
                        Piece::Queen => (bishop_moves_bb(sq, occupied) | rook_moves_bb(
                            sq,
                            occupied,
                        )) & !ours,
                        Piece::King => king_moves_bb(sq) & !ours,
                    };
                    proof {
                        assert(moves_bb == spec_mobility_bb(rep, color, piece, sq));
                    }
                    let count: usize = bb_popcnt(moves_bb) as usize;
                    let mg_table = self.midgame.mobility.get(piece);
                    let mg_idx: usize = if count < mg_table.len() {
                        count
                    } else {
                        mg_table.len() - 1
                    };
                    let mg_mob: i64 = mg_table[mg_idx] as i64;
                    let eg_table = self.endgame.mobility.get(piece);
                    let eg_idx: usize = if count < eg_table.len() {
                        count
                    } else {
                        eg_table.len() - 1
                    };
                    let eg_mob: i64 = eg_table[eg_idx] as i64;
                    let mut mg_passed: i64 = 0;
                    let mut eg_passed: i64 = 0;
                    if piece == Piece::Pawn {
                        if pawn_is_passed(board, sq, color, our_pawns, their_pawns) {
                            mg_passed = self.midgame.passed_pawns.get(color, our_king, sq) as i64;
                            eg_passed = self.endgame.passed_pawns.get(color, our_king, sq) as i64;
                        }
                    }
                    let mut mg_rook: i64 = 0;
                    let mut eg_rook: i64 = 0;
                    if piece == Piece::Rook {
                        let file_bb: u64 = 0x0101010101010101u64 << ((sq % 8) as u64);
                        if file_bb & pawns == 0 {
                            mg_rook = self.midgame.rook_on_open_file as i64;
                            eg_rook = self.endgame.rook_on_open_file as i64;
                        } else if file_bb & our_pawns == 0 {
                            mg_rook = self.midgame.rook_on_semiopen_file as i64;
                            eg_rook = self.endgame.rook_on_semiopen_file as i64;
                        }
                    }
                    mg_term = mg_pst + mg_mob + mg_passed + mg_rook;
                    eg_term = eg_pst + eg_mob + eg_passed + eg_rook;
                }
            }
            proof {
                assert(mg_term == spec_square_term(self.midgame, rep, color, our_king, sq));
                assert(eg_term == spec_square_term(self.endgame, rep, color, our_king, sq));
                assert(-0x20000 <= mg_term <= 0x20000);
                assert(-0x20000 <= eg_term <= 0x20000);
            }
            mg = mg + mg_term;
            eg = eg + eg_term;
            sq = sq + 1;
        }
        if bb_popcnt(ours & board_pieces(board, Piece::Bishop)) >= 2 {
            mg = mg + self.midgame.bishop_pair as i64;
            eg = eg + self.endgame.bishop_pair as i64;
        }
        proof {
            assert(mg == spec_side_total(self.midgame, rep, color, our_king));
            assert(eg == spec_side_total(self.endgame, rep, color, our_king));
            let m = mg as int;
            let e = eg as int;
            let p = phase as int;
            assert(-0x900000 * 256 <= m * (256 - p) <= 0x900000 * 256) by (nonlinear_arith)
                requires
                    -0x900000 <= m <= 0x900000,
                    0 <= p <= 256,
            ;
            assert(-0x900000 * 256 <= e * p <= 0x900000 * 256) by (nonlinear_arith)
                requires
                    -0x900000 <= e <= 0x900000,
                    0 <= p <= 256,
            ;
        }
        let blended: i64 = mg * (256 - phase as i64) + eg * phase as i64;
        let interpolated: i64 = div_i64_by_256(blended);
        proof {
            assert(-0x80000000 <= interpolated <= 0x7fffffff);
        }
        trunc_to_i16(interpolated as i32)
    }
}

/// Is the pawn of `color` on `sq` passed: nothing of the enemy ahead on
/// its own or adjacent files, nothing of its own directly in front.
pub fn pawn_is_passed(
    board: &cozy_chess::Board,
    sq: u8,
    color: Color,
    our_pawns: u64,
    their_pawns: u64,
) -> (r: bool)
    requires
        sq < 64,
        our_pawns == board_rep(*board).pawns & rep_color_bb(board_rep(*board), color),
        their_pawns == board_rep(*board).pawns ^ our_pawns,
    ensures
        r == spec_pawn_passed(board_rep(*board), color, sq),
{
    let promotion_rank: u8 = crate::chess::rank_relative_to(7, color);
    let telestop: u8 = crate::chess::square_new(sq % 8, promotion_rank);
    proof {
        assert(telestop == spec_telestop(color, sq));
    }
    let front_span: u64 = between_rays_bb(sq, telestop);
    let attacks: u64 = pawn_attacks_bb(sq, color);
    let mut spans: u64 = 0;
    let mut a: u8 = 0;
    while a < 64
        invariant
            sq < 64,
            a <= 64,
            promotion_rank < 8,
            promotion_rank == if color == Color::White {
                7int
            } else {
                0int
            },
            attacks == pawn_attacks(sq, color),
            spans == spec_attack_spans(color, sq, a as int),
        decreases 64 - a,
    {
        let addend: u64 = if bb_test(attacks, a) {
            let stop: u8 = crate::chess::square_new(a % 8, promotion_rank);
            proof {
                assert(stop == spec_telestop(color, a));
            }
            between_rays_bb(a, stop) | (1u64 << (a as u64))
        } else {
            0
        };
        spans = spans | addend;
        a = a + 1;
    }
    let blocker_mask: u64 = front_span | spans;
    (their_pawns & blocker_mask) == 0 && (our_pawns & front_span) == 0
}

} // verus!
