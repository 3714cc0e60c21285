//! Self-play support: the packed move and analyzed-game record formats,
//! the position record for training extractors, a game wrapper that also
//! scores threefold repetition, and the analyzed-game generator.

use vstd::prelude::*;

use rand::Rng;

use crate::board::{
    board_castle_long, board_castle_short, board_colors, board_en_passant, board_fullmove_number,
    board_halfmove_clock, board_hash, board_is_legal, board_legal_moves, board_occupied,
    board_pieces, board_play, board_rep, board_side_to_move, board_status, };
use crate::cache::CacheTable;
use crate::chess::{
    bb_count, bb_popcnt, bb_test, rank_relative_to, square_new, BoardStatus, ChessMove, Color,
    Piece,
};
use crate::engine::{Engine, EngineOptions};
use crate::eval::Eval;
use crate::nnue::Nnue;
use crate::params::SearchParamHandler;
use crate::search::{SearchHandler, SearchResult};

verus! {

/// The 16-bit packed form of a move: six bits of source, six of
/// destination, four of promotion with 15 meaning none.
pub open spec fn spec_pack_move(mv: ChessMove) -> int {
    mv.from * 0x400 + mv.to * 0x10 + (match mv.promotion {
        Some(p) => p.spec_index(),
        None => 15,
    })
}

/// What a 16-bit word unpacks to; promotion nibbles that name no piece
/// yield no promotion.
pub open spec fn spec_unpack_move(packed: int) -> ChessMove {
    ChessMove {
        from: ((packed / 0x400) % 64) as u8,
        to: ((packed / 0x10) % 64) as u8,
        promotion: Piece::spec_from_index(packed % 16),
    }
}

/// Pack a move into 16 bits.
pub fn pack_move(mv: ChessMove) -> (r: u16)
    requires
        mv.wf(),
    ensures
        r == spec_pack_move(mv),
{
    let promo: u16 = match mv.promotion {
        Some(p) => p.index() as u16,
        None => 15,
    };
    (mv.from as u16) * 0x400 + (mv.to as u16) * 0x10 + promo
}

/// Unpack a 16-bit move.
pub fn unpack_move(packed: u16) -> (r: ChessMove)
    ensures
        r == spec_unpack_move(packed as int),
        r.wf(),
{
    ChessMove {
        from: ((packed / 0x400) % 64) as u8,
        to: ((packed / 0x10) % 64) as u8,
        promotion: Piece::from_index((packed % 16) as usize),
    }
}

/// Unpacking a packed move gives the move back whenever the promotion
/// field names a piece or nothing at all.
pub proof fn lemma_move_pack_round_trip(mv: ChessMove)
    requires
        mv.wf(),
    ensures
        spec_unpack_move(spec_pack_move(mv)) == mv,
{
    let w = spec_pack_move(mv);
    let promo = match mv.promotion {
        Some(p) => p.spec_index(),
        None => 15int,
    };
    vstd::arithmetic::div_mod::lemma_fundamental_div_mod_converse_mod(
        w,
        16,
        mv.from * 64 + mv.to,
        promo,
    );
    vstd::arithmetic::div_mod::lemma_fundamental_div_mod_converse_div(
        w,
        16,
        mv.from * 64 + mv.to,
        promo,
    );
    vstd::arithmetic::div_mod::lemma_fundamental_div_mod_converse_mod(
        mv.from * 64 + mv.to,
        64,
        mv.from as int,
        mv.to as int,
    );
    vstd::arithmetic::div_mod::lemma_fundamental_div_mod_converse_div(
        mv.from * 64 + mv.to,
        64,
        mv.from as int,
        mv.to as int,
    );
    vstd::arithmetic::div_mod::lemma_div_denominator(w, 16, 64);
    vstd::arithmetic::div_mod::lemma_fundamental_div_mod_converse_mod(
        mv.from as int,
        64,
        0,
        mv.from as int,
    );
}

/// One analyzed self-play game: how many opening moves were random, the
/// move list, one evaluation per analyzed move (from White's point of
/// view), and the winner if any.
#[derive(Debug, Clone, PartialEq, Eq)]
pub struct AnalyzedGame {
    pub opening_moves: u8,
    pub moves: Vec<ChessMove>,
    pub evals: Vec<Eval>,
    pub winner: Option<Color>,
}

impl AnalyzedGame {
    /// The evaluations cover exactly the non-opening moves, everything is
    /// a legal-shaped move, and the counts fit the record format.
    pub open spec fn wf(self) -> bool {
        &&& self.moves@.len() <= 0xffff
        &&& self.opening_moves <= self.moves@.len()
        &&& self.evals@.len() == self.moves@.len() - self.opening_moves
        &&& forall|i: int| 0 <= i < self.moves@.len() ==> (#[trigger] self.moves@[i]).wf()
    }
}

/// The byte a winner field is stored as.
pub open spec fn spec_winner_byte(w: Option<Color>) -> int {
    match w {
        Some(c) => c.spec_index(),
        None => 2,
    }
}

/// Serialize an analyzed game: the opening-move count, the move count in
/// two little-endian bytes, each move packed little-endian, each
/// evaluation in two little-endian bytes, and the winner byte.
pub fn encode_analyzed_game(game: &AnalyzedGame) -> (r: Vec<u8>)
    requires
        game.wf(),
    ensures
        r@.len() == 4 + 2 * game.moves@.len() + 2 * game.evals@.len(),
        r@[0] == game.opening_moves,
        r@[1] == game.moves@.len() % 256,
        r@[2] == game.moves@.len() / 256,
        forall|i: int|
            0 <= i < game.moves@.len() ==> r@[3 + 2 * i] == spec_pack_move(
                #[trigger] game.moves@[i],
            ) % 256 && r@[4 + 2 * i] == spec_pack_move(game.moves@[i]) / 256,
        forall|j: int|
            0 <= j < game.evals@.len() ==> r@[3 + 2 * game.moves@.len() + 2 * j]
                == Eval::spec_to_u16((#[trigger] game.evals@[j]).val()) % 256 && r@[4 + 2
                * game.moves@.len() + 2 * j] == Eval::spec_to_u16(game.evals@[j].val()) / 256,
        r@.last() == spec_winner_byte(game.winner),
    {
    let mut out: Vec<u8> = Vec::new();
    out.push(game.opening_moves);
    let count: u16 = game.moves.len() as u16;
    out.push((count % 256) as u8);
    out.push((count / 256) as u8);
    let mut i: usize = 0;
    while i < game.moves.len()
        invariant
            game.wf(),
            i <= game.moves@.len(),
            out@.len() == 3 + 2 * i,
            out@[0] == game.opening_moves,
            out@[1] == game.moves@.len() % 256,
            out@[2] == game.moves@.len() / 256,
            forall|k: int|
                0 <= k < i ==> out@[3 + 2 * k] == spec_pack_move(#[trigger] game.moves@[k]) % 256
                    && out@[4 + 2 * k] == spec_pack_move(game.moves@[k]) / 256,
        decreases game.moves@.len() - i,
    {
        let packed: u16 = pack_move(game.moves[i]);
        out.push((packed % 256) as u8);
        out.push((packed / 256) as u8);
        i = i + 1;
    }
    let ghost moves_done = out@;
    let mut j: usize = 0;
    while j < game.evals.len()
        invariant
            game.wf(),
            j <= game.evals@.len(),
            out@.len() == 3 + 2 * game.moves@.len() + 2 * j,
            out@ =~= moves_done + out@.subrange(3 + 2 * game.moves@.len() as int, out@.len() as int),
            moves_done.len() == 3 + 2 * game.moves@.len(),
            forall|k: int| 0 <= k < moves_done.len() ==> out@[k] == moves_done[k],
            out@[0] == game.opening_moves,
            out@[1] == game.moves@.len() % 256,
            out@[2] == game.moves@.len() / 256,
            forall|k: int|
                0 <= k < game.moves@.len() ==> out@[3 + 2 * k] == spec_pack_move(
                    #[trigger] game.moves@[k],
                ) % 256 && out@[4 + 2 * k] == spec_pack_move(game.moves@[k]) / 256,
            forall|k: int|
                0 <= k < j ==> out@[3 + 2 * game.moves@.len() + 2 * k] == Eval::spec_to_u16(
                    (#[trigger] game.evals@[k]).val(),
                ) % 256 && out@[4 + 2 * game.moves@.len() + 2 * k] == Eval::spec_to_u16(
                    game.evals@[k].val(),
                ) / 256,
        decreases game.evals@.len() - j,
    {
        let bytes: [u8; 2] = game.evals[j].to_bytes();
        out.push(bytes[0]);
        out.push(bytes[1]);
        j = j + 1;
    }
    let winner_byte: u8 = match game.winner {
        Some(c) => c.index() as u8,
        None => 2,
    };
    out.push(winner_byte);
    out
}

/// Does a whole record start at `offset`: the three header bytes, an
/// opening count within the move count, and every packed move, evaluation
/// and the winner byte inside the input.
pub open spec fn spec_record_complete(bytes: Seq<u8>, offset: int) -> bool {
    &&& offset + 3 <= bytes.len()
    &&& {
        let opening = bytes[offset];
        let move_count = bytes[offset + 1] + 256 * bytes[offset + 2];
        &&& opening <= move_count
        &&& offset + 4 + 2 * move_count + 2 * (move_count - opening) <= bytes.len()
    }
}

/// Parse an analyzed game from the front of a byte string: exactly the end
/// of the input is the clean end of a stream, exactly a complete record
/// decodes, and exactly an incomplete one (truncated, or with more opening
/// moves than moves) is an error. On success the record and its size in
/// bytes come back.
pub fn decode_analyzed_game(bytes: &Vec<u8>, offset: usize) -> (r: Result<
    Option<(AnalyzedGame, usize)>,
    (),
>)
    requires
        offset <= bytes@.len(),
    ensures
        r == Ok::<Option<(AnalyzedGame, usize)>, ()>(None) <==> offset == bytes@.len(),
        r is Err <==> offset < bytes@.len() && !spec_record_complete(bytes@, offset as int),
        r matches Ok(Some((g, used))) ==> {
            &&& g.wf()
            &&& offset + used <= bytes@.len()
            &&& used == 4 + 2 * g.moves@.len() + 2 * g.evals@.len()
            &&& g.opening_moves == bytes@[offset as int]
            &&& g.moves@.len() == bytes@[offset + 1] + 256 * bytes@[offset + 2]
            &&& forall|i: int|
                0 <= i < g.moves@.len() ==> #[trigger] g.moves@[i] == spec_unpack_move(
                    bytes@[offset + 3 + 2 * i] + 256 * bytes@[offset + 4 + 2 * i],
                )
            &&& forall|j: int|
                0 <= j < g.evals@.len() ==> (#[trigger] g.evals@[j]).val()
                    == Eval::spec_from_u16(
                    bytes@[offset + 3 + 2 * g.moves@.len() + 2 * j] + 256 * bytes@[offset + 4 + 2
                        * g.moves@.len() + 2 * j],
                )
            &&& g.winner == {
                let b = bytes@[offset + 3 + 2 * g.moves@.len() + 2 * g.evals@.len()];
                if b == 0 {
                    Some(Color::White)
                } else if b == 1 {
                    Some(Color::Black)
                } else {
                    None::<Color>
                }
            }
        },
{
    let len: usize = bytes.len();
    if offset >= len {
        return Ok(None);
    }
    let opening_moves: u8 = bytes[offset];
    if len - offset < 3 {
        return Err(());
    }
    let move_count: usize = bytes[offset + 1] as usize + 256 * (bytes[offset + 2] as usize);
    if opening_moves as usize > move_count {
        return Err(());
    }
    let eval_count: usize = move_count - opening_moves as usize;
    let total: usize = 4 + 2 * move_count + 2 * eval_count;
    if len - offset < total {
        return Err(());
    }
    let mut moves: Vec<ChessMove> = Vec::new();
    let mut i: usize = 0;
    while i < move_count
        invariant
            i <= move_count,
            move_count <= 0xffff,
            moves@.len() == i,
            len == bytes@.len(),
            offset + 4 + 2 * move_count + 2 * eval_count <= len,
            forall|k: int|
                0 <= k < i ==> #[trigger] moves@[k] == spec_unpack_move(
                    bytes@[offset + 3 + 2 * k] + 256 * bytes@[offset + 4 + 2 * k],
                ) && (#[trigger] moves@[k]).wf(),
        decreases move_count - i,
    {
        let lo: u16 = bytes[offset + 3 + 2 * i] as u16;
        let hi: u16 = bytes[offset + 4 + 2 * i] as u16;
        moves.push(unpack_move(lo + 256 * hi));
        i = i + 1;
    }
    let mut evals: Vec<Eval> = Vec::new();
    let mut j: usize = 0;
    while j < eval_count
        invariant
            j <= eval_count,
            eval_count <= move_count,
            move_count <= 0xffff,
            evals@.len() == j,
            moves@.len() == move_count,
            len == bytes@.len(),
            offset + 4 + 2 * move_count + 2 * eval_count <= len,
            forall|k: int|
                0 <= k < j ==> (#[trigger] evals@[k]).val() == Eval::spec_from_u16(
                    bytes@[offset + 3 + 2 * move_count + 2 * k] + 256 * bytes@[offset + 4 + 2
                        * move_count + 2 * k],
                ),
        decreases eval_count - j,
    {
        let lo: u8 = bytes[offset + 3 + 2 * move_count + 2 * j];
        let hi: u8 = bytes[offset + 4 + 2 * move_count + 2 * j];
        evals.push(Eval::from_bytes([lo, hi]));
        j = j + 1;
    }
    let winner_byte: u8 = bytes[offset + 3 + 2 * move_count + 2 * eval_count];
    let winner: Option<Color> = if winner_byte == 0 {
        Some(Color::White)
    } else if winner_byte == 1 {
        Some(Color::Black)
    } else {
        None
    };
    Ok(Some((AnalyzedGame { opening_moves, moves, evals, winner }, total)))
}

/// The nibble that marks a rook whose castle right is intact.
pub const UNMOVED_ROOK: u8 = 6;

/// The en-passant sentinel for "no square".
pub const NO_SQUARE: u8 = 64;

/// How many pieces sit on squares strictly below `square` in `bitboard`.
pub fn square_index(bitboard: u64, square: u8) -> (r: u32)
    requires
        square < 64,
    ensures
        r == bb_count(bitboard & (((1u64 << square) - 1) as u64)),
        r <= 64,
{
    proof {
        assert((1u64 << square) >= 1) by (bit_vector)
            requires
                square < 64u8,
        ;
    }
    bb_popcnt(bitboard & ((1u64 << square) - 1))
}

/// Serialize a position to the fixed 32-byte record: the occupied
/// bitboard little-endian, 32 piece nibbles in occupied-square order, a
/// side-to-move/en-passant byte, the clocks, the centipawn score
/// little-endian, the result byte, and a padding zero.
pub fn encode_marlinformat(board: &cozy_chess::Board, cp: i16, winner: Option<Color>) -> (r: Vec<
    u8,
>)
    ensures
        r@.len() == 32,
        forall|k: int|
            0 <= k < 8 ==> r@[k] == ((board_rep(*board).white | board_rep(*board).black) as int / (vstd::arithmetic::power2::pow2((8 * k) as nat) as int)) % 256,
        r@[24] == board_rep(*board).stm.spec_index() * 128 + (match board_rep(*board).ep_file {
            Some(f) => (if board_rep(*board).stm == Color::White {
                40 + f
            } else {
                16 + f
            }),
            None => 64int,
        }),
        r@[25] == board_rep(*board).halfmove_clock,
        r@[26] == board_rep(*board).fullmove_number % 256,
        r@[27] == board_rep(*board).fullmove_number / 256,
        r@[28] == Eval::spec_to_u16(cp as int) % 256,
        r@[29] == Eval::spec_to_u16(cp as int) / 256,
        r@[30] == (match winner {
            Some(Color::White) => 2int,
            Some(Color::Black) => 0int,
            None => 1int,
        }),
        r@[31] == 0,
{
    let occupied: u64 = board_occupied(board);
    let mut nibbles: Vec<u8> = Vec::new();
    let mut n: usize = 0;
    while n < 32
        invariant
            nibbles@.len() == n,
            n <= 32,
            forall|k: int| 0 <= k < n ==> #[trigger] nibbles@[k] < 16,
        decreases 32 - n,
    {
        nibbles.push(0);
        n = n + 1;
    }
    let stm: Color = board_side_to_move(board);
    let mut unmoved_rooks: u64 = 0;
    let back_rank: u8 = rank_relative_to(0, stm);
    if let Some(file) = board_castle_short(board, stm) {
        unmoved_rooks = unmoved_rooks | (1u64 << square_new(file, back_rank));
    }
    if let Some(file) = board_castle_long(board, stm) {
        unmoved_rooks = unmoved_rooks | (1u64 << square_new(file, back_rank));
    }
    let colors = [Color::White, Color::Black];
    let mut ci: usize = 0;
    while ci < 2
        invariant
            nibbles@.len() == 32,
            forall|k: int| 0 <= k < 32 ==> #[trigger] nibbles@[k] < 16,
            occupied == board_rep(*board).white | board_rep(*board).black,
        decreases 2 - ci,
    {
        let color = colors[ci];
        let color_bb: u64 = board_colors(board, color);
        let pieces = Piece::all();
        let mut pi: usize = 0;
        while pi < 6
            invariant
                nibbles@.len() == 32,
                forall|k: int| 0 <= k < 32 ==> #[trigger] nibbles@[k] < 16,
                pieces@.len() == 6,
                ci <= 1,
                occupied == board_rep(*board).white | board_rep(*board).black,
            decreases 6 - pi,
        {
            let piece = pieces[pi];
            let mut bb: u64 = board_pieces(board, piece) & color_bb;
            while bb != 0
                invariant
                    nibbles@.len() == 32,
                    forall|k: int| 0 <= k < 32 ==> #[trigger] nibbles@[k] < 16,
                    ci <= 1,
                    occupied == board_rep(*board).white | board_rep(*board).black,
                decreases bb,
            {
                proof {
                    vstd::std_specs::bits::axiom_u64_trailing_zeros(bb);
                }
                let sq: u8 = bb.trailing_zeros() as u8;
                let encoded: u8 = if bb_test(unmoved_rooks, sq) {
                    UNMOVED_ROOK
                } else {
                    piece.index() as u8
                };
                let idx: u32 = square_index(occupied, sq);
                if (idx as usize) < 32 {
                    let value: u8 = encoded + (ci as u8) * 8;
                    nibbles.set(idx as usize, value);
                }
                let prev: u64 = bb;
                bb = bb & (bb - 1);
                proof {
                    assert(prev != 0 ==> (prev & ((prev - 1) as u64)) < prev) by (bit_vector);
                }
            }
            pi = pi + 1;
        }
        ci = ci + 1;
    }
    let mut out: Vec<u8> = Vec::new();
    let mut k: usize = 0;
    let mut occ: u64 = occupied;
    proof {
        vstd::arithmetic::power2::lemma2_to64();
        vstd::arithmetic::div_mod::lemma_div_basics(occupied as int);
    }
    while k < 8
        invariant
            out@.len() == k,
            k <= 8,
            occ == occupied as int / (vstd::arithmetic::power2::pow2((8 * k) as nat) as int),
            forall|m: int|
                0 <= m < k ==> #[trigger] out@[m] == (occupied as int
                    / (vstd::arithmetic::power2::pow2((8 * m) as nat) as int)) % 256,
        decreases 8 - k,
    {
        proof {
            vstd::arithmetic::power2::lemma_pow2_pos((8 * k) as nat);
            vstd::arithmetic::div_mod::lemma_div_denominator(
                occupied as int,
                vstd::arithmetic::power2::pow2((8 * k) as nat) as int,
                256,
            );
            assert(vstd::arithmetic::power2::pow2((8 * (k + 1)) as nat) == vstd::arithmetic::power2::pow2(
                (8 * k) as nat,
            ) * 256) by {
                vstd::arithmetic::power2::lemma_pow2_adds((8 * k) as nat, 8);
                vstd::arithmetic::power2::lemma2_to64();
            }
        }
        out.push((occ % 256) as u8);
        occ = occ / 256;
        k = k + 1;
    }
    let mut p: usize = 0;
    while p < 16
        invariant
            out@.len() == 8 + p,
            p <= 16,
            nibbles@.len() == 32,
            forall|m: int| 0 <= m < 32 ==> #[trigger] nibbles@[m] < 16,
            forall|m: int|
                0 <= m < 8 ==> #[trigger] out@[m] == ((board_rep(*board).white | board_rep(
                    *board,
                ).black) as int / (vstd::arithmetic::power2::pow2((8 * m) as nat) as int)) % 256,
        decreases 16 - p,
    {
        out.push(nibbles[2 * p + 1] * 16 + nibbles[2 * p]);
        p = p + 1;
    }
    let ep: u8 = match board_en_passant(board) {
        Some(f) => square_new(f, rank_relative_to(5, stm)),
        None => NO_SQUARE,
    };
    out.push((stm.index() as u8) * 128 + ep);
    out.push(board_halfmove_clock(board));
    let full: u16 = board_fullmove_number(board);
    out.push((full % 256) as u8);
    out.push((full / 256) as u8);
    let cp_bytes: [u8; 2] = Eval::cp(cp).to_bytes();
    out.push(cp_bytes[0]);
    out.push(cp_bytes[1]);
    let wdl: u8 = match winner {
        Some(Color::White) => 2,
        Some(Color::Black) => 0,
        None => 1,
    };
    out.push(wdl);
    out.push(0);
    out
}

/// A board with its game history: enough to recognize threefold
/// repetition on top of the rules the board itself knows.
pub struct ChessGame {
    pub board: cozy_chess::Board,
    pub history: Vec<u64>,
    pub moves: Vec<ChessMove>,
}

impl ChessGame {
    /// The history is never empty: it starts with the initial position.
    pub open spec fn wf(self) -> bool {
        self.history@.len() > 0
    }

    /// A fresh game from the starting position.
    pub fn new() -> (r: Self)
        ensures
            r.wf(),
            r.moves@.len() == 0,
    {
        let board = crate::board::board_default();
        let mut history: Vec<u64> = Vec::new();
        history.push(board_hash(&board));
        ChessGame { board, history, moves: Vec::new() }
    }

    /// The current position.
    pub fn board(&self) -> (r: &cozy_chess::Board)
        ensures
            r == &self.board,
    {
        &self.board
    }

    /// The moves played so far.
    pub fn moves(&self) -> (r: &Vec<ChessMove>)
        ensures
            r == &self.moves,
    {
        &self.moves
    }

    /// The moves played, by value.
    pub fn into_moves(self) -> (r: Vec<ChessMove>)
        ensures
            r == self.moves,
    {
        self.moves
    }

    /// Play a legal move and remember it.
    pub fn play_unchecked(&mut self, mv: ChessMove)
        requires
            old(self).wf(),
            mv.wf(),
            board_rep(old(self).board).moves.contains(mv),
        ensures
            final(self).wf(),
            final(self).moves@ == old(self).moves@.push(mv),
    {
        self.board = board_play(&self.board, mv);
        self.moves.push(mv);
        self.history.push(board_hash(&self.board));
    }

    /// The game's status: what the rules say, except that a position seen
    /// three times within the reversible window is a draw.
    pub fn game_status(&self) -> (r: BoardStatus)
        requires
            self.wf(),
        ensures
            r == if board_rep(self.board).status != BoardStatus::Ongoing {
                board_rep(self.board).status
            } else if crate::search::spec_repetitions(self.history@, board_rep(self.board)) >= 2 {
                BoardStatus::Drawn
            } else {
                BoardStatus::Ongoing
            },
    {
        let status = board_status(&self.board);
        if !matches!(status, BoardStatus::Ongoing) {
            return status;
        }
        if crate::search::count_repetitions(&self.history, &self.board) >= 2 {
            return BoardStatus::Drawn;
        }
        BoardStatus::Ongoing
    }
}

/// Relies on `rand::Rng::gen_range` over `0..n`, which yields a value
/// below `n`; which one depends on the thread's generator state.
#[verifier::external_body]
fn random_below(n: usize) -> (r: usize)
    requires
        n > 0,
    ensures
        r < n,
{
    rand::thread_rng().gen_range(0..n)
}

/// How a self-play game is generated.
#[derive(Debug, Clone)]
pub struct GameGenConfig {
    pub cache_size: usize,
    pub opening_moves: u8,
    pub min_nodes: u64,
    pub min_depth: u8,
}

/// The stop rule for analysis moves: enough depth and enough nodes.
struct GenHandler {
    nodes: u64,
    min_nodes: u64,
    min_depth: u8,
    prev_result: Option<SearchResult>,
}

impl SearchHandler for GenHandler {
    fn stop_search(&self) -> bool {
        match &self.prev_result {
            Some(result) => result.depth >= self.min_depth && result.nodes >= self.min_nodes,
            None => false,
        }
    }

    fn new_result(&mut self, result: SearchResult) {
        self.nodes = self.nodes.wrapping_add(result.nodes);
        self.prev_result = Some(result);
    }
}

/// Play `opening_moves` random legal moves from the start; a line that
/// ends the game early is thrown away and retried, up to a large retry
/// budget, after which the last attempt stands.
pub fn random_opening(opening_moves: u8) -> (r: ChessGame)
    ensures
        r.wf(),
        r.moves@.len() <= opening_moves,
        forall|i: int| 0 <= i < r.moves@.len() ==> (#[trigger] r.moves@[i]).wf(),
{
    let mut attempts: u32 = 10000;
    loop
        invariant
            true,
        decreases attempts,
    {
        let mut game = ChessGame::new();
        let mut ok: bool = true;
        let mut i: u8 = 0;
        while i < opening_moves
            invariant_except_break
                game.moves@.len() == i,
            invariant
                game.wf(),
                game.moves@.len() <= opening_moves,
                i <= opening_moves,
                forall|k: int| 0 <= k < game.moves@.len() ==> (#[trigger] game.moves@[k]).wf(),
            decreases opening_moves - i,
        {
            let moves = board_legal_moves(game.board());
            if moves.len() == 0 {
                ok = false;
                break ;
            }
            let mv = moves[random_below(moves.len())];
            proof {
                assert(board_rep(game.board).moves.contains(mv)) by {
                    assert(exists|k: int|
                        0 <= k < board_rep(game.board).moves.len() && board_rep(
                            game.board,
                        ).moves[k] == mv);
                }
            }
            game.play_unchecked(mv);
            if !matches!(game.game_status(), BoardStatus::Ongoing) {
                ok = false;
                break ;
            }
            i = i + 1;
        }
        if ok || attempts == 0 {
            return game;
        }
        attempts = attempts - 1;
    }
}

/// Generate one analyzed game: random opening moves, then engine moves
/// with their evaluations (always from White's point of view) until the
/// game ends; the shared cache carries over between moves.
pub fn gen_game(config: &GameGenConfig, params: SearchParamHandler, model: &Nnue) -> (r:
    AnalyzedGame)
    requires
        params.wf(),
        model.wf(),
    ensures
        r.wf(),
{
    let init_pos = crate::board::board_default();
    let mut game = random_opening(config.opening_moves);
    let mut evals: Vec<Eval> = Vec::new();
    let mut cache_table = match CacheTable::new_with_size(config.cache_size) {
        Ok(t) => t,
        Err(_) => CacheTable::new_with_entries(1),
    };
    let ghost base = game.moves@.len();
    let mut fuel: u32 = 2048;
    loop
        invariant
            game.wf(),
            params.wf(),
            model.wf(),
            cache_table.wf(),
            game.moves@.len() == base + evals@.len(),
            evals@.len() + fuel <= 2048,
            forall|i: int| 0 <= i < game.moves@.len() ==> (#[trigger] game.moves@[i]).wf(),
        decreases fuel,
    {
        if fuel == 0 {
            break ;
        }
        fuel = fuel - 1;
        let mut handler = GenHandler {
            nodes: 0,
            min_nodes: config.min_nodes,
            min_depth: config.min_depth,
            prev_result: None,
        };
        let mut engine = Engine::new(
            handler,
            init_pos.clone(),
            copy_moves(game.moves()),
            EngineOptions::default(),
            params.duplicate(),
            cache_table,
            model.duplicate(),
        );
        let outcome = engine.search();
        cache_table = engine.into_cache_table();
        let (mv, eval) = match outcome {
            Some(res) => (res.mv, res.eval),
            None => {
                break ;
            },
        };
        if !(mv.from < 64 && mv.to < 64 && board_is_legal(game.board(), mv)) {
            break ;
        }
        let eval = if eval.0 == i16::MIN {
            Eval(i16::MIN + 1)
        } else {
            eval
        };
        let white_eval: Eval = match board_side_to_move(game.board()) {
            Color::White => eval,
            Color::Black => eval.neg(),
        };
        evals.push(white_eval);
        game.play_unchecked(mv);
        let status = game.game_status();
        if !matches!(status, BoardStatus::Ongoing) {
            break ;
        }
    }
    let status = game.game_status();
    let winner: Option<Color> = if matches!(status, BoardStatus::Won) {
        Some(board_side_to_move(game.board()).flip())
    } else {
        None
    };
    let move_total: usize = game.moves().len();
    let opening: u8 = (move_total - evals.len()) as u8;
    AnalyzedGame { opening_moves: opening, moves: game.into_moves(), evals, winner }
}

fn copy_moves(v: &Vec<ChessMove>) -> (r: Vec<ChessMove>)
    ensures
        r@ == v@,
{
    let mut out: Vec<ChessMove> = Vec::new();
    let mut i: usize = 0;
    while i < v.len()
        invariant
            i <= v.len(),
            out@ =~= v@.take(i as int),
        decreases v.len() - i,
    {
        out.push(v[i]);
        i = i + 1;
    }
    proof {
        assert(out@ =~= v@);
    }
    out
}

} // verus!
