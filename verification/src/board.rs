//! The trusted layer over the `cozy_chess` move generator. A board is opaque
//! to the verifier; everything the verified logic reads of one is named by
//! [`board_rep`], and each wrapper below relays one `cozy_chess` call and
//! states what it returns in terms of that name.

use vstd::prelude::*;

use crate::chess::{bb_has, BoardStatus, ChessMove, Color, Piece};

verus! {

/// Declares `cozy_chess::Board` so it can appear in fields and signatures.
#[verifier::external_type_specification]
#[verifier::external_body]
pub struct ExBoard(cozy_chess::Board);

/// Everything the verified logic can observe of a board: the zobrist hash,
/// the side to move, one square-set bitboard per color and per piece kind,
/// the checker set, the clocks, the en-passant and castling files, the king
/// squares, the game status, and the legal moves in generation order.
pub struct BoardRep {
    pub hash: u64,
    pub stm: Color,
    pub white: u64,
    pub black: u64,
    pub pawns: u64,
    pub knights: u64,
    pub bishops: u64,
    pub rooks: u64,
    pub queens: u64,
    pub kings: u64,
    pub checkers: u64,
    pub halfmove_clock: u8,
    pub fullmove_number: u16,
    pub ep_file: Option<u8>,
    pub king_white: u8,
    pub king_black: u8,
    pub castle_short_white: Option<u8>,
    pub castle_long_white: Option<u8>,
    pub castle_short_black: Option<u8>,
    pub castle_long_black: Option<u8>,
    pub status: BoardStatus,
    pub moves: Seq<ChessMove>,
}

/// What a `cozy_chess::Board` holds.
pub uninterp spec fn board_rep(b: cozy_chess::Board) -> BoardRep;

/// The bitboard of one side's pieces.
pub open spec fn rep_color_bb(r: BoardRep, c: Color) -> u64 {
    match c {
        Color::White => r.white,
        Color::Black => r.black,
    }
}

/// The bitboard of one piece kind, both sides together.
pub open spec fn rep_piece_bb(r: BoardRep, p: Piece) -> u64 {
    match p {
        Piece::Pawn => r.pawns,
        Piece::Knight => r.knights,
        Piece::Bishop => r.bishops,
        Piece::Rook => r.rooks,
        Piece::Queen => r.queens,
        Piece::King => r.kings,
    }
}

/// One side's king square.
pub open spec fn rep_king(r: BoardRep, c: Color) -> u8 {
    match c {
        Color::White => r.king_white,
        Color::Black => r.king_black,
    }
}

/// The piece kind on a square: the first piece bitboard that holds it, in
/// index order, as `cozy_chess::Board::piece_on` reads them.
pub open spec fn rep_piece_on(r: BoardRep, sq: u8) -> Option<Piece> {
    if bb_has(r.pawns, sq) {
        Some(Piece::Pawn)
    } else if bb_has(r.knights, sq) {
        Some(Piece::Knight)
    } else if bb_has(r.bishops, sq) {
        Some(Piece::Bishop)
    } else if bb_has(r.rooks, sq) {
        Some(Piece::Rook)
    } else if bb_has(r.queens, sq) {
        Some(Piece::Queen)
    } else if bb_has(r.kings, sq) {
        Some(Piece::King)
    } else {
        None
    }
}

/// The color of the piece on a square, white bitboard checked first, as
/// `cozy_chess::Board::color_on` reads them.
pub open spec fn rep_color_on(r: BoardRep, sq: u8) -> Option<Color> {
    if bb_has(r.white, sq) {
        Some(Color::White)
    } else if bb_has(r.black, sq) {
        Some(Color::Black)
    } else {
        None
    }
}

/// Relies on `cozy_chess::Board::default`: the standard starting position.
#[verifier::external_body]
pub fn board_default() -> cozy_chess::Board {
    cozy_chess::Board::default()
}

/// Relies on the derived `Clone` of `cozy_chess::Board`, a field-for-field
/// copy.
pub assume_specification[ <cozy_chess::Board as Clone>::clone ](b: &cozy_chess::Board) -> (r:
    cozy_chess::Board)
    ensures
        r == *b,
;

/// Relies on `cozy_chess::Board::hash`: the position's zobrist hash.
#[verifier::external_body]
pub fn board_hash(b: &cozy_chess::Board) -> (r: u64)
    ensures
        r == board_rep(*b).hash,
{
    b.hash()
}

/// Relies on `cozy_chess::Board::side_to_move`.
#[verifier::external_body]
pub fn board_side_to_move(b: &cozy_chess::Board) -> (r: Color)
    ensures
        r == board_rep(*b).stm,
{
    match b.side_to_move() {
        cozy_chess::Color::White => Color::White,
        cozy_chess::Color::Black => Color::Black,
    }
}

/// Relies on `cozy_chess::Board::colors`: the bitboard of one side's
/// pieces. A valid board keeps the color sets inside the union of the
/// piece sets, so every square of the result carries a piece.
#[verifier::external_body]
pub fn board_colors(b: &cozy_chess::Board, c: Color) -> (r: u64)
    ensures
        r == rep_color_bb(board_rep(*b), c),
        forall|sq: u8|
            sq < 64 && bb_has(r, sq) ==> (#[trigger] rep_piece_on(board_rep(*b), sq)) is Some,
{
    b.colors(cozy_chess::Color::index(c.index())).0
}

/// Relies on `cozy_chess::Board::pieces`: the bitboard of one piece kind.
#[verifier::external_body]
pub fn board_pieces(b: &cozy_chess::Board, p: Piece) -> (r: u64)
    ensures
        r == rep_piece_bb(board_rep(*b), p),
{
    b.pieces(cozy_chess::Piece::index(p.index())).0
}

/// Relies on `cozy_chess::Board::occupied`, the union of the two color
/// bitboards.
#[verifier::external_body]
pub fn board_occupied(b: &cozy_chess::Board) -> (r: u64)
    ensures
        r == board_rep(*b).white | board_rep(*b).black,
{
    b.occupied().0
}

/// Relies on `cozy_chess::Board::checkers`: the pieces giving check.
#[verifier::external_body]
pub fn board_checkers(b: &cozy_chess::Board) -> (r: u64)
    ensures
        r == board_rep(*b).checkers,
{
    b.checkers().0
}

/// Relies on `cozy_chess::Board::status`, which reports `Ongoing` only when
/// at least one legal move exists.
#[verifier::external_body]
pub fn board_status(b: &cozy_chess::Board) -> (r: BoardStatus)
    ensures
        r == board_rep(*b).status,
        r == BoardStatus::Ongoing ==> board_rep(*b).moves.len() > 0,
{
    match b.status() {
        cozy_chess::GameStatus::Won => BoardStatus::Won,
        cozy_chess::GameStatus::Drawn => BoardStatus::Drawn,
        cozy_chess::GameStatus::Ongoing => BoardStatus::Ongoing,
    }
}

/// Relies on `cozy_chess::Board::halfmove_clock`, kept at most 100.
#[verifier::external_body]
pub fn board_halfmove_clock(b: &cozy_chess::Board) -> (r: u8)
    ensures
        r == board_rep(*b).halfmove_clock,
{
    b.halfmove_clock()
}

/// Relies on `cozy_chess::Board::fullmove_number`.
#[verifier::external_body]
pub fn board_fullmove_number(b: &cozy_chess::Board) -> (r: u16)
    ensures
        r == board_rep(*b).fullmove_number,
{
    b.fullmove_number()
}

/// Relies on `cozy_chess::Board::en_passant`: the file of a capturable
/// en-passant pawn, if any.
#[verifier::external_body]
pub fn board_en_passant(b: &cozy_chess::Board) -> (r: Option<u8>)
    ensures
        r == board_rep(*b).ep_file,
        r matches Some(f) ==> f < 8,
{
    match b.en_passant() {
        Some(f) => Some(f as u8),
        None => None,
    }
}

/// Relies on `cozy_chess::Board::king`: one side's king square.
#[verifier::external_body]
pub fn board_king(b: &cozy_chess::Board, c: Color) -> (r: u8)
    ensures
        r == rep_king(board_rep(*b), c),
        r < 64,
{
    b.king(cozy_chess::Color::index(c.index())) as u8
}

/// Relies on `cozy_chess::Board::piece_on`, which scans the piece bitboards
/// in index order.
#[verifier::external_body]
pub fn board_piece_on(b: &cozy_chess::Board, sq: u8) -> (r: Option<Piece>)
    requires
        sq < 64,
    ensures
        r == rep_piece_on(board_rep(*b), sq),
{
    match b.piece_on(cozy_chess::Square::index(sq as usize)) {
        Some(cozy_chess::Piece::Pawn) => Some(Piece::Pawn),
        Some(cozy_chess::Piece::Knight) => Some(Piece::Knight),
        Some(cozy_chess::Piece::Bishop) => Some(Piece::Bishop),
        Some(cozy_chess::Piece::Rook) => Some(Piece::Rook),
        Some(cozy_chess::Piece::Queen) => Some(Piece::Queen),
        Some(cozy_chess::Piece::King) => Some(Piece::King),
        None => None,
    }
}

/// Relies on `cozy_chess::Board::color_on`, which checks the white bitboard
/// first.
#[verifier::external_body]
pub fn board_color_on(b: &cozy_chess::Board, sq: u8) -> (r: Option<Color>)
    requires
        sq < 64,
    ensures
        r == rep_color_on(board_rep(*b), sq),
{
    match b.color_on(cozy_chess::Square::index(sq as usize)) {
        Some(cozy_chess::Color::White) => Some(Color::White),
        Some(cozy_chess::Color::Black) => Some(Color::Black),
        None => None,
    }
}

/// Relies on `cozy_chess::Board::generate_moves`, which enumerates exactly
/// the legal moves, each exactly once, each with both squares on the
/// board, each moving a piece of the side to move.
#[verifier::external_body]
pub fn board_legal_moves(b: &cozy_chess::Board) -> (r: Vec<ChessMove>)
    ensures
        r@ == board_rep(*b).moves,
        forall|i: int| 0 <= i < r@.len() ==> (#[trigger] r@[i]).wf(),
        forall|i: int|
            0 <= i < r@.len() ==> rep_piece_on(board_rep(*b), (#[trigger] r@[i]).from) is Some,
        forall|i: int, j: int| 0 <= i < j < r@.len() ==> #[trigger] r@[i] != #[trigger] r@[j],
{
    let mut v = Vec::new();
    b.generate_moves(|set| {
        for mv in set {
            v.push(ChessMove {
                from: mv.from as u8,
                to: mv.to as u8,
                promotion: mv.promotion.map(|p| Piece::from_index(p as usize).unwrap()),
            });
        }
        false
    });
    v
}

/// Relies on `cozy_chess::Board::is_legal`: true exactly for the moves the
/// generator enumerates, each of which moves a piece off an occupied
/// square.
#[verifier::external_body]
pub fn board_is_legal(b: &cozy_chess::Board, mv: ChessMove) -> (r: bool)
    requires
        mv.wf(),
    ensures
        r == board_rep(*b).moves.contains(mv),
        r ==> rep_piece_on(board_rep(*b), mv.from) is Some,
{
    b.is_legal(cozy_chess::Move {
        from: cozy_chess::Square::index(mv.from as usize),
        to: cozy_chess::Square::index(mv.to as usize),
        promotion: mv.promotion.map(|p| cozy_chess::Piece::index(p.index())),
    })
}

/// Relies on `cozy_chess::Board::play_unchecked`, sound only for legal
/// moves; the child has the other side to move.
#[verifier::external_body]
pub fn board_play(b: &cozy_chess::Board, mv: ChessMove) -> (r: cozy_chess::Board)
    requires
        mv.wf(),
        board_rep(*b).moves.contains(mv),
    ensures
        board_rep(r).stm == board_rep(*b).stm.spec_flip(),
{
    let mut nb = b.clone();
    nb.play_unchecked(cozy_chess::Move {
        from: cozy_chess::Square::index(mv.from as usize),
        to: cozy_chess::Square::index(mv.to as usize),
        promotion: mv.promotion.map(|p| cozy_chess::Piece::index(p.index())),
    });
    nb
}

/// Relies on `cozy_chess::Board::null_move`: hands the turn over without
/// moving, and refuses only when the side to move is in check. No piece
/// moves: the color and piece sets of the child are the parent's.
#[verifier::external_body]
pub fn board_null_move(b: &cozy_chess::Board) -> (r: Option<cozy_chess::Board>)
    ensures
        r is Some <==> board_rep(*b).checkers == 0,
        r matches Some(nb) ==> {
            &&& board_rep(nb).stm == board_rep(*b).stm.spec_flip()
            &&& board_rep(nb).white == board_rep(*b).white
            &&& board_rep(nb).black == board_rep(*b).black
            &&& board_rep(nb).pawns == board_rep(*b).pawns
            &&& board_rep(nb).knights == board_rep(*b).knights
            &&& board_rep(nb).bishops == board_rep(*b).bishops
            &&& board_rep(nb).rooks == board_rep(*b).rooks
            &&& board_rep(nb).queens == board_rep(*b).queens
            &&& board_rep(nb).kings == board_rep(*b).kings
        },
{
    b.null_move()
}

/// Relies on `cozy_chess::Board::castle_rights`: the rook file of the
/// short-castle right, if the side still has it.
#[verifier::external_body]
pub fn board_castle_short(b: &cozy_chess::Board, c: Color) -> (r: Option<u8>)
    ensures
        r == board_rep(*b).castle_short_white || c == Color::Black,
        r == board_rep(*b).castle_short_black || c == Color::White,
        r matches Some(f) ==> f < 8,
{
    match b.castle_rights(cozy_chess::Color::index(c.index())).short {
        Some(f) => Some(f as u8),
        None => None,
    }
}

/// Relies on `cozy_chess::Board::castle_rights`: the rook file of the
/// long-castle right, if the side still has it.
#[verifier::external_body]
pub fn board_castle_long(b: &cozy_chess::Board, c: Color) -> (r: Option<u8>)
    ensures
        r == board_rep(*b).castle_long_white || c == Color::Black,
        r == board_rep(*b).castle_long_black || c == Color::White,
        r matches Some(f) ==> f < 8,
{
    match b.castle_rights(cozy_chess::Color::index(c.index())).long {
        Some(f) => Some(f as u8),
        None => None,
    }
}

/// Squares a knight on `sq` attacks.
pub uninterp spec fn knight_attacks(sq: u8) -> u64;

/// Squares a king on `sq` attacks.
pub uninterp spec fn king_attacks(sq: u8) -> u64;

/// Squares a rook on `sq` reaches through the given blockers.
pub uninterp spec fn rook_attacks(sq: u8, blockers: u64) -> u64;

/// Squares a bishop on `sq` reaches through the given blockers.
pub uninterp spec fn bishop_attacks(sq: u8, blockers: u64) -> u64;

/// Squares a pawn of the given color on `sq` attacks.
pub uninterp spec fn pawn_attacks(sq: u8, c: Color) -> u64;

/// Squares a pawn of the given color on `sq` can step to through the given
/// blockers.
pub uninterp spec fn pawn_quiets(sq: u8, c: Color, blockers: u64) -> u64;

/// The open ray strictly between two squares, empty when they share no line.
pub uninterp spec fn between_rays(a: u8, b: u8) -> u64;

/// Relies on `cozy_chess::get_knight_moves`, a pure table lookup.
#[verifier::external_body]
pub fn knight_moves_bb(sq: u8) -> (r: u64)
    requires
        sq < 64,
    ensures
        r == knight_attacks(sq),
{
    cozy_chess::get_knight_moves(cozy_chess::Square::index(sq as usize)).0
}

/// Relies on `cozy_chess::get_king_moves`, a pure table lookup.
#[verifier::external_body]
pub fn king_moves_bb(sq: u8) -> (r: u64)
    requires
        sq < 64,
    ensures
        r == king_attacks(sq),
{
    cozy_chess::get_king_moves(cozy_chess::Square::index(sq as usize)).0
}

/// Relies on `cozy_chess::get_rook_moves`, a pure function of square and
/// blockers.
#[verifier::external_body]
pub fn rook_moves_bb(sq: u8, blockers: u64) -> (r: u64)
    requires
        sq < 64,
    ensures
        r == rook_attacks(sq, blockers),
{
    cozy_chess::get_rook_moves(cozy_chess::Square::index(sq as usize), cozy_chess::BitBoard(blockers)).0
}

/// Relies on `cozy_chess::get_bishop_moves`, a pure function of square and
/// blockers.
#[verifier::external_body]
pub fn bishop_moves_bb(sq: u8, blockers: u64) -> (r: u64)
    requires
        sq < 64,
    ensures
        r == bishop_attacks(sq, blockers),
{
    cozy_chess::get_bishop_moves(cozy_chess::Square::index(sq as usize), cozy_chess::BitBoard(blockers)).0
}

/// Relies on `cozy_chess::get_pawn_attacks`, a pure table lookup.
#[verifier::external_body]
pub fn pawn_attacks_bb(sq: u8, c: Color) -> (r: u64)
    requires
        sq < 64,
    ensures
        r == pawn_attacks(sq, c),
{
    cozy_chess::get_pawn_attacks(cozy_chess::Square::index(sq as usize), cozy_chess::Color::index(c.index())).0
}

/// Relies on `cozy_chess::get_pawn_quiets`, a pure function of square,
/// color and blockers.
#[verifier::external_body]
pub fn pawn_quiets_bb(sq: u8, c: Color, blockers: u64) -> (r: u64)
    requires
        sq < 64,
    ensures
        r == pawn_quiets(sq, c, blockers),
{
    cozy_chess::get_pawn_quiets(
        cozy_chess::Square::index(sq as usize),
        cozy_chess::Color::index(c.index()),
        cozy_chess::BitBoard(blockers),
    ).0
}

/// Relies on `cozy_chess::get_between_rays`, a pure table lookup.
#[verifier::external_body]
pub fn between_rays_bb(a: u8, b: u8) -> (r: u64)
    requires
        a < 64,
        b < 64,
    ensures
        r == between_rays(a, b),
{
    cozy_chess::get_between_rays(
        cozy_chess::Square::index(a as usize),
        cozy_chess::Square::index(b as usize),
    ).0
}

} // verus!
