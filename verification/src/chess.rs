//! Plain chess values the verified logic computes with: colors, piece kinds,
//! squares as indices 0..64 (file-major within each rank, rank 1 first), and
//! moves. The move generator's own types stay behind the trusted layer in
//! [`crate::board`].

use vstd::prelude::*;

verus! {

/// A side.
#[derive(Debug, Clone, Copy, PartialEq, Eq, Hash, Structural)]
pub enum Color {
    White,
    Black,
}

impl Color {
    /// The other side.
    pub open spec fn spec_flip(self) -> Color {
        match self {
            Color::White => Color::Black,
            Color::Black => Color::White,
        }
    }

    /// The other side.
    pub fn flip(self) -> (r: Color)
        ensures
            r == self.spec_flip(),
    {
        match self {
            Color::White => Color::Black,
            Color::Black => Color::White,
        }
    }

    /// 0 for White, 1 for Black.
    pub open spec fn spec_index(self) -> int {
        match self {
            Color::White => 0,
            Color::Black => 1,
        }
    }

    /// 0 for White, 1 for Black.
    pub fn index(self) -> (r: usize)
        ensures
            r == self.spec_index(),
    {
        match self {
            Color::White => 0,
            Color::Black => 1,
        }
    }

    /// Decode an index.
    pub fn from_index(i: usize) -> (r: Option<Color>)
        ensures
            r == if i == 0 {
                Some(Color::White)
            } else if i == 1 {
                Some(Color::Black)
            } else {
                None::<Color>
            },
    {
        match i {
            0 => Some(Color::White),
            1 => Some(Color::Black),
            _ => None,
        }
    }
}

/// A piece kind.
#[derive(Debug, Clone, Copy, PartialEq, Eq, Hash, Structural)]
pub enum Piece {
    Pawn,
    Knight,
    Bishop,
    Rook,
    Queen,
    King,
}

impl Piece {
    /// 0 through 5, from pawn to king.
    pub open spec fn spec_index(self) -> int {
        match self {
            Piece::Pawn => 0,
            Piece::Knight => 1,
            Piece::Bishop => 2,
            Piece::Rook => 3,
            Piece::Queen => 4,
            Piece::King => 5,
        }
    }

    /// 0 through 5, from pawn to king.
    pub fn index(self) -> (r: usize)
        ensures
            r == self.spec_index(),
    {
        match self {
            Piece::Pawn => 0,
            Piece::Knight => 1,
            Piece::Bishop => 2,
            Piece::Rook => 3,
            Piece::Queen => 4,
            Piece::King => 5,
        }
    }

    /// What [`Piece::from_index`] decodes an index to.
    pub open spec fn spec_from_index(i: int) -> Option<Piece> {
        if i == 0 {
            Some(Piece::Pawn)
        } else if i == 1 {
            Some(Piece::Knight)
        } else if i == 2 {
            Some(Piece::Bishop)
        } else if i == 3 {
            Some(Piece::Rook)
        } else if i == 4 {
            Some(Piece::Queen)
        } else if i == 5 {
            Some(Piece::King)
        } else {
            None
        }
    }

    /// Decode an index.
    pub fn from_index(i: usize) -> (r: Option<Piece>)
        ensures
            r == Self::spec_from_index(i as int),
    {
        match i {
            0 => Some(Piece::Pawn),
            1 => Some(Piece::Knight),
            2 => Some(Piece::Bishop),
            3 => Some(Piece::Rook),
            4 => Some(Piece::Queen),
            5 => Some(Piece::King),
            _ => None,
        }
    }

    /// Every piece kind, in index order.
    pub fn all() -> (r: Vec<Piece>)
        ensures
            r@ =~= seq![
                Piece::Pawn,
                Piece::Knight,
                Piece::Bishop,
                Piece::Rook,
                Piece::Queen,
                Piece::King,
            ],
    {
        let mut v: Vec<Piece> = Vec::new();
        v.push(Piece::Pawn);
        v.push(Piece::Knight);
        v.push(Piece::Bishop);
        v.push(Piece::Rook);
        v.push(Piece::Queen);
        v.push(Piece::King);
        v
    }
}

/// The outcome a position's own rules decide.
#[derive(Debug, Clone, Copy, PartialEq, Eq, Hash, Structural)]
pub enum BoardStatus {
    /// The side to move has been checkmated.
    Won,
    /// Stalemate or the fifty-move rule.
    Drawn,
    /// The game goes on.
    Ongoing,
}

/// A move: source and destination squares, and the promotion piece when a
/// pawn reaches the last rank.
#[derive(Debug, Clone, Copy, PartialEq, Eq, Hash, Structural)]
pub struct ChessMove {
    pub from: u8,
    pub to: u8,
    pub promotion: Option<Piece>,
}

impl ChessMove {
    /// Both squares are on the board.
    pub open spec fn wf(self) -> bool {
        self.from < 64 && self.to < 64
    }
}

/// The file of a square, 0 through 7.
pub fn square_file(sq: u8) -> (r: u8)
    requires
        sq < 64,
    ensures
        r == sq % 8,
{
    sq % 8
}

/// The rank of a square, 0 through 7.
pub fn square_rank(sq: u8) -> (r: u8)
    requires
        sq < 64,
    ensures
        r == sq / 8,
{
    sq / 8
}

/// The square on a file and rank.
pub fn square_new(file: u8, rank: u8) -> (r: u8)
    requires
        file < 8,
        rank < 8,
    ensures
        r == rank * 8 + file,
        r < 64,
{
    rank * 8 + file
}

/// The square seen from the other side of the board: same file, mirrored
/// rank.
pub fn square_flip_rank(sq: u8) -> (r: u8)
    requires
        sq < 64,
    ensures
        r == (7 - sq / 8) * 8 + sq % 8,
        r < 64,
{
    (7 - sq / 8) * 8 + sq % 8
}

/// A rank from White's point of view turned into the same rank from
/// `color`'s point of view.
pub fn rank_relative_to(rank: u8, color: Color) -> (r: u8)
    requires
        rank < 8,
    ensures
        r == if color == Color::White {
            rank as int
        } else {
            7 - rank
        },
        r < 8,
{
    match color {
        Color::White => rank,
        Color::Black => 7 - rank,
    }
}

/// Set membership in a square-set bitboard.
pub open spec fn bb_has(bb: u64, sq: u8) -> bool {
    bb & (1u64 << sq) != 0
}

/// Test whether a bitboard holds a square.
pub fn bb_test(bb: u64, sq: u8) -> (r: bool)
    requires
        sq < 64,
    ensures
        r == bb_has(bb, sq),
{
    bb & (1u64 << sq) != 0
}

/// The number of set bits among the `n` lowest bits of a bitboard.
pub open spec fn bb_count_below(bb: u64, n: int) -> int
    decreases n,
{
    if n <= 0 {
        0
    } else {
        bb_count_below(bb, n - 1) + if (bb >> ((n - 1) as u64)) & 1u64 == 1u64 {
            1int
        } else {
            0int
        }
    }
}

/// An empty bitboard holds no squares.
pub proof fn lemma_bb_count_empty(n: int)
    ensures
        bb_count_below(0u64, n) == 0,
    decreases n,
{
    if n <= 0 {
    } else {
        assert(forall|k: u64| ((0u64 >> k) & 1u64) == 0u64) by (bit_vector);
        lemma_bb_count_empty(n - 1);
    }
}

/// The number of squares in a bitboard.
pub open spec fn bb_count(bb: u64) -> int {
    bb_count_below(bb, 64)
}

/// Count the squares in a bitboard.
pub fn bb_popcnt(bb: u64) -> (r: u32)
    ensures
        r == bb_count(bb),
        r <= 64,
{
    let mut count: u32 = 0;
    let mut i: u64 = 0;
    while i < 64
        invariant
            0 <= i <= 64,
            count == bb_count_below(bb, i as int),
            count <= i,
        decreases 64 - i,
    {
        if (bb >> i) & 1 == 1 {
            count = count + 1;
        }
        i = i + 1;
    }
    count
}

} // verus!
