//! The shared transposition cache: a fixed array of slots, each two atomic
//! 64-bit words. A slot's `data` word packs a whole entry; the companion
//! word holds `hash ^ data`, so a reader that xors what it loaded back
//! together recovers the writer's hash unless the pair was torn, and a torn
//! pair is discarded as a hash mismatch.

use vstd::prelude::*;

use std::sync::atomic::{AtomicU64, Ordering};

use crate::board::{board_hash};
use crate::chess::{ChessMove, Piece};
use crate::eval::{Eval, EvalKind};

verus! {

/// How a cached evaluation bounds the true score.
#[derive(Debug, Clone, Copy, PartialEq, Eq, Hash, Structural)]
pub enum CacheDataKind {
    Exact,
    LowerBound,
    UpperBound,
}

impl CacheDataKind {
    /// The byte this kind is stored as.
    pub open spec fn spec_byte(self) -> int {
        match self {
            CacheDataKind::Exact => 0,
            CacheDataKind::LowerBound => 1,
            CacheDataKind::UpperBound => 2,
        }
    }
}

/// One cache entry: bound kind, evaluation, search depth, best move, and
/// the generation it was written in.
#[derive(Debug, Clone, Copy, PartialEq, Eq, Structural)]
pub struct CacheData {
    pub kind: CacheDataKind,
    pub eval: Eval,
    pub depth: u8,
    pub best_move: ChessMove,
    pub age: u8,
}

/// The byte a promotion field is stored as: the piece index, or 255 for
/// none.
pub open spec fn spec_promo_byte(p: Option<Piece>) -> int {
    match p {
        Some(piece) => piece.spec_index(),
        None => 255,
    }
}

/// The 64-bit word an entry is packed into, byte by byte from the low end:
/// kind, evaluation (two bytes little-endian), depth, from-square,
/// to-square, promotion, and the generation byte.
pub open spec fn spec_encode_cache_data(d: CacheData) -> int {
    d.kind.spec_byte() + Eval::spec_to_u16(d.eval.val()) * 0x100 + d.depth * 0x1000000
        + d.best_move.from * 0x100000000 + d.best_move.to * 0x10000000000 + spec_promo_byte(
        d.best_move.promotion,
    ) * 0x1000000000000 + d.age * 0x100000000000000
}

/// What a 64-bit word unpacks to; a kind byte above two or a square byte
/// off the board marks a torn or foreign word and yields nothing.
pub open spec fn spec_decode_cache_data(w: u64) -> Option<CacheData> {
    let kb = w as int % 256;
    let eu = (w as int / 0x100) % 0x10000;
    let depth = (w as int / 0x1000000) % 256;
    let from = (w as int / 0x100000000) % 256;
    let to = (w as int / 0x10000000000) % 256;
    let promo = (w as int / 0x1000000000000) % 256;
    let age = w as int / 0x100000000000000;
    if kb <= 2 && from < 64 && to < 64 {
        Some(
            CacheData {
                kind: if kb == 0 {
                    CacheDataKind::Exact
                } else if kb == 1 {
                    CacheDataKind::LowerBound
                } else {
                    CacheDataKind::UpperBound
                },
                eval: Eval(Eval::spec_from_u16(eu) as i16),
                depth: depth as u8,
                best_move: ChessMove {
                    from: from as u8,
                    to: to as u8,
                    promotion: Piece::spec_from_index(promo),
                },
                age: age as u8,
            },
        )
    } else {
        None
    }
}

/// Pack an entry into its 64-bit word.
pub fn encode_cache_data(d: &CacheData) -> (w: u64)
    requires
        d.best_move.wf(),
    ensures
        w == spec_encode_cache_data(*d),
{
    let kb: u64 = match d.kind {
        CacheDataKind::Exact => 0,
        CacheDataKind::LowerBound => 1,
        CacheDataKind::UpperBound => 2,
    };
    let eu: u64 = if d.eval.0 >= 0 {
        d.eval.0 as u64
    } else {
        (d.eval.0 as i64 + 0x10000) as u64
    };
    let promo: u64 = match d.best_move.promotion {
        Some(p) => p.index() as u64,
        None => 255,
    };
    kb + eu * 0x100 + (d.depth as u64) * 0x1000000 + (d.best_move.from as u64) * 0x100000000 + (
    d.best_move.to as u64) * 0x10000000000 + promo * 0x1000000000000 + (d.age as u64)
        * 0x100000000000000
}

/// Unpack a 64-bit word, rejecting words no writer of this table produces.
pub fn decode_cache_data(w: u64) -> (r: Option<CacheData>)
    ensures
        r == spec_decode_cache_data(w),
{
    let kb: u64 = w % 256;
    let eu: u64 = (w / 0x100) % 0x10000;
    let depth: u64 = (w / 0x1000000) % 256;
    let from: u64 = (w / 0x100000000) % 256;
    let to: u64 = (w / 0x10000000000) % 256;
    let promo: u64 = (w / 0x1000000000000) % 256;
    let age: u64 = w / 0x100000000000000;
    if kb <= 2 && from < 64 && to < 64 {
        let eval: Eval = if eu < 0x8000 {
            Eval(eu as i16)
        } else {
            Eval((eu as i64 - 0x10000) as i16)
        };
        Some(
            CacheData {
                kind: if kb == 0 {
                    CacheDataKind::Exact
                } else if kb == 1 {
                    CacheDataKind::LowerBound
                } else {
                    CacheDataKind::UpperBound
                },
                eval,
                depth: depth as u8,
                best_move: ChessMove {
                    from: from as u8,
                    to: to as u8,
                    promotion: Piece::from_index(promo as usize),
                },
                age: age as u8,
            },
        )
    } else {
        None
    }
}

/// Decoding the encoding of any entry gives the entry back exactly.
#[verifier::rlimit(100)]
pub proof fn lemma_cache_data_round_trip(d: CacheData)
    requires
        d.best_move.wf(),
        d.eval.0 > i16::MIN,
    ensures
        spec_encode_cache_data(d) < 0x10000000000000000,
        spec_decode_cache_data(spec_encode_cache_data(d) as u64) == Some(d),
{
    let w = spec_encode_cache_data(d);
    let kb = d.kind.spec_byte();
    let eu = Eval::spec_to_u16(d.eval.val());
    let dep = d.depth as int;
    let from = d.best_move.from as int;
    let to = d.best_move.to as int;
    let promo = spec_promo_byte(d.best_move.promotion);
    assert(0 <= kb <= 2);
    assert(0 <= eu < 0x10000);
    assert(0 <= promo <= 255);
    let age = d.age as int;
    let q0 = eu + dep * 0x10000 + from * 0x1000000 + to * 0x100000000 + promo * 0x10000000000 + age
        * 0x1000000000000;
    vstd::arithmetic::div_mod::lemma_fundamental_div_mod_converse_mod(w, 256, q0, kb);
    vstd::arithmetic::div_mod::lemma_fundamental_div_mod_converse_div(w, 256, q0, kb);
    let q1 = dep + from * 0x100 + to * 0x10000 + promo * 0x1000000 + age * 0x100000000;
    vstd::arithmetic::div_mod::lemma_fundamental_div_mod_converse_mod(q0, 0x10000, q1, eu);
    vstd::arithmetic::div_mod::lemma_div_denominator(w, 256, 0x10000);
    vstd::arithmetic::div_mod::lemma_fundamental_div_mod_converse_div(w, 0x1000000, q1, kb + eu * 256);
    let q2 = from + to * 0x100 + promo * 0x10000 + age * 0x1000000;
    vstd::arithmetic::div_mod::lemma_fundamental_div_mod_converse_mod(q1, 256, q2, dep);
    vstd::arithmetic::div_mod::lemma_fundamental_div_mod_converse_div(
        w,
        0x100000000,
        q2,
        kb + eu * 256 + dep * 0x1000000,
    );
    let q3 = to + promo * 0x100 + age * 0x10000;
    vstd::arithmetic::div_mod::lemma_fundamental_div_mod_converse_mod(q2, 256, q3, from);
    vstd::arithmetic::div_mod::lemma_fundamental_div_mod_converse_div(
        w,
        0x10000000000,
        q3,
        kb + eu * 256 + dep * 0x1000000 + from * 0x100000000,
    );
    let q4 = promo + age * 0x100;
    vstd::arithmetic::div_mod::lemma_fundamental_div_mod_converse_mod(q3, 256, q4, to);
    vstd::arithmetic::div_mod::lemma_fundamental_div_mod_converse_div(
        w,
        0x1000000000000,
        q4,
        kb + eu * 256 + dep * 0x1000000 + from * 0x100000000 + to * 0x10000000000,
    );
    vstd::arithmetic::div_mod::lemma_fundamental_div_mod_converse_mod(q4, 256, age, promo);
    vstd::arithmetic::div_mod::lemma_fundamental_div_mod_converse_div(
        w,
        0x100000000000000,
        age,
        kb + eu * 256 + dep * 0x1000000 + from * 0x100000000 + to * 0x10000000000 + promo
            * 0x1000000000000,
    );
    assert(Eval::spec_from_u16(eu) == d.eval.val());
    assert(Piece::spec_from_index(promo) == d.best_move.promotion);
}

/// One slot: the packed entry and its xor-checked companion word.
#[derive(Debug)]
pub struct CacheEntry {
    pub hash_xor_data: AtomicU64,
    pub data: AtomicU64,
}

impl CacheEntry {
    /// A slot no writer has touched: both words zero.
    pub fn empty() -> Self {
        CacheEntry { hash_xor_data: AtomicU64::new(0), data: AtomicU64::new(0) }
    }

    /// Has any writer stored here? Concurrent writers may change the answer
    /// at any time.
    pub fn is_empty(&self) -> bool {
        self.data.load(Ordering::Acquire) == 0
    }
}

/// Why a cache table could not be built.
#[derive(Debug, Clone, Copy, PartialEq, Eq, Structural)]
pub enum CacheTableError {
    /// The byte budget is smaller than one slot.
    NotEnoughMemory,
    /// More slots than a 32-bit index can address.
    TooManyEntries,
}

/// The bytes one slot occupies: two 64-bit words.
pub const CACHE_ENTRY_SIZE: usize = 16;

/// The shared transposition table.
#[derive(Debug)]
pub struct CacheTable {
    pub table: Vec<CacheEntry>,
    pub age: u8,
}

impl CacheTable {
    /// Non-empty and addressable by a 32-bit index.
    pub open spec fn wf(self) -> bool {
        1 <= self.table.len() <= 0xffffffff
    }

    /// The slot a hash maps to: multiply-shift reduction of the low hash
    /// word, always in range.
    pub open spec fn spec_slot_of(self, hash: u64) -> int {
        ((hash % 0x100000000) * self.table@.len()) / 0x100000000
    }

    /// Build a table with exactly this many slots.
    pub fn new_with_entries(entries: u32) -> (r: Self)
        requires
            entries >= 1,
        ensures
            r.wf(),
            r.table.len() == entries,
            r.age == 0,
    {
        let mut table: Vec<CacheEntry> = Vec::new();
        let mut i: u32 = 0;
        while i < entries
            invariant
                i <= entries,
                table.len() == i,
            decreases entries - i,
        {
            table.push(CacheEntry::empty());
            i = i + 1;
        }
        CacheTable { table, age: 0 }
    }

    /// Build the largest table that fits in `size` bytes: `size / 16`
    /// slots. There must be room for at least one slot and at most
    /// `u32::MAX` of them.
    pub fn new_with_size(size: usize) -> (r: Result<Self, CacheTableError>)
        ensures
            match r {
                Ok(t) => {
                    &&& 1 <= size as int / 16 <= 0xffffffff
                    &&& t.wf()
                    &&& t.table.len() == size as int / 16
                    &&& t.age == 0
                },
                Err(CacheTableError::TooManyEntries) => size as int / 16 > 0xffffffff,
                Err(CacheTableError::NotEnoughMemory) => size as int / 16 == 0,
            },
    {
        let entries: usize = size / CACHE_ENTRY_SIZE;
        if entries > 0xffffffff {
            Err(CacheTableError::TooManyEntries)
        } else if entries == 0 {
            Err(CacheTableError::NotEnoughMemory)
        } else {
            Ok(Self::new_with_entries(entries as u32))
        }
    }

    /// The number of slots.
    pub fn capacity(&self) -> (r: u32)
        requires
            self.wf(),
        ensures
            r == self.table.len(),
    {
        self.table.len() as u32
    }

    fn slot_index(&self, hash: u64) -> (r: usize)
        requires
            self.wf(),
        ensures
            r == self.spec_slot_of(hash),
            r < self.table.len(),
    {
        let low: u64 = hash % 0x100000000;
        let len: u64 = self.table.len() as u64;
        proof {
            let cap = self.table@.len() as int;
            let lo = low as int;
            let ln = len as int;
            assert(lo * ln <= 0xffffffff * 0xffffffff) by (nonlinear_arith)
                requires
                    0 <= lo <= 0xffffffff,
                    0 <= ln <= 0xffffffff,
            ;
            assert((lo * cap) / 0x100000000 < cap) by (nonlinear_arith)
                requires
                    0 <= lo < 0x100000000,
                    1 <= cap,
            ;
        }
        let prod: u64 = low * len;
        let index: u64 = prod >> 32u64;
        proof {
            assert(index == prod / 0x100000000) by (bit_vector)
                requires
                    index == prod >> 32u64,
            ;
        }
        index as usize
    }

    /// A no-op stand-in for a memory prefetch of the slot a position maps
    /// to; a conforming implementation on every platform.
    pub fn prefetch(&self, board: &cozy_chess::Board)
        requires
            self.wf(),
    {
        let _ = board;
    }

    /// A stored mate distance is relative to the entry's own position; seen
    /// from the root it is `ply_index` further away. A remapped distance
    /// that no longer fits the byte field collapses to a large centipawn
    /// value of the same sign.
    pub open spec fn spec_grafted(e: Eval, ply_index: u8) -> Eval {
        match Eval::spec_kind(e.0) {
            EvalKind::Centipawn(_) => e,
            EvalKind::MateIn(p) => if p + ply_index <= 255 {
                Eval((crate::eval::MATE_IN_ZERO_VALUE - (p + ply_index)) as i16)
            } else {
                Eval((20000 - (p + ply_index)) as i16)
            },
            EvalKind::MatedIn(p) => if p + ply_index <= 255 {
                Eval((-(crate::eval::MATE_IN_ZERO_VALUE - (p + ply_index))) as i16)
            } else {
                Eval((-(20000 - (p + ply_index))) as i16)
            },
        }
    }

    /// Remap a stored evaluation to be seen from the root.
    pub fn graft_to_root(e: Eval, ply_index: u8) -> (r: Eval)
        ensures
            r == Self::spec_grafted(e, ply_index),
    {
        match e.kind() {
            EvalKind::Centipawn(_) => e,
            EvalKind::MateIn(p) => {
                let total: u32 = p as u32 + ply_index as u32;
                if total <= 255 {
                    Eval::mate_in(total as u8)
                } else {
                    Eval::cp((20000 - total as i32) as i16)
                }
            },
            EvalKind::MatedIn(p) => {
                let total: u32 = p as u32 + ply_index as u32;
                if total <= 255 {
                    Eval::mated_in(total as u8)
                } else {
                    Eval::cp((-(20000 - total as i32)) as i16)
                }
            },
        }
    }

    /// The inverse shift on the way in: store mate distances relative to
    /// the entry's position, the ply subtraction wrapping as the byte does.
    pub open spec fn spec_ply_relative(e: Eval, ply_index: u8) -> Eval {
        match Eval::spec_kind(e.0) {
            EvalKind::Centipawn(_) => e,
            EvalKind::MateIn(p) => Eval(
                (crate::eval::MATE_IN_ZERO_VALUE - (p - ply_index) % 256) as i16,
            ),
            EvalKind::MatedIn(p) => Eval(
                (-(crate::eval::MATE_IN_ZERO_VALUE - (p - ply_index) % 256)) as i16,
            ),
        }
    }

    fn ply_relative(e: Eval, ply_index: u8) -> (r: Eval)
        ensures
            r == Self::spec_ply_relative(e, ply_index),
    {
        match e.kind() {
            EvalKind::Centipawn(_) => e,
            EvalKind::MateIn(p) => Eval::mate_in(p.wrapping_sub(ply_index)),
            EvalKind::MatedIn(p) => Eval::mated_in(p.wrapping_sub(ply_index)),
        }
    }

    /// Look the position up. `None` on an untouched slot, a hash mismatch
    /// (including every torn write), or a word no writer produces; else the
    /// decoded entry with its evaluation remapped to the root.
    pub fn get(&self, board: &cozy_chess::Board, ply_index: u8) -> (r: Option<CacheData>)
        requires
            self.wf(),
        ensures
            r matches Some(d) ==> exists|w: u64|
                #[trigger] spec_decode_cache_data(w) matches Some(raw) && d == (CacheData {
                    eval: Self::spec_grafted(raw.eval, ply_index),
                    ..raw
                }),
    {
        let entry = &self.table[self.slot_index(board_hash(board))];
        let data: u64 = entry.data.load(Ordering::Acquire);
        let hash: u64 = entry.hash_xor_data.load(Ordering::Acquire) ^ data;
        if data == 0 || hash != board_hash(board) {
            return None;
        }
        match decode_cache_data(data) {
            Some(raw) => Some(
                CacheData { eval: Self::graft_to_root(raw.eval, ply_index), ..raw },
            ),
            None => None,
        }
    }

    /// Should a new entry replace what the slot holds? Yes for the same
    /// position, an at-least-as-deep entry, or a stored generation at least
    /// two behind the table's.
    pub open spec fn spec_replaces(
        self,
        same_position: bool,
        new_depth: u8,
        prev_depth: int,
        prev_age: int,
    ) -> bool {
        ||| same_position
        ||| new_depth >= prev_depth
        ||| (self.age - prev_age) % 256 >= 2
    }

    /// Decide replacement against what the slot held.
    fn should_replace(&self, same_position: bool, new_depth: u8, prev_depth: u8, prev_age: u8) -> (r:
        bool)
        ensures
            r == self.spec_replaces(same_position, new_depth, prev_depth as int, prev_age as int),
    {
        same_position || new_depth >= prev_depth || self.age.wrapping_sub(prev_age) >= 2
    }

    /// Store an entry for the position: shift a mate evaluation to be
    /// relative to the entry, stamp the table's current generation into the
    /// age byte, and apply [`CacheTable::spec_replaces`] against whatever
    /// the slot held.
    pub fn set(&self, board: &cozy_chess::Board, ply_index: u8, data: CacheData)
        requires
            self.wf(),
            data.best_move.wf(),
    {
        let stored = CacheData {
            eval: Self::ply_relative(data.eval, ply_index),
            age: self.age,
            ..data
        };
        let entry = &self.table[self.slot_index(board_hash(board))];
        let prev_data: u64 = entry.data.load(Ordering::Acquire);
        let prev_hash: u64 = entry.hash_xor_data.load(Ordering::Acquire) ^ prev_data;
        let prev_depth: u8 = ((prev_data / 0x1000000) % 256) as u8;
        let prev_age: u8 = (prev_data / 0x100000000000000) as u8;
        let same_position = board_hash(board) == prev_hash;
        if self.should_replace(same_position, stored.depth, prev_depth, prev_age) {
            let w: u64 = encode_cache_data(&stored);
            entry.data.store(w, Ordering::Release);
            entry.hash_xor_data.store(board_hash(board) ^ w, Ordering::Release);
        }
    }

    /// The fill rate of the first thousand slots, in thousandths; a sample,
    /// racing against concurrent writers.
    pub fn approx_size_permill(&self) -> (r: u32)
        requires
            self.wf(),
        ensures
            r <= 1000,
    {
        let mut count: u32 = 0;
        let mut i: usize = 0;
        let limit: usize = if self.table.len() < 1000 {
            self.table.len()
        } else {
            1000
        };
        while i < limit
            invariant
                i <= limit,
                limit <= 1000,
                count <= i,
                limit <= self.table.len(),
            decreases limit - i,
        {
            if !self.table[i].is_empty() {
                count = count + 1;
            }
            i = i + 1;
        }
        count
    }

    /// Wipe every slot. Legal only between searches.
    pub fn clear(&mut self)
        requires
            old(self).wf(),
        ensures
            final(self).wf(),
            final(self).table.len() == old(self).table.len(),
            final(self).age == old(self).age,
    {
        let mut i: usize = 0;
        let len: usize = self.table.len();
        while i < len
            invariant
                i <= len,
                self.table.len() == len,
                self.age == old(self).age,
                1 <= len <= 0xffffffff,
            decreases len - i,
        {
            self.table.set(i, CacheEntry::empty());
            i = i + 1;
        }
    }

    /// Advance the generation counter, wrapping around.
    pub fn age_by(&mut self, plies: u8)
        requires
            old(self).wf(),
        ensures
            final(self).wf(),
            final(self).age == (old(self).age + plies) % 256,
            final(self).table.len() == old(self).table.len(),
    {
        self.age = self.age.wrapping_add(plies);
    }
}

} // verus!
