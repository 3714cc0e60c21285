//! The staged move picker: the cached best move first, then captures in
//! descending score order, then killer moves, quiet moves by history, and
//! finally the losing captures. Each stage is generated only when the
//! previous one runs dry.

use vstd::prelude::*;

use crate::board::{
    board_colors, board_is_legal, board_legal_moves, board_rep, board_side_to_move, rep_color_bb,
    rep_piece_on, BoardRep,
};
use crate::chess::{bb_has, ChessMove};
use crate::helpers::{move_is_capture};
use crate::history::HistoryTable;
use crate::see::{static_exchange_evaluation, static_exchange_evaluation_at_least};

verus! {

/// How many killer slots a ply keeps.
pub const KILLER_ENTRIES: usize = 2;

/// The bounded ring of quiet moves that recently produced cutoffs at one
/// ply.
#[derive(Debug, Clone)]
pub struct KillerEntry {
    pub moves: Vec<ChessMove>,
}

impl KillerEntry {
    /// Never more than the slot count.
    pub open spec fn wf(self) -> bool {
        self.moves@.len() <= KILLER_ENTRIES
    }

    /// An empty ring.
    pub fn new() -> (r: Self)
        ensures
            r.wf(),
            r.moves@.len() == 0,
    {
        KillerEntry { moves: Vec::new() }
    }

    /// Is this move one of the killers?
    pub fn contains(&self, mv: ChessMove) -> (r: bool)
        ensures
            r == self.moves@.contains(mv),
    {
        let mut i: usize = 0;
        while i < self.moves.len()
            invariant
                i <= self.moves@.len(),
                forall|k: int| 0 <= k < i ==> self.moves@[k] != mv,
            decreases self.moves@.len() - i,
        {
            if self.moves[i] == mv {
                return true;
            }
            i = i + 1;
        }
        false
    }

    /// Push a move, dropping the oldest when the ring is full: the other
    /// killers survive in order and the new move becomes the last.
    pub fn push_ring(&mut self, mv: ChessMove)
        requires
            old(self).wf(),
        ensures
            final(self).wf(),
            final(self).moves@ == (if old(self).moves@.len() >= KILLER_ENTRIES {
                old(self).moves@.subrange(1, old(self).moves@.len() as int)
            } else {
                old(self).moves@
            }).push(mv),
    {
        if self.moves.len() >= KILLER_ENTRIES {
            let ghost pre = self.moves@;
            self.moves.remove(0);
            proof {
                assert(self.moves@ =~= pre.subrange(1, pre.len() as int));
            }
        }
        self.moves.push(mv);
    }

    /// An exact copy.
    pub fn duplicate(&self) -> (r: Self)
        ensures
            r.moves@ == self.moves@,
    {
        let mut moves: Vec<ChessMove> = Vec::new();
        let mut i: usize = 0;
        while i < self.moves.len()
            invariant
                i <= self.moves@.len(),
                moves@ =~= self.moves@.take(i as int),
            decreases self.moves@.len() - i,
        {
            moves.push(self.moves[i]);
            i = i + 1;
        }
        proof {
            assert(moves@ =~= self.moves@);
        }
        KillerEntry { moves }
    }
}

/// The ordering class of a move, with its history and exchange scores.
#[derive(Debug, Clone, Copy, PartialEq, Eq, Structural)]
pub enum MoveScore {
    /// A capture the exchange evaluates below zero.
    LosingCapture(i32, i16),
    /// A quiet move carrying its history score.
    Quiet(i32),
    /// A killer at this ply.
    Killer,
    /// A capture the exchange evaluates at zero or better, under a pawn.
    Capture(i32, i16),
    /// A capture worth at least a pawn.
    WinningCapture(i32, i16),
    /// The cached best move.
    Pv,
}

impl MoveScore {
    /// The class rank: later stages yield lower ranks.
    pub open spec fn spec_rank(self) -> int {
        match self {
            MoveScore::LosingCapture(..) => 0,
            MoveScore::Quiet(..) => 1,
            MoveScore::Killer => 2,
            MoveScore::Capture(..) => 3,
            MoveScore::WinningCapture(..) => 4,
            MoveScore::Pv => 5,
        }
    }

    /// The in-class key: history first, then the exchange score.
    pub open spec fn spec_key(self) -> (int, int) {
        match self {
            MoveScore::LosingCapture(h, s) => (h as int, s as int),
            MoveScore::Quiet(h) => (h as int, 0),
            MoveScore::Killer => (0, 0),
            MoveScore::Capture(h, s) => (h as int, s as int),
            MoveScore::WinningCapture(h, s) => (h as int, s as int),
            MoveScore::Pv => (0, 0),
        }
    }

    /// The total order on scores: class rank, then history, then exchange
    /// score.
    pub open spec fn spec_le(self, other: Self) -> bool {
        if self.spec_rank() != other.spec_rank() {
            self.spec_rank() < other.spec_rank()
        } else if self.spec_key().0 != other.spec_key().0 {
            self.spec_key().0 < other.spec_key().0
        } else {
            self.spec_key().1 <= other.spec_key().1
        }
    }

    /// Compare two scores.
    pub fn le(self, other: Self) -> (r: bool)
        ensures
            r == self.spec_le(other),
    {
        let (ra, rb) = (self.rank(), other.rank());
        if ra != rb {
            return ra < rb;
        }
        let (a0, a1) = self.key();
        let (b0, b1) = other.key();
        if a0 != b0 {
            a0 < b0
        } else {
            a1 <= b1
        }
    }

    fn rank(self) -> (r: u8)
        ensures
            r == self.spec_rank(),
    {
        match self {
            MoveScore::LosingCapture(..) => 0,
            MoveScore::Quiet(..) => 1,
            MoveScore::Killer => 2,
            MoveScore::Capture(..) => 3,
            MoveScore::WinningCapture(..) => 4,
            MoveScore::Pv => 5,
        }
    }

    fn key(self) -> (r: (i32, i16))
        ensures
            r.0 == self.spec_key().0,
            r.1 == self.spec_key().1,
    {
        match self {
            MoveScore::LosingCapture(h, s) => (h, s),
            MoveScore::Quiet(h) => (h, 0),
            MoveScore::Killer => (0, 0),
            MoveScore::Capture(h, s) => (h, s),
            MoveScore::WinningCapture(h, s) => (h, s),
            MoveScore::Pv => (0, 0),
        }
    }
}

/// A move with its ordering score.
pub type ScoredMove = (ChessMove, MoveScore);

/// A move fit to hand to the search: well-formed, legal on this board, and
/// moving an occupied square.
pub open spec fn spec_playable(r: BoardRep, mv: ChessMove) -> bool {
    &&& mv.wf()
    &&& r.moves.contains(mv)
    &&& rep_piece_on(r, mv.from) is Some
}

/// Every buffered move is playable on `r`.
pub open spec fn spec_buffer_playable(r: BoardRep, v: Seq<ScoredMove>) -> bool {
    forall|i: int| 0 <= i < v.len() ==> spec_playable(r, (#[trigger] v[i]).0)
}

/// Does some entry of `v` carry the move `m`?
pub open spec fn seq_has_move(v: Seq<ScoredMove>, m: ChessMove) -> bool {
    exists|k: int| 0 <= k < v.len() && v[k].0 == m
}

/// Does some entry of `v` at position `start` or later carry the move `m`?
pub open spec fn tail_has_move(v: Seq<ScoredMove>, start: int, m: ChessMove) -> bool {
    exists|k: int| start <= k < v.len() && v[k].0 == m
}

/// No move appears twice in `v`.
pub open spec fn spec_distinct_moves(v: Seq<ScoredMove>) -> bool {
    forall|i: int, j: int| 0 <= i < j < v.len() ==> (#[trigger] v[i]).0 != (#[trigger] v[j]).0
}

/// No move appears twice in `v` at position `start` or later.
pub open spec fn spec_tail_distinct(v: Seq<ScoredMove>, start: int) -> bool {
    forall|i: int, j: int| start <= i < j < v.len() ==> (#[trigger] v[i]).0 != (#[trigger] v[j]).0
}

/// The scores of `v` never rise from one entry to a later one.
pub open spec fn spec_scores_nonincreasing(v: Seq<ScoredMove>) -> bool {
    forall|i: int, j: int|
        0 <= i < j < v.len() ==> (#[trigger] v[j]).1.spec_le((#[trigger] v[i]).1)
}

/// The score order is transitive.
proof fn lemma_score_le_trans(a: MoveScore, b: MoveScore, c: MoveScore)
    requires
        a.spec_le(b),
        b.spec_le(c),
    ensures
        a.spec_le(c),
{
}

/// Swap the best-scored element of `list[start..]` to `start` and return
/// it; the later of two equal scores wins. The list is rearranged by that
/// one swap and nothing else.
fn pick_best_from(list: &mut Vec<ScoredMove>, start: usize) -> (r: Option<ScoredMove>)
    ensures
        final(list)@.len() == old(list)@.len(),
        forall|k: int| 0 <= k < start ==> final(list)@[k] == old(list)@[k],
        r is Some <==> start < old(list)@.len(),
        r is Some ==> start < usize::MAX,
        r is None ==> final(list)@ == old(list)@,
        r matches Some(sm) ==> {
            &&& final(list)@[start as int] == sm
            &&& forall|k: int|
                start <= k < final(list)@.len() ==> (#[trigger] final(list)@[k]).1.spec_le(sm.1)
            &&& exists|b: int| #[trigger] spec_swapped(old(list)@, final(list)@, start as int, b)
        },
{
    if start >= list.len() {
        return None;
    }
    let mut best: usize = start;
    let mut k: usize = start + 1;
    while k < list.len()
        invariant
            start <= best < k <= list@.len(),
            list@ == old(list)@,
            forall|j: int| start <= j < k ==> (#[trigger] list@[j]).1.spec_le(list@[best as int].1),
        decreases list@.len() - k,
    {
        if list[best].1.le(list[k].1) {
            best = k;
        }
        k = k + 1;
    }
    let chosen: ScoredMove = list[best];
    let at_start: ScoredMove = list[start];
    list.set(best, at_start);
    list.set(start, chosen);
    proof {
        assert(spec_swapped(old(list)@, list@, start as int, best as int));
    }
    Some(chosen)
}

/// `post` is `pre` with the entries at `start` and `b` exchanged.
pub open spec fn spec_swapped(pre: Seq<ScoredMove>, post: Seq<ScoredMove>, start: int, b: int) -> bool {
    &&& post.len() == pre.len()
    &&& start <= b < pre.len()
    &&& 0 <= start
    &&& post[start] == pre[b]
    &&& post[b] == pre[start]
    &&& forall|k: int| 0 <= k < pre.len() && k != start && k != b ==> post[k] == pre[k]
}

/// After one yield from a buffer tail -- the chosen entry swapped to the
/// front and the cursor moved past it -- the yielded move has left the
/// tail, every other tail move is still there, nothing new appeared, every
/// element is an old element, and the tail stays duplicate-free.
proof fn lemma_tail_yield(pre: Seq<ScoredMove>, post: Seq<ScoredMove>, start: int, b: int)
    requires
        spec_swapped(pre, post, start, b),
        spec_tail_distinct(pre, start),
    ensures
        spec_tail_distinct(post, start),
        spec_tail_distinct(post, start + 1),
        !tail_has_move(post, start + 1, post[start].0),
        tail_has_move(pre, start, post[start].0),
        forall|k: int| 0 <= k < post.len() ==> pre.contains(#[trigger] post[k]),
        forall|m: ChessMove| tail_has_move(post, start + 1, m) ==> tail_has_move(pre, start, m),
        forall|m: ChessMove|
            tail_has_move(pre, start, m) && m != post[start].0 ==> tail_has_move(
                post,
                start + 1,
                m,
            ),
{
    assert(tail_has_move(pre, start, post[start].0)) by {
        assert(pre[b].0 == post[start].0);
    }
    assert forall|k: int| 0 <= k < post.len() implies pre.contains(#[trigger] post[k]) by {
        if k == start {
            assert(pre[b] == post[k]);
        } else if k == b {
            assert(pre[start] == post[k]);
        } else {
            assert(pre[k] == post[k]);
        }
    }
    assert forall|i: int, j: int| start <= i < j < post.len() implies (#[trigger] post[i]).0 != (
    #[trigger] post[j]).0 by {
        let pi = if i == start {
            b
        } else if i == b {
            start
        } else {
            i
        };
        let pj = if j == start {
            b
        } else if j == b {
            start
        } else {
            j
        };
        assert(post[i] == pre[pi]);
        assert(post[j] == pre[pj]);
        assert(pi != pj);
    }
    assert(!tail_has_move(post, start + 1, post[start].0)) by {
        if tail_has_move(post, start + 1, post[start].0) {
            let k = choose|k: int| start + 1 <= k < post.len() && post[k].0 == post[start].0;
            assert(post[k].0 == post[start].0);
        }
    }
    assert forall|m: ChessMove| tail_has_move(post, start + 1, m) implies tail_has_move(
        pre,
        start,
        m,
    ) by {
        let k = choose|k: int| start + 1 <= k < post.len() && post[k].0 == m;
        let pk = if k == b {
            start
        } else {
            k
        };
        assert(pre[pk].0 == m);
    }
    assert forall|m: ChessMove|
        tail_has_move(pre, start, m) && m != post[start].0 implies tail_has_move(
        post,
        start + 1,
        m,
    ) by {
        let k = choose|k: int| start <= k < pre.len() && pre[k].0 == m;
        assert(k != b);
        let nk = if k == start {
            b
        } else {
            k
        };
        assert(post[nk].0 == m);
        assert(nk != start);
    }
}

/// Which stage the picker is in.
#[derive(Debug, Clone, Copy, PartialEq, Eq, Structural)]
pub enum MoveGenStage {
    Pv,
    Captures,
    Killers,
    Quiets,
    LosingCaptures,
    Finished,
}

/// Pushing one scored move extends the move set by exactly that move.
proof fn lemma_push_has(pre: Seq<ScoredMove>, post: Seq<ScoredMove>, e: ScoredMove)
    requires
        post == pre.push(e),
    ensures
        seq_has_move(post, e.0),
        forall|m: ChessMove| #[trigger] seq_has_move(post, m) <==> (seq_has_move(pre, m) || m
            == e.0),
        spec_tail_distinct(pre, 0) && !seq_has_move(pre, e.0) ==> spec_tail_distinct(post, 0),
{
    assert(seq_has_move(post, e.0)) by {
        assert(post[post.len() - 1].0 == e.0);
    }
    assert forall|m: ChessMove| #[trigger] seq_has_move(post, m) implies (seq_has_move(pre, m)
        || m == e.0) by {
        let k = choose|k: int| 0 <= k < post.len() && post[k].0 == m;
        if k < pre.len() {
            assert(pre[k].0 == m);
        }
    }
    assert forall|m: ChessMove| seq_has_move(pre, m) implies #[trigger] seq_has_move(post, m) by {
        let k = choose|k: int| 0 <= k < pre.len() && pre[k].0 == m;
        assert(post[k].0 == m);
    }
    if spec_tail_distinct(pre, 0) && !seq_has_move(pre, e.0) {
        assert forall|i: int, j: int| 0 <= i < j < post.len() implies (#[trigger] post[i]).0 != (
        #[trigger] post[j]).0 by {
            if j < pre.len() {
                assert(post[i] == pre[i]);
                assert(post[j] == pre[j]);
            } else {
                assert(post[j] == e);
                assert(post[i] == pre[i]);
                if pre[i].0 == e.0 {
                    assert(seq_has_move(pre, e.0));
                }
            }
        }
    }
}

/// Pushing one raw move extends containment by exactly that move.
proof fn lemma_push_contains(pre: Seq<ChessMove>, post: Seq<ChessMove>, e: ChessMove)
    requires
        post == pre.push(e),
    ensures
        post.contains(e),
        forall|m: ChessMove| #[trigger] post.contains(m) <==> (pre.contains(m) || m == e),
{
    assert(post.contains(e)) by {
        assert(post[post.len() - 1] == e);
    }
    assert forall|m: ChessMove| #[trigger] post.contains(m) implies (pre.contains(m) || m == e) by {
        let k = choose|k: int| 0 <= k < post.len() && post[k] == m;
        if k < pre.len() {
            assert(pre[k] == m);
        }
    }
    assert forall|m: ChessMove| pre.contains(m) implies #[trigger] post.contains(m) by {
        let k = choose|k: int| 0 <= k < pre.len() && pre[k] == m;
        assert(post[k] == m);
    }
}

/// A capture entry of the main picker: a non-losing capture whose score
/// class splits at one pawn of exchange value, the value itself stored.
pub open spec fn spec_capture_entry(r: BoardRep, e: ScoredMove) -> bool {
    &&& crate::helpers::spec_move_is_capture(e.0, r)
    &&& crate::see::spec_see(r, e.0) >= 0
    &&& match e.1 {
        MoveScore::WinningCapture(_, s) => s == crate::see::spec_see(r, e.0) && crate::see::spec_see(
            r,
            e.0,
        ) >= 100,
        MoveScore::Capture(_, s) => s == crate::see::spec_see(r, e.0) && crate::see::spec_see(
            r,
            e.0,
        ) < 100,
        _ => false,
    }
}

/// A losing-capture entry: the exchange value is negative and stored.
pub open spec fn spec_losing_entry(r: BoardRep, e: ScoredMove) -> bool {
    &&& crate::helpers::spec_move_is_capture(e.0, r)
    &&& match e.1 {
        MoveScore::LosingCapture(_, s) => s == crate::see::spec_see(r, e.0) && crate::see::spec_see(
            r,
            e.0,
        ) < 0,
        _ => false,
    }
}

/// The staged picker for the main search.
pub struct MoveList<'b> {
    pub board: &'b cozy_chess::Board,
    pub pv_move: Option<ChessMove>,
    pub killers: KillerEntry,
    pub stage: MoveGenStage,
    pub generated: bool,
    pub split_done: bool,
    pub yielded_list: Vec<ScoredMove>,
    pub captures: Vec<ScoredMove>,
    pub quiets_raw: Vec<ChessMove>,
    pub killer_moves: Vec<ScoredMove>,
    pub quiets: Vec<ScoredMove>,
    pub losing: Vec<ScoredMove>,
    pub captures_start: usize,
    pub killers_start: usize,
    pub quiets_start: usize,
    pub losing_start: usize,
}

impl<'b> MoveList<'b> {
    /// Is `m` still waiting in the picker's stock: an unyielded buffer
    /// entry, an unsplit raw quiet, the cached move before its stage, or
    /// any other legal move before generation?
    pub open spec fn spec_pending(self, m: ChessMove) -> bool {
        let r = board_rep(*self.board);
        ||| tail_has_move(self.captures@, self.captures_start as int, m)
        ||| tail_has_move(self.killer_moves@, self.killers_start as int, m)
        ||| tail_has_move(self.quiets@, self.quiets_start as int, m)
        ||| self.quiets_raw@.contains(m)
        ||| tail_has_move(self.losing@, self.losing_start as int, m)
        ||| (self.stage == MoveGenStage::Pv && self.pv_move == Some(m) && m.wf()
            && r.moves.contains(m))
        ||| (!self.generated && !(self.pv_move == Some(m) && m.wf()) && r.moves.contains(m))
    }

    /// How many stock sources hold `m`.
    pub open spec fn spec_pending_count(self, m: ChessMove) -> int {
        let r = board_rep(*self.board);
        (if tail_has_move(self.captures@, self.captures_start as int, m) {
            1int
        } else {
            0int
        }) + (if tail_has_move(self.killer_moves@, self.killers_start as int, m) {
            1int
        } else {
            0int
        }) + (if tail_has_move(self.quiets@, self.quiets_start as int, m) {
            1int
        } else {
            0int
        }) + (if self.quiets_raw@.contains(m) {
            1int
        } else {
            0int
        }) + (if tail_has_move(self.losing@, self.losing_start as int, m) {
            1int
        } else {
            0int
        }) + (if self.stage == MoveGenStage::Pv && self.pv_move == Some(m) && m.wf()
            && r.moves.contains(m) {
            1int
        } else {
            0int
        }) + (if !self.generated && !(self.pv_move == Some(m) && m.wf()) && r.moves.contains(m) {
            1int
        } else {
            0int
        })
    }

    /// Every score still in stock is at most `s`.
    pub open spec fn spec_stock_scores_le(self, s: MoveScore) -> bool {
        &&& forall|k: int|
            self.captures_start <= k < self.captures@.len() ==> (
            #[trigger] self.captures@[k]).1.spec_le(s)
        &&& forall|k: int|
            self.killers_start <= k < self.killer_moves@.len() ==> (
            #[trigger] self.killer_moves@[k]).1.spec_le(s)
        &&& forall|k: int|
            self.quiets_start <= k < self.quiets@.len() ==> (#[trigger] self.quiets@[k]).1.spec_le(
                s,
            )
        &&& forall|k: int|
            self.losing_start <= k < self.losing@.len() ==> (#[trigger] self.losing@[k]).1.spec_le(
                s,
            )
    }

    /// The picker's invariant: every buffered move is playable; every legal
    /// move is yielded or in stock; nothing yielded is still in stock and
    /// no move sits in two places; the buffers carry the right score
    /// classes with exchange values pinned; the yields only ever fall in
    /// score and dominate the stock; and the stage bookkeeping holds.
    pub open spec fn wf(self) -> bool {
        let r = board_rep(*self.board);
        &&& spec_buffer_playable(r, self.yielded_list@)
        &&& spec_buffer_playable(r, self.captures@)
        &&& spec_buffer_playable(r, self.killer_moves@)
        &&& spec_buffer_playable(r, self.quiets@)
        &&& spec_buffer_playable(r, self.losing@)
        &&& forall|i: int|
            0 <= i < self.quiets_raw@.len() ==> spec_playable(r, #[trigger] self.quiets_raw@[i])
        &&& forall|m: ChessMove|
            #[trigger] r.moves.contains(m) ==> seq_has_move(self.yielded_list@, m)
                || self.spec_pending(m)
        &&& forall|k: int|
            0 <= k < self.yielded_list@.len() ==> !self.spec_pending(
                (#[trigger] self.yielded_list@[k]).0,
            )
        &&& spec_distinct_moves(self.yielded_list@)
        &&& forall|m: ChessMove| #[trigger] self.spec_pending_count(m) <= 1
        &&& spec_tail_distinct(self.captures@, self.captures_start as int)
        &&& spec_tail_distinct(self.killer_moves@, self.killers_start as int)
        &&& spec_tail_distinct(self.quiets@, self.quiets_start as int)
        &&& spec_tail_distinct(self.losing@, self.losing_start as int)
        &&& forall|i: int, j: int|
            0 <= i < j < self.quiets_raw@.len() ==> #[trigger] self.quiets_raw@[i]
                != #[trigger] self.quiets_raw@[j]
        &&& forall|k: int|
            0 <= k < self.captures@.len() ==> spec_capture_entry(r, #[trigger] self.captures@[k])
        &&& forall|k: int|
            0 <= k < self.killer_moves@.len() ==> (#[trigger] self.killer_moves@[k]).1
                == MoveScore::Killer
        &&& forall|k: int|
            0 <= k < self.quiets@.len() ==> (#[trigger] self.quiets@[k]).1 is Quiet
        &&& forall|k: int|
            0 <= k < self.losing@.len() ==> spec_losing_entry(r, #[trigger] self.losing@[k])
        &&& spec_scores_nonincreasing(self.yielded_list@)
        &&& (self.yielded_list@.len() > 0 ==> self.spec_stock_scores_le(
            self.yielded_list@.last().1,
        ))
        &&& (!self.generated && self.yielded_list@.len() > 0 ==> self.yielded_list@.len() == 1
            && self.yielded_list@[0].1 == MoveScore::Pv)
        &&& (!self.split_done ==> forall|k: int|
            0 <= k < self.yielded_list@.len() ==> (#[trigger] self.yielded_list@[k]).1.spec_rank()
                >= 3)
        &&& (self.stage == MoveGenStage::Pv ==> self.yielded_list@.len() == 0 && !self.generated)
        &&& (!self.generated ==> self.captures@.len() == 0 && self.quiets_raw@.len() == 0
            && self.losing@.len() == 0 && !self.split_done && self.captures_start == 0
            && self.losing_start == 0 && (self.stage == MoveGenStage::Pv || self.stage
            == MoveGenStage::Captures))
        &&& (!self.split_done ==> self.killer_moves@.len() == 0 && self.quiets@.len() == 0
            && self.killers_start == 0 && self.quiets_start == 0)
        &&& (self.split_done ==> self.generated && self.quiets_raw@.len() == 0)
        &&& ((self.stage == MoveGenStage::Pv || self.stage == MoveGenStage::Captures)
            ==> !self.split_done)
        &&& (match self.stage {
            MoveGenStage::Killers | MoveGenStage::Quiets | MoveGenStage::LosingCaptures
                | MoveGenStage::Finished => self.generated && self.captures_start
                >= self.captures@.len(),
            _ => true,
        })
        &&& (match self.stage {
            MoveGenStage::Quiets | MoveGenStage::LosingCaptures | MoveGenStage::Finished => self.split_done
                && self.killers_start >= self.killer_moves@.len(),
            _ => true,
        })
        &&& (match self.stage {
            MoveGenStage::LosingCaptures | MoveGenStage::Finished => self.quiets_start
                >= self.quiets@.len(),
            _ => true,
        })
        &&& (self.stage == MoveGenStage::Finished ==> self.losing_start >= self.losing@.len())
    }

    /// A picker for this node, seeded with the cache's best move and this
    /// ply's killers.
    pub fn new(board: &'b cozy_chess::Board, pv_move: Option<ChessMove>, killers: KillerEntry) -> (r:
        Self)
        ensures
            r.wf(),
            r.board == board,
            r.yielded_list@.len() == 0,
            r.stage == MoveGenStage::Pv,
    {
        MoveList {
            board,
            pv_move,
            killers,
            stage: MoveGenStage::Pv,
            generated: false,
            split_done: false,
            yielded_list: Vec::new(),
            captures: Vec::new(),
            quiets_raw: Vec::new(),
            killer_moves: Vec::new(),
            quiets: Vec::new(),
            losing: Vec::new(),
            captures_start: 0,
            killers_start: 0,
            quiets_start: 0,
            losing_start: 0,
        }
    }

    /// The moves yielded so far, oldest first.
    pub fn yielded(&self) -> (r: &Vec<ScoredMove>)
        ensures
            r == &self.yielded_list,
    {
        &self.yielded_list
    }

    /// Everything [`MoveList::wf`] says, except that the move of `sm` has
    /// just been taken out of the stock and not yet recorded as yielded.
    pub open spec fn spec_ready_to_yield(self, sm: ScoredMove) -> bool {
        let r = board_rep(*self.board);
        &&& spec_buffer_playable(r, self.yielded_list@)
        &&& spec_buffer_playable(r, self.captures@)
        &&& spec_buffer_playable(r, self.killer_moves@)
        &&& spec_buffer_playable(r, self.quiets@)
        &&& spec_buffer_playable(r, self.losing@)
        &&& forall|i: int|
            0 <= i < self.quiets_raw@.len() ==> spec_playable(r, #[trigger] self.quiets_raw@[i])
        &&& forall|m: ChessMove|
            #[trigger] r.moves.contains(m) ==> seq_has_move(self.yielded_list@, m)
                || self.spec_pending(m) || m == sm.0
        &&& forall|k: int|
            0 <= k < self.yielded_list@.len() ==> !self.spec_pending(
                (#[trigger] self.yielded_list@[k]).0,
            )
        &&& spec_distinct_moves(self.yielded_list@)
        &&& forall|m: ChessMove| #[trigger] self.spec_pending_count(m) <= 1
        &&& spec_tail_distinct(self.captures@, self.captures_start as int)
        &&& spec_tail_distinct(self.killer_moves@, self.killers_start as int)
        &&& spec_tail_distinct(self.quiets@, self.quiets_start as int)
        &&& spec_tail_distinct(self.losing@, self.losing_start as int)
        &&& forall|i: int, j: int|
            0 <= i < j < self.quiets_raw@.len() ==> #[trigger] self.quiets_raw@[i]
                != #[trigger] self.quiets_raw@[j]
        &&& forall|k: int|
            0 <= k < self.captures@.len() ==> spec_capture_entry(r, #[trigger] self.captures@[k])
        &&& forall|k: int|
            0 <= k < self.killer_moves@.len() ==> (#[trigger] self.killer_moves@[k]).1
                == MoveScore::Killer
        &&& forall|k: int|
            0 <= k < self.quiets@.len() ==> (#[trigger] self.quiets@[k]).1 is Quiet
        &&& forall|k: int|
            0 <= k < self.losing@.len() ==> spec_losing_entry(r, #[trigger] self.losing@[k])
        &&& spec_scores_nonincreasing(self.yielded_list@)
        &&& spec_playable(r, sm.0)
        &&& !self.spec_pending(sm.0)
        &&& !seq_has_move(self.yielded_list@, sm.0)
        &&& self.spec_stock_scores_le(sm.1)
        &&& (self.yielded_list@.len() > 0 ==> sm.1.spec_le(self.yielded_list@.last().1))
        &&& (!self.generated ==> sm.1 == MoveScore::Pv && self.yielded_list@.len() == 0)
        &&& (!self.split_done ==> sm.1.spec_rank() >= 3 && forall|k: int|
            0 <= k < self.yielded_list@.len() ==> (#[trigger] self.yielded_list@[k]).1.spec_rank()
                >= 3)
        &&& (self.stage != MoveGenStage::Pv)
        &&& (!self.generated ==> self.captures@.len() == 0 && self.quiets_raw@.len() == 0
            && self.losing@.len() == 0 && !self.split_done && self.captures_start == 0
            && self.losing_start == 0 && (self.stage == MoveGenStage::Pv || self.stage
            == MoveGenStage::Captures))
        &&& (!self.split_done ==> self.killer_moves@.len() == 0 && self.quiets@.len() == 0
            && self.killers_start == 0 && self.quiets_start == 0)
        &&& (self.split_done ==> self.generated && self.quiets_raw@.len() == 0)
        &&& ((self.stage == MoveGenStage::Pv || self.stage == MoveGenStage::Captures)
            ==> !self.split_done)
        &&& (match self.stage {
            MoveGenStage::Killers | MoveGenStage::Quiets | MoveGenStage::LosingCaptures
                | MoveGenStage::Finished => self.generated && self.captures_start
                >= self.captures@.len(),
            _ => true,
        })
        &&& (match self.stage {
            MoveGenStage::Quiets | MoveGenStage::LosingCaptures | MoveGenStage::Finished => self.split_done
                && self.killers_start >= self.killer_moves@.len(),
            _ => true,
        })
        &&& (match self.stage {
            MoveGenStage::LosingCaptures | MoveGenStage::Finished => self.quiets_start
                >= self.quiets@.len(),
            _ => true,
        })
        &&& (self.stage == MoveGenStage::Finished ==> self.losing_start >= self.losing@.len())
    }

    /// Record a move taken out of the stock as this node's next yield.
    fn yield_move(&mut self, sm: ScoredMove)
        requires
            old(self).spec_ready_to_yield(sm),
        ensures
            final(self).wf(),
            final(self).yielded_list@ == old(self).yielded_list@.push(sm),
            *final(self) == (MoveList { yielded_list: final(self).yielded_list, ..*old(self) }),
    {
        let ghost pre = *self;
        self.yielded_list.push(sm);
        proof {
            let r = board_rep(*self.board);
            let now = *self;
            let ylist = now.yielded_list@;
            assert(ylist =~= pre.yielded_list@.push(sm));
            assert(forall|m: ChessMove|
                now.spec_pending(m) == #[trigger] pre.spec_pending(m));
            assert(forall|m: ChessMove|
                #[trigger] now.spec_pending_count(m) == pre.spec_pending_count(m));
            assert(ylist.last() == sm);
            assert(now.spec_stock_scores_le(sm.1));
            assert forall|m: ChessMove| #[trigger] r.moves.contains(m) implies seq_has_move(
                ylist,
                m,
            ) || now.spec_pending(m) by {
                if seq_has_move(pre.yielded_list@, m) {
                    let k = choose|k: int|
                        0 <= k < pre.yielded_list@.len() && pre.yielded_list@[k].0 == m;
                    assert(ylist[k].0 == m);
                } else if m == sm.0 {
                    assert(ylist[ylist.len() - 1].0 == m);
                }
            }
            assert forall|k: int| 0 <= k < ylist.len() implies !now.spec_pending(
                (#[trigger] ylist[k]).0,
            ) by {
                if k < pre.yielded_list@.len() {
                    assert(ylist[k] == pre.yielded_list@[k]);
                } else {
                    assert(ylist[k] == sm);
                }
            }
            assert(spec_distinct_moves(ylist)) by {
                assert forall|i: int, j: int| 0 <= i < j < ylist.len() implies (
                #[trigger] ylist[i]).0 != (#[trigger] ylist[j]).0 by {
                    if j < pre.yielded_list@.len() {
                        assert(ylist[i] == pre.yielded_list@[i]);
                        assert(ylist[j] == pre.yielded_list@[j]);
                    } else {
                        assert(ylist[j] == sm);
                        assert(ylist[i] == pre.yielded_list@[i]);
                    }
                }
            }
            assert(spec_scores_nonincreasing(ylist)) by {
                assert forall|i: int, j: int| 0 <= i < j < ylist.len() implies (
                #[trigger] ylist[j]).1.spec_le((#[trigger] ylist[i]).1) by {
                    if j < pre.yielded_list@.len() {
                        assert(ylist[i] == pre.yielded_list@[i]);
                        assert(ylist[j] == pre.yielded_list@[j]);
                    } else {
                        assert(ylist[j] == sm);
                        assert(ylist[i] == pre.yielded_list@[i]);
                        if i < pre.yielded_list@.len() - 1 {
                            lemma_score_le_trans(
                                sm.1,
                                pre.yielded_list@.last().1,
                                pre.yielded_list@[i].1,
                            );
                        }
                    }
                }
            }
            if !now.split_done {
                assert forall|k: int| 0 <= k < ylist.len() implies (
                #[trigger] ylist[k]).1.spec_rank() >= 3 by {
                    if k < pre.yielded_list@.len() {
                        assert(ylist[k] == pre.yielded_list@[k]);
                    } else {
                        assert(ylist[k] == sm);
                    }
                }
            }
            assert(spec_buffer_playable(r, ylist)) by {
                assert forall|k: int| 0 <= k < ylist.len() implies spec_playable(
                    r,
                    (#[trigger] ylist[k]).0,
                ) by {
                    if k < pre.yielded_list@.len() {
                        assert(ylist[k] == pre.yielded_list@[k]);
                    } else {
                        assert(ylist[k] == sm);
                    }
                }
            }
        }
    }

    /// The next move in order, with its index among this node's yields:
    /// the cached move first, each later stage generated on demand. No
    /// move is ever yielded twice, the scores only ever fall, and when the
    /// picker runs dry every legal move has been yielded.
    pub fn pick(&mut self, history: &HistoryTable) -> (r: Option<(usize, ScoredMove)>)
        requires
            old(self).wf(),
            history.wf(),
        ensures
            final(self).wf(),
            final(self).board == old(self).board,
            r matches Some((i, sm)) ==> {
                &&& i == old(self).yielded_list@.len()
                &&& final(self).yielded_list@ == old(self).yielded_list@.push(sm)
                &&& spec_playable(board_rep(*old(self).board), sm.0)
                &&& !seq_has_move(old(self).yielded_list@, sm.0)
                &&& (old(self).yielded_list@.len() > 0 ==> sm.1.spec_le(
                    old(self).yielded_list@.last().1,
                ))
            },
            r is None ==> final(self).yielded_list@ == old(self).yielded_list@
                && final(self).stage == MoveGenStage::Finished,
            r is None ==> forall|m: ChessMove|
                #[trigger] board_rep(*old(self).board).moves.contains(m) ==> seq_has_move(
                    final(self).yielded_list@,
                    m,
                ),
    {
        match self.pick_inner(history) {
            Some(sm) => {
                let index = self.yielded_list.len() - 1;
                Some((index, sm))
            },
            None => {
                proof {
                    assert forall|m: ChessMove|
                        #[trigger] board_rep(*self.board).moves.contains(m) implies seq_has_move(
                        self.yielded_list@,
                        m,
                    ) by {
                        assert(!self.spec_pending(m));
                    }
                }
                None
            },
        }
    }

    #[verifier::rlimit(100)]
    #[verifier::spinoff_prover]
    fn pick_inner(&mut self, history: &HistoryTable) -> (r: Option<ScoredMove>)
        requires
            old(self).wf(),
            history.wf(),
        ensures
            final(self).wf(),
            final(self).board == old(self).board,
            r matches Some(sm) ==> {
                &&& final(self).yielded_list@ == old(self).yielded_list@.push(sm)
                &&& spec_playable(board_rep(*old(self).board), sm.0)
                &&& !seq_has_move(old(self).yielded_list@, sm.0)
                &&& (old(self).yielded_list@.len() > 0 ==> sm.1.spec_le(
                    old(self).yielded_list@.last().1,
                ))
            },
            r is None ==> {
                &&& final(self).yielded_list@ == old(self).yielded_list@
                &&& final(self).stage == MoveGenStage::Finished
                &&& forall|m: ChessMove| !#[trigger] final(self).spec_pending(m)
            },
    {
        if self.stage == MoveGenStage::Pv {
            let ghost pre = *self;
            self.stage = MoveGenStage::Captures;
            let mut pv_ok = false;
            let mut pv_mv = ChessMove { from: 0, to: 0, promotion: None };
            if let Some(pv) = self.pv_move {
                if pv.from < 64 && pv.to < 64 && board_is_legal(self.board, pv) {
                    pv_ok = true;
                    pv_mv = pv;
                }
            }
            proof {
                let now = *self;
                assert forall|m: ChessMove|
                    (!pv_ok || m != pv_mv) implies now.spec_pending(m)
                        == #[trigger] pre.spec_pending(m) by {}
                assert forall|m: ChessMove| #[trigger] now.spec_pending_count(m) <= 1 by {
                    assert(pre.spec_pending_count(m) <= 1);
                }
            }
            if pv_ok {
                let sm = (pv_mv, MoveScore::Pv);
                proof {
                    let now = *self;
                    let r = board_rep(*self.board);
                    assert(!now.spec_pending(sm.0));
                    assert forall|m: ChessMove| #[trigger] r.moves.contains(m) implies
                        seq_has_move(now.yielded_list@, m) || now.spec_pending(m) || m
                        == sm.0 by {
                        assert(seq_has_move(pre.yielded_list@, m) || pre.spec_pending(m));
                    }
                    assert(now.spec_ready_to_yield(sm));
                }
                self.yield_move(sm);
                return Some(sm);
            }
            proof {
                let now = *self;
                assert forall|m: ChessMove|
                    now.spec_pending(m) == #[trigger] pre.spec_pending(m) by {}
                assert(now.wf());
            }
        }
        if self.stage == MoveGenStage::Captures {
            if !self.generated {
                self.generate(history);
            }
            let ghost pre = *self;
            match pick_best_from(&mut self.captures, self.captures_start) {
                Some(sm) => {
                    proof {
                        let b = choose|b: int|
                            spec_swapped(
                                pre.captures@,
                                self.captures@,
                                pre.captures_start as int,
                                b,
                            );
                        lemma_tail_yield(
                            pre.captures@,
                            self.captures@,
                            pre.captures_start as int,
                            b,
                        );
                        assert(pre.spec_pending_count(sm.0) <= 1);
                        assert(pre.spec_pending(sm.0));
                        assert(!seq_has_move(pre.yielded_list@, sm.0)) by {
                            if seq_has_move(pre.yielded_list@, sm.0) {
                                let k = choose|k: int|
                                    0 <= k < pre.yielded_list@.len() && pre.yielded_list@[k].0
                                        == sm.0;
                                assert(!pre.spec_pending(pre.yielded_list@[k].0));
                            }
                        }
                    }
                    self.captures_start = self.captures_start + 1;
                    proof {
                        self.lemma_buffer_classes_carry(pre);
                        let now = *self;
                        let r = board_rep(*self.board);
                        assert(!now.spec_pending(sm.0));
                        assert forall|m: ChessMove|
                            m != sm.0 implies now.spec_pending(m) == #[trigger] pre.spec_pending(
                            m,
                        ) by {}
                        assert forall|m: ChessMove| #[trigger] r.moves.contains(m) implies
                            seq_has_move(now.yielded_list@, m) || now.spec_pending(m) || m
                            == sm.0 by {
                            assert(seq_has_move(pre.yielded_list@, m) || pre.spec_pending(m));
                        }
                        assert forall|k: int|
                            0 <= k < now.yielded_list@.len() implies !now.spec_pending(
                            (#[trigger] now.yielded_list@[k]).0,
                        ) by {
                            assert(!pre.spec_pending(now.yielded_list@[k].0));
                        }
                        assert forall|m: ChessMove| #[trigger] now.spec_pending_count(m)
                            <= 1 by {
                            assert(pre.spec_pending_count(m) <= 1);
                        }
                        assert(spec_capture_entry(r, sm)) by {
                            let j = choose|j: int|
                                0 <= j < pre.captures@.len() && pre.captures@[j] == sm;
                            assert(pre.captures@.contains(sm));
                        }
                        assert(now.spec_stock_scores_le(sm.1)) by {
                            assert(forall|k: int|
                                now.captures_start <= k < now.captures@.len() ==> (
                                #[trigger] now.captures@[k]).1.spec_le(sm.1));
                        }
                        if pre.yielded_list@.len() > 0 {
                            assert(sm.1.spec_le(pre.yielded_list@.last().1)) by {
                                assert(pre.spec_stock_scores_le(pre.yielded_list@.last().1));
                            }
                        }
                        assert(now.spec_ready_to_yield(sm));
                    }
                    self.yield_move(sm);
                    return Some(sm);
                },
                None => {
                    self.stage = MoveGenStage::Killers;
                    proof {
                        assert forall|m: ChessMove|
                            self.spec_pending(m) == #[trigger] pre.spec_pending(m) by {}
                        assert forall|m: ChessMove| #[trigger] self.spec_pending_count(m)
                            <= 1 by {
                            assert(pre.spec_pending_count(m) <= 1);
                        }
                        assert(self.wf());
                    }
                },
            }
        }
        if self.stage == MoveGenStage::Killers {
            if !self.split_done {
                self.split_quiets(history);
            }
            let ghost pre = *self;
            match pick_best_from(&mut self.killer_moves, self.killers_start) {
                Some(sm) => {
                    proof {
                        let b = choose|b: int|
                            spec_swapped(
                                pre.killer_moves@,
                                self.killer_moves@,
                                pre.killers_start as int,
                                b,
                            );
                        lemma_tail_yield(
                            pre.killer_moves@,
                            self.killer_moves@,
                            pre.killers_start as int,
                            b,
                        );
                        assert(pre.spec_pending_count(sm.0) <= 1);
                        assert(pre.spec_pending(sm.0));
                        assert(!seq_has_move(pre.yielded_list@, sm.0)) by {
                            if seq_has_move(pre.yielded_list@, sm.0) {
                                let k = choose|k: int|
                                    0 <= k < pre.yielded_list@.len() && pre.yielded_list@[k].0
                                        == sm.0;
                                assert(!pre.spec_pending(pre.yielded_list@[k].0));
                            }
                        }
                    }
                    self.killers_start = self.killers_start + 1;
                    proof {
                        self.lemma_buffer_classes_carry(pre);
                        let now = *self;
                        let r = board_rep(*self.board);
                        assert(!now.spec_pending(sm.0));
                        assert forall|m: ChessMove|
                            m != sm.0 implies now.spec_pending(m) == #[trigger] pre.spec_pending(
                            m,
                        ) by {}
                        assert forall|m: ChessMove| #[trigger] r.moves.contains(m) implies
                            seq_has_move(now.yielded_list@, m) || now.spec_pending(m) || m
                            == sm.0 by {
                            assert(seq_has_move(pre.yielded_list@, m) || pre.spec_pending(m));
                        }
                        assert forall|k: int|
                            0 <= k < now.yielded_list@.len() implies !now.spec_pending(
                            (#[trigger] now.yielded_list@[k]).0,
                        ) by {
                            assert(!pre.spec_pending(now.yielded_list@[k].0));
                        }
                        assert forall|m: ChessMove| #[trigger] now.spec_pending_count(m)
                            <= 1 by {
                            assert(pre.spec_pending_count(m) <= 1);
                        }
                        assert(sm.1 == MoveScore::Killer) by {
                            let j = choose|j: int|
                                0 <= j < pre.killer_moves@.len() && pre.killer_moves@[j] == sm;
                            assert(pre.killer_moves@.contains(sm));
                        }
                        assert(now.spec_stock_scores_le(sm.1)) by {
                            assert(forall|k: int|
                                now.killers_start <= k < now.killer_moves@.len() ==> (
                                #[trigger] now.killer_moves@[k]).1.spec_le(sm.1));
                        }
                        if pre.yielded_list@.len() > 0 {
                            assert(sm.1.spec_le(pre.yielded_list@.last().1)) by {
                                assert(pre.spec_stock_scores_le(pre.yielded_list@.last().1));
                            }
                        }
                        assert(now.spec_ready_to_yield(sm));
                    }
                    self.yield_move(sm);
                    return Some(sm);
                },
                None => {
                    self.stage = MoveGenStage::Quiets;
                    proof {
                        assert forall|m: ChessMove|
                            self.spec_pending(m) == #[trigger] pre.spec_pending(m) by {}
                        assert forall|m: ChessMove| #[trigger] self.spec_pending_count(m)
                            <= 1 by {
                            assert(pre.spec_pending_count(m) <= 1);
                        }
                        assert(self.wf());
                    }
                },
            }
        }
        if self.stage == MoveGenStage::Quiets {
            let ghost pre = *self;
            match pick_best_from(&mut self.quiets, self.quiets_start) {
                Some(sm) => {
                    proof {
                        let b = choose|b: int|
                            spec_swapped(pre.quiets@, self.quiets@, pre.quiets_start as int, b);
                        lemma_tail_yield(pre.quiets@, self.quiets@, pre.quiets_start as int, b);
                        assert(pre.spec_pending_count(sm.0) <= 1);
                        assert(pre.spec_pending(sm.0));
                        assert(!seq_has_move(pre.yielded_list@, sm.0)) by {
                            if seq_has_move(pre.yielded_list@, sm.0) {
                                let k = choose|k: int|
                                    0 <= k < pre.yielded_list@.len() && pre.yielded_list@[k].0
                                        == sm.0;
                                assert(!pre.spec_pending(pre.yielded_list@[k].0));
                            }
                        }
                    }
                    self.quiets_start = self.quiets_start + 1;
                    proof {
                        self.lemma_buffer_classes_carry(pre);
                        let now = *self;
                        let r = board_rep(*self.board);
                        assert(!now.spec_pending(sm.0));
                        assert forall|m: ChessMove|
                            m != sm.0 implies now.spec_pending(m) == #[trigger] pre.spec_pending(
                            m,
                        ) by {}
                        assert forall|m: ChessMove| #[trigger] r.moves.contains(m) implies
                            seq_has_move(now.yielded_list@, m) || now.spec_pending(m) || m
                            == sm.0 by {
                            assert(seq_has_move(pre.yielded_list@, m) || pre.spec_pending(m));
                        }
                        assert forall|k: int|
                            0 <= k < now.yielded_list@.len() implies !now.spec_pending(
                            (#[trigger] now.yielded_list@[k]).0,
                        ) by {
                            assert(!pre.spec_pending(now.yielded_list@[k].0));
                        }
                        assert forall|m: ChessMove| #[trigger] now.spec_pending_count(m)
                            <= 1 by {
                            assert(pre.spec_pending_count(m) <= 1);
                        }
                        assert(sm.1 is Quiet) by {
                            let j = choose|j: int|
                                0 <= j < pre.quiets@.len() && pre.quiets@[j] == sm;
                            assert(pre.quiets@.contains(sm));
                        }
                        assert(now.spec_stock_scores_le(sm.1)) by {
                            assert(forall|k: int|
                                now.quiets_start <= k < now.quiets@.len() ==> (
                                #[trigger] now.quiets@[k]).1.spec_le(sm.1));
                        }
                        if pre.yielded_list@.len() > 0 {
                            assert(sm.1.spec_le(pre.yielded_list@.last().1)) by {
                                assert(pre.spec_stock_scores_le(pre.yielded_list@.last().1));
                            }
                        }
                        assert(now.spec_ready_to_yield(sm));
                    }
                    self.yield_move(sm);
                    return Some(sm);
                },
                None => {
                    self.stage = MoveGenStage::LosingCaptures;
                    proof {
                        assert forall|m: ChessMove|
                            self.spec_pending(m) == #[trigger] pre.spec_pending(m) by {}
                        assert forall|m: ChessMove| #[trigger] self.spec_pending_count(m)
                            <= 1 by {
                            assert(pre.spec_pending_count(m) <= 1);
                        }
                        assert(self.wf());
                    }
                },
            }
        }
        if self.stage == MoveGenStage::LosingCaptures {
            let ghost pre = *self;
            match pick_best_from(&mut self.losing, self.losing_start) {
                Some(sm) => {
                    proof {
                        let b = choose|b: int|
                            spec_swapped(pre.losing@, self.losing@, pre.losing_start as int, b);
                        lemma_tail_yield(pre.losing@, self.losing@, pre.losing_start as int, b);
                        assert(pre.spec_pending_count(sm.0) <= 1);
                        assert(pre.spec_pending(sm.0));
                        assert(!seq_has_move(pre.yielded_list@, sm.0)) by {
                            if seq_has_move(pre.yielded_list@, sm.0) {
                                let k = choose|k: int|
                                    0 <= k < pre.yielded_list@.len() && pre.yielded_list@[k].0
                                        == sm.0;
                                assert(!pre.spec_pending(pre.yielded_list@[k].0));
                            }
                        }
                    }
                    self.losing_start = self.losing_start + 1;
                    proof {
                        self.lemma_buffer_classes_carry(pre);
                        let now = *self;
                        let r = board_rep(*self.board);
                        assert(!now.spec_pending(sm.0));
                        assert forall|m: ChessMove|
                            m != sm.0 implies now.spec_pending(m) == #[trigger] pre.spec_pending(
                            m,
                        ) by {}
                        assert forall|m: ChessMove| #[trigger] r.moves.contains(m) implies
                            seq_has_move(now.yielded_list@, m) || now.spec_pending(m) || m
                            == sm.0 by {
                            assert(seq_has_move(pre.yielded_list@, m) || pre.spec_pending(m));
                        }
                        assert forall|k: int|
                            0 <= k < now.yielded_list@.len() implies !now.spec_pending(
                            (#[trigger] now.yielded_list@[k]).0,
                        ) by {
                            assert(!pre.spec_pending(now.yielded_list@[k].0));
                        }
                        assert forall|m: ChessMove| #[trigger] now.spec_pending_count(m)
                            <= 1 by {
                            assert(pre.spec_pending_count(m) <= 1);
                        }
                        assert(spec_losing_entry(r, sm)) by {
                            let j = choose|j: int|
                                0 <= j < pre.losing@.len() && pre.losing@[j] == sm;
                            assert(pre.losing@.contains(sm));
                        }
                        assert(now.spec_stock_scores_le(sm.1)) by {
                            assert(forall|k: int|
                                now.losing_start <= k < now.losing@.len() ==> (
                                #[trigger] now.losing@[k]).1.spec_le(sm.1));
                        }
                        if pre.yielded_list@.len() > 0 {
                            assert(sm.1.spec_le(pre.yielded_list@.last().1)) by {
                                assert(pre.spec_stock_scores_le(pre.yielded_list@.last().1));
                            }
                        }
                        assert(now.spec_ready_to_yield(sm));
                    }
                    self.yield_move(sm);
                    return Some(sm);
                },
                None => {
                    self.stage = MoveGenStage::Finished;
                    proof {
                        assert forall|m: ChessMove|
                            self.spec_pending(m) == #[trigger] pre.spec_pending(m) by {}
                        assert forall|m: ChessMove| #[trigger] self.spec_pending_count(m)
                            <= 1 by {
                            assert(pre.spec_pending_count(m) <= 1);
                        }
                        assert(self.wf());
                    }
                },
            }
        }
        self.stage = MoveGenStage::Finished;
        proof {
            assert(self.wf());
            assert forall|m: ChessMove| !#[trigger] self.spec_pending(m) by {}
        }
        None
    }

    /// After a buffer permutation, every per-index buffer fact carries
    /// over, because every element was already in the buffer.
    proof fn lemma_buffer_classes_carry(self, pre: Self)
        requires
            self.board == pre.board,
            self.captures@.len() == pre.captures@.len(),
            self.killer_moves@.len() == pre.killer_moves@.len(),
            self.quiets@.len() == pre.quiets@.len(),
            self.losing@.len() == pre.losing@.len(),
            forall|k: int|
                0 <= k < self.captures@.len() ==> pre.captures@.contains(
                    #[trigger] self.captures@[k],
                ),
            forall|k: int|
                0 <= k < self.killer_moves@.len() ==> pre.killer_moves@.contains(
                    #[trigger] self.killer_moves@[k],
                ),
            forall|k: int|
                0 <= k < self.quiets@.len() ==> pre.quiets@.contains(#[trigger] self.quiets@[k]),
            forall|k: int|
                0 <= k < self.losing@.len() ==> pre.losing@.contains(#[trigger] self.losing@[k]),
            forall|k: int|
                0 <= k < pre.captures@.len() ==> spec_capture_entry(
                    board_rep(*pre.board),
                    #[trigger] pre.captures@[k],
                ),
            forall|k: int|
                0 <= k < pre.killer_moves@.len() ==> (#[trigger] pre.killer_moves@[k]).1
                    == MoveScore::Killer,
            forall|k: int|
                0 <= k < pre.quiets@.len() ==> (#[trigger] pre.quiets@[k]).1 is Quiet,
            forall|k: int|
                0 <= k < pre.losing@.len() ==> spec_losing_entry(
                    board_rep(*pre.board),
                    #[trigger] pre.losing@[k],
                ),
            spec_buffer_playable(board_rep(*pre.board), pre.captures@),
            spec_buffer_playable(board_rep(*pre.board), pre.killer_moves@),
            spec_buffer_playable(board_rep(*pre.board), pre.quiets@),
            spec_buffer_playable(board_rep(*pre.board), pre.losing@),
        ensures
            forall|k: int|
                0 <= k < self.captures@.len() ==> spec_capture_entry(
                    board_rep(*self.board),
                    #[trigger] self.captures@[k],
                ),
            forall|k: int|
                0 <= k < self.killer_moves@.len() ==> (#[trigger] self.killer_moves@[k]).1
                    == MoveScore::Killer,
            forall|k: int|
                0 <= k < self.quiets@.len() ==> (#[trigger] self.quiets@[k]).1 is Quiet,
            forall|k: int|
                0 <= k < self.losing@.len() ==> spec_losing_entry(
                    board_rep(*self.board),
                    #[trigger] self.losing@[k],
                ),
            spec_buffer_playable(board_rep(*self.board), self.captures@),
            spec_buffer_playable(board_rep(*self.board), self.killer_moves@),
            spec_buffer_playable(board_rep(*self.board), self.quiets@),
            spec_buffer_playable(board_rep(*self.board), self.losing@),
    {
        let r = board_rep(*pre.board);
        assert forall|k: int| 0 <= k < self.captures@.len() implies spec_capture_entry(
            r,
            #[trigger] self.captures@[k],
        ) && spec_playable(r, self.captures@[k].0) by {
            let j = choose|j: int|
                0 <= j < pre.captures@.len() && pre.captures@[j] == self.captures@[k];
            assert(spec_capture_entry(r, pre.captures@[j]));
            assert(spec_playable(r, pre.captures@[j].0));
        }
        assert forall|k: int| 0 <= k < self.killer_moves@.len() implies (
        #[trigger] self.killer_moves@[k]).1 == MoveScore::Killer && spec_playable(
            r,
            self.killer_moves@[k].0,
        ) by {
            let j = choose|j: int|
                0 <= j < pre.killer_moves@.len() && pre.killer_moves@[j] == self.killer_moves@[k];
            assert(spec_playable(r, pre.killer_moves@[j].0));
        }
        assert forall|k: int| 0 <= k < self.quiets@.len() implies (
        #[trigger] self.quiets@[k]).1 is Quiet && spec_playable(r, self.quiets@[k].0) by {
            let j = choose|j: int| 0 <= j < pre.quiets@.len() && pre.quiets@[j] == self.quiets@[k];
            assert(spec_playable(r, pre.quiets@[j].0));
        }
        assert forall|k: int| 0 <= k < self.losing@.len() implies spec_losing_entry(
            r,
            #[trigger] self.losing@[k],
        ) && spec_playable(r, self.losing@[k].0) by {
            let j = choose|j: int|
                0 <= j < pre.losing@.len() && pre.losing@[j] == self.losing@[k];
            assert(spec_losing_entry(r, pre.losing@[j]));
            assert(spec_playable(r, pre.losing@[j].0));
        }
    }

    /// Generate every legal move once, the cached move masked out: the
    /// non-losing captures scored and buffered, the losing captures set
    /// aside, and the quiet moves kept raw for the killer split.
    fn generate(&mut self, history: &HistoryTable)
        requires
            old(self).wf(),
            history.wf(),
            !old(self).generated,
            old(self).stage == MoveGenStage::Captures,
        ensures
            final(self).wf(),
            final(self).generated,
            final(self).board == old(self).board,
            final(self).stage == old(self).stage,
            final(self).split_done == old(self).split_done,
            final(self).yielded_list@ == old(self).yielded_list@,
            final(self).captures_start == old(self).captures_start,
            final(self).killers_start == old(self).killers_start,
            final(self).quiets_start == old(self).quiets_start,
            final(self).losing_start == old(self).losing_start,
            forall|m: ChessMove| final(self).spec_pending(m) == #[trigger] old(self).spec_pending(
                m,
            ),
    {
        let ghost r = board_rep(*self.board);
        let ghost pv = self.pv_move;
        self.generated = true;
        let moves = board_legal_moves(self.board);
        let them: u64 = board_colors(self.board, board_side_to_move(self.board).flip());
        let mut i: usize = 0;
        while i < moves.len()
            invariant
                r == board_rep(*self.board),
                pv == self.pv_move,
                them == rep_color_bb(r, r.stm.spec_flip()),
                forall|sq: u8|
                    sq < 64 && bb_has(them, sq) ==> (#[trigger] rep_piece_on(r, sq)) is Some,
                moves@ == r.moves,
                forall|k: int| 0 <= k < moves@.len() ==> (#[trigger] moves@[k]).wf(),
                forall|k: int|
                    0 <= k < moves@.len() ==> rep_piece_on(r, (#[trigger] moves@[k]).from) is Some,
                forall|k: int, l: int|
                    0 <= k < l < moves@.len() ==> #[trigger] moves@[k] != #[trigger] moves@[l],
                i <= moves@.len(),
                history.wf(),
                self.board == old(self).board,
                self.stage == old(self).stage,
                self.generated,
                self.split_done == old(self).split_done,
                self.pv_move == old(self).pv_move,
                self.killers == old(self).killers,
                self.yielded_list@ == old(self).yielded_list@,
                self.captures_start == old(self).captures_start,
                self.killers_start == old(self).killers_start,
                self.quiets_start == old(self).quiets_start,
                self.losing_start == old(self).losing_start,
                self.killer_moves@ == old(self).killer_moves@,
                self.quiets@ == old(self).quiets@,
                self.captures_start == 0,
                self.losing_start == 0,
                forall|k: int|
                    0 <= k < self.captures@.len() ==> spec_capture_entry(
                        r,
                        #[trigger] self.captures@[k],
                    ),
                forall|k: int|
                    0 <= k < self.losing@.len() ==> spec_losing_entry(
                        r,
                        #[trigger] self.losing@[k],
                    ),
                spec_buffer_playable(r, self.captures@),
                spec_buffer_playable(r, self.losing@),
                forall|k: int|
                    0 <= k < self.quiets_raw@.len() ==> spec_playable(
                        r,
                        #[trigger] self.quiets_raw@[k],
                    ),
                forall|m: ChessMove|
                    (seq_has_move(self.captures@, m) || self.quiets_raw@.contains(m)
                        || seq_has_move(self.losing@, m)) <==> (
                    #[trigger] moves@.take(i as int).contains(m) && !(pv == Some(m) && m.wf())),
                forall|m: ChessMove|
                    (if seq_has_move(self.captures@, m) {
                        1int
                    } else {
                        0int
                    }) + (if self.quiets_raw@.contains(m) {
                        1int
                    } else {
                        0int
                    }) + (if seq_has_move(self.losing@, m) {
                        1int
                    } else {
                        0int
                    }) <= 1,
                spec_tail_distinct(self.captures@, 0),
                spec_tail_distinct(self.losing@, 0),
                forall|k: int, l: int|
                    0 <= k < l < self.quiets_raw@.len() ==> #[trigger] self.quiets_raw@[k]
                        != #[trigger] self.quiets_raw@[l],
            decreases moves@.len() - i,
        {
            let mv = moves[i];
            proof {
                assert(moves@[i as int] == mv);
                assert(!moves@.take(i as int).contains(mv)) by {
                    if moves@.take(i as int).contains(mv) {
                        let k = choose|k: int|
                            0 <= k < i && #[trigger] moves@.take(i as int)[k] == mv;
                        assert(moves@[k] == mv);
                    }
                }
            }
            let skip = match self.pv_move {
                Some(pv_mv) => pv_mv == mv,
                None => false,
            };
            let ghost pre_captures = self.captures@;
            let ghost pre_raw = self.quiets_raw@;
            let ghost pre_losing = self.losing@;
            if !skip {
                if move_is_capture(mv, self.board) {
                    let hist = history.get(self.board, mv);
                    if static_exchange_evaluation_at_least(self.board, mv, 0) {
                        let see = static_exchange_evaluation(self.board, mv);
                        if static_exchange_evaluation_at_least(self.board, mv, 100) {
                            self.captures.push((mv, MoveScore::WinningCapture(hist, see.0)));
                        } else {
                            self.captures.push((mv, MoveScore::Capture(hist, see.0)));
                        }
                    } else {
                        let see = static_exchange_evaluation(self.board, mv);
                        self.losing.push((mv, MoveScore::LosingCapture(hist, see.0)));
                    }
                } else {
                    self.quiets_raw.push(mv);
                }
            }
            proof {
                if !skip {
                    assert(!seq_has_move(pre_captures, mv) && !pre_raw.contains(mv)
                        && !seq_has_move(pre_losing, mv));
                    if self.captures@ != pre_captures {
                        lemma_push_has(pre_captures, self.captures@, self.captures@.last());
                    } else if self.losing@ != pre_losing {
                        lemma_push_has(pre_losing, self.losing@, self.losing@.last());
                    } else {
                        lemma_push_contains(pre_raw, self.quiets_raw@, mv);
                    }
                }
            }
            proof {
                assert(moves@.take(i + 1) =~= moves@.take(i as int).push(mv));
                assert forall|m: ChessMove| #[trigger] moves@.take(i + 1).contains(m) implies (
                moves@.take(i as int).contains(m) || m == mv) by {
                    let k = choose|k: int| 0 <= k < i + 1 && #[trigger] moves@.take(i + 1)[k] == m;
                    if k < i {
                        assert(moves@.take(i as int)[k] == m);
                    }
                }
                assert(moves@.take(i + 1).contains(mv)) by {
                    assert(moves@.take(i + 1)[i as int] == mv);
                }
                assert forall|m: ChessMove| moves@.take(i as int).contains(m) implies
                    #[trigger] moves@.take(i + 1).contains(m) by {
                    let k = choose|k: int| 0 <= k < i && #[trigger] moves@.take(i as int)[k] == m;
                    assert(moves@.take(i + 1)[k] == m);
                }
            }
            i = i + 1;
        }
        proof {
            assert(moves@.take(moves@.len() as int) =~= moves@);
            let now = *self;
            assert forall|m: ChessMove| now.spec_pending(m) == #[trigger] old(self).spec_pending(
                m,
            ) by {
                assert(tail_has_move(now.captures@, 0, m) == seq_has_move(now.captures@, m));
                assert(tail_has_move(now.losing@, 0, m) == seq_has_move(now.losing@, m));
            }
            assert forall|m: ChessMove| #[trigger] now.spec_pending_count(m) <= 1 by {
                assert(tail_has_move(now.captures@, 0, m) == seq_has_move(now.captures@, m));
                assert(tail_has_move(now.losing@, 0, m) == seq_has_move(now.losing@, m));
            }
            if now.yielded_list@.len() > 0 {
                assert(now.yielded_list@.last().1 == MoveScore::Pv);
                assert(now.spec_stock_scores_le(MoveScore::Pv));
            }
            assert forall|m: ChessMove| #[trigger] r.moves.contains(m) implies seq_has_move(
                now.yielded_list@,
                m,
            ) || now.spec_pending(m) by {
                assert(old(self).spec_pending(m) || seq_has_move(old(self).yielded_list@, m));
            }
            assert forall|k: int| 0 <= k < now.yielded_list@.len() implies !now.spec_pending(
                (#[trigger] now.yielded_list@[k]).0,
            ) by {
                assert(!old(self).spec_pending(now.yielded_list@[k].0));
            }
        }
    }

    /// Split the raw quiets: the ones matching a killer slot join the
    /// killer buffer, the rest are scored by history.
    fn split_quiets(&mut self, history: &HistoryTable)
        requires
            old(self).wf(),
            history.wf(),
            old(self).generated,
            !old(self).split_done,
            old(self).stage == MoveGenStage::Killers,
        ensures
            final(self).wf(),
            final(self).split_done,
            final(self).generated,
            final(self).board == old(self).board,
            final(self).stage == old(self).stage,
            final(self).yielded_list@ == old(self).yielded_list@,
            final(self).captures_start == old(self).captures_start,
            final(self).killers_start == old(self).killers_start,
            final(self).quiets_start == old(self).quiets_start,
            final(self).losing_start == old(self).losing_start,
            forall|m: ChessMove| final(self).spec_pending(m) == #[trigger] old(self).spec_pending(
                m,
            ),
    {
        let ghost r = board_rep(*self.board);
        let mut j: usize = 0;
        while j < self.quiets_raw.len()
            invariant
                r == board_rep(*self.board),
                j <= self.quiets_raw@.len(),
                history.wf(),
                self.board == old(self).board,
                self.stage == old(self).stage,
                self.generated,
                !self.split_done,
                self.pv_move == old(self).pv_move,
                self.killers == old(self).killers,
                self.yielded_list@ == old(self).yielded_list@,
                self.captures@ == old(self).captures@,
                self.losing@ == old(self).losing@,
                self.quiets_raw@ == old(self).quiets_raw@,
                self.captures_start == old(self).captures_start,
                self.killers_start == old(self).killers_start,
                self.quiets_start == old(self).quiets_start,
                self.losing_start == old(self).losing_start,
                self.killers_start == 0,
                self.quiets_start == 0,
                forall|k: int|
                    0 <= k < self.quiets_raw@.len() ==> spec_playable(
                        r,
                        #[trigger] self.quiets_raw@[k],
                    ),
                forall|k: int, l: int|
                    0 <= k < l < self.quiets_raw@.len() ==> #[trigger] self.quiets_raw@[k]
                        != #[trigger] self.quiets_raw@[l],
                forall|k: int|
                    0 <= k < self.killer_moves@.len() ==> (#[trigger] self.killer_moves@[k]).1
                        == MoveScore::Killer,
                forall|k: int|
                    0 <= k < self.quiets@.len() ==> (#[trigger] self.quiets@[k]).1 is Quiet,
                spec_buffer_playable(r, self.killer_moves@),
                spec_buffer_playable(r, self.quiets@),
                forall|m: ChessMove|
                    (seq_has_move(self.killer_moves@, m) || seq_has_move(self.quiets@, m)) <==> (
                    #[trigger] self.quiets_raw@.take(j as int).contains(m)),
                forall|m: ChessMove|
                    (if seq_has_move(self.killer_moves@, m) {
                        1int
                    } else {
                        0int
                    }) + (if seq_has_move(self.quiets@, m) {
                        1int
                    } else {
                        0int
                    }) <= 1,
                spec_tail_distinct(self.killer_moves@, 0),
                spec_tail_distinct(self.quiets@, 0),
            decreases self.quiets_raw@.len() - j,
        {
            let mv = self.quiets_raw[j];
            proof {
                assert(self.quiets_raw@[j as int] == mv);
                assert(spec_playable(r, mv));
                assert(!self.quiets_raw@.take(j as int).contains(mv)) by {
                    if self.quiets_raw@.take(j as int).contains(mv) {
                        let k = choose|k: int|
                            0 <= k < j && #[trigger] self.quiets_raw@.take(j as int)[k] == mv;
                        assert(self.quiets_raw@[k] == mv);
                    }
                }
            }
            let ghost pre_km = self.killer_moves@;
            let ghost pre_q = self.quiets@;
            if self.killers.contains(mv) {
                self.killer_moves.push((mv, MoveScore::Killer));
            } else {
                let hist = history.get(self.board, mv);
                self.quiets.push((mv, MoveScore::Quiet(hist)));
            }
            proof {
                assert(!seq_has_move(pre_km, mv) && !seq_has_move(pre_q, mv));
                if self.killer_moves@ != pre_km {
                    lemma_push_has(pre_km, self.killer_moves@, self.killer_moves@.last());
                } else {
                    lemma_push_has(pre_q, self.quiets@, self.quiets@.last());
                }
            }
            proof {
                let raw = self.quiets_raw@;
                assert(raw.take(j + 1) =~= raw.take(j as int).push(mv));
                assert forall|m: ChessMove| #[trigger] raw.take(j + 1).contains(m) implies (
                raw.take(j as int).contains(m) || m == mv) by {
                    let k = choose|k: int| 0 <= k < j + 1 && #[trigger] raw.take(j + 1)[k] == m;
                    if k < j {
                        assert(raw.take(j as int)[k] == m);
                    }
                }
                assert(raw.take(j + 1).contains(mv)) by {
                    assert(raw.take(j + 1)[j as int] == mv);
                }
                assert forall|m: ChessMove| raw.take(j as int).contains(m) implies
                    #[trigger] raw.take(j + 1).contains(m) by {
                    let k = choose|k: int| 0 <= k < j && #[trigger] raw.take(j as int)[k] == m;
                    assert(raw.take(j + 1)[k] == m);
                }
            }
            j = j + 1;
        }
        proof {
            assert(self.quiets_raw@.take(self.quiets_raw@.len() as int) =~= self.quiets_raw@);
        }
        self.quiets_raw = Vec::new();
        self.split_done = true;
        proof {
            let now = *self;
            assert forall|m: ChessMove| now.spec_pending(m) == #[trigger] old(self).spec_pending(
                m,
            ) by {
                assert(tail_has_move(now.killer_moves@, 0, m) == seq_has_move(
                    now.killer_moves@,
                    m,
                ));
                assert(tail_has_move(now.quiets@, 0, m) == seq_has_move(now.quiets@, m));
                assert(!now.quiets_raw@.contains(m));
            }
            assert forall|m: ChessMove| #[trigger] now.spec_pending_count(m) <= 1 by {
                assert(old(self).spec_pending_count(m) <= 1);
                assert(tail_has_move(now.killer_moves@, 0, m) == seq_has_move(
                    now.killer_moves@,
                    m,
                ));
                assert(tail_has_move(now.quiets@, 0, m) == seq_has_move(now.quiets@, m));
                if seq_has_move(now.killer_moves@, m) || seq_has_move(now.quiets@, m) {
                    assert(old(self).quiets_raw@.contains(m));
                }
            }
            if now.yielded_list@.len() > 0 {
                let last = now.yielded_list@.last().1;
                assert(last.spec_rank() >= 3);
                assert forall|k: int|
                    now.killers_start <= k < now.killer_moves@.len() implies (
                #[trigger] now.killer_moves@[k]).1.spec_le(last) by {}
                assert forall|k: int|
                    now.quiets_start <= k < now.quiets@.len() implies (
                #[trigger] now.quiets@[k]).1.spec_le(last) by {}
            }
            assert forall|m: ChessMove| #[trigger] r.moves.contains(m) implies seq_has_move(
                now.yielded_list@,
                m,
            ) || now.spec_pending(m) by {
                assert(old(self).spec_pending(m) || seq_has_move(old(self).yielded_list@, m));
            }
            assert forall|k: int| 0 <= k < now.yielded_list@.len() implies !now.spec_pending(
                (#[trigger] now.yielded_list@[k]).0,
            ) by {
                assert(!old(self).spec_pending(now.yielded_list@[k].0));
            }
        }
    }
}

/// The captures-only picker for quiescence: losing captures are dropped
/// outright.
pub struct QSearchMoveList {
    pub moves: Vec<ScoredMove>,
    pub start: usize,
    pub rep: Ghost<BoardRep>,
}

impl QSearchMoveList {
    /// Every buffered move is a playable, correctly scored, non-losing
    /// capture on the board this picker was built for, held exactly once.
    pub open spec fn wf(self) -> bool {
        &&& spec_buffer_playable(self.rep@, self.moves@)
        &&& forall|k: int|
            0 <= k < self.moves@.len() ==> spec_capture_entry(
                self.rep@,
                #[trigger] self.moves@[k],
            )
        &&& spec_tail_distinct(self.moves@, 0)
    }

    /// Collect exactly the legal captures the exchange does not evaluate
    /// below zero, each scored by its history and exchange values.
    pub fn new(board: &cozy_chess::Board, history: &HistoryTable) -> (r: Self)
        requires
            history.wf(),
        ensures
            r.wf(),
            r.rep@ == board_rep(*board),
            r.start == 0,
            forall|m: ChessMove|
                #[trigger] board_rep(*board).moves.contains(m) && crate::helpers::spec_move_is_capture(
                    m,
                    board_rep(*board),
                ) && crate::see::spec_see(board_rep(*board), m) >= 0 ==> seq_has_move(
                    r.moves@,
                    m,
                ),
    {
        let mut list = QSearchMoveList {
            moves: Vec::new(),
            start: 0,
            rep: Ghost(board_rep(*board)),
        };
        let moves = board_legal_moves(board);
        let them: u64 = board_colors(board, board_side_to_move(board).flip());
        let mut i: usize = 0;
        while i < moves.len()
            invariant
                list.wf(),
                list.rep@ == board_rep(*board),
                list.start == 0,
                them == rep_color_bb(board_rep(*board), board_rep(*board).stm.spec_flip()),
                forall|sq: u8|
                    sq < 64 && bb_has(them, sq) ==> (#[trigger] rep_piece_on(
                        board_rep(*board),
                        sq,
                    )) is Some,
                moves@ == board_rep(*board).moves,
                forall|k: int| 0 <= k < moves@.len() ==> (#[trigger] moves@[k]).wf(),
                forall|k: int|
                    0 <= k < moves@.len() ==> rep_piece_on(
                        board_rep(*board),
                        (#[trigger] moves@[k]).from,
                    ) is Some,
                forall|k: int, l: int|
                    0 <= k < l < moves@.len() ==> #[trigger] moves@[k] != #[trigger] moves@[l],
                i <= moves@.len(),
                history.wf(),
                forall|m: ChessMove|
                    #[trigger] moves@.take(i as int).contains(m)
                        && crate::helpers::spec_move_is_capture(m, board_rep(*board))
                        && crate::see::spec_see(board_rep(*board), m) >= 0 ==> seq_has_move(
                        list.moves@,
                        m,
                    ),
                forall|k: int|
                    0 <= k < list.moves@.len() ==> moves@.take(i as int).contains(
                        (#[trigger] list.moves@[k]).0,
                    ),
            decreases moves@.len() - i,
        {
            let mv = moves[i];
            proof {
                assert(moves@[i as int] == mv);
                assert(!seq_has_move(list.moves@, mv)) by {
                    if seq_has_move(list.moves@, mv) {
                        let k = choose|k: int|
                            0 <= k < list.moves@.len() && list.moves@[k].0 == mv;
                        assert(moves@.take(i as int).contains(mv));
                        let w = choose|w: int|
                            0 <= w < i && #[trigger] moves@.take(i as int)[w] == mv;
                        assert(moves@[w] == mv);
                    }
                }
            }
            let ghost pre_moves = list.moves@;
            if move_is_capture(mv, board) {
                if static_exchange_evaluation_at_least(board, mv, 0) {
                    let hist = history.get(board, mv);
                    let see = static_exchange_evaluation(board, mv);
                    if static_exchange_evaluation_at_least(board, mv, 100) {
                        list.moves.push((mv, MoveScore::WinningCapture(hist, see.0)));
                    } else {
                        list.moves.push((mv, MoveScore::Capture(hist, see.0)));
                    }
                }
            }
            proof {
                if list.moves@ != pre_moves {
                    lemma_push_has(pre_moves, list.moves@, list.moves@.last());
                }
                assert(moves@.take(i + 1) =~= moves@.take(i as int).push(mv));
                assert forall|m: ChessMove| #[trigger] moves@.take(i + 1).contains(m) implies (
                moves@.take(i as int).contains(m) || m == mv) by {
                    let k = choose|k: int| 0 <= k < i + 1 && #[trigger] moves@.take(i + 1)[k] == m;
                    if k < i {
                        assert(moves@.take(i as int)[k] == m);
                    }
                }
                assert forall|m: ChessMove| moves@.take(i as int).contains(m) implies
                    #[trigger] moves@.take(i + 1).contains(m) by {
                    let k = choose|k: int|
                        0 <= k < i && #[trigger] moves@.take(i as int)[k] == m;
                    assert(moves@.take(i + 1)[k] == m);
                }
                assert(moves@.take(i + 1).contains(mv)) by {
                    assert(moves@.take(i + 1)[i as int] == mv);
                }
            }
            i = i + 1;
        }
        proof {
            assert(moves@.take(moves@.len() as int) =~= moves@);
        }
        list
    }

    /// The next capture in descending score order, with its index: the
    /// maximum of what remains, swapped to the front and passed over, so
    /// the buffer is only ever permuted. It runs dry exactly when every
    /// entry has been yielded.
    pub fn pick(&mut self) -> (r: Option<(usize, ScoredMove)>)
        requires
            old(self).wf(),
        ensures
            final(self).wf(),
            final(self).rep == old(self).rep,
            final(self).moves@.len() == old(self).moves@.len(),
            r is Some <==> old(self).start < old(self).moves@.len(),
            r matches Some((i, sm)) ==> {
                &&& i == old(self).start
                &&& final(self).start == old(self).start + 1
                &&& final(self).moves@[old(self).start as int] == sm
                &&& spec_playable(old(self).rep@, sm.0)
                &&& spec_capture_entry(old(self).rep@, sm)
                &&& forall|k: int|
                    old(self).start <= k < final(self).moves@.len() ==> (
                    #[trigger] final(self).moves@[k]).1.spec_le(sm.1)
                &&& exists|b: int| #[trigger] spec_swapped(
                    old(self).moves@,
                    final(self).moves@,
                    old(self).start as int,
                    b,
                )
            },
            r is None ==> final(self).moves@ == old(self).moves@ && final(self).start == old(
                self,
            ).start,
    {
        let index = self.start;
        let ghost pre = *self;
        match pick_best_from(&mut self.moves, self.start) {
            Some(sm) => {
                proof {
                    let b = choose|b: int|
                        spec_swapped(pre.moves@, self.moves@, pre.start as int, b);
                    lemma_tail_yield(pre.moves@, self.moves@, pre.start as int, b);
                    assert forall|k: int| 0 <= k < self.moves@.len() implies spec_capture_entry(
                        self.rep@,
                        #[trigger] self.moves@[k],
                    ) && spec_playable(self.rep@, self.moves@[k].0) by {
                        let j = choose|j: int|
                            0 <= j < pre.moves@.len() && pre.moves@[j] == self.moves@[k];
                        assert(spec_capture_entry(pre.rep@, pre.moves@[j]));
                        assert(spec_playable(pre.rep@, pre.moves@[j].0));
                    }
                    assert(spec_capture_entry(pre.rep@, sm)) by {
                        assert(self.moves@[pre.start as int] == sm);
                    }
                }
                self.start = self.start + 1;
                Some((index, sm))
            },
            None => None,
        }
    }
}

} // verus!
