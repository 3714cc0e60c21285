//! The principal-variation search: recursive negamax over a window, with
//! check extensions, transposition-cache probes, reverse-futility and
//! null-move pruning, late-move pruning and reductions, killer and history
//! ordering, and a captures-only quiescence at the horizon.

use vstd::prelude::*;

use crate::board::{board_checkers, board_colors, board_halfmove_clock, board_hash, board_pieces, board_rep, board_status, BoardRep};
use crate::cache::{spec_decode_cache_data, CacheData, CacheDataKind, CacheTable};
use crate::chess::{BoardStatus, ChessMove, Piece};
use crate::eval::Eval;
use crate::helpers::move_is_quiet;
use crate::history::HistoryTable;
use crate::nnue::Nnue;
use crate::oracle::{oracle, spec_known_draw};
use crate::params::SearchParamHandler;
use crate::picker::{spec_playable, KillerEntry, MoveList, MoveScore, QSearchMoveList};
use crate::position::Position;
use crate::window::Window;

verus! {

/// Node counter and greatest ply reached.
#[derive(Debug, Clone, Copy, PartialEq, Eq, Structural)]
pub struct SearchStats {
    pub nodes: u64,
    pub seldepth: u8,
}

/// What one finished root search produced.
#[derive(Debug, Clone, Copy, PartialEq, Eq, Structural)]
pub struct SearcherResult {
    pub mv: ChessMove,
    pub eval: Eval,
    pub stats: SearchStats,
}

/// One completed iteration, as reported to the handler.
#[derive(Debug, Clone)]
pub struct SearchResult {
    pub mv: ChessMove,
    pub eval: Eval,
    pub nodes: u64,
    pub depth: u8,
    pub seldepth: u8,
    pub cache_approx_size_permill: u32,
    pub principal_variation: Vec<ChessMove>,
}

/// The caller's ear and brake: asked at every node whether to stop, and
/// handed each iteration's result.
pub trait SearchHandler {
    /// Should the search stop now?
    fn stop_search(&self) -> bool;

    /// A new iteration finished with this result.
    fn new_result(&mut self, result: SearchResult);
}

/// What every search thread shares: the game prefix, the cache, the tuned
/// parameters, and the network.
pub struct SearchSharedState {
    pub history: Vec<u64>,
    pub cache_table: CacheTable,
    pub search_params: SearchParamHandler,
    pub model: Nnue,
}

impl SearchSharedState {
    /// Cache, parameters and network are all usable.
    pub open spec fn wf(self) -> bool {
        &&& self.cache_table.wf()
        &&& self.search_params.wf()
        &&& self.model.wf()
    }
}

/// The greatest ply the search will enter.
pub const MAX_PLY: u8 = 255;

/// One thread's own mutable search state.
pub struct SearchData {
    pub game_history: Vec<u64>,
    pub killers: Vec<KillerEntry>,
    pub history_table: HistoryTable,
}

impl SearchData {
    /// One killer ring per ply, every score in bounds.
    pub open spec fn wf(self) -> bool {
        &&& self.killers@.len() == MAX_PLY
        &&& forall|i: int| 0 <= i < self.killers@.len() ==> (#[trigger] self.killers@[i]).wf()
        &&& self.history_table.wf()
    }

    /// Fresh per-thread state over a game prefix.
    pub fn new(history: Vec<u64>) -> (r: Self)
        ensures
            r.wf(),
            r.game_history@ == history@,
    {
        let mut killers: Vec<KillerEntry> = Vec::new();
        let mut i: usize = 0;
        while i < MAX_PLY as usize
            invariant
                i <= 255,
                killers@.len() == i,
                forall|k: int| 0 <= k < i ==> (#[trigger] killers@[k]).wf(),
            decreases 255 - i,
        {
            killers.push(KillerEntry::new());
            i = i + 1;
        }
        SearchData { game_history: history, killers, history_table: HistoryTable::new() }
    }
}

/// A node's place in the tree.
#[derive(Debug, Clone, Copy, PartialEq, Eq, Structural)]
pub enum Node {
    Root,
    Pv,
    Normal,
}

/// The number of repeated earlier occurrences of `h` within the reversible
/// window: stride two over the latest `limit` entries, the current
/// position itself skipped, counting from offset `j`.
pub open spec fn spec_rep_count_from(hist: Seq<u64>, h: u64, limit: int, j: int) -> int
    decreases limit + 2 - j,
{
    if j >= limit || j >= hist.len() {
        0
    } else {
        (if hist[hist.len() - 1 - j] == h {
            1int
        } else {
            0int
        }) + spec_rep_count_from(hist, h, limit, j + 2)
    }
}

/// How often the current position already occurred in the half-move
/// window of the game history, the current entry excluded.
pub open spec fn spec_repetitions(hist: Seq<u64>, r: BoardRep) -> int {
    spec_rep_count_from(hist, r.hash, r.halfmove_clock + 1, 2)
}

/// One search in progress: the root move it has settled on and its
/// counters.
pub struct Searcher {
    pub search_result: Option<ChessMove>,
    pub stats: SearchStats,
}

impl Searcher {
    /// Any settled root move is well-formed.
    pub open spec fn wf(self) -> bool {
        self.search_result matches Some(m) ==> m.wf()
    }
}

/// The stand-pat value of a position: its static evaluation, nudged off
/// the one unrepresentable raw value so it can be negated.
pub open spec fn spec_stand_pat(model: Nnue, pos: Position) -> int {
    let v = crate::position::spec_trunc_i16(
        pos.state.spec_evaluate(model, board_rep(pos.board).stm),
    );
    if v == i16::MIN {
        i16::MIN + 1
    } else {
        v
    }
}

/// The extended depth of a node: one more ply when in check.
pub open spec fn spec_extended_depth(depth: u8, r: BoardRep) -> int {
    if r.checkers != 0 {
        if depth == 255 {
            255
        } else {
            depth + 1
        }
    } else {
        depth as int
    }
}

impl Searcher {
    /// Run one aspiration attempt from the root. Yields the root's best
    /// move and evaluation, or nothing when the handler stopped the search
    /// or the root position has no move to settle on.
    pub fn search<H: SearchHandler>(
        handler: &mut H,
        shared: &SearchSharedState,
        data: &mut SearchData,
        pos: &Position,
        depth: u8,
        window: Window,
    ) -> (r: (Result<SearcherResult, ()>, SearchStats))
        requires
            shared.wf(),
            old(data).wf(),
            window.wf(),
            pos.wf(shared.model),
        ensures
            final(data).wf(),
            r.0 matches Ok(sr) ==> sr.mv.wf() && sr.eval.0 > i16::MIN && board_rep(
                pos.board,
            ).moves.contains(sr.mv),
            board_rep(pos.board).status != BoardStatus::Ongoing ==> r.0 is Err,
    {
        let mut searcher = Searcher {
            search_result: None,
            stats: SearchStats { nodes: 0, seldepth: 0 },
        };
        let eval = searcher.search_node(handler, shared, data, Node::Root, pos, depth, 0, window);
        let stats = searcher.stats;
        match eval {
            Ok(eval) => {
                match searcher.search_result {
                    Some(mv) => (Ok(SearcherResult { mv, eval, stats }), stats),
                    None => (Err(()), stats),
                }
            },
            Err(()) => (Err(()), stats),
        }
    }

    /// Search one node. `Err` means the handler stopped the search and the
    /// result must be discarded. The game-history stack is restored on
    /// every path; a repeated position inside the half-move window at a
    /// non-root node below ply 255 is a draw, checkmate scores as being
    /// mated at this ply, and a stalemate or fifty-move end as a draw,
    /// unless the stop signal cut the node short.
    pub fn search_node<H: SearchHandler>(
        &mut self,
        handler: &mut H,
        shared: &SearchSharedState,
        data: &mut SearchData,
        node: Node,
        pos: &Position,
        depth: u8,
        ply_index: u8,
        window: Window,
    ) -> (r: Result<Eval, ()>)
        requires
            shared.wf(),
            old(data).wf(),
            old(self).wf(),
            window.wf(),
            pos.wf(shared.model),
        ensures
            final(data).wf(),
            final(self).wf(),
            final(data).game_history@ == old(data).game_history@,
            node != Node::Root ==> final(self).search_result == old(self).search_result,
            final(self).search_result == old(self).search_result || (
            final(self).search_result matches Some(m) && m.wf() && board_rep(
                pos.board,
            ).moves.contains(m)),
            ply_index == 255 ==> r is Ok,
            ply_index < 255 && spec_extended_depth(depth, board_rep(pos.board)) == 0 ==> r is Ok,
            node == Node::Root && board_rep(pos.board).status != BoardStatus::Ongoing
                ==> final(self).search_result == old(self).search_result,
            final(data).killers@.len() == old(data).killers@.len(),
            forall|i: int|
                0 <= i < ply_index ==> final(data).killers@[i] == #[trigger] old(
                    data,
                ).killers@[i],
            r matches Ok(e) ==> e.0 > i16::MIN,
            ({
                let rep = board_rep(pos.board);
                let hist = old(data).game_history@.push(rep.hash);
                &&& (ply_index < 255 && node != Node::Root && spec_extended_depth(depth, rep) > 0
                    && spec_repetitions(hist, rep) > 0 ==> (r == Ok::<Eval, ()>(Eval(0i16)) || r is Err))
                &&& (ply_index < 255 && spec_extended_depth(depth, rep) > 0 && (node == Node::Root
                    || spec_repetitions(hist, rep) == 0) ==> {
                    &&& (rep.status == BoardStatus::Won ==> (r == Ok::<Eval, ()>(
                        Eval((-(crate::eval::MATE_IN_ZERO_VALUE - ply_index)) as i16),
                    ) || r is Err))
                    &&& (rep.status == BoardStatus::Drawn ==> (r == Ok::<Eval, ()>(Eval(0i16)) || r is Err))
                })
            }),
        decreases 255 - ply_index, 1int,
    {
        data.game_history.push(board_hash(pos.board()));
        let result = self.search_inner(handler, shared, data, node, pos, depth, ply_index, window);
        let ghost pre_pop = data.game_history@;
        data.game_history.pop();
        proof {
            assert(data.game_history@ =~= old(data).game_history@);
        }
        result
    }

    #[verifier::rlimit(100)]
    fn search_inner<H: SearchHandler>(
        &mut self,
        handler: &mut H,
        shared: &SearchSharedState,
        data: &mut SearchData,
        node: Node,
        pos: &Position,
        depth: u8,
        ply_index: u8,
        window: Window,
    ) -> (r: Result<Eval, ()>)
        requires
            shared.wf(),
            old(data).wf(),
            old(self).wf(),
            window.wf(),
            pos.wf(shared.model),
            old(data).game_history@.len() > 0,
            old(data).game_history@.last() == board_rep(pos.board).hash,
        ensures
            final(data).wf(),
            final(self).wf(),
            final(data).game_history@ == old(data).game_history@,
            node != Node::Root ==> final(self).search_result == old(self).search_result,
            final(self).search_result == old(self).search_result || (
            final(self).search_result matches Some(m) && m.wf() && board_rep(
                pos.board,
            ).moves.contains(m)),
            ply_index == 255 ==> r is Ok,
            ply_index < 255 && spec_extended_depth(depth, board_rep(pos.board)) == 0 ==> r is Ok,
            node == Node::Root && board_rep(pos.board).status != BoardStatus::Ongoing
                ==> final(self).search_result == old(self).search_result,
            final(data).killers@.len() == old(data).killers@.len(),
            forall|i: int|
                0 <= i < ply_index ==> final(data).killers@[i] == #[trigger] old(
                    data,
                ).killers@[i],
            r matches Ok(e) ==> e.0 > i16::MIN,
            ({
                let rep = board_rep(pos.board);
                let hist = old(data).game_history@;
                &&& (ply_index < 255 && node != Node::Root && spec_extended_depth(depth, rep) > 0
                    && spec_repetitions(hist, rep) > 0 ==> (r == Ok::<Eval, ()>(Eval(0i16)) || r is Err))
                &&& (ply_index < 255 && spec_extended_depth(depth, rep) > 0 && (node == Node::Root
                    || spec_repetitions(hist, rep) == 0) ==> {
                    &&& (rep.status == BoardStatus::Won ==> (r == Ok::<Eval, ()>(
                        Eval((-(crate::eval::MATE_IN_ZERO_VALUE - ply_index)) as i16),
                    ) || r is Err))
                    &&& (rep.status == BoardStatus::Drawn ==> (r == Ok::<Eval, ()>(Eval(0i16)) || r is Err))
                })
            }),
        decreases 255 - ply_index, 0int,
    {
        if ply_index == MAX_PLY {
            return Ok(clamp_min(pos.evaluate(&shared.model)));
        }
        if self.stats.seldepth < ply_index {
            self.stats.seldepth = ply_index;
        }
        let in_check: bool = board_checkers(pos.board()) != 0;
        let depth: u8 = if in_check {
            if depth == 255 {
                255
            } else {
                depth + 1
            }
        } else {
            depth
        };
        if depth == 0 {
            if node != Node::Root && self.repetitions(data, pos.board()) > 1 {
                return Ok(Eval::draw());
            }
            return Ok(self.quiescence(shared, data, pos, ply_index, window));
        }
        self.stats.nodes = self.stats.nodes.wrapping_add(1);

        let init_window = window;
        let mut window = window;

        if handler.stop_search() {
            return Err(());
        }
        if node != Node::Root && self.repetitions(data, pos.board()) > 0 {
            return Ok(Eval::draw());
        }
        match board_status(pos.board()) {
            BoardStatus::Won => {
                return Ok(Eval::mated_in(ply_index));
            },
            BoardStatus::Drawn => {
                return Ok(Eval::draw());
            },
            BoardStatus::Ongoing => {},
        }
        if node != Node::Root {
            if let Some(eval) = oracle(pos.board()) {
                return Ok(eval);
            }
        }
        let mut pv_move: Option<ChessMove> = None;
        let cache_entry = shared.cache_table.get(pos.board(), ply_index);
        if let Some(entry) = cache_entry {
            pv_move = Some(entry.best_move);
            if node != Node::Root && node != Node::Pv && entry.depth >= depth {
                match entry.kind {
                    CacheDataKind::Exact => {
                        return Ok(entry.eval);
                    },
                    CacheDataKind::LowerBound => window.narrow_alpha(entry.eval),
                    CacheDataKind::UpperBound => window.narrow_beta(entry.eval),
                }
                if window.empty() {
                    return Ok(entry.eval);
                }
            }
        }
        let static_eval: Eval = match cache_entry {
            Some(e) => {
                match e.eval.as_cp() {
                    Some(_) => e.eval,
                    None => pos.evaluate(&shared.model),
                }
            },
            None => pos.evaluate(&shared.model),
        };

        if node != Node::Root && node != Node::Pv {
            if let Some(margin) = shared.search_params.rfp_margin(depth) {
                let estimate = static_eval.saturating_sub(margin);
                if estimate.0 >= window.beta.0 {
                    return Ok(estimate);
                }
            }
        }
        let our_pieces: u64 = board_colors(pos.board(), crate::board::board_side_to_move(pos.board()));
        let sliding: u64 = board_pieces(pos.board(), Piece::Rook) | board_pieces(
            pos.board(),
            Piece::Bishop,
        ) | board_pieces(pos.board(), Piece::Queen);

        let mut best_move: Option<ChessMove> = None;
        let mut best_eval: Eval = Eval::min_eval();
        let do_nmp: bool = static_eval.0 >= window.beta.0 && (our_pieces & sliding) != 0;
        if node != Node::Root && do_nmp {
            if let Some(child) = pos.null_move() {
                let mut null_window = window.null_window_beta();
                let reduction = shared.search_params.nmp_reduction(depth, static_eval, null_window);
                let reduced: u8 = (depth - 1).saturating_sub(reduction);
                let child_eval = self.search_node(
                    handler,
                    shared,
                    data,
                    Node::Normal,
                    &child,
                    reduced,
                    ply_index + 1,
                    null_window.neg(),
                )?;
                let eval = child_eval.neg();
                null_window.narrow_alpha(eval);
                if null_window.empty() {
                    return Ok(eval);
                }
            }
        }
        let mut moves = MoveList::new(
            pos.board(),
            pv_move,
            data.killers[ply_index as usize].duplicate(),
        );
        let futile: bool = match shared.search_params.fp_margin(depth) {
            Some(margin) => static_eval.saturating_add(margin).0 <= window.alpha.0,
            None => false,
        };
        let mut quiets_to_check: usize = shared.search_params.lmp_quiets_to_check(depth);
        let mut fuel: u32 = 1024;
        let mut aborted: bool = false;
        while fuel > 0 && !aborted
            invariant_except_break
                window.wf(),
            invariant
                shared.wf(),
                pos.wf(shared.model),
                data.wf(),
                self.wf(),
                data.game_history@ == old(data).game_history@,
                data.killers@.len() == old(data).killers@.len(),
                forall|i: int|
                    0 <= i < ply_index ==> data.killers@[i] == #[trigger] old(data).killers@[i],
                moves.wf(),
                moves.board == &pos.board,
                best_eval.0 > i16::MIN,
                best_move matches Some(m) ==> spec_playable(board_rep(pos.board), m),
                self.search_result == old(self).search_result,
                ply_index < 255,
                depth >= 1,
            decreases fuel,
    	{
            fuel = fuel - 1;
            let picked = moves.pick(&data.history_table);
            let (i, mv, move_score) = match picked {
                Some((i, (mv, sc))) => (i, mv, sc),
                None => {
                    break ;
                },
            };
            if node != Node::Root {
                if let MoveScore::Quiet(_) = move_score {
                    if quiets_to_check > 0 {
                        quiets_to_check = quiets_to_check - 1;
                    } else {
                        continue ;
                    }
                }
            }
            let child = pos.play_unchecked(&shared.model, mv);
            shared.cache_table.prefetch(child.board());
            let gives_check: bool = board_checkers(child.board()) != 0;
            let quiet: bool = move_is_quiet(mv, pos.board());

            if best_move.is_some() && futile && quiet && !in_check && !gives_check {
                continue ;
            }
            let child_is_pv: bool = i == 0;
            let child_window: Window = if child_is_pv {
                window
            } else {
                window.null_window_alpha()
            };
            let mut reduction: u8 = 0;
            if depth >= shared.search_params.lmr_min_depth() && quiet && !in_check && !gives_check {
                let history = data.history_table.get(pos.board(), mv);
                reduction = shared.search_params.lmr_reduction(i, depth, history);
            }
            let child_eval = self.search_node(
                handler,
                shared,
                data,
                if child_is_pv {
                    Node::Pv
                } else {
                    Node::Normal
                },
                &child,
                (depth - 1).saturating_sub(reduction),
                ply_index + 1,
                child_window.neg(),
            );
            let mut eval = match child_eval {
                Ok(e) => e.neg(),
                Err(()) => {
                    aborted = true;
                    break ;
                },
            };
            if (child_window != window || reduction > 0) && window.contains(eval) {
                let re_eval = self.search_node(
                    handler,
                    shared,
                    data,
                    Node::Pv,
                    &child,
                    depth - 1,
                    ply_index + 1,
                    window.neg(),
                );
                eval = match re_eval {
                    Ok(e) => e.neg(),
                    Err(()) => {
                        aborted = true;
                        break ;
                    },
                };
            }
            if eval.0 > best_eval.0 {
                best_eval = eval;
                best_move = Some(mv);
            }
            window.narrow_alpha(eval);
            if window.beta.0 <= window.alpha.0 {
                if move_is_quiet(mv, pos.board()) {
                    let mut ring = data.killers[ply_index as usize].duplicate();
                    ring.push_ring(mv);
                    data.killers.set(ply_index as usize, ring);
                    data.history_table.update(pos.board(), mv, depth, true);
                }
                let mut yi: usize = 0;
                let yielded_len: usize = moves.yielded().len();
                while yi < yielded_len
                    invariant
                        data.wf(),
                        data.game_history@ == old(data).game_history@,
                        data.killers@.len() == old(data).killers@.len(),
                        forall|i: int|
                            0 <= i < ply_index ==> data.killers@[i] == #[trigger] old(
                                data,
                            ).killers@[i],
                        moves.wf(),
                        moves.board == &pos.board,
                        yielded_len <= moves.yielded_list@.len(),
                        mv.wf(),
                        depth >= 1,
                        ply_index < 255,
                    decreases yielded_len - yi,
                {
                    let (prev_mv, _) = *(&moves.yielded()[yi]);
                    if prev_mv != mv && move_is_quiet(prev_mv, pos.board()) {
                        data.history_table.update(pos.board(), prev_mv, depth, false);
                    }
                    yi = yi + 1;
                }
                break ;
            }
    	}
        if aborted {
            return Err(());
        }
        let best_move = match best_move {
            Some(m) => m,
            None => {
                return Ok(best_eval);
            },
        };
        let kind: CacheDataKind = if best_eval.0 <= init_window.alpha.0 {
            CacheDataKind::UpperBound
        } else if best_eval.0 >= init_window.beta.0 {
            CacheDataKind::LowerBound
        } else {
            CacheDataKind::Exact
        };
        shared.cache_table.set(
            pos.board(),
            ply_index,
            CacheData { kind, eval: best_eval, depth, best_move, age: 0 },
        );
        if node == Node::Root {
            self.search_result = Some(best_move);
        }
        Ok(best_eval)
    }

    /// Quiescence: resolve captures until the position is quiet. A won or
    /// drawn position scores exactly as the rules say; otherwise the side
    /// to move may stand pat on the static evaluation.
    #[verifier::rlimit(60)]
    pub fn quiescence(
        &mut self,
        shared: &SearchSharedState,
        data: &mut SearchData,
        pos: &Position,
        ply_index: u8,
        window: Window,
    ) -> (r: Eval)
        requires
            shared.wf(),
            old(data).wf(),
            old(self).wf(),
            window.wf(),
            pos.wf(shared.model),
        ensures
            final(data).wf(),
            final(self).wf(),
            final(data).game_history@ == old(data).game_history@,
            final(data).killers@ == old(data).killers@,
            final(data).history_table.table@ == old(data).history_table.table@,
            final(self).search_result == old(self).search_result,
            r.0 > i16::MIN,
            board_rep(pos.board).status == BoardStatus::Won ==> r == Eval(
                (-(crate::eval::MATE_IN_ZERO_VALUE - ply_index)) as i16,
            ),
            board_rep(pos.board).status == BoardStatus::Drawn ==> r == Eval(0i16),
            board_rep(pos.board).status == BoardStatus::Ongoing && !spec_known_draw(
                board_rep(pos.board),
            ) ==> r.val() >= spec_stand_pat(shared.model, *pos) || (exists|w: u64|
                #[trigger] spec_decode_cache_data(w) matches Some(raw) && r
                    == CacheTable::spec_grafted(raw.eval, ply_index)),
        decreases 255 - ply_index, 0int,
    {
        self.stats.nodes = self.stats.nodes.wrapping_add(1);
        let mut window = window;
        match board_status(pos.board()) {
            BoardStatus::Won => {
                return Eval::mated_in(ply_index);
            },
            BoardStatus::Drawn => {
                return Eval::draw();
            },
            BoardStatus::Ongoing => {},
        }
        if let Some(eval) = oracle(pos.board()) {
            return clamp_min(eval);
        }
        if let Some(entry) = shared.cache_table.get(pos.board(), ply_index) {
            match entry.kind {
                CacheDataKind::Exact => {
                    return entry.eval;
                },
                CacheDataKind::LowerBound => window.narrow_alpha(entry.eval),
                CacheDataKind::UpperBound => window.narrow_beta(entry.eval),
            }
            if window.beta.0 <= window.alpha.0 {
                return entry.eval;
            }
        }
        let mut best_eval: Eval = clamp_min(pos.evaluate(&shared.model));
        window.narrow_alpha(best_eval);
        if window.beta.0 <= window.alpha.0 {
            return best_eval;
        }
        if ply_index == MAX_PLY {
            return best_eval;
        }
        let mut move_list = QSearchMoveList::new(pos.board(), &data.history_table);
        let mut fuel: u32 = 256;
        while fuel > 0
            invariant_except_break
                window.wf(),
            invariant
                shared.wf(),
                pos.wf(shared.model),
                data.wf(),
                self.wf(),
                data.game_history@ == old(data).game_history@,
                self.search_result == old(self).search_result,
                data.killers@ == old(data).killers@,
                data.history_table.table@ == old(data).history_table.table@,
                move_list.wf(),
                move_list.rep@ == board_rep(pos.board),
                best_eval.0 > i16::MIN,
                best_eval.val() >= spec_stand_pat(shared.model, *pos),
                ply_index < 255,
            decreases fuel,
        {
            fuel = fuel - 1;
            let (mv, child) = match move_list.pick() {
                Some((_, (mv, _))) => (mv, pos.play_unchecked(&shared.model, mv)),
                None => {
                    break ;
                },
            };
            let child_eval = self.quiescence(shared, data, &child, ply_index + 1, window.neg());
            let eval = child_eval.neg();
            if eval.0 > best_eval.0 {
                best_eval = eval;
            }
            window.narrow_alpha(eval);
            if window.beta.0 <= window.alpha.0 {
                break ;
            }
        }
        best_eval
    }

    /// How often the current position already occurred within the
    /// half-move window, the current entry itself skipped.
    pub fn repetitions(&self, data: &SearchData, board: &cozy_chess::Board) -> (r: usize)
        requires
            data.game_history@.len() > 0,
        ensures
            r == spec_repetitions(data.game_history@, board_rep(*board)),
    {
        count_repetitions(&data.game_history, board)
    }
}

/// How often the position at the top of `game_history` already occurred
/// within its half-move window, the top entry itself skipped.
pub fn count_repetitions(game_history: &Vec<u64>, board: &cozy_chess::Board) -> (r: usize)
    requires
        game_history@.len() > 0,
    ensures
        r == spec_repetitions(game_history@, board_rep(*board)),
{
    {
        let data_game_history = game_history;
        let h: u64 = board_hash(board);
        let len: usize = data_game_history.len();
        let halfmove: usize = board_halfmove_clock(board) as usize;
        let limit: usize = if halfmove + 1 < len {
            halfmove + 1
        } else {
            len
        };
        let data = data_game_history;
        let ghost glimit: int = board_rep(*board).halfmove_clock + 1;
        let mut count: usize = 0;
        let mut j: usize = 2;
        while j < limit
            invariant
                len == data@.len(),
                h == board_rep(*board).hash,
                limit <= len,
                glimit == board_rep(*board).halfmove_clock + 1,
                limit == if glimit < len {
                    glimit
                } else {
                    len as int
                },
                j >= 2,
                j % 2 == 0,
                count + spec_rep_count_from(data@, h, glimit, j as int) == spec_rep_count_from(
                    data@,
                    h,
                    glimit,
                    2,
                ),
                count <= j,
            decreases limit + 2 - j,
        {
            proof {
                assert(spec_rep_count_from(data@, h, glimit, j as int) == (if data@[len - 1
                    - j] == h {
                    1int
                } else {
                    0int
                }) + spec_rep_count_from(data@, h, glimit, j + 2));
            }
            if data[len - 1 - j] == h {
                count = count + 1;
            }
            j = j + 2;
        }
        proof {
            assert(spec_rep_count_from(data@, h, glimit, j as int) == 0);
        }
        count
    }
}

/// Replace the one unrepresentable evaluation by the least representable
/// one, so every returned score can be negated.
fn clamp_min(e: Eval) -> (r: Eval)
    ensures
        r.0 > i16::MIN,
        e.0 > i16::MIN ==> r == e,
{
    if e.0 == i16::MIN {
        Eval(i16::MIN + 1)
    } else {
        e
    }
}

} // verus!
