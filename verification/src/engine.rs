//! The iterative-deepening driver: search depth after depth, first inside
//! an aspiration window around the last evaluation and again at full width
//! when the score escapes it, then read the principal variation back out
//! of the cache and report the iteration to the handler.

use vstd::prelude::*;

use crate::board::{board_hash, board_is_legal, board_play, board_rep, board_status};
use crate::cache::CacheTable;
use crate::chess::{BoardStatus, ChessMove};
use crate::eval::Eval;
use crate::nnue::Nnue;
use crate::params::SearchParamHandler;
use crate::position::Position;
use crate::search::{
    count_repetitions, SearchData, SearchHandler, SearchResult, SearchSharedState, Searcher,
    SearcherResult,
};
use crate::window::Window;

verus! {

/// How deep and wide the driver may go.
#[derive(Debug, Clone, Copy, PartialEq, Eq, Structural)]
pub struct EngineOptions {
    pub max_depth: u8,
    pub threads: u32,
}

impl Default for EngineOptions {
    /// Depth 64, one thread.
    fn default() -> (r: Self)
        ensures
            r.max_depth == 64,
            r.threads == 1,
    {
        EngineOptions { max_depth: 64, threads: 1 }
    }
}

/// The engine: a root position, the state shared between searches, and the
/// handler that hears about results.
pub struct Engine<H> {
    pub pos: Position,
    pub main_handler: H,
    pub shared: SearchSharedState,
    pub options: EngineOptions,
}

/// The window one iteration opens with: the whole range for shallow
/// depths or a fresh search, else a band around the last evaluation.
pub fn aspiration_window(depth: u8, prev_eval: Option<Eval>) -> (r: Window)
    ensures
        r.wf(),
        r == if depth > 3 && prev_eval is Some {
            Window {
                alpha: Eval(
                    Eval::spec_saturating_sub(prev_eval->Some_0.val(), 75) as i16,
                ),
                beta: Eval(Eval::clamp_i16(prev_eval->Some_0.val() + 75) as i16),
            }
        } else {
            Window { alpha: Eval(-0x7fffi16), beta: Eval(0x7fffi16) }
        },
{
    if depth > 3 {
        if let Some(prev) = prev_eval {
            return Window::around(prev, Eval::cp(75));
        }
    }
    Window::infinity()
}

fn copy_hashes(v: &Vec<u64>) -> (r: Vec<u64>)
    ensures
        r@ == v@,
{
    let mut out: Vec<u64> = Vec::new();
    let mut i: usize = 0;
    while i < v.len()
        invariant
            i <= v.len(),
            out@ =~= v@.take(i as int),
        decreases v.len() - i,
    {
        out.push(v[i]);
        i = i + 1;
    }
    proof {
        assert(out@ =~= v@);
    }
    out
}

impl<H: SearchHandler> Engine<H> {
    /// Everything shared is usable and the root position's accumulators
    /// hold the invariant for the shared network.
    pub open spec fn wf(self) -> bool {
        &&& self.shared.wf()
        &&& self.pos.wf(self.shared.model)
    }

    /// Set up a search of `init_pos` after the given moves. A move that is
    /// not legal where it appears ends the prefix early.
    pub fn new(
        handler: H,
        init_pos: cozy_chess::Board,
        moves: Vec<ChessMove>,
        options: EngineOptions,
        search_params: SearchParamHandler,
        cache_table: CacheTable,
        model: Nnue,
    ) -> (r: Self)
        requires
            cache_table.wf(),
            search_params.wf(),
            model.wf(),
        ensures
            r.wf(),
    {
        let mut history: Vec<u64> = Vec::new();
        let mut board = init_pos;
        let mut i: usize = 0;
        while i < moves.len()
            decreases moves.len() - i,
        {
            let mv = moves[i];
            if mv.from < 64 && mv.to < 64 && board_is_legal(&board, mv) {
                history.push(board_hash(&board));
                board = board_play(&board, mv);
            } else {
                break ;
            }
            i = i + 1;
        }
        let pos = Position::new(&model, board);
        Engine {
            pos,
            main_handler: handler,
            shared: SearchSharedState { history, cache_table, search_params, model },
            options,
        }
    }

    /// Iteratively deepen from depth one, reporting each finished
    /// iteration's best move, evaluation and principal variation to the
    /// handler, until the greatest depth is reached or the handler stops
    /// the search. The last finished iteration's result comes back: a
    /// legal root move with a negatable evaluation, or nothing when no
    /// iteration finished (the handler stopped at once, or the position
    /// is already decided).
    pub fn search(&mut self) -> (r: Option<SearcherResult>)
        requires
            old(self).wf(),
        ensures
            final(self).wf(),
            final(self).pos == old(self).pos,
            r matches Some(sr) ==> {
                &&& sr.mv.wf()
                &&& sr.eval.0 > i16::MIN
                &&& board_rep(old(self).pos.board).moves.contains(sr.mv)
            },
            board_rep(old(self).pos.board).status != BoardStatus::Ongoing ==> r is None,
    {
        let mut last: Option<SearcherResult> = None;
        let mut prev_eval: Option<Eval> = None;
        let mut data = SearchData::new(copy_hashes(&self.shared.history));
        let mut depth: u8 = 1;
        while depth <= self.options.max_depth
            invariant
                self.wf(),
                self.pos == old(self).pos,
                data.wf(),
                depth >= 1,
                prev_eval matches Some(e) ==> -0x7fff <= e.0 <= 0x7fff,
                last matches Some(sr) ==> sr.mv.wf() && sr.eval.0 > i16::MIN && board_rep(
                    old(self).pos.board,
                ).moves.contains(sr.mv),
                board_rep(old(self).pos.board).status != BoardStatus::Ongoing ==> last is None,
            decreases 256 - depth,
        {
            let window = aspiration_window(depth, prev_eval);
            let (first, first_stats) = Searcher::search(
                &mut self.main_handler,
                &self.shared,
                &mut data,
                &self.pos,
                depth,
                window,
            );
            let (result, stats) = match first {
                Ok(res) => {
                    if !window.contains(res.eval) {
                        let full = Window::infinity();
                        Searcher::search(
                            &mut self.main_handler,
                            &self.shared,
                            &mut data,
                            &self.pos,
                            depth,
                            full,
                        )
                    } else {
                        (Ok(res), first_stats)
                    }
                },
                Err(()) => (Err(()), first_stats),
            };
            let res: SearcherResult = match result {
                Ok(res) => res,
                Err(()) => {
                    break ;
                },
            };
            prev_eval = Some(res.eval);
            last = Some(res);
            let pv = self.principal_variation();
            let report = SearchResult {
                mv: res.mv,
                eval: res.eval,
                nodes: stats.nodes,
                depth,
                seldepth: stats.seldepth,
                cache_approx_size_permill: self.shared.cache_table.approx_size_permill(),
                principal_variation: pv,
            };
            self.main_handler.new_result(report);
            if depth == 255 {
                break ;
            }
            depth = depth + 1;
        }
        last
    }

    /// Walk the cache from the root, playing each stored best move, for at
    /// most the configured depth, stopping at an illegal or missing entry,
    /// a repetition seen more than twice, or the end of the game. Every
    /// move in the line was checked legal on the walk's own board before it
    /// was played; only the first board is nameable here, so only the first
    /// move's legality can be stated.
    fn principal_variation(&self) -> (pv: Vec<ChessMove>)
        requires
            self.wf(),
        ensures
            pv@.len() <= self.options.max_depth,
            forall|i: int| 0 <= i < pv@.len() ==> (#[trigger] pv@[i]).wf(),
            pv@.len() > 0 ==> board_rep(self.pos.board).moves.contains(pv@[0]),
    {
        let mut pv: Vec<ChessMove> = Vec::new();
        let mut history = copy_hashes(&self.shared.history);
        let mut board = self.pos.board().clone();
        let mut steps: u8 = 0;
        while steps < self.options.max_depth
            invariant_except_break
                pv@.len() == steps,
            invariant
                self.wf(),
                steps <= self.options.max_depth,
                pv@.len() <= self.options.max_depth,
                forall|i: int| 0 <= i < pv@.len() ==> (#[trigger] pv@[i]).wf(),
                pv@.len() == 0 ==> board == self.pos.board,
                pv@.len() > 0 ==> board_rep(self.pos.board).moves.contains(pv@[0]),
            decreases self.options.max_depth - steps,
        {
            let entry = match self.shared.cache_table.get(&board, 0) {
                Some(e) => e,
                None => {
                    break ;
                },
            };
            let mv = entry.best_move;
            if !(mv.from < 64 && mv.to < 64 && board_is_legal(&board, mv)) {
                break ;
            }
            history.push(board_hash(&board));
            board = board_play(&board, mv);
            pv.push(mv);
            let repetitions = count_repetitions(&history, &board);
            if repetitions > 2 || !matches!(board_status(&board), BoardStatus::Ongoing) {
                break ;
            }
            steps = steps + 1;
        }
        pv
    }

    /// Hand the cache back for reuse in the next search.
    pub fn into_cache_table(self) -> (r: CacheTable)
        requires
            self.wf(),
        ensures
            r.wf(),
            r == self.shared.cache_table,
    {
        self.shared.cache_table
    }
}

} // verus!
