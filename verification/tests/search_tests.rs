use tantabus::cache::CacheTable;
use tantabus::chess::ChessMove;
use tantabus::engine::{Engine, EngineOptions};
use tantabus::eval::{Eval, EvalKind};
use tantabus::nnue::{BitLinear, Linear, Nnue};
use tantabus::params::{Lut2d, SearchParamHandler, SearchParams};
use tantabus::position::Position;
use tantabus::search::{
    Node, SearchData, SearchHandler, SearchResult, SearchSharedState, SearchStats, Searcher,
};
use tantabus::window::Window;

fn sq(name: &str) -> u8 {
    let bytes = name.as_bytes();
    (bytes[0] - b'a') + 8 * (bytes[1] - b'1')
}

fn mv(from: &str, to: &str) -> ChessMove {
    ChessMove { from: sq(from), to: sq(to), promotion: None }
}

fn noisy_model() -> Nnue {
    let h = 8usize;
    let mut state: u64 = 0x243f6a8885a308d3;
    let mut next = move || {
        state = state.wrapping_mul(6364136223846793005).wrapping_add(1442695040888963407);
        (state >> 33) as i64
    };
    let mut ft_weights = Vec::new();
    for _ in 0..768 {
        let mut row = Vec::new();
        for _ in 0..h {
            row.push((next() % 61 - 30) as i16);
        }
        ft_weights.push(row);
    }
    let mut ft_biases = Vec::new();
    for _ in 0..h {
        ft_biases.push((next() % 101 - 50) as i16);
    }
    let mut l1_row = Vec::new();
    for _ in 0..2 * h {
        l1_row.push((next() % 11 - 5) as i8);
    }
    Nnue {
        ft: BitLinear { weights: ft_weights, biases: ft_biases },
        l1: Linear { weights: vec![l1_row], biases: vec![(next() % 1001 - 500) as i32] },
    }
}

fn zero_model() -> Nnue {
    Nnue {
        ft: BitLinear { weights: vec![vec![0i16; 4]; 768], biases: vec![0i16; 4] },
        l1: Linear { weights: vec![vec![0i8; 8]], biases: vec![0i32] },
    }
}

fn default_handler_params() -> SearchParamHandler {
    let params = SearchParams::default();
    let base = params.lmr.base_reduction_milli as f32 / 1000.0;
    let div = params.lmr.div_milli as f32 / 1000.0;
    let mut rows = Vec::new();
    for depth in 0..64usize {
        let mut row = Vec::new();
        for index in 0..64usize {
            let v = base + (depth as f32).ln() * (index as f32).ln() / div;
            row.push(v as u8);
        }
        rows.push(row);
    }
    SearchParamHandler::new(params, Lut2d::new(rows))
}

struct Collect {
    results: Vec<SearchResult>,
}

impl SearchHandler for Collect {
    fn stop_search(&self) -> bool {
        false
    }

    fn new_result(&mut self, result: SearchResult) {
        self.results.push(result);
    }
}

fn run_search(board: cozy_chess::Board, moves: Vec<ChessMove>, depth: u8) -> Vec<SearchResult> {
    let engine = searched_engine(board, moves, depth, CacheTable::new_with_size(1 << 16).unwrap());
    engine.main_handler.results
}

fn searched_engine(
    board: cozy_chess::Board,
    moves: Vec<ChessMove>,
    depth: u8,
    cache: CacheTable,
) -> Engine<Collect> {
    searched_engine_with(board, moves, depth, cache, zero_model())
}

fn searched_engine_with(
    board: cozy_chess::Board,
    moves: Vec<ChessMove>,
    depth: u8,
    cache: CacheTable,
    model: Nnue,
) -> Engine<Collect> {
    let mut engine = Engine::new(
        Collect { results: Vec::new() },
        board,
        moves,
        EngineOptions { max_depth: depth, threads: 1 },
        default_handler_params(),
        cache,
        model,
    );
    let _ = engine.search();
    engine
}

#[test]
fn engine_returns_final_result() {
    let board: cozy_chess::Board = "6k1/5ppp/8/8/8/8/5PPP/R5K1 w - - 0 1".parse().unwrap();
    let mut engine = Engine::new(
        Collect { results: Vec::new() },
        board,
        Vec::new(),
        EngineOptions { max_depth: 3, threads: 1 },
        default_handler_params(),
        CacheTable::new_with_size(1 << 16).unwrap(),
        zero_model(),
    );
    let result = engine.search().expect("an ongoing position yields a result");
    let last = engine.main_handler.results.last().unwrap();
    assert_eq!(result.mv, last.mv);
    assert_eq!(result.eval, last.eval);
    // A root whose game is already decided settles on no move at all.
    let stalemate: cozy_chess::Board = "7k/5Q2/6K1/8/8/8/8/8 b - - 0 1".parse().unwrap();
    let mut finished = Engine::new(
        Collect { results: Vec::new() },
        stalemate,
        Vec::new(),
        EngineOptions { max_depth: 3, threads: 1 },
        default_handler_params(),
        CacheTable::new_with_size(1 << 16).unwrap(),
        zero_model(),
    );
    assert!(finished.search().is_none());
}

#[test]
fn finds_mate_in_one() {
    let board: cozy_chess::Board = "6k1/5ppp/8/8/8/8/5PPP/R5K1 w - - 0 1".parse().unwrap();
    let results = run_search(board, Vec::new(), 2);
    let last = results.last().expect("search should report results");
    assert_eq!(last.mv, mv("a1", "a8"));
    assert_eq!(last.eval.kind(), EvalKind::MateIn(1));
}

#[test]
fn finds_scholars_mate() {
    let board = cozy_chess::Board::default();
    let opening = vec![
        mv("e2", "e4"),
        mv("e7", "e5"),
        mv("f1", "c4"),
        mv("b8", "c6"),
        mv("d1", "h5"),
        mv("g8", "f6"),
    ];
    let results = run_search(board, opening, 2);
    let last = results.last().expect("search should report results");
    assert_eq!(last.mv, mv("h5", "f7"));
    assert_eq!(last.eval.kind(), EvalKind::MateIn(1));
}

#[test]
fn stalemate_scores_draw_with_no_move() {
    let board: cozy_chess::Board = "7k/5Q2/6K1/8/8/8/8/8 b - - 0 1".parse().unwrap();
    let model = zero_model();
    let pos = Position::new(&model, board);
    let shared = SearchSharedState {
        history: Vec::new(),
        cache_table: CacheTable::new_with_size(1 << 16).unwrap(),
        search_params: default_handler_params(),
        model,
    };
    let mut data = SearchData::new(Vec::new());
    let mut handler = Collect { results: Vec::new() };
    let mut searcher = Searcher {
        search_result: None,
        stats: SearchStats { nodes: 0, seldepth: 0 },
    };
    let r = searcher.search_node(
        &mut handler,
        &shared,
        &mut data,
        Node::Root,
        &pos,
        2,
        0,
        Window::infinity(),
    );
    assert_eq!(r, Ok(Eval(0)));
    assert_eq!(searcher.search_result, None);
    // The root driver reports no result at all for a finished position.
    let (result, _) = Searcher::search(&mut handler, &shared, &mut data, &pos, 2, Window::infinity());
    assert!(result.is_err());
}

#[test]
fn threefold_repetition_scores_draw() {
    let board = cozy_chess::Board::default();
    let shuffle = vec![
        mv("g1", "f3"),
        mv("g8", "f6"),
        mv("f3", "g1"),
        mv("f6", "g8"),
        mv("g1", "f3"),
        mv("g8", "f6"),
        mv("f3", "g1"),
        mv("f6", "g8"),
    ];
    let results = run_search(board, shuffle, 2);
    let last = results.last().expect("search should report results");
    assert_eq!(last.eval, Eval(0));
}

#[test]
fn warm_cache_searches_fewer_nodes() {
    let cold = searched_engine_with(
        cozy_chess::Board::default(),
        Vec::new(),
        8,
        CacheTable::new_with_size(1 << 20).unwrap(),
        noisy_model(),
    );
    let warm_cache = cold.into_cache_table();
    let warm = searched_engine_with(
        cozy_chess::Board::default(),
        Vec::new(),
        9,
        warm_cache,
        noisy_model(),
    );
    let fresh = searched_engine_with(
        cozy_chess::Board::default(),
        Vec::new(),
        9,
        CacheTable::new_with_size(1 << 20).unwrap(),
        noisy_model(),
    );
    let warm_nodes = warm.main_handler.results.last().unwrap().nodes;
    let fresh_nodes = fresh.main_handler.results.last().unwrap().nodes;
    assert!(
        warm_nodes < fresh_nodes,
        "warm {} vs fresh {}",
        warm_nodes,
        fresh_nodes
    );
}

#[test]
fn single_thread_search_is_deterministic() {
    let run = |d: u8| {
        let e = searched_engine(
            cozy_chess::Board::default(),
            Vec::new(),
            d,
            CacheTable::new_with_size(1 << 18).unwrap(),
        );
        e.main_handler
            .results
            .iter()
            .map(|r| (r.mv, r.eval, r.nodes))
            .collect::<Vec<_>>()
    };
    let a = run(5);
    let b = run(5);
    assert_eq!(a, b);
    assert!(!a.is_empty());
}
