use tantabus::eval::Eval;
use tantabus::formulas::{
    futility_margin, lmr_calculate_reduction, nmp_calculate_reduction, reverse_futility_margin,
};
use tantabus::history::{HistoryTable, MAX_HISTORY};
use tantabus::chess::ChessMove;
use tantabus::params::{Lut2d, SearchParamHandler, SearchParams};
use tantabus::window::Window;

fn handler() -> SearchParamHandler {
    let params = SearchParams::default();
    let mut rows = Vec::new();
    for depth in 0..64usize {
        let mut row = Vec::new();
        for index in 0..64usize {
            let v = 0.007f32 + (depth as f32).ln() * (index as f32).ln() / 2.792f32;
            row.push(v as u8);
        }
        rows.push(row);
    }
    SearchParamHandler::new(params, Lut2d::new(rows))
}

#[test]
fn fixed_formulas() {
    assert_eq!(futility_margin(1), Some(Eval(300)));
    assert_eq!(futility_margin(2), Some(Eval(600)));
    assert_eq!(futility_margin(3), None);
    assert_eq!(reverse_futility_margin(1), Some(Eval(100)));
    assert_eq!(reverse_futility_margin(4), Some(Eval(400)));
    assert_eq!(reverse_futility_margin(5), None);
    assert_eq!(lmr_calculate_reduction(0, 10), 0);
    assert_eq!(lmr_calculate_reduction(5, 5), 1);
    assert_eq!(lmr_calculate_reduction(5, 9), 2);
}

#[test]
fn null_move_formula_grows_with_margin() {
    let beta = Window { alpha: Eval(99), beta: Eval(100) };
    assert_eq!(nmp_calculate_reduction(Eval::cp(100), beta), 3);
    assert_eq!(nmp_calculate_reduction(Eval::cp(250), beta), 4);
    assert_eq!(nmp_calculate_reduction(Eval::cp(900), beta), 5);
    // Mate scores carry no margin information.
    assert_eq!(nmp_calculate_reduction(Eval::mate_in(3), beta), 3);
}

#[test]
fn handler_margins_match_parameters() {
    let h = handler();
    assert_eq!(h.lmr_min_depth(), 3);
    assert_eq!(h.fp_margin(1), Some(Eval(293)));
    assert_eq!(h.fp_margin(2), Some(Eval(620)));
    assert_eq!(h.fp_margin(3), None);
    assert_eq!(h.rfp_margin(1), Some(Eval(30)));
    assert_eq!(h.rfp_margin(4), Some(Eval(120)));
    assert_eq!(h.rfp_margin(5), None);
    assert_eq!(h.lmp_quiets_to_check(1), 7);
    assert_eq!(h.lmp_quiets_to_check(2), 8);
    assert_eq!(h.lmp_quiets_to_check(3), 17);
    assert_eq!(h.lmp_quiets_to_check(4), usize::MAX);
}

#[test]
fn handler_reductions() {
    let h = handler();
    // ln(16)*ln(16)/2.792 + 0.007 is a bit under 2.8.
    let expected = (0.007f32 + (16f32).ln() * (16f32).ln() / 2.792f32) as u8;
    assert_eq!(h.lmr_reduction(16, 16, 0), expected);
    // Strong history cancels reductions entirely.
    assert_eq!(h.lmr_reduction(16, 16, 2048), 0);
    let w = Window { alpha: Eval(-1), beta: Eval(0) };
    assert_eq!(h.nmp_reduction(1, Eval::cp(0), w), 3);
    assert_eq!(h.nmp_reduction(7, Eval::cp(0), w), 4);
    assert_eq!(h.nmp_reduction(7, Eval::cp(180), w), 6);
}

#[test]
fn lut_clamps_out_of_range_indices() {
    let lut = Lut2d::new(vec![vec![1u8, 2u8], vec![3u8, 4u8]]);
    assert_eq!(lut.get(0, 0), 1);
    assert_eq!(lut.get(1, 1), 4);
    assert_eq!(lut.get(9, 0), 3);
    assert_eq!(lut.get(0, 9), 2);
    assert_eq!(lut.get(9, 9), 4);
}

#[test]
fn history_gravity_and_bounds() {
    let board = cozy_chess::Board::default();
    let mut table = HistoryTable::new();
    let m = ChessMove { from: 12, to: 28, promotion: None };
    assert_eq!(table.get(&board, m), 0);
    table.update(&board, m, 4, true);
    assert_eq!(table.get(&board, m), 16);
    table.update(&board, m, 4, true);
    // 16 + 16 - (16*16)/2048 = 32 - 0 = 32
    assert_eq!(table.get(&board, m), 32);
    table.update(&board, m, 4, false);
    assert_eq!(table.get(&board, m), 32 - 16 - 0);
    for _ in 0..200 {
        table.update(&board, m, 12, true);
    }
    assert!(table.get(&board, m) <= MAX_HISTORY);
    for _ in 0..400 {
        table.update(&board, m, 12, false);
    }
    assert!(table.get(&board, m) >= -MAX_HISTORY);
}

#[test]
fn history_move_from_empty_square_is_inert() {
    let board = cozy_chess::Board::default();
    let mut table = HistoryTable::new();
    let ghost_move = ChessMove { from: 36, to: 44, promotion: None };
    table.update(&board, ghost_move, 9, true);
    assert_eq!(table.get(&board, ghost_move), 0);
}
