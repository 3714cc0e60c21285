use tantabus::chess::{Color, Piece};
use tantabus::eval::Eval;
use tantabus::hce::{
    game_phase, EvalTerms, Evaluator, KingRelativePst, Mobility, Pst, PstEvalSet, MAX_PHASE,
};

fn constant_terms(v: i16) -> EvalTerms {
    let krp = || KingRelativePst { table: vec![v; 64] };
    EvalTerms {
        piece_tables: PstEvalSet {
            pawn: krp(),
            knight: krp(),
            bishop: krp(),
            rook: krp(),
            queen: krp(),
            king: Pst { table: vec![v; 64] },
        },
        mobility: Mobility {
            pawn: vec![v; 5],
            knight: vec![v; 9],
            bishop: vec![v; 14],
            rook: vec![v; 15],
            queen: vec![v; 28],
            king: vec![v; 9],
        },
        passed_pawns: krp(),
        bishop_pair: v,
        rook_on_open_file: v,
        rook_on_semiopen_file: v,
    }
}

#[test]
fn game_phase_extremes() {
    let start = cozy_chess::Board::default();
    assert_eq!(game_phase(&start), 0);
    let bare: cozy_chess::Board = "4k3/8/8/8/8/8/4P3/4K3 w - - 0 1".parse().unwrap();
    assert_eq!(game_phase(&bare), MAX_PHASE);
    // One queen left on each side: 24 - 8 = 16 remaining weight.
    let queens: cozy_chess::Board = "3qk3/8/8/8/8/8/8/3QK3 w - - 0 1".parse().unwrap();
    assert_eq!(game_phase(&queens), (16 * 256 + 12) / 24);
}

#[test]
fn constant_tables_count_terms() {
    // Midgame weight is zero at full phase, so only the endgame tables
    // matter: White's pawn (pst + mobility + passed) and king (pst +
    // mobility) against Black's bare king (pst + mobility).
    let evaluator = Evaluator { midgame: constant_terms(999), endgame: constant_terms(7) };
    let board: cozy_chess::Board = "4k3/8/8/8/8/8/4P3/4K3 w - - 0 1".parse().unwrap();
    let eval = evaluator.evaluate(&board);
    assert_eq!(eval, Eval(3 * 7));
}

#[test]
fn tapering_interpolates() {
    // With full material the phase is 0 and only the midgame tables count.
    let evaluator = Evaluator { midgame: constant_terms(5), endgame: constant_terms(999) };
    let board = cozy_chess::Board::default();
    // Both sides are symmetric: the difference is zero whatever the tables.
    assert_eq!(evaluator.evaluate(&board), Eval(0));
    let _ = (Color::White, Piece::Pawn);
}

#[test]
fn rook_on_open_file_bonus() {
    // Endgame-only phase; the only asymmetry is White's rook on an open
    // file: rook pst + rook mobility + open-file bonus, against nothing.
    // The rook itself shifts the phase, so put the bonus in both phases:
    // the interpolation then returns it exactly.
    let mut endgame = constant_terms(0);
    endgame.rook_on_open_file = 13;
    let mut midgame = constant_terms(0);
    midgame.rook_on_open_file = 13;
    let evaluator = Evaluator { midgame, endgame };
    let board: cozy_chess::Board = "4k3/8/8/8/8/8/8/R3K3 w - - 0 1".parse().unwrap();
    assert_eq!(evaluator.evaluate(&board), Eval(13));
    // A pawn of ours on the file downgrades it to nothing; an enemy pawn
    // alone makes it half-open.
    let mut semi = constant_terms(0);
    semi.rook_on_semiopen_file = 4;
    let mut semi_mid = constant_terms(0);
    semi_mid.rook_on_semiopen_file = 4;
    let evaluator2 = Evaluator { midgame: semi_mid, endgame: semi };
    let blocked: cozy_chess::Board = "4k3/p7/8/8/8/8/8/R3K3 w - - 0 1".parse().unwrap();
    assert_eq!(evaluator2.evaluate(&board), Eval(0));
    assert_eq!(evaluator2.evaluate(&blocked), Eval(4));
}

#[test]
fn bishop_pair_bonus() {
    let mut endgame = constant_terms(0);
    endgame.bishop_pair = 21;
    let mut midgame = constant_terms(0);
    midgame.bishop_pair = 21;
    let evaluator = Evaluator { midgame, endgame };
    let pair: cozy_chess::Board = "4k3/8/8/8/8/8/8/2BBK3 w - - 0 1".parse().unwrap();
    assert_eq!(evaluator.evaluate(&pair), Eval(21));
    let single: cozy_chess::Board = "4k3/8/8/8/8/8/8/2B1K3 w - - 0 1".parse().unwrap();
    assert_eq!(evaluator.evaluate(&single), Eval(0));
}

#[test]
fn passed_pawn_detection() {
    let mut endgame = constant_terms(0);
    endgame.passed_pawns = KingRelativePst { table: vec![9; 64] };
    let evaluator = Evaluator { midgame: constant_terms(0), endgame };
    // Black's d-pawn has nothing ahead of it on the c, d or e files: it
    // is passed, and White has no pawn at all.
    let board: cozy_chess::Board = "4k3/8/8/3p4/8/8/8/4K3 w - - 0 1".parse().unwrap();
    assert_eq!(evaluator.evaluate(&board), Eval(-9));
    // Put a white pawn on e2: the e-file span of d5's attack on e4 now
    // holds a blocker, so the pawn is no longer passed.
    let blocked: cozy_chess::Board = "4k3/8/8/3p4/8/8/4P3/4K3 w - - 0 1".parse().unwrap();
    assert_eq!(evaluator.evaluate(&blocked), Eval(0));
}
