use tantabus::chess::{ChessMove, Color, Piece};
use tantabus::nnue::{feature, BitLinear, Linear, Nnue};
use tantabus::position::Position;

fn sq(name: &str) -> u8 {
    let bytes = name.as_bytes();
    (bytes[0] - b'a') + 8 * (bytes[1] - b'1')
}

fn mv(from: &str, to: &str) -> ChessMove {
    ChessMove { from: sq(from), to: sq(to), promotion: None }
}

fn promo(from: &str, to: &str, p: Piece) -> ChessMove {
    ChessMove { from: sq(from), to: sq(to), promotion: Some(p) }
}

/// A deterministic pseudo-random model so incremental errors cannot hide.
fn noisy_model() -> Nnue {
    let h = 8usize;
    let mut state: u64 = 0x9e3779b97f4a7c15;
    let mut next = move || {
        state = state.wrapping_mul(6364136223846793005).wrapping_add(1442695040888963407);
        (state >> 33) as i64
    };
    let mut ft_weights = Vec::new();
    for _ in 0..768 {
        let mut row = Vec::new();
        for _ in 0..h {
            row.push((next() % 61 - 30) as i16);
        }
        ft_weights.push(row);
    }
    let mut ft_biases = Vec::new();
    for _ in 0..h {
        ft_biases.push((next() % 101 - 50) as i16);
    }
    let mut l1_row = Vec::new();
    for _ in 0..2 * h {
        l1_row.push((next() % 11 - 5) as i8);
    }
    Nnue {
        ft: BitLinear { weights: ft_weights, biases: ft_biases },
        l1: Linear { weights: vec![l1_row], biases: vec![(next() % 1001 - 500) as i32] },
    }
}

#[test]
fn feature_indices() {
    // White's own pawn on a2 from the white perspective.
    assert_eq!(feature(Color::White, Color::White, Piece::Pawn, sq("a2")), 8);
    // The black perspective mirrors the rank and swaps the color: the same
    // pawn appears as an enemy pawn on a7.
    assert_eq!(
        feature(Color::Black, Color::White, Piece::Pawn, sq("a2")),
        (6 + 0) * 64 + sq("a7") as usize
    );
    assert_eq!(
        feature(Color::White, Color::Black, Piece::King, sq("e8")),
        (6 + 5) * 64 + sq("e8") as usize
    );
}

#[test]
fn incremental_updates_match_rebuild() {
    let model = noisy_model();
    let board = cozy_chess::Board::default();
    let mut pos = Position::new(&model, board);
    // A line touching a capture, castling, en passant and a promotion.
    let line = [
        mv("e2", "e4"),
        mv("g8", "f6"),
        mv("e4", "e5"),
        mv("d7", "d5"),
        mv("e5", "d6"), // en passant
        mv("f6", "d5"),
        mv("g1", "f3"),
        mv("e7", "e6"),
        mv("f1", "e2"),
        mv("f8", "b4"),
        mv("e1", "h1"), // castling, encoded king-takes-rook
        mv("d5", "c3"),
        mv("d6", "c7"),
        mv("c3", "e2"),
        promo("c7", "b8", Piece::Queen),
    ];
    for m in line.iter() {
        pos = pos.play_unchecked(&model, *m);
        let rebuilt = Position::new(&model, pos.board().clone());
        assert_eq!(
            pos.state.white, rebuilt.state.white,
            "white accumulator diverged"
        );
        assert_eq!(
            pos.state.black, rebuilt.state.black,
            "black accumulator diverged"
        );
    }
}

#[test]
fn null_move_keeps_accumulators() {
    let model = noisy_model();
    let pos = Position::new(&model, cozy_chess::Board::default());
    let child = pos.null_move().expect("not in check");
    assert_eq!(child.state.white, pos.state.white);
    assert_eq!(child.state.black, pos.state.black);
    let evaluation_flips: i32 = 0;
    let _ = evaluation_flips;
}

#[test]
fn null_move_refused_in_check() {
    let model = noisy_model();
    let board: cozy_chess::Board = "4k3/8/8/8/8/8/4r3/4K3 w - - 0 1".parse().unwrap();
    let pos = Position::new(&model, board);
    assert!(pos.null_move().is_none());
}

#[test]
fn evaluate_is_deterministic_and_zero_for_zero_net() {
    let zero = Nnue {
        ft: BitLinear { weights: vec![vec![0i16; 4]; 768], biases: vec![0i16; 4] },
        l1: Linear { weights: vec![vec![0i8; 8]], biases: vec![0i32] },
    };
    let pos = Position::new(&zero, cozy_chess::Board::default());
    assert_eq!(pos.evaluate(&zero).0, 0);
    let model = noisy_model();
    let pos2 = Position::new(&model, cozy_chess::Board::default());
    assert_eq!(pos2.evaluate(&model), pos2.evaluate(&model));
}

#[test]
fn bitlinear_add_sub_cancel() {
    let model = noisy_model();
    let mut acc = model.ft.empty();
    let before = acc.clone();
    model.ft.add(100, &mut acc);
    assert_ne!(acc, before);
    model.ft.sub(100, &mut acc);
    assert_eq!(acc, before);
}

#[test]
fn linear_activation_is_bias_plus_dot() {
    let layer = Linear { weights: vec![vec![2i8, -3i8]], biases: vec![7i32] };
    let out = layer.activate(&vec![10u8, 4u8]);
    assert_eq!(out, vec![7 + 2 * 10 - 3 * 4]);
}
