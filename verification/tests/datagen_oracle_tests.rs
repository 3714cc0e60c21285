use tantabus::chess::{BoardStatus, ChessMove, Color, Piece};
use tantabus::datagen::{
    decode_analyzed_game, encode_analyzed_game, encode_marlinformat, pack_move, square_index,
    unpack_move, AnalyzedGame, ChessGame,
};
use tantabus::eval::Eval;
use tantabus::oracle::oracle;

fn sq(name: &str) -> u8 {
    let bytes = name.as_bytes();
    (bytes[0] - b'a') + 8 * (bytes[1] - b'1')
}

fn mv(from: &str, to: &str) -> ChessMove {
    ChessMove { from: sq(from), to: sq(to), promotion: None }
}

#[test]
fn move_packing_round_trip() {
    let moves = [
        mv("a1", "h8"),
        mv("e2", "e4"),
        ChessMove { from: sq("a7"), to: sq("a8"), promotion: Some(Piece::Queen) },
        ChessMove { from: sq("h2"), to: sq("g1"), promotion: Some(Piece::Knight) },
    ];
    for m in moves.iter() {
        assert_eq!(unpack_move(pack_move(*m)), *m);
    }
    assert_eq!(pack_move(mv("a1", "a1")), 15);
    // from=4 (e1), to=0 (a1), no promotion
    assert_eq!(pack_move(mv("e1", "a1")), 4 * 1024 + 15);
}

#[test]
fn analyzed_game_record_round_trip() {
    let game = AnalyzedGame {
        opening_moves: 2,
        moves: vec![mv("e2", "e4"), mv("e7", "e5"), mv("g1", "f3"), mv("b8", "c6")],
        evals: vec![Eval::cp(25), Eval::cp(-13)],
        winner: Some(Color::Black),
    };
    let bytes = encode_analyzed_game(&game);
    assert_eq!(bytes.len(), 4 + 2 * 4 + 2 * 2);
    assert_eq!(bytes[0], 2);
    assert_eq!(bytes[1], 4);
    assert_eq!(bytes[2], 0);
    assert_eq!(*bytes.last().unwrap(), 1);
    let (decoded, used) = decode_analyzed_game(&bytes, 0).unwrap().unwrap();
    assert_eq!(used, bytes.len());
    assert_eq!(decoded.opening_moves, game.opening_moves);
    assert_eq!(decoded.moves, game.moves);
    assert_eq!(decoded.evals, game.evals);
    assert_eq!(decoded.winner, game.winner);
}

#[test]
fn analyzed_game_stream_end_and_truncation() {
    let empty: Vec<u8> = Vec::new();
    assert_eq!(decode_analyzed_game(&empty, 0), Ok(None));
    let game = AnalyzedGame {
        opening_moves: 0,
        moves: vec![mv("e2", "e4")],
        evals: vec![Eval::cp(7)],
        winner: None,
    };
    let bytes = encode_analyzed_game(&game);
    let truncated: Vec<u8> = bytes[..bytes.len() - 2].to_vec();
    assert_eq!(decode_analyzed_game(&truncated, 0), Err(()));
}

#[test]
fn marlinformat_startpos_record() {
    let board = cozy_chess::Board::default();
    let record = encode_marlinformat(&board, 33, Some(Color::White));
    assert_eq!(record.len(), 32);
    // Occupied bitboard of the starting position, little-endian.
    assert_eq!(&record[0..8], &[0xff, 0xff, 0, 0, 0, 0, 0xff, 0xff]);
    // First nibble pair: the a1 rook still has its castle right (6), the b1
    // knight is 1.
    assert_eq!(record[8], 0x16);
    // White to move, no en-passant square: 64.
    assert_eq!(record[24], 64);
    assert_eq!(record[25], 0);
    assert_eq!(&record[26..28], &[1, 0]);
    assert_eq!(&record[28..30], &[33, 0]);
    assert_eq!(record[30], 2);
    assert_eq!(record[31], 0);
}

#[test]
fn square_index_counts_lower_squares() {
    let board = cozy_chess::Board::default();
    let occupied = 0xffff00000000ffffu64;
    assert_eq!(square_index(occupied, sq("a1")), 0);
    assert_eq!(square_index(occupied, sq("h1")), 7);
    assert_eq!(square_index(occupied, sq("a7")), 16);
    let _ = board;
}

#[test]
fn chess_game_threefold_is_drawn() {
    let mut game = ChessGame::new();
    let shuffle = [
        mv("g1", "f3"),
        mv("g8", "f6"),
        mv("f3", "g1"),
        mv("f6", "g8"),
        mv("g1", "f3"),
        mv("g8", "f6"),
        mv("f3", "g1"),
        mv("f6", "g8"),
    ];
    for m in shuffle.iter() {
        assert_eq!(game.game_status(), BoardStatus::Ongoing);
        game.play_unchecked(*m);
    }
    assert_eq!(game.game_status(), BoardStatus::Drawn);
    assert_eq!(game.moves().len(), 8);
}

#[test]
fn oracle_knows_bare_material_draws() {
    let kvk: cozy_chess::Board = "8/8/8/3k4/8/3K4/8/8 w - - 0 1".parse().unwrap();
    assert_eq!(oracle(&kvk), Some(Eval(0)));
    let knvk: cozy_chess::Board = "8/8/8/3k4/8/3KN3/8/8 b - - 0 1".parse().unwrap();
    assert_eq!(oracle(&knvk), Some(Eval(0)));
    let kbvk: cozy_chess::Board = "8/8/8/3k4/8/3KB3/8/8 w - - 0 1".parse().unwrap();
    assert_eq!(oracle(&kbvk), Some(Eval(0)));
    // Opposite-colored bishops: c1 is dark, f1 is light... use b5 (light)
    // against a dark-squared one on c5.
    let opposite: cozy_chess::Board = "8/8/8/1Bbk4/8/3K4/8/8 w - - 0 1".parse().unwrap();
    assert_eq!(oracle(&opposite), Some(Eval(0)));
}

#[test]
fn oracle_stays_out_of_live_positions() {
    let start = cozy_chess::Board::default();
    assert_eq!(oracle(&start), None);
    let krvk: cozy_chess::Board = "8/8/8/3k4/8/3KR3/8/8 w - - 0 1".parse().unwrap();
    assert_eq!(oracle(&krvk), None);
    let same_color_bishops: cozy_chess::Board = "8/8/8/2bk4/8/2BK4/8/8 w - - 0 1".parse().unwrap();
    assert_eq!(oracle(&same_color_bishops), None);
    let two_knights: cozy_chess::Board = "8/8/8/3k4/8/8/3K4/1N4N1 w - - 0 1".parse().unwrap();
    assert_eq!(oracle(&two_knights), None);
}

#[test]
fn generated_game_encodes_and_decodes() {
    let mut rows = Vec::new();
    for depth in 0..64usize {
        let mut row = Vec::new();
        for index in 0..64usize {
            let v = 0.007f32 + (depth as f32).ln() * (index as f32).ln() / 2.792f32;
            row.push(v as u8);
        }
        rows.push(row);
    }
    let params = tantabus::params::SearchParamHandler::new(
        tantabus::params::SearchParams::default(),
        tantabus::params::Lut2d::new(rows),
    );
    let model = tantabus::nnue::Nnue {
        ft: tantabus::nnue::BitLinear {
            weights: vec![vec![0i16; 4]; 768],
            biases: vec![0i16; 4],
        },
        l1: tantabus::nnue::Linear { weights: vec![vec![0i8; 8]], biases: vec![0i32] },
    };
    let config = tantabus::datagen::GameGenConfig {
        cache_size: 1 << 16,
        opening_moves: 2,
        min_nodes: 0,
        min_depth: 2,
    };
    let game = tantabus::datagen::gen_game(&config, params, &model);
    assert!(game.moves.len() as usize >= game.opening_moves as usize);
    assert_eq!(
        game.evals.len(),
        game.moves.len() - game.opening_moves as usize
    );
    let bytes = encode_analyzed_game(&game);
    let (decoded, used) = decode_analyzed_game(&bytes, 0).unwrap().unwrap();
    assert_eq!(used, bytes.len());
    assert_eq!(decoded, game);
}
