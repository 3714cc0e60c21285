use tantabus::cache::{
    decode_cache_data, encode_cache_data, CacheData, CacheDataKind, CacheTable, CacheTableError,
};
use tantabus::chess::{ChessMove, Piece};
use tantabus::eval::{Eval, EvalKind};

fn sample_entry() -> CacheData {
    CacheData {
        kind: CacheDataKind::LowerBound,
        eval: Eval::cp(137),
        depth: 9,
        best_move: ChessMove { from: 12, to: 28, promotion: None },
        age: 0,
    }
}

#[test]
fn cache_word_round_trip() {
    let samples = [
        sample_entry(),
        CacheData {
            kind: CacheDataKind::Exact,
            eval: Eval::mate_in(3),
            depth: 0,
            best_move: ChessMove { from: 63, to: 0, promotion: Some(Piece::Queen) },
            age: 0,
        },
        CacheData {
            kind: CacheDataKind::UpperBound,
            eval: Eval::mated_in(255),
            depth: 255,
            best_move: ChessMove { from: 7, to: 56, promotion: Some(Piece::Knight) },
            age: 0,
        },
        CacheData {
            kind: CacheDataKind::Exact,
            eval: Eval::cp(-1),
            depth: 31,
            best_move: ChessMove { from: 33, to: 44, promotion: None },
            age: 77,
        },
    ];
    for d in samples.iter() {
        let w = encode_cache_data(d);
        assert_eq!(decode_cache_data(w), Some(*d));
    }
}

#[test]
fn cache_word_rejects_torn_kinds_and_squares() {
    let w = encode_cache_data(&sample_entry());
    let bad_kind = (w & !0xff) | 3;
    assert_eq!(decode_cache_data(bad_kind), None);
    let bad_from = (w & !(0xff << 32)) | (64u64 << 32);
    assert_eq!(decode_cache_data(bad_from), None);
}

#[test]
fn cache_sizing() {
    assert!(matches!(
        CacheTable::new_with_size(15),
        Err(CacheTableError::NotEnoughMemory)
    ));
    let t = CacheTable::new_with_size(16 * 10).unwrap();
    assert_eq!(t.capacity(), 10);
    let t2 = CacheTable::new_with_entries(3);
    assert_eq!(t2.capacity(), 3);
}

#[test]
fn cache_set_then_get_round_trips() {
    let board = cozy_chess::Board::default();
    let t = CacheTable::new_with_size(1 << 16).unwrap();
    assert_eq!(t.get(&board, 0), None);
    let entry = sample_entry();
    t.set(&board, 0, entry);
    let got = t.get(&board, 0).expect("entry should be present");
    assert_eq!(got, entry);
}

#[test]
fn cache_mate_scores_shift_with_ply() {
    let board = cozy_chess::Board::default();
    let t = CacheTable::new_with_size(1 << 16).unwrap();
    let entry = CacheData {
        kind: CacheDataKind::Exact,
        eval: Eval::mate_in(7),
        depth: 4,
        best_move: ChessMove { from: 0, to: 56, promotion: None },
        age: 0,
    };
    // Stored at ply 2: the distance becomes entry-relative (5), and a reader
    // at ply 3 sees it 3 further from its root (8).
    t.set(&board, 2, entry);
    let got = t.get(&board, 3).unwrap();
    assert_eq!(got.eval.kind(), EvalKind::MateIn(8));
    // A remapped distance that no longer fits the byte collapses to a large
    // centipawn value.
    let deep = CacheData {
        kind: CacheDataKind::Exact,
        eval: Eval::mated_in(4),
        depth: 9,
        best_move: ChessMove { from: 1, to: 2, promotion: None },
        age: 0,
    };
    t.set(&board, 0, deep);
    let far = t.get(&board, 252).unwrap();
    // Distance 4 + 252 = 256 no longer fits the byte: the score collapses
    // to minus (20000 - 256).
    assert_eq!(far.eval.kind(), EvalKind::Centipawn(-(20000 - 256)));
}

#[test]
fn cache_replacement_prefers_depth() {
    let board = cozy_chess::Board::default();
    let t = CacheTable::new_with_size(16).unwrap();
    assert_eq!(t.capacity(), 1);
    let deep = CacheData {
        kind: CacheDataKind::Exact,
        eval: Eval::cp(10),
        depth: 9,
        best_move: ChessMove { from: 0, to: 1, promotion: None },
        age: 0,
    };
    t.set(&board, 0, deep);
    // A different position mapping to the same slot with less depth loses.
    let other: cozy_chess::Board =
        "rnbqkbnr/pppppppp/8/8/4P3/8/PPPP1PPP/RNBQKBNR b KQkq - 0 1".parse().unwrap();
    let shallow = CacheData {
        kind: CacheDataKind::Exact,
        eval: Eval::cp(-10),
        depth: 1,
        best_move: ChessMove { from: 2, to: 3, promotion: None },
        age: 0,
    };
    t.set(&other, 0, shallow);
    // Whatever happened, the same-position rule means rewriting the first
    // position always lands.
    let again = CacheData { depth: 0, ..deep };
    t.set(&board, 0, again);
    assert_eq!(t.get(&board, 0), Some(again));
}

#[test]
fn cache_replacement_ages_out() {
    let board = cozy_chess::Board::default();
    let other: cozy_chess::Board =
        "rnbqkbnr/pppppppp/8/8/4P3/8/PPPP1PPP/RNBQKBNR b KQkq - 0 1".parse().unwrap();
    let mut t = CacheTable::new_with_size(16).unwrap();
    let deep = CacheData {
        kind: CacheDataKind::Exact,
        eval: Eval::cp(10),
        depth: 9,
        best_move: ChessMove { from: 0, to: 1, promotion: None },
        age: 0,
    };
    t.set(&board, 0, deep);
    // Fresh entries resist shallow strangers, but two generations later the
    // stored age byte marks them stale and anything replaces them.
    t.age_by(2);
    let shallow = CacheData {
        kind: CacheDataKind::Exact,
        eval: Eval::cp(-10),
        depth: 1,
        best_move: ChessMove { from: 2, to: 3, promotion: None },
        age: 0,
    };
    t.set(&other, 0, shallow);
    let got = t.get(&other, 0).expect("stale entry should have been replaced");
    assert_eq!(got.eval, shallow.eval);
    assert_eq!(got.age, 2);
}

#[test]
fn cache_clear_and_fill_sample() {
    let board = cozy_chess::Board::default();
    let mut t = CacheTable::new_with_size(16 * 100).unwrap();
    assert_eq!(t.approx_size_permill(), 0);
    t.set(&board, 0, sample_entry());
    assert!(t.approx_size_permill() >= 1);
    t.clear();
    assert_eq!(t.approx_size_permill(), 0);
    assert_eq!(t.get(&board, 0), None);
    t.age_by(3);
    t.age_by(254);
    // wrap-around is allowed
}
