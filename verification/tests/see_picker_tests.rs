use tantabus::chess::{ChessMove, Piece};
use tantabus::history::HistoryTable;
use tantabus::picker::{KillerEntry, MoveList, QSearchMoveList};
use tantabus::see::{static_exchange_evaluation, static_exchange_evaluation_at_least};

fn sq(name: &str) -> u8 {
    let bytes = name.as_bytes();
    (bytes[0] - b'a') + 8 * (bytes[1] - b'1')
}

fn mv(from: &str, to: &str) -> ChessMove {
    ChessMove { from: sq(from), to: sq(to), promotion: None }
}

#[test]
fn see_knight_takes_defended_pawn() {
    let board: cozy_chess::Board =
        "1k1r3q/1ppn3p/p4b2/4p3/8/P2N2P1/1PP1R1BP/2K1Q3 w - - 0 1".parse().unwrap();
    let capture = mv("d3", "e5");
    let see = static_exchange_evaluation(&board, capture);
    // Explicit stack: Nxe5 wins the pawn (100), ...Nxe5 answers (the
    // knight for 320), and White declines the continuation (Rxe5 Bxe5
    // Qxe5 Qxe5 only loses more, the h8 queen seeing e5 once the f6
    // bishop is gone). Net: 100 - 320 = -220.
    assert_eq!(see.0, 100 - 320);
}

#[test]
fn see_free_pawn_grab() {
    // A rook takes an undefended pawn.
    let board: cozy_chess::Board = "7k/8/8/3p4/8/8/3R4/K7 w - - 0 1".parse().unwrap();
    let see = static_exchange_evaluation(&board, mv("d2", "d5"));
    assert_eq!(see.0, 100);
}

#[test]
fn see_losing_rook_for_pawn() {
    // The pawn is defended by another pawn: rook takes pawn, pawn takes rook.
    let board: cozy_chess::Board = "7k/4p3/3p4/8/8/3R4/8/K7 w - - 0 1".parse().unwrap();
    let see = static_exchange_evaluation(&board, mv("d3", "d6"));
    assert_eq!(see.0, 100 - 500);
}

#[test]
fn see_king_capture_on_defended_square_is_retracted() {
    // Pawn takes rook, pawn recaptures, the king recaptures -- but a knight
    // still defends, so the king's capture is forbidden and its gain is
    // popped: 500 - 100 = 400.
    let board: cozy_chess::Board = "7k/8/4pn2/3r4/2PK4/8/8/8 w - - 0 1".parse().unwrap();
    let see = static_exchange_evaluation(&board, mv("c4", "d5"));
    assert_eq!(see.0, 500 - 100);
}

#[test]
fn see_pawn_attacks_pair_with_color() {
    // Pawn attacks pair direction with color: the black e4 pawn sits on an
    // attack square of d5 but attacks d3 and f3, not d5, and the white c6
    // pawn attacks b7 and d7. Neither may enter the exchange, so Rxd5 wins
    // the pawn outright.
    let board: cozy_chess::Board = "7k/8/2P5/3p4/4p3/8/3R4/K7 w - - 0 1".parse().unwrap();
    let see = static_exchange_evaluation(&board, mv("d2", "d5"));
    assert_eq!(see.0, 100);
}

#[test]
fn see_threshold_agrees_with_value() {
    let board: cozy_chess::Board =
        "1k1r3q/1ppn3p/p4b2/4p3/8/P2N2P1/1PP1R1BP/2K1Q3 w - - 0 1".parse().unwrap();
    let capture = mv("d3", "e5");
    let value = static_exchange_evaluation(&board, capture).0;
    for t in [-900i16, -500, -100, -1, 0, 1, 99, 100, 101, 500, 900] {
        assert_eq!(
            static_exchange_evaluation_at_least(&board, capture, t),
            value >= t,
            "threshold {}",
            t
        );
    }
}

#[test]
fn picker_yields_every_legal_move_once() {
    let board = cozy_chess::Board::default();
    let history = HistoryTable::new();
    let mut picker = MoveList::new(&board, None, KillerEntry::new());
    let mut seen: Vec<ChessMove> = Vec::new();
    while let Some((i, (m, _score))) = picker.pick(&history) {
        assert_eq!(i, seen.len());
        assert!(!seen.contains(&m), "move yielded twice");
        seen.push(m);
    }
    assert_eq!(seen.len(), 20);
}

#[test]
fn picker_yields_cached_move_first() {
    let board = cozy_chess::Board::default();
    let history = HistoryTable::new();
    let pv = mv("e2", "e4");
    let mut picker = MoveList::new(&board, Some(pv), KillerEntry::new());
    let first = picker.pick(&history).unwrap();
    assert_eq!(first.1 .0, pv);
    let mut seen = vec![first.1 .0];
    while let Some((_, (m, _))) = picker.pick(&history) {
        assert!(!seen.contains(&m));
        seen.push(m);
    }
    assert_eq!(seen.len(), 20);
}

#[test]
fn picker_ignores_illegal_cached_move() {
    let board = cozy_chess::Board::default();
    let history = HistoryTable::new();
    let bogus = mv("e2", "e5");
    let mut picker = MoveList::new(&board, Some(bogus), KillerEntry::new());
    let mut count = 0;
    while let Some((_, (m, _))) = picker.pick(&history) {
        assert_ne!(m, bogus);
        count += 1;
    }
    assert_eq!(count, 20);
}

#[test]
fn qsearch_picker_keeps_winning_capture() {
    let board: cozy_chess::Board = "7k/8/8/3p4/8/8/3R4/K7 w - - 0 1".parse().unwrap();
    let history = HistoryTable::new();
    let mut picker = QSearchMoveList::new(&board, &history);
    let mut yielded: Vec<ChessMove> = Vec::new();
    while let Some((_, (m, _))) = picker.pick() {
        yielded.push(m);
    }
    assert_eq!(yielded, vec![mv("d2", "d5")]);
}

#[test]
fn qsearch_picker_drops_losing_capture() {
    // The d6 pawn is defended by the e7 pawn: taking it loses the exchange.
    let board: cozy_chess::Board = "7k/4p3/3p4/8/8/3R4/8/K7 w - - 0 1".parse().unwrap();
    let history = HistoryTable::new();
    let mut picker = QSearchMoveList::new(&board, &history);
    assert!(picker.pick().is_none());
}

#[test]
fn qsearch_picker_quiet_position_yields_nothing() {
    let board = cozy_chess::Board::default();
    let history = HistoryTable::new();
    let mut picker = QSearchMoveList::new(&board, &history);
    assert!(picker.pick().is_none());
}

#[test]
fn killer_ring_keeps_last_two() {
    let mut ring = KillerEntry::new();
    let a = mv("a2", "a3");
    let b = mv("b2", "b3");
    let c = mv("c2", "c3");
    ring.push_ring(a);
    ring.push_ring(b);
    assert!(ring.contains(a) && ring.contains(b));
    ring.push_ring(c);
    assert!(!ring.contains(a));
    assert!(ring.contains(b) && ring.contains(c));
}
