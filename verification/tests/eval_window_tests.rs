use tantabus::eval::{Eval, EvalKind, MATE_IN_MAX_VALUE, MATE_IN_ZERO_VALUE};
use tantabus::window::Window;

#[test]
fn eval_bytes_round_trip_all_values() {
    for raw in i16::MIN..=i16::MAX {
        let e = Eval(raw);
        let bytes = e.to_bytes();
        assert_eq!(Eval::from_bytes(bytes), e);
        if raw == i16::MAX {
            break;
        }
    }
}

#[test]
fn eval_bytes_are_little_endian() {
    assert_eq!(Eval(0x1234).to_bytes(), [0x34, 0x12]);
    assert_eq!(Eval(-2).to_bytes(), [0xfe, 0xff]);
}

#[test]
fn eval_negation_involutive() {
    for raw in (i16::MIN + 1)..=i16::MAX {
        let e = Eval(raw);
        assert_eq!(e.neg().neg(), e);
        if raw == i16::MAX {
            break;
        }
    }
}

#[test]
fn eval_negation_mirrors_kind() {
    assert_eq!(Eval::mate_in(4).neg().kind(), EvalKind::MatedIn(4));
    assert_eq!(Eval::mated_in(9).neg().kind(), EvalKind::MateIn(9));
    assert_eq!(Eval::cp(-250).neg().kind(), EvalKind::Centipawn(250));
}

#[test]
fn eval_ordering_mates() {
    for p in 0..255u8 {
        for q in (p + 1)..=255u8 {
            assert!(Eval::mate_in(p).0 > Eval::mate_in(q).0);
            assert!(Eval::mated_in(p).0 < Eval::mated_in(q).0);
            if q == 255 {
                break;
            }
        }
    }
    assert!(Eval::mate_in(255).0 > Eval::cp(20000).0);
    assert!(Eval::cp(-20000).0 > Eval::mated_in(255).0);
}

#[test]
fn eval_kind_boundaries() {
    assert_eq!(Eval(MATE_IN_ZERO_VALUE).kind(), EvalKind::MateIn(0));
    assert_eq!(Eval(MATE_IN_MAX_VALUE).kind(), EvalKind::MateIn(255));
    assert_eq!(Eval(MATE_IN_MAX_VALUE - 1).kind(), EvalKind::Centipawn(MATE_IN_MAX_VALUE - 1));
    assert_eq!(Eval(-MATE_IN_ZERO_VALUE).kind(), EvalKind::MatedIn(0));
    assert_eq!(Eval(-MATE_IN_MAX_VALUE).kind(), EvalKind::MatedIn(255));
    assert_eq!(Eval(0).kind(), EvalKind::Centipawn(0));
}

#[test]
fn eval_as_cp() {
    assert_eq!(Eval::cp(123).as_cp(), Some(123));
    assert_eq!(Eval::mate_in(3).as_cp(), None);
    assert_eq!(Eval::mated_in(3).as_cp(), None);
}

#[test]
fn eval_saturating_sub_avoids_unrepresentable_minimum() {
    let lowest = Eval::min_eval();
    let r = lowest.saturating_sub(Eval::cp(100));
    assert_eq!(r.0, i16::MIN + 1);
    assert_eq!(r, r.neg().neg());
    assert_eq!(Eval::cp(100).saturating_sub(Eval::cp(30)).0, 70);
}

#[test]
fn eval_saturating_add_clamps() {
    assert_eq!(Eval::max_eval().saturating_add(Eval::cp(5)).0, i16::MAX);
    assert_eq!(Eval::cp(-30000).saturating_add(Eval::cp(-30000)).0, i16::MIN);
    assert_eq!(Eval::cp(3).saturating_add(Eval::cp(4)).0, 7);
    assert_eq!(Eval::cp(300).saturating_mul(Eval::cp(200)).0, i16::MAX);
}

#[test]
fn window_negation_involutive() {
    let samples = [
        (-100i16, 100i16),
        (0, 1),
        (-32767, 32767),
        (5, 700),
        (-700, -5),
    ];
    for &(a, b) in samples.iter() {
        let w = Window { alpha: Eval(a), beta: Eval(b) };
        assert_eq!(w.neg().neg(), w);
    }
}

#[test]
fn window_contains_symmetry() {
    let w = Window { alpha: Eval(-50), beta: Eval(120) };
    for v in -200i16..200 {
        assert_eq!(w.contains(Eval(v)), w.neg().contains(Eval(-v)));
    }
    assert!(w.contains(Eval(0)));
    assert!(!w.contains(Eval(-50)));
    assert!(!w.contains(Eval(120)));
}

#[test]
fn window_narrowing_and_empty() {
    let mut w = Window { alpha: Eval(-10), beta: Eval(10) };
    w.narrow_alpha(Eval(-20));
    assert_eq!(w.alpha.0, -10);
    w.narrow_alpha(Eval(5));
    assert_eq!(w.alpha.0, 5);
    w.narrow_beta(Eval(7));
    assert_eq!(w.beta.0, 7);
    assert!(!w.empty());
    w.narrow_alpha(Eval(7));
    assert!(w.empty());
}

#[test]
fn window_null_windows_and_around() {
    let w = Window { alpha: Eval(10), beta: Eval(90) };
    let na = w.null_window_alpha();
    assert_eq!((na.alpha.0, na.beta.0), (10, 11));
    let nb = w.null_window_beta();
    assert_eq!((nb.alpha.0, nb.beta.0), (89, 90));
    let ar = Window::around(Eval(40), Eval(75));
    assert_eq!((ar.alpha.0, ar.beta.0), (-35, 115));
    let inf = Window::infinity();
    assert_eq!((inf.alpha.0, inf.beta.0), (-i16::MAX, i16::MAX));
}
