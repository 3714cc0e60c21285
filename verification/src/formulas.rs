//! Fixed-coefficient pruning and reduction formulas: the untuned
//! counterparts of the knobs in [`crate::params`].

use vstd::prelude::*;

use crate::eval::Eval;
use crate::window::Window;

verus! {

/// Depth gate below which late-move reductions are never applied.
pub const LMR_MIN_DEPTH: u8 = 3;

/// Null-move reduction: a base of 3 plies, plus up to 2 more when the static
/// evaluation exceeds beta by whole pawns (both taken as centipawn scores).
pub fn nmp_calculate_reduction(static_eval: Eval, window: Window) -> (r: u8)
    ensures
        r as int == 3 + (
            match (Eval::spec_as_cp(static_eval.0), Eval::spec_as_cp(window.beta.0)) {
                (Some(eval), Some(beta)) => if eval >= beta {
                    if (eval - beta) / 100 < 2 {
                        (eval - beta) / 100
                    } else {
                        2
                    }
                } else {
                    0
                },
                _ => 0,
            }
        ),
{
    let mut reduction: u8 = 3;
    if let (Some(eval), Some(beta)) = (static_eval.as_cp(), window.beta.as_cp()) {
        if eval >= beta {
            let gap: u32 = (eval as i32 - beta as i32) as u32 / 100;
            let bonus: u32 = if gap < 2 {
                gap
            } else {
                2
            };
            assert((eval - beta) as int / 100 == gap as int || gap >= 2);
            reduction = reduction + bonus as u8;
        }
    }
    reduction
}

/// Late-move reduction by move index and depth alone: none for the first two
/// moves, one ply at shallow depth, two plies from depth 7 on.
pub fn lmr_calculate_reduction(i: usize, depth: u8) -> (r: u8)
    ensures
        r == if i < 2 {
            0u8
        } else if depth < 7 {
            1u8
        } else {
            2u8
        },
{
    if i < 2 {
        0
    } else if depth < 7 {
        1
    } else {
        2
    }
}

/// Futility margin: 300 centipawns at depth 1, 600 at depth 2, nothing
/// deeper.
pub fn futility_margin(depth: u8) -> (r: Option<Eval>)
    ensures
        r == if depth == 1 {
            Some(Eval(300i16))
        } else if depth == 2 {
            Some(Eval(600i16))
        } else {
            None::<Eval>
        },
{
    match depth {
        1 => Some(Eval::cp(300)),
        2 => Some(Eval::cp(600)),
        _ => None,
    }
}

/// Reverse-futility margin: 100 centipawns per ply of depth, up to depth 4.
pub fn reverse_futility_margin(depth: u8) -> (r: Option<Eval>)
    ensures
        r == if depth < 5 {
            Some(Eval((100 * depth) as i16))
        } else {
            None::<Eval>
        },
{
    if depth < 5 {
        Some(Eval::cp(100 * depth as i16))
    } else {
        None
    }
}

} // verus!
