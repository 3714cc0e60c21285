//! Tunable search parameters and the handler that turns them into concrete
//! reductions and margins. The late-move-reduction table is logarithmic in
//! depth and move index; its entries are computed by the caller (they need
//! floating point) and handed in as plain numbers.

use vstd::prelude::*;

use crate::eval::Eval;
use crate::window::Window;

verus! {

/// Integer division that truncates toward zero, as the executable `/` does.
pub open spec fn div_trunc(a: int, b: int) -> int {
    if a >= 0 {
        a / b
    } else {
        -((-a) / b)
    }
}

/// Late-move-reduction knobs. The fractional base and divisor are carried in
/// thousandths, as the tuning interface exposes them.
#[derive(Debug, Clone, Copy, PartialEq, Eq, Structural)]
pub struct LmrParams {
    pub min_depth: u8,
    pub base_reduction_milli: i32,
    pub div_milli: i32,
    pub history_reduction_div: i32,
}

/// Null-move-pruning knobs.
#[derive(Debug, Clone, Copy, PartialEq, Eq, Structural)]
pub struct NmpParams {
    pub base_reduction: u8,
    pub bonus_reduction: u8,
    pub bonus_reduction_depth: u8,
    pub margin_div: i32,
    pub margin_max_reduction: u8,
}

/// Late-move-pruning caps: how many quiets to search per node at low depth.
#[derive(Debug, Clone, Copy)]
pub struct LmpParams {
    pub quiets_to_check: [usize; 3],
}

/// Futility-pruning margins for depths 1 and 2.
#[derive(Debug, Clone, Copy)]
pub struct FpParams {
    pub margins: [i16; 2],
}

/// Reverse-futility-pruning knobs.
#[derive(Debug, Clone, Copy, PartialEq, Eq, Structural)]
pub struct RfpParams {
    pub base_margin: i16,
    pub max_depth: u8,
}

/// The flat record of every tunable constant.
#[derive(Debug, Clone, Copy)]
pub struct SearchParams {
    pub lmr: LmrParams,
    pub nmp: NmpParams,
    pub lmp: LmpParams,
    pub fp: FpParams,
    pub rfp: RfpParams,
}

impl Default for SearchParams {
    /// The tuned defaults.
    fn default() -> (r: Self)
        ensures
            r.lmr == (LmrParams {
                min_depth: 3u8,
                base_reduction_milli: 7i32,
                div_milli: 2792i32,
                history_reduction_div: 210i32,
            }),
            r.nmp == (NmpParams {
                base_reduction: 3u8,
                bonus_reduction: 1u8,
                bonus_reduction_depth: 7u8,
                margin_div: 90i32,
                margin_max_reduction: 2u8,
            }),
            r.lmp.quiets_to_check[0] == 7 && r.lmp.quiets_to_check[1] == 8
                && r.lmp.quiets_to_check[2] == 17,
            r.fp.margins[0] == 293 && r.fp.margins[1] == 620,
            r.rfp == (RfpParams { base_margin: 30i16, max_depth: 4u8 }),
    {
        SearchParams {
            lmr: LmrParams {
                min_depth: 3,
                base_reduction_milli: 7,
                div_milli: 2792,
                history_reduction_div: 210,
            },
            nmp: NmpParams {
                base_reduction: 3,
                bonus_reduction: 1,
                bonus_reduction_depth: 7,
                margin_div: 90,
                margin_max_reduction: 2,
            },
            lmp: LmpParams { quiets_to_check: [7, 8, 17] },
            fp: FpParams { margins: [293, 620] },
            rfp: RfpParams { base_margin: 30, max_depth: 4 },
        }
    }
}

/// A two-dimensional lookup table that clamps out-of-range indices to the
/// last row or column.
#[derive(Debug, Clone)]
pub struct Lut2d {
    pub lut: Vec<Vec<u8>>,
}

impl Lut2d {
    /// Rectangular and non-empty.
    pub open spec fn wf(self) -> bool {
        &&& self.lut.len() > 0
        &&& forall|i: int|
            0 <= i < self.lut@.len() ==> (#[trigger] self.lut@[i]).len() == self.lut@[0].len()
        &&& self.lut@[0].len() > 0
    }

    /// The entry at clamped indices.
    pub open spec fn spec_get(self, i: int, j: int) -> u8 {
        let ci = if i < self.lut@.len() {
            i
        } else {
            self.lut@.len() - 1
        };
        let cj = if j < self.lut@[0].len() {
            j
        } else {
            self.lut@[0].len() - 1
        };
        self.lut@[ci]@[cj]
    }

    /// Wrap a rectangular table of entries.
    pub fn new(entries: Vec<Vec<u8>>) -> (r: Self)
        requires
            entries.len() > 0,
            forall|i: int|
                0 <= i < entries@.len() ==> (#[trigger] entries@[i]).len() == entries@[0].len(),
            entries@[0].len() > 0,
        ensures
            r.wf(),
            r == (Lut2d { lut: entries }),
    {
        Lut2d { lut: entries }
    }

    /// An exact copy.
    pub fn duplicate(&self) -> (r: Self)
        ensures
            r.lut@.len() == self.lut@.len(),
            forall|i: int| 0 <= i < self.lut@.len() ==> (#[trigger] r.lut@[i])@ == self.lut@[i]@,
            self.wf() ==> r.wf(),
    {
        let mut rows: Vec<Vec<u8>> = Vec::new();
        let mut i: usize = 0;
        while i < self.lut.len()
            invariant
                i <= self.lut@.len(),
                rows@.len() == i,
                forall|k: int| 0 <= k < i ==> (#[trigger] rows@[k])@ == self.lut@[k]@,
            decreases self.lut@.len() - i,
        {
            let row: &Vec<u8> = &self.lut[i];
            let mut copy: Vec<u8> = Vec::new();
            let mut j: usize = 0;
            while j < row.len()
                invariant
                    j <= row@.len(),
                    copy@ =~= row@.take(j as int),
                decreases row@.len() - j,
            {
                copy.push(row[j]);
                j = j + 1;
            }
            proof {
                assert(copy@ =~= row@);
            }
            rows.push(copy);
            i = i + 1;
        }
        Lut2d { lut: rows }
    }

    /// Look up an entry, clamping each index into range.
    pub fn get(&self, i: usize, j: usize) -> (r: u8)
        requires
            self.wf(),
        ensures
            r == self.spec_get(i as int, j as int),
    {
        let ci: usize = if i < self.lut.len() {
            i
        } else {
            self.lut.len() - 1
        };
        let row: &Vec<u8> = &self.lut[ci];
        let cj: usize = if j < row.len() {
            j
        } else {
            row.len() - 1
        };
        row[cj]
    }
}

/// Turns [`SearchParams`] into the concrete reductions and margins the
/// search driver asks for.
#[derive(Debug, Clone)]
pub struct SearchParamHandler {
    pub params: SearchParams,
    pub lmr_lut: Lut2d,
}

impl SearchParamHandler {
    /// The divisors are positive and the reverse-futility margin cannot
    /// overflow a 16-bit score at any admissible depth.
    pub open spec fn wf(self) -> bool {
        &&& self.lmr_lut.wf()
        &&& self.params.lmr.history_reduction_div >= 1
        &&& self.params.nmp.margin_div >= 1
        &&& -0x7fff <= self.params.rfp.base_margin * self.params.rfp.max_depth <= 0x7fff
    }

    /// The parameter record this handler answers from.
    pub open spec fn spec_params(self) -> SearchParams {
        self.params
    }

    /// Pair a parameter record with a reduction table.
    pub fn new(params: SearchParams, lmr_lut: Lut2d) -> (r: Self)
        requires
            lmr_lut.wf(),
            params.lmr.history_reduction_div >= 1,
            params.nmp.margin_div >= 1,
            -0x7fff <= params.rfp.base_margin * params.rfp.max_depth <= 0x7fff,
        ensures
            r.wf(),
            r.spec_params() == params,
            r == (SearchParamHandler { params, lmr_lut }),
    {
        SearchParamHandler { params, lmr_lut }
    }

    /// An exact copy.
    pub fn duplicate(&self) -> (r: Self)
        requires
            self.wf(),
        ensures
            r.wf(),
            r.spec_params() == self.spec_params(),
    {
        SearchParamHandler { params: self.params, lmr_lut: self.lmr_lut.duplicate() }
    }

    /// Depth gate for late-move reductions.
    pub fn lmr_min_depth(&self) -> (r: u8)
        ensures
            r == self.spec_params().lmr.min_depth,
    {
        self.params.lmr.min_depth
    }

    /// Late-move reduction: the table value for (depth, move index), less a
    /// history bonus, floored at zero and truncated to a byte.
    pub fn lmr_reduction(&self, move_index: usize, depth: u8, history: i32) -> (r: u8)
        requires
            self.wf(),
            -0x10000 <= history <= 0x10000,
        ensures
            r as int == {
                let base = self.lmr_lut.spec_get(depth as int, move_index as int) as int;
                let adj = div_trunc(history as int, self.spec_params().lmr.history_reduction_div as int);
                if base - adj <= 0 {
                    0
                } else {
                    (base - adj) % 256
                }
            },
    {
        let base: i32 = self.lmr_lut.get(depth as usize, move_index) as i32;
        let div: i32 = self.params.lmr.history_reduction_div;
        let adj: i32 = if history >= 0 {
            ((history as u32) / (div as u32)) as i32
        } else {
            let q: u32 = ((-history) as u32) / (div as u32);
            -(q as i32)
        };
        let reduction: i32 = base - adj;
        if reduction <= 0 {
            0
        } else {
            (reduction as u32 % 256) as u8
        }
    }

    /// Null-move reduction: a base, a bonus at high depth, and up to
    /// `margin_max_reduction` more as the static evaluation exceeds beta.
    /// Byte additions wrap.
    #[verifier::rlimit(60)]
    pub fn nmp_reduction(&self, depth: u8, static_eval: Eval, window: Window) -> (r: u8)
        requires
            self.wf(),
        ensures
            r as int == {
                let nmp = self.spec_params().nmp;
                let base = if depth >= nmp.bonus_reduction_depth {
                    (nmp.base_reduction + nmp.bonus_reduction) % 256
                } else {
                    nmp.base_reduction as int
                };
                let bonus = match (Eval::spec_as_cp(static_eval.0), Eval::spec_as_cp(
                    window.beta.0,
                )) {
                    (Some(eval), Some(beta)) => if eval >= beta {
                        if (eval - beta) / (nmp.margin_div as int) < nmp.margin_max_reduction {
                            (eval - beta) / (nmp.margin_div as int)
                        } else {
                            nmp.margin_max_reduction as int
                        }
                    } else {
                        0
                    },
                    _ => 0,
                };
                (base + bonus) % 256
            },
    {
        let nmp = &self.params.nmp;
        let mut reduction: u8 = nmp.base_reduction;
        if depth >= nmp.bonus_reduction_depth {
            reduction = reduction.wrapping_add(nmp.bonus_reduction);
        }
        if let (Some(eval), Some(beta)) = (static_eval.as_cp(), window.beta.as_cp()) {
            if eval >= beta {
                let gap: u32 = (eval as i32 - beta as i32) as u32 / (nmp.margin_div as u32);
                let bonus: u32 = if gap < nmp.margin_max_reduction as u32 {
                    gap
                } else {
                    nmp.margin_max_reduction as u32
                };
                assert((eval - beta) as int / (nmp.margin_div as int) == gap as int || gap
                    >= nmp.margin_max_reduction);
                reduction = reduction.wrapping_add(bonus as u8);
            }
        }
        reduction
    }

    /// How many quiet moves to search at this depth before late-move pruning
    /// skips the rest; unlimited beyond the configured depths.
    pub fn lmp_quiets_to_check(&self, depth: u8) -> (r: usize)
        requires
            depth >= 1,
        ensures
            r as int == if depth - 1 < 3 {
                self.spec_params().lmp.quiets_to_check[depth - 1] as int
            } else {
                usize::MAX as int
            },
    {
        let i: usize = depth as usize - 1;
        if i < 3 {
            self.params.lmp.quiets_to_check[i]
        } else {
            usize::MAX
        }
    }

    /// The futility margin for this depth, if futility pruning applies.
    pub fn fp_margin(&self, depth: u8) -> (r: Option<Eval>)
        requires
            depth >= 1,
        ensures
            r == if depth - 1 < 2 {
                Some(Eval(self.spec_params().fp.margins[depth - 1]))
            } else {
                None::<Eval>
            },
    {
        let i: usize = depth as usize - 1;
        if i < 2 {
            Some(Eval::cp(self.params.fp.margins[i]))
        } else {
            None
        }
    }

    /// The reverse-futility margin grows linearly with depth, up to a cap.
    pub fn rfp_margin(&self, depth: u8) -> (r: Option<Eval>)
        requires
            self.wf(),
        ensures
            r == if depth <= self.spec_params().rfp.max_depth {
                Some(Eval((self.spec_params().rfp.base_margin * depth) as i16))
            } else {
                None::<Eval>
            },
    {
        let rfp = &self.params.rfp;
        if depth <= rfp.max_depth {
            proof {
                let b = rfp.base_margin as int;
                let d = depth as int;
                let m = rfp.max_depth as int;
                assert(-0x7fff <= b * d <= 0x7fff) by (nonlinear_arith)
                    requires
                        -0x7fff <= b * m <= 0x7fff,
                        0 <= d <= m,
                        -0x8000 <= b <= 0x7fff,
                ;
            }
            let margin: i32 = rfp.base_margin as i32 * depth as i32;
            Some(Eval::cp(margin as i16))
        } else {
            None
        }
    }
}

} // verus!
