//! The quantized NNUE evaluator: a sparse 768-feature transformer kept
//! incrementally per perspective, a clipped ReLU, and one linear output
//! head. Lane arithmetic wraps exactly as two's-complement hardware does,
//! so an accumulator reached by any order of updates equals one rebuilt
//! from scratch.

use vstd::prelude::*;

use crate::chess::{square_flip_rank, Color, Piece};

verus! {

/// Elementwise wrapping addition; lanes past the end of `b` are untouched,
/// as a zipped loop leaves them.
pub open spec fn spec_vec_add(a: Seq<i16>, b: Seq<i16>) -> Seq<i16> {
    Seq::new(
        a.len(),
        |j: int|
            if j < b.len() {
                a[j].wrapping_add(b[j])
            } else {
                a[j]
            },
    )
}

/// Elementwise wrapping subtraction; lanes past the end of `b` are
/// untouched.
pub open spec fn spec_vec_sub(a: Seq<i16>, b: Seq<i16>) -> Seq<i16> {
    Seq::new(
        a.len(),
        |j: int|
            if j < b.len() {
                a[j].wrapping_sub(b[j])
            } else {
                a[j]
            },
    )
}

/// The wrapping dot product of the first `n` lanes of a byte activation
/// vector and a signed weight row.
pub open spec fn spec_dot_prefix(a: Seq<u8>, b: Seq<i8>, n: int) -> i32
    decreases n,
{
    if n <= 0 {
        0
    } else {
        spec_dot_prefix(a, b, n - 1).wrapping_add(
            (a[n - 1] as i32).wrapping_mul(b[n - 1] as i32),
        )
    }
}

/// Wrapping vector addition, in place.
pub trait VecAdd: Sized {
    /// The relation between the vector before and after the addition.
    spec fn vec_add_post(pre: Self, post: Self, other: Self) -> bool;

    /// Add `other` into `self` lane by lane, wrapping.
    fn vec_add(&mut self, other: &Self)
        ensures
            Self::vec_add_post(*old(self), *final(self), *other),
    ;
}

/// Wrapping vector subtraction, in place.
pub trait VecSub: Sized {
    /// The relation between the vector before and after the subtraction.
    spec fn vec_sub_post(pre: Self, post: Self, other: Self) -> bool;

    /// Subtract `other` from `self` lane by lane, wrapping.
    fn vec_sub(&mut self, other: &Self)
        ensures
            Self::vec_sub_post(*old(self), *final(self), *other),
    ;
}

/// A dot product.
pub trait Dot<Output>: Sized {
    /// What the dot product of the two vectors is.
    spec fn spec_dot(self, other: Self) -> Output;

    /// The dot product of `self` and `other`.
    fn dot(&self, other: &Self) -> (r: Output)
        ensures
            r == self.spec_dot(*other),
    ;
}

/// A clamped copy into another lane type.
pub trait ClippedRelu<O>: Sized {
    /// The relation between the input, the bounds, and the output vector
    /// before and after the pass.
    spec fn clipped_relu_post(self, min: O, max: O, pre: Vec<O>, post: Vec<O>) -> bool;

    /// Clamp every lane into `[min, max]` and write it narrowed.
    fn clipped_relu(&self, min: O, max: O, out: &mut Vec<O>)
        ensures
            self.clipped_relu_post(min, max, *old(out), *final(out)),
    ;
}

impl VecAdd for Vec<i16> {
    open spec fn vec_add_post(pre: Self, post: Self, other: Self) -> bool {
        post@ == spec_vec_add(pre@, other@)
    }

    fn vec_add(&mut self, other: &Self) {
        let n: usize = if self.len() < other.len() {
            self.len()
        } else {
            other.len()
        };
        let mut j: usize = 0;
        while j < n
            invariant
                n <= self.len(),
                n <= other.len(),
                n == if old(self).len() < other.len() {
                    old(self)@.len() as int
                } else {
                    other@.len() as int
                },
                self.len() == old(self).len(),
                j <= n,
                forall|k: int|
                    0 <= k < j ==> self@[k] == #[trigger] old(self)@[k].wrapping_add(other@[k]),
                forall|k: int| j <= k < self@.len() ==> self@[k] == old(self)@[k],
            decreases n - j,
        {
            let v = self[j].wrapping_add(other[j]);
            self.set(j, v);
            j = j + 1;
        }
        proof {
            assert(self@ =~= spec_vec_add(old(self)@, other@));
        }
    }
}

impl VecSub for Vec<i16> {
    open spec fn vec_sub_post(pre: Self, post: Self, other: Self) -> bool {
        post@ == spec_vec_sub(pre@, other@)
    }

    fn vec_sub(&mut self, other: &Self) {
        let n: usize = if self.len() < other.len() {
            self.len()
        } else {
            other.len()
        };
        let mut j: usize = 0;
        while j < n
            invariant
                n <= self.len(),
                n <= other.len(),
                n == if old(self).len() < other.len() {
                    old(self)@.len() as int
                } else {
                    other@.len() as int
                },
                self.len() == old(self).len(),
                j <= n,
                forall|k: int|
                    0 <= k < j ==> self@[k] == #[trigger] old(self)@[k].wrapping_sub(other@[k]),
                forall|k: int| j <= k < self@.len() ==> self@[k] == old(self)@[k],
            decreases n - j,
        {
            let v = self[j].wrapping_sub(other[j]);
            self.set(j, v);
            j = j + 1;
        }
        proof {
            assert(self@ =~= spec_vec_sub(old(self)@, other@));
        }
    }
}

/// The wrapping dot product of two signed byte vectors, over the shorter.
pub open spec fn spec_dot_prefix_i8(a: Seq<i8>, b: Seq<i8>, n: int) -> i32
    decreases n,
{
    if n <= 0 {
        0
    } else {
        spec_dot_prefix_i8(a, b, n - 1).wrapping_add(
            (a[n - 1] as i32).wrapping_mul(b[n - 1] as i32),
        )
    }
}

impl Dot<i32> for Vec<i8> {
    open spec fn spec_dot(self, other: Self) -> i32 {
        spec_dot_prefix_i8(
            self@,
            other@,
            if self@.len() < other@.len() {
                self@.len() as int
            } else {
                other@.len() as int
            },
        )
    }

    fn dot(&self, other: &Self) -> (r: i32) {
        let n: usize = if self.len() < other.len() {
            self.len()
        } else {
            other.len()
        };
        let mut acc: i32 = 0;
        let mut j: usize = 0;
        while j < n
            invariant
                n <= self.len(),
                n <= other.len(),
                j <= n,
                acc == spec_dot_prefix_i8(self@, other@, j as int),
            decreases n - j,
        {
            acc = acc.wrapping_add((self[j] as i32).wrapping_mul(other[j] as i32));
            j = j + 1;
        }
        acc
    }
}

impl ClippedRelu<i8> for Vec<i16> {
    open spec fn clipped_relu_post(self, min: i8, max: i8, pre: Vec<i8>, post: Vec<i8>) -> bool {
        post@ == Seq::new(
            pre@.len(),
            |j: int|
                if j < self@.len() {
                    if self@[j] < min as i16 {
                        min
                    } else if self@[j] > max as i16 {
                        max
                    } else {
                        self@[j] as i8
                    }
                } else {
                    pre@[j]
                },
        )
    }

    fn clipped_relu(&self, min: i8, max: i8, out: &mut Vec<i8>) {
        let ghost target = Seq::new(
            old(out)@.len(),
            |j: int|
                if j < self@.len() {
                    if self@[j] < min as i16 {
                        min
                    } else if self@[j] > max as i16 {
                        max
                    } else {
                        self@[j] as i8
                    }
                } else {
                    old(out)@[j]
                },
        );
        let n: usize = if self.len() < out.len() {
            self.len()
        } else {
            out.len()
        };
        let mut j: usize = 0;
        while j < n
            invariant
                n <= self.len(),
                n <= out.len(),
                out.len() == old(out).len(),
                j <= n,
                target == Seq::new(
                    old(out)@.len(),
                    |j: int|
                        if j < self@.len() {
                            if self@[j] < min as i16 {
                                min
                            } else if self@[j] > max as i16 {
                                max
                            } else {
                                self@[j] as i8
                            }
                        } else {
                            old(out)@[j]
                        },
                ),
                forall|k: int| 0 <= k < j ==> #[trigger] out@[k] == target[k],
                forall|k: int| j <= k < out@.len() ==> #[trigger] out@[k] == old(out)@[k],
            decreases n - j,
        {
            let v: i16 = self[j];
            let c: i8 = if v < min as i16 {
                min
            } else if v > max as i16 {
                max
            } else {
                v as i8
            };
            out.set(j, c);
            j = j + 1;
        }
        proof {
            assert(out@ =~= target);
        }
    }
}

/// The wrapping dot product over the shorter of the two vectors.
pub open spec fn spec_dot_u8_i8(a: Seq<u8>, b: Seq<i8>) -> i32 {
    spec_dot_prefix(
        a,
        b,
        if a.len() < b.len() {
            a.len() as int
        } else {
            b.len() as int
        },
    )
}

/// The dot product of byte activations and a signed weight row, wrapping.
pub fn dot_product(a: &Vec<u8>, b: &Vec<i8>) -> (r: i32)
    ensures
        r == spec_dot_u8_i8(a@, b@),
{
    let n: usize = if a.len() < b.len() {
        a.len()
    } else {
        b.len()
    };
    let mut acc: i32 = 0;
    let mut j: usize = 0;
    while j < n
        invariant
            n <= a.len(),
            n <= b.len(),
            j <= n,
            acc == spec_dot_prefix(a@, b@, j as int),
        decreases n - j,
    {
        acc = acc.wrapping_add((a[j] as i32).wrapping_mul(b[j] as i32));
        j = j + 1;
    }
    acc
}

/// Clamp every lane of an accumulator into `[0, max]` and narrow to bytes.
pub open spec fn spec_clipped_relu(a: Seq<i16>, min: i16, max: i16) -> Seq<u8> {
    Seq::new(
        a.len(),
        |j: int|
            if a[j] < min {
                min as u8
            } else if a[j] > max {
                max as u8
            } else {
                a[j] as u8
            },
    )
}

/// Clamp every lane into `[min, max]` and narrow to bytes.
pub fn clipped_relu(a: &Vec<i16>, min: i16, max: i16) -> (r: Vec<u8>)
    requires
        0 <= min <= max <= 255,
    ensures
        r@ == spec_clipped_relu(a@, min, max),
{
    let mut out: Vec<u8> = Vec::new();
    let mut j: usize = 0;
    while j < a.len()
        invariant
            0 <= min <= max <= 255,
            j <= a.len(),
            out@.len() == j,
            forall|k: int| 0 <= k < j ==> out@[k] == spec_clipped_relu(a@, min, max)[k],
        decreases a.len() - j,
    {
        let v: i16 = a[j];
        let c: u8 = if v < min {
            min as u8
        } else if v > max {
            max as u8
        } else {
            v as u8
        };
        out.push(c);
        j = j + 1;
    }
    proof {
        assert(out@ =~= spec_clipped_relu(a@, min, max));
    }
    out
}

/// The feature transformer: per-feature weight rows added onto a bias
/// vector. `weights[f]` is the dense row of feature `f`.
#[derive(Debug, Clone)]
pub struct BitLinear {
    pub weights: Vec<Vec<i16>>,
    pub biases: Vec<i16>,
}

impl BitLinear {
    /// Every weight row is as wide as the bias vector.
    pub open spec fn wf(self) -> bool {
        forall|i: int|
            0 <= i < self.weights@.len() ==> (#[trigger] self.weights@[i])@.len()
                == self.biases@.len()
    }

    /// A fresh accumulator: the bias vector alone.
    pub fn empty(&self) -> (r: Vec<i16>)
        ensures
            r@ == self.biases@,
    {
        let mut out: Vec<i16> = Vec::new();
        let mut j: usize = 0;
        while j < self.biases.len()
            invariant
                j <= self.biases.len(),
                out@ =~= self.biases@.take(j as int),
            decreases self.biases.len() - j,
        {
            out.push(self.biases[j]);
            j = j + 1;
        }
        proof {
            assert(out@ =~= self.biases@);
        }
        out
    }

    /// Add feature `index`'s row onto the accumulator.
    pub fn add(&self, index: usize, outputs: &mut Vec<i16>)
        requires
            index < self.weights@.len(),
        ensures
            final(outputs)@ == spec_vec_add(old(outputs)@, self.weights@[index as int]@),
    {
        outputs.vec_add(&self.weights[index]);
    }

    /// Subtract feature `index`'s row from the accumulator.
    pub fn sub(&self, index: usize, outputs: &mut Vec<i16>)
        requires
            index < self.weights@.len(),
        ensures
            final(outputs)@ == spec_vec_sub(old(outputs)@, self.weights@[index as int]@),
    {
        outputs.vec_sub(&self.weights[index]);
    }
}

/// A dense linear layer: one signed-byte weight row and one 32-bit bias
/// per output.
#[derive(Debug, Clone)]
pub struct Linear {
    pub weights: Vec<Vec<i8>>,
    pub biases: Vec<i32>,
}

impl Linear {
    /// One weight row per output.
    pub open spec fn wf(self) -> bool {
        self.weights@.len() == self.biases@.len()
    }

    /// What one output lane activates to.
    pub open spec fn spec_activate_one(self, inputs: Seq<u8>, o: int) -> i32 {
        self.biases@[o].wrapping_add(spec_dot_u8_i8(inputs, self.weights@[o]@))
    }

    /// Run the layer: each output is its bias plus the dot product of the
    /// inputs with its weight row, wrapping.
    pub fn activate(&self, inputs: &Vec<u8>) -> (r: Vec<i32>)
        requires
            self.wf(),
        ensures
            r@.len() == self.biases@.len(),
            forall|o: int| 0 <= o < r@.len() ==> r@[o] == self.spec_activate_one(inputs@, o),
    {
        let mut out: Vec<i32> = Vec::new();
        let mut o: usize = 0;
        while o < self.biases.len()
            invariant
                self.wf(),
                o <= self.biases.len(),
                out@.len() == o,
                forall|k: int| 0 <= k < o ==> out@[k] == self.spec_activate_one(inputs@, k),
            decreases self.biases.len() - o,
        {
            let d: i32 = dot_product(inputs, &self.weights[o]);
            out.push(self.biases[o].wrapping_add(d));
            o = o + 1;
        }
        out
    }
}

/// The input activation ceiling.
pub const ACTIVATION_RANGE: i16 = 127;

/// The fixed-point scale of the output head's weights.
pub const WEIGHT_SCALE: i32 = 64;

/// The centipawn scale of the final output.
pub const OUTPUT_SCALE: i32 = 115;

/// The number of input features: two colors, six piece kinds, 64 squares.
pub const FEATURES: usize = 768;

/// A whole network: the feature transformer and the output head.
#[derive(Debug, Clone)]
pub struct Nnue {
    pub ft: BitLinear,
    pub l1: Linear,
}

impl Nnue {
    /// The transformer has one row per feature and the head reads the two
    /// concatenated perspectives.
    pub open spec fn wf(self) -> bool {
        &&& self.ft.wf()
        &&& self.l1.wf()
        &&& self.ft.weights@.len() == FEATURES
        &&& self.l1.biases@.len() == 1
        &&& forall|o: int|
            0 <= o < self.l1.weights@.len() ==> (#[trigger] self.l1.weights@[o])@.len() == 2
                * self.ft.biases@.len()
    }

    /// An exact copy of the whole network.
    pub fn duplicate(&self) -> (r: Nnue)
        requires
            self.wf(),
        ensures
            r.wf(),
            r.ft.biases@ == self.ft.biases@,
            r.l1.biases@ == self.l1.biases@,
            forall|i: int|
                0 <= i < self.ft.weights@.len() ==> (#[trigger] r.ft.weights@[i])@
                    == self.ft.weights@[i]@,
    {
        Nnue {
            ft: BitLinear {
                weights: copy_rows_i16(&self.ft.weights),
                biases: copy_lanes(&self.ft.biases),
            },
            l1: Linear {
                weights: copy_rows_i8(&self.l1.weights),
                biases: copy_i32(&self.l1.biases),
            },
        }
    }

    /// A fresh pair of accumulators holding only the biases.
    pub fn new_state(&self) -> (r: NnueState)
        ensures
            r.white@ == self.ft.biases@,
            r.black@ == self.ft.biases@,
    {
        NnueState { white: self.ft.empty(), black: self.ft.empty() }
    }
}

/// The feature index of a colored piece on a square, seen from one
/// perspective; the black perspective mirrors ranks and swaps colors.
pub open spec fn spec_feature(perspective: Color, color: Color, piece: Piece, square: u8) -> int {
    let sq = if perspective == Color::White {
        square as int
    } else {
        (7 - square / 8) * 8 + square % 8
    };
    let c = if perspective == Color::White {
        color
    } else {
        color.spec_flip()
    };
    (c.spec_index() * 6 + piece.spec_index()) * 64 + sq
}

/// The feature index of a colored piece on a square, seen from one
/// perspective.
pub fn feature(perspective: Color, color: Color, piece: Piece, square: u8) -> (r: usize)
    requires
        square < 64,
    ensures
        r == spec_feature(perspective, color, piece, square),
        r < FEATURES,
{
    let (sq, c) = match perspective {
        Color::White => (square, color),
        Color::Black => (square_flip_rank(square), color.flip()),
    };
    (c.index() * 6 + piece.index()) * 64 + sq as usize
}

fn copy_lanes(v: &Vec<i16>) -> (r: Vec<i16>)
    ensures
        r@ == v@,
{
    let mut out: Vec<i16> = Vec::new();
    let mut j: usize = 0;
    while j < v.len()
        invariant
            j <= v.len(),
            out@ =~= v@.take(j as int),
        decreases v.len() - j,
    {
        out.push(v[j]);
        j = j + 1;
    }
    proof {
        assert(out@ =~= v@);
    }
    out
}

fn copy_rows_i16(v: &Vec<Vec<i16>>) -> (r: Vec<Vec<i16>>)
    ensures
        r@.len() == v@.len(),
        forall|i: int| 0 <= i < v@.len() ==> (#[trigger] r@[i])@ == v@[i]@,
{
    let mut out: Vec<Vec<i16>> = Vec::new();
    let mut i: usize = 0;
    while i < v.len()
        invariant
            i <= v@.len(),
            out@.len() == i,
            forall|k: int| 0 <= k < i ==> (#[trigger] out@[k])@ == v@[k]@,
        decreases v@.len() - i,
    {
        out.push(copy_lanes(&v[i]));
        i = i + 1;
    }
    out
}

fn copy_i8(v: &Vec<i8>) -> (r: Vec<i8>)
    ensures
        r@ == v@,
{
    let mut out: Vec<i8> = Vec::new();
    let mut i: usize = 0;
    while i < v.len()
        invariant
            i <= v.len(),
            out@ =~= v@.take(i as int),
        decreases v.len() - i,
    {
        out.push(v[i]);
        i = i + 1;
    }
    proof {
        assert(out@ =~= v@);
    }
    out
}

fn copy_rows_i8(v: &Vec<Vec<i8>>) -> (r: Vec<Vec<i8>>)
    ensures
        r@.len() == v@.len(),
        forall|i: int| 0 <= i < v@.len() ==> (#[trigger] r@[i])@ == v@[i]@,
{
    let mut out: Vec<Vec<i8>> = Vec::new();
    let mut i: usize = 0;
    while i < v.len()
        invariant
            i <= v@.len(),
            out@.len() == i,
            forall|k: int| 0 <= k < i ==> (#[trigger] out@[k])@ == v@[k]@,
        decreases v@.len() - i,
    {
        out.push(copy_i8(&v[i]));
        i = i + 1;
    }
    out
}

fn copy_i32(v: &Vec<i32>) -> (r: Vec<i32>)
    ensures
        r@ == v@,
{
    let mut out: Vec<i32> = Vec::new();
    let mut i: usize = 0;
    while i < v.len()
        invariant
            i <= v.len(),
            out@ =~= v@.take(i as int),
        decreases v.len() - i,
    {
        out.push(v[i]);
        i = i + 1;
    }
    proof {
        assert(out@ =~= v@);
    }
    out
}

/// The two incrementally-maintained accumulators, one per perspective.
#[derive(Debug, Clone)]
pub struct NnueState {
    pub white: Vec<i16>,
    pub black: Vec<i16>,
}

impl NnueState {
    /// The accumulator of one perspective.
    pub open spec fn spec_acc(self, perspective: Color) -> Seq<i16> {
        match perspective {
            Color::White => self.white@,
            Color::Black => self.black@,
        }
    }

    /// The accumulator of one perspective.
    pub fn accumulator(&self, perspective: Color) -> (r: &Vec<i16>)
        ensures
            r@ == self.spec_acc(perspective),
    {
        match perspective {
            Color::White => &self.white,
            Color::Black => &self.black,
        }
    }

    /// An exact copy, lane for lane.
    pub fn duplicate(&self) -> (r: NnueState)
        ensures
            r.white@ == self.white@,
            r.black@ == self.black@,
    {
        NnueState { white: copy_lanes(&self.white), black: copy_lanes(&self.black) }
    }

    /// A piece appeared: add its feature row to both perspectives.
    pub fn add(&mut self, model: &Nnue, color: Color, piece: Piece, square: u8)
        requires
            model.wf(),
            square < 64,
        ensures
            final(self).white@ == spec_vec_add(
                old(self).white@,
                model.ft.weights@[spec_feature(Color::White, color, piece, square)]@,
            ),
            final(self).black@ == spec_vec_add(
                old(self).black@,
                model.ft.weights@[spec_feature(Color::Black, color, piece, square)]@,
            ),
    {
        let fw = feature(Color::White, color, piece, square);
        model.ft.add(fw, &mut self.white);
        let fb = feature(Color::Black, color, piece, square);
        model.ft.add(fb, &mut self.black);
    }

    /// A piece vanished: subtract its feature row from both perspectives.
    pub fn sub(&mut self, model: &Nnue, color: Color, piece: Piece, square: u8)
        requires
            model.wf(),
            square < 64,
        ensures
            final(self).white@ == spec_vec_sub(
                old(self).white@,
                model.ft.weights@[spec_feature(Color::White, color, piece, square)]@,
            ),
            final(self).black@ == spec_vec_sub(
                old(self).black@,
                model.ft.weights@[spec_feature(Color::Black, color, piece, square)]@,
            ),
    {
        let fw = feature(Color::White, color, piece, square);
        model.ft.sub(fw, &mut self.white);
        let fb = feature(Color::Black, color, piece, square);
        model.ft.sub(fb, &mut self.black);
    }

    /// What the network outputs for these accumulators with this side to
    /// move: clipped activations of the side to move, then of the
    /// opponent, through the head, scaled to centipawns.
    pub open spec fn spec_evaluate(self, model: Nnue, side_to_move: Color) -> int {
        let inputs = spec_clipped_relu(self.spec_acc(side_to_move), 0, ACTIVATION_RANGE) + spec_clipped_relu(
            self.spec_acc(side_to_move.spec_flip()),
            0,
            ACTIVATION_RANGE,
        );
        let raw = model.l1.spec_activate_one(inputs, 0);
        crate::params::div_trunc(
            crate::params::div_trunc(raw.wrapping_mul(OUTPUT_SCALE) as int, WEIGHT_SCALE as int),
            ACTIVATION_RANGE as int,
        )
    }

    /// Evaluate the position the accumulators describe, in centipawns from
    /// `side_to_move`'s point of view.
    pub fn evaluate(&self, model: &Nnue, side_to_move: Color) -> (r: i32)
        requires
            model.wf(),
        ensures
            r == self.spec_evaluate(*model, side_to_move),
    {
        let mut inputs: Vec<u8> = clipped_relu(self.accumulator(side_to_move), 0, ACTIVATION_RANGE);
        let mut rest: Vec<u8> = clipped_relu(
            self.accumulator(side_to_move.flip()),
            0,
            ACTIVATION_RANGE,
        );
        inputs.append(&mut rest);
        let outputs = model.l1.activate(&inputs);
        let raw: i32 = outputs[0];
        let scaled: i32 = div_i32(raw.wrapping_mul(OUTPUT_SCALE), WEIGHT_SCALE);
        div_i32(scaled, ACTIVATION_RANGE as i32)
    }
}

fn div_i32(a: i32, b: i32) -> (r: i32)
    requires
        b > 0,
    ensures
        r == crate::params::div_trunc(a as int, b as int),
{
    if a >= 0 {
        ((a as u32) / (b as u32)) as i32
    } else {
        let na: u64 = (-(a as i64)) as u64;
        let q: u64 = na / (b as u64);
        proof {
            let naa = na as int;
            let bb = b as int;
            assert(naa / bb <= naa) by (nonlinear_arith)
                requires
                    naa >= 0,
                    bb >= 1,
            ;
        }
        if q >= 0x80000000 {
            i32::MIN
        } else {
            -(q as i32)
        }
    }
}

/// Adding a feature row and then subtracting it restores every lane: the
/// incremental update of a move undone equals the accumulator never
/// touched.
pub proof fn lemma_nnue_add_sub_cancel(a: Seq<i16>, row: Seq<i16>)
    requires
        row.len() >= a.len(),
    ensures
        spec_vec_sub(spec_vec_add(a, row), row) =~= a,
{
    assert forall|j: int| 0 <= j < a.len() implies spec_vec_sub(spec_vec_add(a, row), row)[j]
        == a[j] by {
        let x = a[j];
        let y = row[j];
        assert(x.wrapping_add(y).wrapping_sub(y) == x);
    }
}

/// Subtracting a feature row and then adding it back restores every lane.
pub proof fn lemma_nnue_sub_add_cancel(a: Seq<i16>, row: Seq<i16>)
    requires
        row.len() >= a.len(),
    ensures
        spec_vec_add(spec_vec_sub(a, row), row) =~= a,
{
    assert forall|j: int| 0 <= j < a.len() implies spec_vec_add(spec_vec_sub(a, row), row)[j]
        == a[j] by {
        let x = a[j];
        let y = row[j];
        assert(x.wrapping_sub(y).wrapping_add(y) == x);
    }
}

/// A subtraction commutes with an unrelated addition, lane by lane.
pub proof fn lemma_nnue_add_sub_commute(a: Seq<i16>, r1: Seq<i16>, r2: Seq<i16>)
    requires
        r1.len() >= a.len(),
        r2.len() >= a.len(),
    ensures
        spec_vec_sub(spec_vec_add(a, r1), r2) =~= spec_vec_add(spec_vec_sub(a, r2), r1),
{
    assert forall|j: int| 0 <= j < a.len() implies spec_vec_sub(spec_vec_add(a, r1), r2)[j]
        == spec_vec_add(spec_vec_sub(a, r2), r1)[j] by {
        let x = a[j];
        let y = r1[j];
        let z = r2[j];
        assert(x.wrapping_add(y).wrapping_sub(z) == x.wrapping_sub(z).wrapping_add(y));
    }
}

/// Feature updates commute: two rows added in either order leave the same
/// accumulator, so any order of incremental updates rebuilds the same
/// state as from scratch.
pub proof fn lemma_nnue_add_commutes(a: Seq<i16>, r1: Seq<i16>, r2: Seq<i16>)
    requires
        r1.len() >= a.len(),
        r2.len() >= a.len(),
    ensures
        spec_vec_add(spec_vec_add(a, r1), r2) =~= spec_vec_add(spec_vec_add(a, r2), r1),
{
    assert forall|j: int| 0 <= j < a.len() implies spec_vec_add(spec_vec_add(a, r1), r2)[j]
        == spec_vec_add(spec_vec_add(a, r2), r1)[j] by {
        let x = a[j];
        let y = r1[j];
        let z = r2[j];
        assert(x.wrapping_add(y).wrapping_add(z) == x.wrapping_add(z).wrapping_add(y));
    }
}

} // verus!
