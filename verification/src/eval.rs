//! The evaluation scalar: a signed 16-bit value split into three regions.
//! Values at or above `MATE_IN_MAX_VALUE` encode "mate in p plies", values at
//! or below the negated threshold encode "mated in p plies", and everything
//! between is an ordinary centipawn score.

use vstd::prelude::*;

verus! {

/// Raw value of `mate_in(0)`: the mate region starts 100 below `i16::MAX`.
pub const MATE_IN_ZERO_VALUE: i16 = i16::MAX - 100;

/// Raw value of `mate_in(255)`, the smallest mate-in score.
pub const MATE_IN_MAX_VALUE: i16 = i16::MAX - 100 - 255;

/// An evaluation from the side-to-move's point of view.
#[derive(Debug, Clone, Copy, PartialEq, Eq, PartialOrd, Ord, Hash, Structural)]
pub struct Eval(pub i16);

/// The decoded meaning of an [`Eval`].
#[derive(Debug, Clone, Copy, PartialEq, Eq, Hash, Structural)]
pub enum EvalKind {
    Centipawn(i16),
    MateIn(u8),
    MatedIn(u8),
}

impl Eval {
    /// The value of `self` as a mathematical integer.
    pub open spec fn val(self) -> int {
        self.0 as int
    }

    /// What [`Eval::kind`] decodes a raw value to. Raw values above
    /// `mate_in(0)` wrap the ply distance modulo 256, exactly as the
    /// executable decoder does.
    pub open spec fn spec_kind(v: i16) -> EvalKind {
        if v >= MATE_IN_MAX_VALUE {
            if v <= MATE_IN_ZERO_VALUE {
                EvalKind::MateIn((MATE_IN_ZERO_VALUE - v) as u8)
            } else {
                EvalKind::MateIn((MATE_IN_ZERO_VALUE - v + 256) as u8)
            }
        } else if v <= -MATE_IN_MAX_VALUE {
            if v >= -MATE_IN_ZERO_VALUE {
                EvalKind::MatedIn((v + MATE_IN_ZERO_VALUE) as u8)
            } else {
                EvalKind::MatedIn((v + MATE_IN_ZERO_VALUE + 256) as u8)
            }
        } else {
            EvalKind::Centipawn(v)
        }
    }

    /// What [`Eval::as_cp`] returns for a raw value.
    pub open spec fn spec_as_cp(v: i16) -> Option<i16> {
        match Self::spec_kind(v) {
            EvalKind::Centipawn(cp) => Some(cp),
            _ => None,
        }
    }

    /// The zero score.
    pub fn zero() -> (r: Self)
        ensures
            r.0 == 0,
    {
        Eval(0)
    }

    /// A drawn position scores zero.
    pub fn draw() -> (r: Self)
        ensures
            r.0 == 0,
    {
        Eval(0)
    }

    /// The greatest evaluation.
    pub fn max_eval() -> (r: Self)
        ensures
            r.0 == i16::MAX,
    {
        Eval(i16::MAX)
    }

    /// The least evaluation; the negation of [`Eval::max_eval`], so that
    /// every evaluation has a representable negation.
    pub fn min_eval() -> (r: Self)
        ensures
            r.0 == -i16::MAX,
    {
        Eval(-i16::MAX)
    }

    /// The smallest positive evaluation.
    pub fn unit() -> (r: Self)
        ensures
            r.0 == 1,
    {
        Eval(1)
    }

    /// An ordinary centipawn score.
    pub fn cp(centipawns: i16) -> (r: Self)
        ensures
            r.0 == centipawns,
    {
        Eval(centipawns)
    }

    /// "We deliver mate in `plies_to_mate` plies." Sooner mates score higher.
    pub fn mate_in(plies_to_mate: u8) -> (r: Self)
        ensures
            r.val() == MATE_IN_ZERO_VALUE - plies_to_mate,
            Self::spec_kind(r.0) == EvalKind::MateIn(plies_to_mate),
    {
        Eval(MATE_IN_ZERO_VALUE - plies_to_mate as i16)
    }

    /// "We are mated in `plies_to_mate` plies." Later mates score higher.
    pub fn mated_in(plies_to_mate: u8) -> (r: Self)
        ensures
            r.val() == -(MATE_IN_ZERO_VALUE - plies_to_mate),
            Self::spec_kind(r.0) == EvalKind::MatedIn(plies_to_mate),
    {
        Eval(-(MATE_IN_ZERO_VALUE - plies_to_mate as i16))
    }

    /// Decode the region this value falls in.
    pub fn kind(self) -> (r: EvalKind)
        ensures
            r == Self::spec_kind(self.0),
    {
        let v = self.0;
        if v >= MATE_IN_MAX_VALUE {
            if v <= MATE_IN_ZERO_VALUE {
                EvalKind::MateIn((MATE_IN_ZERO_VALUE - v) as u8)
            } else {
                EvalKind::MateIn((MATE_IN_ZERO_VALUE - v + 256) as u8)
            }
        } else if v <= -MATE_IN_MAX_VALUE {
            if v >= -MATE_IN_ZERO_VALUE {
                EvalKind::MatedIn((v + MATE_IN_ZERO_VALUE) as u8)
            } else {
                EvalKind::MatedIn((v + MATE_IN_ZERO_VALUE + 256) as u8)
            }
        } else {
            EvalKind::Centipawn(v)
        }
    }

    /// The centipawn value, if this is not a mate score.
    pub fn as_cp(self) -> (r: Option<i16>)
        ensures
            r == Self::spec_as_cp(self.0),
    {
        match self.kind() {
            EvalKind::Centipawn(cp) => Some(cp),
            _ => None,
        }
    }

    /// Negation mirrors the region and keeps the ply distance.
    pub fn neg(self) -> (r: Self)
        requires
            self.0 > i16::MIN,
        ensures
            r.val() == -self.val(),
    {
        Eval(-self.0)
    }

    /// Addition clamped to the `i16` range.
    pub fn saturating_add(self, other: Self) -> (r: Self)
        ensures
            r.val() == Self::clamp_i16(self.val() + other.val()),
    {
        let s: i32 = self.0 as i32 + other.0 as i32;
        Eval(Self::clamp_to_i16(s))
    }

    /// Multiplication clamped to the `i16` range.
    pub fn saturating_mul(self, other: Self) -> (r: Self)
        ensures
            r.val() == Self::clamp_i16(self.val() * other.val()),
    {
        let a: i32 = self.0 as i32;
        let b: i32 = other.0 as i32;
        assert(-0x8000 <= a <= 0x7fff && -0x8000 <= b <= 0x7fff);
        assert(a * b <= 0x4000_0000 && a * b >= -0x4000_0000) by (nonlinear_arith)
            requires
                -0x8000 <= a <= 0x7fff && -0x8000 <= b <= 0x7fff,
        ;
        let s: i32 = a * b;
        Eval(Self::clamp_to_i16(s))
    }

    /// Subtraction clamped to the `i16` range, except that the unrepresentable
    /// minimum is nudged to `min_eval()` so the result can always be negated.
    pub fn saturating_sub(self, other: Self) -> (r: Self)
        ensures
            r.val() == Self::spec_saturating_sub(self.val(), other.val()),
            r.0 > i16::MIN,
    {
        let s: i32 = self.0 as i32 - other.0 as i32;
        let clamped: i16 = Self::clamp_to_i16(s);
        if clamped == i16::MIN {
            Eval(clamped + 1)
        } else {
            Eval(clamped)
        }
    }

    /// Clamp an integer to the `i16` range.
    pub open spec fn clamp_i16(x: int) -> int {
        if x < i16::MIN {
            i16::MIN as int
        } else if x > i16::MAX {
            i16::MAX as int
        } else {
            x
        }
    }

    /// The value [`Eval::saturating_sub`] produces.
    pub open spec fn spec_saturating_sub(a: int, b: int) -> int {
        if Self::clamp_i16(a - b) == i16::MIN {
            i16::MIN + 1
        } else {
            Self::clamp_i16(a - b)
        }
    }

    fn clamp_to_i16(x: i32) -> (r: i16)
        ensures
            r as int == Self::clamp_i16(x as int),
    {
        if x < i16::MIN as i32 {
            i16::MIN
        } else if x > i16::MAX as i32 {
            i16::MAX
        } else {
            x as i16
        }
    }

    /// The unsigned 16-bit pattern of a raw value, for the two-byte encoding.
    pub open spec fn spec_to_u16(v: int) -> int {
        if v >= 0 {
            v as int
        } else {
            v + 0x10000
        }
    }

    /// The raw value a two-byte pattern decodes to.
    pub open spec fn spec_from_u16(u: int) -> int {
        if u < 0x8000 {
            u
        } else {
            u - 0x10000
        }
    }

    /// Serialize as two little-endian bytes.
    pub fn to_bytes(self) -> (r: [u8; 2])
        ensures
            r[0] == Self::spec_to_u16(self.0 as int) % 256,
            r[1] == Self::spec_to_u16(self.0 as int) / 256,
    {
        let u: u16 = if self.0 >= 0 {
            self.0 as u16
        } else {
            (self.0 as i32 + 0x10000) as u16
        };
        [(u % 256) as u8, (u / 256) as u8]
    }

    /// Deserialize from two little-endian bytes.
    pub fn from_bytes(bytes: [u8; 2]) -> (r: Self)
        ensures
            r.val() == Self::spec_from_u16(bytes[0] + bytes[1] * 256),
    {
        let u: u32 = bytes[0] as u32 + bytes[1] as u32 * 256;
        if u < 0x8000 {
            Eval(u as i16)
        } else {
            Eval((u as i32 - 0x10000) as i16)
        }
    }
}

/// The two-byte little-endian encoding loses nothing: decoding the encoding
/// of any evaluation gives it back.
pub proof fn lemma_eval_bytes_round_trip(e: Eval)
    ensures
        Eval::spec_from_u16(
            Eval::spec_to_u16(e.val()) % 256 + (Eval::spec_to_u16(e.val()) / 256) * 256,
        ) == e.val(),
{
}

/// Negation is an involution on every representable evaluation (every raw
/// value except `i16::MIN`, which no constructor produces).
pub proof fn lemma_eval_neg_involutive(e: Eval)
    requires
        e.0 > i16::MIN,
    ensures
        -(-e.val()) == e.val(),
        Eval::spec_kind(e.0) matches EvalKind::MateIn(p) ==> Eval::spec_kind((-e.val()) as i16)
            == EvalKind::MatedIn(p),
        Eval::spec_kind(e.0) matches EvalKind::MatedIn(p) ==> Eval::spec_kind((-e.val()) as i16)
            == EvalKind::MateIn(p),
{
}

/// Sooner mates are better: `mate_in` is strictly decreasing and `mated_in`
/// strictly increasing in the ply distance, and every mate score dominates
/// every centipawn score of magnitude at most 20000.
pub proof fn lemma_eval_ordering(p: u8, q: u8)
    requires
        p < q,
    ensures
        MATE_IN_ZERO_VALUE - p > MATE_IN_ZERO_VALUE - q,
        -(MATE_IN_ZERO_VALUE - p) < -(MATE_IN_ZERO_VALUE - q),
        MATE_IN_ZERO_VALUE - 255 > 20000,
        -(MATE_IN_ZERO_VALUE - 255) < -20000,
{
}

} // verus!
