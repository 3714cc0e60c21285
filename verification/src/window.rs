//! An alpha-beta search window: the open interval of evaluations that can
//! still affect the search result at a node.

use vstd::prelude::*;

use crate::eval::Eval;

verus! {

/// An `(alpha, beta)` pair of evaluations.
#[derive(Debug, Clone, Copy, PartialEq, Eq, Hash, Structural)]
pub struct Window {
    pub alpha: Eval,
    pub beta: Eval,
}

impl Window {
    /// Does `v` lie strictly inside the window?
    pub open spec fn spec_contains(self, v: Eval) -> bool {
        self.alpha.val() < v.val() < self.beta.val()
    }

    /// A window the search can work inside: both bounds negatable and
    /// something strictly between them.
    pub open spec fn wf(self) -> bool {
        &&& self.alpha.0 >= -32767
        &&& self.beta.0 <= 32767
        &&& self.alpha.0 < self.beta.0
    }

    /// The window with both bounds negated and swapped.
    pub open spec fn spec_neg(self) -> Window {
        Window { alpha: Eval((-self.beta.0) as i16), beta: Eval((-self.alpha.0) as i16) }
    }

    /// The whole representable range.
    pub fn infinity() -> (r: Self)
        ensures
            r.alpha.0 == -i16::MAX,
            r.beta.0 == i16::MAX,
    {
        Window { alpha: Eval::min_eval(), beta: Eval::max_eval() }
    }

    /// The window around `center` with the given radius, clamped to the
    /// representable range.
    pub fn around(center: Eval, radius: Eval) -> (r: Self)
        ensures
            r.alpha.val() == Eval::spec_saturating_sub(center.val(), radius.val()),
            r.beta.val() == Eval::clamp_i16(center.val() + radius.val()),
    {
        Window { alpha: center.saturating_sub(radius), beta: center.saturating_add(radius) }
    }

    /// Negate and swap both bounds: the window as the opponent sees it.
    pub fn neg(self) -> (r: Self)
        requires
            self.alpha.0 > i16::MIN,
            self.beta.0 > i16::MIN,
        ensures
            r.alpha.val() == -self.beta.val(),
            r.beta.val() == -self.alpha.val(),
    {
        Window { alpha: self.beta.neg(), beta: self.alpha.neg() }
    }

    /// Raise `alpha` to `v` if `v` is greater.
    pub fn narrow_alpha(&mut self, v: Eval)
        ensures
            final(self).alpha.val() == if v.val() > old(self).alpha.val() {
                v.val()
            } else {
                old(self).alpha.val()
            },
            final(self).beta == old(self).beta,
    {
        if v.0 > self.alpha.0 {
            self.alpha = v;
        }
    }

    /// Lower `beta` to `v` if `v` is smaller.
    pub fn narrow_beta(&mut self, v: Eval)
        ensures
            final(self).beta.val() == if v.val() < old(self).beta.val() {
                v.val()
            } else {
                old(self).beta.val()
            },
            final(self).alpha == old(self).alpha,
    {
        if v.0 < self.beta.0 {
            self.beta = v;
        }
    }

    /// An empty window signals a cutoff: no value lies strictly inside.
    pub fn empty(self) -> (r: bool)
        ensures
            r == (self.beta.val() <= self.alpha.val()),
            r ==> forall|v: Eval| !self.spec_contains(v),
    {
        self.beta.0 <= self.alpha.0
    }

    /// Does `v` lie strictly inside the window?
    pub fn contains(self, v: Eval) -> (r: bool)
        ensures
            r == self.spec_contains(v),
    {
        self.alpha.0 < v.0 && v.0 < self.beta.0
    }

    /// The zero-width probe window just above `alpha`.
    pub fn null_window_alpha(self) -> (r: Self)
        requires
            self.alpha.0 < i16::MAX,
        ensures
            r.alpha == self.alpha,
            r.beta.val() == self.alpha.val() + 1,
    {
        Window { alpha: self.alpha, beta: Eval(self.alpha.0 + 1) }
    }

    /// The zero-width probe window just below `beta`.
    pub fn null_window_beta(self) -> (r: Self)
        requires
            self.beta.0 > i16::MIN,
        ensures
            r.beta == self.beta,
            r.alpha.val() == self.beta.val() - 1,
    {
        Window { alpha: Eval(self.beta.0 - 1), beta: self.beta }
    }
}

/// Negating a window twice gives the window back, and a value lies in a
/// window exactly when its negation lies in the negated window.
pub proof fn lemma_window_neg_symmetry(w: Window, v: Eval)
    requires
        w.alpha.0 > i16::MIN,
        w.beta.0 > i16::MIN,
        v.0 > i16::MIN,
    ensures
        w.spec_neg().spec_neg() == w,
        w.spec_neg().spec_contains(Eval((-v.0) as i16)) == w.spec_contains(v),
{
}

} // verus!
