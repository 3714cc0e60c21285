//! The shapes of the options a front-end can expose: a boolean switch or a
//! bounded integer spin.

use vstd::prelude::*;

verus! {

/// One configurable option's kind, with its default and bounds.
#[derive(Debug, Clone, Copy, PartialEq, Eq, Structural)]
pub enum UciOptionKind {
    /// A boolean switch.
    Check { default: bool },
    /// An integer within inclusive bounds.
    Spin { default: i64, min: i64, max: i64 },
}

impl UciOptionKind {
    /// Does a value lie within this option's bounds?
    pub open spec fn spec_accepts(self, value: i64) -> bool {
        match self {
            UciOptionKind::Check { .. } => value == 0 || value == 1,
            UciOptionKind::Spin { min, max, .. } => min <= value <= max,
        }
    }

    /// Does a value lie within this option's bounds?
    pub fn accepts(self, value: i64) -> (r: bool)
        ensures
            r == self.spec_accepts(value),
    {
        match self {
            UciOptionKind::Check { .. } => value == 0 || value == 1,
            UciOptionKind::Spin { min, max, .. } => min <= value && value <= max,
        }
    }
}

} // verus!
