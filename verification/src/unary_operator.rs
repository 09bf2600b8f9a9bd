//! Unary operators of the expression language.

use crate::fixed::{fx_abs, fx_sig, fx_wf, spec_abs, spec_fx_sig};
use crate::value_or_range::ValueOrRange;
use vstd::prelude::*;

verus! {

/// Negation, absolute value, and sign (-1, 0 or 1).
#[derive(Clone, Copy, PartialEq, Eq, Structural, Debug)]
pub enum UnaryOperator {
    Sub,
    Abs,
    Sig,
}

impl UnaryOperator {
    pub open spec fn spec_apply(self, v: int) -> int {
        match self {
            UnaryOperator::Sub => -v,
            UnaryOperator::Abs => spec_abs(v),
            UnaryOperator::Sig => spec_fx_sig(v),
        }
    }

    /// Apply to one scalar.
    pub fn apply(self, value: i64) -> (r: i64)
        requires
            fx_wf(value as int),
        ensures
            r as int == self.spec_apply(value as int),
            fx_wf(r as int),
    {
        match self {
            UnaryOperator::Sub => -value,
            UnaryOperator::Abs => fx_abs(value),
            UnaryOperator::Sig => fx_sig(value),
        }
    }

    pub open spec fn spec_apply_range(self, v: ValueOrRange) -> ValueOrRange {
        match v {
            ValueOrRange::Value(x) => ValueOrRange::Value(self.spec_apply(x as int) as i64),
            ValueOrRange::Range { start, end } => ValueOrRange::Range {
                start: self.spec_apply(start as int) as i64,
                end: self.spec_apply(end as int) as i64,
            },
        }
    }

    /// Apply pointwise over a quantity.
    pub fn apply_range(self, v: ValueOrRange) -> (r: ValueOrRange)
        requires
            v.wf(),
        ensures
            r == self.spec_apply_range(v),
            r.wf(),
    {
        match v {
            ValueOrRange::Value(x) => ValueOrRange::Value(self.apply(x)),
            ValueOrRange::Range { start, end } => ValueOrRange::Range {
                start: self.apply(start),
                end: self.apply(end),
            },
        }
    }
}

} // verus!
