//! Binary operators of the expression language.
//!
//! The scalar meaning of each operator is exact fixed-point arithmetic; the
//! logical and comparison operators return one whole (`SCALE`) for true and
//! zero for false.  Over ranges the operator is evaluated on the four
//! corner combinations of the operands' ends, in the fixed order
//! (left-start, left-end) crossed with (right-start, right-end), and the
//! result is the range from the smallest to the largest corner.  This is
//! deliberate corner propagation, not tight interval arithmetic.

use crate::fixed::{fx_add, fx_div, fx_mul, fx_sub, fx_wf, spec_fx_add, spec_fx_div, spec_fx_max,
    spec_fx_min, spec_fx_mul, spec_fx_sub, SCALE};
use crate::value_or_range::ValueOrRange;
use vstd::prelude::*;

verus! {

/// Arithmetic, logical and comparison operators.
#[derive(Clone, Copy, PartialEq, Eq, Structural, Debug)]
pub enum BinaryOperator {
    Add,
    Sub,
    Mul,
    Div,
    And,
    Or,
    Eq,
    Neq,
    Lt,
    Gt,
    LEq,
    GEq,
}

impl BinaryOperator {
    pub open spec fn spec_apply(self, left: int, right: int) -> int {
        match self {
            BinaryOperator::Add => spec_fx_add(left, right),
            BinaryOperator::Sub => spec_fx_sub(left, right),
            BinaryOperator::Mul => spec_fx_mul(left, right),
            BinaryOperator::Div => spec_fx_div(left, right),
            BinaryOperator::And => if left != 0 && right != 0 {
                SCALE as int
            } else {
                0
            },
            BinaryOperator::Or => if left != 0 || right != 0 {
                SCALE as int
            } else {
                0
            },
            BinaryOperator::Eq => if left == right {
                SCALE as int
            } else {
                0
            },
            BinaryOperator::Neq => if left != right {
                SCALE as int
            } else {
                0
            },
            BinaryOperator::Lt => if left < right {
                SCALE as int
            } else {
                0
            },
            BinaryOperator::Gt => if left > right {
                SCALE as int
            } else {
                0
            },
            BinaryOperator::LEq => if left <= right {
                SCALE as int
            } else {
                0
            },
            BinaryOperator::GEq => if left >= right {
                SCALE as int
            } else {
                0
            },
        }
    }

    /// Apply to two scalars.
    pub fn apply(self, left: i64, right: i64) -> (r: i64)
        requires
            fx_wf(left as int),
            fx_wf(right as int),
        ensures
            r as int == self.spec_apply(left as int, right as int),
            fx_wf(r as int),
    {
        match self {
            BinaryOperator::Add => fx_add(left, right),
            BinaryOperator::Sub => fx_sub(left, right),
            BinaryOperator::Mul => fx_mul(left, right),
            BinaryOperator::Div => fx_div(left, right),
            BinaryOperator::And => if left != 0 && right != 0 {
                SCALE
            } else {
                0
            },
            BinaryOperator::Or => if left != 0 || right != 0 {
                SCALE
            } else {
                0
            },
            BinaryOperator::Eq => if left == right {
                SCALE
            } else {
                0
            },
            BinaryOperator::Neq => if left != right {
                SCALE
            } else {
                0
            },
            BinaryOperator::Lt => if left < right {
                SCALE
            } else {
                0
            },
            BinaryOperator::Gt => if left > right {
                SCALE
            } else {
                0
            },
            BinaryOperator::LEq => if left <= right {
                SCALE
            } else {
                0
            },
            BinaryOperator::GEq => if left >= right {
                SCALE
            } else {
                0
            },
        }
    }

    pub open spec fn spec_apply_range(self, left: ValueOrRange, right: ValueOrRange) -> ValueOrRange {
        match (left, right) {
            (ValueOrRange::Value(l), ValueOrRange::Value(r)) => ValueOrRange::Value(
                self.spec_apply(l as int, r as int) as i64,
            ),
            _ => {
                let (ls, le) = left.spec_bounds();
                let (rs, re) = right.spec_bounds();
                let c1 = self.spec_apply(ls, rs);
                let c2 = self.spec_apply(ls, re);
                let c3 = self.spec_apply(le, rs);
                let c4 = self.spec_apply(le, re);
                ValueOrRange::Range {
                    start: spec_fx_min(spec_fx_min(c1, c2), spec_fx_min(c3, c4)) as i64,
                    end: spec_fx_max(spec_fx_max(c1, c2), spec_fx_max(c3, c4)) as i64,
                }
            },
        }
    }

    /// Apply over two quantities: scalars combine to a scalar; any range
    /// operand makes the result the corner-propagated range.
    pub fn apply_range(self, left: ValueOrRange, right: ValueOrRange) -> (r: ValueOrRange)
        requires
            left.wf(),
            right.wf(),
        ensures
            r == self.spec_apply_range(left, right),
            r.wf(),
    {
        match (left, right) {
            (ValueOrRange::Value(l), ValueOrRange::Value(r)) => ValueOrRange::Value(
                self.apply(l, r),
            ),
            (l, r) => {
                let (ls, le): (i64, i64) = l.bounds();
                let (rs, re): (i64, i64) = r.bounds();
                let c1: i64 = self.apply(ls, rs);
                let c2: i64 = self.apply(ls, re);
                let c3: i64 = self.apply(le, rs);
                let c4: i64 = self.apply(le, re);
                let lo: i64 = if c1 <= c2 {
                    c1
                } else {
                    c2
                };
                let lo: i64 = if lo <= c3 {
                    lo
                } else {
                    c3
                };
                let lo: i64 = if lo <= c4 {
                    lo
                } else {
                    c4
                };
                let hi: i64 = if c1 >= c2 {
                    c1
                } else {
                    c2
                };
                let hi: i64 = if hi >= c3 {
                    hi
                } else {
                    c3
                };
                let hi: i64 = if hi >= c4 {
                    hi
                } else {
                    c4
                };
                ValueOrRange::Range { start: lo, end: hi }
            },
        }
    }
}

} // verus!
