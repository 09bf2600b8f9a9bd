//! Interval-valued quantities.
//!
//! A quantity is either one scalar or a closed range between two scalars.
//! Arithmetic and the trigonometric helpers lift pointwise over a range:
//! a scalar combined with a scalar stays a scalar, any range operand makes
//! the result a range.  No order between the two ends is enforced; sampling
//! and the extremal queries accept either order.

use crate::fixed::{
    fx_abs, fx_add, fx_clamp, fx_cos, fx_max, fx_min, fx_mod360, fx_mul, fx_sin, fx_sub, fx_wf,
    spec_abs, spec_fx_add, spec_fx_clamp, spec_fx_cos, spec_fx_max, spec_fx_min, spec_fx_mod360,
    spec_fx_mul, spec_fx_sin, spec_fx_sub,
};
use crate::rng::{spec_rng_draw, spec_rng_step, Rng};
use vstd::prelude::*;

verus! {

/// A single fixed-point scalar, or a closed interval between two of them.
#[derive(Clone, Copy, PartialEq, Eq, Structural, Debug)]
pub enum ValueOrRange {
    Value(i64),
    Range { start: i64, end: i64 },
}

impl ValueOrRange {
    /// Both ends (or the one scalar) are well-formed fixed-point values.
    pub open spec fn wf(self) -> bool {
        match self {
            ValueOrRange::Value(v) => fx_wf(v as int),
            ValueOrRange::Range { start, end } => fx_wf(start as int) && fx_wf(end as int),
        }
    }

    pub open spec fn spec_add(self, rhs: Self) -> Self {
        match (self, rhs) {
            (ValueOrRange::Value(a), ValueOrRange::Value(b)) => ValueOrRange::Value(
                spec_fx_add(a as int, b as int) as i64,
            ),
            (ValueOrRange::Value(a), ValueOrRange::Range { start, end }) => ValueOrRange::Range {
                start: spec_fx_add(start as int, a as int) as i64,
                end: spec_fx_add(end as int, a as int) as i64,
            },
            (ValueOrRange::Range { start, end }, ValueOrRange::Value(b)) => ValueOrRange::Range {
                start: spec_fx_add(start as int, b as int) as i64,
                end: spec_fx_add(end as int, b as int) as i64,
            },
            (
                ValueOrRange::Range { start: s1, end: e1 },
                ValueOrRange::Range { start: s2, end: e2 },
            ) => ValueOrRange::Range {
                start: spec_fx_add(s1 as int, s2 as int) as i64,
                end: spec_fx_add(e1 as int, e2 as int) as i64,
            },
        }
    }

    /// Pointwise sum; a scalar is broadcast onto both ends of a range.
    pub fn add(self, rhs: Self) -> (r: Self)
        requires
            self.wf(),
            rhs.wf(),
        ensures
            r == self.spec_add(rhs),
            r.wf(),
    {
        match (self, rhs) {
            (ValueOrRange::Value(a), ValueOrRange::Value(b)) => ValueOrRange::Value(fx_add(a, b)),
            (ValueOrRange::Value(a), ValueOrRange::Range { start, end }) => ValueOrRange::Range {
                start: fx_add(start, a),
                end: fx_add(end, a),
            },
            (ValueOrRange::Range { start, end }, ValueOrRange::Value(b)) => ValueOrRange::Range {
                start: fx_add(start, b),
                end: fx_add(end, b),
            },
            (
                ValueOrRange::Range { start: s1, end: e1 },
                ValueOrRange::Range { start: s2, end: e2 },
            ) => ValueOrRange::Range { start: fx_add(s1, s2), end: fx_add(e1, e2) },
        }
    }

    pub open spec fn spec_sub(self, rhs: Self) -> Self {
        match (self, rhs) {
            (ValueOrRange::Value(a), ValueOrRange::Value(b)) => ValueOrRange::Value(
                spec_fx_sub(a as int, b as int) as i64,
            ),
            (ValueOrRange::Value(a), ValueOrRange::Range { start, end }) => ValueOrRange::Range {
                start: spec_fx_sub(a as int, start as int) as i64,
                end: spec_fx_sub(a as int, end as int) as i64,
            },
            (ValueOrRange::Range { start, end }, ValueOrRange::Value(b)) => ValueOrRange::Range {
                start: spec_fx_sub(start as int, b as int) as i64,
                end: spec_fx_sub(end as int, b as int) as i64,
            },
            (
                ValueOrRange::Range { start: s1, end: e1 },
                ValueOrRange::Range { start: s2, end: e2 },
            ) => ValueOrRange::Range {
                start: spec_fx_sub(s1 as int, s2 as int) as i64,
                end: spec_fx_sub(e1 as int, e2 as int) as i64,
            },
        }
    }

    /// Pointwise difference; a scalar on the left is subtracted from
    /// pointwise, a scalar on the right is broadcast.
    pub fn sub(self, rhs: Self) -> (r: Self)
        requires
            self.wf(),
            rhs.wf(),
        ensures
            r == self.spec_sub(rhs),
            r.wf(),
    {
        match (self, rhs) {
            (ValueOrRange::Value(a), ValueOrRange::Value(b)) => ValueOrRange::Value(fx_sub(a, b)),
            (ValueOrRange::Value(a), ValueOrRange::Range { start, end }) => ValueOrRange::Range {
                start: fx_sub(a, start),
                end: fx_sub(a, end),
            },
            (ValueOrRange::Range { start, end }, ValueOrRange::Value(b)) => ValueOrRange::Range {
                start: fx_sub(start, b),
                end: fx_sub(end, b),
            },
            (
                ValueOrRange::Range { start: s1, end: e1 },
                ValueOrRange::Range { start: s2, end: e2 },
            ) => ValueOrRange::Range { start: fx_sub(s1, s2), end: fx_sub(e1, e2) },
        }
    }

    pub open spec fn spec_mul(self, rhs: Self) -> Self {
        match (self, rhs) {
            (ValueOrRange::Value(a), ValueOrRange::Value(b)) => ValueOrRange::Value(
                spec_fx_mul(a as int, b as int) as i64,
            ),
            (ValueOrRange::Value(a), ValueOrRange::Range { start, end }) => ValueOrRange::Range {
                start: spec_fx_mul(start as int, a as int) as i64,
                end: spec_fx_mul(end as int, a as int) as i64,
            },
            (ValueOrRange::Range { start, end }, ValueOrRange::Value(b)) => ValueOrRange::Range {
                start: spec_fx_mul(start as int, b as int) as i64,
                end: spec_fx_mul(end as int, b as int) as i64,
            },
            (
                ValueOrRange::Range { start: s1, end: e1 },
                ValueOrRange::Range { start: s2, end: e2 },
            ) => ValueOrRange::Range {
                start: spec_fx_mul(s1 as int, s2 as int) as i64,
                end: spec_fx_mul(e1 as int, e2 as int) as i64,
            },
        }
    }

    /// Pointwise product; a scalar is broadcast onto both ends of a range.
    pub fn mul(self, rhs: Self) -> (r: Self)
        requires
            self.wf(),
            rhs.wf(),
        ensures
            r == self.spec_mul(rhs),
            r.wf(),
    {
        match (self, rhs) {
            (ValueOrRange::Value(a), ValueOrRange::Value(b)) => ValueOrRange::Value(fx_mul(a, b)),
            (ValueOrRange::Value(a), ValueOrRange::Range { start, end }) => ValueOrRange::Range {
                start: fx_mul(start, a),
                end: fx_mul(end, a),
            },
            (ValueOrRange::Range { start, end }, ValueOrRange::Value(b)) => ValueOrRange::Range {
                start: fx_mul(start, b),
                end: fx_mul(end, b),
            },
            (
                ValueOrRange::Range { start: s1, end: e1 },
                ValueOrRange::Range { start: s2, end: e2 },
            ) => ValueOrRange::Range { start: fx_mul(s1, s2), end: fx_mul(e1, e2) },
        }
    }

    pub open spec fn spec_max(self, other: int) -> Self {
        match self {
            ValueOrRange::Value(v) => ValueOrRange::Value(spec_fx_max(v as int, other) as i64),
            ValueOrRange::Range { start, end } => ValueOrRange::Range {
                start: spec_fx_max(start as int, other) as i64,
                end: spec_fx_max(end as int, other) as i64,
            },
        }
    }

    /// Pointwise maximum with a scalar.
    pub fn max(self, other: i64) -> (r: Self)
        requires
            self.wf(),
            fx_wf(other as int),
        ensures
            r == self.spec_max(other as int),
            r.wf(),
    {
        match self {
            ValueOrRange::Value(v) => ValueOrRange::Value(fx_max(v, other)),
            ValueOrRange::Range { start, end } => ValueOrRange::Range {
                start: fx_max(start, other),
                end: fx_max(end, other),
            },
        }
    }

    pub open spec fn spec_min(self, other: int) -> Self {
        match self {
            ValueOrRange::Value(v) => ValueOrRange::Value(spec_fx_min(v as int, other) as i64),
            ValueOrRange::Range { start, end } => ValueOrRange::Range {
                start: spec_fx_min(start as int, other) as i64,
                end: spec_fx_min(end as int, other) as i64,
            },
        }
    }

    /// Pointwise minimum with a scalar.
    pub fn min(self, other: i64) -> (r: Self)
        requires
            self.wf(),
            fx_wf(other as int),
        ensures
            r == self.spec_min(other as int),
            r.wf(),
    {
        match self {
            ValueOrRange::Value(v) => ValueOrRange::Value(fx_min(v, other)),
            ValueOrRange::Range { start, end } => ValueOrRange::Range {
                start: fx_min(start, other),
                end: fx_min(end, other),
            },
        }
    }

    pub open spec fn spec_clamp(self, lo: int, hi: int) -> Self {
        match self {
            ValueOrRange::Value(v) => ValueOrRange::Value(spec_fx_clamp(v as int, lo, hi) as i64),
            ValueOrRange::Range { start, end } => ValueOrRange::Range {
                start: spec_fx_clamp(start as int, lo, hi) as i64,
                end: spec_fx_clamp(end as int, lo, hi) as i64,
            },
        }
    }

    /// Pointwise clamp into `[lo, hi]`.
    pub fn clamp(self, lo: i64, hi: i64) -> (r: Self)
        requires
            self.wf(),
            lo <= hi,
            fx_wf(lo as int),
            fx_wf(hi as int),
        ensures
            r == self.spec_clamp(lo as int, hi as int),
            r.wf(),
    {
        match self {
            ValueOrRange::Value(v) => ValueOrRange::Value(fx_clamp(v, lo, hi)),
            ValueOrRange::Range { start, end } => ValueOrRange::Range {
                start: fx_clamp(start, lo, hi),
                end: fx_clamp(end, lo, hi),
            },
        }
    }

    pub open spec fn spec_mod360(self) -> Self {
        match self {
            ValueOrRange::Value(v) => ValueOrRange::Value(spec_fx_mod360(v as int) as i64),
            ValueOrRange::Range { start, end } => ValueOrRange::Range {
                start: spec_fx_mod360(start as int) as i64,
                end: spec_fx_mod360(end as int) as i64,
            },
        }
    }

    /// Pointwise reduction into `[0, 360)` degrees.
    pub fn mod360(self) -> (r: Self)
        requires
            self.wf(),
        ensures
            r == self.spec_mod360(),
            r.wf(),
    {
        match self {
            ValueOrRange::Value(v) => ValueOrRange::Value(fx_mod360(v)),
            ValueOrRange::Range { start, end } => ValueOrRange::Range {
                start: fx_mod360(start),
                end: fx_mod360(end),
            },
        }
    }

    pub open spec fn spec_cos_degrees(self) -> Self {
        match self {
            ValueOrRange::Value(v) => ValueOrRange::Value(spec_fx_cos(v as int) as i64),
            ValueOrRange::Range { start, end } => ValueOrRange::Range {
                start: spec_fx_cos(start as int) as i64,
                end: spec_fx_cos(end as int) as i64,
            },
        }
    }

    /// Pointwise cosine of degrees.
    pub fn cos_degrees(self) -> (r: Self)
        requires
            self.wf(),
        ensures
            r == self.spec_cos_degrees(),
            r.wf(),
    {
        match self {
            ValueOrRange::Value(v) => ValueOrRange::Value(fx_cos(v)),
            ValueOrRange::Range { start, end } => ValueOrRange::Range {
                start: fx_cos(start),
                end: fx_cos(end),
            },
        }
    }

    pub open spec fn spec_sin_degrees(self) -> Self {
        match self {
            ValueOrRange::Value(v) => ValueOrRange::Value(spec_fx_sin(v as int) as i64),
            ValueOrRange::Range { start, end } => ValueOrRange::Range {
                start: spec_fx_sin(start as int) as i64,
                end: spec_fx_sin(end as int) as i64,
            },
        }
    }

    /// Pointwise sine of degrees.
    pub fn sin_degrees(self) -> (r: Self)
        requires
            self.wf(),
        ensures
            r == self.spec_sin_degrees(),
            r.wf(),
    {
        match self {
            ValueOrRange::Value(v) => ValueOrRange::Value(fx_sin(v)),
            ValueOrRange::Range { start, end } => ValueOrRange::Range {
                start: fx_sin(start),
                end: fx_sin(end),
            },
        }
    }

    /// The two ends of the quantity, in declaration order; a scalar stands
    /// for both ends at once.
    pub open spec fn spec_bounds(self) -> (int, int) {
        match self {
            ValueOrRange::Value(v) => (v as int, v as int),
            ValueOrRange::Range { start, end } => (start as int, end as int),
        }
    }

    pub fn bounds(self) -> (r: (i64, i64))
        ensures
            r.0 as int == self.spec_bounds().0,
            r.1 as int == self.spec_bounds().1,
    {
        match self {
            ValueOrRange::Value(v) => (v, v),
            ValueOrRange::Range { start, end } => (start, end),
        }
    }

    pub open spec fn spec_min_value(self) -> int {
        match self {
            ValueOrRange::Value(v) => v as int,
            ValueOrRange::Range { start, end } => spec_fx_min(start as int, end as int),
        }
    }

    /// The smallest scalar the quantity can resolve to.
    pub fn min_value(self) -> (r: i64)
        requires
            self.wf(),
        ensures
            r as int == self.spec_min_value(),
            fx_wf(r as int),
    {
        match self {
            ValueOrRange::Value(v) => v,
            ValueOrRange::Range { start, end } => fx_min(start, end),
        }
    }

    pub open spec fn spec_max_value(self) -> int {
        match self {
            ValueOrRange::Value(v) => v as int,
            ValueOrRange::Range { start, end } => spec_fx_max(start as int, end as int),
        }
    }

    /// The largest scalar the quantity can resolve to.
    pub fn max_value(self) -> (r: i64)
        requires
            self.wf(),
        ensures
            r as int == self.spec_max_value(),
            fx_wf(r as int),
    {
        match self {
            ValueOrRange::Value(v) => v,
            ValueOrRange::Range { start, end } => fx_max(start, end),
        }
    }

    pub open spec fn spec_max_abs(self) -> int {
        match self {
            ValueOrRange::Value(v) => spec_abs(v as int),
            ValueOrRange::Range { start, end } => spec_fx_max(
                spec_abs(start as int),
                spec_abs(end as int),
            ),
        }
    }

    /// The largest magnitude over the quantity.
    pub fn max_abs(self) -> (r: i64)
        requires
            self.wf(),
        ensures
            r as int == self.spec_max_abs(),
            fx_wf(r as int),
    {
        match self {
            ValueOrRange::Value(v) => fx_abs(v),
            ValueOrRange::Range { start, end } => fx_max(fx_abs(start), fx_abs(end)),
        }
    }

    pub open spec fn spec_min_abs(self) -> int {
        match self {
            ValueOrRange::Value(v) => spec_abs(v as int),
            ValueOrRange::Range { start, end } => spec_fx_min(
                spec_abs(start as int),
                spec_abs(end as int),
            ),
        }
    }

    /// The smallest magnitude over the quantity.
    pub fn min_abs(self) -> (r: i64)
        requires
            self.wf(),
        ensures
            r as int == self.spec_min_abs(),
            fx_wf(r as int),
    {
        match self {
            ValueOrRange::Value(v) => fx_abs(v),
            ValueOrRange::Range { start, end } => fx_min(fx_abs(start), fx_abs(end)),
        }
    }

    /// The scalar `random_value` resolves to, paired with the generator
    /// state after the call.
    pub open spec fn spec_random_value(self, s: u64) -> (int, u64) {
        match self {
            ValueOrRange::Value(v) => (v as int, s),
            ValueOrRange::Range { start, end } => {
                let lo = spec_fx_min(start as int, end as int);
                let hi = spec_fx_max(start as int, end as int);
                (lo + (spec_rng_draw(s) % ((hi - lo + 1) as u64)) as int, spec_rng_step(s))
            },
        }
    }

    /// Resolve to one concrete scalar: a scalar is returned unchanged, a
    /// range is sampled uniformly between its two ends in either order.
    pub fn random_value(self, rng: &mut Rng) -> (r: i64)
        requires
            self.wf(),
        ensures
            r as int == self.spec_random_value(old(rng).state).0,
            final(rng).state == self.spec_random_value(old(rng).state).1,
            fx_wf(r as int),
            self.spec_min_value() <= r as int <= self.spec_max_value(),
    {
        match self {
            ValueOrRange::Value(v) => v,
            ValueOrRange::Range { start, end } => {
                let lo: i64 = fx_min(start, end);
                let hi: i64 = fx_max(start, end);
                rng.next_in_range(lo, hi)
            },
        }
    }
}

} // verus!
