//! The twelve named properties of a node and their composition.
//!
//! Eleven interval-valued fields — position `x`, `y`; uniform scale `p`;
//! axis extents `l`, `w`; corner radius `c`; rotation `r`; hue `h`;
//! saturation `s`; value `v`; alpha `a` — and one whole recursion depth
//! `d`.  Composition combines a parent's absolute properties with a
//! child's locally evaluated relative properties into the child's absolute
//! properties: rotation-aware translation, multiplicative scale and alpha,
//! additive (clamped) saturation and value, wrapping rotation and hue, and
//! a depth increment.

use crate::fixed::{DEG_FULL, SCALE};
use crate::value_or_range::ValueOrRange;
use vstd::prelude::*;

verus! {

/// Both ends of the quantity are at least zero.
pub open spec fn val_nonneg(v: ValueOrRange) -> bool {
    v.spec_bounds().0 >= 0 && v.spec_bounds().1 >= 0
}

/// Both ends of the quantity lie in the unit interval.
pub open spec fn val_unit(v: ValueOrRange) -> bool {
    0 <= v.spec_bounds().0 <= SCALE as int && 0 <= v.spec_bounds().1 <= SCALE as int
}

/// Both ends of the quantity lie in `[0, 360)` degrees.
pub open spec fn val_degrees(v: ValueOrRange) -> bool {
    0 <= v.spec_bounds().0 < DEG_FULL as int && 0 <= v.spec_bounds().1 < DEG_FULL as int
}

/// Saturating sum of two whole depths.
pub open spec fn spec_sat_add(a: int, b: int) -> int {
    if a + b > u64::MAX as int {
        u64::MAX as int
    } else {
        a + b
    }
}

/// The named properties of one node.
#[derive(Clone, Copy, PartialEq, Eq, Structural, Debug)]
pub struct NodeProperties {
    pub p: ValueOrRange,
    pub l: ValueOrRange,
    pub w: ValueOrRange,
    pub c: ValueOrRange,
    pub x: ValueOrRange,
    pub y: ValueOrRange,
    pub r: ValueOrRange,
    pub h: ValueOrRange,
    pub s: ValueOrRange,
    pub v: ValueOrRange,
    pub a: ValueOrRange,
    pub d: u64,
}

impl NodeProperties {
    /// Every interval field is well-formed.
    pub open spec fn wf(self) -> bool {
        &&& self.p.wf()
        &&& self.l.wf()
        &&& self.w.wf()
        &&& self.c.wf()
        &&& self.x.wf()
        &&& self.y.wf()
        &&& self.r.wf()
        &&& self.h.wf()
        &&& self.s.wf()
        &&& self.v.wf()
        &&& self.a.wf()
    }

    /// The ranges that absolute (composed) properties always stay in:
    /// scale and extents non-negative, saturation, value and alpha in the
    /// unit interval, rotation and hue in `[0, 360)` degrees.
    pub open spec fn abs_wf(self) -> bool {
        &&& val_nonneg(self.p)
        &&& val_nonneg(self.l)
        &&& val_nonneg(self.w)
        &&& val_unit(self.c)
        &&& val_unit(self.s)
        &&& val_unit(self.v)
        &&& val_unit(self.a)
        &&& val_degrees(self.r)
        &&& val_degrees(self.h)
    }

    pub open spec fn spec_default_initial() -> Self {
        NodeProperties {
            p: ValueOrRange::Value(SCALE),
            l: ValueOrRange::Value(SCALE),
            w: ValueOrRange::Value(SCALE),
            c: ValueOrRange::Value(0),
            x: ValueOrRange::Value(0),
            y: ValueOrRange::Value(0),
            r: ValueOrRange::Value(0),
            h: ValueOrRange::Value(0),
            s: ValueOrRange::Value(SCALE),
            v: ValueOrRange::Value(0),
            a: ValueOrRange::Value(SCALE),
            d: 0,
        }
    }

    /// The starting state of the synthetic root: unit scale and extents,
    /// full saturation and alpha, everything else zero.
    pub fn default_initial() -> (r: Self)
        ensures
            r == Self::spec_default_initial(),
            r.wf(),
            r.abs_wf(),
    {
        NodeProperties {
            p: ValueOrRange::Value(SCALE),
            l: ValueOrRange::Value(SCALE),
            w: ValueOrRange::Value(SCALE),
            c: ValueOrRange::Value(0),
            x: ValueOrRange::Value(0),
            y: ValueOrRange::Value(0),
            r: ValueOrRange::Value(0),
            h: ValueOrRange::Value(0),
            s: ValueOrRange::Value(SCALE),
            v: ValueOrRange::Value(0),
            a: ValueOrRange::Value(SCALE),
            d: 0,
        }
    }

    pub open spec fn spec_default_additive() -> Self {
        NodeProperties {
            p: ValueOrRange::Value(SCALE),
            l: ValueOrRange::Value(SCALE),
            w: ValueOrRange::Value(SCALE),
            c: ValueOrRange::Value(0),
            x: ValueOrRange::Value(0),
            y: ValueOrRange::Value(0),
            r: ValueOrRange::Value(0),
            h: ValueOrRange::Value(0),
            s: ValueOrRange::Value(0),
            v: ValueOrRange::Value(0),
            a: ValueOrRange::Value(SCALE),
            d: 1,
        }
    }

    /// The base onto which an invocation's explicit properties are laid
    /// before composition with the parent: neutral for every compounding
    /// field and a depth contribution of one.
    pub fn default_additive() -> (r: Self)
        ensures
            r == Self::spec_default_additive(),
            r.wf(),
    {
        NodeProperties {
            p: ValueOrRange::Value(SCALE),
            l: ValueOrRange::Value(SCALE),
            w: ValueOrRange::Value(SCALE),
            c: ValueOrRange::Value(0),
            x: ValueOrRange::Value(0),
            y: ValueOrRange::Value(0),
            r: ValueOrRange::Value(0),
            h: ValueOrRange::Value(0),
            s: ValueOrRange::Value(0),
            v: ValueOrRange::Value(0),
            a: ValueOrRange::Value(SCALE),
            d: 1,
        }
    }

    pub open spec fn spec_make_absolute(self, child: Self) -> Self {
        let x2 = self.p.spec_mul(
            self.r.spec_cos_degrees().spec_mul(child.x).spec_sub(
                self.r.spec_sin_degrees().spec_mul(child.y),
            ),
        );
        let y2 = self.p.spec_mul(
            self.r.spec_sin_degrees().spec_mul(child.x).spec_add(
                self.r.spec_cos_degrees().spec_mul(child.y),
            ),
        );
        NodeProperties {
            p: self.p.spec_mul(child.p).spec_max(0),
            l: self.l.spec_mul(child.l.spec_max(0)),
            w: self.w.spec_mul(child.w.spec_max(0)),
            c: self.c.spec_add(child.c).spec_clamp(0, SCALE as int),
            x: self.x.spec_add(x2),
            y: self.y.spec_add(y2),
            r: self.r.spec_add(child.r).spec_mod360(),
            h: self.h.spec_add(child.h).spec_mod360(),
            s: self.s.spec_add(child.s).spec_clamp(0, SCALE as int),
            v: self.v.spec_add(child.v).spec_clamp(0, SCALE as int),
            a: self.a.spec_mul(child.a).spec_clamp(0, SCALE as int),
            d: spec_sat_add(self.d as int, child.d as int) as u64,
        }
    }

    /// Compose this parent's absolute properties with a child's relative
    /// ones into the child's absolute properties.  The absolute ranges
    /// (`abs_wf`) are re-established for the child whatever the relative
    /// properties were, as long as the parent had them; depth never
    /// decreases from parent to child.
    pub fn make_absolute(&self, child: &Self) -> (r: Self)
        requires
            self.wf(),
            child.wf(),
        ensures
            r == self.spec_make_absolute(*child),
            r.wf(),
            self.abs_wf() ==> r.abs_wf(),
            r.d >= self.d,
    {
        let cos: ValueOrRange = self.r.cos_degrees();
        let sin: ValueOrRange = self.r.sin_degrees();
        let x2: ValueOrRange = self.p.mul(cos.mul(child.x).sub(sin.mul(child.y)));
        let y2: ValueOrRange = self.p.mul(sin.mul(child.x).add(cos.mul(child.y)));
        let d: u64 = if self.d > u64::MAX - child.d {
            u64::MAX
        } else {
            self.d + child.d
        };
        let r = NodeProperties {
            p: self.p.mul(child.p).max(0),
            l: self.l.mul(child.l.max(0)),
            w: self.w.mul(child.w.max(0)),
            c: self.c.add(child.c).clamp(0, SCALE),
            x: self.x.add(x2),
            y: self.y.add(y2),
            r: self.r.add(child.r).mod360(),
            h: self.h.add(child.h).mod360(),
            s: self.s.add(child.s).clamp(0, SCALE),
            v: self.v.add(child.v).clamp(0, SCALE),
            a: self.a.mul(child.a).clamp(0, SCALE),
            d,
        };
        proof {
            if self.abs_wf() {
                lemma_mul_nonneg(self.l, child.l.spec_max(0));
                lemma_mul_nonneg(self.w, child.w.spec_max(0));
            }
        }
        r
    }
}

/// The pointwise product of two non-negative quantities is non-negative.
proof fn lemma_mul_nonneg(a: ValueOrRange, b: ValueOrRange)
    requires
        a.wf(),
        b.wf(),
        val_nonneg(a),
        val_nonneg(b),
    ensures
        val_nonneg(a.spec_mul(b)),
{
}

} // verus!
