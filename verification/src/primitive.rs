//! The closed set of geometric primitives.

use crate::fixed::{fx_cos, fx_sin, spec_fx_cos, spec_fx_sin};
use crate::text::{eq_ignore_case, spec_lower};
use vstd::prelude::*;

verus! {

/// A primitive shape: circle, square, right triangle, or a regular polygon
/// of a given number of sides.
#[derive(Clone, Copy, PartialEq, Eq, Structural, Debug)]
pub enum Primitive {
    Circle,
    Square,
    RightTriangle,
    Polygon(usize),
}

/// The vertex of a regular unit polygon: the first vertex points straight
/// up and the rest follow clockwise by equal whole-circle fractions,
/// truncated to fixed-point degrees.
pub open spec fn spec_polygon_vertex(sides: int, k: int) -> (int, int) {
    let deg = (3_600_000 * k) / sides;
    (-spec_fx_sin(deg), -spec_fx_cos(deg))
}

impl Primitive {
    /// Unit-circle vertices of a regular polygon, as fixed-point pairs.
    pub fn get_polygon_points(sides: usize) -> (r: Vec<(i64, i64)>)
        requires
            1 <= sides <= 12,
        ensures
            r@.len() == sides,
            forall|k: int|
                0 <= k < sides ==> (r@[k].0 as int, r@[k].1 as int) == spec_polygon_vertex(
                    sides as int,
                    k,
                ),
            forall|k: int|
                0 <= k < sides ==> -10_000 <= (#[trigger] r@[k]).0 <= 10_000 && -10_000 <= r@[
                    k
                ].1 <= 10_000,
    {
        let mut out: Vec<(i64, i64)> = Vec::new();
        let mut k: usize = 0;
        while k < sides
            invariant
                1 <= sides <= 12,
                k <= sides,
                out@.len() == k,
                forall|j: int|
                    0 <= j < k ==> (out@[j].0 as int, out@[j].1 as int) == spec_polygon_vertex(
                        sides as int,
                        j,
                    ),
                forall|j: int|
                    0 <= j < k ==> -10_000 <= (#[trigger] out@[j]).0 <= 10_000 && -10_000 <= out@[
                        j
                    ].1 <= 10_000,
            decreases sides - k,
        {
            let deg: i64 = ((3_600_000u64 * (k as u64)) / (sides as u64)) as i64;
            proof {
                assert(deg as int == (3_600_000 * (k as int)) / (sides as int));
                assert(0 <= deg <= 3_600_000 * 12) by (nonlinear_arith)
                    requires
                        deg as int == (3_600_000 * (k as int)) / (sides as int),
                        0 <= k < sides <= 12,
            ;
            }
            let x: i64 = -fx_sin(deg);
            let y: i64 = -fx_cos(deg);
            out.push((x, y));
            k = k + 1;
        }
        out
    }

    /// Which primitive a (case-insensitive) name denotes.
    pub open spec fn spec_primitive_of(s: Seq<char>) -> Option<Primitive> {
        let t = spec_lower(s);
        if t == spec_lower("circle"@) {
            Some(Primitive::Circle)
        } else if t == spec_lower("square"@) {
            Some(Primitive::Square)
        } else if t == spec_lower("rtriangle"@) {
            Some(Primitive::RightTriangle)
        } else if t == spec_lower("triangle"@) {
            Some(Primitive::Polygon(3))
        } else if t == spec_lower("pentagon"@) {
            Some(Primitive::Polygon(5))
        } else if t == spec_lower("hexagon"@) {
            Some(Primitive::Polygon(6))
        } else if t == spec_lower("heptagon"@) {
            Some(Primitive::Polygon(7))
        } else if t == spec_lower("octagon"@) {
            Some(Primitive::Polygon(8))
        } else if t == spec_lower("nonagon"@) {
            Some(Primitive::Polygon(9))
        } else if t == spec_lower("decagon"@) {
            Some(Primitive::Polygon(10))
        } else if t == spec_lower("undecagon"@) {
            Some(Primitive::Polygon(11))
        } else if t == spec_lower("dodecagon"@) {
            Some(Primitive::Polygon(12))
        } else {
            None
        }
    }

    /// A primitive's sides are few: what the recognizer can return.
    pub open spec fn wf(self) -> bool {
        match self {
            Primitive::Polygon(n) => 3 <= n <= 12,
            _ => true,
        }
    }

    /// Recognize a primitive name, ignoring ASCII case.
    pub fn from_str(s: &str) -> (r: Option<Primitive>)
        ensures
            r == Self::spec_primitive_of(s@),
            r matches Some(p) ==> p.wf(),
    {
        if eq_ignore_case(s, "circle") {
            Some(Primitive::Circle)
        } else if eq_ignore_case(s, "square") {
            Some(Primitive::Square)
        } else if eq_ignore_case(s, "rtriangle") {
            Some(Primitive::RightTriangle)
        } else if eq_ignore_case(s, "triangle") {
            Some(Primitive::Polygon(3))
        } else if eq_ignore_case(s, "pentagon") {
            Some(Primitive::Polygon(5))
        } else if eq_ignore_case(s, "hexagon") {
            Some(Primitive::Polygon(6))
        } else if eq_ignore_case(s, "heptagon") {
            Some(Primitive::Polygon(7))
        } else if eq_ignore_case(s, "octagon") {
            Some(Primitive::Polygon(8))
        } else if eq_ignore_case(s, "nonagon") {
            Some(Primitive::Polygon(9))
        } else if eq_ignore_case(s, "decagon") {
            Some(Primitive::Polygon(10))
        } else if eq_ignore_case(s, "undecagon") {
            Some(Primitive::Polygon(11))
        } else if eq_ignore_case(s, "dodecagon") {
            Some(Primitive::Polygon(12))
        } else {
            None
        }
    }
}

} // verus!
