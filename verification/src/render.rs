//! Resolution of a finished tree into flat shape fragments.
//!
//! A fragment is one primitive with every interval resolved to a concrete
//! sampled scalar: center, extents scaled by the uniform scale, corner
//! radius, rotation (the node's own relative rotation), and the
//! hue/saturation/value/alpha color.  Nodes are visited depth-first; a
//! node with children contributes nothing itself, an unexpanded or
//! childless node contributes one fragment if it is a primitive.  Turning
//! a fragment into markup text is the caller's concern; the geometry of
//! polygonal outlines is available from `outline_points`.

use crate::fixed::{fx_mul, fx_wf, spec_fx_mul};
use crate::node::{lemma_deep_view_children, lemma_deep_view_fields, Node, NodeV};
use crate::node_properties::NodeProperties;
use crate::primitive::{spec_polygon_vertex, Primitive};
use crate::invocation::Method;
use crate::rng::Rng;
use vstd::prelude::*;

verus! {

/// One primitive with every property resolved to a concrete scalar.
#[derive(Clone, Copy, PartialEq, Eq, Structural, Debug)]
pub struct SvgFragment {
    pub kind: Primitive,
    pub x: i64,
    pub y: i64,
    pub rx: i64,
    pub ry: i64,
    pub corner: i64,
    pub rotation: i64,
    pub h: i64,
    pub s: i64,
    pub v: i64,
    pub a: i64,
}

/// The fragment a primitive resolves to, with the generator state after
/// the sampling: position, scale, extents, corner, rotation, then color,
/// each drawn in that fixed order.
pub open spec fn spec_fragment(
    kind: Primitive,
    rel: NodeProperties,
    abs: NodeProperties,
    s: u64,
) -> (SvgFragment, u64) {
    let x = abs.x.spec_random_value(s);
    let y = abs.y.spec_random_value(x.1);
    let pv = abs.p.spec_random_value(y.1);
    let wv = abs.w.spec_random_value(pv.1);
    let lv = abs.l.spec_random_value(wv.1);
    let cv = abs.c.spec_random_value(lv.1);
    let rot = rel.r.spec_random_value(cv.1);
    let hv = abs.h.spec_random_value(rot.1);
    let sv = abs.s.spec_random_value(hv.1);
    let vv = abs.v.spec_random_value(sv.1);
    let av = abs.a.spec_random_value(vv.1);
    (
        SvgFragment {
            kind,
            x: x.0 as i64,
            y: y.0 as i64,
            rx: spec_fx_mul(pv.0, wv.0) as i64,
            ry: spec_fx_mul(pv.0, lv.0) as i64,
            corner: spec_fx_mul(pv.0, cv.0) as i64,
            rotation: rot.0 as i64,
            h: hv.0 as i64,
            s: sv.0 as i64,
            v: vv.0 as i64,
            a: av.0 as i64,
        },
        av.1,
    )
}

impl Primitive {
    /// Resolve this primitive under its node's relative and absolute
    /// properties into one concrete fragment.
    pub fn to_fragment(
        self,
        relative_properties: &NodeProperties,
        absolute_properties: &NodeProperties,
        rng: &mut Rng,
    ) -> (r: SvgFragment)
        requires
            relative_properties.wf(),
            absolute_properties.wf(),
        ensures
            r == spec_fragment(
                self,
                *relative_properties,
                *absolute_properties,
                old(rng).state,
            ).0,
            final(rng).state == spec_fragment(
                self,
                *relative_properties,
                *absolute_properties,
                old(rng).state,
            ).1,
    {
        let x: i64 = absolute_properties.x.random_value(rng);
        let y: i64 = absolute_properties.y.random_value(rng);
        let pv: i64 = absolute_properties.p.random_value(rng);
        let wv: i64 = absolute_properties.w.random_value(rng);
        let lv: i64 = absolute_properties.l.random_value(rng);
        let cv: i64 = absolute_properties.c.random_value(rng);
        let rot: i64 = relative_properties.r.random_value(rng);
        let hv: i64 = absolute_properties.h.random_value(rng);
        let sv: i64 = absolute_properties.s.random_value(rng);
        let vv: i64 = absolute_properties.v.random_value(rng);
        let av: i64 = absolute_properties.a.random_value(rng);
        SvgFragment {
            kind: self,
            x,
            y,
            rx: fx_mul(pv, wv),
            ry: fx_mul(pv, lv),
            corner: fx_mul(pv, cv),
            rotation: rot,
            h: hv,
            s: sv,
            v: vv,
            a: av,
        }
    }
}

/// The corner of a right triangle's unit outline: apex up, then the two
/// base corners.
pub open spec fn spec_rtriangle_vertex(k: int) -> (int, int) {
    if k == 0 {
        (0, -10_000)
    } else if k == 1 {
        (10_000, 10_000)
    } else {
        (-10_000, 10_000)
    }
}

impl SvgFragment {
    /// The outline of a polygonal fragment: unit vertices scaled by the
    /// resolved extents and translated to the resolved center.  A circle
    /// or square has no polygonal outline.
    #[verifier::rlimit(100)]
    #[verifier::spinoff_prover]
    pub fn outline_points(&self) -> (r: Option<Vec<(i64, i64)>>)
        requires
            fx_wf(self.x as int),
            fx_wf(self.y as int),
            fx_wf(self.rx as int),
            fx_wf(self.ry as int),
        ensures
            (match self.kind {
                Primitive::RightTriangle => r matches Some(pts) && pts@.len() == 3 && forall|
                    k: int,
                |
                    0 <= k < 3 ==> (#[trigger] pts@[k]).0 as int == crate::fixed::spec_fx_add(
                        spec_fx_mul(spec_rtriangle_vertex(k).0, self.rx as int),
                        self.x as int,
                    ) && pts@[k].1 as int == crate::fixed::spec_fx_add(
                        spec_fx_mul(spec_rtriangle_vertex(k).1, self.ry as int),
                        self.y as int,
                    ),
                Primitive::Polygon(n) => (3 <= n <= 12) ==> (r matches Some(pts) && pts@.len()
                    == n && forall|k: int|
                    0 <= k < n ==> (#[trigger] pts@[k]).0 as int == crate::fixed::spec_fx_add(
                        spec_fx_mul(spec_polygon_vertex(n as int, k).0, self.rx as int),
                        self.x as int,
                    ) && pts@[k].1 as int == crate::fixed::spec_fx_add(
                        spec_fx_mul(spec_polygon_vertex(n as int, k).1, self.ry as int),
                        self.y as int,
                    )),
                _ => r is None,
            }),
    {
        match self.kind {
            Primitive::Circle => None,
            Primitive::Square => None,
            Primitive::RightTriangle => {
                let mut pts: Vec<(i64, i64)> = Vec::new();
                pts.push(
                    (
                        crate::fixed::fx_add(fx_mul(0, self.rx), self.x),
                        crate::fixed::fx_add(fx_mul(-10_000, self.ry), self.y),
                    ),
                );
                pts.push(
                    (
                        crate::fixed::fx_add(fx_mul(10_000, self.rx), self.x),
                        crate::fixed::fx_add(fx_mul(10_000, self.ry), self.y),
                    ),
                );
                pts.push(
                    (
                        crate::fixed::fx_add(fx_mul(-10_000, self.rx), self.x),
                        crate::fixed::fx_add(fx_mul(10_000, self.ry), self.y),
                    ),
                );
                Some(pts)
            },
            Primitive::Polygon(n) => {
                if n < 3 || n > 12 {
                    return None;
                }
                let unit: Vec<(i64, i64)> = Primitive::get_polygon_points(n);
                let mut pts: Vec<(i64, i64)> = Vec::new();
                let mut k: usize = 0;
                while k < unit.len()
                    invariant
                        unit@.len() == n,
                        3 <= n <= 12,
                        fx_wf(self.x as int),
                        fx_wf(self.y as int),
                        fx_wf(self.rx as int),
                        fx_wf(self.ry as int),
                        forall|j: int|
                            0 <= j < n ==> (unit@[j].0 as int, unit@[j].1 as int)
                                == spec_polygon_vertex(n as int, j),
                        forall|j: int|
                            0 <= j < n ==> -10_000 <= (#[trigger] unit@[j]).0 <= 10_000 && -10_000
                                <= unit@[j].1 <= 10_000,
                        k <= n,
                        pts@.len() == k,
                        forall|j: int|
                            0 <= j < k ==> (#[trigger] pts@[j]).0 as int
                                == crate::fixed::spec_fx_add(
                                spec_fx_mul(spec_polygon_vertex(n as int, j).0, self.rx as int),
                                self.x as int,
                            ) && pts@[j].1 as int == crate::fixed::spec_fx_add(
                                spec_fx_mul(spec_polygon_vertex(n as int, j).1, self.ry as int),
                                self.y as int,
                            ),
                    decreases unit@.len() - k,
                {
                    let (ux, uy): (i64, i64) = unit[k];
                    proof {
                        assert((unit@[k as int].0 as int, unit@[k as int].1 as int)
                            == spec_polygon_vertex(n as int, k as int));
                    }
                    pts.push(
                        (
                            crate::fixed::fx_add(fx_mul(ux, self.rx), self.x),
                            crate::fixed::fx_add(fx_mul(uy, self.ry), self.y),
                        ),
                    );
                    k = k + 1;
                }
                Some(pts)
            },
        }
    }
}

/// The fragments a finished tree resolves to, depth-first, with the
/// generator state after the sampling.  A node with children contributes
/// nothing itself; a childless node contributes one fragment if it is a
/// primitive, nothing for the root or an unexpanded rule reference.
#[verifier::opaque]
pub open spec fn spec_render(n: NodeV, s: u64) -> (Seq<SvgFragment>, u64)
    decreases n,
{
    if n.children is Some && n.children->0.len() > 0 {
        spec_render_forest(n.children->0, s)
    } else {
        match n.method {
            Method::Primitive(k) => {
                let f = spec_fragment(k, n.relative, n.absolute, s);
                (seq![f.0], f.1)
            },
            _ => (Seq::empty(), s),
        }
    }
}

/// Depth-first fragments of a forest of siblings.
#[verifier::opaque]
pub open spec fn spec_render_forest(cs: Seq<NodeV>, s: u64) -> (Seq<SvgFragment>, u64)
    decreases cs,
{
    if cs.len() == 0 {
        (Seq::empty(), s)
    } else {
        let first = spec_render(cs[0], s);
        let rest = spec_render_forest(cs.drop_first(), first.1);
        (first.0 + rest.0, rest.1)
    }
}

/// How many fragments a finished tree resolves to: one for each
/// primitive node with no children to pass into; the root and unexpanded
/// rule references contribute none.
pub open spec fn spec_leaf_count(n: NodeV) -> nat
    decreases n,
{
    if n.children is Some && n.children->0.len() > 0 {
        spec_leaf_count_forest(n.children->0)
    } else {
        match n.method {
            Method::Primitive(_) => 1nat,
            _ => 0nat,
        }
    }
}

/// The fragment count of a forest of siblings.
pub open spec fn spec_leaf_count_forest(cs: Seq<NodeV>) -> nat
    decreases cs,
{
    if cs.len() == 0 {
        0nat
    } else {
        spec_leaf_count(cs[0]) + spec_leaf_count_forest(cs.drop_first())
    }
}

/// Rendering yields exactly one fragment per renderable leaf, whatever
/// the generator state: a node with children contributes none of its own,
/// so the synthetic root never adds a shape, and a tree holding exactly
/// one primitive leaf renders to exactly one fragment.
pub proof fn lemma_render_count(n: NodeV, s: u64)
    ensures
        spec_render(n, s).0.len() == spec_leaf_count(n),
    decreases n, 0int,
{
    if n.children is Some && n.children->0.len() > 0 {
        lemma_render_count_forest(n.children->0, s);
        assert(spec_render(n, s).0 == spec_render_forest(n.children->0, s).0) by {
            reveal_with_fuel(spec_render, 2);
            reveal_with_fuel(spec_render_forest, 1);
        }
    } else {
        reveal_with_fuel(spec_render, 2);
        match n.method {
            Method::Primitive(k) => {
                assert(spec_render(n, s).0 =~= seq![
                    spec_fragment(k, n.relative, n.absolute, s).0
                ]);
            },
            _ => {
                assert(spec_render(n, s).0 =~= Seq::<SvgFragment>::empty());
            },
        }
    }
}

/// Rendering a forest yields the sum of its trees' fragment counts.
pub proof fn lemma_render_count_forest(cs: Seq<NodeV>, s: u64)
    ensures
        spec_render_forest(cs, s).0.len() == spec_leaf_count_forest(cs),
    decreases cs, 1int,
{
    reveal_with_fuel(spec_render, 2);
    reveal_with_fuel(spec_render_forest, 2);
    if cs.len() > 0 {
        lemma_render_count(cs[0], s);
        lemma_render_count_forest(cs.drop_first(), spec_render(cs[0], s).1);
    }
}

/// The fragments of the siblings of `cs` from entry `i` on.
#[verifier::rlimit(100)]
#[verifier::spinoff_prover]
fn render_forest(cs: &Vec<Node>, i: usize, rng: &mut Rng) -> (r: Vec<SvgFragment>)
    requires
        i <= cs@.len(),
        forall|k: int| 0 <= k < cs@.len() ==> (#[trigger] cs@[k]).deep_view().tree_wf(),
    ensures
        r@ == spec_render_forest(
            cs@.map_values(|n: Node| n.deep_view()).skip(i as int),
            old(rng).state,
        ).0,
        final(rng).state == spec_render_forest(
            cs@.map_values(|n: Node| n.deep_view()).skip(i as int),
            old(rng).state,
        ).1,
    decreases *cs, cs@.len() - i,
{
    proof {
        reveal(spec_render_forest);
    }
    let ghost views: Seq<NodeV> = cs@.map_values(|n: Node| n.deep_view());
    if i == cs.len() {
        let r: Vec<SvgFragment> = Vec::new();
        proof {
            assert(views.skip(i as int).len() == 0);
            assert(r@ =~= Seq::<SvgFragment>::empty());
        }
        return r;
    }
    proof {
        assert(views.skip(i as int)[0] == views[i as int]);
        assert(views[i as int] == cs@[i as int].deep_view());
        assert(decreases_to!(*cs => cs@));
        assert(decreases_to!(cs@ => cs@[i as int]));
        assert(views.skip(i as int).drop_first() =~= views.skip(i as int + 1));
    }
    let mut out: Vec<SvgFragment> = cs[i].render(rng);
    let mut rest: Vec<SvgFragment> = render_forest(cs, i + 1, rng);
    let ghost out0: Seq<SvgFragment> = out@;
    let ghost rest0: Seq<SvgFragment> = rest@;
    out.append(&mut rest);
    proof {
        assert(out@ =~= out0 + rest0);
    }
    out
}

impl Node {
    /// Resolve this finished tree into its fragments, depth-first.  The
    /// result is a function of (tree, generator state) alone, so the same
    /// tree and state render identically.
    #[verifier::rlimit(100)]
    #[verifier::spinoff_prover]
    pub fn render(&self, rng: &mut Rng) -> (r: Vec<SvgFragment>)
        requires
            self.deep_view().tree_wf(),
        ensures
            r@ == spec_render(self.deep_view(), old(rng).state).0,
            final(rng).state == spec_render(self.deep_view(), old(rng).state).1,
        decreases *self, 0int,
    {
        let ghost self_v: NodeV = self.deep_view();
        proof {
            reveal(spec_render);
            lemma_deep_view_fields(*self);
            if self.children is Some {
                lemma_deep_view_children(*self);
            }
        }
        let has_children: bool = match &self.children {
            Some(cs) => cs.len() > 0,
            None => false,
        };
        if has_children {
            match &self.children {
                Some(cs) => {
                    let ghost cs_views: Seq<NodeV> = cs@.map_values(|n: Node| n.deep_view());
                    proof {
                        lemma_deep_view_children(*self);
                        assert(self_v.children == Some(cs_views));
                        assert forall|k: int| 0 <= k < cs@.len() implies (
                        #[trigger] cs@[k]).deep_view().tree_wf() by {
                            assert(cs_views[k] == cs@[k].deep_view());
                            assert(self_v.children->0[k].tree_wf());
                        }
                        assert(decreases_to!(*self => self.children));
                        assert(self.children->0 == *cs);
                        assert(decreases_to!(self.children => *cs));
                        assert(cs_views.skip(0) =~= cs_views);
                    }
                    render_forest(cs, 0, rng)
                },
                None => {
                    proof {
                        assert(false);
                    }
                    Vec::new()
                },
            }
        } else {
            match &self.method {
                Method::Primitive(k) => {
                    let f: SvgFragment = k.to_fragment(
                        &self.relative_properties,
                        &self.absolute_properties,
                        rng,
                    );
                    let mut out: Vec<SvgFragment> = Vec::new();
                    out.push(f);
                    proof {
                        assert(out@ =~= seq![f]);
                    }
                    out
                },
                _ => {
                    let r: Vec<SvgFragment> = Vec::new();
                    proof {
                        assert(r@ =~= Seq::<SvgFragment>::empty());
                    }
                    r
                },
            }
        }
    }
}

} // verus!
