//! Expansion limits and the cull rule.
//!
//! The cull rule is deliberately conservative over intervals: a candidate
//! is discarded only when, under any resolution of its intervals, it is
//! certain to be invisible (alpha below the floor), too deep, too small in
//! either axis, or off the canvas.  Growth-promoting factors are judged by
//! their maxima, shrink-promoting ones by their minima.

use crate::fixed::{fx_mul, spec_fx_mul};
use crate::node_properties::NodeProperties;
use vstd::prelude::*;

verus! {

/// The limits an expansion runs under.
#[derive(Clone, Copy, PartialEq, Eq, Structural, Debug)]
pub struct ExpandSettings {
    /// Hard cap on the cumulative count of accepted nodes.
    pub max_nodes: usize,
    /// Candidates deeper than this are culled.
    pub max_depth: u64,
    /// Candidates whose best alpha is below this are culled.
    pub min_a: i64,
    /// Candidates whose best scaled extent is below this are culled.
    pub min_p: i64,
}

/// Whether a candidate with the given absolute properties is discarded.
pub open spec fn spec_should_cull(s: ExpandSettings, p: NodeProperties) -> bool {
    ||| p.a.spec_max_value() < s.min_a as int
    ||| p.d > s.max_depth
    ||| spec_fx_mul(p.p.spec_max_value(), p.w.spec_max_value()) < s.min_p as int
    ||| spec_fx_mul(p.p.spec_max_value(), p.l.spec_max_value()) < s.min_p as int
    ||| p.x.spec_max_abs() - p.p.spec_min_value() > 15_000
    ||| p.y.spec_max_abs() - p.p.spec_min_value() > 15_000
}

impl ExpandSettings {
    /// Should a candidate node with these absolute properties be culled?
    pub fn should_cull_properties(&self, p: &NodeProperties) -> (r: bool)
        requires
            p.wf(),
        ensures
            r == spec_should_cull(*self, *p),
    {
        if p.a.max_value() < self.min_a {
            true
        } else if p.d > self.max_depth {
            true
        } else if fx_mul(p.p.max_value(), p.w.max_value()) < self.min_p {
            true
        } else if fx_mul(p.p.max_value(), p.l.max_value()) < self.min_p {
            true
        } else if p.x.max_abs() - p.p.min_value() > 15_000 {
            true
        } else {
            p.y.max_abs() - p.p.min_value() > 15_000
        }
    }
}

impl Default for ExpandSettings {
    /// One thousand nodes, twenty levels, and floors of one thousandth for
    /// alpha and size.
    fn default() -> (r: Self)
        ensures
            r == (ExpandSettings { max_nodes: 1000, max_depth: 20, min_a: 10, min_p: 10 }),
    {
        ExpandSettings { max_nodes: 1000, max_depth: 20, min_a: 10, min_p: 10 }
    }
}

/// How one expansion pass changed the tree.
#[derive(Clone, Copy, PartialEq, Eq, Structural, Debug, Default)]
pub struct ExpandStatistics {
    pub new_nodes: usize,
    pub nodes_culled: usize,
}

/// Saturating component sum of two tallies.
pub open spec fn spec_stats_add(a: ExpandStatistics, b: ExpandStatistics) -> ExpandStatistics {
    ExpandStatistics {
        new_nodes: (if a.new_nodes + b.new_nodes > usize::MAX as int {
            usize::MAX as int
        } else {
            a.new_nodes + b.new_nodes
        }) as usize,
        nodes_culled: (if a.nodes_culled + b.nodes_culled > usize::MAX as int {
            usize::MAX as int
        } else {
            a.nodes_culled + b.nodes_culled
        }) as usize,
    }
}

impl ExpandStatistics {
    /// Component-wise sum, saturating at the integer limit.
    pub fn add(self, rhs: &ExpandStatistics) -> (r: Self)
        ensures
            r == spec_stats_add(self, *rhs),
    {
        let new_nodes: usize = if self.new_nodes > usize::MAX - rhs.new_nodes {
            usize::MAX
        } else {
            self.new_nodes + rhs.new_nodes
        };
        let nodes_culled: usize = if self.nodes_culled > usize::MAX - rhs.nodes_culled {
            usize::MAX
        } else {
            self.nodes_culled + rhs.nodes_culled
        };
        ExpandStatistics { new_nodes, nodes_culled }
    }
}

} // verus!
