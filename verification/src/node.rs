//! The generative tree and the expansion engine.
//!
//! A node carries the method it was invoked by, its locally evaluated
//! (relative) properties, its composed (absolute) properties, and a
//! two-state child slot: not yet expanded, or expanded to a list of
//! children.  One pass walks the whole tree, expanding every node still
//! unexpanded by one level; the driver repeats passes until a pass adds
//! nothing or the node budget is reached.  A node, once expanded, is never
//! re-expanded, and a discarded candidate is never attached.
//!
//! Every step is a pure function of (tree, grammar, settings, generator
//! state), mirrored exactly by the `spec_` functions below; expansion is
//! therefore deterministic: the same grammar, settings and seed give the
//! same tree.

use crate::expand_settings::{spec_should_cull, spec_stats_add, ExpandSettings, ExpandStatistics};
use crate::expression::{lemma_eval_ok, lemma_eval_or_ok, spec_eval_or, vars_defined_or};
use crate::grammar::{
    defs_wf, lemma_rule_index_in_range, method_resolves, rule_index, spec_rule_index, Grammar,
};
use crate::invocation::{Invocation, Method};
use crate::node_properties::NodeProperties;
use crate::properties::TempProperty;
use crate::rng::{spec_rng_draw, spec_rng_step, Rng};
use crate::user_rules::{RuleCase, UserRule};
use crate::value_or_range::ValueOrRange;
use vstd::prelude::*;

verus! {

/// One node of the generative tree.
#[derive(PartialEq, Debug)]
pub struct Node {
    pub method: Method,
    pub relative_properties: NodeProperties,
    pub absolute_properties: NodeProperties,
    pub children: Option<Vec<Node>>,
}

/// The mathematical shape of a node: the same fields with the children as
/// a sequence.
pub ghost struct NodeV {
    pub method: Method,
    pub relative: NodeProperties,
    pub absolute: NodeProperties,
    pub children: Option<Seq<NodeV>>,
}

impl Node {
    /// The mathematical shape of this tree.
    #[verifier::opaque]
    pub open spec fn deep_view(self) -> NodeV
        decreases self,
    {
        NodeV {
            method: self.method,
            relative: self.relative_properties,
            absolute: self.absolute_properties,
            children: match self.children {
                None => None,
                Some(cs) => Some(
                    Seq::new(
                        cs@.len(),
                        |i: int|
                            if 0 <= i < cs@.len() {
                                cs@[i].deep_view()
                            } else {
                                arbitrary()
                            },
                    ),
                ),
            },
        }
    }
}

impl NodeV {
    /// Structural soundness of a tree: all properties well-formed, the
    /// absolute ones inside their guaranteed ranges, and depth never
    /// decreasing from a node to its children.
    pub open spec fn tree_wf(self) -> bool
        decreases self,
    {
        &&& self.method.wf()
        &&& self.relative.wf()
        &&& self.absolute.wf()
        &&& self.absolute.abs_wf()
        &&& match self.children {
            None => true,
            Some(cs) => forall|i: int|
                0 <= i < cs.len() ==> (#[trigger] cs[i]).tree_wf() && cs[i].absolute.d
                    >= self.absolute.d,
        }
    }

    /// Every rule reference in the tree resolves against the given rules.
    pub open spec fn tree_resolves(self, rules: Seq<UserRule>) -> bool
        decreases self,
    {
        &&& method_resolves(self.method, rules)
        &&& match self.children {
            None => true,
            Some(cs) => forall|i: int| 0 <= i < cs.len() ==> (#[trigger] cs[i]).tree_resolves(
                rules,
            ),
        }
    }

}

/// The properties an invocation's written assignments give, laid over the
/// additive default in declaration order, starting at entry `i`, with the
/// generator state after the evaluation.  An assignment that fails to
/// evaluate is skipped; under a valid grammar none fails.
pub open spec fn spec_from_temp_from(
    acc: NodeProperties,
    list: Seq<TempProperty>,
    i: int,
    defs: Seq<(String, i64)>,
    ctx: NodeProperties,
    s: u64,
) -> (NodeProperties, u64)
    decreases list.len() - i,
{
    if i < 0 || i >= list.len() {
        (acc, s)
    } else {
        let evaluated = spec_eval_or(list[i].value, defs, ctx, s);
        match evaluated.0 {
            Ok(v) => spec_from_temp_from(
                list[i].key.spec_set(acc, v),
                list,
                i + 1,
                defs,
                ctx,
                evaluated.1,
            ),
            Err(_) => spec_from_temp_from(acc, list, i + 1, defs, ctx, evaluated.1),
        }
    }
}

/// The evaluated relative properties of an invocation.
pub open spec fn spec_from_temp(
    list: Seq<TempProperty>,
    defs: Seq<(String, i64)>,
    ctx: NodeProperties,
    s: u64,
) -> (NodeProperties, u64) {
    spec_from_temp_from(NodeProperties::spec_default_additive(), list, 0, defs, ctx, s)
}

impl NodeProperties {
    /// Evaluate an invocation's written properties against the grammar's
    /// constants and the parent context, laying them over the additive
    /// default in declaration order.
    pub fn from_temp(
        vector: &Vec<TempProperty>,
        grammar: &Grammar,
        context: &NodeProperties,
        rng: &mut Rng,
    ) -> (r: NodeProperties)
        requires
            defs_wf(grammar.defs@),
            context.wf(),
            forall|i: int| 0 <= i < vector@.len() ==> (#[trigger] vector@[i]).value.wf(),
            forall|i: int|
                0 <= i < vector@.len() ==> vars_defined_or(
                    (#[trigger] vector@[i]).value,
                    grammar.defs@,
                ),
        ensures
            r == spec_from_temp(vector@, grammar.defs@, *context, old(rng).state).0,
            final(rng).state == spec_from_temp(vector@, grammar.defs@, *context, old(rng).state).1,
            r.wf(),
    {
        let ghost s0: u64 = rng.state;
        let mut properties: NodeProperties = NodeProperties::default_additive();
        let mut i: usize = 0;
        while i < vector.len()
            invariant
                defs_wf(grammar.defs@),
                context.wf(),
                forall|k: int| 0 <= k < vector@.len() ==> (#[trigger] vector@[k]).value.wf(),
                forall|k: int|
                    0 <= k < vector@.len() ==> vars_defined_or(
                        (#[trigger] vector@[k]).value,
                        grammar.defs@,
                    ),
                i <= vector@.len(),
                properties.wf(),
                spec_from_temp(vector@, grammar.defs@, *context, s0) == spec_from_temp_from(
                    properties,
                    vector@,
                    i as int,
                    grammar.defs@,
                    *context,
                    rng.state,
                ),
            decreases vector@.len() - i,
        {
            let prop: &TempProperty = &vector[i];
            proof {
                lemma_eval_or_ok(prop.value, grammar.defs@, *context, rng.state);
            }
            let value: ValueOrRange = match prop.value.try_get_value(grammar, context, rng) {
                Ok(v) => v,
                Err(_) => ValueOrRange::Value(0),
            };
            prop.key.set(&mut properties, value);
            i = i + 1;
        }
        properties
    }
}

/// The node an invocation instantiates under a parent's absolute
/// properties, with the generator state after its property evaluation.
pub open spec fn spec_to_node(
    inv: Invocation,
    parent: NodeProperties,
    defs: Seq<(String, i64)>,
    s: u64,
) -> (NodeV, u64) {
    let evaluated = spec_from_temp(inv.properties@, defs, parent, s);
    (
        NodeV {
            method: inv.method,
            relative: evaluated.0,
            absolute: parent.spec_make_absolute(evaluated.0),
            children: None,
        },
        evaluated.1,
    )
}

/// What holds of every freshly instantiated candidate node: unexpanded,
/// well-formed, no shallower than its parent, with a method that resolves;
/// and structurally sound whenever the parent's absolute ranges held.
pub open spec fn child_ok(n: Node, parent: NodeProperties, g: Grammar) -> bool {
    &&& n.children is None
    &&& n.relative_properties.wf()
    &&& n.absolute_properties.wf()
    &&& n.absolute_properties.d >= parent.d
    &&& method_resolves(n.method, g.rules@)
    &&& (parent.abs_wf() ==> n.deep_view().tree_wf())
}

/// The shallow fields of a node's mathematical shape are its own fields.
pub proof fn lemma_deep_view_fields(n: Node)
    ensures
        n.deep_view().method == n.method,
        n.deep_view().relative == n.relative_properties,
        n.deep_view().absolute == n.absolute_properties,
        n.children is Some <==> n.deep_view().children is Some,
{
    reveal(Node::deep_view);
}

/// The mathematical shape of an expanded node's children, entry by entry.
pub proof fn lemma_deep_view_children(n: Node)
    requires
        n.children is Some,
    ensures
        n.deep_view().children == Some(
            (n.children->0)@.map_values(|c: Node| c.deep_view()),
        ),
{
    reveal(Node::deep_view);
    let cs = n.children->0;
    assert(Seq::new(
        cs@.len(),
        |i: int|
            if 0 <= i < cs@.len() {
                cs@[i].deep_view()
            } else {
                arbitrary()
            },
    ) =~= cs@.map_values(|c: Node| c.deep_view()));
}

/// Replacing an expanded node's children with new ones of equal count,
/// each sound and no shallower, keeps the tree sound.
pub proof fn lemma_rebuild_tree(
    old_v: NodeV,
    cs_views: Seq<NodeV>,
    new_views: Seq<NodeV>,
    rules: Seq<UserRule>,
)
    requires
        old_v.tree_wf(),
        old_v.tree_resolves(rules),
        old_v.children == Some(cs_views),
        new_views.len() == cs_views.len(),
        forall|k: int|
            0 <= k < new_views.len() ==> {
                &&& (#[trigger] new_views[k]).tree_wf()
                &&& new_views[k].tree_resolves(rules)
                &&& new_views[k].absolute == cs_views[k].absolute
            },
    ensures
        (NodeV {
            method: old_v.method,
            relative: old_v.relative,
            absolute: old_v.absolute,
            children: Some(new_views),
        }).tree_wf(),
        (NodeV {
            method: old_v.method,
            relative: old_v.relative,
            absolute: old_v.absolute,
            children: Some(new_views),
        }).tree_resolves(rules),
{
    let rebuilt = NodeV {
        method: old_v.method,
        relative: old_v.relative,
        absolute: old_v.absolute,
        children: Some(new_views),
    };
    assert forall|k: int| 0 <= k < new_views.len() implies (#[trigger] new_views[k]).tree_wf()
        && new_views[k].absolute.d >= rebuilt.absolute.d by {
        assert(cs_views[k].tree_wf() && cs_views[k].absolute.d >= old_v.absolute.d);
    }
}

impl Invocation {
    /// Instantiate this invocation as a fresh, unexpanded node: evaluate
    /// its written properties against the parent context and compose them
    /// with the parent's absolute properties.
    pub fn to_node(
        &self,
        parent_properties: &NodeProperties,
        grammar: &Grammar,
        rng: &mut Rng,
    ) -> (r: Node)
        requires
            defs_wf(grammar.defs@),
            parent_properties.wf(),
            self.wf(),
            method_resolves(self.method, grammar.rules@),
            forall|i: int|
                0 <= i < self.properties@.len() ==> vars_defined_or(
                    (#[trigger] self.properties@[i]).value,
                    grammar.defs@,
                ),
        ensures
            r.deep_view() == spec_to_node(*self, *parent_properties, grammar.defs@, old(
                rng,
            ).state).0,
            final(rng).state == spec_to_node(*self, *parent_properties, grammar.defs@, old(
                rng,
            ).state).1,
            child_ok(r, *parent_properties, *grammar),
    {
        proof {
            reveal(Node::deep_view);
        }
        let relative: NodeProperties = NodeProperties::from_temp(
            &self.properties,
            grammar,
            parent_properties,
            rng,
        );
        let absolute: NodeProperties = parent_properties.make_absolute(&relative);
        Node {
            method: self.method.duplicate(),
            relative_properties: relative,
            absolute_properties: absolute,
            children: None,
        }
    }
}

/// Which case of an ordered case list fires first, with the gating stream
/// state after the scan: cases are tried in order and the scan stops at
/// the first that enters.
pub open spec fn spec_select_case(
    cases: Seq<RuleCase>,
    defs: Seq<(String, i64)>,
    ctx: NodeProperties,
    s: u64,
) -> (Option<int>, u64)
    decreases cases.len(),
{
    if cases.len() == 0 {
        (None, s)
    } else {
        let first = cases[0].spec_should_enter(defs, ctx, s);
        if first.0 {
            (Some(0), first.1)
        } else {
            let rest = spec_select_case(cases.drop_first(), defs, ctx, first.1);
            (
                match rest.0 {
                    Some(i) => Some(i + 1),
                    None => None,
                },
                rest.1,
            )
        }
    }
}

/// Scan a rule's cases from entry `i` on and return the index of the
/// first whose gate passes, if any.
fn select_case_from(
    cases: &Vec<RuleCase>,
    i: usize,
    grammar: &Grammar,
    context: &NodeProperties,
    rng: &mut Rng,
) -> (r: Option<usize>)
    requires
        defs_wf(grammar.defs@),
        context.wf(),
        forall|k: int| 0 <= k < cases@.len() ==> grammar.case_ok(#[trigger] cases@[k]),
        i <= cases@.len(),
    ensures
        (match r {
            Some(k) => i <= k < cases@.len() && spec_select_case(
                cases@.skip(i as int),
                grammar.defs@,
                *context,
                old(rng).state,
            ).0 == Some(k - i),
            None => spec_select_case(
                cases@.skip(i as int),
                grammar.defs@,
                *context,
                old(rng).state,
            ).0 is None,
        }),
        final(rng).state == spec_select_case(
            cases@.skip(i as int),
            grammar.defs@,
            *context,
            old(rng).state,
        ).1,
    decreases cases@.len() - i,
{
    if i == cases.len() {
        proof {
            assert(cases@.skip(i as int).len() == 0);
        }
        return None;
    }
    proof {
        assert(cases@.skip(i as int)[0] == cases@[i as int]);
        assert(grammar.case_ok(cases@[i as int]));
        match cases@[i as int].probability {
            Some(e) => {
                lemma_eval_ok(e, grammar.defs@, *context);
            },
            None => {},
        }
    }
    let case: &RuleCase = &cases[i];
    if case.should_enter(grammar, context, rng) {
        Some(i)
    } else {
        proof {
            assert(cases@.skip(i as int).drop_first() =~= cases@.skip(i as int + 1));
        }
        select_case_from(cases, i + 1, grammar, context, rng)
    }
}

/// Scan a rule's cases in declaration order and return the index of the
/// first whose gate passes, if any.
pub fn select_case(
    cases: &Vec<RuleCase>,
    grammar: &Grammar,
    context: &NodeProperties,
    rng: &mut Rng,
) -> (r: Option<usize>)
    requires
        defs_wf(grammar.defs@),
        context.wf(),
        forall|i: int| 0 <= i < cases@.len() ==> grammar.case_ok(#[trigger] cases@[i]),
    ensures
        (match r {
            Some(i) => spec_select_case(cases@, grammar.defs@, *context, old(rng).state).0 == Some(
                i as int,
            ) && i < cases@.len(),
            None => spec_select_case(cases@, grammar.defs@, *context, old(rng).state).0 is None,
        }),
        final(rng).state == spec_select_case(cases@, grammar.defs@, *context, old(rng).state).1,
{
    proof {
        assert(cases@.skip(0) =~= cases@);
    }
    select_case_from(cases, 0, grammar, context, rng)
}

/// The nodes a list of invocations instantiates in order under one
/// parent, with the instantiation stream state after all of them.
pub open spec fn spec_nodes_from_invs(
    invs: Seq<Invocation>,
    parent: NodeProperties,
    defs: Seq<(String, i64)>,
    s: u64,
) -> (Seq<NodeV>, u64)
    decreases invs.len(),
{
    if invs.len() == 0 {
        (Seq::empty(), s)
    } else {
        let first = spec_to_node(invs[0], parent, defs, s);
        let rest = spec_nodes_from_invs(invs.drop_first(), parent, defs, first.1);
        (seq![first.0] + rest.0, rest.1)
    }
}

/// Instantiating a list of invocations yields one node per invocation.
pub proof fn lemma_nodes_from_invs_len(
    invs: Seq<Invocation>,
    parent: NodeProperties,
    defs: Seq<(String, i64)>,
    s: u64,
)
    ensures
        spec_nodes_from_invs(invs, parent, defs, s).0.len() == invs.len(),
    decreases invs.len(),
{
    if invs.len() > 0 {
        lemma_nodes_from_invs_len(
            invs.drop_first(),
            parent,
            defs,
            spec_to_node(invs[0], parent, defs, s).1,
        );
    }
}

/// The candidate children an expansion step proposes for a node: none for
/// the root or a primitive; for a rule reference, the instantiated body of
/// the first case that enters.  Case gating and child instantiation draw
/// from two sub-streams forked off the node's stream, which itself
/// advances by exactly the two seeding draws.
pub open spec fn spec_get_children(
    method: Method,
    absolute: NodeProperties,
    g: Grammar,
    s: u64,
) -> (Seq<NodeV>, u64) {
    match method {
        Method::Root => (Seq::empty(), s),
        Method::Primitive(_) => (Seq::empty(), s),
        Method::Rule(name) => {
            let gate_state = spec_rng_draw(s);
            let child_state = spec_rng_draw(spec_rng_step(s));
            let after = spec_rng_step(spec_rng_step(s));
            match spec_rule_index(g.rules@, name@) {
                None => (Seq::empty(), after),
                Some(ri) => {
                    let rule = g.rules@[ri];
                    match spec_select_case(rule.cases@, g.defs@, absolute, gate_state).0 {
                        None => (Seq::empty(), after),
                        Some(ci) => (
                            spec_nodes_from_invs(
                                rule.cases@[ci].invocations@,
                                absolute,
                                g.defs@,
                                child_state,
                            ).0,
                            after,
                        ),
                    }
                },
            }
        },
    }
}

/// Instantiate the invocations from entry `i` on, in declaration order.
#[verifier::rlimit(100)]
#[verifier::spinoff_prover]
fn instantiate_invocations(
    invs: &Vec<Invocation>,
    i: usize,
    parent: &NodeProperties,
    grammar: &Grammar,
    rng: &mut Rng,
) -> (r: Vec<Node>)
    requires
        defs_wf(grammar.defs@),
        parent.wf(),
        forall|k: int| 0 <= k < invs@.len() ==> grammar.invocation_ok(#[trigger] invs@[k]),
        i <= invs@.len(),
    ensures
        r@.map_values(|n: Node| n.deep_view()) == spec_nodes_from_invs(
            invs@.skip(i as int),
            *parent,
            grammar.defs@,
            old(rng).state,
        ).0,
        final(rng).state == spec_nodes_from_invs(
            invs@.skip(i as int),
            *parent,
            grammar.defs@,
            old(rng).state,
        ).1,
        forall|k: int| 0 <= k < r@.len() ==> child_ok(#[trigger] r@[k], *parent, *grammar),
    decreases invs@.len() - i,
{
    if i == invs.len() {
        let r: Vec<Node> = Vec::new();
        proof {
            assert(invs@.skip(i as int).len() == 0);
            assert(r@.map_values(|n: Node| n.deep_view()) =~= Seq::<NodeV>::empty());
        }
        return r;
    }
    proof {
        assert(invs@.skip(i as int)[0] == invs@[i as int]);
        assert(grammar.invocation_ok(invs@[i as int]));
        assert(invs@.skip(i as int).drop_first() =~= invs@.skip(i as int + 1));
    }
    let node: Node = invs[i].to_node(parent, grammar, rng);
    let ghost node_v: NodeV = node.deep_view();
    let mut rest: Vec<Node> = instantiate_invocations(invs, i + 1, parent, grammar, rng);
    let ghost rest0: Seq<Node> = rest@;
    let mut out: Vec<Node> = Vec::new();
    out.push(node);
    out.append(&mut rest);
    proof {
        assert(out@ =~= seq![out@[0]] + rest0);
        assert(out@.map_values(|n: Node| n.deep_view()) =~= seq![node_v] + rest0.map_values(
            |n: Node| n.deep_view(),
        ));
    }
    out
}

impl Node {
    /// The candidate children of this node: empty for the root and for
    /// primitives; for a rule reference, the first case that enters
    /// decides, gating and instantiation drawing from two independent
    /// sub-streams forked off this node's stream.
    #[verifier::rlimit(100)]
    pub fn get_children(&self, grammar: &Grammar, rng: &mut Rng) -> (r: Vec<Node>)
        requires
            grammar.valid(),
            self.absolute_properties.wf(),
            method_resolves(self.method, grammar.rules@),
        ensures
            r@.map_values(|n: Node| n.deep_view()) == spec_get_children(
                self.method,
                self.absolute_properties,
                *grammar,
                old(rng).state,
            ).0,
            final(rng).state == spec_get_children(
                self.method,
                self.absolute_properties,
                *grammar,
                old(rng).state,
            ).1,
            forall|i: int|
                0 <= i < r@.len() ==> child_ok(
                    #[trigger] r@[i],
                    self.absolute_properties,
                    *grammar,
                ),
    {
        match &self.method {
            Method::Root => {
                let r: Vec<Node> = Vec::new();
                proof {
                    assert(r@.map_values(|n: Node| n.deep_view()) =~= Seq::<NodeV>::empty());
                }
                r
            },
            Method::Primitive(_) => {
                let r: Vec<Node> = Vec::new();
                proof {
                    assert(r@.map_values(|n: Node| n.deep_view()) =~= Seq::<NodeV>::empty());
                }
                r
            },
            Method::Rule(name) => {
                let (mut rng1, mut rng2): (Rng, Rng) = rng.fork();
                let ri: usize = match rule_index(&grammar.rules, name.as_str()) {
                    Some(i) => i,
                    None => {
                        proof {
                            assert(false);
                        }
                        return Vec::new();
                    },
                };
                proof {
                    lemma_rule_index_in_range(grammar.rules@, name@);
                    assert(grammar.rule_ok(grammar.rules@[ri as int]));
                }
                let rule: &UserRule = &grammar.rules[ri];
                let selected: Option<usize> = select_case(
                    &rule.cases,
                    grammar,
                    &self.absolute_properties,
                    &mut rng1,
                );
                match selected {
                    None => {
                        let r: Vec<Node> = Vec::new();
                        proof {
                            assert(r@.map_values(|n: Node| n.deep_view()) =~= Seq::<
                                NodeV,
                            >::empty());
                        }
                        r
                    },
                    Some(ci) => {
                        proof {
                            assert(grammar.case_ok(rule.cases@[ci as int]));
                        }
                        let invs: &Vec<Invocation> = &rule.cases[ci].invocations;
                        proof {
                            assert(invs@.skip(0) =~= invs@);
                        }
                        let out: Vec<Node> = instantiate_invocations(
                            invs,
                            0,
                            &self.absolute_properties,
                            grammar,
                            &mut rng2,
                        );
                        out
                    },
                }
            },
        }
    }
}

impl ExpandSettings {
    /// Should this candidate node be culled, according to the settings?
    pub fn should_cull(&self, node: &Node) -> (r: bool)
        requires
            node.absolute_properties.wf(),
        ensures
            r == spec_should_cull(*self, node.absolute_properties),
    {
        self.should_cull_properties(&node.absolute_properties)
    }
}

/// An integer clamped into the machine word range.
pub open spec fn sat_usize(x: int) -> usize {
    if x > usize::MAX as int {
        usize::MAX
    } else if x < 0 {
        0
    } else {
        x as usize
    }
}

/// The candidates that survive the cull rule, in order.
pub open spec fn spec_keep(cands: Seq<NodeV>, settings: ExpandSettings) -> Seq<NodeV>
    decreases cands.len(),
{
    if cands.len() == 0 {
        Seq::empty()
    } else {
        let rest = spec_keep(cands.drop_first(), settings);
        if spec_should_cull(settings, cands[0].absolute) {
            rest
        } else {
            seq![cands[0]] + rest
        }
    }
}

/// How many candidates the cull rule discards.
pub open spec fn spec_cull_count(cands: Seq<NodeV>, settings: ExpandSettings) -> int
    decreases cands.len(),
{
    if cands.len() == 0 {
        0
    } else {
        let rest = spec_cull_count(cands.drop_first(), settings);
        if spec_should_cull(settings, cands[0].absolute) {
            1 + rest
        } else {
            rest
        }
    }
}

/// What one expansion step leaves behind: the reshaped tree, the tally,
/// and the generator state after it.
pub ghost struct ExpandOutcome {
    pub node: NodeV,
    pub stats: ExpandStatistics,
    pub state: u64,
}

/// What one expansion step over a forest of siblings leaves behind.
pub ghost struct ForestOutcome {
    pub nodes: Seq<NodeV>,
    pub stats: ExpandStatistics,
    pub state: u64,
}

/// One pass over one node.  An already expanded node passes into its
/// children, in order, each child working under whatever budget its elder
/// siblings left over.  An unexpanded node proposes its candidates, culls,
/// and attaches the survivors — but only if they all fit in the budget;
/// otherwise it stays unexpanded and counts nothing, though its stream
/// draws have happened.
#[verifier::opaque]
pub open spec fn spec_expand_once(
    n: NodeV,
    g: Grammar,
    settings: ExpandSettings,
    s: u64,
    budget: usize,
) -> ExpandOutcome
    decreases n,
{
    match n.children {
        Some(cs) => {
            let o = spec_expand_forest(cs, g, settings, s, budget);
            ExpandOutcome {
                node: NodeV {
                    method: n.method,
                    relative: n.relative,
                    absolute: n.absolute,
                    children: Some(o.nodes),
                },
                stats: o.stats,
                state: o.state,
            }
        },
        None => {
            let gc = spec_get_children(n.method, n.absolute, g, s);
            let kept = spec_keep(gc.0, settings);
            if kept.len() <= budget as int {
                ExpandOutcome {
                    node: NodeV {
                        method: n.method,
                        relative: n.relative,
                        absolute: n.absolute,
                        children: Some(kept),
                    },
                    stats: ExpandStatistics {
                        new_nodes: sat_usize(kept.len() as int),
                        nodes_culled: sat_usize(spec_cull_count(gc.0, settings)),
                    },
                    state: gc.1,
                }
            } else {
                ExpandOutcome {
                    node: n,
                    stats: ExpandStatistics { new_nodes: 0, nodes_culled: 0 },
                    state: gc.1,
                }
            }
        },
    }
}

/// One pass over the siblings from the head on, threading stream and
/// budget left to right.
#[verifier::opaque]
pub open spec fn spec_expand_forest(
    cs: Seq<NodeV>,
    g: Grammar,
    settings: ExpandSettings,
    s: u64,
    budget: usize,
) -> ForestOutcome
    decreases cs,
{
    if cs.len() == 0 {
        ForestOutcome {
            nodes: Seq::empty(),
            stats: ExpandStatistics { new_nodes: 0, nodes_culled: 0 },
            state: s,
        }
    } else {
        let first = spec_expand_once(cs[0], g, settings, s, budget);
        let rem: usize = if first.stats.new_nodes <= budget {
            (budget - first.stats.new_nodes) as usize
        } else {
            0
        };
        let rest = spec_expand_forest(cs.drop_first(), g, settings, first.state, rem);
        ForestOutcome {
            nodes: seq![first.node] + rest.nodes,
            stats: spec_stats_add(first.stats, rest.stats),
            state: rest.state,
        }
    }
}

/// One pass over the siblings of `cs` from entry `i` on.
#[verifier::rlimit(100)]
#[verifier::spinoff_prover]
fn expand_forest(
    cs: &Vec<Node>,
    i: usize,
    settings: &ExpandSettings,
    grammar: &Grammar,
    rng: &mut Rng,
    budget: usize,
) -> (r: (Vec<Node>, ExpandStatistics))
    requires
        grammar.valid(),
        i <= cs@.len(),
        forall|k: int|
            0 <= k < cs@.len() ==> (#[trigger] cs@[k]).deep_view().tree_wf() && cs@[
                k
            ].deep_view().tree_resolves(grammar.rules@),
    ensures
        ({
            let out = spec_expand_forest(
                cs@.map_values(|n: Node| n.deep_view()).skip(i as int),
                *grammar,
                *settings,
                old(rng).state,
                budget,
            );
            &&& r.0@.map_values(|n: Node| n.deep_view()) == out.nodes
            &&& r.1 == out.stats
            &&& final(rng).state == out.state
        }),
        r.1.new_nodes <= budget,
        r.0@.len() == cs@.len() - i,
        forall|k: int|
            0 <= k < r.0@.len() ==> {
                &&& (#[trigger] r.0@[k]).deep_view().tree_wf()
                &&& r.0@[k].deep_view().tree_resolves(grammar.rules@)
                &&& r.0@[k].absolute_properties == cs@[k + i].absolute_properties
            },
    decreases *cs, cs@.len() - i,
{
    proof {
        reveal(spec_expand_forest);
    }
    let ghost views: Seq<NodeV> = cs@.map_values(|n: Node| n.deep_view());
    if i == cs.len() {
        let out: Vec<Node> = Vec::new();
        proof {
            assert(views.skip(i as int).len() == 0);
            assert(out@.map_values(|n: Node| n.deep_view()) =~= Seq::<NodeV>::empty());
        }
        return (out, ExpandStatistics { new_nodes: 0, nodes_culled: 0 });
    }
    proof {
        assert(views.skip(i as int)[0] == views[i as int]);
        assert(views[i as int] == cs@[i as int].deep_view());
        assert(decreases_to!(*cs => cs@));
        assert(decreases_to!(cs@ => cs@[i as int]));
    }
    let (first, first_stats): (Node, ExpandStatistics) = cs[i].expand_once(
        settings,
        grammar,
        rng,
        budget,
    );
    let ghost first_v: NodeV = first.deep_view();
    let rem: usize = budget - first_stats.new_nodes;
    proof {
        assert(views.skip(i as int).drop_first() =~= views.skip(i as int + 1));
    }
    let (mut rest, rest_stats): (Vec<Node>, ExpandStatistics) = expand_forest(
        cs,
        i + 1,
        settings,
        grammar,
        rng,
        rem,
    );
    let ghost rest0: Seq<Node> = rest@;
    let stats: ExpandStatistics = first_stats.add(&rest_stats);
    let mut out: Vec<Node> = Vec::new();
    out.push(first);
    out.append(&mut rest);
    proof {
        assert(out@ =~= seq![out@[0]] + rest0);
        assert(out@.map_values(|n: Node| n.deep_view()) =~= seq![first_v] + rest0.map_values(
            |n: Node| n.deep_view(),
        ));
    }
    (out, stats)
}

impl Node {
    /// Expand this subtree by one level: an already expanded node passes
    /// into its children in order; an unexpanded one computes its
    /// candidate children, culls, and attaches the survivors if they fit
    /// the budget, staying unexpanded otherwise.  Reports how many nodes
    /// were attached and how many candidates were culled.
    #[verifier::rlimit(100)]
    #[verifier::spinoff_prover]
    pub fn expand_once(
        &self,
        settings: &ExpandSettings,
        grammar: &Grammar,
        rng: &mut Rng,
        budget: usize,
    ) -> (r: (Node, ExpandStatistics))
        requires
            grammar.valid(),
            self.deep_view().tree_wf(),
            self.deep_view().tree_resolves(grammar.rules@),
        ensures
            ({
                let out = spec_expand_once(
                    self.deep_view(),
                    *grammar,
                    *settings,
                    old(rng).state,
                    budget,
                );
                &&& r.0.deep_view() == out.node
                &&& r.1 == out.stats
                &&& final(rng).state == out.state
            }),
            r.1.new_nodes <= budget,
            r.0.deep_view().tree_wf(),
            r.0.deep_view().tree_resolves(grammar.rules@),
            r.0.absolute_properties == self.absolute_properties,
            self.children is Some ==> (r.0.children is Some && (r.0.children->0)@.len() == (
            self.children->0)@.len()),
        decreases *self, 2int,
    {
        match &self.children {
            Some(_) => self.expand_branch(settings, grammar, rng, budget),
            None => self.expand_leaf(settings, grammar, rng, budget),
        }
    }

    /// One expansion step of an already expanded node: pass into the
    /// children, in order, under the budget the elder siblings leave.
    #[verifier::rlimit(100)]
    #[verifier::spinoff_prover]
    fn expand_branch(
        &self,
        settings: &ExpandSettings,
        grammar: &Grammar,
        rng: &mut Rng,
        budget: usize,
    ) -> (r: (Node, ExpandStatistics))
        requires
            grammar.valid(),
            self.deep_view().tree_wf(),
            self.deep_view().tree_resolves(grammar.rules@),
            self.children is Some,
        ensures
            ({
                let out = spec_expand_once(
                    self.deep_view(),
                    *grammar,
                    *settings,
                    old(rng).state,
                    budget,
                );
                &&& r.0.deep_view() == out.node
                &&& r.1 == out.stats
                &&& final(rng).state == out.state
            }),
            r.1.new_nodes <= budget,
            r.0.deep_view().tree_wf(),
            r.0.deep_view().tree_resolves(grammar.rules@),
            r.0.absolute_properties == self.absolute_properties,
            r.0.children is Some && (r.0.children->0)@.len() == (self.children->0)@.len(),
        decreases *self, 1int,
    {
        let ghost self_v: NodeV = self.deep_view();
        let ghost s0: u64 = rng.state;
        match &self.children {
            Some(cs) => {
                let ghost cs_views: Seq<NodeV> = cs@.map_values(|n: Node| n.deep_view());
                proof {
                    lemma_deep_view_fields(*self);
                    lemma_deep_view_children(*self);
                    assert(self_v.children == Some(cs_views));
                    assert forall|k: int| 0 <= k < cs@.len() implies (
                    #[trigger] cs@[k]).deep_view().tree_wf() && cs@[k].deep_view().tree_resolves(
                        grammar.rules@,
                    ) by {
                        assert(cs_views[k] == cs@[k].deep_view());
                        assert(self_v.children->0[k].tree_wf());
                        assert(self_v.children->0[k].tree_resolves(grammar.rules@));
                    }
                    assert(decreases_to!(*self => self.children));
                    assert(self.children->0 == *cs);
                    assert(decreases_to!(self.children => *cs));
                    assert(cs_views.skip(0) =~= cs_views);
                }
                let (new_children, stats): (Vec<Node>, ExpandStatistics) = expand_forest(
                    cs,
                    0,
                    settings,
                    grammar,
                    rng,
                    budget,
                );
                let ghost new0: Seq<Node> = new_children@;
                let ghost new_views: Seq<NodeV> = new0.map_values(|n: Node| n.deep_view());
                let ghost forest = spec_expand_forest(cs_views, *grammar, *settings, s0, budget);
                let node = Node {
                    method: self.method.duplicate(),
                    relative_properties: self.relative_properties,
                    absolute_properties: self.absolute_properties,
                    children: Some(new_children),
                };
                proof {
                    lemma_deep_view_fields(node);
                    lemma_deep_view_children(node);
                    assert(new_views == forest.nodes);
                    assert(node.deep_view() == NodeV {
                        method: self_v.method,
                        relative: self_v.relative,
                        absolute: self_v.absolute,
                        children: Some(new_views),
                    });
                    assert(spec_expand_once(self_v, *grammar, *settings, s0, budget)
                        == ExpandOutcome {
                        node: NodeV {
                            method: self_v.method,
                            relative: self_v.relative,
                            absolute: self_v.absolute,
                            children: Some(forest.nodes),
                        },
                        stats: forest.stats,
                        state: forest.state,
                    }) by {
                        reveal(spec_expand_once);
                    }
                    assert forall|k: int| 0 <= k < new_views.len() implies {
                        &&& (#[trigger] new_views[k]).tree_wf()
                        &&& new_views[k].tree_resolves(grammar.rules@)
                        &&& new_views[k].absolute == cs_views[k].absolute
                    } by {
                        assert(new_views[k] == new0[k].deep_view());
                        assert(new0[k].deep_view().tree_wf());
                        assert(new0[k].deep_view().tree_resolves(grammar.rules@));
                        lemma_deep_view_fields(new0[k]);
                        lemma_deep_view_fields(cs@[k]);
                        assert(new0[k].absolute_properties == cs@[k].absolute_properties);
                        assert(cs_views[k] == cs@[k].deep_view());
                    }
                    lemma_rebuild_tree(self_v, cs_views, new_views, grammar.rules@);
                }
                (node, stats)
            },
            None => {
                proof {
                    assert(false);
                }
                (
                    Node {
                        method: Method::Root,
                        relative_properties: self.relative_properties,
                        absolute_properties: self.absolute_properties,
                        children: None,
                    },
                    ExpandStatistics { new_nodes: 0, nodes_culled: 0 },
                )
            },
        }
    }
    /// One expansion step of a node not yet expanded: propose candidates,
    /// cull, and attach the survivors if they fit the budget.
    #[verifier::rlimit(100)]
    #[verifier::spinoff_prover]
    fn expand_leaf(
        &self,
        settings: &ExpandSettings,
        grammar: &Grammar,
        rng: &mut Rng,
        budget: usize,
    ) -> (r: (Node, ExpandStatistics))
        requires
            grammar.valid(),
            self.deep_view().tree_wf(),
            self.deep_view().tree_resolves(grammar.rules@),
            self.children is None,
        ensures
            ({
                let out = spec_expand_once(
                    self.deep_view(),
                    *grammar,
                    *settings,
                    old(rng).state,
                    budget,
                );
                &&& r.0.deep_view() == out.node
                &&& r.1 == out.stats
                &&& final(rng).state == out.state
            }),
            r.1.new_nodes <= budget,
            r.0.deep_view().tree_wf(),
            r.0.deep_view().tree_resolves(grammar.rules@),
            r.0.absolute_properties == self.absolute_properties,
    {
        proof {
            reveal(spec_expand_once);
            reveal(Node::deep_view);
        }
        let ghost self_v: NodeV = self.deep_view();
        {
                let candidates: Vec<Node> = self.get_children(grammar, rng);
                let ghost cand_views: Seq<NodeV> = candidates@.map_values(|n: Node| n.deep_view());
                let mut rem: Vec<Node> = candidates;
                let total_c: usize = rem.len();
                let mut kept: Vec<Node> = Vec::new();
                let mut culled: usize = 0;
                proof {
                    assert(kept@.map_values(|n: Node| n.deep_view()) =~= Seq::<NodeV>::empty());
                    assert(Seq::<NodeV>::empty() + spec_keep(cand_views, *settings) =~= spec_keep(
                        cand_views,
                        *settings,
                    ));
                }
                while rem.len() > 0
                    invariant
                        grammar.valid(),
                        spec_keep(cand_views, *settings) == kept@.map_values(
                            |n: Node| n.deep_view(),
                        ) + spec_keep(rem@.map_values(|n: Node| n.deep_view()), *settings),
                        spec_cull_count(cand_views, *settings) == culled + spec_cull_count(
                            rem@.map_values(|n: Node| n.deep_view()),
                            *settings,
                        ),
                        kept@.len() + culled + rem@.len() == total_c as int,
                        cand_views.len() == total_c as int,
                        forall|k: int|
                            0 <= k < rem@.len() ==> child_ok(
                                #[trigger] rem@[k],
                                self.absolute_properties,
                                *grammar,
                            ),
                        forall|k: int|
                            0 <= k < kept@.len() ==> child_ok(
                                #[trigger] kept@[k],
                                self.absolute_properties,
                                *grammar,
                            ),
                    decreases rem@.len(),
                {
                    proof {
                        reveal(Node::deep_view);
                    }
                    let ghost rem0: Seq<Node> = rem@;
                    let ghost kept0: Seq<Node> = kept@;
                    let c: Node = rem.remove(0);
                    proof {
                        assert(rem0.map_values(|n: Node| n.deep_view())[0] == c.deep_view());
                        assert(rem0.map_values(|n: Node| n.deep_view()).drop_first() =~= rem@
                            .map_values(|n: Node| n.deep_view()));
                    }
                    if settings.should_cull(&c) {
                        culled = culled + 1;
                    } else {
                        kept.push(c);
                        proof {
                            assert(kept@.map_values(|n: Node| n.deep_view()) =~= kept0.map_values(
                                |n: Node| n.deep_view(),
                            ) + seq![kept@[kept@.len() - 1].deep_view()]);
                            assert(kept0.map_values(|n: Node| n.deep_view()) + (seq![
                                kept@[kept@.len() - 1].deep_view()
                            ] + spec_keep(rem@.map_values(|n: Node| n.deep_view()), *settings))
                                =~= kept@.map_values(|n: Node| n.deep_view()) + spec_keep(
                                rem@.map_values(|n: Node| n.deep_view()),
                                *settings,
                            ));
                        }
                    }
                }
                proof {
                    assert(rem@.map_values(|n: Node| n.deep_view()).len() == 0);
                    assert(kept@.map_values(|n: Node| n.deep_view()) + Seq::<NodeV>::empty() =~=
                        kept@.map_values(|n: Node| n.deep_view()));
                }
                if kept.len() <= budget {
                    let stats = ExpandStatistics { new_nodes: kept.len(), nodes_culled: culled };
                    let ghost kept_s: Seq<Node> = kept@;
                    let node = Node {
                        method: self.method.duplicate(),
                        relative_properties: self.relative_properties,
                        absolute_properties: self.absolute_properties,
                        children: Some(kept),
                    };
                    proof {
                        assert(node.deep_view().children->0 =~= kept_s.map_values(
                            |n: Node| n.deep_view(),
                        ));
                        assert(self_v.absolute.abs_wf());
                        assert forall|k: int| 0 <= k < kept_s.len() implies {
                            &&& (#[trigger] node.deep_view().children->0[k]).tree_wf()
                            &&& node.deep_view().children->0[k].tree_resolves(grammar.rules@)
                            &&& node.deep_view().children->0[k].absolute.d
                                >= node.deep_view().absolute.d
                        } by {
                            assert(node.deep_view().children->0[k] == kept_s[k].deep_view());
                            assert(child_ok(kept_s[k], self.absolute_properties, *grammar));
                        }
                    }
                    (node, stats)
                } else {
                    let node = Node {
                        method: self.method.duplicate(),
                        relative_properties: self.relative_properties,
                        absolute_properties: self.absolute_properties,
                        children: None,
                    };
                    (node, ExpandStatistics { new_nodes: 0, nodes_culled: 0 })
                }
            }
    }
}

/// The synthetic root before the first pass: the top-level invocations
/// instantiated, in order, under the initial properties.
pub open spec fn spec_root(g: Grammar, s: u64) -> (NodeV, u64) {
    let init = spec_nodes_from_invs(
        g.top_level@,
        NodeProperties::spec_default_initial(),
        g.defs@,
        s,
    );
    (
        NodeV {
            method: Method::Root,
            relative: NodeProperties::spec_default_initial(),
            absolute: NodeProperties::spec_default_initial(),
            children: Some(init.0),
        },
        init.1,
    )
}

/// The driver: repeat whole passes, each under the budget the accepted
/// total leaves, until a pass adds nothing or the total reaches the cap.
/// The total accepted count never exceeds `max_nodes`.
pub open spec fn spec_expand_loop(
    root: NodeV,
    g: Grammar,
    settings: ExpandSettings,
    s: u64,
    total: ExpandStatistics,
) -> ExpandOutcome
    decreases settings.max_nodes - total.new_nodes,
    when total.new_nodes <= settings.max_nodes
{
    let budget = (settings.max_nodes - total.new_nodes) as usize;
    let o = spec_expand_once(root, g, settings, s, budget);
    let total2 = spec_stats_add(total, o.stats);
    if o.stats.new_nodes == 0 || total2.new_nodes >= settings.max_nodes {
        ExpandOutcome { node: o.node, stats: total2, state: o.state }
    } else {
        spec_expand_loop(o.node, g, settings, o.state, total2)
    }
}

/// The whole expansion of a grammar from one seed state.
pub open spec fn spec_expand(g: Grammar, settings: ExpandSettings, s: u64) -> ExpandOutcome {
    let rooted = spec_root(g, s);
    spec_expand_loop(
        rooted.0,
        g,
        settings,
        rooted.1,
        ExpandStatistics { new_nodes: 0, nodes_culled: 0 },
    )
}

impl Grammar {
    /// Expand this grammar into a finished tree: instantiate the top-level
    /// invocations under the synthetic root, then repeat expansion passes
    /// until one adds nothing or the accepted total reaches `max_nodes`.
    ///
    /// The result is a function of (grammar, settings, seed state) alone,
    /// so two runs from the same inputs give the same tree and tally; the
    /// accepted total never exceeds `max_nodes`; and every node of the
    /// tree keeps the guaranteed absolute ranges, with depth never
    /// decreasing from a node to its children.
    ///
    /// The top-level instantiation stands outside the budget: the root
    /// always carries exactly one child per top-level invocation,
    /// uncounted, and the cap governs every node the passes accept below
    /// them.
    #[verifier::rlimit(100)]
    pub fn expand(&self, settings: &ExpandSettings, rng: &mut Rng) -> (r: (
        Node,
        ExpandStatistics,
    ))
        requires
            self.valid(),
        ensures
            ({
                let out = spec_expand(*self, *settings, old(rng).state);
                &&& r.0.deep_view() == out.node
                &&& r.1 == out.stats
                &&& final(rng).state == out.state
            }),
            r.1.new_nodes <= settings.max_nodes,
            r.0.deep_view().tree_wf(),
            r.0.deep_view().tree_resolves(self.rules@),
            r.0.children is Some && (r.0.children->0)@.len() == self.top_level@.len(),
    {
        let ghost s0: u64 = rng.state;
        let initial: NodeProperties = NodeProperties::default_initial();
        proof {
            assert(self.top_level@.skip(0) =~= self.top_level@);
        }
        let top: Vec<Node> = instantiate_invocations(&self.top_level, 0, &initial, self, rng);
        let ghost top0: Seq<Node> = top@;
        proof {
            lemma_nodes_from_invs_len(self.top_level@, initial, self.defs@, s0);
            assert(top0.len() == self.top_level@.len());
        }
        let mut root: Node = Node {
            method: Method::Root,
            relative_properties: initial,
            absolute_properties: initial,
            children: Some(top),
        };
        proof {
            lemma_deep_view_fields(root);
            lemma_deep_view_children(root);
            assert(root.deep_view() == spec_root(*self, s0).0);
            assert forall|k: int| 0 <= k < top0.len() implies {
                &&& (#[trigger] root.deep_view().children->0[k]).tree_wf()
                &&& root.deep_view().children->0[k].tree_resolves(self.rules@)
                &&& root.deep_view().children->0[k].absolute.d >= root.deep_view().absolute.d
            } by {
                assert(root.deep_view().children->0[k] == top0[k].deep_view());
                assert(child_ok(top0[k], initial, *self));
                lemma_deep_view_fields(top0[k]);
            }
            assert(root.deep_view().tree_wf());
            assert(root.deep_view().tree_resolves(self.rules@));
        }
        let mut total: ExpandStatistics = ExpandStatistics { new_nodes: 0, nodes_culled: 0 };
        let mut done: bool = false;
        let ghost target: ExpandOutcome = spec_expand(*self, *settings, s0);
        while !done
            invariant
                self.valid(),
                total.new_nodes <= settings.max_nodes,
                root.deep_view().tree_wf(),
                root.deep_view().tree_resolves(self.rules@),
                root.children is Some && (root.children->0)@.len() == self.top_level@.len(),
                !done ==> spec_expand_loop(root.deep_view(), *self, *settings, rng.state, total)
                    == target,
                done ==> root.deep_view() == target.node && total == target.stats && rng.state
                    == target.state,
            decreases settings.max_nodes - total.new_nodes + (if done {
                0int
            } else {
                1int
            }),
        {
            let budget: usize = settings.max_nodes - total.new_nodes;
            let ghost before: ExpandStatistics = total;
            let (new_root, stats): (Node, ExpandStatistics) = root.expand_once(
                settings,
                self,
                rng,
                budget,
            );
            root = new_root;
            total = total.add(&stats);
            if stats.new_nodes == 0 || total.new_nodes >= settings.max_nodes {
                done = true;
            }
            proof {
                assert(total.new_nodes == before.new_nodes + stats.new_nodes);
                assert(total.new_nodes <= settings.max_nodes);
                if !done {
                    assert(stats.new_nodes >= 1);
                }
            }
        }
        (root, total)
    }
}

} // verus!
