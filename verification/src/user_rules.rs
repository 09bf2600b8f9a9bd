//! User rules and their conditionally gated cases.
//!
//! A rule is an ordered list of cases; each case carries an optional
//! probability gate and an ordered list of child invocations.  Cases are
//! tried in declaration order and the first case whose gate passes is the
//! only one instantiated — an if/else-if chain with stochastic gating.

use crate::expression::{spec_eval, Expression};
use crate::fixed::SCALE;
use crate::grammar::{defs_wf, Grammar};
use crate::invocation::Invocation;
use crate::node_properties::NodeProperties;
use crate::rng::{spec_rng_draw, spec_rng_step, Rng};
use crate::value_or_range::ValueOrRange;
use vstd::prelude::*;

verus! {

/// One gated alternative body of a user rule.
#[derive(PartialEq, Debug)]
pub struct RuleCase {
    pub probability: Option<Expression>,
    pub invocations: Vec<Invocation>,
}

/// A named rule: its cases in declaration order.
#[derive(PartialEq, Debug)]
pub struct UserRule {
    pub name: String,
    pub cases: Vec<RuleCase>,
}

impl RuleCase {
    pub open spec fn wf(self) -> bool {
        &&& (match self.probability {
            Some(e) => e.wf(),
            None => true,
        })
        &&& forall|i: int| 0 <= i < self.invocations@.len() ==> (
        #[trigger] self.invocations@[i]).wf()
    }

    /// Whether this case enters, with the gating stream state after the
    /// decision.  No gate always enters.  A gate whose maximum reaches one
    /// whole enters surely; one whose minimum reaches zero never does;
    /// anything between draws one Bernoulli trial at the maximum.
    pub open spec fn spec_should_enter(
        self,
        defs: Seq<(String, i64)>,
        ctx: NodeProperties,
        s: u64,
    ) -> (bool, u64) {
        match self.probability {
            None => (true, s),
            Some(e) => match spec_eval(e, defs, ctx) {
                Err(_) => (false, s),
                Ok(v) => {
                    let mx = v.spec_max_value();
                    let mn = v.spec_min_value();
                    if mx >= SCALE as int {
                        (true, s)
                    } else if mn <= 0 {
                        (false, s)
                    } else {
                        (mx > (spec_rng_draw(s) % 10_000u64) as int, spec_rng_step(s))
                    }
                },
            },
        }
    }

    /// Decide whether this case enters, drawing at most one Bernoulli
    /// trial from the gating stream.
    pub fn should_enter(&self, grammar: &Grammar, context: &NodeProperties, rng: &mut Rng) -> (r:
        bool)
        requires
            self.wf(),
            defs_wf(grammar.defs@),
            context.wf(),
            (match self.probability {
                Some(e) => spec_eval(e, grammar.defs@, *context) matches Ok(_),
                None => true,
            }),
        ensures
            r == self.spec_should_enter(grammar.defs@, *context, old(rng).state).0,
            final(rng).state == self.spec_should_enter(grammar.defs@, *context, old(rng).state).1,
    {
        match &self.probability {
            None => true,
            Some(e) => {
                let v: ValueOrRange = match e.try_get_value(grammar, context) {
                    Ok(v) => v,
                    Err(_) => {
                        return false;
                    },
                };
                let mx: i64 = v.max_value();
                let mn: i64 = v.min_value();
                if mx >= SCALE {
                    true
                } else if mn <= 0 {
                    false
                } else {
                    rng.next_bool(mx)
                }
            },
        }
    }
}

impl UserRule {
    pub open spec fn wf(self) -> bool {
        forall|i: int| 0 <= i < self.cases@.len() ==> (#[trigger] self.cases@[i]).wf()
    }
}

} // verus!
