//! The expression language of property assignments.
//!
//! An expression is a literal number, a constant reference (resolved
//! case-insensitively against the grammar's definitions), a property
//! access (resolved against the node currently being built), or a unary or
//! binary operator over sub-expressions.  An assignment's value is either
//! one expression or a `first..second` range; a range marked random
//! collapses to one uniformly sampled scalar at evaluation time, an
//! unmarked one stays an interval built from the first bound's minimum and
//! the second bound's maximum.
//!
//! Evaluation of a plain expression draws nothing from the random stream;
//! only a random range does.  An undefined constant is the one evaluation
//! error, and it is reported, never silently zero.

use crate::binary_operator::BinaryOperator;
use crate::error::GrammarError;
use crate::grammar::{defs_wf, lemma_lookup_def_wf, lookup_def, spec_lookup_def, Grammar};
use crate::fixed::{fx_wf, FX_MAX};
use crate::node_properties::NodeProperties;
use crate::properties::PropertyKey;
use crate::rng::Rng;
use crate::unary_operator::UnaryOperator;
use crate::value_or_range::ValueOrRange;
use vstd::prelude::*;

verus! {

/// An operator-tagged expression tree.
#[derive(PartialEq, Debug)]
pub enum Expression {
    Number { val: i64 },
    Variable { name: String },
    PropertyAccess { property: PropertyKey },
    Unary { operator: UnaryOperator, operand: Box<Expression> },
    Binary { left: Box<Expression>, operator: BinaryOperator, right: Box<Expression> },
}

/// One expression, or a two-bound range.
#[derive(PartialEq, Debug)]
pub enum ExpressionOrRange {
    Range { is_random: bool, first: Expression, second: Expression },
    Exp(Expression),
}

/// What an expression evaluates to against given definitions and a node
/// context: a quantity, or the undefined constant it stumbled on.  The
/// left operand of a binary operator is evaluated first, so its error
/// wins.
pub open spec fn spec_eval(
    e: Expression,
    defs: Seq<(String, i64)>,
    ctx: NodeProperties,
) -> Result<ValueOrRange, GrammarError>
    decreases e,
{
    match e {
        Expression::Number { val } => Ok(ValueOrRange::Value(val)),
        Expression::Variable { name } => match spec_lookup_def(defs, name@) {
            Some(v) => Ok(ValueOrRange::Value(v)),
            None => Err(GrammarError::UndefinedVariable(name)),
        },
        Expression::PropertyAccess { property } => Ok(property.spec_get(ctx)),
        Expression::Unary { operator, operand } => match spec_eval(*operand, defs, ctx) {
            Ok(v) => Ok(operator.spec_apply_range(v)),
            Err(er) => Err(er),
        },
        Expression::Binary { left, operator, right } => match spec_eval(*left, defs, ctx) {
            Ok(l) => match spec_eval(*right, defs, ctx) {
                Ok(r) => Ok(operator.spec_apply_range(l, r)),
                Err(er) => Err(er),
            },
            Err(er) => Err(er),
        },
    }
}

/// What an assignment value evaluates to, with the generator state after
/// the evaluation: only a random range advances the stream.
pub open spec fn spec_eval_or(
    e: ExpressionOrRange,
    defs: Seq<(String, i64)>,
    ctx: NodeProperties,
    s: u64,
) -> (Result<ValueOrRange, GrammarError>, u64) {
    match e {
        ExpressionOrRange::Exp(inner) => (spec_eval(inner, defs, ctx), s),
        ExpressionOrRange::Range { is_random, first, second } => match spec_eval(
            first,
            defs,
            ctx,
        ) {
            Err(er) => (Err(er), s),
            Ok(v1) => match spec_eval(second, defs, ctx) {
                Err(er) => (Err(er), s),
                Ok(v2) => {
                    let range = ValueOrRange::Range {
                        start: v1.spec_min_value() as i64,
                        end: v2.spec_max_value() as i64,
                    };
                    if is_random {
                        let drawn = range.spec_random_value(s);
                        (Ok(ValueOrRange::Value(drawn.0 as i64)), drawn.1)
                    } else {
                        (Ok(range), s)
                    }
                },
            },
        },
    }
}

/// The first of `names` that no definition satisfies, if any; `target` is
/// the mathematical content of `names`.
fn check_names_defined(
    names: &Vec<String>,
    defs: &Vec<(String, i64)>,
    target: Ghost<Seq<Seq<char>>>,
) -> (r: Option<String>)
    requires
        names@.map_values(|s: String| s@) == target@,
    ensures
        r is None <==> (forall|i: int|
            0 <= i < target@.len() ==> (#[trigger] spec_lookup_def(defs@, target@[i])) is Some),
{
    let mut i: usize = 0;
    while i < names.len()
        invariant
            names@.map_values(|s: String| s@) == target@,
            i <= names@.len(),
            forall|k: int|
                0 <= k < i ==> (#[trigger] spec_lookup_def(defs@, target@[k])) is Some,
        decreases names@.len() - i,
    {
        proof {
            assert(target@[i as int] == names@[i as int]@);
        }
        if lookup_def(defs, names[i].as_str()).is_none() {
            return Some(names[i].clone());
        }
        i = i + 1;
    }
    None
}

/// Every constant name the expression references has a definition.
pub open spec fn vars_defined(e: Expression, defs: Seq<(String, i64)>) -> bool {
    forall|i: int|
        0 <= i < e.spec_vars().len() ==> (#[trigger] spec_lookup_def(
            defs,
            e.spec_vars()[i],
        )) is Some
}

/// Every constant name the assignment value references has a definition.
pub open spec fn vars_defined_or(e: ExpressionOrRange, defs: Seq<(String, i64)>) -> bool {
    forall|i: int|
        0 <= i < e.spec_vars().len() ==> (#[trigger] spec_lookup_def(
            defs,
            e.spec_vars()[i],
        )) is Some
}

/// With every referenced constant defined, evaluation cannot fail, in any
/// context.
pub proof fn lemma_eval_ok(e: Expression, defs: Seq<(String, i64)>, ctx: NodeProperties)
    requires
        vars_defined(e, defs),
    ensures
        spec_eval(e, defs, ctx) is Ok,
    decreases e,
{
    match e {
        Expression::Number { val } => {},
        Expression::Variable { name } => {
            assert(e.spec_vars()[0] == name@);
            assert(spec_lookup_def(defs, e.spec_vars()[0]) is Some);
        },
        Expression::PropertyAccess { property } => {},
        Expression::Unary { operator, operand } => {
            assert forall|i: int| 0 <= i < operand.spec_vars().len() implies (
            #[trigger] spec_lookup_def(defs, operand.spec_vars()[i])) is Some by {
                assert(e.spec_vars()[i] == operand.spec_vars()[i]);
                assert(spec_lookup_def(defs, e.spec_vars()[i]) is Some);
            }
            lemma_eval_ok(*operand, defs, ctx);
        },
        Expression::Binary { left, operator, right } => {
            assert forall|i: int| 0 <= i < left.spec_vars().len() implies (
            #[trigger] spec_lookup_def(defs, left.spec_vars()[i])) is Some by {
                assert(e.spec_vars()[i] == left.spec_vars()[i]);
                assert(spec_lookup_def(defs, e.spec_vars()[i]) is Some);
            }
            assert forall|i: int| 0 <= i < right.spec_vars().len() implies (
            #[trigger] spec_lookup_def(defs, right.spec_vars()[i])) is Some by {
                let j = i + left.spec_vars().len();
                assert(e.spec_vars()[j] == right.spec_vars()[i]);
                assert(spec_lookup_def(defs, e.spec_vars()[j]) is Some);
            }
            lemma_eval_ok(*left, defs, ctx);
            lemma_eval_ok(*right, defs, ctx);
        },
    }
}

/// With every referenced constant defined, an assignment value evaluates
/// successfully from any generator state.
pub proof fn lemma_eval_or_ok(
    e: ExpressionOrRange,
    defs: Seq<(String, i64)>,
    ctx: NodeProperties,
    s: u64,
)
    requires
        vars_defined_or(e, defs),
    ensures
        spec_eval_or(e, defs, ctx, s).0 is Ok,
{
    match e {
        ExpressionOrRange::Exp(inner) => {
            assert forall|i: int| 0 <= i < inner.spec_vars().len() implies (
            #[trigger] spec_lookup_def(defs, inner.spec_vars()[i])) is Some by {
                assert(e.spec_vars()[i] == inner.spec_vars()[i]);
                assert(spec_lookup_def(defs, e.spec_vars()[i]) is Some);
            }
            lemma_eval_ok(inner, defs, ctx);
        },
        ExpressionOrRange::Range { is_random, first, second } => {
            assert forall|i: int| 0 <= i < first.spec_vars().len() implies (
            #[trigger] spec_lookup_def(defs, first.spec_vars()[i])) is Some by {
                assert(e.spec_vars()[i] == first.spec_vars()[i]);
                assert(spec_lookup_def(defs, e.spec_vars()[i]) is Some);
            }
            assert forall|i: int| 0 <= i < second.spec_vars().len() implies (
            #[trigger] spec_lookup_def(defs, second.spec_vars()[i])) is Some by {
                let j = i + first.spec_vars().len();
                assert(e.spec_vars()[j] == second.spec_vars()[i]);
                assert(spec_lookup_def(defs, e.spec_vars()[j]) is Some);
            }
            lemma_eval_ok(first, defs, ctx);
            lemma_eval_ok(second, defs, ctx);
        },
    }
}

impl Expression {
    /// Every literal in the tree is a well-formed scalar.
    pub open spec fn wf(self) -> bool
        decreases self,
    {
        match self {
            Expression::Number { val } => fx_wf(val as int),
            Expression::Variable { name } => true,
            Expression::PropertyAccess { property } => true,
            Expression::Unary { operator, operand } => operand.wf(),
            Expression::Binary { left, operator, right } => left.wf() && right.wf(),
        }
    }

    /// The constant names referenced, in evaluation order.
    pub open spec fn spec_vars(self) -> Seq<Seq<char>>
        decreases self,
    {
        match self {
            Expression::Number { val } => Seq::empty(),
            Expression::Variable { name } => seq![name@],
            Expression::PropertyAccess { property } => Seq::empty(),
            Expression::Unary { operator, operand } => operand.spec_vars(),
            Expression::Binary { left, operator, right } => left.spec_vars() + right.spec_vars(),
        }
    }

    /// Append the referenced constant names to `out`, in evaluation order.
    pub fn collect_variables(&self, out: &mut Vec<String>)
        ensures
            final(out)@.map_values(|s: String| s@) == old(out)@.map_values(|s: String| s@)
                + self.spec_vars(),
        decreases *self,
    {
        match self {
            Expression::Number { val } => {
                proof {
                    assert(final(out)@.map_values(|s: String| s@) =~= old(out)@.map_values(
                        |s: String| s@,
                    ) + self.spec_vars());
                }
            },
            Expression::Variable { name } => {
                out.push(name.clone());
                proof {
                    assert(final(out)@.map_values(|s: String| s@) =~= old(out)@.map_values(
                        |s: String| s@,
                    ) + self.spec_vars());
                }
            },
            Expression::PropertyAccess { property } => {
                proof {
                    assert(final(out)@.map_values(|s: String| s@) =~= old(out)@.map_values(
                        |s: String| s@,
                    ) + self.spec_vars());
                }
            },
            Expression::Unary { operator, operand } => {
                operand.collect_variables(out);
            },
            Expression::Binary { left, operator, right } => {
                left.collect_variables(out);
                right.collect_variables(out);
                proof {
                    assert(final(out)@.map_values(|s: String| s@) =~= old(out)@.map_values(
                        |s: String| s@,
                    ) + self.spec_vars());
                }
            },
        }
    }

    /// The constant names referenced by this expression, in evaluation
    /// order.
    pub fn get_variables(&self) -> (r: Vec<String>)
        ensures
            r@.map_values(|s: String| s@) == self.spec_vars(),
    {
        let mut out: Vec<String> = Vec::new();
        proof {
            assert(out@.map_values(|s: String| s@) =~= Seq::<Seq<char>>::empty());
        }
        self.collect_variables(&mut out);
        proof {
            assert(Seq::<Seq<char>>::empty() + self.spec_vars() =~= self.spec_vars());
        }
        out
    }

    /// Check well-formedness: every literal within the representable
    /// range.
    pub fn check_wf(&self) -> (r: bool)
        ensures
            r == self.wf(),
        decreases *self,
    {
        match self {
            Expression::Number { val } => -FX_MAX <= *val && *val <= FX_MAX,
            Expression::Variable { name } => true,
            Expression::PropertyAccess { property } => true,
            Expression::Unary { operator, operand } => operand.check_wf(),
            Expression::Binary { left, operator, right } => left.check_wf() && right.check_wf(),
        }
    }

    /// The first referenced constant that has no definition, if any.
    pub fn check_vars(&self, defs: &Vec<(String, i64)>) -> (r: Option<String>)
        ensures
            r is None <==> vars_defined(*self, defs@),
    {
        let vars: Vec<String> = self.get_variables();
        check_names_defined(&vars, defs, Ghost(self.spec_vars()))
    }

    /// A structurally equal copy.
    pub fn duplicate(&self) -> (r: Self)
        ensures
            r == *self,
        decreases *self,
    {
        match self {
            Expression::Number { val } => Expression::Number { val: *val },
            Expression::Variable { name } => Expression::Variable { name: name.clone() },
            Expression::PropertyAccess { property } => Expression::PropertyAccess {
                property: *property,
            },
            Expression::Unary { operator, operand } => Expression::Unary {
                operator: *operator,
                operand: Box::new(operand.duplicate()),
            },
            Expression::Binary { left, operator, right } => Expression::Binary {
                left: Box::new(left.duplicate()),
                operator: *operator,
                right: Box::new(right.duplicate()),
            },
        }
    }

    /// The tree has only literal leaves: no constant reference, no
    /// property access.
    pub open spec fn is_literal(self) -> bool
        decreases self,
    {
        match self {
            Expression::Number { val } => true,
            Expression::Variable { name } => false,
            Expression::PropertyAccess { property } => false,
            Expression::Unary { operator, operand } => operand.is_literal(),
            Expression::Binary { left, operator, right } => left.is_literal() && right.is_literal(),
        }
    }

    /// The tree is in folded normal form: no operator sits over nothing
    /// but literal operands.
    pub open spec fn is_folded(self) -> bool
        decreases self,
    {
        match self {
            Expression::Number { val } => true,
            Expression::Variable { name } => true,
            Expression::PropertyAccess { property } => true,
            Expression::Unary { operator, operand } => operand.is_folded() && !(
            *operand matches Expression::Number { .. }),
            Expression::Binary { left, operator, right } => left.is_folded() && right.is_folded()
                && !(*left matches Expression::Number { .. } && *right matches Expression::Number {
                ..
            }),
        }
    }

    /// What folding yields: the same tree with every subtree whose
    /// operands fold to literals collapsed into one literal.
    pub open spec fn spec_fold(self) -> Expression
        decreases self,
    {
        match self {
            Expression::Number { val } => self,
            Expression::Variable { name } => self,
            Expression::PropertyAccess { property } => self,
            Expression::Unary { operator, operand } => {
                let o = operand.spec_fold();
                match o {
                    Expression::Number { val } => Expression::Number {
                        val: operator.spec_apply(val as int) as i64,
                    },
                    _ => Expression::Unary { operator, operand: Box::new(o) },
                }
            },
            Expression::Binary { left, operator, right } => {
                let l = left.spec_fold();
                let r = right.spec_fold();
                match (l, r) {
                    (Expression::Number { val: vl }, Expression::Number { val: vr }) => (
                    Expression::Number { val: operator.spec_apply(vl as int, vr as int) as i64 }),
                    _ => (Expression::Binary {
                        left: Box::new(l),
                        operator,
                        right: Box::new(r),
                    }),
                }
            },
        }
    }

    /// Constant folding: a pure bottom-up rewrite that collapses any
    /// subtree whose operands are literal numbers into one literal.  The
    /// result is exactly `spec_fold`; in particular folding preserves
    /// evaluation against every definition table and every context, a
    /// tree with only literal leaves collapses to one number, the result
    /// is in folded normal form, folding a tree already in that form
    /// returns it unchanged (so folding is idempotent), and the
    /// referenced constants and their order are kept.
    pub fn fold(self) -> (r: Self)
        requires
            self.wf(),
        ensures
            r == self.spec_fold(),
            r.wf(),
            forall|defs: Seq<(String, i64)>, ctx: NodeProperties| #[trigger] spec_eval(
                r,
                defs,
                ctx,
            ) == spec_eval(self, defs, ctx),
            self.is_literal() ==> r matches Expression::Number { .. },
            r.is_folded(),
            self.is_folded() ==> r == self,
            r.spec_vars() == self.spec_vars(),
        decreases self,
    {
        let ghost self0: Expression = self;
        match self {
            Expression::Number { val } => Expression::Number { val },
            Expression::Variable { name } => Expression::Variable { name },
            Expression::PropertyAccess { property } => Expression::PropertyAccess { property },
            Expression::Unary { operator, operand } => {
                let ghost op0: Expression = *operand;
                let o: Expression = (*operand).fold();
                let ghost o0: Expression = o;
                let folded: Expression = match o {
                    Expression::Number { val } => Expression::Number {
                        val: operator.apply(val),
                    },
                    other => Expression::Unary { operator, operand: Box::new(other) },
                };
                proof {
                    assert forall|defs: Seq<(String, i64)>, ctx: NodeProperties| #[trigger]
                        spec_eval(folded, defs, ctx) == spec_eval(self0, defs, ctx) by {
                        assert(spec_eval(o0, defs, ctx) == spec_eval(op0, defs, ctx));
                    };
                }
                folded
            },
            Expression::Binary { left, operator, right } => {
                let ghost left0: Expression = *left;
                let ghost right0: Expression = *right;
                let lf: Expression = (*left).fold();
                let rf: Expression = (*right).fold();
                let ghost lf0: Expression = lf;
                let ghost rf0: Expression = rf;
                let folded: Expression = match (lf, rf) {
                    (Expression::Number { val: vl }, Expression::Number { val: vr }) => (
                    Expression::Number { val: operator.apply(vl, vr) }),
                    (a, b) => (Expression::Binary {
                        left: Box::new(a),
                        operator,
                        right: Box::new(b),
                    }),
                };
                proof {
                    assert forall|defs: Seq<(String, i64)>, ctx: NodeProperties| #[trigger]
                        spec_eval(folded, defs, ctx) == spec_eval(self0, defs, ctx) by {
                        assert(spec_eval(lf0, defs, ctx) == spec_eval(left0, defs, ctx));
                        assert(spec_eval(rf0, defs, ctx) == spec_eval(right0, defs, ctx));
                    };
                }
                folded
            },
        }
    }

    /// Evaluate against a grammar's definitions and a node context.
    /// Draws nothing from any random stream.
    pub fn try_get_value(&self, grammar: &Grammar, context: &NodeProperties) -> (r: Result<
        ValueOrRange,
        GrammarError,
    >)
        requires
            self.wf(),
            defs_wf(grammar.defs@),
            context.wf(),
        ensures
            r == spec_eval(*self, grammar.defs@, *context),
            r matches Ok(v) ==> v.wf(),
        decreases *self,
    {
        match self {
            Expression::Number { val } => Ok(ValueOrRange::Value(*val)),
            Expression::Variable { name } => {
                match lookup_def(&grammar.defs, name.as_str()) {
                    Some(v) => {
                        proof {
                            lemma_lookup_def_wf(grammar.defs@, name@);
                        }
                        Ok(ValueOrRange::Value(v))
                    },
                    None => Err(GrammarError::UndefinedVariable(name.clone())),
                }
            },
            Expression::PropertyAccess { property } => Ok(property.get(context)),
            Expression::Unary { operator, operand } => {
                match operand.try_get_value(grammar, context) {
                    Ok(v) => Ok(operator.apply_range(v)),
                    Err(er) => Err(er),
                }
            },
            Expression::Binary { left, operator, right } => {
                match left.try_get_value(grammar, context) {
                    Ok(l) => match right.try_get_value(grammar, context) {
                        Ok(r) => Ok(operator.apply_range(l, r)),
                        Err(er) => Err(er),
                    },
                    Err(er) => Err(er),
                }
            },
        }
    }
}

impl ExpressionOrRange {
    pub open spec fn wf(self) -> bool {
        match self {
            ExpressionOrRange::Exp(e) => e.wf(),
            ExpressionOrRange::Range { is_random, first, second } => first.wf() && second.wf(),
        }
    }

    pub open spec fn spec_vars(self) -> Seq<Seq<char>> {
        match self {
            ExpressionOrRange::Exp(e) => e.spec_vars(),
            ExpressionOrRange::Range { is_random, first, second } => first.spec_vars()
                + second.spec_vars(),
        }
    }

    /// The constant names referenced, in evaluation order.
    pub fn get_variables(&self) -> (r: Vec<String>)
        ensures
            r@.map_values(|s: String| s@) == self.spec_vars(),
    {
        match self {
            ExpressionOrRange::Exp(e) => e.get_variables(),
            ExpressionOrRange::Range { is_random, first, second } => {
                let mut out: Vec<String> = first.get_variables();
                second.collect_variables(&mut out);
                out
            },
        }
    }

    /// Check well-formedness: every literal within the representable
    /// range.
    pub fn check_wf(&self) -> (r: bool)
        ensures
            r == self.wf(),
    {
        match self {
            ExpressionOrRange::Exp(e) => e.check_wf(),
            ExpressionOrRange::Range { is_random, first, second } => first.check_wf()
                && second.check_wf(),
        }
    }

    /// The first referenced constant that has no definition, if any.
    pub fn check_vars(&self, defs: &Vec<(String, i64)>) -> (r: Option<String>)
        ensures
            r is None <==> vars_defined_or(*self, defs@),
    {
        let vars: Vec<String> = self.get_variables();
        check_names_defined(&vars, defs, Ghost(self.spec_vars()))
    }

    /// A structurally equal copy.
    pub fn duplicate(&self) -> (r: Self)
        ensures
            r == *self,
    {
        match self {
            ExpressionOrRange::Exp(e) => ExpressionOrRange::Exp(e.duplicate()),
            ExpressionOrRange::Range { is_random, first, second } => ExpressionOrRange::Range {
                is_random: *is_random,
                first: first.duplicate(),
                second: second.duplicate(),
            },
        }
    }

    /// Evaluate an assignment value.  A plain expression and a non-random
    /// range leave the stream untouched; a random range draws one scalar
    /// uniformly between the first bound's minimum and the second bound's
    /// maximum.
    pub fn try_get_value(
        &self,
        grammar: &Grammar,
        context: &NodeProperties,
        rng: &mut Rng,
    ) -> (r: Result<ValueOrRange, GrammarError>)
        requires
            self.wf(),
            defs_wf(grammar.defs@),
            context.wf(),
        ensures
            r == spec_eval_or(*self, grammar.defs@, *context, old(rng).state).0,
            final(rng).state == spec_eval_or(*self, grammar.defs@, *context, old(rng).state).1,
            r matches Ok(v) ==> v.wf(),
    {
        match self {
            ExpressionOrRange::Exp(e) => e.try_get_value(grammar, context),
            ExpressionOrRange::Range { is_random, first, second } => {
                let v1: ValueOrRange = match first.try_get_value(grammar, context) {
                    Ok(v) => v,
                    Err(er) => {
                        return Err(er);
                    },
                };
                let v2: ValueOrRange = match second.try_get_value(grammar, context) {
                    Ok(v) => v,
                    Err(er) => {
                        return Err(er);
                    },
                };
                let range = ValueOrRange::Range { start: v1.min_value(), end: v2.max_value() };
                if *is_random {
                    Ok(ValueOrRange::Value(range.random_value(rng)))
                } else {
                    Ok(range)
                }
            },
        }
    }
}

} // verus!
