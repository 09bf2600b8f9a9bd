//! The grammar data model: constants, rules, and top-level invocations.
//!
//! Constant and rule names are matched without regard to ASCII case.  The
//! tables are association lists in declaration order, unique up to case;
//! lookups find the first (and only) match.

use crate::error::GrammarError;
use crate::expression::{vars_defined, vars_defined_or};
use crate::expression::{Expression, ExpressionOrRange};
use crate::primitive::Primitive;
use crate::properties::{PropertyType, TempProperty};
use crate::fixed::fx_wf;
use crate::invocation::{Invocation, Method};
use crate::user_rules::RuleCase;
use crate::text::{eq_ignore_case, lemma_str_le_antisym, lemma_str_le_total, lemma_str_le_trans, name_le, spec_lower, spec_str_le};
use crate::user_rules::UserRule;
use vstd::prelude::*;

verus! {

/// Every stored constant is a well-formed scalar.
pub open spec fn defs_wf(defs: Seq<(String, i64)>) -> bool {
    forall|i: int| 0 <= i < defs.len() ==> fx_wf((#[trigger] defs[i]).1 as int)
}

/// No two constants share a name, up to ASCII case.
pub open spec fn defs_unique(defs: Seq<(String, i64)>) -> bool {
    forall|i: int, j: int|
        0 <= i < j < defs.len() ==> spec_lower((#[trigger] defs[i]).0@) != spec_lower(
            (#[trigger] defs[j]).0@,
        )
}

/// The value of the first definition matching `name`, ignoring case.
pub open spec fn spec_lookup_def(defs: Seq<(String, i64)>, name: Seq<char>) -> Option<i64>
    decreases defs.len(),
{
    if defs.len() == 0 {
        None
    } else if spec_lower(defs[0].0@) == spec_lower(name) {
        Some(defs[0].1)
    } else {
        spec_lookup_def(defs.drop_first(), name)
    }
}

/// A found definition comes from the table, so it is well-formed.
pub proof fn lemma_lookup_def_wf(defs: Seq<(String, i64)>, name: Seq<char>)
    requires
        defs_wf(defs),
    ensures
        spec_lookup_def(defs, name) matches Some(v) ==> fx_wf(v as int),
    decreases defs.len(),
{
    if defs.len() > 0 {
        assert(fx_wf(defs[0].1 as int));
        assert(defs_wf(defs.drop_first()));
        lemma_lookup_def_wf(defs.drop_first(), name);
    }
}

/// Look a constant up by name, ignoring ASCII case.
pub fn lookup_def(defs: &Vec<(String, i64)>, name: &str) -> (r: Option<i64>)
    ensures
        r == spec_lookup_def(defs@, name@),
{
    let mut i: usize = 0;
    proof {
        assert(defs@.skip(0) =~= defs@);
    }
    while i < defs.len()
        invariant
            i <= defs@.len(),
            spec_lookup_def(defs@, name@) == spec_lookup_def(defs@.skip(i as int), name@),
        decreases defs@.len() - i,
    {
        proof {
            assert(defs@.skip(i as int)[0] == defs@[i as int]);
        }
        if eq_ignore_case(defs[i].0.as_str(), name) {
            return Some(defs[i].1);
        }
        proof {
            assert(defs@.skip(i as int).drop_first() =~= defs@.skip(i as int + 1));
        }
        i = i + 1;
    }
    proof {
        assert(defs@.skip(i as int).len() == 0);
    }
    None
}

/// The index of the first rule whose name matches, ignoring case.
pub open spec fn spec_rule_index(rules: Seq<UserRule>, name: Seq<char>) -> Option<int>
    decreases rules.len(),
{
    if rules.len() == 0 {
        None
    } else if spec_lower(rules[0].name@) == spec_lower(name) {
        Some(0)
    } else {
        match spec_rule_index(rules.drop_first(), name) {
            Some(i) => Some(i + 1),
            None => None,
        }
    }
}

/// The found index lies in the table and its rule matches the name.
pub proof fn lemma_rule_index_in_range(rules: Seq<UserRule>, name: Seq<char>)
    ensures
        spec_rule_index(rules, name) matches Some(i) ==> 0 <= i < rules.len() && spec_lower(
            rules[i].name@,
        ) == spec_lower(name),
    decreases rules.len(),
{
    if rules.len() > 0 {
        lemma_rule_index_in_range(rules.drop_first(), name);
    }
}

/// Find a rule by name, ignoring ASCII case.
pub fn rule_index(rules: &Vec<UserRule>, name: &str) -> (r: Option<usize>)
    ensures
        (match r {
            Some(i) => spec_rule_index(rules@, name@) == Some(i as int),
            None => spec_rule_index(rules@, name@) is None,
        }),
{
    let mut i: usize = 0;
    proof {
        assert(rules@.skip(0) =~= rules@);
        lemma_rule_index_in_range(rules@, name@);
    }
    while i < rules.len()
        invariant
            i <= rules@.len(),
            (match spec_rule_index(rules@, name@) {
                Some(k) => i <= k && spec_rule_index(rules@.skip(i as int), name@) == Some(
                    k - i,
                ),
                None => spec_rule_index(rules@.skip(i as int), name@) is None,
            }),
        decreases rules@.len() - i,
    {
        proof {
            assert(rules@.skip(i as int)[0] == rules@[i as int]);
        }
        if eq_ignore_case(rules[i].name.as_str(), name) {
            return Some(i);
        }
        proof {
            assert(rules@.skip(i as int).drop_first() =~= rules@.skip(i as int + 1));
            lemma_rule_index_in_range(rules@.skip(i as int + 1), name@);
        }
        i = i + 1;
    }
    proof {
        assert(rules@.skip(i as int).len() == 0);
    }
    None
}

/// A validated document: constants, rules, and the top-level invocations,
/// in declaration order.
#[derive(PartialEq, Debug)]
pub struct Grammar {
    pub top_level: Vec<Invocation>,
    pub defs: Vec<(String, i64)>,
    pub rules: Vec<UserRule>,
}

/// The name a property assignment references as its whole value, with
/// the key's property type, if any.
pub open spec fn spec_prop_use(p: TempProperty) -> Seq<(String, PropertyType)> {
    match p.value {
        ExpressionOrRange::Exp(Expression::Variable { name }) => seq![
            (name, p.key.spec_get_type())
        ],
        _ => Seq::empty(),
    }
}

/// The referenced names of a property list, in declaration order.
pub open spec fn spec_uses_of_props(props: Seq<TempProperty>) -> Seq<(String, PropertyType)>
    decreases props.len(),
{
    if props.len() == 0 {
        Seq::empty()
    } else {
        spec_prop_use(props[0]) + spec_uses_of_props(props.drop_first())
    }
}

/// The referenced names of a list of invocations, in order.
pub open spec fn spec_uses_of_invs(invs: Seq<Invocation>) -> Seq<(String, PropertyType)>
    decreases invs.len(),
{
    if invs.len() == 0 {
        Seq::empty()
    } else {
        spec_uses_of_props(invs[0].properties@) + spec_uses_of_invs(invs.drop_first())
    }
}

/// The name a case's probability gate references as its whole
/// expression, used at the unit-interval type, if any.
pub open spec fn spec_case_gate_use(c: RuleCase) -> Seq<(String, PropertyType)> {
    match c.probability {
        Some(Expression::Variable { name }) => seq![(name, PropertyType::UnitInterval)],
        _ => Seq::empty(),
    }
}

/// The referenced names of a case list: each case's gate first, then its
/// body, in order.
pub open spec fn spec_uses_of_cases(cases: Seq<RuleCase>) -> Seq<(String, PropertyType)>
    decreases cases.len(),
{
    if cases.len() == 0 {
        Seq::empty()
    } else {
        spec_case_gate_use(cases[0]) + spec_uses_of_invs(cases[0].invocations@)
            + spec_uses_of_cases(cases.drop_first())
    }
}

/// The referenced names of a rule list, in order.
pub open spec fn spec_uses_of_rules(rules: Seq<UserRule>) -> Seq<(String, PropertyType)>
    decreases rules.len(),
{
    if rules.len() == 0 {
        Seq::empty()
    } else {
        spec_uses_of_cases(rules[0].cases@) + spec_uses_of_rules(rules.drop_first())
    }
}

/// One use recorded into the listing: the first case-insensitive match
/// keeps its spelling and keeps its type only when it agrees; a fresh
/// name is appended with the type of this use.
pub open spec fn spec_merge_one(
    acc: Seq<(String, Option<PropertyType>)>,
    name: String,
    t: PropertyType,
) -> Seq<(String, Option<PropertyType>)>
    decreases acc.len(),
{
    if acc.len() == 0 {
        seq![(name, Some(t))]
    } else if spec_lower(acc[0].0@) == spec_lower(name@) {
        if acc[0].1 == Some(t) {
            acc
        } else {
            seq![(acc[0].0, None::<PropertyType>)] + acc.drop_first()
        }
    } else if spec_str_le(spec_lower(name@), spec_lower(acc[0].0@)) {
        seq![(name, Some(t))] + acc
    } else {
        seq![acc[0]] + spec_merge_one(acc.drop_first(), name, t)
    }
}

/// A whole use list recorded into the listing, left to right.
pub open spec fn spec_merge(
    acc: Seq<(String, Option<PropertyType>)>,
    uses: Seq<(String, PropertyType)>,
) -> Seq<(String, Option<PropertyType>)>
    decreases uses.len(),
{
    if uses.len() == 0 {
        acc
    } else {
        spec_merge(spec_merge_one(acc, uses[0].0, uses[0].1), uses.drop_first())
    }
}

/// Recording a concatenation records the first part, then the second.
proof fn lemma_merge_concat(
    acc: Seq<(String, Option<PropertyType>)>,
    u1: Seq<(String, PropertyType)>,
    u2: Seq<(String, PropertyType)>,
)
    ensures
        spec_merge(acc, u1 + u2) == spec_merge(spec_merge(acc, u1), u2),
    decreases u1.len(),
{
    if u1.len() == 0 {
        assert(u1 + u2 =~= u2);
    } else {
        assert((u1 + u2)[0] == u1[0]);
        assert((u1 + u2).drop_first() =~= u1.drop_first() + u2);
        lemma_merge_concat(spec_merge_one(acc, u1[0].0, u1[0].1), u1.drop_first(), u2);
    }
}

/// Recording one use keeps the listing sorted and its names distinct,
/// introduces no name other than the one recorded, and keeps any lower
/// bound that also bounds the recorded name.
proof fn lemma_merge_one_names(
    acc: Seq<(String, Option<PropertyType>)>,
    name: String,
    t: PropertyType,
    m: Seq<char>,
    lb: Seq<char>,
)
    ensures
        (Grammar::vars_sorted(acc) && Grammar::vars_distinct(acc)) ==> (Grammar::vars_sorted(
            spec_merge_one(acc, name, t),
        ) && Grammar::vars_distinct(spec_merge_one(acc, name, t))),
        ((forall|k: int|
            0 <= k < acc.len() ==> spec_lower((#[trigger] acc[k]).0@) != m) && spec_lower(name@)
            != m) ==> (forall|k: int|
            0 <= k < spec_merge_one(acc, name, t).len() ==> spec_lower(
                (#[trigger] spec_merge_one(acc, name, t)[k]).0@,
            ) != m),
        ((forall|k: int|
            0 <= k < acc.len() ==> spec_str_le(lb, spec_lower((#[trigger] acc[k]).0@)))
            && spec_str_le(lb, spec_lower(name@))) ==> (forall|k: int|
            0 <= k < spec_merge_one(acc, name, t).len() ==> spec_str_le(
                lb,
                spec_lower((#[trigger] spec_merge_one(acc, name, t)[k]).0@),
            )),
    decreases acc.len(),
{
    let r = spec_merge_one(acc, name, t);
    if acc.len() == 0 {
    } else if spec_lower(acc[0].0@) == spec_lower(name@) {
        if acc[0].1 == Some(t) {
        } else {
            assert forall|k: int| 0 <= k < r.len() implies (#[trigger] r[k]).0 == acc[k].0 by {
                if k > 0 {
                    assert(r[k] == acc.drop_first()[k - 1]);
                }
            }
        }
    } else if spec_str_le(spec_lower(name@), spec_lower(acc[0].0@)) {
        assert(r =~= seq![(name, Some(t))] + acc);
        assert forall|k: int| 1 <= k < r.len() implies (#[trigger] r[k]) == acc[k - 1] by {}
        if Grammar::vars_sorted(acc) && Grammar::vars_distinct(acc) {
            assert forall|k: int| 1 <= k < r.len() implies spec_str_le(
                spec_lower(name@),
                spec_lower((#[trigger] r[k]).0@),
            ) by {
                if k > 1 {
                    lemma_str_le_trans(
                        spec_lower(name@),
                        spec_lower(acc[0].0@),
                        spec_lower(acc[k - 1].0@),
                    );
                }
            }
            assert forall|k: int| 1 <= k < r.len() implies spec_lower(name@) != spec_lower(
                (#[trigger] r[k]).0@,
            ) by {
                if k > 1 && spec_lower(name@) == spec_lower(acc[k - 1].0@) {
                    assert(spec_str_le(spec_lower(acc[0].0@), spec_lower(acc[k - 1].0@)));
                    lemma_str_le_antisym(spec_lower(name@), spec_lower(acc[0].0@));
                    assert(false);
                }
            }
        }
    } else {
        let rest = spec_merge_one(acc.drop_first(), name, t);
        assert(r =~= seq![acc[0]] + rest);
        assert forall|k: int| 1 <= k < r.len() implies (#[trigger] r[k]) == rest[k - 1] by {}
        lemma_str_le_total(spec_lower(name@), spec_lower(acc[0].0@));
        assert(spec_str_le(spec_lower(acc[0].0@), spec_lower(name@)));
        lemma_merge_one_names(acc.drop_first(), name, t, m, lb);
        lemma_merge_one_names(
            acc.drop_first(),
            name,
            t,
            spec_lower(acc[0].0@),
            spec_lower(acc[0].0@),
        );
        assert forall|k: int| 0 <= k < acc.drop_first().len() implies (
        #[trigger] acc.drop_first()[k]) == acc[k + 1] by {}
        if Grammar::vars_sorted(acc) && Grammar::vars_distinct(acc) {
            assert(Grammar::vars_sorted(acc.drop_first()));
            assert(Grammar::vars_distinct(acc.drop_first()));
            assert(forall|k: int|
                0 <= k < acc.drop_first().len() ==> spec_lower(
                    (#[trigger] acc.drop_first()[k]).0@,
                ) != spec_lower(acc[0].0@));
            assert(forall|k: int|
                0 <= k < acc.drop_first().len() ==> spec_str_le(
                    spec_lower(acc[0].0@),
                    spec_lower((#[trigger] acc.drop_first()[k]).0@),
                ));
            assert(forall|k: int|
                0 <= k < rest.len() ==> spec_lower((#[trigger] rest[k]).0@) != spec_lower(
                    acc[0].0@,
                ));
            assert(forall|k: int|
                0 <= k < rest.len() ==> spec_str_le(
                    spec_lower(acc[0].0@),
                    spec_lower((#[trigger] rest[k]).0@),
                ));
            assert forall|a: int, b: int| 0 <= a < b < r.len() implies spec_str_le(
                spec_lower((#[trigger] r[a]).0@),
                spec_lower((#[trigger] r[b]).0@),
            ) && spec_lower(r[a].0@) != spec_lower(r[b].0@) by {
                if a > 0 {
                    assert(r[a] == rest[a - 1]);
                }
                assert(r[b] == rest[b - 1]);
            }
        }
        if (forall|k: int| 0 <= k < acc.len() ==> spec_lower((#[trigger] acc[k]).0@) != m)
            && spec_lower(name@) != m {
            assert(forall|k: int|
                0 <= k < acc.drop_first().len() ==> spec_lower(
                    (#[trigger] acc.drop_first()[k]).0@,
                ) != m);
            assert forall|k: int| 0 <= k < r.len() implies spec_lower((#[trigger] r[k]).0@)
                != m by {
                if k > 0 {
                    assert(r[k] == rest[k - 1]);
                }
            }
        }
        if (forall|k: int|
            0 <= k < acc.len() ==> spec_str_le(lb, spec_lower((#[trigger] acc[k]).0@)))
            && spec_str_le(lb, spec_lower(name@)) {
            assert(forall|k: int|
                0 <= k < acc.drop_first().len() ==> spec_str_le(
                    lb,
                    spec_lower((#[trigger] acc.drop_first()[k]).0@),
                ));
            assert forall|k: int| 0 <= k < r.len() implies spec_str_le(
                lb,
                spec_lower((#[trigger] r[k]).0@),
            ) by {
                if k > 0 {
                    assert(r[k] == rest[k - 1]);
                }
            }
        }
    }
}

/// Recording any use list keeps the listing sorted with distinct names.
proof fn lemma_merge_ordered(
    acc: Seq<(String, Option<PropertyType>)>,
    uses: Seq<(String, PropertyType)>,
)
    requires
        Grammar::vars_sorted(acc),
        Grammar::vars_distinct(acc),
    ensures
        Grammar::vars_sorted(spec_merge(acc, uses)),
        Grammar::vars_distinct(spec_merge(acc, uses)),
    decreases uses.len(),
{
    if uses.len() > 0 {
        lemma_merge_one_names(acc, uses[0].0, uses[0].1, Seq::empty(), Seq::empty());
        lemma_merge_ordered(spec_merge_one(acc, uses[0].0, uses[0].1), uses.drop_first());
    }
}

/// The listing from entry `i` on with one use recorded.
fn merge_one_from(
    acc: &Vec<(String, Option<PropertyType>)>,
    i: usize,
    name: &String,
    t: PropertyType,
) -> (r: Vec<(String, Option<PropertyType>)>)
    requires
        i <= acc@.len(),
    ensures
        r@ == spec_merge_one(acc@.skip(i as int), *name, t),
    decreases acc@.len() - i,
{
    if i == acc.len() {
        let mut r: Vec<(String, Option<PropertyType>)> = Vec::new();
        r.push((name.clone(), Some(t)));
        proof {
            assert(acc@.skip(i as int).len() == 0);
            assert(r@ =~= seq![(*name, Some(t))]);
        }
        return r;
    }
    proof {
        assert(acc@.skip(i as int)[0] == acc@[i as int]);
    }
    if eq_ignore_case(acc[i].0.as_str(), name.as_str()) {
        let agrees: bool = match acc[i].1 {
            Some(x) => x == t,
            None => false,
        };
        let head: (String, Option<PropertyType>) = (
            acc[i].0.clone(),
            if agrees {
                acc[i].1
            } else {
                None
            },
        );
        let ghost head0: (String, Option<PropertyType>) = head;
        let mut r: Vec<(String, Option<PropertyType>)> = Vec::new();
        r.push(head);
        let mut k: usize = i + 1;
        while k < acc.len()
            invariant
                i < k <= acc@.len(),
                r@ =~= seq![head0] + acc@.subrange(i as int + 1, k as int),
            decreases acc@.len() - k,
        {
            r.push((acc[k].0.clone(), acc[k].1));
            proof {
                assert(r@ =~= seq![head0] + acc@.subrange(i as int + 1, k as int + 1));
            }
            k = k + 1;
        }
        proof {
            assert(acc@.subrange(i as int + 1, acc@.len() as int) =~= acc@.skip(
                i as int,
            ).drop_first());
            if agrees {
                assert(head0 == acc@[i as int]);
                assert(r@ =~= acc@.skip(i as int));
            } else {
                assert(head0 == (acc@[i as int].0, None::<PropertyType>));
                assert(r@ =~= seq![(acc@.skip(i as int)[0].0, None::<PropertyType>)] + acc@.skip(
                    i as int,
                ).drop_first());
            }
        }
        r
    } else if name_le(name.as_str(), acc[i].0.as_str()) {
        let mut r: Vec<(String, Option<PropertyType>)> = Vec::new();
        r.push((name.clone(), Some(t)));
        let mut k: usize = i;
        while k < acc.len()
            invariant
                i <= k <= acc@.len(),
                r@ =~= seq![(*name, Some(t))] + acc@.subrange(i as int, k as int),
            decreases acc@.len() - k,
        {
            r.push((acc[k].0.clone(), acc[k].1));
            proof {
                assert(r@ =~= seq![(*name, Some(t))] + acc@.subrange(i as int, k as int + 1));
            }
            k = k + 1;
        }
        proof {
            assert(acc@.subrange(i as int, acc@.len() as int) =~= acc@.skip(i as int));
            assert(r@ =~= seq![(*name, Some(t))] + acc@.skip(i as int));
        }
        r
    } else {
        let mut r: Vec<(String, Option<PropertyType>)> = merge_one_from(acc, i + 1, name, t);
        r.insert(0, (acc[i].0.clone(), acc[i].1));
        proof {
            assert(acc@.skip(i as int).drop_first() =~= acc@.skip(i as int + 1));
            assert(r@ =~= seq![acc@[i as int]] + spec_merge_one(
                acc@.skip(i as int + 1),
                *name,
                t,
            ));
        }
        r
    }
}

/// The listing with one use recorded.
fn merge_one(
    acc: &Vec<(String, Option<PropertyType>)>,
    name: &String,
    t: PropertyType,
) -> (r: Vec<(String, Option<PropertyType>)>)
    ensures
        r@ == spec_merge_one(acc@, *name, t),
{
    proof {
        assert(acc@.skip(0) =~= acc@);
    }
    merge_one_from(acc, 0, name, t)
}

/// The listing with one invocation's uses recorded, from property `k` on.
fn merge_props(
    acc: Vec<(String, Option<PropertyType>)>,
    inv: &Invocation,
    k: usize,
) -> (r: Vec<(String, Option<PropertyType>)>)
    requires
        k <= inv.properties@.len(),
    ensures
        r@ == spec_merge(acc@, spec_uses_of_props(inv.properties@.skip(k as int))),
    decreases inv.properties@.len() - k,
{
    let ghost acc0: Seq<(String, Option<PropertyType>)> = acc@;
    if k == inv.properties.len() {
        proof {
            assert(inv.properties@.skip(k as int).len() == 0);
        }
        return acc;
    }
    proof {
        assert(inv.properties@.skip(k as int)[0] == inv.properties@[k as int]);
        assert(inv.properties@.skip(k as int).drop_first() =~= inv.properties@.skip(k as int + 1));
    }
    let p: &TempProperty = &inv.properties[k];
    match &p.value {
        ExpressionOrRange::Exp(Expression::Variable { name }) => {
            let acc2: Vec<(String, Option<PropertyType>)> = merge_one(&acc, name, p.key.get_type());
            proof {
                assert(spec_prop_use(inv.properties@[k as int]) =~= seq![
                    (*name, p.key.spec_get_type())
                ]);
                let u = spec_uses_of_props(inv.properties@.skip(k as int));
                assert(u[0] == (*name, p.key.spec_get_type()));
                assert(u.drop_first() =~= spec_uses_of_props(inv.properties@.skip(k as int + 1)));
            }
            merge_props(acc2, inv, k + 1)
        },
        _ => {
            proof {
                assert(spec_prop_use(inv.properties@[k as int]) =~= Seq::<
                    (String, PropertyType),
                >::empty());
                assert(spec_uses_of_props(inv.properties@.skip(k as int)) =~= spec_uses_of_props(
                    inv.properties@.skip(k as int + 1),
                ));
            }
            merge_props(acc, inv, k + 1)
        },
    }
}

/// The listing with a list of invocations' uses recorded, from entry `k`
/// on.
fn merge_invs(
    acc: Vec<(String, Option<PropertyType>)>,
    invs: &Vec<Invocation>,
    k: usize,
) -> (r: Vec<(String, Option<PropertyType>)>)
    requires
        k <= invs@.len(),
    ensures
        r@ == spec_merge(acc@, spec_uses_of_invs(invs@.skip(k as int))),
    decreases invs@.len() - k,
{
    let ghost acc0: Seq<(String, Option<PropertyType>)> = acc@;
    if k == invs.len() {
        proof {
            assert(invs@.skip(k as int).len() == 0);
        }
        return acc;
    }
    proof {
        assert(invs@.skip(k as int)[0] == invs@[k as int]);
        assert(invs@.skip(k as int).drop_first() =~= invs@.skip(k as int + 1));
        assert(invs@[k as int].properties@.skip(0) =~= invs@[k as int].properties@);
        lemma_merge_concat(
            acc0,
            spec_uses_of_props(invs@[k as int].properties@),
            spec_uses_of_invs(invs@.skip(k as int + 1)),
        );
    }
    let acc2: Vec<(String, Option<PropertyType>)> = merge_props(acc, &invs[k], 0);
    merge_invs(acc2, invs, k + 1)
}

/// The listing with a case list's uses recorded, from entry `j` on: each
/// case's gate first, then its body.
fn merge_cases(
    acc: Vec<(String, Option<PropertyType>)>,
    cases: &Vec<RuleCase>,
    j: usize,
) -> (r: Vec<(String, Option<PropertyType>)>)
    requires
        j <= cases@.len(),
    ensures
        r@ == spec_merge(acc@, spec_uses_of_cases(cases@.skip(j as int))),
    decreases cases@.len() - j,
{
    let ghost acc0: Seq<(String, Option<PropertyType>)> = acc@;
    if j == cases.len() {
        proof {
            assert(cases@.skip(j as int).len() == 0);
        }
        return acc;
    }
    proof {
        assert(cases@.skip(j as int)[0] == cases@[j as int]);
        assert(cases@.skip(j as int).drop_first() =~= cases@.skip(j as int + 1));
    }
    let ghost gate: Seq<(String, PropertyType)> = spec_case_gate_use(cases@[j as int]);
    let ghost body: Seq<(String, PropertyType)> = spec_uses_of_invs(
        cases@[j as int].invocations@,
    );
    let ghost rest: Seq<(String, PropertyType)> = spec_uses_of_cases(cases@.skip(j as int + 1));
    let case: &RuleCase = &cases[j];
    let acc2: Vec<(String, Option<PropertyType>)> = match &case.probability {
        Some(Expression::Variable { name }) => {
            let merged: Vec<(String, Option<PropertyType>)> = merge_one(
                &acc,
                name,
                PropertyType::UnitInterval,
            );
            proof {
                assert(gate =~= seq![(*name, PropertyType::UnitInterval)]);
                assert(gate.drop_first() =~= Seq::<(String, PropertyType)>::empty());
                assert(gate[0] == (*name, PropertyType::UnitInterval));
                assert(spec_merge(acc0, gate) == spec_merge(
                    spec_merge_one(acc0, gate[0].0, gate[0].1),
                    gate.drop_first(),
                ));
                assert(spec_merge(spec_merge_one(acc0, gate[0].0, gate[0].1), gate.drop_first())
                    == spec_merge_one(acc0, gate[0].0, gate[0].1));
                assert(merged@ == spec_merge(acc0, gate));
            }
            merged
        },
        _ => {
            proof {
                assert(gate =~= Seq::<(String, PropertyType)>::empty());
            }
            acc
        },
    };
    proof {
        assert(case.invocations@.skip(0) =~= case.invocations@);
        lemma_merge_concat(acc0, gate, body);
        lemma_merge_concat(acc0, gate + body, rest);
        assert(spec_uses_of_cases(cases@.skip(j as int)) =~= gate + body + rest);
    }
    let acc3: Vec<(String, Option<PropertyType>)> = merge_invs(acc2, &case.invocations, 0);
    merge_cases(acc3, cases, j + 1)
}

/// The listing with a rule list's uses recorded, from entry `i` on.
fn merge_rules(
    acc: Vec<(String, Option<PropertyType>)>,
    rules: &Vec<UserRule>,
    i: usize,
) -> (r: Vec<(String, Option<PropertyType>)>)
    requires
        i <= rules@.len(),
    ensures
        r@ == spec_merge(acc@, spec_uses_of_rules(rules@.skip(i as int))),
    decreases rules@.len() - i,
{
    let ghost acc0: Seq<(String, Option<PropertyType>)> = acc@;
    if i == rules.len() {
        proof {
            assert(rules@.skip(i as int).len() == 0);
        }
        return acc;
    }
    proof {
        assert(rules@.skip(i as int)[0] == rules@[i as int]);
        assert(rules@.skip(i as int).drop_first() =~= rules@.skip(i as int + 1));
        assert(rules@[i as int].cases@.skip(0) =~= rules@[i as int].cases@);
        lemma_merge_concat(
            acc0,
            spec_uses_of_cases(rules@[i as int].cases@),
            spec_uses_of_rules(rules@.skip(i as int + 1)),
        );
    }
    let acc2: Vec<(String, Option<PropertyType>)> = merge_cases(acc, &rules[i].cases, 0);
    merge_rules(acc2, rules, i + 1)
}

/// No two rules share a name, up to ASCII case.
pub open spec fn rules_unique(rules: Seq<UserRule>) -> bool {
    forall|i: int, j: int|
        0 <= i < j < rules.len() ==> spec_lower((#[trigger] rules[i]).name@) != spec_lower(
            (#[trigger] rules[j]).name@,
        )
}

/// The method an invocation calls resolves: a rule reference names a
/// declared rule.
pub open spec fn method_resolves(m: Method, rules: Seq<UserRule>) -> bool {
    match m {
        Method::Rule(name) => spec_rule_index(rules, name@) is Some,
        _ => true,
    }
}

/// The definitions with one constant set: a case-insensitive match keeps
/// its spelling and takes the new value; a fresh name is appended.
pub open spec fn spec_set_def(defs: Seq<(String, i64)>, key: String, val: i64) -> Seq<(String, i64)>
    decreases defs.len(),
{
    if defs.len() == 0 {
        seq![(key, val)]
    } else if spec_lower(defs[0].0@) == spec_lower(key@) {
        seq![(defs[0].0, val)] + defs.drop_first()
    } else {
        seq![defs[0]] + spec_set_def(defs.drop_first(), key, val)
    }
}

/// The definitions after laying the overrides from entry `i` on over
/// them, in order.
pub open spec fn spec_override_defs(
    defs: Seq<(String, i64)>,
    new: Seq<(String, i64)>,
    i: int,
) -> Seq<(String, i64)>
    decreases new.len() - i,
{
    if i < 0 || i >= new.len() {
        defs
    } else {
        spec_override_defs(spec_set_def(defs, new[i].0, new[i].1), new, i + 1)
    }
}

/// When the first match sits at `j`, setting a constant updates that
/// entry's value in place.
proof fn lemma_set_def_found(defs: Seq<(String, i64)>, key: String, val: i64, j: int)
    requires
        0 <= j < defs.len(),
        spec_lower(defs[j].0@) == spec_lower(key@),
        forall|k: int| 0 <= k < j ==> spec_lower((#[trigger] defs[k]).0@) != spec_lower(key@),
    ensures
        spec_set_def(defs, key, val) == defs.update(j, (defs[j].0, val)),
    decreases j,
{
    if j == 0 {
        assert(seq![(defs[0].0, val)] + defs.drop_first() =~= defs.update(0, (defs[0].0, val)));
    } else {
        assert(forall|k: int|
            0 <= k < j - 1 ==> spec_lower((#[trigger] defs.drop_first()[k]).0@) != spec_lower(
                key@,
            ));
        lemma_set_def_found(defs.drop_first(), key, val, j - 1);
        assert(seq![defs[0]] + defs.drop_first().update(j - 1, (defs[j].0, val)) =~= defs.update(
            j,
            (defs[j].0, val),
        ));
    }
}

/// When no entry matches, setting a constant appends it.
proof fn lemma_set_def_missing(defs: Seq<(String, i64)>, key: String, val: i64)
    requires
        forall|k: int|
            0 <= k < defs.len() ==> spec_lower((#[trigger] defs[k]).0@) != spec_lower(key@),
    ensures
        spec_set_def(defs, key, val) == defs.push((key, val)),
    decreases defs.len(),
{
    if defs.len() == 0 {
        assert(seq![(key, val)] =~= defs.push((key, val)));
    } else {
        assert(forall|k: int|
            0 <= k < defs.drop_first().len() ==> spec_lower(
                (#[trigger] defs.drop_first()[k]).0@,
            ) != spec_lower(key@));
        lemma_set_def_missing(defs.drop_first(), key, val);
        assert(seq![defs[0]] + defs.drop_first().push((key, val)) =~= defs.push((key, val)));
    }
}

/// The definitions from entry `i` on with one constant set.
fn set_def_from(defs: &Vec<(String, i64)>, i: usize, key: &String, val: i64) -> (r: Vec<
    (String, i64),
>)
    requires
        i <= defs@.len(),
    ensures
        r@ == spec_set_def(defs@.skip(i as int), *key, val),
    decreases defs@.len() - i,
{
    if i == defs.len() {
        let mut r: Vec<(String, i64)> = Vec::new();
        r.push((key.clone(), val));
        proof {
            assert(defs@.skip(i as int).len() == 0);
            assert(r@ =~= seq![(*key, val)]);
        }
        return r;
    }
    proof {
        assert(defs@.skip(i as int)[0] == defs@[i as int]);
    }
    if eq_ignore_case(defs[i].0.as_str(), key.as_str()) {
        let mut r: Vec<(String, i64)> = Vec::new();
        r.push((defs[i].0.clone(), val));
        let mut k: usize = i + 1;
        while k < defs.len()
            invariant
                i < k <= defs@.len(),
                r@ =~= seq![(defs@[i as int].0, val)] + defs@.subrange(i as int + 1, k as int),
            decreases defs@.len() - k,
        {
            r.push((defs[k].0.clone(), defs[k].1));
            proof {
                assert(r@ =~= seq![(defs@[i as int].0, val)] + defs@.subrange(
                    i as int + 1,
                    k as int + 1,
                ));
            }
            k = k + 1;
        }
        proof {
            assert(defs@.subrange(i as int + 1, defs@.len() as int) =~= defs@.skip(
                i as int,
            ).drop_first());
            assert(r@ =~= seq![(defs@[i as int].0, val)] + defs@.skip(i as int).drop_first());
        }
        r
    } else {
        let mut r: Vec<(String, i64)> = set_def_from(defs, i + 1, key, val);
        r.insert(0, (defs[i].0.clone(), defs[i].1));
        proof {
            assert(defs@.skip(i as int).drop_first() =~= defs@.skip(i as int + 1));
            assert(r@ =~= seq![defs@[i as int]] + spec_set_def(
                defs@.skip(i as int + 1),
                *key,
                val,
            ));
        }
        r
    }
}

/// The definitions with one constant set: the first case-insensitive
/// match keeps its spelling and takes the new value, a fresh name is
/// appended.
fn set_def(defs: &Vec<(String, i64)>, key: &String, val: i64) -> (r: Vec<(String, i64)>)
    ensures
        r@ == spec_set_def(defs@, *key, val),
{
    proof {
        assert(defs@.skip(0) =~= defs@);
    }
    set_def_from(defs, 0, key, val)
}

impl Grammar {
    /// An invocation is sound against this grammar: well-formed, its
    /// method resolves, and every constant it references is defined.
    pub open spec fn invocation_ok(self, inv: Invocation) -> bool {
        &&& inv.wf()
        &&& method_resolves(inv.method, self.rules@)
        &&& forall|i: int|
            0 <= i < inv.properties@.len() ==> vars_defined_or(
                (#[trigger] inv.properties@[i]).value,
                self.defs@,
            )
    }

    /// A rule case is sound: its gate (if any) and every invocation in its
    /// body are.
    pub open spec fn case_ok(self, c: RuleCase) -> bool {
        &&& (match c.probability {
            Some(e) => e.wf() && vars_defined(e, self.defs@),
            None => true,
        })
        &&& forall|i: int| 0 <= i < c.invocations@.len() ==> self.invocation_ok(
            #[trigger] c.invocations@[i],
        )
    }

    /// A rule is sound: every case is, and only the last case may lack a
    /// probability gate (an unconditional case ends the chain).
    pub open spec fn rule_ok(self, r: UserRule) -> bool {
        &&& forall|i: int| 0 <= i < r.cases@.len() ==> self.case_ok(#[trigger] r.cases@[i])
        &&& forall|i: int|
            0 <= i < r.cases@.len() - 1 ==> (#[trigger] r.cases@[i]).probability is Some
    }

    /// Every listed name is distinct from the others, up to ASCII case.
    pub open spec fn vars_distinct(s: Seq<(String, Option<PropertyType>)>) -> bool {
        forall|i: int, j: int|
            0 <= i < j < s.len() ==> spec_lower((#[trigger] s[i]).0@) != spec_lower(
                (#[trigger] s[j]).0@,
            )
    }

    /// The listing is sorted ascending by name, compared lowercased.
    pub open spec fn vars_sorted(s: Seq<(String, Option<PropertyType>)>) -> bool {
        forall|i: int, j: int|
            0 <= i < j < s.len() ==> spec_str_le(
                spec_lower((#[trigger] s[i]).0@),
                spec_lower((#[trigger] s[j]).0@),
            )
    }

    /// The constants the grammar references directly: every name used as
    /// a whole property value anywhere (top level or in any rule case) or
    /// as a whole probability gate, each once, sorted ascending by name
    /// (compared lowercased, as names match everywhere in a grammar), the
    /// first occurrence's spelling kept.  A name keeps the one property
    /// type all its uses agree on (a gate use counts as the unit
    /// interval), and drops to nothing when two uses disagree.  Editor
    /// sliders are built from this list.
    pub fn get_variables(&self) -> (r: Vec<(String, Option<PropertyType>)>)
        ensures
            r@ == spec_merge(
                Seq::empty(),
                spec_uses_of_invs(self.top_level@) + spec_uses_of_rules(self.rules@),
            ),
            Self::vars_sorted(r@),
            Self::vars_distinct(r@),
    {
        let out: Vec<(String, Option<PropertyType>)> = Vec::new();
        proof {
            assert(out@ =~= Seq::<(String, Option<PropertyType>)>::empty());
            assert(self.top_level@.skip(0) =~= self.top_level@);
            assert(self.rules@.skip(0) =~= self.rules@);
            lemma_merge_concat(
                Seq::empty(),
                spec_uses_of_invs(self.top_level@),
                spec_uses_of_rules(self.rules@),
            );
            lemma_merge_ordered(
                Seq::empty(),
                spec_uses_of_invs(self.top_level@) + spec_uses_of_rules(self.rules@),
            );
        }
        let out1: Vec<(String, Option<PropertyType>)> = merge_invs(out, &self.top_level, 0);
        let out2: Vec<(String, Option<PropertyType>)> = merge_rules(out1, &self.rules, 0);
        out2
    }

    /// Lay new constant values over the definitions: a case-insensitive
    /// match keeps its spelling and takes the new value, a fresh name is
    /// appended.  Rules and top-level invocations stay untouched.
    pub fn override_defs(&mut self, new_defs: &Vec<(String, i64)>)
        ensures
            final(self).defs@ == spec_override_defs(old(self).defs@, new_defs@, 0),
            final(self).top_level == old(self).top_level,
            final(self).rules == old(self).rules,
    {
        let mut i: usize = 0;
        while i < new_defs.len()
            invariant
                i <= new_defs@.len(),
                spec_override_defs(old(self).defs@, new_defs@, 0) == spec_override_defs(
                    self.defs@,
                    new_defs@,
                    i as int,
                ),
                self.top_level == old(self).top_level,
                self.rules == old(self).rules,
            decreases new_defs@.len() - i,
        {
            self.defs = set_def(&self.defs, &new_defs[i].0, new_defs[i].1);
            i = i + 1;
        }
    }

    /// Check one invocation against this grammar: shape, rule resolution,
    /// and constant references.
    pub fn check_invocation(&self, inv: &Invocation) -> (r: Result<(), GrammarError>)
        ensures
            r is Ok <==> self.invocation_ok(*inv),
            r matches Err(_) ==> !self.valid() || !self.invocation_ok(*inv),
            (match inv.method {
                Method::Rule(nm) => spec_rule_index(self.rules@, nm@) is None ==> (
                r matches Err(er) && er == GrammarError::UnknownRule(nm)),
                _ => true,
            }),
    {
        match &inv.method {
            Method::Root => {},
            Method::Primitive(p) => {
                match p {
                    Primitive::Polygon(n) => {
                        if *n < 3 || *n > 12 {
                            return Err(GrammarError::Syntax(0));
                        }
                    },
                    _ => {},
                }
            },
            Method::Rule(nm) => {
                if rule_index(&self.rules, nm.as_str()).is_none() {
                    return Err(GrammarError::UnknownRule(nm.clone()));
                }
            },
        }
        let mut i: usize = 0;
        while i < inv.properties.len()
            invariant
                i <= inv.properties@.len(),
                forall|k: int|
                    0 <= k < i ==> (#[trigger] inv.properties@[k]).value.wf() && vars_defined_or(
                        inv.properties@[k].value,
                        self.defs@,
                    ),
                (match inv.method {
                    Method::Rule(nm) => spec_rule_index(self.rules@, nm@) is Some,
                    _ => true,
                }),
            decreases inv.properties@.len() - i,
        {
            let p: &TempProperty = &inv.properties[i];
            if !p.value.check_wf() {
                return Err(GrammarError::Syntax(0));
            }
            match p.value.check_vars(&self.defs) {
                Some(v) => {
                    return Err(GrammarError::UndefinedVariable(v));
                },
                None => {},
            }
            i = i + 1;
        }
        Ok(())
    }

    /// Validate this grammar whole: well-formed unique tables, resolving
    /// rule references, defined constants, and no unreachable rule case.
    /// The outcome depends on the grammar alone, so re-validating an
    /// already validated grammar succeeds again.
    pub fn validate(&self) -> (r: Result<(), GrammarError>)
        ensures
            r is Ok <==> self.valid(),
            (self.defs@.len() == 0 && self.rules@.len() == 0 && self.top_level@.len() == 1)
                ==> (match self.top_level@[0].method {
                Method::Rule(nm) => r == Err::<(), GrammarError>(GrammarError::UnknownRule(nm)),
                _ => true,
            }),
            (self.rules@.len() == 0 && self.top_level@.len() == 0 && self.defs@.len() == 2
                && defs_wf(self.defs@) && spec_lower(self.defs@[0].0@) == spec_lower(
                self.defs@[1].0@,
            )) ==> r == Err::<(), GrammarError>(
                GrammarError::DuplicateDefinition(self.defs@[1].0),
            ),
    {
        let mut i: usize = 0;
        while i < self.defs.len()
            invariant
                i <= self.defs@.len(),
                forall|k: int| 0 <= k < i ==> fx_wf((#[trigger] self.defs@[k]).1 as int),
            decreases self.defs@.len() - i,
        {
            let v: i64 = self.defs[i].1;
            if v < -10_000_000_000i64 || v > 10_000_000_000i64 {
                return Err(GrammarError::Syntax(0));
            }
            i = i + 1;
        }
        let mut i: usize = 0;
        while i < self.defs.len()
            invariant
                i <= self.defs@.len(),
                forall|a: int, b: int|
                    0 <= a < b < i ==> spec_lower((#[trigger] self.defs@[a]).0@) != spec_lower(
                        (#[trigger] self.defs@[b]).0@,
                    ),
            decreases self.defs@.len() - i,
        {
            let mut j: usize = 0;
            while j < i
                invariant
                    j <= i < self.defs@.len(),
                    forall|a: int, b: int|
                        0 <= a < b < i ==> spec_lower((#[trigger] self.defs@[a]).0@) != spec_lower(
                            (#[trigger] self.defs@[b]).0@,
                        ),
                    forall|a: int|
                        0 <= a < j ==> spec_lower((#[trigger] self.defs@[a]).0@) != spec_lower(
                            self.defs@[i as int].0@,
                        ),
                decreases i - j,
            {
                if eq_ignore_case(self.defs[j].0.as_str(), self.defs[i].0.as_str()) {
                    return Err(GrammarError::DuplicateDefinition(self.defs[i].0.clone()));
                }
                j = j + 1;
            }
            i = i + 1;
        }
        let mut i: usize = 0;
        while i < self.rules.len()
            invariant
                i <= self.rules@.len(),
                forall|a: int, b: int|
                    0 <= a < b < i ==> spec_lower((#[trigger] self.rules@[a]).name@) != spec_lower(
                        (#[trigger] self.rules@[b]).name@,
                    ),
            decreases self.rules@.len() - i,
        {
            let mut j: usize = 0;
            while j < i
                invariant
                    j <= i < self.rules@.len(),
                    forall|a: int, b: int|
                        0 <= a < b < i ==> spec_lower((#[trigger] self.rules@[a]).name@)
                            != spec_lower((#[trigger] self.rules@[b]).name@),
                    forall|a: int|
                        0 <= a < j ==> spec_lower((#[trigger] self.rules@[a]).name@) != spec_lower(
                            self.rules@[i as int].name@,
                        ),
                decreases i - j,
            {
                if eq_ignore_case(self.rules[j].name.as_str(), self.rules[i].name.as_str()) {
                    return Err(GrammarError::DuplicateDefinition(self.rules[i].name.clone()));
                }
                j = j + 1;
            }
            i = i + 1;
        }
        let mut i: usize = 0;
        while i < self.top_level.len()
            invariant
                i <= self.top_level@.len(),
                forall|k: int| 0 <= k < i ==> self.invocation_ok(#[trigger] self.top_level@[k]),
            decreases self.top_level@.len() - i,
        {
            match self.check_invocation(&self.top_level[i]) {
                Ok(()) => {},
                Err(e) => {
                    return Err(e);
                },
            }
            i = i + 1;
        }
        let mut i: usize = 0;
        while i < self.rules.len()
            invariant
                i <= self.rules@.len(),
                forall|k: int| 0 <= k < i ==> self.rule_ok(#[trigger] self.rules@[k]),
            decreases self.rules@.len() - i,
        {
            let rule: &UserRule = &self.rules[i];
            let mut j: usize = 0;
            while j < rule.cases.len()
                invariant
                    j <= rule.cases@.len(),
                    rule == &self.rules@[i as int],
                    i < self.rules@.len(),
                    forall|k: int| 0 <= k < j ==> self.case_ok(#[trigger] rule.cases@[k]),
                    forall|k: int|
                        0 <= k < j && k < rule.cases@.len() - 1 ==> (
                        #[trigger] rule.cases@[k]).probability is Some,
                decreases rule.cases@.len() - j,
            {
                let case: &RuleCase = &rule.cases[j];
                if j + 1 < rule.cases.len() {
                    match &case.probability {
                        None => {
                            return Err(GrammarError::UnreachableCase(rule.name.clone()));
                        },
                        Some(_) => {},
                    }
                }
                match &case.probability {
                    Some(e) => {
                        if !e.check_wf() {
                            return Err(GrammarError::Syntax(0));
                        }
                        match e.check_vars(&self.defs) {
                            Some(v) => {
                                return Err(GrammarError::UndefinedVariable(v));
                            },
                            None => {},
                        }
                    },
                    None => {},
                }
                let mut k: usize = 0;
                while k < case.invocations.len()
                    invariant
                        k <= case.invocations@.len(),
                        case == &self.rules@[i as int].cases@[j as int],
                        i < self.rules@.len(),
                        j < self.rules@[i as int].cases@.len(),
                        forall|m: int| 0 <= m < k ==> self.invocation_ok(
                            #[trigger] case.invocations@[m],
                        ),
                    decreases case.invocations@.len() - k,
                {
                    match self.check_invocation(&case.invocations[k]) {
                        Ok(()) => {},
                        Err(e) => {
                            return Err(e);
                        },
                    }
                    k = k + 1;
                }
                j = j + 1;
            }
            i = i + 1;
        }
        Ok(())
    }

    /// The whole-grammar invariant that validation establishes: tables are
    /// well-formed and unique, every rule reference resolves, every
    /// constant reference is defined, and no rule case is unreachable.
    /// Expansion of a grammar with this invariant cannot fail.
    pub open spec fn valid(self) -> bool {
        &&& defs_wf(self.defs@)
        &&& defs_unique(self.defs@)
        &&& rules_unique(self.rules@)
        &&& forall|i: int| 0 <= i < self.top_level@.len() ==> self.invocation_ok(
            #[trigger] self.top_level@[i],
        )
        &&& forall|i: int| 0 <= i < self.rules@.len() ==> self.rule_ok(#[trigger] self.rules@[i])
    }
}

} // verus!
