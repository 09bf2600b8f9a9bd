//! Unit checks of the fixed-point scalars, interval values, operators,
//! folding, composition, and the cull rule.

use convext::binary_operator::BinaryOperator;
use convext::expand_settings::{ExpandSettings, ExpandStatistics};
use convext::expression::Expression;
use convext::fixed::{
    depth_fx, depth_of, fx_abs, fx_add, fx_clamp, fx_cos, fx_div, fx_mod360, fx_mul, fx_sig,
    fx_sin, fx_sub,
};
use convext::grammar::Grammar;
use convext::node_properties::NodeProperties;
use convext::primitive::Primitive;
use convext::properties::{PropertyKey, PropertyType};
use convext::rng::Rng;
use convext::unary_operator::UnaryOperator;
use convext::value_or_range::ValueOrRange;

fn empty_grammar() -> Grammar {
    Grammar {
        top_level: vec![],
        defs: vec![],
        rules: vec![],
    }
}

#[test]
fn fixed_point_arithmetic_is_exact() {
    assert_eq!(fx_add(2_500, 5_000), 7_500);
    assert_eq!(fx_sub(2_500, 5_000), -2_500);
    // 0.5 * 0.5 = 0.25
    assert_eq!(fx_mul(5_000, 5_000), 2_500);
    // (-0.5) * 0.5 = -0.25, truncation toward zero
    assert_eq!(fx_mul(-5_000, 5_000), -2_500);
    // 1 / 3 = 0.3333
    assert_eq!(fx_div(10_000, 30_000), 3_333);
    // Division by zero is total and yields zero.
    assert_eq!(fx_div(12_345, 0), 0);
    assert_eq!(fx_abs(-42), 42);
    assert_eq!(fx_sig(-3), -10_000);
    assert_eq!(fx_sig(0), 0);
    assert_eq!(fx_sig(17), 10_000);
    assert_eq!(fx_clamp(15_000, 0, 10_000), 10_000);
    // Saturation at the representable bound.
    assert_eq!(fx_add(10_000_000_000, 10_000_000_000), 10_000_000_000);
}

#[test]
fn angles_wrap_into_one_turn() {
    assert_eq!(fx_mod360(3_600_000), 0);
    assert_eq!(fx_mod360(-900_000), 2_700_000);
    assert_eq!(fx_mod360(7_300_000), 100_000);
    assert_eq!(fx_sin(900_000), 10_000);
    assert_eq!(fx_sin(0), 0);
    assert_eq!(fx_cos(0), 10_000);
    assert_eq!(fx_cos(1_800_000), -10_000);
    // Interpolation: sin(0.5 deg) between the whole-degree entries.
    let half = fx_sin(5_000);
    assert!(half > 0 && half < 175);
}

#[test]
fn depth_rounding() {
    assert_eq!(depth_of(-5_000), 0);
    assert_eq!(depth_of(14_999), 1);
    assert_eq!(depth_of(15_000), 2);
    assert_eq!(depth_fx(3), 30_000);
}

#[test]
fn interval_arithmetic_is_pointwise() {
    let a = ValueOrRange::Value(10_000);
    let r = ValueOrRange::Range {
        start: 0,
        end: 20_000,
    };
    assert_eq!(
        a.add(r),
        ValueOrRange::Range {
            start: 10_000,
            end: 30_000
        }
    );
    assert_eq!(
        a.sub(r),
        ValueOrRange::Range {
            start: 10_000,
            end: -10_000
        }
    );
    assert_eq!(
        r.mul(ValueOrRange::Value(5_000)),
        ValueOrRange::Range {
            start: 0,
            end: 10_000
        }
    );
    assert_eq!(r.min_value(), 0);
    assert_eq!(r.max_value(), 20_000);
    let backwards = ValueOrRange::Range {
        start: 5_000,
        end: -15_000,
    };
    assert_eq!(backwards.min_value(), -15_000);
    assert_eq!(backwards.max_abs(), 15_000);
    assert_eq!(backwards.min_abs(), 5_000);
}

#[test]
fn binary_operators_propagate_corners() {
    let l = ValueOrRange::Range {
        start: -10_000,
        end: 20_000,
    };
    let r = ValueOrRange::Range {
        start: 30_000,
        end: 40_000,
    };
    assert_eq!(
        BinaryOperator::Mul.apply_range(l, r),
        ValueOrRange::Range {
            start: -40_000,
            end: 80_000
        }
    );
    assert_eq!(
        BinaryOperator::Add.apply_range(ValueOrRange::Value(1_000), ValueOrRange::Value(2_000)),
        ValueOrRange::Value(3_000)
    );
    assert_eq!(BinaryOperator::Lt.apply(1_000, 2_000), 10_000);
    assert_eq!(BinaryOperator::GEq.apply(1_000, 2_000), 0);
    assert_eq!(BinaryOperator::And.apply(5, 0), 0);
    assert_eq!(BinaryOperator::Or.apply(5, 0), 10_000);
}

#[test]
fn folding_collapses_literal_subtrees() {
    let e = Expression::Binary {
        left: Box::new(Expression::Number { val: 20_000 }),
        operator: BinaryOperator::Mul,
        right: Box::new(Expression::Number { val: 30_000 }),
    };
    assert_eq!(e.fold(), Expression::Number { val: 60_000 });
    let u = Expression::Unary {
        operator: UnaryOperator::Sub,
        operand: Box::new(Expression::Number { val: 5_000 }),
    };
    assert_eq!(u.fold(), Expression::Number { val: -5_000 });
    // A variable reference stops folding.
    let v = Expression::Unary {
        operator: UnaryOperator::Abs,
        operand: Box::new(Expression::Variable {
            name: String::from("x"),
        }),
    };
    let folded = v.fold();
    assert!(matches!(folded, Expression::Unary { .. }));
}

#[test]
fn folding_preserves_evaluation() {
    let g = Grammar {
        top_level: vec![],
        defs: vec![(String::from("k"), 2_500)],
        rules: vec![],
    };
    let ctx = NodeProperties::default_initial();
    let e = Expression::Binary {
        left: Box::new(Expression::Binary {
            left: Box::new(Expression::Number { val: 10_000 }),
            operator: BinaryOperator::Add,
            right: Box::new(Expression::Number { val: 10_000 }),
        }),
        operator: BinaryOperator::Mul,
        right: Box::new(Expression::Variable {
            name: String::from("K"),
        }),
    };
    let before = e.try_get_value(&g, &ctx);
    let after = e.fold().try_get_value(&g, &ctx);
    assert_eq!(before, after);
    assert_eq!(after, Ok(ValueOrRange::Value(5_000)));
}

#[test]
fn evaluation_reports_the_undefined_name() {
    let g = empty_grammar();
    let ctx = NodeProperties::default_initial();
    let e = Expression::Variable {
        name: String::from("ghostly"),
    };
    assert_eq!(
        e.try_get_value(&g, &ctx),
        Err(convext::error::GrammarError::UndefinedVariable(
            String::from("ghostly")
        ))
    );
}

#[test]
fn property_access_reads_the_context() {
    let g = empty_grammar();
    let mut ctx = NodeProperties::default_initial();
    ctx.h = ValueOrRange::Value(1_200_000);
    let e = Expression::PropertyAccess {
        property: PropertyKey::H,
    };
    assert_eq!(
        e.try_get_value(&g, &ctx),
        Ok(ValueOrRange::Value(1_200_000))
    );
    // The depth comes back as a scalar.
    ctx.d = 4;
    assert_eq!(
        PropertyKey::D.get(&ctx),
        ValueOrRange::Value(40_000)
    );
}

#[test]
fn composition_compounds_and_clamps() {
    let parent = NodeProperties::default_initial();
    let mut child = NodeProperties::default_additive();
    child.p = ValueOrRange::Value(5_000);
    child.s = ValueOrRange::Value(-20_000);
    child.v = ValueOrRange::Value(17_000);
    child.h = ValueOrRange::Value(-900_000);
    child.x = ValueOrRange::Value(3_000);
    let out = parent.make_absolute(&child);
    assert_eq!(out.p, ValueOrRange::Value(5_000));
    // Saturation is additive and clamped to the unit interval.
    assert_eq!(out.s, ValueOrRange::Value(0));
    assert_eq!(out.v, ValueOrRange::Value(10_000));
    // Hue wraps into [0, 360).
    assert_eq!(out.h, ValueOrRange::Value(2_700_000));
    // No parent rotation: translation passes through.
    assert_eq!(out.x, ValueOrRange::Value(3_000));
    assert_eq!(out.d, 1);
}

#[test]
fn rotation_turns_translation() {
    let mut parent = NodeProperties::default_initial();
    parent.r = ValueOrRange::Value(900_000);
    let mut child = NodeProperties::default_additive();
    child.x = ValueOrRange::Value(10_000);
    let out = parent.make_absolute(&child);
    // Rotating (1, 0) by 90 degrees gives (0, 1).
    assert_eq!(out.x, ValueOrRange::Value(0));
    assert_eq!(out.y, ValueOrRange::Value(10_000));
}

#[test]
fn cull_rule_is_conservative() {
    let settings = ExpandSettings::default();
    let mut p = NodeProperties::default_initial();
    assert!(!settings.should_cull_properties(&p));
    p.a = ValueOrRange::Value(5);
    assert!(settings.should_cull_properties(&p));
    p.a = ValueOrRange::Range { start: 0, end: 20 };
    // The best alpha is still above the floor: kept.
    assert!(!settings.should_cull_properties(&p));
    p = NodeProperties::default_initial();
    p.d = 21;
    assert!(settings.should_cull_properties(&p));
    p = NodeProperties::default_initial();
    p.x = ValueOrRange::Value(30_000);
    assert!(settings.should_cull_properties(&p));
    p.p = ValueOrRange::Value(20_000);
    assert!(!settings.should_cull_properties(&p));
}

#[test]
fn statistics_add_saturates() {
    let a = ExpandStatistics {
        new_nodes: usize::MAX - 1,
        nodes_culled: 1,
    };
    let b = ExpandStatistics {
        new_nodes: 5,
        nodes_culled: 2,
    };
    let c = a.add(&b);
    assert_eq!(c.new_nodes, usize::MAX);
    assert_eq!(c.nodes_culled, 3);
}

#[test]
fn generator_is_deterministic_and_forks() {
    let mut a = Rng::new(99);
    let mut b = Rng::new(99);
    assert_eq!(a.next_u64(), b.next_u64());
    assert_eq!(a.next_below(10), b.next_below(10));
    let (a1, a2) = a.fork();
    let (b1, b2) = b.fork();
    assert_eq!(a1, b1);
    assert_eq!(a2, b2);
    assert_ne!(a1, a2);
}

#[test]
fn sampling_stays_in_range() {
    let mut rng = Rng::new(3);
    let v = ValueOrRange::Range {
        start: 9_000,
        end: -1_000,
    };
    for _ in 0..50 {
        let x = v.random_value(&mut rng);
        assert!((-1_000..=9_000).contains(&x));
    }
    assert_eq!(ValueOrRange::Value(77).random_value(&mut rng), 77);
}

#[test]
fn property_keys_have_types() {
    assert_eq!(PropertyKey::P.get_type(), PropertyType::AnyPositive);
    assert_eq!(PropertyKey::H.get_type(), PropertyType::Degrees);
    assert_eq!(PropertyKey::A.get_type(), PropertyType::UnitInterval);
    assert_eq!(PropertyKey::D.get_type(), PropertyType::IntegerPositive);
    assert_eq!(PropertyType::UnitInterval.deconstruct(), (0, 10_000, 500));
    assert_eq!(PropertyKey::from_str("R"), Some(PropertyKey::R));
    assert_eq!(PropertyKey::from_str("z"), None);
}

#[test]
fn primitive_names_resolve_case_insensitively() {
    assert_eq!(Primitive::from_str("Circle"), Some(Primitive::Circle));
    assert_eq!(Primitive::from_str("DODECAGON"), Some(Primitive::Polygon(12)));
    assert_eq!(Primitive::from_str("blob"), None);
}

#[test]
fn polygon_points_start_straight_up() {
    let pts = Primitive::get_polygon_points(4);
    assert_eq!(pts.len(), 4);
    assert_eq!(pts[0], (0, -10_000));
    // Quarter turn later: pointing left in canvas coordinates.
    assert_eq!(pts[1], (-10_000, 0));
}

#[test]
fn duplicate_copies_expressions_exactly() {
    let e = convext::expression::ExpressionOrRange::Range {
        is_random: true,
        first: Expression::Variable {
            name: String::from("lo"),
        },
        second: Expression::Unary {
            operator: UnaryOperator::Sub,
            operand: Box::new(Expression::Number { val: 5_000 }),
        },
    };
    assert_eq!(e.duplicate(), e);
}

#[test]
fn corner_radius_sum_is_clamped() {
    let mut parent = NodeProperties::default_initial();
    parent.c = ValueOrRange::Value(6_000);
    let mut child = NodeProperties::default_additive();
    child.c = ValueOrRange::Value(6_000);
    let out = parent.make_absolute(&child);
    // 0.6 + 0.6 clamps to the unit interval.
    assert_eq!(out.c, ValueOrRange::Value(10_000));
    let mut small = NodeProperties::default_additive();
    small.c = ValueOrRange::Value(2_000);
    let out2 = parent.make_absolute(&small);
    assert_eq!(out2.c, ValueOrRange::Value(8_000));
}

#[test]
fn folding_is_idempotent() {
    let e = Expression::Binary {
        left: Box::new(Expression::Unary {
            operator: UnaryOperator::Sub,
            operand: Box::new(Expression::Number { val: 10_000 }),
        }),
        operator: BinaryOperator::Add,
        right: Box::new(Expression::Variable {
            name: String::from("k"),
        }),
    };
    let folded = e.fold();
    let again = folded.duplicate().fold();
    assert_eq!(again, folded);
}
