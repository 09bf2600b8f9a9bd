//! End-to-end scenarios: parsing, validation, expansion and rendering of
//! whole documents.

use convext::error::GrammarError;
use convext::expand_settings::ExpandSettings;
use convext::invocation::Method;
use convext::node::Node;
use convext::parser::parse;
use convext::expression::{Expression, ExpressionOrRange};
use convext::properties::PropertyType;
use convext::value_or_range::ValueOrRange;
use convext::primitive::Primitive;
use convext::rng::Rng;

fn count_nodes(n: &Node) -> usize {
    let mut total = 1;
    if let Some(cs) = &n.children {
        for c in cs {
            total += count_nodes(c);
        }
    }
    total
}

#[test]
fn circle_parses_to_one_primitive_invocation() {
    let g = parse("circle v0.5").unwrap();
    assert_eq!(g.top_level.len(), 1);
    assert_eq!(g.defs.len(), 0);
    assert_eq!(g.rules.len(), 0);
    assert!(matches!(
        g.top_level[0].method,
        Method::Primitive(Primitive::Circle)
    ));
    assert_eq!(g.top_level[0].properties.len(), 1);
}

#[test]
fn circle_expands_to_one_leaf() {
    let g = parse("circle v0.5").unwrap();
    let settings = ExpandSettings::default();
    let mut rng = Rng::new(7);
    let (root, stats) = g.expand(&settings, &mut rng);
    // The root plus exactly one leaf below it.
    assert_eq!(count_nodes(&root), 2);
    let children = root.children.as_ref().unwrap();
    assert_eq!(children.len(), 1);
    // The leaf was expanded (to nothing) rather than left pending.
    assert_eq!(children[0].children.as_ref().unwrap().len(), 0);
    assert_eq!(stats.new_nodes, 0);
}

#[test]
fn circle_renders_to_one_fragment() {
    let g = parse("circle v0.5").unwrap();
    let settings = ExpandSettings::default();
    let mut rng = Rng::new(7);
    let (root, _) = g.expand(&settings, &mut rng);
    let fragments = root.render(&mut rng);
    assert_eq!(fragments.len(), 1);
    assert!(matches!(fragments[0].kind, Primitive::Circle));
    // `v 0.5` lands in the value channel exactly.
    assert_eq!(fragments[0].v, 5_000);
    // Defaults: full alpha and saturation, centered.
    assert_eq!(fragments[0].a, 10_000);
    assert_eq!(fragments[0].x, 0);
    assert_eq!(fragments[0].y, 0);
}

#[test]
fn shrinking_recursion_terminates_under_budget() {
    let text = "let hue 40\npascal\nrul pascal\ntriangle v0.5\npascal h ?hue p 0.5 ym0.5";
    let g = parse(text).unwrap();
    let settings = ExpandSettings::default();
    let mut rng = Rng::new(42);
    let (root, stats) = g.expand(&settings, &mut rng);
    let total = count_nodes(&root);
    assert!(stats.new_nodes <= settings.max_nodes);
    assert!(total > 1);
    assert!(total < settings.max_nodes);
    // The shrinking branch was eventually culled.
    assert!(stats.nodes_culled > 0);
}

#[test]
fn unconditional_case_must_be_last() {
    let text = "rul a\ncircle\nrul a\nsquare";
    let err = parse(text).unwrap_err();
    assert_eq!(err, GrammarError::UnreachableCase(String::from("a")));
}

#[test]
fn unknown_rule_is_rejected() {
    let err = parse("foo").unwrap_err();
    assert_eq!(err, GrammarError::UnknownRule(String::from("foo")));
}

#[test]
fn undefined_variable_is_rejected() {
    let err = parse("square h ?missing").unwrap_err();
    assert_eq!(err, GrammarError::UndefinedVariable(String::from("missing")));
}

#[test]
fn duplicate_definition_is_rejected_case_insensitively() {
    let err = parse("let a 1\nlet A 2\ncircle").unwrap_err();
    assert_eq!(err, GrammarError::DuplicateDefinition(String::from("A")));
}

#[test]
fn unknown_property_is_rejected() {
    let err = parse("circle q0.5").unwrap_err();
    assert_eq!(err, GrammarError::UnknownProperty(String::from("q")));
}

#[test]
fn expansion_is_deterministic() {
    let text = "let hue 40\npascal\nrul pascal\ntriangle v0.5\npascal h ?hue p 0.5 ym0.5";
    let g1 = parse(text).unwrap();
    let g2 = parse(text).unwrap();
    let settings = ExpandSettings::default();
    let mut rng1 = Rng::new(123);
    let mut rng2 = Rng::new(123);
    let (root1, stats1) = g1.expand(&settings, &mut rng1);
    let (root2, stats2) = g2.expand(&settings, &mut rng2);
    assert_eq!(stats1, stats2);
    assert_eq!(root1, root2);
    assert_eq!(rng1, rng2);
    let f1 = root1.render(&mut rng1);
    let f2 = root2.render(&mut rng2);
    assert_eq!(f1, f2);
}

#[test]
fn different_seeds_are_allowed_to_differ() {
    // A random range resolves differently under different seeds.
    let g = parse("circle v0...1").unwrap();
    let settings = ExpandSettings::default();
    let mut rng1 = Rng::new(1);
    let mut rng2 = Rng::new(2);
    let (r1, _) = g.expand(&settings, &mut rng1);
    let (r2, _) = g.expand(&settings, &mut rng2);
    let v1 = r1.children.as_ref().unwrap()[0].absolute_properties.v;
    let v2 = r2.children.as_ref().unwrap()[0].absolute_properties.v;
    // Both resolved inside the unit range.
    for v in [v1, v2] {
        match v {
            convext::value_or_range::ValueOrRange::Value(x) => {
                assert!((0..=10_000).contains(&x))
            }
            other => panic!("expected a resolved scalar, got {:?}", other),
        }
    }
}

#[test]
fn validation_is_idempotent() {
    let g = parse("circle v0.5").unwrap();
    assert!(g.validate().is_ok());
    assert!(g.validate().is_ok());
    let bad = convext::grammar::Grammar {
        top_level: vec![],
        defs: vec![(String::from("x"), 0), (String::from("X"), 1)],
        rules: vec![],
    };
    let e1 = bad.validate().unwrap_err();
    let e2 = bad.validate().unwrap_err();
    assert_eq!(e1, e2);
}

#[test]
fn rule_blocks_merge_into_cases() {
    let text = "maybe\nrul maybe 0.5\ncircle\nrul maybe\nsquare";
    let g = parse(text).unwrap();
    assert_eq!(g.rules.len(), 1);
    assert_eq!(g.rules[0].cases.len(), 2);
    assert!(g.rules[0].cases[0].probability.is_some());
    assert!(g.rules[0].cases[1].probability.is_none());
}

#[test]
fn depth_never_decreases_along_paths() {
    fn check(n: &Node) {
        if let Some(cs) = &n.children {
            for c in cs {
                assert!(c.absolute_properties.d >= n.absolute_properties.d);
                check(c);
            }
        }
    }
    let text = "let hue 40\npascal\nrul pascal\ntriangle v0.5\npascal h ?hue p 0.5 ym0.5";
    let g = parse(text).unwrap();
    let settings = ExpandSettings::default();
    let mut rng = Rng::new(5);
    let (root, _) = g.expand(&settings, &mut rng);
    check(&root);
}

#[test]
fn end_keyword_closes_a_rule_body() {
    let text = "blackshape\nrul blackshape\nsquare h 120\nend\ncircle";
    let g = parse(text).unwrap();
    // `circle` after `end` is top level again.
    assert_eq!(g.top_level.len(), 2);
    assert_eq!(g.rules.len(), 1);
    assert_eq!(g.rules[0].cases[0].invocations.len(), 1);
}

#[test]
fn mutual_recursion_stays_within_budget() {
    let text = "blackshape\nrul blackshape\nsquare h 120\nwhiteshape p 0.5 x m0.5 y m0.5\nwhiteshape p 0.5 x 0.5 y 0.5\nend\nrul whiteshape\nsquare\nblackshape p 0.5 x m0.5 y m0.5\nblackshape p 0.5 x 0.5 y 0.5\nend";
    let g = parse(text).unwrap();
    let settings = ExpandSettings::default();
    let mut rng = Rng::new(9);
    let (_, stats) = g.expand(&settings, &mut rng);
    assert!(stats.new_nodes <= settings.max_nodes);
}

#[test]
fn referenced_variables_are_listed_once() {
    let text = "let hue 40\nlet k 1\nsquare h ?hue p ?k\nrul spin ?k\nsquare r ?hue\nspin h ?hue";
    let g = parse(text).unwrap();
    let vars = g.get_variables();
    assert_eq!(vars.len(), 2);
    assert_eq!(vars[0].0, "hue");
    // Used as degrees twice and once more as degrees: one agreed type.
    assert_eq!(vars[0].1, Some(PropertyType::Degrees));
    // Used both as a positive scale and as a probability gate: no single type.
    assert_eq!(vars[1].0, "k");
    assert_eq!(vars[1].1, None);
}

#[test]
fn overriding_definitions_replaces_and_appends() {
    let mut g = parse("let hue 40\nsquare h ?hue").unwrap();
    g.override_defs(&vec![
        (String::from("HUE"), 1_200_000),
        (String::from("extra"), 5_000),
    ]);
    assert_eq!(g.defs.len(), 2);
    // The original spelling stays; the value changes.
    assert_eq!(g.defs[0].0, "hue");
    assert_eq!(g.defs[0].1, 1_200_000);
    assert_eq!(g.defs[1].0, "extra");
    assert_eq!(g.defs[1].1, 5_000);
    // The grammar is still valid and evaluates with the new value.
    assert!(g.validate().is_ok());
}

#[test]
fn parenthesized_binary_values_fold_at_parse_time() {
    let g = parse("circle v(0.25 + 0.25)").unwrap();
    assert_eq!(
        g.top_level[0].properties[0].value,
        ExpressionOrRange::Exp(Expression::Number { val: 5_000 })
    );
}

#[test]
fn plain_ranges_stay_intervals() {
    let g = parse("circle v0.2..0.6").unwrap();
    let settings = ExpandSettings::default();
    let mut rng = Rng::new(4);
    let (root, _) = g.expand(&settings, &mut rng);
    let v = root.children.as_ref().unwrap()[0].absolute_properties.v;
    assert_eq!(
        v,
        ValueOrRange::Range {
            start: 2_000,
            end: 6_000
        }
    );
}

#[test]
fn unary_prefixes_parse_inside_values() {
    let g = parse("square r sub45 w abs0.5").unwrap();
    let settings = ExpandSettings::default();
    let mut rng = Rng::new(4);
    let (root, _) = g.expand(&settings, &mut rng);
    let leaf = &root.children.as_ref().unwrap()[0];
    // -45 degrees wraps to 315.
    assert_eq!(
        leaf.absolute_properties.r,
        convext::value_or_range::ValueOrRange::Value(3_150_000)
    );
    assert_eq!(
        leaf.absolute_properties.w,
        convext::value_or_range::ValueOrRange::Value(5_000)
    );
}

#[test]
fn blank_documents_parse_to_the_empty_grammar() {
    let g = parse("").unwrap();
    assert_eq!(g.top_level.len(), 0);
    assert_eq!(g.defs.len(), 0);
    assert_eq!(g.rules.len(), 0);
    let g2 = parse(" \t\r\n\n   \n").unwrap();
    assert_eq!(g2.top_level.len(), 0);
    assert_eq!(g2.defs.len(), 0);
    assert_eq!(g2.rules.len(), 0);
}

#[test]
fn non_ascii_documents_are_rejected() {
    let err = parse("circle v0\u{2075}").unwrap_err();
    assert_eq!(err, GrammarError::Syntax(0));
}

#[test]
fn folded_trees_are_in_normal_form() {
    // A parsed value folds at parse time; the engine and the contract
    // both see a single literal.
    let g = parse("circle v(0.1 + (0.2 * 2))").unwrap();
    assert_eq!(
        g.top_level[0].properties[0].value,
        ExpressionOrRange::Exp(Expression::Number { val: 5_000 })
    );
}

#[test]
fn letter_negated_literals_define_negative_constants() {
    let g = parse("let k m0.5\ncircle h ?k").unwrap();
    assert_eq!(g.defs.len(), 1);
    assert_eq!(g.defs[0].0, "k");
    assert_eq!(g.defs[0].1, -5_000);
}

#[test]
fn referenced_variables_are_listed_sorted() {
    let text = "let zz 1\nlet aa 2\nsquare h ?zz p ?aa";
    let g = parse(text).unwrap();
    let vars = g.get_variables();
    // `?zz` occurs first, but the listing sorts ascending by name.
    assert_eq!(vars.len(), 2);
    assert_eq!(vars[0].0, "aa");
    assert_eq!(vars[0].1, Some(PropertyType::AnyPositive));
    assert_eq!(vars[1].0, "zz");
    assert_eq!(vars[1].1, Some(PropertyType::Degrees));
}
