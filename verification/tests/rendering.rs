//! Checks of fragment resolution and polygonal outlines.

use convext::expand_settings::ExpandSettings;
use convext::parser::parse;
use convext::primitive::Primitive;
use convext::render::SvgFragment;
use convext::rng::Rng;

#[test]
fn fragment_resolution_is_deterministic() {
    let g = parse("square p0.5 w2 l0.5 c0.2 r45 h120 s0.5 v0.25 a0.5").unwrap();
    let settings = ExpandSettings::default();
    let mut rng = Rng::new(11);
    let (root, _) = g.expand(&settings, &mut rng);
    let mut r1 = Rng::new(500);
    let mut r2 = Rng::new(500);
    let f1 = root.render(&mut r1);
    let f2 = root.render(&mut r2);
    assert_eq!(f1, f2);
    assert_eq!(f1.len(), 1);
    let f = f1[0];
    assert!(matches!(f.kind, Primitive::Square));
    // rx = p*w = 0.5*2, ry = p*l = 0.5*0.5, corner = p*c = 0.5*0.2
    assert_eq!(f.rx, 10_000);
    assert_eq!(f.ry, 2_500);
    assert_eq!(f.corner, 1_000);
    assert_eq!(f.rotation, 450_000);
    assert_eq!(f.h, 1_200_000);
    // Saturation starts at one and clamps there: 1 + 0.5 -> 1.
    assert_eq!(f.s, 10_000);
    assert_eq!(f.v, 2_500);
    assert_eq!(f.a, 5_000);
}

#[test]
fn right_triangle_outline_has_three_corners() {
    let f = SvgFragment {
        kind: Primitive::RightTriangle,
        x: 1_000,
        y: 2_000,
        rx: 10_000,
        ry: 10_000,
        corner: 0,
        rotation: 0,
        h: 0,
        s: 0,
        v: 0,
        a: 10_000,
    };
    let pts = f.outline_points().unwrap();
    assert_eq!(pts.len(), 3);
    assert_eq!(pts[0], (1_000, -8_000));
    assert_eq!(pts[1], (11_000, 12_000));
    assert_eq!(pts[2], (-9_000, 12_000));
}

#[test]
fn round_shapes_have_no_polygonal_outline() {
    let mut f = SvgFragment {
        kind: Primitive::Circle,
        x: 0,
        y: 0,
        rx: 10_000,
        ry: 10_000,
        corner: 0,
        rotation: 0,
        h: 0,
        s: 0,
        v: 0,
        a: 10_000,
    };
    assert!(f.outline_points().is_none());
    f.kind = Primitive::Square;
    assert!(f.outline_points().is_none());
    f.kind = Primitive::Polygon(6);
    assert_eq!(f.outline_points().unwrap().len(), 6);
}

#[test]
fn rules_without_children_render_nothing() {
    // An unexpanded rule reference contributes no fragment.
    let g = parse("holder\nrul holder\ncircle").unwrap();
    let settings = ExpandSettings {
        max_nodes: 0,
        ..ExpandSettings::default()
    };
    let mut rng = Rng::new(1);
    let (root, _) = g.expand(&settings, &mut rng);
    let fragments = root.render(&mut rng);
    assert_eq!(fragments.len(), 0);
}
