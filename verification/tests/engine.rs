use pathfinder::graph::Node;
use pathfinder::tangent::tangent_candidates;
use pathfinder::tangent::TangentTrig;
use pathfinder::types::PathError;
use pathfinder::types::Point;

const ANG_PI: i64 = 180_000_000;

fn units(rad: f64) -> i64 {
    (rad / std::f64::consts::PI * ANG_PI as f64).round() as i64
}

fn node(x: i64, y: i64, radius: i64, height: i64) -> Node {
    Node { origin: Point { x, y, z: 0 }, radius, height, ring: Vec::new() }
}

fn trig_for(a: &Node, b: &Node) -> TangentTrig {
    let dx = (b.origin.x - a.origin.x) as f64;
    let dy = (b.origin.y - a.origin.y) as f64;
    let dist = (dx * dx + dy * dy).sqrt();
    let r1 = a.radius as f64;
    let r2 = b.radius as f64;
    let clamp = |v: f64| v.max(-1.0).min(1.0);
    let safe_acos = |v: f64| if v.is_nan() { 0.0 } else { clamp(v).acos() };
    let mut theta = units(dy.atan2(dx));
    if theta <= -ANG_PI {
        theta = ANG_PI;
    }
    TangentTrig {
        theta,
        gamma1: units(safe_acos((r1 + r2).abs() / dist)),
        gamma2: units(safe_acos((r1 - r2).abs() / dist)),
        theta_s: units(safe_acos(
            (r1 * r1 + dist * dist - r2 * r2) / (2.0 * r1 * dist),
        )),
        phi_s: units(safe_acos(
            (r2 * r2 + dist * dist - r1 * r1) / (2.0 * r2 * dist),
        )),
    }
}

#[test]
fn disjoint_circles_give_four_candidates_and_no_sentinels() {
    // circles at (0,0) r=5 and (20,0) r=5: theta = 0, theta1 = 0,
    // theta2 = pi, gamma1 = acos(10/20) = pi/3, gamma2 = acos(0) = pi/2
    let a = node(0, 0, 5, 0);
    let b = node(20, 0, 5, 0);
    let trig = trig_for(&a, &b);
    assert_eq!(trig.theta, 0);
    assert_eq!(trig.gamma1, ANG_PI / 3);
    assert_eq!(trig.gamma2, ANG_PI / 2);
    let (cands, sents) = tangent_candidates(&a, &b, &trig).unwrap();
    assert_eq!(cands.len(), 4);
    assert!(sents.is_none());
    // outer tangents at theta1 -/+ pi/2, normalized into the positive
    // and the mirrored negative range
    assert_eq!(cands[0], (270_000_000, 270_000_000));
    assert_eq!(cands[1], (-270_000_000, -270_000_000));
    // inner tangents at theta1 -/+ pi/3
    assert_eq!(cands[2], (300_000_000, -240_000_000));
    assert_eq!(cands[3], (-300_000_000, 240_000_000));
}

#[test]
fn boundary_touch_routes_to_sentinel_branch() {
    // dist = 3 = r1 + r2: the inner-tangent precondition is strict, so
    // this pair must produce sentinels, not inner tangents
    let a = node(0, 0, 3, 0);
    let b = node(3, 0, 0, 0);
    let trig = trig_for(&a, &b);
    let (cands, sents) = tangent_candidates(&a, &b, &trig).unwrap();
    assert_eq!(cands.len(), 2);
    let sents = sents.expect("degenerate pair must yield sentinels");
    assert_eq!(sents.len(), 4);
    // theta_s = acos((9 + 9 - 0) / 18) = 0; phi_s clamps to 0
    assert_eq!(sents[0], (0, ANG_PI));
    assert_eq!(sents[1], (0, ANG_PI));
    assert_eq!(sents[2], (-2 * ANG_PI, -ANG_PI));
    assert_eq!(sents[3], (2 * ANG_PI, -ANG_PI));
}

#[test]
fn overlapping_circles_give_two_outer_candidates() {
    let a = node(0, 0, 5, 0);
    let b = node(4, 0, 5, 0);
    let trig = trig_for(&a, &b);
    let (cands, sents) = tangent_candidates(&a, &b, &trig).unwrap();
    assert_eq!(cands.len(), 2);
    assert_eq!(sents.map(|s| s.len()), Some(4));
}

#[test]
fn point_obstacle_pair_gives_sentinels() {
    let a = node(0, 0, 0, 0);
    let b = node(10, 0, 4, 0);
    let trig = trig_for(&a, &b);
    let (cands, sents) = tangent_candidates(&a, &b, &trig).unwrap();
    assert_eq!(cands.len(), 2);
    assert!(sents.is_some());
}

#[test]
fn coincident_centers_are_invalid_geometry() {
    let a = node(7, 7, 2, 0);
    let b = node(7, 7, 3, 0);
    let trig = TangentTrig { theta: 0, gamma1: 0, gamma2: 0, theta_s: 0, phi_s: 0 };
    assert_eq!(tangent_candidates(&a, &b, &trig).unwrap_err(), PathError::InvalidGeometry);
}

#[test]
fn larger_second_radius_takes_outer_complement() {
    // r2 > r1: gamma2 is complemented, shifting the outer tangents
    let a = node(0, 0, 2, 0);
    let b = node(20, 0, 6, 0);
    let trig = trig_for(&a, &b);
    let (cands, _) = tangent_candidates(&a, &b, &trig).unwrap();
    let gamma2 = units(((2.0f64 - 6.0).abs() / 20.0).acos());
    let complement = ANG_PI - gamma2;
    // first outer pair: (theta1 - gamma2', theta2 + pi - gamma2') mod 2*pi
    let expect0 = (2 * ANG_PI - complement) % (2 * ANG_PI);
    assert_eq!(cands[0].0, expect0);
}
