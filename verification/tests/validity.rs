use pathfinder::graph::Pathfinder;
use pathfinder::num::isqrt;
use pathfinder::angle::normalize_angle;
use pathfinder::angle::reverse_polarity;
use pathfinder::seg::intersect;
use pathfinder::seg::point_in_polygon;
use pathfinder::seg::segment_hits_circle;
use pathfinder::types::Location;
use pathfinder::types::Obstacle;
use pathfinder::types::PathValidity;
use pathfinder::types::PathError;
use pathfinder::types::Point;

const ANG_PI: i64 = 180_000_000;

fn pt(x: i64, y: i64) -> Point {
    Point { x, y, z: 0 }
}

fn square_zone() -> Vec<Point> {
    vec![pt(-10, -10), pt(10, -10), pt(10, 10), pt(-10, 10)]
}

fn origin() -> Location {
    Location { lat: 0, lon: 0, alt: 0 }
}

#[test]
fn isqrt_floors() {
    assert_eq!(isqrt(0), 0);
    assert_eq!(isqrt(1), 1);
    assert_eq!(isqrt(8), 2);
    assert_eq!(isqrt(9), 3);
    assert_eq!(isqrt(10), 3);
    assert_eq!(isqrt(20_000_000_000_000), 4472135);
}

#[test]
fn normalization_ranges() {
    assert_eq!(normalize_angle(true, -90_000_000), 270_000_000);
    assert_eq!(normalize_angle(true, 720_000_000), 0);
    assert_eq!(normalize_angle(false, 90_000_000), -270_000_000);
    assert_eq!(normalize_angle(false, -720_000_000), 0);
    assert_eq!(normalize_angle(true, 0), 0);
}

#[test]
fn polarity_reversal_is_an_involution() {
    for a in [0i64, 1, 270_000_000, -270_000_000, 359_999_999, -1] {
        assert_eq!(reverse_polarity(reverse_polarity(a)), a);
    }
    assert_eq!(reverse_polarity(270_000_000), -90_000_000);
    assert_eq!(reverse_polarity(-90_000_000), 270_000_000);
}

#[test]
fn segment_tests_are_exact() {
    // crossing segments
    assert!(intersect(&pt(-1, -1), &pt(1, 1), &pt(-1, 1), &pt(1, -1)));
    // parallel, disjoint
    assert!(!intersect(&pt(0, 0), &pt(10, 0), &pt(0, 1), &pt(10, 1)));
    // collinear, overlapping
    assert!(intersect(&pt(0, 0), &pt(10, 0), &pt(5, 0), &pt(15, 0)));
    // touching at an endpoint
    assert!(intersect(&pt(0, 0), &pt(10, 0), &pt(10, 0), &pt(10, 5)));
    // chord through a circle
    assert!(segment_hits_circle(&pt(-10, 0), &pt(10, 0), &pt(0, 0), 3));
    // passes beside the circle
    assert!(!segment_hits_circle(&pt(-10, 5), &pt(10, 5), &pt(0, 0), 3));
    // grazing tangent line does not count as crossing the footprint
    assert!(!segment_hits_circle(&pt(-10, 3), &pt(10, 3), &pt(0, 0), 3));
    // endpoint strictly inside
    assert!(segment_hits_circle(&pt(0, 0), &pt(20, 0), &pt(1, 0), 3));
}

#[test]
fn boundary_crossing_is_invalid() {
    let pf = Pathfinder::new(0, origin(), vec![square_zone()], Vec::new());
    let res = pf.valid_path(&pt(0, 0), &pt(20, 0));
    assert_eq!(res, PathValidity::Invalid);
}

#[test]
fn interior_segment_is_not_invalidated() {
    let pf = Pathfinder::new(0, origin(), vec![square_zone()], Vec::new());
    let res = pf.valid_path(&pt(-5, -5), &pt(5, 5));
    assert_eq!(res, PathValidity::Flyover(0));
}

#[test]
fn outside_segment_is_invalid() {
    // a segment lying entirely outside every boundary polygon is
    // rejected even though it crosses no edge
    let pf = Pathfinder::new(0, origin(), vec![square_zone()], Vec::new());
    assert_eq!(pf.valid_path(&pt(100, 100), &pt(110, 100)), PathValidity::Invalid);
}

#[test]
fn polygon_membership_is_exact() {
    let z = square_zone();
    assert!(point_in_polygon(&z, &pt(0, 0)));
    assert!(point_in_polygon(&z, &pt(9, -9)));
    assert!(!point_in_polygon(&z, &pt(11, 0)));
    assert!(!point_in_polygon(&z, &pt(0, 200)));
}

#[test]
fn one_obstacle_reports_its_height() {
    let obs = vec![Obstacle { origin: pt(5, 0), radius: 2, height: 30 }];
    let pf = Pathfinder::new(0, origin(), Vec::new(), obs);
    assert_eq!(pf.valid_path(&pt(0, 0), &pt(10, 0)), PathValidity::Flyover(30));
}

#[test]
fn two_obstacles_report_the_larger_height() {
    let obs = vec![
        Obstacle { origin: pt(3, 0), radius: 1, height: 10 },
        Obstacle { origin: pt(7, 0), radius: 1, height: 40 },
    ];
    let pf = Pathfinder::new(0, origin(), Vec::new(), obs);
    assert_eq!(pf.valid_path(&pt(0, 0), &pt(10, 0)), PathValidity::Flyover(40));
}

#[test]
fn missed_obstacles_leave_threshold_zero() {
    let obs = vec![Obstacle { origin: pt(5, 50), radius: 2, height: 30 }];
    let pf = Pathfinder::new(0, origin(), Vec::new(), obs);
    assert_eq!(pf.valid_path(&pt(0, 0), &pt(10, 0)), PathValidity::Flyover(0));
}

#[test]
fn validity_collapses_to_traversability() {
    assert!(!bool::from(PathValidity::Invalid));
    assert!(bool::from(PathValidity::Valid));
    assert!(bool::from(PathValidity::Flyover(12)));
}

#[test]
fn find_origin_picks_minimum_latitude_and_longitude() {
    let zone = vec![
        Location { lat: 5_000_000, lon: 4_000_000, alt: 0 },
        Location { lat: 2_000_000, lon: 8_000_000, alt: 0 },
        Location { lat: 9_000_000, lon: 6_000_000, alt: 0 },
    ];
    let mut pf = Pathfinder::new(0, Location { lat: 0, lon: 0, alt: 0 }, Vec::new(), Vec::new());
    pf.find_origin(&vec![zone]).unwrap();
    assert_eq!(pf.origin.lat, 2_000_000);
    assert_eq!(pf.origin.lon, 4_000_000);
    assert_eq!(pf.origin.alt, 0);
}

#[test]
fn find_origin_switches_on_antimeridian_span() {
    let zone = vec![
        Location { lat: 0, lon: 0, alt: 0 },
        Location { lat: 1, lon: 200_000_000, alt: 0 },
        Location { lat: 2, lon: 100_000_000, alt: 0 },
    ];
    let mut pf = Pathfinder::new(0, Location { lat: 0, lon: 0, alt: 0 }, Vec::new(), Vec::new());
    pf.find_origin(&vec![zone]).unwrap();
    // span exceeds pi, so the maximum longitude is the reference
    assert_eq!(pf.origin.lon, 200_000_000);
}

#[test]
fn find_origin_rejects_thin_boundaries() {
    let mut pf = Pathfinder::new(0, Location { lat: 0, lon: 0, alt: 0 }, Vec::new(), Vec::new());
    assert_eq!(pf.find_origin(&Vec::new()).unwrap_err(), PathError::InsufficientBoundary);
    let thin = vec![vec![
        Location { lat: 0, lon: 0, alt: 0 },
        Location { lat: 1, lon: 1, alt: 0 },
    ]];
    assert_eq!(pf.find_origin(&thin).unwrap_err(), PathError::InsufficientBoundary);
}

#[test]
fn find_origin_spans_all_zones() {
    let z1 = vec![
        Location { lat: 5, lon: 5, alt: 0 },
        Location { lat: 6, lon: 6, alt: 0 },
        Location { lat: 7, lon: 7, alt: 0 },
    ];
    let z2 = vec![
        Location { lat: 3, lon: 9, alt: 0 },
        Location { lat: 8, lon: 2, alt: 0 },
        Location { lat: 9, lon: 9, alt: 0 },
    ];
    let mut pf = Pathfinder::new(0, Location { lat: 0, lon: 0, alt: 0 }, Vec::new(), Vec::new());
    pf.find_origin(&vec![z1, z2]).unwrap();
    assert_eq!(pf.origin.lat, 3);
    assert_eq!(pf.origin.lon, 2);
    // normalization helper used on the fixed-point angle scale
    assert_eq!(normalize_angle(true, 2 * ANG_PI), 0);
}
