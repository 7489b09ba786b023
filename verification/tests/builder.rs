use pathfinder::graph::Node;
use pathfinder::graph::PairData;
use pathfinder::graph::Pathfinder;
use pathfinder::tangent::tangent_candidates;
use pathfinder::tangent::TangentTrig;
use pathfinder::types::Location;
use pathfinder::types::Obstacle;
use pathfinder::types::PathError;
use pathfinder::types::Point;

const ANG_PI: i64 = 180_000_000;

fn units(rad: f64) -> i64 {
    (rad / std::f64::consts::PI * ANG_PI as f64).round() as i64
}

fn to_rad(units: i64) -> f64 {
    units as f64 * std::f64::consts::PI / ANG_PI as f64
}

fn trig_for(c1: Point, r1: i64, c2: Point, r2: i64) -> TangentTrig {
    let dx = (c2.x - c1.x) as f64;
    let dy = (c2.y - c1.y) as f64;
    let dist = (dx * dx + dy * dy).sqrt();
    let (r1, r2) = (r1 as f64, r2 as f64);
    let clamp = |v: f64| v.max(-1.0).min(1.0);
    let safe_acos = |v: f64| if v.is_nan() { 0.0 } else { clamp(v).acos() };
    let mut theta = units(dy.atan2(dx));
    if theta <= -ANG_PI {
        theta = ANG_PI;
    }
    TangentTrig {
        theta,
        gamma1: units(safe_acos((r1 + r2).abs() / dist)),
        gamma2: units(safe_acos((r1 - r2).abs() / dist)),
        theta_s: units(safe_acos((r1 * r1 + dist * dist - r2 * r2) / (2.0 * r1 * dist))),
        phi_s: units(safe_acos((r2 * r2 + dist * dist - r1 * r1) / (2.0 * r2 * dist))),
    }
}

fn on_circle(node: &Node, angle: i64) -> Point {
    let rad = to_rad(angle);
    Point {
        x: node.origin.x + (node.radius as f64 * rad.cos()).round() as i64,
        y: node.origin.y + (node.radius as f64 * rad.sin()).round() as i64,
        z: node.height,
    }
}

/// Assemble the per-pair trig and endpoint data the verified builder
/// consumes, mirroring what a driver around the library computes.
fn pair_data(nodes: &[Node]) -> Vec<Vec<PairData>> {
    let n = nodes.len();
    let mut rows = Vec::new();
    for i in 0..n {
        let mut row = Vec::new();
        for j in i + 1..n {
            let a = &nodes[i];
            let b = &nodes[j];
            let trig = trig_for(a.origin, a.radius, b.origin, b.radius);
            let mut endpoints = Vec::new();
            if let Ok((cands, _)) = tangent_candidates(a, b, &trig) {
                for (alpha, beta) in cands {
                    endpoints.push((on_circle(a, alpha), on_circle(b, beta)));
                }
            }
            let sentinel_points = vec![
                (a.origin, b.origin),
                (a.origin, b.origin),
                (a.origin, b.origin),
                (a.origin, b.origin),
            ];
            row.push(PairData { trig, endpoints, sentinel_points });
        }
        rows.push(row);
    }
    rows
}

fn geo() -> Location {
    Location { lat: 0, lon: 0, alt: 0 }
}

/// A boundary square far around every fixture, so only obstacles and
/// tangency decide the outcomes.
fn wide_zone() -> Vec<Point> {
    vec![
        Point { x: -1000, y: -1000, z: 0 },
        Point { x: 1000, y: -1000, z: 0 },
        Point { x: 1000, y: 1000, z: 0 },
        Point { x: -1000, y: 1000, z: 0 },
    ]
}

#[test]
fn build_connects_two_disjoint_nodes() {
    let obstacles = vec![
        Obstacle { origin: Point { x: 0, y: 0, z: 0 }, radius: 1, height: 7 },
        Obstacle { origin: Point { x: 20, y: 0, z: 0 }, radius: 1, height: 3 },
    ];
    let mut pf = Pathfinder::new(4, geo(), vec![wide_zone()], obstacles);
    // nodes get radius 1 + 4 = 5 each; the pair has four tangents
    let breaks = vec![Vec::new(), Vec::new()];
    let planned = vec![
        Node { origin: Point { x: 0, y: 0, z: 0 }, radius: 5, height: 7, ring: Vec::new() },
        Node { origin: Point { x: 20, y: 0, z: 0 }, radius: 5, height: 3, ring: Vec::new() },
    ];
    let pairs = pair_data(&planned);
    pf.build_graph(&breaks, &Vec::new(), &pairs).unwrap();

    assert_eq!(pf.nodes.len(), 2);
    assert_eq!(pf.nodes[0].radius, 5);
    assert_eq!(pf.nodes[1].height, 3);
    // four accepted tangents, each inserting four vertices
    assert_eq!(pf.vertices.len(), 16);
    assert_eq!(pf.num_vertices, 16);

    // indices are unique, start at zero and follow insertion order
    for (k, v) in pf.vertices.iter().enumerate() {
        assert_eq!(v.index, k);
    }

    // each node ring is closed: walking `next` around it returns home
    for node in &pf.nodes {
        let len = node.ring.len();
        assert_eq!(len, 8);
        let start = node.ring[0];
        let mut cur = start;
        for _ in 0..len {
            cur = pf.vertices[cur].next;
        }
        assert_eq!(cur, start);
        let mut back = start;
        for _ in 0..len {
            back = pf.vertices[back].prev;
        }
        assert_eq!(back, start);
    }

    // the reciprocal edge of each tangent carries the identical
    // distance and threshold, with polarity-reversed, swapped angles
    for t in 0..4 {
        let base = 4 * t;
        let v = &pf.vertices[base];
        let u = &pf.vertices[base + 1];
        let rv = &pf.vertices[base + 2];
        let ru = &pf.vertices[base + 3];
        let fwd = u.connection.as_ref().unwrap();
        let rev = ru.connection.as_ref().unwrap();
        assert_eq!(fwd.neighbor, base);
        assert_eq!(rev.neighbor, base + 2);
        assert_eq!(fwd.distance, rev.distance);
        assert_eq!(fwd.threshold, rev.threshold);
        let reverse = |a: i64| if a >= 0 { a - 2 * ANG_PI } else { a + 2 * ANG_PI };
        assert_eq!(rv.angle, reverse(u.angle));
        assert_eq!(ru.angle, reverse(v.angle));
        // a connection always lands on the other node
        assert_ne!(pf.vertices[fwd.neighbor].node, u.node);
        assert_ne!(pf.vertices[rev.neighbor].node, ru.node);
    }

    // parallel outer tangents of equal circles keep the full distance
    let first = pf.vertices[1].connection.as_ref().unwrap();
    assert_eq!(first.distance, 20);
    assert_eq!(first.threshold, 0);
}

#[test]
fn build_inserts_sentinels_for_touching_pair() {
    let obstacles = vec![
        Obstacle { origin: Point { x: 0, y: 0, z: 0 }, radius: 3, height: 5 },
        Obstacle { origin: Point { x: 3, y: 0, z: 0 }, radius: 0, height: 1 },
    ];
    let mut pf = Pathfinder::new(0, geo(), vec![wide_zone()], obstacles);
    let breaks = vec![Vec::new(), Vec::new()];
    let planned = vec![
        Node { origin: Point { x: 0, y: 0, z: 0 }, radius: 3, height: 5, ring: Vec::new() },
        Node { origin: Point { x: 3, y: 0, z: 0 }, radius: 0, height: 1, ring: Vec::new() },
    ];
    let pairs = pair_data(&planned);
    pf.build_graph(&breaks, &Vec::new(), &pairs).unwrap();

    // sentinel vertices carry no connection and mark ring interruptions
    let sentinels: Vec<_> = pf.vertices.iter().filter(|v| v.sentinel).collect();
    assert_eq!(sentinels.len(), 8);
    for s in &sentinels {
        assert!(s.connection.is_none());
    }
}

#[test]
fn coincident_nodes_fail_the_build() {
    let obstacles = vec![
        Obstacle { origin: Point { x: 1, y: 1, z: 0 }, radius: 1, height: 1 },
        Obstacle { origin: Point { x: 1, y: 1, z: 0 }, radius: 2, height: 2 },
    ];
    let mut pf = Pathfinder::new(0, geo(), vec![wide_zone()], obstacles);
    let breaks = vec![Vec::new(), Vec::new()];
    let trig = TangentTrig { theta: 0, gamma1: 0, gamma2: 0, theta_s: 0, phi_s: 0 };
    let pairs = vec![
        vec![PairData { trig, endpoints: Vec::new(), sentinel_points: Vec::new() }],
        Vec::new(),
    ];
    let err = pf.build_graph(&breaks, &Vec::new(), &pairs).unwrap_err();
    assert_eq!(err, PathError::InvalidGeometry);
}

#[test]
fn build_without_boundary_is_insufficient() {
    // spec treats building without a usable boundary as fatal at start
    let obstacles = vec![Obstacle { origin: Point { x: 0, y: 0, z: 0 }, radius: 1, height: 1 }];
    let mut pf = Pathfinder::new(0, geo(), Vec::new(), obstacles);
    let breaks = vec![Vec::new()];
    let err = pf.build_graph(&breaks, &Vec::new(), &Vec::new()).unwrap_err();
    assert_eq!(err, PathError::InsufficientBoundary);
    assert!(pf.nodes.is_empty());
    assert!(pf.vertices.is_empty());

    let thin = vec![vec![Point { x: 0, y: 0, z: 0 }, Point { x: 1, y: 0, z: 0 }]];
    let mut pf2 = Pathfinder::new(0, geo(), thin, Vec::new());
    let err2 = pf2.build_graph(&Vec::new(), &Vec::new(), &Vec::new()).unwrap_err();
    assert_eq!(err2, PathError::InsufficientBoundary);
}

#[test]
fn flyzone_breaks_become_sentinel_ring_vertices() {
    let obstacles = vec![Obstacle { origin: Point { x: 0, y: 0, z: 0 }, radius: 2, height: 1 }];
    let mut pf = Pathfinder::new(1, geo(), Vec::new(), obstacles);
    let breaks = vec![vec![
        (0i64, Point { x: 3, y: 0, z: 0 }),
        (ANG_PI, Point { x: -3, y: 0, z: 0 }),
    ]];
    pf.populate_nodes(&breaks, &Vec::new());
    assert_eq!(pf.nodes.len(), 1);
    assert_eq!(pf.nodes[0].ring.len(), 2);
    let first = pf.nodes[0].ring[0];
    let second = pf.nodes[0].ring[1];
    assert!(pf.vertices[first].sentinel);
    assert_eq!(pf.vertices[first].angle, 0);
    assert_eq!(pf.vertices[second].angle, ANG_PI);
    // a two-vertex ring closes on itself in both directions
    assert_eq!(pf.vertices[first].next, second);
    assert_eq!(pf.vertices[first].prev, second);
    assert_eq!(pf.vertices[second].next, first);
    assert_eq!(pf.vertices[second].prev, first);
}

#[test]
fn virtual_nodes_join_the_node_set() {
    let mut pf = Pathfinder::new(0, geo(), Vec::new(), Vec::new());
    let virtuals = vec![Obstacle { origin: Point { x: 9, y: 9, z: 0 }, radius: 4, height: 0 }];
    pf.populate_nodes(&Vec::new(), &virtuals);
    assert_eq!(pf.nodes.len(), 1);
    assert_eq!(pf.nodes[0].origin.x, 9);
    assert_eq!(pf.nodes[0].radius, 4);
    assert!(pf.nodes[0].ring.is_empty());
}

#[test]
fn find_path_filters_blocked_candidates() {
    // a wall between the two nodes blocks every tangent
    let wall = vec![
        Point { x: 10, y: -50, z: 0 },
        Point { x: 11, y: -50, z: 0 },
        Point { x: 11, y: 50, z: 0 },
        Point { x: 10, y: 50, z: 0 },
    ];
    let pf = Pathfinder::new(0, geo(), vec![wall], Vec::new());
    let a = Node { origin: Point { x: 0, y: 0, z: 0 }, radius: 5, height: 0, ring: Vec::new() };
    let b = Node { origin: Point { x: 20, y: 0, z: 0 }, radius: 5, height: 0, ring: Vec::new() };
    let trig = trig_for(a.origin, a.radius, b.origin, b.radius);
    let (cands, _) = tangent_candidates(&a, &b, &trig).unwrap();
    let endpoints: Vec<_> =
        cands.iter().map(|&(al, be)| (on_circle(&a, al), on_circle(&b, be))).collect();
    let (conns, sents) = pf.find_path(&a, &b, &trig, &endpoints).unwrap();
    assert!(conns.is_empty());
    assert!(sents.is_none());
}

#[test]
fn find_path_reports_flyover_threshold() {
    // an obstacle straddling the lower outer tangent raises only that
    // edge's threshold
    let obstacles = vec![Obstacle { origin: Point { x: 10, y: -5, z: 0 }, radius: 2, height: 9 }];
    let pf = Pathfinder::new(0, geo(), Vec::new(), obstacles);
    let a = Node { origin: Point { x: 0, y: 0, z: 0 }, radius: 5, height: 0, ring: Vec::new() };
    let b = Node { origin: Point { x: 20, y: 0, z: 0 }, radius: 5, height: 0, ring: Vec::new() };
    let trig = trig_for(a.origin, a.radius, b.origin, b.radius);
    let (cands, _) = tangent_candidates(&a, &b, &trig).unwrap();
    let endpoints: Vec<_> =
        cands.iter().map(|&(al, be)| (on_circle(&a, al), on_circle(&b, be))).collect();
    let (conns, _) = pf.find_path(&a, &b, &trig, &endpoints).unwrap();
    assert_eq!(conns.len(), 4);
    // candidate 0 runs along y = -5 straight through the obstacle
    assert_eq!(conns[0].3, 9);
    assert_eq!(conns[0].2, 20);
    // the mirrored outer tangent along y = +5 stays clear
    assert_eq!(conns[1].3, 0);
}
