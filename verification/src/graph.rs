//! The graph data model and its builder: nodes (circular safety
//! buffers), vertices linked into one closed ring per node, directed
//! connections across nodes, and the orchestration that populates nodes
//! and inserts tangent edges and sentinels.
//!
//! Vertices live in one arena indexed by their globally unique index, as
//! the rings and the cross-node edges make the structure a general
//! graph; a node's ring is its cyclic vertex order, and every vertex
//! carries intrusive `prev`/`next` arena indices kept consistent with
//! that order.

use vstd::prelude::*;
use crate::types::Location;
use crate::types::Obstacle;
use crate::types::PathError;
use crate::types::PathValidity;
use crate::types::Point;
use crate::types::ANG_PI;
use crate::types::ANG_TWO_PI;
use crate::types::COORD_LIMIT;
use crate::types::point_ok;
use crate::types::radius_ok;
use crate::types::obstacle_ok;
use crate::types::geo_ok;
use crate::angle::reverse_polarity;
use crate::angle::reverse_polarity_spec;
use crate::seg::intersect;
use crate::num::isqrt;
use crate::num::sq;
use crate::num::sqrt_floor;
use crate::tangent::TangentTrig;
use crate::tangent::cand_count;
use crate::tangent::cand_pair;
use crate::tangent::centers_coincide;
use crate::tangent::inner_ok;
use crate::tangent::sentinel_pair;
use crate::tangent::tangent_candidates;
use crate::tangent::trig_ok;
use crate::seg::segment_hits_circle;
use crate::seg::segment_hits_circle_spec;
use crate::seg::segments_intersect_spec;
use crate::seg::point_in_polygon;
use crate::seg::point_in_zone;

verus! {

/// The smaller of two values.
pub open spec fn imin(a: int, b: int) -> int {
    if b < a {
        b
    } else {
        a
    }
}

/// The larger of two values.
pub open spec fn imax(a: int, b: int) -> int {
    if b > a {
        b
    } else {
        a
    }
}

/// Accumulate (minimum latitude, minimum longitude, maximum longitude)
/// over the points of one boundary polygon.
#[verifier::opaque]
pub open spec fn scan_zone(z: Seq<Location>, acc: (int, int, int)) -> (int, int, int)
    decreases z.len(),
{
    if z.len() == 0 {
        acc
    } else {
        scan_zone(
            z.drop_first(),
            (
                imin(acc.0, z.first().lat as int),
                imin(acc.1, z.first().lon as int),
                imax(acc.2, z.first().lon as int),
            ),
        )
    }
}

/// Accumulate the latitude/longitude extremes over all boundary
/// polygons.
#[verifier::opaque]
pub open spec fn scan_zones(zs: Seq<Seq<Location>>, acc: (int, int, int)) -> (int, int, int)
    decreases zs.len(),
{
    if zs.len() == 0 {
        acc
    } else {
        scan_zones(zs.drop_first(), scan_zone(zs.first(), acc))
    }
}

/// A boundary is usable when at least one polygon is given and each has
/// at least three points.
pub open spec fn boundary_ok(zs: Seq<Seq<Location>>) -> bool {
    zs.len() > 0 && forall|i: int| 0 <= i < zs.len() ==> (#[trigger] zs[i]).len() >= 3
}

/// The resolved projection origin: minimum latitude over all boundary
/// points, and the minimum longitude unless the longitude span exceeds
/// half a turn (antimeridian wraparound), in which case the maximum
/// longitude; altitude zero.
pub open spec fn origin_spec(zs: Seq<Seq<Location>>) -> Location {
    let init = (zs[0][0].lat as int, zs[0][0].lon as int, zs[0][0].lon as int);
    let m = scan_zones(zs, init);
    Location {
        lat: m.0 as i64,
        lon: (if m.2 - m.1 > ANG_PI {
            m.2
        } else {
            m.1
        }) as i64,
        alt: 0,
    }
}

/// The nested sequence view of a boundary set.
pub open spec fn deep_zones(v: Seq<Vec<Location>>) -> Seq<Seq<Location>> {
    v.map_values(|z: Vec<Location>| z@)
}

/// The nested sequence view of a projected boundary set.
pub open spec fn deep_points(v: Seq<Vec<Point>>) -> Seq<Seq<Point>> {
    v.map_values(|z: Vec<Point>| z@)
}

/// Some edge of the polygon `z` (closed by wrapping the last point to
/// the first) intersects the segment `ab`.
pub open spec fn zone_blocks(z: Seq<Point>, a: Point, b: Point) -> bool {
    exists|k: int|
        0 <= k < z.len() && segments_intersect_spec(
            a,
            b,
            #[trigger] z[k],
            z[
                if k + 1 == z.len() as int {
                    0int
                } else {
                    k + 1
                }
            ],
        )
}

/// The segment `ab` crosses the edge of some boundary polygon.
pub open spec fn boundary_blocked(zs: Seq<Seq<Point>>, a: Point, b: Point) -> bool {
    exists|i: int| 0 <= i < zs.len() && zone_blocks(#[trigger] zs[i], a, b)
}

/// The point lies inside at least one boundary polygon.
pub open spec fn inside_some_zone(zs: Seq<Seq<Point>>, p: Point) -> bool {
    exists|i: int| 0 <= i < zs.len() && point_in_zone(#[trigger] zs[i], p)
}

/// The boundary rejects the segment `ab`: it crosses some polygon
/// edge, or a boundary is present and the segment lies outside every
/// polygon (crossing no edge, a segment is entirely inside or entirely
/// outside each polygon, so its start point decides).
pub open spec fn boundary_rejects(zs: Seq<Seq<Point>>, a: Point, b: Point) -> bool {
    boundary_blocked(zs, a, b) || (zs.len() > 0 && !inside_some_zone(zs, a))
}

/// The minimum altitude needed to clear every obstacle whose footprint
/// the segment `ab` crosses: the maximum of their heights, or zero when
/// it crosses none.
pub open spec fn flyover_height(obs: Seq<Obstacle>, a: Point, b: Point) -> int
    decreases obs.len(),
{
    if obs.len() == 0 {
        0
    } else {
        let h = flyover_height(obs.drop_last(), a, b);
        if segment_hits_circle_spec(a, b, obs.last().origin, obs.last().radius as int)
            && obs.last().height > h {
            obs.last().height as int
        } else {
            h
        }
    }
}

/// The required clearance is never negative.
pub proof fn lemma_flyover_height_nonneg(obs: Seq<Obstacle>, a: Point, b: Point)
    ensures
        flyover_height(obs, a, b) >= 0,
    decreases obs.len(),
{
    if obs.len() > 0 {
        lemma_flyover_height_nonneg(obs.drop_last(), a, b);
    }
}

/// Every crossed obstacle's height is covered by the required
/// clearance: crossing obstacles of two heights reports at least the
/// larger.
pub proof fn lemma_flyover_dominates(obs: Seq<Obstacle>, a: Point, b: Point, k: int)
    requires
        0 <= k < obs.len(),
        segment_hits_circle_spec(a, b, obs[k].origin, obs[k].radius as int),
    ensures
        flyover_height(obs, a, b) >= obs[k].height,
    decreases obs.len(),
{
    if k < obs.len() - 1 {
        assert(obs.drop_last()[k] == obs[k]);
        lemma_flyover_dominates(obs.drop_last(), a, b, k);
    }
}

/// The required clearance is zero or the height of some crossed
/// obstacle: a segment crossing exactly one obstacle reports exactly
/// that obstacle's height.
pub proof fn lemma_flyover_achieved(obs: Seq<Obstacle>, a: Point, b: Point)
    ensures
        flyover_height(obs, a, b) == 0 || exists|k: int|
            0 <= k < obs.len() && segment_hits_circle_spec(
                a,
                b,
                (#[trigger] obs[k]).origin,
                obs[k].radius as int,
            ) && obs[k].height == flyover_height(obs, a, b),
    decreases obs.len(),
{
    if obs.len() > 0 {
        let h = flyover_height(obs, a, b);
        let pre = obs.drop_last();
        lemma_flyover_achieved(pre, a, b);
        if h != 0 {
            if segment_hits_circle_spec(a, b, obs.last().origin, obs.last().radius as int)
                && obs.last().height > flyover_height(pre, a, b) {
                assert(obs[obs.len() - 1] == obs.last());
            } else {
                let k = choose|k: int|
                    0 <= k < pre.len() && segment_hits_circle_spec(
                        a,
                        b,
                        (#[trigger] pre[k]).origin,
                        pre[k].radius as int,
                    ) && pre[k].height == flyover_height(pre, a, b);
                assert(obs[k] == pre[k]);
            }
        }
    }
}


/// Caller-evaluated data for one node pair: the fixed-point trig
/// values, one Cartesian endpoint pair per tangent candidate, and the
/// locations of the four sentinel vertices of the degenerate branch.
pub struct PairData {
    pub trig: TangentTrig,
    pub endpoints: Vec<(Point, Point)>,
    pub sentinel_points: Vec<(Point, Point)>,
}

/// A segment that crosses exactly one obstacle needs exactly that
/// obstacle's height as clearance.
pub proof fn lemma_single_obstacle_flyover(obs: Seq<Obstacle>, a: Point, b: Point, k: int)
    requires
        0 <= k < obs.len(),
        obs[k].height >= 0,
        segment_hits_circle_spec(a, b, obs[k].origin, obs[k].radius as int),
        forall|t: int|
            0 <= t < obs.len() && t != k ==> !segment_hits_circle_spec(
                a,
                b,
                (#[trigger] obs[t]).origin,
                obs[t].radius as int,
            ),
    ensures
        flyover_height(obs, a, b) == obs[k].height,
{
    lemma_flyover_dominates(obs, a, b, k);
    lemma_flyover_achieved(obs, a, b);
    let h = flyover_height(obs, a, b);
    if h != 0 {
        let t = choose|t: int|
            0 <= t < obs.len() && segment_hits_circle_spec(
                a,
                b,
                (#[trigger] obs[t]).origin,
                obs[t].radius as int,
            ) && obs[t].height == h;
        assert(t == k);
    }
}

/// A segment that crosses exactly two obstacles needs the larger of
/// their heights as clearance.
pub proof fn lemma_two_obstacle_flyover(obs: Seq<Obstacle>, a: Point, b: Point, k1: int, k2: int)
    requires
        0 <= k1 < obs.len(),
        0 <= k2 < obs.len(),
        k1 != k2,
        0 <= obs[k1].height <= obs[k2].height,
        segment_hits_circle_spec(a, b, obs[k1].origin, obs[k1].radius as int),
        segment_hits_circle_spec(a, b, obs[k2].origin, obs[k2].radius as int),
        forall|t: int|
            0 <= t < obs.len() && t != k1 && t != k2 ==> !segment_hits_circle_spec(
                a,
                b,
                (#[trigger] obs[t]).origin,
                obs[t].radius as int,
            ),
    ensures
        flyover_height(obs, a, b) == obs[k2].height,
{
    lemma_flyover_dominates(obs, a, b, k2);
    lemma_flyover_achieved(obs, a, b);
    let h = flyover_height(obs, a, b);
    if h != 0 {
        let t = choose|t: int|
            0 <= t < obs.len() && segment_hits_circle_spec(
                a,
                b,
                (#[trigger] obs[t]).origin,
                obs[t].radius as int,
            ) && obs[t].height == h;
        assert(t == k1 || t == k2);
    }
}

/// A directed edge from its owning vertex to a vertex of another node,
/// with the segment's length and the minimum altitude needed to fly it.
#[derive(Clone, Copy, Debug)]
pub struct Connection {
    /// Arena index of the vertex the edge lands on.
    pub neighbor: usize,
    pub distance: i64,
    /// Minimum altitude required to traverse the edge; zero means
    /// unconditionally flyable.
    pub threshold: i64,
}

/// A point on a node's boundary at a given angle, linked into the
/// node's ring.  The cost fields and the predecessor back-pointer are
/// reserved for the downstream search and never written here.
#[derive(Clone, Copy, Debug)]
pub struct Vertex {
    /// Globally unique index, equal to the vertex's arena position.
    pub index: usize,
    /// Index of the owning node.
    pub node: usize,
    /// Radius of the owning node.
    pub radius: i64,
    pub location: Point,
    /// Angle of the vertex relative to the node center.
    pub angle: i64,
    /// Cost so far; written only by an external search.
    pub g_cost: i64,
    /// Estimated total cost; written only by an external search.
    pub f_cost: i64,
    /// Predecessor; written only by an external search.
    pub parent: Option<usize>,
    /// Outgoing edge, if this vertex starts a tangent connection.
    pub connection: Option<Connection>,
    /// Ring predecessor on the same node.
    pub prev: usize,
    /// Ring successor on the same node.
    pub next: usize,
    /// Marks a boundary-hugging vertex that stands for no tangent
    /// endpoint.
    pub sentinel: bool,
}

/// A circular safety buffer with its ring of vertices, kept as the
/// cyclic order of their arena indices.
#[derive(Debug)]
pub struct Node {
    pub origin: Point,
    pub radius: i64,
    pub height: i64,
    pub ring: Vec<usize>,
}

/// A node whose geometry is within the fixed-point bounds.
pub open spec fn node_geom_ok(n: Node) -> bool {
    &&& point_ok(n.origin)
    &&& radius_ok(n.radius as int)
    &&& 0 <= n.height <= COORD_LIMIT
}

/// The ring of node `n` is a closed doubly-linked cycle: every listed
/// vertex exists, belongs to `n`, appears once, and its intrusive links
/// point at its cyclic neighbors in the ring order.
pub open spec fn ring_wf(vertices: Seq<Vertex>, ring: Seq<usize>, n: int) -> bool {
    &&& forall|k: int|
        0 <= k < ring.len() ==> {
            let v = (#[trigger] ring[k]) as int;
            &&& 0 <= v < vertices.len()
            &&& vertices[v].node == n
            &&& vertices[v].next == ring[if k + 1 == ring.len() as int {
                0int
            } else {
                k + 1
            }]
            &&& vertices[v].prev == ring[if k == 0 {
                ring.len() as int - 1
            } else {
                k - 1
            }]
        }
    &&& forall|k1: int, k2: int|
        0 <= k1 < k2 < ring.len() ==> ring[k1] != ring[k2]
}

/// A vertex's outgoing connection, if any, lands on an existing vertex
/// of a different node and carries nonnegative weight and threshold.
pub open spec fn conn_ok(vertices: Seq<Vertex>, v: Vertex) -> bool {
    match v.connection {
        Some(c) => {
            &&& 0 <= c.neighbor < vertices.len()
            &&& vertices[c.neighbor as int].node != v.node
            &&& c.distance >= 0
            &&& c.threshold >= 0
        },
        None => true,
    }
}

/// A ring whose vertices are untouched by an arena change stays a
/// closed cycle.
proof fn lemma_ring_untouched(ov: Seq<Vertex>, fv: Seq<Vertex>, rm: Seq<usize>, m: int)
    requires
        ring_wf(ov, rm, m),
        fv.len() >= ov.len(),
        forall|v: int| 0 <= v < ov.len() && ov[v].node == m ==> fv[v] == ov[v],
    ensures
        ring_wf(fv, rm, m),
{
    assert forall|k: int| 0 <= k < rm.len() implies {
        let v = (#[trigger] rm[k]) as int;
        &&& 0 <= v < fv.len()
        &&& fv[v].node == m
        &&& fv[v].next == rm[if k + 1 == rm.len() as int {
            0int
        } else {
            k + 1
        }]
        &&& fv[v].prev == rm[if k == 0 {
            rm.len() as int - 1
        } else {
            k - 1
        }]
    } by {
        let v = rm[k] as int;
        assert(ov[v].node == m);
        assert(fv[v] == ov[v]);
    }
}

/// Splicing a fresh vertex at the end of a closed ring, with the old
/// first and last vertices relinked to it, yields a closed ring again.
proof fn lemma_ring_push(ov: Seq<Vertex>, fv: Seq<Vertex>, r: Seq<usize>, n: int, idx: usize)
    requires
        ring_wf(ov, r, n),
        fv.len() == ov.len() + 1,
        idx as int == ov.len() as int,
        fv[idx as int].node == n,
        r.len() == 0 ==> fv[idx as int].prev == idx && fv[idx as int].next == idx,
        r.len() > 0 ==> fv[idx as int].prev == r[r.len() - 1] && fv[idx as int].next == r[0],
        forall|v: int|
            0 <= v < ov.len() && (r.len() == 0 || (v != r[0] as int && v != r[r.len()
                - 1] as int)) ==> fv[v] == ov[v],
        r.len() > 0 ==> fv[r[0] as int].prev == idx && fv[r[r.len() - 1] as int].next == idx,
        r.len() > 0 ==> fv[r[0] as int].node == n && fv[r[r.len() - 1] as int].node == n,
        r.len() >= 2 ==> fv[r[0] as int].next == ov[r[0] as int].next && fv[r[r.len()
            - 1] as int].prev == ov[r[r.len() - 1] as int].prev,
    ensures
        ring_wf(fv, r.push(idx), n),
{
    let r2 = r.push(idx);
    let len2 = r2.len() as int;
    assert forall|k: int| 0 <= k < len2 implies {
        let v = (#[trigger] r2[k]) as int;
        &&& 0 <= v < fv.len()
        &&& fv[v].node == n
        &&& fv[v].next == r2[if k + 1 == len2 {
            0int
        } else {
            k + 1
        }]
        &&& fv[v].prev == r2[if k == 0 {
            len2 - 1
        } else {
            k - 1
        }]
    } by {
        let v = r2[k] as int;
        if r.len() == 0 {
            assert(k == 0 && v == idx as int);
        } else {
            let f0 = r[0] as int;
            let l0 = r[r.len() - 1] as int;
            if k == len2 - 1 {
                assert(v == idx as int);
                assert(r2[0] == r[0]);
                assert(r2[len2 - 2] == r[r.len() - 1]);
            } else if r.len() == 1 {
                assert(k == 0 && v == f0 && f0 == l0);
                assert(r2[len2 - 1] == idx);
            } else if k == 0 {
                assert(v == f0);
                assert(fv[v].next == ov[f0].next);
                assert(ov[f0].next == r[1]);
                assert(r2[1] == r[1]);
            } else if k == r.len() - 1 {
                assert(v == l0);
                assert(r2[k + 1] == idx);
                assert(fv[v].prev == ov[l0].prev);
                assert(ov[l0].prev == r[k - 1]);
            } else {
                assert(v == r[k] as int);
                assert(r[0] != r[k]);
                assert(r[k] != r[r.len() - 1]);
                assert(fv[v] == ov[v]);
                assert(ov[v].next == r[k + 1]);
                assert(ov[v].prev == r[k - 1]);
            }
        }
    }
    assert forall|k1: int, k2: int| 0 <= k1 < k2 < r2.len() implies r2[k1] != r2[k2] by {
        if k2 == r2.len() - 1 {
            assert((r[k1] as int) < ov.len());
        }
    }
}

/// After a fresh vertex is spliced at the end of node `n`'s ring, all
/// rings are closed cycles again and every vertex still sits in its
/// node's ring.
proof fn lemma_insert_rings(
    ov: Seq<Vertex>,
    fv: Seq<Vertex>,
    nodes_old: Seq<Node>,
    nodes_new: Seq<Node>,
    n: int,
    idx: usize,
)
    requires
        0 <= n < nodes_old.len(),
        nodes_new.len() == nodes_old.len(),
        forall|m: int| 0 <= m < nodes_old.len() && m != n ==> nodes_new[m] == nodes_old[m],
        nodes_new[n].ring@ == nodes_old[n].ring@.push(idx),
        forall|m: int| 0 <= m < nodes_old.len() ==> ring_wf(ov, (#[trigger] nodes_old[m]).ring@, m),
        forall|v: int| 0 <= v < ov.len() ==> (#[trigger] fv[v]).node == ov[v].node,
        fv.len() == ov.len() + 1,
        idx as int == ov.len() as int,
        fv[idx as int].node == n,
        ({
            let r = nodes_old[n].ring@;
            &&& (r.len() == 0 ==> fv[idx as int].prev == idx && fv[idx as int].next == idx)
            &&& (r.len() > 0 ==> fv[idx as int].prev == r[r.len() - 1] && fv[idx as int].next
                == r[0])
            &&& (forall|v: int|
                0 <= v < ov.len() && (r.len() == 0 || (v != r[0] as int && v != r[r.len()
                    - 1] as int)) ==> fv[v] == ov[v])
            &&& (r.len() > 0 ==> fv[r[0] as int].prev == idx && fv[r[r.len() - 1] as int].next
                == idx)
            &&& (r.len() >= 2 ==> fv[r[0] as int].next == ov[r[0] as int].next && fv[r[r.len()
                - 1] as int].prev == ov[r[r.len() - 1] as int].prev)
        }),
    ensures
        forall|m: int| 0 <= m < nodes_new.len() ==> ring_wf(fv, (#[trigger] nodes_new[m]).ring@, m),
{
    let r = nodes_old[n].ring@;
    if r.len() > 0 {
        assert(ring_wf(ov, r, n));
        assert(ov[r[0] as int].node == n);
        assert(ov[r[r.len() - 1] as int].node == n);
    }
    assert forall|m: int| 0 <= m < nodes_new.len() implies ring_wf(
        fv,
        (#[trigger] nodes_new[m]).ring@,
        m,
    ) by {
        assert(ring_wf(ov, nodes_old[m].ring@, m));
        if m != n {
            lemma_ring_untouched(ov, fv, nodes_old[m].ring@, m);
        } else {
            lemma_ring_push(ov, fv, r, n, idx);
        }
    }
}

/// The planner: configuration, resolved origin, and the graph being
/// built.
pub struct Pathfinder {
    /// Safety margin added to every obstacle radius.
    pub buffer: i64,
    /// Resolved geodetic projection origin.
    pub origin: Location,
    /// Boundary polygons, already projected onto the local plane.
    pub flyzones: Vec<Vec<Point>>,
    /// Obstacles, already projected onto the local plane.
    pub obstacles: Vec<Obstacle>,
    pub nodes: Vec<Node>,
    /// Vertex arena; a vertex's index equals its position here.
    pub vertices: Vec<Vertex>,
    /// The monotonic counter all vertex indices are drawn from; always
    /// the number of vertices created so far.
    pub num_vertices: usize,
}

impl Pathfinder {
    /// Structural well-formedness of the graph: the counter matches the
    /// arena, indices are the arena positions (so they are unique and
    /// assigned in insertion order from zero), every vertex belongs to
    /// an existing node, every connection is sound, and every ring is a
    /// closed cycle.
    pub open spec fn wf(self) -> bool {
        &&& self.num_vertices == self.vertices@.len()
        &&& forall|v: int|
            0 <= v < self.vertices@.len() ==> (#[trigger] self.vertices@[v]).index == v
        &&& forall|v: int|
            0 <= v < self.vertices@.len() ==> (#[trigger] self.vertices@[v]).node
                < self.nodes@.len()
        &&& forall|v: int|
            0 <= v < self.vertices@.len() ==> conn_ok(self.vertices@, #[trigger] self.vertices@[v])
        &&& forall|n: int|
            0 <= n < self.nodes@.len() ==> ring_wf(
                self.vertices@,
                (#[trigger] self.nodes@[n]).ring@,
                n,
            )
    }

    /// The configuration inputs are within the fixed-point bounds.
    pub open spec fn inputs_ok(self) -> bool {
        &&& 0 <= self.buffer <= COORD_LIMIT
        &&& forall|i: int, k: int|
            0 <= i < self.flyzones@.len() && 0 <= k < self.flyzones@[i]@.len() ==> point_ok(
                #[trigger] self.flyzones@[i]@[k],
            )
        &&& forall|i: int|
            0 <= i < self.obstacles@.len() ==> obstacle_ok(#[trigger] self.obstacles@[i])
    }

    /// A fresh planner around the given configuration, with an empty
    /// graph.
    pub fn new(
        buffer: i64,
        origin: Location,
        flyzones: Vec<Vec<Point>>,
        obstacles: Vec<Obstacle>,
    ) -> (pf: Pathfinder)
        ensures
            pf.wf(),
            pf.buffer == buffer,
            pf.origin == origin,
            pf.flyzones == flyzones,
            pf.obstacles == obstacles,
            pf.nodes@.len() == 0,
            pf.vertices@.len() == 0,
    {
        Pathfinder {
            buffer,
            origin,
            flyzones,
            obstacles,
            nodes: Vec::new(),
            vertices: Vec::new(),
            num_vertices: 0,
        }
    }

    /// All fields of a vertex other than the intrusive ring links.
    pub open spec fn same_but_links(o: Vertex, f: Vertex) -> bool {
        &&& f.index == o.index
        &&& f.node == o.node
        &&& f.radius == o.radius
        &&& f.location == o.location
        &&& f.angle == o.angle
        &&& f.g_cost == o.g_cost
        &&& f.f_cost == o.f_cost
        &&& f.parent == o.parent
        &&& f.connection == o.connection
        &&& f.sentinel == o.sentinel
    }

    /// The configuration fields of the planner are untouched.
    pub open spec fn config_unchanged(o: Pathfinder, f: Pathfinder) -> bool {
        &&& f.buffer == o.buffer
        &&& f.origin == o.origin
        &&& f.flyzones == o.flyzones
        &&& f.obstacles == o.obstacles
    }

    /// Create a vertex on node `n` and splice it at the end of the
    /// node's ring, preserving ring closure; its index is drawn from
    /// the monotonic counter.
    #[verifier::rlimit(100)]
    #[verifier::spinoff_prover]
    fn insert_vertex(
        &mut self,
        n: usize,
        angle: i64,
        location: Point,
        connection: Option<Connection>,
        sentinel: bool,
    ) -> (idx: usize)
        requires
            old(self).wf(),
            n < old(self).nodes@.len(),
            match connection {
                Some(c) => {
                    &&& c.neighbor < old(self).vertices@.len()
                    &&& old(self).vertices@[c.neighbor as int].node != n
                    &&& c.distance >= 0
                    &&& c.threshold >= 0
                },
                None => true,
            },
        ensures
            final(self).wf(),
            idx == old(self).vertices@.len(),
            final(self).num_vertices == old(self).num_vertices + 1,
            final(self).vertices@.len() == old(self).vertices@.len() + 1,
            Self::config_unchanged(*old(self), *final(self)),
            // the new vertex
            ({
                let w = final(self).vertices@[idx as int];
                &&& w.index == idx
                &&& w.node == n
                &&& w.radius == old(self).nodes@[n as int].radius
                &&& w.location == location
                &&& w.angle == angle
                &&& w.g_cost == 0
                &&& w.f_cost == 0
                &&& w.parent is None
                &&& w.connection == connection
                &&& w.sentinel == sentinel
            }),
            // the rings: node n gains the new vertex at the end, the
            // others are untouched
            final(self).nodes@.len() == old(self).nodes@.len(),
            final(self).nodes@[n as int].ring@ == old(self).nodes@[n as int].ring@.push(idx),
            final(self).nodes@[n as int].origin == old(self).nodes@[n as int].origin,
            final(self).nodes@[n as int].radius == old(self).nodes@[n as int].radius,
            final(self).nodes@[n as int].height == old(self).nodes@[n as int].height,
            forall|m: int|
                0 <= m < old(self).nodes@.len() && m != n ==> final(self).nodes@[m] == old(self).nodes@[m],
            // existing vertices keep everything but possibly their links
            forall|v: int|
                0 <= v < old(self).vertices@.len() ==> Self::same_but_links(
                    old(self).vertices@[v],
                    #[trigger] final(self).vertices@[v],
                ),
    {
        let idx = self.vertices.len();
        let ring_len = self.nodes[n].ring.len();
        let (prev_i, next_i) = if ring_len == 0 {
            (idx, idx)
        } else {
            let first = self.nodes[n].ring[0];
            let last = self.nodes[n].ring[ring_len - 1];
            (last, first)
        };
        let w = Vertex {
            index: idx,
            node: n,
            radius: self.nodes[n].radius,
            location,
            angle,
            g_cost: 0,
            f_cost: 0,
            parent: None,
            connection,
            prev: prev_i,
            next: next_i,
            sentinel,
        };
        self.vertices.push(w);
        if ring_len > 0 {
            let first = self.nodes[n].ring[0];
            let last = self.nodes[n].ring[ring_len - 1];
            let mut vf = self.vertices[first];
            vf.prev = idx;
            self.vertices[first] = vf;
            let mut vl = self.vertices[last];
            vl.next = idx;
            self.vertices[last] = vl;
        }
        self.nodes[n].ring.push(idx);
        self.num_vertices = self.vertices.len();
        proof {
            let ov = old(self).vertices@;
            let fv = self.vertices@;
            let r = old(self).nodes@[n as int].ring@;
            assert(self.nodes@[n as int].ring@ =~= r.push(idx));
            assert(ring_wf(ov, r, n as int));
            if r.len() > 0 {
                assert(ov[r[0] as int].node == n as int);
                assert(ov[r[r.len() - 1] as int].node == n as int);
                if r.len() >= 2 {
                    assert(r[0] != r[r.len() - 1]);
                }
            }
            lemma_insert_rings(ov, fv, old(self).nodes@, self.nodes@, n as int, idx);
        }
        idx
    }

    /// Resolve the projection origin from the geodetic boundary
    /// polygons: the minimum latitude and the minimum longitude (or the
    /// maximum longitude when the span exceeds half a turn), at
    /// altitude zero.  Fails, leaving the planner untouched, when no
    /// polygon is given or one has fewer than three points.
    pub fn find_origin(&mut self, flyzones: &Vec<Vec<Location>>) -> (res: Result<(), PathError>)
        requires
            forall|i: int, k: int|
                0 <= i < flyzones@.len() && 0 <= k < flyzones@[i]@.len() ==> geo_ok(
                    #[trigger] flyzones@[i]@[k],
                ),
        ensures
            res is Ok <==> boundary_ok(deep_zones(flyzones@)),
            res is Err ==> res->Err_0 == PathError::InsufficientBoundary && *final(self) == *old(self),
            res is Ok ==> final(self).origin == origin_spec(deep_zones(flyzones@)),
            final(self).buffer == old(self).buffer,
            final(self).flyzones == old(self).flyzones,
            final(self).obstacles == old(self).obstacles,
            final(self).nodes == old(self).nodes,
            final(self).vertices == old(self).vertices,
            final(self).num_vertices == old(self).num_vertices,
    {
        let n = flyzones.len();
        if n == 0 {
            return Err(PathError::InsufficientBoundary);
        }
        let mut i: usize = 0;
        while i < n
            invariant
                i <= n,
                n == flyzones@.len(),
                forall|zi: int| 0 <= zi < i ==> deep_zones(flyzones@)[zi].len() >= 3,
            decreases n - i,
        {
            if flyzones[i].len() < 3 {
                proof {
                    assert(deep_zones(flyzones@)[i as int].len() < 3);
                }
                return Err(PathError::InsufficientBoundary);
            }
            i += 1;
        }
        proof {
            assert(deep_zones(flyzones@)[0] == flyzones@[0]@);
            assert(flyzones@[0]@.len() >= 3);
        }
        let first = flyzones[0][0];
        let mut min_lat: i64 = first.lat;
        let mut min_lon: i64 = first.lon;
        let mut max_lon: i64 = first.lon;
        let ghost zs = deep_zones(flyzones@);
        let ghost init = (first.lat as int, first.lon as int, first.lon as int);
        proof {
            assert(zs.subrange(0, n as int) =~= zs);
        }
        let mut zi: usize = 0;
        while zi < n
            invariant
                zi <= n,
                n == flyzones@.len(),
                zs == deep_zones(flyzones@),
                forall|i: int, k: int|
                    0 <= i < flyzones@.len() && 0 <= k < flyzones@[i]@.len() ==> geo_ok(
                        #[trigger] flyzones@[i]@[k],
                    ),
                -ANG_TWO_PI <= min_lat <= ANG_TWO_PI,
                -ANG_TWO_PI <= min_lon <= ANG_TWO_PI,
                -ANG_TWO_PI <= max_lon <= ANG_TWO_PI,
                scan_zones(
                    zs.subrange(zi as int, n as int),
                    (min_lat as int, min_lon as int, max_lon as int),
                ) == scan_zones(zs, init),
            decreases n - zi,
        {
            let zone = &flyzones[zi];
            let m = zone.len();
            let ghost acc0 = (min_lat as int, min_lon as int, max_lon as int);
            proof {
                assert(zone@.subrange(0, zone@.len() as int) =~= zone@);
            }
            let mut pi: usize = 0;
            while pi < m
                invariant
                    pi <= m,
                    m == zone@.len(),
                    zi < n,
                    n == flyzones@.len(),
                    zone@ == flyzones@[zi as int]@,
                    forall|i: int, k: int|
                        0 <= i < flyzones@.len() && 0 <= k < flyzones@[i]@.len() ==> geo_ok(
                            #[trigger] flyzones@[i]@[k],
                        ),
                    -ANG_TWO_PI <= min_lat <= ANG_TWO_PI,
                    -ANG_TWO_PI <= min_lon <= ANG_TWO_PI,
                    -ANG_TWO_PI <= max_lon <= ANG_TWO_PI,
                    scan_zone(
                        zone@.subrange(pi as int, m as int),
                        (min_lat as int, min_lon as int, max_lon as int),
                    ) == scan_zone(zone@, acc0),
                decreases m - pi,
            {
                let p = zone[pi];
                proof {
                    reveal_with_fuel(scan_zone, 2);
                    let sub = zone@.subrange(pi as int, m as int);
                    assert(sub.len() > 0);
                    assert(sub.first() == zone@[pi as int]);
                    assert(sub.drop_first() =~= zone@.subrange(pi as int + 1, m as int));
                }
                if p.lat < min_lat {
                    min_lat = p.lat;
                }
                if p.lon < min_lon {
                    min_lon = p.lon;
                }
                if p.lon > max_lon {
                    max_lon = p.lon;
                }
                pi += 1;
            }
            proof {
                reveal_with_fuel(scan_zone, 1);
                reveal_with_fuel(scan_zones, 2);
                assert(zone@.subrange(m as int, m as int) =~= Seq::<Location>::empty());
                let sub = zs.subrange(zi as int, n as int);
                assert(sub.len() > 0);
                assert(sub.first() == zs[zi as int]);
                assert(sub.drop_first() =~= zs.subrange(zi as int + 1, n as int));
                assert(zs[zi as int] == zone@);
            }
            zi += 1;
        }
        proof {
            reveal_with_fuel(scan_zones, 1);
            assert(zs.subrange(n as int, n as int) =~= Seq::<Seq<Location>>::empty());
        }
        let lon: i64 = if max_lon - min_lon > ANG_PI {
            max_lon
        } else {
            min_lon
        };
        self.origin = Location { lat: min_lat, lon, alt: 0 };
        Ok(())
    }


    /// Classify a candidate straight segment: `Invalid` exactly when
    /// the boundary rejects it — it crosses some polygon edge, or a
    /// boundary is present and the segment lies outside every polygon;
    /// otherwise `Flyover(h)` where `h` is the maximum height over the
    /// obstacles whose footprint it crosses (zero when it crosses none
    /// — crossing an obstacle never invalidates a path, it only raises
    /// the required altitude).
    pub fn valid_path(&self, a: &Point, b: &Point) -> (res: PathValidity)
        requires
            self.inputs_ok(),
            point_ok(*a),
            point_ok(*b),
        ensures
            res is Invalid <==> boundary_rejects(deep_points(self.flyzones@), *a, *b),
            !boundary_rejects(deep_points(self.flyzones@), *a, *b) ==> (res matches
                PathValidity::Flyover(h) && h as int == flyover_height(self.obstacles@, *a, *b)
                && h >= 0),
    {
        let nz = self.flyzones.len();
        let mut i: usize = 0;
        while i < nz
            invariant
                i <= nz,
                nz == self.flyzones@.len(),
                self.inputs_ok(),
                point_ok(*a),
                point_ok(*b),
                forall|zi: int|
                    0 <= zi < i ==> !zone_blocks(deep_points(self.flyzones@)[zi], *a, *b),
            decreases nz - i,
        {
            let zone = &self.flyzones[i];
            let m = zone.len();
            let mut k: usize = 0;
            while k < m
                invariant
                    k <= m,
                    m == zone@.len(),
                    i < self.flyzones@.len(),
                    zone@ == self.flyzones@[i as int]@,
                    self.inputs_ok(),
                    point_ok(*a),
                    point_ok(*b),
                    forall|kk: int|
                        0 <= kk < k ==> !segments_intersect_spec(
                            *a,
                            *b,
                            #[trigger] zone@[kk],
                            zone@[
                                if kk + 1 == zone@.len() as int {
                                    0int
                                } else {
                                    kk + 1
                                }
                            ],
                        ),
                decreases m - k,
            {
                let p1 = zone[k];
                let p2 = if k + 1 == m {
                    zone[0]
                } else {
                    zone[k + 1]
                };
                if intersect(a, b, &p1, &p2) {
                    proof {
                        assert(zone_blocks(zone@, *a, *b)) by {
                            assert(0 <= k < zone@.len() && segments_intersect_spec(
                                *a,
                                *b,
                                zone@[k as int],
                                zone@[
                                    if k as int + 1 == zone@.len() as int {
                                        0int
                                    } else {
                                        k as int + 1
                                    }
                                ],
                            ));
                        }
                        assert(deep_points(self.flyzones@)[i as int] == zone@);
                    }
                    return PathValidity::Invalid;
                }
                k += 1;
            }
            proof {
                assert(deep_points(self.flyzones@)[i as int] == zone@);
                assert(!zone_blocks(zone@, *a, *b));
            }
            i += 1;
        }
        if nz > 0 {
            let mut zi: usize = 0;
            let mut found = false;
            while zi < nz
                invariant
                    zi <= nz,
                    nz == self.flyzones@.len(),
                    self.inputs_ok(),
                    point_ok(*a),
                    found <==> exists|t: int|
                        0 <= t < zi && point_in_zone(#[trigger] deep_points(self.flyzones@)[t], *a),
                decreases nz - zi,
            {
                let zone = &self.flyzones[zi];
                if point_in_polygon(zone, a) {
                    proof {
                        assert(deep_points(self.flyzones@)[zi as int] == zone@);
                    }
                    found = true;
                }
                zi += 1;
            }
            if !found {
                return PathValidity::Invalid;
            }
        }
        let no = self.obstacles.len();
        let mut oi: usize = 0;
        let mut max_height: i64 = 0;
        while oi < no
            invariant
                oi <= no,
                no == self.obstacles@.len(),
                self.inputs_ok(),
                point_ok(*a),
                point_ok(*b),
                max_height as int == flyover_height(self.obstacles@.take(oi as int), *a, *b),
                max_height >= 0,
            decreases no - oi,
        {
            let ob = self.obstacles[oi];
            if segment_hits_circle(a, b, &ob.origin, ob.radius) {
                if ob.height > max_height {
                    max_height = ob.height;
                }
            }
            proof {
                let pre = self.obstacles@.take(oi as int);
                let cur = self.obstacles@.take(oi as int + 1);
                assert(cur.drop_last() =~= pre);
                assert(cur.last() == self.obstacles@[oi as int]);
            }
            oi += 1;
        }
        proof {
            assert(self.obstacles@.take(no as int) =~= self.obstacles@);
        }
        PathValidity::Flyover(max_height)
    }


    /// Insert one directed tangent edge from node `i` to node `j`: a
    /// landing vertex on `j` at `path.1`, and a vertex on `i` at
    /// `path.0` owning the connection, both spliced into their rings
    /// and numbered consecutively from the shared counter.
    fn insert_edge(
        &mut self,
        i: usize,
        j: usize,
        path: (i64, i64, i64, i64),
        pa: Point,
        pb: Point,
    )
        requires
            old(self).wf(),
            i < old(self).nodes@.len(),
            j < old(self).nodes@.len(),
            i != j,
            path.2 >= 0,
            path.3 >= 0,
        ensures
            final(self).wf(),
            Self::config_unchanged(*old(self), *final(self)),
            final(self).vertices@.len() == old(self).vertices@.len() + 2,
            final(self).num_vertices == old(self).num_vertices + 2,
            final(self).nodes@.len() == old(self).nodes@.len(),
            ({
                let l = old(self).vertices@.len() as int;
                let v = final(self).vertices@[l];
                let u = final(self).vertices@[l + 1];
                &&& v.node == j
                &&& v.angle == path.1
                &&& v.location == pb
                &&& v.connection is None
                &&& !v.sentinel
                &&& u.node == i
                &&& u.angle == path.0
                &&& u.location == pa
                &&& u.connection == Some(
                    Connection { neighbor: l as usize, distance: path.2, threshold: path.3 },
                )
                &&& !u.sentinel
            }),
            final(self).nodes@[j as int].ring@ == old(self).nodes@[j as int].ring@.push(
                old(self).vertices@.len() as usize,
            ),
            final(self).nodes@[i as int].ring@ == old(self).nodes@[i as int].ring@.push(
                (old(self).vertices@.len() + 1) as usize,
            ),
            forall|m: int|
                0 <= m < old(self).nodes@.len() && m != i && m != j ==> final(self).nodes@[m]
                    == old(self).nodes@[m],
            forall|m: int|
                0 <= m < old(self).nodes@.len() ==> (#[trigger] final(self).nodes@[m]).origin
                    == old(self).nodes@[m].origin && final(self).nodes@[m].radius == old(self).nodes@[m].radius && final(self).nodes@[m].height == old(self).nodes@[m].height,
            forall|v: int|
                0 <= v < old(self).vertices@.len() ==> Self::same_but_links(
                    old(self).vertices@[v],
                    #[trigger] final(self).vertices@[v],
                ),
    {
        let (alpha, beta, distance, threshold) = path;
        let v_idx = self.insert_vertex(j, beta, pb, None, false);
        let edge = Connection { neighbor: v_idx, distance, threshold };
        let _u_idx = self.insert_vertex(i, alpha, pa, Some(edge), false);
    }

    /// Insert both directed edges of one accepted tangent: the edge
    /// from `i` to `j` at the given angles, then the reciprocal edge
    /// from `j` to `i` with the polarity-reversed angles of the same
    /// physical line and the identical distance and threshold.
    fn insert_tangent_edges(
        &mut self,
        i: usize,
        j: usize,
        path: (i64, i64, i64, i64),
        pa: Point,
        pb: Point,
    )
        requires
            old(self).wf(),
            i < old(self).nodes@.len(),
            j < old(self).nodes@.len(),
            i != j,
            path.2 >= 0,
            path.3 >= 0,
            -ANG_TWO_PI < path.0 < ANG_TWO_PI,
            -ANG_TWO_PI < path.1 < ANG_TWO_PI,
        ensures
            final(self).wf(),
            Self::config_unchanged(*old(self), *final(self)),
            final(self).vertices@.len() == old(self).vertices@.len() + 4,
            final(self).num_vertices == old(self).num_vertices + 4,
            final(self).nodes@.len() == old(self).nodes@.len(),
            // the edge from i to j, then its reciprocal with reversed
            // polarity and the same distance and threshold
            ({
                let l = old(self).vertices@.len() as int;
                let v = final(self).vertices@[l];
                let u = final(self).vertices@[l + 1];
                let rv = final(self).vertices@[l + 2];
                let ru = final(self).vertices@[l + 3];
                &&& v.node == j && v.angle == path.1 && v.location == pb && v.connection is None
                &&& u.node == i && u.angle == path.0 && u.location == pa
                &&& u.connection == Some(
                    Connection { neighbor: l as usize, distance: path.2, threshold: path.3 },
                )
                &&& rv.node == i && rv.angle as int == reverse_polarity_spec(path.0 as int)
                    && rv.location == pa && rv.connection is None
                &&& ru.node == j && ru.angle as int == reverse_polarity_spec(path.1 as int)
                    && ru.location == pb
                &&& ru.connection == Some(
                    Connection {
                        neighbor: (l + 2) as usize,
                        distance: path.2,
                        threshold: path.3,
                    },
                )
                &&& !v.sentinel && !u.sentinel && !rv.sentinel && !ru.sentinel
            }),
            forall|m: int|
                0 <= m < old(self).nodes@.len() && m != i && m != j ==> final(self).nodes@[m]
                    == old(self).nodes@[m],
            forall|m: int|
                0 <= m < old(self).nodes@.len() ==> (#[trigger] final(self).nodes@[m]).origin
                    == old(self).nodes@[m].origin && final(self).nodes@[m].radius == old(self).nodes@[m].radius && final(self).nodes@[m].height == old(self).nodes@[m].height,
            forall|v: int|
                0 <= v < old(self).vertices@.len() ==> Self::same_but_links(
                    old(self).vertices@[v],
                    #[trigger] final(self).vertices@[v],
                ),
    {
        let (alpha, beta, distance, threshold) = path;
        self.insert_edge(i, j, (alpha, beta, distance, threshold), pa, pb);
        let r_alpha = reverse_polarity(alpha);
        let r_beta = reverse_polarity(beta);
        self.insert_edge(j, i, (r_beta, r_alpha, distance, threshold), pb, pa);
    }


    /// Total number of flyzone sentinel vertices over the first `k`
    /// obstacle break lists: the whole arena of a freshly populated
    /// node set.
    pub open spec fn breaks_total(rows: Seq<Vec<(i64, Point)>>, k: int) -> int
        decreases k,
    {
        if k <= 0 {
            0
        } else {
            Self::breaks_total(rows, k - 1) + rows[k - 1]@.len()
        }
    }

    /// Where node `k` of a build will get its center: the obstacles in
    /// order, then the virtualized boundary nodes.
    pub open spec fn planned_origin(self, virtuals: Seq<Obstacle>, k: int) -> Point {
        if k < self.obstacles@.len() {
            self.obstacles@[k].origin
        } else {
            virtuals[k - self.obstacles@.len()].origin
        }
    }

    /// Where node `k` of a build will get its radius: the obstacle
    /// radius widened by the safety buffer, or the virtual node's own
    /// radius.
    pub open spec fn planned_radius(self, virtuals: Seq<Obstacle>, k: int) -> int {
        if k < self.obstacles@.len() {
            self.obstacles@[k].radius + self.buffer
        } else {
            virtuals[k - self.obstacles@.len()].radius as int
        }
    }

    /// Where node `k` of a build will get its height datum.
    pub open spec fn planned_height(self, virtuals: Seq<Obstacle>, k: int) -> int {
        if k < self.obstacles@.len() {
            self.obstacles@[k].height as int
        } else {
            virtuals[k - self.obstacles@.len()].height as int
        }
    }

    /// Rebuild the node set from scratch: one node per obstacle with
    /// the buffered radius, the flyzone sentinel vertices (angle and
    /// location pairs supplied per obstacle by the boundary helper)
    /// spliced into each ring, and the virtualized boundary nodes
    /// appended.  The vertex arena and counter restart from zero.
    #[verifier::rlimit(100)]
    #[verifier::spinoff_prover]
    pub fn populate_nodes(
        &mut self,
        ring_breaks: &Vec<Vec<(i64, Point)>>,
        virtual_nodes: &Vec<Obstacle>,
    )
        requires
            old(self).inputs_ok(),
            ring_breaks@.len() == old(self).obstacles@.len(),
            forall|k: int|
                0 <= k < virtual_nodes@.len() ==> obstacle_ok(#[trigger] virtual_nodes@[k]),
        ensures
            final(self).wf(),
            Self::config_unchanged(*old(self), *final(self)),
            // the arena is rebuilt from scratch: it holds exactly the
            // flyzone sentinel vertices of this population, nothing of
            // any earlier build
            final(self).vertices@.len() == Self::breaks_total(
                ring_breaks@,
                ring_breaks@.len() as int,
            ),
            final(self).nodes@.len() == old(self).obstacles@.len() + virtual_nodes@.len(),
            forall|k: int|
                0 <= k < final(self).nodes@.len() ==> {
                    &&& node_geom_ok(#[trigger] final(self).nodes@[k])
                    &&& final(self).nodes@[k].origin == final(self).planned_origin(
                        virtual_nodes@,
                        k,
                    )
                    &&& final(self).nodes@[k].radius as int == final(self).planned_radius(
                        virtual_nodes@,
                        k,
                    )
                    &&& final(self).nodes@[k].height as int == final(self).planned_height(
                        virtual_nodes@,
                        k,
                    )
                },
            forall|k: int|
                0 <= k < old(self).obstacles@.len() ==> (#[trigger] final(self).nodes@[k]).ring@
                    .len() == ring_breaks@[k]@.len(),
            forall|k: int, t: int|
                0 <= k < old(self).obstacles@.len() && 0 <= t < ring_breaks@[k]@.len() ==> ({
                    let v = (#[trigger] final(self).nodes@[k].ring@[t]) as int;
                    &&& final(self).vertices@[v].angle == ring_breaks@[k]@[t].0
                    &&& final(self).vertices@[v].location == ring_breaks@[k]@[t].1
                    &&& final(self).vertices@[v].sentinel
                    &&& final(self).vertices@[v].connection is None
                }),
            forall|k: int|
                old(self).obstacles@.len() <= k < final(self).nodes@.len() ==> (#[trigger] final(self).nodes@[k]).ring@.len() == 0,
    {
        self.nodes = Vec::new();
        self.vertices = Vec::new();
        self.num_vertices = 0;
        let nobs = self.obstacles.len();
        let mut k: usize = 0;
        while k < nobs
            invariant
                k <= nobs,
                nobs == self.obstacles@.len(),
                self.inputs_ok(),
                Self::config_unchanged(*old(self), *self),
                self.vertices@.len() == 0,
                self.num_vertices == 0,
                self.nodes@.len() == k,
                forall|t: int|
                    0 <= t < k ==> {
                        &&& (#[trigger] self.nodes@[t]).origin == self.obstacles@[t].origin
                        &&& self.nodes@[t].radius == self.obstacles@[t].radius + self.buffer
                        &&& self.nodes@[t].height == self.obstacles@[t].height
                        &&& self.nodes@[t].ring@.len() == 0
                    },
            decreases nobs - k,
        {
            let ob = self.obstacles[k];
            proof {
                assert(obstacle_ok(self.obstacles@[k as int]));
            }
            let node = Node {
                origin: ob.origin,
                radius: ob.radius + self.buffer,
                height: ob.height,
                ring: Vec::new(),
            };
            self.nodes.push(node);
            k += 1;
        }
        let mut k2: usize = 0;
        while k2 < nobs
            invariant
                k2 <= nobs,
                nobs == self.obstacles@.len(),
                ring_breaks@.len() == nobs,
                self.wf(),
                self.inputs_ok(),
                Self::config_unchanged(*old(self), *self),
                self.nodes@.len() == nobs,
                forall|t: int|
                    0 <= t < nobs ==> {
                        &&& (#[trigger] self.nodes@[t]).origin == self.obstacles@[t].origin
                        &&& self.nodes@[t].radius == self.obstacles@[t].radius + self.buffer
                        &&& self.nodes@[t].height == self.obstacles@[t].height
                    },
                forall|t: int|
                    k2 <= t < nobs ==> (#[trigger] self.nodes@[t]).ring@.len() == 0,
                self.vertices@.len() == Self::breaks_total(ring_breaks@, k2 as int),
                forall|t: int|
                    0 <= t < k2 ==> (#[trigger] self.nodes@[t]).ring@.len() == ring_breaks@[t]@
                        .len(),
                forall|t: int, u: int|
                    0 <= t < k2 && 0 <= u < ring_breaks@[t]@.len() ==> ({
                        let v = (#[trigger] self.nodes@[t].ring@[u]) as int;
                        &&& self.vertices@[v].angle == ring_breaks@[t]@[u].0
                        &&& self.vertices@[v].location == ring_breaks@[t]@[u].1
                        &&& self.vertices@[v].sentinel
                        &&& self.vertices@[v].connection is None
                    }),
            decreases nobs - k2,
        {
            let breaks = &ring_breaks[k2];
            let nb = breaks.len();
            let mut j: usize = 0;
            while j < nb
                invariant
                    j <= nb,
                    nb == breaks@.len(),
                    breaks@ == ring_breaks@[k2 as int]@,
                    k2 < nobs,
                    nobs == self.obstacles@.len(),
                    ring_breaks@.len() == nobs,
                    self.wf(),
                    self.inputs_ok(),
                    Self::config_unchanged(*old(self), *self),
                    self.nodes@.len() == nobs,
                    forall|t: int|
                        0 <= t < nobs ==> {
                            &&& (#[trigger] self.nodes@[t]).origin == self.obstacles@[t].origin
                            &&& self.nodes@[t].radius == self.obstacles@[t].radius + self.buffer
                            &&& self.nodes@[t].height == self.obstacles@[t].height
                        },
                    forall|t: int|
                        k2 < t < nobs ==> (#[trigger] self.nodes@[t]).ring@.len() == 0,
                    self.nodes@[k2 as int].ring@.len() == j,
                    self.vertices@.len() == Self::breaks_total(ring_breaks@, k2 as int) + j,
                    forall|t: int|
                        0 <= t < k2 ==> (#[trigger] self.nodes@[t]).ring@.len()
                            == ring_breaks@[t]@.len(),
                    forall|t: int, u: int|
                        0 <= t < k2 && 0 <= u < ring_breaks@[t]@.len() ==> ({
                            let v = (#[trigger] self.nodes@[t].ring@[u]) as int;
                            &&& self.vertices@[v].angle == ring_breaks@[t]@[u].0
                            &&& self.vertices@[v].location == ring_breaks@[t]@[u].1
                            &&& self.vertices@[v].sentinel
                            &&& self.vertices@[v].connection is None
                        }),
                    forall|u: int|
                        0 <= u < j ==> ({
                            let v = (#[trigger] self.nodes@[k2 as int].ring@[u]) as int;
                            &&& self.vertices@[v].angle == breaks@[u].0
                            &&& self.vertices@[v].location == breaks@[u].1
                            &&& self.vertices@[v].sentinel
                            &&& self.vertices@[v].connection is None
                        }),
                decreases nb - j,
            {
                let br = breaks[j];
                self.insert_vertex(k2, br.0, br.1, None, true);
                j += 1;
            }
            k2 += 1;
        }
        let nv = virtual_nodes.len();
        let mut k3: usize = 0;
        while k3 < nv
            invariant
                k3 <= nv,
                nv == virtual_nodes@.len(),
                nobs == self.obstacles@.len(),
                ring_breaks@.len() == nobs,
                forall|t: int|
                    0 <= t < nv ==> obstacle_ok(#[trigger] virtual_nodes@[t]),
                self.wf(),
                self.inputs_ok(),
                Self::config_unchanged(*old(self), *self),
                self.nodes@.len() == nobs + k3,
                self.vertices@.len() == Self::breaks_total(ring_breaks@, nobs as int),
                forall|t: int|
                    0 <= t < nobs ==> {
                        &&& (#[trigger] self.nodes@[t]).origin == self.obstacles@[t].origin
                        &&& self.nodes@[t].radius == self.obstacles@[t].radius + self.buffer
                        &&& self.nodes@[t].height == self.obstacles@[t].height
                        &&& self.nodes@[t].ring@.len() == ring_breaks@[t]@.len()
                    },
                forall|t: int, u: int|
                    0 <= t < nobs && 0 <= u < ring_breaks@[t]@.len() ==> ({
                        let v = (#[trigger] self.nodes@[t].ring@[u]) as int;
                        &&& self.vertices@[v].angle == ring_breaks@[t]@[u].0
                        &&& self.vertices@[v].location == ring_breaks@[t]@[u].1
                        &&& self.vertices@[v].sentinel
                        &&& self.vertices@[v].connection is None
                    }),
                forall|t: int|
                    nobs <= t < nobs + k3 ==> {
                        &&& (#[trigger] self.nodes@[t]).origin == virtual_nodes@[t - nobs].origin
                        &&& self.nodes@[t].radius == virtual_nodes@[t - nobs].radius
                        &&& self.nodes@[t].height == virtual_nodes@[t - nobs].height
                        &&& self.nodes@[t].ring@.len() == 0
                    },
            decreases nv - k3,
        {
            let vn = virtual_nodes[k3];
            self.nodes.push(
                Node { origin: vn.origin, radius: vn.radius, height: vn.height, ring: Vec::new() },
            );
            k3 += 1;
        }
    }


    /// Run one node pair through the tangent engine and the validator,
    /// and splice the results into the graph: each accepted tangent
    /// becomes two directed edges (the second with polarity-reversed
    /// angles and identical weight), and on the degenerate branch each
    /// sentinel angle pair becomes one bare ring vertex on each node.
    #[verifier::rlimit(100)]
    #[verifier::spinoff_prover]
    fn process_pair(&mut self, i: usize, j: usize, pd: &PairData) -> (res: Result<(), PathError>)
        requires
            old(self).wf(),
            old(self).inputs_ok(),
            i < old(self).nodes@.len(),
            j < old(self).nodes@.len(),
            i != j,
            node_geom_ok(old(self).nodes@[i as int]),
            node_geom_ok(old(self).nodes@[j as int]),
            trig_ok(pd.trig),
            !centers_coincide(
                old(self).nodes@[i as int].origin,
                old(self).nodes@[j as int].origin,
            ) ==> pd.endpoints@.len() == cand_count(
                old(self).nodes@[i as int].origin,
                old(self).nodes@[i as int].radius as int,
                old(self).nodes@[j as int].origin,
                old(self).nodes@[j as int].radius as int,
            ),
            forall|k: int|
                0 <= k < pd.endpoints@.len() ==> point_ok((#[trigger] pd.endpoints@[k]).0)
                    && point_ok(pd.endpoints@[k].1),
            !inner_ok(
                old(self).nodes@[i as int].origin,
                old(self).nodes@[i as int].radius as int,
                old(self).nodes@[j as int].origin,
                old(self).nodes@[j as int].radius as int,
            ) ==> pd.sentinel_points@.len() >= 4,
        ensures
            final(self).wf(),
            Self::config_unchanged(*old(self), *final(self)),
            final(self).nodes@.len() == old(self).nodes@.len(),
            res is Err <==> centers_coincide(
                old(self).nodes@[i as int].origin,
                old(self).nodes@[j as int].origin,
            ),
            res is Err ==> *final(self) == *old(self) && res->Err_0
                == PathError::InvalidGeometry,
            forall|m: int|
                0 <= m < old(self).nodes@.len() && m != i && m != j ==> final(self).nodes@[m]
                    == old(self).nodes@[m],
            forall|m: int|
                0 <= m < old(self).nodes@.len() ==> (#[trigger] final(self).nodes@[m]).origin
                    == old(self).nodes@[m].origin && final(self).nodes@[m].radius == old(self).nodes@[m].radius && final(self).nodes@[m].height == old(self).nodes@[m].height,
            forall|v: int|
                0 <= v < old(self).vertices@.len() ==> Self::same_but_links(
                    old(self).vertices@[v],
                    #[trigger] final(self).vertices@[v],
                ),
            final(self).vertices@.len() >= old(self).vertices@.len(),
            // four vertices per accepted tangent (two per directed
            // edge), plus one sentinel vertex on each node per sentinel
            // pair of the degenerate branch
            res is Ok ==> final(self).vertices@.len() == old(self).vertices@.len() + 4
                * accepted_upto(
                deep_points(old(self).flyzones@),
                old(self).obstacles@,
                old(self).nodes@[i as int].radius as int,
                old(self).nodes@[j as int].radius as int,
                pd.trig,
                pd.endpoints@,
                cand_count(
                    old(self).nodes@[i as int].origin,
                    old(self).nodes@[i as int].radius as int,
                    old(self).nodes@[j as int].origin,
                    old(self).nodes@[j as int].radius as int,
                ),
            ).len() + (if inner_ok(
                old(self).nodes@[i as int].origin,
                old(self).nodes@[i as int].radius as int,
                old(self).nodes@[j as int].origin,
                old(self).nodes@[j as int].radius as int,
            ) {
                0int
            } else {
                8int
            }),
            // the pair's whole contribution, edge blocks then sentinel
            // blocks, stands at the end of the arena
            res is Ok ==> pair_content_ok(
                final(self).vertices@,
                deep_points(old(self).flyzones@),
                old(self).obstacles@,
                old(self).nodes@[i as int].origin,
                old(self).nodes@[i as int].radius as int,
                old(self).nodes@[j as int].origin,
                old(self).nodes@[j as int].radius as int,
                *pd,
                i as int,
                j as int,
                old(self).vertices@.len() as int,
            ),
    {
        let ghost zones = deep_points(old(self).flyzones@);
        let ghost obs = old(self).obstacles@;
        let ghost o1 = old(self).nodes@[i as int].origin;
        let ghost r1 = old(self).nodes@[i as int].radius as int;
        let ghost o2 = old(self).nodes@[j as int].origin;
        let ghost r2 = old(self).nodes@[j as int].radius as int;
        let ghost l = old(self).vertices@.len() as int;
        let (cands, sents) = match tangent_candidates(&self.nodes[i], &self.nodes[j], &pd.trig) {
            Ok(p) => p,
            Err(e) => {
                return Err(e);
            },
        };
        let nc = cands.len();
        proof {
            reveal_with_fuel(accepted_upto, 1);
        }
        let mut k: usize = 0;
        while k < nc
            invariant
                k <= nc,
                nc == cands@.len(),
                self.wf(),
                self.inputs_ok(),
                Self::config_unchanged(*old(self), *self),
                i < self.nodes@.len(),
                j < self.nodes@.len(),
                i != j,
                self.nodes@.len() == old(self).nodes@.len(),
                nc == pd.endpoints@.len(),
                forall|kk: int|
                    0 <= kk < pd.endpoints@.len() ==> point_ok((#[trigger] pd.endpoints@[kk]).0)
                        && point_ok(pd.endpoints@[kk].1),
                forall|kk: int|
                    0 <= kk < cands@.len() ==> -ANG_TWO_PI < (#[trigger] cands@[kk]).0
                        < ANG_TWO_PI && -ANG_TWO_PI < cands@[kk].1 < ANG_TWO_PI,
                forall|kk: int|
                    0 <= kk < cands@.len() ==> (#[trigger] cands@[kk]).0 as int == cand_pair(
                        r1,
                        r2,
                        pd.trig,
                        kk,
                    ).0 && cands@[kk].1 as int == cand_pair(r1, r2, pd.trig, kk).1,
                forall|m: int|
                    0 <= m < old(self).nodes@.len() && m != i && m != j ==> self.nodes@[m] == old(self).nodes@[m],
                forall|m: int|
                    0 <= m < old(self).nodes@.len() ==> (#[trigger] self.nodes@[m]).origin == old(self).nodes@[m].origin && self.nodes@[m].radius == old(self).nodes@[m].radius
                        && self.nodes@[m].height == old(self).nodes@[m].height,
                forall|v: int|
                    0 <= v < old(self).vertices@.len() ==> Self::same_but_links(
                        old(self).vertices@[v],
                        #[trigger] self.vertices@[v],
                    ),
                self.vertices@.len() >= old(self).vertices@.len(),
                zones == deep_points(old(self).flyzones@),
                obs == old(self).obstacles@,
                o1 == old(self).nodes@[i as int].origin,
                r1 == old(self).nodes@[i as int].radius as int,
                o2 == old(self).nodes@[j as int].origin,
                r2 == old(self).nodes@[j as int].radius as int,
                l == old(self).vertices@.len() as int,
                self.vertices@.len() == l + 4 * accepted_upto(
                    zones,
                    obs,
                    r1,
                    r2,
                    pd.trig,
                    pd.endpoints@,
                    k as int,
                ).len(),
                forall|q: int|
                    0 <= q < accepted_upto(
                        zones,
                        obs,
                        r1,
                        r2,
                        pd.trig,
                        pd.endpoints@,
                        k as int,
                    ).len() ==> edge_block_ok(
                        self.vertices@,
                        l + 4 * q,
                        i as int,
                        j as int,
                        #[trigger] accepted_upto(
                            zones,
                            obs,
                            r1,
                            r2,
                            pd.trig,
                            pd.endpoints@,
                            k as int,
                        )[q],
                    ),
            decreases nc - k,
        {
            let ghost vs0 = self.vertices@;
            let p1 = pd.endpoints[k].0;
            let p2 = pd.endpoints[k].1;
            match self.valid_path(&p1, &p2) {
                PathValidity::Invalid => {
                    proof {
                        assert(deep_points(self.flyzones@) == zones);
                        assert(self.obstacles@ == obs);
                        lemma_accept_step(
                            vs0,
                            self.vertices@,
                            zones,
                            obs,
                            r1,
                            r2,
                            pd.trig,
                            pd.endpoints@,
                            k as int,
                            l,
                            i as int,
                            j as int,
                            false,
                            (0, 0, 0, 0),
                        );
                    }
                },
                PathValidity::Flyover(h) => {
                    let d = Self::planar_distance(&p1, &p2);
                    self.insert_tangent_edges(i, j, (cands[k].0, cands[k].1, d, h), p1, p2);
                    proof {
                        assert(deep_points(self.flyzones@) == zones);
                        assert(self.obstacles@ == obs);
                        assert(edge_block_ok(
                            self.vertices@,
                            vs0.len() as int,
                            i as int,
                            j as int,
                            (cands@[k as int].0, cands@[k as int].1, d, h),
                        ));
                        lemma_accept_step(
                            vs0,
                            self.vertices@,
                            zones,
                            obs,
                            r1,
                            r2,
                            pd.trig,
                            pd.endpoints@,
                            k as int,
                            l,
                            i as int,
                            j as int,
                            true,
                            (cands@[k as int].0, cands@[k as int].1, d, h),
                        );
                    }
                },
                PathValidity::Valid => {
                    // an explicit Valid carries no threshold
                    let d = Self::planar_distance(&p1, &p2);
                    self.insert_tangent_edges(i, j, (cands[k].0, cands[k].1, d, 0), p1, p2);
                    proof {
                        assert(deep_points(self.flyzones@) == zones);
                        assert(self.obstacles@ == obs);
                        assert(edge_block_ok(
                            self.vertices@,
                            vs0.len() as int,
                            i as int,
                            j as int,
                            (cands@[k as int].0, cands@[k as int].1, d, 0),
                        ));
                        lemma_accept_step(
                            vs0,
                            self.vertices@,
                            zones,
                            obs,
                            r1,
                            r2,
                            pd.trig,
                            pd.endpoints@,
                            k as int,
                            l,
                            i as int,
                            j as int,
                            true,
                            (cands@[k as int].0, cands@[k as int].1, d, 0),
                        );
                    }
                },
            }
            k += 1;
        }
        match sents {
            Some(s) => {
                let mut k2: usize = 0;
                while k2 < 4
                    invariant
                        k2 <= 4,
                        s@.len() == 4,
                        pd.sentinel_points@.len() >= 4,
                        self.wf(),
                        self.inputs_ok(),
                        Self::config_unchanged(*old(self), *self),
                        i < self.nodes@.len(),
                        j < self.nodes@.len(),
                        i != j,
                        self.nodes@.len() == old(self).nodes@.len(),
                        zones == deep_points(old(self).flyzones@),
                        obs == old(self).obstacles@,
                        r1 == old(self).nodes@[i as int].radius as int,
                        r2 == old(self).nodes@[j as int].radius as int,
                        l == old(self).vertices@.len() as int,
                        !inner_ok(o1, r1, o2, r2),
                        forall|q: int|
                            0 <= q < 4 ==> ((#[trigger] s@[q]).0 as int, s@[q].1 as int)
                                == sentinel_pair(pd.trig, q),
                        forall|m: int|
                            0 <= m < old(self).nodes@.len() && m != i && m != j
                                ==> self.nodes@[m] == old(self).nodes@[m],
                        forall|m: int|
                            0 <= m < old(self).nodes@.len() ==> (#[trigger] self.nodes@[m]).origin == old(self).nodes@[m].origin && self.nodes@[m].radius == old(self).nodes@[m].radius && self.nodes@[m].height == old(self).nodes@[m].height,
                        forall|v: int|
                            0 <= v < old(self).vertices@.len() ==> Self::same_but_links(
                                old(self).vertices@[v],
                                #[trigger] self.vertices@[v],
                            ),
                        self.vertices@.len() >= old(self).vertices@.len(),
                        self.vertices@.len() == l + 4 * accepted_upto(
                            zones,
                            obs,
                            r1,
                            r2,
                            pd.trig,
                            pd.endpoints@,
                            pd.endpoints@.len() as int,
                        ).len() + 2 * k2,
                        forall|q: int|
                            0 <= q < accepted_upto(
                                zones,
                                obs,
                                r1,
                                r2,
                                pd.trig,
                                pd.endpoints@,
                                pd.endpoints@.len() as int,
                            ).len() ==> edge_block_ok(
                                self.vertices@,
                                l + 4 * q,
                                i as int,
                                j as int,
                                #[trigger] accepted_upto(
                                    zones,
                                    obs,
                                    r1,
                                    r2,
                                    pd.trig,
                                    pd.endpoints@,
                                    pd.endpoints@.len() as int,
                                )[q],
                            ),
                        forall|q: int|
                            0 <= q < k2 ==> sentinel_block_ok(
                                self.vertices@,
                                l + 4 * accepted_upto(
                                    zones,
                                    obs,
                                    r1,
                                    r2,
                                    pd.trig,
                                    pd.endpoints@,
                                    pd.endpoints@.len() as int,
                                ).len() + 2 * q,
                                i as int,
                                j as int,
                                #[trigger] sentinel_pair(pd.trig, q),
                                pd.sentinel_points@[q],
                            ),
                    decreases 4 - k2,
                {
                    let ghost vs0 = self.vertices@;
                    let sa = s[k2];
                    let sp = pd.sentinel_points[k2];
                    self.insert_vertex(i, sa.0, sp.0, None, true);
                    let ghost mid = self.vertices@;
                    self.insert_vertex(j, sa.1, sp.1, None, true);
                    proof {
                        assert forall|v: int|
                            0 <= v < vs0.len() implies Self::same_but_links(
                            vs0[v],
                            #[trigger] self.vertices@[v],
                        ) by {
                            assert(Self::same_but_links(vs0[v], mid[v]));
                            assert(Self::same_but_links(mid[v], self.vertices@[v]));
                        }
                        assert(Self::same_but_links(mid[vs0.len() as int], self.vertices@[vs0.len() as int]));
                        assert(sentinel_block_ok(
                            self.vertices@,
                            vs0.len() as int,
                            i as int,
                            j as int,
                            sentinel_pair(pd.trig, k2 as int),
                            pd.sentinel_points@[k2 as int],
                        ));
                        lemma_sentinel_step(
                            vs0,
                            self.vertices@,
                            accepted_upto(
                                zones,
                                obs,
                                r1,
                                r2,
                                pd.trig,
                                pd.endpoints@,
                                pd.endpoints@.len() as int,
                            ),
                            pd.trig,
                            pd.sentinel_points@,
                            k2 as int,
                            l,
                            i as int,
                            j as int,
                        );
                    }
                    k2 += 1;
                }
            },
            None => {
                proof {
                    assert(inner_ok(o1, r1, o2, r2));
                }
            },
        }
        proof {
            reveal(pair_content_ok);
            assert(pd.endpoints@.len() as int == cand_count(o1, r1, o2, r2));
            assert(pair_content_ok(
                self.vertices@,
                zones,
                obs,
                o1,
                r1,
                o2,
                r2,
                *pd,
                i as int,
                j as int,
                l,
            ));
        }
        Ok(())
    }

    /// Build the whole visibility graph: repopulate the node set, then
    /// run every unordered node pair through the tangent engine and the
    /// validator, inserting both directed edges of each accepted
    /// tangent and the sentinel vertices of each degenerate pair.  The
    /// caller supplies one `PairData` per pair, row `i` holding the
    /// pairs `(i, j)` for `j > i` in order.  Fails with
    /// `InvalidGeometry` on the first pair whose centers coincide.
    pub fn build_graph(
        &mut self,
        ring_breaks: &Vec<Vec<(i64, Point)>>,
        virtual_nodes: &Vec<Obstacle>,
        pair_inputs: &Vec<Vec<PairData>>,
    ) -> (res: Result<(), PathError>)
        requires
            old(self).inputs_ok(),
            ring_breaks@.len() == old(self).obstacles@.len(),
            forall|k: int|
                0 <= k < virtual_nodes@.len() ==> obstacle_ok(#[trigger] virtual_nodes@[k]),
            pair_inputs@.len() == old(self).obstacles@.len() + virtual_nodes@.len(),
            forall|i: int|
                0 <= i < pair_inputs@.len() ==> (#[trigger] pair_inputs@[i]@).len()
                    == pair_inputs@.len() - 1 - i,
            forall|i: int, d: int|
                0 <= i < pair_inputs@.len() && 0 <= d < pair_inputs@.len() - 1 - i ==> ({
                    let pd = #[trigger] pair_inputs@[i]@[d];
                    let jj = i + 1 + d;
                    &&& trig_ok(pd.trig)
                    &&& (!centers_coincide(
                        old(self).planned_origin(virtual_nodes@, i),
                        old(self).planned_origin(virtual_nodes@, jj),
                    ) ==> pd.endpoints@.len() == cand_count(
                        old(self).planned_origin(virtual_nodes@, i),
                        old(self).planned_radius(virtual_nodes@, i),
                        old(self).planned_origin(virtual_nodes@, jj),
                        old(self).planned_radius(virtual_nodes@, jj),
                    ))
                    &&& (forall|k: int|
                        0 <= k < pd.endpoints@.len() ==> point_ok((#[trigger] pd.endpoints@[k]).0)
                            && point_ok(pd.endpoints@[k].1))
                    &&& (!inner_ok(
                        old(self).planned_origin(virtual_nodes@, i),
                        old(self).planned_radius(virtual_nodes@, i),
                        old(self).planned_origin(virtual_nodes@, jj),
                        old(self).planned_radius(virtual_nodes@, jj),
                    ) ==> pd.sentinel_points@.len() >= 4)
                }),
        ensures
            Self::config_unchanged(*old(self), *final(self)),
            // building without a usable boundary is fatal at build
            // start: nothing is populated or inserted
            !planar_boundary_ok(deep_points(old(self).flyzones@)) ==> res is Err && res->Err_0
                == PathError::InsufficientBoundary && *final(self) == *old(self),
            planar_boundary_ok(deep_points(old(self).flyzones@)) ==> ({
                let n = old(self).obstacles@.len() + virtual_nodes@.len();
                let bt = Self::breaks_total(ring_breaks@, ring_breaks@.len() as int);
                let total = rows_growth(*old(self), virtual_nodes@, pair_inputs@, 0, n as int);
                &&& final(self).wf()
                &&& (res is Err ==> res->Err_0 == PathError::InvalidGeometry)
                &&& final(self).nodes@.len() == n
                &&& forall|k: int|
                    0 <= k < final(self).nodes@.len() ==> {
                        &&& node_geom_ok(#[trigger] final(self).nodes@[k])
                        &&& final(self).nodes@[k].origin == final(self).planned_origin(
                            virtual_nodes@,
                            k,
                        )
                        &&& final(self).nodes@[k].radius as int == final(self).planned_radius(
                            virtual_nodes@,
                            k,
                        )
                        &&& final(self).nodes@[k].height as int == final(self).planned_height(
                            virtual_nodes@,
                            k,
                        )
                    }
                &&& forall|v: int|
                    0 <= v < final(self).vertices@.len() ==> (#[trigger] final(self).vertices@[v]).index == v
                // the build succeeds exactly when no two planned node
                // centers coincide
                &&& (res is Ok <==> forall|ii: int, jj: int|
                    0 <= ii < jj < n ==> !centers_coincide(
                        #[trigger] old(self).planned_origin(virtual_nodes@, ii),
                        #[trigger] old(self).planned_origin(virtual_nodes@, jj),
                    ))
                // the arena is rebuilt from zero: exactly this build's
                // flyzone sentinels followed by each pair's
                // contribution, nothing of any earlier build
                &&& (res is Ok ==> final(self).vertices@.len() == bt + total)
                // every pair's accepted tangents stand as their two
                // directed edges, and every degenerate pair's four
                // sentinel angle pairs as bare ring vertices, at the
                // pair's slot of the arena
                &&& (res is Ok ==> forall|ii: int, jj: int|
                    0 <= ii < jj < n ==> pair_content_ok(
                        final(self).vertices@,
                        deep_points(old(self).flyzones@),
                        old(self).obstacles@,
                        old(self).planned_origin(virtual_nodes@, ii),
                        old(self).planned_radius(virtual_nodes@, ii),
                        old(self).planned_origin(virtual_nodes@, jj),
                        old(self).planned_radius(virtual_nodes@, jj),
                        #[trigger] pair_inputs@[ii]@[jj - ii - 1],
                        ii,
                        jj,
                        bt + total - row_growth(
                            *old(self),
                            virtual_nodes@,
                            pair_inputs@,
                            ii,
                            jj,
                            n as int,
                        ) - rows_growth(*old(self), virtual_nodes@, pair_inputs@, ii + 1, n as int),
                    ))
            }),
    {
        let nz = self.flyzones.len();
        if nz == 0 {
            return Err(PathError::InsufficientBoundary);
        }
        let mut bi: usize = 0;
        while bi < nz
            invariant
                bi <= nz,
                nz == self.flyzones@.len(),
                *self == *old(self),
                forall|t: int| 0 <= t < bi ==> deep_points(self.flyzones@)[t].len() >= 3,
            decreases nz - bi,
        {
            if self.flyzones[bi].len() < 3 {
                proof {
                    assert(deep_points(self.flyzones@)[bi as int].len() < 3);
                }
                return Err(PathError::InsufficientBoundary);
            }
            bi += 1;
        }
        proof {
            assert(planar_boundary_ok(deep_points(self.flyzones@)));
        }
        self.populate_nodes(ring_breaks, virtual_nodes);
        let n = self.nodes.len();
        let ghost bt = Self::breaks_total(ring_breaks@, ring_breaks@.len() as int);
        let ghost total = rows_growth(*old(self), virtual_nodes@, pair_inputs@, 0, n as int);
        proof {
            assert(rows_growth(*old(self), virtual_nodes@, pair_inputs@, n as int, n as int)
                == 0);
        }
        let mut i: usize = 0;
        while i < n
            invariant
                i <= n,
                n == self.nodes@.len(),
                n == pair_inputs@.len(),
                n == old(self).obstacles@.len() + virtual_nodes@.len(),
                planar_boundary_ok(deep_points(old(self).flyzones@)),
                self.wf(),
                self.inputs_ok(),
                Self::config_unchanged(*old(self), *self),
                forall|k: int|
                    0 <= k < n ==> {
                        &&& node_geom_ok(#[trigger] self.nodes@[k])
                        &&& self.nodes@[k].origin == self.planned_origin(virtual_nodes@, k)
                        &&& self.nodes@[k].radius as int == self.planned_radius(
                            virtual_nodes@,
                            k,
                        )
                        &&& self.nodes@[k].height as int == self.planned_height(
                            virtual_nodes@,
                            k,
                        )
                    },
                forall|ii: int, jj: int|
                    0 <= ii < i && ii < jj < n ==> !centers_coincide(
                        #[trigger] old(self).planned_origin(virtual_nodes@, ii),
                        #[trigger] old(self).planned_origin(virtual_nodes@, jj),
                    ),
                bt == Self::breaks_total(ring_breaks@, ring_breaks@.len() as int),
                total == rows_growth(*old(self), virtual_nodes@, pair_inputs@, 0, n as int),
                self.vertices@.len() == bt + total - rows_growth(
                    *old(self),
                    virtual_nodes@,
                    pair_inputs@,
                    i as int,
                    n as int,
                ),
                forall|ii: int, jj: int|
                    0 <= ii < jj < n && ii < i ==> pair_content_ok(
                        self.vertices@,
                        deep_points(old(self).flyzones@),
                        old(self).obstacles@,
                        old(self).planned_origin(virtual_nodes@, ii),
                        old(self).planned_radius(virtual_nodes@, ii),
                        old(self).planned_origin(virtual_nodes@, jj),
                        old(self).planned_radius(virtual_nodes@, jj),
                        #[trigger] pair_inputs@[ii]@[jj - ii - 1],
                        ii,
                        jj,
                        bt + total - row_growth(
                            *old(self),
                            virtual_nodes@,
                            pair_inputs@,
                            ii,
                            jj,
                            n as int,
                        ) - rows_growth(*old(self), virtual_nodes@, pair_inputs@, ii + 1, n as int),
                    ),
                forall|ii: int|
                    0 <= ii < pair_inputs@.len() ==> (#[trigger] pair_inputs@[ii]@).len()
                        == pair_inputs@.len() - 1 - ii,
                forall|ii: int, d: int|
                    0 <= ii < pair_inputs@.len() && 0 <= d < pair_inputs@.len() - 1 - ii ==> ({
                        let pd = #[trigger] pair_inputs@[ii]@[d];
                        let jj = ii + 1 + d;
                        &&& trig_ok(pd.trig)
                        &&& (!centers_coincide(
                            self.planned_origin(virtual_nodes@, ii),
                            self.planned_origin(virtual_nodes@, jj),
                        ) ==> pd.endpoints@.len() == cand_count(
                            self.planned_origin(virtual_nodes@, ii),
                            self.planned_radius(virtual_nodes@, ii),
                            self.planned_origin(virtual_nodes@, jj),
                            self.planned_radius(virtual_nodes@, jj),
                        ))
                        &&& (forall|k: int|
                            0 <= k < pd.endpoints@.len() ==> point_ok(
                                (#[trigger] pd.endpoints@[k]).0,
                            ) && point_ok(pd.endpoints@[k].1))
                        &&& (!inner_ok(
                            self.planned_origin(virtual_nodes@, ii),
                            self.planned_radius(virtual_nodes@, ii),
                            self.planned_origin(virtual_nodes@, jj),
                            self.planned_radius(virtual_nodes@, jj),
                        ) ==> pd.sentinel_points@.len() >= 4)
                    }),
            decreases n - i,
        {
            let mut j: usize = i + 1;
            while j < n
                invariant
                    i < n,
                    i < j,
                    j <= n,
                    n == self.nodes@.len(),
                    n == pair_inputs@.len(),
                    n == old(self).obstacles@.len() + virtual_nodes@.len(),
                    planar_boundary_ok(deep_points(old(self).flyzones@)),
                    self.wf(),
                    self.inputs_ok(),
                    Self::config_unchanged(*old(self), *self),
                    forall|k: int|
                        0 <= k < n ==> {
                            &&& node_geom_ok(#[trigger] self.nodes@[k])
                            &&& self.nodes@[k].origin == self.planned_origin(virtual_nodes@, k)
                            &&& self.nodes@[k].radius as int == self.planned_radius(
                                virtual_nodes@,
                                k,
                            )
                            &&& self.nodes@[k].height as int == self.planned_height(
                                virtual_nodes@,
                                k,
                            )
                        },
                    forall|ii: int, jj: int|
                        0 <= ii < i && ii < jj < n ==> !centers_coincide(
                            #[trigger] old(self).planned_origin(virtual_nodes@, ii),
                            #[trigger] old(self).planned_origin(virtual_nodes@, jj),
                        ),
                    forall|jj: int|
                        i < jj < j ==> !centers_coincide(
                            old(self).planned_origin(virtual_nodes@, i as int),
                            #[trigger] old(self).planned_origin(virtual_nodes@, jj),
                        ),
                    bt == Self::breaks_total(ring_breaks@, ring_breaks@.len() as int),
                    total == rows_growth(*old(self), virtual_nodes@, pair_inputs@, 0, n as int),
                    self.vertices@.len() == bt + total - row_growth(
                        *old(self),
                        virtual_nodes@,
                        pair_inputs@,
                        i as int,
                        j as int,
                        n as int,
                    ) - rows_growth(*old(self), virtual_nodes@, pair_inputs@, i as int + 1, n as int),
                    forall|ii: int, jj: int|
                        0 <= ii < jj < n && (ii < i || (ii == i && jj < j)) ==> pair_content_ok(
                            self.vertices@,
                            deep_points(old(self).flyzones@),
                            old(self).obstacles@,
                            old(self).planned_origin(virtual_nodes@, ii),
                            old(self).planned_radius(virtual_nodes@, ii),
                            old(self).planned_origin(virtual_nodes@, jj),
                            old(self).planned_radius(virtual_nodes@, jj),
                            #[trigger] pair_inputs@[ii]@[jj - ii - 1],
                            ii,
                            jj,
                            bt + total - row_growth(
                                *old(self),
                                virtual_nodes@,
                                pair_inputs@,
                                ii,
                                jj,
                                n as int,
                            ) - rows_growth(
                                *old(self),
                                virtual_nodes@,
                                pair_inputs@,
                                ii + 1,
                                n as int,
                            ),
                        ),
                    forall|ii: int|
                        0 <= ii < pair_inputs@.len() ==> (#[trigger] pair_inputs@[ii]@).len()
                            == pair_inputs@.len() - 1 - ii,
                    forall|ii: int, d: int|
                        0 <= ii < pair_inputs@.len() && 0 <= d < pair_inputs@.len() - 1 - ii
                            ==> ({
                            let pd = #[trigger] pair_inputs@[ii]@[d];
                            let jj = ii + 1 + d;
                            &&& trig_ok(pd.trig)
                            &&& (!centers_coincide(
                                self.planned_origin(virtual_nodes@, ii),
                                self.planned_origin(virtual_nodes@, jj),
                            ) ==> pd.endpoints@.len() == cand_count(
                                self.planned_origin(virtual_nodes@, ii),
                                self.planned_radius(virtual_nodes@, ii),
                                self.planned_origin(virtual_nodes@, jj),
                                self.planned_radius(virtual_nodes@, jj),
                            ))
                            &&& (forall|k: int|
                                0 <= k < pd.endpoints@.len() ==> point_ok(
                                    (#[trigger] pd.endpoints@[k]).0,
                                ) && point_ok(pd.endpoints@[k].1))
                            &&& (!inner_ok(
                                self.planned_origin(virtual_nodes@, ii),
                                self.planned_radius(virtual_nodes@, ii),
                                self.planned_origin(virtual_nodes@, jj),
                                self.planned_radius(virtual_nodes@, jj),
                            ) ==> pd.sentinel_points@.len() >= 4)
                        }),
                decreases n - j,
            {
                let pd = &pair_inputs[i][j - i - 1];
                let before_i = Ghost(self.nodes@[i as int].origin);
                let before_j = Ghost(self.nodes@[j as int].origin);
                let ghost vsb = self.vertices@;
                let ghost callee = *self;
                proof {
                    assert(before_i@ == old(self).planned_origin(virtual_nodes@, i as int));
                    assert(before_j@ == old(self).planned_origin(virtual_nodes@, j as int));
                }
                match self.process_pair(i, j, pd) {
                    Ok(()) => {
                        proof {
                            assert(!centers_coincide(before_i@, before_j@));
                            assert(deep_points(callee.flyzones@) == deep_points(
                                old(self).flyzones@,
                            ));
                            assert(callee.obstacles@ == old(self).obstacles@);
                            assert(callee.planned_origin(virtual_nodes@, i as int) == old(self).planned_origin(virtual_nodes@, i as int));
                            assert(callee.planned_radius(virtual_nodes@, i as int) == old(self).planned_radius(virtual_nodes@, i as int));
                            assert(callee.planned_origin(virtual_nodes@, j as int) == old(self).planned_origin(virtual_nodes@, j as int));
                            assert(callee.planned_radius(virtual_nodes@, j as int) == old(self).planned_radius(virtual_nodes@, j as int));
                            assert(self.vertices@.len() == vsb.len() + pair_growth_of(
                                deep_points(old(self).flyzones@),
                                old(self).obstacles@,
                                old(self).planned_origin(virtual_nodes@, i as int),
                                old(self).planned_radius(virtual_nodes@, i as int),
                                old(self).planned_origin(virtual_nodes@, j as int),
                                old(self).planned_radius(virtual_nodes@, j as int),
                                pair_inputs@[i as int]@[j - i - 1],
                            ));
                            assert(pair_content_ok(
                                self.vertices@,
                                deep_points(old(self).flyzones@),
                                old(self).obstacles@,
                                old(self).planned_origin(virtual_nodes@, i as int),
                                old(self).planned_radius(virtual_nodes@, i as int),
                                old(self).planned_origin(virtual_nodes@, j as int),
                                old(self).planned_radius(virtual_nodes@, j as int),
                                pair_inputs@[i as int]@[j - i - 1],
                                i as int,
                                j as int,
                                vsb.len() as int,
                            ));
                            lemma_build_step(
                                vsb,
                                self.vertices@,
                                *old(self),
                                virtual_nodes@,
                                pair_inputs@,
                                i as int,
                                j as int,
                                n as int,
                                bt,
                                total,
                            );
                        }
                    },
                    Err(e) => {
                        proof {
                            assert(centers_coincide(before_i@, before_j@));
                        }
                        return Err(e);
                    },
                }
                j += 1;
            }
            proof {
                assert(row_growth(
                    *old(self),
                    virtual_nodes@,
                    pair_inputs@,
                    i as int,
                    n as int,
                    n as int,
                ) == 0);
                assert(rows_growth(*old(self), virtual_nodes@, pair_inputs@, i as int, n as int)
                    == row_growth(
                    *old(self),
                    virtual_nodes@,
                    pair_inputs@,
                    i as int,
                    i as int + 1,
                    n as int,
                ) + rows_growth(*old(self), virtual_nodes@, pair_inputs@, i as int + 1, n as int));
            }
            i += 1;
        }
        Ok(())
    }

    /// Planar edge length between two validated endpoints: the floor
    /// of the horizontal Euclidean distance.
    fn planar_distance(p: &Point, q: &Point) -> (d: i64)
        requires
            point_ok(*p),
            point_ok(*q),
        ensures
            d as int == sqrt_floor(planar_dist_sq(*p, *q)),
            d >= 0,
    {
        let dx = q.x - p.x;
        let dy = q.y - p.y;
        let s = sq(dx) + sq(dy);
        proof {
            assert(0 <= dx * dx <= 4_000_000_000_000 && 0 <= dy * dy
                <= 4_000_000_000_000) by (nonlinear_arith)
                requires
                    -2_000_000 <= dx <= 2_000_000,
                    -2_000_000 <= dy <= 2_000_000,
            ;
        }
        let r = isqrt(s as u64);
        r as i64
    }

    /// Generate every valid tangent path between two nodes: enumerate
    /// the candidates, convert each to its Cartesian endpoints (supplied
    /// by the caller, one pair per candidate, since the conversion is
    /// trigonometric), validate each segment, and return the accepted
    /// `(angle_a, angle_b, distance, threshold)` tuples together with
    /// the sentinel angle pairs of the degenerate branch.
    pub fn find_path(
        &self,
        a: &Node,
        b: &Node,
        trig: &TangentTrig,
        endpoints: &Vec<(Point, Point)>,
    ) -> (res: Result<(Vec<(i64, i64, i64, i64)>, Option<Vec<(i64, i64)>>), PathError>)
        requires
            self.inputs_ok(),
            node_geom_ok(*a),
            node_geom_ok(*b),
            trig_ok(*trig),
            !centers_coincide(a.origin, b.origin) ==> endpoints@.len() == cand_count(
                a.origin,
                a.radius as int,
                b.origin,
                b.radius as int,
            ),
            forall|k: int|
                0 <= k < endpoints@.len() ==> point_ok((#[trigger] endpoints@[k]).0) && point_ok(
                    endpoints@[k].1,
                ),
        ensures
            res is Err <==> centers_coincide(a.origin, b.origin),
            res is Err ==> res->Err_0 == PathError::InvalidGeometry,
            res is Ok ==> ({
                let (conns, sents) = res->Ok_0;
                &&& conns@ == accepted_upto(
                    deep_points(self.flyzones@),
                    self.obstacles@,
                    a.radius as int,
                    b.radius as int,
                    *trig,
                    endpoints@,
                    cand_count(a.origin, a.radius as int, b.origin, b.radius as int),
                )
                &&& (inner_ok(a.origin, a.radius as int, b.origin, b.radius as int) ==> sents
                    is None)
                &&& (!inner_ok(a.origin, a.radius as int, b.origin, b.radius as int) ==> {
                    &&& sents is Some
                    &&& sents->Some_0@.len() == 4
                    &&& forall|k: int|
                        0 <= k < 4 ==> (sents->Some_0@[k].0 as int, sents->Some_0@[k].1 as int)
                            == sentinel_pair(*trig, k)
                })
            }),
    {
        let (cands, sents) = match tangent_candidates(a, b, trig) {
            Ok(p) => p,
            Err(e) => {
                return Err(e);
            },
        };
        let mut conns: Vec<(i64, i64, i64, i64)> = Vec::new();
        proof {
            reveal_with_fuel(accepted_upto, 1);
        }
        let mut k: usize = 0;
        while k < cands.len()
            invariant
                k <= cands@.len(),
                self.inputs_ok(),
                node_geom_ok(*a),
                node_geom_ok(*b),
                trig_ok(*trig),
                endpoints@.len() == cands@.len(),
                cands@.len() == cand_count(a.origin, a.radius as int, b.origin, b.radius as int),
                forall|kk: int|
                    0 <= kk < endpoints@.len() ==> point_ok((#[trigger] endpoints@[kk]).0)
                        && point_ok(endpoints@[kk].1),
                forall|kk: int|
                    0 <= kk < cands@.len() ==> (#[trigger] cands@[kk]).0 as int == cand_pair(
                        a.radius as int,
                        b.radius as int,
                        *trig,
                        kk,
                    ).0 && cands@[kk].1 as int == cand_pair(
                        a.radius as int,
                        b.radius as int,
                        *trig,
                        kk,
                    ).1,
                conns@ == accepted_upto(
                    deep_points(self.flyzones@),
                    self.obstacles@,
                    a.radius as int,
                    b.radius as int,
                    *trig,
                    endpoints@,
                    k as int,
                ),
            decreases cands@.len() - k,
        {
            proof {
                reveal_with_fuel(accepted_upto, 2);
            }
            let p1 = endpoints[k].0;
            let p2 = endpoints[k].1;
            match self.valid_path(&p1, &p2) {
                PathValidity::Invalid => {},
                PathValidity::Flyover(h) => {
                    let d = Self::planar_distance(&p1, &p2);
                    conns.push((cands[k].0, cands[k].1, d, h));
                },
                PathValidity::Valid => {
                    // an explicit Valid carries no threshold
                    let d = Self::planar_distance(&p1, &p2);
                    conns.push((cands[k].0, cands[k].1, d, 0));
                },
            }
            k += 1;
        }
        Ok((conns, sents))
    }
}

/// Squared planar distance between two points; edge lengths are
/// horizontal, the altitude difference never enters a weight.
pub open spec fn planar_dist_sq(p: Point, q: Point) -> int {
    (q.x - p.x) * (q.x - p.x) + (q.y - p.y) * (q.y - p.y)
}

/// The accepted tangent tuples among the first `k` candidates of a
/// pair: each candidate whose endpoint segment the validator does not
/// reject, as `(angle_a, angle_b, distance, threshold)` in candidate
/// order.
#[verifier::opaque]
pub open spec fn accepted_upto(
    zones: Seq<Seq<Point>>,
    obs: Seq<Obstacle>,
    ar: int,
    br: int,
    t: TangentTrig,
    pts: Seq<(Point, Point)>,
    k: int,
) -> Seq<(i64, i64, i64, i64)>
    decreases k,
{
    if k <= 0 {
        Seq::empty()
    } else {
        let pre = accepted_upto(zones, obs, ar, br, t, pts, k - 1);
        let p1 = pts[k - 1].0;
        let p2 = pts[k - 1].1;
        if boundary_rejects(zones, p1, p2) {
            pre
        } else {
            pre.push(
                (
                    cand_pair(ar, br, t, k - 1).0 as i64,
                    cand_pair(ar, br, t, k - 1).1 as i64,
                    sqrt_floor(planar_dist_sq(p1, p2)) as i64,
                    flyover_height(obs, p1, p2) as i64,
                ),
            )
        }
    }
}


/// The accepted tangent tuples of one whole pair: every candidate of
/// the pair of a node at `o1`/`r1` and a node at `o2`/`r2` whose
/// endpoint segment the validator does not reject.
pub open spec fn pair_accepted_of(
    zones: Seq<Seq<Point>>,
    obs: Seq<Obstacle>,
    o1: Point,
    r1: int,
    o2: Point,
    r2: int,
    pd: PairData,
) -> Seq<(i64, i64, i64, i64)> {
    accepted_upto(zones, obs, r1, r2, pd.trig, pd.endpoints@, cand_count(o1, r1, o2, r2))
}

/// How many vertices one pair adds to the arena: four per accepted
/// tangent, plus the eight sentinel vertices of a degenerate pair.
pub open spec fn pair_growth_of(
    zones: Seq<Seq<Point>>,
    obs: Seq<Obstacle>,
    o1: Point,
    r1: int,
    o2: Point,
    r2: int,
    pd: PairData,
) -> int {
    4 * pair_accepted_of(zones, obs, o1, r1, o2, r2, pd).len() + if inner_ok(o1, r1, o2, r2) {
        0int
    } else {
        8int
    }
}

/// The four vertices of one accepted tangent of the pair `(i, j)`,
/// standing at `base .. base + 4` of the arena: the landing vertex on
/// `j`, the vertex on `i` owning the forward connection, and the two
/// vertices of the reciprocal edge from `j` to `i` with the
/// polarity-reversed angles and the identical distance and threshold.
pub open spec fn edge_block_ok(
    vs: Seq<Vertex>,
    base: int,
    i: int,
    j: int,
    tup: (i64, i64, i64, i64),
) -> bool {
    &&& vs[base].node == j && vs[base].angle == tup.1 && vs[base].connection is None && !vs[
        base
    ].sentinel
    &&& vs[base + 1].node == i && vs[base + 1].angle == tup.0 && !vs[base + 1].sentinel
    &&& vs[base + 1].connection == Some(
        Connection { neighbor: base as usize, distance: tup.2, threshold: tup.3 },
    )
    &&& vs[base + 2].node == i && vs[base + 2].angle as int == reverse_polarity_spec(tup.0 as int)
        && vs[base + 2].connection is None && !vs[base + 2].sentinel
    &&& vs[base + 3].node == j && vs[base + 3].angle as int == reverse_polarity_spec(tup.1 as int)
        && !vs[base + 3].sentinel
    &&& vs[base + 3].connection == Some(
        Connection { neighbor: (base + 2) as usize, distance: tup.2, threshold: tup.3 },
    )
}

/// The two bare sentinel vertices of one degenerate-pair angle pair,
/// standing at `base` and `base + 1`: one on each node's ring, at the
/// given angles and locations, with no connection.
pub open spec fn sentinel_block_ok(
    vs: Seq<Vertex>,
    base: int,
    i: int,
    j: int,
    angles: (int, int),
    locs: (Point, Point),
) -> bool {
    &&& vs[base].node == i && vs[base].angle as int == angles.0 && vs[base].location == locs.0
        && vs[base].sentinel && vs[base].connection is None
    &&& vs[base + 1].node == j && vs[base + 1].angle as int == angles.1 && vs[base + 1].location
        == locs.1 && vs[base + 1].sentinel && vs[base + 1].connection is None
}

/// One pair's whole contribution to the arena, standing at
/// `base .. base + pair_growth_of(..)`: its edge blocks in acceptance
/// order, then (on the degenerate branch) its four sentinel blocks.
#[verifier::opaque]
pub open spec fn pair_content_ok(
    vs: Seq<Vertex>,
    zones: Seq<Seq<Point>>,
    obs: Seq<Obstacle>,
    o1: Point,
    r1: int,
    o2: Point,
    r2: int,
    pd: PairData,
    i: int,
    j: int,
    base: int,
) -> bool {
    let acc = pair_accepted_of(zones, obs, o1, r1, o2, r2, pd);
    &&& 0 <= base
    &&& base + pair_growth_of(zones, obs, o1, r1, o2, r2, pd) <= vs.len()
    &&& forall|q: int|
        0 <= q < acc.len() ==> edge_block_ok(vs, base + 4 * q, i, j, #[trigger] acc[q])
    &&& (!inner_ok(o1, r1, o2, r2) ==> forall|q: int|
        0 <= q < 4 ==> sentinel_block_ok(
            vs,
            base + 4 * acc.len() + 2 * q,
            i,
            j,
            sentinel_pair(pd.trig, q),
            pd.sentinel_points@[q],
        ))
}

/// An edge block only reads the fields that relinking never touches,
/// so it survives any later splices and appends.
proof fn lemma_edge_block_preserved(
    vs0: Seq<Vertex>,
    vs1: Seq<Vertex>,
    base: int,
    i: int,
    j: int,
    tup: (i64, i64, i64, i64),
)
    requires
        0 <= base,
        base + 4 <= vs0.len(),
        vs1.len() >= vs0.len(),
        edge_block_ok(vs0, base, i, j, tup),
        forall|v: int|
            0 <= v < vs0.len() ==> Pathfinder::same_but_links(vs0[v], #[trigger] vs1[v]),
    ensures
        edge_block_ok(vs1, base, i, j, tup),
{
    assert(Pathfinder::same_but_links(vs0[base], vs1[base]));
    assert(Pathfinder::same_but_links(vs0[base + 1], vs1[base + 1]));
    assert(Pathfinder::same_but_links(vs0[base + 2], vs1[base + 2]));
    assert(Pathfinder::same_but_links(vs0[base + 3], vs1[base + 3]));
}

/// A sentinel block likewise survives later splices and appends.
proof fn lemma_sentinel_block_preserved(
    vs0: Seq<Vertex>,
    vs1: Seq<Vertex>,
    base: int,
    i: int,
    j: int,
    angles: (int, int),
    locs: (Point, Point),
)
    requires
        0 <= base,
        base + 2 <= vs0.len(),
        vs1.len() >= vs0.len(),
        sentinel_block_ok(vs0, base, i, j, angles, locs),
        forall|v: int|
            0 <= v < vs0.len() ==> Pathfinder::same_but_links(vs0[v], #[trigger] vs1[v]),
    ensures
        sentinel_block_ok(vs1, base, i, j, angles, locs),
{
    assert(Pathfinder::same_but_links(vs0[base], vs1[base]));
    assert(Pathfinder::same_but_links(vs0[base + 1], vs1[base + 1]));
}

/// A pair's whole contribution survives later splices and appends.
proof fn lemma_pair_content_preserved(
    vs0: Seq<Vertex>,
    vs1: Seq<Vertex>,
    zones: Seq<Seq<Point>>,
    obs: Seq<Obstacle>,
    o1: Point,
    r1: int,
    o2: Point,
    r2: int,
    pd: PairData,
    i: int,
    j: int,
    base: int,
)
    requires
        pair_content_ok(vs0, zones, obs, o1, r1, o2, r2, pd, i, j, base),
        vs1.len() >= vs0.len(),
        forall|v: int|
            0 <= v < vs0.len() ==> Pathfinder::same_but_links(vs0[v], #[trigger] vs1[v]),
    ensures
        pair_content_ok(vs1, zones, obs, o1, r1, o2, r2, pd, i, j, base),
{
    reveal(pair_content_ok);
    let acc = pair_accepted_of(zones, obs, o1, r1, o2, r2, pd);
    assert forall|q: int| 0 <= q < acc.len() implies edge_block_ok(
        vs1,
        base + 4 * q,
        i,
        j,
        #[trigger] acc[q],
    ) by {
        lemma_edge_block_preserved(vs0, vs1, base + 4 * q, i, j, acc[q]);
    }
    if !inner_ok(o1, r1, o2, r2) {
        assert forall|q: int| 0 <= q < 4 implies sentinel_block_ok(
            vs1,
            base + 4 * acc.len() + 2 * q,
            i,
            j,
            sentinel_pair(pd.trig, q),
            pd.sentinel_points@[q],
        ) by {
            lemma_sentinel_block_preserved(
                vs0,
                vs1,
                base + 4 * acc.len() + 2 * q,
                i,
                j,
                sentinel_pair(pd.trig, q),
                pd.sentinel_points@[q],
            );
        }
    }
}

/// One step of the acceptance loop: if candidate `k` was rejected the
/// arena is unchanged, otherwise its edge block was appended; either
/// way the accepted prefix description advances to `k + 1`.
#[verifier::spinoff_prover]
proof fn lemma_accept_step(
    vs0: Seq<Vertex>,
    vs1: Seq<Vertex>,
    zones: Seq<Seq<Point>>,
    obs: Seq<Obstacle>,
    r1: int,
    r2: int,
    t: TangentTrig,
    pts: Seq<(Point, Point)>,
    k: int,
    l: int,
    i: int,
    j: int,
    accepted: bool,
    tup: (i64, i64, i64, i64),
)
    requires
        0 <= k < pts.len(),
        0 <= l,
        vs0.len() == l + 4 * accepted_upto(zones, obs, r1, r2, t, pts, k).len(),
        accepted == !boundary_rejects(zones, pts[k].0, pts[k].1),
        accepted ==> vs1.len() == vs0.len() + 4,
        !accepted ==> vs1 == vs0,
        forall|v: int|
            0 <= v < vs0.len() ==> Pathfinder::same_but_links(vs0[v], #[trigger] vs1[v]),
        forall|q: int|
            0 <= q < accepted_upto(zones, obs, r1, r2, t, pts, k).len() ==> edge_block_ok(
                vs0,
                l + 4 * q,
                i,
                j,
                #[trigger] accepted_upto(zones, obs, r1, r2, t, pts, k)[q],
            ),
        accepted ==> {
            &&& tup.0 as int == cand_pair(r1, r2, t, k).0
            &&& tup.1 as int == cand_pair(r1, r2, t, k).1
            &&& tup.2 as int == sqrt_floor(planar_dist_sq(pts[k].0, pts[k].1))
            &&& tup.3 as int == flyover_height(obs, pts[k].0, pts[k].1)
            &&& edge_block_ok(vs1, vs0.len() as int, i, j, tup)
        },
    ensures
        vs1.len() == l + 4 * accepted_upto(zones, obs, r1, r2, t, pts, k + 1).len(),
        forall|q: int|
            0 <= q < accepted_upto(zones, obs, r1, r2, t, pts, k + 1).len() ==> edge_block_ok(
                vs1,
                l + 4 * q,
                i,
                j,
                #[trigger] accepted_upto(zones, obs, r1, r2, t, pts, k + 1)[q],
            ),
{
    reveal_with_fuel(accepted_upto, 2);
    let acck = accepted_upto(zones, obs, r1, r2, t, pts, k);
    let acck1 = accepted_upto(zones, obs, r1, r2, t, pts, k + 1);
    if accepted {
        assert(acck1 == acck.push(
            (
                cand_pair(r1, r2, t, k).0 as i64,
                cand_pair(r1, r2, t, k).1 as i64,
                sqrt_floor(planar_dist_sq(pts[k].0, pts[k].1)) as i64,
                flyover_height(obs, pts[k].0, pts[k].1) as i64,
            ),
        ));
        assert(acck1[acck.len() as int] == tup);
    } else {
        assert(acck1 == acck);
    }
    assert forall|q: int| 0 <= q < acck1.len() implies edge_block_ok(
        vs1,
        l + 4 * q,
        i,
        j,
        #[trigger] acck1[q],
    ) by {
        if q < acck.len() {
            assert(edge_block_ok(vs0, l + 4 * q, i, j, acck[q]));
            lemma_edge_block_preserved(vs0, vs1, l + 4 * q, i, j, acck[q]);
            assert(acck1[q] == acck[q]);
        } else {
            assert(accepted && q == acck.len());
        }
    }
}

/// One step of the sentinel loop: the two bare vertices of angle pair
/// `k2` were appended; every earlier block survives the splices.
#[verifier::spinoff_prover]
proof fn lemma_sentinel_step(
    vs0: Seq<Vertex>,
    vs1: Seq<Vertex>,
    acc: Seq<(i64, i64, i64, i64)>,
    t: TangentTrig,
    spts: Seq<(Point, Point)>,
    k2: int,
    l: int,
    i: int,
    j: int,
)
    requires
        0 <= k2 < 4,
        0 <= l,
        spts.len() >= 4,
        vs0.len() == l + 4 * acc.len() + 2 * k2,
        vs1.len() == vs0.len() + 2,
        forall|v: int|
            0 <= v < vs0.len() ==> Pathfinder::same_but_links(vs0[v], #[trigger] vs1[v]),
        forall|q: int|
            0 <= q < acc.len() ==> edge_block_ok(vs0, l + 4 * q, i, j, #[trigger] acc[q]),
        forall|q: int|
            0 <= q < k2 ==> sentinel_block_ok(
                vs0,
                l + 4 * acc.len() + 2 * q,
                i,
                j,
                #[trigger] sentinel_pair(t, q),
                spts[q],
            ),
        sentinel_block_ok(vs1, vs0.len() as int, i, j, sentinel_pair(t, k2), spts[k2]),
    ensures
        forall|q: int|
            0 <= q < acc.len() ==> edge_block_ok(vs1, l + 4 * q, i, j, #[trigger] acc[q]),
        forall|q: int|
            0 <= q < k2 + 1 ==> sentinel_block_ok(
                vs1,
                l + 4 * acc.len() + 2 * q,
                i,
                j,
                #[trigger] sentinel_pair(t, q),
                spts[q],
            ),
{
    assert forall|q: int| 0 <= q < acc.len() implies edge_block_ok(
        vs1,
        l + 4 * q,
        i,
        j,
        #[trigger] acc[q],
    ) by {
        lemma_edge_block_preserved(vs0, vs1, l + 4 * q, i, j, acc[q]);
    }
    assert forall|q: int| 0 <= q < k2 + 1 implies sentinel_block_ok(
        vs1,
        l + 4 * acc.len() + 2 * q,
        i,
        j,
        #[trigger] sentinel_pair(t, q),
        spts[q],
    ) by {
        if q < k2 {
            lemma_sentinel_block_preserved(
                vs0,
                vs1,
                l + 4 * acc.len() + 2 * q,
                i,
                j,
                sentinel_pair(t, q),
                spts[q],
            );
        }
    }
}

/// The vertices the pairs `(i, j), (i, j + 1), ..` of row `i` add to
/// the arena, summed in build order.
pub open spec fn row_growth(
    g: Pathfinder,
    virtuals: Seq<Obstacle>,
    pairs: Seq<Vec<PairData>>,
    i: int,
    j: int,
    n: int,
) -> int
    decreases n - j,
{
    if j >= n || j <= i {
        0
    } else {
        pair_growth_of(
            deep_points(g.flyzones@),
            g.obstacles@,
            g.planned_origin(virtuals, i),
            g.planned_radius(virtuals, i),
            g.planned_origin(virtuals, j),
            g.planned_radius(virtuals, j),
            pairs[i]@[j - i - 1],
        ) + row_growth(g, virtuals, pairs, i, j + 1, n)
    }
}

/// The vertices all pairs from row `i` on add to the arena.
pub open spec fn rows_growth(
    g: Pathfinder,
    virtuals: Seq<Obstacle>,
    pairs: Seq<Vec<PairData>>,
    i: int,
    n: int,
) -> int
    decreases n - i,
{
    if i >= n {
        0
    } else {
        row_growth(g, virtuals, pairs, i, i + 1, n) + rows_growth(g, virtuals, pairs, i + 1, n)
    }
}

/// One step of the build loop: after pair `(i, j)` is processed, the
/// arena length advances by the pair's growth and every processed
/// pair's contribution, the new one included, stands at its slot.
#[verifier::spinoff_prover]
proof fn lemma_build_step(
    vs0: Seq<Vertex>,
    vs1: Seq<Vertex>,
    g0: Pathfinder,
    virtuals: Seq<Obstacle>,
    pairs: Seq<Vec<PairData>>,
    i: int,
    j: int,
    n: int,
    bt: int,
    total: int,
)
    requires
        0 <= i < j < n,
        n == pairs.len(),
        forall|ii: int| 0 <= ii < n ==> (#[trigger] pairs[ii]@).len() == n - 1 - ii,
        total == rows_growth(g0, virtuals, pairs, 0, n),
        vs0.len() == bt + total - row_growth(g0, virtuals, pairs, i, j, n) - rows_growth(
            g0,
            virtuals,
            pairs,
            i + 1,
            n,
        ),
        vs1.len() == vs0.len() + pair_growth_of(
            deep_points(g0.flyzones@),
            g0.obstacles@,
            g0.planned_origin(virtuals, i),
            g0.planned_radius(virtuals, i),
            g0.planned_origin(virtuals, j),
            g0.planned_radius(virtuals, j),
            pairs[i]@[j - i - 1],
        ),
        pair_content_ok(
            vs1,
            deep_points(g0.flyzones@),
            g0.obstacles@,
            g0.planned_origin(virtuals, i),
            g0.planned_radius(virtuals, i),
            g0.planned_origin(virtuals, j),
            g0.planned_radius(virtuals, j),
            pairs[i]@[j - i - 1],
            i,
            j,
            vs0.len() as int,
        ),
        forall|v: int|
            0 <= v < vs0.len() ==> Pathfinder::same_but_links(vs0[v], #[trigger] vs1[v]),
        forall|ii: int, jj: int|
            0 <= ii < jj < n && (ii < i || (ii == i && jj < j)) ==> pair_content_ok(
                vs0,
                deep_points(g0.flyzones@),
                g0.obstacles@,
                g0.planned_origin(virtuals, ii),
                g0.planned_radius(virtuals, ii),
                g0.planned_origin(virtuals, jj),
                g0.planned_radius(virtuals, jj),
                #[trigger] pairs[ii]@[jj - ii - 1],
                ii,
                jj,
                bt + total - row_growth(g0, virtuals, pairs, ii, jj, n) - rows_growth(
                    g0,
                    virtuals,
                    pairs,
                    ii + 1,
                    n,
                ),
            ),
    ensures
        vs1.len() == bt + total - row_growth(g0, virtuals, pairs, i, j + 1, n) - rows_growth(
            g0,
            virtuals,
            pairs,
            i + 1,
            n,
        ),
        forall|ii: int, jj: int|
            0 <= ii < jj < n && (ii < i || (ii == i && jj < j + 1)) ==> pair_content_ok(
                vs1,
                deep_points(g0.flyzones@),
                g0.obstacles@,
                g0.planned_origin(virtuals, ii),
                g0.planned_radius(virtuals, ii),
                g0.planned_origin(virtuals, jj),
                g0.planned_radius(virtuals, jj),
                #[trigger] pairs[ii]@[jj - ii - 1],
                ii,
                jj,
                bt + total - row_growth(g0, virtuals, pairs, ii, jj, n) - rows_growth(
                    g0,
                    virtuals,
                    pairs,
                    ii + 1,
                    n,
                ),
            ),
{
    assert(row_growth(g0, virtuals, pairs, i, j, n) == pair_growth_of(
        deep_points(g0.flyzones@),
        g0.obstacles@,
        g0.planned_origin(virtuals, i),
        g0.planned_radius(virtuals, i),
        g0.planned_origin(virtuals, j),
        g0.planned_radius(virtuals, j),
        pairs[i]@[j - i - 1],
    ) + row_growth(g0, virtuals, pairs, i, j + 1, n));
    assert forall|ii: int, jj: int|
        0 <= ii < jj < n && (ii < i || (ii == i && jj < j + 1)) implies pair_content_ok(
        vs1,
        deep_points(g0.flyzones@),
        g0.obstacles@,
        g0.planned_origin(virtuals, ii),
        g0.planned_radius(virtuals, ii),
        g0.planned_origin(virtuals, jj),
        g0.planned_radius(virtuals, jj),
        #[trigger] pairs[ii]@[jj - ii - 1],
        ii,
        jj,
        bt + total - row_growth(g0, virtuals, pairs, ii, jj, n) - rows_growth(
            g0,
            virtuals,
            pairs,
            ii + 1,
            n,
        ),
    ) by {
        if ii == i && jj == j {
        } else {
            lemma_pair_content_preserved(
                vs0,
                vs1,
                deep_points(g0.flyzones@),
                g0.obstacles@,
                g0.planned_origin(virtuals, ii),
                g0.planned_radius(virtuals, ii),
                g0.planned_origin(virtuals, jj),
                g0.planned_radius(virtuals, jj),
                pairs[ii]@[jj - ii - 1],
                ii,
                jj,
                bt + total - row_growth(g0, virtuals, pairs, ii, jj, n) - rows_growth(
                    g0,
                    virtuals,
                    pairs,
                    ii + 1,
                    n,
                ),
            );
        }
    }
}

/// A usable projected boundary: at least one polygon, each with at
/// least three points.
pub open spec fn planar_boundary_ok(zs: Seq<Seq<Point>>) -> bool {
    zs.len() > 0 && forall|i: int| 0 <= i < zs.len() ==> (#[trigger] zs[i]).len() >= 3
}

/// Every vertex index of one build is unique, starts at zero and is
/// assigned in insertion order: in a well-formed graph each vertex's
/// index equals its arena position.
pub proof fn lemma_vertex_indices_unique(pf: Pathfinder)
    requires
        pf.wf(),
    ensures
        forall|v: int| 0 <= v < pf.vertices@.len() ==> (#[trigger] pf.vertices@[v]).index == v,
        forall|v1: int, v2: int|
            0 <= v1 < v2 < pf.vertices@.len() ==> (#[trigger] pf.vertices@[v1]).index
                != (#[trigger] pf.vertices@[v2]).index,
{
}

/// A segment lying entirely outside every boundary polygon is
/// rejected by the boundary, and so classified `Invalid`.
pub proof fn lemma_outside_segment_rejected(zs: Seq<Seq<Point>>, a: Point, b: Point)
    requires
        zs.len() > 0,
        forall|i: int| 0 <= i < zs.len() ==> !point_in_zone(#[trigger] zs[i], a),
    ensures
        boundary_rejects(zs, a, b),
{
}

/// A segment inside all boundary polygons that crosses none of their
/// edges is never invalidated by boundary containment.
pub proof fn lemma_interior_segment_not_rejected(zs: Seq<Seq<Point>>, a: Point, b: Point)
    requires
        forall|i: int, k: int|
            0 <= i < zs.len() && 0 <= k < zs[i].len() ==> !segments_intersect_spec(
                a,
                b,
                #[trigger] zs[i][k],
                zs[i][
                    if k + 1 == zs[i].len() as int {
                        0int
                    } else {
                        k + 1
                    }
                ],
            ),
        forall|i: int| 0 <= i < zs.len() ==> point_in_zone(#[trigger] zs[i], a),
    ensures
        !boundary_rejects(zs, a, b),
{
    lemma_uncrossed_segment_not_blocked(zs, a, b);
    if zs.len() > 0 {
        assert(point_in_zone(zs[0], a));
    }
}

/// A segment that crosses no edge of any boundary polygon is never
/// blocked by an edge crossing.
pub proof fn lemma_uncrossed_segment_not_blocked(zs: Seq<Seq<Point>>, a: Point, b: Point)
    requires
        forall|i: int, k: int|
            0 <= i < zs.len() && 0 <= k < zs[i].len() ==> !segments_intersect_spec(
                a,
                b,
                #[trigger] zs[i][k],
                zs[i][
                    if k + 1 == zs[i].len() as int {
                        0int
                    } else {
                        k + 1
                    }
                ],
            ),
    ensures
        !boundary_blocked(zs, a, b),
{
    if boundary_blocked(zs, a, b) {
        let i = choose|i: int| 0 <= i < zs.len() && zone_blocks(#[trigger] zs[i], a, b);
        let k = choose|k: int|
            0 <= k < zs[i].len() && segments_intersect_spec(
                a,
                b,
                #[trigger] zs[i][k],
                zs[i][
                    if k + 1 == zs[i].len() as int {
                        0int
                    } else {
                        k + 1
                    }
                ],
            );
        assert(!segments_intersect_spec(
            a,
            b,
            zs[i][k],
            zs[i][
                if k + 1 == zs[i].len() as int {
                    0int
                } else {
                    k + 1
                }
            ],
        ));
    }
}

} // verus!
