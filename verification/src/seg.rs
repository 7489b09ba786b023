//! Exact planar intersection tests: segment against segment (boundary
//! edges) and segment against a circular footprint (obstacles).  All
//! predicates are decided with integer cross and dot products, so the
//! executable tests return exactly their specifications.

use vstd::prelude::*;
use crate::types::Point;
use crate::types::point_ok;
use crate::types::radius_ok;

verus! {

/// Twice the signed area of the triangle `(p, q, r)`: positive when the
/// triangle winds counter-clockwise, zero when the points are collinear.
pub open spec fn orient(p: Point, q: Point, r: Point) -> int {
    (q.x - p.x) * (r.y - p.y) - (q.y - p.y) * (r.x - p.x)
}

/// `r` lies on the closed axis-aligned bounding box of the segment `pq`;
/// together with collinearity this places `r` on the segment itself.
pub open spec fn within_box(p: Point, q: Point, r: Point) -> bool {
    &&& (if p.x <= q.x {
        p.x <= r.x <= q.x
    } else {
        q.x <= r.x <= p.x
    })
    &&& (if p.y <= q.y {
        p.y <= r.y <= q.y
    } else {
        q.y <= r.y <= p.y
    })
}

/// The closed 2-D segments `ab` and `cd` share at least one point.
pub open spec fn segments_intersect_spec(a: Point, b: Point, c: Point, d: Point) -> bool {
    let o1 = orient(a, b, c);
    let o2 = orient(a, b, d);
    let o3 = orient(c, d, a);
    let o4 = orient(c, d, b);
    ||| (o1 > 0 && o2 < 0 || o1 < 0 && o2 > 0) && (o3 > 0 && o4 < 0 || o3 < 0 && o4 > 0)
    ||| o1 == 0 && within_box(a, b, c)
    ||| o2 == 0 && within_box(a, b, d)
    ||| o3 == 0 && within_box(c, d, a)
    ||| o4 == 0 && within_box(c, d, b)
}

/// The planar cross product `(ax, ay) x (bx, by)` over bounded inputs.
fn cross(ax: i64, ay: i64, bx: i64, by: i64) -> (r: i64)
    requires
        -4_000_000 <= ax <= 4_000_000,
        -4_000_000 <= ay <= 4_000_000,
        -4_000_000 <= bx <= 4_000_000,
        -4_000_000 <= by <= 4_000_000,
    ensures
        r == ax * by - ay * bx,
        -32_000_000_000_000 <= r <= 32_000_000_000_000,
{
    proof {
        assert(-16_000_000_000_000 <= ax * by <= 16_000_000_000_000) by (nonlinear_arith)
            requires
                -4_000_000 <= ax <= 4_000_000,
                -4_000_000 <= by <= 4_000_000,
        ;
        assert(-16_000_000_000_000 <= ay * bx <= 16_000_000_000_000) by (nonlinear_arith)
            requires
                -4_000_000 <= ay <= 4_000_000,
                -4_000_000 <= bx <= 4_000_000,
        ;
    }
    ax * by - ay * bx
}

/// The orientation test, executable.
fn orient_exec(p: &Point, q: &Point, r: &Point) -> (o: i64)
    requires
        point_ok(*p),
        point_ok(*q),
        point_ok(*r),
    ensures
        o == orient(*p, *q, *r),
{
    cross(q.x - p.x, q.y - p.y, r.x - p.x, r.y - p.y)
}

/// Whether the closed segments `ab` and `cd` intersect, exactly.
pub fn intersect(a: &Point, b: &Point, c: &Point, d: &Point) -> (r: bool)
    requires
        point_ok(*a),
        point_ok(*b),
        point_ok(*c),
        point_ok(*d),
    ensures
        r == segments_intersect_spec(*a, *b, *c, *d),
{
    let o1 = orient_exec(a, b, c);
    let o2 = orient_exec(a, b, d);
    let o3 = orient_exec(c, d, a);
    let o4 = orient_exec(c, d, b);
    if (o1 > 0 && o2 < 0 || o1 < 0 && o2 > 0) && (o3 > 0 && o4 < 0 || o3 < 0 && o4 > 0) {
        return true;
    }
    if o1 == 0 && in_box(a, b, c) {
        return true;
    }
    if o2 == 0 && in_box(a, b, d) {
        return true;
    }
    if o3 == 0 && in_box(c, d, a) {
        return true;
    }
    if o4 == 0 && in_box(c, d, b) {
        return true;
    }
    false
}

/// Executable bounding-box membership.
fn in_box(p: &Point, q: &Point, r: &Point) -> (res: bool)
    ensures
        res == within_box(*p, *q, *r),
{
    let x_ok = if p.x <= q.x {
        p.x <= r.x && r.x <= q.x
    } else {
        q.x <= r.x && r.x <= p.x
    };
    let y_ok = if p.y <= q.y {
        p.y <= r.y && r.y <= q.y
    } else {
        q.y <= r.y && r.y <= p.y
    };
    x_ok && y_ok
}

/// The closed segment `ab` passes through the open interior of the circle
/// of radius `r` around `c`: the least squared distance from `c` to the
/// segment is strictly below `r * r`.  A segment that only grazes the
/// boundary circle does not count as crossing the footprint.
pub open spec fn segment_hits_circle_spec(a: Point, b: Point, c: Point, r: int) -> bool {
    let dx = b.x - a.x;
    let dy = b.y - a.y;
    let px = c.x - a.x;
    let py = c.y - a.y;
    let qx = c.x - b.x;
    let qy = c.y - b.y;
    let len2 = dx * dx + dy * dy;
    let dot = dx * px + dy * py;
    if dot <= 0 || len2 == 0 {
        px * px + py * py < r * r
    } else if dot >= len2 {
        qx * qx + qy * qy < r * r
    } else {
        let cr = dx * py - dy * px;
        cr * cr < r * r * len2
    }
}

/// Whether the segment `ab` crosses the open circular footprint, exactly.
pub fn segment_hits_circle(a: &Point, b: &Point, c: &Point, r: i64) -> (hit: bool)
    requires
        point_ok(*a),
        point_ok(*b),
        point_ok(*c),
        radius_ok(r as int),
    ensures
        hit == segment_hits_circle_spec(*a, *b, *c, r as int),
{
    let dx = b.x - a.x;
    let dy = b.y - a.y;
    let px = c.x - a.x;
    let py = c.y - a.y;
    let qx = c.x - b.x;
    let qy = c.y - b.y;
    let len2 = dot(dx, dy, dx, dy);
    let d = dot(dx, dy, px, py);
    proof {
        assert(0 <= r * r <= 4_000_000_000_000) by (nonlinear_arith)
            requires
                0 <= r <= 2_000_000,
        ;
        assert(len2 >= 0) by (nonlinear_arith)
            requires
                len2 == dx * dx + dy * dy,
        ;
    }
    if d <= 0 || len2 == 0 {
        dot(px, py, px, py) < r * r
    } else if d >= len2 {
        dot(qx, qy, qx, qy) < r * r
    } else {
        let cr = cross(dx, dy, px, py);
        proof {
            assert(0 <= (cr as int) * (cr as int)
                <= 1_100_000_000_000_000_000_000_000_000) by (nonlinear_arith)
                requires
                    -32_000_000_000_000 <= cr <= 32_000_000_000_000,
            ;
            assert(0 <= (r as int) * (r as int) * (len2 as int)
                <= 130_000_000_000_000_000_000_000_000) by (nonlinear_arith)
                requires
                    0 <= r <= 2_000_000,
                    0 <= len2 <= 32_000_000_000_000,
            ;
        }
        let c2: i128 = (cr as i128) * (cr as i128);
        let rhs: i128 = (r as i128) * (r as i128) * (len2 as i128);
        c2 < rhs
    }
}

/// The planar dot product over bounded inputs.
fn dot(ax: i64, ay: i64, bx: i64, by: i64) -> (r: i64)
    requires
        -4_000_000 <= ax <= 4_000_000,
        -4_000_000 <= ay <= 4_000_000,
        -4_000_000 <= bx <= 4_000_000,
        -4_000_000 <= by <= 4_000_000,
    ensures
        r == ax * bx + ay * by,
        -32_000_000_000_000 <= r <= 32_000_000_000_000,
{
    proof {
        assert(-16_000_000_000_000 <= ax * bx <= 16_000_000_000_000) by (nonlinear_arith)
            requires
                -4_000_000 <= ax <= 4_000_000,
                -4_000_000 <= bx <= 4_000_000,
        ;
        assert(-16_000_000_000_000 <= ay * by <= 16_000_000_000_000) by (nonlinear_arith)
            requires
                -4_000_000 <= ay <= 4_000_000,
                -4_000_000 <= by <= 4_000_000,
        ;
    }
    ax * bx + ay * by
}


/// The edge from `a1` to `a2` crosses the horizontal ray running east
/// from `p`: an upward edge spanning `p`'s latitude with `p` strictly
/// to its left, or a downward one with `p` strictly to its right.
pub open spec fn edge_crosses_ray(a1: Point, a2: Point, p: Point) -> bool {
    if a1.y <= p.y && p.y < a2.y {
        orient(a1, a2, p) > 0
    } else if a2.y <= p.y && p.y < a1.y {
        orient(a1, a2, p) < 0
    } else {
        false
    }
}

/// Parity of ray crossings over the first `k` edges of the polygon `z`
/// (closed by wrapping); `true` means an odd count so far.
pub open spec fn ray_parity_upto(z: Seq<Point>, p: Point, k: int) -> bool
    decreases k,
{
    if k <= 0 {
        false
    } else {
        ray_parity_upto(z, p, k - 1) != edge_crosses_ray(
            z[k - 1],
            z[
                if k == z.len() as int {
                    0int
                } else {
                    k
                }
            ],
            p,
        )
    }
}

/// `p` lies inside the polygon `z` by the even-odd rule: a horizontal
/// ray from `p` crosses an odd number of edges.  Exact for points that
/// do not lie on the boundary itself.
pub open spec fn point_in_zone(z: Seq<Point>, p: Point) -> bool {
    ray_parity_upto(z, p, z.len() as int)
}

/// Even-odd polygon membership, exactly.
pub fn point_in_polygon(z: &Vec<Point>, p: &Point) -> (r: bool)
    requires
        point_ok(*p),
        forall|k: int| 0 <= k < z@.len() ==> point_ok(#[trigger] z@[k]),
    ensures
        r == point_in_zone(z@, *p),
{
    let n = z.len();
    let mut odd = false;
    let mut k: usize = 0;
    while k < n
        invariant
            k <= n,
            n == z@.len(),
            point_ok(*p),
            forall|t: int| 0 <= t < z@.len() ==> point_ok(#[trigger] z@[t]),
            odd == ray_parity_upto(z@, *p, k as int),
        decreases n - k,
    {
        let a1 = z[k];
        let a2 = if k + 1 == n {
            z[0]
        } else {
            z[k + 1]
        };
        let crosses = if a1.y <= p.y && p.y < a2.y {
            orient_exec(&a1, &a2, p) > 0
        } else if a2.y <= p.y && p.y < a1.y {
            orient_exec(&a1, &a2, p) < 0
        } else {
            false
        };
        odd = odd != crosses;
        k += 1;
    }
    odd
}

} // verus!
