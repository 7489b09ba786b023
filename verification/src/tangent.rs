//! Tangent geometry engine: for a pair of circular safety buffers,
//! enumerate the angle pairs of every geometrically possible tangent
//! line, or the sentinel angle pairs when no inner tangent exists.
//!
//! The arctangent of the center offset and the arccosines of the radius
//! ratios are transcendental; the caller evaluates them and hands the
//! engine their fixed-point values in a [`TangentTrig`].  Everything the
//! engine decides and constructs from them is exact and verified: the
//! strict inner-tangent precondition on integer geometry, the reference
//! angles, the asymmetric normalization of the two members of each
//! tangent family, and the quadrant reflections of the sentinels.

use vstd::prelude::*;
use crate::angle::norm_neg;
use crate::angle::norm_pos;
use crate::angle::normalize_angle;
use crate::graph::Node;
use crate::graph::node_geom_ok;
use crate::num::sq;
use crate::types::ANG_PI;
use crate::types::Point;
use crate::types::ANG_TWO_PI;
use crate::types::PathError;

verus! {

/// Fixed-point values of the transcendental functions of one node pair,
/// evaluated by the caller:
/// - `theta`: arctangent of the center offset from the first node toward
///   the second, in `(-ANG_PI, ANG_PI]`;
/// - `gamma1`: arccosine of `(r1 + r2) / dist`, the inner half-angle;
/// - `gamma2`: arccosine of `|r1 - r2| / dist`, the outer half-angle,
///   as the formula gives it for `r1 >= r2` (the engine takes the
///   complement itself when `r2 > r1`);
/// - `theta_s`, `phi_s`: the law-of-cosines angles on each circle of the
///   triangle formed by the two centers and an intersection point, used
///   only on the sentinel branch.
#[derive(Clone, Copy, Debug, PartialEq, Eq, Structural)]
pub struct TangentTrig {
    pub theta: i64,
    pub gamma1: i64,
    pub gamma2: i64,
    pub theta_s: i64,
    pub phi_s: i64,
}

/// The trig inputs lie in the ranges their defining functions map to.
pub open spec fn trig_ok(t: TangentTrig) -> bool {
    &&& -ANG_PI < t.theta <= ANG_PI
    &&& 0 <= t.gamma1 <= ANG_PI
    &&& 0 <= t.gamma2 <= ANG_PI
    &&& 0 <= t.theta_s <= ANG_PI
    &&& 0 <= t.phi_s <= ANG_PI
}

/// Center offset of the pair, west to east.
pub open spec fn center_dx(ao: Point, bo: Point) -> int {
    bo.x - ao.x
}

/// Center offset of the pair, south to north.
pub open spec fn center_dy(ao: Point, bo: Point) -> int {
    bo.y - ao.y
}

/// The degenerate pair on which no tangent geometry exists.
pub open spec fn centers_coincide(ao: Point, bo: Point) -> bool {
    center_dx(ao, bo) == 0 && center_dy(ao, bo) == 0
}

/// Squared planar distance between the two centers.
pub open spec fn dist_sq(ao: Point, bo: Point) -> int {
    center_dx(ao, bo) * center_dx(ao, bo) + center_dy(ao, bo) * center_dy(ao, bo)
}

/// The strict precondition of the two inner tangents: both circles
/// non-degenerate and strictly disjoint (`dist > r1 + r2`, compared on
/// squares so the test is exact).
pub open spec fn inner_ok(ao: Point, ar: int, bo: Point, br: int) -> bool {
    &&& ar > 0
    &&& br > 0
    &&& dist_sq(ao, bo) > (ar + br) * (ar + br)
}

/// How many tangent candidates the engine emits for a non-coincident
/// pair: both outer tangents always, plus both inner tangents when their
/// precondition holds.
pub open spec fn cand_count(ao: Point, ar: int, bo: Point, br: int) -> int {
    if inner_ok(ao, ar, bo, br) {
        4
    } else {
        2
    }
}

/// First reference angle: `theta` brought into `[0, ANG_TWO_PI)`.
pub open spec fn theta1_of(t: TangentTrig) -> int {
    if t.theta >= 0 {
        t.theta as int
    } else {
        t.theta + ANG_TWO_PI
    }
}

/// Second reference angle: half a turn past the first.
pub open spec fn theta2_of(t: TangentTrig) -> int {
    theta1_of(t) + ANG_PI
}

/// The outer half-angle, complemented when the second radius dominates
/// (the closed formula assumes `r1 >= r2`).
pub open spec fn gamma2_of(ar: int, br: int, t: TangentTrig) -> int {
    if br > ar {
        ANG_PI - t.gamma2
    } else {
        t.gamma2 as int
    }
}

/// First outer tangent, both members in the positive range.
pub open spec fn outer1(ar: int, br: int, t: TangentTrig) -> (int, int) {
    (
        norm_pos(theta1_of(t) - gamma2_of(ar, br, t)),
        norm_pos(theta2_of(t) + ANG_PI - gamma2_of(ar, br, t)),
    )
}

/// Second outer tangent, both members mirrored into the negative range.
pub open spec fn outer2(ar: int, br: int, t: TangentTrig) -> (int, int) {
    (
        norm_neg(theta1_of(t) - ANG_TWO_PI + gamma2_of(ar, br, t)),
        norm_neg(theta2_of(t) - 3 * ANG_PI + gamma2_of(ar, br, t)),
    )
}

/// The candidate angle pair at position `k` of the engine's output:
/// the two outer tangents first, then the two inner ones.
pub open spec fn cand_pair(ar: int, br: int, t: TangentTrig, k: int) -> (int, int) {
    if k == 0 {
        outer1(ar, br, t)
    } else if k == 1 {
        outer2(ar, br, t)
    } else if k == 2 {
        inner1(t)
    } else {
        inner2(t)
    }
}

/// First inner tangent: positive on the first circle, mirrored on the
/// second.
pub open spec fn inner1(t: TangentTrig) -> (int, int) {
    (
        norm_pos(theta1_of(t) - t.gamma1),
        norm_neg(theta2_of(t) - ANG_TWO_PI - t.gamma1),
    )
}

/// Second inner tangent: mirrored on the first circle, positive on the
/// second.
pub open spec fn inner2(t: TangentTrig) -> (int, int) {
    (
        norm_neg(theta1_of(t) - ANG_TWO_PI + t.gamma1),
        norm_pos(theta2_of(t) + t.gamma1),
    )
}

/// The four sentinel angle pairs: the law-of-cosines angles on each
/// circle, reflected into all four quadrant combinations.
pub open spec fn sentinel_pair(t: TangentTrig, k: int) -> (int, int) {
    if k == 0 {
        (t.theta_s as int, ANG_PI - t.phi_s)
    } else if k == 1 {
        (-(t.theta_s as int), ANG_PI + t.phi_s)
    } else if k == 2 {
        (-ANG_TWO_PI + t.theta_s, -ANG_PI + t.phi_s)
    } else {
        (ANG_TWO_PI - t.theta_s, -ANG_PI - t.phi_s)
    }
}

/// Enumerate the tangent candidates of a node pair, and on the sentinel
/// branch the boundary-hugging angle pairs.
///
/// Fails with `InvalidGeometry` exactly when the centers coincide.  For
/// any other pair, the two outer-tangent angle pairs are always emitted;
/// when the strict inner precondition holds, the two inner pairs follow
/// and no sentinels are produced; otherwise (overlapping, touching, or a
/// degenerate radius) only the four sentinel pairs accompany the outer
/// tangents.
pub fn tangent_candidates(a: &Node, b: &Node, trig: &TangentTrig) -> (res: Result<
    (Vec<(i64, i64)>, Option<Vec<(i64, i64)>>),
    PathError,
>)
    requires
        node_geom_ok(*a),
        node_geom_ok(*b),
        trig_ok(*trig),
    ensures
        res is Err <==> centers_coincide(a.origin, b.origin),
        res is Err ==> res->Err_0 == PathError::InvalidGeometry,
        res is Ok ==> ({
            let (cands, sents) = res->Ok_0;
            &&& cands@.len() == cand_count(a.origin, a.radius as int, b.origin, b.radius as int)
            &&& forall|k: int|
                0 <= k < cands@.len() ==> (#[trigger] cands@[k]).0 as int == cand_pair(
                    a.radius as int,
                    b.radius as int,
                    *trig,
                    k,
                ).0 && cands@[k].1 as int == cand_pair(a.radius as int, b.radius as int, *trig, k).1
            &&& forall|k: int|
                0 <= k < cands@.len() ==> -ANG_TWO_PI < (#[trigger] cands@[k]).0 < ANG_TWO_PI
                    && -ANG_TWO_PI < cands@[k].1 < ANG_TWO_PI
            &&& (inner_ok(a.origin, a.radius as int, b.origin, b.radius as int) ==> sents is None)
            &&& (!inner_ok(a.origin, a.radius as int, b.origin, b.radius as int) ==> {
                &&& sents is Some
                &&& sents->Some_0@.len() == 4
                &&& forall|k: int|
                    0 <= k < 4 ==> (sents->Some_0@[k].0 as int, sents->Some_0@[k].1 as int)
                        == sentinel_pair(*trig, k)
            })
        }),
{
    let dx = b.origin.x - a.origin.x;
    let dy = b.origin.y - a.origin.y;
    if dx == 0 && dy == 0 {
        return Err(PathError::InvalidGeometry);
    }
    let theta1: i64 = if trig.theta >= 0 {
        trig.theta
    } else {
        trig.theta + ANG_TWO_PI
    };
    let theta2: i64 = theta1 + ANG_PI;
    let gamma1: i64 = trig.gamma1;
    let gamma2: i64 = if b.radius > a.radius {
        ANG_PI - trig.gamma2
    } else {
        trig.gamma2
    };

    let mut candidates: Vec<(i64, i64)> = Vec::new();
    candidates.push(
        (
            normalize_angle(true, theta1 - gamma2),
            normalize_angle(true, theta2 + ANG_PI - gamma2),
        ),
    );
    candidates.push(
        (
            normalize_angle(false, theta1 - ANG_TWO_PI + gamma2),
            normalize_angle(false, theta2 - 3 * ANG_PI + gamma2),
        ),
    );

    let d2 = sq(dx) + sq(dy);
    let rsum = a.radius + b.radius;
    let inner = a.radius > 0 && b.radius > 0 && d2 > sq(rsum);
    if inner {
        candidates.push(
            (
                normalize_angle(true, theta1 - gamma1),
                normalize_angle(false, theta2 - ANG_TWO_PI - gamma1),
            ),
        );
        candidates.push(
            (
                normalize_angle(false, theta1 - ANG_TWO_PI + gamma1),
                normalize_angle(true, theta2 + gamma1),
            ),
        );
        Ok((candidates, None))
    } else {
        let mut sentinels: Vec<(i64, i64)> = Vec::new();
        sentinels.push((trig.theta_s, ANG_PI - trig.phi_s));
        sentinels.push((-trig.theta_s, ANG_PI + trig.phi_s));
        sentinels.push((-ANG_TWO_PI + trig.theta_s, -ANG_PI + trig.phi_s));
        sentinels.push((ANG_TWO_PI - trig.theta_s, -ANG_PI - trig.phi_s));
        Ok((candidates, Some(sentinels)))
    }
}

} // verus!
