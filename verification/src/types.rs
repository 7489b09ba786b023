//! Shared data types: planar points, geodetic locations, obstacles,
//! path-validity outcomes and build errors.

use vstd::prelude::*;

verus! {

/// Half a turn, in fixed-point angle units (one unit is a millionth of a
/// degree, so a full turn is `2 * ANG_PI`).
pub const ANG_PI: i64 = 180_000_000;

/// A full turn in fixed-point angle units.
pub const ANG_TWO_PI: i64 = 360_000_000;

/// Largest magnitude accepted for a planar coordinate or a radius.
/// Keeping inputs inside this bound lets every squared quantity of the
/// intersection tests fit the machine integers they are computed in.
pub const COORD_LIMIT: i64 = 1_000_000;

/// Cartesian point relative to the resolved origin, in integer units.
#[derive(Clone, Copy, Debug, PartialEq, Eq, Structural)]
pub struct Point {
    pub x: i64,
    pub y: i64,
    pub z: i64,
}

/// Geodetic location in fixed-point angle units (`ANG_PI` per half turn).
#[derive(Clone, Copy, Debug, PartialEq, Eq, Structural)]
pub struct Location {
    pub lat: i64,
    pub lon: i64,
    pub alt: i64,
}

/// A circular obstacle already projected onto the local plane.
#[derive(Clone, Copy, Debug, PartialEq, Eq, Structural)]
pub struct Obstacle {
    pub origin: Point,
    pub radius: i64,
    pub height: i64,
}

/// Outcome of validating a candidate straight segment.
#[derive(Clone, Copy, Debug, PartialEq, Eq, Structural)]
pub enum PathValidity {
    /// Unobstructed and unblocked.
    Valid,
    /// Blocked by the no-fly boundary.
    Invalid,
    /// Traversable at or above the carried minimum altitude
    /// (zero means an unobstructed direct path).
    Flyover(i64),
}

/// Fatal conditions of a build.
#[derive(Clone, Copy, Debug, PartialEq, Eq, Structural)]
pub enum PathError {
    /// No boundary polygon was given, or one has fewer than three points.
    InsufficientBoundary,
    /// Two circle centers coincide, so no tangent geometry exists.
    InvalidGeometry,
}

impl From<PathValidity> for bool {
    /// A validity collapses to "may this segment be flown at some
    /// altitude": everything but `Invalid` may.
    fn from(pv: PathValidity) -> (r: bool)
        ensures
            r == !(pv is Invalid),
    {
        match pv {
            PathValidity::Invalid => false,
            _ => true,
        }
    }
}

impl vstd::std_specs::convert::FromSpecImpl<PathValidity> for bool {
    open spec fn obeys_from_spec() -> bool {
        true
    }

    open spec fn from_spec(pv: PathValidity) -> bool {
        !(pv is Invalid)
    }
}

/// A geodetic location whose angles lie within one turn.
pub open spec fn geo_ok(l: Location) -> bool {
    &&& -ANG_TWO_PI <= l.lat <= ANG_TWO_PI
    &&& -ANG_TWO_PI <= l.lon <= ANG_TWO_PI
}

/// A coordinate small enough for all derived products to stay in range.
pub open spec fn coord_ok(v: int) -> bool {
    -COORD_LIMIT <= v <= COORD_LIMIT
}

/// A point whose planar coordinates and altitude are all in range.
pub open spec fn point_ok(p: Point) -> bool {
    coord_ok(p.x as int) && coord_ok(p.y as int) && coord_ok(p.z as int)
}

/// A radius or height in range (radii may carry an added buffer, hence
/// twice the coordinate limit).
pub open spec fn radius_ok(r: int) -> bool {
    0 <= r <= 2 * COORD_LIMIT
}

/// An obstacle whose geometry is in range.
pub open spec fn obstacle_ok(o: Obstacle) -> bool {
    point_ok(o.origin) && 0 <= o.radius <= COORD_LIMIT && 0 <= o.height <= COORD_LIMIT
}

} // verus!
