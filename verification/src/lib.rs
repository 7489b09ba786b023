//! Visibility-graph construction over circular safety buffers for 2-D
//! path planning with altitude-aware obstacle crossing.
//!
//! Geometry is carried in fixed-point integers: planar coordinates in
//! integer units, angles in units of `ANG_PI` per half turn.  The
//! transcendental evaluations (arctangent and arccosine of a pair's
//! geometry) are supplied by the caller as plain fixed-point values; every
//! decision taken on them, the candidate construction, the intersection
//! tests and the graph assembly are verified here.

pub mod angle;
pub mod graph;
pub mod num;
pub mod seg;
pub mod tangent;
pub mod types;
