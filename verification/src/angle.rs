//! Fixed-point angle bookkeeping: normalization into the two directed
//! ranges used by the tangent engine, and the polarity reversal that
//! turns a tangent's angles into those of its reciprocal edge.

use vstd::prelude::*;
use crate::types::ANG_PI;
use crate::types::ANG_TWO_PI;
use vstd::arithmetic::div_mod::lemma_mod_multiples_vanish;

verus! {

/// The unique representative of `a` modulo a full turn in `[0, ANG_TWO_PI)`.
pub open spec fn norm_pos(a: int) -> int {
    a % (ANG_TWO_PI as int)
}

/// The unique representative of `a` modulo a full turn in `(-ANG_TWO_PI, 0]`.
pub open spec fn norm_neg(a: int) -> int {
    if a % (ANG_TWO_PI as int) == 0 {
        0
    } else {
        a % (ANG_TWO_PI as int) - ANG_TWO_PI
    }
}

/// The normalization the tangent engine applies: into `[0, ANG_TWO_PI)`
/// when `positive`, into the mirrored range `(-ANG_TWO_PI, 0]` otherwise.
/// The two ranges keep the two sides of each tangent family apart.
pub open spec fn norm_spec(positive: bool, a: int) -> int {
    if positive {
        norm_pos(a)
    } else {
        norm_neg(a)
    }
}

/// A value in the chosen range that differs from `a` by whole turns is
/// the normalization of `a`.
proof fn lemma_norm_chars(positive: bool, a: int, b: int, k: int)
    requires
        a == b + k * (ANG_TWO_PI as int),
        positive ==> 0 <= b < ANG_TWO_PI as int,
        !positive ==> -(ANG_TWO_PI as int) < b <= 0,
    ensures
        norm_spec(positive, a) == b,
{
    let t = ANG_TWO_PI as int;
    lemma_mod_multiples_vanish(k, b, t);
    assert(a % t == b % t);
    if positive {
        assert(b % t == b) by (nonlinear_arith)
            requires
                0 <= b < t,
                0 < t,
        ;
    } else {
        if b == 0 {
            assert(b % t == 0);
        } else {
            assert(b % t == b + t) by (nonlinear_arith)
                requires
                    -t < b < 0,
                    0 < t,
            ;
        }
    }
}

/// Normalize an angle into `[0, ANG_TWO_PI)` (when `positive`) or into
/// `(-ANG_TWO_PI, 0]` (otherwise), preserving it modulo whole turns.
pub fn normalize_angle(positive: bool, angle: i64) -> (r: i64)
    requires
        -1_000_000_000_000 <= angle <= 1_000_000_000_000,
    ensures
        r as int == norm_spec(positive, angle as int),
        positive ==> 0 <= r < ANG_TWO_PI,
        !positive ==> -ANG_TWO_PI < r <= 0,
{
    let mut a: i64 = angle;
    let ghost mut k: int = 0;
    if positive {
        while a < 0
            invariant
                angle as int == a as int + k * (ANG_TWO_PI as int),
                a >= -1_000_000_000_000,
            decreases ANG_TWO_PI - a,
        {
            a = a + ANG_TWO_PI;
            proof {
                k = k - 1;
            }
        }
        while a >= ANG_TWO_PI
            invariant
                angle as int == a as int + k * (ANG_TWO_PI as int),
                a >= 0,
            decreases a,
        {
            a = a - ANG_TWO_PI;
            proof {
                k = k + 1;
            }
        }
        proof {
            lemma_norm_chars(true, angle as int, a as int, k);
        }
    } else {
        while a > 0
            invariant
                angle as int == a as int + k * (ANG_TWO_PI as int),
                a <= 1_000_000_000_000,
            decreases a + ANG_TWO_PI,
        {
            a = a - ANG_TWO_PI;
            proof {
                k = k + 1;
            }
        }
        while a <= -ANG_TWO_PI
            invariant
                angle as int == a as int + k * (ANG_TWO_PI as int),
                a <= 0,
            decreases -a,
        {
            a = a + ANG_TWO_PI;
            proof {
                k = k - 1;
            }
        }
        proof {
            lemma_norm_chars(false, angle as int, a as int, k);
        }
    }
    a
}

/// The polarity reversal applied to a tangent's angles when the same
/// physical line is traversed from the other node: a normalized angle
/// crosses into the mirrored range.
pub open spec fn reverse_polarity_spec(a: int) -> int {
    if a >= 0 {
        a - ANG_TWO_PI as int
    } else {
        a + ANG_TWO_PI as int
    }
}

/// Flip a normalized angle into the mirrored normalization range.
pub fn reverse_polarity(angle: i64) -> (r: i64)
    requires
        -ANG_TWO_PI <= angle <= ANG_TWO_PI,
    ensures
        r as int == reverse_polarity_spec(angle as int),
{
    if angle >= 0 {
        angle - ANG_TWO_PI
    } else {
        angle + ANG_TWO_PI
    }
}

/// Polarity reversal is an involution on the normalized ranges: applying
/// it twice returns the angle it started from, so the reciprocal of a
/// reciprocal edge carries the original tangent angles.
pub proof fn lemma_reverse_polarity_involution(a: int)
    requires
        -(ANG_TWO_PI as int) < a < ANG_TWO_PI as int,
    ensures
        reverse_polarity_spec(reverse_polarity_spec(a)) == a,
{
}

} // verus!
