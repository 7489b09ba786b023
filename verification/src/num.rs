//! Small verified integer helpers: squares and the integer square root
//! used for edge lengths.

use vstd::prelude::*;

verus! {

/// The square of a bounded value, with its range established.
pub fn sq(v: i64) -> (r: i64)
    requires
        -4_000_000 <= v <= 4_000_000,
    ensures
        r == v * v,
        0 <= r <= 16_000_000_000_000,
{
    proof {
        assert(0 <= v * v <= 16_000_000_000_000) by (nonlinear_arith)
            requires
                -4_000_000 <= v <= 4_000_000,
        ;
    }
    v * v
}

/// The floor of the nonnegative square root of `n`.
pub open spec fn sqrt_floor(n: int) -> int {
    choose|r: int| 0 <= r && #[trigger] (r * r) <= n && n < (r + 1) * (r + 1)
}

/// The floor of the square root is pinned down by its defining bounds.
pub proof fn lemma_sqrt_floor_unique(n: int, r: int)
    requires
        0 <= r,
        r * r <= n,
        n < (r + 1) * (r + 1),
    ensures
        sqrt_floor(n) == r,
{
    assert(exists|c: int| 0 <= c && #[trigger] (c * c) <= n && n < (c + 1) * (c + 1)) by {
        assert(0 <= r && r * r <= n && n < (r + 1) * (r + 1));
    }
    let c = sqrt_floor(n);
    assert(0 <= c && c * c <= n && n < (c + 1) * (c + 1));
    assert(c == r) by (nonlinear_arith)
        requires
            0 <= r,
            r * r <= n,
            n < (r + 1) * (r + 1),
            0 <= c,
            c * c <= n,
            n < (c + 1) * (c + 1),
    ;
}

/// Integer square root by bisection.
pub fn isqrt(n: u64) -> (r: u64)
    requires
        n <= 20_000_000_000_000,
    ensures
        r * r <= n < (r + 1) * (r + 1),
        r as int == sqrt_floor(n as int),
        r <= 5_000_000,
{
    let mut lo: u64 = 0;
    let mut hi: u64 = 5_000_000;
    assert(hi * hi > n);
    while lo + 1 < hi
        invariant
            lo < hi,
            hi <= 5_000_000,
            lo * lo <= n,
            n < hi * hi,
        decreases hi - lo,
    {
        let mid: u64 = lo + (hi - lo) / 2;
        proof {
            assert(mid * mid <= 25_000_000_000_000) by (nonlinear_arith)
                requires
                    mid <= 5_000_000,
            ;
        }
        if mid * mid <= n {
            lo = mid;
        } else {
            hi = mid;
        }
    }
    proof {
        lemma_sqrt_floor_unique(n as int, lo as int);
    }
    lo
}

} // verus!
