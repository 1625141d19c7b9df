//! Integer geometry: squared distances, an integer square root, and the
//! pixel-to-source distance with its minimum-distance policy.
//!
//! A distance of zero would make the field value `radius / distance` blow up,
//! so distances are clamped from below to `1`: the same policy a careful
//! renderer applies to avoid a division by zero at a source's own pixel.

use vstd::prelude::*;

verus! {

pub open spec fn sq(x: int) -> int {
    x * x
}

/// The integer square root: the unique `r` with `r * r <= n < (r + 1) * (r + 1)`.
pub open spec fn isqrt_spec(n: nat) -> nat
    decreases n,
{
    if n == 0 {
        0
    } else {
        let r = isqrt_spec((n - 1) as nat);
        if (r + 1) * (r + 1) <= n {
            r + 1
        } else {
            r
        }
    }
}

pub proof fn lemma_isqrt_bounds(n: nat)
    ensures
        sq(isqrt_spec(n) as int) <= n < sq(isqrt_spec(n) as int + 1),
    decreases n,
{
    if n > 0 {
        lemma_isqrt_bounds((n - 1) as nat);
        let r = isqrt_spec((n - 1) as nat);
        assert(sq(r as int) <= n - 1 < sq(r as int + 1));
        if (r + 1) * (r + 1) <= n {
            assert(isqrt_spec(n) == r + 1);
            assert(n < sq(r as int + 2)) by (nonlinear_arith)
                requires
                    r >= 0 && (n - 1) < sq(r as int + 1),
            ;
            assert(sq(isqrt_spec(n) as int) <= n < sq(isqrt_spec(n) as int + 1));
        } else {
            assert(isqrt_spec(n) == r);
            assert(sq(isqrt_spec(n) as int) <= n < sq(isqrt_spec(n) as int + 1));
        }
    } else {
        assert(isqrt_spec(0) == 0);
        assert(sq(isqrt_spec(n) as int) <= n < sq(isqrt_spec(n) as int + 1));
    }
}

/// Any `r` in the characteristic bracket is the integer square root.
pub proof fn lemma_isqrt_unique(n: nat, r: nat)
    requires
        sq(r as int) <= n < sq(r as int + 1),
    ensures
        r == isqrt_spec(n),
{
    lemma_isqrt_bounds(n);
    let s = isqrt_spec(n);
    if r < s {
        assert((r + 1) * (r + 1) <= s * s) by (nonlinear_arith)
            requires
                r + 1 <= s,
        ;
    }
    if s < r {
        assert((s + 1) * (s + 1) <= r * r) by (nonlinear_arith)
            requires
                s + 1 <= r,
        ;
    }
}

/// Binary search for the integer square root of a value below `2^62`.
fn isqrt64(n: u64) -> (r: u64)
    requires
        n < 0x4000_0000_0000_0000,
    ensures
        r == isqrt_spec(n as nat),
        sq(r as int) <= n < sq(r as int + 1),
{
    let mut lo: u64 = 0;
    let mut hi: u64 = 0x8000_0000;
    assert(sq(hi as int) > n as int) by (nonlinear_arith)
        requires
            hi == 0x8000_0000 && n < 0x4000_0000_0000_0000,
    ;
    while hi - lo > 1
        invariant
            lo < hi,
            hi <= 0x8000_0000,
            sq(lo as int) <= n as int,
            (n as int) < sq(hi as int),
        decreases hi - lo,
    {
        let mid: u64 = lo + (hi - lo) / 2;
        proof {
            assert((mid as int) * (mid as int) <= 0x4000_0000_0000_0000) by (nonlinear_arith)
                requires
                    mid <= 0x8000_0000,
            ;
        }
        if mid * mid <= n {
            lo = mid;
        } else {
            hi = mid;
        }
    }
    proof {
        lemma_isqrt_unique(n as nat, lo as nat);
    }
    lo
}

/// Binary search for the integer square root of a value below `2^66`; the
/// smaller search is preferred at run time, this one covers the full range of
/// squared `i32` differences.
fn isqrt128(n: u128) -> (r: u64)
    requires
        n < 0x4_0000_0000_0000_0000,
    ensures
        r == isqrt_spec(n as nat),
        sq(r as int) <= n < sq(r as int + 1),
{
    let mut lo: u64 = 0;
    let mut hi: u64 = 0x2_0000_0000;
    assert(sq(hi as int) > n as int) by (nonlinear_arith)
        requires
            hi == 0x2_0000_0000 && n < 0x4_0000_0000_0000_0000,
    ;
    while hi - lo > 1
        invariant
            lo < hi,
            hi <= 0x2_0000_0000,
            sq(lo as int) <= n as int,
            (n as int) < sq(hi as int),
        decreases hi - lo,
    {
        let mid: u64 = lo + (hi - lo) / 2;
        proof {
            assert((mid as int) * (mid as int) <= 0x4_0000_0000_0000_0000) by (nonlinear_arith)
                requires
                    mid <= 0x2_0000_0000,
            ;
        }
        if (mid as u128) * (mid as u128) <= n {
            lo = mid;
        } else {
            hi = mid;
        }
    }
    proof {
        lemma_isqrt_unique(n as nat, lo as nat);
    }
    lo
}

/// The squared Euclidean distance between two points.
pub open spec fn dist2_spec(x1: int, y1: int, x2: int, y2: int) -> int {
    sq(x2 - x1) + sq(y2 - y1)
}

/// The pixel distance: the integer square root of the squared distance,
/// clamped from below to `1` (the minimum-distance policy).
pub open spec fn dist_spec(x1: int, y1: int, x2: int, y2: int) -> int {
    let d = isqrt_spec(dist2_spec(x1, y1, x2, y2) as nat);
    if d < 1 {
        1
    } else {
        d as int
    }
}

pub proof fn lemma_dist2_nonneg(x1: int, y1: int, x2: int, y2: int)
    ensures
        dist2_spec(x1, y1, x2, y2) >= 0,
        sq(x2 - x1) >= 0,
        sq(y2 - y1) >= 0,
{
    assert(sq(x2 - x1) >= 0 && sq(y2 - y1) >= 0) by (nonlinear_arith);
}

/// Distances are at least `1` and, for `i32` coordinates, below `2^33`.
pub proof fn lemma_dist_range(x1: int, y1: int, x2: int, y2: int)
    requires
        -0x8000_0000 <= x1 < 0x8000_0000,
        -0x8000_0000 <= y1 < 0x8000_0000,
        -0x8000_0000 <= x2 < 0x8000_0000,
        -0x8000_0000 <= y2 < 0x8000_0000,
    ensures
        1 <= dist_spec(x1, y1, x2, y2) < 0x2_0000_0000,
{
    lemma_dist2_nonneg(x1, y1, x2, y2);
    let n = dist2_spec(x1, y1, x2, y2) as nat;
    assert(sq(x2 - x1) < 0x1_0000_0000_0000_0000 && sq(y2 - y1) < 0x1_0000_0000_0000_0000)
        by (nonlinear_arith)
        requires
            -0x1_0000_0000 < x2 - x1 < 0x1_0000_0000 && -0x1_0000_0000 < y2 - y1 < 0x1_0000_0000,
    ;
    lemma_isqrt_bounds(n);
    let r = isqrt_spec(n);
    if r >= 0x2_0000_0000 {
        assert(sq(0x2_0000_0000) <= sq(r as int)) by (nonlinear_arith)
            requires
                0x2_0000_0000 <= r,
        ;
    }
}

/// The Euclidean distance from `(x1, y1)` to `(x2, y2)`, floored to an integer
/// and clamped from below to `1`.
pub fn dst_from(x1: i32, y1: i32, x2: i32, y2: i32) -> (d: u64)
    ensures
        d == dist_spec(x1 as int, y1 as int, x2 as int, y2 as int),
        1 <= d < 0x2_0000_0000,
{
    let dx: i64 = x2 as i64 - x1 as i64;
    let dy: i64 = y2 as i64 - y1 as i64;
    let dxa: u64 = if dx >= 0 {
        dx as u64
    } else {
        (-dx) as u64
    };
    let dya: u64 = if dy >= 0 {
        dy as u64
    } else {
        (-dy) as u64
    };
    proof {
        assert(dxa as int * dxa as int == sq(x2 as int - x1 as int) && dya as int * dya as int
            == sq(y2 as int - y1 as int)) by (nonlinear_arith)
            requires
                (dxa == x2 as int - x1 as int || dxa == -(x2 as int - x1 as int)) && (dya
                    == y2 as int - y1 as int || dya == -(y2 as int - y1 as int)),
        ;
        lemma_dist2_nonneg(x1 as int, y1 as int, x2 as int, y2 as int);
    }
    let r: u64 = if dxa < 0x4000_0000 && dya < 0x4000_0000 {
        proof {
            assert((dxa as int) * (dxa as int) < 0x1000_0000_0000_0000 && (dya as int) * (dya
                as int) < 0x1000_0000_0000_0000) by (nonlinear_arith)
                requires
                    dxa < 0x4000_0000 && dya < 0x4000_0000,
            ;
        }
        isqrt64(dxa * dxa + dya * dya)
    } else {
        proof {
            assert((dxa as int) * (dxa as int) < 0x1_0000_0000_0000_0000 && (dya as int) * (dya
                as int) < 0x1_0000_0000_0000_0000) by (nonlinear_arith)
                requires
                    dxa < 0x1_0000_0000 && dya < 0x1_0000_0000,
            ;
        }
        isqrt128((dxa as u128) * (dxa as u128) + (dya as u128) * (dya as u128))
    };
    proof {
        lemma_dist_range(x1 as int, y1 as int, x2 as int, y2 as int);
    }
    if r < 1 {
        1
    } else {
        r
    }
}

} // verus!
