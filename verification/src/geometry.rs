//! Exact integer geometry: squared Euclidean distances, integer square
//! roots rounded in both directions, and the triangle inequality in the
//! rounded form that the admissible heuristic rests on.

use vstd::prelude::*;

verus! {

/// Square of an integer.
pub open spec fn sq(x: int) -> int {
    x * x
}

/// Squared Euclidean distance between the points `(ax, ay)` and `(bx, by)`.
pub open spec fn dist_sq(ax: int, ay: int, bx: int, by: int) -> int {
    sq(bx - ax) + sq(by - ay)
}

pub proof fn lemma_sq_nonneg(x: int)
    ensures
        sq(x) >= 0,
{
    assert(x * x >= 0) by (nonlinear_arith);
}

pub proof fn lemma_dist_sq_nonneg(ax: int, ay: int, bx: int, by: int)
    ensures
        dist_sq(ax, ay, bx, by) >= 0,
        dist_sq(ax, ay, bx, by) == dist_sq(bx, by, ax, ay),
{
    lemma_sq_nonneg(bx - ax);
    lemma_sq_nonneg(by - ay);
    assert((bx - ax) * (bx - ax) == (ax - bx) * (ax - bx)) by (nonlinear_arith);
    assert((by - ay) * (by - ay) == (ay - by) * (ay - by)) by (nonlinear_arith);
}

/// Integer square root of `x`, rounded down.
pub open spec fn sqrt_floor(x: nat) -> nat
    decreases x,
{
    if x == 0 {
        0
    } else {
        let r = sqrt_floor((x - 1) as nat);
        if (r + 1) * (r + 1) <= x {
            r + 1
        } else {
            r
        }
    }
}

/// Integer square root of `x`, rounded up.
pub open spec fn sqrt_ceil(x: nat) -> nat {
    if sqrt_floor(x) * sqrt_floor(x) == x {
        sqrt_floor(x)
    } else {
        sqrt_floor(x) + 1
    }
}

/// `sqrt_floor(x)` is the largest integer whose square is at most `x`.
pub proof fn lemma_sqrt_floor_bounds(x: nat)
    ensures
        sqrt_floor(x) * sqrt_floor(x) <= x,
        x < (sqrt_floor(x) + 1) * (sqrt_floor(x) + 1),
    decreases x,
{
    if x == 0 {
        assert(sqrt_floor(0) == 0);
        assert(x < (sqrt_floor(x) + 1) * (sqrt_floor(x) + 1)) by (nonlinear_arith)
            requires x == 0, sqrt_floor(x) == 0;
    } else {
        lemma_sqrt_floor_bounds((x - 1) as nat);
        let r = sqrt_floor((x - 1) as nat);
        if (r + 1) * (r + 1) <= x {
            assert(sqrt_floor(x) == r + 1);
            assert(x < (r + 1 + 1) * (r + 1 + 1)) by (nonlinear_arith)
                requires
                    x - 1 < (r + 1) * (r + 1),
                    r >= 0;
            assert(x < (sqrt_floor(x) + 1) * (sqrt_floor(x) + 1)) by (nonlinear_arith)
                requires
                    sqrt_floor(x) == r + 1,
                    x < (r + 1 + 1) * (r + 1 + 1);
        } else {
            assert(sqrt_floor(x) == r);
            assert(x < (r + 1) * (r + 1));
        }
    }
}

/// `sqrt_ceil(x)` is the smallest integer whose square is at least `x`.
pub proof fn lemma_sqrt_ceil_bounds(x: nat)
    ensures
        x <= sqrt_ceil(x) * sqrt_ceil(x),
        sqrt_ceil(x) <= sqrt_floor(x) + 1,
        sqrt_floor(x) <= sqrt_ceil(x),
        x > 0 ==> sqrt_ceil(x) >= 1,
{
    lemma_sqrt_floor_bounds(x);
}

/// Only one integer sits between the squares that bracket `x`.
pub proof fn lemma_sqrt_floor_unique(x: nat, r: nat)
    requires
        r * r <= x,
        x < (r + 1) * (r + 1),
    ensures
        r == sqrt_floor(x),
{
    lemma_sqrt_floor_bounds(x);
    let s = sqrt_floor(x);
    if r < s {
        assert((r + 1) * (r + 1) <= s * s) by (nonlinear_arith)
            requires r + 1 <= s;
        assert(false);
    }
    if s < r {
        assert((s + 1) * (s + 1) <= r * r) by (nonlinear_arith)
            requires s + 1 <= r;
        assert(false);
    }
}

/// Executable integer square root, rounded down.
pub fn isqrt(x: u64) -> (r: u64)
    ensures
        r == sqrt_floor(x as nat),
        r * r <= x,
        x < (r + 1) * (r + 1),
{
    let mut lo: u64 = 0;
    let mut hi: u64 = 0x100000000;
    proof {
        assert((0x100000000u64 as int) * (0x100000000u64 as int) > u64::MAX as int);
    }
    while hi - lo > 1
        invariant
            lo < hi,
            hi <= 0x100000000,
            lo * lo <= x,
            x < hi * hi,
        decreases hi - lo,
    {
        let mid: u64 = lo + (hi - lo) / 2;
        proof {
            assert(lo < mid < hi);
            assert(mid * mid < 0x100000000 * 0x100000000) by (nonlinear_arith)
                requires mid < 0x100000000;
        }
        if mid * mid <= x {
            lo = mid;
        } else {
            hi = mid;
        }
    }
    proof {
        lemma_sqrt_floor_unique(x as nat, lo as nat);
    }
    lo
}

/// Executable integer square root, rounded up.
pub fn isqrt_ceil(x: u64) -> (r: u64)
    ensures
        r == sqrt_ceil(x as nat),
        x <= r * r,
{
    let f = isqrt(x);
    proof {
        assert(f < 0x100000000) by (nonlinear_arith)
            requires f * f <= x, x < 0x10000000000000000;
        lemma_sqrt_ceil_bounds(x as nat);
    }
    if f * f == x {
        f
    } else {
        f + 1
    }
}

/// Cauchy-Schwarz in the plane: a dot product squared never exceeds the
/// product of the squared norms.
pub proof fn lemma_cauchy_schwarz(ux: int, uy: int, wx: int, wy: int)
    ensures
        (ux * wx + uy * wy) * (ux * wx + uy * wy) <= (ux * ux + uy * uy) * (wx * wx + wy * wy),
{
    let a = ux * wx;
    let b = uy * wy;
    let c = ux * wy;
    let d = uy * wx;
    assert((a + b) * (a + b) == a * a + 2 * (a * b) + b * b) by (nonlinear_arith);
    assert((c - d) * (c - d) == c * c - 2 * (c * d) + d * d) by (nonlinear_arith);
    assert(a * b == c * d) by (nonlinear_arith)
        requires
            a == ux * wx,
            b == uy * wy,
            c == ux * wy,
            d == uy * wx;
    assert(a * a == (ux * ux) * (wx * wx)) by (nonlinear_arith)
        requires a == ux * wx;
    assert(b * b == (uy * uy) * (wy * wy)) by (nonlinear_arith)
        requires b == uy * wy;
    assert(c * c == (ux * ux) * (wy * wy)) by (nonlinear_arith)
        requires c == ux * wy;
    assert(d * d == (uy * uy) * (wx * wx)) by (nonlinear_arith)
        requires d == uy * wx;
    let p = ux * ux;
    let q = uy * uy;
    let s = wx * wx;
    let t = wy * wy;
    assert(p * s + q * t + p * t + q * s == (p + q) * (s + t)) by (nonlinear_arith);
    assert((c - d) * (c - d) >= 0) by (nonlinear_arith);
}

/// Triangle inequality for rounded integer square roots of squared
/// distances: the floor-rounded direct distance never exceeds the
/// ceiling-rounded first leg plus the floor-rounded second leg.
pub proof fn lemma_sqrt_dist_triangle(x0: int, y0: int, x1: int, y1: int, x2: int, y2: int)
    ensures
        sqrt_floor(dist_sq(x0, y0, x2, y2) as nat) <= sqrt_ceil(dist_sq(x0, y0, x1, y1) as nat)
            + sqrt_floor(dist_sq(x1, y1, x2, y2) as nat),
{
    lemma_dist_sq_nonneg(x0, y0, x2, y2);
    lemma_dist_sq_nonneg(x0, y0, x1, y1);
    lemma_dist_sq_nonneg(x1, y1, x2, y2);
    let d02 = dist_sq(x0, y0, x2, y2) as nat;
    let d01 = dist_sq(x0, y0, x1, y1) as nat;
    let d12 = dist_sq(x1, y1, x2, y2) as nat;
    let aa = sqrt_floor(d02) as int;
    let bb = sqrt_ceil(d01) as int;
    let cc = sqrt_floor(d12) as int;
    lemma_sqrt_floor_bounds(d02);
    lemma_sqrt_ceil_bounds(d01);
    lemma_sqrt_floor_bounds(d12);
    let ux = x1 - x0;
    let uy = y1 - y0;
    let wx = x2 - x1;
    let wy = y2 - y1;
    let dot = ux * wx + uy * wy;
    assert(d02 == d01 + d12 + 2 * dot) by (nonlinear_arith)
        requires
            d02 == (x2 - x0) * (x2 - x0) + (y2 - y0) * (y2 - y0),
            d01 == (x1 - x0) * (x1 - x0) + (y1 - y0) * (y1 - y0),
            d12 == (x2 - x1) * (x2 - x1) + (y2 - y1) * (y2 - y1),
            dot == (x1 - x0) * (x2 - x1) + (y1 - y0) * (y2 - y1);
    lemma_cauchy_schwarz(ux, uy, wx, wy);
    assert(d01 * d12 <= (bb * bb) * ((cc + 1) * (cc + 1))) by (nonlinear_arith)
        requires
            0 <= d01 <= bb * bb,
            0 <= d12 < (cc + 1) * (cc + 1);
    assert((bb * bb) * ((cc + 1) * (cc + 1)) == (bb * (cc + 1)) * (bb * (cc + 1)))
        by (nonlinear_arith);
    assert(dot <= bb * (cc + 1)) by (nonlinear_arith)
        requires
            dot * dot <= (bb * (cc + 1)) * (bb * (cc + 1)),
            bb >= 0,
            cc >= 0;
    if aa > bb + cc {
        assert((bb + cc + 1) * (bb + cc + 1) <= aa * aa) by (nonlinear_arith)
            requires bb + cc + 1 <= aa, bb >= 0, cc >= 0;
        assert(d02 <= bb * bb + ((cc + 1) * (cc + 1) - 1) + 2 * (bb * (cc + 1)));
        assert(bb * bb + ((cc + 1) * (cc + 1) - 1) + 2 * (bb * (cc + 1))
            == (bb + cc + 1) * (bb + cc + 1) - 1) by (nonlinear_arith);
        assert(false);
    }
}

} // verus!
