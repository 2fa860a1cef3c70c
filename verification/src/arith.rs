//! Exact integer arithmetic helpers shared by the cost model and the
//! conflict oracle: ceiling division with its ordering lemmas, and a
//! widening 128-bit multiplication used to compare products that do not
//! fit one machine word.

use vstd::prelude::*;

verus! {

use vstd::arithmetic::div_mod::lemma_fundamental_div_mod;
use vstd::arithmetic::div_mod::lemma_div_is_ordered;
use vstd::arithmetic::div_mod::lemma_hoist_over_denominator;
use vstd::arithmetic::mul::lemma_mul_inequality;

/// Quotient of `a` by `b`, rounded towards positive infinity.
pub open spec fn div_ceil(a: int, b: int) -> int {
    (a + b - 1) / b
}

/// `div_ceil(a, b)` is the least number of whole steps of size `b` that
/// cover a distance `a`.
pub proof fn lemma_div_ceil_bounds(a: int, b: int)
    requires
        0 <= a,
        1 <= b,
    ensures
        0 <= div_ceil(a, b),
        a <= b * div_ceil(a, b),
        b * div_ceil(a, b) < a + b,
{
    lemma_fundamental_div_mod(a + b - 1, b);
    let q = (a + b - 1) / b;
    let r = (a + b - 1) % b;
    assert(a + b - 1 == b * q + r);
    assert(0 <= r < b);
    assert(b * q == a + b - 1 - r);
    if q < 0 {
        lemma_mul_inequality(q, -1, b);
        assert(q * b <= (-1) * b) by (nonlinear_arith)
            requires q <= -1, b >= 1;
        assert(b * q == q * b) by (nonlinear_arith);
        assert(false);
    }
}

/// Covering characterizes the ceiling quotient from above: any `k` whose
/// multiple of `b` reaches `a` is at least `div_ceil(a, b)`.
pub proof fn lemma_div_ceil_is_least(a: int, b: int, k: int)
    requires
        0 <= a,
        1 <= b,
        0 <= k,
        a <= b * k,
    ensures
        div_ceil(a, b) <= k,
{
    lemma_div_is_ordered(a + b - 1, b * k + b - 1, b);
    lemma_hoist_over_denominator(b - 1, k, b as nat);
    vstd::arithmetic::div_mod::lemma_basic_div(b - 1, b);
    assert((b - 1) / b == 0);
    assert((b - 1) / b + k == (b - 1 + k * b) / b);
    assert(b * k == k * b) by (nonlinear_arith);
}

/// A coarser step size never needs more steps: ceiling division is
/// antitone in its divisor.
pub proof fn lemma_div_ceil_antitone_divisor(a: int, s: int, v: int)
    requires
        0 <= a,
        1 <= s <= v,
    ensures
        div_ceil(a, v) <= div_ceil(a, s),
{
    lemma_div_ceil_bounds(a, s);
    let qs = div_ceil(a, s);
    assert(s * qs <= v * qs) by (nonlinear_arith)
        requires 1 <= s <= v, 0 <= qs;
    lemma_div_ceil_is_least(a, v, qs);
}

/// Splitting a floor quotient across a sum: if `aa` is covered by
/// `bb + cc`, its floor quotient is covered by the ceiling quotient of
/// `bb` (at any divisor `s` at most `v`) plus the floor quotient of `cc`.
pub proof fn lemma_floor_le_ceil_plus_floor(aa: int, bb: int, cc: int, s: int, v: int)
    requires
        0 <= aa,
        0 <= bb,
        0 <= cc,
        1 <= s <= v,
        aa <= bb + cc,
    ensures
        aa / v <= div_ceil(bb, s) + cc / v,
{
    lemma_div_ceil_bounds(bb, s);
    let q = div_ceil(bb, s);
    assert(s * q <= v * q) by (nonlinear_arith)
        requires 1 <= s <= v, 0 <= q;
    assert(bb <= v * q);
    lemma_div_is_ordered(aa, v * q + cc, v);
    lemma_hoist_over_denominator(cc, q, v as nat);
    assert(cc / v + q == (cc + q * v) / v);
    assert(q * v == v * q) by (nonlinear_arith);
}

/// The high and low halves returned by `mul_wide` stand for
/// `hi * 2^128 + lo`.
pub open spec fn wide_value(hi: int, lo: int) -> int {
    hi * 0x100000000000000000000000000000000 + lo
}

/// Full 256-bit product of two 128-bit words, split at bit 128.
pub fn mul_wide(x: u128, y: u128) -> (r: (u128, u128))
    ensures
        wide_value(r.0 as int, r.1 as int) == x * y,
{
    let b: u128 = 0x10000000000000000;
    let xl: u128 = x % b;
    let xh: u128 = x / b;
    let yl: u128 = y % b;
    let yh: u128 = y / b;
    proof {
        lemma_fundamental_div_mod(x as int, b as int);
        lemma_fundamental_div_mod(y as int, b as int);
        assert(xh <= 0xffffffffffffffff);
        assert(yh <= 0xffffffffffffffff);
        assert(xl * yl <= 0xffffffffffffffff * 0xffffffffffffffff) by (nonlinear_arith)
            requires xl <= 0xffffffffffffffff, yl <= 0xffffffffffffffff;
        assert(xl * yh <= 0xffffffffffffffff * 0xffffffffffffffff) by (nonlinear_arith)
            requires xl <= 0xffffffffffffffff, yh <= 0xffffffffffffffff;
        assert(xh * yl <= 0xffffffffffffffff * 0xffffffffffffffff) by (nonlinear_arith)
            requires xh <= 0xffffffffffffffff, yl <= 0xffffffffffffffff;
        assert(xh * yh <= 0xffffffffffffffff * 0xffffffffffffffff) by (nonlinear_arith)
            requires xh <= 0xffffffffffffffff, yh <= 0xffffffffffffffff;
    }
    let ll: u128 = xl * yl;
    let lh: u128 = xl * yh;
    let hl: u128 = xh * yl;
    let hh: u128 = xh * yh;
    proof {
        lemma_div_is_ordered(ll as int, 0xffffffffffffffff * b as int, b as int);
        assert((0xffffffffffffffff * 0x10000000000000000) / 0x10000000000000000 == 0xffffffffffffffff);
        lemma_div_is_ordered(lh as int, 0xffffffffffffffff * b as int, b as int);
        lemma_div_is_ordered(hl as int, 0xffffffffffffffff * b as int, b as int);
        assert(ll <= 0xffffffffffffffff * 0x10000000000000000);
        assert(lh <= 0xffffffffffffffff * 0x10000000000000000);
        assert(hl <= 0xffffffffffffffff * 0x10000000000000000);
    }
    let mid: u128 = ll / b + lh % b + hl % b;
    let lo: u128 = ll % b + (mid % b) * b;
    let hi: u128 = hh + lh / b + hl / b + mid / b;
    proof {
        lemma_fundamental_div_mod(ll as int, b as int);
        lemma_fundamental_div_mod(lh as int, b as int);
        lemma_fundamental_div_mod(hl as int, b as int);
        lemma_fundamental_div_mod(mid as int, b as int);
        assert(x * y == hh * 0x100000000000000000000000000000000 + lh * 0x10000000000000000
            + hl * 0x10000000000000000 + ll) by (nonlinear_arith)
            requires
                x == 0x10000000000000000 * xh + xl,
                y == 0x10000000000000000 * yh + yl,
                hh == xh * yh,
                lh == xl * yh,
                hl == xh * yl,
                ll == xl * yl;
        assert(mid * 0x10000000000000000 == (mid / 0x10000000000000000)
            * 0x100000000000000000000000000000000 + (mid % 0x10000000000000000)
            * 0x10000000000000000) by (nonlinear_arith)
            requires
                mid == 0x10000000000000000 * (mid / 0x10000000000000000) + mid
                    % 0x10000000000000000;
        assert(lh * 0x10000000000000000 == (lh / 0x10000000000000000)
            * 0x100000000000000000000000000000000 + (lh % 0x10000000000000000)
            * 0x10000000000000000) by (nonlinear_arith)
            requires
                lh == 0x10000000000000000 * (lh / 0x10000000000000000) + lh
                    % 0x10000000000000000;
        assert(hl * 0x10000000000000000 == (hl / 0x10000000000000000)
            * 0x100000000000000000000000000000000 + (hl % 0x10000000000000000)
            * 0x10000000000000000) by (nonlinear_arith)
            requires
                hl == 0x10000000000000000 * (hl / 0x10000000000000000) + hl
                    % 0x10000000000000000;
        assert(mid * 0x10000000000000000 == (ll / 0x10000000000000000) * 0x10000000000000000 + (lh
            % 0x10000000000000000) * 0x10000000000000000 + (hl % 0x10000000000000000)
            * 0x10000000000000000) by (nonlinear_arith)
            requires
                mid == ll / 0x10000000000000000 + lh % 0x10000000000000000 + hl
                    % 0x10000000000000000;
        assert(hi * 0x100000000000000000000000000000000 == hh
            * 0x100000000000000000000000000000000 + (lh / 0x10000000000000000)
            * 0x100000000000000000000000000000000 + (hl / 0x10000000000000000)
            * 0x100000000000000000000000000000000 + (mid / 0x10000000000000000)
            * 0x100000000000000000000000000000000) by (nonlinear_arith)
            requires
                hi == hh + lh / 0x10000000000000000 + hl / 0x10000000000000000 + mid
                    / 0x10000000000000000;
        assert(ll == 0x10000000000000000 * (ll / 0x10000000000000000) + ll % 0x10000000000000000);
        assert(0x10000000000000000 * (ll / 0x10000000000000000) == (ll / 0x10000000000000000)
            * 0x10000000000000000) by (nonlinear_arith);
        assert(wide_value(hi as int, lo as int) == x * y);
    }
    (hi, lo)
}

/// Exact comparison of two products of non-negative 128-bit words.
pub fn prod_le(x1: u128, y1: u128, x2: u128, y2: u128) -> (r: bool)
    ensures
        r == (x1 * y1 <= x2 * y2),
{
    let (h1, l1) = mul_wide(x1, y1);
    let (h2, l2) = mul_wide(x2, y2);
    h1 < h2 || (h1 == h2 && l1 <= l2)
}

} // verus!
