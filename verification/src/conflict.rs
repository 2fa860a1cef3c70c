//! Exact mathematics of the conflict oracle.
//!
//! Two agents move at constant velocity along straight segments during
//! overlapping time intervals. Their circular footprints conflict when
//! the squared distance between their centres drops to the squared sum
//! of their radii at some instant of the overlap. Over integer inputs
//! that condition is a quadratic inequality in time with integer
//! coefficients once every position is scaled by the product of the two
//! move durations, so it can be decided exactly: the quadratic dips to
//! or below zero on the overlap window if and only if it is non-positive
//! at one of the window's ends or its vertex lies inside the window with
//! a non-negative discriminant.

use vstd::prelude::*;

verus! {

/// One timed move through the plane, at the specification level: origin
/// position, destination position, and the tick interval during which
/// the agent travels between them at constant velocity.
pub ghost struct Seg {
    pub fx: int,
    pub fy: int,
    pub tx: int,
    pub ty: int,
    pub start: int,
    pub end: int,
}

/// Start of the overlap of the two moves' intervals.
pub open spec fn overlap_start(m1: Seg, m2: Seg) -> int {
    if m1.start >= m2.start {
        m1.start
    } else {
        m2.start
    }
}

/// End of the overlap of the two moves' intervals.
pub open spec fn overlap_end(m1: Seg, m2: Seg) -> int {
    if m1.end <= m2.end {
        m1.end
    } else {
        m2.end
    }
}

/// Numerator of the x position of the agent performing `m` at time
/// `t0 + p / q`, over the denominator `(m.end - m.start) * q`: linear
/// interpolation between the origin and destination positions.
pub open spec fn pos_num_x(m: Seg, t0: int, p: int, q: int) -> int {
    q * (m.fx * (m.end - m.start) + (m.tx - m.fx) * (t0 - m.start)) + (m.tx - m.fx) * p
}

/// Numerator of the y position, as `pos_num_x`.
pub open spec fn pos_num_y(m: Seg, t0: int, p: int, q: int) -> int {
    q * (m.fy * (m.end - m.start) + (m.ty - m.fy) * (t0 - m.start)) + (m.ty - m.fy) * p
}

/// The two agents' footprints touch or overlap at time `t0 + p / q`,
/// where `t0` is the start of the interval overlap: the squared distance
/// between the centres is at most the squared radius sum `rr`, all
/// scaled by the common denominator `e1 * e2 * q`.
pub open spec fn in_contact_at(m1: Seg, m2: Seg, rr: int, p: int, q: int) -> bool {
    let t0 = overlap_start(m1, m2);
    let e1 = m1.end - m1.start;
    let e2 = m2.end - m2.start;
    let dx = e2 * pos_num_x(m1, t0, p, q) - e1 * pos_num_x(m2, t0, p, q);
    let dy = e2 * pos_num_y(m1, t0, p, q) - e1 * pos_num_y(m2, t0, p, q);
    dx * dx + dy * dy <= (rr * e1 * e2 * q) * (rr * e1 * e2 * q)
}

/// A rational instant `t0 + p / q` that lies within the interval overlap
/// and at which the footprints are in contact.
pub open spec fn contact_within_overlap(m1: Seg, m2: Seg, rr: int, p: int, q: int) -> bool {
    &&& q > 0
    &&& 0 <= p <= (overlap_end(m1, m2) - overlap_start(m1, m2)) * q
    &&& in_contact_at(m1, m2, rr, p, q)
}

/// Two timed moves conflict when their intervals overlap for a positive
/// duration and the footprints come into contact at some instant of the
/// overlap.
pub open spec fn segs_conflict(m1: Seg, m2: Seg, rr: int) -> bool {
    &&& overlap_start(m1, m2) < overlap_end(m1, m2)
    &&& exists |p: int, q: int| contact_within_overlap(m1, m2, rr, p, q)
}

/// x component of the scaled relative position of the two agents at the
/// start of the overlap, over the denominator `e1 * e2`.
pub open spec fn rel_u_x(m1: Seg, m2: Seg) -> int {
    let t0 = overlap_start(m1, m2);
    (m2.end - m2.start) * (m1.fx * (m1.end - m1.start) + (m1.tx - m1.fx) * (t0 - m1.start)) - (
    m1.end - m1.start) * (m2.fx * (m2.end - m2.start) + (m2.tx - m2.fx) * (t0 - m2.start))
}

/// y component of the scaled relative position at the overlap start.
pub open spec fn rel_u_y(m1: Seg, m2: Seg) -> int {
    let t0 = overlap_start(m1, m2);
    (m2.end - m2.start) * (m1.fy * (m1.end - m1.start) + (m1.ty - m1.fy) * (t0 - m1.start)) - (
    m1.end - m1.start) * (m2.fy * (m2.end - m2.start) + (m2.ty - m2.fy) * (t0 - m2.start))
}

/// x component of the scaled relative velocity, over `e1 * e2`.
pub open spec fn rel_v_x(m1: Seg, m2: Seg) -> int {
    (m2.end - m2.start) * (m1.tx - m1.fx) - (m1.end - m1.start) * (m2.tx - m2.fx)
}

/// y component of the scaled relative velocity.
pub open spec fn rel_v_y(m1: Seg, m2: Seg) -> int {
    (m2.end - m2.start) * (m1.ty - m1.fy) - (m1.end - m1.start) * (m2.ty - m2.fy)
}

/// Leading coefficient of the scaled squared-distance quadratic: the
/// squared norm of the relative velocity.
pub open spec fn coef_a(m1: Seg, m2: Seg) -> int {
    rel_v_x(m1, m2) * rel_v_x(m1, m2) + rel_v_y(m1, m2) * rel_v_y(m1, m2)
}

/// Half the linear coefficient: the dot product of relative position and
/// relative velocity.
pub open spec fn coef_h(m1: Seg, m2: Seg) -> int {
    rel_u_x(m1, m2) * rel_v_x(m1, m2) + rel_u_y(m1, m2) * rel_v_y(m1, m2)
}

/// Constant coefficient: the squared relative distance at the overlap
/// start minus the squared scaled radius sum.
pub open spec fn coef_c(m1: Seg, m2: Seg, rr: int) -> int {
    rel_u_x(m1, m2) * rel_u_x(m1, m2) + rel_u_y(m1, m2) * rel_u_y(m1, m2) - (rr * (m1.end
        - m1.start) * (m2.end - m2.start)) * (rr * (m1.end - m1.start) * (m2.end - m2.start))
}

/// Value of the quadratic `a p^2 + 2 h p q + c q^2`: the scaled squared
/// distance margin at time `t0 + p / q`.
pub open spec fn qval(a: int, h: int, c: int, p: int, q: int) -> int {
    a * p * p + 2 * h * p * q + c * q * q
}

/// A rational point `p / q` of the window `[0, dd]` at which the
/// quadratic is non-positive.
pub open spec fn qwitness(a: int, h: int, c: int, dd: int, p: int, q: int) -> bool {
    &&& q > 0
    &&& 0 <= p <= dd * q
    &&& qval(a, h, c, p, q) <= 0
}

/// The executable test for the existence of such a point: non-positive
/// at the window start, or at the window end, or the vertex lies
/// strictly inside the window and the discriminant is non-negative.
pub open spec fn qdecision(a: int, h: int, c: int, dd: int) -> bool {
    ||| c <= 0
    ||| a * dd * dd + 2 * h * dd + c <= 0
    ||| (a > 0 && h < 0 && -h < a * dd && h * h >= a * c)
}

/// If the decision predicate holds, the quadratic has a non-positive
/// rational point in the window: one of the window ends, or the vertex
/// `-h / a` itself, which the vertex conditions place inside the window.
pub proof fn lemma_qdecision_implies_witness(a: int, h: int, c: int, dd: int)
    requires
        a >= 0,
        dd > 0,
        qdecision(a, h, c, dd),
    ensures
        exists |p: int, q: int| qwitness(a, h, c, dd, p, q),
{
    if c <= 0 {
        assert(qval(a, h, c, 0, 1) == c) by (nonlinear_arith);
        assert(qwitness(a, h, c, dd, 0, 1));
    } else if a * dd * dd + 2 * h * dd + c <= 0 {
        assert(qval(a, h, c, dd, 1) == a * dd * dd + 2 * h * dd + c) by (nonlinear_arith);
        assert(qwitness(a, h, c, dd, dd, 1));
    } else {
        assert(a > 0 && h < 0 && -h < a * dd && h * h >= a * c);
        assert(qval(a, h, c, -h, a) == a * (a * c - h * h)) by (nonlinear_arith);
        assert(a * (a * c - h * h) <= 0) by (nonlinear_arith)
            requires a > 0, h * h >= a * c;
        assert(-h <= dd * a) by (nonlinear_arith)
            requires -h < a * dd;
        assert(qwitness(a, h, c, dd, -h, a));
    }
}

/// Conversely, a non-positive rational point in the window forces the
/// decision predicate: if the quadratic is positive at both window ends,
/// the point can only lie at an interior minimum, so the quadratic is
/// strictly convex, its vertex lies inside the window, and its
/// discriminant is non-negative.
pub proof fn lemma_qwitness_implies_qdecision(a: int, h: int, c: int, dd: int)
    requires
        a >= 0,
        dd > 0,
        exists |p: int, q: int| qwitness(a, h, c, dd, p, q),
    ensures
        qdecision(a, h, c, dd),
{
    let (p, q) = choose |p: int, q: int| qwitness(a, h, c, dd, p, q);
    assert(q > 0 && 0 <= p <= dd * q && qval(a, h, c, p, q) <= 0);
    if c <= 0 || a * dd * dd + 2 * h * dd + c <= 0 {
    } else {
        let qdd = a * dd * dd + 2 * h * dd + c;
        // The quadratic is positive at both window ends from here on.
        if a == 0 {
            assert(a * p * p == 0) by (nonlinear_arith)
                requires a == 0;
            assert(a * dd * dd == 0) by (nonlinear_arith)
                requires a == 0;
            assert(2 * h * p * q + c * q * q <= 0);
            assert(2 * h * dd + c > 0);
            if h >= 0 {
                assert(2 * h * p * q >= 0) by (nonlinear_arith)
                    requires h >= 0, p >= 0, q > 0;
                assert(c * q * q > 0) by (nonlinear_arith)
                    requires c > 0, q > 0;
                assert(false);
            } else {
                assert(2 * h * p * q >= 2 * h * dd * q * q) by (nonlinear_arith)
                    requires h < 0, p <= dd * q, q > 0;
                assert(2 * h * dd * q * q + c * q * q == (2 * h * dd + c) * (q * q))
                    by (nonlinear_arith);
                assert((2 * h * dd + c) * (q * q) > 0) by (nonlinear_arith)
                    requires 2 * h * dd + c > 0, q > 0;
                assert(false);
            }
        }
        assert(a > 0);
        if h >= 0 {
            assert(a * p * p >= 0) by (nonlinear_arith)
                requires a > 0;
            assert(2 * h * p * q >= 0) by (nonlinear_arith)
                requires h >= 0, p >= 0, q > 0;
            assert(c * q * q > 0) by (nonlinear_arith)
                requires c > 0, q > 0;
            assert(false);
        }
        assert(h < 0);
        let ap = a * p;
        let hq = h * q;
        let s = ap + hq;
        assert(s * s == ap * ap + 2 * (ap * hq) + hq * hq) by (nonlinear_arith)
            requires s == ap + hq;
        assert(ap * ap == (a * a) * (p * p)) by (nonlinear_arith)
            requires ap == a * p;
        assert(ap * hq == (a * h) * (p * q)) by (nonlinear_arith)
            requires ap == a * p, hq == h * q;
        assert(hq * hq == (h * h) * (q * q)) by (nonlinear_arith)
            requires hq == h * q;
        assert(s * s == (a * a) * (p * p) + 2 * ((a * h) * (p * q)) + (h * h) * (q * q));
        let qv = qval(a, h, c, p, q);
        assert(a * qv == a * (a * p * p) + a * (2 * h * p * q) + a * (c * q * q))
            by (nonlinear_arith)
            requires qv == a * p * p + 2 * h * p * q + c * q * q;
        assert(a * (a * p * p) == (a * a) * (p * p)) by (nonlinear_arith);
        assert(a * (2 * h * p * q) == 2 * ((a * h) * (p * q))) by (nonlinear_arith);
        assert(a * (c * q * q) == (a * c) * (q * q)) by (nonlinear_arith);
        assert(a * qval(a, h, c, p, q) == (a * a) * (p * p) + 2 * ((a * h) * (p * q)) + (a * c)
            * (q * q));
        assert((a * c - h * h) * (q * q) == (a * c) * (q * q) - (h * h) * (q * q))
            by (nonlinear_arith);
        assert(s * s + (a * c - h * h) * (q * q) == a * qval(a, h, c, p, q));
        assert(a * qval(a, h, c, p, q) <= 0) by (nonlinear_arith)
            requires a > 0, qval(a, h, c, p, q) <= 0;
        assert(s * s >= 0) by (nonlinear_arith);
        assert((a * c - h * h) * (q * q) <= 0);
        assert(a * c - h * h <= 0) by (nonlinear_arith)
            requires (a * c - h * h) * (q * q) <= 0, q > 0;
        if -h >= a * dd {
            let pd = dd * q;
            assert(a * pd * pd == (a * dd * dd) * (q * q)) by (nonlinear_arith)
                requires pd == dd * q;
            assert(2 * h * pd * q == (2 * h * dd) * (q * q)) by (nonlinear_arith)
                requires pd == dd * q;
            assert(c * q * q == c * (q * q)) by (nonlinear_arith);
            assert((q * q) * qdd == (a * dd * dd) * (q * q) + (2 * h * dd) * (q * q) + c * (q
                * q)) by (nonlinear_arith)
                requires qdd == a * dd * dd + 2 * h * dd + c;
            assert(qval(a, h, c, pd, q) == (q * q) * qdd);
            assert(a * pd * pd - a * p * p == a * ((pd - p) * (pd + p))) by (nonlinear_arith);
            assert(2 * h * pd * q - 2 * h * p * q == (2 * h * q) * (pd - p)) by (nonlinear_arith);
            assert(a * ((pd - p) * (pd + p)) + (2 * h * q) * (pd - p) == (pd - p) * (a * (pd + p)
                + 2 * h * q)) by (nonlinear_arith);
            assert(qval(a, h, c, pd, q) - qval(a, h, c, p, q) == (pd - p) * (a * (pd + p) + 2 * h
                * q));
            assert(a * p <= a * pd) by (nonlinear_arith)
                requires p <= pd, a > 0;
            assert(a * pd == (a * dd) * q) by (nonlinear_arith)
                requires pd == dd * q;
            assert(a * (pd + p) == a * pd + a * p) by (nonlinear_arith);
            assert(2 * h * q == 2 * (h * q)) by (nonlinear_arith);
            assert(2 * q * (a * dd + h) == 2 * ((a * dd) * q) + 2 * (h * q)) by (nonlinear_arith);
            assert(a * (pd + p) + 2 * h * q <= 2 * q * (a * dd + h));
            assert(2 * q * (a * dd + h) <= 0) by (nonlinear_arith)
                requires q > 0, a * dd + h <= 0;
            assert((pd - p) * (a * (pd + p) + 2 * h * q) <= 0) by (nonlinear_arith)
                requires pd - p >= 0, a * (pd + p) + 2 * h * q <= 0;
            assert(qval(a, h, c, pd, q) <= 0);
            assert((q * q) * qdd > 0) by (nonlinear_arith)
                requires q > 0, qdd > 0;
            assert(false);
        }
        assert(-h < a * dd);
    }
}

/// Pointwise bridge between the geometric contact condition and the
/// quadratic: at every rational instant `t0 + p / q`, contact holds
/// exactly when the quadratic with the relative-motion coefficients is
/// non-positive.
pub proof fn lemma_contact_iff_qval(m1: Seg, m2: Seg, rr: int, p: int, q: int)
    ensures
        in_contact_at(m1, m2, rr, p, q) <==> qval(
            coef_a(m1, m2),
            coef_h(m1, m2),
            coef_c(m1, m2, rr),
            p,
            q,
        ) <= 0,
{
    let t0 = overlap_start(m1, m2);
    let e1 = m1.end - m1.start;
    let e2 = m2.end - m2.start;
    let g1x = m1.tx - m1.fx;
    let g1y = m1.ty - m1.fy;
    let g2x = m2.tx - m2.fx;
    let g2y = m2.ty - m2.fy;
    let n1x = m1.fx * e1 + g1x * (t0 - m1.start);
    let n1y = m1.fy * e1 + g1y * (t0 - m1.start);
    let n2x = m2.fx * e2 + g2x * (t0 - m2.start);
    let n2y = m2.fy * e2 + g2y * (t0 - m2.start);
    let ux = rel_u_x(m1, m2);
    let uy = rel_u_y(m1, m2);
    let vx = rel_v_x(m1, m2);
    let vy = rel_v_y(m1, m2);
    assert(ux == e2 * n1x - e1 * n2x);
    assert(uy == e2 * n1y - e1 * n2y);
    assert(vx == e2 * g1x - e1 * g2x);
    assert(vy == e2 * g1y - e1 * g2y);
    let px1 = pos_num_x(m1, t0, p, q);
    let py1 = pos_num_y(m1, t0, p, q);
    let px2 = pos_num_x(m2, t0, p, q);
    let py2 = pos_num_y(m2, t0, p, q);
    assert(px1 == q * n1x + g1x * p);
    assert(py1 == q * n1y + g1y * p);
    assert(px2 == q * n2x + g2x * p);
    assert(py2 == q * n2y + g2y * p);
    let dx = e2 * px1 - e1 * px2;
    let dy = e2 * py1 - e1 * py2;
    assert(e2 * px1 == q * (e2 * n1x) + p * (e2 * g1x)) by (nonlinear_arith)
        requires px1 == q * n1x + g1x * p;
    assert(e1 * px2 == q * (e1 * n2x) + p * (e1 * g2x)) by (nonlinear_arith)
        requires px2 == q * n2x + g2x * p;
    assert(q * (e2 * n1x) - q * (e1 * n2x) == q * ux) by (nonlinear_arith)
        requires ux == e2 * n1x - e1 * n2x;
    assert(p * (e2 * g1x) - p * (e1 * g2x) == p * vx) by (nonlinear_arith)
        requires vx == e2 * g1x - e1 * g2x;
    assert(dx == q * ux + p * vx);
    assert(e2 * py1 == q * (e2 * n1y) + p * (e2 * g1y)) by (nonlinear_arith)
        requires py1 == q * n1y + g1y * p;
    assert(e1 * py2 == q * (e1 * n2y) + p * (e1 * g2y)) by (nonlinear_arith)
        requires py2 == q * n2y + g2y * p;
    assert(q * (e2 * n1y) - q * (e1 * n2y) == q * uy) by (nonlinear_arith)
        requires uy == e2 * n1y - e1 * n2y;
    assert(p * (e2 * g1y) - p * (e1 * g2y) == p * vy) by (nonlinear_arith)
        requires vy == e2 * g1y - e1 * g2y;
    assert(dy == q * uy + p * vy);
    let a = coef_a(m1, m2);
    let h = coef_h(m1, m2);
    let c = coef_c(m1, m2, rr);
    let rt = rr * e1 * e2;
    assert(a == vx * vx + vy * vy);
    assert(h == ux * vx + uy * vy);
    assert(c == ux * ux + uy * uy - rt * rt);
    let sx = q * ux;
    let wx = p * vx;
    assert(dx * dx == sx * sx + 2 * (sx * wx) + wx * wx) by (nonlinear_arith)
        requires dx == sx + wx;
    assert(sx * sx == (q * q) * (ux * ux)) by (nonlinear_arith)
        requires sx == q * ux;
    assert(sx * wx == (p * q) * (ux * vx)) by (nonlinear_arith)
        requires sx == q * ux, wx == p * vx;
    assert(wx * wx == (p * p) * (vx * vx)) by (nonlinear_arith)
        requires wx == p * vx;
    assert(dx * dx == (q * q) * (ux * ux) + 2 * ((p * q) * (ux * vx)) + (p * p) * (vx * vx));
    let sy = q * uy;
    let wy = p * vy;
    assert(dy * dy == sy * sy + 2 * (sy * wy) + wy * wy) by (nonlinear_arith)
        requires dy == sy + wy;
    assert(sy * sy == (q * q) * (uy * uy)) by (nonlinear_arith)
        requires sy == q * uy;
    assert(sy * wy == (p * q) * (uy * vy)) by (nonlinear_arith)
        requires sy == q * uy, wy == p * vy;
    assert(wy * wy == (p * p) * (vy * vy)) by (nonlinear_arith)
        requires wy == p * vy;
    assert(dy * dy == (q * q) * (uy * uy) + 2 * ((p * q) * (uy * vy)) + (p * p) * (vy * vy));
    assert(qval(a, h, c, p, q) == a * (p * p) + 2 * (h * (p * q)) + c * (q * q))
        by (nonlinear_arith);
    assert(a * (p * p) == (p * p) * (vx * vx) + (p * p) * (vy * vy)) by (nonlinear_arith)
        requires a == vx * vx + vy * vy;
    assert(h * (p * q) == (p * q) * (ux * vx) + (p * q) * (uy * vy)) by (nonlinear_arith)
        requires h == ux * vx + uy * vy;
    assert(c * (q * q) == (q * q) * (ux * ux) + (q * q) * (uy * uy) - (q * q) * (rt * rt))
        by (nonlinear_arith)
        requires c == ux * ux + uy * uy - rt * rt;
    assert((rt * q) * (rt * q) == (q * q) * (rt * rt)) by (nonlinear_arith);
    assert(dx * dx + dy * dy - (rt * q) * (rt * q) == qval(a, h, c, p, q));
}

/// The conflict predicate, decided: over a positive interval overlap,
/// two moves conflict exactly when the quadratic decision predicate
/// accepts their relative-motion coefficients on the overlap window.
pub proof fn lemma_conflict_characterization(m1: Seg, m2: Seg, rr: int)
    requires
        overlap_start(m1, m2) < overlap_end(m1, m2),
    ensures
        segs_conflict(m1, m2, rr) <==> qdecision(
            coef_a(m1, m2),
            coef_h(m1, m2),
            coef_c(m1, m2, rr),
            overlap_end(m1, m2) - overlap_start(m1, m2),
        ),
{
    let a = coef_a(m1, m2);
    let h = coef_h(m1, m2);
    let c = coef_c(m1, m2, rr);
    let dd = overlap_end(m1, m2) - overlap_start(m1, m2);
    let vx = rel_v_x(m1, m2);
    let vy = rel_v_y(m1, m2);
    assert(a >= 0) by (nonlinear_arith)
        requires a == vx * vx + vy * vy;
    if segs_conflict(m1, m2, rr) {
        let (p, q) = choose |p: int, q: int| contact_within_overlap(m1, m2, rr, p, q);
        lemma_contact_iff_qval(m1, m2, rr, p, q);
        assert(qwitness(a, h, c, dd, p, q));
        lemma_qwitness_implies_qdecision(a, h, c, dd);
    }
    if qdecision(a, h, c, dd) {
        lemma_qdecision_implies_witness(a, h, c, dd);
        let (p, q) = choose |p: int, q: int| qwitness(a, h, c, dd, p, q);
        lemma_contact_iff_qval(m1, m2, rr, p, q);
        assert(contact_within_overlap(m1, m2, rr, p, q));
        assert(segs_conflict(m1, m2, rr));
    }
}

/// The conflict predicate is symmetric in its two moves.
pub proof fn lemma_conflict_symmetric(m1: Seg, m2: Seg, rr: int)
    ensures
        segs_conflict(m1, m2, rr) == segs_conflict(m2, m1, rr),
{
    assert(overlap_start(m1, m2) == overlap_start(m2, m1));
    assert(overlap_end(m1, m2) == overlap_end(m2, m1));
    assert forall |p: int, q: int| contact_within_overlap(m1, m2, rr, p, q)
        == contact_within_overlap(m2, m1, rr, p, q) by {
        lemma_contact_swap(m1, m2, rr, p, q);
    }
    if segs_conflict(m1, m2, rr) {
        let (p, q) = choose |p: int, q: int| contact_within_overlap(m1, m2, rr, p, q);
        assert(contact_within_overlap(m2, m1, rr, p, q));
        assert(segs_conflict(m2, m1, rr));
    }
    if segs_conflict(m2, m1, rr) {
        let (p, q) = choose |p: int, q: int| contact_within_overlap(m2, m1, rr, p, q);
        assert(contact_within_overlap(m1, m2, rr, p, q));
        assert(segs_conflict(m1, m2, rr));
    }
}

/// Swapping the two moves negates the scaled relative position, which
/// leaves the contact condition unchanged.
proof fn lemma_contact_swap(m1: Seg, m2: Seg, rr: int, p: int, q: int)
    ensures
        contact_within_overlap(m1, m2, rr, p, q) == contact_within_overlap(m2, m1, rr, p, q),
{
    let t0 = overlap_start(m1, m2);
    assert(t0 == overlap_start(m2, m1));
    assert(overlap_end(m1, m2) == overlap_end(m2, m1));
    let e1 = m1.end - m1.start;
    let e2 = m2.end - m2.start;
    let px1 = pos_num_x(m1, t0, p, q);
    let py1 = pos_num_y(m1, t0, p, q);
    let px2 = pos_num_x(m2, t0, p, q);
    let py2 = pos_num_y(m2, t0, p, q);
    let dx12 = e2 * px1 - e1 * px2;
    let dy12 = e2 * py1 - e1 * py2;
    let dx21 = e1 * px2 - e2 * px1;
    let dy21 = e1 * py2 - e2 * py1;
    assert(dx12 * dx12 == dx21 * dx21) by (nonlinear_arith)
        requires dx21 == -dx12;
    assert(dy12 * dy12 == dy21 * dy21) by (nonlinear_arith)
        requires dy21 == -dy12;
    assert((rr * e1 * e2 * q) * (rr * e1 * e2 * q) == (rr * e2 * e1 * q) * (rr * e2 * e1 * q))
        by (nonlinear_arith);
}

/// Disjoint or merely touching intervals never conflict, whatever the
/// positions: the overlap is empty or a single instant, and the conflict
/// predicate demands a positive overlap.
pub proof fn lemma_no_overlap_no_conflict(m1: Seg, m2: Seg, rr: int)
    requires
        overlap_end(m1, m2) <= overlap_start(m1, m2),
    ensures
        !segs_conflict(m1, m2, rr),
{
}

} // verus!
