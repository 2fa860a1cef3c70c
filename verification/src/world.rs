//! The transition and cost model: traversal times under the vehicle's
//! and the edge's speed limits, the straight-line lower-bound time
//! between nodes, and enumeration of successor and predecessor edges.
//!
//! Durations are whole ticks. Traversal costs round up, the lower bound
//! rounds down, so the lower bound never exceeds any real path cost.

use vstd::prelude::*;

verus! {

use std::sync::Arc;
use crate::agv::AGV;
use crate::arith::div_ceil;
use crate::arith::lemma_div_ceil_bounds;
use crate::arith::lemma_div_ceil_is_least;
use crate::arith::lemma_div_ceil_antitone_divisor;
use crate::geometry::dist_sq;
use crate::geometry::sqrt_floor;
use crate::geometry::isqrt;
use crate::graph::Graph;
use crate::graph::COORD_LIMIT;
use crate::conflict::Seg;
use crate::conflict::segs_conflict;
use crate::conflict::overlap_start;
use crate::conflict::overlap_end;
use crate::conflict::rel_u_x;
use crate::conflict::rel_u_y;
use crate::conflict::rel_v_x;
use crate::conflict::rel_v_y;
use crate::conflict::coef_a;
use crate::conflict::coef_h;
use crate::conflict::coef_c;
use crate::conflict::qdecision;
use crate::conflict::lemma_conflict_characterization;
use crate::conflict::lemma_conflict_symmetric;
use crate::conflict::lemma_no_overlap_no_conflict;

/// Longest admitted duration of a single timed move, in ticks. Keeping
/// move durations within this range lets the conflict oracle evaluate
/// its collision polynomials exactly in 128-bit arithmetic.
pub const DUR_LIMIT: i64 = 250000;

/// Largest admitted footprint radius, in coordinate units.
pub const RADIUS_LIMIT: u64 = 4000000;

/// State of an agent: the dense index of the node it occupies.
#[derive(Debug, Clone, Copy, PartialEq, Eq, Hash, Structural)]
pub struct SimpleState(pub usize);

impl SimpleState {
    /// Two states are equivalent exactly when they name the same node.
    pub fn is_equivalent(&self, other: &SimpleState) -> (r: bool)
        ensures
            r == (self.0 == other.0),
    {
        self.0 == other.0
    }
}

/// A closed time interval in ticks.
#[derive(Debug, Clone, Copy, PartialEq, Eq, Structural)]
pub struct Interval {
    pub start: i64,
    pub end: i64,
}

/// A timed move: one agent traverses from one node to another (the same
/// node, for a wait) at constant velocity during the given interval.
#[derive(Debug, Clone, Copy, PartialEq, Eq, Structural)]
pub struct Move {
    pub from: SimpleState,
    pub to: SimpleState,
    pub interval: Interval,
}

/// Position and velocity of a moving agent at some instant, as exact
/// rationals over the common denominator `den` (the move's duration):
/// the position is `(num_x / den, num_y / den)` and the velocity is
/// `(vel_num_x / den, vel_num_y / den)` per tick.
#[derive(Debug, Clone, Copy, PartialEq, Eq, Structural)]
pub struct ScaledPose {
    pub num_x: i64,
    pub num_y: i64,
    pub vel_num_x: i64,
    pub vel_num_y: i64,
    pub den: i64,
}

/// Why a world could not be assembled from its parts.
#[derive(Debug, Clone, Copy, PartialEq, Eq, Structural)]
pub enum ConfigError {
    /// The vehicle declares a zero maximum speed, which would make every
    /// traversal cost undefined.
    ZeroMaxSpeed,
    /// The footprint radius exceeds the supported range.
    RadiusTooLarge,
}

/// The world model handed to the external search: the facility graph,
/// the vehicle profile, and the footprint radius shared by all agents.
/// Built once, then read-only.
pub struct SimpleWorld {
    pub graph: Arc<Graph>,
    pub agv: AGV,
    pub radius: u64,
}

impl SimpleWorld {
    /// Well-formedness: the graph is well formed, the vehicle can move,
    /// and the footprint radius is in range.
    pub open spec fn wf(&self) -> bool {
        &&& (*self.graph).wf()
        &&& self.agv.physical_parameters.speed_max >= 1
        &&& self.radius <= RADIUS_LIMIT
    }

    /// Number of nodes in the world's graph.
    pub open spec fn num_nodes_spec(&self) -> int {
        (*self.graph).nodes@.len() as int
    }

    /// Assembles the world. Rejects a vehicle that cannot move and a
    /// footprint radius outside the supported range.
    pub fn new(graph: Arc<Graph>, agv: AGV, footprint_radius: u64) -> (r: Result<
        SimpleWorld,
        ConfigError,
    >)
        requires
            (*graph).wf(),
        ensures
            r is Ok <==> (agv.physical_parameters.speed_max >= 1 && footprint_radius
                <= RADIUS_LIMIT),
            match r {
                Ok(w) => w.graph == graph && w.agv == agv && w.radius == footprint_radius
                    && w.wf(),
                Err(e) => if agv.physical_parameters.speed_max == 0 {
                    e == ConfigError::ZeroMaxSpeed
                } else {
                    e == ConfigError::RadiusTooLarge
                },
            },
    {
        if agv.physical_parameters.speed_max == 0 {
            Err(ConfigError::ZeroMaxSpeed)
        } else if footprint_radius > RADIUS_LIMIT {
            Err(ConfigError::RadiusTooLarge)
        } else {
            Ok(SimpleWorld { graph, agv, radius: footprint_radius })
        }
    }

    /// Straight-line lower-bound time from node `a` to node `b`, in
    /// ticks rounded down: the Euclidean distance divided by the
    /// vehicle's maximum speed, ignoring graph topology and edge speed
    /// limits.
    pub open spec fn spec_time_between(&self, a: int, b: int) -> int {
        (sqrt_floor(dist_sq(
            (*self.graph).nodes@[a].x as int,
            (*self.graph).nodes@[a].y as int,
            (*self.graph).nodes@[b].x as int,
            (*self.graph).nodes@[b].y as int,
        ) as nat) as int) / (self.agv.physical_parameters.speed_max as int)
    }

    /// The effective speed on edge `e`: the lower of the vehicle's and
    /// the edge's speed limit.
    pub open spec fn spec_eff_speed(&self, e: int) -> int {
        let es = (*self.graph).edges@[e].data.max_speed as int;
        let vs = self.agv.physical_parameters.speed_max as int;
        if vs < es {
            vs
        } else {
            es
        }
    }

    /// Ticks needed to traverse edge `e`, rounded up: the edge's
    /// effective Euclidean length divided by the effective speed.
    pub open spec fn spec_time(&self, e: int) -> int {
        div_ceil((*self.graph).edges@[e].data.length as int, self.spec_eff_speed(e))
    }

    /// The straight-line lower-bound time between two nodes.
    pub fn time_between(&self, from: SimpleState, to: SimpleState) -> (t: u64)
        requires
            self.wf(),
            from.0 < self.num_nodes_spec(),
            to.0 < self.num_nodes_spec(),
        ensures
            t == self.spec_time_between(from.0 as int, to.0 as int),
    {
        proof {
            assert((*self.graph).node_in_range(from.0 as int));
            assert((*self.graph).node_in_range(to.0 as int));
        }
        let a = self.graph.get_node(from.0);
        let a_x = a.x;
        let a_y = a.y;
        let b = self.graph.get_node(to.0);
        let dx = b.x - a_x;
        let dy = b.y - a_y;
        proof {
            assert(dx * dx <= 16000000i64 * 16000000i64 && dx * dx >= 0) by (nonlinear_arith)
                requires -16000000 <= dx <= 16000000;
            assert(dy * dy <= 16000000i64 * 16000000i64 && dy * dy >= 0) by (nonlinear_arith)
                requires -16000000 <= dy <= 16000000;
        }
        let dsq: u64 = (dx * dx + dy * dy) as u64;
        let d = isqrt(dsq);
        d / self.agv.physical_parameters.speed_max
    }

    /// The time cost of traversing edge `e`. Strictly positive whenever
    /// the edge has positive length.
    pub fn time(&self, e: usize) -> (t: u64)
        requires
            self.wf(),
            e < (*self.graph).edges@.len(),
        ensures
            t == self.spec_time(e as int),
            (*self.graph).edges@[e as int].data.length > 0 ==> t >= 1,
            (*self.graph).edges@[e as int].data.length == 0 ==> t == 0,
    {
        proof {
            assert((*self.graph).edge_valid(e as int));
        }
        let edge = self.graph.get_edge(e);
        let len = edge.data.length;
        let es = edge.data.max_speed;
        let vs = self.agv.physical_parameters.speed_max;
        let s = if vs < es { vs } else { es };
        proof {
            let ghost ed = (*self.graph).edges@[e as int];
            assert((*self.graph).node_in_range(ed.from as int));
            assert((*self.graph).node_in_range(ed.to as int));
            let ghost fx = (*self.graph).nodes@[ed.from as int].x as int;
            let ghost fy = (*self.graph).nodes@[ed.from as int].y as int;
            let ghost tx = (*self.graph).nodes@[ed.to as int].x as int;
            let ghost ty = (*self.graph).nodes@[ed.to as int].y as int;
            let ghost dd = dist_sq(fx, fy, tx, ty);
            assert(0 <= dd <= 512000000000000) by (nonlinear_arith)
                requires
                    dd == (tx - fx) * (tx - fx) + (ty - fy) * (ty - fy),
                    -8000000 <= fx <= 8000000,
                    -8000000 <= fy <= 8000000,
                    -8000000 <= tx <= 8000000,
                    -8000000 <= ty <= 8000000;
            crate::geometry::lemma_sqrt_floor_bounds(dd as nat);
            assert(sqrt_floor(dd as nat) <= 22700000) by (nonlinear_arith)
                requires
                    sqrt_floor(dd as nat) * sqrt_floor(dd as nat) <= dd,
                    dd <= 512000000000000;
            assert(len <= 22700001);
            lemma_div_ceil_bounds(len as int, s as int);
            assert((s as int) * 0 == 0);
        }
        if len == 0 {
            proof {
                lemma_div_ceil_is_least(len as int, s as int, 0);
            }
            0
        } else if s >= len {
            proof {
                lemma_div_ceil_is_least(len as int, s as int, 1);
            }
            1
        } else {
            (len + s - 1) / s
        }
    }

    /// The edges leaving the given node, as dense edge indices in
    /// insertion order; together with the graph's well-formedness this
    /// is exactly the set of edges whose origin is that node.
    pub fn actions_from(&self, state: &SimpleState) -> (r: &Vec<usize>)
        requires
            self.wf(),
            state.0 < self.num_nodes_spec(),
        ensures
            r@ == (*self.graph).out_edges@[state.0 as int]@,
    {
        self.graph.get_edges_out(state.0)
    }

    /// The state reached by taking edge `action`.
    pub fn transition(&self, _state: &SimpleState, action: usize) -> (r: SimpleState)
        requires
            self.wf(),
            action < (*self.graph).edges@.len(),
        ensures
            r.0 == (*self.graph).edges@[action as int].to,
    {
        SimpleState(self.graph.get_edge(action).to)
    }

    /// The cost of taking edge `action`, independent of the state.
    pub fn transition_cost(&self, _state: &SimpleState, action: usize) -> (t: u64)
        requires
            self.wf(),
            action < (*self.graph).edges@.len(),
        ensures
            t == self.spec_time(action as int),
    {
        self.time(action)
    }

    /// The edges entering the given node, for reverse traversal.
    pub fn reverse_actions_from(&self, state: &SimpleState) -> (r: &Vec<usize>)
        requires
            self.wf(),
            state.0 < self.num_nodes_spec(),
        ensures
            r@ == (*self.graph).in_edges@[state.0 as int]@,
    {
        self.graph.get_edges_in(state.0)
    }

    /// The state reached by taking edge `action` backwards.
    pub fn reverse_transition(&self, _state: &SimpleState, action: usize) -> (r: SimpleState)
        requires
            self.wf(),
            action < (*self.graph).edges@.len(),
        ensures
            r.0 == (*self.graph).edges@[action as int].from,
    {
        SimpleState(self.graph.get_edge(action).from)
    }

    /// The cost of taking edge `action` backwards: the same as forwards.
    pub fn reverse_transition_cost(&self, _state: &SimpleState, action: usize) -> (t: u64)
        requires
            self.wf(),
            action < (*self.graph).edges@.len(),
        ensures
            t == self.spec_time(action as int),
    {
        self.time(action)
    }

    /// Waiting is permitted at every node, for any non-negative
    /// duration, at no cost.
    pub fn can_wait_at(&self, _state: &SimpleState) -> (r: bool)
        ensures
            r,
    {
        true
    }

    /// A move whose endpoints exist in this world's graph and whose
    /// interval is ordered and no longer than `DUR_LIMIT` ticks.
    pub open spec fn move_valid(&self, m: Move) -> bool {
        &&& m.from.0 < self.num_nodes_spec()
        &&& m.to.0 < self.num_nodes_spec()
        &&& m.interval.start <= m.interval.end
        &&& m.interval.end - m.interval.start <= DUR_LIMIT
    }

    /// Position and velocity of the agent performing move `m` at time
    /// `initial_time`, as exact rationals over the move's duration.
    pub fn get_center_and_vel(&self, m: &Move, initial_time: i64) -> (p: ScaledPose)
        requires
            self.wf(),
            self.move_valid(*m),
            m.interval.start < m.interval.end,
            m.interval.start <= initial_time <= m.interval.end,
        ensures
            p.den == m.interval.end - m.interval.start,
            p.vel_num_x == (*self.graph).nodes@[m.to.0 as int].x
                - (*self.graph).nodes@[m.from.0 as int].x,
            p.vel_num_y == (*self.graph).nodes@[m.to.0 as int].y
                - (*self.graph).nodes@[m.from.0 as int].y,
            p.num_x == (*self.graph).nodes@[m.from.0 as int].x * p.den + p.vel_num_x
                * (initial_time - m.interval.start),
            p.num_y == (*self.graph).nodes@[m.from.0 as int].y * p.den + p.vel_num_y
                * (initial_time - m.interval.start),
            -COORD_LIMIT * p.den <= p.num_x <= COORD_LIMIT * p.den,
            -COORD_LIMIT * p.den <= p.num_y <= COORD_LIMIT * p.den,
    {
        proof {
            assert((*self.graph).node_in_range(m.from.0 as int));
            assert((*self.graph).node_in_range(m.to.0 as int));
        }
        let from = self.graph.get_node(m.from.0);
        let f_x = from.x;
        let f_y = from.y;
        let to = self.graph.get_node(m.to.0);
        let t_x = to.x;
        let t_y = to.y;
        let dur = m.interval.end - m.interval.start;
        let pre = initial_time - m.interval.start;
        proof {
            assert(f_x * dur <= 8000000 * 250000i64 && f_x * dur >= -8000000 * 250000i64)
                by (nonlinear_arith)
                requires -8000000 <= f_x <= 8000000, 0 <= dur <= 250000;
            assert(f_y * dur <= 8000000 * 250000i64 && f_y * dur >= -8000000 * 250000i64)
                by (nonlinear_arith)
                requires -8000000 <= f_y <= 8000000, 0 <= dur <= 250000;
            assert((t_x - f_x) * pre <= 16000000 * 250000i64 && (t_x - f_x) * pre
                >= -16000000 * 250000i64) by (nonlinear_arith)
                requires -16000000 <= t_x - f_x <= 16000000, 0 <= pre <= 250000;
            assert((t_y - f_y) * pre <= 16000000 * 250000i64 && (t_y - f_y) * pre
                >= -16000000 * 250000i64) by (nonlinear_arith)
                requires -16000000 <= t_y - f_y <= 16000000, 0 <= pre <= 250000;
        }
        let num_x = f_x * dur + (t_x - f_x) * pre;
        let num_y = f_y * dur + (t_y - f_y) * pre;
        proof {
            assert(-8000000 * dur <= num_x <= 8000000 * dur) by (nonlinear_arith)
                requires
                    num_x == f_x * dur + (t_x - f_x) * pre,
                    -8000000 <= f_x <= 8000000,
                    -8000000 <= t_x <= 8000000,
                    0 <= pre <= dur;
            assert(-8000000 * dur <= num_y <= 8000000 * dur) by (nonlinear_arith)
                requires
                    num_y == f_y * dur + (t_y - f_y) * pre,
                    -8000000 <= f_y <= 8000000,
                    -8000000 <= t_y <= 8000000,
                    0 <= pre <= dur;
        }
        ScaledPose {
            num_x,
            num_y,
            vel_num_x: t_x - f_x,
            vel_num_y: t_y - f_y,
            den: dur,
        }
    }
}

impl SimpleWorld {
    /// The specification-level motion segment of a move: the endpoint
    /// positions looked up in the graph, with the move's interval.
    pub open spec fn seg_of_move(&self, m: Move) -> Seg {
        Seg {
            fx: (*self.graph).nodes@[m.from.0 as int].x as int,
            fy: (*self.graph).nodes@[m.from.0 as int].y as int,
            tx: (*self.graph).nodes@[m.to.0 as int].x as int,
            ty: (*self.graph).nodes@[m.to.0 as int].y as int,
            start: m.interval.start as int,
            end: m.interval.end as int,
        }
    }

    /// Whether the two moves' circular footprints (each of this world's
    /// radius) come into contact at some instant of their interval
    /// overlap.
    pub open spec fn spec_conflict(&self, m1: Move, m2: Move) -> bool {
        segs_conflict(self.seg_of_move(m1), self.seg_of_move(m2), 2 * self.radius)
    }

    /// Decides whether two timed moves conflict: whether the agents'
    /// footprints, moving at constant velocity along their segments,
    /// ever touch or overlap during the overlap of the two intervals.
    /// A pure function of its arguments, exact over the integer model.
    pub fn conflict(&self, m1: &Move, m2: &Move) -> (r: bool)
        requires
            self.wf(),
            self.move_valid(*m1),
            self.move_valid(*m2),
        ensures
            r == self.spec_conflict(*m1, *m2),
    {
        let ghost seg1 = self.seg_of_move(*m1);
        let ghost seg2 = self.seg_of_move(*m2);
        let s1 = m1.interval.start;
        let e1 = m1.interval.end;
        let s2 = m2.interval.start;
        let e2 = m2.interval.end;
        let t0 = if s1 >= s2 { s1 } else { s2 };
        let t1 = if e1 <= e2 { e1 } else { e2 };
        proof {
            assert(overlap_start(seg1, seg2) == t0 as int);
            assert(overlap_end(seg1, seg2) == t1 as int);
        }
        if t1 <= t0 {
            proof {
                lemma_no_overlap_no_conflict(seg1, seg2, 2 * self.radius as int);
            }
            return false;
        }
        let p1 = self.get_center_and_vel(m1, t0);
        let p2 = self.get_center_and_vel(m2, t0);
        let d1: i128 = p1.den as i128;
        let d2: i128 = p2.den as i128;
        let n1x: i128 = p1.num_x as i128;
        let n1y: i128 = p1.num_y as i128;
        let n2x: i128 = p2.num_x as i128;
        let n2y: i128 = p2.num_y as i128;
        let v1x: i128 = p1.vel_num_x as i128;
        let v1y: i128 = p1.vel_num_y as i128;
        let v2x: i128 = p2.vel_num_x as i128;
        let v2y: i128 = p2.vel_num_y as i128;
        proof {
            assert((*self.graph).node_in_range(m1.from.0 as int));
            assert((*self.graph).node_in_range(m1.to.0 as int));
            assert((*self.graph).node_in_range(m2.from.0 as int));
            assert((*self.graph).node_in_range(m2.to.0 as int));
            assert(0 < d1 <= 250000 && 0 < d2 <= 250000);
            assert(-2000000000000 <= n1x <= 2000000000000) by (nonlinear_arith)
                requires -8000000 * d1 <= n1x <= 8000000 * d1, 0 < d1 <= 250000;
            assert(-2000000000000 <= n1y <= 2000000000000) by (nonlinear_arith)
                requires -8000000 * d1 <= n1y <= 8000000 * d1, 0 < d1 <= 250000;
            assert(-2000000000000 <= n2x <= 2000000000000) by (nonlinear_arith)
                requires -8000000 * d2 <= n2x <= 8000000 * d2, 0 < d2 <= 250000;
            assert(-2000000000000 <= n2y <= 2000000000000) by (nonlinear_arith)
                requires -8000000 * d2 <= n2y <= 8000000 * d2, 0 < d2 <= 250000;
            assert(-16000000 <= v1x <= 16000000 && -16000000 <= v1y <= 16000000);
            assert(-16000000 <= v2x <= 16000000 && -16000000 <= v2y <= 16000000);
            assert_mul_bound(d2 as int, n1x as int, 250000, 2000000000000);
            assert_mul_bound(d1 as int, n2x as int, 250000, 2000000000000);
            assert_mul_bound(d2 as int, n1y as int, 250000, 2000000000000);
            assert_mul_bound(d1 as int, n2y as int, 250000, 2000000000000);
            assert_mul_bound(d2 as int, v1x as int, 250000, 16000000);
            assert_mul_bound(d1 as int, v2x as int, 250000, 16000000);
            assert_mul_bound(d2 as int, v1y as int, 250000, 16000000);
            assert_mul_bound(d1 as int, v2y as int, 250000, 16000000);
        }
        let ux: i128 = d2 * n1x - d1 * n2x;
        let uy: i128 = d2 * n1y - d1 * n2y;
        let vx: i128 = d2 * v1x - d1 * v2x;
        let vy: i128 = d2 * v1y - d1 * v2y;
        proof {
            assert_mul_bound(vx as int, vx as int, 8000000000000, 8000000000000);
            assert_mul_bound(vy as int, vy as int, 8000000000000, 8000000000000);
            assert_mul_bound(ux as int, vx as int, 1000000000000000000, 8000000000000);
            assert_mul_bound(uy as int, vy as int, 1000000000000000000, 8000000000000);
            assert_mul_bound(ux as int, ux as int, 1000000000000000000, 1000000000000000000);
            assert_mul_bound(uy as int, uy as int, 1000000000000000000, 1000000000000000000);
        }
        let a: i128 = vx * vx + vy * vy;
        let h: i128 = ux * vx + uy * vy;
        let rr: i128 = 2 * (self.radius as i128);
        proof {
            assert_mul_bound(rr as int, d1 as int, 8000000, 250000);
            assert_mul_bound(rr * d1 as int, d2 as int, 2000000000000, 250000);
        }
        let rt: i128 = rr * d1 * d2;
        proof {
            assert_mul_bound(rt as int, rt as int, 500000000000000000, 500000000000000000);
        }
        let c: i128 = ux * ux + uy * uy - rt * rt;
        let dd: i128 = (t1 - t0) as i128;
        proof {
            assert(0 < dd <= 250000);
            assert_mul_bound(a as int, dd as int, 128000000000000000000000000, 250000);
            assert_mul_bound(a * dd as int, dd as int, 32000000000000000000000000000000, 250000);
            assert_mul_bound(2 * h as int, dd as int, 32000000000000000000000000000000, 250000);
        }
        let qdd: i128 = a * dd * dd + 2 * h * dd + c;
        let ghost ga = coef_a(seg1, seg2);
        let ghost gh = coef_h(seg1, seg2);
        let ghost gc = coef_c(seg1, seg2, 2 * self.radius as int);
        proof {
            assert(ux == rel_u_x(seg1, seg2));
            assert(uy == rel_u_y(seg1, seg2));
            assert(vx == rel_v_x(seg1, seg2));
            assert(vy == rel_v_y(seg1, seg2));
            assert(a == ga);
            assert(h == gh);
            assert(c == gc);
            lemma_conflict_characterization(seg1, seg2, 2 * self.radius as int);
        }
        if c <= 0 {
            true
        } else if qdd <= 0 {
            true
        } else if a > 0 && h < 0 && -h < a * dd {
            let r = crate::arith::prod_le(a as u128, c as u128, (-h) as u128, (-h) as u128);
            proof {
                assert((-h) as u128 as int * ((-h) as u128 as int) == gh * gh)
                    by (nonlinear_arith)
                    requires (-h) as u128 as int == -gh;
            }
            r
        } else {
            proof {
                assert(!qdecision(ga, gh, gc, dd as int));
            }
            false
        }
    }
}

/// Both factors bounded in magnitude means the product is bounded by the
/// product of the bounds: the single overflow fact the conflict oracle
/// needs, packaged for repeated use.
pub proof fn assert_mul_bound(x: int, y: int, bx: int, by: int)
    requires
        -bx <= x <= bx,
        -by <= y <= by,
        0 <= bx,
        0 <= by,
    ensures
        -(bx * by) <= x * y <= bx * by,
{
    assert(-(bx * by) <= x * y <= bx * by) by (nonlinear_arith)
        requires -bx <= x <= bx, -by <= y <= by, 0 <= bx, 0 <= by;
}

/// The conflict predicate is symmetric: checking two moves in either
/// order gives the same answer.
pub proof fn lemma_move_conflict_symmetric(w: &SimpleWorld, m1: Move, m2: Move)
    ensures
        w.spec_conflict(m1, m2) == w.spec_conflict(m2, m1),
{
    lemma_conflict_symmetric(w.seg_of_move(m1), w.seg_of_move(m2), 2 * w.radius as int);
}

/// Moves whose time intervals do not intersect for a positive duration
/// never conflict, whatever the positions of their endpoints.
pub proof fn lemma_move_no_overlap_no_conflict(w: &SimpleWorld, m1: Move, m2: Move)
    requires
        m1.interval.end <= m2.interval.start || m2.interval.end <= m1.interval.start,
    ensures
        !w.spec_conflict(m1, m2),
{
    lemma_no_overlap_no_conflict(w.seg_of_move(m1), w.seg_of_move(m2), 2 * w.radius as int);
}

/// Cross-multiplied form of the exact traversal-time comparison: an edge
/// of positive squared length takes strictly longer at a strictly lower
/// effective speed, since `len / s1 > len / s2` exactly when
/// `len * s2 > len * s1`.
pub proof fn lemma_exact_cost_strict_in_speed(len: int, s1: int, s2: int)
    requires
        len > 0,
        1 <= s1 < s2,
    ensures
        len * s2 > len * s1,
{
    assert(len * s2 > len * s1) by (nonlinear_arith)
        requires len > 0, s1 < s2;
}

/// At the tick level the rounding keeps the comparison non-strict: a
/// lower effective speed never makes an edge cheaper.
pub proof fn lemma_tick_cost_antitone_in_speed(len: int, s1: int, s2: int)
    requires
        0 <= len,
        1 <= s1 <= s2,
    ensures
        div_ceil(len, s2) <= div_ceil(len, s1),
{
    lemma_div_ceil_antitone_divisor(len, s1, s2);
}

} // verus!
