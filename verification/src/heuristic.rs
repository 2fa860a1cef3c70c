//! The heuristic provider: one instance per goal, wrapping the cost
//! model's straight-line lower bound. Admissibility is proved below:
//! the estimate never exceeds the cost of any feasible path to the
//! goal under the real edge-speed-limited cost model.

use vstd::prelude::*;

verus! {

use std::sync::Arc;
use crate::arith::div_ceil;
use crate::arith::lemma_floor_le_ceil_plus_floor;
use crate::geometry::dist_sq;
use crate::geometry::sqrt_floor;
use crate::geometry::sqrt_ceil;
use crate::geometry::lemma_sqrt_dist_triangle;
use crate::world::SimpleState;
use crate::world::SimpleWorld;

/// A per-goal heuristic: holds the shared world model and the fixed
/// goal state for its entire lifetime, with no mutable state.
pub struct SimpleHeuristic {
    pub transition_system: Arc<SimpleWorld>,
    pub goal_state: SimpleState,
}

impl SimpleHeuristic {
    /// Well-formedness: the world is well formed and the goal exists.
    pub open spec fn wf(&self) -> bool {
        &&& (*self.transition_system).wf()
        &&& self.goal_state.0 < (*self.transition_system).num_nodes_spec()
    }

    /// A heuristic scoped to one goal state.
    pub fn new(transition_system: Arc<SimpleWorld>, goal_state: SimpleState) -> (r:
        SimpleHeuristic)
        ensures
            r.transition_system == transition_system,
            r.goal_state == goal_state,
    {
        SimpleHeuristic { transition_system, goal_state }
    }

    /// The estimate for a state: the straight-line lower-bound time from
    /// that state's node to the goal node. Defined for every node of the
    /// graph.
    pub fn get_heuristic(&self, state: &SimpleState) -> (r: Option<u64>)
        requires
            self.wf(),
            state.0 < (*self.transition_system).num_nodes_spec(),
        ensures
            r matches Some(t) && t == (*self.transition_system).spec_time_between(
                state.0 as int,
                self.goal_state.0 as int,
            ),
    {
        Some(self.transition_system.time_between(*state, self.goal_state))
    }

    /// Builds the heuristic for a task's goal, as `new` does.
    pub fn build(transition_system: Arc<SimpleWorld>, goal_state: SimpleState) -> (r:
        SimpleHeuristic)
        ensures
            r.transition_system == transition_system,
            r.goal_state == goal_state,
    {
        SimpleHeuristic::new(transition_system, goal_state)
    }
}

/// A feasible path from `from` to `goal`: a sequence of edge indices in
/// which each edge starts where the previous one ended.
pub open spec fn valid_path(w: SimpleWorld, path: Seq<int>, from: int, goal: int) -> bool
    decreases path.len(),
{
    if path.len() == 0 {
        from == goal
    } else {
        let e = path[0];
        &&& 0 <= e < (*w.graph).edges@.len()
        &&& (*w.graph).edges@[e].from == from
        &&& valid_path(w, path.drop_first(), (*w.graph).edges@[e].to as int, goal)
    }
}

/// The real cost of a path: the sum of its edges' traversal times under
/// the effective speed limits.
pub open spec fn path_cost(w: SimpleWorld, path: Seq<int>) -> int
    decreases path.len(),
{
    if path.len() == 0 {
        0
    } else {
        w.spec_time(path[0]) + path_cost(w, path.drop_first())
    }
}

/// Admissibility of the heuristic: for every node, every goal and every
/// feasible path between them, the straight-line lower-bound estimate
/// never exceeds the real path cost. The estimate relaxes the problem
/// twice, and both relaxations only lower it: the real route is at
/// least as long as the straight line (triangle inequality), and the
/// effective speed on every edge is at most the vehicle's maximum
/// speed; the rounding (estimate down, edge costs up) keeps both.
pub proof fn lemma_heuristic_admissible(w: SimpleWorld, path: Seq<int>, from: int, goal: int)
    requires
        w.wf(),
        0 <= from < w.num_nodes_spec(),
        0 <= goal < w.num_nodes_spec(),
        valid_path(w, path, from, goal),
    ensures
        w.spec_time_between(from, goal) <= path_cost(w, path),
    decreases path.len(),
{
    let g = *w.graph;
    let v = w.agv.physical_parameters.speed_max as int;
    let fx = g.nodes@[from].x as int;
    let fy = g.nodes@[from].y as int;
    let gx = g.nodes@[goal].x as int;
    let gy = g.nodes@[goal].y as int;
    if path.len() == 0 {
        assert(dist_sq(fx, fy, gx, gy) == 0) by (nonlinear_arith)
            requires fx == gx, fy == gy;
        assert(sqrt_floor(0) == 0);
        vstd::arithmetic::div_mod::lemma_div_of0(v);
    } else {
        let e = path[0];
        assert(g.edge_valid(e));
        let mid = g.edges@[e].to as int;
        assert(g.node_in_range(mid));
        lemma_heuristic_admissible(w, path.drop_first(), mid, goal);
        let mx = g.nodes@[mid].x as int;
        let my = g.nodes@[mid].y as int;
        let aa = sqrt_floor(dist_sq(fx, fy, gx, gy) as nat) as int;
        let bb = sqrt_ceil(dist_sq(fx, fy, mx, my) as nat) as int;
        let cc = sqrt_floor(dist_sq(mx, my, gx, gy) as nat) as int;
        lemma_sqrt_dist_triangle(fx, fy, mx, my, gx, gy);
        assert(aa <= bb + cc);
        let s = w.spec_eff_speed(e);
        assert(1 <= s <= v);
        assert(g.edges@[e].data.length == bb);
        lemma_floor_le_ceil_plus_floor(aa, bb, cc, s, v);
        assert(w.spec_time_between(from, goal) == aa / v);
        assert(w.spec_time_between(mid, goal) == cc / v);
        assert(w.spec_time(e) == div_ceil(bb, s));
        assert(aa / v <= div_ceil(bb, s) + cc / v);
    }
}

} // verus!
