//! The conflict oracle on concrete scenarios: detection, misses,
//! tangency, symmetry and disjoint intervals.
//!
//! Coordinates are in tenths of a facility unit, so a footprint radius
//! of 0.4 units is the integer 4 and a radius sum of 0.8 units is 8.

use std::sync::Arc;

use agv_world::agv::{PhysicalParameters, AGV};
use agv_world::graph::{build_graph, LayoutEdge, LayoutNode};
use agv_world::world::{Interval, Move, SimpleState, SimpleWorld};

fn node(id: usize, x: i64, y: i64) -> LayoutNode {
    LayoutNode { id, x, y, deviation: 0 }
}

fn edge(id: usize, start: usize, end: usize) -> LayoutEdge {
    LayoutEdge {
        id,
        start_node_id: start,
        end_node_id: end,
        max_speed: 10,
        max_height: 30,
        rotation_allowed: true,
        length: 1,
    }
}

fn mv(from: usize, to: usize, start: i64, end: i64) -> Move {
    Move { from: SimpleState(from), to: SimpleState(to), interval: Interval { start, end } }
}

/// A world whose nodes are laid out for crossing scenarios: agent A
/// moves along the x axis from (0,0) to (100,0); the remaining nodes
/// hold agent B at various offsets.
fn crossing_world() -> SimpleWorld {
    let g = build_graph(
        vec![
            node(0, 0, 0),    // index 0: A's origin
            node(1, 100, 0),  // index 1: A's destination
            node(2, 50, 5),   // index 2: B within 0.5 units of A's path
            node(3, 50, 20),  // index 3: B two units away
            node(4, 50, 8),   // index 4: B exactly at the contact distance
            node(5, 50, -50), // index 5: B's origin for a crossing move
            node(6, 50, 50),  // index 6: B's destination for a crossing move
        ],
        vec![edge(0, 0, 1), edge(1, 5, 6)],
    )
    .unwrap();
    let agv = AGV {
        physical_parameters: PhysicalParameters {
            speed_min: 0,
            speed_max: 10,
            acceleration_max: 1,
            deceleration_max: 1,
            height_min: 0,
            height_max: 20,
            width: 8,
            length: 8,
        },
    };
    // Footprint radius 0.4 units = 4; the radius sum is 8.
    SimpleWorld::new(Arc::new(g), agv, 4).unwrap()
}

#[test]
fn moving_agent_conflicts_with_nearby_waiting_agent() {
    // A passes within 0.5 units of B at t = 5; 0.5 < 0.8, so conflict.
    let w = crossing_world();
    let a = mv(0, 1, 0, 10);
    let b = mv(2, 2, 0, 10);
    assert!(w.conflict(&a, &b));
}

#[test]
fn distant_waiting_agent_does_not_conflict() {
    // B sits two units off the path; 2.0 > 0.8, so no conflict.
    let w = crossing_world();
    let a = mv(0, 1, 0, 10);
    let b = mv(3, 3, 0, 10);
    assert!(!w.conflict(&a, &b));
}

#[test]
fn touching_footprints_conflict() {
    // B sits exactly 0.8 units off the path: contact counts.
    let w = crossing_world();
    let a = mv(0, 1, 0, 10);
    let b = mv(4, 4, 0, 10);
    assert!(w.conflict(&a, &b));
}

#[test]
fn crossing_moves_conflict() {
    // A goes right while B goes up through the same point at the same
    // instant.
    let w = crossing_world();
    let a = mv(0, 1, 0, 10);
    let b = mv(5, 6, 0, 10);
    assert!(w.conflict(&a, &b));
}

#[test]
fn crossing_moves_missed_in_time_do_not_conflict() {
    // The same geometry, but B crosses the axis long after A has
    // passed the crossing point, within the short interval overlap.
    let w = crossing_world();
    let a = mv(0, 1, 0, 10);
    let b = mv(5, 6, 9, 19);
    assert!(!w.conflict(&a, &b));
}

#[test]
fn colocated_waiting_agents_conflict() {
    let w = crossing_world();
    let a = mv(2, 2, 3, 8);
    let b = mv(2, 2, 5, 6);
    assert!(w.conflict(&a, &b));
}

#[test]
fn conflict_is_symmetric_on_samples() {
    let w = crossing_world();
    let moves = [
        mv(0, 1, 0, 10),
        mv(2, 2, 0, 10),
        mv(3, 3, 2, 12),
        mv(4, 4, 0, 4),
        mv(5, 6, 0, 10),
        mv(5, 6, 9, 19),
        mv(1, 0, 3, 13),
        mv(6, 5, 0, 20),
    ];
    for a in &moves {
        for b in &moves {
            assert_eq!(w.conflict(a, b), w.conflict(b, a));
        }
    }
}

#[test]
fn disjoint_intervals_never_conflict() {
    // Identical paths, but the intervals do not intersect.
    let w = crossing_world();
    let a = mv(0, 1, 0, 10);
    let b = mv(1, 0, 20, 30);
    assert!(!w.conflict(&a, &b));
    assert!(!w.conflict(&b, &a));
}

#[test]
fn touching_intervals_never_conflict() {
    // The overlap is a single instant, a degenerate window: even two
    // agents at the same node are not in conflict.
    let w = crossing_world();
    let a = mv(2, 2, 0, 10);
    let b = mv(2, 2, 10, 20);
    assert!(!w.conflict(&a, &b));
}

#[test]
fn center_and_velocity_interpolate_the_move() {
    let w = crossing_world();
    let a = mv(0, 1, 0, 10);
    let p = w.get_center_and_vel(&a, 5);
    assert_eq!(p.den, 10);
    // Position 100 * 5 / 10 = 50 units along x, as a rational 500/10.
    assert_eq!(p.num_x, 500);
    assert_eq!(p.num_y, 0);
    // Velocity 10 units per tick, as a rational 100/10.
    assert_eq!(p.vel_num_x, 100);
    assert_eq!(p.vel_num_y, 0);
}

#[test]
fn near_miss_by_radius_is_exact() {
    // With radius sum 8, an offset of 9 tenths stays clear.
    let g = build_graph(
        vec![node(0, 0, 0), node(1, 100, 0), node(2, 50, 9)],
        vec![edge(0, 0, 1)],
    )
    .unwrap();
    let agv = AGV {
        physical_parameters: PhysicalParameters {
            speed_min: 0,
            speed_max: 10,
            acceleration_max: 1,
            deceleration_max: 1,
            height_min: 0,
            height_max: 20,
            width: 8,
            length: 8,
        },
    };
    let w = SimpleWorld::new(Arc::new(g), agv, 4).unwrap();
    let a = mv(0, 1, 0, 10);
    let b = mv(2, 2, 0, 10);
    assert!(!w.conflict(&a, &b));
}
