//! Graph construction, identifier mapping, cost model and heuristic.

use std::sync::Arc;

use agv_world::agv::{PhysicalParameters, AGV};
use agv_world::graph::{build_graph, BuildError, LayoutEdge, LayoutNode};
use agv_world::heuristic::SimpleHeuristic;
use agv_world::world::{SimpleState, SimpleWorld};

fn node(id: usize, x: i64, y: i64) -> LayoutNode {
    LayoutNode { id, x, y, deviation: 0 }
}

fn edge(id: usize, start: usize, end: usize, max_speed: u64) -> LayoutEdge {
    LayoutEdge {
        id,
        start_node_id: start,
        end_node_id: end,
        max_speed,
        max_height: 30,
        rotation_allowed: true,
        length: 1,
    }
}

fn vehicle(speed_max: u64) -> AGV {
    AGV {
        physical_parameters: PhysicalParameters {
            speed_min: 0,
            speed_max,
            acceleration_max: 1,
            deceleration_max: 1,
            height_min: 0,
            height_max: 20,
            width: 8,
            length: 8,
        },
    }
}

#[test]
fn traversal_time_effective_speed() {
    // Two nodes ten units apart, edge speed limit 2, vehicle limit 1:
    // the effective speed is 1, so the traversal takes ten ticks.
    let g = build_graph(vec![node(1, 0, 0), node(2, 10, 0)], vec![edge(0, 1, 2, 2)]).unwrap();
    let w = SimpleWorld::new(Arc::new(g), vehicle(1), 1).unwrap();
    assert_eq!(w.time(0), 10);
}

#[test]
fn traversal_time_rounds_up() {
    let g = build_graph(vec![node(1, 0, 0), node(2, 10, 0)], vec![edge(0, 1, 2, 3)]).unwrap();
    let w = SimpleWorld::new(Arc::new(g), vehicle(7), 1).unwrap();
    // Effective speed 3 over length 10: four ticks, rounded up.
    assert_eq!(w.time(0), 4);
}

#[test]
fn traversal_time_positive_and_antitone_in_speed() {
    // The same geometry under three speed limits: the cost is always
    // positive and never shrinks when the effective speed drops.
    let nodes = vec![node(1, 0, 0), node(2, 37, 91)];
    let g = build_graph(
        nodes,
        vec![edge(0, 1, 2, 1), edge(1, 1, 2, 3), edge(2, 1, 2, 1000)],
    )
    .unwrap();
    let w = SimpleWorld::new(Arc::new(g), vehicle(5), 1).unwrap();
    let slow = w.time(0);
    let mid = w.time(1);
    let fast = w.time(2);
    assert!(slow >= 1 && mid >= 1 && fast >= 1);
    assert!(slow >= mid && mid >= fast);
    // Euclidean length is ceil(sqrt(37^2 + 91^2)) = ceil(98.23..) = 99.
    assert_eq!(slow, 99);
    assert_eq!(mid, 33);
    // The vehicle's own limit caps the effective speed at 5.
    assert_eq!(fast, 20);
}

#[test]
fn zero_length_edge_costs_nothing() {
    let g = build_graph(vec![node(1, 4, 4), node(2, 4, 4)], vec![edge(0, 1, 2, 2)]).unwrap();
    let w = SimpleWorld::new(Arc::new(g), vehicle(2), 1).unwrap();
    assert_eq!(w.time(0), 0);
}

#[test]
fn lower_bound_time_rounds_down() {
    let g = build_graph(vec![node(1, 0, 0), node(2, 5, 0)], vec![]).unwrap();
    let w = SimpleWorld::new(Arc::new(g), vehicle(2), 1).unwrap();
    assert_eq!(w.time_between(SimpleState(0), SimpleState(1)), 2);
    assert_eq!(w.time_between(SimpleState(0), SimpleState(0)), 0);
}

#[test]
fn identifier_round_trip() {
    // External identifiers are arbitrary; the round trip through the
    // dense indices recovers each of them exactly.
    let g = build_graph(
        vec![node(42, 0, 0), node(7, 10, 0), node(13, 0, 10)],
        vec![edge(0, 42, 7, 1), edge(1, 7, 13, 1)],
    )
    .unwrap();
    for ext in [42usize, 7, 13] {
        let i = g.node_index(ext).unwrap();
        assert_eq!(g.external_id(i), ext);
    }
    assert!(g.node_index(99).is_none());
}

#[test]
fn duplicate_identifier_last_wins() {
    // Two nodes declare the same identifier: lookups resolve to the
    // later one, and the round trip still recovers the identifier.
    let g = build_graph(
        vec![node(5, 0, 0), node(5, 10, 0)],
        vec![edge(0, 5, 5, 1)],
    )
    .unwrap();
    let i = g.node_index(5).unwrap();
    assert_eq!(i, 1);
    assert_eq!(g.external_id(i), 5);
    // Both endpoints of the edge resolved through the mapping.
    assert_eq!(g.get_edge(0).from, 1);
    assert_eq!(g.get_edge(0).to, 1);
}

#[test]
fn dangling_edge_is_rejected() {
    let r = build_graph(vec![node(1, 0, 0)], vec![edge(0, 1, 2, 1)]);
    assert_eq!(
        r.err().unwrap(),
        BuildError::UnknownNodeId { edge_index: 0, node_id: 2 }
    );
}

#[test]
fn zero_speed_edge_is_rejected() {
    let r = build_graph(vec![node(1, 0, 0), node(2, 1, 0)], vec![edge(0, 1, 2, 0)]);
    assert_eq!(r.err().unwrap(), BuildError::ZeroMaxSpeed { edge_index: 0 });
}

#[test]
fn out_of_range_coordinate_is_rejected() {
    let r = build_graph(vec![node(1, 0, 0), node(2, 9000000, 0)], vec![]);
    assert_eq!(r.err().unwrap(), BuildError::CoordinateOutOfRange { node_index: 1 });
}

#[test]
fn zero_max_speed_vehicle_is_rejected() {
    let g = build_graph(vec![node(1, 0, 0)], vec![]).unwrap();
    let r = SimpleWorld::new(Arc::new(g), vehicle(0), 1);
    assert!(r.is_err());
}

#[test]
fn adjacency_lists_follow_the_edges() {
    let g = build_graph(
        vec![node(1, 0, 0), node(2, 10, 0), node(3, 0, 10)],
        vec![edge(0, 1, 2, 1), edge(1, 1, 3, 1), edge(2, 2, 3, 1), edge(3, 3, 1, 1)],
    )
    .unwrap();
    let w = SimpleWorld::new(Arc::new(g), vehicle(1), 1).unwrap();
    assert_eq!(w.actions_from(&SimpleState(0)).clone(), vec![0, 1]);
    assert_eq!(w.actions_from(&SimpleState(1)).clone(), vec![2]);
    assert_eq!(w.reverse_actions_from(&SimpleState(2)).clone(), vec![1, 2]);
    assert_eq!(w.transition(&SimpleState(0), 0), SimpleState(1));
    assert_eq!(w.reverse_transition(&SimpleState(1), 0), SimpleState(0));
    assert_eq!(w.transition_cost(&SimpleState(0), 0), w.time(0));
    assert!(w.can_wait_at(&SimpleState(0)));
    assert!(SimpleState(2).is_equivalent(&SimpleState(2)));
    assert!(!SimpleState(2).is_equivalent(&SimpleState(0)));
}

/// Shortest path costs by exhaustive relaxation over the real edge
/// costs, for the admissibility check.
fn dijkstra(w: &SimpleWorld, goal: usize) -> Vec<Option<u64>> {
    let n = w.graph.num_nodes();
    let mut dist: Vec<Option<u64>> = vec![None; n];
    dist[goal] = Some(0);
    for _ in 0..n {
        for e in 0..w.graph.num_edges() {
            let edge = w.graph.get_edge(e);
            let cost = w.time(e);
            if let Some(d) = dist[edge.to] {
                let candidate = d + cost;
                if dist[edge.from].map_or(true, |old| candidate < old) {
                    dist[edge.from] = Some(candidate);
                }
            }
        }
    }
    dist
}

#[test]
fn heuristic_is_admissible_on_sample_graph() {
    // For every node and every goal, the heuristic never exceeds the
    // true remaining cost under the real edge-speed-limited model.
    let g = build_graph(
        vec![
            node(1, 0, 0),
            node(2, 100, 0),
            node(3, 100, 80),
            node(4, 0, 80),
            node(5, 50, 40),
        ],
        vec![
            edge(0, 1, 2, 2),
            edge(1, 2, 3, 1),
            edge(2, 3, 4, 9),
            edge(3, 4, 1, 3),
            edge(4, 1, 5, 1),
            edge(5, 5, 3, 2),
            edge(6, 2, 5, 4),
            edge(7, 5, 4, 2),
        ],
    )
    .unwrap();
    let w = Arc::new(SimpleWorld::new(Arc::new(g), vehicle(3), 1).unwrap());
    let n = w.graph.num_nodes();
    for goal in 0..n {
        let h = SimpleHeuristic::new(w.clone(), SimpleState(goal));
        let dist = dijkstra(&w, goal);
        for from in 0..n {
            if let Some(true_cost) = dist[from] {
                let estimate = h.get_heuristic(&SimpleState(from)).unwrap();
                assert!(
                    estimate <= true_cost,
                    "estimate {} exceeds true cost {} from {} to {}",
                    estimate,
                    true_cost,
                    from,
                    goal
                );
            }
        }
    }
}

#[test]
fn heuristic_of_goal_is_zero() {
    let g = build_graph(vec![node(1, 0, 0), node(2, 30, 40)], vec![edge(0, 1, 2, 5)]).unwrap();
    let w = Arc::new(SimpleWorld::new(Arc::new(g), vehicle(5), 1).unwrap());
    let h = SimpleHeuristic::build(w.clone(), SimpleState(1));
    assert_eq!(h.get_heuristic(&SimpleState(1)), Some(0));
    // Straight-line distance 50 at speed 5: ten ticks.
    assert_eq!(h.get_heuristic(&SimpleState(0)), Some(10));
}
