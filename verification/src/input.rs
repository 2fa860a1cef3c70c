//! The task list handed to the planner: each task names an agent and its
//! start and goal nodes by their external identifiers, to be resolved
//! through the graph's identifier mapping before the search runs.

use vstd::prelude::*;

verus! {

/// One planning task.
#[derive(Debug, Clone, Copy, PartialEq, Eq, Structural)]
pub struct Task {
    pub agent: usize,
    pub start_id: usize,
    pub goal_id: usize,
}

/// The parsed task list.
#[derive(Debug, Clone)]
pub struct Input {
    pub tasks: Vec<Task>,
}

} // verus!
