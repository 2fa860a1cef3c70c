//! Domain model for multi-agent route planning of automated guided
//! vehicles over a fixed facility graph: graph construction from a
//! layout description, exact integer cost and heuristic models, and a
//! continuous-time conflict oracle for pairs of timed moves.

pub mod agv;
pub mod arith;
pub mod conflict;
pub mod geometry;
pub mod graph;
pub mod heuristic;
pub mod input;
pub mod world;
