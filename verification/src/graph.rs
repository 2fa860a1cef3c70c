//! The facility graph: an immutable directed graph of positioned nodes
//! and speed-limited edges, built once from a layout description, with
//! per-node outgoing and incoming edge lists and the bidirectional
//! mapping between external node identifiers and dense internal indices.
//!
//! Coordinates are integers in a caller-chosen fixed-point unit. The
//! effective length of an edge is recomputed as the Euclidean distance
//! between its endpoint positions (rounded up to a whole unit); the
//! declared length from the layout is read but overridden.

use vstd::prelude::*;

verus! {

use std::collections::HashMap;
use crate::geometry::dist_sq;
use crate::geometry::sqrt_ceil;
use crate::geometry::isqrt_ceil;

broadcast use vstd::std_specs::hash::group_hash_axioms;

/// Largest coordinate magnitude the model admits, in fixed-point units.
/// Keeping positions within this range lets the conflict oracle evaluate
/// its collision polynomials exactly in 128-bit arithmetic.
pub const COORD_LIMIT: i64 = 8000000;

/// Position and advisory position tolerance of one node.
pub struct NodeData {
    pub x: i64,
    pub y: i64,
    pub deviation: i64,
}

/// Effective length and declared speed limit of one edge.
pub struct EdgeData {
    pub length: u64,
    pub max_speed: u64,
}

/// A directed edge between two dense node indices.
pub struct Edge {
    pub from: usize,
    pub to: usize,
    pub data: EdgeData,
}

/// One node of a facility layout description, keyed by its external
/// identifier.
pub struct LayoutNode {
    pub id: usize,
    pub x: i64,
    pub y: i64,
    pub deviation: i64,
}

/// One directed edge of a facility layout description, referencing its
/// endpoints by their external identifiers. The declared `length` is
/// kept for reference but superseded by the recomputed Euclidean
/// distance; `max_height` and `rotation_allowed` are carried along
/// unused by the cost and conflict models.
pub struct LayoutEdge {
    pub id: usize,
    pub start_node_id: usize,
    pub end_node_id: usize,
    pub max_speed: u64,
    pub max_height: i64,
    pub rotation_allowed: bool,
    pub length: i64,
}

/// Why a layout was rejected at graph construction time.
#[derive(Debug, Clone, Copy, PartialEq, Eq, Structural)]
pub enum BuildError {
    /// A node position lies outside the supported coordinate range.
    CoordinateOutOfRange { node_index: usize },
    /// An edge references an external node identifier that no node has.
    UnknownNodeId { edge_index: usize, node_id: usize },
    /// An edge declares a zero speed limit, which would make its
    /// traversal cost undefined.
    ZeroMaxSpeed { edge_index: usize },
}

/// The immutable facility graph.
pub struct Graph {
    pub nodes: Vec<NodeData>,
    pub edges: Vec<Edge>,
    pub out_edges: Vec<Vec<usize>>,
    pub in_edges: Vec<Vec<usize>>,
    pub mapping: HashMap<usize, usize>,
    pub inverse: Vec<usize>,
}

/// A node position within the supported coordinate range.
pub open spec fn node_ok(n: LayoutNode) -> bool {
    &&& -COORD_LIMIT <= n.x <= COORD_LIMIT
    &&& -COORD_LIMIT <= n.y <= COORD_LIMIT
}

/// Some layout node carries the external identifier `id`.
pub open spec fn has_node_id(nodes: Seq<LayoutNode>, id: usize) -> bool {
    exists |i: int| 0 <= i < nodes.len() && nodes[i].id == id
}

/// A layout edge that resolves both endpoints and has a usable speed.
pub open spec fn edge_ok(nodes: Seq<LayoutNode>, e: LayoutEdge) -> bool {
    &&& has_node_id(nodes, e.start_node_id)
    &&& has_node_id(nodes, e.end_node_id)
    &&& e.max_speed >= 1
}

/// A layout that `build_graph` accepts.
pub open spec fn layout_ok(nodes: Seq<LayoutNode>, edges: Seq<LayoutEdge>) -> bool {
    &&& forall |i: int| 0 <= i < nodes.len() ==> node_ok(#[trigger] nodes[i])
    &&& forall |j: int| 0 <= j < edges.len() ==> edge_ok(nodes, #[trigger] edges[j])
}

impl Graph {
    /// Coordinates of node `i` stay within the supported range.
    pub open spec fn node_in_range(&self, i: int) -> bool {
        &&& -COORD_LIMIT <= self.nodes@[i].x <= COORD_LIMIT
        &&& -COORD_LIMIT <= self.nodes@[i].y <= COORD_LIMIT
    }

    /// Edge `e` references existing nodes, has a positive speed limit,
    /// and carries the ceiling-rounded Euclidean distance between its
    /// endpoint positions as its effective length.
    pub open spec fn edge_valid(&self, e: int) -> bool {
        let ed = self.edges@[e];
        &&& ed.from < self.nodes@.len()
        &&& ed.to < self.nodes@.len()
        &&& ed.data.max_speed >= 1
        &&& ed.data.length == sqrt_ceil(dist_sq(
            self.nodes@[ed.from as int].x as int,
            self.nodes@[ed.from as int].y as int,
            self.nodes@[ed.to as int].x as int,
            self.nodes@[ed.to as int].y as int,
        ) as nat)
    }

    /// Entry `k` of the outgoing adjacency list of node `i`.
    pub open spec fn out_entry(&self, i: int, k: int) -> int {
        self.out_edges@[i]@[k] as int
    }

    /// Entry `k` of the incoming adjacency list of node `i`.
    pub open spec fn in_entry(&self, i: int, k: int) -> int {
        self.in_edges@[i]@[k] as int
    }

    /// Every adjacency entry names an existing edge with the right
    /// endpoint.
    pub open spec fn adjacency_sound(&self) -> bool {
        &&& forall |i: int, k: int|
            0 <= i < self.out_edges@.len() && 0 <= k < self.out_edges@[i]@.len()
                ==> 0 <= #[trigger] self.out_entry(i, k) < self.edges@.len()
                    && self.edges@[self.out_entry(i, k)].from == i
        &&& forall |i: int, k: int|
            0 <= i < self.in_edges@.len() && 0 <= k < self.in_edges@[i]@.len()
                ==> 0 <= #[trigger] self.in_entry(i, k) < self.edges@.len()
                    && self.edges@[self.in_entry(i, k)].to == i
    }

    /// Edge `e` appears in the adjacency lists of its endpoints.
    pub open spec fn edge_listed(&self, e: int) -> bool {
        &&& self.out_edges@[self.edges@[e].from as int]@.contains(e as usize)
        &&& self.in_edges@[self.edges@[e].to as int]@.contains(e as usize)
    }

    /// Adjacency lists hold edge indices in strictly increasing order,
    /// so each edge appears at most once per list.
    pub open spec fn adjacency_sorted(&self) -> bool {
        &&& forall |i: int, k1: int, k2: int|
            0 <= i < self.out_edges@.len() && 0 <= k1 < k2 < self.out_edges@[i]@.len()
                ==> #[trigger] self.out_entry(i, k1) < #[trigger] self.out_entry(i, k2)
        &&& forall |i: int, k1: int, k2: int|
            0 <= i < self.in_edges@.len() && 0 <= k1 < k2 < self.in_edges@[i]@.len()
                ==> #[trigger] self.in_entry(i, k1) < #[trigger] self.in_entry(i, k2)
    }

    /// The external-to-internal mapping and its inverse agree: every
    /// mapped external identifier resolves to a node that carries it,
    /// and every node's external identifier is mapped.
    pub open spec fn mapping_consistent(&self) -> bool {
        &&& forall |ext: usize| #[trigger] self.mapping@.contains_key(ext)
            ==> self.mapping@[ext] < self.inverse@.len()
                && self.inverse@[self.mapping@[ext] as int] == ext
        &&& forall |i: int| 0 <= i < self.inverse@.len()
            ==> self.mapping@.contains_key(#[trigger] self.inverse@[i])
    }

    /// Well-formedness of the whole graph, established by `build_graph`
    /// and required by everything that reads the graph.
    pub open spec fn wf(&self) -> bool {
        &&& self.out_edges@.len() == self.nodes@.len()
        &&& self.in_edges@.len() == self.nodes@.len()
        &&& self.inverse@.len() == self.nodes@.len()
        &&& forall |i: int| 0 <= i < self.nodes@.len() ==> #[trigger] self.node_in_range(i)
        &&& forall |e: int| 0 <= e < self.edges@.len() ==> #[trigger] self.edge_valid(e)
        &&& self.adjacency_sound()
        &&& forall |e: int| 0 <= e < self.edges@.len() ==> #[trigger] self.edge_listed(e)
        &&& self.adjacency_sorted()
        &&& self.mapping_consistent()
    }

    /// Number of nodes in the graph.
    pub fn num_nodes(&self) -> (n: usize)
        ensures
            n == self.nodes@.len(),
    {
        self.nodes.len()
    }

    /// Number of edges in the graph.
    pub fn num_edges(&self) -> (n: usize)
        ensures
            n == self.edges@.len(),
    {
        self.edges.len()
    }

    /// The data of node `i`.
    pub fn get_node(&self, i: usize) -> (r: &NodeData)
        requires
            i < self.nodes@.len(),
        ensures
            *r == self.nodes@[i as int],
    {
        &self.nodes[i]
    }

    /// The edge with dense index `e`.
    pub fn get_edge(&self, e: usize) -> (r: &Edge)
        requires
            e < self.edges@.len(),
        ensures
            *r == self.edges@[e as int],
    {
        &self.edges[e]
    }

    /// The precomputed list of edges leaving node `i`, as edge indices.
    pub fn get_edges_out(&self, i: usize) -> (r: &Vec<usize>)
        requires
            self.wf(),
            i < self.nodes@.len(),
        ensures
            r@ == self.out_edges@[i as int]@,
    {
        &self.out_edges[i]
    }

    /// The precomputed list of edges entering node `i`, as edge indices.
    pub fn get_edges_in(&self, i: usize) -> (r: &Vec<usize>)
        requires
            self.wf(),
            i < self.nodes@.len(),
        ensures
            r@ == self.in_edges@[i as int]@,
    {
        &self.in_edges[i]
    }

    /// The dense internal index assigned to the external identifier
    /// `ext`, if any node carries it.
    pub fn node_index(&self, ext: usize) -> (r: Option<usize>)
        ensures
            match r {
                Some(i) => self.mapping@.contains_key(ext) && i == self.mapping@[ext],
                None => !self.mapping@.contains_key(ext),
            },
    {
        match self.mapping.get(&ext) {
            Some(i) => Some(*i),
            None => None,
        }
    }

    /// The external identifier of the node with dense index `i`.
    pub fn external_id(&self, i: usize) -> (r: usize)
        requires
            self.wf(),
            i < self.nodes@.len(),
        ensures
            r == self.inverse@[i as int],
    {
        self.inverse[i]
    }
}

/// Identity-mapping round trip: resolving any mapped external
/// identifier to its dense index and back recovers the identifier
/// exactly; `build_graph` maps the identifier of every layout node.
pub proof fn lemma_id_round_trip(g: &Graph, ext: usize)
    requires
        g.wf(),
        g.mapping@.contains_key(ext),
    ensures
        g.mapping@[ext] < g.inverse@.len(),
        g.inverse@[g.mapping@[ext] as int] == ext,
{
}

/// A freshly built graph reproduces its layout: node data, identifiers
/// and edge endpoints all line up, and the external-identifier mapping
/// sends each identifier to the last layout node that declared it.
pub open spec fn graph_matches_layout(
    g: Graph,
    nodes: Seq<LayoutNode>,
    edges: Seq<LayoutEdge>,
) -> bool {
    &&& g.nodes@.len() == nodes.len()
    &&& g.edges@.len() == edges.len()
    &&& forall |i: int| 0 <= i < nodes.len() ==> (#[trigger] g.nodes@[i]).x == nodes[i].x
        && g.nodes@[i].y == nodes[i].y
        && g.nodes@[i].deviation == nodes[i].deviation
    &&& forall |i: int| 0 <= i < nodes.len() ==> #[trigger] g.inverse@[i] == nodes[i].id
    &&& forall |i: int| 0 <= i < nodes.len() ==> {
        let m = g.mapping@[(#[trigger] nodes[i]).id];
        &&& g.mapping@.contains_key(nodes[i].id)
        &&& i <= m < nodes.len()
        &&& nodes[m as int].id == nodes[i].id
    }
    &&& forall |j: int| 0 <= j < edges.len() ==> {
        let ge = #[trigger] g.edges@[j];
        &&& ge.from == g.mapping@[edges[j].start_node_id]
        &&& ge.to == g.mapping@[edges[j].end_node_id]
        &&& ge.data.max_speed == edges[j].max_speed
    }
}

/// The error returned for a rejected layout names the first offence, in
/// validation order: node positions first, then each edge's endpoint
/// resolution and speed limit.
pub open spec fn build_error_matches_layout(
    err: BuildError,
    nodes: Seq<LayoutNode>,
    edges: Seq<LayoutEdge>,
) -> bool {
    match err {
        BuildError::CoordinateOutOfRange { node_index } => {
            &&& 0 <= node_index < nodes.len()
            &&& !node_ok(nodes[node_index as int])
            &&& forall |i: int| 0 <= i < node_index ==> node_ok(#[trigger] nodes[i])
        },
        BuildError::UnknownNodeId { edge_index, node_id } => {
            &&& forall |i: int| 0 <= i < nodes.len() ==> node_ok(#[trigger] nodes[i])
            &&& 0 <= edge_index < edges.len()
            &&& forall |j: int| 0 <= j < edge_index ==> edge_ok(nodes, #[trigger] edges[j])
            &&& {
                let e = edges[edge_index as int];
                ||| (node_id == e.start_node_id && !has_node_id(nodes, e.start_node_id))
                ||| (has_node_id(nodes, e.start_node_id) && node_id == e.end_node_id
                    && !has_node_id(nodes, e.end_node_id))
            }
        },
        BuildError::ZeroMaxSpeed { edge_index } => {
            &&& forall |i: int| 0 <= i < nodes.len() ==> node_ok(#[trigger] nodes[i])
            &&& 0 <= edge_index < edges.len()
            &&& forall |j: int| 0 <= j < edge_index ==> edge_ok(nodes, #[trigger] edges[j])
            &&& has_node_id(nodes, edges[edge_index as int].start_node_id)
            &&& has_node_id(nodes, edges[edge_index as int].end_node_id)
            &&& edges[edge_index as int].max_speed == 0
        },
    }
}

/// Builds the immutable facility graph from a layout description.
///
/// Succeeds exactly when every node position is in range and every edge
/// resolves both endpoints and declares a positive speed limit. The
/// effective length of each edge is the ceiling-rounded Euclidean
/// distance between its endpoint positions, whatever length the layout
/// declared.
pub fn build_graph(nodes: Vec<LayoutNode>, edges: Vec<LayoutEdge>) -> (r: Result<
    Graph,
    BuildError,
>)
    ensures
        r is Ok <==> layout_ok(nodes@, edges@),
        match r {
            Ok(g) => g.wf() && graph_matches_layout(g, nodes@, edges@),
            Err(err) => build_error_matches_layout(err, nodes@, edges@),
        },
{
    let n = nodes.len();
    let mut i: usize = 0;
    while i < n
        invariant
            n == nodes@.len(),
            i <= n,
            forall |t: int| 0 <= t < i ==> node_ok(#[trigger] nodes@[t]),
        decreases n - i,
    {
        let nd = &nodes[i];
        if nd.x < -COORD_LIMIT || nd.x > COORD_LIMIT || nd.y < -COORD_LIMIT || nd.y > COORD_LIMIT {
            return Err(BuildError::CoordinateOutOfRange { node_index: i });
        }
        i = i + 1;
    }

    let mut gnodes: Vec<NodeData> = Vec::new();
    let mut out_edges: Vec<Vec<usize>> = Vec::new();
    let mut in_edges: Vec<Vec<usize>> = Vec::new();
    let mut mapping: HashMap<usize, usize> = HashMap::new();
    let mut inverse: Vec<usize> = Vec::new();
    let mut i: usize = 0;
    while i < n
        invariant
            n == nodes@.len(),
            i <= n,
            forall |t: int| 0 <= t < n ==> node_ok(#[trigger] nodes@[t]),
            gnodes@.len() == i,
            out_edges@.len() == i,
            in_edges@.len() == i,
            inverse@.len() == i,
            forall |t: int| 0 <= t < i ==> (#[trigger] gnodes@[t]).x == nodes@[t].x
                && gnodes@[t].y == nodes@[t].y
                && gnodes@[t].deviation == nodes@[t].deviation,
            forall |t: int| 0 <= t < i ==> #[trigger] inverse@[t] == nodes@[t].id,
            forall |t: int| 0 <= t < i ==> (#[trigger] out_edges@[t])@.len() == 0,
            forall |t: int| 0 <= t < i ==> (#[trigger] in_edges@[t])@.len() == 0,
            forall |ext: usize| #[trigger] mapping@.contains_key(ext)
                ==> has_node_id(nodes@.subrange(0, i as int), ext),
            forall |t: int| 0 <= t < i
                ==> mapping@.contains_key((#[trigger] nodes@[t]).id),
            forall |ext: usize| #[trigger] mapping@.contains_key(ext)
                ==> mapping@[ext] < i && inverse@[mapping@[ext] as int] == ext,
            forall |t: int| 0 <= t < i ==> t <= mapping@[(#[trigger] nodes@[t]).id],
        decreases n - i,
    {
        let nd = &nodes[i];
        gnodes.push(NodeData { x: nd.x, y: nd.y, deviation: nd.deviation });
        out_edges.push(Vec::new());
        in_edges.push(Vec::new());
        let ghost old_map = mapping@;
        mapping.insert(nd.id, i);
        inverse.push(nd.id);
        proof {
            assert(nodes@.subrange(0, i + 1 as int)[i as int].id == nd.id);
            assert forall |ext: usize| #[trigger] mapping@.contains_key(ext)
                implies has_node_id(nodes@.subrange(0, i + 1 as int), ext) by {
                if ext != nd.id {
                    assert(old_map.contains_key(ext));
                    let w = choose |t: int| 0 <= t < i
                        && nodes@.subrange(0, i as int)[t].id == ext;
                    assert(nodes@.subrange(0, i + 1 as int)[w].id == ext);
                }
            }
        }
        i = i + 1;
    }

    let m = edges.len();
    let mut gedges: Vec<Edge> = Vec::new();
    let mut j: usize = 0;
    while j < m
        invariant
            n == nodes@.len(),
            m == edges@.len(),
            j <= m,
            forall |t: int| 0 <= t < n ==> node_ok(#[trigger] nodes@[t]),
            gnodes@.len() == n,
            out_edges@.len() == n,
            in_edges@.len() == n,
            inverse@.len() == n,
            forall |t: int| 0 <= t < n ==> (#[trigger] gnodes@[t]).x == nodes@[t].x
                && gnodes@[t].y == nodes@[t].y
                && gnodes@[t].deviation == nodes@[t].deviation,
            forall |t: int| 0 <= t < n ==> #[trigger] inverse@[t] == nodes@[t].id,
            forall |ext: usize| #[trigger] mapping@.contains_key(ext)
                ==> has_node_id(nodes@, ext),
            forall |t: int| 0 <= t < n
                ==> mapping@.contains_key((#[trigger] nodes@[t]).id),
            forall |ext: usize| #[trigger] mapping@.contains_key(ext)
                ==> mapping@[ext] < n && inverse@[mapping@[ext] as int] == ext,
            forall |t: int| 0 <= t < n ==> t <= mapping@[(#[trigger] nodes@[t]).id],
            gedges@.len() == j,
            forall |e: int| 0 <= e < j ==> edge_ok(nodes@, #[trigger] edges@[e]),
            forall |e: int| 0 <= e < j ==> {
                let ge = #[trigger] gedges@[e];
                &&& ge.from == mapping@[edges@[e].start_node_id]
                &&& ge.to == mapping@[edges@[e].end_node_id]
                &&& ge.data.max_speed == edges@[e].max_speed
                &&& ge.from < n
                &&& ge.to < n
                &&& ge.data.max_speed >= 1
                &&& ge.data.length == sqrt_ceil(dist_sq(
                    gnodes@[ge.from as int].x as int,
                    gnodes@[ge.from as int].y as int,
                    gnodes@[ge.to as int].x as int,
                    gnodes@[ge.to as int].y as int,
                ) as nat)
            },
            forall |i2: int, k: int|
                0 <= i2 < n && 0 <= k < out_edges@[i2]@.len()
                    ==> 0 <= #[trigger] (out_edges@[i2]@[k] as int) < j
                        && gedges@[out_edges@[i2]@[k] as int].from == i2,
            forall |i2: int, k: int|
                0 <= i2 < n && 0 <= k < in_edges@[i2]@.len()
                    ==> 0 <= #[trigger] (in_edges@[i2]@[k] as int) < j
                        && gedges@[in_edges@[i2]@[k] as int].to == i2,
            forall |e: int| 0 <= e < j
                ==> (#[trigger] out_edges@[gedges@[e].from as int])@.contains(e as usize)
                    && in_edges@[gedges@[e].to as int]@.contains(e as usize),
            forall |i2: int, k1: int, k2: int|
                0 <= i2 < n && 0 <= k1 < k2 < out_edges@[i2]@.len()
                    ==> #[trigger] (out_edges@[i2]@[k1] as int)
                        < #[trigger] (out_edges@[i2]@[k2] as int),
            forall |i2: int, k1: int, k2: int|
                0 <= i2 < n && 0 <= k1 < k2 < in_edges@[i2]@.len()
                    ==> #[trigger] (in_edges@[i2]@[k1] as int)
                        < #[trigger] (in_edges@[i2]@[k2] as int),
        decreases m - j,
    {
        let e = &edges[j];
        let from = match mapping.get(&e.start_node_id) {
            Some(idx) => *idx,
            None => {
                return Err(BuildError::UnknownNodeId {
                    edge_index: j,
                    node_id: e.start_node_id,
                });
            },
        };
        let to = match mapping.get(&e.end_node_id) {
            Some(idx) => *idx,
            None => {
                return Err(BuildError::UnknownNodeId { edge_index: j, node_id: e.end_node_id });
            },
        };
        if e.max_speed == 0 {
            return Err(BuildError::ZeroMaxSpeed { edge_index: j });
        }
        proof {
            assert(has_node_id(nodes@, e.start_node_id));
            assert(has_node_id(nodes@, e.end_node_id));
        }
        let a_x = gnodes[from].x;
        let a_y = gnodes[from].y;
        let b_x = gnodes[to].x;
        let b_y = gnodes[to].y;
        let dx = b_x - a_x;
        let dy = b_y - a_y;
        proof {
            assert(dx * dx <= 16000000i64 * 16000000i64 && dx * dx >= 0) by (nonlinear_arith)
                requires -16000000 <= dx <= 16000000;
            assert(dy * dy <= 16000000i64 * 16000000i64 && dy * dy >= 0) by (nonlinear_arith)
                requires -16000000 <= dy <= 16000000;
        }
        let dsq: u64 = (dx * dx + dy * dy) as u64;
        let length = isqrt_ceil(dsq);
        let ghost old_out = out_edges@;
        let ghost old_in = in_edges@;
        gedges.push(Edge { from, to, data: EdgeData { length, max_speed: e.max_speed } });
        out_edges[from].push(j);
        in_edges[to].push(j);
        proof {
            assert(out_edges@[from as int]@ == old_out[from as int]@.push(j));
            assert(in_edges@[to as int]@ == old_in[to as int]@.push(j));
            assert forall |e2: int| 0 <= e2 < j + 1
                implies (#[trigger] out_edges@[gedges@[e2].from as int])@.contains(e2 as usize)
                    && in_edges@[gedges@[e2].to as int]@.contains(e2 as usize) by {
                let f2 = gedges@[e2].from as int;
                let t2 = gedges@[e2].to as int;
                if e2 < j {
                    let wo = choose |k: int| 0 <= k < old_out[f2]@.len()
                        && old_out[f2]@[k] == e2 as usize;
                    assert(out_edges@[f2]@[wo] == e2 as usize);
                    let wi = choose |k: int| 0 <= k < old_in[t2]@.len()
                        && old_in[t2]@[k] == e2 as usize;
                    assert(in_edges@[t2]@[wi] == e2 as usize);
                } else {
                    assert(out_edges@[f2]@[old_out[f2]@.len() as int] == j as usize);
                    assert(in_edges@[t2]@[old_in[t2]@.len() as int] == j as usize);
                }
            }
        }
        j = j + 1;
    }

    let g = Graph { nodes: gnodes, edges: gedges, out_edges, in_edges, mapping, inverse };
    proof {
        assert forall |e: int| 0 <= e < g.edges@.len() implies #[trigger] g.edge_valid(e) by {
            assert(0 <= e < gedges@.len());
        }
        assert forall |e: int| 0 <= e < g.edges@.len() implies #[trigger] g.edge_listed(e) by {
            assert(g.out_edges@[g.edges@[e].from as int]@.contains(e as usize));
            assert(g.in_edges@[g.edges@[e].to as int]@.contains(e as usize));
        }
        assert forall |i2: int| 0 <= i2 < g.nodes@.len()
            implies #[trigger] g.node_in_range(i2) by {
            assert(node_ok(nodes@[i2]));
        }
        assert forall |i2: int, k: int|
            0 <= i2 < g.out_edges@.len() && 0 <= k < g.out_edges@[i2]@.len()
            implies 0 <= #[trigger] g.out_entry(i2, k) < g.edges@.len()
                && g.edges@[g.out_entry(i2, k)].from == i2 by {
            assert(0 <= (g.out_edges@[i2]@[k] as int) && (g.out_edges@[i2]@[k] as int) < g.edges@.len());
        }
        assert forall |i2: int, k: int|
            0 <= i2 < g.in_edges@.len() && 0 <= k < g.in_edges@[i2]@.len()
            implies 0 <= #[trigger] g.in_entry(i2, k) < g.edges@.len()
                && g.edges@[g.in_entry(i2, k)].to == i2 by {
            assert(0 <= (g.in_edges@[i2]@[k] as int) && (g.in_edges@[i2]@[k] as int) < g.edges@.len());
        }
        assert forall |i2: int, k1: int, k2: int|
            0 <= i2 < g.out_edges@.len() && 0 <= k1 < k2 < g.out_edges@[i2]@.len()
            implies #[trigger] g.out_entry(i2, k1) < #[trigger] g.out_entry(i2, k2) by {
            assert((g.out_edges@[i2]@[k1] as int) < (g.out_edges@[i2]@[k2] as int));
        }
        assert forall |i2: int, k1: int, k2: int|
            0 <= i2 < g.in_edges@.len() && 0 <= k1 < k2 < g.in_edges@[i2]@.len()
            implies #[trigger] g.in_entry(i2, k1) < #[trigger] g.in_entry(i2, k2) by {
            assert((g.in_edges@[i2]@[k1] as int) < (g.in_edges@[i2]@[k2] as int));
        }
        assert forall |ext: usize| #[trigger] g.mapping@.contains_key(ext)
            implies g.mapping@[ext] < g.inverse@.len()
                && g.inverse@[g.mapping@[ext] as int] == ext by {
            assert(mapping@.contains_key(ext));
        }
        assert forall |i2: int| 0 <= i2 < g.inverse@.len()
            implies g.mapping@.contains_key(#[trigger] g.inverse@[i2]) by {
            assert(inverse@[i2] == nodes@[i2].id);
            assert(mapping@.contains_key(nodes@[i2].id));
        }
        assert(g.mapping_consistent());
        assert forall |i2: int| 0 <= i2 < nodes@.len() implies {
            let mm = g.mapping@[(#[trigger] nodes@[i2]).id];
            &&& g.mapping@.contains_key(nodes@[i2].id)
            &&& i2 <= mm < nodes@.len()
            &&& nodes@[mm as int].id == nodes@[i2].id
        } by {
            assert(mapping@.contains_key(nodes@[i2].id));
            let mm = g.mapping@[nodes@[i2].id];
            assert(g.inverse@[mm as int] == nodes@[i2].id);
            assert(0 <= mm < nodes@.len());
            assert(inverse@[mm as int] == nodes@[mm as int].id);
        }
    }
    Ok(g)
}

} // verus!
