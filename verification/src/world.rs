//! Areas and the directed graph of single-hop connections between them.
//!
//! The graph itself is petgraph's `GraphMap`, held behind trusted wrappers.
//! Its nodes are area handles packed into plain integer pairs, and its edges
//! carry no weight: only connectivity matters.

use vstd::prelude::*;

use crate::gid::Gid;

verus! {

/// An area of the map and the units currently standing in it, as a
/// duplicate-free roster in insertion order.
#[derive(Debug)]
pub struct Area {
    pub name: String,
    pub units: Vec<Gid>,
}

impl Area {
    /// The roster never lists the same handle twice.
    pub open spec fn inv(self) -> bool {
        forall|k1: int, k2: int|
            0 <= k1 < k2 < self.units@.len() ==> self.units@[k1] != self.units@[k2]
    }
}

/// Template for an area, as scenario data names it.
#[derive(Debug, Clone)]
pub struct AreaDef {
    pub name: String,
}

/// An unweighted connection between two areas.
#[derive(Debug, Copy, Clone, PartialEq, Eq, Hash, Structural)]
pub struct Edge;

#[verifier::external_type_specification]
#[verifier::external_body]
pub struct ExDirected(petgraph::Directed);

#[verifier::external_type_specification]
#[verifier::external_body]
#[verifier::reject_recursive_types(N)]
#[verifier::reject_recursive_types(E)]
#[verifier::reject_recursive_types(Ty)]
#[verifier::reject_recursive_types(S)]
pub struct ExGraphMap<N, E, Ty, S>(petgraph::graphmap::GraphMap<N, E, Ty, S>) where
    S: std::hash::BuildHasher;

/// The underlying directed graph: nodes are packed `Gid` keys.
pub type AreaGraph = petgraph::graphmap::GraphMap<
    (u64, u64),
    (),
    petgraph::Directed,
    std::collections::hash_map::RandomState,
>;

/// The node set that an `AreaGraph` holds.
pub uninterp spec fn graph_nodes(g: AreaGraph) -> Set<(u64, u64)>;

/// The directed edge set that an `AreaGraph` holds.
pub uninterp spec fn graph_edges(g: AreaGraph) -> Set<((u64, u64), (u64, u64))>;

/// Relies on petgraph's `GraphMap::new`: a fresh graph has no nodes and no
/// edges.
#[verifier::external_body]
fn graph_new() -> (g: AreaGraph)
    ensures
        graph_nodes(g) == Set::<(u64, u64)>::empty(),
        graph_edges(g) == Set::<((u64, u64), (u64, u64))>::empty(),
{
    petgraph::graphmap::GraphMap::new()
}

/// Relies on petgraph's `GraphMap::add_node`: inserts the node and touches
/// no edges.
#[verifier::external_body]
fn graph_add_node(g: &mut AreaGraph, n: (u64, u64))
    ensures
        graph_nodes(*final(g)) == graph_nodes(*old(g)).insert(n),
        graph_edges(*final(g)) == graph_edges(*old(g)),
{
    g.add_node(n);
}

/// Relies on petgraph's `GraphMap::add_edge` on a directed graph: inserts
/// the edge a→b together with its endpoints, and reports whether the edge
/// was already present.
#[verifier::external_body]
fn graph_add_edge(g: &mut AreaGraph, a: (u64, u64), b: (u64, u64)) -> (r: Option<()>)
    ensures
        graph_edges(*final(g)) == graph_edges(*old(g)).insert((a, b)),
        graph_nodes(*final(g)) == graph_nodes(*old(g)).insert(a).insert(b),
        r is Some <==> graph_edges(*old(g)).contains((a, b)),
{
    g.add_edge(a, b, ())
}

/// Relies on petgraph's `GraphMap::contains_edge` on a directed graph.
#[verifier::external_body]
fn graph_contains_edge(g: &AreaGraph, a: (u64, u64), b: (u64, u64)) -> (r: bool)
    ensures
        r == graph_edges(*g).contains((a, b)),
{
    g.contains_edge(a, b)
}

/// Relies on petgraph's `GraphMap::contains_node`.
#[verifier::external_body]
fn graph_contains_node(g: &AreaGraph, n: (u64, u64)) -> (r: bool)
    ensures
        r == graph_nodes(*g).contains(n),
{
    g.contains_node(n)
}

/// The key under which a handle is stored in the graph. Distinct handles
/// get distinct keys.
pub open spec fn spec_key(gid: Gid) -> (u64, u64) {
    (gid.index as u64, gid.generation)
}

/// The directed area-connection graph, keyed by area handles.
#[derive(Debug)]
pub struct World {
    graph: AreaGraph,
}

impl World {
    /// The connections, as a set of directed handle pairs.
    pub closed spec fn spec_edges(self) -> Set<(Gid, Gid)> {
        Set::new(|p: (Gid, Gid)| graph_edges(self.graph).contains((spec_key(p.0), spec_key(p.1))))
    }

    /// The areas known to the graph.
    pub closed spec fn spec_nodes(self) -> Set<Gid> {
        Set::new(|g: Gid| graph_nodes(self.graph).contains(spec_key(g)))
    }

    pub fn new() -> (w: World)
        ensures
            w.spec_edges() == Set::<(Gid, Gid)>::empty(),
            w.spec_nodes() == Set::<Gid>::empty(),
    {
        let w = World { graph: graph_new() };
        proof {
            assert(w.spec_edges() =~= Set::<(Gid, Gid)>::empty());
            assert(w.spec_nodes() =~= Set::<Gid>::empty());
        }
        w
    }

    pub fn add_node(&mut self, area_id: Gid)
        ensures
            final(self).spec_nodes() == old(self).spec_nodes().insert(area_id),
            final(self).spec_edges() == old(self).spec_edges(),
    {
        let ghost w0 = *self;
        graph_add_node(&mut self.graph, key_of(area_id));
        proof {
            assert forall|g: Gid|
                final(self).spec_nodes().contains(g) == w0.spec_nodes().insert(
                    area_id,
                ).contains(g) by {
                if spec_key(g) == spec_key(area_id) {
                    assert(g == area_id);
                }
            }
            assert(final(self).spec_nodes() =~= w0.spec_nodes().insert(area_id));
            assert(final(self).spec_edges() =~= w0.spec_edges());
        }
    }

    /// Adds the directed connection `from → to`, returning the displaced
    /// edge value when the connection already existed.
    pub fn add_edge(&mut self, from: Gid, to: Gid, _edge: Edge) -> (r: Option<Edge>)
        ensures
            final(self).spec_edges() == old(self).spec_edges().insert((from, to)),
            final(self).spec_nodes() == old(self).spec_nodes().insert(from).insert(to),
            r is Some <==> old(self).spec_edges().contains((from, to)),
    {
        let ghost w0 = *self;
        let prev = graph_add_edge(&mut self.graph, key_of(from), key_of(to));
        proof {
            assert forall|p: (Gid, Gid)|
                final(self).spec_edges().contains(p) == w0.spec_edges().insert(
                    (from, to),
                ).contains(p) by {
                if spec_key(p.0) == spec_key(from) && spec_key(p.1) == spec_key(to) {
                    assert(p.0 == from && p.1 == to);
                }
            }
            assert(final(self).spec_edges() =~= w0.spec_edges().insert((from, to)));
            assert forall|g: Gid|
                final(self).spec_nodes().contains(g) == w0.spec_nodes().insert(from).insert(
                    to,
                ).contains(g) by {
                if spec_key(g) == spec_key(from) {
                    assert(g == from);
                }
                if spec_key(g) == spec_key(to) {
                    assert(g == to);
                }
            }
            assert(final(self).spec_nodes() =~= w0.spec_nodes().insert(from).insert(to));
        }
        match prev {
            Some(_) => Some(Edge),
            None => None,
        }
    }

    /// Whether the directed connection `from → to` exists: what every
    /// single-hop move must cross.
    pub fn contains_edge(&self, from: Gid, to: Gid) -> (r: bool)
        ensures
            r == self.spec_edges().contains((from, to)),
    {
        graph_contains_edge(&self.graph, key_of(from), key_of(to))
    }

    /// Whether the area is known to the graph.
    pub fn contains_node(&self, area_id: Gid) -> (r: bool)
        ensures
            r == self.spec_nodes().contains(area_id),
    {
        graph_contains_node(&self.graph, key_of(area_id))
    }
}

/// The packed integer key under which a handle is stored in the graph.
fn key_of(gid: Gid) -> (k: (u64, u64))
    ensures
        k == spec_key(gid),
{
    (gid.index as u64, gid.generation)
}

} // verus!
