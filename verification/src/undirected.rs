//! Undirected stable graphs: what Verus is told of the `petgraph` calls, and
//! the small updates that the library builds on them.

use vstd::prelude::*;
use petgraph::stable_graph::EdgeIndex;
use petgraph::stable_graph::NodeIndex;
use petgraph::stable_graph::StableGraph;
use crate::store::lists_keys;
use crate::store::UndirectedGraph;
use crate::store::without_node;
use crate::values::edge_view;
use crate::values::EdgePayload;
use crate::values::EdgeView;
use crate::values::NodeView;
use crate::values::PlacedNode;
use crate::values::Position;
use crate::values::Scalar;

verus! {

/// The nodes that an undirected graph holds, by identifier.
pub uninterp spec fn undirected_nodes(g: UndirectedGraph) -> Map<u32, NodeView>;

/// The edges that an undirected graph holds, by identifier.
pub uninterp spec fn undirected_edges(g: UndirectedGraph) -> Map<u32, EdgeView>;

/// `StableGraph::default`: an undirected graph without nodes or edges.
#[verifier::external_body]
pub(crate) fn undirected_new() -> (g: UndirectedGraph)
    ensures
        undirected_nodes(g) == (Map::<u32, NodeView>::empty()),
        undirected_edges(g) == (Map::<u32, EdgeView>::empty()),
{
    StableGraph::default()
}

/// `StableGraph::node_count`: how many nodes the graph holds.
#[verifier::external_body]
pub(crate) fn undirected_node_count(g: &UndirectedGraph) -> (n: usize)
    ensures
        n == undirected_nodes(*g).len(),
{
    g.node_count()
}

/// `StableGraph::edge_count`: how many edges the graph holds.
#[verifier::external_body]
pub(crate) fn undirected_edge_count(g: &UndirectedGraph) -> (n: usize)
    ensures
        n == undirected_edges(*g).len(),
{
    g.edge_count()
}

/// `StableGraph::add_node`: the node is stored under an identifier that was
/// not in use, and nothing else changes. Which identifier it is the
/// documentation leaves open. The call panics on a graph that its index type
/// cannot extend, which a graph with fewer than `u32::MAX` nodes never is.
#[verifier::external_body]
pub(crate) fn undirected_add_node(g: &mut UndirectedGraph, node: PlacedNode) -> (id: u32)
    requires
        undirected_nodes(*old(g)).dom().finite(),
        undirected_nodes(*old(g)).len() < u32::MAX,
    ensures
        !undirected_nodes(*old(g)).contains_key(id),
        undirected_nodes(*final(g)) == undirected_nodes(*old(g)).insert(id, node@),
        undirected_edges(*final(g)) == undirected_edges(*old(g)),
{
    g.add_node(node).index() as u32
}

/// `StableGraph::remove_node`: the node leaves together with every edge that
/// has it as an end, and is handed back; an identifier that names no node
/// changes nothing.
#[verifier::external_body]
pub(crate) fn undirected_remove_node(g: &mut UndirectedGraph, id: u32) -> (removed: Option<PlacedNode>)
    ensures
        removed is Some <==> undirected_nodes(*old(g)).contains_key(id),
        removed is Some ==> removed->0@ == undirected_nodes(*old(g))[id],
        removed is Some ==> undirected_nodes(*final(g)) == undirected_nodes(*old(g)).remove(id),
        removed is Some ==> undirected_edges(*final(g)) == without_node(undirected_edges(*old(g)), id),
        removed is None ==> *final(g) == *old(g),
{
    g.remove_node(NodeIndex::new(id as usize))
}

/// `StableGraph::node_weight`: the node stored under `id`, if there is one.
#[verifier::external_body]
pub(crate) fn undirected_node_weight(g: &UndirectedGraph, id: u32) -> (node: Option<&PlacedNode>)
    ensures
        node is Some <==> undirected_nodes(*g).contains_key(id),
        node is Some ==> node->0@ == undirected_nodes(*g)[id],
{
    g.node_weight(NodeIndex::new(id as usize))
}

/// `StableGraph::node_weight_mut`: the node stored under `id`, to be changed
/// in place; whatever the caller leaves there is what the graph then holds.
#[verifier::external_body]
pub(crate) fn undirected_node_weight_mut(g: &mut UndirectedGraph, id: u32) -> (node: Option<&mut PlacedNode>)
    ensures
        node is Some <==> undirected_nodes(*old(g)).contains_key(id),
        node is Some ==> (*(node->0))@ == undirected_nodes(*old(g))[id],
        node is Some ==> undirected_nodes(*final(g)) == undirected_nodes(*old(g)).insert(id, (*final(node->0))@),
        node is Some ==> undirected_edges(*final(g)) == undirected_edges(*old(g)),
        node is None ==> *final(g) == *old(g),
{
    g.node_weight_mut(NodeIndex::new(id as usize))
}

/// `StableGraph::node_indices`: the identifiers of all nodes, ascending.
#[verifier::external_body]
pub(crate) fn undirected_node_indices(g: &UndirectedGraph) -> (ids: Vec<u32>)
    ensures
        lists_keys(ids@, undirected_nodes(*g).dom()),
{
    g.node_indices().map(|i| i.index() as u32).collect()
}

/// `StableGraph::add_edge`: the edge is stored under an identifier that was
/// not in use, and nothing else changes. The call panics when one of the two
/// ends is no node of the graph, or on a graph that its index type cannot
/// extend.
#[verifier::external_body]
pub(crate) fn undirected_add_edge(g: &mut UndirectedGraph, source: u32, target: u32, payload: EdgePayload) -> (id: u32)
    requires
        undirected_nodes(*old(g)).contains_key(source),
        undirected_nodes(*old(g)).contains_key(target),
        undirected_edges(*old(g)).dom().finite(),
        undirected_edges(*old(g)).len() < u32::MAX,
    ensures
        !undirected_edges(*old(g)).contains_key(id),
        undirected_edges(*final(g)) == undirected_edges(*old(g)).insert(id, edge_view(source, target, payload@)),
        undirected_nodes(*final(g)) == undirected_nodes(*old(g)),
{
    g.add_edge(NodeIndex::new(source as usize), NodeIndex::new(target as usize), payload).index() as u32
}

/// `StableGraph::remove_edge`: the edge leaves and its payload is handed
/// back; an identifier that names no edge changes nothing.
#[verifier::external_body]
pub(crate) fn undirected_remove_edge(g: &mut UndirectedGraph, id: u32) -> (removed: Option<EdgePayload>)
    ensures
        removed is Some <==> undirected_edges(*old(g)).contains_key(id),
        removed is Some ==> edge_view(undirected_edges(*old(g))[id].source, undirected_edges(*old(g))[id].target, removed->0@) == undirected_edges(*old(g))[id],
        removed is Some ==> undirected_edges(*final(g)) == undirected_edges(*old(g)).remove(id),
        removed is Some ==> undirected_nodes(*final(g)) == undirected_nodes(*old(g)),
        removed is None ==> *final(g) == *old(g),
{
    g.remove_edge(EdgeIndex::new(id as usize))
}

/// `StableGraph::edge_weight`: the payload of the edge stored under `id`.
#[verifier::external_body]
pub(crate) fn undirected_edge_weight(g: &UndirectedGraph, id: u32) -> (payload: Option<&EdgePayload>)
    ensures
        payload is Some <==> undirected_edges(*g).contains_key(id),
        payload is Some ==> edge_view(undirected_edges(*g)[id].source, undirected_edges(*g)[id].target, payload->0@) == undirected_edges(*g)[id],
{
    g.edge_weight(EdgeIndex::new(id as usize))
}

/// `StableGraph::edge_weight_mut`: the payload of the edge stored under `id`,
/// to be changed in place; the ends of the edge stay.
#[verifier::external_body]
pub(crate) fn undirected_edge_weight_mut(g: &mut UndirectedGraph, id: u32) -> (payload: Option<&mut EdgePayload>)
    ensures
        payload is Some <==> undirected_edges(*old(g)).contains_key(id),
        payload is Some ==> edge_view(undirected_edges(*old(g))[id].source, undirected_edges(*old(g))[id].target, (*(payload->0))@) == undirected_edges(*old(g))[id],
        payload is Some ==> undirected_edges(*final(g)) == undirected_edges(*old(g)).insert(id, edge_view(undirected_edges(*old(g))[id].source, undirected_edges(*old(g))[id].target, (*final(payload->0))@)),
        payload is Some ==> undirected_nodes(*final(g)) == undirected_nodes(*old(g)),
        payload is None ==> *final(g) == *old(g),
{
    g.edge_weight_mut(EdgeIndex::new(id as usize))
}

/// `StableGraph::edge_endpoints`: the two ends of the edge stored under `id`,
/// in the order in which the edge was added.
#[verifier::external_body]
pub(crate) fn undirected_edge_endpoints(g: &UndirectedGraph, id: u32) -> (ends: Option<(u32, u32)>)
    ensures
        ends is Some <==> undirected_edges(*g).contains_key(id),
        ends is Some ==> ends == Some((undirected_edges(*g)[id].source, undirected_edges(*g)[id].target)),
{
    g.edge_endpoints(EdgeIndex::new(id as usize)).map(|(a, b)| (a.index() as u32, b.index() as u32))
}

/// `StableGraph::edge_indices`: the identifiers of all edges, ascending.
#[verifier::external_body]
pub(crate) fn undirected_edge_indices(g: &UndirectedGraph) -> (ids: Vec<u32>)
    ensures
        lists_keys(ids@, undirected_edges(*g).dom()),
{
    g.edge_indices().map(|i| i.index() as u32).collect()
}

/// Moves the node `id` to `position`; `false` when there is no such node.
pub(crate) fn undirected_set_position(g: &mut UndirectedGraph, id: u32, position: Position) -> (done: bool)
    ensures
        done == undirected_nodes(*old(g)).contains_key(id),
        done ==> undirected_nodes(*final(g)) == undirected_nodes(*old(g)).insert(
            id,
            NodeView { position, ..undirected_nodes(*old(g))[id] },
        ),
        done ==> undirected_edges(*final(g)) == undirected_edges(*old(g)),
        !done ==> *final(g) == *old(g),
{
    match undirected_node_weight_mut(g, id) {
        Some(node) => {
            node.position = position;
            true
        },
        None => false,
    }
}

/// Gives the node `id` the weight `weight`; `false` when there is no such node.
pub(crate) fn undirected_set_node_weight(g: &mut UndirectedGraph, id: u32, weight: Scalar) -> (done: bool)
    ensures
        done == undirected_nodes(*old(g)).contains_key(id),
        done ==> undirected_nodes(*final(g)) == undirected_nodes(*old(g)).insert(
            id,
            NodeView { weight, ..undirected_nodes(*old(g))[id] },
        ),
        done ==> undirected_edges(*final(g)) == undirected_edges(*old(g)),
        !done ==> *final(g) == *old(g),
{
    match undirected_node_weight_mut(g, id) {
        Some(node) => {
            node.payload.weight = weight;
            true
        },
        None => false,
    }
}

/// Gives the edge `id` the weight `weight`; `false` when there is no such edge.
pub(crate) fn undirected_set_edge_weight(g: &mut UndirectedGraph, id: u32, weight: Scalar) -> (done: bool)
    ensures
        done == undirected_edges(*old(g)).contains_key(id),
        done ==> undirected_edges(*final(g)) == undirected_edges(*old(g)).insert(
            id,
            EdgeView { weight, ..undirected_edges(*old(g))[id] },
        ),
        done ==> undirected_nodes(*final(g)) == undirected_nodes(*old(g)),
        !done ==> *final(g) == *old(g),
{
    match undirected_edge_weight_mut(g, id) {
        Some(payload) => {
            payload.weight = weight;
            true
        },
        None => false,
    }
}

} // verus!
