//! The display graph: a stable graph of either topology behind one interface.

use vstd::prelude::*;
use crate::directed::directed_add_edge;
use crate::directed::directed_add_node;
use crate::directed::directed_edge_count;
use crate::directed::directed_edge_endpoints;
use crate::directed::directed_edge_indices;
use crate::directed::directed_edge_weight;
use crate::directed::directed_edge_weight_mut;
use crate::directed::directed_edges;
use crate::directed::directed_new;
use crate::directed::directed_node_count;
use crate::directed::directed_node_indices;
use crate::directed::directed_node_weight;
use crate::directed::directed_node_weight_mut;
use crate::directed::directed_nodes;
use crate::directed::directed_remove_edge;
use crate::directed::directed_remove_node;
use crate::directed::directed_set_edge_weight;
use crate::directed::directed_set_node_weight;
use crate::directed::directed_set_position;
use crate::store::DirectedGraph;
use crate::store::lemma_without_node_sound;
use crate::store::lists_keys;
use crate::store::sound;
use crate::store::UndirectedGraph;
use crate::store::without_node;
use crate::undirected::undirected_add_edge;
use crate::undirected::undirected_add_node;
use crate::undirected::undirected_edge_count;
use crate::undirected::undirected_edge_endpoints;
use crate::undirected::undirected_edge_indices;
use crate::undirected::undirected_edge_weight;
use crate::undirected::undirected_edge_weight_mut;
use crate::undirected::undirected_edges;
use crate::undirected::undirected_new;
use crate::undirected::undirected_node_count;
use crate::undirected::undirected_node_indices;
use crate::undirected::undirected_node_weight;
use crate::undirected::undirected_node_weight_mut;
use crate::undirected::undirected_nodes;
use crate::undirected::undirected_remove_edge;
use crate::undirected::undirected_remove_node;
use crate::undirected::undirected_set_edge_weight;
use crate::undirected::undirected_set_node_weight;
use crate::undirected::undirected_set_position;
use crate::values::edge_view;
use crate::values::EdgePayload;
use crate::values::EdgeView;
use crate::values::NodeView;
use crate::values::PlacedNode;
use crate::values::Position;
use crate::values::Scalar;

verus! {

/// A graph that is directed or undirected as a whole.
pub enum AppGraph {
    Directed(DirectedGraph),
    Undirected(UndirectedGraph),
}

impl AppGraph {
    /// The nodes of the graph, by identifier.
    pub open spec fn nodes(&self) -> Map<u32, NodeView> {
        match *self {
            AppGraph::Directed(g) => directed_nodes(g),
            AppGraph::Undirected(g) => undirected_nodes(g),
        }
    }

    /// The edges of the graph, by identifier.
    pub open spec fn edges(&self) -> Map<u32, EdgeView> {
        match *self {
            AppGraph::Directed(g) => directed_edges(g),
            AppGraph::Undirected(g) => undirected_edges(g),
        }
    }

    /// Whether the edges have a direction.
    pub open spec fn directed(&self) -> bool {
        self is Directed
    }

    /// The graph is finite and both ends of every edge are nodes of it.
    pub open spec fn wf(&self) -> bool {
        sound(self.nodes(), self.edges())
    }

    /// An empty graph of the given topology.
    pub fn new(directed: bool) -> (g: AppGraph)
        ensures
            g.wf(),
            g.directed() == directed,
            g.nodes() == Map::<u32, NodeView>::empty(),
            g.edges() == Map::<u32, EdgeView>::empty(),
    {
        if directed {
            AppGraph::Directed(directed_new())
        } else {
            AppGraph::Undirected(undirected_new())
        }
    }

    /// Whether the edges have a direction.
    pub fn is_directed(&self) -> (directed: bool)
        ensures
            directed == self.directed(),
    {
        match self {
            AppGraph::Directed(_) => true,
            AppGraph::Undirected(_) => false,
        }
    }

    /// The number of nodes.
    pub fn node_count(&self) -> (n: usize)
        ensures
            n == self.nodes().len(),
    {
        match self {
            AppGraph::Directed(g) => directed_node_count(g),
            AppGraph::Undirected(g) => undirected_node_count(g),
        }
    }

    /// The number of edges.
    pub fn edge_count(&self) -> (n: usize)
        ensures
            n == self.edges().len(),
    {
        match self {
            AppGraph::Directed(g) => directed_edge_count(g),
            AppGraph::Undirected(g) => undirected_edge_count(g),
        }
    }

    /// Stores `node` under an identifier that was free, and returns it.
    pub fn add_node(&mut self, node: PlacedNode) -> (id: u32)
        requires
            old(self).wf(),
            old(self).nodes().len() < u32::MAX,
        ensures
            final(self).wf(),
            final(self).directed() == old(self).directed(),
            !old(self).nodes().contains_key(id),
            final(self).nodes() == old(self).nodes().insert(id, node@),
            final(self).edges() == old(self).edges(),
    {
        match self {
            AppGraph::Directed(g) => directed_add_node(g, node),
            AppGraph::Undirected(g) => undirected_add_node(g, node),
        }
    }

    /// Removes the node `id` and every edge that touches it, and returns
    /// the node; `None`, and no change, when there is no such node.
    pub fn remove_node(&mut self, id: u32) -> (removed: Option<PlacedNode>)
        requires
            old(self).wf(),
        ensures
            final(self).wf(),
            final(self).directed() == old(self).directed(),
            removed is Some <==> old(self).nodes().contains_key(id),
            removed is Some ==> removed->0@ == old(self).nodes()[id],
            removed is Some ==> final(self).nodes() == old(self).nodes().remove(id),
            removed is Some ==> final(self).edges() == without_node(old(self).edges(), id),
            removed is None ==> *final(self) == *old(self),
    {
        let removed = match self {
            AppGraph::Directed(g) => directed_remove_node(g, id),
            AppGraph::Undirected(g) => undirected_remove_node(g, id),
        };
        proof {
            lemma_without_node_sound(old(self).nodes(), old(self).edges(), id);
        }
        removed
    }

    /// The node stored under `id`.
    pub fn node(&self, id: u32) -> (node: Option<&PlacedNode>)
        ensures
            node is Some <==> self.nodes().contains_key(id),
            node is Some ==> node->0@ == self.nodes()[id],
    {
        match self {
            AppGraph::Directed(g) => directed_node_weight(g, id),
            AppGraph::Undirected(g) => undirected_node_weight(g, id),
        }
    }

    /// Moves the node `id` to `position`; `false` when there is no such node.
    pub fn set_position(&mut self, id: u32, position: Position) -> (done: bool)
        requires
            old(self).wf(),
        ensures
            final(self).wf(),
            final(self).directed() == old(self).directed(),
            done == old(self).nodes().contains_key(id),
            done ==> final(self).nodes() == old(self).nodes().insert(
                id,
                NodeView { position, ..old(self).nodes()[id] },
            ),
            final(self).edges() == old(self).edges(),
            !done ==> *final(self) == *old(self),
    {
        match self {
            AppGraph::Directed(g) => directed_set_position(g, id, position),
            AppGraph::Undirected(g) => undirected_set_position(g, id, position),
        }
    }

    /// Gives the node `id` the weight `weight`; `false` when there is no such node.
    pub fn set_node_weight(&mut self, id: u32, weight: Scalar) -> (done: bool)
        requires
            old(self).wf(),
        ensures
            final(self).wf(),
            final(self).directed() == old(self).directed(),
            done == old(self).nodes().contains_key(id),
            done ==> final(self).nodes() == old(self).nodes().insert(
                id,
                NodeView { weight, ..old(self).nodes()[id] },
            ),
            final(self).edges() == old(self).edges(),
            !done ==> *final(self) == *old(self),
    {
        match self {
            AppGraph::Directed(g) => directed_set_node_weight(g, id, weight),
            AppGraph::Undirected(g) => undirected_set_node_weight(g, id, weight),
        }
    }

    /// The weight of the node `id`, to be changed in place; whatever the
    /// caller leaves there is the weight that the node then has.
    pub fn node_weight_mut(&mut self, id: u32) -> (weight: Option<&mut Scalar>)
        requires
            old(self).wf(),
        ensures
            final(self).wf(),
            final(self).directed() == old(self).directed(),
            weight is Some <==> old(self).nodes().contains_key(id),
            weight is Some ==> *(weight->0) == old(self).nodes()[id].weight,
            weight is Some ==> final(self).nodes() == old(self).nodes().insert(
                id,
                NodeView { weight: *final(weight->0), ..old(self).nodes()[id] },
            ),
            final(self).edges() == old(self).edges(),
            weight is None ==> *final(self) == *old(self),
    {
        let found = match self {
            AppGraph::Directed(g) => directed_node_weight_mut(g, id),
            AppGraph::Undirected(g) => undirected_node_weight_mut(g, id),
        };
        match found {
            Some(node) => Some(&mut node.payload.weight),
            None => None,
        }
    }

    /// The identifiers of all nodes, ascending.
    pub fn node_indices(&self) -> (ids: Vec<u32>)
        ensures
            lists_keys(ids@, self.nodes().dom()),
    {
        match self {
            AppGraph::Directed(g) => directed_node_indices(g),
            AppGraph::Undirected(g) => undirected_node_indices(g),
        }
    }

    /// Stores an edge from `source` to `target` under an identifier that was
    /// free, and returns it.
    pub fn add_edge(&mut self, source: u32, target: u32, payload: EdgePayload) -> (id: u32)
        requires
            old(self).wf(),
            old(self).nodes().contains_key(source),
            old(self).nodes().contains_key(target),
            old(self).edges().len() < u32::MAX,
        ensures
            final(self).wf(),
            final(self).directed() == old(self).directed(),
            !old(self).edges().contains_key(id),
            final(self).edges() == old(self).edges().insert(id, edge_view(source, target, payload@)),
            final(self).nodes() == old(self).nodes(),
    {
        match self {
            AppGraph::Directed(g) => directed_add_edge(g, source, target, payload),
            AppGraph::Undirected(g) => undirected_add_edge(g, source, target, payload),
        }
    }

    /// Removes the edge `id` and returns its payload; `None`, and no change,
    /// when there is no such edge.
    pub fn remove_edge(&mut self, id: u32) -> (removed: Option<EdgePayload>)
        requires
            old(self).wf(),
        ensures
            final(self).wf(),
            final(self).directed() == old(self).directed(),
            removed is Some <==> old(self).edges().contains_key(id),
            removed is Some ==> removed->0@.label == old(self).edges()[id].label,
            removed is Some ==> removed->0@.weight == old(self).edges()[id].weight,
            removed is Some ==> final(self).edges() == old(self).edges().remove(id),
            final(self).nodes() == old(self).nodes(),
            removed is None ==> *final(self) == *old(self),
    {
        match self {
            AppGraph::Directed(g) => directed_remove_edge(g, id),
            AppGraph::Undirected(g) => undirected_remove_edge(g, id),
        }
    }

    /// The payload of the edge stored under `id`.
    pub fn edge(&self, id: u32) -> (payload: Option<&EdgePayload>)
        ensures
            payload is Some <==> self.edges().contains_key(id),
            payload is Some ==> payload->0@.label == self.edges()[id].label,
            payload is Some ==> payload->0@.weight == self.edges()[id].weight,
    {
        match self {
            AppGraph::Directed(g) => directed_edge_weight(g, id),
            AppGraph::Undirected(g) => undirected_edge_weight(g, id),
        }
    }

    /// Gives the edge `id` the weight `weight`; `false` when there is no such edge.
    pub fn set_edge_weight(&mut self, id: u32, weight: Scalar) -> (done: bool)
        requires
            old(self).wf(),
        ensures
            final(self).wf(),
            final(self).directed() == old(self).directed(),
            done == old(self).edges().contains_key(id),
            done ==> final(self).edges() == old(self).edges().insert(
                id,
                EdgeView { weight, ..old(self).edges()[id] },
            ),
            final(self).nodes() == old(self).nodes(),
            !done ==> *final(self) == *old(self),
    {
        match self {
            AppGraph::Directed(g) => directed_set_edge_weight(g, id, weight),
            AppGraph::Undirected(g) => undirected_set_edge_weight(g, id, weight),
        }
    }

    /// The weight of the edge `id`, to be changed in place; whatever the
    /// caller leaves there is the weight that the edge then has.
    pub fn edge_weight_mut(&mut self, id: u32) -> (weight: Option<&mut Scalar>)
        requires
            old(self).wf(),
        ensures
            final(self).wf(),
            final(self).directed() == old(self).directed(),
            weight is Some <==> old(self).edges().contains_key(id),
            weight is Some ==> *(weight->0) == old(self).edges()[id].weight,
            weight is Some ==> final(self).edges() == old(self).edges().insert(
                id,
                EdgeView { weight: *final(weight->0), ..old(self).edges()[id] },
            ),
            final(self).nodes() == old(self).nodes(),
            weight is None ==> *final(self) == *old(self),
    {
        let found = match self {
            AppGraph::Directed(g) => directed_edge_weight_mut(g, id),
            AppGraph::Undirected(g) => undirected_edge_weight_mut(g, id),
        };
        match found {
            Some(payload) => Some(&mut payload.weight),
            None => None,
        }
    }

    /// The two ends of the edge stored under `id`, source first.
    pub fn edge_endpoints(&self, id: u32) -> (ends: Option<(u32, u32)>)
        ensures
            ends is Some <==> self.edges().contains_key(id),
            ends is Some ==> ends == Some((self.edges()[id].source, self.edges()[id].target)),
    {
        match self {
            AppGraph::Directed(g) => directed_edge_endpoints(g, id),
            AppGraph::Undirected(g) => undirected_edge_endpoints(g, id),
        }
    }

    /// The identifiers of all edges, ascending.
    pub fn edge_indices(&self) -> (ids: Vec<u32>)
        ensures
            lists_keys(ids@, self.edges().dom()),
    {
        match self {
            AppGraph::Directed(g) => directed_edge_indices(g),
            AppGraph::Undirected(g) => undirected_edge_indices(g),
        }
    }
}

} // verus!
