//! The graph container. Both graphs are `petgraph` stable graphs: removing a
//! node or an edge leaves every other identifier valid. Verus sees a stable
//! graph as two maps, from node identifiers to nodes and from edge
//! identifiers to edges.

use vstd::prelude::*;
use petgraph::Directed;
use petgraph::stable_graph::StableGraph;
use petgraph::Undirected;
use crate::values::EdgePayload;
use crate::values::EdgeView;
use crate::values::NodeView;
use crate::values::PlacedNode;

verus! {

/// `petgraph`'s stable graph. Verus sees nothing inside it.
#[verifier::external_type_specification]
#[verifier::external_body]
#[verifier::reject_recursive_types(N)]
#[verifier::reject_recursive_types(E)]
#[verifier::reject_recursive_types(Ty)]
#[verifier::reject_recursive_types(Ix)]
pub struct ExStableGraph<N, E, Ty, Ix>(StableGraph<N, E, Ty, Ix>);

/// `petgraph`'s marker of graphs whose edges have a direction.
#[verifier::external_type_specification]
#[verifier::external_body]
pub struct ExDirected(Directed);

/// `petgraph`'s marker of graphs whose edges have none.
#[verifier::external_type_specification]
#[verifier::external_body]
pub struct ExUndirected(Undirected);

/// A stable graph whose edges have a direction.
pub type DirectedGraph = StableGraph<PlacedNode, EdgePayload, Directed, u32>;

/// A stable graph whose edges have none.
pub type UndirectedGraph = StableGraph<PlacedNode, EdgePayload, Undirected, u32>;

/// The edges of `edges` that do not touch the node `id`.
pub open spec fn without_node(edges: Map<u32, EdgeView>, id: u32) -> Map<u32, EdgeView> {
    Map::new(
        |e: u32| edges.contains_key(e) && edges[e].source != id && edges[e].target != id,
        |e: u32| edges[e],
    )
}

/// `ids` lists every key of `keys` once, in ascending order.
pub open spec fn lists_keys(ids: Seq<u32>, keys: Set<u32>) -> bool {
    &&& ids.no_duplicates()
    &&& ids.to_set() == keys
    &&& forall|i: int, j: int| 0 <= i < j < ids.len() ==> ids[i] < ids[j]
}

/// The first `k + 1` identifiers of `ids` are the first `k` and `ids[k]`.
pub proof fn lemma_take_contains(ids: Seq<u32>, k: int)
    requires
        0 <= k < ids.len(),
    ensures
        forall|x: u32| ids.take(k + 1).contains(x) <==> (ids.take(k).contains(x) || x == ids[k]),
{
    let prev = ids.take(k);
    let next = ids.take(k + 1);
    assert forall|x: u32| next.contains(x) <==> (prev.contains(x) || x == ids[k]) by {
        if next.contains(x) {
            let j = choose|j: int| 0 <= j < next.len() && next[j] == x;
            if j < k {
                assert(prev[j] == x);
            }
        }
        if prev.contains(x) {
            let j = choose|j: int| 0 <= j < prev.len() && prev[j] == x;
            assert(next[j] == x);
        }
        if x == ids[k] {
            assert(next[k] == x);
        }
    }
}

/// A graph is sound when it is finite and both ends of every edge are nodes.
pub open spec fn sound(nodes: Map<u32, NodeView>, edges: Map<u32, EdgeView>) -> bool {
    &&& nodes.dom().finite()
    &&& edges.dom().finite()
    &&& forall|e: u32| #[trigger]
        edges.contains_key(e) ==> nodes.contains_key(edges[e].source) && nodes.contains_key(
            edges[e].target,
        )
}

/// Removing a node together with the edges that touch it keeps a graph sound.
pub proof fn lemma_without_node_sound(nodes: Map<u32, NodeView>, edges: Map<u32, EdgeView>, id: u32)
    requires
        sound(nodes, edges),
    ensures
        sound(nodes.remove(id), without_node(edges, id)),
        without_node(edges, id).dom().subset_of(edges.dom()),
        without_node(edges, id).len() <= edges.len(),
{
    vstd::set_lib::lemma_set_subset_finite(edges.dom(), without_node(edges, id).dom());
    vstd::set_lib::lemma_len_subset(without_node(edges, id).dom(), edges.dom());
}

} // verus!
