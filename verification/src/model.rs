//! The mathematical model of the pair of graphs: what the display graph and
//! the simulation graph hold, the two label indexes, the pairing of their
//! edges, and what it means for all of them to agree.

use vstd::prelude::*;
use vstd::relations::injective_on;
use vstd::set_lib::lemma_map_size;
use crate::events::NodeMoved;
use crate::store::lemma_take_contains;
use crate::store::lemma_without_node_sound;
use crate::store::lists_keys;
use crate::store::sound;
use crate::store::without_node;
use crate::values::EdgeView;
use crate::values::NodeView;
use crate::values::Placement;

verus! {

/// `index` maps each label of `nodes` to the identifier of the node that
/// bears it, and holds nothing else. No two nodes then share a label, and no
/// label is empty.
pub open spec fn indexed(nodes: Map<u32, NodeView>, index: Map<Seq<char>, u32>) -> bool {
    &&& index.dom().finite()
    &&& forall|i: u32| #[trigger]
        nodes.contains_key(i) ==> index.contains_key(nodes[i].label) && index[nodes[i].label] == i
    &&& forall|l: Seq<char>| #[trigger]
        index.contains_key(l) ==> nodes.contains_key(index[l]) && nodes[index[l]].label == l
            && l.len() > 0
}

/// The nodes of a graph by label.
pub open spec fn by_label(nodes: Map<u32, NodeView>, index: Map<Seq<char>, u32>) -> Map<
    Seq<char>,
    NodeView,
> {
    Map::new(|l: Seq<char>| index.contains_key(l), |l: Seq<char>| nodes[index[l]])
}

/// An edge as its labels tell it: the labels of its two ends, its own label
/// and its weight.
pub ghost struct Link {
    pub from: Seq<char>,
    pub to: Seq<char>,
    pub label: Seq<char>,
    pub weight: crate::values::Scalar,
}

/// The edge `edge` of a graph with the nodes `nodes`, told by labels.
pub open spec fn link_of(nodes: Map<u32, NodeView>, edge: EdgeView) -> Link {
    Link {
        from: nodes[edge.source].label,
        to: nodes[edge.target].label,
        label: edge.label,
        weight: edge.weight,
    }
}

/// The edges of a graph, told by labels.
pub open spec fn links(nodes: Map<u32, NodeView>, edges: Map<u32, EdgeView>) -> Set<Link> {
    Set::new(|l: Link| exists|e: u32| #[trigger] edges.contains_key(e) && link_of(nodes, edges[e]) == l)
}

/// The state of the two graphs and of what ties them together.
pub ghost struct Model {
    /// The nodes of the display graph.
    pub dnodes: Map<u32, NodeView>,
    /// The edges of the display graph.
    pub dedges: Map<u32, EdgeView>,
    /// The nodes of the simulation graph.
    pub snodes: Map<u32, NodeView>,
    /// The edges of the simulation graph.
    pub sedges: Map<u32, EdgeView>,
    /// The label index: from a label to the display node that bears it.
    pub index: Map<Seq<char>, u32>,
    /// From a label to the simulation node that bears it.
    pub sim_index: Map<Seq<char>, u32>,
    /// From a display edge to its simulation edge.
    pub edge_map: Map<u32, u32>,
    /// From a simulation edge to its display edge.
    pub edge_inv: Map<u32, u32>,
}

impl Model {
    /// The simulation node that stands for the display node `d`.
    pub open spec fn sim_of(self, d: u32) -> u32 {
        self.sim_index[self.dnodes[d].label]
    }

    /// Every display edge has one simulation edge and the other way round;
    /// the two join the same labels and bear the same label; no edge joins a
    /// node to itself.
    pub open spec fn paired(self) -> bool {
        &&& self.edge_map.dom() == self.dedges.dom()
        &&& self.edge_inv.dom() == self.sedges.dom()
        &&& forall|e: u32| #[trigger]
            self.dedges.contains_key(e) ==> {
                &&& self.sedges.contains_key(self.edge_map[e])
                &&& self.edge_inv[self.edge_map[e]] == e
                &&& self.sedges[self.edge_map[e]].source == self.sim_of(self.dedges[e].source)
                &&& self.sedges[self.edge_map[e]].target == self.sim_of(self.dedges[e].target)
                &&& self.sedges[self.edge_map[e]].label == self.dedges[e].label
                &&& self.dedges[e].source != self.dedges[e].target
            }
        &&& forall|f: u32| #[trigger]
            self.sedges.contains_key(f) ==> self.dedges.contains_key(self.edge_inv[f])
                && self.edge_map[self.edge_inv[f]] == f
    }

    /// The two graphs agree: each is sound and indexed by its labels, they
    /// bear the same labels, and their edges are paired.
    pub open spec fn wf(self) -> bool {
        &&& sound(self.dnodes, self.dedges)
        &&& sound(self.snodes, self.sedges)
        &&& indexed(self.dnodes, self.index)
        &&& indexed(self.snodes, self.sim_index)
        &&& self.index.dom() == self.sim_index.dom()
        &&& self.paired()
    }

    /// The labels of the graph.
    pub open spec fn labels(self) -> Set<Seq<char>> {
        self.index.dom()
    }

    /// The display nodes by label.
    pub open spec fn display_by_label(self) -> Map<Seq<char>, NodeView> {
        by_label(self.dnodes, self.index)
    }

    /// The simulation nodes by label.
    pub open spec fn sim_by_label(self) -> Map<Seq<char>, NodeView> {
        by_label(self.snodes, self.sim_index)
    }

    /// The display edges, told by labels.
    pub open spec fn display_links(self) -> Set<Link> {
        links(self.dnodes, self.dedges)
    }

    /// The simulation edges, told by labels.
    pub open spec fn sim_links(self) -> Set<Link> {
        links(self.snodes, self.sedges)
    }

    /// The state without nodes or edges.
    pub open spec fn empty() -> Model {
        Model {
            dnodes: Map::empty(),
            dedges: Map::empty(),
            snodes: Map::empty(),
            sedges: Map::empty(),
            index: Map::empty(),
            sim_index: Map::empty(),
            edge_map: Map::empty(),
            edge_inv: Map::empty(),
        }
    }

    /// The state after a node labelled `display.label` came in, as `id` in
    /// the display graph and as `sid` in the simulation graph.
    pub open spec fn with_node(self, id: u32, sid: u32, display: NodeView, sim: NodeView) -> Model {
        Model {
            dnodes: self.dnodes.insert(id, display),
            snodes: self.snodes.insert(sid, sim),
            index: self.index.insert(display.label, id),
            sim_index: self.sim_index.insert(display.label, sid),
            ..self
        }
    }

    /// The state after an edge came in, as `e` in the display graph and as
    /// `f` in the simulation graph, where it joins the nodes that stand for
    /// its display ends.
    pub open spec fn with_edge(self, e: u32, f: u32, edge: EdgeView) -> Model {
        Model {
            dedges: self.dedges.insert(e, edge),
            sedges: self.sedges.insert(
                f,
                EdgeView { source: self.sim_of(edge.source), target: self.sim_of(edge.target), ..edge },
            ),
            edge_map: self.edge_map.insert(e, f),
            edge_inv: self.edge_inv.insert(f, e),
            ..self
        }
    }

    /// The state after the display edge `e` left with its simulation edge.
    pub open spec fn without_edge(self, e: u32) -> Model {
        Model {
            dedges: self.dedges.remove(e),
            sedges: self.sedges.remove(self.edge_map[e]),
            edge_map: self.edge_map.remove(e),
            edge_inv: self.edge_inv.remove(self.edge_map[e]),
            ..self
        }
    }

    /// The state after the node labelled `label` left both graphs, with
    /// every edge that touched it.
    pub open spec fn without_label(self, label: Seq<char>) -> Model {
        let d = self.index[label];
        let s = self.sim_index[label];
        Model {
            dnodes: self.dnodes.remove(d),
            dedges: without_node(self.dedges, d),
            snodes: self.snodes.remove(s),
            sedges: without_node(self.sedges, s),
            index: self.index.remove(label),
            sim_index: self.sim_index.remove(label),
            edge_map: self.edge_map.restrict(without_node(self.dedges, d).dom()),
            edge_inv: self.edge_inv.restrict(without_node(self.sedges, s).dom()),
        }
    }
}

/// The state after the display edge `e` left with its simulation edge, if
/// there is such an edge.
pub open spec fn without_edge_if_any(m: Model, e: u32) -> Model {
    if m.dedges.contains_key(e) {
        m.without_edge(e)
    } else {
        m
    }
}

/// The state after the display edges `ids` left one after the other, each
/// with its simulation edge; an identifier that names no edge is passed
/// over.
pub open spec fn without_edges(m: Model, ids: Seq<u32>) -> Model
    decreases ids.len(),
{
    if ids.len() == 0 {
        m
    } else {
        without_edge_if_any(without_edges(m, ids.drop_last()), ids.last())
    }
}

/// The nodes `target`, each moved to where the node of `source` with the
/// same label lies.
pub open spec fn placed_as(
    target: Map<u32, NodeView>,
    source: Map<u32, NodeView>,
    source_index: Map<Seq<char>, u32>,
) -> Map<u32, NodeView> {
    Map::new(
        |i: u32| target.contains_key(i),
        |i: u32| NodeView { position: source[source_index[target[i].label]].position, ..target[i] },
    )
}

/// The nodes `nodes` after the solver has put some of them elsewhere, one
/// placement after the other; a placement of a node that is not there is
/// passed over.
pub open spec fn placed(nodes: Map<u32, NodeView>, step: Seq<Placement>) -> Map<u32, NodeView>
    decreases step.len(),
{
    if step.len() == 0 {
        nodes
    } else {
        let before = placed(nodes, step.drop_last());
        let last = step.last();
        if before.contains_key(last.node) {
            before.insert(last.node, NodeView { position: last.position, ..before[last.node] })
        } else {
            before
        }
    }
}

/// Placements move nodes and do nothing else.
pub proof fn lemma_placed_moved_only(nodes: Map<u32, NodeView>, step: Seq<Placement>)
    ensures
        moved_only(nodes, placed(nodes, step)),
    decreases step.len(),
{
    if step.len() > 0 {
        lemma_placed_moved_only(nodes, step.drop_last());
        let before = placed(nodes, step.drop_last());
        let last = step.last();
        if before.contains_key(last.node) {
            assert(placed(nodes, step).dom() =~= nodes.dom());
        }
    }
}

/// Whether the report `moved` speaks of a node of the display graph.
pub open spec fn applies(m: Model, moved: NodeMoved) -> bool {
    moved.node_id <= u32::MAX && m.dnodes.contains_key(moved.node_id as u32)
}

/// The state after the report `moved` was applied: the simulation node that
/// stands for the display node of the report lies where the report says. A
/// report on a node that the display graph does not hold changes nothing.
pub open spec fn after_move(m: Model, moved: NodeMoved) -> Model {
    if applies(m, moved) {
        let s = m.sim_of(moved.node_id as u32);
        Model { snodes: m.snodes.insert(s, NodeView { position: moved.position, ..m.snodes[s] }), ..m }
    } else {
        m
    }
}

/// The state after the reports `reports` were applied, one after the other.
pub open spec fn after_moves(m: Model, reports: Seq<NodeMoved>) -> Model
    decreases reports.len(),
{
    if reports.len() == 0 {
        m
    } else {
        after_move(after_moves(m, reports.drop_last()), reports.last())
    }
}

/// The simulation nodes that the reports `reports` placed, one for each
/// report that speaks of a node of the display graph, in the order of the
/// reports.
pub open spec fn touched_by(m: Model, reports: Seq<NodeMoved>) -> Seq<u32>
    decreases reports.len(),
{
    if reports.len() == 0 {
        Seq::empty()
    } else {
        let before = after_moves(m, reports.drop_last());
        let earlier = touched_by(m, reports.drop_last());
        if applies(before, reports.last()) {
            earlier.push(before.sim_of(reports.last().node_id as u32))
        } else {
            earlier
        }
    }
}

/// The nodes `after` are the nodes `before`, some of them moved.
pub open spec fn moved_only(before: Map<u32, NodeView>, after: Map<u32, NodeView>) -> bool {
    &&& after.dom() == before.dom()
    &&& forall|i: u32| #[trigger]
        before.contains_key(i) ==> after[i].label == before[i].label && after[i].weight
            == before[i].weight
}

/// How many edges of the graph the link `l` tells.
pub open spec fn link_count(nodes: Map<u32, NodeView>, edges: Map<u32, EdgeView>, l: Link) -> nat {
    edges.dom().filter(|e: u32| link_of(nodes, edges[e]) == l).len()
}

/// How many of the edges `ids[0]`, ..., `ids[k - 1]` the link `l` tells.
pub open spec fn count_first(
    nodes: Map<u32, NodeView>,
    edges: Map<u32, EdgeView>,
    ids: Seq<u32>,
    k: int,
    l: Link,
) -> nat
    decreases k,
{
    if k <= 0 {
        0
    } else {
        count_first(nodes, edges, ids, k - 1, l) + (if link_of(nodes, edges[ids[k - 1]]) == l {
            1nat
        } else {
            0nat
        })
    }
}

/// The links of the edges `ids[0]`, ..., `ids[k - 1]`.
pub open spec fn links_of_first(
    nodes: Map<u32, NodeView>,
    edges: Map<u32, EdgeView>,
    ids: Seq<u32>,
    k: int,
) -> Set<Link> {
    Set::new(|l: Link| exists|j: int| 0 <= j < k && #[trigger] link_of(nodes, edges[ids[j]]) == l)
}

/// What a topology conversion keeps: the labels, what each display node
/// holds and where it lies, and which labels the edges join, with their
/// payloads and their number. The simulation nodes take the places of the
/// display nodes.
pub open spec fn converted(before: Model, after: Model) -> bool {
    &&& after.labels() == before.labels()
    &&& after.display_by_label() == before.display_by_label()
    &&& after.sim_by_label() == before.display_by_label()
    &&& after.display_links() == before.display_links()
    &&& after.dedges.len() == before.dedges.len()
    &&& forall|l: Link| #[trigger]
        link_count(after.dnodes, after.dedges, l) == link_count(before.dnodes, before.dedges, l)
    &&& edges_mirrored(after)
}

/// Every simulation edge has the weight of its display edge.
pub open spec fn edges_mirrored(m: Model) -> bool {
    forall|e: u32| #[trigger] m.dedges.contains_key(e) ==> m.sedges[m.edge_map[e]].weight == m.dedges[e].weight
}

/// While a conversion rebuilds the nodes: `now` holds, in both graphs and
/// without edges, the display nodes `done` of `before`, as they were.
pub open spec fn carried_over(before: Model, now: Model, done: Seq<u32>) -> bool {
    &&& now.dedges == Map::<u32, EdgeView>::empty()
    &&& now.sedges == Map::<u32, EdgeView>::empty()
    &&& forall|l: Seq<char>| #[trigger]
        now.index.contains_key(l) <==> before.index.contains_key(l) && done.contains(before.index[l])
    &&& forall|l: Seq<char>| #[trigger]
        now.index.contains_key(l) ==> now.dnodes[now.index[l]] == before.dnodes[before.index[l]]
            && now.snodes[now.sim_index[l]] == before.dnodes[before.index[l]]
}

/// The empty state is well formed.
pub proof fn lemma_empty_wf()
    ensures
        Model::empty().wf(),
{
}

/// Adding a node under a new label to both graphs keeps them in agreement.
pub proof fn lemma_with_node_wf(m: Model, id: u32, sid: u32, display: NodeView, sim: NodeView)
    requires
        m.wf(),
        !m.dnodes.contains_key(id),
        !m.snodes.contains_key(sid),
        !m.index.contains_key(display.label),
        display.label.len() > 0,
        sim.label == display.label,
    ensures
        m.with_node(id, sid, display, sim).wf(),
{
    let n = m.with_node(id, sid, display, sim);
    assert forall|e: u32| #[trigger] n.dedges.contains_key(e) implies {
        &&& n.sedges.contains_key(n.edge_map[e])
        &&& n.edge_inv[n.edge_map[e]] == e
        &&& n.sedges[n.edge_map[e]].source == n.sim_of(n.dedges[e].source)
        &&& n.sedges[n.edge_map[e]].target == n.sim_of(n.dedges[e].target)
        &&& n.sedges[n.edge_map[e]].label == n.dedges[e].label
        &&& n.dedges[e].source != n.dedges[e].target
    } by {
        assert(m.dedges.contains_key(e));
        assert(m.dnodes.contains_key(m.dedges[e].source));
        assert(m.dnodes.contains_key(m.dedges[e].target));
    }
}

/// Adding an edge between two different nodes to both graphs keeps them in
/// agreement.
pub proof fn lemma_with_edge_wf(m: Model, e: u32, f: u32, edge: EdgeView)
    requires
        m.wf(),
        !m.dedges.contains_key(e),
        !m.sedges.contains_key(f),
        m.dnodes.contains_key(edge.source),
        m.dnodes.contains_key(edge.target),
        edge.source != edge.target,
    ensures
        m.with_edge(e, f, edge).wf(),
        m.snodes.contains_key(m.sim_of(edge.source)),
        m.snodes.contains_key(m.sim_of(edge.target)),
        m.sim_of(edge.source) != m.sim_of(edge.target),
{
    let n = m.with_edge(e, f, edge);
    assert(m.index.contains_key(m.dnodes[edge.source].label));
    assert(m.index.contains_key(m.dnodes[edge.target].label));
    assert(m.sim_index.dom().contains(m.dnodes[edge.source].label));
    assert(m.sim_index.dom().contains(m.dnodes[edge.target].label));
    assert(m.sim_index.contains_key(m.dnodes[edge.source].label));
    assert(m.sim_index.contains_key(m.dnodes[edge.target].label));
    assert forall|x: u32| #[trigger] n.dedges.contains_key(x) implies {
        &&& n.sedges.contains_key(n.edge_map[x])
        &&& n.edge_inv[n.edge_map[x]] == x
        &&& n.sedges[n.edge_map[x]].source == n.sim_of(n.dedges[x].source)
        &&& n.sedges[n.edge_map[x]].target == n.sim_of(n.dedges[x].target)
        &&& n.sedges[n.edge_map[x]].label == n.dedges[x].label
        &&& n.dedges[x].source != n.dedges[x].target
    } by {
        if x != e {
            assert(m.dedges.contains_key(x));
            assert(m.edge_map[x] != f);
        }
    }
    assert forall|y: u32| #[trigger] n.sedges.contains_key(y) implies n.dedges.contains_key(
        n.edge_inv[y],
    ) && n.edge_map[n.edge_inv[y]] == y by {
        if y != f {
            assert(m.sedges.contains_key(y));
            assert(m.edge_inv[y] != e);
        }
    }
    assert(n.edge_map.dom() =~= n.dedges.dom());
    assert(n.edge_inv.dom() =~= n.sedges.dom());
}

/// Removing an edge from both graphs keeps them in agreement.
pub proof fn lemma_without_edge_wf(m: Model, e: u32)
    requires
        m.wf(),
        m.dedges.contains_key(e),
    ensures
        m.without_edge(e).wf(),
        m.sedges.contains_key(m.edge_map[e]),
{
    let n = m.without_edge(e);
    let f = m.edge_map[e];
    assert forall|x: u32| #[trigger] n.dedges.contains_key(x) implies {
        &&& n.sedges.contains_key(n.edge_map[x])
        &&& n.edge_inv[n.edge_map[x]] == x
        &&& n.sedges[n.edge_map[x]].source == n.sim_of(n.dedges[x].source)
        &&& n.sedges[n.edge_map[x]].target == n.sim_of(n.dedges[x].target)
        &&& n.sedges[n.edge_map[x]].label == n.dedges[x].label
        &&& n.dedges[x].source != n.dedges[x].target
    } by {
        assert(m.dedges.contains_key(x));
        assert(m.edge_map[x] != f);
    }
    assert forall|y: u32| #[trigger] n.sedges.contains_key(y) implies n.dedges.contains_key(
        n.edge_inv[y],
    ) && n.edge_map[n.edge_inv[y]] == y by {
        assert(m.sedges.contains_key(y));
        assert(m.edge_inv[y] != e);
    }
    assert(n.edge_map.dom() =~= n.dedges.dom());
    assert(n.edge_inv.dom() =~= n.sedges.dom());
}

/// Removing a node from both graphs, with the edges that touch it, keeps
/// them in agreement.
pub proof fn lemma_without_label_wf(m: Model, label: Seq<char>)
    requires
        m.wf(),
        m.index.contains_key(label),
    ensures
        m.without_label(label).wf(),
        m.sim_index.contains_key(label),
        m.dnodes.contains_key(m.index[label]),
        m.snodes.contains_key(m.sim_index[label]),
{
    let n = m.without_label(label);
    let d = m.index[label];
    let s = m.sim_index[label];
    assert(m.sim_index.dom().contains(label));
    lemma_without_node_sound(m.dnodes, m.dedges, d);
    lemma_without_node_sound(m.snodes, m.sedges, s);
    assert(n.index.dom() =~= n.sim_index.dom());
    assert forall|x: u32| #[trigger] n.dedges.contains_key(x) implies {
        &&& n.sedges.contains_key(n.edge_map[x])
        &&& n.edge_inv[n.edge_map[x]] == x
        &&& n.sedges[n.edge_map[x]].source == n.sim_of(n.dedges[x].source)
        &&& n.sedges[n.edge_map[x]].target == n.sim_of(n.dedges[x].target)
        &&& n.sedges[n.edge_map[x]].label == n.dedges[x].label
        &&& n.dedges[x].source != n.dedges[x].target
    } by {
        assert(m.dedges.contains_key(x));
        let a = m.dedges[x].source;
        let b = m.dedges[x].target;
        assert(m.dnodes.contains_key(a) && m.dnodes.contains_key(b));
        assert(m.index.contains_key(m.dnodes[a].label));
        assert(m.index.contains_key(m.dnodes[b].label));
        assert(m.sim_index.dom().contains(m.dnodes[a].label));
        assert(m.sim_index.dom().contains(m.dnodes[b].label));
        assert(m.sim_index.contains_key(m.dnodes[a].label));
        assert(m.sim_index.contains_key(m.dnodes[b].label));
        assert(m.dnodes[a].label != label);
        assert(m.dnodes[b].label != label);
        assert(m.sim_of(a) != s);
        assert(m.sim_of(b) != s);
        assert(m.sedges.contains_key(m.edge_map[x]));
    }
    assert forall|y: u32| #[trigger] n.sedges.contains_key(y) implies n.dedges.contains_key(
        n.edge_inv[y],
    ) && n.edge_map[n.edge_inv[y]] == y by {
        assert(m.sedges.contains_key(y));
        let x = m.edge_inv[y];
        assert(m.dedges.contains_key(x));
        let a = m.dedges[x].source;
        let b = m.dedges[x].target;
        assert(m.dnodes.contains_key(a) && m.dnodes.contains_key(b));
        assert(m.index.contains_key(m.dnodes[a].label));
        assert(m.index.contains_key(m.dnodes[b].label));
        if a == d {
            assert(m.sim_of(a) == s);
        }
        if b == d {
            assert(m.sim_of(b) == s);
        }
    }
    assert(n.edge_map.dom() =~= n.dedges.dom());
    assert(n.edge_inv.dom() =~= n.sedges.dom());
}

/// Changing what the nodes hold, but no label, keeps the graphs in
/// agreement.
pub proof fn lemma_same_labels_wf(m: Model, dnodes: Map<u32, NodeView>, snodes: Map<u32, NodeView>)
    requires
        m.wf(),
        dnodes.dom() == m.dnodes.dom(),
        snodes.dom() == m.snodes.dom(),
        forall|i: u32| #[trigger] m.dnodes.contains_key(i) ==> dnodes[i].label == m.dnodes[i].label,
        forall|i: u32| #[trigger] m.snodes.contains_key(i) ==> snodes[i].label == m.snodes[i].label,
    ensures
        (Model { dnodes, snodes, ..m }).wf(),
{
    let n = Model { dnodes, snodes, ..m };
    assert forall|i: u32| #[trigger] n.dnodes.contains_key(i) implies n.index.contains_key(
        n.dnodes[i].label,
    ) && n.index[n.dnodes[i].label] == i by {
        assert(m.dnodes.contains_key(i));
    }
    assert forall|i: u32| #[trigger] n.snodes.contains_key(i) implies n.sim_index.contains_key(
        n.snodes[i].label,
    ) && n.sim_index[n.snodes[i].label] == i by {
        assert(m.snodes.contains_key(i));
    }
    assert forall|e: u32| #[trigger] n.dedges.contains_key(e) implies {
        &&& n.sedges.contains_key(n.edge_map[e])
        &&& n.edge_inv[n.edge_map[e]] == e
        &&& n.sedges[n.edge_map[e]].source == n.sim_of(n.dedges[e].source)
        &&& n.sedges[n.edge_map[e]].target == n.sim_of(n.dedges[e].target)
        &&& n.sedges[n.edge_map[e]].label == n.dedges[e].label
        &&& n.dedges[e].source != n.dedges[e].target
    } by {
        assert(m.dedges.contains_key(e));
        assert(m.dnodes.contains_key(m.dedges[e].source));
        assert(m.dnodes.contains_key(m.dedges[e].target));
    }
}

/// Changing the weights of edges, and nothing else of them, keeps the
/// graphs in agreement.
pub proof fn lemma_same_edges_wf(m: Model, dedges: Map<u32, EdgeView>, sedges: Map<u32, EdgeView>)
    requires
        m.wf(),
        dedges.dom() == m.dedges.dom(),
        sedges.dom() == m.sedges.dom(),
        forall|e: u32| #[trigger]
            m.dedges.contains_key(e) ==> dedges[e] == (EdgeView { weight: dedges[e].weight, ..m.dedges[e] }),
        forall|f: u32| #[trigger]
            m.sedges.contains_key(f) ==> sedges[f] == (EdgeView { weight: sedges[f].weight, ..m.sedges[f] }),
    ensures
        (Model { dedges, sedges, ..m }).wf(),
{
    let n = Model { dedges, sedges, ..m };
    assert forall|e: u32| #[trigger] n.dedges.contains_key(e) implies n.dnodes.contains_key(
        n.dedges[e].source,
    ) && n.dnodes.contains_key(n.dedges[e].target) by {
        assert(m.dedges.contains_key(e));
    }
    assert forall|e: u32| #[trigger] n.sedges.contains_key(e) implies n.snodes.contains_key(
        n.sedges[e].source,
    ) && n.snodes.contains_key(n.sedges[e].target) by {
        assert(m.sedges.contains_key(e));
    }
    assert forall|e: u32| #[trigger] n.dedges.contains_key(e) implies {
        &&& n.sedges.contains_key(n.edge_map[e])
        &&& n.edge_inv[n.edge_map[e]] == e
        &&& n.sedges[n.edge_map[e]].source == n.sim_of(n.dedges[e].source)
        &&& n.sedges[n.edge_map[e]].target == n.sim_of(n.dedges[e].target)
        &&& n.sedges[n.edge_map[e]].label == n.dedges[e].label
        &&& n.dedges[e].source != n.dedges[e].target
    } by {
        assert(m.dedges.contains_key(e));
        assert(m.sedges.contains_key(m.edge_map[e]));
    }
    assert forall|f: u32| #[trigger] n.sedges.contains_key(f) implies n.dedges.contains_key(
        n.edge_inv[f],
    ) && n.edge_map[n.edge_inv[f]] == f by {
        assert(m.sedges.contains_key(f));
    }
}

/// In agreement, the simulation node that stands for a display node bears
/// its label, and stands for no other.
pub proof fn lemma_sim_of(m: Model, d: u32)
    requires
        m.wf(),
        m.dnodes.contains_key(d),
    ensures
        m.snodes.contains_key(m.sim_of(d)),
        m.snodes[m.sim_of(d)].label == m.dnodes[d].label,
        m.index[m.snodes[m.sim_of(d)].label] == d,
        forall|i: u32| m.dnodes.contains_key(i) && m.sim_of(i) == m.sim_of(d) ==> i == d,
{
    assert(m.index.contains_key(m.dnodes[d].label));
    assert(m.sim_index.dom().contains(m.dnodes[d].label));
    assert(m.sim_index.contains_key(m.dnodes[d].label));
    assert forall|i: u32| m.dnodes.contains_key(i) && m.sim_of(i) == m.sim_of(d) implies i == d by {
        assert(m.index.contains_key(m.dnodes[i].label));
        assert(m.sim_index.dom().contains(m.dnodes[i].label));
        assert(m.sim_index.contains_key(m.dnodes[i].label));
    }
}

/// In agreement, every simulation node stands for the display node that
/// bears its label.
pub proof fn lemma_display_of(m: Model, s: u32)
    requires
        m.wf(),
        m.snodes.contains_key(s),
    ensures
        m.index.contains_key(m.snodes[s].label),
        m.dnodes.contains_key(m.index[m.snodes[s].label]),
        m.dnodes[m.index[m.snodes[s].label]].label == m.snodes[s].label,
        m.sim_of(m.index[m.snodes[s].label]) == s,
{
    assert(m.sim_index.contains_key(m.snodes[s].label));
    assert(m.index.dom().contains(m.snodes[s].label));
    assert(m.index.contains_key(m.snodes[s].label));
}

/// Carrying one more node over keeps the rebuilt nodes as they were.
pub proof fn lemma_carried_over_step(before: Model, prev: Model, now: Model, ids: Seq<u32>, k: int, id: u32)
    requires
        before.wf(),
        prev.wf(),
        lists_keys(ids, before.dnodes.dom()),
        0 <= k < ids.len(),
        carried_over(before, prev, ids.take(k)),
        !prev.dnodes.contains_key(id),
        !prev.snodes.contains_key(now.sim_index[before.dnodes[ids[k]].label]),
        now == prev.with_node(
            id,
            now.sim_index[before.dnodes[ids[k]].label],
            before.dnodes[ids[k]],
            before.dnodes[ids[k]],
        ),
    ensures
        carried_over(before, now, ids.take(k + 1)),
{
    let d = ids[k];
    let label = before.dnodes[d].label;
    assert(ids.to_set().contains(d));
    assert(before.dnodes.contains_key(d));
    lemma_take_contains(ids, k);
    assert forall|l: Seq<char>| #[trigger]
        now.index.contains_key(l) <==> before.index.contains_key(l) && ids.take(k + 1).contains(
            before.index[l],
        ) by {
        assert(before.index.contains_key(label) && before.index[label] == d);
        if l == label {
            assert(now.index.contains_key(l));
            assert(ids.take(k + 1)[k] == d);
            assert(ids.take(k + 1).contains(d));
        } else {
            assert(now.index.contains_key(l) == prev.index.contains_key(l));
            assert(prev.index.contains_key(l) <==> before.index.contains_key(l) && ids.take(k).contains(
                before.index[l],
            ));
            if before.index.contains_key(l) {
                assert(before.dnodes[before.index[l]].label == l);
                assert(before.index[l] != d);
                assert(ids.take(k + 1).contains(before.index[l]) <==> (ids.take(k).contains(
                    before.index[l],
                ) || before.index[l] == ids[k]));
            }
        }
    }
    assert forall|l: Seq<char>| #[trigger] now.index.contains_key(l) implies now.dnodes[now.index[l]]
        == before.dnodes[before.index[l]] && now.snodes[now.sim_index[l]]
        == before.dnodes[before.index[l]] by {
        if l != label {
            assert(prev.index.contains_key(l));
            assert(prev.sim_index.dom().contains(l));
            assert(prev.sim_index.contains_key(l));
        }
    }
}

/// A node that a conversion has not carried over yet can come in: its label
/// is not empty and no rebuilt node bears it.
pub proof fn lemma_carried_over_fresh(before: Model, prev: Model, ids: Seq<u32>, k: int)
    requires
        before.wf(),
        lists_keys(ids, before.dnodes.dom()),
        0 <= k < ids.len(),
        carried_over(before, prev, ids.take(k)),
    ensures
        before.dnodes.contains_key(ids[k]),
        before.dnodes[ids[k]].label.len() > 0,
        !prev.index.contains_key(before.dnodes[ids[k]].label),
{
    let d = ids[k];
    let label = before.dnodes[d].label;
    assert(ids.to_set().contains(d));
    assert(before.dnodes.contains_key(d));
    assert(before.index.contains_key(label));
    if prev.index.contains_key(label) {
        let j = choose|j: int| 0 <= j < ids.take(k).len() && ids.take(k)[j] == d;
        assert(ids[j] == ids[k]);
    }
}

/// Once every node is carried over, the rebuilt graphs bear the labels of
/// the old ones, and every node is what the old display node was.
pub proof fn lemma_carried_over_all(before: Model, now: Model, ids: Seq<u32>)
    requires
        before.wf(),
        now.wf(),
        lists_keys(ids, before.dnodes.dom()),
        carried_over(before, now, ids),
    ensures
        now.labels() == before.labels(),
        now.display_by_label() == before.display_by_label(),
        now.sim_by_label() == before.display_by_label(),
{
    assert forall|l: Seq<char>| before.index.contains_key(l) implies now.index.contains_key(l) by {
        assert(ids.to_set().contains(before.index[l]));
    }
    assert(now.index.dom() =~= before.index.dom());
    assert(now.display_by_label() =~= before.display_by_label());
    assert(now.sim_by_label() =~= before.display_by_label());
}

/// A new edge adds its link to the links of a graph.
pub proof fn lemma_links_insert(nodes: Map<u32, NodeView>, edges: Map<u32, EdgeView>, e: u32, edge: EdgeView)
    requires
        !edges.contains_key(e),
    ensures
        links(nodes, edges.insert(e, edge)) == links(nodes, edges).insert(link_of(nodes, edge)),
{
    let grown = edges.insert(e, edge);
    assert forall|l: Link| links(nodes, grown).contains(l) <==> links(nodes, edges).insert(
        link_of(nodes, edge),
    ).contains(l) by {
        if links(nodes, grown).contains(l) {
            let x = choose|x: u32| #[trigger] grown.contains_key(x) && link_of(nodes, grown[x]) == l;
            if x != e {
                assert(edges.contains_key(x) && link_of(nodes, edges[x]) == l);
            }
        }
        if links(nodes, edges).contains(l) {
            let x = choose|x: u32| #[trigger] edges.contains_key(x) && link_of(nodes, edges[x]) == l;
            assert(grown.contains_key(x) && link_of(nodes, grown[x]) == l);
        }
        if l == link_of(nodes, edge) {
            assert(grown.contains_key(e) && link_of(nodes, grown[e]) == l);
        }
    }
    assert(links(nodes, grown) =~= links(nodes, edges).insert(link_of(nodes, edge)));
}

/// An edge that comes in has the same weight in both graphs and leaves the
/// weights of the others alone.
pub proof fn lemma_with_edge_mirrored(m: Model, e: u32, f: u32, edge: EdgeView)
    requires
        m.wf(),
        edges_mirrored(m),
        !m.dedges.contains_key(e),
        !m.sedges.contains_key(f),
    ensures
        edges_mirrored(m.with_edge(e, f, edge)),
{
    let n = m.with_edge(e, f, edge);
    assert forall|x: u32| #[trigger] n.dedges.contains_key(x) implies n.sedges[n.edge_map[x]].weight
        == n.dedges[x].weight by {
        if x != e {
            assert(m.dedges.contains_key(x));
            assert(m.sedges.contains_key(m.edge_map[x]));
        }
    }
}

/// A new edge counts once for its link and not for any other.
pub proof fn lemma_link_count_insert(
    nodes: Map<u32, NodeView>,
    edges: Map<u32, EdgeView>,
    e: u32,
    edge: EdgeView,
    l: Link,
)
    requires
        edges.dom().finite(),
        !edges.contains_key(e),
    ensures
        link_count(nodes, edges.insert(e, edge), l) == link_count(nodes, edges, l) + (if link_of(
            nodes,
            edge,
        ) == l {
            1nat
        } else {
            0nat
        }),
{
    let grown = edges.insert(e, edge);
    let before = edges.dom().filter(|x: u32| link_of(nodes, edges[x]) == l);
    let after = grown.dom().filter(|x: u32| link_of(nodes, grown[x]) == l);
    vstd::set_lib::lemma_set_subset_finite(edges.dom(), before);
    if link_of(nodes, edge) == l {
        assert(after =~= before.insert(e));
    } else {
        assert(after =~= before);
    }
}

/// A graph without edges has no edge for any link.
pub proof fn lemma_link_count_empty(nodes: Map<u32, NodeView>, l: Link)
    ensures
        link_count(nodes, Map::<u32, EdgeView>::empty(), l) == 0,
{
    let edges = Map::<u32, EdgeView>::empty();
    assert(edges.dom().filter(|x: u32| link_of(nodes, edges[x]) == l) =~= Set::<u32>::empty());
}

/// Counting the first `k` edges of a list without repetitions is counting
/// the edges among them.
proof fn lemma_count_first_is_filter(
    nodes: Map<u32, NodeView>,
    edges: Map<u32, EdgeView>,
    ids: Seq<u32>,
    k: int,
    l: Link,
)
    requires
        ids.no_duplicates(),
        0 <= k <= ids.len(),
    ensures
        ids.take(k).to_set().finite(),
        count_first(nodes, edges, ids, k, l) == ids.take(k).to_set().filter(
            |x: u32| link_of(nodes, edges[x]) == l,
        ).len(),
    decreases k,
{
    let p = |x: u32| link_of(nodes, edges[x]) == l;
    vstd::seq_lib::seq_to_set_is_finite(ids.take(k));
    if k == 0 {
        assert(ids.take(0).to_set().filter(p) =~= Set::<u32>::empty());
    } else {
        lemma_count_first_is_filter(nodes, edges, ids, k - 1, l);
        let prev = ids.take(k - 1).to_set();
        let next = ids.take(k).to_set();
        let x = ids[k - 1];
        lemma_take_contains(ids, k - 1);
        assert(next =~= prev.insert(x)) by {
            assert forall|y: u32| next.contains(y) <==> prev.insert(x).contains(y) by {
                assert(next.contains(y) <==> ids.take(k).contains(y));
                assert(prev.contains(y) <==> ids.take(k - 1).contains(y));
            }
        }
        assert(!prev.contains(x)) by {
            let head = ids.take(k - 1);
            if head.contains(x) {
                let j = choose|j: int| 0 <= j < head.len() && head[j] == x;
                assert(ids[j] == ids[k - 1]);
            }
        }
        vstd::set_lib::lemma_set_subset_finite(prev, prev.filter(p));
        if p(x) {
            assert(next.filter(p) =~= prev.filter(p).insert(x));
        } else {
            assert(next.filter(p) =~= prev.filter(p));
        }
    }
}

/// Counting all edges one by one is counting the edges of the graph.
pub proof fn lemma_count_first_all(
    nodes: Map<u32, NodeView>,
    edges: Map<u32, EdgeView>,
    ids: Seq<u32>,
    l: Link,
)
    requires
        lists_keys(ids, edges.dom()),
    ensures
        count_first(nodes, edges, ids, ids.len() as int, l) == link_count(nodes, edges, l),
{
    lemma_count_first_is_filter(nodes, edges, ids, ids.len() as int, l);
    assert(ids.take(ids.len() as int) =~= ids);
}

/// A graph without edges has no links.
pub proof fn lemma_links_empty(nodes: Map<u32, NodeView>)
    ensures
        links(nodes, Map::<u32, EdgeView>::empty()) == Set::<Link>::empty(),
{
    assert(links(nodes, Map::<u32, EdgeView>::empty()) =~= Set::<Link>::empty());
}

/// The links of the first `k + 1` edges are those of the first `k` and the
/// link of the next one; the first none have no links.
pub proof fn lemma_links_of_first_step(
    nodes: Map<u32, NodeView>,
    edges: Map<u32, EdgeView>,
    ids: Seq<u32>,
    k: int,
)
    requires
        0 <= k < ids.len(),
    ensures
        links_of_first(nodes, edges, ids, 0) == Set::<Link>::empty(),
        links_of_first(nodes, edges, ids, k + 1) == links_of_first(nodes, edges, ids, k).insert(
            link_of(nodes, edges[ids[k]]),
        ),
{
    assert(links_of_first(nodes, edges, ids, 0) =~= Set::<Link>::empty());
    let next = links_of_first(nodes, edges, ids, k + 1);
    let grown = links_of_first(nodes, edges, ids, k).insert(link_of(nodes, edges[ids[k]]));
    assert forall|l: Link| next.contains(l) <==> grown.contains(l) by {
        if next.contains(l) {
            let j = choose|j: int| 0 <= j < k + 1 && #[trigger] link_of(nodes, edges[ids[j]]) == l;
            if j < k {
                assert(0 <= j < k && link_of(nodes, edges[ids[j]]) == l);
            }
        }
        if links_of_first(nodes, edges, ids, k).contains(l) {
            let j = choose|j: int| 0 <= j < k && #[trigger] link_of(nodes, edges[ids[j]]) == l;
            assert(0 <= j < k + 1 && link_of(nodes, edges[ids[j]]) == l);
        }
        if l == link_of(nodes, edges[ids[k]]) {
            assert(0 <= k < k + 1 && link_of(nodes, edges[ids[k]]) == l);
        }
    }
    assert(next =~= grown);
}

/// The links of all edges, taken one by one, are the links of the graph.
pub proof fn lemma_links_of_all(nodes: Map<u32, NodeView>, edges: Map<u32, EdgeView>, ids: Seq<u32>)
    requires
        lists_keys(ids, edges.dom()),
    ensures
        links_of_first(nodes, edges, ids, ids.len() as int) == links(nodes, edges),
        ids.len() == edges.len(),
{
    let all = links_of_first(nodes, edges, ids, ids.len() as int);
    assert forall|l: Link| all.contains(l) <==> links(nodes, edges).contains(l) by {
        if all.contains(l) {
            let j = choose|j: int| 0 <= j < ids.len() && #[trigger] link_of(nodes, edges[ids[j]]) == l;
            assert(ids.to_set().contains(ids[j]));
            assert(edges.contains_key(ids[j]));
        }
        if links(nodes, edges).contains(l) {
            let x = choose|x: u32| #[trigger] edges.contains_key(x) && link_of(nodes, edges[x]) == l;
            assert(ids.to_set().contains(x));
            let j = choose|j: int| 0 <= j < ids.len() && ids[j] == x;
            assert(link_of(nodes, edges[ids[j]]) == l);
        }
    }
    assert(all =~= links(nodes, edges));
    ids.unique_seq_to_set();
}

/// An indexed graph has as many nodes as labels.
pub proof fn lemma_indexed_len(nodes: Map<u32, NodeView>, index: Map<Seq<char>, u32>)
    requires
        nodes.dom().finite(),
        indexed(nodes, index),
    ensures
        nodes.len() == index.len(),
{
    let f = |i: u32| nodes[i].label;
    assert(injective_on(f, nodes.dom())) by {
        assert forall|a: u32, b: u32|
            nodes.dom().contains(a) && nodes.dom().contains(b) && #[trigger] f(a) == #[trigger] f(
                b,
            ) implies a == b by {
            assert(nodes.contains_key(a) && nodes.contains_key(b));
        }
    }
    assert(nodes.dom().map(f) =~= index.dom()) by {
        assert forall|l: Seq<char>| index.dom().contains(l) implies nodes.dom().map(f).contains(
            l,
        ) by {
            assert(index.contains_key(l));
            assert(nodes.dom().contains(index[l]) && f(index[l]) == l);
        }
        assert forall|l: Seq<char>| nodes.dom().map(f).contains(l) implies index.dom().contains(
            l,
        ) by {
            let i = choose|i: u32| nodes.dom().contains(i) && f(i) == l;
            assert(nodes.contains_key(i));
        }
    }
    lemma_map_size(nodes.dom(), index.dom(), f);
}

/// In agreement, the two graphs have as many nodes and as many edges as each
/// other.
pub proof fn lemma_counts_agree(m: Model)
    requires
        m.wf(),
    ensures
        m.dnodes.len() == m.snodes.len(),
        m.dedges.len() == m.sedges.len(),
        m.dnodes.len() == m.index.len(),
{
    lemma_indexed_len(m.dnodes, m.index);
    lemma_indexed_len(m.snodes, m.sim_index);
    let f = |e: u32| m.edge_map[e];
    assert(injective_on(f, m.dedges.dom())) by {
        assert forall|a: u32, b: u32|
            m.dedges.dom().contains(a) && m.dedges.dom().contains(b) && #[trigger] f(a)
                == #[trigger] f(b) implies a == b by {
            assert(m.dedges.contains_key(a) && m.dedges.contains_key(b));
        }
    }
    assert(m.dedges.dom().map(f) =~= m.sedges.dom()) by {
        assert forall|y: u32| m.sedges.dom().contains(y) implies m.dedges.dom().map(f).contains(
            y,
        ) by {
            assert(m.sedges.contains_key(y));
            assert(m.dedges.dom().contains(m.edge_inv[y]) && f(m.edge_inv[y]) == y);
        }
        assert forall|y: u32| m.dedges.dom().map(f).contains(y) implies m.sedges.dom().contains(
            y,
        ) by {
            let x = choose|x: u32| m.dedges.dom().contains(x) && f(x) == y;
            assert(m.dedges.contains_key(x));
        }
    }
    lemma_map_size(m.dedges.dom(), m.sedges.dom(), f);
}

} // verus!
