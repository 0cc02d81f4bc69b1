//! What holds of the pair of graphs whatever is done to it.

use vstd::prelude::*;
use crate::events::NodeMoved;
use crate::model::after_moves;
use crate::model::applies;
use crate::model::converted;
use crate::model::lemma_counts_agree;
use crate::model::lemma_same_labels_wf;
use crate::model::lemma_sim_of;
use crate::model::lemma_with_edge_wf;
use crate::model::lemma_with_node_wf;
use crate::model::lemma_without_edge_wf;
use crate::model::lemma_without_label_wf;
use crate::model::Link;
use crate::model::link_count;
use crate::model::link_of;
use crate::model::Model;
use crate::model::moved_only;
use crate::model::placed;
use crate::model::touched_by;
use crate::model::without_edge_if_any;
use crate::model::without_edges;
use crate::values::EdgeView;
use crate::values::NodeView;
use crate::values::Placement;
use crate::values::Position;
use crate::values::Scalar;

verus! {

/// One mutation of the pair of graphs, with the identifiers that the graphs
/// hand out for what comes in.
pub ghost enum Mutation {
    /// A node comes in, as `id` in the display graph and as `sid` in the
    /// simulation graph.
    AddNode {
        id: u32,
        sid: u32,
        label: Seq<char>,
        weight: Scalar,
        position: Position,
        sim_position: Position,
    },
    /// The node labelled `label` leaves.
    RemoveNode { label: Seq<char> },
    /// An edge from the node labelled `from` to the node labelled `to` comes
    /// in, as `e` in the display graph and as `f` in the simulation graph.
    AddEdge { e: u32, f: u32, from: Seq<char>, to: Seq<char>, label: Seq<char>, weight: Scalar },
    /// The selected display edges `ids` leave, one after the other.
    RemoveSelectedEdges { ids: Seq<u32> },
}

/// Whether the mutation is carried out; a mutation that is refused changes
/// nothing.
pub open spec fn accepted(m: Model, step: Mutation) -> bool {
    match step {
        Mutation::AddNode { id, sid, label, weight, position, sim_position } => {
            &&& label.len() > 0
            &&& !m.index.contains_key(label)
            &&& !m.dnodes.contains_key(id)
            &&& !m.snodes.contains_key(sid)
        },
        Mutation::RemoveNode { label } => m.index.contains_key(label),
        Mutation::AddEdge { e, f, from, to, label, weight } => {
            &&& from.len() > 0
            &&& to.len() > 0
            &&& from != to
            &&& m.index.contains_key(from)
            &&& m.index.contains_key(to)
            &&& !m.dedges.contains_key(e)
            &&& !m.sedges.contains_key(f)
        },
        Mutation::RemoveSelectedEdges { ids } => true,
    }
}

/// The state after the mutation.
pub open spec fn after(m: Model, step: Mutation) -> Model {
    if !accepted(m, step) {
        m
    } else {
        match step {
            Mutation::AddNode { id, sid, label, weight, position, sim_position } => m.with_node(
                id,
                sid,
                NodeView { label, weight, position },
                NodeView { label, weight, position: sim_position },
            ),
            Mutation::RemoveNode { label } => m.without_label(label),
            Mutation::AddEdge { e, f, from, to, label, weight } => m.with_edge(
                e,
                f,
                EdgeView { source: m.index[from], target: m.index[to], label, weight },
            ),
            Mutation::RemoveSelectedEdges { ids } => without_edges(m, ids),
        }
    }
}

/// The state after the mutations `steps`, one after the other.
pub open spec fn after_all(m: Model, steps: Seq<Mutation>) -> Model
    decreases steps.len(),
{
    if steps.len() == 0 {
        m
    } else {
        after(after_all(m, steps.drop_last()), steps.last())
    }
}

/// A mutation keeps the two graphs in agreement.
pub proof fn law_mutation_keeps_agreement(m: Model, step: Mutation)
    requires
        m.wf(),
    ensures
        after(m, step).wf(),
{
    if accepted(m, step) {
        match step {
            Mutation::AddNode { id, sid, label, weight, position, sim_position } => {
                lemma_with_node_wf(
                    m,
                    id,
                    sid,
                    NodeView { label, weight, position },
                    NodeView { label, weight, position: sim_position },
                );
            },
            Mutation::RemoveNode { label } => {
                lemma_without_label_wf(m, label);
            },
            Mutation::AddEdge { e, f, from, to, label, weight } => {
                assert(m.dnodes.contains_key(m.index[from]));
                assert(m.dnodes.contains_key(m.index[to]));
                assert(m.dnodes[m.index[from]].label == from);
                assert(m.dnodes[m.index[to]].label == to);
                lemma_with_edge_wf(
                    m,
                    e,
                    f,
                    EdgeView { source: m.index[from], target: m.index[to], label, weight },
                );
            },
            Mutation::RemoveSelectedEdges { ids } => {
                law_selected_edges_leave(m, ids);
            },
        }
    }
}

/// After any sequence of additions and removals of nodes and edges, the
/// display graph and the simulation graph have as many nodes as each other,
/// and as many edges.
pub proof fn law_counts_agree(m: Model, steps: Seq<Mutation>)
    requires
        m.wf(),
    ensures
        after_all(m, steps).wf(),
        after_all(m, steps).dnodes.len() == after_all(m, steps).snodes.len(),
        after_all(m, steps).dedges.len() == after_all(m, steps).sedges.len(),
    decreases steps.len(),
{
    if steps.len() > 0 {
        law_counts_agree(m, steps.drop_last());
        law_mutation_keeps_agreement(after_all(m, steps.drop_last()), steps.last());
    }
    lemma_counts_agree(after_all(m, steps));
}

/// Adding a node under a label that a node bears already changes nothing.
pub proof fn law_duplicate_label_changes_nothing(
    m: Model,
    id: u32,
    sid: u32,
    label: Seq<char>,
    weight: Scalar,
    position: Position,
    sim_position: Position,
)
    requires
        m.index.contains_key(label),
    ensures
        after(m, Mutation::AddNode { id, sid, label, weight, position, sim_position }) == m,
{
}

/// Adding an edge from a label to the same label adds no edge, and no edge
/// of graphs in agreement joins a node to itself.
pub proof fn law_no_self_loops(m: Model, e: u32, f: u32, label: Seq<char>, edge_label: Seq<char>, weight: Scalar)
    requires
        m.wf(),
    ensures
        after(m, Mutation::AddEdge { e, f, from: label, to: label, label: edge_label, weight }) == m,
        forall|x: u32| #[trigger] m.dedges.contains_key(x) ==> m.dedges[x].source != m.dedges[x].target,
        forall|y: u32| #[trigger] m.sedges.contains_key(y) ==> m.sedges[y].source != m.sedges[y].target,
{
    assert forall|y: u32| #[trigger] m.sedges.contains_key(y) implies m.sedges[y].source
        != m.sedges[y].target by {
        let x = m.edge_inv[y];
        assert(m.dedges.contains_key(x));
        lemma_sim_of(m, m.dedges[x].source);
        assert(m.dnodes.contains_key(m.dedges[x].target));
    }
}

/// The pairs of labels that the display edges join.
pub open spec fn joined(m: Model) -> Set<(Seq<char>, Seq<char>)> {
    Set::new(
        |p: (Seq<char>, Seq<char>)|
            exists|e: u32| #[trigger]
                m.dedges.contains_key(e) && m.dnodes[m.dedges[e].source].label == p.0
                    && m.dnodes[m.dedges[e].target].label == p.1,
    )
}

/// The pairs of labels that the edges join are those of the links.
proof fn lemma_joined_of_links(m: Model, n: Model)
    requires
        m.display_links() == n.display_links(),
    ensures
        joined(m).subset_of(joined(n)),
{
    assert forall|p: (Seq<char>, Seq<char>)| joined(m).contains(p) implies joined(n).contains(p) by {
        let e = choose|e: u32| #[trigger]
            m.dedges.contains_key(e) && m.dnodes[m.dedges[e].source].label == p.0
                && m.dnodes[m.dedges[e].target].label == p.1;
        let l = link_of(m.dnodes, m.dedges[e]);
        assert(m.display_links().contains(l));
        assert(n.display_links().contains(l));
        let x = choose|x: u32| #[trigger] n.dedges.contains_key(x) && link_of(n.dnodes, n.dedges[x]) == l;
        assert(n.dedges.contains_key(x) && n.dnodes[n.dedges[x].source].label == p.0
            && n.dnodes[n.dedges[x].target].label == p.1);
    }
}

/// Converting the topology and converting it back leaves the labels, the
/// pairs of labels that the edges join, the edges told by labels, each as
/// many times as before, and the weight and the place of every node as
/// they were.
pub proof fn law_conversion_round_trip(start: Model, there: Model, back: Model)
    requires
        converted(start, there),
        converted(there, back),
    ensures
        back.labels() == start.labels(),
        joined(back) == joined(start),
        back.display_links() == start.display_links(),
        back.dedges.len() == start.dedges.len(),
        back.display_by_label() == start.display_by_label(),
        back.sim_by_label() == start.display_by_label(),
        forall|l: Link| #[trigger]
            link_count(back.dnodes, back.dedges, l) == link_count(start.dnodes, start.dedges, l),
{
    assert forall|l: Link| #[trigger]
        link_count(back.dnodes, back.dedges, l) == link_count(start.dnodes, start.dedges, l) by {
        assert(link_count(there.dnodes, there.dedges, l) == link_count(start.dnodes, start.dedges, l));
    }
    lemma_joined_of_links(start, back);
    lemma_joined_of_links(back, start);
    assert(joined(back) =~= joined(start));
}

/// After the node labelled `label` was removed, the label is in neither
/// index, no node of either graph bears it, and no edge of either graph
/// touches the node that bore it or joins its label to another.
pub proof fn law_removed_node_is_gone(m: Model, label: Seq<char>)
    requires
        m.wf(),
        m.index.contains_key(label),
    ensures
        ({
            let n = after(m, Mutation::RemoveNode { label });
            &&& n.wf()
            &&& !n.index.contains_key(label)
            &&& !n.sim_index.contains_key(label)
            &&& !n.dnodes.contains_key(m.index[label])
            &&& !n.snodes.contains_key(m.sim_index[label])
            &&& forall|i: u32| #[trigger] n.dnodes.contains_key(i) ==> n.dnodes[i].label != label
            &&& forall|i: u32| #[trigger] n.snodes.contains_key(i) ==> n.snodes[i].label != label
            &&& forall|e: u32| #[trigger]
                n.dedges.contains_key(e) ==> n.dedges[e].source != m.index[label] && n.dedges[e].target
                    != m.index[label]
            &&& forall|f: u32| #[trigger]
                n.sedges.contains_key(f) ==> n.sedges[f].source != m.sim_index[label]
                    && n.sedges[f].target != m.sim_index[label]
            &&& forall|l: Link| #[trigger] n.display_links().contains(l) ==> l.from != label && l.to != label
            &&& forall|l: Link| #[trigger] n.sim_links().contains(l) ==> l.from != label && l.to != label
        }),
{
    let n = m.without_label(label);
    lemma_without_label_wf(m, label);
    assert forall|i: u32| #[trigger] n.dnodes.contains_key(i) implies n.dnodes[i].label != label by {
        assert(n.index.contains_key(n.dnodes[i].label));
    }
    assert forall|i: u32| #[trigger] n.snodes.contains_key(i) implies n.snodes[i].label != label by {
        assert(n.sim_index.contains_key(n.snodes[i].label));
    }
    assert forall|l: Link| #[trigger] n.display_links().contains(l) implies l.from != label && l.to
        != label by {
        let e = choose|e: u32| #[trigger] n.dedges.contains_key(e) && link_of(n.dnodes, n.dedges[e]) == l;
        assert(n.dnodes.contains_key(n.dedges[e].source));
        assert(n.dnodes.contains_key(n.dedges[e].target));
    }
    assert forall|l: Link| #[trigger] n.sim_links().contains(l) implies l.from != label && l.to
        != label by {
        let f = choose|f: u32| #[trigger] n.sedges.contains_key(f) && link_of(n.snodes, n.sedges[f]) == l;
        assert(n.snodes.contains_key(n.sedges[f].source));
        assert(n.snodes.contains_key(n.sedges[f].target));
    }
}

/// Applying reports of moved nodes keeps the graphs in agreement and changes
/// nothing but places of simulation nodes; a simulation node that is not
/// among those that the reports placed lies where it lay.
pub proof fn law_reports_move_only_what_they_touch(m: Model, reports: Seq<NodeMoved>, s: u32)
    requires
        m.wf(),
        m.snodes.contains_key(s),
    ensures
        after_moves(m, reports).wf(),
        after_moves(m, reports) == (Model { snodes: after_moves(m, reports).snodes, ..m }),
        moved_only(m.snodes, after_moves(m, reports).snodes),
        !touched_by(m, reports).contains(s) ==> after_moves(m, reports).snodes[s] == m.snodes[s],
    decreases reports.len(),
{
    if reports.len() > 0 {
        let before = after_moves(m, reports.drop_last());
        let earlier = touched_by(m, reports.drop_last());
        let last = reports.last();
        law_reports_move_only_what_they_touch(m, reports.drop_last(), s);
        if applies(before, last) {
            let d = last.node_id as u32;
            let t = before.sim_of(d);
            lemma_sim_of(before, d);
            let moved = before.snodes.insert(t, NodeView { position: last.position, ..before.snodes[t] });
            assert(moved.dom() =~= before.snodes.dom());
            lemma_same_labels_wf(before, before.dnodes, moved);
            assert(after_moves(m, reports).snodes == moved);
            assert forall|i: u32| #[trigger] m.snodes.contains_key(i) implies moved[i].label
                == m.snodes[i].label && moved[i].weight == m.snodes[i].weight by {
                assert(before.snodes.contains_key(i));
            }
            assert(touched_by(m, reports) == earlier.push(t));
            assert(earlier.push(t)[earlier.len() as int] == t);
            if !touched_by(m, reports).contains(s) {
                assert(s != t);
                if earlier.contains(s) {
                    let j = choose|j: int| 0 <= j < earlier.len() && earlier[j] == s;
                    assert(earlier.push(t)[j] == s);
                }
            }
        }
    }
}

/// A step of the solver moves the nodes that it names and no other: a node
/// that the user has just placed stays where it was put unless the step
/// itself puts it elsewhere.
pub proof fn law_step_moves_only_what_it_names(nodes: Map<u32, NodeView>, step: Seq<Placement>, s: u32)
    requires
        nodes.contains_key(s),
        forall|i: int| 0 <= i < step.len() ==> (#[trigger] step[i]).node != s,
    ensures
        placed(nodes, step).contains_key(s),
        placed(nodes, step)[s] == nodes[s],
    decreases step.len(),
{
    if step.len() > 0 {
        assert forall|i: int| 0 <= i < step.drop_last().len() implies (#[trigger] step.drop_last()[i]).node
            != s by {
            assert(step.drop_last()[i] == step[i]);
        }
        law_step_moves_only_what_it_names(nodes, step.drop_last(), s);
        assert(step.last() == step[step.len() - 1]);
    }
}

/// After the selected edges were removed, none of them is an edge of the
/// display graph, the nodes are as they were, and the graphs agree.
pub proof fn law_selected_edges_leave(m: Model, ids: Seq<u32>)
    requires
        m.wf(),
    ensures
        without_edges(m, ids).wf(),
        forall|i: int|
            0 <= i < ids.len() ==> !without_edges(m, ids).dedges.contains_key(#[trigger] ids[i]),
        without_edges(m, ids).dnodes == m.dnodes,
        without_edges(m, ids).snodes == m.snodes,
    decreases ids.len(),
{
    if ids.len() > 0 {
        let before = without_edges(m, ids.drop_last());
        law_selected_edges_leave(m, ids.drop_last());
        if before.dedges.contains_key(ids.last()) {
            lemma_without_edge_wf(before, ids.last());
        }
        assert(without_edges(m, ids) == without_edge_if_any(before, ids.last()));
        assert forall|i: int| 0 <= i < ids.len() implies !without_edges(
            m,
            ids,
        ).dedges.contains_key(#[trigger] ids[i]) by {
            if i < ids.len() - 1 {
                assert(ids.drop_last()[i] == ids[i]);
            }
        }
    }
}

} // verus!
