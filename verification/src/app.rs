//! The graph state manager: one logical graph held as a display graph and a
//! simulation graph, and the operations that change both together.

use std::collections::HashMap;
use vstd::hash_map::StringHashMap;
use vstd::prelude::*;
use crossbeam_channel::Receiver;
use crossbeam_channel::Sender;
use egui_graphs::events::Event;
use rand::rngs::ThreadRng;
use crate::app_graph::AppGraph;
use crate::directed::directed_add_edge;
use crate::directed::directed_add_node;
use crate::directed::directed_edges;
use crate::directed::directed_new;
use crate::directed::directed_node_indices;
use crate::directed::directed_node_weight;
use crate::directed::directed_nodes;
use crate::directed::directed_remove_edge;
use crate::directed::directed_remove_node;
use crate::directed::directed_set_edge_weight;
use crate::directed::directed_set_node_weight;
use crate::directed::directed_set_position;
use crate::events::Incoming;
use crate::events::NodeMoved;
use crate::events::open_channel;
use crate::events::pending;
use crate::events::try_receive;
use crate::labels::drawn_edge_label;
use crate::labels::lemma_node_label_injective;
use crate::labels::link_label;
use crate::labels::make_drawn_edge_label;
use crate::labels::make_link_label;
use crate::labels::make_node_label;
use crate::labels::node_label;
use crate::model::after_move;
use crate::model::after_moves;
use crate::model::applies;
use crate::model::carried_over;
use crate::model::converted;
use crate::model::count_first;
use crate::model::edges_mirrored;
use crate::model::lemma_carried_over_all;
use crate::model::lemma_carried_over_fresh;
use crate::model::lemma_carried_over_step;
use crate::model::lemma_count_first_all;
use crate::model::lemma_counts_agree;
use crate::model::lemma_display_of;
use crate::model::lemma_empty_wf;
use crate::model::lemma_link_count_empty;
use crate::model::lemma_link_count_insert;
use crate::model::lemma_links_empty;
use crate::model::lemma_links_insert;
use crate::model::lemma_links_of_all;
use crate::model::lemma_links_of_first_step;
use crate::model::lemma_placed_moved_only;
use crate::model::lemma_same_edges_wf;
use crate::model::lemma_same_labels_wf;
use crate::model::lemma_sim_of;
use crate::model::lemma_with_edge_mirrored;
use crate::model::lemma_with_edge_wf;
use crate::model::lemma_with_node_wf;
use crate::model::lemma_without_edge_wf;
use crate::model::lemma_without_label_wf;
use crate::model::Link;
use crate::model::link_count;
use crate::model::link_of;
use crate::model::links_of_first;
use crate::model::Model;
use crate::model::moved_only;
use crate::model::placed;
use crate::model::placed_as;
use crate::model::touched_by;
use crate::model::without_edges;
use crate::random::random_below;
use crate::random::thread_rng;
use crate::store::DirectedGraph;
use crate::store::lemma_take_contains;
use crate::store::lemma_without_node_sound;
use crate::store::lists_keys;
use crate::store::without_node;
use crate::values::edge_view;
use crate::values::EdgePayload;
use crate::values::EdgeView;
use crate::values::GraphError;
use crate::values::NodePayload;
use crate::values::NodeSeed;
use crate::values::NodeView;
use crate::values::PlacedNode;
use crate::values::Placement;
use crate::values::Position;
use crate::values::Scalar;

verus! {

/// The number of nodes of the graph that a new session starts with.
pub const DEFAULT_NODE_COUNT: usize = 15;

/// The number of edges that a new session tries to draw.
pub const DEFAULT_EDGE_COUNT: usize = 20;

/// The bit pattern of the time step that a new session starts with, 0.035.
pub const DEFAULT_DT_BITS: u32 = 0x3d0f_5c29;

/// The bit pattern of the damping factor that a new session starts with, 0.95.
pub const DEFAULT_COOLOFF_FACTOR_BITS: u32 = 0x3f73_3333;

/// The bit pattern of the distance scale that a new session starts with, 100.
pub const DEFAULT_SCALE_BITS: u32 = 0x42c8_0000;

/// The state of a session: the display graph, the simulation graph, the
/// label index that joins them, the selection, the settings of the solver
/// and the event intake.
pub struct BasicApp {
    g: AppGraph,
    sim: DirectedGraph,
    node_label_to_index_map: StringHashMap<u32>,
    sim_label_to_index_map: StringHashMap<u32>,
    sim_edge_of: HashMap<u32, u32>,
    display_edge_of: Ghost<Map<u32, u32>>,
    selected_nodes: Vec<u32>,
    selected_edges: Vec<u32>,
    graph_nodes_count: usize,
    graph_edges_count: usize,
    rng: ThreadRng,
    event_publisher: Sender<Event>,
    event_consumer: Receiver<Event>,
    is_directed: bool,
    simulation_stopped: bool,
    sim_dt: Scalar,
    sim_cooloff_factor: Scalar,
    sim_scale: Scalar,
}

/// The settings of the solver: its time step, the factor by which it damps
/// velocities at each step, and the distance scale of the layout.
#[derive(Clone, Copy, Debug, PartialEq, Eq, Structural)]
pub struct SolverSettings {
    pub dt: Scalar,
    pub cooloff_factor: Scalar,
    pub scale: Scalar,
}

impl BasicApp {
    /// The two graphs and what ties them together, as mathematics.
    pub closed spec fn model(&self) -> Model {
        Model {
            dnodes: self.g.nodes(),
            dedges: self.g.edges(),
            snodes: directed_nodes(self.sim),
            sedges: directed_edges(self.sim),
            index: self.node_label_to_index_map@,
            sim_index: self.sim_label_to_index_map@,
            edge_map: self.sim_edge_of@,
            edge_inv: self.display_edge_of@,
        }
    }

    /// Whether the display graph is directed.
    pub closed spec fn directed(&self) -> bool {
        self.g.directed()
    }

    /// The selected display nodes, in the order in which they were chosen.
    pub closed spec fn selected_node_ids(&self) -> Seq<u32> {
        self.selected_nodes@
    }

    /// The selected display edges, in the order in which they were chosen.
    pub closed spec fn selected_edge_ids(&self) -> Seq<u32> {
        self.selected_edges@
    }

    /// The node count that the session shows.
    pub closed spec fn shown_node_count(&self) -> usize {
        self.graph_nodes_count
    }

    /// The edge count that the session shows.
    pub closed spec fn shown_edge_count(&self) -> usize {
        self.graph_edges_count
    }

    /// The sending end of the event intake.
    pub closed spec fn intake(&self) -> Sender<Event> {
        self.event_publisher
    }

    /// Whether the display graph is meant to be directed; a topology
    /// conversion makes it so.
    pub closed spec fn wants_directed(&self) -> bool {
        self.is_directed
    }

    /// Whether the solver is paused.
    pub closed spec fn stopped(&self) -> bool {
        self.simulation_stopped
    }

    /// The settings of the solver.
    pub closed spec fn solver(&self) -> SolverSettings {
        SolverSettings { dt: self.sim_dt, cooloff_factor: self.sim_cooloff_factor, scale: self.sim_scale }
    }

    /// The invariant of the session: the two graphs agree, and the counts
    /// shown are those of the display graph.
    pub closed spec fn wf(&self) -> bool {
        &&& self.model().wf()
        &&& self.graph_nodes_count == self.model().dnodes.len()
        &&& self.graph_edges_count == self.model().dedges.len()
        &&& self.graph_nodes_count <= u32::MAX
        &&& self.graph_edges_count <= u32::MAX
    }

    /// What the invariant says of the model and of the counts shown.
    pub proof fn lemma_wf(&self)
        requires
            self.wf(),
        ensures
            self.model().wf(),
            self.shown_node_count() == self.model().dnodes.len(),
            self.shown_node_count() == self.model().snodes.len(),
            self.shown_edge_count() == self.model().dedges.len(),
            self.shown_edge_count() == self.model().sedges.len(),
    {
        lemma_counts_agree(self.model());
    }

    /// The settings, the topology, the selection and the event intake of
    /// `self` are those of `before`.
    pub open spec fn same_frame(&self, before: &BasicApp) -> bool {
        &&& self.wants_directed() == before.wants_directed()
        &&& self.stopped() == before.stopped()
        &&& self.solver() == before.solver()
        &&& self.intake() == before.intake()
        &&& self.directed() == before.directed()
        &&& self.selected_node_ids() == before.selected_node_ids()
        &&& self.selected_edge_ids() == before.selected_edge_ids()
    }

    /// A session with an empty directed graph, a running solver with the
    /// given settings, and an empty event intake.
    pub fn empty(settings: SolverSettings) -> (app: BasicApp)
        ensures
            app.wf(),
            app.model() == Model::empty(),
            app.directed(),
            app.wants_directed(),
            !app.stopped(),
            app.solver() == settings,
            app.selected_node_ids().len() == 0,
            app.selected_edge_ids().len() == 0,
            app.shown_node_count() == 0,
            app.shown_edge_count() == 0,
    {
        broadcast use vstd::std_specs::hash::group_hash_axioms;

        let (event_publisher, event_consumer) = open_channel();
        proof {
            lemma_empty_wf();
        }
        BasicApp {
            g: AppGraph::new(true),
            sim: directed_new(),
            node_label_to_index_map: StringHashMap::new(),
            sim_label_to_index_map: StringHashMap::new(),
            sim_edge_of: HashMap::new(),
            display_edge_of: Ghost(Map::empty()),
            selected_nodes: Vec::new(),
            selected_edges: Vec::new(),
            graph_nodes_count: 0,
            graph_edges_count: 0,
            rng: thread_rng(),
            event_publisher,
            event_consumer,
            is_directed: true,
            simulation_stopped: false,
            sim_dt: settings.dt,
            sim_cooloff_factor: settings.cooloff_factor,
            sim_scale: settings.scale,
        }
    }

    /// Adds a node labelled `label` to both graphs, at `position` in the
    /// display graph and at `sim_position` in the simulation graph, and
    /// returns its display identifier. An empty label and a label that a
    /// node already bears are refused.
    pub fn add_node_ui(
        &mut self,
        label: String,
        weight: Scalar,
        position: Position,
        sim_position: Position,
    ) -> (r: Result<u32, GraphError>)
        requires
            old(self).wf(),
            old(self).model().dnodes.len() < u32::MAX,
        ensures
            final(self).wf(),
            final(self).same_frame(old(self)),
            r is Ok <==> label@.len() > 0 && !old(self).model().index.contains_key(label@),
            old(self).model().index.contains_key(label@) ==> *final(self) == *old(self),
            (match r {
                Ok(id) => {
                    let sid = final(self).model().sim_index[label@];
                    &&& label@.len() > 0
                    &&& !old(self).model().index.contains_key(label@)
                    &&& !old(self).model().dnodes.contains_key(id)
                    &&& !old(self).model().snodes.contains_key(sid)
                    &&& final(self).model() == old(self).model().with_node(
                        id,
                        sid,
                        NodeView { label: label@, weight, position },
                        NodeView { label: label@, weight, position: sim_position },
                    )
                    &&& final(self).shown_node_count() == old(self).shown_node_count() + 1
                    &&& final(self).shown_edge_count() == old(self).shown_edge_count()
                },
                Err(GraphError::InvalidOperation) => label@.len() == 0 && *final(self) == *old(self),
                Err(GraphError::DuplicateLabel) => label@.len() > 0 && old(self).model().index.contains_key(label@)
                    && *final(self) == *old(self),
                Err(_) => false,
            }),
    {
        if label.as_str().is_empty() {
            return Err(GraphError::InvalidOperation);
        }
        if self.node_label_to_index_map.contains_key(label.as_str()) {
            return Err(GraphError::DuplicateLabel);
        }
        proof {
            lemma_counts_agree(self.model());
        }
        let payload = NodePayload { label: label.clone(), weight };
        let id = self.g.add_node(PlacedNode { payload: payload.clone(), position });
        let sid = directed_add_node(&mut self.sim, PlacedNode { payload, position: sim_position });
        self.sim_label_to_index_map.insert(label.clone(), sid);
        self.node_label_to_index_map.insert(label, id);
        self.graph_nodes_count = self.graph_nodes_count + 1;
        proof {
            lemma_with_node_wf(
                old(self).model(),
                id,
                sid,
                NodeView { label: label@, weight, position },
                NodeView { label: label@, weight, position: sim_position },
            );
        }
        Ok(id)
    }

    /// Adds an edge with the payload `payload` between the nodes labelled
    /// `from` and `to`, to both graphs.
    fn link(&mut self, from: &String, to: &String, payload: EdgePayload) -> (r: Result<
        u32,
        GraphError,
    >)
        requires
            old(self).wf(),
            old(self).model().dedges.len() < u32::MAX,
            from@ != to@,
        ensures
            final(self).wf(),
            final(self).same_frame(old(self)),
            final(self).shown_node_count() == old(self).shown_node_count(),
            (match r {
                Ok(e) => {
                    let m = old(self).model();
                    let f = final(self).model().edge_map[e];
                    &&& m.index.contains_key(from@)
                    &&& m.index.contains_key(to@)
                    &&& !m.dedges.contains_key(e)
                    &&& !m.sedges.contains_key(f)
                    &&& final(self).model() == m.with_edge(
                        e,
                        f,
                        edge_view(m.index[from@], m.index[to@], payload@),
                    )
                    &&& final(self).shown_edge_count() == old(self).shown_edge_count() + 1
                },
                Err(GraphError::NotFound) => !(old(self).model().index.contains_key(from@) && old(
                    self,
                ).model().index.contains_key(to@)) && *final(self) == *old(self),
                Err(_) => false,
            }),
    {
        broadcast use vstd::std_specs::hash::group_hash_axioms;

        let d1 = match self.node_label_to_index_map.get(from.as_str()) {
            Some(id) => *id,
            None => {
                return Err(GraphError::NotFound);
            },
        };
        let d2 = match self.node_label_to_index_map.get(to.as_str()) {
            Some(id) => *id,
            None => {
                return Err(GraphError::NotFound);
            },
        };
        let ghost m = self.model();
        let ghost edge = edge_view(d1, d2, payload@);
        proof {
            lemma_counts_agree(m);
            assert(m.sim_index.dom().contains(from@));
            assert(m.sim_index.dom().contains(to@));
        }
        let s1 = match self.sim_label_to_index_map.get(from.as_str()) {
            Some(id) => *id,
            None => {
                assert(false);
                return Err(GraphError::InternalInconsistency);
            },
        };
        let s2 = match self.sim_label_to_index_map.get(to.as_str()) {
            Some(id) => *id,
            None => {
                assert(false);
                return Err(GraphError::InternalInconsistency);
            },
        };
        let e = self.g.add_edge(d1, d2, payload.clone());
        let f = directed_add_edge(&mut self.sim, s1, s2, payload);
        self.sim_edge_of.insert(e, f);
        self.display_edge_of = Ghost(self.display_edge_of@.insert(f, e));
        self.graph_edges_count = self.graph_edges_count + 1;
        proof {
            lemma_with_edge_wf(m, e, f, edge);
            assert(self.model().sedges == m.with_edge(e, f, edge).sedges);
            assert(self.model() == m.with_edge(e, f, edge));
        }
        Ok(e)
    }

    /// Adds an edge of weight `weight` from the node labelled `from_label`
    /// to the node labelled `to_label`, to both graphs, and returns its
    /// display identifier. An empty label, a label that no node bears and
    /// two equal labels are refused.
    pub fn add_edge_ui(&mut self, from_label: String, to_label: String, weight: Scalar) -> (r: Result<
        u32,
        GraphError,
    >)
        requires
            old(self).wf(),
            old(self).model().dedges.len() < u32::MAX,
        ensures
            final(self).wf(),
            final(self).same_frame(old(self)),
            final(self).shown_node_count() == old(self).shown_node_count(),
            r is Ok <==> from_label@ != to_label@ && old(self).model().index.contains_key(from_label@) && old(
                self,
            ).model().index.contains_key(to_label@),
            from_label@ == to_label@ ==> *final(self) == *old(self),
            (match r {
                Ok(e) => {
                    let m = old(self).model();
                    let f = final(self).model().edge_map[e];
                    &&& from_label@.len() > 0
                    &&& to_label@.len() > 0
                    &&& from_label@ != to_label@
                    &&& m.index.contains_key(from_label@)
                    &&& m.index.contains_key(to_label@)
                    &&& !m.dedges.contains_key(e)
                    &&& !m.sedges.contains_key(f)
                    &&& final(self).model() == m.with_edge(
                        e,
                        f,
                        EdgeView {
                            source: m.index[from_label@],
                            target: m.index[to_label@],
                            label: link_label(from_label@, to_label@),
                            weight,
                        },
                    )
                    &&& final(self).shown_edge_count() == old(self).shown_edge_count() + 1
                },
                Err(GraphError::InvalidOperation) => (from_label@.len() == 0 || to_label@.len() == 0
                    || from_label@ == to_label@) && *final(self) == *old(self),
                Err(GraphError::NotFound) => {
                    &&& from_label@.len() > 0
                    &&& to_label@.len() > 0
                    &&& from_label@ != to_label@
                    &&& !(old(self).model().index.contains_key(from_label@) && old(
                        self,
                    ).model().index.contains_key(to_label@))
                    &&& *final(self) == *old(self)
                },
                Err(_) => false,
            }),
    {
        if from_label.as_str().is_empty() || to_label.as_str().is_empty() {
            return Err(GraphError::InvalidOperation);
        }
        if from_label == to_label {
            return Err(GraphError::InvalidOperation);
        }
        let label = make_link_label(&from_label, &to_label);
        self.link(&from_label, &to_label, EdgePayload { label, weight })
    }

    /// Adds an edge of weight `weight` from the first selected node to the
    /// second one. Anything but two selected nodes is refused, and so are
    /// two that are the same node or that the graph no longer holds.
    pub fn add_edge_between_selected_nodes(&mut self, weight: Scalar) -> (r: Result<u32, GraphError>)
        requires
            old(self).wf(),
            old(self).model().dedges.len() < u32::MAX,
        ensures
            final(self).wf(),
            final(self).same_frame(old(self)),
            final(self).shown_node_count() == old(self).shown_node_count(),
            (match r {
                Ok(e) => {
                    let m = old(self).model();
                    let f = final(self).model().edge_map[e];
                    let chosen = old(self).selected_node_ids();
                    &&& chosen.len() == 2
                    &&& chosen[0] != chosen[1]
                    &&& m.dnodes.contains_key(chosen[0])
                    &&& m.dnodes.contains_key(chosen[1])
                    &&& !m.dedges.contains_key(e)
                    &&& !m.sedges.contains_key(f)
                    &&& final(self).model() == m.with_edge(
                        e,
                        f,
                        EdgeView {
                            source: chosen[0],
                            target: chosen[1],
                            label: link_label(m.dnodes[chosen[0]].label, m.dnodes[chosen[1]].label),
                            weight,
                        },
                    )
                    &&& final(self).shown_edge_count() == old(self).shown_edge_count() + 1
                },
                Err(GraphError::InvalidOperation) => {
                    let chosen = old(self).selected_node_ids();
                    &&& chosen.len() != 2 || chosen[0] == chosen[1]
                    &&& *final(self) == *old(self)
                },
                Err(GraphError::NotFound) => {
                    let chosen = old(self).selected_node_ids();
                    &&& chosen.len() == 2
                    &&& chosen[0] != chosen[1]
                    &&& !(old(self).model().dnodes.contains_key(chosen[0]) && old(
                        self,
                    ).model().dnodes.contains_key(chosen[1]))
                    &&& *final(self) == *old(self)
                },
                Err(_) => false,
            }),
    {
        if self.selected_nodes.len() != 2 {
            return Err(GraphError::InvalidOperation);
        }
        let n1 = self.selected_nodes[0];
        let n2 = self.selected_nodes[1];
        if n1 == n2 {
            return Err(GraphError::InvalidOperation);
        }
        let from = match self.g.node(n1) {
            Some(node) => node.payload.label.clone(),
            None => {
                return Err(GraphError::NotFound);
            },
        };
        let to = match self.g.node(n2) {
            Some(node) => node.payload.label.clone(),
            None => {
                return Err(GraphError::NotFound);
            },
        };
        let label = make_link_label(&from, &to);
        self.link(&from, &to, EdgePayload { label, weight })
    }

    /// Removes the display edge `e` and its simulation edge; `false`, and
    /// no change, when there is no such edge.
    fn drop_edge(&mut self, e: u32) -> (removed: bool)
        requires
            old(self).wf(),
        ensures
            final(self).wf(),
            final(self).same_frame(old(self)),
            final(self).shown_node_count() == old(self).shown_node_count(),
            removed == old(self).model().dedges.contains_key(e),
            removed ==> final(self).model() == old(self).model().without_edge(e),
            removed ==> final(self).shown_edge_count() == old(self).shown_edge_count() - 1,
            !removed ==> *final(self) == *old(self),
    {
        broadcast use vstd::std_specs::hash::group_hash_axioms;

        let ghost m = self.model();
        match self.g.remove_edge(e) {
            None => false,
            Some(_) => {
                proof {
                    lemma_without_edge_wf(m, e);
                }
                let f = match self.sim_edge_of.get(&e) {
                    Some(f) => *f,
                    None => {
                        assert(false);
                        return false;
                    },
                };
                self.sim_edge_of.remove(&e);
                let _ = directed_remove_edge(&mut self.sim, f);
                self.display_edge_of = Ghost(self.display_edge_of@.remove(f));
                self.graph_edges_count = self.graph_edges_count - 1;
                proof {
                    assert(self.model() == m.without_edge(e));
                }
                true
            },
        }
    }

    /// Removes every selected edge from both graphs, clears the selection of
    /// edges, and returns how many edges left. A selected identifier that
    /// names no edge is passed over.
    pub fn remove_selected_edges_ui(&mut self) -> (removed: usize)
        requires
            old(self).wf(),
        ensures
            final(self).wf(),
            final(self).model() == without_edges(old(self).model(), old(self).selected_edge_ids()),
            final(self).selected_edge_ids() == Seq::<u32>::empty(),
            final(self).selected_node_ids() == old(self).selected_node_ids(),
            final(self).directed() == old(self).directed(),
            final(self).wants_directed() == old(self).wants_directed(),
            final(self).stopped() == old(self).stopped(),
            final(self).solver() == old(self).solver(),
            final(self).intake() == old(self).intake(),
            final(self).shown_node_count() == old(self).shown_node_count(),
            final(self).shown_edge_count() == old(self).shown_edge_count() - removed,
    {
        let n = self.selected_edges.len();
        let mut k: usize = 0;
        let mut removed: usize = 0;
        while k < n
            invariant
                k <= n,
                n == old(self).selected_edge_ids().len(),
                self.wf(),
                self.same_frame(old(self)),
                self.model() == without_edges(
                    old(self).model(),
                    old(self).selected_edge_ids().take(k as int),
                ),
                removed <= k,
                self.shown_node_count() == old(self).shown_node_count(),
                self.shown_edge_count() == old(self).shown_edge_count() - removed,
            decreases n - k,
        {
            let e = self.selected_edges[k];
            proof {
                let ids = old(self).selected_edge_ids();
                assert(ids.take(k + 1).drop_last() =~= ids.take(k as int));
                assert(ids.take(k + 1).last() == e);
            }
            if self.drop_edge(e) {
                removed = removed + 1;
            }
            k = k + 1;
        }
        proof {
            let ids = old(self).selected_edge_ids();
            assert(ids.take(n as int) =~= ids);
        }
        self.selected_edges = Vec::new();
        removed
    }

    /// Removes the node labelled `label` from both graphs, with every edge
    /// that touches it. An empty label and a label that no node bears are
    /// refused.
    pub fn remove_node_ui(&mut self, label: String) -> (r: Result<(), GraphError>)
        requires
            old(self).wf(),
        ensures
            final(self).wf(),
            final(self).same_frame(old(self)),
            r is Ok <==> old(self).model().index.contains_key(label@),
            (match r {
                Ok(_) => {
                    &&& old(self).model().index.contains_key(label@)
                    &&& final(self).model() == old(self).model().without_label(label@)
                    &&& final(self).shown_node_count() == old(self).shown_node_count() - 1
                    &&& final(self).shown_edge_count() == final(self).model().dedges.len()
                },
                Err(GraphError::InvalidOperation) => label@.len() == 0 && *final(self) == *old(self),
                Err(GraphError::NotFound) => label@.len() > 0 && !old(self).model().index.contains_key(
                    label@,
                ) && *final(self) == *old(self),
                Err(_) => false,
            }),
    {
        if label.as_str().is_empty() {
            return Err(GraphError::InvalidOperation);
        }
        let d = match self.node_label_to_index_map.get(label.as_str()) {
            Some(id) => *id,
            None => {
                return Err(GraphError::NotFound);
            },
        };
        let ghost m = self.model();
        proof {
            lemma_without_label_wf(m, label@);
            lemma_without_node_sound(m.dnodes, m.dedges, d);
        }
        let s = match self.sim_label_to_index_map.get(label.as_str()) {
            Some(id) => *id,
            None => {
                assert(false);
                return Err(GraphError::InternalInconsistency);
            },
        };
        forget_edges_at(&mut self.sim_edge_of, &self.g, d);
        let _ = self.g.remove_node(d);
        let _ = directed_remove_node(&mut self.sim, s);
        self.node_label_to_index_map.remove(label.as_str());
        self.sim_label_to_index_map.remove(label.as_str());
        self.display_edge_of = Ghost(
            self.display_edge_of@.restrict(without_node(m.sedges, s).dom()),
        );
        self.graph_nodes_count = self.graph_nodes_count - 1;
        self.graph_edges_count = self.g.edge_count();
        proof {
            assert(self.model() == m.without_label(label@));
        }
        Ok(())
    }

    /// Copies the position of every simulation node to the display node
    /// that bears its label.
    pub fn sync_node_positions_to_egui(&mut self)
        requires
            old(self).wf(),
        ensures
            final(self).wf(),
            final(self).same_frame(old(self)),
            final(self).shown_node_count() == old(self).shown_node_count(),
            final(self).shown_edge_count() == old(self).shown_edge_count(),
            final(self).model() == (Model {
                dnodes: placed_as(
                    old(self).model().dnodes,
                    old(self).model().snodes,
                    old(self).model().sim_index,
                ),
                ..old(self).model()
            }),
    {
        let ghost m = self.model();
        let ids = directed_node_indices(&self.sim);
        let mut k: usize = 0;
        while k < ids.len()
            invariant
                k <= ids.len(),
                m.wf(),
                m == old(self).model(),
                lists_keys(ids@, m.snodes.dom()),
                self.wf(),
                self.same_frame(old(self)),
                self.shown_node_count() == old(self).shown_node_count(),
                self.shown_edge_count() == old(self).shown_edge_count(),
                self.model() == (Model { dnodes: self.model().dnodes, ..m }),
                self.model().dnodes.dom() == m.dnodes.dom(),
                forall|i: u32| #[trigger]
                    m.dnodes.contains_key(i) ==> self.model().dnodes[i] == (if ids@.take(
                        k as int,
                    ).contains(m.sim_of(i)) {
                        NodeView { position: m.snodes[m.sim_of(i)].position, ..m.dnodes[i] }
                    } else {
                        m.dnodes[i]
                    }),
            decreases ids.len() - k,
        {
            let s = ids[k];
            let ghost before = self.model().dnodes;
            proof {
                assert(ids@.to_set().contains(s));
                lemma_display_of(m, s);
                lemma_sim_of(m, m.index[m.snodes[s].label]);
                lemma_take_contains(ids@, k as int);
            }
            match directed_node_weight(&self.sim, s) {
                Some(node) => {
                    let position = node.position;
                    match self.node_label_to_index_map.get(node.payload.label.as_str()) {
                        Some(d) => {
                            let d = *d;
                            let _ = self.g.set_position(d, position);
                            proof {
                                let after = self.model().dnodes;
                                assert(after.dom() =~= m.dnodes.dom());
                                lemma_same_labels_wf(m, after, m.snodes);
                            }
                        },
                        None => {
                            assert(false);
                        },
                    }
                },
                None => {
                    assert(false);
                },
            }
            k = k + 1;
        }
        proof {
            assert(ids@.take(ids.len() as int) =~= ids@);
            assert forall|i: u32| m.dnodes.contains_key(i) implies ids@.contains(m.sim_of(i)) by {
                lemma_sim_of(m, i);
                assert(ids@.to_set().contains(m.sim_of(i)));
            }
            assert(self.model().dnodes =~= placed_as(m.dnodes, m.snodes, m.sim_index));
        }
    }

    /// Copies the position of every display node to the simulation node
    /// that bears its label. The solver has to forget its velocities then.
    pub fn sync_egui_positions_to_fdg(&mut self)
        requires
            old(self).wf(),
        ensures
            final(self).wf(),
            final(self).same_frame(old(self)),
            final(self).shown_node_count() == old(self).shown_node_count(),
            final(self).shown_edge_count() == old(self).shown_edge_count(),
            final(self).model() == (Model {
                snodes: placed_as(old(self).model().snodes, old(self).model().dnodes, old(self).model().index),
                ..old(self).model()
            }),
    {
        let ghost m = self.model();
        let ids = self.g.node_indices();
        let mut k: usize = 0;
        while k < ids.len()
            invariant
                k <= ids.len(),
                m.wf(),
                m == old(self).model(),
                lists_keys(ids@, m.dnodes.dom()),
                self.wf(),
                self.same_frame(old(self)),
                self.shown_node_count() == old(self).shown_node_count(),
                self.shown_edge_count() == old(self).shown_edge_count(),
                self.model() == (Model { snodes: self.model().snodes, ..m }),
                self.model().snodes.dom() == m.snodes.dom(),
                forall|j: u32| #[trigger]
                    m.snodes.contains_key(j) ==> self.model().snodes[j] == (if ids@.take(
                        k as int,
                    ).contains(m.index[m.snodes[j].label]) {
                        NodeView {
                            position: m.dnodes[m.index[m.snodes[j].label]].position,
                            ..m.snodes[j]
                        }
                    } else {
                        m.snodes[j]
                    }),
            decreases ids.len() - k,
        {
            let d = ids[k];
            proof {
                assert(ids@.to_set().contains(d));
                lemma_sim_of(m, d);
                lemma_take_contains(ids@, k as int);
                assert forall|j: u32| m.snodes.contains_key(j) && m.index[m.snodes[j].label]
                    == d implies j == m.sim_of(d) by {
                    lemma_display_of(m, j);
                }
            }
            match self.g.node(d) {
                Some(node) => {
                    let position = node.position;
                    match self.sim_label_to_index_map.get(node.payload.label.as_str()) {
                        Some(s) => {
                            let s = *s;
                            let _ = directed_set_position(&mut self.sim, s, position);
                            proof {
                                let after = self.model().snodes;
                                assert(after.dom() =~= m.snodes.dom());
                                lemma_same_labels_wf(m, m.dnodes, after);
                            }
                        },
                        None => {
                            assert(false);
                        },
                    }
                },
                None => {
                    assert(false);
                },
            }
            k = k + 1;
        }
        proof {
            assert(ids@.take(ids.len() as int) =~= ids@);
            assert forall|j: u32| m.snodes.contains_key(j) implies ids@.contains(
                m.index[m.snodes[j].label],
            ) by {
                lemma_display_of(m, j);
                assert(ids@.to_set().contains(m.index[m.snodes[j].label]));
            }
            assert(self.model().snodes =~= placed_as(m.snodes, m.dnodes, m.index));
        }
    }

    /// Applies the report that the user moved a display node: the
    /// simulation node that stands for it takes the reported position, and
    /// its identifier is returned, for the solver to forget its velocity. A
    /// report on a node that the display graph does not hold changes nothing.
    pub fn apply_node_move(&mut self, moved: NodeMoved) -> (touched: Option<u32>)
        requires
            old(self).wf(),
        ensures
            final(self).wf(),
            final(self).same_frame(old(self)),
            final(self).shown_node_count() == old(self).shown_node_count(),
            final(self).shown_edge_count() == old(self).shown_edge_count(),
            final(self).model() == after_move(old(self).model(), moved),
            touched is Some <==> applies(old(self).model(), moved),
            (match touched {
                Some(s) => {
                    let m = old(self).model();
                    &&& moved.node_id <= u32::MAX
                    &&& m.dnodes.contains_key(moved.node_id as u32)
                    &&& s == m.sim_of(moved.node_id as u32)
                    &&& m.snodes.contains_key(s)
                    &&& final(self).model() == (Model {
                        snodes: m.snodes.insert(s, NodeView { position: moved.position, ..m.snodes[s] }),
                        ..m
                    })
                },
                None => {
                    &&& !(moved.node_id <= u32::MAX && old(self).model().dnodes.contains_key(
                        moved.node_id as u32,
                    ))
                    &&& *final(self) == *old(self)
                },
            }),
    {
        if moved.node_id > u32::MAX as usize {
            return None;
        }
        let d = moved.node_id as u32;
        let ghost m = self.model();
        match self.g.node(d) {
            None => None,
            Some(node) => {
                proof {
                    lemma_sim_of(m, d);
                }
                match self.sim_label_to_index_map.get(node.payload.label.as_str()) {
                    None => {
                        assert(false);
                        None
                    },
                    Some(s) => {
                        let s = *s;
                        let _ = directed_set_position(&mut self.sim, s, moved.position);
                        proof {
                            let after = self.model().snodes;
                            assert(after.dom() =~= m.snodes.dom());
                            lemma_same_labels_wf(m, m.dnodes, after);
                        }
                        Some(s)
                    },
                }
            },
        }
    }

    /// Takes from the event intake the reports that wait there, applies
    /// each report of a moved node in the order in which it was taken, and
    /// returns the simulation nodes that the reports placed, whose velocity
    /// the solver has to forget. Which reports wait in the intake is for the
    /// interaction surface to say; whatever they are, the session ends as
    /// applying them one after the other leaves it, so that nothing but
    /// positions of simulation nodes changes and every node that was placed
    /// is returned.
    pub fn handle_events(&mut self) -> (touched: Vec<u32>)
        requires
            old(self).wf(),
        ensures
            final(self).wf(),
            final(self).same_frame(old(self)),
            final(self).shown_node_count() == old(self).shown_node_count(),
            final(self).shown_edge_count() == old(self).shown_edge_count(),
            exists|reports: Seq<NodeMoved>|
                final(self).model() == #[trigger] after_moves(old(self).model(), reports) && touched@
                    == touched_by(old(self).model(), reports),
            final(self).model() == (Model { snodes: final(self).model().snodes, ..old(self).model() }),
            moved_only(old(self).model().snodes, final(self).model().snodes),
            forall|i: int|
                0 <= i < touched@.len() ==> final(self).model().snodes.contains_key(#[trigger] touched@[i]),
    {
        let waiting = pending(&self.event_consumer);
        let mut touched: Vec<u32> = Vec::new();
        let mut taken: usize = 0;
        let mut open = true;
        let ghost mut reports: Seq<NodeMoved> = Seq::empty();
        while open && taken < waiting
            invariant
                self.wf(),
                self.same_frame(old(self)),
                self.shown_node_count() == old(self).shown_node_count(),
                self.shown_edge_count() == old(self).shown_edge_count(),
                self.model() == after_moves(old(self).model(), reports),
                touched@ == touched_by(old(self).model(), reports),
                self.model() == (Model { snodes: self.model().snodes, ..old(self).model() }),
                moved_only(old(self).model().snodes, self.model().snodes),
                forall|i: int|
                    0 <= i < touched@.len() ==> self.model().snodes.contains_key(#[trigger] touched@[i]),
            decreases waiting - taken,
        {
            match try_receive(&self.event_consumer) {
                None => {
                    open = false;
                },
                Some(Incoming::NodeMoved(moved)) => {
                    let ghost before = self.model().snodes;
                    proof {
                        assert(reports.push(moved).drop_last() =~= reports);
                        assert(reports.push(moved).last() == moved);
                        reports = reports.push(moved);
                    }
                    match self.apply_node_move(moved) {
                        Some(s) => {
                            touched.push(s);
                            proof {
                                let first = old(self).model().snodes;
                                let after = self.model().snodes;
                                assert(after.dom() =~= before.dom());
                                assert forall|i: u32| #[trigger] first.contains_key(i) implies after[i].label
                                    == first[i].label && after[i].weight == first[i].weight by {
                                    assert(before.contains_key(i));
                                }
                            }
                        },
                        None => {},
                    }
                },
                Some(Incoming::Other) => {},
            }
            taken = taken + 1;
        }
        touched
    }

    /// Takes over what one step of the solver did: every simulation node
    /// named in `step` moves to the position given for it. While the solver
    /// is paused nothing changes.
    pub fn update_simulation(&mut self, step: &Vec<Placement>)
        requires
            old(self).wf(),
        ensures
            final(self).wf(),
            final(self).same_frame(old(self)),
            final(self).shown_node_count() == old(self).shown_node_count(),
            final(self).shown_edge_count() == old(self).shown_edge_count(),
            old(self).stopped() ==> *final(self) == *old(self),
            !old(self).stopped() ==> final(self).model() == (Model {
                snodes: placed(old(self).model().snodes, step@),
                ..old(self).model()
            }),
    {
        if self.simulation_stopped {
            return ;
        }
        let ghost m = self.model();
        let mut k: usize = 0;
        while k < step.len()
            invariant
                k <= step.len(),
                m.wf(),
                m == old(self).model(),
                self.wf(),
                self.same_frame(old(self)),
                self.shown_node_count() == old(self).shown_node_count(),
                self.shown_edge_count() == old(self).shown_edge_count(),
                self.model() == (Model { snodes: placed(m.snodes, step@.take(k as int)), ..m }),
            decreases step.len() - k,
        {
            let placement = step[k];
            proof {
                assert(step@.take(k + 1).drop_last() =~= step@.take(k as int));
                assert(step@.take(k + 1).last() == placement);
                lemma_placed_moved_only(m.snodes, step@.take(k + 1));
            }
            let _ = directed_set_position(&mut self.sim, placement.node, placement.position);
            proof {
                lemma_same_labels_wf(m, m.dnodes, placed(m.snodes, step@.take(k + 1)));
            }
            k = k + 1;
        }
        proof {
            assert(step@.take(step.len() as int) =~= step@);
        }
    }

    /// Empties both graphs, the indexes and the selection; the display
    /// graph becomes directed or undirected as `directed` says.
    fn clear_graphs(&mut self, directed: bool)
        ensures
            final(self).wf(),
            final(self).model() == Model::empty(),
            final(self).directed() == directed,
            final(self).wants_directed() == old(self).wants_directed(),
            final(self).stopped() == old(self).stopped(),
            final(self).solver() == old(self).solver(),
            final(self).intake() == old(self).intake(),
            final(self).selected_node_ids() == Seq::<u32>::empty(),
            final(self).selected_edge_ids() == Seq::<u32>::empty(),
            final(self).shown_node_count() == 0,
            final(self).shown_edge_count() == 0,
    {
        broadcast use vstd::std_specs::hash::group_hash_axioms;

        self.g = AppGraph::new(directed);
        self.sim = directed_new();
        self.node_label_to_index_map.clear();
        self.sim_label_to_index_map.clear();
        self.sim_edge_of.clear();
        self.display_edge_of = Ghost(Map::empty());
        self.selected_nodes = Vec::new();
        self.selected_edges = Vec::new();
        self.graph_nodes_count = 0;
        self.graph_edges_count = 0;
        proof {
            lemma_empty_wf();
        }
    }

    /// Adds the generated edge that the draws `s` and `t` ask for: an edge
    /// of weight `weight` from the `s`-th generated node to the `t`-th one.
    /// Two equal draws ask for a self-loop and add nothing, and so does a
    /// draw of a node that the graph does not hold.
    pub fn add_drawn_edge(&mut self, s: usize, t: usize, weight: Scalar) -> (added: Option<u32>)
        requires
            old(self).wf(),
            old(self).model().dedges.len() < u32::MAX,
        ensures
            final(self).wf(),
            final(self).same_frame(old(self)),
            final(self).shown_node_count() == old(self).shown_node_count(),
            (match added {
                Some(e) => {
                    let m = old(self).model();
                    let f = final(self).model().edge_map[e];
                    &&& s != t
                    &&& m.index.contains_key(node_label(s as nat))
                    &&& m.index.contains_key(node_label(t as nat))
                    &&& !m.dedges.contains_key(e)
                    &&& !m.sedges.contains_key(f)
                    &&& final(self).model() == m.with_edge(
                        e,
                        f,
                        EdgeView {
                            source: m.index[node_label(s as nat)],
                            target: m.index[node_label(t as nat)],
                            label: drawn_edge_label(s as nat, t as nat),
                            weight,
                        },
                    )
                    &&& final(self).shown_edge_count() == old(self).shown_edge_count() + 1
                },
                None => {
                    &&& s == t || !old(self).model().index.contains_key(node_label(s as nat)) || !old(
                        self,
                    ).model().index.contains_key(node_label(t as nat))
                    &&& *final(self) == *old(self)
                },
            }),
    {
        if s == t {
            return None;
        }
        let from = make_node_label(s);
        let to = make_node_label(t);
        proof {
            lemma_node_label_injective(s as nat, t as nat);
        }
        let label = make_drawn_edge_label(s, t);
        match self.link(&from, &to, EdgePayload { label, weight }) {
            Ok(e) => Some(e),
            Err(_) => None,
        }
    }

    /// Fills the empty graphs: one node for each seed, the `k`-th labelled
    /// `node_label(k)`, and then, for each weight of `edge_weights`, the edge
    /// that two random draws of nodes ask for. A draw of the same node twice
    /// adds no edge, so that fewer edges than weights may come out.
    fn populate_graph_data(&mut self, seeds: &Vec<NodeSeed>, edge_weights: &Vec<Scalar>)
        requires
            old(self).wf(),
            old(self).model() == Model::empty(),
            seeds.len() <= u32::MAX,
            edge_weights.len() <= u32::MAX,
        ensures
            final(self).wf(),
            final(self).same_frame(old(self)),
            generated(final(self).model(), seeds@),
            drawn(final(self).model(), seeds@.len(), edge_weights@),
            edges_mirrored(final(self).model()),
            final(self).shown_node_count() == seeds.len(),
            final(self).shown_edge_count() <= edge_weights.len(),
    {
        let n = seeds.len();
        let mut k: usize = 0;
        while k < n
            invariant
                k <= n,
                n == seeds.len(),
                n <= u32::MAX,
                self.wf(),
                self.same_frame(old(self)),
                self.shown_node_count() == k,
                self.shown_edge_count() == 0,
                self.model().dedges == Map::<u32, EdgeView>::empty(),
                self.model().sedges == Map::<u32, EdgeView>::empty(),
                generated(self.model(), seeds@.take(k as int)),
            decreases n - k,
        {
            let seed = seeds[k];
            let label = make_node_label(k);
            let ghost before = self.model();
            proof {
                lemma_node_label_injective(k as nat, k as nat);
                if before.index.contains_key(label@) {
                    let j = choose|j: nat| j < k && #[trigger] node_label(j) == label@;
                    lemma_node_label_injective(j, k as nat);
                }
            }
            let r = self.add_node_ui(label, seed.weight, seed.position, seed.sim_position);
            proof {
                assert(r is Ok);
                lemma_generated_step(before, self.model(), seeds@, k as nat, r->Ok_0);
            }
            k = k + 1;
        }
        proof {
            assert(seeds@.take(n as int) =~= seeds@);
        }
        if n > 0 {
            let ghost filled = self.model();
            let mut a: usize = 0;
            while a < edge_weights.len()
                invariant
                    a <= edge_weights.len(),
                    edge_weights.len() <= u32::MAX,
                    n > 0,
                    self.wf(),
                    self.same_frame(old(self)),
                    self.shown_node_count() == n,
                    self.shown_edge_count() <= a,
                    self.model().dnodes == filled.dnodes,
                    self.model().snodes == filled.snodes,
                    self.model().index == filled.index,
                    self.model().sim_index == filled.sim_index,
                    drawn(self.model(), n as nat, edge_weights@),
                    edges_mirrored(self.model()),
                decreases edge_weights.len() - a,
            {
                let s = random_below(&mut self.rng, n);
                let t = random_below(&mut self.rng, n);
                let ghost before = self.model();
                let added = self.add_drawn_edge(s, t, edge_weights[a]);
                proof {
                    if added is Some {
                        let now = self.model();
                        lemma_with_edge_mirrored(
                            before,
                            added->0,
                            now.edge_map[added->0],
                            now.dedges[added->0],
                        );
                        assert(edge_weights@[a as int] == now.dedges[added->0].weight);
                        assert forall|e: u32| #[trigger] now.dedges.contains_key(e) implies joins_drawn(
                            now,
                            e,
                            n as nat,
                        ) && edge_weights@.contains(now.dedges[e].weight) by {
                            if e == added->0 {
                                assert(is_drawn(now, e, s as nat, t as nat));
                            } else {
                                assert(before.dedges.contains_key(e));
                                let (p, q) = choose|p: nat, q: nat|
                                    p < n && q < n && #[trigger] is_drawn(before, e, p, q);
                                assert(is_drawn(now, e, p, q));
                            }
                        }
                    }
                }
                a = a + 1;
            }
        }
    }

    /// Generates the graph anew: empties both graphs and fills them from
    /// the seeds and the weights, as `populate_graph_data` does. The display
    /// graph takes the topology that the session is meant to have.
    pub fn reset_graph_and_simulation(&mut self, seeds: &Vec<NodeSeed>, edge_weights: &Vec<Scalar>)
        requires
            seeds.len() <= u32::MAX,
            edge_weights.len() <= u32::MAX,
        ensures
            final(self).wf(),
            final(self).directed() == old(self).wants_directed(),
            final(self).wants_directed() == old(self).wants_directed(),
            final(self).stopped() == old(self).stopped(),
            final(self).solver() == old(self).solver(),
            final(self).intake() == old(self).intake(),
            final(self).selected_node_ids() == Seq::<u32>::empty(),
            final(self).selected_edge_ids() == Seq::<u32>::empty(),
            generated(final(self).model(), seeds@),
            drawn(final(self).model(), seeds@.len(), edge_weights@),
            edges_mirrored(final(self).model()),
            final(self).shown_node_count() == seeds.len(),
            final(self).shown_edge_count() <= edge_weights.len(),
    {
        let directed = self.is_directed;
        self.clear_graphs(directed);
        self.populate_graph_data(seeds, edge_weights);
    }

    /// Rebuilds both graphs so that the display graph has the topology that
    /// the session is meant to have. Every node keeps its label, its weight
    /// and its place; every edge joins the labels that it joined, with its
    /// payload; the simulation nodes take the places of the display nodes.
    /// Identifiers are assigned anew and the selection is emptied. The
    /// solver has to forget its velocities then.
    pub fn convert_graph_direction(&mut self)
        requires
            old(self).wf(),
        ensures
            final(self).wf(),
            final(self).directed() == old(self).wants_directed(),
            final(self).wants_directed() == old(self).wants_directed(),
            final(self).stopped() == old(self).stopped(),
            final(self).solver() == old(self).solver(),
            final(self).intake() == old(self).intake(),
            final(self).selected_node_ids() == Seq::<u32>::empty(),
            final(self).selected_edge_ids() == Seq::<u32>::empty(),
            converted(old(self).model(), final(self).model()),
            final(self).shown_node_count() == old(self).shown_node_count(),
            final(self).shown_edge_count() == old(self).shown_edge_count(),
    {
        let ghost m = self.model();
        let node_ids = self.g.node_indices();
        let mut old_nodes: Vec<PlacedNode> = Vec::new();
        let mut k: usize = 0;
        while k < node_ids.len()
            invariant
                k <= node_ids.len(),
                old_nodes@.len() == k,
                m == self.model(),
                lists_keys(node_ids@, m.dnodes.dom()),
                forall|j: int| 0 <= j < k ==> (#[trigger] old_nodes@[j])@ == m.dnodes[node_ids@[j]],
            decreases node_ids.len() - k,
        {
            proof {
                assert(node_ids@.to_set().contains(node_ids@[k as int]));
            }
            match self.g.node(node_ids[k]) {
                Some(node) => {
                    old_nodes.push(node.clone());
                },
                None => {
                    assert(false);
                },
            }
            k = k + 1;
        }
        let edge_ids = self.g.edge_indices();
        let mut old_edges: Vec<Connection> = Vec::new();
        k = 0;
        while k < edge_ids.len()
            invariant
                k <= edge_ids.len(),
                old_edges@.len() == k,
                m == self.model(),
                self.wf(),
                lists_keys(edge_ids@, m.dedges.dom()),
                forall|j: int|
                    0 <= j < k ==> (#[trigger] old_edges@[j]).link() == link_of(
                        m.dnodes,
                        m.dedges[edge_ids@[j]],
                    ),
            decreases edge_ids.len() - k,
        {
            let e = edge_ids[k];
            proof {
                assert(edge_ids@.to_set().contains(e));
                assert(m.dedges.contains_key(e));
            }
            match (self.g.edge_endpoints(e), self.g.edge(e)) {
                (Some((a, b)), Some(payload)) => {
                    match (self.g.node(a), self.g.node(b)) {
                        (Some(from), Some(to)) => {
                            old_edges.push(
                                Connection {
                                    from: from.payload.label.clone(),
                                    to: to.payload.label.clone(),
                                    payload: payload.clone(),
                                },
                            );
                        },
                        _ => {
                            assert(false);
                        },
                    }
                },
                _ => {
                    assert(false);
                },
            }
            k = k + 1;
        }
        proof {
            lemma_links_of_all(m.dnodes, m.dedges, edge_ids@);
            node_ids@.unique_seq_to_set();
        }
        let directed = self.is_directed;
        self.clear_graphs(directed);
        k = 0;
        while k < old_nodes.len()
            invariant
                k <= old_nodes.len(),
                old_nodes@.len() == node_ids@.len(),
                node_ids@.len() == m.dnodes.len(),
                m.dnodes.len() <= u32::MAX,
                m.wf(),
                lists_keys(node_ids@, m.dnodes.dom()),
                forall|j: int|
                    0 <= j < old_nodes@.len() ==> (#[trigger] old_nodes@[j])@ == m.dnodes[node_ids@[j]],
                self.wf(),
                self.directed() == directed,
                self.wants_directed() == old(self).wants_directed(),
                self.stopped() == old(self).stopped(),
                self.solver() == old(self).solver(),
                self.intake() == old(self).intake(),
                self.selected_node_ids() == Seq::<u32>::empty(),
                self.selected_edge_ids() == Seq::<u32>::empty(),
                self.shown_node_count() == k,
                self.shown_edge_count() == 0,
                self.model().edge_map == Map::<u32, u32>::empty(),
                self.model().edge_inv == Map::<u32, u32>::empty(),
                carried_over(m, self.model(), node_ids@.take(k as int)),
            decreases old_nodes.len() - k,
        {
            let ghost prev = self.model();
            proof {
                lemma_carried_over_fresh(m, prev, node_ids@, k as int);
                assert(old_nodes@[k as int]@ == m.dnodes[node_ids@[k as int]]);
            }
            let label = old_nodes[k].payload.label.clone();
            let weight = old_nodes[k].payload.weight;
            let position = old_nodes[k].position;
            let r = self.add_node_ui(label, weight, position, position);
            proof {
                assert(r is Ok);
                lemma_carried_over_step(m, prev, self.model(), node_ids@, k as int, r->Ok_0);
            }
            k = k + 1;
        }
        let ghost rebuilt = self.model();
        proof {
            assert(node_ids@.take(node_ids@.len() as int) =~= node_ids@);
            lemma_carried_over_all(m, rebuilt, node_ids@);
            lemma_links_empty(rebuilt.dnodes);
            assert(links_of_first(m.dnodes, m.dedges, edge_ids@, 0) =~= Set::<Link>::empty());
            assert forall|l: Link| #[trigger]
                link_count(rebuilt.dnodes, rebuilt.dedges, l) == count_first(
                    m.dnodes,
                    m.dedges,
                    edge_ids@,
                    0,
                    l,
                ) by {
                lemma_link_count_empty(rebuilt.dnodes, l);
            }
        }
        k = 0;
        while k < old_edges.len()
            invariant
                k <= old_edges.len(),
                old_edges@.len() == edge_ids@.len(),
                edge_ids@.len() == m.dedges.len(),
                m.dedges.len() <= u32::MAX,
                m.wf(),
                rebuilt.wf(),
                rebuilt.labels() == m.labels(),
                rebuilt.display_by_label() == m.display_by_label(),
                lists_keys(edge_ids@, m.dedges.dom()),
                forall|j: int|
                    0 <= j < old_edges@.len() ==> (#[trigger] old_edges@[j]).link() == link_of(
                        m.dnodes,
                        m.dedges[edge_ids@[j]],
                    ),
                self.wf(),
                self.directed() == directed,
                self.wants_directed() == old(self).wants_directed(),
                self.stopped() == old(self).stopped(),
                self.solver() == old(self).solver(),
                self.intake() == old(self).intake(),
                self.selected_node_ids() == Seq::<u32>::empty(),
                self.selected_edge_ids() == Seq::<u32>::empty(),
                self.shown_node_count() == old(self).shown_node_count(),
                self.shown_edge_count() == k,
                self.model().dnodes == rebuilt.dnodes,
                self.model().snodes == rebuilt.snodes,
                self.model().index == rebuilt.index,
                self.model().sim_index == rebuilt.sim_index,
                self.model().display_links() == links_of_first(m.dnodes, m.dedges, edge_ids@, k as int),
                edges_mirrored(self.model()),
                forall|l: Link| #[trigger]
                    link_count(self.model().dnodes, self.model().dedges, l) == count_first(
                        m.dnodes,
                        m.dedges,
                        edge_ids@,
                        k as int,
                        l,
                    ),
            decreases old_edges.len() - k,
        {
            let ghost prev = self.model();
            let ghost e = edge_ids@[k as int];
            proof {
                assert(edge_ids@.to_set().contains(e));
                assert(m.dedges.contains_key(e));
                assert(old_edges@[k as int].link() == link_of(m.dnodes, m.dedges[e]));
                let a = m.dedges[e].source;
                let b = m.dedges[e].target;
                assert(m.dnodes.contains_key(a) && m.dnodes.contains_key(b));
                assert(m.index.contains_key(m.dnodes[a].label));
                assert(m.index.contains_key(m.dnodes[b].label));
                assert(rebuilt.index.dom().contains(m.dnodes[a].label));
                assert(rebuilt.index.dom().contains(m.dnodes[b].label));
                lemma_links_of_first_step(m.dnodes, m.dedges, edge_ids@, k as int);
            }
            let payload = old_edges[k].payload.clone();
            match self.link(&old_edges[k].from, &old_edges[k].to, payload) {
                Ok(added) => {
                    proof {
                        let from = old_edges@[k as int].from@;
                        let to = old_edges@[k as int].to@;
                        let edge = edge_view(prev.index[from], prev.index[to], payload@);
                        assert(prev.index.contains_key(from) && prev.index.contains_key(to));
                        assert(prev.dnodes[prev.index[from]].label == from);
                        assert(prev.dnodes[prev.index[to]].label == to);
                        lemma_links_insert(prev.dnodes, prev.dedges, added, edge);
                        lemma_with_edge_mirrored(prev, added, self.model().edge_map[added], edge);
                        assert(link_of(prev.dnodes, edge) == link_of(m.dnodes, m.dedges[e]));
                        assert forall|l: Link| #[trigger]
                            link_count(self.model().dnodes, self.model().dedges, l) == count_first(
                                m.dnodes,
                                m.dedges,
                                edge_ids@,
                                k + 1,
                                l,
                            ) by {
                            lemma_link_count_insert(prev.dnodes, prev.dedges, added, edge, l);
                            assert(link_count(prev.dnodes, prev.dedges, l) == count_first(
                                m.dnodes,
                                m.dedges,
                                edge_ids@,
                                k as int,
                                l,
                            ));
                        }
                    }
                },
                Err(_) => {
                    assert(false);
                },
            }
            k = k + 1;
        }
        proof {
            let now = self.model();
            assert(now.labels() == m.labels());
            assert forall|l: Link| #[trigger]
                link_count(now.dnodes, now.dedges, l) == link_count(m.dnodes, m.dedges, l) by {
                lemma_count_first_all(m.dnodes, m.dedges, edge_ids@, l);
                assert(link_count(now.dnodes, now.dedges, l) == count_first(
                    m.dnodes,
                    m.dedges,
                    edge_ids@,
                    edge_ids@.len() as int,
                    l,
                ));
            }
            assert(now.display_by_label() =~= rebuilt.display_by_label());
            assert(now.sim_by_label() =~= rebuilt.sim_by_label());
        }
    }

    /// The weight of the display node `node_idx`, to be changed in place.
    /// The label of a node cannot be changed.
    pub fn get_node_payload_mut(&mut self, node_idx: u32) -> (weight: Option<&mut Scalar>)
        requires
            old(self).wf(),
        ensures
            final(self).wf(),
            final(self).same_frame(old(self)),
            final(self).shown_node_count() == old(self).shown_node_count(),
            final(self).shown_edge_count() == old(self).shown_edge_count(),
            weight is Some <==> old(self).model().dnodes.contains_key(node_idx),
            weight is Some ==> *(weight->0) == old(self).model().dnodes[node_idx].weight,
            weight is Some ==> final(self).model() == (Model {
                dnodes: old(self).model().dnodes.insert(
                    node_idx,
                    NodeView { weight: *final(weight->0), ..old(self).model().dnodes[node_idx] },
                ),
                ..old(self).model()
            }),
            weight is None ==> *final(self) == *old(self),
    {
        let ghost m = self.model();
        match self.g.node_weight_mut(node_idx) {
            Some(weight) => {
                proof {
                    let after = m.dnodes.insert(
                        node_idx,
                        NodeView { weight: *final(weight), ..m.dnodes[node_idx] },
                    );
                    assert(after.dom() =~= m.dnodes.dom());
                    lemma_same_labels_wf(m, after, m.snodes);
                }
                Some(weight)
            },
            None => None,
        }
    }

    /// The weight of the display edge `edge_idx`, to be changed in place.
    /// The label and the ends of an edge cannot be changed.
    pub fn get_edge_payload_mut(&mut self, edge_idx: u32) -> (weight: Option<&mut Scalar>)
        requires
            old(self).wf(),
        ensures
            final(self).wf(),
            final(self).same_frame(old(self)),
            final(self).shown_node_count() == old(self).shown_node_count(),
            final(self).shown_edge_count() == old(self).shown_edge_count(),
            weight is Some <==> old(self).model().dedges.contains_key(edge_idx),
            weight is Some ==> *(weight->0) == old(self).model().dedges[edge_idx].weight,
            weight is Some ==> final(self).model() == (Model {
                dedges: old(self).model().dedges.insert(
                    edge_idx,
                    EdgeView { weight: *final(weight->0), ..old(self).model().dedges[edge_idx] },
                ),
                ..old(self).model()
            }),
            weight is None ==> *final(self) == *old(self),
    {
        let ghost m = self.model();
        match self.g.edge_weight_mut(edge_idx) {
            Some(weight) => {
                proof {
                    let after = m.dedges.insert(
                        edge_idx,
                        EdgeView { weight: *final(weight), ..m.dedges[edge_idx] },
                    );
                    assert(after.dom() =~= m.dedges.dom());
                    lemma_same_edges_wf(m, after, m.sedges);
                }
                Some(weight)
            },
            None => None,
        }
    }

    /// Gives the simulation copy of the display node `node_idx` the weight
    /// of `new_payload`. A payload with another label than the node's is
    /// refused, and so is a node that the display graph does not hold.
    pub fn update_fdg_node_payload(&mut self, node_idx: u32, new_payload: NodePayload) -> (r: Result<
        (),
        GraphError,
    >)
        requires
            old(self).wf(),
        ensures
            final(self).wf(),
            final(self).same_frame(old(self)),
            final(self).shown_node_count() == old(self).shown_node_count(),
            final(self).shown_edge_count() == old(self).shown_edge_count(),
            (match r {
                Ok(_) => {
                    let m = old(self).model();
                    let s = m.sim_of(node_idx);
                    &&& m.dnodes.contains_key(node_idx)
                    &&& m.dnodes[node_idx].label == new_payload.label@
                    &&& m.snodes.contains_key(s)
                    &&& final(self).model() == (Model {
                        snodes: m.snodes.insert(s, NodeView { weight: new_payload.weight, ..m.snodes[s] }),
                        ..m
                    })
                },
                Err(GraphError::NotFound) => !old(self).model().dnodes.contains_key(node_idx) && *final(self) == *old(self),
                Err(GraphError::InvalidOperation) => {
                    &&& old(self).model().dnodes.contains_key(node_idx)
                    &&& old(self).model().dnodes[node_idx].label != new_payload.label@
                    &&& *final(self) == *old(self)
                },
                Err(_) => false,
            }),
    {
        let ghost m = self.model();
        match self.g.node(node_idx) {
            None => Err(GraphError::NotFound),
            Some(node) => {
                if !(node.payload.label == new_payload.label) {
                    return Err(GraphError::InvalidOperation);
                }
                proof {
                    lemma_sim_of(m, node_idx);
                }
                match self.sim_label_to_index_map.get(new_payload.label.as_str()) {
                    None => {
                        assert(false);
                        Err(GraphError::InternalInconsistency)
                    },
                    Some(s) => {
                        let s = *s;
                        let _ = directed_set_node_weight(&mut self.sim, s, new_payload.weight);
                        proof {
                            let after = self.model().snodes;
                            assert(after.dom() =~= m.snodes.dom());
                            lemma_same_labels_wf(m, m.dnodes, after);
                        }
                        Ok(())
                    },
                }
            },
        }
    }

    /// Gives the simulation copy of the display edge `edge_idx` the weight
    /// of `new_payload`. A payload with another label than the edge's is
    /// refused, and so is an edge that the display graph does not hold.
    pub fn update_fdg_edge_payload(&mut self, edge_idx: u32, new_payload: EdgePayload) -> (r: Result<
        (),
        GraphError,
    >)
        requires
            old(self).wf(),
        ensures
            final(self).wf(),
            final(self).same_frame(old(self)),
            final(self).shown_node_count() == old(self).shown_node_count(),
            final(self).shown_edge_count() == old(self).shown_edge_count(),
            (match r {
                Ok(_) => {
                    let m = old(self).model();
                    let f = m.edge_map[edge_idx];
                    &&& m.dedges.contains_key(edge_idx)
                    &&& m.dedges[edge_idx].label == new_payload.label@
                    &&& m.sedges.contains_key(f)
                    &&& final(self).model() == (Model {
                        sedges: m.sedges.insert(f, EdgeView { weight: new_payload.weight, ..m.sedges[f] }),
                        ..m
                    })
                },
                Err(GraphError::NotFound) => !old(self).model().dedges.contains_key(edge_idx) && *final(self) == *old(self),
                Err(GraphError::InvalidOperation) => {
                    &&& old(self).model().dedges.contains_key(edge_idx)
                    &&& old(self).model().dedges[edge_idx].label != new_payload.label@
                    &&& *final(self) == *old(self)
                },
                Err(_) => false,
            }),
    {
        broadcast use vstd::std_specs::hash::group_hash_axioms;

        let ghost m = self.model();
        match self.g.edge(edge_idx) {
            None => Err(GraphError::NotFound),
            Some(payload) => {
                if !(payload.label == new_payload.label) {
                    return Err(GraphError::InvalidOperation);
                }
                match self.sim_edge_of.get(&edge_idx) {
                    None => {
                        assert(false);
                        Err(GraphError::InternalInconsistency)
                    },
                    Some(f) => {
                        let f = *f;
                        let _ = directed_set_edge_weight(&mut self.sim, f, new_payload.weight);
                        proof {
                            let after = self.model().sedges;
                            assert(after.dom() =~= m.sedges.dom());
                            lemma_same_edges_wf(m, m.dedges, after);
                        }
                        Ok(())
                    },
                }
            },
        }
    }

    /// Gives the node `node_idx` the weight `weight`, in both graphs.
    pub fn update_node_weight(&mut self, node_idx: u32, weight: Scalar) -> (r: Result<(), GraphError>)
        requires
            old(self).wf(),
        ensures
            final(self).wf(),
            final(self).same_frame(old(self)),
            final(self).shown_node_count() == old(self).shown_node_count(),
            final(self).shown_edge_count() == old(self).shown_edge_count(),
            (match r {
                Ok(_) => {
                    let m = old(self).model();
                    let s = m.sim_of(node_idx);
                    &&& m.dnodes.contains_key(node_idx)
                    &&& m.snodes.contains_key(s)
                    &&& final(self).model() == (Model {
                        dnodes: m.dnodes.insert(node_idx, NodeView { weight, ..m.dnodes[node_idx] }),
                        snodes: m.snodes.insert(s, NodeView { weight, ..m.snodes[s] }),
                        ..m
                    })
                },
                Err(GraphError::NotFound) => !old(self).model().dnodes.contains_key(node_idx) && *final(self) == *old(self),
                Err(_) => false,
            }),
    {
        let ghost m = self.model();
        let label = match self.g.node(node_idx) {
            None => {
                return Err(GraphError::NotFound);
            },
            Some(node) => node.payload.label.clone(),
        };
        proof {
            lemma_sim_of(m, node_idx);
        }
        let s = match self.sim_label_to_index_map.get(label.as_str()) {
            None => {
                assert(false);
                return Err(GraphError::InternalInconsistency);
            },
            Some(s) => *s,
        };
        let _ = self.g.set_node_weight(node_idx, weight);
        let _ = directed_set_node_weight(&mut self.sim, s, weight);
        proof {
            let dnodes = self.model().dnodes;
            let snodes = self.model().snodes;
            assert(dnodes.dom() =~= m.dnodes.dom());
            assert(snodes.dom() =~= m.snodes.dom());
            lemma_same_labels_wf(m, dnodes, snodes);
        }
        Ok(())
    }

    /// Gives the edge `edge_idx` the weight `weight`, in both graphs.
    pub fn update_edge_weight(&mut self, edge_idx: u32, weight: Scalar) -> (r: Result<(), GraphError>)
        requires
            old(self).wf(),
        ensures
            final(self).wf(),
            final(self).same_frame(old(self)),
            final(self).shown_node_count() == old(self).shown_node_count(),
            final(self).shown_edge_count() == old(self).shown_edge_count(),
            (match r {
                Ok(_) => {
                    let m = old(self).model();
                    let f = m.edge_map[edge_idx];
                    &&& m.dedges.contains_key(edge_idx)
                    &&& m.sedges.contains_key(f)
                    &&& final(self).model() == (Model {
                        dedges: m.dedges.insert(edge_idx, EdgeView { weight, ..m.dedges[edge_idx] }),
                        sedges: m.sedges.insert(f, EdgeView { weight, ..m.sedges[f] }),
                        ..m
                    })
                },
                Err(GraphError::NotFound) => !old(self).model().dedges.contains_key(edge_idx) && *final(self) == *old(self),
                Err(_) => false,
            }),
    {
        broadcast use vstd::std_specs::hash::group_hash_axioms;

        let ghost m = self.model();
        let f = match self.sim_edge_of.get(&edge_idx) {
            None => {
                return Err(GraphError::NotFound);
            },
            Some(f) => *f,
        };
        let _ = self.g.set_edge_weight(edge_idx, weight);
        let _ = directed_set_edge_weight(&mut self.sim, f, weight);
        proof {
            let dedges = self.model().dedges;
            let sedges = self.model().sedges;
            assert(dedges.dom() =~= m.dedges.dom());
            assert(sedges.dom() =~= m.sedges.dom());
            lemma_same_edges_wf(m, dedges, sedges);
        }
        Ok(())
    }

    /// A new session: a directed graph generated from the seeds and the
    /// weights, as `reset_graph_and_simulation` does, a running solver with
    /// the default settings, and an empty event intake.
    pub fn new(seeds: &Vec<NodeSeed>, edge_weights: &Vec<Scalar>) -> (app: BasicApp)
        requires
            seeds.len() <= u32::MAX,
            edge_weights.len() <= u32::MAX,
        ensures
            app.wf(),
            app.directed(),
            app.wants_directed(),
            !app.stopped(),
            app.solver() == (SolverSettings {
                dt: Scalar { bits: DEFAULT_DT_BITS },
                cooloff_factor: Scalar { bits: DEFAULT_COOLOFF_FACTOR_BITS },
                scale: Scalar { bits: DEFAULT_SCALE_BITS },
            }),
            app.selected_node_ids() == Seq::<u32>::empty(),
            app.selected_edge_ids() == Seq::<u32>::empty(),
            generated(app.model(), seeds@),
            drawn(app.model(), seeds@.len(), edge_weights@),
            edges_mirrored(app.model()),
            app.shown_node_count() == seeds.len(),
            app.shown_edge_count() <= edge_weights.len(),
    {
        let mut app = BasicApp::empty(
            SolverSettings {
                dt: Scalar { bits: DEFAULT_DT_BITS },
                cooloff_factor: Scalar { bits: DEFAULT_COOLOFF_FACTOR_BITS },
                scale: Scalar { bits: DEFAULT_SCALE_BITS },
            },
        );
        app.reset_graph_and_simulation(seeds, edge_weights);
        app
    }

    /// Whether the display graph is meant to be directed.
    pub fn is_directed(&self) -> (directed: bool)
        ensures
            directed == self.wants_directed(),
    {
        self.is_directed
    }

    /// Says which topology the display graph is meant to have. The graph
    /// itself changes at the next topology conversion or generation.
    pub fn set_directed(&mut self, directed: bool)
        requires
            old(self).wf(),
        ensures
            final(self).wf(),
            final(self).wants_directed() == directed,
            final(self).model() == old(self).model(),
            final(self).directed() == old(self).directed(),
            final(self).stopped() == old(self).stopped(),
            final(self).solver() == old(self).solver(),
            final(self).intake() == old(self).intake(),
            final(self).selected_node_ids() == old(self).selected_node_ids(),
            final(self).selected_edge_ids() == old(self).selected_edge_ids(),
            final(self).shown_node_count() == old(self).shown_node_count(),
            final(self).shown_edge_count() == old(self).shown_edge_count(),
    {
        self.is_directed = directed;
    }

    /// Whether the solver is paused.
    pub fn simulation_stopped(&self) -> (stopped: bool)
        ensures
            stopped == self.stopped(),
    {
        self.simulation_stopped
    }

    /// Pauses the solver, or lets it run again.
    pub fn pause_simulation(&mut self, stopped: bool)
        requires
            old(self).wf(),
        ensures
            final(self).wf(),
            final(self).stopped() == stopped,
            final(self).model() == old(self).model(),
            final(self).directed() == old(self).directed(),
            final(self).wants_directed() == old(self).wants_directed(),
            final(self).solver() == old(self).solver(),
            final(self).intake() == old(self).intake(),
            final(self).selected_node_ids() == old(self).selected_node_ids(),
            final(self).selected_edge_ids() == old(self).selected_edge_ids(),
            final(self).shown_node_count() == old(self).shown_node_count(),
            final(self).shown_edge_count() == old(self).shown_edge_count(),
    {
        self.simulation_stopped = stopped;
    }

    /// The settings of the solver.
    pub fn solver_settings(&self) -> (settings: SolverSettings)
        ensures
            settings == self.solver(),
    {
        SolverSettings { dt: self.sim_dt, cooloff_factor: self.sim_cooloff_factor, scale: self.sim_scale }
    }

    /// Changes the settings of the solver; they hold from its next step on.
    pub fn set_solver_settings(&mut self, settings: SolverSettings)
        requires
            old(self).wf(),
        ensures
            final(self).wf(),
            final(self).solver() == settings,
            final(self).intake() == old(self).intake(),
            final(self).model() == old(self).model(),
            final(self).directed() == old(self).directed(),
            final(self).wants_directed() == old(self).wants_directed(),
            final(self).stopped() == old(self).stopped(),
            final(self).selected_node_ids() == old(self).selected_node_ids(),
            final(self).selected_edge_ids() == old(self).selected_edge_ids(),
            final(self).shown_node_count() == old(self).shown_node_count(),
            final(self).shown_edge_count() == old(self).shown_edge_count(),
    {
        self.sim_dt = settings.dt;
        self.sim_cooloff_factor = settings.cooloff_factor;
        self.sim_scale = settings.scale;
    }

    /// The node count that the session shows: that of the display graph.
    pub fn graph_nodes_count(&self) -> (n: usize)
        requires
            self.wf(),
        ensures
            n == self.shown_node_count(),
            n == self.model().dnodes.len(),
            n == self.model().snodes.len(),
    {
        proof {
            lemma_counts_agree(self.model());
        }
        self.graph_nodes_count
    }

    /// The edge count that the session shows: that of the display graph.
    pub fn graph_edges_count(&self) -> (n: usize)
        requires
            self.wf(),
        ensures
            n == self.shown_edge_count(),
            n == self.model().dedges.len(),
            n == self.model().sedges.len(),
    {
        proof {
            lemma_counts_agree(self.model());
        }
        self.graph_edges_count
    }

    /// The display graph.
    pub fn display_graph(&self) -> (g: &AppGraph)
        ensures
            g.nodes() == self.model().dnodes,
            g.edges() == self.model().dedges,
            g.directed() == self.directed(),
    {
        &self.g
    }

    /// The simulation graph.
    pub fn sim_graph(&self) -> (g: &DirectedGraph)
        ensures
            directed_nodes(*g) == self.model().snodes,
            directed_edges(*g) == self.model().sedges,
    {
        &self.sim
    }

    /// The label index: the display node that bears `label`.
    pub fn node_index(&self, label: &str) -> (id: Option<u32>)
        ensures
            id is Some <==> self.model().index.contains_key(label@),
            id is Some ==> id->0 == self.model().index[label@],
    {
        match self.node_label_to_index_map.get(label) {
            Some(id) => Some(*id),
            None => None,
        }
    }

    /// The simulation node that bears `label`.
    pub fn sim_node_index(&self, label: &str) -> (id: Option<u32>)
        ensures
            id is Some <==> self.model().sim_index.contains_key(label@),
            id is Some ==> id->0 == self.model().sim_index[label@],
    {
        match self.sim_label_to_index_map.get(label) {
            Some(id) => Some(*id),
            None => None,
        }
    }

    /// The simulation edge that stands for the display edge `edge_idx`.
    pub fn sim_edge_index(&self, edge_idx: u32) -> (id: Option<u32>)
        ensures
            id is Some <==> self.model().edge_map.contains_key(edge_idx),
            id is Some ==> id->0 == self.model().edge_map[edge_idx],
    {
        broadcast use vstd::std_specs::hash::group_hash_axioms;

        match self.sim_edge_of.get(&edge_idx) {
            Some(id) => Some(*id),
            None => None,
        }
    }

    /// The sending end of the event intake, for the interaction surface:
    /// the one that the session was made with.
    pub fn event_publisher(&self) -> (publisher: &Sender<Event>)
        ensures
            *publisher == self.intake(),
    {
        &self.event_publisher
    }

    /// The selected display nodes.
    pub fn selected_nodes(&self) -> (ids: &Vec<u32>)
        ensures
            ids@ == self.selected_node_ids(),
    {
        &self.selected_nodes
    }

    /// The selected display edges.
    pub fn selected_edges(&self) -> (ids: &Vec<u32>)
        ensures
            ids@ == self.selected_edge_ids(),
    {
        &self.selected_edges
    }

    /// Replaces the selection of nodes.
    pub fn set_selected_nodes(&mut self, nodes: Vec<u32>)
        requires
            old(self).wf(),
        ensures
            final(self).wf(),
            final(self).model() == old(self).model(),
            final(self).selected_node_ids() == nodes@,
            final(self).selected_edge_ids() == old(self).selected_edge_ids(),
            final(self).directed() == old(self).directed(),
            final(self).wants_directed() == old(self).wants_directed(),
            final(self).stopped() == old(self).stopped(),
            final(self).solver() == old(self).solver(),
            final(self).intake() == old(self).intake(),
            final(self).shown_node_count() == old(self).shown_node_count(),
            final(self).shown_edge_count() == old(self).shown_edge_count(),
    {
        self.selected_nodes = nodes;
    }

    /// Replaces the selection of edges.
    pub fn set_selected_edges(&mut self, edges: Vec<u32>)
        requires
            old(self).wf(),
        ensures
            final(self).wf(),
            final(self).model() == old(self).model(),
            final(self).selected_node_ids() == old(self).selected_node_ids(),
            final(self).selected_edge_ids() == edges@,
            final(self).directed() == old(self).directed(),
            final(self).wants_directed() == old(self).wants_directed(),
            final(self).stopped() == old(self).stopped(),
            final(self).solver() == old(self).solver(),
            final(self).intake() == old(self).intake(),
            final(self).shown_node_count() == old(self).shown_node_count(),
            final(self).shown_edge_count() == old(self).shown_edge_count(),
    {
        self.selected_edges = edges;
    }
}

/// An edge taken out of a graph that is about to be rebuilt: the labels of
/// its two ends and its payload.
struct Connection {
    from: String,
    to: String,
    payload: EdgePayload,
}

impl Connection {
    /// The edge, told by labels.
    spec fn link(&self) -> Link {
        Link { from: self.from@, to: self.to@, label: self.payload.label@, weight: self.payload.weight }
    }
}

/// The nodes of `m` are the generated nodes of the seeds `seeds`: the `k`-th
/// is labelled `node_label(k)` and has the weight and the two places of the
/// `k`-th seed, and there is no other node.
pub open spec fn generated(m: Model, seeds: Seq<NodeSeed>) -> bool {
    &&& forall|l: Seq<char>| #[trigger]
        m.index.contains_key(l) <==> exists|j: nat| j < seeds.len() && #[trigger] node_label(j) == l
    &&& forall|j: nat|
        j < seeds.len() ==> {
            let l = #[trigger] node_label(j);
            &&& m.dnodes[m.index[l]] == NodeView {
                label: l,
                weight: seeds[j as int].weight,
                position: seeds[j as int].position,
            }
            &&& m.snodes[m.sim_index[l]] == NodeView {
                label: l,
                weight: seeds[j as int].weight,
                position: seeds[j as int].sim_position,
            }
        }
}

/// The edge `e` of `m` is the generated edge between the `s`-th and the
/// `t`-th generated node.
pub open spec fn is_drawn(m: Model, e: u32, s: nat, t: nat) -> bool {
    &&& s != t
    &&& m.dnodes[m.dedges[e].source].label == node_label(s)
    &&& m.dnodes[m.dedges[e].target].label == node_label(t)
    &&& m.dedges[e].label == drawn_edge_label(s, t)
}

/// The edge `e` of `m` is a generated edge between two of the first `nodes`
/// generated nodes.
pub open spec fn joins_drawn(m: Model, e: u32, nodes: nat) -> bool {
    exists|s: nat, t: nat| s < nodes && t < nodes && #[trigger] is_drawn(m, e, s, t)
}

/// Every edge of `m` is a generated edge between two different ones of the
/// first `nodes` generated nodes, with one of the weights `weights`.
pub open spec fn drawn(m: Model, nodes: nat, weights: Seq<Scalar>) -> bool {
    forall|e: u32| #[trigger]
        m.dedges.contains_key(e) ==> joins_drawn(m, e, nodes) && weights.contains(m.dedges[e].weight)
}

/// Adding the generated node of the next seed keeps the nodes generated.
proof fn lemma_generated_step(before: Model, after: Model, seeds: Seq<NodeSeed>, k: nat, id: u32)
    requires
        k < seeds.len(),
        before.wf(),
        generated(before, seeds.take(k as int)),
        !before.dnodes.contains_key(id),
        !before.snodes.contains_key(after.sim_index[node_label(k)]),
        !before.index.contains_key(node_label(k)),
        after == before.with_node(
            id,
            after.sim_index[node_label(k)],
            NodeView {
                label: node_label(k),
                weight: seeds[k as int].weight,
                position: seeds[k as int].position,
            },
            NodeView {
                label: node_label(k),
                weight: seeds[k as int].weight,
                position: seeds[k as int].sim_position,
            },
        ),
    ensures
        generated(after, seeds.take(k as int + 1)),
{
    let prev = seeds.take(k as int);
    let next = seeds.take(k as int + 1);
    let new_label = node_label(k);
    assert forall|l: Seq<char>| #[trigger]
        after.index.contains_key(l) <==> exists|j: nat| j < next.len() && #[trigger] node_label(j) == l by {
        if after.index.contains_key(l) {
            if l == new_label {
                assert(k < next.len() && node_label(k) == l);
            } else {
                assert(before.index.contains_key(l));
                let j = choose|j: nat| j < prev.len() && #[trigger] node_label(j) == l;
                assert(j < next.len() && node_label(j) == l);
            }
        }
        if exists|j: nat| j < next.len() && #[trigger] node_label(j) == l {
            let j = choose|j: nat| j < next.len() && #[trigger] node_label(j) == l;
            if j < k {
                assert(j < prev.len() && node_label(j) == l);
                assert(before.index.contains_key(l));
            }
        }
    }
    assert forall|j: nat| j < next.len() implies {
        let l = #[trigger] node_label(j);
        &&& after.dnodes[after.index[l]] == NodeView {
            label: l,
            weight: next[j as int].weight,
            position: next[j as int].position,
        }
        &&& after.snodes[after.sim_index[l]] == NodeView {
            label: l,
            weight: next[j as int].weight,
            position: next[j as int].sim_position,
        }
    } by {
        let l = node_label(j);
        if j < k {
            lemma_node_label_injective(j, k);
            assert(j < prev.len() && node_label(j) == l);
            assert(before.index.contains_key(l));
            assert(before.sim_index.dom().contains(l));
            assert(before.sim_index.contains_key(l));
            assert(prev[j as int] == next[j as int]);
        }
    }
}

/// Takes out of `pairing` every edge of `g` that touches `node`.
fn forget_edges_at(pairing: &mut HashMap<u32, u32>, g: &AppGraph, node: u32)
    requires
        old(pairing)@.dom() == g.edges().dom(),
    ensures
        final(pairing)@ == old(pairing)@.restrict(without_node(g.edges(), node).dom()),
{
    broadcast use vstd::std_specs::hash::group_hash_axioms;

    let ids = g.edge_indices();
    let mut k: usize = 0;
    while k < ids.len()
        invariant
            k <= ids.len(),
            lists_keys(ids@, g.edges().dom()),
            old(pairing)@.dom() == g.edges().dom(),
            forall|e: u32| #[trigger]
                pairing@.contains_key(e) <==> old(pairing)@.contains_key(e) && !(ids@.take(
                    k as int,
                ).contains(e) && (g.edges()[e].source == node || g.edges()[e].target == node)),
            forall|e: u32| #[trigger] pairing@.contains_key(e) ==> pairing@[e] == old(pairing)@[e],
        decreases ids.len() - k,
    {
        let e = ids[k];
        proof {
            let prev = ids@.take(k as int);
            let next = ids@.take(k + 1);
            assert(ids@.to_set().contains(e));
            assert forall|x: u32| next.contains(x) <==> (prev.contains(x) || x == e) by {
                if next.contains(x) {
                    let j = choose|j: int| 0 <= j < next.len() && next[j] == x;
                    if j < k {
                        assert(prev[j] == x);
                    }
                }
                if prev.contains(x) {
                    let j = choose|j: int| 0 <= j < prev.len() && prev[j] == x;
                    assert(next[j] == x);
                }
                if x == e {
                    assert(next[k as int] == e);
                }
            }
        }
        match g.edge_endpoints(e) {
            Some((a, b)) => {
                if a == node || b == node {
                    pairing.remove(&e);
                }
            },
            None => {},
        }
        k = k + 1;
    }
    proof {
        assert(ids@.take(ids.len() as int) =~= ids@);
        assert forall|e: u32| g.edges().contains_key(e) implies ids@.contains(e) by {
            assert(ids@.to_set().contains(e));
        }
        assert(pairing@ =~= old(pairing)@.restrict(without_node(g.edges(), node).dom()));
    }
}

} // verus!
