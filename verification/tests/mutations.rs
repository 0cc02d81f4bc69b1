use graph_state::app::BasicApp;
use graph_state::app::SolverSettings;
use graph_state::values::GraphError;
use graph_state::values::NodePayload;
use graph_state::values::EdgePayload;
use graph_state::values::Position;
use graph_state::values::Scalar;

fn scalar(v: f32) -> Scalar {
    Scalar::from_bits(v.to_bits())
}

fn at(x: f32, y: f32) -> Position {
    Position::from_bits(x.to_bits(), y.to_bits())
}

fn settings() -> SolverSettings {
    SolverSettings { dt: scalar(0.035), cooloff_factor: scalar(0.95), scale: scalar(100.0) }
}

fn two_nodes() -> BasicApp {
    let mut app = BasicApp::empty(settings());
    app.add_node_ui("A".to_string(), scalar(1.0), at(1.0, 2.0), at(0.1, 0.2)).unwrap();
    app.add_node_ui("B".to_string(), scalar(2.0), at(3.0, 4.0), at(0.3, 0.4)).unwrap();
    app
}

fn counts(app: &BasicApp) -> (usize, usize, usize, usize) {
    (
        app.display_graph().node_count(),
        app.display_graph().edge_count(),
        app.sim_graph().node_count(),
        app.sim_graph().edge_count(),
    )
}

#[test]
fn scenario_add_two_nodes_and_an_edge_then_remove_a_node() {
    let seeds = Vec::new();
    let weights = Vec::new();
    let mut app = BasicApp::new(&seeds, &weights);
    assert_eq!(counts(&app), (0, 0, 0, 0));
    assert!(app.add_node_ui("A".to_string(), scalar(1.0), at(1.0, 2.0), at(0.1, 0.2)).is_ok());
    assert!(app.add_node_ui("B".to_string(), scalar(2.0), at(3.0, 4.0), at(0.3, 0.4)).is_ok());
    assert!(app.add_edge_ui("A".to_string(), "B".to_string(), scalar(3.0)).is_ok());
    assert_eq!(app.graph_nodes_count(), 2);
    assert_eq!(app.graph_edges_count(), 1);
    assert_eq!(counts(&app), (2, 1, 2, 1));
    assert_eq!(app.remove_node_ui("A".to_string()), Ok(()));
    assert_eq!(app.graph_nodes_count(), 1);
    assert_eq!(app.graph_edges_count(), 0);
    assert_eq!(counts(&app), (1, 0, 1, 0));
}

#[test]
fn added_node_is_stored_in_both_graphs() {
    let mut app = BasicApp::empty(settings());
    let id = app.add_node_ui("A".to_string(), scalar(1.5), at(1.0, 2.0), at(0.1, 0.2)).unwrap();
    assert_eq!(app.node_index("A"), Some(id));
    let shown = app.display_graph().node(id).unwrap();
    assert_eq!(shown.payload.label, "A");
    assert_eq!(shown.payload.weight, scalar(1.5));
    assert_eq!(shown.position, at(1.0, 2.0));
    let sid = app.sim_node_index("A").unwrap();
    let simulated = app.sim_graph().node_weight(petgraph::stable_graph::NodeIndex::new(sid as usize)).unwrap();
    assert_eq!(simulated.payload.label, "A");
    assert_eq!(simulated.payload.weight, scalar(1.5));
    assert_eq!(simulated.position, at(0.1, 0.2));
}

#[test]
fn add_node_refuses_an_empty_label() {
    let mut app = two_nodes();
    assert_eq!(
        app.add_node_ui(String::new(), scalar(1.0), at(0.0, 0.0), at(0.0, 0.0)),
        Err(GraphError::InvalidOperation)
    );
    assert_eq!(counts(&app), (2, 0, 2, 0));
}

#[test]
fn add_node_refuses_a_label_that_is_there_and_changes_nothing() {
    let mut app = two_nodes();
    let id = app.node_index("A").unwrap();
    assert_eq!(
        app.add_node_ui("A".to_string(), scalar(9.0), at(9.0, 9.0), at(9.0, 9.0)),
        Err(GraphError::DuplicateLabel)
    );
    assert_eq!(counts(&app), (2, 0, 2, 0));
    assert_eq!(app.graph_nodes_count(), 2);
    assert_eq!(app.node_index("A"), Some(id));
    let shown = app.display_graph().node(id).unwrap();
    assert_eq!(shown.payload.weight, scalar(1.0));
    assert_eq!(shown.position, at(1.0, 2.0));
}

#[test]
fn add_edge_joins_the_two_labels_in_both_graphs() {
    let mut app = two_nodes();
    let e = app.add_edge_ui("A".to_string(), "B".to_string(), scalar(3.0)).unwrap();
    let a = app.node_index("A").unwrap();
    let b = app.node_index("B").unwrap();
    assert_eq!(app.display_graph().edge_endpoints(e), Some((a, b)));
    let payload = app.display_graph().edge(e).unwrap();
    assert_eq!(payload.label, "边: A->B");
    assert_eq!(payload.weight, scalar(3.0));
    let f = app.sim_edge_index(e).unwrap();
    let sim = app.sim_graph();
    let ends = sim.edge_endpoints(petgraph::stable_graph::EdgeIndex::new(f as usize)).unwrap();
    assert_eq!(ends.0.index() as u32, app.sim_node_index("A").unwrap());
    assert_eq!(ends.1.index() as u32, app.sim_node_index("B").unwrap());
    let sim_payload = sim.edge_weight(petgraph::stable_graph::EdgeIndex::new(f as usize)).unwrap();
    assert_eq!(sim_payload.label, "边: A->B");
    assert_eq!(sim_payload.weight, scalar(3.0));
}

#[test]
fn add_edge_refuses_a_self_loop() {
    let mut app = two_nodes();
    assert_eq!(
        app.add_edge_ui("A".to_string(), "A".to_string(), scalar(3.0)),
        Err(GraphError::InvalidOperation)
    );
    assert_eq!(counts(&app), (2, 0, 2, 0));
}

#[test]
fn add_edge_refuses_an_empty_label() {
    let mut app = two_nodes();
    assert_eq!(app.add_edge_ui(String::new(), "A".to_string(), scalar(3.0)), Err(GraphError::InvalidOperation));
    assert_eq!(app.add_edge_ui("A".to_string(), String::new(), scalar(3.0)), Err(GraphError::InvalidOperation));
    assert_eq!(counts(&app), (2, 0, 2, 0));
}

#[test]
fn add_edge_refuses_a_label_that_no_node_bears() {
    let mut app = two_nodes();
    assert_eq!(app.add_edge_ui("A".to_string(), "C".to_string(), scalar(3.0)), Err(GraphError::NotFound));
    assert_eq!(app.add_edge_ui("C".to_string(), "A".to_string(), scalar(3.0)), Err(GraphError::NotFound));
    assert_eq!(counts(&app), (2, 0, 2, 0));
}

#[test]
fn remove_node_refuses_an_empty_and_an_unknown_label() {
    let mut app = two_nodes();
    assert_eq!(app.remove_node_ui(String::new()), Err(GraphError::InvalidOperation));
    assert_eq!(app.remove_node_ui("C".to_string()), Err(GraphError::NotFound));
    assert_eq!(counts(&app), (2, 0, 2, 0));
}

#[test]
fn remove_node_takes_its_edges_along_and_leaves_the_others() {
    let mut app = two_nodes();
    app.add_node_ui("C".to_string(), scalar(3.0), at(5.0, 6.0), at(0.5, 0.6)).unwrap();
    app.add_edge_ui("A".to_string(), "B".to_string(), scalar(1.0)).unwrap();
    app.add_edge_ui("C".to_string(), "A".to_string(), scalar(2.0)).unwrap();
    let kept = app.add_edge_ui("B".to_string(), "C".to_string(), scalar(3.0)).unwrap();
    assert_eq!(counts(&app), (3, 3, 3, 3));
    assert_eq!(app.remove_node_ui("A".to_string()), Ok(()));
    assert_eq!(counts(&app), (2, 1, 2, 1));
    assert_eq!(app.node_index("A"), None);
    assert_eq!(app.sim_node_index("A"), None);
    assert_eq!(app.display_graph().edge_indices(), vec![kept]);
    assert_eq!(app.display_graph().edge(kept).unwrap().label, "边: B->C");
    let f = app.sim_edge_index(kept).unwrap();
    let sim_payload = app.sim_graph().edge_weight(petgraph::stable_graph::EdgeIndex::new(f as usize)).unwrap();
    assert_eq!(sim_payload.label, "边: B->C");
    for id in app.display_graph().node_indices() {
        assert_ne!(app.display_graph().node(id).unwrap().payload.label, "A");
    }
    for node in app.sim_graph().node_weights() {
        assert_ne!(node.payload.label, "A");
    }
}

#[test]
fn a_label_can_come_back_after_its_node_left() {
    let mut app = two_nodes();
    app.add_edge_ui("A".to_string(), "B".to_string(), scalar(1.0)).unwrap();
    app.remove_node_ui("A".to_string()).unwrap();
    assert!(app.add_node_ui("A".to_string(), scalar(7.0), at(7.0, 7.0), at(0.7, 0.7)).is_ok());
    assert!(app.add_edge_ui("B".to_string(), "A".to_string(), scalar(1.0)).is_ok());
    assert_eq!(counts(&app), (2, 1, 2, 1));
}

#[test]
fn counts_agree_after_every_mutation() {
    let mut app = BasicApp::empty(settings());
    let labels = ["a", "b", "c", "d", "e"];
    for l in labels {
        app.add_node_ui(l.to_string(), scalar(1.0), at(0.0, 0.0), at(0.0, 0.0)).unwrap();
        let c = counts(&app);
        assert_eq!((c.0, c.1), (c.2, c.3));
    }
    let mut edges = Vec::new();
    for (from, to) in [("a", "b"), ("b", "c"), ("c", "a"), ("d", "e"), ("a", "b"), ("e", "a")] {
        edges.push(app.add_edge_ui(from.to_string(), to.to_string(), scalar(1.0)).unwrap());
        let c = counts(&app);
        assert_eq!((c.0, c.1), (c.2, c.3));
    }
    app.remove_node_ui("b".to_string()).unwrap();
    assert_eq!(counts(&app), (4, 3, 4, 3));
    app.set_selected_edges(vec![edges[2], edges[3]]);
    assert_eq!(app.remove_selected_edges_ui(), 2);
    assert_eq!(counts(&app), (4, 1, 4, 1));
    app.add_node_ui("b".to_string(), scalar(1.0), at(0.0, 0.0), at(0.0, 0.0)).unwrap();
    app.add_edge_ui("b".to_string(), "d".to_string(), scalar(1.0)).unwrap();
    assert_eq!(counts(&app), (5, 2, 5, 2));
    assert_eq!(app.graph_nodes_count(), 5);
    assert_eq!(app.graph_edges_count(), 2);
}

#[test]
fn remove_selected_edges_removes_them_and_clears_the_selection() {
    let mut app = two_nodes();
    let first = app.add_edge_ui("A".to_string(), "B".to_string(), scalar(1.0)).unwrap();
    let second = app.add_edge_ui("B".to_string(), "A".to_string(), scalar(2.0)).unwrap();
    app.set_selected_edges(vec![first]);
    assert_eq!(app.selected_edges(), &vec![first]);
    assert_eq!(app.remove_selected_edges_ui(), 1);
    assert!(app.selected_edges().is_empty());
    assert_eq!(counts(&app), (2, 1, 2, 1));
    assert_eq!(app.display_graph().edge_indices(), vec![second]);
    assert_eq!(app.sim_edge_index(first), None);
    assert_eq!(app.graph_edges_count(), 1);
}

#[test]
fn remove_selected_edges_passes_over_what_is_no_edge() {
    let mut app = two_nodes();
    let first = app.add_edge_ui("A".to_string(), "B".to_string(), scalar(1.0)).unwrap();
    app.set_selected_edges(vec![first, first, 77]);
    assert_eq!(app.remove_selected_edges_ui(), 1);
    assert_eq!(counts(&app), (2, 0, 2, 0));
    assert_eq!(app.remove_selected_edges_ui(), 0);
}

#[test]
fn add_edge_between_selected_nodes_joins_the_two() {
    let mut app = two_nodes();
    let a = app.node_index("A").unwrap();
    let b = app.node_index("B").unwrap();
    app.set_selected_nodes(vec![b, a]);
    let e = app.add_edge_between_selected_nodes(scalar(4.0)).unwrap();
    assert_eq!(app.display_graph().edge_endpoints(e), Some((b, a)));
    assert_eq!(app.display_graph().edge(e).unwrap().label, "边: B->A");
    assert_eq!(app.display_graph().edge(e).unwrap().weight, scalar(4.0));
    assert_eq!(counts(&app), (2, 1, 2, 1));
    assert_eq!(app.selected_nodes(), &vec![b, a]);
}

#[test]
fn add_edge_between_selected_nodes_wants_two_different_nodes() {
    let mut app = two_nodes();
    let a = app.node_index("A").unwrap();
    assert_eq!(app.add_edge_between_selected_nodes(scalar(4.0)), Err(GraphError::InvalidOperation));
    app.set_selected_nodes(vec![a]);
    assert_eq!(app.add_edge_between_selected_nodes(scalar(4.0)), Err(GraphError::InvalidOperation));
    app.set_selected_nodes(vec![a, a]);
    assert_eq!(app.add_edge_between_selected_nodes(scalar(4.0)), Err(GraphError::InvalidOperation));
    app.set_selected_nodes(vec![a, 99]);
    assert_eq!(app.add_edge_between_selected_nodes(scalar(4.0)), Err(GraphError::NotFound));
    assert_eq!(counts(&app), (2, 0, 2, 0));
}

#[test]
fn update_node_weight_changes_both_copies() {
    let mut app = two_nodes();
    let a = app.node_index("A").unwrap();
    assert_eq!(app.update_node_weight(a, scalar(8.0)), Ok(()));
    assert_eq!(app.display_graph().node(a).unwrap().payload.weight, scalar(8.0));
    let sid = app.sim_node_index("A").unwrap();
    let simulated = app.sim_graph().node_weight(petgraph::stable_graph::NodeIndex::new(sid as usize)).unwrap();
    assert_eq!(simulated.payload.weight, scalar(8.0));
    assert_eq!(simulated.position, at(0.1, 0.2));
    assert_eq!(app.update_node_weight(99, scalar(8.0)), Err(GraphError::NotFound));
}

#[test]
fn update_edge_weight_changes_both_copies() {
    let mut app = two_nodes();
    let e = app.add_edge_ui("A".to_string(), "B".to_string(), scalar(1.0)).unwrap();
    assert_eq!(app.update_edge_weight(e, scalar(6.0)), Ok(()));
    assert_eq!(app.display_graph().edge(e).unwrap().weight, scalar(6.0));
    let f = app.sim_edge_index(e).unwrap();
    let sim_payload = app.sim_graph().edge_weight(petgraph::stable_graph::EdgeIndex::new(f as usize)).unwrap();
    assert_eq!(sim_payload.weight, scalar(6.0));
    assert_eq!(sim_payload.label, "边: A->B");
    assert_eq!(app.update_edge_weight(99, scalar(6.0)), Err(GraphError::NotFound));
}

#[test]
fn payload_of_a_display_node_is_changed_in_place() {
    let mut app = two_nodes();
    let a = app.node_index("A").unwrap();
    *app.get_node_payload_mut(a).unwrap() = scalar(5.5);
    assert_eq!(app.display_graph().node(a).unwrap().payload.weight, scalar(5.5));
    assert_eq!(app.display_graph().node(a).unwrap().payload.label, "A");
    assert!(app.get_node_payload_mut(99).is_none());
    let sid = app.sim_node_index("A").unwrap();
    let simulated = app.sim_graph().node_weight(petgraph::stable_graph::NodeIndex::new(sid as usize)).unwrap();
    assert_eq!(simulated.payload.weight, scalar(1.0));
    let copy = NodePayload { label: "A".to_string(), weight: scalar(5.5) };
    assert_eq!(app.update_fdg_node_payload(a, copy), Ok(()));
    let simulated = app.sim_graph().node_weight(petgraph::stable_graph::NodeIndex::new(sid as usize)).unwrap();
    assert_eq!(simulated.payload.weight, scalar(5.5));
    let other = NodePayload { label: "B".to_string(), weight: scalar(5.5) };
    assert_eq!(app.update_fdg_node_payload(a, other), Err(GraphError::InvalidOperation));
    let lost = NodePayload { label: "A".to_string(), weight: scalar(5.5) };
    assert_eq!(app.update_fdg_node_payload(99, lost), Err(GraphError::NotFound));
}

#[test]
fn payload_of_a_display_edge_is_changed_in_place() {
    let mut app = two_nodes();
    let e = app.add_edge_ui("A".to_string(), "B".to_string(), scalar(1.0)).unwrap();
    *app.get_edge_payload_mut(e).unwrap() = scalar(2.5);
    assert_eq!(app.display_graph().edge(e).unwrap().weight, scalar(2.5));
    assert!(app.get_edge_payload_mut(99).is_none());
    let f = app.sim_edge_index(e).unwrap();
    let copy = EdgePayload { label: "边: A->B".to_string(), weight: scalar(2.5) };
    assert_eq!(app.update_fdg_edge_payload(e, copy), Ok(()));
    let sim_payload = app.sim_graph().edge_weight(petgraph::stable_graph::EdgeIndex::new(f as usize)).unwrap();
    assert_eq!(sim_payload.weight, scalar(2.5));
    let other = EdgePayload { label: "x".to_string(), weight: scalar(2.5) };
    assert_eq!(app.update_fdg_edge_payload(e, other), Err(GraphError::InvalidOperation));
    let lost = EdgePayload { label: "边: A->B".to_string(), weight: scalar(2.5) };
    assert_eq!(app.update_fdg_edge_payload(99, lost), Err(GraphError::NotFound));
}

#[test]
fn settings_are_kept_as_given() {
    let mut app = BasicApp::empty(settings());
    assert_eq!(app.solver_settings(), settings());
    assert!(app.is_directed());
    assert!(!app.simulation_stopped());
    app.pause_simulation(true);
    assert!(app.simulation_stopped());
    app.set_directed(false);
    assert!(!app.is_directed());
    assert!(app.display_graph().is_directed());
    let changed = SolverSettings { dt: scalar(0.01), cooloff_factor: scalar(0.5), scale: scalar(10.0) };
    app.set_solver_settings(changed);
    assert_eq!(app.solver_settings(), changed);
}
