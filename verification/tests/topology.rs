use graph_state::app::BasicApp;
use graph_state::app::DEFAULT_COOLOFF_FACTOR_BITS;
use graph_state::app::DEFAULT_DT_BITS;
use graph_state::app::DEFAULT_EDGE_COUNT;
use graph_state::app::DEFAULT_NODE_COUNT;
use graph_state::app::DEFAULT_SCALE_BITS;
use graph_state::values::NodeSeed;
use graph_state::values::Position;
use graph_state::values::Scalar;

fn number(v: f32) -> Scalar {
    Scalar::from_bits(v.to_bits())
}

fn place(x: f32, y: f32) -> Position {
    Position::from_bits(x.to_bits(), y.to_bits())
}

fn seeds(n: usize) -> Vec<NodeSeed> {
    (0..n)
        .map(|k| NodeSeed {
            weight: number(1.0 + k as f32),
            position: place(10.0 * k as f32, -5.0 * k as f32),
            sim_position: place(0.5 * k as f32, 0.25 * k as f32),
        })
        .collect()
}

fn weights(n: usize) -> Vec<Scalar> {
    (0..n).map(|k| number(1.0 + 0.5 * k as f32)).collect()
}

fn labels_of(app: &BasicApp) -> Vec<String> {
    let g = app.display_graph();
    let mut labels: Vec<String> = g.node_indices().iter().map(|i| g.node(*i).unwrap().payload.label.clone()).collect();
    labels.sort();
    labels
}

fn nodes_of(app: &BasicApp) -> Vec<(String, Scalar, Position)> {
    let g = app.display_graph();
    let mut nodes: Vec<(String, Scalar, Position)> = g
        .node_indices()
        .iter()
        .map(|i| {
            let n = g.node(*i).unwrap();
            (n.payload.label.clone(), n.payload.weight, n.position)
        })
        .collect();
    nodes.sort_by(|a, b| a.0.cmp(&b.0));
    nodes
}

fn sim_nodes_of(app: &BasicApp) -> Vec<(String, Scalar, Position)> {
    let mut nodes: Vec<(String, Scalar, Position)> =
        app.sim_graph().node_weights().map(|n| (n.payload.label.clone(), n.payload.weight, n.position)).collect();
    nodes.sort_by(|a, b| a.0.cmp(&b.0));
    nodes
}

fn links_of(app: &BasicApp) -> Vec<(String, String, String, u32)> {
    let g = app.display_graph();
    let mut links: Vec<(String, String, String, u32)> = g
        .edge_indices()
        .iter()
        .map(|e| {
            let (a, b) = g.edge_endpoints(*e).unwrap();
            let payload = g.edge(*e).unwrap();
            (
                g.node(a).unwrap().payload.label.clone(),
                g.node(b).unwrap().payload.label.clone(),
                payload.label.clone(),
                payload.weight.to_bits(),
            )
        })
        .collect();
    links.sort();
    links
}

fn sim_links_of(app: &BasicApp) -> Vec<(String, String, String, u32)> {
    let g = app.sim_graph();
    let mut links: Vec<(String, String, String, u32)> = g
        .edge_indices()
        .map(|e| {
            let (a, b) = g.edge_endpoints(e).unwrap();
            let payload = g.edge_weight(e).unwrap();
            (
                g.node_weight(a).unwrap().payload.label.clone(),
                g.node_weight(b).unwrap().payload.label.clone(),
                payload.label.clone(),
                payload.weight.to_bits(),
            )
        })
        .collect();
    links.sort();
    links
}

#[test]
fn default_settings_are_the_documented_numbers() {
    assert_eq!(DEFAULT_DT_BITS, 0.035f32.to_bits());
    assert_eq!(DEFAULT_COOLOFF_FACTOR_BITS, 0.95f32.to_bits());
    assert_eq!(DEFAULT_SCALE_BITS, 100.0f32.to_bits());
    assert_eq!(DEFAULT_NODE_COUNT, 15);
    assert_eq!(DEFAULT_EDGE_COUNT, 20);
    let app = BasicApp::new(&seeds(0), &weights(0));
    assert_eq!(app.solver_settings().dt.to_bits(), 0.035f32.to_bits());
    assert_eq!(app.solver_settings().cooloff_factor.to_bits(), 0.95f32.to_bits());
    assert_eq!(app.solver_settings().scale.to_bits(), 100.0f32.to_bits());
    assert!(app.is_directed());
    assert!(app.display_graph().is_directed());
    assert!(!app.simulation_stopped());
}

#[test]
fn a_new_session_has_the_generated_nodes() {
    let app = BasicApp::new(&seeds(3), &weights(4));
    assert_eq!(
        nodes_of(&app),
        vec![
            ("node0".to_string(), number(1.0), place(0.0, -0.0)),
            ("node1".to_string(), number(2.0), place(10.0, -5.0)),
            ("node2".to_string(), number(3.0), place(20.0, -10.0)),
        ]
    );
    assert_eq!(
        sim_nodes_of(&app),
        vec![
            ("node0".to_string(), number(1.0), place(0.0, 0.0)),
            ("node1".to_string(), number(2.0), place(0.5, 0.25)),
            ("node2".to_string(), number(3.0), place(1.0, 0.5)),
        ]
    );
    assert_eq!(app.graph_nodes_count(), 3);
    assert!(app.graph_edges_count() <= 4);
    assert_eq!(app.display_graph().edge_count(), app.sim_graph().edge_count());
    assert_eq!(app.graph_edges_count(), app.display_graph().edge_count());
    for (from, to, _, _) in links_of(&app) {
        assert_ne!(from, to);
    }
    assert_eq!(links_of(&app), sim_links_of(&app));
}

#[test]
fn generation_tolerates_no_nodes() {
    let app = BasicApp::new(&seeds(0), &weights(7));
    assert_eq!(app.graph_nodes_count(), 0);
    assert_eq!(app.graph_edges_count(), 0);
    assert_eq!(app.sim_graph().node_count(), 0);
    assert_eq!(app.sim_graph().edge_count(), 0);
}

#[test]
fn generation_with_one_node_draws_no_edge() {
    let app = BasicApp::new(&seeds(1), &weights(9));
    assert_eq!(app.graph_nodes_count(), 1);
    assert_eq!(app.graph_edges_count(), 0);
}

#[test]
fn drawn_edge_joins_the_drawn_nodes() {
    let mut app = BasicApp::new(&seeds(4), &weights(0));
    assert_eq!(app.add_drawn_edge(2, 2, number(1.0)), None);
    assert_eq!(app.add_drawn_edge(2, 4, number(1.0)), None);
    assert_eq!(app.add_drawn_edge(9, 1, number(1.0)), None);
    assert_eq!(app.graph_edges_count(), 0);
    let e = app.add_drawn_edge(3, 1, number(4.5)).unwrap();
    assert_eq!(links_of(&app), vec![("node3".to_string(), "node1".to_string(), "边 3-1".to_string(), 4.5f32.to_bits())]);
    assert_eq!(links_of(&app), sim_links_of(&app));
    assert_eq!(app.display_graph().edge_endpoints(e), Some((app.node_index("node3").unwrap(), app.node_index("node1").unwrap())));
    assert_eq!(app.graph_edges_count(), 1);
}

#[test]
fn reset_replaces_the_graph_and_empties_the_selection() {
    let mut app = BasicApp::new(&seeds(5), &weights(5));
    app.set_selected_nodes(vec![0, 1]);
    app.set_selected_edges(vec![0]);
    app.set_directed(false);
    app.reset_graph_and_simulation(&seeds(2), &weights(3));
    assert_eq!(labels_of(&app), vec!["node0".to_string(), "node1".to_string()]);
    assert!(!app.display_graph().is_directed());
    assert!(app.selected_nodes().is_empty());
    assert!(app.selected_edges().is_empty());
    assert_eq!(app.graph_nodes_count(), 2);
    assert_eq!(app.sim_graph().node_count(), 2);
    assert!(app.graph_edges_count() <= 3);
    assert_eq!(app.sim_graph().edge_count(), app.graph_edges_count());
}

#[test]
fn scenario_converting_there_and_back_keeps_labels_and_edges() {
    let mut app = BasicApp::new(&seeds(5), &weights(5));
    let labels = labels_of(&app);
    let nodes = nodes_of(&app);
    let links = links_of(&app);
    assert_eq!(labels, vec!["node0", "node1", "node2", "node3", "node4"]);
    app.set_directed(false);
    app.convert_graph_direction();
    assert!(!app.display_graph().is_directed());
    assert_eq!(labels_of(&app), labels);
    assert_eq!(links_of(&app), links);
    app.set_directed(true);
    app.convert_graph_direction();
    assert!(app.display_graph().is_directed());
    assert_eq!(labels_of(&app), labels);
    assert_eq!(nodes_of(&app), nodes);
    assert_eq!(links_of(&app), links);
    assert_eq!(sim_links_of(&app), links);
    assert_eq!(app.graph_nodes_count(), 5);
    assert_eq!(app.graph_edges_count(), links.len());
}

#[test]
fn conversion_keeps_places_and_seeds_the_simulation_from_them() {
    let mut app = BasicApp::new(&seeds(3), &weights(0));
    app.add_edge_ui("node0".to_string(), "node2".to_string(), number(2.0)).unwrap();
    app.add_edge_ui("node2".to_string(), "node1".to_string(), number(3.0)).unwrap();
    app.remove_node_ui("node1".to_string()).unwrap();
    app.add_node_ui("late".to_string(), number(9.0), place(7.0, 8.0), place(0.7, 0.8)).unwrap();
    app.add_edge_ui("late".to_string(), "node0".to_string(), number(4.0)).unwrap();
    app.set_selected_nodes(vec![0]);
    let nodes = nodes_of(&app);
    let links = links_of(&app);
    app.set_directed(false);
    app.convert_graph_direction();
    assert!(!app.display_graph().is_directed());
    assert_eq!(nodes_of(&app), nodes);
    assert_eq!(sim_nodes_of(&app), nodes);
    assert_eq!(links_of(&app), links);
    assert_eq!(sim_links_of(&app), links);
    assert!(app.selected_nodes().is_empty());
    assert_eq!(app.display_graph().node_count(), 3);
    assert_eq!(app.sim_graph().node_count(), 3);
    assert_eq!(app.display_graph().edge_count(), 2);
    assert_eq!(app.sim_graph().edge_count(), 2);
    for label in ["node0", "node2", "late"] {
        let id = app.node_index(label).unwrap();
        assert_eq!(app.display_graph().node(id).unwrap().payload.label, label);
    }
    assert!(app.add_edge_ui("node2".to_string(), "late".to_string(), number(1.0)).is_ok());
    assert_eq!(app.sim_graph().edge_count(), 3);
}

#[test]
fn conversion_to_the_topology_at_hand_keeps_the_graph() {
    let mut app = BasicApp::new(&seeds(4), &weights(6));
    let nodes = nodes_of(&app);
    let links = links_of(&app);
    app.convert_graph_direction();
    assert!(app.display_graph().is_directed());
    assert_eq!(nodes_of(&app), nodes);
    assert_eq!(links_of(&app), links);
}

#[test]
fn generation_draws_edges_between_different_generated_nodes() {
    let app = BasicApp::new(&seeds(5), &weights(200));
    let links = links_of(&app);
    assert!(!links.is_empty());
    assert!(links.len() <= 200);
    assert_eq!(app.graph_edges_count(), links.len());
    assert_eq!(app.sim_graph().edge_count(), links.len());
    assert_eq!(sim_links_of(&app), links);
    let offered: Vec<u32> = weights(200).iter().map(|w| w.to_bits()).collect();
    for (from, to, label, weight) in links {
        let s: usize = from.strip_prefix("node").unwrap().parse().unwrap();
        let t: usize = to.strip_prefix("node").unwrap().parse().unwrap();
        assert!(s < 5 && t < 5);
        assert_ne!(s, t);
        assert_eq!(label, format!("边 {}-{}", s, t));
        assert!(offered.contains(&weight));
    }
}

#[test]
fn an_undirected_graph_takes_the_same_mutations() {
    let mut app = BasicApp::new(&seeds(4), &weights(0));
    app.set_directed(false);
    app.convert_graph_direction();
    assert!(!app.display_graph().is_directed());
    let first = app.add_edge_ui("node0".to_string(), "node1".to_string(), number(1.0)).unwrap();
    let second = app.add_edge_ui("node1".to_string(), "node2".to_string(), number(2.0)).unwrap();
    let third = app.add_edge_ui("node3".to_string(), "node0".to_string(), number(3.0)).unwrap();
    assert_eq!(app.display_graph().edge_endpoints(third), Some((app.node_index("node3").unwrap(), app.node_index("node0").unwrap())));
    assert_eq!(app.display_graph().node_count(), 4);
    assert_eq!(app.display_graph().edge_count(), 3);
    assert_eq!(app.sim_graph().edge_count(), 3);
    let added = app.add_node_ui("late".to_string(), number(5.0), place(1.0, 1.0), place(2.0, 2.0)).unwrap();
    assert_eq!(app.display_graph().node(added).unwrap().position, place(1.0, 1.0));
    assert_eq!(app.update_node_weight(added, number(6.0)), Ok(()));
    assert_eq!(app.display_graph().node(added).unwrap().payload.weight, number(6.0));
    *app.get_node_payload_mut(added).unwrap() = number(7.0);
    assert_eq!(app.display_graph().node(added).unwrap().payload.weight, number(7.0));
    assert_eq!(app.update_edge_weight(second, number(8.0)), Ok(()));
    assert_eq!(app.display_graph().edge(second).unwrap().weight, number(8.0));
    *app.get_edge_payload_mut(second).unwrap() = number(9.0);
    assert_eq!(app.display_graph().edge(second).unwrap().weight, number(9.0));
    app.sync_node_positions_to_egui();
    assert_eq!(app.display_graph().node(added).unwrap().position, place(2.0, 2.0));
    assert_eq!(app.remove_node_ui("node0".to_string()), Ok(()));
    assert_eq!(app.display_graph().edge_indices(), vec![second]);
    assert_eq!(app.sim_graph().edge_count(), 1);
    assert_eq!(app.display_graph().node_count(), 4);
    assert_eq!(app.sim_graph().node_count(), 4);
    app.set_selected_edges(vec![first, second, third]);
    assert_eq!(app.remove_selected_edges_ui(), 1);
    assert_eq!(app.display_graph().edge_count(), 0);
    assert_eq!(app.sim_graph().edge_count(), 0);
    assert_eq!(app.graph_edges_count(), 0);
    assert_eq!(labels_of(&app), vec!["late", "node1", "node2", "node3"]);
}
