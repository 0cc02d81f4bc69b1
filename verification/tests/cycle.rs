use egui_graphs::events::Event;
use egui_graphs::events::PayloadNodeClick;
use egui_graphs::events::PayloadNodeMove;
use graph_state::app::BasicApp;
use graph_state::events::NodeMoved;
use graph_state::values::NodeSeed;
use graph_state::values::Placement;
use graph_state::values::Position;
use graph_state::values::Scalar;

fn pos(x: f32, y: f32) -> Position {
    Position::from_bits(x.to_bits(), y.to_bits())
}

fn three_nodes() -> BasicApp {
    let seeds: Vec<NodeSeed> = (0..3)
        .map(|k| NodeSeed {
            weight: Scalar::from_bits(1.0f32.to_bits()),
            position: pos(100.0 + k as f32, 200.0 + k as f32),
            sim_position: pos(1.0 + k as f32, 2.0 + k as f32),
        })
        .collect();
    BasicApp::new(&seeds, &Vec::new())
}

fn sim_position(app: &BasicApp, label: &str) -> Position {
    let sid = app.sim_node_index(label).unwrap();
    app.sim_graph().node_weight(petgraph::stable_graph::NodeIndex::new(sid as usize)).unwrap().position
}

fn display_position(app: &BasicApp, label: &str) -> Position {
    let id = app.node_index(label).unwrap();
    app.display_graph().node(id).unwrap().position
}

#[test]
fn a_moved_node_takes_the_reported_place_in_the_simulation() {
    let mut app = three_nodes();
    let id = app.node_index("node1").unwrap();
    let touched = app.apply_node_move(NodeMoved { node_id: id as usize, position: pos(5.0, 6.0) });
    assert_eq!(touched, app.sim_node_index("node1"));
    assert_eq!(sim_position(&app, "node1"), pos(5.0, 6.0));
    assert_eq!(sim_position(&app, "node0"), pos(1.0, 2.0));
    assert_eq!(display_position(&app, "node1"), pos(101.0, 201.0));
}

#[test]
fn a_move_of_an_unknown_node_is_ignored() {
    let mut app = three_nodes();
    assert_eq!(app.apply_node_move(NodeMoved { node_id: 17, position: pos(5.0, 6.0) }), None);
    assert_eq!(app.apply_node_move(NodeMoved { node_id: usize::MAX, position: pos(5.0, 6.0) }), None);
    for (k, label) in ["node0", "node1", "node2"].iter().enumerate() {
        assert_eq!(sim_position(&app, label), pos(1.0 + k as f32, 2.0 + k as f32));
    }
}

#[test]
fn events_are_taken_from_the_intake_in_order() {
    let mut app = three_nodes();
    let id = app.node_index("node2").unwrap() as usize;
    let sender = app.event_publisher().clone();
    sender.send(Event::NodeMove(PayloadNodeMove { id, diff: [0.0, 0.0], new_pos: [7.0, 8.0] })).unwrap();
    sender.send(Event::NodeClick(PayloadNodeClick { id })).unwrap();
    sender.send(Event::NodeMove(PayloadNodeMove { id: 99, diff: [0.0, 0.0], new_pos: [1.0, 1.0] })).unwrap();
    sender.send(Event::NodeMove(PayloadNodeMove { id, diff: [0.0, 0.0], new_pos: [9.0, -10.5] })).unwrap();
    let sid = app.sim_node_index("node2").unwrap();
    assert_eq!(app.handle_events(), vec![sid, sid]);
    assert_eq!(sim_position(&app, "node2"), pos(9.0, -10.5));
    assert_eq!(sim_position(&app, "node0"), pos(1.0, 2.0));
    assert_eq!(app.handle_events(), Vec::<u32>::new());
    assert_eq!(app.sim_graph().node_count(), 3);
}

#[test]
fn a_step_of_the_solver_moves_the_simulation_nodes() {
    let mut app = three_nodes();
    let s0 = app.sim_node_index("node0").unwrap();
    let s2 = app.sim_node_index("node2").unwrap();
    let step = vec![
        Placement { node: s0, position: pos(-1.0, -2.0) },
        Placement { node: 55, position: pos(3.0, 3.0) },
        Placement { node: s2, position: pos(4.0, 4.0) },
        Placement { node: s0, position: pos(-3.0, -4.0) },
    ];
    app.update_simulation(&step);
    assert_eq!(sim_position(&app, "node0"), pos(-3.0, -4.0));
    assert_eq!(sim_position(&app, "node1"), pos(2.0, 3.0));
    assert_eq!(sim_position(&app, "node2"), pos(4.0, 4.0));
    assert_eq!(display_position(&app, "node0"), pos(100.0, 200.0));
}

#[test]
fn a_paused_solver_moves_nothing() {
    let mut app = three_nodes();
    let s0 = app.sim_node_index("node0").unwrap();
    app.pause_simulation(true);
    app.update_simulation(&vec![Placement { node: s0, position: pos(-1.0, -2.0) }]);
    assert_eq!(sim_position(&app, "node0"), pos(1.0, 2.0));
    app.pause_simulation(false);
    app.update_simulation(&vec![Placement { node: s0, position: pos(-1.0, -2.0) }]);
    assert_eq!(sim_position(&app, "node0"), pos(-1.0, -2.0));
}

#[test]
fn positions_go_from_the_simulation_to_the_display() {
    let mut app = three_nodes();
    app.remove_node_ui("node0".to_string()).unwrap();
    app.add_node_ui("late".to_string(), Scalar::from_bits(0), pos(50.0, 60.0), pos(0.5, 0.6)).unwrap();
    app.sync_node_positions_to_egui();
    assert_eq!(display_position(&app, "node1"), pos(2.0, 3.0));
    assert_eq!(display_position(&app, "node2"), pos(3.0, 4.0));
    assert_eq!(display_position(&app, "late"), pos(0.5, 0.6));
    assert_eq!(sim_position(&app, "late"), pos(0.5, 0.6));
}

#[test]
fn positions_go_from_the_display_to_the_simulation() {
    let mut app = three_nodes();
    app.remove_node_ui("node1".to_string()).unwrap();
    app.add_node_ui("late".to_string(), Scalar::from_bits(0), pos(50.0, 60.0), pos(0.5, 0.6)).unwrap();
    app.sync_egui_positions_to_fdg();
    assert_eq!(sim_position(&app, "node0"), pos(100.0, 200.0));
    assert_eq!(sim_position(&app, "node2"), pos(102.0, 202.0));
    assert_eq!(sim_position(&app, "late"), pos(50.0, 60.0));
    assert_eq!(display_position(&app, "late"), pos(50.0, 60.0));
}

#[test]
fn one_cycle_takes_the_drag_then_the_step_then_shows_it() {
    let mut app = three_nodes();
    let id = app.node_index("node1").unwrap() as usize;
    let sender = app.event_publisher().clone();
    sender.send(Event::NodeMove(PayloadNodeMove { id, diff: [0.0, 0.0], new_pos: [40.0, 41.0] })).unwrap();
    let touched = app.handle_events();
    assert_eq!(touched, vec![app.sim_node_index("node1").unwrap()]);
    app.update_simulation(&Vec::new());
    app.sync_node_positions_to_egui();
    assert_eq!(display_position(&app, "node1"), pos(40.0, 41.0));
    assert_eq!(display_position(&app, "node0"), pos(1.0, 2.0));
}
