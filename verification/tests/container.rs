use graph_state::app_graph::AppGraph;
use graph_state::values::EdgePayload;
use graph_state::values::NodePayload;
use graph_state::values::PlacedNode;
use graph_state::values::Position;
use graph_state::values::Scalar;

fn node(label: &str, weight: u32) -> PlacedNode {
    PlacedNode {
        payload: NodePayload { label: label.to_string(), weight: Scalar::from_bits(weight) },
        position: Position::from_bits(weight, weight + 1),
    }
}

fn edge(label: &str, weight: u32) -> EdgePayload {
    EdgePayload { label: label.to_string(), weight: Scalar::from_bits(weight) }
}

fn exercise(directed: bool) {
    let mut g = AppGraph::new(directed);
    assert_eq!(g.is_directed(), directed);
    assert_eq!((g.node_count(), g.edge_count()), (0, 0));
    let a = g.add_node(node("a", 1));
    let b = g.add_node(node("b", 2));
    let c = g.add_node(node("c", 3));
    assert_eq!(g.node_indices(), vec![a, b, c]);
    assert!(a < b && b < c);
    let ab = g.add_edge(a, b, edge("ab", 10));
    let bc = g.add_edge(b, c, edge("bc", 20));
    let ca = g.add_edge(c, a, edge("ca", 30));
    assert_eq!(g.edge_indices(), vec![ab, bc, ca]);
    assert_eq!((g.node_count(), g.edge_count()), (3, 3));
    assert_eq!(g.edge_endpoints(ca), Some((c, a)));
    assert_eq!(g.edge_endpoints(99), None);
    assert_eq!(g.edge(bc).unwrap().label, "bc");
    assert!(g.edge(99).is_none());
    assert_eq!(g.node(b).unwrap().payload.label, "b");
    assert!(g.node(99).is_none());
    assert!(g.set_position(b, Position::from_bits(7, 8)));
    assert_eq!(g.node(b).unwrap().position, Position::from_bits(7, 8));
    assert_eq!(g.node(b).unwrap().payload.weight, Scalar::from_bits(2));
    assert!(!g.set_position(99, Position::from_bits(7, 8)));
    assert!(g.set_node_weight(b, Scalar::from_bits(5)));
    assert_eq!(g.node(b).unwrap().payload.weight, Scalar::from_bits(5));
    assert_eq!(g.node(b).unwrap().position, Position::from_bits(7, 8));
    assert!(!g.set_node_weight(99, Scalar::from_bits(5)));
    assert!(g.set_edge_weight(bc, Scalar::from_bits(21)));
    assert_eq!(g.edge(bc).unwrap().weight, Scalar::from_bits(21));
    assert_eq!(g.edge(bc).unwrap().label, "bc");
    assert!(!g.set_edge_weight(99, Scalar::from_bits(21)));
    let removed = g.remove_edge(ab).unwrap();
    assert_eq!(removed.label, "ab");
    assert_eq!(removed.weight, Scalar::from_bits(10));
    assert!(g.remove_edge(ab).is_none());
    assert_eq!(g.edge_indices(), vec![bc, ca]);
    let gone = g.remove_node(c).unwrap();
    assert_eq!(gone.payload.label, "c");
    assert_eq!(gone.position, Position::from_bits(3, 4));
    assert!(g.remove_node(c).is_none());
    assert_eq!(g.node_indices(), vec![a, b]);
    assert_eq!(g.edge_indices(), Vec::<u32>::new());
    assert_eq!((g.node_count(), g.edge_count()), (2, 0));
    let d = g.add_node(node("d", 4));
    assert!(d != a && d != b);
    assert_eq!(g.node(d).unwrap().payload.label, "d");
    let bd = g.add_edge(b, d, edge("bd", 40));
    assert_eq!(g.edge_endpoints(bd), Some((b, d)));
    assert_eq!((g.node_count(), g.edge_count()), (3, 1));
}

#[test]
fn a_directed_graph_stores_nodes_and_edges() {
    exercise(true);
}

#[test]
fn an_undirected_graph_stores_nodes_and_edges() {
    exercise(false);
}
